use spaceadom::overlay_boot::{
    overlay_settle, plan, since_start, AttemptQueue, BootFacts, OverlayBoot, Skip, OVERLAY_SETTLE_MS,
};
use spaceadom::AUTOSTART_SETTLE_SECS;
use std::time::Duration;

fn autostart_at(ms: u64) -> BootFacts {
    BootFacts {
        autostart: true,
        safe_mode: false,
        windows_created: false,
        overlay_exists: false,
        demanded: false,
        since_start: Duration::from_millis(ms),
    }
}

#[test]
fn waits_before_the_overlay_settle() {
    assert_eq!(plan(autostart_at(0)), OverlayBoot::WaitLonger(overlay_settle()));
    assert_eq!(plan(autostart_at(200)), OverlayBoot::WaitLonger(Duration::from_millis(1000)));
}

#[test]
fn creates_at_the_overlay_settle() {
    assert_eq!(plan(autostart_at(overlay_settle().as_millis() as u64)), OverlayBoot::CreateNow);
    assert_eq!(plan(autostart_at(5_000)), OverlayBoot::CreateNow);
}

#[test]
fn the_overlay_does_not_wait_the_full_autostart_settle() {
    assert!(overlay_settle() < Duration::from_secs(AUTOSTART_SETTLE_SECS));
    assert_eq!(plan(autostart_at(1_500)), OverlayBoot::CreateNow);
}

#[test]
fn a_hold_beats_the_timer() {
    let mut f = autostart_at(50);
    assert!(matches!(plan(f), OverlayBoot::WaitLonger(_)));
    f.demanded = true;
    assert_eq!(plan(f), OverlayBoot::CreateNow);
}

#[test]
fn safe_mode_wins_over_everything() {
    let mut f = autostart_at(9_000);
    f.safe_mode = true;
    assert_eq!(plan(f), OverlayBoot::NothingToDo(Skip::SafeMode));
    f.demanded = true;
    assert_eq!(plan(f), OverlayBoot::NothingToDo(Skip::SafeMode));
    f.overlay_exists = true;
    assert_eq!(plan(f), OverlayBoot::NothingToDo(Skip::SafeMode));
}

#[test]
fn an_existing_overlay_is_never_rebuilt() {
    let mut f = autostart_at(9_000);
    f.overlay_exists = true;
    assert_eq!(plan(f), OverlayBoot::NothingToDo(Skip::AlreadyThere));
    f.demanded = true;
    assert_eq!(plan(f), OverlayBoot::NothingToDo(Skip::AlreadyThere));
}

#[test]
fn the_full_creation_path_takes_over() {
    let mut f = autostart_at(20_000);
    f.windows_created = true;
    assert_eq!(plan(f), OverlayBoot::NothingToDo(Skip::FullCreationDone));
    f.demanded = true;
    assert_eq!(plan(f), OverlayBoot::NothingToDo(Skip::FullCreationDone));
}

#[test]
fn a_manual_launch_has_no_early_phase() {
    let mut f = autostart_at(0);
    f.autostart = false;
    assert_eq!(plan(f), OverlayBoot::NothingToDo(Skip::NotAnAutostartLaunch));
    f.demanded = true;
    assert_eq!(plan(f), OverlayBoot::NothingToDo(Skip::NotAnAutostartLaunch));
}

#[test]
fn the_remaining_wait_is_always_within_the_settle() {
    for ms in [0_u64, 1, 599, 1_199] {
        match plan(autostart_at(ms)) {
            OverlayBoot::WaitLonger(d) => {
                assert!(d > Duration::ZERO && d <= overlay_settle(), "ms={ms} d={d:?}");
            }
            other => panic!("ms={ms} gave {other:?}"),
        }
    }
}

#[test]
fn the_settle_is_twelve_hundred_milliseconds_to_the_nanosecond() {
    assert_eq!(overlay_settle(), Duration::from_millis(OVERLAY_SETTLE_MS));
    let f = BootFacts { since_start: Duration::from_nanos(1_199_999_999), ..autostart_at(0) };
    assert_eq!(plan(f), OverlayBoot::WaitLonger(Duration::from_nanos(1)));
    let f = BootFacts { since_start: Duration::from_nanos(1_200_000_000), ..autostart_at(0) };
    assert_eq!(plan(f), OverlayBoot::CreateNow);
}

#[test]
fn since_start_is_zero_until_marked() {
    assert_eq!(since_start(None, 5_000_000), Duration::ZERO);
    assert_eq!(since_start(Some(1_000), 1_500), Duration::from_nanos(500));
    assert_eq!(since_start(Some(2_000), 1_500), Duration::ZERO);
}

#[test]
fn only_one_early_attempt_is_queued_at_a_time() {
    let mut q = AttemptQueue::new();
    assert!(q.try_queue());
    assert!(!q.try_queue(), "a second hold adds nothing while one is queued");
    q.finished();
    assert!(q.try_queue());
}
