use spaceadom::pointer::{
    HookReadings, WatchOutcome, Watcher,
    apply_to, AimThrottle, HoldTracker, PointerState, TickFacts, TickStep, Verdict, DWELL_MS,
    MAX_CHIPS, TICK_HELD_MS,
};

#[test]
fn arm_sets_abort_and_drift_out_disarm_clears_it() {
    let mut aborted = false;
    let mut armed = -1;
    let (emit, refused) = apply_to(Verdict::Arm(3), &mut aborted, &mut armed);
    assert!(!refused);
    assert_eq!(emit, Some(Some(3)));
    assert!(aborted, "arming must set SPACE_ABORTED");
    assert_eq!(armed, 3);
    let (emit, refused) = apply_to(Verdict::DisarmClear, &mut aborted, &mut armed);
    assert!(!refused);
    assert_eq!(emit, Some(None));
    assert!(!aborted, "drift-out disarm must CLEAR SPACE_ABORTED or the user loses their space");
    assert_eq!(armed, -1);
}

#[test]
fn disarm_keep_leaves_someone_elses_abort_standing() {
    let mut aborted = true;
    let mut armed = 2;
    let (emit, _) = apply_to(Verdict::DisarmKeep, &mut aborted, &mut armed);
    assert_eq!(emit, Some(None));
    assert!(aborted, "a non-drift disarm must NOT clear an abort it does not own");
    assert_eq!(armed, -1);
}

#[test]
fn arming_into_an_already_aborted_hold_is_refused() {
    let mut aborted = true;
    let mut armed = -1;
    let (emit, refused) = apply_to(Verdict::Arm(0), &mut aborted, &mut armed);
    assert!(refused, "an already-aborted hold must refuse to arm");
    assert_eq!(emit, None);
    assert_eq!(armed, -1, "a refused arm must not publish");
    assert!(aborted);
}

#[test]
fn take_helpers_shape_is_publish_bounded() {
    let mut s = PointerState::new(true, 12);
    s.publish_keys(&[
        ("A".into(), "App".into()),
        ("Z".into(), "Zed".into()),
        ("".into(), "broken".into()),
    ]);
    assert_eq!(s.chip_key_count(), 3);
    assert_eq!(s.chip_key(0), 'a' as u32);
    assert_eq!(s.chip_key(1), 'z' as u32);
    assert_eq!(s.chip_key(2), 0, "an empty key must read invalid");
    assert_eq!(s.chip_geom_count(), 0);
    s.clear_chips();
    assert_eq!(s.chip_key_count(), 0);
}

#[test]
fn an_armed_key_is_taken_once_and_blocks_the_hold() {
    let mut s = PointerState::new(true, 12);
    s.publish_keys(&[("q".into(), "Q".into()), ("w".into(), "W".into())]);
    assert_eq!(s.take_armed_key(), None, "nothing armed yet");
    let mut aborted = false;
    assert_eq!(s.apply(Verdict::Arm(1), &mut aborted), (Some(Some(1)), false));
    assert!(aborted);
    assert_eq!(s.armed_index(), 1);
    assert_eq!(s.take_armed_key(), Some('w'));
    assert!(s.hold_blocked());
    assert_eq!(s.take_armed_key(), None, "a consumed arm cannot fire twice");
    // The setting off and no icon ring: nothing is taken, nothing changes.
    s.on_space_down();
    let _ = s.apply(Verdict::Shift(0), &mut aborted);
    s.set_activation(false);
    assert_eq!(s.take_armed_key(), None);
    assert_eq!(s.armed_index(), 0);
    // An index past the key table arms nothing but is still consumed.
    s.set_activation(true);
    let _ = s.apply(Verdict::Shift(5), &mut aborted);
    assert_eq!(s.take_armed_key(), None);
    assert_eq!(s.armed_index(), -1);
}

#[test]
fn the_icon_ring_codes_keep_letters_and_specials_only() {
    let mut s = PointerState::new(false, 10);
    s.publish_key_codes(&['m', '\u{E000}', '\u{E009}', '\u{E00A}', 'M', '1']);
    assert_eq!(s.chip_key_count(), 6);
    assert_eq!(s.chip_key(0), 'm' as u32);
    assert_eq!(s.chip_key(1), 0xE000);
    assert_eq!(s.chip_key(2), 0xE009);
    assert_eq!(s.chip_key(3), 0, "past the key table");
    assert_eq!(s.chip_key(4), 0, "upper case is not a chip key");
    assert_eq!(s.chip_key(5), 0);
    // The ring's snapshot makes pointing live even with the setting off.
    assert!(!s.ring_active());
    s.store_ring((100, 100), 60, &[(0, 0, 108), (0, 90_000, 108)], &[44, 44], false);
    assert!(s.ring_active());
    assert_eq!(s.centre(), Some((100, 100)));
    s.clear_chips();
    assert!(!s.ring_active());
    assert_eq!(s.centre(), None);
}

#[test]
fn a_click_eaten_down_owes_exactly_one_up() {
    let mut s = PointerState::new(true, 0);
    assert!(!s.eat_click_up());
    s.latch_click_eaten();
    assert!(s.eat_click_up());
    assert!(!s.eat_click_up());
    s.latch_click_eaten();
    s.reset_on_eviction();
    assert!(!s.eat_click_up());
    assert_eq!(s.armed_index(), -1);
}

#[test]
fn the_chip_snapshot_is_bounded_by_the_smaller_count() {
    let mut s = PointerState::new(true, 0);
    s.publish_keys(&[("a".into(), "A".into())]);
    s.store_chips(&[(0, 0, 10, 10), (20, 0, 30, 10)], (5, 5), 140, true);
    assert_eq!(s.chips_snapshot(), vec![(0, 0, 10, 10)]);
    let many: Vec<(i32, i32, i32, i32)> = (0..50).map(|i| (i, i, i + 1, i + 1)).collect();
    s.store_chips(&many, (0, 0), 140, false);
    assert_eq!(s.chip_geom_count(), MAX_CHIPS);
    assert_eq!(s.centre(), None);
    s.note_cursor(7, 8, 500);
    assert_eq!(s.cursor_for_hold(400), Some((7, 8)));
    assert_eq!(s.cursor_for_hold(600), None);
}

fn facts(hold: u64, cursor: Option<(i32, i32)>) -> TickFacts {
    TickFacts {
        enabled: true,
        modifier_active: true,
        hud_visible: true,
        blocked: false,
        hold_ts: hold,
        hold_start_cursor: Some((500, 0)),
        cursor,
        externally_disarmed: false,
        has_centre: true,
    }
}

fn tick(t: &mut HoldTracker, f: &TickFacts, hit: Option<usize>) -> Verdict {
    match t.begin_tick(f) {
        TickStep::Done(v) => v,
        TickStep::NoAim { live } => t.finish_tick(live, None, TICK_HELD_MS),
        TickStep::Aim { live } => t.finish_tick(live, hit, TICK_HELD_MS),
    }
}

#[test]
fn travel_one_px_short_never_arms_and_the_dwell_arms_on_its_tick() {
    let mut t = HoldTracker::new();
    let f = facts(1000, Some((523, 0)));
    for _ in 0..100 {
        assert_eq!(tick(&mut t, &f, Some(0)), Verdict::NoChange);
    }
    let f = facts(1000, Some((524, 0)));
    let mut ticks = 0;
    loop {
        ticks += 1;
        let v = tick(&mut t, &f, Some(0));
        if v == Verdict::Arm(0) {
            break;
        }
        assert_eq!(v, Verdict::NoChange);
    }
    assert_eq!(ticks as u64, (DWELL_MS + TICK_HELD_MS - 1) / TICK_HELD_MS);
    assert_eq!(t.armed(), Some(0));
    // Back in the dead zone of a live hold: the space is returned.
    assert_eq!(tick(&mut t, &f, None), Verdict::DisarmClear);
}

#[test]
fn a_consumed_arm_syncs_and_a_hidden_hud_keeps_the_abort() {
    let mut t = HoldTracker::new();
    let f = facts(7, Some((600, 0)));
    while tick(&mut t, &f, Some(2)) != Verdict::Arm(2) {}
    let mut gone = f;
    gone.externally_disarmed = true;
    assert_eq!(tick(&mut t, &gone, Some(2)), Verdict::SyncLost);
    assert_eq!(t.armed(), None);
    while tick(&mut t, &f, Some(2)) != Verdict::Arm(2) {}
    let mut hidden = f;
    hidden.hud_visible = false;
    assert_eq!(tick(&mut t, &hidden, Some(2)), Verdict::DisarmKeep);
    // A new hold resets everything.
    let fresh = facts(8, Some((500, 0)));
    assert_eq!(tick(&mut t, &fresh, Some(2)), Verdict::NoChange);
    t.cancel_arm();
    assert_eq!(t.armed(), None);
}

#[test]
fn the_aim_throttle_is_at_most_one_per_tick_and_only_on_change() {
    let mut a = AimThrottle::new();
    assert!(a.offer_key(0, Some(1000)), "first sample goes out");
    assert!(!a.offer_key(16, Some(1010)), "moved under the step: quiet");
    assert!(!a.offer_key(10, Some(2000)), "moved, but inside the gap: quiet");
    assert!(a.offer_key(16, Some(2000)), "moved and past the gap");
    assert!(!a.offer_key(2000, Some(2000)), "still: quiet however long it waits");
    assert!(a.offer_key(2016, None), "into the dead zone is a change");
    assert!(!a.offer_key(2032, None), "still in it: quiet");
    assert!(a.offer_key(2048, Some(35990)), "out again");
    assert!(a.offer_key(2064, Some(15)), "a quarter degree across the seam");
    a.reset();
    assert!(a.offer_key(2065, Some(15)), "a new hold always sends its first");
    let d = AimThrottle::default();
    let mut d = d;
    assert!(d.offer_key(0, None));
}

// The tracker tests below point into a four-chip compass ring around (0, 0):
// 0 east, 1 south, 2 west, 3 north, at radius 400 with a 140 px dead zone.
// The hit test of that ring is the nearest chip by angle outside the dead
// zone, which is what `compass_hit` computes for the tracker.

fn compass_hit(cursor: (i32, i32)) -> Option<usize> {
    let (x, y) = (cursor.0 as f64, cursor.1 as f64);
    if x * x + y * y < 140.0 * 140.0 {
        return None;
    }
    let deg = y.atan2(x).to_degrees().rem_euclid(360.0);
    Some(((deg + 45.0) / 90.0).floor() as usize % 4)
}

fn ring_facts(hold: u64) -> TickFacts {
    TickFacts {
        enabled: true,
        modifier_active: true,
        hud_visible: true,
        blocked: false,
        hold_ts: hold,
        hold_start_cursor: Some((500, 0)),
        cursor: None,
        externally_disarmed: false,
        has_centre: true,
    }
}

fn ring_tick(t: &mut HoldTracker, f: &TickFacts, tick_ms: u64) -> Verdict {
    t.tick(f, &|c: (i32, i32), _armed: Option<usize>| compass_hit(c), tick_ms)
}

#[test]
fn travel_threshold_boundary_one_px_short_never_arms() {
    let mut t = HoldTracker::new();
    let mut f = ring_facts(1000);
    f.cursor = Some((523, 0));
    for _ in 0..100 {
        assert_eq!(ring_tick(&mut t, &f, TICK_HELD_MS), Verdict::NoChange);
    }
    f.cursor = Some((524, 0));
    let mut armed = false;
    for _ in 0..100 {
        if ring_tick(&mut t, &f, TICK_HELD_MS) == Verdict::Arm(0) {
            armed = true;
            break;
        }
    }
    assert!(armed, "exactly MIN_TRAVEL px of movement must satisfy guard 2");
}

#[test]
fn dwell_boundary_arms_on_the_tick_it_is_reached_not_before() {
    let mut t = HoldTracker::new();
    let mut f = ring_facts(2000);
    f.cursor = Some((200, 0));
    assert_eq!(ring_tick(&mut t, &f, 20), Verdict::NoChange);
    assert_eq!(ring_tick(&mut t, &f, 20), Verdict::NoChange);
    assert_eq!(ring_tick(&mut t, &f, 20), Verdict::Arm(0));
    let mut t2 = HoldTracker::new();
    let mut g = ring_facts(3000);
    g.cursor = Some((200, 0));
    assert_eq!(ring_tick(&mut t2, &g, 19), Verdict::NoChange);
    assert_eq!(ring_tick(&mut t2, &g, 19), Verdict::NoChange);
    assert_eq!(ring_tick(&mut t2, &g, 19), Verdict::NoChange);
    assert_eq!(ring_tick(&mut t2, &g, 19), Verdict::Arm(0));
}

#[test]
fn a_sweep_across_the_ring_is_a_non_event() {
    let mut t = HoldTracker::new();
    let mut f = ring_facts(4000);
    for deg in [0.0f64, 90.0, 180.0, -90.0, 0.0, 90.0] {
        let rad = deg.to_radians();
        f.cursor = Some(((300.0 * rad.cos()).round() as i32, (300.0 * rad.sin()).round() as i32));
        for _ in 0..3 {
            assert_eq!(ring_tick(&mut t, &f, TICK_HELD_MS), Verdict::NoChange, "{deg} for 48ms must not arm");
        }
    }
}

#[test]
fn a_settled_direction_shifts_to_the_neighbour_it_settles_on() {
    let mut t = HoldTracker::new();
    let mut f = ring_facts(4500);
    f.cursor = Some((300, 0));
    assert_eq!(ring_tick(&mut t, &f, DWELL_MS), Verdict::Arm(0));
    f.cursor = Some((0, 300));
    assert_eq!(ring_tick(&mut t, &f, DWELL_MS), Verdict::Shift(1));
}

#[test]
fn back_into_the_dead_zone_clears_and_hud_hide_keeps() {
    let mut t = HoldTracker::new();
    let mut f = ring_facts(5000);
    f.cursor = Some((300, 0));
    assert_eq!(ring_tick(&mut t, &f, DWELL_MS), Verdict::Arm(0));
    f.cursor = Some((60, 20));
    assert_eq!(ring_tick(&mut t, &f, DWELL_MS), Verdict::DisarmClear);
    f.cursor = Some((300, 0));
    assert_eq!(ring_tick(&mut t, &f, DWELL_MS), Verdict::Arm(0));
    f.hud_visible = false;
    assert_eq!(ring_tick(&mut t, &f, DWELL_MS), Verdict::DisarmKeep);
    f.hud_visible = true;
    f.cursor = Some((300, 0));
    assert_eq!(ring_tick(&mut t, &f, DWELL_MS), Verdict::Arm(0));
    f.blocked = true;
    assert_eq!(ring_tick(&mut t, &f, DWELL_MS), Verdict::DisarmKeep);
}

#[test]
fn a_new_hold_resets_everything_and_a_consumed_arm_syncs_quietly() {
    let mut t = HoldTracker::new();
    let mut f = ring_facts(6000);
    f.cursor = Some((300, 0));
    assert_eq!(ring_tick(&mut t, &f, DWELL_MS), Verdict::Arm(0));
    f.externally_disarmed = true;
    assert_eq!(ring_tick(&mut t, &f, DWELL_MS), Verdict::SyncLost);
    let mut g = ring_facts(7000);
    g.hold_start_cursor = Some((300, 0));
    g.cursor = Some((300, 0));
    for _ in 0..20 {
        assert_eq!(ring_tick(&mut t, &g, DWELL_MS), Verdict::NoChange, "no travel never arms");
    }
}

#[test]
fn no_mouse_movement_this_hold_never_arms_even_pointing_at_a_chip() {
    let mut t = HoldTracker::new();
    let f = ring_facts(8000);
    for _ in 0..200 {
        assert_eq!(ring_tick(&mut t, &f, TICK_HELD_MS), Verdict::NoChange);
    }
}

#[test]
fn without_a_published_centre_nothing_can_arm() {
    let mut t = HoldTracker::new();
    let mut f = ring_facts(9000);
    f.has_centre = false;
    f.cursor = Some((300, 0));
    for _ in 0..50 {
        assert_eq!(ring_tick(&mut t, &f, DWELL_MS), Verdict::NoChange);
    }
}

#[test]
fn a_hold_that_is_not_live_never_asks_the_hit_test_and_never_arms() {
    let asked = std::cell::Cell::new(0);
    let hit = |_c: (i32, i32), _a: Option<usize>| {
        asked.set(asked.get() + 1);
        Some(0)
    };
    for off in 0..4 {
        let mut t = HoldTracker::new();
        let mut f = ring_facts(12000 + off);
        f.cursor = Some((300, 0));
        match off {
            0 => f.enabled = false,
            1 => f.modifier_active = false,
            2 => f.hud_visible = false,
            _ => f.blocked = true,
        }
        for _ in 0..10 {
            assert_eq!(t.tick(&f, &hit, DWELL_MS), Verdict::NoChange);
        }
    }
    assert_eq!(asked.get(), 0);
    let mut t = HoldTracker::new();
    let mut f = ring_facts(13000);
    f.cursor = Some((300, 0));
    assert_eq!(t.tick(&f, &hit, DWELL_MS), Verdict::Arm(0));
    assert_eq!(asked.get(), 1);
}

fn compass_state() -> PointerState {
    let mut s = PointerState::new(true, 12);
    s.publish_keys(&[
        ("a".into(), "A".into()),
        ("b".into(), "B".into()),
        ("c".into(), "C".into()),
        ("d".into(), "D".into()),
    ]);
    s.store_chips(
        &[(380, -20, 420, 20), (-20, 380, 20, 420), (-420, -20, -380, 20), (-20, -420, 20, -380)],
        (0, 0),
        140,
        true,
    );
    s
}

#[test]
fn a_watcher_with_activation_off_and_nothing_armed_does_nothing() {
    let mut s = PointerState::new(false, 12);
    let mut w = Watcher::new();
    let mut aborted = false;
    let r = HookReadings { held: true, hold_ts: 5, hud_visible: true, hold_reaped: false };
    let hit = |_c: (i32, i32), _a: Option<usize>| Some(0);
    let aim = |_c: (i32, i32), _p: (i32, i32)| Some(0);
    let out = w.step(&mut s, &mut aborted, r, Some((500, 0)), &hit, &aim, DWELL_MS, 0);
    assert_eq!(out, WatchOutcome { pointer: None, aim: None });
    assert!(!aborted);
}

#[test]
fn a_watcher_arms_after_travel_and_dwell_and_claims_the_space() {
    let mut s = compass_state();
    let mut w = Watcher::new();
    let mut aborted = false;
    let r = HookReadings { held: true, hold_ts: 100, hud_visible: true, hold_reaped: false };
    s.note_cursor(300, 0, 100);
    let hit = |c: (i32, i32), _a: Option<usize>| compass_hit(c);
    let aim = |_c: (i32, i32), _p: (i32, i32)| None;
    // The hold starts at the far side, so the move to (300, 0) is travel.
    let out = w.step(&mut s, &mut aborted, r, Some((-500, 0)), &hit, &aim, DWELL_MS, 0);
    assert_eq!(out.pointer, Some(Some(0)));
    assert_eq!(out.aim, None, "no icon ring, no aim");
    assert!(aborted, "arming claims the space");
    assert_eq!(s.armed_index(), 0);
    // The next poll of the same hold changes nothing.
    let out = w.step(&mut s, &mut aborted, r, Some((-500, 0)), &hit, &aim, DWELL_MS, 16);
    assert_eq!(out.pointer, None);
    // A new hold forgets the armed chip before anything else.
    let r2 = HookReadings { hold_ts: 200, ..r };
    let out = w.step(&mut s, &mut aborted, r2, Some((300, 0)), &hit, &aim, DWELL_MS, 32);
    assert_eq!(out.pointer, None);
    assert_eq!(s.armed_index(), -1);
}

#[test]
fn an_arm_into_an_aborted_hold_is_refused_and_cancelled() {
    let mut s = compass_state();
    let mut w = Watcher::new();
    let mut aborted = true;
    let r = HookReadings { held: true, hold_ts: 100, hud_visible: true, hold_reaped: false };
    s.note_cursor(300, 0, 100);
    let hit = |c: (i32, i32), _a: Option<usize>| compass_hit(c);
    let aim = |_c: (i32, i32), _p: (i32, i32)| None;
    let out = w.step(&mut s, &mut aborted, r, Some((-500, 0)), &hit, &aim, DWELL_MS, 0);
    assert_eq!(out.pointer, None);
    assert_eq!(s.armed_index(), -1);
    // Refused and cancelled: the next poll tries to arm again.
    let out = w.step(&mut s, &mut aborted, r, Some((-500, 0)), &hit, &aim, DWELL_MS, 16);
    assert_eq!(out.pointer, None);
}

#[test]
fn a_dwell_run_broken_by_another_chip_starts_over() {
    let mut t = HoldTracker::new();
    let f = facts(7, Some((600, 0)));
    let step = |t: &mut HoldTracker, hit: usize| t.tick(&f, &|_c: (i32, i32), _a: Option<usize>| Some(hit), 20);
    assert_eq!(step(&mut t, 0), Verdict::NoChange, "20 ms on chip 0");
    assert_eq!(step(&mut t, 0), Verdict::NoChange, "40 ms on chip 0");
    assert_eq!(step(&mut t, 1), Verdict::NoChange, "chip 1 starts its own run");
    assert_eq!(step(&mut t, 1), Verdict::NoChange, "40 ms on chip 1");
    assert_eq!(step(&mut t, 1), Verdict::Arm(1), "60 ms of one run arms");
    assert_eq!(t.armed(), Some(1));
}

#[test]
fn a_resync_tick_neither_breaks_nor_extends_a_dwell() {
    let mut t = HoldTracker::new();
    let f = facts(8, Some((600, 0)));
    let hit = |_c: (i32, i32), _a: Option<usize>| Some(2usize);
    for _ in 0..2 {
        assert_eq!(t.tick(&f, &hit, 20), Verdict::NoChange);
    }
    assert_eq!(t.tick(&f, &hit, 20), Verdict::Arm(2));
    let gone = TickFacts { externally_disarmed: true, ..f };
    assert_eq!(t.tick(&gone, &hit, 20), Verdict::SyncLost);
    assert_eq!(t.tick(&f, &hit, 20), Verdict::Arm(2), "the run of 80 ms still stands");
}
