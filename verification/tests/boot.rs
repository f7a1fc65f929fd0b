use spaceadom::boot::{
    builds_window,
    fatal_box_body, is_autostart_launch, needs_recentre, second_launch, shows_fatal_box,
    tray_already_promoted, webview_args_for, SecondLaunch, WindowGate,
};

fn args(v: &[&str]) -> Vec<String> {
    v.iter().map(|s| s.to_string()).collect()
}

#[test]
fn only_the_exact_autostart_flag_marks_a_logon_launch() {
    assert!(is_autostart_launch(&args(&["spaceadom.exe", "--autostart"])));
    assert!(!is_autostart_launch(&args(&["spaceadom.exe"])));
    assert!(!is_autostart_launch(&args(&["spaceadom.exe", "--autostart=1", "autostart"])));
    assert!(!is_autostart_launch(&[]));
}

#[test]
fn a_second_logon_launch_is_ignored_and_a_manual_one_fronts_the_dashboard() {
    assert_eq!(second_launch(&args(&["x", "--autostart"]), false), SecondLaunch::Ignore);
    assert_eq!(second_launch(&args(&["x"]), true), SecondLaunch::Front { create_first: false });
    assert_eq!(second_launch(&args(&["x"]), false), SecondLaunch::Front { create_first: true });
}

#[test]
fn software_compositing_adds_disable_gpu_once() {
    assert_eq!(webview_args_for("software", ""), Some("--disable-gpu".to_string()));
    assert_eq!(webview_args_for("software", "--foo"), Some("--foo --disable-gpu".to_string()));
    assert_eq!(
        webview_args_for("software", "--x --disable-gpu"),
        Some("--x --disable-gpu".to_string())
    );
    assert_eq!(webview_args_for("gpu", "--foo"), None);
    assert_eq!(webview_args_for("", ""), None);
}

#[test]
fn a_window_whose_centre_is_on_no_monitor_is_recentred() {
    let monitors = [(0, 0, 1920, 1080), (-1920, 0, 1920, 1080)];
    assert!(!needs_recentre(100, 100, 800, 600, &monitors));
    assert!(!needs_recentre(-1500, 200, 800, 600, &monitors));
    assert!(needs_recentre(5000, 100, 800, 600, &monitors));
    // The centre is the test: a window hanging half off the right edge stays.
    assert!(!needs_recentre(1500, 100, 800, 600, &monitors));
    assert!(needs_recentre(1600, 100, 800, 600, &monitors));
    // The right and bottom edges belong to the next monitor, not this one.
    assert!(needs_recentre(1520, 0, 800, 600, &[(0, 0, 1920, 1080)]));
    // No monitors at all: nothing sane to do.
    assert!(!needs_recentre(5000, 5000, 10, 10, &[]));
}

#[test]
fn the_tray_is_promoted_once_per_executable_ignoring_case() {
    assert!(tray_already_promoted(r"C:\Apps\Spaceadom.exe", r"c:\apps\SPACEADOM.EXE"));
    assert!(!tray_already_promoted(r"C:\Apps\Spaceadom.exe", r"C:\Other\Spaceadom.exe"));
    assert!(!tray_already_promoted("", ""));
}

#[test]
fn only_a_main_thread_panic_before_the_tray_shows_the_box() {
    assert!(shows_fatal_box(true, false));
    assert!(!shows_fatal_box(true, true));
    assert!(!shows_fatal_box(false, false));
}

#[test]
fn the_fatal_box_names_the_failure_and_the_log() {
    assert_eq!(
        fatal_box_body("boom"),
        "Spaceadom could not start.\n\nboom\n\nThis is usually a missing or broken Microsoft Edge \
         WebView2 Runtime. Reinstalling Spaceadom repairs it.\n\nDetails: \
         %APPDATA%\\Spaceadom\\debug.log"
    );
}

#[test]
fn whoever_claims_first_builds_the_windows() {
    let mut g = WindowGate::new();
    assert!(!g.windows_created());
    assert!(g.claim());
    assert!(g.windows_created());
    assert!(!g.claim());
    assert!(g.windows_created());
}

#[test]
fn existing_windows_and_the_safe_mode_overlay_are_not_built() {
    assert!(builds_window("settings", false, false));
    assert!(builds_window("settings", false, true));
    assert!(!builds_window("settings", true, false));
    assert!(builds_window("overlay", false, false));
    assert!(!builds_window("overlay", false, true));
    assert!(!builds_window("overlay", true, false));
}
