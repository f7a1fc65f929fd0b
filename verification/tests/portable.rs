use spaceadom::portable::{resolve_root, resolved, BOOT_MARKER};
use std::path::PathBuf;

fn exe() -> PathBuf {
    PathBuf::from(r"D:\Somewhere\Spaceadom_1.2.3_x64-portable")
}
fn roaming() -> PathBuf {
    PathBuf::from(r"C:\Users\arpon\AppData\Roaming\Spaceadom")
}

#[test]
fn marker_present_and_unpackaged_routes_to_exe_dir_data() {
    let root = resolve_root(false, Some(&exe()), true, roaming());
    assert_eq!(root, exe().join("data"));
}

#[test]
fn marker_absent_falls_back_to_the_roaming_default() {
    let root = resolve_root(false, Some(&exe()), false, roaming());
    assert_eq!(root, roaming());
}

#[test]
fn packaged_always_wins_even_with_a_marker_present() {
    let root = resolve_root(true, Some(&exe()), true, roaming());
    assert_eq!(root, roaming(), "a packaged copy must resolve to the roaming default");
}

#[test]
fn no_exe_dir_falls_back_to_the_roaming_default() {
    let root = resolve_root(false, None, true, roaming());
    assert_eq!(root, roaming());
}

#[test]
fn a_cargo_test_binary_is_never_portable() {
    // A test binary has no marker file beside it.
    let (portable, root) = resolved(false, Some(&exe()), false, roaming());
    assert!(!portable);
    assert_eq!(root, roaming());
    let (portable, _) = resolved(false, Some(&exe()), false, roaming());
    assert!(!portable, "the same answer must not change between calls");
}

#[test]
fn portable_the_boot_marker_is_long_enough_to_be_findable_in_the_binary() {
    assert!(BOOT_MARKER.len() >= 32, "BOOT_MARKER is {} bytes", BOOT_MARKER.len());
    assert!(BOOT_MARKER.is_ascii());
}

#[test]
fn is_portable_and_data_root_agree_on_the_same_process() {
    for (packaged, dir, marker) in [
        (false, true, true),
        (false, true, false),
        (true, true, true),
        (false, false, true),
    ] {
        let e = exe();
        let d = if dir { Some(&e) } else { None };
        let (portable, root) = resolved(packaged, d, marker, roaming());
        if portable {
            assert!(root.ends_with("data"));
            assert_eq!(root, exe().join("data"));
        } else {
            assert_eq!(root, roaming());
        }
    }
}
