use base64::Engine;
use spaceadom::icon::{icon_from_pixels, straighten, ICON_PX};

#[test]
fn opaque_pixels_swap_blue_and_red() {
    assert_eq!(straighten(&[10, 20, 30, 255]), vec![30, 20, 10, 255]);
}

#[test]
fn premultiplied_pixels_are_made_straight_and_saturate() {
    // b=50 g=100 r=25 at alpha 128: each channel * 255 / 128, rounded down.
    assert_eq!(straighten(&[50, 100, 25, 128]), vec![49, 199, 99, 128]);
    // A channel above its alpha saturates at 255.
    assert_eq!(straighten(&[200, 0, 0, 100]), vec![0, 0, 255, 100]);
}

#[test]
fn transparent_pixels_of_a_visible_icon_are_zeroed() {
    assert_eq!(
        straighten(&[10, 20, 30, 255, 5, 6, 7, 0]),
        vec![30, 20, 10, 255, 0, 0, 0, 0]
    );
}

#[test]
fn an_icon_with_no_alpha_at_all_is_shown_opaque_in_its_own_colours() {
    assert_eq!(
        straighten(&[10, 20, 30, 0, 1, 2, 3, 0]),
        vec![30, 20, 10, 255, 3, 2, 1, 255]
    );
}

#[test]
fn bytes_after_the_last_whole_pixel_are_kept() {
    assert_eq!(straighten(&[10, 20, 30, 255, 9, 8]), vec![30, 20, 10, 255, 9, 8]);
    assert_eq!(straighten(&[]), Vec::<u8>::new());
}

#[test]
fn a_full_icon_becomes_a_base64_png() {
    let side = ICON_PX as usize;
    let pixels = vec![128u8; side * side * 4];
    let b64 = icon_from_pixels(&pixels).expect("a 48x48 image encodes");
    assert!(b64.starts_with("iVBORw0KGgo"), "{b64}");
    let png = base64::engine::general_purpose::STANDARD.decode(&b64).expect("valid base64");
    assert_eq!(&png[..8], &[137, 80, 78, 71, 13, 10, 26, 10]);
}

#[test]
fn pixels_of_the_wrong_size_are_refused() {
    assert_eq!(icon_from_pixels(&[1, 2, 3, 4]), Err("png encode failed".to_string()));
}
