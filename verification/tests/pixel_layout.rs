use viewskater::pixels::rgb_to_rgba;

#[test]
fn rgb_pixels_expand_to_opaque_rgba() {
    assert_eq!(rgb_to_rgba(&[1, 2, 3, 4, 5, 6]), vec![1, 2, 3, 255, 4, 5, 6, 255]);
    assert_eq!(rgb_to_rgba(&[]), Vec::<u8>::new());
    // A trailing partial pixel is ignored.
    assert_eq!(rgb_to_rgba(&[9, 8, 7, 6]), vec![9, 8, 7, 255]);
}
