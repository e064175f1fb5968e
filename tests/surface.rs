use sing::surface::{clear_color, text_color, text_size, DEFAULT_FONT_SIZE};

#[test]
fn surface_defaults() {
    assert_eq!(clear_color(None), 0x000000);
    assert_eq!(clear_color(Some(0x123456)), 0x123456);
    assert_eq!(text_color(None), 0xffffff);
    assert_eq!(text_color(Some(0xff0000)), 0xff0000);
    assert_eq!(text_size(None), 40);
    assert_eq!(DEFAULT_FONT_SIZE, 40);
    assert_eq!(text_size(Some(12)), 12);
}
