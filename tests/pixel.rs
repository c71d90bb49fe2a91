use color_mixer::{Pixel, LED_STRIP_SPI_FRAME_SK9822_LED_MSB3};

fn code(brightness: u8) -> u8 {
    Pixel::new(0, 0, 0, brightness).as_bytes()[0] & 0x1f
}

#[test]
fn pixel_byte_order_is_header_blue_green_red() {
    let px = Pixel::new(1, 2, 3, 100);
    assert_eq!(px.as_bytes(), [0xE0 | 31, 3, 2, 1]);
}

#[test]
fn brightness_breakpoints() {
    assert_eq!(code(0), 0);
    assert_eq!(code(1), 1);
    assert_eq!(code(50), 14);
    assert_eq!(code(100), 31);
    assert_eq!(code(255), 31);
    assert_eq!(code(99), 30);
    assert_eq!(code(10), 1);
}

#[test]
fn brightness_header_keeps_marker_bits() {
    for b in 0..=255u8 {
        let header = Pixel::new(0, 0, 0, b).as_bytes()[0];
        assert_eq!(header & 0xE0, LED_STRIP_SPI_FRAME_SK9822_LED_MSB3);
    }
}

#[test]
fn brightness_monotonic_except_after_plateau() {
    for a in 0..=100u8 {
        for b in a..=100u8 {
            if b == 9 && a >= 1 {
                continue;
            }
            assert!(code(a) <= code(b), "{a} {b}");
        }
    }
    assert_eq!(code(8), 1);
    assert_eq!(code(9), 0);
}

#[test]
fn default_pixel_is_dark() {
    assert_eq!(Pixel::default().as_bytes(), [0xE0, 0, 0, 0]);
}
