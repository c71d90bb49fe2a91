use vstd::prelude::*;

verus! {

/// Fixed high bits of every pixel's header byte.
pub const LED_STRIP_SPI_FRAME_SK9822_LED_MSB3: u8 = 0xE0;

/// The 5-bit brightness code for a 0-100 brightness: a stepped curve that
/// compensates for the LED's own brightness register.
pub open spec fn brightness_code(brightness: int) -> int {
    if brightness >= 100 {
        31
    } else if brightness > 8 {
        (brightness - 7) / 3
    } else if brightness > 0 {
        1
    } else {
        0
    }
}

/// The four wire bytes of one LED: header, blue, green, red.
pub open spec fn pixel_bytes(header: u8, r: u8, g: u8, b: u8) -> Seq<u8> {
    seq![header, b, g, r]
}

/// One LED in wire form.
#[derive(Clone, Copy, Debug, PartialEq, Eq, Structural)]
pub struct Pixel {
    brightness: u8,
    b: u8,
    g: u8,
    r: u8,
}

impl View for Pixel {
    type V = Seq<u8>;

    closed spec fn view(&self) -> Seq<u8> {
        pixel_bytes(self.brightness, self.r, self.g, self.b)
    }
}

impl Default for Pixel {
    /// A dark pixel: marker bits with brightness code zero and black colour.
    fn default() -> (r: Pixel)
        ensures
            r@ == pixel_bytes(LED_STRIP_SPI_FRAME_SK9822_LED_MSB3, 0, 0, 0),
    {
        Pixel { brightness: LED_STRIP_SPI_FRAME_SK9822_LED_MSB3, r: 0, g: 0, b: 0 }
    }
}

impl Pixel {
    /// Encodes a display colour and a 0-100 brightness.
    pub fn new(r: u8, g: u8, b: u8, brightness: u8) -> (px: Pixel)
        ensures
            px@ == pixel_bytes(
                (LED_STRIP_SPI_FRAME_SK9822_LED_MSB3 + brightness_code(brightness as int)) as u8,
                r,
                g,
                b,
            ),
    {
        let code: u8 = if brightness >= 100 {
            31
        } else if brightness > 8 {
            (brightness - 7) / 3
        } else if brightness > 0 {
            1
        } else {
            0
        };
        let one_shifted: u8 = 1u8 << 5u8;
        assert(one_shifted == 32) by (bit_vector)
            requires
                one_shifted == 1u8 << 5u8,
        ;
        let mask: u8 = one_shifted - 1;
        let header: u8 = LED_STRIP_SPI_FRAME_SK9822_LED_MSB3 | (code & mask);
        assert(0xE0u8 | (code & mask) == (0xE0u8 + code) as u8) by (bit_vector)
            requires
                code <= 31,
                mask == 31,
        ;
        Pixel { brightness: header, r, g, b }
    }

    /// The wire bytes: header, blue, green, red.
    pub fn as_bytes(&self) -> (r: [u8; 4])
        ensures
            r@ == self@,
    {
        let r = [self.brightness, self.b, self.g, self.r];
        assert(r@ =~= self@);
        r
    }
}

/// Brightness codes never decrease as the brightness rises over 0-100, except
/// for the step from the 1-8 plateau (code 1) down to 9 (code 0).
pub proof fn lemma_brightness_code_monotonic(a: int, b: int)
    requires
        0 <= a <= b <= 100,
        !(b == 9 && a >= 1),
    ensures
        brightness_code(a) <= brightness_code(b),
{
}

/// The documented breakpoints of the brightness curve, and its 5-bit range.
pub proof fn lemma_brightness_code_breakpoints(x: int)
    requires
        0 <= x <= 255,
    ensures
        brightness_code(0) == 0,
        brightness_code(1) == 1,
        brightness_code(50) == 14,
        brightness_code(100) == 31,
        0 <= brightness_code(x) <= 31,
{
}

} // verus!
