use vstd::prelude::*;

use crate::pixel::{pixel_bytes, Pixel, LED_STRIP_SPI_FRAME_SK9822_LED_MSB3};

verus! {

/// Byte length of a frame for `n` pixels: start frame, `n` pixel frames, reset
/// frame and a latch of `n/16 + 1` bytes that clocks the last pixel through
/// the chain.
pub open spec fn frame_len(n: int) -> int {
    4 + 4 * n + 4 + n / 16 + 1
}

/// Offset of pixel `i` in a frame.
pub open spec fn pixel_offset(i: int) -> int {
    4 + 4 * i
}

/// The four bytes of pixel `i` in the frame bytes `s`.
pub open spec fn pixel_region(s: Seq<u8>, i: int) -> Seq<u8> {
    s.subrange(pixel_offset(i), pixel_offset(i) + 4)
}

/// `s` with the four bytes of pixel `i` replaced by `px`.
pub open spec fn with_pixel(s: Seq<u8>, i: int, px: Seq<u8>) -> Seq<u8> {
    s.subrange(0, pixel_offset(i)) + px + s.subrange(pixel_offset(i) + 4, s.len() as int)
}

/// A frame for `n` dark pixels.
pub open spec fn blank_frame(n: int) -> Seq<u8> {
    Seq::new(
        frame_len(n) as nat,
        |k: int|
            if 4 <= k < 4 + 4 * n && (k - 4) % 4 == 0 {
                LED_STRIP_SPI_FRAME_SK9822_LED_MSB3
            } else {
                0u8
            },
    )
}

/// `s` is laid out as a frame for `n` pixels: its length fits, and the start,
/// reset and latch regions are zero.
pub open spec fn layout_ok(s: Seq<u8>, n: int) -> bool {
    &&& s.len() == frame_len(n)
    &&& frame_len(n) <= usize::MAX
    &&& forall|k: int| 0 <= k < 4 ==> #[trigger] s[k] == 0
    &&& forall|k: int| pixel_offset(n) <= k < s.len() ==> #[trigger] s[k] == 0
}

/// Writing pixel `i` sets its region to `px` and leaves every other pixel
/// region as it was.
pub proof fn lemma_with_pixel_region(s: Seq<u8>, n: int, i: int, px: Seq<u8>, j: int)
    requires
        s.len() == frame_len(n),
        0 <= i < n,
        0 <= j < n,
        px.len() == 4,
    ensures
        pixel_region(with_pixel(s, i, px), j) == (if j == i {
            px
        } else {
            pixel_region(s, j)
        }),
        with_pixel(s, i, px).len() == s.len(),
{
    let t = with_pixel(s, i, px);
    assert(t.len() == s.len());
    if j == i {
        assert(pixel_region(t, j) =~= px);
    } else {
        assert(pixel_region(t, j) =~= pixel_region(s, j));
    }
}

/// A write that the frame refused.
#[derive(Clone, Copy, Debug, PartialEq, Eq, Structural)]
pub enum FrameError {
    /// Pixel `index` lies beyond a chain of `length` pixels.
    PixelOutOfRange { index: usize, length: usize },
}

/// The byte buffer sent to the chain: four zero bytes, one four-byte frame per
/// pixel, four zero bytes, then the zero latch bytes.
pub struct HeapData {
    length: usize,
    data: Vec<u8>,
}

impl View for HeapData {
    type V = Seq<u8>;

    closed spec fn view(&self) -> Seq<u8> {
        self.data@
    }
}

impl HeapData {
    /// Number of pixels the frame holds.
    pub closed spec fn pixel_count(&self) -> nat {
        self.length as nat
    }

    /// The layout holds: the length matches the pixel count, and the start,
    /// reset and latch regions are zero.
    pub open spec fn wf(&self) -> bool {
        layout_ok(self@, self.pixel_count() as int)
    }

    /// A frame for `length` dark pixels.
    pub fn new(length: usize) -> (r: HeapData)
        requires
            frame_len(length as int) <= usize::MAX,
        ensures
            r.wf(),
            r.pixel_count() == length,
            r@ == blank_frame(length as int),
            r@.len() == frame_len(length as int),
    {
        let total: usize = 4 + length * 4 + 4 + length / 16 + 1;
        let payload: Vec<u8> = vec![0u8; total];
        let mut res = HeapData { length, data: payload };
        let mut i: usize = 0;
        while i < length
            invariant
                res.wf(),
                res.length == length,
                i <= length,
                res.data@.len() == total,
                forall|k: int|
                    0 <= k < res.data@.len() ==> #[trigger] res.data@[k] == (if 4 <= k < 4 + 4 * i
                        && (k - 4) % 4 == 0 {
                        LED_STRIP_SPI_FRAME_SK9822_LED_MSB3
                    } else {
                        0u8
                    }),
            decreases length - i,
        {
            let _ = res.set_pixel(i, Pixel::default());
            i += 1;
        }
        assert(res.data@ =~= blank_frame(length as int));
        res
    }

    /// The frame bytes.
    pub fn data(&self) -> (r: &[u8])
        ensures
            r@ == self@,
    {
        self.data.as_slice()
    }

    /// Writes pixel `idx`; an index beyond the chain is refused and leaves the
    /// frame as it was.
    pub fn set_pixel(&mut self, idx: usize, pixel: Pixel) -> (r: Result<(), FrameError>)
        requires
            old(self).wf(),
        ensures
            final(self).wf(),
            final(self).pixel_count() == old(self).pixel_count(),
            idx < old(self).pixel_count() ==> r == Ok::<(), FrameError>(()) && final(self)@
                == with_pixel(old(self)@, idx as int, pixel@),
            idx >= old(self).pixel_count() ==> r == Err::<(), FrameError>(
                FrameError::PixelOutOfRange { index: idx, length: old(self).pixel_count() as usize },
            ) && final(self)@ == old(self)@,
    {
        if idx >= self.length {
            return Err(FrameError::PixelOutOfRange { index: idx, length: self.length });
        }
        let bytes = pixel.as_bytes();
        let offset: usize = 4 + idx * 4;
        let ghost before = self.data@;
        let mut k: usize = 0;
        while k < 4
            invariant
                k <= 4,
                offset == pixel_offset(idx as int),
                idx < self.length,
                self.length == old(self).length,
                self.data@.len() == before.len(),
                before == old(self).data@,
                old(self).wf(),
                bytes@ == pixel@,
                forall|j: int|
                    0 <= j < before.len() ==> #[trigger] self.data@[j] == (if offset <= j < offset
                        + k {
                        bytes@[j - offset]
                    } else {
                        before[j]
                    }),
            decreases 4 - k,
        {
            self.data.set(offset + k, bytes[k]);
            k += 1;
        }
        assert(self.data@ =~= with_pixel(before, idx as int, pixel@));
        Ok(())
    }

    /// Number of pixels the frame holds.
    pub fn length(&self) -> (r: usize)
        ensures
            r == self.pixel_count(),
    {
        self.length
    }
}

} // verus!

verus! {

/// A frame for `N` pixels held by value: start frame, pixel frames, reset
/// frame and `N/16 + 1` latch bytes.
pub struct Data<const N: usize> {
    start: [u8; 4],
    pixels: [Pixel; N],
    reset: [u8; 4],
    end: Vec<u8>,
}

impl<const N: usize> View for Data<N> {
    type V = Seq<u8>;

    closed spec fn view(&self) -> Seq<u8> {
        Seq::new(
            frame_len(N as int) as nat,
            |k: int|
                if k < 4 {
                    self.start@[k]
                } else if k < pixel_offset(N as int) {
                    self.pixels@[(k - 4) / 4]@[(k - 4) % 4]
                } else if k < pixel_offset(N as int) + 4 {
                    self.reset@[k - pixel_offset(N as int)]
                } else {
                    self.end@[k - pixel_offset(N as int) - 4]
                },
        )
    }
}

impl<const N: usize> Data<N> {
    /// The latch holds `N/16 + 1` bytes.
    pub closed spec fn wf(&self) -> bool {
        self.end@.len() == N / 16 + 1
    }

    /// A frame for `N` dark pixels.
    pub fn new() -> (r: Self)
        ensures
            r.wf(),
            r@ == blank_frame(N as int),
    {
        let dark = Pixel::default();
        let pixels: [Pixel; N] = vstd::array::array_fill_for_copy_types(dark);
        let end: Vec<u8> = vec![0u8; N / 16 + 1];
        let r = Data { start: [0u8; 4], pixels, reset: [0u8; 4], end };
        assert forall|k: int| 0 <= k < frame_len(N as int) implies #[trigger] r@[k] == blank_frame(
            N as int,
        )[k] by {
            if 4 <= k < pixel_offset(N as int) {
                assert(r.pixels@[(k - 4) / 4] == dark);
            }
        }
        assert(r@ =~= blank_frame(N as int));
        r
    }

    /// The frame bytes, in wire order.
    pub fn to_bytes(&self) -> (r: Vec<u8>)
        requires
            self.wf(),
            frame_len(N as int) <= usize::MAX,
        ensures
            r@ == self@,
    {
        let mut out: Vec<u8> = Vec::new();
        let mut k: usize = 0;
        while k < 4
            invariant
                k <= 4,
                out@ == self@.subrange(0, k as int),
                self@.len() == frame_len(N as int),
            decreases 4 - k,
        {
            out.push(self.start[k]);
            k += 1;
            assert(out@ =~= self@.subrange(0, k as int));
        }
        let mut i: usize = 0;
        while i < N
            invariant
                i <= N,
                frame_len(N as int) <= usize::MAX,
                out@ == self@.subrange(0, pixel_offset(i as int)),
                self@.len() == frame_len(N as int),
            decreases N - i,
        {
            let bytes = self.pixels[i].as_bytes();
            let mut b: usize = 0;
            while b < 4
                invariant
                    b <= 4,
                    i < N,
                    bytes@ == self.pixels@[i as int]@,
                    self.pixels@[i as int]@.len() == 4,
                    frame_len(N as int) <= usize::MAX,
                    out@ == self@.subrange(0, pixel_offset(i as int) + b),
                    self@.len() == frame_len(N as int),
                decreases 4 - b,
            {
                out.push(bytes[b]);
                proof {
                    let k = pixel_offset(i as int) + b;
                    assert((k - 4) / 4 == i as int && (k - 4) % 4 == b as int) by (nonlinear_arith)
                        requires
                            k == 4 + 4 * i + b,
                            0 <= b < 4,
                    ;
                }
                b += 1;
                assert(out@ =~= self@.subrange(0, pixel_offset(i as int) + b));
            }
            i += 1;
        }
        let mut k: usize = 0;
        while k < 4
            invariant
                k <= 4,
                frame_len(N as int) <= usize::MAX,
                out@ == self@.subrange(0, pixel_offset(N as int) + k),
                self@.len() == frame_len(N as int),
            decreases 4 - k,
        {
            out.push(self.reset[k]);
            k += 1;
            assert(out@ =~= self@.subrange(0, pixel_offset(N as int) + k));
        }
        let mut e: usize = 0;
        while e < self.end.len()
            invariant
                e <= self.end@.len(),
                frame_len(N as int) <= usize::MAX,
                out@ == self@.subrange(0, pixel_offset(N as int) + 4 + e),
                self@.len() == frame_len(N as int),
                self.end@.len() == N / 16 + 1,
            decreases self.end@.len() - e,
        {
            out.push(self.end[e]);
            e += 1;
            assert(out@ =~= self@.subrange(0, pixel_offset(N as int) + 4 + e));
        }
        assert(out@ =~= self@);
        out
    }
}

impl<const N: usize> Default for Data<N> {
    fn default() -> (r: Self)
        ensures
            r.wf(),
            r@ == blank_frame(N as int),
    {
        Self::new()
    }
}

} // verus!
