use vstd::prelude::*;

use crate::color::Srgb8;
use crate::frame::{
    frame_len, lemma_with_pixel_region, pixel_region, with_pixel, FrameError, HeapData,
};
use crate::pixel::{brightness_code, pixel_bytes, Pixel, LED_STRIP_SPI_FRAME_SK9822_LED_MSB3};
use crate::segment::Segment;

verus! {

/// First LED after the first `k` segments: the sum of their lengths.
pub open spec fn seg_end(segs: Seq<Segment>, k: int) -> int
    decreases k,
{
    if k <= 0 {
        0
    } else {
        seg_end(segs, k - 1) + segs[k - 1].length
    }
}

/// The colour resolved for segment `k`, where one was given.
pub open spec fn color_for(colors: Seq<Option<Srgb8>>, k: int) -> Option<Srgb8> {
    if 0 <= k < colors.len() {
        colors[k]
    } else {
        None
    }
}

/// Wire bytes of an LED showing `c` at brightness `brightness`.
pub open spec fn encoded(c: Srgb8, brightness: u8) -> Seq<u8> {
    pixel_bytes(
        (LED_STRIP_SPI_FRAME_SK9822_LED_MSB3 + brightness_code(brightness as int)) as u8,
        c.red,
        c.green,
        c.blue,
    )
}

/// What LED `j`, inside segment `k`, shows after a render over `before`.
pub open spec fn rendered_region(
    before: Seq<u8>,
    segs: Seq<Segment>,
    colors: Seq<Option<Srgb8>>,
    k: int,
    j: int,
) -> Seq<u8> {
    match color_for(colors, k) {
        Some(c) => encoded(c, segs[k].brightness),
        None => pixel_region(before, j),
    }
}

/// Segment ends never decrease.
pub proof fn lemma_seg_end_monotonic(segs: Seq<Segment>, a: int, b: int)
    requires
        0 <= a <= b <= segs.len(),
    ensures
        seg_end(segs, a) <= seg_end(segs, b),
    decreases b - a,
{
    if a < b {
        lemma_seg_end_monotonic(segs, a, b - 1);
    }
}

/// Writes one frame: segment `k` drives the LEDs from the end of the segments
/// before it, for its length, in its resolved colour `colors[k]` encoded with
/// its brightness. A segment without a colour leaves its LEDs as they were.
/// LEDs past the chain are not written; when the segments need more LEDs than
/// the chain has, the rest is still written and the overflow is reported.
/// The frame is meant to be flushed once per tick, after this call, so that
/// the chain never shows a half-written frame.
pub fn render_segments(
    frame: &mut HeapData,
    segments: &Vec<Segment>,
    colors: &Vec<Option<Srgb8>>,
) -> (r: Result<(), FrameError>)
    requires
        old(frame).wf(),
    ensures
        final(frame).wf(),
        final(frame).pixel_count() == old(frame).pixel_count(),
        forall|k: int, j: int|
            #![trigger pixel_region(final(frame)@, j), seg_end(segments@, k)]
            0 <= k < segments@.len() && seg_end(segments@, k) <= j < seg_end(segments@, k + 1) && j
                < old(frame).pixel_count() ==> pixel_region(final(frame)@, j)
                == rendered_region(old(frame)@, segments@, colors@, k, j),
        forall|j: int|
            seg_end(segments@, segments@.len() as int) <= j < old(frame).pixel_count()
                ==> #[trigger] pixel_region(final(frame)@, j) == pixel_region(old(frame)@, j),
        seg_end(segments@, segments@.len() as int) <= old(frame).pixel_count() ==> r == Ok::<
            (),
            FrameError,
        >(()),
        seg_end(segments@, segments@.len() as int) > old(frame).pixel_count() ==> r == Err::<
            (),
            FrameError,
        >(
            FrameError::PixelOutOfRange {
                index: old(frame).pixel_count() as usize,
                length: old(frame).pixel_count() as usize,
            },
        ),
{
    let ghost before = frame@;
    let ghost segs = segments@;
    let ghost nn = frame.pixel_count() as int;
    let n = frame.length();
    let mut cursor: usize = 0;
    let mut overflow = false;
    let mut k: usize = 0;
    while k < segments.len()
        invariant
            frame.wf(),
            frame.pixel_count() == nn,
            n == nn,
            before.len() == frame_len(nn),
            segs == segments@,
            k <= segs.len(),
            !overflow ==> cursor == seg_end(segs, k as int) && cursor <= n,
            overflow ==> seg_end(segs, k as int) > n && cursor == n,
            forall|kk: int, j: int|
                #![trigger pixel_region(frame@, j), seg_end(segs, kk)]
                0 <= kk < k && seg_end(segs, kk) <= j < seg_end(segs, kk + 1) && j < nn
                    ==> pixel_region(frame@, j) == rendered_region(
                    before,
                    segs,
                    colors@,
                    kk,
                    j,
                ),
            forall|j: int|
                cursor <= j < nn ==> #[trigger] pixel_region(frame@, j) == pixel_region(before, j),
        decreases segs.len() - k,
    {
        let seg = segments[k];
        let color: Option<Srgb8> = if k < colors.len() {
            colors[k]
        } else {
            None
        };
        proof {
            lemma_seg_end_monotonic(segs, k as int, k as int + 1);
        }
        let ghost start = frame@;
        let ghost start_cursor = cursor;
        let ghost start_overflow = overflow;
        if !overflow {
            let avail: usize = n - cursor;
            let count: usize = if seg.length <= avail {
                seg.length
            } else {
                avail
            };
            let ghost mid = frame@;
            if let Some(c) = color {
                let px = Pixel::new(c.red, c.green, c.blue, seg.brightness);
                let mut i: usize = 0;
                while i < count
                    invariant
                        frame.wf(),
                        frame.pixel_count() == nn,
                        n == nn,
                        i <= count,
                        cursor + count <= n,
                        mid.len() == frame_len(nn),
                        px@ == encoded(c, seg.brightness),
                        forall|j: int|
                            0 <= j < nn ==> #[trigger] pixel_region(frame@, j) == (if cursor <= j
                                < cursor + i {
                                px@
                            } else {
                                pixel_region(mid, j)
                            }),
                    decreases count - i,
                {
                    let ghost prev = frame@;
                    let _ = frame.set_pixel(cursor + i, px);
                    proof {
                        assert forall|j: int| 0 <= j < nn implies #[trigger] pixel_region(frame@, j)
                            == (if cursor <= j < cursor + i + 1 {
                            px@
                        } else {
                            pixel_region(mid, j)
                        }) by {
                            lemma_with_pixel_region(prev, nn, cursor + i, px@, j);
                        }
                    }
                    i += 1;
                }
            }
            assert forall|j: int| 0 <= j < nn implies #[trigger] pixel_region(frame@, j) == (
            if cursor <= j < cursor + count {
                rendered_region(before, segs, colors@, k as int, j)
            } else {
                pixel_region(mid, j)
            }) by {
                if cursor <= j < cursor + count {
                    assert(pixel_region(mid, j) == pixel_region(before, j));
                }
            }
            assert forall|j: int| 0 <= j < start_cursor implies #[trigger] pixel_region(frame@, j)
                == pixel_region(start, j) by {}
            if seg.length <= avail {
                cursor = cursor + seg.length;
            } else {
                cursor = n;
                overflow = true;
            }
        }
        proof {
            assert forall|kk: int, j: int|
                #![trigger pixel_region(frame@, j), seg_end(segs, kk)]
                0 <= kk < k + 1 && seg_end(segs, kk) <= j < seg_end(segs, kk + 1) && j < nn
                    implies pixel_region(frame@, j) == rendered_region(
                before,
                segs,
                colors@,
                kk,
                j,
            ) by {
                if kk < k {
                    lemma_seg_end_monotonic(segs, kk + 1, k as int);
                    lemma_seg_end_monotonic(segs, 0, kk);
                    if !start_overflow {
                        assert(j < start_cursor);
                        assert(pixel_region(start, j) == pixel_region(frame@, j));
                    }
                }
            }
        }
        k += 1;
    }
    if overflow {
        Err(FrameError::PixelOutOfRange { index: n, length: n })
    } else {
        Ok(())
    }
}

} // verus!
