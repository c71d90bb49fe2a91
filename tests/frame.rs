use color_mixer::{render_segments, FrameError, HeapData, Pixel, Segment, Srgb8};

#[test]
fn frame_length_for_512_pixels() {
    let f = HeapData::new(512);
    assert_eq!(f.data().len(), 2089);
    assert_eq!(f.length(), 512);
}

#[test]
fn frame_length_formula() {
    for n in [0usize, 1, 15, 16, 17, 32, 100] {
        let f = HeapData::new(n);
        assert_eq!(f.data().len(), 4 + 4 * n + 4 + (n / 16 + 1));
    }
}

#[test]
fn new_frame_layout() {
    let f = HeapData::new(3);
    assert_eq!(
        f.data(),
        &[0, 0, 0, 0, 0xE0, 0, 0, 0, 0xE0, 0, 0, 0, 0xE0, 0, 0, 0, 0, 0, 0, 0, 0][..]
    );
}

#[test]
fn set_pixel_writes_its_region() {
    let mut f = HeapData::new(2);
    assert_eq!(f.set_pixel(1, Pixel::new(10, 20, 30, 100)), Ok(()));
    assert_eq!(&f.data()[8..12], &[0xFF, 30, 20, 10]);
    assert_eq!(&f.data()[4..8], &[0xE0, 0, 0, 0]);
}

#[test]
fn set_pixel_out_of_range_is_reported() {
    let mut f = HeapData::new(2);
    let before = f.data().to_vec();
    assert_eq!(
        f.set_pixel(2, Pixel::new(1, 1, 1, 1)),
        Err(FrameError::PixelOutOfRange { index: 2, length: 2 })
    );
    assert_eq!(f.data(), &before[..]);
}

fn seg(length: usize, brightness: u8) -> Segment {
    Segment::new_with_uuid(
        length as u128,
        length,
        false,
        Srgb8::new(0, 0, 0),
        Srgb8::new(0, 0, 0),
        0,
        1,
        brightness,
    )
}

#[test]
fn render_places_segments_in_order() {
    let mut f = HeapData::new(4);
    let segs = vec![seg(1, 100), seg(2, 0)];
    let colors = vec![Some(Srgb8::new(1, 2, 3)), Some(Srgb8::new(4, 5, 6))];
    assert_eq!(render_segments(&mut f, &segs, &colors), Ok(()));
    let d = f.data();
    assert_eq!(&d[4..8], &[0xFF, 3, 2, 1]);
    assert_eq!(&d[8..12], &[0xE0, 6, 5, 4]);
    assert_eq!(&d[12..16], &[0xE0, 6, 5, 4]);
    assert_eq!(&d[16..20], &[0xE0, 0, 0, 0]);
}

#[test]
fn render_skips_segment_without_colour() {
    let mut f = HeapData::new(3);
    let segs = vec![seg(1, 100), seg(1, 100), seg(1, 100)];
    let colors = vec![Some(Srgb8::new(9, 9, 9)), None];
    assert_eq!(render_segments(&mut f, &segs, &colors), Ok(()));
    let d = f.data();
    assert_eq!(&d[4..8], &[0xFF, 9, 9, 9]);
    assert_eq!(&d[8..12], &[0xE0, 0, 0, 0]);
    assert_eq!(&d[12..16], &[0xE0, 0, 0, 0]);
}

#[test]
fn render_clamps_and_reports_overflow() {
    let mut f = HeapData::new(2);
    let segs = vec![seg(1, 100), seg(3, 100)];
    let colors = vec![Some(Srgb8::new(1, 1, 1)), Some(Srgb8::new(2, 2, 2))];
    assert_eq!(
        render_segments(&mut f, &segs, &colors),
        Err(FrameError::PixelOutOfRange { index: 2, length: 2 })
    );
    let d = f.data();
    assert_eq!(&d[4..8], &[0xFF, 1, 1, 1]);
    assert_eq!(&d[8..12], &[0xFF, 2, 2, 2]);
    assert_eq!(&d[12..16], &[0, 0, 0, 0]);
    assert_eq!(d.len(), 4 + 8 + 4 + 1);
}

#[test]
fn data_by_value_matches_heap_frame() {
    let d = color_mixer::Data::<3>::new();
    assert_eq!(d.to_bytes(), HeapData::new(3).data().to_vec());
}

#[test]
fn data_by_value_length_for_512_pixels() {
    let d: color_mixer::Data<512> = Default::default();
    assert_eq!(d.to_bytes().len(), 2089);
}
