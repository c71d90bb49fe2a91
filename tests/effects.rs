use color_mixer::{Row, RowIterator, RowPixel, Srgb8};

#[test]
fn wraps() {
    let mut row = Row::new(126, 0, 0, 5, 1);
    for y in [0, 0, 1, 1, 2] {
        row.tick();
        assert_eq!(y, row.y);
    }
}

#[test]
fn dies_after_reaching_height_and_age_limit() {
    // speed 128, fade 1: the age limit is 20000 / 128 = 156 ticks
    let mut row = Row::new(128, 0, 0, 2, 1);
    let mut first_dead = None;
    for tick in 1..=400u32 {
        if row.tick() && first_dead.is_none() {
            first_dead = Some(tick);
        }
    }
    assert_eq!(first_dead, Some(157));
    assert_eq!(row.y, 200);
    assert_eq!(row.age, 400);
}

#[test]
fn it_works() {
    assert_eq!(2 + 2, 4);
}

#[test]
fn row_age_and_sub_row_counter() {
    let mut row = Row::new(200, 3, 1, 10, 2);
    assert!(!row.tick());
    assert_eq!(row.y_sub, 200);
    assert_eq!(row.y, 1);
    assert!(!row.tick());
    assert_eq!(row.y_sub, 144);
    assert_eq!(row.y, 2);
    assert_eq!(row.age, 2);
}

#[test]
fn row_y_saturates() {
    let mut row = Row::new(255, 0, 255, 0, 1);
    row.y_sub = 255;
    row.tick();
    assert_eq!(row.y, 255);
}

#[test]
fn row_trail_colours() {
    let mut row = Row::new(255, 4, 2, 10, 3);
    row.y = 5;
    let mut it: RowIterator = row.iter();
    let mut cells: Vec<RowPixel> = Vec::new();
    while let Some(p) = it.next() {
        cells.push(p);
    }
    assert_eq!(cells.len(), 4);
    // delta_max = 3, green_max = 255 - 42 = 213, step = fade + 1 = 4
    assert_eq!(cells[0], RowPixel { x: 4, y: 2, color: Srgb8::new(0, 201, 0) });
    assert_eq!(cells[1], RowPixel { x: 4, y: 3, color: Srgb8::new(0, 205, 0) });
    assert_eq!(cells[2], RowPixel { x: 4, y: 4, color: Srgb8::new(0, 209, 0) });
    assert_eq!(cells[3], RowPixel { x: 4, y: 5, color: Srgb8::new(90, 120, 110) });
    assert_eq!(it.next(), None);
    assert_eq!(it.next(), None);
}

#[test]
fn row_iterator_saturating_green() {
    let mut it = RowIterator::new(0, 0, 30, 20);
    let first = it.next().unwrap();
    // 30 * 14 saturates at 255, so the trail body is dark
    assert_eq!(first.color, Srgb8::new(0, 0, 0));
}

use color_mixer::{chase, expanding_circle, expanding_circle_2, progress};

const BLACK: Srgb8 = Srgb8 { red: 0, green: 0, blue: 0 };
const GREY: Srgb8 = Srgb8 { red: 64, green: 64, blue: 64 };

#[test]
fn progress_lights_a_share_of_the_strip() {
    let mut data = vec![BLACK; 4];
    progress(32768, &mut data);
    assert_eq!(data, vec![GREY, GREY, BLACK, BLACK]);
    let mut full = vec![BLACK; 4];
    progress(u16::MAX, &mut full);
    assert_eq!(full, vec![GREY; 4]);
    let mut none = vec![BLACK; 4];
    progress(0, &mut none);
    assert_eq!(none, vec![BLACK; 4]);
}

#[test]
fn chase_moves_one_lit_led() {
    let red = Srgb8::new(255, 0, 0);
    let mut data = vec![red; 4];
    chase(5, &mut data, Srgb8::new(1, 2, 3));
    assert_eq!(data, vec![BLACK, Srgb8::new(1, 2, 3), red, red]);
    let mut wrap = vec![red; 4];
    chase(8, &mut wrap, Srgb8::new(1, 2, 3));
    assert_eq!(wrap, vec![Srgb8::new(1, 2, 3), red, red, BLACK]);
}

#[test]
fn expanding_circle_centre_and_corner() {
    let mut data = vec![Srgb8::new(9, 9, 9); 50];
    expanding_circle(0, 1, &mut data);
    assert_eq!(data[24], Srgb8::new(0, 127, 255));
    assert_eq!(data[0], Srgb8::new(0, 0, 1));
    assert_eq!(data[49], Srgb8::new(9, 9, 9));
    let mut later = vec![BLACK; 49];
    expanding_circle(10, 2, &mut later);
    assert_eq!(later[24], Srgb8::new(0, 47, 92));
}

#[test]
fn expanding_circle_on_a_short_strip() {
    let mut data = vec![BLACK; 3];
    expanding_circle(0, 1, &mut data);
    assert_eq!(data[0], Srgb8::new(0, 0, 1));
}

#[test]
fn expanding_circle_2_channels() {
    let mut rgb = vec![BLACK; 49];
    expanding_circle_2(0, 1, 2, &mut rgb, false);
    assert_eq!(rgb[24], Srgb8::new(254, 0, 255));
    let mut grb = vec![BLACK; 49];
    expanding_circle_2(0, 1, 2, &mut grb, true);
    assert_eq!(grb[24], Srgb8::new(0, 254, 255));
}
