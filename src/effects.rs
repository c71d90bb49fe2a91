use vstd::prelude::*;

use crate::color::Srgb8;

verus! {

/// `a - b`, or zero where that would be negative.
pub open spec fn sat_sub(a: int, b: int) -> int {
    if a >= b {
        a - b
    } else {
        0
    }
}

/// `a * b`, capped at 255.
pub open spec fn sat_mul_u8(a: int, b: int) -> int {
    if a * b <= 255 {
        a * b
    } else {
        255
    }
}

fn saturating_sub_u8(a: u8, b: u8) -> (r: u8)
    ensures
        r == sat_sub(a as int, b as int),
{
    if a >= b {
        a - b
    } else {
        0
    }
}

fn saturating_mul_u8(a: u8, b: u8) -> (r: u8)
    ensures
        r == sat_mul_u8(a as int, b as int),
{
    assert((a as int) * (b as int) <= 255 * 255) by (nonlinear_arith)
        requires
            a <= 255,
            b <= 255,
    ;
    let p: u16 = a as u16 * b as u16;
    if p <= 255 {
        p as u8
    } else {
        255
    }
}

/// A falling trail on a matrix: it moves down one row each time its sub-row
/// counter wraps, ages with every tick, and reports when it is done.
pub struct Row {
    pub speed: u8,
    pub x: u8,
    pub y_start: u8,
    pub y: u8,
    pub y_sub: u8,
    pub height: u8,
    pub fade: u8,
    pub age: u16,
}

/// One lit matrix cell.
#[derive(Clone, Copy, Debug, PartialEq, Eq, Structural)]
pub struct RowPixel {
    pub x: i32,
    pub y: i32,
    pub color: Srgb8,
}

impl Row {
    pub fn new(speed: u8, x: u8, y: u8, height: u8, fade: u8) -> (r: Row)
        ensures
            r == (Row { speed, x, y_start: y, y, height, y_sub: 0, fade, age: 0 }),
    {
        Row { speed, x, y_start: y, y, height, y_sub: 0, fade, age: 0 }
    }

    /// Advances one step and tells whether the trail has reached its height
    /// and outlived `20000 / (fade * speed)` steps.
    pub fn tick(&mut self) -> (r: bool)
        requires
            old(self).fade > 0,
            old(self).speed > 0,
        ensures
            final(self).y_sub as int == (old(self).y_sub + old(self).speed) % 256,
            final(self).y as int == (if old(self).y_sub + old(self).speed >= 256 {
                if old(self).y < 255 {
                    old(self).y + 1
                } else {
                    255
                }
            } else {
                old(self).y as int
            }),
            final(self).age as int == (if old(self).age < 0xffff {
                old(self).age + 1
            } else {
                0xffff
            }),
            final(self).speed == old(self).speed,
            final(self).x == old(self).x,
            final(self).y_start == old(self).y_start,
            final(self).height == old(self).height,
            final(self).fade == old(self).fade,
            r == (final(self).y >= final(self).height && final(self).age as int > 20000int / (
            old(self).fade as int * old(self).speed as int)),
    {
        let sum: u16 = self.y_sub as u16 + self.speed as u16;
        let wrapped = sum >= 256;
        self.y_sub = (sum % 256) as u8;
        if wrapped && self.y < 255 {
            self.y = self.y + 1;
        }
        if self.age < 0xffff {
            self.age = self.age + 1;
        }
        let f: u16 = self.fade as u16;
        let s: u16 = self.speed as u16;
        assert(f * s <= 255 * 255 && f * s > 0) by (nonlinear_arith)
            requires
                1 <= f <= 255,
                1 <= s <= 255,
        ;
        let limit: u16 = 20000u16 / (f * s);
        self.y >= self.height && self.age > limit
    }

    /// The cells of the trail, from its start down to its head.
    pub fn iter(&self) -> (r: RowIterator)
        requires
            self.y_start <= self.y,
            self.fade < 255,
        ensures
            r.wf(),
            r == RowIterator::spec_new(self.x, self.y_start, self.y, self.fade),
    {
        RowIterator::new(self.x, self.y_start, self.y, self.fade)
    }
}

/// Walks a trail's cells from `y_start` to `y_end`: the head is pale, the rest
/// green, dimmer the further from the head and the longer the trail.
pub struct RowIterator {
    pub x: u8,
    pub y: u16,
    pub y_start: u8,
    pub y_end: u8,
    pub fade: u8,
}

/// The colour of the cell at `y` of a trail from `y_start` to `y_end`.
pub open spec fn trail_color(y: int, y_start: int, y_end: int, fade: int) -> Srgb8 {
    if y == y_end {
        Srgb8 { red: 90, green: 120, blue: 110 }
    } else {
        let green_max = sat_sub(255, sat_mul_u8(y_end - y_start, 14));
        Srgb8 {
            red: 0,
            green: sat_sub(green_max, sat_mul_u8(y_end - y, fade + 1)) as u8,
            blue: 0,
        }
    }
}

impl RowIterator {
    pub open spec fn spec_new(x: u8, y: u8, y_end: u8, fade: u8) -> RowIterator {
        RowIterator { x, y: y as u16, y_start: y, y_end, fade }
    }

    /// The walk is in range: it started at `y_start`, has not gone more than
    /// one past the end, and `fade + 1` fits in a byte.
    pub open spec fn wf(&self) -> bool {
        &&& self.y_start <= self.y
        &&& self.y <= 256
        &&& self.fade < 255
    }

    pub fn new(x: u8, y: u8, y_end: u8, fade: u8) -> (r: RowIterator)
        requires
            fade < 255,
        ensures
            r == Self::spec_new(x, y, y_end, fade),
            r.wf(),
    {
        RowIterator { x, y: y as u16, y_start: y, y_end, fade }
    }

    /// The next cell, or `None` past the end.
    pub fn next(&mut self) -> (r: Option<RowPixel>)
        requires
            old(self).wf(),
        ensures
            final(self).wf(),
            old(self).y > old(self).y_end ==> r.is_none() && *final(self) == *old(self),
            old(self).y <= old(self).y_end ==> r == Some(
                RowPixel {
                    x: old(self).x as i32,
                    y: old(self).y as i32,
                    color: trail_color(
                        old(self).y as int,
                        old(self).y_start as int,
                        old(self).y_end as int,
                        old(self).fade as int,
                    ),
                },
            ) && *final(self) == (RowIterator { y: (old(self).y + 1) as u16, ..*old(self) }),
    {
        if self.y > self.y_end as u16 {
            return None;
        }
        let y = self.y as u8;
        let color = if y == self.y_end {
            Srgb8::new(90, 120, 110)
        } else {
            let delta_max = self.y_end - self.y_start;
            let delta = self.y_end - y;
            let green_max = saturating_sub_u8(255, saturating_mul_u8(delta_max, 14));
            let g = saturating_sub_u8(green_max, saturating_mul_u8(delta, self.fade + 1));
            Srgb8::new(0, g, 0)
        };
        self.y = self.y + 1;
        Some(RowPixel { x: self.x as i32, y: y as i32, color })
    }
}

/// Grey of the progress bar.
pub const PROGRESS_GREY: u8 = 64;

/// Number of LEDs lit for progress `time` out of 65535 over `n` LEDs.
pub open spec fn progress_lit(time: int, n: int) -> int {
    (time * n) / 65535
}

/// Lights the first `time * n / 65535` LEDs grey and leaves the rest.
pub fn progress(time: u16, data: &mut Vec<Srgb8>)
    requires
        time as int * old(data)@.len() <= u32::MAX,
    ensures
        final(data)@.len() == old(data)@.len(),
        forall|i: int|
            0 <= i < old(data)@.len() ==> #[trigger] final(data)@[i] == (if i < progress_lit(
                time as int,
                old(data)@.len() as int,
            ) {
                Srgb8 { red: PROGRESS_GREY, green: PROGRESS_GREY, blue: PROGRESS_GREY }
            } else {
                old(data)@[i]
            }),
{
    let n: usize = data.len();
    let completeness: u32 = if time == 0 {
        0
    } else {
        assert(n <= u32::MAX) by (nonlinear_arith)
            requires
                time >= 1,
                time as int * n as int <= u32::MAX,
        ;
        (time as u32 * n as u32) / 65535u32
    };
    assert(completeness == progress_lit(time as int, n as int));
    assert(completeness <= n) by (nonlinear_arith)
        requires
            completeness == (time as int * n as int) / 65535,
            time <= 65535,
    ;
    let grey = Srgb8::new(PROGRESS_GREY, PROGRESS_GREY, PROGRESS_GREY);
    let mut i: usize = 0;
    while i < completeness as usize
        invariant
            i <= completeness <= n,
            n == old(data)@.len(),
            completeness == progress_lit(time as int, n as int),
            data@.len() == n,
            forall|j: int|
                0 <= j < n ==> #[trigger] data@[j] == (if j < i {
                    grey
                } else {
                    old(data)@[j]
                }),
        decreases completeness - i,
    {
        data.set(i, grey);
        i += 1;
    }
}

/// Moves a one-LED chaser to position `time mod n`, painting it `color` and
/// turning the LED before it (cyclically) off.
pub fn chase(time: u16, data: &mut Vec<Srgb8>, color: Srgb8)
    requires
        old(data)@.len() > 0,
    ensures
        final(data)@ == old(data)@.update(
            (time as int + old(data)@.len() - 1) % old(data)@.len() as int,
            Srgb8 { red: 0, green: 0, blue: 0 },
        ).update(time as int % old(data)@.len() as int, color),
{
    let n: usize = data.len();
    let offset: usize = time as usize % n;
    let prev: usize = if offset == 0 {
        n - 1
    } else {
        offset - 1
    };
    assert(prev as int == (time as int + n - 1) % n as int) by {
        vstd::arithmetic::div_mod::lemma_add_mod_noop(time as int, n - 1, n as int);
        vstd::arithmetic::div_mod::lemma_small_mod((n - 1) as nat, n as nat);
        if offset > 0 {
            vstd::arithmetic::div_mod::lemma_mod_add_multiples_vanish((offset - 1) as int, n as int);
            vstd::arithmetic::div_mod::lemma_small_mod((offset - 1) as nat, n as nat);
        }
    }
    data.set(prev, Srgb8::new(0, 0, 0));
    data.set(offset, color);
}

/// Distance from the centre of a 7 x 7 matrix, by column and row offset.
pub open spec fn circle_dist(x: int, y: int) -> int {
    if x == 0 {
        if y == 0 { 0 } else if y == 1 { 60 } else if y == 2 { 120 } else { 180 }
    } else if x == 1 {
        if y == 0 { 60 } else if y == 1 { 84 } else if y == 2 { 134 } else { 189 }
    } else if x == 2 {
        if y == 0 { 120 } else if y == 1 { 134 } else if y == 2 { 169 } else { 216 }
    } else {
        if y == 0 { 180 } else if y == 1 { 189 } else if y == 2 { 216 } else { 254 }
    }
}

fn circle_dist_of(x: usize, y: usize) -> (r: u8)
    requires
        x < 4,
        y < 4,
    ensures
        r == circle_dist(x as int, y as int),
{
    if x == 0 {
        if y == 0 { 0 } else if y == 1 { 60 } else if y == 2 { 120 } else { 180 }
    } else if x == 1 {
        if y == 0 { 60 } else if y == 1 { 84 } else if y == 2 { 134 } else { 189 }
    } else if x == 2 {
        if y == 0 { 120 } else if y == 1 { 134 } else if y == 2 { 169 } else { 216 }
    } else {
        if y == 0 { 180 } else if y == 1 { 189 } else if y == 2 { 216 } else { 254 }
    }
}

/// The ring's growth at `time`: slow at first, then 15 per step.
pub open spec fn circle_k(time: int) -> int {
    if time >= 160 {
        (time * 15) % 256
    } else {
        let slow = sat_sub(80, time / 2);
        let clamped = if slow < 1 { 1 } else if slow > 20 { 20 } else { slow };
        (clamped * time) % 256
    }
}

/// `|a - 3|`, the offset from the centre row or column of a 7 x 7 matrix.
pub open spec fn from_mid(a: int) -> int {
    if a >= 3 {
        a - 3
    } else {
        3 - a
    }
}

/// The ring brightness of matrix cell `i` at `time`.
pub open spec fn circle_level(i: int, time: int) -> int {
    sat_sub(
        (255 - circle_dist(from_mid(i % 7), from_mid(i / 7)) + circle_k(time)) % 256,
        time,
    )
}

fn circle_k_of(time: u8) -> (r: u8)
    ensures
        r == circle_k(time as int),
{
    if time >= 160 {
        ((time as u16 * 15) % 256) as u8
    } else {
        let slow = saturating_sub_u8(80, time / 2);
        let clamped: u8 = if slow < 1 {
            1
        } else if slow > 20 {
            20
        } else {
            slow
        };
        assert(clamped as int * time as int <= 20 * 255) by (nonlinear_arith)
            requires
                clamped <= 20,
                time <= 255,
        ;
        ((clamped as u16 * time as u16) % 256) as u8
    }
}

fn circle_level_of(i: usize, time: u8, k: u8) -> (r: u8)
    requires
        i < 49,
        k == circle_k(time as int),
    ensures
        r == circle_level(i as int, time as int),
{
    let col: usize = i % 7;
    let row: usize = i / 7;
    let x: usize = if col >= 3 {
        col - 3
    } else {
        3 - col
    };
    let y: usize = if row >= 3 {
        row - 3
    } else {
        3 - row
    };
    let base: u8 = 255 - circle_dist_of(x, y);
    let d: u8 = ((base as u16 + k as u16) % 256) as u8;
    saturating_sub_u8(d, time)
}

/// A ring of blue-green light growing from the centre of a 7 x 7 matrix,
/// dimmed by `dampen`, on the first 49 LEDs.
pub fn expanding_circle(time: u8, dampen: u8, data: &mut Vec<Srgb8>)
    requires
        dampen > 0,
    ensures
        final(data)@.len() == old(data)@.len(),
        forall|i: int|
            0 <= i < old(data)@.len() ==> #[trigger] final(data)@[i] == (if i < 49 {
                Srgb8 {
                    red: 0,
                    green: ((circle_level(i, time as int) / 2) / dampen as int) as u8,
                    blue: (sat_sub(circle_level(i, time as int), time as int / 2) / dampen as int) as u8,
                }
            } else {
                old(data)@[i]
            }),
{
    let k = circle_k_of(time);
    let n: usize = if data.len() < 49 {
        data.len()
    } else {
        49
    };
    let mut i: usize = 0;
    while i < n
        invariant
            i <= n <= 49,
            n <= data@.len(),
            n == (if old(data)@.len() < 49 { old(data)@.len() as int } else { 49 }),
            dampen > 0,
            k == circle_k(time as int),
            data@.len() == old(data)@.len(),
            forall|j: int|
                0 <= j < old(data)@.len() ==> #[trigger] data@[j] == (if j < i {
                    Srgb8 {
                        red: 0,
                        green: ((circle_level(j, time as int) / 2) / dampen as int) as u8,
                        blue: (sat_sub(circle_level(j, time as int), time as int / 2)
                            / dampen as int) as u8,
                    }
                } else {
                    old(data)@[j]
                }),
        decreases n - i,
    {
        let d = circle_level_of(i, time, k);
        let color = Srgb8::new(0, (d / 2) / dampen, saturating_sub_u8(d, time / 2) / dampen);
        data.set(i, color);
        i += 1;
    }
}

/// A ring like `expanding_circle` on exactly the first 49 LEDs, scaled by
/// `amplify`; with `grb` the red level goes to the green channel.
pub fn expanding_circle_2(time: u8, dampen: u8, amplify: u8, data: &mut Vec<Srgb8>, grb: bool)
    requires
        dampen > 0,
        old(data)@.len() >= 49,
    ensures
        final(data)@.len() == old(data)@.len(),
        forall|i: int|
            0 <= i < old(data)@.len() ==> #[trigger] final(data)@[i] == (if i < 49 {
                circle_2_color(i, time as int, dampen as int, amplify as int, grb)
            } else {
                old(data)@[i]
            }),
{
    let k = circle_k_of(time);
    let mut i: usize = 0;
    while i < 49
        invariant
            i <= 49,
            dampen > 0,
            k == circle_k(time as int),
            data@.len() == old(data)@.len(),
            old(data)@.len() >= 49,
            forall|j: int|
                0 <= j < old(data)@.len() ==> #[trigger] data@[j] == (if j < i {
                    circle_2_color(j, time as int, dampen as int, amplify as int, grb)
                } else {
                    old(data)@[j]
                }),
        decreases 49 - i,
    {
        let d = circle_level_of(i, time, k);
        let r = saturating_mul_u8((d / 2) / dampen, amplify);
        let b = saturating_mul_u8(saturating_sub_u8(d, time / 2) / dampen, amplify);
        let color = if grb {
            Srgb8::new(0, r, b)
        } else {
            Srgb8::new(r, 0, b)
        };
        data.set(i, color);
        i += 1;
    }
}

/// The colour of cell `i` in `expanding_circle_2`.
pub open spec fn circle_2_color(i: int, time: int, dampen: int, amplify: int, grb: bool) -> Srgb8 {
    let d = circle_level(i, time);
    let level = sat_mul_u8((d / 2) / dampen, amplify) as u8;
    let blue = sat_mul_u8(sat_sub(d, time / 2) / dampen, amplify) as u8;
    if grb {
        Srgb8 { red: 0, green: level, blue }
    } else {
        Srgb8 { red: level, green: 0, blue }
    }
}

} // verus!
