use vstd::prelude::*;

use crate::color::{Srgb8, Wrap};

verus! {

/// Number of entries in the period table.
pub const PERIOD_TABLE_LEN: usize = 22;

/// The period table: distinct small primes, in milliseconds per unit of
/// `chill_fac`. Segments that share a factor but differ in index drift in and
/// out of phase instead of running in lockstep.
pub open spec fn period_base(idx: int) -> int {
    if idx == 0 { 7 }
    else if idx == 1 { 11 }
    else if idx == 2 { 13 }
    else if idx == 3 { 17 }
    else if idx == 4 { 19 }
    else if idx == 5 { 23 }
    else if idx == 6 { 29 }
    else if idx == 7 { 31 }
    else if idx == 8 { 37 }
    else if idx == 9 { 41 }
    else if idx == 10 { 43 }
    else if idx == 11 { 47 }
    else if idx == 12 { 53 }
    else if idx == 13 { 59 }
    else if idx == 14 { 61 }
    else if idx == 15 { 67 }
    else if idx == 16 { 71 }
    else if idx == 17 { 73 }
    else if idx == 18 { 79 }
    else if idx == 19 { 83 }
    else if idx == 20 { 89 }
    else if idx == 21 { 97 }
    else { 0 }
}

/// Entry `idx` of the period table.
pub fn chill_base(idx: usize) -> (r: u32)
    requires
        idx < PERIOD_TABLE_LEN,
    ensures
        r == period_base(idx as int),
        7 <= r <= 97,
{
    if idx == 0 { 7 }
    else if idx == 1 { 11 }
    else if idx == 2 { 13 }
    else if idx == 3 { 17 }
    else if idx == 4 { 19 }
    else if idx == 5 { 23 }
    else if idx == 6 { 29 }
    else if idx == 7 { 31 }
    else if idx == 8 { 37 }
    else if idx == 9 { 41 }
    else if idx == 10 { 43 }
    else if idx == 11 { 47 }
    else if idx == 12 { 53 }
    else if idx == 13 { 59 }
    else if idx == 14 { 61 }
    else if idx == 15 { 67 }
    else if idx == 16 { 71 }
    else if idx == 17 { 73 }
    else if idx == 18 { 79 }
    else if idx == 19 { 83 }
    else if idx == 20 { 89 }
    else { 97 }
}

/// Why a segment's animation period cannot be computed.
#[derive(Clone, Copy, Debug, PartialEq, Eq, Structural)]
pub enum ConfigError {
    /// `chill_idx` lies outside the period table.
    ChillIndexOutOfRange,
    /// `chill_fac` is zero, so the period would be zero.
    ZeroPeriod,
    /// `chill_fac * period_table[chill_idx]` does not fit in 32 bits.
    PeriodOverflow,
}

/// The hyphenated lowercase text of the identifier with value `id`.
pub uninterp spec fn uuid_text(id: u128) -> Seq<char>;

/// Relies on uuid::Uuid::new_v4: a fresh random identifier, returned as its
/// 128-bit value (Uuid::as_u128).
#[verifier::external_body]
fn random_uuid() -> (r: u128) {
    uuid::Uuid::new_v4().as_u128()
}

/// Relies on uuid::Uuid::from_u128 and the Display of uuid::Uuid: the
/// hyphenated lowercase text of the identifier, which depends on `id` alone.
#[verifier::external_body]
fn uuid_string(id: u128) -> (r: String)
    ensures
        r@ == uuid_text(id),
{
    uuid::Uuid::from_u128(id).to_string()
}

/// Where a segment stands in its forward/back colour sweep: blend from `from`
/// towards `to` by the eased fraction `num / den`, with `num < den`.
#[derive(Clone, Copy, Debug, PartialEq, Eq, Structural)]
pub struct Sweep {
    pub from: Srgb8,
    pub to: Srgb8,
    pub num: u32,
    pub den: u32,
}

/// The sweep at phase `w` of a period `p`: the first half runs from `c1` to
/// `c2`, the second half from `c2` back to `c1`, each over the fraction
/// `2w/p` (first half) or `(2w - p)/p` (second half).
pub open spec fn sweep_of(c1: Srgb8, c2: Srgb8, w: int, p: int) -> Sweep {
    if 2 * w >= p {
        Sweep { from: c2, to: c1, num: (2 * w - p) as u32, den: p as u32 }
    } else {
        Sweep { from: c1, to: c2, num: (2 * w) as u32, den: p as u32 }
    }
}

impl Sweep {
    /// The colour when no blending is needed: the start colour, exactly, at the
    /// start of either half of the sweep.
    pub fn exact(&self) -> (r: Option<Srgb8>)
        ensures
            self.num == 0 ==> r == Some(self.from),
            self.num != 0 ==> r.is_none(),
    {
        if self.num == 0 {
            Some(self.from)
        } else {
            None
        }
    }
}

/// The animatable unit: a run of `length` LEDs that sweeps between two colours
/// with a period of `chill_fac * period_table[chill_idx]` milliseconds.
#[derive(Clone, Copy, Debug, PartialEq, Eq, Hash)]
pub struct Segment {
    pub uuid: u128,
    pub length: usize,
    pub bgr: bool,
    pub colors: [Wrap; 2],
    pub chill_idx: usize,
    pub chill_fac: u32,
    pub brightness: u8,
}

impl Segment {
    pub open spec fn spec_color_1(&self) -> Srgb8 {
        self.colors@[0].0
    }

    pub open spec fn spec_color_2(&self) -> Srgb8 {
        self.colors@[1].0
    }

    /// The period in milliseconds, as a mathematical integer.
    pub open spec fn chill_period(&self) -> int {
        self.chill_fac as int * period_base(self.chill_idx as int)
    }

    /// The period parameters name a non-zero period that fits in 32 bits.
    pub open spec fn is_valid(&self) -> bool {
        &&& self.chill_idx < PERIOD_TABLE_LEN
        &&& self.chill_fac > 0
        &&& self.chill_period() <= u32::MAX
    }

    /// Why an invalid segment has no period.
    pub open spec fn config_error(&self) -> ConfigError {
        if self.chill_idx >= PERIOD_TABLE_LEN {
            ConfigError::ChillIndexOutOfRange
        } else if self.chill_fac == 0 {
            ConfigError::ZeroPeriod
        } else {
            ConfigError::PeriodOverflow
        }
    }

    /// The sweep at `at_millis` for a valid segment.
    pub open spec fn sweep_spec(&self, at_millis: int) -> Sweep {
        sweep_of(
            self.spec_color_1(),
            self.spec_color_2(),
            at_millis % self.chill_period(),
            self.chill_period(),
        )
    }

    pub fn new_with_uuid(
        uuid: u128,
        length: usize,
        bgr: bool,
        c1: Srgb8,
        c2: Srgb8,
        chill_idx: usize,
        chill_fac: u32,
        brightness: u8,
    ) -> (r: Segment)
        ensures
            r.uuid == uuid,
            r.length == length,
            r.bgr == bgr,
            r.spec_color_1() == c1,
            r.spec_color_2() == c2,
            r.chill_idx == chill_idx,
            r.chill_fac == chill_fac,
            r.brightness == brightness,
    {
        Segment { uuid, length, bgr, colors: [Wrap(c1), Wrap(c2)], chill_idx, chill_fac, brightness }
    }

    /// A segment with a fresh random identifier.
    pub fn new(
        length: usize,
        bgr: bool,
        c1: Srgb8,
        c2: Srgb8,
        chill_idx: usize,
        chill_fac: u32,
        brightness: u8,
    ) -> (r: Segment)
        ensures
            r.length == length,
            r.bgr == bgr,
            r.spec_color_1() == c1,
            r.spec_color_2() == c2,
            r.chill_idx == chill_idx,
            r.chill_fac == chill_fac,
            r.brightness == brightness,
    {
        Self::new_with_uuid(random_uuid(), length, bgr, c1, c2, chill_idx, chill_fac, brightness)
    }

    /// The identifier's hyphenated text, which keys the segment in a store.
    pub fn to_uuid_string(&self) -> (r: String)
        ensures
            r@ == uuid_text(self.uuid),
    {
        uuid_string(self.uuid)
    }

    /// The period in milliseconds, or why the segment has none.
    pub fn chill_ms(&self) -> (r: Result<u32, ConfigError>)
        ensures
            self.is_valid() ==> r == Ok::<u32, ConfigError>(self.chill_period() as u32),
            !self.is_valid() ==> r == Err::<u32, ConfigError>(self.config_error()),
    {
        if self.chill_idx >= PERIOD_TABLE_LEN {
            return Err(ConfigError::ChillIndexOutOfRange);
        }
        if self.chill_fac == 0 {
            return Err(ConfigError::ZeroPeriod);
        }
        let base = chill_base(self.chill_idx);
        let fac = self.chill_fac;
        assert((fac as int) * (base as int) <= (u32::MAX as int) * 97) by (nonlinear_arith)
            requires
                fac <= u32::MAX,
                base <= 97,
        ;
        let period: u64 = fac as u64 * base as u64;
        if period > u32::MAX as u64 {
            Err(ConfigError::PeriodOverflow)
        } else {
            Ok(period as u32)
        }
    }

    /// Where the segment stands in its colour sweep `at_millis` milliseconds
    /// after the epoch.
    pub fn sweep_at(&self, at_millis: u32) -> (r: Result<Sweep, ConfigError>)
        ensures
            self.is_valid() ==> r == Ok::<Sweep, ConfigError>(self.sweep_spec(at_millis as int)),
            !self.is_valid() ==> r == Err::<Sweep, ConfigError>(self.config_error()),
    {
        let period = match self.chill_ms() {
            Ok(p) => p,
            Err(e) => return Err(e),
        };
        let w = at_millis % period;
        let (from, to, num) = if 2 * (w as u64) >= period as u64 {
            (*self.color_2(), *self.color_1(), (2 * (w as u64) - period as u64) as u32)
        } else {
            (*self.color_1(), *self.color_2(), (2 * w as u64) as u32)
        };
        Ok(Sweep { from, to, num, den: period })
    }

    pub fn length(&self) -> (r: usize)
        ensures
            r == self.length,
    {
        self.length
    }

    pub fn uuid(&self) -> (r: u128)
        ensures
            r == self.uuid,
    {
        self.uuid
    }

    pub fn chill_idx(&self) -> (r: usize)
        ensures
            r == self.chill_idx,
    {
        self.chill_idx
    }

    pub fn set_chill_idx(&mut self, chill_idx: usize)
        ensures
            *final(self) == (Segment { chill_idx, ..*old(self) }),
    {
        self.chill_idx = chill_idx;
    }

    pub fn chill_fac(&self) -> (r: u32)
        ensures
            r == self.chill_fac,
    {
        self.chill_fac
    }

    pub fn set_chill_fac(&mut self, chill_fac: u32)
        ensures
            *final(self) == (Segment { chill_fac, ..*old(self) }),
    {
        self.chill_fac = chill_fac;
    }

    /// Both colour stops, for editing in place.
    pub fn colors_mut(&mut self) -> (r: &mut [Wrap; 2])
        ensures
            *r == old(self).colors,
            *final(self) == (Segment { colors: *final(r), ..*old(self) }),
    {
        &mut self.colors
    }

    pub fn set_length(&mut self, length: usize)
        ensures
            *final(self) == (Segment { length, ..*old(self) }),
    {
        self.length = length;
    }

    pub fn brightness(&self) -> (r: u8)
        ensures
            r == self.brightness,
    {
        self.brightness
    }

    pub fn set_brightness(&mut self, brightness: u8)
        ensures
            *final(self) == (Segment { brightness, ..*old(self) }),
    {
        self.brightness = brightness;
    }

    pub fn color_1(&self) -> (r: &Srgb8)
        ensures
            *r == self.spec_color_1(),
    {
        &self.colors[0].0
    }

    pub fn color_2(&self) -> (r: &Srgb8)
        ensures
            *r == self.spec_color_2(),
    {
        &self.colors[1].0
    }
}

impl Default for Segment {
    /// One LED sweeping from orange to pink with an 80 x 7 ms period at
    /// brightness 10, under a fresh random identifier.
    fn default() -> (r: Segment)
        ensures
            r.length == 1,
            !r.bgr,
            r.spec_color_1() == (Srgb8 { red: 255, green: 150, blue: 0 }),
            r.spec_color_2() == (Srgb8 { red: 255, green: 10, blue: 220 }),
            r.chill_idx == 0,
            r.chill_fac == 80,
            r.brightness == 10,
    {
        Segment::new(1, false, Srgb8::new(255, 150, 0), Srgb8::new(255, 10, 220), 0, 80, 10)
    }
}

/// Period factor of the default seed.
pub const DEFAULT_CHILL_FAC: u32 = 100;

/// Brightness of the default seed.
pub const DEFAULT_BRIGHTNESS: u8 = 10;

/// The colour pair of default segment `i`.
pub open spec fn default_colors(i: int) -> (Srgb8, Srgb8) {
    if i == 0 {
        (Srgb8 { red: 255, green: 150, blue: 0 }, Srgb8 { red: 255, green: 10, blue: 120 })
    } else if i == 1 {
        (Srgb8 { red: 166, green: 0, blue: 255 }, Srgb8 { red: 2, green: 192, blue: 192 })
    } else if i == 2 {
        (Srgb8 { red: 20, green: 200, blue: 141 }, Srgb8 { red: 200, green: 176, blue: 20 })
    } else {
        (Srgb8 { red: 200, green: 20, blue: 30 }, Srgb8 { red: 200, green: 200, blue: 10 })
    }
}

/// `segs` is the default seed: four one-LED segments with period indices 0 to
/// 3, the default factor and brightness, and the documented colour pairs.
pub open spec fn is_default_seed(segs: Seq<Segment>) -> bool {
    &&& segs.len() == 4
    &&& forall|i: int|
        0 <= i < 4 ==> {
            let s = #[trigger] segs[i];
            &&& s.length == 1
            &&& !s.bgr
            &&& s.chill_idx == i
            &&& s.chill_fac == DEFAULT_CHILL_FAC
            &&& s.brightness == DEFAULT_BRIGHTNESS
            &&& s.spec_color_1() == default_colors(i).0
            &&& s.spec_color_2() == default_colors(i).1
        }
}

/// The segments a store starts with when nothing was saved, each under a fresh
/// random identifier.
pub fn default_segments() -> (r: Vec<Segment>)
    ensures
        is_default_seed(r@),
{
    let mut r: Vec<Segment> = Vec::new();
    r.push(
        Segment::new(
            1,
            false,
            Srgb8::new(255, 150, 0),
            Srgb8::new(255, 10, 120),
            0,
            DEFAULT_CHILL_FAC,
            DEFAULT_BRIGHTNESS,
        ),
    );
    r.push(
        Segment::new(
            1,
            false,
            Srgb8::new(166, 0, 255),
            Srgb8::new(2, 192, 192),
            1,
            DEFAULT_CHILL_FAC,
            DEFAULT_BRIGHTNESS,
        ),
    );
    r.push(
        Segment::new(
            1,
            false,
            Srgb8::new(20, 200, 141),
            Srgb8::new(200, 176, 20),
            2,
            DEFAULT_CHILL_FAC,
            DEFAULT_BRIGHTNESS,
        ),
    );
    r.push(
        Segment::new(
            1,
            false,
            Srgb8::new(200, 20, 30),
            Srgb8::new(200, 200, 10),
            3,
            DEFAULT_CHILL_FAC,
            DEFAULT_BRIGHTNESS,
        ),
    );
    r
}

} // verus!

verus! {

/// Every valid segment has a positive period.
pub proof fn lemma_valid_period_positive(seg: Segment)
    requires
        seg.is_valid(),
    ensures
        seg.chill_period() > 0,
{
    assert(period_base(seg.chill_idx as int) >= 7);
    assert(seg.chill_fac as int * period_base(seg.chill_idx as int) > 0) by (nonlinear_arith)
        requires
            seg.chill_fac > 0,
            period_base(seg.chill_idx as int) >= 7,
    ;
}

/// The sweep, and so the resolved colour, repeats with the segment's period.
pub proof fn lemma_sweep_periodic(seg: Segment, t: int)
    requires
        seg.is_valid(),
        0 <= t,
    ensures
        seg.sweep_spec(t + seg.chill_period()) == seg.sweep_spec(t),
{
    lemma_valid_period_positive(seg);
    vstd::arithmetic::div_mod::lemma_mod_add_multiples_vanish(t, seg.chill_period());
}

/// At the start of each period the sweep stands exactly on the first colour;
/// one millisecond before the next period starts it is heading back into the
/// first colour, two steps short of the end of its fraction.
pub proof fn lemma_sweep_wraps_to_first_color(seg: Segment, t: int)
    requires
        seg.is_valid(),
        0 <= t,
        t % seg.chill_period() == 0,
    ensures
        seg.sweep_spec(t) == (Sweep {
            from: seg.spec_color_1(),
            to: seg.spec_color_2(),
            num: 0,
            den: seg.chill_period() as u32,
        }),
        seg.sweep_spec(seg.chill_period() - 1) == (Sweep {
            from: seg.spec_color_2(),
            to: seg.spec_color_1(),
            num: (seg.chill_period() - 2) as u32,
            den: seg.chill_period() as u32,
        }),
{
    lemma_valid_period_positive(seg);
    assert(period_base(seg.chill_idx as int) >= 7);
    assert(seg.chill_period() >= 7) by (nonlinear_arith)
        requires
            seg.chill_fac >= 1,
            period_base(seg.chill_idx as int) >= 7,
            seg.chill_period() == seg.chill_fac as int * period_base(seg.chill_idx as int),
    ;
    vstd::arithmetic::div_mod::lemma_small_mod(
        (seg.chill_period() - 1) as nat,
        seg.chill_period() as nat,
    );
}

/// Half a period in, a segment with an even period stands exactly on its
/// second colour, turning back towards the first.
pub proof fn lemma_sweep_midpoint(seg: Segment)
    requires
        seg.is_valid(),
        seg.chill_period() % 2 == 0,
    ensures
        seg.sweep_spec(seg.chill_period() / 2) == (Sweep {
            from: seg.spec_color_2(),
            to: seg.spec_color_1(),
            num: 0,
            den: seg.chill_period() as u32,
        }),
{
    lemma_valid_period_positive(seg);
    vstd::arithmetic::div_mod::lemma_small_mod(
        (seg.chill_period() / 2) as nat,
        seg.chill_period() as nat,
    );
}

} // verus!

verus! {

/// Each default segment stands exactly on its first colour at time zero and
/// exactly on its second colour half a period later.
pub proof fn lemma_default_seed_endpoints(segs: Seq<Segment>, i: int)
    requires
        is_default_seed(segs),
        0 <= i < 4,
    ensures
        segs[i].is_valid(),
        segs[i].sweep_spec(0).num == 0,
        segs[i].sweep_spec(0).from == default_colors(i).0,
        segs[i].sweep_spec(segs[i].chill_period() / 2).num == 0,
        segs[i].sweep_spec(segs[i].chill_period() / 2).from == default_colors(i).1,
{
    let s = segs[i];
    assert(s.chill_period() == 100 * period_base(i));
    assert(s.is_valid());
    lemma_sweep_wraps_to_first_color(s, 0);
    lemma_sweep_midpoint(s);
}

} // verus!
