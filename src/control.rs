use vstd::prelude::*;

verus! {

/// Relies on chrono::Utc::now and DateTime::timestamp_millis: the current
/// time, in milliseconds since the Unix epoch.
#[verifier::external_body]
fn utc_now_millis() -> (r: i64) {
    chrono::Utc::now().timestamp_millis()
}

/// Milliseconds from `start` to `now`, wrapping at 32 bits; a `now` before
/// `start` counts as no time at all.
pub open spec fn elapsed_ms(start: i64, now: i64) -> u32 {
    if now >= start {
        ((now - start) % 0x1_0000_0000) as u32
    } else {
        0
    }
}

/// The animation clock: a start time and the time of the current tick, both
/// in milliseconds since the Unix epoch.
pub struct Control {
    start: i64,
    now: i64,
}

impl View for Control {
    type V = (i64, i64);

    closed spec fn view(&self) -> (i64, i64) {
        (self.start, self.now)
    }
}

impl Control {
    /// A clock started now.
    pub fn new() -> (r: Control)
        ensures
            r@.0 == r@.1,
    {
        let now = utc_now_millis();
        Control { start: now, now }
    }

    /// A clock started at `start`, in milliseconds since the Unix epoch.
    pub fn starting_at(start: i64) -> (r: Control)
        ensures
            r@ == (start, start),
    {
        Control { start, now: start }
    }

    /// Reads the time and returns the milliseconds since the start.
    pub fn tick(&mut self) -> (r: u32)
        ensures
            final(self)@.0 == old(self)@.0,
            r == elapsed_ms(final(self)@.0, final(self)@.1),
    {
        self.now = utc_now_millis();
        self.ms_since_start()
    }

    /// Sets the time of the current tick.
    pub fn set_now(&mut self, now: i64)
        ensures
            final(self)@ == (old(self)@.0, now),
    {
        self.now = now;
    }

    /// Milliseconds from the start to the current tick, wrapping at 32 bits.
    pub fn ms_since_start(&self) -> (r: u32)
        ensures
            r == elapsed_ms(self@.0, self@.1),
    {
        if self.now >= self.start {
            let dt: i128 = self.now as i128 - self.start as i128;
            (dt % 0x1_0000_0000i128) as u32
        } else {
            0
        }
    }
}

} // verus!
