//! How hard a codec is asked to work, and how that request becomes a codec's
//! own numeric level.

use vstd::prelude::*;

verus! {

/// Requested compression effort.
///
/// The three symbolic requests take whatever number a codec assigns to them.
/// `Level` asks for a number outright; a codec moves it into its own range
/// where it lies outside.
#[derive(Clone, Copy, Debug, PartialEq, Eq, Structural)]
pub enum Compression {
    /// The codec's usual trade-off.
    Default,
    /// Smallest output.
    Maximum,
    /// Fastest run.
    Minimum,
    /// An explicit numeric level.
    Level(u32),
}

/// `n` moved into the range from `min` to `max`: below the range it becomes
/// `min`, above it `max`.
pub open spec fn clamped(n: int, min: int, max: int) -> int {
    if n < min {
        min
    } else if n > max {
        max
    } else {
        n
    }
}

impl Compression {
    /// The level this request denotes for a codec whose fastest level is
    /// `min`, whose strongest is `max` and whose usual one is `def`.
    pub open spec fn custom(self, min: int, max: int, def: int) -> int {
        match self {
            Compression::Default => def,
            Compression::Maximum => max,
            Compression::Minimum => min,
            Compression::Level(n) => clamped(n as int, min, max),
        }
    }

    /// The level this request denotes on the common scale, which runs from 0
    /// (no effort) to 9 (smallest output): the fastest setting is 1 and the
    /// usual one 6.
    pub open spec fn common(self) -> int {
        match self {
            Compression::Default => 6,
            Compression::Maximum => 9,
            Compression::Minimum => 1,
            Compression::Level(n) => clamped(n as int, 0, 9),
        }
    }

    /// The request for the smallest output.
    pub fn best() -> (r: Self)
        ensures
            r == Compression::Maximum,
    {
        Compression::Maximum
    }

    /// The request for the fastest run.
    pub fn fast() -> (r: Self)
        ensures
            r == Compression::Minimum,
    {
        Compression::Minimum
    }

    /// Turns the request into a level of a codec with unsigned levels.
    pub fn into_custom(self, min: u32, max: u32, def: u32) -> (r: u32)
        ensures
            r == self.custom(min as int, max as int, def as int),
    {
        match self {
            Compression::Default => def,
            Compression::Maximum => max,
            Compression::Minimum => min,
            Compression::Level(n) => {
                if n < min {
                    min
                } else if n > max {
                    max
                } else {
                    n
                }
            },
        }
    }

    /// Turns the request into a level of a codec with signed levels.
    pub fn into_custom_signed(self, min: i32, max: i32, def: i32) -> (r: i32)
        ensures
            r == self.custom(min as int, max as int, def as int),
    {
        match self {
            Compression::Default => def,
            Compression::Maximum => max,
            Compression::Minimum => min,
            Compression::Level(n) => {
                if (n as i64) < (min as i64) {
                    min
                } else if (n as i64) > (max as i64) {
                    max
                } else {
                    n as i32
                }
            },
        }
    }
}

impl Default for Compression {
    fn default() -> (r: Self)
        ensures
            r == Compression::Default,
    {
        Compression::Default
    }
}

impl From<Compression> for u32 {
    /// The level on the common scale from 0 to 9.
    fn from(c: Compression) -> (r: u32) {
        match c {
            Compression::Default => 6,
            Compression::Maximum => 9,
            Compression::Minimum => 1,
            Compression::Level(n) => if n > 9 {
                9
            } else {
                n
            },
        }
    }
}

impl vstd::std_specs::convert::FromSpecImpl<Compression> for u32 {
    open spec fn obeys_from_spec() -> bool {
        true
    }

    open spec fn from_spec(c: Compression) -> u32 {
        c.common() as u32
    }
}

/// A symbolic request denotes what the codec assigns to it, and a numeric
/// request lies in the codec's range wherever that range is not empty.
pub proof fn level_within_bounds(c: Compression, min: int, max: int, def: int)
    requires
        min <= max,
    ensures
        c == Compression::Default ==> c.custom(min, max, def) == def,
        c == Compression::Maximum ==> c.custom(min, max, def) == max,
        c == Compression::Minimum ==> c.custom(min, max, def) == min,
        c is Level ==> min <= c.custom(min, max, def) <= max,
{
}

/// A numeric request inside a codec's range is taken as it is, and the
/// levels of numeric requests never reverse the order of the requests.
pub proof fn numeric_levels_keep_order(a: u32, b: u32, min: int, max: int, def: int)
    requires
        min <= max,
        a <= b,
    ensures
        Compression::Level(a).custom(min, max, def) <= Compression::Level(b).custom(min, max, def),
        min <= a <= max ==> Compression::Level(a).custom(min, max, def) == a,
{
}

} // verus!
