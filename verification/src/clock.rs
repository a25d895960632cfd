//! Wall-clock time as seconds and microseconds since the Unix epoch. The
//! device's monotonic counter gives reliable intervals; this module does
//! the arithmetic that projects a synchronized base time forward by an
//! elapsed interval.

use vstd::prelude::*;

verus! {

/// A time relative to the Unix epoch.
#[derive(Clone, Copy, Debug, PartialEq, Eq, Structural)]
pub struct UnixTime {
    pub seconds: u64,
    pub useconds: u32,
}

/// Saturating addition on 64-bit seconds.
pub open spec fn sat_add_u64(a: u64, b: u64) -> u64 {
    if a + b > u64::MAX {
        u64::MAX
    } else {
        (a + b) as u64
    }
}

/// Carries whole seconds out of the microsecond field, one million at a
/// time, while more than one million remain.
pub open spec fn spec_carry(seconds: u64, useconds: u32) -> UnixTime
    decreases useconds,
{
    if useconds > 1_000_000 {
        spec_carry(sat_add_u64(seconds, 1), (useconds - 1_000_000) as u32)
    } else {
        UnixTime { seconds, useconds }
    }
}

/// The base time advanced by an elapsed interval (whole seconds plus the
/// sub-second microseconds), with the microsecond overflow carried into
/// the seconds and the seconds saturating at their limit.
pub open spec fn spec_advanced(t: UnixTime, secs: u64, micros: u32) -> UnixTime {
    if t.useconds + micros > u32::MAX {
        spec_carry(sat_add_u64(t.seconds, secs), u32::MAX)
    } else {
        spec_carry(sat_add_u64(t.seconds, secs), (t.useconds + micros) as u32)
    }
}

impl UnixTime {
    /// The epoch itself.
    pub fn epoch() -> (r: UnixTime)
        ensures
            r == (UnixTime { seconds: 0u64, useconds: 0u32 }),
    {
        UnixTime { seconds: 0, useconds: 0 }
    }

    /// This time advanced by an elapsed interval: `secs` whole seconds and
    /// `micros` further microseconds.
    pub fn advanced_by(self, secs: u64, micros: u32) -> (r: UnixTime)
        ensures
            r == spec_advanced(self, secs, micros),
    {
        let mut seconds = if self.seconds <= u64::MAX - secs {
            self.seconds + secs
        } else {
            u64::MAX
        };
        let mut useconds = if micros <= u32::MAX - self.useconds {
            self.useconds + micros
        } else {
            u32::MAX
        };
        while useconds > 1_000_000
            invariant
                spec_carry(seconds, useconds) == spec_advanced(self, secs, micros),
            decreases useconds,
        {
            seconds = if seconds < u64::MAX {
                seconds + 1
            } else {
                u64::MAX
            };
            useconds = useconds - 1_000_000;
        }
        UnixTime { seconds, useconds }
    }
}

impl Default for UnixTime {
    /// The epoch.
    fn default() -> (r: UnixTime)
        ensures
            r == (UnixTime { seconds: 0u64, useconds: 0u32 }),
    {
        UnixTime { seconds: 0, useconds: 0 }
    }
}

} // verus!
