//! Playback duration of a produced audio file, at nanosecond resolution.

use vstd::prelude::*;

use crate::naming::{decimal_chars, u64_to_decimal};

verus! {

pub const NANOS_PER_SEC: u32 = 1_000_000_000;

/// A non-negative span of time: whole seconds plus a sub-second remainder.
#[derive(Clone, Copy, Debug, PartialEq, Eq, Structural)]
pub struct AudioDuration {
    pub secs: u64,
    pub nanos: u32,
}

impl AudioDuration {
    /// The sub-second part never reaches a whole second.
    pub open spec fn wf(self) -> bool {
        self.nanos < NANOS_PER_SEC
    }

    pub open spec fn is_zero_spec(self) -> bool {
        self.secs == 0 && self.nanos == 0
    }

    pub fn new(secs: u64, nanos: u32) -> (r: AudioDuration)
        requires
            nanos < NANOS_PER_SEC,
        ensures
            r.secs == secs,
            r.nanos == nanos,
            r.wf(),
    {
        AudioDuration { secs, nanos }
    }

    pub fn zero() -> (r: AudioDuration)
        ensures
            r.is_zero_spec(),
            r.wf(),
    {
        AudioDuration { secs: 0, nanos: 0 }
    }

    pub fn is_zero(&self) -> (r: bool)
        ensures
            r == self.is_zero_spec(),
    {
        self.secs == 0 && self.nanos == 0
    }

    /// The duration as `MM:SS`: whole minutes and leftover seconds, each
    /// zero-padded to two places (the minutes may take more).
    pub fn mmss(&self) -> (r: String)
        ensures
            r@ == mmss_spec(*self),
    {
        let minutes = self.secs / 60;
        let seconds = self.secs % 60;
        let mut r = String::new();
        if minutes < 10 {
            r.append("0");
        }
        let minutes_str = u64_to_decimal(minutes);
        r.append(minutes_str.as_str());
        r.append(":");
        if seconds < 10 {
            r.append("0");
        }
        let seconds_str = u64_to_decimal(seconds);
        r.append(seconds_str.as_str());
        proof {
            assert(r@ =~= mmss_spec(*self));
        }
        r
    }
}

/// A number padded with a leading zero up to two places.
pub open spec fn two_digit_spec(n: nat) -> Seq<char> {
    if n < 10 {
        "0"@ + decimal_chars(n)
    } else {
        decimal_chars(n)
    }
}

/// Minutes and seconds of a duration, as displayed to the user.
pub open spec fn mmss_spec(d: AudioDuration) -> Seq<char> {
    two_digit_spec((d.secs / 60) as nat) + ":"@ + two_digit_spec((d.secs % 60) as nat)
}

} // verus!
