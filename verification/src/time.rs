//! Points in time, as the store orders them.

use vstd::prelude::*;

verus! {

/// The earliest second, counted from 1970-01-01T00:00:00Z, that a timestamp
/// can hold: the first second of the year -262143.
pub const MIN_SECS: i64 = -8_334_601_228_800;

/// The latest second that a timestamp can hold: the last second of the year
/// 262142.
pub const MAX_SECS: i64 = 8_210_266_876_799;

/// A UTC point in time with nanosecond precision.
///
/// It holds the whole seconds since 1970-01-01T00:00:00Z and the nanoseconds
/// since the last whole second. During a leap second the nanoseconds run from
/// 1,000,000,000 up to 1,999,999,999 while the seconds stay at the 59th second
/// of the minute.
#[derive(Clone, Copy, Debug, PartialEq, Eq, Structural)]
pub struct Timestamp {
    secs: i64,
    nanos: u32,
}

impl Timestamp {
    /// The whole seconds since 1970-01-01T00:00:00Z.
    pub closed spec fn spec_secs(self) -> int {
        self.secs as int
    }

    /// The nanoseconds since the last whole second.
    pub closed spec fn spec_nanos(self) -> int {
        self.nanos as int
    }

    /// Whether a pair of seconds and nanoseconds denotes a point in time.
    pub open spec fn representable(secs: int, nanos: int) -> bool {
        &&& MIN_SECS <= secs <= MAX_SECS
        &&& 0 <= nanos < 2_000_000_000
        &&& nanos >= 1_000_000_000 ==> secs % 60 == 59
    }

    /// The number by which timestamps are ordered: by seconds first, then by
    /// nanoseconds. An earlier point in time has the smaller number.
    pub open spec fn instant(self) -> int {
        self.spec_secs() * 2_000_000_000 + self.spec_nanos()
    }

    #[verifier::type_invariant]
    spec fn well_formed(self) -> bool {
        Self::representable(self.secs as int, self.nanos as int)
    }

    /// Makes a timestamp from seconds and nanoseconds, if they denote a point
    /// in time.
    pub fn new(secs: i64, nanos: u32) -> (res: Option<Timestamp>)
        ensures
            match res {
                Some(t) => Self::representable(secs as int, nanos as int) && t.spec_secs() == secs
                    && t.spec_nanos() == nanos,
                None => !Self::representable(secs as int, nanos as int),
            },
    {
        if secs < MIN_SECS || secs > MAX_SECS || nanos >= 2_000_000_000 {
            return None;
        }
        if nanos >= 1_000_000_000 && !Self::ends_minute(secs) {
            return None;
        }
        Some(Timestamp { secs, nanos })
    }

    /// `SystemTime::elapsed` on `std::time::UNIX_EPOCH`, which reads the system
    /// clock: the whole seconds that have passed since 1970-01-01T00:00:00Z,
    /// and the nanoseconds since the last of them. `None` where the clock
    /// stands before 1970. Nothing else is known of a reading, and two
    /// readings need not agree or follow each other.
    #[verifier::external_body]
    fn since_epoch() -> (elapsed: Option<(u64, u32)>) {
        std::time::UNIX_EPOCH.elapsed().ok().map(|elapsed| (elapsed.as_secs(), elapsed.subsec_nanos()))
    }

    /// The time that the system clock shows, if it shows a point in time
    /// from 1970 on that a timestamp can hold.
    pub(crate) fn now() -> (now: Option<Timestamp>)
        ensures
            now matches Some(at) ==> at.spec_secs() >= 0,
    {
        match Self::since_epoch() {
            Some((secs, nanos)) => {
                if secs <= MAX_SECS as u64 {
                    Timestamp::new(secs as i64, nanos)
                } else {
                    None
                }
            },
            None => None,
        }
    }

    /// Whether `secs` is the 59th second of its minute.
    fn ends_minute(secs: i64) -> (ends: bool)
        requires
            MIN_SECS <= secs <= MAX_SECS,
        ensures
            ends == (secs % 60 == 59),
    {
        // MIN_SECS is a multiple of 60, so the shifted count is not negative.
        let shifted: i64 = secs - MIN_SECS;
        shifted % 60 == 59
    }

    /// The whole seconds since 1970-01-01T00:00:00Z.
    pub fn secs(&self) -> (secs: i64)
        ensures
            secs == self.spec_secs(),
    {
        self.secs
    }

    /// The nanoseconds since the last whole second.
    pub fn nanos(&self) -> (nanos: u32)
        ensures
            nanos == self.spec_nanos(),
    {
        self.nanos
    }

    /// Whether this point in time lies strictly before `other`.
    pub fn is_before(&self, other: &Timestamp) -> (before: bool)
        ensures
            before == (self.instant() < other.instant()),
    {
        proof {
            use_type_invariant(self);
            use_type_invariant(other);
        }
        self.secs < other.secs || (self.secs == other.secs && self.nanos < other.nanos)
    }
}

} // verus!
