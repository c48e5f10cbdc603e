//! Points in time as plain numbers, and the two things only the calendar
//! library can do with them: read the clock and print a timestamp.

use vstd::prelude::*;

verus! {

/// A point in time: whole seconds since 1970-01-01T00:00:00 UTC, and the
/// nanoseconds since that second began.
#[derive(Clone, Copy, Debug, PartialEq, Eq, Structural)]
pub struct Instant {
    pub secs: i64,
    pub nanos: u32,
}

/// The text that `chrono` prints for the UTC time `secs` seconds and `nanos`
/// nanoseconds after the epoch, in RFC 3339 form; `None` where `chrono` has
/// no such time.
pub uninterp spec fn rfc3339_text(secs: i64, nanos: u32) -> Option<Seq<char>>;

/// Beyond this many seconds before or after the epoch the calendar library
/// holds no time: 2 to the power of 48.
pub const CALENDAR_LIMIT_SECS: i64 = 0x1_0000_0000_0000;

/// Reads the system clock with `chrono::Utc::now` and takes the result apart
/// with `DateTime::timestamp` and `DateTime::timestamp_subsec_nanos`.
/// Where the clock stands is not claimed, nor that it runs forwards; what
/// is claimed is the range of the seconds. `DateTime::timestamp` computes
/// them as `(d - 719163) * 86400 + s` from a day number `d` of type `i32`
/// and a second of the day `s` of type `u32`, so they lie strictly between
/// minus and plus 2 to the power of 48 for every time that the library can
/// hold. `chrono` itself stops the program if the system clock is set
/// before 1970.
#[verifier::external_body]
fn read_utc_clock() -> (t: Instant)
    ensures
        t.within_calendar(),
{
    let t = chrono::Utc::now();
    Instant { secs: t.timestamp(), nanos: t.timestamp_subsec_nanos() }
}

/// Builds the UTC time with `chrono::DateTime::from_timestamp`, which gives
/// `None` for seconds or nanoseconds out of its range, and prints it with
/// `DateTime::to_rfc3339`. The contract only names the text: it is the same
/// for the same two numbers.
#[verifier::external_body]
fn print_rfc3339(secs: i64, nanos: u32) -> (r: Option<String>)
    ensures
        match r {
            Some(s) => rfc3339_text(secs, nanos) == Some(s@),
            None => rfc3339_text(secs, nanos) is None,
        },
{
    match chrono::DateTime::from_timestamp(secs, nanos) {
        Some(t) => Some(t.to_rfc3339()),
        None => None,
    }
}

impl Instant {
    /// Whether `self` is strictly earlier than `other`.
    pub open spec fn before(self, other: Instant) -> bool {
        self.secs < other.secs || (self.secs == other.secs && self.nanos < other.nanos)
    }

    /// Whether `self` is `other` or later.
    pub open spec fn at_or_after(self, other: Instant) -> bool {
        !self.before(other)
    }

    /// `self` moved `seconds` whole seconds into the future.
    pub open spec fn plus(self, seconds: u32) -> Instant {
        Instant { secs: (self.secs + seconds) as i64, nanos: self.nanos }
    }

    /// Whether `self.plus(seconds)` can be represented.
    pub open spec fn can_add(self, seconds: u32) -> bool {
        self.secs + seconds <= i64::MAX
    }

    /// Whether the seconds of `self` lie in the range of the times that the
    /// calendar library can hold. Every reading of the clock does, and any
    /// number of seconds up to `u32::MAX` can be added to such an instant.
    pub open spec fn within_calendar(self) -> bool {
        -CALENDAR_LIMIT_SECS < self.secs < CALENDAR_LIMIT_SECS
    }

    /// The instant `secs` whole seconds after the epoch.
    pub fn from_secs(secs: i64) -> (t: Instant)
        ensures
            t == (Instant { secs, nanos: 0 }),
    {
        Instant { secs, nanos: 0 }
    }

    /// The current time by the system clock: an instant in the range of
    /// the calendar, to which any time to live can be added.
    pub fn now() -> (t: Instant)
        ensures
            t.within_calendar(),
            forall|seconds: u32| t.can_add(seconds),
    {
        read_utc_clock()
    }

    /// Decides [`Instant::before`].
    pub fn is_before(&self, other: &Instant) -> (r: bool)
        ensures
            r == self.before(*other),
    {
        self.secs < other.secs || (self.secs == other.secs && self.nanos < other.nanos)
    }

    /// Computes [`Instant::plus`], or `None` where the sum cannot be
    /// represented.
    pub fn checked_plus_seconds(&self, seconds: u32) -> (r: Option<Instant>)
        ensures
            r == if self.can_add(seconds) {
                Some(self.plus(seconds))
            } else {
                None::<Instant>
            },
    {
        let limit: i64 = i64::MAX - (seconds as i64);
        if self.secs <= limit {
            Some(Instant { secs: self.secs + (seconds as i64), nanos: self.nanos })
        } else {
            None
        }
    }

    /// Computes [`Instant::plus`].
    pub fn plus_seconds(&self, seconds: u32) -> (r: Instant)
        requires
            self.can_add(seconds),
        ensures
            r == self.plus(seconds),
    {
        Instant { secs: self.secs + (seconds as i64), nanos: self.nanos }
    }

    /// The instant as an RFC 3339 timestamp in UTC, such as
    /// `1970-01-01T00:00:00+00:00`; `None` where the calendar has no such
    /// time.
    pub fn to_rfc3339(&self) -> (r: Option<String>)
        ensures
            match r {
                Some(s) => rfc3339_text(self.secs, self.nanos) == Some(s@),
                None => rfc3339_text(self.secs, self.nanos) is None,
            },
    {
        print_rfc3339(self.secs, self.nanos)
    }
}

} // verus!
