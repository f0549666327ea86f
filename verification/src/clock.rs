//! Points in time, as seconds and nanoseconds since the Unix epoch, with the
//! calendar left to `chrono`.

use vstd::prelude::*;

verus! {

/// The text that `chrono` prints for the date and time, without a zone, that
/// lies `secs` seconds and `nanos` nanoseconds after the Unix epoch: the year,
/// month and day joined by hyphens, a space, then hours, minutes and seconds
/// joined by colons, and a fraction where the nanoseconds are not zero. It is
/// `None` where `chrono` has no date for the pair.
pub uninterp spec fn naive_text(secs: i64, nanos: u32) -> Option<Seq<char>>;

/// The text that `chrono` prints for the same point in time as a date and
/// time in UTC: the date and time as above, followed by the zone.
pub uninterp spec fn utc_text(secs: i64, nanos: u32) -> Option<Seq<char>>;

/// Builds the date with `chrono::DateTime::from_timestamp`, takes its
/// `naive_utc()` and prints that with `to_string()`. The text depends on the
/// two numbers alone, and there is none exactly where `from_timestamp`
/// returns `None`.
#[verifier::external_body]
fn print_naive(secs: i64, nanos: u32) -> (text: Option<String>)
    ensures
        match text {
            Some(t) => naive_text(secs, nanos) == Some(t@),
            None => naive_text(secs, nanos) is None,
        },
{
    match chrono::DateTime::from_timestamp(secs, nanos) {
        Some(t) => Some(t.naive_utc().to_string()),
        None => None,
    }
}

/// Builds the date with `chrono::DateTime::from_timestamp` and prints it with
/// `to_string()`. The text depends on the two numbers alone, and there is
/// none exactly where `from_timestamp` returns `None`, which is where
/// `print_naive` has none either.
#[verifier::external_body]
fn print_utc(secs: i64, nanos: u32) -> (text: Option<String>)
    ensures
        match text {
            Some(t) => utc_text(secs, nanos) == Some(t@) && naive_text(secs, nanos) is Some,
            None => utc_text(secs, nanos) is None && naive_text(secs, nanos) is None,
        },
{
    match chrono::DateTime::from_timestamp(secs, nanos) {
        Some(t) => Some(t.to_string()),
        None => None,
    }
}

/// Reads the clock with `chrono::Utc::now()` and returns its `timestamp()`
/// and `timestamp_subsec_nanos()`. Nothing is promised of the moment; the
/// pair is one that `from_timestamp` takes back, as `chrono` documents.
/// `chrono` panics where the system clock stands before the Unix epoch.
#[verifier::external_body]
fn read_clock() -> (now: (i64, u32))
    ensures
        naive_text(now.0, now.1) is Some,
{
    let t = chrono::Utc::now();
    (t.timestamp(), t.timestamp_subsec_nanos())
}

/// A point in time that `chrono` can represent.
#[derive(Clone, Copy, Debug, PartialEq, Eq)]
pub struct Timestamp {
    secs: i64,
    nanos: u32,
}

impl Timestamp {
    #[verifier::type_invariant]
    spec fn representable(self) -> bool {
        naive_text(self.secs, self.nanos) is Some
    }

    /// Whole seconds since the Unix epoch.
    pub closed spec fn spec_seconds(&self) -> i64 {
        self.secs
    }

    /// Nanoseconds since the last whole second.
    pub closed spec fn spec_subsec_nanos(&self) -> u32 {
        self.nanos
    }

    /// The point in time `secs` seconds and `nanos` nanoseconds after the
    /// Unix epoch, where `chrono` has a date for it.
    pub fn from_unix(secs: i64, nanos: u32) -> (at: Option<Timestamp>)
        ensures
            at is Some <==> naive_text(secs, nanos) is Some,
            at matches Some(t) ==> t.spec_seconds() == secs && t.spec_subsec_nanos() == nanos,
    {
        match print_naive(secs, nanos) {
            Some(_) => Some(Timestamp { secs, nanos }),
            None => None,
        }
    }

    /// The present moment. Which moment that is depends on the clock; it is
    /// always one that `chrono` has a date for, so that `from_unix` takes
    /// its two parts back.
    pub fn now() -> (at: Timestamp)
        ensures
            naive_text(at.spec_seconds(), at.spec_subsec_nanos()) is Some,
    {
        let (secs, nanos) = read_clock();
        Timestamp { secs, nanos }
    }

    /// Whole seconds since the Unix epoch.
    #[verifier::when_used_as_spec(spec_seconds)]
    pub fn seconds(&self) -> (secs: i64)
        ensures
            secs == self.spec_seconds(),
    {
        self.secs
    }

    /// Nanoseconds since the last whole second.
    #[verifier::when_used_as_spec(spec_subsec_nanos)]
    pub fn subsec_nanos(&self) -> (nanos: u32)
        ensures
            nanos == self.spec_subsec_nanos(),
    {
        self.nanos
    }

    /// The date and time as text, without a zone.
    pub fn to_text(&self) -> (text: String)
        ensures
            naive_text(self.spec_seconds(), self.spec_subsec_nanos()) == Some(text@),
    {
        proof {
            use_type_invariant(self);
        }
        print_naive(self.secs, self.nanos).unwrap()
    }

    /// The date and time as text, with the zone UTC.
    pub fn to_utc_text(&self) -> (text: String)
        ensures
            utc_text(self.spec_seconds(), self.spec_subsec_nanos()) == Some(text@),
    {
        proof {
            use_type_invariant(self);
        }
        print_utc(self.secs, self.nanos).unwrap()
    }
}

} // verus!
