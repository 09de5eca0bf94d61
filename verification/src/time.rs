//! Points in time, to the nanosecond, in UTC. Reading and writing them is
//! `chrono`'s work.

use vstd::prelude::*;

verus! {

/// The seconds since the start of 1970 and the nanoseconds past them that the
/// timestamp `text` denotes, if it is one. During a leap second the
/// nanoseconds reach or pass 1,000,000,000.
pub uninterp spec fn time_parse(text: Seq<char>) -> Option<(i64, u32)>;

/// The timestamp for `seconds` and `nanos` as date and time in UTC, with
/// three decimals for the seconds and `Z` for the offset; nothing where the
/// two are out of range.
pub uninterp spec fn time_text(seconds: i64, nanos: u32) -> Option<Seq<char>>;

/// `str::parse` at the type `DateTime<Utc>`, then `DateTime::timestamp` and
/// `DateTime::timestamp_subsec_nanos`. What comes back is in range for
/// `DateTime::from_timestamp`.
#[verifier::external_body]
fn read_time(text: &str) -> (r: Option<(i64, u32)>)
    ensures
        r == time_parse(text@),
        r matches Some((seconds, nanos)) ==> time_text(seconds, nanos) is Some,
{
    text.parse::<chrono::DateTime<chrono::Utc>>().ok().map(
        |t| (t.timestamp(), t.timestamp_subsec_nanos()),
    )
}

/// `DateTime::from_timestamp`, then `DateTime::to_rfc3339_opts` with
/// milliseconds and `Z`.
#[verifier::external_body]
fn write_time(seconds: i64, nanos: u32) -> (r: Option<String>)
    ensures
        match r {
            Some(text) => time_text(seconds, nanos) == Some(text@),
            None => time_text(seconds, nanos) is None,
        },
{
    chrono::DateTime::from_timestamp(seconds, nanos).map(
        |t| t.to_rfc3339_opts(chrono::SecondsFormat::Millis, true),
    )
}

/// A point in time that can be written as a timestamp.
#[derive(Clone, Copy, Debug)]
pub struct Timestamp {
    seconds: i64,
    nanos: u32,
}

impl Timestamp {
    #[verifier::type_invariant]
    spec fn writable(self) -> bool {
        time_text(self.seconds, self.nanos) is Some
    }

    /// Whole seconds since the start of 1970.
    pub closed spec fn seconds(self) -> i64 {
        self.seconds
    }

    /// Nanoseconds past the whole second.
    pub closed spec fn nanos(self) -> u32 {
        self.nanos
    }

    /// This point in time as a timestamp.
    pub open spec fn text(self) -> Seq<char> {
        time_text(self.seconds(), self.nanos())->0
    }

    /// Reads a timestamp.
    pub fn parse(text: &str) -> (r: Option<Timestamp>)
        ensures
            match time_parse(text@) {
                Some((seconds, nanos)) => r matches Some(t) && t.seconds() == seconds && t.nanos()
                    == nanos,
                None => r is None,
            },
    {
        match read_time(text) {
            Some((seconds, nanos)) => Some(Timestamp { seconds, nanos }),
            None => None,
        }
    }

    /// Writes this point in time as a timestamp.
    pub fn to_text(&self) -> (r: String)
        ensures
            r@ == self.text(),
    {
        proof {
            use_type_invariant(self);
        }
        match write_time(self.seconds, self.nanos) {
            Some(text) => text,
            None => String::new(),
        }
    }
}

} // verus!
