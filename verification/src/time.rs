//! Instants, as the whole seconds since the Unix epoch and the nanoseconds on top of them.
use chrono::{DateTime, SecondsFormat, Utc};
use vstd::prelude::*;

verus! {

/// An instant in UTC. `nanos` exceeds 999,999,999 within a leap second only.
#[derive(Clone, Copy, Debug, PartialEq, Eq, Structural)]
pub struct Timestamp {
    pub secs: i64,
    pub nanos: u32,
}

impl Timestamp {
    /// Whether the instant lies before the other.
    pub open spec fn earlier(self, other: Timestamp) -> bool {
        self.secs < other.secs || (self.secs == other.secs && self.nanos < other.nanos)
    }

    pub fn is_earlier(self, other: Timestamp) -> (result: bool)
        ensures
            result == self.earlier(other),
    {
        self.secs < other.secs || (self.secs == other.secs && self.nanos < other.nanos)
    }

    /// The instants from the start of the year -262143 to the end of the year 262142. The seconds
    /// that a leap second may follow have room for it.
    pub open spec fn covered(self) -> bool {
        &&& -8_334_601_228_800 <= self.secs <= 8_210_266_876_799
        &&& self.nanos < 1_000_000_000 || (self.nanos < 2_000_000_000 && self.secs % 60 == 59)
    }
}

/// The instant in the notation of RFC 3339, in whole seconds; `None` where it is not covered.
pub uninterp spec fn seconds_notation(secs: i64, nanos: u32) -> Option<Seq<char>>;

/// The instant in the notation of RFC 3339, with as many digits of a second as it needs.
pub uninterp spec fn full_notation(secs: i64, nanos: u32) -> Option<Seq<char>>;

/// The instant that a text is a notation of.
pub uninterp spec fn parsed_instant(text: Seq<char>) -> Option<Timestamp>;

/// `DateTime::to_rfc3339_opts` with `SecondsFormat::Secs`, on the value that
/// `DateTime::from_timestamp` makes of the seconds and nanoseconds: it makes one exactly of the
/// instants that are covered. What the notation looks like stays unsaid; it is named by the instant
/// alone.
#[verifier::external_body]
pub(crate) fn seconds_text(at: Timestamp) -> (text: Option<String>)
    ensures
        crate::text::optional(text) == seconds_notation(at.secs, at.nanos),
        text is Some <==> at.covered(),
{
    let at = DateTime::<Utc>::from_timestamp(at.secs, at.nanos)?;
    Some(at.to_rfc3339_opts(SecondsFormat::Secs, true))
}

/// `DateTime::to_rfc3339_opts` with `SecondsFormat::AutoSi`, on the value that
/// `DateTime::from_timestamp` makes of the seconds and nanoseconds: it makes one exactly of the
/// instants that are covered, and reading the notation of an instant gives the instant back.
#[verifier::external_body]
pub(crate) fn full_text(at: Timestamp) -> (text: Option<String>)
    ensures
        crate::text::optional(text) == full_notation(at.secs, at.nanos),
        text is Some <==> at.covered(),
        text matches Some(text) ==> parsed_instant(text@) == Some(at),
{
    let at = DateTime::<Utc>::from_timestamp(at.secs, at.nanos)?;
    Some(at.to_rfc3339_opts(SecondsFormat::AutoSi, true))
}

/// `str::parse` to `DateTime<Utc>` reads the notation of RFC 3339 with any offset, and turns it
/// into UTC. Which texts it reads stays unsaid; the result is named by the text alone.
#[verifier::external_body]
pub(crate) fn parse_instant(text: &str) -> (at: Option<Timestamp>)
    ensures
        at == parsed_instant(text@),
{
    let at = text.parse::<DateTime<Utc>>().ok()?;
    Some(Timestamp { secs: at.timestamp(), nanos: at.timestamp_subsec_nanos() })
}

} // verus!
