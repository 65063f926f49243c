//! Instants, the wall clock, and the textual form of an instant.

use vstd::prelude::*;

verus! {

/// A point in time: whole seconds since the Unix epoch and the nanoseconds
/// into that second. Within a leap second, which follows the last second of
/// a minute, the nanoseconds count on from 1 000 000 000.
#[derive(Clone, Copy, Debug, PartialEq, Eq, Structural)]
pub struct Instant {
    /// Seconds since 1970-01-01 00:00:00 UTC.
    pub secs: i64,
    /// Nanoseconds since the last whole second.
    pub nanos: u32,
}

/// `a` lies strictly before `b`.
pub open spec fn instant_lt(a: Instant, b: Instant) -> bool {
    a.secs < b.secs || (a.secs == b.secs && a.nanos < b.nanos)
}

/// The instant `ttl_secs` seconds after `now`, where the seconds fit.
pub open spec fn instant_plus(now: Instant, ttl_secs: i64) -> Option<Instant> {
    if i64::MIN <= now.secs + ttl_secs <= i64::MAX {
        Some(Instant { secs: (now.secs + ttl_secs) as i64, nanos: now.nanos })
    } else {
        None
    }
}

/// The text that stands for an instant in a token, as UTF-8 bytes, or `None`
/// where the calendar cannot represent the instant.
pub uninterp spec fn instant_text(secs: int, nanos: int) -> Option<Seq<u8>>;

/// The instant that a text stands for, as seconds and nanoseconds, or `None`
/// where the text is no date and time.
pub uninterp spec fn instant_of_text(text: Seq<u8>) -> Option<(int, int)>;

/// The instant behind a parsed pair of seconds and nanoseconds.
pub open spec fn instant_of_pair(pair: Option<(int, int)>) -> Option<Instant> {
    match pair {
        Some((secs, nanos)) => if i64::MIN <= secs <= i64::MAX && 0 <= nanos <= u32::MAX {
            Some(Instant { secs: secs as i64, nanos: nanos as u32 })
        } else {
            None
        },
        None => None,
    }
}

impl Instant {
    /// Whether `self` lies strictly before `other`.
    pub fn is_before(&self, other: &Instant) -> (before: bool)
        ensures
            before == instant_lt(*self, *other),
    {
        self.secs < other.secs || (self.secs == other.secs && self.nanos < other.nanos)
    }

    /// The instant `ttl_secs` seconds later, or `None` on overflow.
    pub fn plus_seconds(&self, ttl_secs: i64) -> (later: Option<Instant>)
        ensures
            later == instant_plus(*self, ttl_secs),
    {
        match self.secs.checked_add(ttl_secs) {
            Some(secs) => Some(Instant { secs, nanos: self.nanos }),
            None => None,
        }
    }
}

/// Trusted: `chrono::Utc::now`, read as `timestamp()` and
/// `timestamp_subsec_nanos()`. The result depends on the machine's clock, so
/// nothing is claimed of it. It panics only where the machine's clock is set
/// before 1970.
#[verifier::external_body]
pub(crate) fn clock_now() -> (now: Instant) {
    let now = chrono::Utc::now();
    Instant { secs: now.timestamp(), nanos: now.timestamp_subsec_nanos() }
}

/// Trusted: `chrono::DateTime::from_timestamp` followed by the `Display` of
/// `DateTime<Utc>`. Claims that the outcome is a function of the two numbers
/// alone, and that `DateTime<Utc>`'s `FromStr` reads the text back as the
/// same seconds and nanoseconds.
#[verifier::external_body]
pub(crate) fn format_instant(at: Instant) -> (text: Option<Vec<u8>>)
    ensures
        text.is_some() == instant_text(at.secs as int, at.nanos as int).is_some(),
        text matches Some(t) ==> instant_text(at.secs as int, at.nanos as int) == Some(t@)
            && instant_of_text(t@) == Some((at.secs as int, at.nanos as int)),
{
    chrono::DateTime::from_timestamp(at.secs, at.nanos).map(|at| at.to_string().into_bytes())
}

/// Trusted: `str::from_utf8` followed by `DateTime<Utc>`'s `FromStr`, read as
/// `timestamp()` and `timestamp_subsec_nanos()`. Claims only that the outcome
/// is a function of the bytes alone.
#[verifier::external_body]
pub(crate) fn parse_instant(text: &[u8]) -> (at: Option<Instant>)
    ensures
        at == instant_of_pair(instant_of_text(text@)),
{
    let text = std::str::from_utf8(text).ok()?;
    let at = text.parse::<chrono::DateTime<chrono::Utc>>().ok()?;
    Some(Instant { secs: at.timestamp(), nanos: at.timestamp_subsec_nanos() })
}

} // verus!
