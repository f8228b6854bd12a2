//! Instants in UTC, as plain seconds and nanoseconds since the Unix epoch,
//! together with the trusted chrono calls that read the clock, format an
//! instant as RFC 3339 text, parse such text back, and format an instant to
//! minute granularity for the status page.

use vstd::prelude::*;

verus! {

/// The RFC 3339 text that chrono's formatter produces for an instant with the
/// given whole seconds and subsecond nanoseconds.
pub uninterp spec fn rfc3339_of(secs: int, nanos: int) -> Seq<char>;

/// The instant that chrono's RFC 3339 parser reads from the given text, as
/// whole seconds and subsecond nanoseconds in UTC, or `None` where the text is
/// not a valid RFC 3339 date-and-time.
pub uninterp spec fn parse_ts(s: Seq<char>) -> Option<(int, int)>;

/// The `YYYY-MM-DD HH:MM` text that chrono's formatter produces, in UTC, for
/// an instant with the given whole seconds.
pub uninterp spec fn minute_display(secs: int) -> Seq<char>;

/// A UTC instant: whole seconds since the Unix epoch and subsecond
/// nanoseconds. Nanoseconds stay below two billion; chrono uses the second
/// billion to represent a leap second.
#[derive(Clone, Copy, PartialEq, Eq, Structural)]
pub struct Timestamp {
    pub secs: i64,
    pub nanos: u32,
}

impl Timestamp {
    /// Strict instant order: earlier means fewer seconds, or equal seconds and
    /// fewer nanoseconds.
    pub fn lt(&self, other: &Timestamp) -> (r: bool)
        ensures
            r == instant_lt(self.secs as int, self.nanos as int, other.secs as int,
                other.nanos as int),
    {
        self.secs < other.secs || (self.secs == other.secs && self.nanos < other.nanos)
    }
}

pub open spec fn instant_lt(s1: int, n1: int, s2: int, n2: int) -> bool {
    s1 < s2 || (s1 == s2 && n1 < n2)
}

/// Instants whose civil year in UTC lies in 0000..=9999, widened by one day
/// for the widest RFC 3339 offsets (±23:59): every instant that a stored
/// row's text can parse to lies here, and every instant here is far inside
/// the range chrono can represent and format.
pub open spec fn displayable(secs: int) -> bool {
    -62167305540 <= secs <= 253402387139
}

/// Relies on `std::time::SystemTime::now` and
/// `SystemTime::duration_since(UNIX_EPOCH)`: the current instant as plain
/// values. A clock set before the Unix epoch is reported as the epoch;
/// `Duration::subsec_nanos` stays below one billion.
#[verifier::external_body]
pub(crate) fn now_parts() -> (r: (i64, u32))
    ensures
        r.0 >= 0,
        r.1 < 1_000_000_000,
{
    match std::time::SystemTime::now().duration_since(std::time::UNIX_EPOCH) {
        Ok(d) => {
            let secs = if d.as_secs() > i64::MAX as u64 {
                i64::MAX
            } else {
                d.as_secs() as i64
            };
            (secs, d.subsec_nanos())
        },
        Err(_) => (0, 0),
    }
}

/// Relies on `chrono::DateTime::from_timestamp` and `DateTime::to_rfc3339`:
/// for an instant within the admitted range the result is the RFC 3339 text
/// of that instant, and `DateTime::parse_from_rfc3339` reads that text back
/// to the same seconds and nanoseconds — `from_timestamp` documents the
/// round trip with `timestamp` and `timestamp_subsec_nanos`, and the parser
/// accepts every RFC 3339 value with a four-digit year, which the admitted
/// range (civil years 0000..=9999 in UTC) guarantees the formatter writes.
#[verifier::external_body]
pub(crate) fn format_rfc3339(secs: i64, nanos: u32) -> (r: Option<String>)
    requires
        -62167219200 <= secs <= 253402300799,
        nanos < 1_000_000_000,
    ensures
        r matches Some(s) ==> s@ == rfc3339_of(secs as int, nanos as int) && parse_ts(s@)
            == Some((secs as int, nanos as int)),
{
    chrono::DateTime::<chrono::Utc>::from_timestamp(secs, nanos).map(|d| d.to_rfc3339())
}

/// Relies on `chrono::DateTime::parse_from_rfc3339`, `DateTime::timestamp`
/// and `DateTime::timestamp_subsec_nanos`: whether the text parses, and to
/// which UTC instant, depends on the text alone; parsed subsecond
/// nanoseconds stay below two billion (the second billion stands for a leap
/// second). The parser demands a four-digit year and an offset within
/// ±23:59, so every parsed instant is `displayable`.
#[verifier::external_body]
pub(crate) fn parse_rfc3339(s: &str) -> (r: Option<(i64, u32)>)
    ensures
        r matches Some(p) ==> parse_ts(s@) == Some((p.0 as int, p.1 as int)) && p.1
            < 2_000_000_000 && displayable(p.0 as int),
        r is None ==> parse_ts(s@) is None,
{
    match chrono::DateTime::parse_from_rfc3339(s) {
        Ok(d) => Some((d.timestamp(), d.timestamp_subsec_nanos())),
        Err(_) => None,
    }
}

/// Relies on `chrono::DateTime::from_timestamp` and the `%Y-%m-%d %H:%M`
/// formatter: the minute-granularity text of an instant, in UTC, depends on
/// its whole seconds alone. Every `displayable` instant formats: it lies far
/// inside the dates `from_timestamp` accepts, and writing numeric items to a
/// `String` cannot fail.
#[verifier::external_body]
pub(crate) fn format_minute(secs: i64) -> (r: Option<String>)
    ensures
        r matches Some(s) ==> s@ == minute_display(secs as int),
        displayable(secs as int) ==> r is Some,
{
    chrono::DateTime::<chrono::Utc>::from_timestamp(secs, 0).map(
        |d| d.format("%Y-%m-%d %H:%M").to_string(),
    )
}

} // verus!
