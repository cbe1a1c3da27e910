use crate::errors::HandlingError;
use vstd::prelude::*;

verus! {

/// What this crate's RFC 3339 reader yields for a given string: `None` when
/// the string is not a valid RFC 3339 date-time, or when the instant it
/// denotes falls outside years 0000-9999 UTC (such an instant has no RFC
/// 3339 rendering to come back from); otherwise the instant, as whole
/// seconds and subsecond nanoseconds since the Unix epoch, in UTC.  The
/// result depends on the characters alone.
pub uninterp spec fn rfc3339_parse(s: Seq<char>) -> Option<(i64, u32)>;

/// The RFC 3339 rendering that chrono produces for an instant given as whole
/// seconds and subsecond nanoseconds since the Unix epoch.  The result
/// depends on the two integers alone.
pub uninterp spec fn rfc3339_format(secs: i64, nanos: u32) -> Seq<char>;

/// Whether chrono can represent the instant `(secs, nanos)` and its UTC year
/// lies within 0000-9999: exactly such instants render to RFC 3339 text that
/// parses back to them.
pub uninterp spec fn rfc3339_in_range(secs: i64, nanos: u32) -> bool;

/// One instant in time, as chrono hands it out: whole seconds since the Unix
/// epoch plus subsecond nanoseconds, always in UTC.  Two time points compare
/// by `(secs, nanos)`, which is chronological order.
#[derive(Clone, Copy, PartialEq, Eq, Structural, Debug)]
pub struct TimePoint {
    pub secs: i64,
    pub nanos: u32,
}

impl TimePoint {
    /// The instant lies within the range chrono can format and parse back.
    pub open spec fn wf(self) -> bool {
        rfc3339_in_range(self.secs, self.nanos)
    }

    /// Strictly earlier in chronological order.
    pub open spec fn spec_lt(self, other: TimePoint) -> bool {
        self.secs < other.secs || (self.secs == other.secs && self.nanos < other.nanos)
    }

    /// Earlier or equal in chronological order.
    pub open spec fn spec_le(self, other: TimePoint) -> bool {
        self.spec_lt(other) || self == other
    }

    pub fn lt(&self, other: &TimePoint) -> (r: bool)
        ensures
            r == self.spec_lt(*other),
    {
        self.secs < other.secs || (self.secs == other.secs && self.nanos < other.nanos)
    }

    pub fn le(&self, other: &TimePoint) -> (r: bool)
        ensures
            r == self.spec_le(*other),
    {
        self.secs < other.secs || (self.secs == other.secs && self.nanos <= other.nanos)
    }
}

/// Relies on chrono's `DateTime::parse_from_rfc3339`: whether the text
/// parses, and the instant it denotes — read off with `timestamp` and
/// `timestamp_subsec_nanos` after conversion to UTC — depend on the
/// characters alone.  An accepted instant's UTC year is checked to lie in
/// 0000-9999: an offset can push a parsed year 0000 or 9999 date outside
/// that range, and chrono renders such an instant with a signed year, which
/// its RFC 3339 parser would not read back.  Within the range, rendering
/// and re-parsing return the same instant, leap seconds included.
#[verifier::external_body]
fn parse_rfc3339_utc(s: &str) -> (r: Option<TimePoint>)
    ensures
        match r {
            Some(t) => rfc3339_parse(s@) == Some((t.secs, t.nanos)) && rfc3339_in_range(
                t.secs,
                t.nanos,
            ),
            None => rfc3339_parse(s@) is None,
        },
{
    match chrono::DateTime::parse_from_rfc3339(s) {
        Ok(d) => {
            let u: chrono::DateTime<chrono::Utc> = d.into();
            let year = chrono::Datelike::year(&u);
            if 0 <= year && year <= 9999 {
                Some(TimePoint { secs: u.timestamp(), nanos: u.timestamp_subsec_nanos() })
            } else {
                None
            }
        },
        Err(_) => None,
    }
}

/// Relies on chrono's `DateTime::from_timestamp` and `to_rfc3339`: the text
/// depends on the two integers alone, and for an instant in range — chrono
/// can represent it and its UTC year is within 0000-9999, so the year is
/// written unsigned — reading the produced text yields the same instant
/// back.
#[verifier::external_body]
fn format_rfc3339_utc(t: &TimePoint) -> (r: String)
    ensures
        r@ == rfc3339_format(t.secs, t.nanos),
        rfc3339_in_range(t.secs, t.nanos) ==> rfc3339_parse(r@) == Some((t.secs, t.nanos)),
{
    match chrono::DateTime::<chrono::Utc>::from_timestamp(t.secs, t.nanos) {
        Some(d) => d.to_rfc3339(),
        None => String::new(),
    }
}

/// Parses an RFC 3339 date-time; a string that does not parse is rejected
/// with a date-parse failure.
pub fn time_point_from_str(string: &str) -> (r: Result<TimePoint, HandlingError>)
    ensures
        match r {
            Ok(t) => rfc3339_parse(string@) == Some((t.secs, t.nanos)) && t.wf(),
            Err(e) => rfc3339_parse(string@) is None && e.code == 430 && e.message@
                == "Could not parse date."@,
        },
{
    match parse_rfc3339_utc(string) {
        Some(t) => Ok(t),
        None => Err(HandlingError { message: "Could not parse date.".to_owned(), code: 430 }),
    }
}

/// Renders a time point as RFC 3339 text.
pub fn time_point_to_string(time_point: &TimePoint) -> (r: String)
    ensures
        r@ == rfc3339_format(time_point.secs, time_point.nanos),
        time_point.wf() ==> rfc3339_parse(r@) == Some((time_point.secs, time_point.nanos)),
{
    format_rfc3339_utc(time_point)
}

} // verus!
