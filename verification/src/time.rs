//! Instants and spans of time, in whole nanoseconds on the UTC time line.

use vstd::prelude::*;

verus! {

/// Nanoseconds in one second.
pub const NANOS_PER_SECOND: i64 = 1_000_000_000;

/// Nanoseconds in one day of 86 400 seconds.
pub const NANOS_PER_DAY: i64 = 86_400_000_000_000;

/// Whether a number of nanoseconds since the Unix epoch can be held by an
/// [`Instant`].
pub open spec fn representable(unix_nanos: int) -> bool {
    i64::MIN <= unix_nanos <= i64::MAX
}

/// A point on the UTC time line: nanoseconds since 1970-01-01T00:00:00Z,
/// leap seconds not counted. The range is that of `i64`, about the years
/// 1677 to 2262.
#[derive(Clone, Copy, Debug, PartialEq, Eq, Structural)]
pub struct Instant {
    pub unix_nanos: i64,
}

impl View for Instant {
    type V = int;

    open spec fn view(&self) -> int {
        self.unix_nanos as int
    }
}

/// A signed length of time in nanoseconds. Every difference of two instants
/// fits.
#[derive(Clone, Copy, Debug, PartialEq, Eq, Structural)]
pub struct Span {
    pub nanos: i128,
}

impl View for Span {
    type V = int;

    open spec fn view(&self) -> int {
        self.nanos as int
    }
}

/// The RFC 3339 text of the instant that lies `unix_nanos` nanoseconds after
/// the Unix epoch, in UTC and with the offset written as `+00:00`, as chrono
/// formats it. The text is a function of the instant alone: no clock, locale
/// or time zone of the machine enters.
pub uninterp spec fn rfc3339_text(unix_nanos: int) -> Seq<char>;

/// Formats an instant with chrono.
///
/// Not proved: the result is what `chrono::DateTime::<Utc>::to_rfc3339`
/// returns for the value that `chrono::DateTime::from_timestamp_nanos` makes
/// of `unix_nanos`. Every `i64` is accepted by the latter, and the former
/// does not fail. The contract gives that text its name and claims nothing
/// of its characters.
#[verifier::external_body]
fn chrono_rfc3339(unix_nanos: i64) -> (text: String)
    ensures
        text@ == rfc3339_text(unix_nanos as int),
{
    chrono::DateTime::<chrono::Utc>::from_timestamp_nanos(unix_nanos).to_rfc3339()
}

/// Reads the system clock with chrono.
///
/// Not proved, and nothing is claimed: the result is what
/// `chrono::Utc::now` returns, as `chrono::DateTime::timestamp_nanos_opt`
/// counts it in nanoseconds since the Unix epoch, `None` where that count
/// does not fit `i64`. chrono aborts the call where the system clock stands
/// before 1970.
#[verifier::external_body]
pub(crate) fn chrono_now_unix_nanos() -> (unix_nanos: Option<i64>) {
    chrono::Utc::now().timestamp_nanos_opt()
}

impl Span {
    /// The span of `nanos` nanoseconds.
    pub fn from_nanos(nanos: i128) -> (span: Span)
        ensures
            span@ == nanos,
    {
        Span { nanos }
    }

    /// The span of `seconds` seconds.
    pub fn from_seconds(seconds: i64) -> (span: Span)
        ensures
            span@ == seconds * NANOS_PER_SECOND,
    {
        Span { nanos: (seconds as i128) * 1_000_000_000 }
    }

    /// The span of `days` days of 86 400 seconds.
    pub fn from_days(days: i64) -> (span: Span)
        ensures
            span@ == days * NANOS_PER_DAY,
    {
        Span { nanos: (days as i128) * 86_400_000_000_000 }
    }

    /// The length in nanoseconds.
    pub fn nanos(&self) -> (nanos: i128)
        ensures
            nanos == self@,
    {
        self.nanos
    }
}

impl Instant {
    /// The instant `unix_nanos` nanoseconds after the Unix epoch.
    pub fn from_unix_nanos(unix_nanos: i64) -> (instant: Instant)
        ensures
            instant@ == unix_nanos,
    {
        Instant { unix_nanos }
    }

    /// The instant `seconds` whole seconds after the Unix epoch, or `None`
    /// where it lies outside the range of [`Instant`].
    pub fn from_unix_seconds(seconds: i64) -> (instant: Option<Instant>)
        ensures
            instant is Some <==> representable(seconds * NANOS_PER_SECOND),
            instant matches Some(t) ==> t@ == seconds * NANOS_PER_SECOND,
    {
        match seconds.checked_mul(NANOS_PER_SECOND) {
            Some(unix_nanos) => Some(Instant { unix_nanos }),
            None => None,
        }
    }

    /// Nanoseconds since the Unix epoch.
    pub fn unix_nanos(&self) -> (unix_nanos: i64)
        ensures
            unix_nanos == self@,
    {
        self.unix_nanos
    }

    /// The span from `self` to `later`: negative where `later` comes first.
    pub fn span_until(&self, later: Instant) -> (span: Span)
        ensures
            span@ == later@ - self@,
    {
        Span { nanos: (later.unix_nanos as i128) - (self.unix_nanos as i128) }
    }

    /// The instant `span` before `self`, or `None` where it lies outside the
    /// range of [`Instant`].
    pub fn checked_sub(&self, span: Span) -> (difference: Option<Instant>)
        ensures
            difference is Some <==> representable(self@ - span@),
            difference matches Some(t) ==> t@ == self@ - span@,
    {
        match (self.unix_nanos as i128).checked_sub(span.nanos) {
            Some(total) => {
                if (i64::MIN as i128) <= total && total <= (i64::MAX as i128) {
                    Some(Instant { unix_nanos: total as i64 })
                } else {
                    None
                }
            },
            None => None,
        }
    }

    /// The instant as RFC 3339 text in UTC, such as
    /// `2021-01-01T00:00:02+00:00`.
    pub fn to_rfc3339(&self) -> (text: String)
        ensures
            text@ == rfc3339_text(self@),
    {
        chrono_rfc3339(self.unix_nanos)
    }
}

} // verus!
