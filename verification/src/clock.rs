//! Wall-clock and RFC 3339 timestamp handling, through `chrono`.

use vstd::prelude::*;

verus! {

/// The RFC 3339 rendering of an instant given as whole seconds since the
/// Unix epoch. Result of `chrono`'s `to_rfc3339` on that instant in UTC.
pub uninterp spec fn rfc3339_of(secs: int) -> Seq<char>;

/// What `chrono`'s RFC 3339 parser yields on a string: the instant as whole
/// seconds since the Unix epoch, or `None` when the string is not a valid
/// RFC 3339 date-time.
pub uninterp spec fn rfc3339_secs(s: Seq<char>) -> Option<int>;

/// Largest timestamp the formatter accepts: the last second of year 9999.
pub const MAX_FORMAT_SECS: i64 = 253402300799;

/// Relies on `chrono::DateTime::<Utc>::from_timestamp` and `to_rfc3339`:
/// the rendering depends on the timestamp alone, and parsing the rendered
/// string yields the same instant back.
#[verifier::external_body]
pub fn rfc3339_from_secs(secs: i64) -> (r: String)
    requires
        0 <= secs <= MAX_FORMAT_SECS,
    ensures
        r@ == rfc3339_of(secs as int),
        rfc3339_secs(r@) == Some(secs as int),
{
    match chrono::DateTime::<chrono::Utc>::from_timestamp(secs, 0) {
        Some(dt) => dt.to_rfc3339(),
        None => String::new(),
    }
}

/// Relies on `chrono::DateTime::parse_from_rfc3339` and `timestamp`:
/// the result depends on the input string alone.
#[verifier::external_body]
pub fn parse_rfc3339_secs(s: &str) -> (r: Option<i64>)
    ensures
        r is Some <==> rfc3339_secs(s@) is Some,
        r is Some ==> rfc3339_secs(s@) == Some(r.unwrap() as int),
{
    match chrono::DateTime::parse_from_rfc3339(s) {
        Ok(dt) => Some(dt.timestamp()),
        Err(_) => None,
    }
}

/// Relies on `std::time::SystemTime::now`: seconds since the Unix epoch at
/// the moment of the call. Nothing is promised of a clock reading.
#[verifier::external_body]
pub fn now_epoch_secs() -> i64 {
    match std::time::SystemTime::now().duration_since(std::time::SystemTime::UNIX_EPOCH) {
        Ok(d) => {
            let s = d.as_secs();
            if s > i64::MAX as u64 { i64::MAX } else { s as i64 }
        },
        Err(_) => 0,
    }
}

/// Relies on `chrono::Utc::now` and `to_rfc3339`: the current instant,
/// rendered as RFC 3339. Nothing is promised of a clock reading.
#[verifier::external_body]
pub(crate) fn now_rfc3339() -> String {
    chrono::Utc::now().to_rfc3339()
}

/// A modification time clamped into the formatter's accepted range.
pub open spec fn clamp_format_secs(m: int) -> int {
    if m < 0 {
        0
    } else if m > MAX_FORMAT_SECS as int {
        MAX_FORMAT_SECS as int
    } else {
        m
    }
}

/// Renders a timestamp as RFC 3339, clamping it into the formatter's
/// accepted range first.
pub fn rfc3339_clamped(secs: i64) -> (r: String)
    ensures
        r@ == rfc3339_of(clamp_format_secs(secs as int)),
{
    let clamped: i64 = if secs < 0 {
        0
    } else if secs > MAX_FORMAT_SECS {
        MAX_FORMAT_SECS
    } else {
        secs
    };
    rfc3339_from_secs(clamped)
}

} // verus!
