//! The two outside parsers the calculator leans on: RFC 3339 timestamps and
//! decimal rate literals. Each is reached through one trusted wrapper whose
//! result is reduced to plain integers; what a given string parses to is
//! named by an uninterpreted function, since neither grammar is worth
//! restating here.

use vstd::prelude::*;
use core::str::FromStr;
use crate::types::DecimalValue;

verus! {

/// What `chrono`'s RFC 3339 parser makes of a string: `None` when the string
/// is not a valid offset-carrying instant, otherwise the instant as
/// (whole seconds since the Unix epoch, nanoseconds past that second,
/// offset from UTC in seconds).
pub uninterp spec fn rfc3339_instant(s: Seq<char>) -> Option<(int, int, int)>;

/// Relies on `chrono::DateTime::parse_from_rfc3339`, which accepts exactly
/// the valid RFC 3339 date-and-time strings, `DateTime::timestamp` and
/// `DateTime::timestamp_subsec_nanos` (together the exact instant; the nano
/// part stays under two billion, the excess over one billion standing for a
/// leap second) and `FixedOffset::local_minus_utc` (the parsed offset in
/// seconds). The local wall clock the instant was written in is its
/// timestamp plus its offset. The parse depends on the string alone.
#[verifier::external_body]
pub(crate) fn parse_rfc3339(s: &str) -> (r: Option<(i64, u32, i32)>)
    ensures
        match r {
            Option::None => rfc3339_instant(s@) is None,
            Option::Some((t, n, o)) => rfc3339_instant(s@) == Some((t as int, n as int, o as int))
                && n < 2000000000,
        },
{
    match chrono::DateTime::parse_from_rfc3339(s) {
        Ok(dt) => Some((dt.timestamp(), dt.timestamp_subsec_nanos(), dt.offset().local_minus_utc())),
        Err(_) => None,
    }
}

/// What `rust_decimal`'s string parser makes of a string: `None` when it is
/// not a decimal numeral, otherwise the pair (mantissa, scale) denoting
/// `mantissa / 10^scale`.
pub uninterp spec fn decimal_of(s: Seq<char>) -> Option<(int, int)>;

/// Relies on `rust_decimal::Decimal::from_str` together with
/// `Decimal::mantissa` and `Decimal::scale`. A `Decimal` is stored as a
/// sign, a 96-bit magnitude and a scale of at most 28, so a parsed value is
/// always well formed in the sense of [`DecimalValue::wf`]. The parse
/// depends on the string alone.
#[verifier::external_body]
pub(crate) fn parse_decimal(s: &str) -> (r: Option<DecimalValue>)
    ensures
        match r {
            Option::None => decimal_of(s@) is None,
            Option::Some(dv) => decimal_of(s@) == Some((dv.mantissa as int, dv.scale as int))
                && dv.wf(),
        },
{
    match rust_decimal::Decimal::from_str(s) {
        Ok(d) => Some(DecimalValue { mantissa: d.mantissa(), scale: d.scale() }),
        Err(_) => None,
    }
}

} // verus!
