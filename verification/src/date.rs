//! Dates as the pages show them, through chrono.
use vstd::prelude::*;

use chrono::{TimeZone, Utc};

verus! {

/// How the pages show a date: day, month name, year.
pub const DATE_PATTERN: &'static str = "%d %B %Y";

/// First second chrono represents: 00:00:00 UTC on 1 January of its smallest
/// year (`NaiveDate::MIN`, year -262143), in seconds since the Unix epoch.
pub const UTC_MIN_SECS: i64 = -8334601228800;

/// Last second chrono represents: 23:59:59 UTC on 31 December of its largest
/// year (`NaiveDate::MAX`, year 262142), in seconds since the Unix epoch.
pub const UTC_MAX_SECS: i64 = 8210266876799;

/// Whether chrono represents the UTC instant `secs` seconds after the Unix
/// epoch.
pub open spec fn chrono_represents(secs: i64) -> bool {
    UTC_MIN_SECS <= secs <= UTC_MAX_SECS
}

/// A strftime pattern whose every `%` starts one of the day (`%d`), month
/// name (`%B`) or year (`%Y`) specifiers.
pub open spec fn is_day_month_year_pattern(p: Seq<char>) -> bool {
    forall|k: int|
        0 <= k < p.len() && #[trigger] p[k] == '%' ==> k + 1 < p.len() && (p[k + 1] == 'd'
            || p[k + 1] == 'B' || p[k + 1] == 'Y')
}

/// The text chrono renders for the UTC instant `secs` seconds after the Unix
/// epoch with a strftime pattern.
pub uninterp spec fn chrono_utc_strftime(secs: i64, pattern: Seq<char>) -> Seq<char>;

/// The UTC instant `secs` seconds after the Unix epoch rendered with a
/// strftime pattern, when chrono represents the instant.
///
/// Calls `Utc.timestamp_opt(secs, 0)`: chrono's `DateTime::from_timestamp`
/// yields an instant exactly when the day falls between `NaiveDate::MIN` and
/// `NaiveDate::MAX`, and UTC never yields an ambiguous time. The instant is
/// then rendered with `DateTime::format` and `to_string`, which panics when
/// the pattern holds a specifier chrono does not know; the `requires` admits
/// only the day, month name and year specifiers, which chrono renders for
/// every instant it represents. The rendered text depends on the instant and
/// the pattern alone, and is named `chrono_utc_strftime`.
#[verifier::external_body]
fn format_utc(secs: i64, pattern: &str) -> (r: Option<String>)
    requires
        is_day_month_year_pattern(pattern@),
    ensures
        r is Some <==> chrono_represents(secs),
        r matches Some(s) ==> s@ == chrono_utc_strftime(secs, pattern@),
{
    match Utc.timestamp_opt(secs, 0) {
        chrono::offset::LocalResult::Single(dt) => Some(dt.format(pattern).to_string()),
        _ => None,
    }
}

/// The date of a timestamp as the pages show it (`08 July 2001`), or `?`
/// when chrono cannot represent the timestamp.
pub fn format_date(ts: i64) -> (r: String)
    ensures
        chrono_represents(ts) ==> r@ == chrono_utc_strftime(ts, DATE_PATTERN@),
        !chrono_represents(ts) ==> r@ == "?"@,
{
    proof {
        reveal_strlit("%d %B %Y");
    }
    match format_utc(ts, DATE_PATTERN) {
        Some(s) => s,
        None => String::from_str("?"),
    }
}

} // verus!
