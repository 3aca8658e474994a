//! The calendar month that a timestamp falls in, and the current time.
use chrono::{DateTime, Datelike, Utc};
use vstd::prelude::*;
use vstd::string::*;

use crate::text::{push_signed_decimal, push_two_digits, signed_decimal, two_digits};

verus! {

/// The UTC year and month of a Unix timestamp in seconds, as chrono computes
/// them; `None` where chrono cannot represent the instant.
pub uninterp spec fn utc_year_month(secs: i64) -> Option<(int, int)>;

/// Relies on chrono's `DateTime::<Utc>::from_timestamp`, `None` for an
/// instant out of its range, and on `Datelike::year` / `Datelike::month` of
/// the result: the calendar year and the month numbered from 1 to 12.
#[verifier::external_body]
fn utc_year_month_of(secs: i64) -> (r: Option<(i32, u32)>)
    ensures
        r is None ==> utc_year_month(secs) is None,
        r matches Some(ym) ==> utc_year_month(secs) == Some((ym.0 as int, ym.1 as int)),
        r matches Some(ym) ==> 1 <= ym.1 <= 12,
{
    match DateTime::<Utc>::from_timestamp(secs, 0) {
        Some(d) => Some((d.year(), d.month())),
        None => None,
    }
}

/// Relies on chrono's `Utc::now` and `DateTime::timestamp`: the current
/// time in whole seconds since the epoch. Nothing is known of its value.
#[verifier::external_body]
pub(crate) fn now_timestamp() -> (r: i64) {
    Utc::now().timestamp()
}

/// The name of a month's directory: the year, a dash, and the month in two
/// digits (`2024-03`).
pub open spec fn month_dir(year: int, month: int) -> Seq<char> {
    signed_decimal(year) + seq!['-'] + two_digits(month as nat)
}

/// The directory name of the month that `secs` falls in; an instant that
/// cannot be represented counts as the epoch, January 1970.
pub open spec fn month_dir_of(secs: i64) -> Seq<char> {
    match utc_year_month(secs) {
        Some(ym) => month_dir(ym.0, ym.1),
        None => month_dir(1970, 1),
    }
}

/// Writes the directory name of a given year and month.
pub fn month_dir_text(year: i32, month: u32) -> (r: String)
    ensures
        r@ == month_dir(year as int, month as int),
{
    let mut s = String::new();
    push_signed_decimal(&mut s, year as i64);
    proof {
        reveal_strlit("-");
    }
    s.append("-");
    push_two_digits(&mut s, month as u64);
    assert(s@ =~= month_dir(year as int, month as int));
    s
}

/// The directory name of the UTC month of a timestamp.
pub fn time_dir(secs: i64) -> (r: String)
    ensures
        r@ == month_dir_of(secs),
{
    match utc_year_month_of(secs) {
        Some((y, m)) => month_dir_text(y, m),
        None => month_dir_text(1970, 1),
    }
}

} // verus!
