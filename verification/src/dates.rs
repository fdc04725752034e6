//! Calendar dates as year, month and day, with chrono's date arithmetic and
//! the `%Y-%m-%d` notation.
use vstd::prelude::*;
use crate::text::{append_vec, chars_of, decimal, decimal_spec, pad_zero, string_from_chars, zero_pad};
use chrono::Datelike;

verus! {

broadcast use vstd::string::group_string_axioms;

/// A calendar date.
#[derive(Clone, Copy, Debug, PartialEq, Eq)]
pub struct Ymd {
    pub year: i32,
    pub month: u32,
    pub day: u32,
}

impl Ymd {
    pub open spec fn triple(self) -> (int, int, int) {
        (self.year as int, self.month as int, self.day as int)
    }
}

/// chrono's `%Y`: four zero-padded digits for years 0 to 9999, else a sign
/// and at least four digits.
pub open spec fn year_text(y: int) -> Seq<char> {
    if 0 <= y <= 9999 {
        zero_pad(decimal_spec(y as nat), 4)
    } else if y > 9999 {
        seq!['+'] + decimal_spec(y as nat)
    } else {
        seq!['-'] + zero_pad(decimal_spec((-y) as nat), 4)
    }
}

/// A date in `%Y-%m-%d` notation (months and days zero-padded to two digits).
pub open spec fn ymd_text(y: int, m: int, d: int) -> Seq<char> {
    year_text(y) + seq!['-'] + zero_pad(decimal_spec(m as nat), 2) + seq!['-'] + zero_pad(
        decimal_spec(d as nat),
        2,
    )
}

/// Formats a date as `%Y-%m-%d`, as chrono's `format("%Y-%m-%d")` writes it.
pub fn format_ymd(date: &Ymd) -> (r: String)
    ensures
        r@ == ymd_text(date.year as int, date.month as int, date.day as int),
{
    let mut out: Vec<char> = Vec::new();
    let y = date.year;
    if 0 <= y && y <= 9999 {
        let ys = decimal(y as u128);
        out = pad_zero(chars_of(ys.as_str()), 4);
    } else if y > 9999 {
        out.push('+');
        let ys = decimal(y as u128);
        append_vec(&mut out, &chars_of(ys.as_str()));
    } else {
        out.push('-');
        let ys = decimal((0i64 - y as i64) as u128);
        append_vec(&mut out, &pad_zero(chars_of(ys.as_str()), 4));
    }
    assert(out@ == year_text(y as int));
    out.push('-');
    let ms = decimal(date.month as u128);
    append_vec(&mut out, &pad_zero(chars_of(ms.as_str()), 2));
    out.push('-');
    let ds = decimal(date.day as u128);
    append_vec(&mut out, &pad_zero(chars_of(ds.as_str()), 2));
    assert(out@ =~= ymd_text(date.year as int, date.month as int, date.day as int));
    string_from_chars(out.as_slice())
}

// ─── chrono's calendar arithmetic ────────────────────────────────────────────

/// The date `days` days after `(y, m, d)` in chrono's proleptic Gregorian
/// calendar; `None` where `(y, m, d)` is no date or the result is out of range.
pub uninterp spec fn date_plus_days(y: int, m: int, d: int, days: int) -> Option<(int, int, int)>;

/// The date that chrono parses from a text in `%Y-%m-%d` notation, if any.
pub uninterp spec fn parsed_date(s: Seq<char>) -> Option<(int, int, int)>;

/// Whole days from date `b` to date `a` (negative where `a` comes first);
/// `None` where either is no date.
pub uninterp spec fn days_from_to(a: (int, int, int), b: (int, int, int)) -> Option<int>;

/// Calls `NaiveDate::from_ymd_opt` and `NaiveDate::checked_add_signed` with
/// `TimeDelta::try_days`. Trusted: the result is the named shifted date.
#[verifier::external_body]
pub(crate) fn add_days(date: &Ymd, days: i64) -> (r: Option<Ymd>)
    ensures
        r is None <==> date_plus_days(date.year as int, date.month as int, date.day as int, days as int) is None,
        r matches Some(v) ==> date_plus_days(date.year as int, date.month as int, date.day as int, days as int) == Some(v.triple()),
{
    let base = chrono::NaiveDate::from_ymd_opt(date.year, date.month, date.day)?;
    let shifted = base.checked_add_signed(chrono::TimeDelta::try_days(days)?)?;
    Some(Ymd { year: shifted.year(), month: shifted.month(), day: shifted.day() })
}

/// Calls `NaiveDate::parse_from_str(s, "%Y-%m-%d")`. Trusted: the result is
/// the named parsed date.
#[verifier::external_body]
pub(crate) fn parse_ymd(s: &str) -> (r: Option<Ymd>)
    ensures
        r is None <==> parsed_date(s@) is None,
        r matches Some(v) ==> parsed_date(s@) == Some(v.triple()),
{
    let d = chrono::NaiveDate::parse_from_str(s, "%Y-%m-%d").ok()?;
    Some(Ymd { year: d.year(), month: d.month(), day: d.day() })
}

/// Calls `NaiveDate::signed_duration_since` and `TimeDelta::num_days`.
/// Trusted: the result is the named day count.
#[verifier::external_body]
pub(crate) fn days_between(a: &Ymd, b: &Ymd) -> (r: Option<i64>)
    ensures
        r is None <==> days_from_to(a.triple(), b.triple()) is None,
        r matches Some(v) ==> days_from_to(a.triple(), b.triple()) == Some(v as int),
{
    let x = chrono::NaiveDate::from_ymd_opt(a.year, a.month, a.day)?;
    let y = chrono::NaiveDate::from_ymd_opt(b.year, b.month, b.day)?;
    Some(x.signed_duration_since(y).num_days())
}

/// The `%Y-%m-%d` text of the date `days` after `date`, if there is one.
pub open spec fn shifted_text(date: (int, int, int), days: int) -> Option<Seq<char>> {
    match date_plus_days(date.0, date.1, date.2, days) {
        Some((y, m, d)) => Some(ymd_text(y, m, d)),
        None => None,
    }
}

/// `date + Duration::days(days)` formatted as `%Y-%m-%d`.
pub fn shifted_date_text(date: &Ymd, days: i64) -> (r: Option<String>)
    ensures
        r is None <==> shifted_text(date.triple(), days as int) is None,
        r matches Some(s) ==> shifted_text(date.triple(), days as int) == Some(s@),
{
    match add_days(date, days) {
        Some(d) => Some(format_ymd(&d)),
        None => None,
    }
}

} // verus!
