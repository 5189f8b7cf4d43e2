//! Calendar dates, and the six-digit `DDMMYY` form in which a statement writes them.

use vstd::prelude::*;

use crate::field::{all_digits, digit_value, digits_value, is_digit, ValueError};

verus! {

/// A day of the proleptic Gregorian calendar.
#[derive(PartialEq, Eq, Structural, Clone, Copy, Debug)]
pub struct Date {
    pub year: i32,
    pub month: u32,
    pub day: u32,
}

pub open spec fn is_leap_year(y: int) -> bool {
    (y % 4 == 0 && y % 100 != 0) || y % 400 == 0
}

pub open spec fn days_in_month(y: int, m: int) -> int {
    if m == 2 {
        if is_leap_year(y) {
            29
        } else {
            28
        }
    } else if m == 4 || m == 6 || m == 9 || m == 11 {
        30
    } else {
        31
    }
}

/// Month `m` exists, and has a day `d`, in year `y`.
pub open spec fn is_calendar_date(y: int, m: int, d: int) -> bool {
    1 <= m <= 12 && 1 <= d <= days_in_month(y, m)
}

impl Date {
    pub open spec fn wf(&self) -> bool {
        is_calendar_date(self.year as int, self.month as int, self.day as int)
    }
}

/// The year that a two-digit year `yy` stands for: `00` to `69` fall in the
/// 2000s, `70` to `99` in the 1900s.
pub open spec fn full_year(yy: int) -> int {
    if yy < 70 {
        2000 + yy
    } else {
        1900 + yy
    }
}

/// The date written as `DDMMYY`.
pub open spec fn date_of(s: Seq<char>) -> Result<Date, ValueError> {
    if s.len() != 6 || !all_digits(s) {
        Err(ValueError::NotDigits)
    } else {
        let d = digits_value(s.subrange(0, 2));
        let m = digits_value(s.subrange(2, 4));
        let y = full_year(digits_value(s.subrange(4, 6)));
        if is_calendar_date(y, m, d) {
            Ok(Date { year: y as i32, month: m as u32, day: d as u32 })
        } else {
            Err(ValueError::InvalidDate)
        }
    }
}

#[verifier::external_type_specification]
#[verifier::external_body]
pub struct ExNaiveDate(chrono::NaiveDate);

/// Relies on chrono's `NaiveDate::from_ymd_opt`: within the years that
/// `NaiveDate` covers, it returns a date exactly when the month and the day
/// exist in that year of the proleptic Gregorian calendar.
pub assume_specification[ chrono::NaiveDate::from_ymd_opt ](year: i32, month: u32, day: u32) -> (r:
    Option<chrono::NaiveDate>)
    requires
        -262_143 <= year <= 262_142,
    ensures
        r is Some <==> is_calendar_date(year as int, month as int, day as int),
;

/// The value of the two digits `s[i]`, `s[i + 1]`.
fn two_digits(cs: &Vec<char>, i: usize) -> (r: u32)
    requires
        i <= 4,
        i + 2 <= cs@.len(),
        is_digit(cs@[i as int]),
        is_digit(cs@[i + 1]),
    ensures
        r as int == digits_value(cs@.subrange(i as int, i + 2)),
        r < 100,
{
    let ghost t = cs@.subrange(i as int, i + 2);
    let ghost u = t.drop_last();
    assert(u =~= seq![cs@[i as int]]);
    assert(u.drop_last() =~= Seq::<char>::empty());
    assert(digits_value(u.drop_last()) == 0);
    assert(u.last() == cs@[i as int]);
    assert(digits_value(u) == digit_value(cs@[i as int]));
    assert(digits_value(t) == 10 * digit_value(cs@[i as int]) + digit_value(cs@[i + 1]));
    let hi = cs[i] as u32 - '0' as u32;
    let lo = cs[i + 1] as u32 - '0' as u32;
    hi * 10 + lo
}

/// Decodes a date written as `DDMMYY`; see [`full_year`] for the century.
pub fn parse_date(s: &str) -> (r: Result<Date, ValueError>)
    ensures
        r == date_of(s@),
        r matches Ok(d) ==> d.wf(),
{
    let cs = crate::text::chars_of(s);
    if cs.len() != 6 {
        return Err(ValueError::NotDigits);
    }
    let mut i: usize = 0;
    while i < 6
        invariant
            cs@ == s@,
            cs.len() == 6,
            i <= 6,
            forall|j: int| 0 <= j < i ==> is_digit(#[trigger] cs@[j]),
        decreases 6 - i,
    {
        let c = cs[i];
        if !('0' <= c && c <= '9') {
            return Err(ValueError::NotDigits);
        }
        i = i + 1;
    }
    assert(all_digits(s@));
    let day = two_digits(&cs, 0);
    let month = two_digits(&cs, 2);
    let yy = two_digits(&cs, 4);
    let year: i32 = if yy < 70 {
        2000 + yy as i32
    } else {
        1900 + yy as i32
    };
    if chrono::NaiveDate::from_ymd_opt(year, month, day).is_some() {
        Ok(Date { year, month, day })
    } else {
        Err(ValueError::InvalidDate)
    }
}

} // verus!
