//! Calendar dates: the slash-delimited input form, the dash-delimited
//! canonical form, and the order in which periods are reported.

use vstd::prelude::*;
use vstd::string::*;
use crate::number::{
    all_digits,
    digit_char,
    digit_str,
    digit_value,
    digits_value,
    is_digit,
    lemma_digit_char,
    read_digits,
};
use crate::text::with_char_replaced;
use vstd::arithmetic::div_mod::{
    lemma_div_denominator,
    lemma_fundamental_div_mod,
    lemma_fundamental_div_mod_converse,
};

verus! {

/// Whether `year` is a leap year in the proleptic Gregorian calendar.
pub open spec fn is_leap_year(year: int) -> bool {
    year % 4 == 0 && (year % 100 != 0 || year % 400 == 0)
}

/// The number of days of a month, `0` for a month that does not exist.
pub open spec fn days_in_month(year: int, month: int) -> int {
    if month == 2 {
        if is_leap_year(year) {
            29
        } else {
            28
        }
    } else if month == 4 || month == 6 || month == 9 || month == 11 {
        30
    } else if 1 <= month <= 12 {
        31
    } else {
        0
    }
}

/// Whether the day exists in the calendar.
pub open spec fn is_calendar_date(year: int, month: int, day: int) -> bool {
    1 <= month <= 12 && 1 <= day <= days_in_month(year, month)
}

/// Whether (year, month, day) can be held by a [`Date`].
pub open spec fn is_report_date(ymd: (int, int, int)) -> bool {
    0 <= ymd.0 <= 9999 && is_calendar_date(ymd.0, ymd.1, ymd.2)
}

/// Calendar order on (year, month, day).
pub open spec fn ymd_before(a: (int, int, int), b: (int, int, int)) -> bool {
    a.0 < b.0 || (a.0 == b.0 && (a.1 < b.1 || (a.1 == b.1 && a.2 < b.2)))
}

/// The (year, month, day) that input text of the exact shape `YYYY/MM/DD`
/// names, when that day exists; `None` for any other text.
pub open spec fn date_text_value(s: Seq<char>) -> Option<(int, int, int)> {
    if s.len() == 10 && s[4] == '/' && s[7] == '/' && all_digits(s.subrange(0, 4)) && all_digits(
        s.subrange(5, 7),
    ) && all_digits(s.subrange(8, 10)) {
        let ymd = (
            digits_value(s.subrange(0, 4)),
            digits_value(s.subrange(5, 7)),
            digits_value(s.subrange(8, 10)),
        );
        if is_calendar_date(ymd.0, ymd.1, ymd.2) {
            Some(ymd)
        } else {
            None
        }
    } else {
        None
    }
}

/// The canonical text of a date: `YYYY-MM-DD`, zero-padded.
pub open spec fn date_text(ymd: (int, int, int)) -> Seq<char> {
    seq![
        digit_char(ymd.0 / 1000),
        digit_char((ymd.0 / 100) % 10),
        digit_char((ymd.0 / 10) % 10),
        digit_char(ymd.0 % 10),
        '-',
        digit_char(ymd.1 / 10),
        digit_char(ymd.1 % 10),
        '-',
        digit_char(ymd.2 / 10),
        digit_char(ymd.2 % 10),
    ]
}

/// Asks `chrono::NaiveDate::from_ymd_opt` whether the day exists. For a
/// year that `NaiveDate` can hold, as every year from 0 to 9999 is, it
/// answers `None` exactly when the month is not 1 to 12 or the month has no
/// such day.
#[verifier::external_body]
fn calendar_day_exists(year: i32, month: u32, day: u32) -> (r: bool)
    requires
        0 <= year <= 9999,
    ensures
        r == is_calendar_date(year as int, month as int, day as int),
{
    chrono::NaiveDate::from_ymd_opt(year, month, day).is_some()
}

/// A day of the calendar, in the years 0 to 9999.
#[derive(Clone, Copy, Debug)]
pub struct Date {
    year: i32,
    month: u32,
    day: u32,
}

impl Date {
    /// Every date held is a day that exists.
    #[verifier::type_invariant]
    pub closed spec fn wf(self) -> bool {
        is_report_date(self@)
    }

    /// The date as (year, month, day).
    pub closed spec fn view(self) -> (int, int, int) {
        (self.year as int, self.month as int, self.day as int)
    }

    /// The date of the given day, if the calendar has it and the year is
    /// between 0 and 9999.
    pub fn new(year: i32, month: u32, day: u32) -> (r: Option<Date>)
        ensures
            r is Some <==> is_report_date((year as int, month as int, day as int)),
            r matches Some(d) ==> d.wf() && d@ == (year as int, month as int, day as int),
    {
        if year < 0 || year > 9999 {
            return None;
        }
        if calendar_day_exists(year, month, day) {
            Some(Date { year, month, day })
        } else {
            None
        }
    }

    pub fn year(&self) -> (r: i32)
        ensures
            r == self@.0,
    {
        self.year
    }

    pub fn month(&self) -> (r: u32)
        ensures
            r == self@.1,
    {
        self.month
    }

    pub fn day(&self) -> (r: u32)
        ensures
            r == self@.2,
    {
        self.day
    }

    /// Whether both are the same day.
    pub fn same_day(&self, other: &Date) -> (r: bool)
        ensures
            r == (self@ == other@),
    {
        self.year == other.year && self.month == other.month && self.day == other.day
    }

    /// Whether this day comes strictly before `other`.
    pub fn is_before(&self, other: &Date) -> (r: bool)
        ensures
            r == ymd_before(self@, other@),
    {
        self.year < other.year || (self.year == other.year && (self.month < other.month || (
            self.month == other.month && self.day < other.day)))
    }

    /// The first day of this date's month.
    pub fn first_of_month(&self) -> (r: Date)
        ensures
            r.wf(),
            r@ == (self@.0, self@.1, 1int),
    {
        proof {
            use_type_invariant(self);
        }
        Date { year: self.year, month: self.month, day: 1 }
    }

    /// Reads a date of the exact shape `YYYY/MM/DD`.
    pub fn parse(s: &str) -> (r: Option<Date>)
        ensures
            match r {
                Some(d) => d.wf() && date_text_value(s@) == Some(d@),
                None => date_text_value(s@) is None,
            },
    {
        if s.unicode_len() != 10 {
            return None;
        }
        if s.get_char(4) != '/' || s.get_char(7) != '/' {
            return None;
        }
        let year = match read_digits(s, 0, 4, 9999) {
            Some(v) => v,
            None => {
                proof {
                    lemma_digits_bound(s@.subrange(0, 4));
                }
                return None;
            },
        };
        let month = match read_digits(s, 5, 7, 99) {
            Some(v) => v,
            None => {
                proof {
                    lemma_digits_bound(s@.subrange(5, 7));
                }
                return None;
            },
        };
        let day = match read_digits(s, 8, 10, 99) {
            Some(v) => v,
            None => {
                proof {
                    lemma_digits_bound(s@.subrange(8, 10));
                }
                return None;
            },
        };
        Date::new(year as i32, month as u32, day as u32)
    }

    /// Writes the date as `YYYY-MM-DD`.
    pub fn to_string(&self) -> (r: String)
        ensures
            r@ == date_text(self@),
    {
        proof {
            use_type_invariant(self);
            reveal_strlit("-");
        }
        let y = self.year as u32;
        let mut out = String::new();
        append_digit(&mut out, y / 1000);
        append_digit(&mut out, (y / 100) % 10);
        append_digit(&mut out, (y / 10) % 10);
        append_digit(&mut out, y % 10);
        out.append("-");
        append_digit(&mut out, self.month / 10);
        append_digit(&mut out, self.month % 10);
        out.append("-");
        append_digit(&mut out, self.day / 10);
        append_digit(&mut out, self.day % 10);
        assert(out@ =~= date_text(self@));
        out
    }
}

/// A run of `n` digits writes a number below ten to the `n`, for the
/// widths a date uses.
proof fn lemma_digits_bound(s: Seq<char>)
    requires
        s.len() == 2 || s.len() == 4,
    ensures
        all_digits(s) ==> 0 <= digits_value(s) <= (if s.len() == 2 {
            99int
        } else {
            9999int
        }),
{
    reveal_with_fuel(digits_value, 5);
    if all_digits(s) {
        assert(is_digit(s[0]));
        assert(is_digit(s[1]));
        if s.len() == 2 {
            assert(s.drop_last().last() == s[0]);
            assert(s.drop_last().drop_last().len() == 0);
        } else {
            assert(is_digit(s[2]));
            assert(is_digit(s[3]));
            assert(s.drop_last().last() == s[2]);
            assert(s.drop_last().drop_last().last() == s[1]);
            assert(s.drop_last().drop_last().drop_last().last() == s[0]);
            assert(s.drop_last().drop_last().drop_last().drop_last().len() == 0);
        }
    }
}

/// Appends the character of the digit `d` to `out`.
fn append_digit(out: &mut String, d: u32)
    requires
        d <= 9,
    ensures
        final(out)@ == old(out)@.push(digit_char(d as int)),
{
    out.append(digit_str(d as u8));
    assert(out@ =~= old(out)@.push(digit_char(d as int)));
}

/// The number that two digits write.
proof fn lemma_two_digits(s: Seq<char>)
    requires
        s.len() == 2,
    ensures
        digits_value(s) == 10 * digit_value(s[0]) + digit_value(s[1]),
{
    reveal_with_fuel(digits_value, 3);
    assert(s.drop_last().last() == s[0]);
    assert(s.drop_last().drop_last().len() == 0);
}

/// The number that four digits write.
proof fn lemma_four_digits(s: Seq<char>)
    requires
        s.len() == 4,
    ensures
        digits_value(s) == 1000 * digit_value(s[0]) + 100 * digit_value(s[1]) + 10 * digit_value(
            s[2],
        ) + digit_value(s[3]),
{
    reveal_with_fuel(digits_value, 5);
    assert(s.drop_last().last() == s[2]);
    assert(s.drop_last().drop_last().last() == s[1]);
    assert(s.drop_last().drop_last().drop_last().last() == s[0]);
    assert(s.drop_last().drop_last().drop_last().drop_last().len() == 0);
}

/// The four digits of a year, taken apart again.
proof fn lemma_year_parts(a: int, b: int, c: int, d: int)
    requires
        0 <= a <= 9,
        0 <= b <= 9,
        0 <= c <= 9,
        0 <= d <= 9,
    ensures
        (1000 * a + 100 * b + 10 * c + d) / 1000 == a,
        ((1000 * a + 100 * b + 10 * c + d) / 100) % 10 == b,
        ((1000 * a + 100 * b + 10 * c + d) / 10) % 10 == c,
        (1000 * a + 100 * b + 10 * c + d) % 10 == d,
{
    let y = 1000 * a + 100 * b + 10 * c + d;
    lemma_fundamental_div_mod_converse(y, 1000, a, 100 * b + 10 * c + d);
    lemma_fundamental_div_mod_converse(y, 100, 10 * a + b, 10 * c + d);
    lemma_fundamental_div_mod_converse(10 * a + b, 10, a, b);
    lemma_fundamental_div_mod_converse(y, 10, 100 * a + 10 * b + c, d);
    lemma_fundamental_div_mod_converse(100 * a + 10 * b + c, 10, 10 * a + b, c);
}

/// The two digits of a month or a day, taken apart again.
proof fn lemma_pair_parts(a: int, b: int)
    requires
        0 <= a <= 9,
        0 <= b <= 9,
    ensures
        (10 * a + b) / 10 == a,
        (10 * a + b) % 10 == b,
{
    lemma_fundamental_div_mod_converse(10 * a + b, 10, a, b);
}

/// A year up to 9999 is what its four digits write.
proof fn lemma_year_whole(y: int)
    requires
        0 <= y <= 9999,
    ensures
        0 <= y / 1000 <= 9,
        0 <= (y / 100) % 10 <= 9,
        0 <= (y / 10) % 10 <= 9,
        0 <= y % 10 <= 9,
        1000 * (y / 1000) + 100 * ((y / 100) % 10) + 10 * ((y / 10) % 10) + y % 10 == y,
{
    lemma_fundamental_div_mod(y, 10);
    lemma_fundamental_div_mod(y / 10, 10);
    lemma_fundamental_div_mod(y / 100, 10);
    lemma_div_denominator(y, 10, 10);
    lemma_div_denominator(y, 100, 10);
}

/// A month or a day up to 99 is what its two digits write.
proof fn lemma_pair_whole(n: int)
    requires
        0 <= n <= 99,
    ensures
        0 <= n / 10 <= 9,
        0 <= n % 10 <= 9,
        10 * (n / 10) + n % 10 == n,
{
    lemma_fundamental_div_mod(n, 10);
}

/// Reading a date and writing it back gives the text that was read, with a
/// dash in place of each slash.
pub proof fn lemma_date_round_trip(s: Seq<char>)
    requires
        date_text_value(s) is Some,
    ensures
        date_text(date_text_value(s)->0) == with_char_replaced(s, '/', '-'),
{
    let year = s.subrange(0, 4);
    let month = s.subrange(5, 7);
    let day = s.subrange(8, 10);
    let ymd = date_text_value(s)->0;
    let written = date_text(ymd);
    let wanted = with_char_replaced(s, '/', '-');
    lemma_four_digits(year);
    lemma_two_digits(month);
    lemma_two_digits(day);
    assert(is_digit(year[0]) && is_digit(year[1]) && is_digit(year[2]) && is_digit(year[3]));
    assert(is_digit(month[0]) && is_digit(month[1]));
    assert(is_digit(day[0]) && is_digit(day[1]));
    lemma_year_parts(
        digit_value(s[0]),
        digit_value(s[1]),
        digit_value(s[2]),
        digit_value(s[3]),
    );
    lemma_pair_parts(digit_value(s[5]), digit_value(s[6]));
    lemma_pair_parts(digit_value(s[8]), digit_value(s[9]));
    assert(written[0] == wanted[0]) by {
        lemma_digit_char(s[0], 0);
    }
    assert(written[1] == wanted[1]) by {
        lemma_digit_char(s[1], 0);
    }
    assert(written[2] == wanted[2]) by {
        lemma_digit_char(s[2], 0);
    }
    assert(written[3] == wanted[3]) by {
        lemma_digit_char(s[3], 0);
    }
    assert(written[4] == wanted[4]);
    assert(written[5] == wanted[5]) by {
        lemma_digit_char(s[5], 0);
    }
    assert(written[6] == wanted[6]) by {
        lemma_digit_char(s[6], 0);
    }
    assert(written[7] == wanted[7]);
    assert(written[8] == wanted[8]) by {
        lemma_digit_char(s[8], 0);
    }
    assert(written[9] == wanted[9]) by {
        lemma_digit_char(s[9], 0);
    }
    assert(written =~= wanted);
}

/// Writing a date with slashes for its dashes and reading that text gives
/// the date.
pub proof fn lemma_date_text_parses(ymd: (int, int, int))
    requires
        is_report_date(ymd),
    ensures
        date_text_value(with_char_replaced(date_text(ymd), '-', '/')) == Some(ymd),
{
    let s = with_char_replaced(date_text(ymd), '-', '/');
    let year = s.subrange(0, 4);
    let month = s.subrange(5, 7);
    let day = s.subrange(8, 10);
    lemma_year_whole(ymd.0);
    lemma_pair_whole(ymd.1);
    lemma_pair_whole(ymd.2);
    lemma_digit_char('0', ymd.0 / 1000);
    lemma_digit_char('0', (ymd.0 / 100) % 10);
    lemma_digit_char('0', (ymd.0 / 10) % 10);
    lemma_digit_char('0', ymd.0 % 10);
    lemma_digit_char('0', ymd.1 / 10);
    lemma_digit_char('0', ymd.1 % 10);
    lemma_digit_char('0', ymd.2 / 10);
    lemma_digit_char('0', ymd.2 % 10);
    assert(year =~= seq![
        digit_char(ymd.0 / 1000),
        digit_char((ymd.0 / 100) % 10),
        digit_char((ymd.0 / 10) % 10),
        digit_char(ymd.0 % 10),
    ]);
    assert(month =~= seq![digit_char(ymd.1 / 10), digit_char(ymd.1 % 10)]);
    assert(day =~= seq![digit_char(ymd.2 / 10), digit_char(ymd.2 % 10)]);
    lemma_four_digits(year);
    lemma_two_digits(month);
    lemma_two_digits(day);
    assert(all_digits(year));
    assert(all_digits(month));
    assert(all_digits(day));
    assert(digits_value(year) == ymd.0);
    assert(digits_value(month) == ymd.1);
    assert(digits_value(day) == ymd.2);
}

} // verus!
