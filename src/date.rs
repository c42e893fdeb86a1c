//! Calendar dates of the local time zone and their fixed textual forms.

use chrono::Datelike;
use vstd::prelude::*;

verus! {

/// Whether `y` is a leap year of the proleptic Gregorian calendar.
pub open spec fn is_leap_year(y: int) -> bool {
    y % 4 == 0 && (y % 100 != 0 || y % 400 == 0)
}

/// Number of days in month `m` (1 to 12) of year `y`.
pub open spec fn days_in_month(y: int, m: int) -> int {
    if m == 2 {
        if is_leap_year(y) { 29 } else { 28 }
    } else if m == 4 || m == 6 || m == 9 || m == 11 {
        30
    } else {
        31
    }
}

/// The character of the decimal digit `d` (below 10).
pub open spec fn digit_char(d: nat) -> char {
    ((d + '0' as nat) as u32) as char
}

/// The decimal digits of `n`, zero-padded on the left to at least `w` digits.
pub open spec fn decimal(n: nat, w: nat) -> Seq<char>
    decreases n + w,
{
    if n < 10 && w <= 1 {
        seq![digit_char(n)]
    } else {
        decimal(n / 10, if w > 0 { (w - 1) as nat } else { 0 }) + seq![digit_char(n % 10)]
    }
}

/// The year as written by the `%Y` format: four digits at least, with a sign
/// outside the years 0 to 9999.
pub open spec fn year_text(y: int) -> Seq<char> {
    if 0 <= y <= 9999 {
        decimal(y as nat, 4)
    } else if y > 9999 {
        seq!['+'] + decimal(y as nat, 4)
    } else {
        seq!['-'] + decimal((-y) as nat, 4)
    }
}

/// A day of the local calendar.
#[derive(Clone, Copy, Debug, PartialEq, Eq, Hash, Structural)]
pub struct LocalDate {
    year: i32,
    month: u32,
    day: u32,
}

impl LocalDate {
    pub closed spec fn spec_year(&self) -> int {
        self.year as int
    }

    pub closed spec fn spec_month(&self) -> int {
        self.month as int
    }

    pub closed spec fn spec_day(&self) -> int {
        self.day as int
    }

    /// A real day: the month is 1 to 12 and the day exists in that month.
    pub open spec fn wf(&self) -> bool {
        1 <= self.spec_month() <= 12 && 1 <= self.spec_day() <= days_in_month(
            self.spec_year(),
            self.spec_month(),
        )
    }

    /// `YYYYMMDD`, as the `%Y%m%d` format writes it.
    pub open spec fn text(&self) -> Seq<char> {
        year_text(self.spec_year()) + decimal(self.spec_month() as nat, 2) + decimal(
            self.spec_day() as nat,
            2,
        )
    }

    /// The date `year`-`month`-`day`, if that day exists.
    pub fn new(year: i32, month: u32, day: u32) -> (r: Option<LocalDate>)
        ensures
            r is Some <==> (1 <= month <= 12 && 1 <= day <= days_in_month(
                year as int,
                month as int,
            )),
            r matches Some(d) ==> d.wf() && d.spec_year() == year && d.spec_month() == month
                && d.spec_day() == day,
    {
        if month < 1 || month > 12 || day < 1 {
            return None;
        }
        let leap = year % 4 == 0 && (year % 100 != 0 || year % 400 == 0);
        let last: u32 = if month == 2 {
            if leap { 29 } else { 28 }
        } else if month == 4 || month == 6 || month == 9 || month == 11 {
            30
        } else {
            31
        };
        if day > last {
            None
        } else {
            Some(LocalDate { year, month, day })
        }
    }

    pub fn year(&self) -> (r: i32)
        ensures
            r == self.spec_year(),
    {
        self.year
    }

    pub fn month(&self) -> (r: u32)
        ensures
            r == self.spec_month(),
    {
        self.month
    }

    pub fn day(&self) -> (r: u32)
        ensures
            r == self.spec_day(),
    {
        self.day
    }

    /// The year as `%Y` writes it.
    pub fn year_string(&self) -> (r: String)
        ensures
            r@ == year_text(self.spec_year()),
    {
        let mut out = String::new();
        push_year(&mut out, self.year);
        out
    }

    /// The month as two digits.
    pub fn month_string(&self) -> (r: String)
        ensures
            r@ == decimal(self.spec_month() as nat, 2),
    {
        let mut out = String::new();
        push_decimal(&mut out, self.month, 2);
        out
    }

    /// The day of the month as two digits.
    pub fn day_string(&self) -> (r: String)
        ensures
            r@ == decimal(self.spec_day() as nat, 2),
    {
        let mut out = String::new();
        push_decimal(&mut out, self.day, 2);
        out
    }

    /// The date in its fixed textual form `YYYYMMDD`.
    pub fn to_text(&self) -> (r: String)
        ensures
            r@ == self.text(),
    {
        let mut out = String::new();
        push_year(&mut out, self.year);
        push_decimal(&mut out, self.month, 2);
        push_decimal(&mut out, self.day, 2);
        out
    }
}

/// Relies on chrono::Local::now with chrono::Datelike: today's date in the
/// local time zone, which chrono only ever gives as a real day.
#[verifier::external_body]
pub(crate) fn local_today() -> (r: LocalDate)
    ensures
        r.wf(),
{
    let now = chrono::Local::now();
    LocalDate { year: now.year(), month: now.month(), day: now.day() }
}

/// The one-character text of the digit `d`.
fn digit_str(d: u32) -> (r: &'static str)
    requires
        d < 10,
    ensures
        r@ == seq![digit_char(d as nat)],
{
    let r = match d {
        0 => "0",
        1 => "1",
        2 => "2",
        3 => "3",
        4 => "4",
        5 => "5",
        6 => "6",
        7 => "7",
        8 => "8",
        _ => "9",
    };
    proof {
        reveal_strlit("0");
        reveal_strlit("1");
        reveal_strlit("2");
        reveal_strlit("3");
        reveal_strlit("4");
        reveal_strlit("5");
        reveal_strlit("6");
        reveal_strlit("7");
        reveal_strlit("8");
        reveal_strlit("9");
    }
    r
}

/// Appends `decimal(n, w)` to `out`.
fn push_decimal(out: &mut String, n: u32, w: u32)
    ensures
        final(out)@ == old(out)@ + decimal(n as nat, w as nat),
    decreases n + w,
{
    if n < 10 && w <= 1 {
        out.append(digit_str(n));
    } else {
        let rest: u32 = if w > 0 { w - 1 } else { 0 };
        push_decimal(out, n / 10, rest);
        out.append(digit_str(n % 10));
        proof {
            assert(old(out)@ + decimal(n as nat, w as nat) =~= old(out)@ + decimal(
                (n / 10) as nat,
                rest as nat,
            ) + seq![digit_char((n % 10) as nat)]);
        }
    }
}

/// Appends `year_text(y)` to `out`.
fn push_year(out: &mut String, y: i32)
    ensures
        final(out)@ == old(out)@ + year_text(y as int),
{
    if 0 <= y && y <= 9999 {
        push_decimal(out, y as u32, 4);
    } else if y > 9999 {
        out.append("+");
        proof {
            reveal_strlit("+");
        }
        push_decimal(out, y as u32, 4);
        assert(out@ =~= old(out)@ + year_text(y as int));
    } else {
        out.append("-");
        proof {
            reveal_strlit("-");
        }
        let a: u32 = (-(y as i64)) as u32;
        push_decimal(out, a, 4);
        assert(out@ =~= old(out)@ + year_text(y as int));
    }
}

} // verus!
