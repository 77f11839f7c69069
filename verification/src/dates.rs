//! Dates, from Unix seconds to what a list, a header or a quotation shows.
//!
//! The calendar is the proleptic Gregorian one, in universal time. A calendar date is pinned down
//! by the number of days that separate it from the first of January 1970.
use crate::text;
use vstd::prelude::*;
use vstd::string::*;

verus! {

// ---------------------------------------------------------------------------------------------
// The calendar
// ---------------------------------------------------------------------------------------------

/// Whether a year has 366 days.
pub open spec fn is_leap(year: int) -> bool {
    year % 4 == 0 && (year % 100 != 0 || year % 400 == 0)
}

/// How many days a month has.
pub open spec fn days_in_month(year: int, month: int) -> int {
    if month == 2 {
        if is_leap(year) {
            29
        } else {
            28
        }
    } else if month == 4 || month == 6 || month == 9 || month == 11 {
        30
    } else {
        31
    }
}

/// Whether a year, a month and a day name a date.
pub open spec fn valid_date(year: int, month: int, day: int) -> bool {
    1 <= month <= 12 && 1 <= day <= days_in_month(year, month)
}

/// The days from the first of January of the year 1 to that of `year`.
pub open spec fn days_before_year(year: int) -> int {
    365 * (year - 1) + (year - 1) / 4 - (year - 1) / 100 + (year - 1) / 400
}

/// The days of a year before the first of a month.
pub open spec fn days_before_month(year: int, month: int) -> int
    decreases month,
{
    if month <= 1 {
        0
    } else {
        days_before_month(year, month - 1) + days_in_month(year, month - 1)
    }
}

/// The days from the first of January 1970 to a date.
pub open spec fn day_number(year: int, month: int, day: int) -> int {
    days_before_year(year) - days_before_year(1970) + days_before_month(year, month) + day - 1
}

/// A quotient grows by one exactly where the divisor is met.
proof fn lemma_quotient_step(n: int, k: int)
    requires
        k > 0,
    ensures
        (n + 1) / k - n / k == if (n + 1) % k == 0 {
            1int
        } else {
            0int
        },
{
    let q = (n + 1) / k;
    let r = (n + 1) % k;
    vstd::arithmetic::div_mod::lemma_fundamental_div_mod(n + 1, k);
    vstd::arithmetic::div_mod::lemma_mod_bound(n + 1, k);
    if r == 0 {
        assert(n == (q - 1) * k + (k - 1)) by (nonlinear_arith)
            requires
                n + 1 == k * q + r,
                r == 0,
        ;
        vstd::arithmetic::div_mod::lemma_fundamental_div_mod_converse(n, k, q - 1, k - 1);
    } else {
        assert(n == q * k + (r - 1)) by (nonlinear_arith)
            requires
                n + 1 == k * q + r,
        ;
        vstd::arithmetic::div_mod::lemma_fundamental_div_mod_converse(n, k, q, r - 1);
    }
}

/// What a multiple of 400 is, a multiple of 100 is too, and so on.
proof fn lemma_century_multiples(year: int)
    ensures
        year % 400 == 0 ==> year % 100 == 0,
        year % 100 == 0 ==> year % 4 == 0,
{
}

/// A year lasts 365 days, or 366.
pub proof fn lemma_year_length(year: int)
    ensures
        days_before_year(year + 1) - days_before_year(year) == if is_leap(year) {
            366int
        } else {
            365int
        },
{
    lemma_quotient_step(year - 1, 4);
    lemma_quotient_step(year - 1, 100);
    lemma_quotient_step(year - 1, 400);
    lemma_century_multiples(year);
}

/// The twelve sums of month lengths.
pub proof fn lemma_months(year: int)
    ensures
        days_before_month(year, 1) == 0,
        days_before_month(year, 2) == 31,
        ({
            let leap = if is_leap(year) {
                1int
            } else {
                0int
            };
            &&& days_before_month(year, 3) == 59 + leap
            &&& days_before_month(year, 4) == 90 + leap
            &&& days_before_month(year, 5) == 120 + leap
            &&& days_before_month(year, 6) == 151 + leap
            &&& days_before_month(year, 7) == 181 + leap
            &&& days_before_month(year, 8) == 212 + leap
            &&& days_before_month(year, 9) == 243 + leap
            &&& days_before_month(year, 10) == 273 + leap
            &&& days_before_month(year, 11) == 304 + leap
            &&& days_before_month(year, 12) == 334 + leap
        }),
{
    assert(days_before_month(year, 1) == 0);
    assert(days_before_month(year, 2) == 31);
    assert(days_before_month(year, 3) == 31 + days_in_month(year, 2));
    assert(days_before_month(year, 4) == days_before_month(year, 3) + 31);
    assert(days_before_month(year, 5) == days_before_month(year, 4) + 30);
    assert(days_before_month(year, 6) == days_before_month(year, 5) + 31);
    assert(days_before_month(year, 7) == days_before_month(year, 6) + 30);
    assert(days_before_month(year, 8) == days_before_month(year, 7) + 31);
    assert(days_before_month(year, 9) == days_before_month(year, 8) + 31);
    assert(days_before_month(year, 10) == days_before_month(year, 9) + 30);
    assert(days_before_month(year, 11) == days_before_month(year, 10) + 31);
    assert(days_before_month(year, 12) == days_before_month(year, 11) + 30);
}

/// Years follow one another: the first day of a later year is at least 365 days away.
proof fn lemma_years_grow(from: int, to: int)
    requires
        from <= to,
    ensures
        days_before_year(from) + 365 * (to - from) <= days_before_year(to),
    decreases to - from,
{
    if from < to {
        lemma_years_grow(from, to - 1);
        lemma_year_length(to - 1);
    }
}

/// A date is within its year.
proof fn lemma_within_year(year: int, month: int, day: int)
    requires
        valid_date(year, month, day),
    ensures
        0 <= days_before_month(year, month) + day - 1,
        days_before_year(year) + days_before_month(year, month) + day - 1 < days_before_year(
            year + 1,
        ),
{
    lemma_year_length(year);
    lemma_months(year);
}

/// Two dates that are equally far from the first of January 1970 are the same date.
pub proof fn day_number_names_one_date(y1: int, m1: int, d1: int, y2: int, m2: int, d2: int)
    requires
        valid_date(y1, m1, d1),
        valid_date(y2, m2, d2),
        day_number(y1, m1, d1) == day_number(y2, m2, d2),
    ensures
        y1 == y2,
        m1 == m2,
        d1 == d2,
{
    lemma_within_year(y1, m1, d1);
    lemma_within_year(y2, m2, d2);
    if y1 < y2 {
        lemma_years_grow(y1 + 1, y2);
    }
    if y2 < y1 {
        lemma_years_grow(y2 + 1, y1);
    }
    lemma_months(y1);
}

// ---------------------------------------------------------------------------------------------
// From seconds to a date
// ---------------------------------------------------------------------------------------------

/// Whether a year, a month, a day, an hour and a minute are those of an instant.
pub open spec fn is_civil(unix: int, date: (i64, u32, u32, u32, u32)) -> bool {
    &&& valid_date(date.0 as int, date.1 as int, date.2 as int)
    &&& day_number(date.0 as int, date.1 as int, date.2 as int) == unix / 86_400
    &&& date.3 == (unix % 86_400) / 3600
    &&& date.4 == (unix % 3600) / 60
}

/// The date and the time of day of an instant.
pub open spec fn civil_of(unix: int) -> (i64, u32, u32, u32, u32) {
    choose|date: (i64, u32, u32, u32, u32)| is_civil(unix, date)
}

/// An instant has one date and one time of day.
pub proof fn an_instant_has_one_date(
    unix: int,
    a: (i64, u32, u32, u32, u32),
    b: (i64, u32, u32, u32, u32),
)
    requires
        is_civil(unix, a),
        is_civil(unix, b),
    ensures
        a == b,
{
    day_number_names_one_date(
        a.0 as int,
        a.1 as int,
        a.2 as int,
        b.0 as int,
        b.1 as int,
        b.2 as int,
    );
}

/// An instant that does not come before the first of January 1970 falls in 1970 or later.
pub proof fn lemma_year_from_1970(unix: int, date: (i64, u32, u32, u32, u32))
    requires
        unix >= 0,
        is_civil(unix, date),
    ensures
        date.0 >= 1970,
{
    let y = date.0 as int;
    if y < 1970 {
        lemma_within_year(y, date.1 as int, date.2 as int);
        lemma_years_grow(y + 1, 1970);
    }
}

/// The year of an era in which a day of that era falls, counting years from March.
proof fn lemma_year_of_era(doe: int)
    requires
        0 <= doe < 146_097,
    ensures
        ({
            let yoe = (doe - doe / 1460 + doe / 36_524 - doe / 146_096) / 365;
            let doy = doe - (365 * yoe + yoe / 4 - yoe / 100);
            &&& 0 <= yoe <= 399
            &&& 0 <= doy <= 365
            &&& doy == 365 ==> (yoe + 1) % 4 == 0 && ((yoe + 1) % 100 != 0 || (yoe + 1) % 400
                == 0)
        }),
{
    let d: u32 = doe as u32;
    assert({
        let yoe: u32 = ((d - d / 1460 + d / 36_524 - d / 146_096) as u32 / 365u32) as u32;
        let start: u32 = (365 * yoe + yoe / 4 - yoe / 100) as u32;
        yoe <= 399 && start <= d && d - start <= 365 && (d - start == 365 ==> (yoe + 1) % 4 == 0
            && ((yoe + 1) % 100 != 0 || (yoe + 1) % 400 == 0))
    }) by (bit_vector)
        requires
            d < 146_097u32,
    ;
}

/// The quotient and the remainder of a division by a positive number, rounded down.
fn div_floor(a: i64, b: i64) -> (r: (i64, i64))
    requires
        b > 0,
    ensures
        r.0 == a as int / b as int,
        r.1 == a as int % b as int,
{
    if a >= 0 {
        (a / b, a % b)
    } else {
        let m: i64 = -(a + 1);
        let q: i64 = -1 - m / b;
        let r: i64 = b - 1 - m % b;
        proof {
            let (ai, bi, mi) = (a as int, b as int, m as int);
            vstd::arithmetic::div_mod::lemma_fundamental_div_mod(mi, bi);
            vstd::arithmetic::div_mod::lemma_mod_bound(mi, bi);
            assert(ai == q * bi + r) by (nonlinear_arith)
                requires
                    ai == -mi - 1,
                    mi == bi * (mi / bi) + mi % bi,
                    q == -1 - mi / bi,
                    r == bi - 1 - mi % bi,
            ;
            vstd::arithmetic::div_mod::lemma_fundamental_div_mod_converse(
                ai,
                bi,
                q as int,
                r as int,
            );
        }
        (q, r)
    }
}

/// The day and the month of a day of the year, counting days from the first of March.
proof fn lemma_month_of_year(doy: int)
    requires
        0 <= doy <= 365,
    ensures
        ({
            let mp = (5 * doy + 2) / 153;
            let day = doy - (153 * mp + 2) / 5 + 1;
            let month = if mp < 10 {
                mp + 3
            } else {
                mp - 9
            };
            &&& 0 <= mp <= 11
            &&& 1 <= month <= 12
            &&& 1 <= day <= 31
            &&& month == 4 || month == 6 || month == 9 || month == 11 ==> day <= 30
            &&& month == 2 ==> day <= 29
            &&& (month == 2 && day == 29) == (doy == 365)
            &&& (153 * mp + 2) / 5 == if month == 3 {
                0int
            } else if month == 4 {
                31
            } else if month == 5 {
                61
            } else if month == 6 {
                92
            } else if month == 7 {
                122
            } else if month == 8 {
                153
            } else if month == 9 {
                184
            } else if month == 10 {
                214
            } else if month == 11 {
                245
            } else if month == 12 {
                275
            } else if month == 1 {
                306
            } else {
                337
            }
        }),
{
}

/// Adding a multiple of the divisor moves the quotient by as much, and keeps the remainder.
proof fn lemma_shifted_division(n: int, q: int, k: int)
    requires
        k > 0,
    ensures
        (n + q * k) / k == n / k + q,
        (n + q * k) % k == n % k,
{
    vstd::arithmetic::div_mod::lemma_fundamental_div_mod(n, k);
    vstd::arithmetic::div_mod::lemma_mod_bound(n, k);
    assert(n + q * k == (n / k + q) * k + n % k) by (nonlinear_arith)
        requires
            n == k * (n / k) + n % k,
    ;
    vstd::arithmetic::div_mod::lemma_fundamental_div_mod_converse(
        n + q * k,
        k,
        n / k + q,
        n % k,
    );
}

/// A year of an era has, among its centuries and its leap years, the place of its rank.
proof fn lemma_era(era: int, yoe: int)
    requires
        0 <= yoe <= 399,
    ensures
        (yoe + era * 400) / 400 == era,
        (yoe + era * 400) / 100 == era * 4 + yoe / 100,
        (yoe + era * 400) / 4 == era * 100 + yoe / 4,
        (yoe + era * 400 + 1) % 400 == (yoe + 1) % 400,
        (yoe + era * 400 + 1) % 100 == (yoe + 1) % 100,
        (yoe + era * 400 + 1) % 4 == (yoe + 1) % 4,
{
    lemma_shifted_division(yoe, era, 400);
    lemma_shifted_division(yoe, era * 4, 100);
    lemma_shifted_division(yoe, era * 100, 4);
    lemma_shifted_division(yoe + 1, era, 400);
    lemma_shifted_division(yoe + 1, era * 4, 100);
    lemma_shifted_division(yoe + 1, era * 100, 4);
    assert(yoe / 400 == 0);
}

/// The date that the reckoning in eras arrives at is the one that the day number names.
proof fn lemma_era_date(days: int, era: int, doe: int, yoe: int, doy: int, year: int, month: int, day: int)
    requires
        days + 719_468 == era * 146_097 + doe,
        0 <= doe < 146_097,
        0 <= yoe <= 399,
        0 <= doy <= 365,
        doy == doe - (365 * yoe + yoe / 4 - yoe / 100),
        doy == 365 ==> (yoe + 1) % 4 == 0 && ((yoe + 1) % 100 != 0 || (yoe + 1) % 400 == 0),
        day == doy - (153 * ((5 * doy + 2) / 153) + 2) / 5 + 1,
        month == if (5 * doy + 2) / 153 < 10 {
            (5 * doy + 2) / 153 + 3
        } else {
            (5 * doy + 2) / 153 - 9
        },
        year == if month <= 2 {
            yoe + era * 400 + 1
        } else {
            yoe + era * 400
        },
    ensures
        valid_date(year, month, day),
        day_number(year, month, day) == days,
{
    let march_year = yoe + era * 400;
    lemma_month_of_year(doy);
    lemma_era(era, yoe);
    lemma_months(year);
    lemma_year_length(march_year);
    assert(days_before_year(march_year + 1) == 146_097 * era + 365 * yoe + yoe / 4 - yoe / 100);
    assert(days_before_year(1970) == 719_162);
    if month <= 2 {
        assert(day_number(year, month, day) == 146_097 * era + (doe - doy) - 719_162 + (if month == 1 {
            0int
        } else {
            31int
        }) + day - 1);
    } else {
        let leap = if is_leap(march_year) {
            1int
        } else {
            0int
        };
        assert(days_before_year(year) == days_before_year(march_year + 1) - 365 - leap);
        assert(days_before_month(year, month) == 59 + leap + (153 * ((5 * doy + 2) / 153) + 2) / 5);
    }
}

/// The year, the month and the day of a day number.
fn date_of(days: i64) -> (date: (i64, u32, u32))
    requires
        -110_000_000_000_000 <= days <= 110_000_000_000_000,
    ensures
        valid_date(date.0 as int, date.1 as int, date.2 as int),
        day_number(date.0 as int, date.1 as int, date.2 as int) == days,
{
    let (era, doe) = div_floor(days + 719_468, 146_097);
    proof {
        lemma_year_of_era(doe as int);
    }
    let yoe: i64 = (doe - doe / 1460 + doe / 36_524 - doe / 146_096) / 365;
    let doy: i64 = doe - (365 * yoe + yoe / 4 - yoe / 100);
    proof {
        lemma_month_of_year(doy as int);
    }
    let mp: i64 = (5 * doy + 2) / 153;
    let day: u32 = (doy - (153 * mp + 2) / 5 + 1) as u32;
    let month: u32 = (if mp < 10 {
        mp + 3
    } else {
        mp - 9
    }) as u32;
    let march_year: i64 = yoe + era * 400;
    let year: i64 = if month <= 2 {
        march_year + 1
    } else {
        march_year
    };
    proof {
        lemma_era_date(
            days as int,
            era as int,
            doe as int,
            yoe as int,
            doy as int,
            year as int,
            month as int,
            day as int,
        );
    }
    (year, month, day)
}

/// The calendar date and the time of day of an instant, in universal time.
#[verifier::spinoff_prover]
#[verifier::rlimit(40)]
pub fn civil(unix: i64) -> (date: (i64, u32, u32, u32, u32))
    ensures
        is_civil(unix as int, date),
        date == civil_of(unix as int),
{
    let (days, seconds) = div_floor(unix, 86_400);
    let (year, month, day) = date_of(days);
    let hour: u32 = (seconds / 3600) as u32;
    let minute: u32 = ((seconds % 3600) / 60) as u32;
    proof {
        assert((unix as int % 86_400) % 3600 == unix as int % 3600);
        let date = (year, month, day, hour, minute);
        assert(is_civil(unix as int, date));
        an_instant_has_one_date(unix as int, date, civil_of(unix as int));
    }
    (year, month, day, hour, minute)
}

/// The present, in seconds since the first of January 1970, from what a clock says of it: zero
/// where the clock stands before that day, and no more than fits.
pub fn now(since: Option<u64>) -> (r: i64)
    ensures
        r == match since {
            Some(seconds) => if seconds <= i64::MAX {
                seconds as int
            } else {
                i64::MAX as int
            },
            None => 0,
        },
{
    match since {
        Some(seconds) => if seconds <= i64::MAX as u64 {
            seconds as i64
        } else {
            i64::MAX
        },
        None => 0,
    }
}

// ---------------------------------------------------------------------------------------------
// What is shown of a date
// ---------------------------------------------------------------------------------------------

/// A number on at least two digits.
pub open spec fn two_digits(n: int) -> Seq<char> {
    text::padded_left(text::dec(n as nat), '0', 2)
}

/// The name of a month, in French.
pub open spec fn month_name(month: int) -> Seq<char> {
    if month == 1 {
        "janvier"@
    } else if month == 2 {
        "février"@
    } else if month == 3 {
        "mars"@
    } else if month == 4 {
        "avril"@
    } else if month == 5 {
        "mai"@
    } else if month == 6 {
        "juin"@
    } else if month == 7 {
        "juillet"@
    } else if month == 8 {
        "août"@
    } else if month == 9 {
        "septembre"@
    } else if month == 10 {
        "octobre"@
    } else if month == 11 {
        "novembre"@
    } else {
        "décembre"@
    }
}

/// What a line of a list shows of a date, in a given year: the day and the month, with the last
/// two digits of the year where it is another one. An instant without a value shows as a dash.
pub open spec fn short_date_text(unix: int, current_year: int) -> Seq<char> {
    let date = civil_of(unix);
    if unix <= 0 {
        "—"@
    } else if date.0 == current_year {
        two_digits(date.2 as int) + "/"@ + two_digits(date.1 as int)
    } else {
        two_digits(date.2 as int) + "/"@ + two_digits(date.1 as int) + "/"@ + two_digits(
            date.0 as int % 100,
        )
    }
}

/// What the header of a message shows of a date.
pub open spec fn long_date_text(unix: int) -> Seq<char> {
    let date = civil_of(unix);
    if unix <= 0 {
        "date inconnue"@
    } else {
        two_digits(date.2 as int) + "/"@ + two_digits(date.1 as int) + "/"@ + text::signed_dec(
            date.0 as int,
        ) + " "@ + two_digits(date.3 as int) + ":"@ + two_digits(date.4 as int)
    }
}

/// What the attribution line of a quotation shows of a date.
pub open spec fn full_date_text(unix: int) -> Seq<char> {
    let date = civil_of(unix);
    if unix <= 0 {
        "—"@
    } else {
        text::dec(date.2 as nat) + " "@ + month_name(date.1 as int) + " "@ + text::signed_dec(
            date.0 as int,
        ) + " à "@ + two_digits(date.3 as int) + ":"@ + two_digits(date.4 as int)
    }
}

/// A number on at least two digits.
fn on_two_digits(n: u32) -> (r: String)
    ensures
        r@ == two_digits(n as int),
{
    text::pad_left(text::decimal(n as u64).as_str(), '0', 2)
}

/// The name of a month, in French.
fn name_of_month(month: u32) -> (r: &'static str)
    ensures
        r@ == month_name(month as int),
{
    match month {
        1 => "janvier",
        2 => "février",
        3 => "mars",
        4 => "avril",
        5 => "mai",
        6 => "juin",
        7 => "juillet",
        8 => "août",
        9 => "septembre",
        10 => "octobre",
        11 => "novembre",
        _ => "décembre",
    }
}

/// A short date, for a line of a list.
pub fn short_date(unix: i64, current_year: i64) -> (r: String)
    ensures
        r@ == short_date_text(unix as int, current_year as int),
{
    if unix <= 0 {
        return "—".to_owned();
    }
    let (year, month, day, _, _) = civil(unix);
    let mut out = on_two_digits(day);
    out.append("/");
    out.append(on_two_digits(month).as_str());
    if year != current_year {
        proof {
            lemma_year_from_1970(unix as int, civil_of(unix as int));
        }
        out.append("/");
        out.append(on_two_digits((year % 100) as u32).as_str());
    }
    out
}

/// A complete date, for the header of a message.
pub fn long_date(unix: i64) -> (r: String)
    ensures
        r@ == long_date_text(unix as int),
{
    if unix <= 0 {
        return "date inconnue".to_owned();
    }
    let (year, month, day, hour, minute) = civil(unix);
    let mut out = on_two_digits(day);
    out.append("/");
    out.append(on_two_digits(month).as_str());
    out.append("/");
    out.append(text::decimal_signed(year).as_str());
    out.append(" ");
    out.append(on_two_digits(hour).as_str());
    out.append(":");
    out.append(on_two_digits(minute).as_str());
    out
}

/// A readable date, for an attribution line: « 10 septembre 2026 à 14:05 ».
pub fn full_date(unix: i64) -> (r: String)
    ensures
        r@ == full_date_text(unix as int),
{
    if unix <= 0 {
        return "—".to_owned();
    }
    let (year, month, day, hour, minute) = civil(unix);
    let mut out = text::decimal(day as u64);
    out.append(" ");
    out.append(name_of_month(month));
    out.append(" ");
    out.append(text::decimal_signed(year).as_str());
    out.append(" à ");
    out.append(on_two_digits(hour).as_str());
    out.append(":");
    out.append(on_two_digits(minute).as_str());
    out
}

} // verus!
