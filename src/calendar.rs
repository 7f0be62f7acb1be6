//! Civil dates `DD/MM/YYYY` to epoch-day timestamps, and checks of a 24-hour
//! clock time and of an appointment's length.
use vstd::prelude::*;

use crate::pallet::Pallet;
use crate::text::{parse_i32, parse_i32_spec, parse_u32, parse_u32_spec, split_bytes, split_on};
use crate::types::Error;

verus! {

/// The Gregorian leap-year rule.
pub open spec fn is_leap(y: int) -> bool {
    (y % 4 == 0 && y % 100 != 0) || y % 400 == 0
}

pub open spec fn year_length(y: int) -> nat {
    if is_leap(y) {
        366
    } else {
        365
    }
}

/// Days from 1970-01-01 to the first day of year `y`; no year before 1970 counts.
pub open spec fn days_before_year(y: int) -> nat
    decreases y - 1970,
{
    if y <= 1970 {
        0
    } else {
        days_before_year(y - 1) + year_length(y - 1)
    }
}

/// Days in month `m` (1 to 12) of year `y`.
pub open spec fn month_length(y: int, m: int) -> nat {
    if m == 2 {
        if is_leap(y) {
            29
        } else {
            28
        }
    } else if m == 4 || m == 6 || m == 9 || m == 11 {
        30
    } else {
        31
    }
}

/// Days from the first of the year to the first of month `m`.
pub open spec fn days_before_month(y: int, m: int) -> nat
    decreases m,
{
    if m <= 1 {
        0
    } else {
        days_before_month(y, m - 1) + month_length(y, m - 1)
    }
}

/// Seconds from the epoch to the start of day `d` of month `m` of year `y`.
pub open spec fn epoch_seconds(y: int, m: int, d: int) -> int {
    (days_before_year(y) + days_before_month(y, m) + d - 1) * 86400
}

/// The timestamp that a `DD/MM/YYYY` text gives, if it is one: three
/// `/`-separated integers, a month from 1 to 12 and a day from 1 to 31 (the day
/// is not held to the length of its month).
pub open spec fn civil_date(s: Seq<u8>) -> Option<u64> {
    let parts = split_on(s, 47u8);
    if parts.len() == 3 {
        match (parse_u32_spec(parts[0]), parse_u32_spec(parts[1]), parse_i32_spec(parts[2])) {
            (Some(d), Some(m), Some(y)) => {
                if 1 <= m <= 12 && 1 <= d <= 31 {
                    Some(epoch_seconds(y as int, m as int, d as int) as u64)
                } else {
                    None
                }
            },
            _ => None,
        }
    } else {
        None
    }
}

/// Whether `s` is a time `HH:MM`: two `:`-separated integers, hours at most 23
/// and minutes at most 59.
pub open spec fn valid_time_of_day(s: Seq<u8>) -> bool {
    let parts = split_on(s, 58u8);
    parts.len() == 2 && match (parse_u32_spec(parts[0]), parse_u32_spec(parts[1])) {
        (Some(h), Some(m)) => h <= 23 && m <= 59,
        _ => false,
    }
}

/// An appointment lasts from 1 to 600 minutes.
pub open spec fn valid_duration(minutes: int) -> bool {
    1 <= minutes <= 600
}

impl Pallet {
    /// Reads a `DD/MM/YYYY` date as seconds since the epoch, a multiple of 86400.
    pub fn convert_to_timestamp(date_str: Vec<u8>) -> (r: Result<u64, Error>)
        ensures
            r == (match civil_date(date_str@) {
                Some(t) => Ok(t),
                None => Err(Error::DataInvalida),
            }),
    {
        let parts = split_bytes(&date_str, 47u8);
        if parts.len() != 3 {
            return Err(Error::DataInvalida);
        }
        let ghost views = parts@.map_values(|p: Vec<u8>| p@);
        assert(views[0] == parts[0]@ && views[1] == parts[1]@ && views[2] == parts[2]@);
        let day = match parse_u32(&parts[0]) {
            Some(v) => v,
            None => return Err(Error::DataInvalida),
        };
        let month = match parse_u32(&parts[1]) {
            Some(v) => v,
            None => return Err(Error::DataInvalida),
        };
        let year = match parse_i32(&parts[2]) {
            Some(v) => v,
            None => return Err(Error::DataInvalida),
        };
        if month < 1 || month > 12 || day < 1 || day > 31 {
            return Err(Error::DataInvalida);
        }
        Ok(date_to_unix_timestamp(year, month, day))
    }

    /// Checks that `hour` is a time of day `HH:MM` on a 24-hour clock.
    pub fn validate_hour_input(hour: Vec<u8>) -> (r: Result<(), Error>)
        ensures
            r == (if valid_time_of_day(hour@) {
                Ok(())
            } else {
                Err(Error::HoraInvalida)
            }),
    {
        let parts = split_bytes(&hour, 58u8);
        if parts.len() != 2 {
            return Err(Error::HoraInvalida);
        }
        let ghost views = parts@.map_values(|p: Vec<u8>| p@);
        assert(views[0] == parts[0]@ && views[1] == parts[1]@);
        let hours = match parse_u32(&parts[0]) {
            Some(v) => v,
            None => return Err(Error::HoraInvalida),
        };
        let minutes = match parse_u32(&parts[1]) {
            Some(v) => v,
            None => return Err(Error::HoraInvalida),
        };
        if hours > 23 || minutes > 59 {
            return Err(Error::HoraInvalida);
        }
        Ok(())
    }

    /// Checks that an appointment's length, in minutes, lies in 1..=600.
    pub fn validate_duration_input(duration: u64) -> (r: Result<(), Error>)
        ensures
            r == (if valid_duration(duration as int) {
                Ok(())
            } else {
                Err(Error::DuracaoInvalida)
            }),
    {
        if duration < 1 || duration > 600 {
            return Err(Error::DuracaoInvalida);
        }
        Ok(())
    }
}

fn is_leap_year(year: i32) -> (r: bool)
    ensures
        r == is_leap(year as int),
{
    // divisibility does not depend on the sign
    let a: u32 = if year < 0 {
        (0i64 - year as i64) as u32
    } else {
        year as u32
    };
    proof {
        lemma_divides_negation(year as int, 4);
        lemma_divides_negation(year as int, 100);
        lemma_divides_negation(year as int, 400);
    }
    (a % 4 == 0 && a % 100 != 0) || (a % 400 == 0)
}

fn month_days(year: i32, month: u32) -> (r: u64)
    requires
        1 <= month <= 12,
    ensures
        r == month_length(year as int, month as int),
{
    if month == 2 {
        if is_leap_year(year) {
            29
        } else {
            28
        }
    } else if month == 4 || month == 6 || month == 9 || month == 11 {
        30
    } else {
        31
    }
}

/// Leap years from year 1 to 1969.
const LEAPS_BEFORE_EPOCH: i64 = 477;

fn date_to_unix_timestamp(year: i32, month: u32, day: u32) -> (r: u64)
    requires
        1 <= month <= 12,
        1 <= day <= 31,
    ensures
        r == epoch_seconds(year as int, month as int, day as int),
{
    // the whole years since 1970
    let days: u64 = if year > 1970 {
        let n: u64 = (year - 1) as u64;
        proof {
            lemma_days_before_year_closed(year as int);
        }
        let leaps: i64 = (n / 4) as i64 - (n / 100) as i64 + (n / 400) as i64;
        (365 * (year as i64 - 1970) + leaps - LEAPS_BEFORE_EPOCH) as u64
    } else {
        0
    };
    let mut m: u32 = 1;
    let mut in_year: u64 = 0;
    while m < month
        invariant
            1 <= m <= month <= 12,
            in_year == days_before_month(year as int, m as int),
            in_year <= 31 * (m - 1),
        decreases month - m,
    {
        in_year += month_days(year, m);
        m += 1;
    }
    (days + in_year + (day - 1) as u64) * 86400
}

/// Leap years among 1 to `n`, by the Gregorian rule.
spec fn leaps_through(n: int) -> int {
    n / 4 - n / 100 + n / 400
}

proof fn lemma_div_step(y: int, d: int)
    requires
        y >= 1,
        d > 0,
    ensures
        y / d - (y - 1) / d == (if y % d == 0 {
            1int
        } else {
            0int
        }),
{
    vstd::arithmetic::div_mod::lemma_fundamental_div_mod(y, d);
    let q = y / d;
    let r = y % d;
    if r == 0 {
        assert(y - 1 == (q - 1) * d + (d - 1)) by (nonlinear_arith)
            requires
                y == d * q + r,
                r == 0,
        ;
        vstd::arithmetic::div_mod::lemma_fundamental_div_mod_converse(y - 1, d, q - 1, d - 1);
    } else {
        assert(y - 1 == q * d + (r - 1)) by (nonlinear_arith)
            requires
                y == d * q + r,
        ;
        vstd::arithmetic::div_mod::lemma_fundamental_div_mod_converse(y - 1, d, q, r - 1);
    }
}

proof fn lemma_divides_factor(y: int, d: int, k: int)
    requires
        d > 0,
        k > 0,
        y % (d * k) == 0,
    ensures
        y % d == 0,
{
    assert(d * k > 0) by (nonlinear_arith)
        requires
            d > 0,
            k > 0,
    ;
    vstd::arithmetic::div_mod::lemma_fundamental_div_mod(y, d * k);
    let q = y / (d * k);
    assert(y == (q * k) * d + 0) by (nonlinear_arith)
        requires
            y == (d * k) * q + 0,
    ;
    vstd::arithmetic::div_mod::lemma_fundamental_div_mod_converse(y, d, q * k, 0);
}

/// Days before year `y` in closed form: 365 for each year since 1970, plus
/// one for each leap year among them.
proof fn lemma_days_before_year_closed(y: int)
    requires
        y >= 1970,
    ensures
        days_before_year(y) == 365 * (y - 1970) + leaps_through(y - 1) - leaps_through(1969),
    decreases y - 1970,
{
    if y > 1970 {
        lemma_days_before_year_closed(y - 1);
        lemma_div_step(y - 1, 4);
        lemma_div_step(y - 1, 100);
        lemma_div_step(y - 1, 400);
        if (y - 1) % 400 == 0 {
            lemma_divides_factor(y - 1, 100, 4);
            lemma_divides_factor(y - 1, 4, 100);
        }
        if (y - 1) % 100 == 0 {
            lemma_divides_factor(y - 1, 4, 25);
        }
    }
}

proof fn lemma_divides_negation(y: int, d: int)
    requires
        d > 0,
    ensures
        (y % d == 0) <==> ((-y) % d == 0),
{
    if y % d == 0 {
        vstd::arithmetic::div_mod::lemma_fundamental_div_mod(y, d);
        let q = y / d;
        vstd::arithmetic::div_mod::lemma_mod_multiples_basic(-q, d);
        assert(-y == (-q) * d) by (nonlinear_arith)
            requires
                y == d * q + 0,
        ;
    }
    if (-y) % d == 0 {
        vstd::arithmetic::div_mod::lemma_fundamental_div_mod(-y, d);
        let q = (-y) / d;
        vstd::arithmetic::div_mod::lemma_mod_multiples_basic(-q, d);
        assert(y == (-q) * d) by (nonlinear_arith)
            requires
                -y == d * q + 0,
        ;
    }
}

} // verus!
