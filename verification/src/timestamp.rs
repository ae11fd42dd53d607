//! Parsing of the compact timestamps these devices put in front of a
//! message: `YYYYMMDDTHHMMSS` followed by an optional `+HHMM`/`-HHMM`
//! offset.  Whether the offset-bearing form is attempted is decided by a
//! single heuristic, kept deliberately: the token contains a hyphen.

use vstd::prelude::*;

use crate::record::days_in_month;
use crate::record::is_leap_year;
use crate::record::Timestamp;

verus! {

/// `c` is an ASCII decimal digit.
pub open spec fn is_digit_char(c: char) -> bool {
    '0' as int <= c as int <= '9' as int
}

/// Numeric value of an ASCII decimal digit.
pub open spec fn digit_val(c: char) -> int {
    c as int - '0' as int
}

/// Value of the two digits of `s` starting at `i`.
pub open spec fn two_digits(s: Seq<char>, i: int) -> int {
    10 * digit_val(s[i]) + digit_val(s[i + 1])
}

/// Value of the four digits of `s` starting at `i`.
pub open spec fn four_digits(s: Seq<char>, i: int) -> int {
    100 * two_digits(s, i) + two_digits(s, i + 2)
}

/// The first fifteen characters of `s` spell a date and a time of day:
/// eight digits, a literal `T`, six digits.
pub open spec fn datetime_shape(s: Seq<char>) -> bool {
    &&& s.len() >= 15
    &&& s[8] == 'T'
    &&& forall|i: int| 0 <= i < 15 && i != 8 ==> is_digit_char(#[trigger] s[i])
}

/// The date and time spelled by the first fifteen characters denote a real
/// calendar date and a time of day.
pub open spec fn datetime_valid(s: Seq<char>) -> bool {
    &&& 1 <= two_digits(s, 4) <= 12
    &&& 1 <= two_digits(s, 6) <= days_in_month(four_digits(s, 0), two_digits(s, 4))
    &&& two_digits(s, 9) <= 23
    &&& two_digits(s, 11) <= 59
    &&& two_digits(s, 13) <= 59
}

/// Characters 15 to 19 of `s` spell a numeric offset: a sign and four
/// digits, with no colon.
pub open spec fn offset_shape(s: Seq<char>) -> bool {
    &&& (s[15] == '+' || s[15] == '-')
    &&& forall|i: int| 16 <= i < 20 ==> is_digit_char(#[trigger] s[i])
}

/// The spelled offset stays strictly within a day: at most 23 hours and
/// 59 minutes either way.
pub open spec fn offset_valid(s: Seq<char>) -> bool {
    two_digits(s, 16) <= 23 && two_digits(s, 18) <= 59
}

/// The offset spelled at characters 15 to 19, in minutes.
pub open spec fn offset_minutes_of(s: Seq<char>) -> int {
    if s[15] == '-' {
        -(two_digits(s, 16) * 60 + two_digits(s, 18))
    } else {
        two_digits(s, 16) * 60 + two_digits(s, 18)
    }
}

/// The timestamp spelled by the first fifteen characters of `s`, taken
/// with the given offset.
pub open spec fn timestamp_at(s: Seq<char>, offset_minutes: int) -> Timestamp {
    Timestamp {
        year: four_digits(s, 0) as u16,
        month: two_digits(s, 4) as u8,
        day: two_digits(s, 6) as u8,
        hour: two_digits(s, 9) as u8,
        minute: two_digits(s, 11) as u8,
        second: two_digits(s, 13) as u8,
        offset_minutes: offset_minutes as i16,
    }
}

/// The hyphen heuristic: a token containing `-` anywhere is tried against
/// the offset-bearing form, every other token against the bare form.
pub open spec fn token_has_hyphen(s: Seq<char>) -> bool {
    exists|i: int| 0 <= i < s.len() && s[i] == '-'
}

/// What [`parse_timestamp`] returns for a token.  A token with a hyphen
/// must spell the twenty-character offset-bearing form; any other token
/// must spell the fifteen-character bare form, which is taken as UTC.
pub open spec fn spec_parse_timestamp(s: Seq<char>) -> Option<Timestamp> {
    if token_has_hyphen(s) {
        if s.len() == 20 && datetime_shape(s) && datetime_valid(s) && offset_shape(s)
            && offset_valid(s) {
            Some(timestamp_at(s, offset_minutes_of(s)))
        } else {
            None
        }
    } else {
        if s.len() == 15 && datetime_shape(s) && datetime_valid(s) {
            Some(timestamp_at(s, 0))
        } else {
            None
        }
    }
}

/// Reads the character of `s` at `i` as a decimal digit.
fn read_digit(s: &str, i: usize) -> (r: Option<u32>)
    requires
        i < s@.len(),
    ensures
        match r {
            Some(v) => is_digit_char(s@[i as int]) && v == digit_val(s@[i as int]),
            None => !is_digit_char(s@[i as int]),
        },
{
    let c = s.get_char(i);
    let u = c as u32;
    if 48 <= u && u <= 57 {
        Some(u - 48)
    } else {
        None
    }
}

/// Reads the two characters of `s` at `i` as a two-digit number.
fn read_two(s: &str, i: usize) -> (r: Option<u32>)
    requires
        i + 1 < s@.len() <= usize::MAX,
    ensures
        match r {
            Some(v) => {
                &&& is_digit_char(s@[i as int])
                &&& is_digit_char(s@[i + 1])
                &&& v == two_digits(s@, i as int)
                &&& v <= 99
            },
            None => !(is_digit_char(s@[i as int]) && is_digit_char(s@[i + 1])),
        },
{
    match (read_digit(s, i), read_digit(s, i + 1)) {
        (Some(a), Some(b)) => Some(10 * a + b),
        _ => None,
    }
}

/// Reads the four characters of `s` at `i` as a four-digit number.
fn read_four(s: &str, i: usize) -> (r: Option<u32>)
    requires
        i + 3 < s@.len() <= usize::MAX,
    ensures
        match r {
            Some(v) => {
                &&& forall|k: int| i <= k < i + 4 ==> is_digit_char(#[trigger] s@[k])
                &&& v == four_digits(s@, i as int)
                &&& v <= 9999
            },
            None => !(forall|k: int| i <= k < i + 4 ==> is_digit_char(#[trigger] s@[k])),
        },
{
    match (read_two(s, i), read_two(s, i + 2)) {
        (Some(a), Some(b)) => Some(100 * a + b),
        _ => None,
    }
}

/// Whether `year` is a leap year.
pub fn is_leap_year_exec(year: u32) -> (r: bool)
    ensures
        r == is_leap_year(year as int),
{
    year % 4 == 0 && (year % 100 != 0 || year % 400 == 0)
}

/// Number of days in `month` of `year`.
pub fn days_in_month_exec(year: u32, month: u32) -> (d: u32)
    ensures
        d as int == days_in_month(year as int, month as int),
{
    if month == 2 {
        if is_leap_year_exec(year) {
            29
        } else {
            28
        }
    } else if month == 4 || month == 6 || month == 9 || month == 11 {
        30
    } else {
        31
    }
}

/// Whether the token contains a hyphen anywhere.
fn contains_hyphen(s: &str) -> (r: bool)
    ensures
        r == token_has_hyphen(s@),
{
    let n = s.unicode_len();
    let mut i: usize = 0;
    while i < n
        invariant
            n == s@.len(),
            i <= n,
            forall|k: int| 0 <= k < i ==> s@[k] != '-',
        decreases n - i,
    {
        if s.get_char(i) == '-' {
            return true;
        }
        i += 1;
    }
    false
}

/// Parses the date-and-time part: the first fifteen characters of `s`.
fn parse_core(s: &str) -> (r: Option<(u32, u32, u32, u32, u32, u32)>)
    requires
        15 <= s@.len() <= usize::MAX,
    ensures
        match r {
            Some(f) => {
                &&& datetime_shape(s@)
                &&& datetime_valid(s@)
                &&& f.0 == four_digits(s@, 0) && f.0 <= 9999
                &&& f.1 == two_digits(s@, 4) && 1 <= f.1 <= 12
                &&& f.2 == two_digits(s@, 6) && 1 <= f.2 <= 31
                &&& f.3 == two_digits(s@, 9) && f.3 <= 23
                &&& f.4 == two_digits(s@, 11) && f.4 <= 59
                &&& f.5 == two_digits(s@, 13) && f.5 <= 59
            },
            None => !(datetime_shape(s@) && datetime_valid(s@)),
        },
{
    if s.get_char(8) != 'T' {
        return None;
    }
    let year = match read_four(s, 0) {
        Some(v) => v,
        None => {
            return None;
        },
    };
    let month = match read_two(s, 4) {
        Some(v) => v,
        None => {
            return None;
        },
    };
    let day = match read_two(s, 6) {
        Some(v) => v,
        None => {
            return None;
        },
    };
    let hour = match read_two(s, 9) {
        Some(v) => v,
        None => {
            return None;
        },
    };
    let minute = match read_two(s, 11) {
        Some(v) => v,
        None => {
            return None;
        },
    };
    let second = match read_two(s, 13) {
        Some(v) => v,
        None => {
            return None;
        },
    };
    if month < 1 || month > 12 {
        return None;
    }
    if day < 1 || day > days_in_month_exec(year, month) {
        return None;
    }
    if hour > 23 || minute > 59 || second > 59 {
        return None;
    }
    assert(datetime_shape(s@));
    Some((year, month, day, hour, minute, second))
}

/// Parses the whitespace-delimited token in front of a message as a
/// timestamp.  A failure here never rejects a datagram; the caller merely
/// leaves the timestamp field absent.
pub fn parse_timestamp(s: &str) -> (r: Option<Timestamp>)
    ensures
        r == spec_parse_timestamp(s@),
        r matches Some(t) ==> t.wf(),
{
    let n = s.unicode_len();
    if contains_hyphen(s) {
        if n != 20 {
            return None;
        }
        let core = match parse_core(s) {
            Some(f) => f,
            None => {
                return None;
            },
        };
        let sign = s.get_char(15);
        if sign != '+' && sign != '-' {
            return None;
        }
        let oh = match read_two(s, 16) {
            Some(v) => v,
            None => {
                return None;
            },
        };
        let om = match read_two(s, 18) {
            Some(v) => v,
            None => {
                return None;
            },
        };
        if oh > 23 || om > 59 {
            return None;
        }
        let mins = oh * 60 + om;
        let offset_minutes: i16 = if sign == '-' {
            -(mins as i16)
        } else {
            mins as i16
        };
        Some(
            Timestamp {
                year: core.0 as u16,
                month: core.1 as u8,
                day: core.2 as u8,
                hour: core.3 as u8,
                minute: core.4 as u8,
                second: core.5 as u8,
                offset_minutes,
            },
        )
    } else {
        if n != 15 {
            return None;
        }
        match parse_core(s) {
            Some(core) => Some(
                Timestamp {
                    year: core.0 as u16,
                    month: core.1 as u8,
                    day: core.2 as u8,
                    hour: core.3 as u8,
                    minute: core.4 as u8,
                    second: core.5 as u8,
                    offset_minutes: 0,
                },
            ),
            None => None,
        }
    }
}

} // verus!
