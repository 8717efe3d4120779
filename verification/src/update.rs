//! Update checks: calendar arithmetic, timestamps, the check's cache and its decisions.
use vstd::prelude::*;
use crate::text::{
    char_width, chars_of, chars_contains, is_digit, string_from_chars, trim, trim_chars, utf8_len,
    utf8_width,
};
use crate::ir::utf8_len_capped;

verus! {

// ── Calendar ───────────────────────────────────────────────────────

/// The civil date (year, month, day) of a count of days since 1970-01-01, in the proleptic
/// Gregorian calendar (the era-based form of the civil-from-days computation).
#[verifier::opaque]
pub open spec fn civil_from_days(days: int) -> (int, int, int) {
    let z = days + 719468;
    let era = z / 146097;
    let doe = z % 146097;
    let yoe = (doe - doe / 1460 + doe / 36524 - doe / 146096) / 365;
    let doy = doe - (365 * yoe + yoe / 4 - yoe / 100);
    let mp = (5 * doy + 2) / 153;
    let d = doy - (153 * mp + 2) / 5 + 1;
    let m = if mp < 10 {
        mp + 3
    } else {
        mp - 9
    };
    (yoe + era * 400 + (if m <= 2 {
        1int
    } else {
        0int
    }), m, d)
}

/// The number of days from 1970-01-01 to the civil date `y-m-d` (era-based form).
pub open spec fn days_from_civil(y: int, m: int, d: int) -> int {
    let yy = if m <= 2 {
        y - 1
    } else {
        y
    };
    let mm = if m <= 2 {
        m + 9
    } else {
        m - 3
    };
    let era = yy / 400;
    let yoe = yy % 400;
    let doy = (153 * mm + 2) / 5 + d - 1;
    let doe = yoe * 365 + yoe / 4 - yoe / 100 + doy;
    era * 146097 + doe - 719468
}

/// Whether a year of the proleptic Gregorian calendar is a leap year.
pub open spec fn is_leap(y: int) -> bool {
    y % 4 == 0 && (y % 100 != 0 || y % 400 == 0)
}

/// The number of days of month `m` in year `y`.
pub open spec fn days_in_month(y: int, m: int) -> int {
    if m == 2 {
        if is_leap(y) {
            29
        } else {
            28
        }
    } else if m == 4 || m == 6 || m == 9 || m == 11 {
        30
    } else {
        31
    }
}

/// Within a March-based year, the month and day are read back from the day of the year.
proof fn lemma_month_roundtrip(mm: int, k: int)
    requires
        0 <= mm < 12,
        0 <= k,
        k < if mm == 11 {
            29int
        } else if mm == 1 || mm == 3 || mm == 6 || mm == 8 {
            30int
        } else {
            31int
        },
    ensures
        (5 * ((153 * mm + 2) / 5 + k) + 2) / 153 == mm,
{
    if mm == 0 {
    } else if mm == 1 {
    } else if mm == 2 {
    } else if mm == 3 {
    } else if mm == 4 {
    } else if mm == 5 {
    } else if mm == 6 {
    } else if mm == 7 {
    } else if mm == 8 {
    } else if mm == 9 {
    } else if mm == 10 {
    } else {
    }
}

/// Within a 400-year era, the year is read back from the day of the era.
proof fn lemma_year_roundtrip(yoe: int, doy: int)
    requires
        0 <= yoe < 400,
        0 <= doy,
        doy < 365 + if is_leap(yoe + 1) {
            1int
        } else {
            0int
        },
    ensures
        0 <= yoe * 365 + yoe / 4 - yoe / 100 + doy < 146097,
        ({
            let doe = yoe * 365 + yoe / 4 - yoe / 100 + doy;
            (doe - doe / 1460 + doe / 36524 - doe / 146096) / 365 == yoe
        }),
{
}

/// A valid date survives the day count: the civil date of the days from 1970-01-01 to
/// `y-m-d` is `y-m-d` again.
pub proof fn law_date_roundtrip(y: int, m: int, d: int)
    requires
        1 <= m <= 12,
        1 <= d <= days_in_month(y, m),
    ensures
        civil_from_days(days_from_civil(y, m, d)) == (y, m, d),
{
    reveal(civil_from_days);
    let yy = if m <= 2 {
        y - 1
    } else {
        y
    };
    let mm = if m <= 2 {
        m + 9
    } else {
        m - 3
    };
    let era = yy / 400;
    let yoe = yy % 400;
    let doy = (153 * mm + 2) / 5 + d - 1;
    let doe = yoe * 365 + yoe / 4 - yoe / 100 + doy;
    lemma_month_roundtrip(mm, d - 1);
    assert(yy == era * 400 + yoe);
    if m == 2 && d == 29 {
        // February 29th exists only in leap years, and leap years repeat every 400 years.
        assert(is_leap(y));
        assert((era * 400 + yoe + 1) % 4 == (yoe + 1) % 4 && (era * 400 + yoe + 1) % 100 == (
        yoe + 1) % 100 && (era * 400 + yoe + 1) % 400 == (yoe + 1) % 400) by (nonlinear_arith)
            requires
                0 <= yoe < 400,
        {
            assert(era * 400 + yoe + 1 == (era * 100) * 4 + (yoe + 1));
            assert(era * 400 + yoe + 1 == (era * 4) * 100 + (yoe + 1));
        }
        assert(is_leap(yoe + 1));
    }
    lemma_year_roundtrip(yoe, doy);
    let days = era * 146097 + doe - 719468;
    assert(days == days_from_civil(y, m, d));
    let z = days + 719468;
    assert(z / 146097 == era && z % 146097 == doe) by (nonlinear_arith)
        requires
            z == era * 146097 + doe,
            0 <= doe < 146097,
    ;
}

/// Days since 1970-01-01 of a date; `None` unless the month is 1 to 12 and the day 1 to 31.
pub fn days_from_epoch(year: i32, month: u32, day: u32) -> (r: Option<i64>)
    ensures
        r == (if 1 <= month <= 12 && 1 <= day <= 31 {
            Some(days_from_civil(year as int, month as int, day as int) as i64)
        } else {
            None
        }),
        r is Some ==> r->0 as int == days_from_civil(year as int, month as int, day as int),
{
    if !(1 <= month && month <= 12) || !(1 <= day && day <= 31) {
        return None;
    }
    let y: i64 = if month <= 2 {
        year as i64 - 1
    } else {
        year as i64
    };
    let m: i64 = if month <= 2 {
        month as i64 + 9
    } else {
        month as i64 - 3
    };
    let era = match y.checked_div_euclid(400) {
        Some(e) => e,
        None => 0,
    };
    let yoe = match y.checked_rem_euclid(400) {
        Some(r) => r,
        None => 0,
    };
    assert(0 <= yoe < 400);
    let doy = (153 * m + 2) / 5 + day as i64 - 1;
    let doe = yoe * 365 + yoe / 4 - yoe / 100 + doy;
    let days = era * 146097 + doe - 719468;
    Some(days)
}

/// The civil date of a count of days since 1970-01-01.
#[verifier::spinoff_prover]
#[verifier::rlimit(40)]
pub fn date_from_days(days: i64) -> (r: (i32, u32, u32))
    requires
        days <= i64::MAX - 719468,
    ensures
        r == ((civil_from_days(days as int).0 as i32), (civil_from_days(days as int).1 as u32), (
        civil_from_days(days as int).2 as u32)),
{
    proof {
        reveal(civil_from_days);
    }
    let z = days + 719468;
    let era = match z.checked_div_euclid(146097) {
        Some(e) => e,
        None => 0,
    };
    let doe = match z.checked_rem_euclid(146097) {
        Some(r) => r,
        None => 0,
    };
    assert(0 <= doe < 146097);
    let yoe = (doe - doe / 1460 + doe / 36524 - doe / 146096) / 365;
    let y = yoe + era * 400;
    let doy = doe - (365 * yoe + yoe / 4 - yoe / 100);
    let mp = (5 * doy + 2) / 153;
    let d = doy - (153 * mp + 2) / 5 + 1;
    let m = if mp < 10 {
        mp + 3
    } else {
        mp - 9
    };
    let y = if m <= 2 {
        y + 1
    } else {
        y
    };
    (y as i32, m as u32, d as u32)
}


// ── Integers and byte slices ───────────────────────────────────────

/// The value of a string of decimal digits.
pub open spec fn digits_value(s: Seq<char>) -> int
    decreases s.len(),
{
    if s.len() == 0 {
        0
    } else {
        digits_value(s.drop_last()) * 10 + (s.last() as int - '0' as int)
    }
}

pub open spec fn all_digits(s: Seq<char>) -> bool {
    forall|i: int| 0 <= i < s.len() ==> is_digit(#[trigger] s[i])
}

/// What `str::parse` gives for a short integer (`signed` for `i32`, else `u32`): an optional
/// `+` (or, when signed, `-`) and then at least one ASCII digit.
pub open spec fn parse_int(s: Seq<char>, signed: bool) -> Option<int> {
    if s.len() == 0 {
        None
    } else if (s[0] == '+' || s[0] == '-') && s.len() == 1 {
        None
    } else if s[0] == '+' {
        if all_digits(s.drop_first()) {
            Some(digits_value(s.drop_first()))
        } else {
            None
        }
    } else if s[0] == '-' && signed {
        if all_digits(s.drop_first()) {
            Some(-digits_value(s.drop_first()))
        } else {
            None
        }
    } else if all_digits(s) {
        Some(digits_value(s))
    } else {
        None
    }
}

proof fn lemma_digits_value_bound(s: Seq<char>)
    requires
        all_digits(s),
    ensures
        0 <= digits_value(s) < pow10(s.len()),
    decreases s.len(),
{
    if s.len() > 0 {
        assert(all_digits(s.drop_last())) by {
            assert forall|i: int| 0 <= i < s.drop_last().len() implies is_digit(
                #[trigger] s.drop_last()[i],
            ) by {
                assert(s.drop_last()[i] == s[i]);
            }
        }
        lemma_digits_value_bound(s.drop_last());
        assert(is_digit(s[s.len() - 1]));
    }
}

pub open spec fn pow10(n: nat) -> int
    decreases n,
{
    if n == 0 {
        1
    } else {
        10 * pow10((n - 1) as nat)
    }
}

fn digits_value_exec(v: &Vec<char>, start: usize) -> (r: i64)
    requires
        start <= v.len() <= start + 4,
        all_digits(v@.subrange(start as int, v.len() as int)),
    ensures
        r == digits_value(v@.subrange(start as int, v.len() as int)),
        0 <= r < 10000,
{
    proof {
        reveal_with_fuel(pow10, 5);
    }
    let mut r: i64 = 0;
    let mut i = start;
    assert(v@.subrange(start as int, start as int) =~= Seq::<char>::empty());
    while i < v.len()
        invariant
            start <= i <= v.len() <= start + 4,
            all_digits(v@.subrange(start as int, v.len() as int)),
            r == digits_value(v@.subrange(start as int, i as int)),
            0 <= r < pow10((i - start) as nat),
        decreases v.len() - i,
    {
        let ghost part = v@.subrange(start as int, i + 1);
        assert(part.drop_last() =~= v@.subrange(start as int, i as int));
        assert(part.last() == v@[i as int]);
        assert(is_digit(v@[i as int])) by {
            assert(v@[i as int] == v@.subrange(start as int, v.len() as int)[i - start]);
        }
        assert(pow10((i + 1 - start) as nat) == 10 * pow10((i - start) as nat));
        assert(pow10(0) == 1 && pow10(1) == 10 && pow10(2) == 100 && pow10(3) == 1000);
        assert(pow10((i - start) as nat) <= 1000) by {
            let n = (i - start) as nat;
            assert(n == 0 || n == 1 || n == 2 || n == 3);
        }
        r = r * 10 + ((v[i] as u32) - ('0' as u32)) as i64;
        i += 1;
    }
    assert(pow10(4) == 10000);
    assert(pow10(3) == 1000);
    assert(pow10(2) == 100);
    assert(pow10(1) == 10);
    r
}

fn is_all_digits(v: &Vec<char>, start: usize) -> (b: bool)
    requires
        start <= v.len(),
    ensures
        b == all_digits(v@.subrange(start as int, v.len() as int)),
{
    let mut i = start;
    while i < v.len()
        invariant
            start <= i <= v.len(),
            forall|k: int| start <= k < i ==> is_digit(#[trigger] v@[k]),
        decreases v.len() - i,
    {
        if !('0' <= v[i] && v[i] <= '9') {
            assert(!is_digit(v@.subrange(start as int, v.len() as int)[i - start]));
            return false;
        }
        i += 1;
    }
    assert forall|k: int| 0 <= k < v.len() - start implies is_digit(
        #[trigger] v@.subrange(start as int, v.len() as int)[k],
    ) by {
        assert(v@.subrange(start as int, v.len() as int)[k] == v@[start + k]);
    }
    true
}

/// `str::parse` of an integer of at most four characters.
pub fn parse_small_int(v: &Vec<char>, signed: bool) -> (r: Option<i64>)
    requires
        v.len() <= 4,
    ensures
        match parse_int(v@, signed) {
            Some(x) => r == Some(x as i64) && -10000 < x < 10000 && (!signed ==> x >= 0),
            None => r is None,
        },
{
    if v.len() == 0 {
        return None;
    }
    if (v[0] == '+' || v[0] == '-') && v.len() == 1 {
        return None;
    }
    if v[0] == '+' || (v[0] == '-' && signed) {
        assert(v@.subrange(1, v.len() as int) =~= v@.drop_first());
        if is_all_digits(v, 1) {
            let x = digits_value_exec(v, 1);
            if v[0] == '+' {
                Some(x)
            } else {
                Some(-x)
            }
        } else {
            None
        }
    } else {
        assert(v@.subrange(0, v.len() as int) =~= v@);
        if is_all_digits(v, 0) {
            Some(digits_value_exec(v, 0))
        } else {
            None
        }
    }
}

/// The index of the character that starts at byte `b` of `s`; `None` if `b` falls inside a
/// character or past the end.
pub open spec fn char_at_byte(s: Seq<char>, b: int) -> Option<int>
    decreases s.len(),
{
    if b == 0 {
        Some(0)
    } else if s.len() == 0 || utf8_width(s[0]) > b {
        None
    } else {
        match char_at_byte(s.drop_first(), b - utf8_width(s[0])) {
            Some(k) => Some(k + 1),
            None => None,
        }
    }
}

/// `&s[a..b]` for byte offsets `a <= b`; `None` where slicing panics.
pub open spec fn byte_slice(s: Seq<char>, a: int, b: int) -> Option<Seq<char>> {
    match (char_at_byte(s, a), char_at_byte(s, b)) {
        (Some(i), Some(j)) => if i <= j {
            Some(s.subrange(i, j))
        } else {
            None
        },
        _ => None,
    }
}

proof fn lemma_char_at_byte_bound(s: Seq<char>, b: int)
    ensures
        char_at_byte(s, b) matches Some(k) ==> 0 <= k <= s.len(),
    decreases s.len(),
{
    if b != 0 && s.len() > 0 && utf8_width(s[0]) <= b {
        lemma_char_at_byte_bound(s.drop_first(), b - utf8_width(s[0]));
    }
}

fn char_index_at_byte(v: &Vec<char>, b: usize) -> (r: Option<usize>)
    ensures
        match char_at_byte(v@, b as int) {
            Some(k) => r == Some(k as usize) && 0 <= k <= v.len(),
            None => r is None,
        },
{
    let mut i: usize = 0;
    let mut rem: usize = b;
    proof {
        assert(v@.subrange(0, v.len() as int) =~= v@);
        lemma_char_at_byte_bound(v@, b as int);
    }
    while rem > 0
        invariant
            i <= v.len(),
            rem <= b,
            match char_at_byte(v@.subrange(i as int, v.len() as int), rem as int) {
                Some(k) => char_at_byte(v@, b as int) == Some(k + i),
                None => char_at_byte(v@, b as int) is None,
            },
        decreases rem,
    {
        let ghost rest = v@.subrange(i as int, v.len() as int);
        if i >= v.len() {
            return None;
        }
        let w = char_width(v[i]);
        assert(rest[0] == v@[i as int]);
        if w > rem {
            return None;
        }
        assert(rest.drop_first() =~= v@.subrange(i + 1, v.len() as int));
        rem = rem - w;
        i = i + 1;
    }
    proof {
        lemma_char_at_byte_bound(v@, b as int);
    }
    Some(i)
}

fn byte_slice_exec(v: &Vec<char>, a: usize, b: usize) -> (r: Option<Vec<char>>)
    ensures
        match byte_slice(v@, a as int, b as int) {
            Some(x) => r is Some && r->0@ == x,
            None => r is None,
        },
{
    let i = char_index_at_byte(v, a);
    let j = char_index_at_byte(v, b);
    match (i, j) {
        (Some(i), Some(j)) => {
            if i <= j {
                let mut out: Vec<char> = Vec::new();
                let mut k = i;
                assert(out@ =~= v@.subrange(i as int, k as int));
                while k < j
                    invariant
                        i <= k <= j <= v.len(),
                        out@ == v@.subrange(i as int, k as int),
                    decreases j - k,
                {
                    out.push(v[k]);
                    k += 1;
                    assert(out@ =~= v@.subrange(i as int, k as int));
                }
                Some(out)
            } else {
                None
            }
        },
        _ => None,
    }
}

// ── Timestamps ─────────────────────────────────────────────────────

/// One numeric field `&t[a..b]` of a timestamp: `None` where slicing panics, `Some(None)` where
/// the text is not a number, else the number.
pub open spec fn timestamp_field(t: Seq<char>, a: int, b: int, signed: bool) -> Option<
    Option<int>,
> {
    match byte_slice(t, a, b) {
        None => None,
        Some(x) => Some(parse_int(x, signed)),
    }
}

/// What parsing an RFC 3339 timestamp (`YYYY-MM-DDTHH:MM:SS...`, fields taken by byte offset)
/// gives: `None` where taking a field by byte offset or the day arithmetic fails, `Some(None)` where the text is
/// not a timestamp, else the seconds since 1970-01-01.
pub open spec fn timestamp_outcome(s: Seq<char>) -> Option<Option<int>> {
    let t = trim(s);
    if utf8_len(t) < 19 {
        Some(None)
    } else {
        match timestamp_field(t, 0, 4, true) {
            None => None,
            Some(None) => Some(None),
            Some(Some(year)) => match timestamp_field(t, 5, 7, false) {
                None => None,
                Some(None) => Some(None),
                Some(Some(month)) => match timestamp_field(t, 8, 10, false) {
                    None => None,
                    Some(None) => Some(None),
                    Some(Some(day)) => match timestamp_field(t, 11, 13, false) {
                        None => None,
                        Some(None) => Some(None),
                        Some(Some(hour)) => match timestamp_field(t, 14, 16, false) {
                            None => None,
                            Some(None) => Some(None),
                            Some(Some(min)) => match timestamp_field(t, 17, 19, false) {
                                None => None,
                                Some(None) => Some(None),
                                Some(Some(sec)) => if !(1 <= month <= 12 && 1 <= day <= 31) {
                                    Some(None)
                                } else if days_from_civil(year, month, day) < 0 {
                                    None
                                } else {
                                    Some(
                                        Some(
                                            days_from_civil(year, month, day) * 86400 + hour * 3600
                                                + min * 60 + sec,
                                        ),
                                    )
                                },
                            },
                        },
                    },
                },
            },
        }
    }
}

proof fn lemma_byte_slice_len(t: Seq<char>, a: int, b: int)
    requires
        0 <= a <= b,
    ensures
        byte_slice(t, a, b) matches Some(x) ==> x.len() <= b - a,
{
    lemma_char_at_byte_len(t, a);
    lemma_char_at_byte_len(t, b);
    if let (Some(i), Some(j)) = (char_at_byte(t, a), char_at_byte(t, b)) {
        lemma_char_at_byte_bound(t, a);
        lemma_char_at_byte_bound(t, b);
        if i <= j {
            crate::text::lemma_utf8_len_monotone(t, i, j);
        }
    }
}

proof fn lemma_char_at_byte_len(s: Seq<char>, b: int)
    ensures
        char_at_byte(s, b) matches Some(k) ==> utf8_len(s.take(k)) == b,
    decreases s.len(),
{
    if b == 0 {
        assert(s.take(0) =~= Seq::<char>::empty());
    } else if s.len() > 0 && utf8_width(s[0]) <= b {
        let w = utf8_width(s[0]);
        lemma_char_at_byte_len(s.drop_first(), b - w);
        lemma_char_at_byte_bound(s.drop_first(), b - w);
        if let Some(k) = char_at_byte(s.drop_first(), b - w) {
            let p = s.take(k + 1);
            crate::store::lemma_utf8_len_front(p);
            assert(p.drop_first() =~= s.drop_first().take(k));
        }
    }
}

fn field(t: &Vec<char>, a: usize, b: usize, signed: bool) -> (r: Option<Option<i64>>)
    requires
        a + 4 >= b,
        a <= b,
    ensures
        match timestamp_field(t@, a as int, b as int, signed) {
            None => r is None,
            Some(None) => r == Some(None::<i64>),
            Some(Some(x)) => r == Some(Some(x as i64)) && -10000 < x < 10000 && (!signed ==> x >= 0),
        },
{
    match byte_slice_exec(t, a, b) {
        None => None,
        Some(x) => {
            proof {
                lemma_byte_slice_len(t@, a as int, b as int);
            }
            Some(parse_small_int(&x, signed))
        },
    }
}


/// The outcome of parsing a timestamp: `None` where parsing cannot proceed (see
/// `timestamp_outcome`).
pub fn timestamp_outcome_exec(s: &str) -> (r: Option<Option<u64>>)
    ensures
        match timestamp_outcome(s@) {
            None => r is None,
            Some(None) => r == Some(None::<u64>),
            Some(Some(x)) => r == Some(Some(x as u64)) && 0 <= x <= u64::MAX,
        },
{
    let all = chars_of(s);
    let t = trim_chars(&all);
    if utf8_len_capped(&t, 19) < 19 {
        return Some(None);
    }
    let year = match field(&t, 0, 4, true) {
        None => return None,
        Some(None) => return Some(None),
        Some(Some(x)) => x,
    };
    let month = match field(&t, 5, 7, false) {
        None => return None,
        Some(None) => return Some(None),
        Some(Some(x)) => x,
    };
    let day = match field(&t, 8, 10, false) {
        None => return None,
        Some(None) => return Some(None),
        Some(Some(x)) => x,
    };
    let hour = match field(&t, 11, 13, false) {
        None => return None,
        Some(None) => return Some(None),
        Some(Some(x)) => x,
    };
    let min = match field(&t, 14, 16, false) {
        None => return None,
        Some(None) => return Some(None),
        Some(Some(x)) => x,
    };
    let sec = match field(&t, 17, 19, false) {
        None => return None,
        Some(None) => return Some(None),
        Some(Some(x)) => x,
    };
    let days = match days_from_epoch(year as i32, month as u32, day as u32) {
        None => return Some(None),
        Some(d) => d,
    };
    if days < 0 {
        return None;
    }
    proof {
        lemma_days_from_civil_bound(year as int, month as int, day as int);
    }
    let total = (days as u64) * 86400 + (hour as u64) * 3600 + (min as u64) * 60 + sec as u64;
    Some(Some(total))
}

proof fn lemma_days_from_civil_bound(y: int, m: int, d: int)
    requires
        -10000 < y < 10000,
        1 <= m <= 12,
        1 <= d <= 31,
    ensures
        days_from_civil(y, m, d) < 4000000,
{
}

/// Whether parsing `s` as a timestamp cannot proceed (a byte offset inside a character, or
/// a date before 1970 whose day count cannot be made unsigned).
pub fn timestamp_unreadable(s: &str) -> (b: bool)
    ensures
        b == (timestamp_outcome(s@) is None),
{
    timestamp_outcome_exec(s).is_none()
}

/// The seconds since 1970-01-01 that a timestamp text stands for; `None` for a text that is not
/// a timestamp, including one whose fields cannot be taken by byte offset or whose date lies
/// before 1970.
pub open spec fn timestamp_value(s: Seq<char>) -> Option<int> {
    match timestamp_outcome(s) {
        Some(Some(x)) => Some(x),
        _ => None,
    }
}

/// Parse an RFC 3339 timestamp to seconds since 1970-01-01 (only seconds precision); any text
/// that cannot be read as one gives `None`.
pub fn parse_timestamp(s: &str) -> (r: Option<u64>)
    ensures
        match timestamp_value(s@) {
            None => r is None,
            Some(x) => r == Some(x as u64) && 0 <= x <= u64::MAX,
        },
{
    match timestamp_outcome_exec(s) {
        Some(x) => x,
        None => None,
    }
}


// ── Formatting ─────────────────────────────────────────────────────

/// The decimal digit of a value below 10.
pub open spec fn digit_char(v: int) -> char {
    ('0' as int + v) as char
}

/// The decimal digits of `n`, without leading zeros.
pub open spec fn dec_digits(n: nat) -> Seq<char>
    decreases n,
{
    if n < 10 {
        seq![digit_char(n as int)]
    } else {
        dec_digits(n / 10).push(digit_char(n as int % 10))
    }
}

/// `n` in decimal, zero-padded on the left to `w` characters (`{:0w}`).
pub open spec fn zero_padded(n: nat, w: nat) -> Seq<char> {
    let d = dec_digits(n);
    if d.len() < w {
        Seq::new((w - d.len()) as nat, |i: int| '0') + d
    } else {
        d
    }
}

/// A signed `n` as `{:0w}` writes it: a minus sign counts toward the width.
pub open spec fn signed_padded(n: int, w: nat) -> Seq<char> {
    if n < 0 {
        seq!['-'] + zero_padded((-n) as nat, if w > 0 {
            (w - 1) as nat
        } else {
            0
        })
    } else {
        zero_padded(n as nat, w)
    }
}

pub(crate) fn push_dec(out: &mut Vec<char>, n: u64)
    ensures
        final(out)@ == old(out)@ + dec_digits(n as nat),
    decreases n,
{
    if n >= 10 {
        push_dec(out, n / 10);
    }
    let d: u8 = (n % 10) as u8;
    let c: char = (d + 48) as char;
    out.push(c);
    proof {
        assert(c == digit_char((n % 10) as int));
        if n >= 10 {
            assert(dec_digits(n as nat) == dec_digits((n / 10) as nat).push(digit_char(
                (n % 10) as int,
            )));
        }
    }
    assert(final(out)@ =~= old(out)@ + dec_digits(n as nat));
}

pub(crate) fn push_padded(out: &mut Vec<char>, n: i64, w: usize)
    requires
        n > i64::MIN,
        w <= 8,
    ensures
        final(out)@ == old(out)@ + signed_padded(n as int, w as nat),
{
    let mut digits: Vec<char> = Vec::new();
    let m: u64 = if n < 0 {
        (-n) as u64
    } else {
        n as u64
    };
    push_dec(&mut digits, m);
    assert(digits@ =~= dec_digits(m as nat));
    let ghost start = old(out)@;
    let width = if n < 0 {
        out.push('-');
        if w > 0 {
            w - 1
        } else {
            0
        }
    } else {
        w
    };
    let ghost mid = out@;
    let mut k: usize = digits.len();
    while k < width
        invariant
            digits@ == dec_digits(m as nat),
            k <= width || k == digits.len(),
            digits.len() <= k,
            out@ == mid + Seq::new((k - digits.len()) as nat, |i: int| '0'),
        decreases width - k,
    {
        out.push('0');
        k += 1;
        assert(out@ =~= mid + Seq::new((k - digits.len()) as nat, |i: int| '0'));
    }
    let mut j: usize = 0;
    let ghost pad = out@;
    while j < digits.len()
        invariant
            j <= digits.len(),
            out@ == pad + digits@.take(j as int),
        decreases digits.len() - j,
    {
        out.push(digits[j]);
        j += 1;
        assert(out@ =~= pad + digits@.take(j as int));
    }
    assert(digits@.take(digits.len() as int) =~= digits@);
    proof {
        let d = dec_digits(m as nat);
        if d.len() < width {
            assert(Seq::new((width - d.len()) as nat, |i: int| '0') + d =~= out@.subrange(
                mid.len() as int,
                out@.len() as int,
            ));
        } else {
            assert(Seq::new(0, |i: int| '0') + d =~= d);
            assert(k == d.len());
        }
        assert(out@ =~= start + signed_padded(n as int, w as nat));
    }
}

/// The ISO 8601 text (`YYYY-MM-DDTHH:MM:SSZ`) of a count of seconds since 1970-01-01; the
/// year is narrowed to `i32`.
pub open spec fn iso8601_text(secs: nat) -> Seq<char> {
    let days = secs / 86400;
    let rem = secs % 86400;
    let date = civil_from_days(days as int);
    date_text((date.0 as i32) as int, (date.1 as u32) as int, (date.2 as u32) as int) + seq!['T']
        + time_text((rem / 3600) as int, ((rem % 3600) / 60) as int, (rem % 60) as int)
}

/// `YYYY-MM-DD`.
pub open spec fn date_text(y: int, m: int, d: int) -> Seq<char> {
    signed_padded(y, 4) + seq!['-'] + signed_padded(m, 2) + seq!['-'] + signed_padded(d, 2)
}

/// `HH:MM:SSZ`.
pub open spec fn time_text(h: int, m: int, s: int) -> Seq<char> {
    signed_padded(h, 2) + seq![':'] + signed_padded(m, 2) + seq![':'] + signed_padded(s, 2) + seq![
        'Z',
    ]
}

fn push_date(out: &mut Vec<char>, y: i32, m: u32, d: u32)
    ensures
        final(out)@ == old(out)@ + date_text(y as int, m as int, d as int),
{
    push_padded(out, y as i64, 4);
    out.push('-');
    push_padded(out, m as i64, 2);
    out.push('-');
    push_padded(out, d as i64, 2);
    assert(final(out)@ =~= old(out)@ + date_text(y as int, m as int, d as int));
}

fn push_time(out: &mut Vec<char>, h: u64, m: u64, s: u64)
    requires
        h < 24,
        m < 60,
        s < 60,
    ensures
        final(out)@ == old(out)@ + time_text(h as int, m as int, s as int),
{
    push_padded(out, h as i64, 2);
    out.push(':');
    push_padded(out, m as i64, 2);
    out.push(':');
    push_padded(out, s as i64, 2);
    out.push('Z');
    assert(final(out)@ =~= old(out)@ + time_text(h as int, m as int, s as int));
}

/// The ISO 8601 text of `secs` seconds since 1970-01-01.
pub fn format_iso8601(secs: u64) -> (s: String)
    ensures
        s@ == iso8601_text(secs as nat),
{
    let days = secs / 86400;
    let rem = secs % 86400;
    let hours = rem / 3600;
    let rem2 = rem % 3600;
    let mins = rem2 / 60;
    let sec = rem2 % 60;
    assert(hours < 24 && mins < 60 && sec < 60) by (nonlinear_arith)
        requires
            rem < 86400,
            hours == rem / 3600,
            rem2 == rem % 3600,
            mins == rem2 / 60,
            sec == rem2 % 60,
    ;
    let (year, month, day) = date_from_days(days as i64);
    let mut out: Vec<char> = Vec::new();
    push_date(&mut out, year, month, day);
    let ghost date_part = out@;
    out.push('T');
    push_time(&mut out, hours, mins, sec);
    proof {
        assert(out@ =~= date_part + seq!['T'] + time_text(hours as int, mins as int, sec as int));
        lemma_iso_parts(secs as nat, year, month, day);
    }
    string_from_chars(&out)
}

proof fn lemma_iso_parts(n: nat, y: i32, mo: u32, d: u32)
    requires
        (y, mo, d) == ((civil_from_days((n / 86400) as int).0 as i32), (civil_from_days(
            (n / 86400) as int,
        ).1 as u32), (civil_from_days((n / 86400) as int).2 as u32)),
    ensures
        iso8601_text(n) == date_text(y as int, mo as int, d as int) + seq!['T'] + time_text(
            ((n % 86400) / 3600) as int,
            (((n % 86400) % 3600) / 60) as int,
            ((n % 86400) % 60) as int,
        ),
{
}

#[verifier::external_type_specification]
#[verifier::external_body]
pub struct ExSystemTime(std::time::SystemTime);

/// `SystemTime::now`: the system clock's current time. What it returns depends on the clock, so
/// nothing is stated of it.
#[verifier::external_body]
fn system_now() -> std::time::SystemTime {
    std::time::SystemTime::now()
}

/// `SystemTime::duration_since(UNIX_EPOCH)` in whole seconds, 0 where `t` lies before
/// 1970-01-01. A `SystemTime` is opaque here, so nothing is stated of the count.
#[verifier::external_body]
fn secs_since_epoch(t: &std::time::SystemTime) -> u64 {
    match t.duration_since(std::time::SystemTime::UNIX_EPOCH) {
        Ok(d) => d.as_secs(),
        Err(_) => 0,
    }
}

/// The current time in whole seconds since 1970-01-01 (0 if the clock is before then).
fn unix_now_secs() -> u64 {
    let now = system_now();
    secs_since_epoch(&now)
}

/// The current time as ISO 8601 text.
pub fn now_iso8601() -> (s: String)
    ensures
        exists|t: u64| s@ == iso8601_text(t as nat),
{
    let t = unix_now_secs();
    format_iso8601(t)
}

// ── Cache ──────────────────────────────────────────────────────────

/// How long a cached answer of the update check is trusted, in seconds (7 days).
pub const CACHE_TTL_SECS: u64 = 604800;

/// The cached answer of the last update check.
pub struct UpdateCache {
    pub last_checked_at: String,
    pub latest_version: String,
}

/// Whether a cache checked at `last_checked_at` is still valid at `now`: its timestamp parses,
/// is not in the future, and is less than `CACHE_TTL_SECS` old.
pub open spec fn cache_valid_at(last_checked_at: Seq<char>, now: int) -> bool {
    match timestamp_value(last_checked_at) {
        None => false,
        Some(t) => t <= now && now - t < CACHE_TTL_SECS,
    }
}

/// Whether `cache` is still valid at the time `now_secs`.
pub fn cache_valid_at_time(cache: &UpdateCache, now_secs: u64) -> (b: bool)
    ensures
        b == cache_valid_at(cache.last_checked_at@, now_secs as int),
{
    match parse_timestamp(cache.last_checked_at.as_str()) {
        None => false,
        Some(t) => t <= now_secs && now_secs - t < CACHE_TTL_SECS,
    }
}

/// Whether `cache` is still valid now.
pub fn is_cache_valid(cache: &UpdateCache) -> (b: bool)
    ensures
        timestamp_value(cache.last_checked_at@) is None ==> !b,
        exists|now: u64| b == cache_valid_at(cache.last_checked_at@, now as int),
{
    let now = unix_now_secs();
    cache_valid_at_time(cache, now)
}

// ── Versions ───────────────────────────────────────────────────────

/// Whether `semver::Version::parse` accepts the text.
pub uninterp spec fn semver_valid(s: Seq<char>) -> bool;

/// Whether the version parsed from `a` is greater than the one parsed from `b` (semver order).
pub uninterp spec fn semver_greater(a: Seq<char>, b: Seq<char>) -> bool;

/// Whether two version texts parse, and whether the first is the greater version.
pub struct VersionCheck {
    pub latest_valid: bool,
    pub current_valid: bool,
    pub newer: bool,
}

/// Parses both texts with `semver::Version::parse` and, when both parse, compares them with
/// `>`. Which texts parse and which versions are greater are functions of the texts; of the
/// order it states only that a version is not greater than itself.
#[verifier::external_body]
fn version_check(latest: &str, current: &str) -> (r: VersionCheck)
    ensures
        r.latest_valid == semver_valid(latest@),
        r.current_valid == semver_valid(current@),
        r.newer == (semver_valid(latest@) && semver_valid(current@) && semver_greater(
            latest@,
            current@,
        )),
        latest@ == current@ ==> !r.newer,
{
    let l = semver::Version::parse(latest);
    let c = semver::Version::parse(current);
    let (latest_valid, current_valid) = (l.is_ok(), c.is_ok());
    let newer = match (l, c) {
        (Ok(l), Ok(c)) => l > c,
        _ => false,
    };
    VersionCheck { latest_valid, current_valid, newer }
}

/// Whether `latest` and `current` parse as versions, and whether `latest` is the greater one.
pub fn check_versions(latest: &str, current: &str) -> (r: VersionCheck)
    ensures
        r.latest_valid == semver_valid(latest@),
        r.current_valid == semver_valid(current@),
        r.newer == is_update(current@, latest@),
        latest@ == current@ ==> !r.newer,
{
    version_check(latest, current)
}

/// A newer release than the running one.
pub struct UpdateInfo {
    pub current: String,
    pub latest: String,
}

/// Whether `latest` is a valid version greater than the valid version `current`.
pub open spec fn is_update(current: Seq<char>, latest: Seq<char>) -> bool {
    semver_valid(latest) && semver_valid(current) && semver_greater(latest, current)
}

/// The update from `current` to `latest`, if `latest` is newer.
pub fn update_info(current: &str, latest: &str) -> (r: Option<UpdateInfo>)
    ensures
        r is Some == is_update(current@, latest@),
        r matches Some(i) ==> i.current@ == current@ && i.latest@ == latest@,
        current@ == latest@ ==> r is None,
{
    if version_check(latest, current).newer {
        Some(UpdateInfo { current: String::from_str(current), latest: String::from_str(latest) })
    } else {
        None
    }
}

/// The update check is skipped when it is turned off (`CHROMAPORT_NO_UPDATE_CHECK`), in CI
/// (`CI`), or when stderr is not a terminal.
pub fn skip_update_check(opted_out: bool, in_ci: bool, stderr_is_terminal: bool) -> (b: bool)
    ensures
        b == (opted_out || in_ci || !stderr_is_terminal),
{
    opted_out || in_ci || !stderr_is_terminal
}

/// What the update check does next.
pub enum UpdateStep {
    /// The check is over, with this answer.
    Done(Option<UpdateInfo>),
    /// The cache cannot answer: ask GitHub for the latest version.
    Fetch,
}

/// What the update check does at the time `now`: skipped checks answer `None`; a cache valid at
/// `now` answers from its latest version (`Some` exactly when that version is newer than
/// `current`); no cache, a stale one, or one whose timestamp cannot be read means fetching.
pub open spec fn update_step_at(
    r: UpdateStep,
    skip: bool,
    current: Seq<char>,
    cache: Option<UpdateCache>,
    now: int,
) -> bool {
    if skip {
        r matches UpdateStep::Done(None)
    } else {
        match cache {
            None => r is Fetch,
            Some(c) => if cache_valid_at(c.last_checked_at@, now) {
                r matches UpdateStep::Done(info) && (info is Some == is_update(
                    current,
                    c.latest_version@,
                )) && (info matches Some(i) ==> i.current@ == current && i.latest@
                    == c.latest_version@)
            } else {
                r is Fetch
            },
        }
    }
}

/// The update check's next step at the time `now_secs` (seconds since 1970-01-01).
pub fn check_for_update_at(skip: bool, current: &str, cache: Option<UpdateCache>, now_secs: u64) -> (r:
    UpdateStep)
    ensures
        update_step_at(r, skip, current@, cache, now_secs as int),
{
    if skip {
        return UpdateStep::Done(None);
    }
    match cache {
        Some(c) => {
            if cache_valid_at_time(&c, now_secs) {
                UpdateStep::Done(update_info(current, c.latest_version.as_str()))
            } else {
                UpdateStep::Fetch
            }
        },
        None => UpdateStep::Fetch,
    }
}

/// Check for updates, respecting the skip conditions and the cache, at the current time (see
/// `update_step_at`): skipped checks answer `None`, no cache or an unreadable timestamp means
/// fetching, and otherwise the step is the one for the clock's reading.
pub fn check_for_update(skip: bool, current: &str, cache: Option<UpdateCache>) -> (r: UpdateStep)
    ensures
        exists|now: u64| update_step_at(r, skip, current@, cache, now as int),
        skip ==> r matches UpdateStep::Done(None),
        !skip && cache is None ==> r is Fetch,
        !skip && (cache matches Some(c) && timestamp_value(c.last_checked_at@) is None) ==> r is Fetch,
{
    if skip {
        let r = UpdateStep::Done(None);
        assert(update_step_at(r, skip, current@, cache, 0u64 as int));
        return r;
    }
    let now = unix_now_secs();
    let r = check_for_update_at(skip, current, cache, now);
    assert(update_step_at(r, skip, current@, cache, now as int));
    r
}

/// After fetching: the answer, and the cache to write (none when the fetch failed).
pub fn finish_update_check(current: &str, fetched: Option<String>) -> (r: (
    Option<UpdateInfo>,
    Option<UpdateCache>,
))
    ensures
        fetched is None ==> r.0 is None && r.1 is None,
        fetched matches Some(latest) ==> {
            &&& r.0 is Some == is_update(current@, latest@)
            &&& r.0 matches Some(i) ==> i.current@ == current@ && i.latest@ == latest@
            &&& r.1 matches Some(c) && c.latest_version@ == latest@ && exists|t: u64|
                c.last_checked_at@ == iso8601_text(t as nat)
        },
{
    match fetched {
        None => (None, None),
        Some(latest) => {
            let cache = UpdateCache {
                last_checked_at: now_iso8601(),
                latest_version: latest.clone(),
            };
            (update_info(current, latest.as_str()), Some(cache))
        },
    }
}

/// `tag` without a leading `v`.
pub fn strip_v_prefix(tag: &str) -> (r: &str)
    ensures
        r@ == (if tag@.len() > 0 && tag@[0] == 'v' {
            tag@.drop_first()
        } else {
            tag@
        }),
{
    let n = tag.unicode_len();
    if n > 0 && tag.get_char(0) == 'v' {
        let r = tag.substring_char(1, n);
        assert(r@ =~= tag@.drop_first());
        r
    } else {
        tag
    }
}

/// How chromaport was installed.
#[derive(Debug, Clone, Copy, PartialEq, Eq, Structural)]
pub enum InstallMethod {
    Homebrew,
    Cargo,
    Unknown,
}

/// The install method that the path of the running binary shows.
pub open spec fn install_method_of(path: Seq<char>) -> InstallMethod {
    if crate::text::contains(path, "/Cellar/"@) || crate::text::contains(path, "/homebrew/"@) {
        InstallMethod::Homebrew
    } else if crate::text::contains(path, "/.cargo/bin/"@) {
        InstallMethod::Cargo
    } else {
        InstallMethod::Unknown
    }
}

/// Classify the canonical path of the running binary.
pub fn classify_install_path(path: &str) -> (m: InstallMethod)
    ensures
        m == install_method_of(path@),
{
    let p = chars_of(path);
    if chars_contains(&p, &chars_of("/Cellar/")) || chars_contains(&p, &chars_of("/homebrew/")) {
        InstallMethod::Homebrew
    } else if chars_contains(&p, &chars_of("/.cargo/bin/")) {
        InstallMethod::Cargo
    } else {
        InstallMethod::Unknown
    }
}

} // verus!
