//! The timestamps the update check writes read back as themselves, so a freshly written cache is
//! valid for a week.
use vstd::prelude::*;
use crate::text::{is_digit, is_ws, trim, trim_end, trim_start, utf8_len, utf8_width};
use crate::update::{
    all_digits, byte_slice, char_at_byte, civil_from_days, date_text, days_from_civil,
    dec_digits, digit_char, digits_value, iso8601_text, parse_int, signed_padded, time_text,
    timestamp_field, timestamp_outcome, timestamp_value, zero_padded, cache_valid_at,
    update_step_at, UpdateCache, UpdateStep, CACHE_TTL_SECS,
};

verus! {

proof fn lemma_yoe_bounds(doe: int)
    requires
        0 <= doe < 146097,
    ensures
        0 <= (doe - doe / 1460 + doe / 36524 - doe / 146096) / 365 < 400,
{
    assert(0 <= doe / 1460 <= 100) by (nonlinear_arith)
        requires
            0 <= doe < 146097,
    ;
    assert(0 <= doe / 36524 <= 4) by (nonlinear_arith)
        requires
            0 <= doe < 146097,
    ;
    assert(doe / 146096 == 0 || (doe == 146096 && doe / 146096 == 1));
    assert(doe / 1460 >= doe / 36524) by (nonlinear_arith)
        requires
            0 <= doe,
    ;
    assert(doe - doe / 1460 + doe / 36524 - doe / 146096 < 146000) by (nonlinear_arith)
        requires
            0 <= doe < 146097,
            doe / 36524 <= 4,
            doe < 146096 ==> doe / 146096 == 0,
            doe == 146096 ==> doe / 146096 == 1,
            doe >= 146000 ==> doe / 1460 == 100,
            doe < 146000 ==> doe - doe / 1460 <= 145995,
    {
    }
}

/// The day count of the civil date of `n` days is `n` again; the month is 1 to 12 and the day
/// 1 to 31.
pub proof fn lemma_days_roundtrip(n: int)
    ensures
        days_from_civil(civil_from_days(n).0, civil_from_days(n).1, civil_from_days(n).2) == n,
        1 <= civil_from_days(n).1 <= 12,
        1 <= civil_from_days(n).2 <= 31,
        n >= 0 ==> civil_from_days(n).0 >= 1600,
{
    reveal(civil_from_days);
    let z = n + 719468;
    let era = z / 146097;
    let doe = z % 146097;
    lemma_yoe_bounds(doe);
    let yoe = (doe - doe / 1460 + doe / 36524 - doe / 146096) / 365;
    let doy = doe - (365 * yoe + yoe / 4 - yoe / 100);
    assert(0 <= doy < 366) by (nonlinear_arith)
        requires
            0 <= doe < 146097,
            0 <= yoe < 400,
            yoe == (doe - doe / 1460 + doe / 36524 - doe / 146096) / 365,
            doy == doe - (365 * yoe + yoe / 4 - yoe / 100),
    ;
    let mp = (5 * doy + 2) / 153;
    assert(0 <= mp < 12);
    let d = doy - (153 * mp + 2) / 5 + 1;
    assert(1 <= d <= 31);
    let m = if mp < 10 {
        mp + 3
    } else {
        mp - 9
    };
    let y = yoe + era * 400 + if m <= 2 {
        1int
    } else {
        0int
    };
    let yy = yoe + era * 400;
    assert(yy / 400 == era && yy % 400 == yoe) by (nonlinear_arith)
        requires
            yy == yoe + era * 400,
            0 <= yoe < 400,
    ;
    assert(z == era * 146097 + doe) by (nonlinear_arith)
        requires
            era == z / 146097,
            doe == z % 146097,
    ;
    if n >= 0 {
        assert(era >= 4) by (nonlinear_arith)
            requires
                z >= 719468,
                era == z / 146097,
        ;
    }
}

proof fn lemma_dec_digits(v: nat)
    ensures
        all_digits(dec_digits(v)),
        digits_value(dec_digits(v)) == v,
        dec_digits(v).len() >= 1,
        v < 10 ==> dec_digits(v).len() == 1,
        v < 100 ==> dec_digits(v).len() <= 2,
        v < 1000 ==> dec_digits(v).len() <= 3,
        v < 10000 ==> dec_digits(v).len() <= 4,
        v >= 10 ==> dec_digits(v).len() >= 2,
        v >= 100 ==> dec_digits(v).len() >= 3,
        v >= 1000 ==> dec_digits(v).len() >= 4,
    decreases v,
{
    let k = (v % 10) as int;
    assert(digit_char(k) as int == '0' as int + k);
    assert(is_digit(digit_char(k)));
    if v >= 10 {
        lemma_dec_digits(v / 10);
        let p = dec_digits(v / 10);
        let q = p.push(digit_char(k));
        assert(dec_digits(v) == q);
        assert(q.drop_last() =~= p);
        assert forall|i: int| 0 <= i < q.len() implies is_digit(#[trigger] q[i]) by {
            if i < p.len() {
                assert(q[i] == p[i]);
            }
        }
        assert(digits_value(q) == digits_value(p) * 10 + k);
        assert((v / 10) * 10 + v % 10 == v);
        assert(v < 100 ==> v / 10 < 10);
        assert(v < 1000 ==> v / 10 < 100);
        assert(v < 10000 ==> v / 10 < 1000);
        assert(v >= 100 ==> v / 10 >= 10);
        assert(v >= 1000 ==> v / 10 >= 100);
    } else {
        let q = seq![digit_char(k)];
        assert(dec_digits(v) == q);
        assert(q.drop_last() =~= Seq::<char>::empty());
        assert(digits_value(q.drop_last()) == 0);
        assert(q.last() == digit_char(k));
        assert(digits_value(q) == 0 * 10 + k);
    }
}

proof fn lemma_zeros_value(z: Seq<char>, t: Seq<char>)
    requires
        forall|i: int| 0 <= i < z.len() ==> #[trigger] z[i] == '0',
    ensures
        digits_value(z + t) == digits_value(t),
    decreases z.len() + t.len(),
{
    if t.len() > 0 {
        lemma_zeros_value(z, t.drop_last());
        assert((z + t).drop_last() =~= z + t.drop_last());
        assert((z + t).last() == t.last());
    } else if z.len() > 0 {
        assert(z + t =~= z);
        lemma_zeros_value(z.drop_last(), t);
        assert(z.drop_last() + t =~= z.drop_last());
        assert(z.last() == '0');
    } else {
        assert(z + t =~= t);
    }
}

/// A number written by `{:0w}` with at most `w` digits: `w` digits that read back as it.
proof fn lemma_padded(v: int, w: nat)
    requires
        0 <= v,
        dec_digits(v as nat).len() <= w,
    ensures
        signed_padded(v, w).len() == w,
        all_digits(signed_padded(v, w)),
        digits_value(signed_padded(v, w)) == v,
        w > 0 ==> is_digit(signed_padded(v, w)[0]),
{
    lemma_dec_digits(v as nat);
    let d = dec_digits(v as nat);
    let p = signed_padded(v, w);
    assert(p == zero_padded(v as nat, w));
    if d.len() < w {
        let z = Seq::new((w - d.len()) as nat, |i: int| '0');
        assert(p == z + d);
        lemma_zeros_value(z, d);
        assert forall|i: int| 0 <= i < p.len() implies is_digit(#[trigger] p[i]) by {
            if i < z.len() {
                assert(p[i] == '0');
            } else {
                assert(p[i] == d[i - z.len()]);
            }
        }
    } else {
        assert(p == d);
    }
}

/// In ASCII text, every byte offset up to the end starts a character.
proof fn lemma_ascii_bytes(s: Seq<char>, b: int)
    requires
        0 <= b <= s.len(),
        forall|i: int| 0 <= i < s.len() ==> (#[trigger] s[i] as u32) < 0x80,
    ensures
        char_at_byte(s, b) == Some(b),
    decreases b,
{
    if b > 0 {
        assert(utf8_width(s[0]) == 1);
        let r = s.drop_first();
        assert forall|i: int| 0 <= i < r.len() implies (#[trigger] r[i] as u32) < 0x80 by {
            assert(r[i] == s[i + 1]);
        }
        lemma_ascii_bytes(r, b - 1);
    }
}

/// A field of the written timestamp: `w` digits that `str::parse` reads back as `v`.
proof fn lemma_field(v: int, w: nat, signed: bool)
    requires
        0 <= v,
        w >= 1,
        dec_digits(v as nat).len() <= w,
    ensures
        signed_padded(v, w).len() == w,
        forall|i: int| 0 <= i < w ==> is_digit(#[trigger] signed_padded(v, w)[i]),
        parse_int(signed_padded(v, w), signed) == Some(v),
{
    lemma_padded(v, w);
    let p = signed_padded(v, w);
    assert(is_digit(p[0]));
    assert(p[0] != '+' && p[0] != '-');
}

/// The timestamp the update check writes for `secs` reads back as `secs`, for every time whose
/// year has at most four digits (a five-digit year no longer fits the fixed byte offsets).
pub proof fn law_timestamp_roundtrip(secs: nat)
    requires
        civil_from_days((secs / 86400) as int).0 <= 9999,
    ensures
        timestamp_value(iso8601_text(secs)) == Some(secs as int),
{
    let n = (secs / 86400) as int;
    let rem = (secs % 86400) as int;
    lemma_days_roundtrip(n);
    let date = civil_from_days(n);
    let y = date.0;
    let m = date.1;
    let d = date.2;
    assert((y as i32) as int == y);
    assert((m as u32) as int == m);
    assert((d as u32) as int == d);
    let h = rem / 3600;
    let mi = (rem % 3600) / 60;
    let sc = rem % 60;
    assert(0 <= h < 24 && 0 <= mi < 60 && 0 <= sc < 60 && rem == h * 3600 + mi * 60 + sc)
        by (nonlinear_arith)
        requires
            0 <= rem < 86400,
            h == rem / 3600,
            mi == (rem % 3600) / 60,
            sc == rem % 60,
    ;
    assert(secs == n * 86400 + rem) by (nonlinear_arith)
        requires
            n == secs / 86400,
            rem == secs % 86400,
    ;
    lemma_dec_digits(y as nat);
    lemma_dec_digits(m as nat);
    lemma_dec_digits(d as nat);
    lemma_dec_digits(h as nat);
    lemma_dec_digits(mi as nat);
    lemma_dec_digits(sc as nat);
    lemma_field(y, 4, true);
    lemma_field(m, 2, false);
    lemma_field(d, 2, false);
    lemma_field(h, 2, false);
    lemma_field(mi, 2, false);
    lemma_field(sc, 2, false);
    let py = signed_padded(y, 4);
    let pm = signed_padded(m, 2);
    let pd = signed_padded(d, 2);
    let ph = signed_padded(h, 2);
    let pmi = signed_padded(mi, 2);
    let ps = signed_padded(sc, 2);
    let t = iso8601_text(secs);
    assert(t == date_text(y, m, d) + seq!['T'] + time_text(h, mi, sc));
    assert(t =~= py + seq!['-'] + pm + seq!['-'] + pd + seq!['T'] + ph + seq![':'] + pmi + seq![
        ':',
    ] + ps + seq!['Z']);
    assert(t.len() == 20);
    assert(t.subrange(0, 4) =~= py);
    assert(t.subrange(5, 7) =~= pm);
    assert(t.subrange(8, 10) =~= pd);
    assert(t.subrange(11, 13) =~= ph);
    assert(t.subrange(14, 16) =~= pmi);
    assert(t.subrange(17, 19) =~= ps);
    assert forall|i: int| 0 <= i < t.len() implies (#[trigger] t[i] as u32) < 0x80 by {
        if i < 4 {
            assert(t[i] == py[i] && is_digit(py[i]));
        } else if 5 <= i < 7 {
            assert(t[i] == pm[i - 5] && is_digit(pm[i - 5]));
        } else if 8 <= i < 10 {
            assert(t[i] == pd[i - 8] && is_digit(pd[i - 8]));
        } else if 11 <= i < 13 {
            assert(t[i] == ph[i - 11] && is_digit(ph[i - 11]));
        } else if 14 <= i < 16 {
            assert(t[i] == pmi[i - 14] && is_digit(pmi[i - 14]));
        } else if 17 <= i < 19 {
            assert(t[i] == ps[i - 17] && is_digit(ps[i - 17]));
        }
    }
    assert(is_digit(t[0]));
    assert(!is_ws(t[0]));
    assert(trim_start(t) == t);
    assert(t.last() == 'Z');
    assert(trim_end(t) == t);
    assert(trim(t) == t);
    crate::ir::lemma_ascii_utf8_len(t);
    assert(utf8_len(t) == 20);
    lemma_ascii_bytes(t, 0);
    lemma_ascii_bytes(t, 4);
    lemma_ascii_bytes(t, 5);
    lemma_ascii_bytes(t, 7);
    lemma_ascii_bytes(t, 8);
    lemma_ascii_bytes(t, 10);
    lemma_ascii_bytes(t, 11);
    lemma_ascii_bytes(t, 13);
    lemma_ascii_bytes(t, 14);
    lemma_ascii_bytes(t, 16);
    lemma_ascii_bytes(t, 17);
    lemma_ascii_bytes(t, 19);
    assert(timestamp_field(t, 0, 4, true) == Some(Some(y)));
    assert(timestamp_field(t, 5, 7, false) == Some(Some(m)));
    assert(timestamp_field(t, 8, 10, false) == Some(Some(d)));
    assert(timestamp_field(t, 11, 13, false) == Some(Some(h)));
    assert(timestamp_field(t, 14, 16, false) == Some(Some(mi)));
    assert(timestamp_field(t, 17, 19, false) == Some(Some(sc)));
    assert(days_from_civil(y, m, d) == n);
    assert(timestamp_outcome(t) == Some(Some(n * 86400 + h * 3600 + mi * 60 + sc)));
}

/// A cache written at `secs` (its timestamp is `iso8601_text(secs)`, as `finish_update_check`
/// writes it) is valid at every time from `secs` until a week later.
pub proof fn law_fresh_cache_valid(secs: nat, now: int)
    requires
        civil_from_days((secs / 86400) as int).0 <= 9999,
        secs <= now < secs + CACHE_TTL_SECS,
    ensures
        cache_valid_at(iso8601_text(secs), now),
{
    law_timestamp_roundtrip(secs);
}

/// A fresh cache makes no request: within a week of writing a cache (its timestamp as
/// `finish_update_check` writes it), the update check answers from it rather than fetching.
pub proof fn law_fresh_cache_answers(
    r: UpdateStep,
    current: Seq<char>,
    cache: UpdateCache,
    secs: nat,
    now: int,
)
    requires
        cache.last_checked_at@ == iso8601_text(secs),
        civil_from_days((secs / 86400) as int).0 <= 9999,
        secs <= now < secs + CACHE_TTL_SECS,
        update_step_at(r, false, current, Some(cache), now),
    ensures
        r is Done,
{
    law_fresh_cache_valid(secs, now);
}

} // verus!
