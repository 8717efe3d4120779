//! The theme store: slugs made from theme names, date stamps, theme paths and links.
use vstd::prelude::*;
use crate::update::civil_from_days;
use crate::text::{
    ascii_lower, char_width, chars_of, lemma_utf8_len_push, string_from_chars, to_ascii_lowercase,
    utf8_len, utf8_width,
};

verus! {

/// Unicode `Alphabetic` or `Numeric`: what `char::is_alphanumeric` tests.
pub uninterp spec fn unicode_alphanumeric(c: char) -> bool;

/// `char::is_alphanumeric`; its result is `unicode_alphanumeric(c)`, a property of `c` alone.
/// Of it, this states what the Unicode `Alphabetic` and `Numeric` properties give in ASCII:
/// there, exactly the letters and digits are alphanumeric. Which other characters are is left
/// unsaid.
#[verifier::external_body]
fn is_alphanumeric(c: char) -> (b: bool)
    ensures
        b == unicode_alphanumeric(c),
        b == is_alnum(c),
{
    c.is_alphanumeric()
}

/// The longest slug, in bytes.
pub const MAX_SLUG_LENGTH: usize = 64;

/// Whether `char::is_alphanumeric` holds of `c`: in ASCII exactly the letters and digits,
/// elsewhere the Unicode `Alphabetic` or `Numeric` property.
pub open spec fn is_alnum(c: char) -> bool {
    if (c as int) < 128 {
        ('a' <= c && c <= 'z') || ('A' <= c && c <= 'Z') || ('0' <= c && c <= '9')
    } else {
        unicode_alphanumeric(c)
    }
}

/// A character of a slug: alphanumerics, `-` and `_` are kept (ASCII letters in lower case),
/// everything else becomes `-`.
pub open spec fn slug_char(c: char) -> char {
    if is_alnum(c) || c == '-' || c == '_' {
        ascii_lower(c)
    } else {
        '-'
    }
}

/// Runs of `-` collapsed to one; with `prev_hyphen`, a leading run is dropped.
pub open spec fn collapse_hyphens(s: Seq<char>, prev_hyphen: bool) -> Seq<char>
    decreases s.len(),
{
    if s.len() == 0 {
        seq![]
    } else if s[0] == '-' {
        (if prev_hyphen {
            seq![]
        } else {
            seq!['-']
        }) + collapse_hyphens(s.drop_first(), true)
    } else {
        seq![s[0]] + collapse_hyphens(s.drop_first(), false)
    }
}

/// `trim_end_matches('-')`.
pub open spec fn trim_end_hyphens(s: Seq<char>) -> Seq<char>
    decreases s.len(),
{
    if s.len() > 0 && s.last() == '-' {
        trim_end_hyphens(s.drop_last())
    } else {
        s
    }
}

/// The longest prefix of `s` whose UTF-8 encoding has at most `n` bytes.
pub open spec fn byte_prefix(s: Seq<char>, n: int) -> Seq<char>
    decreases s.len(),
{
    if s.len() == 0 || utf8_width(s[0]) > n {
        seq![]
    } else {
        seq![s[0]] + byte_prefix(s.drop_first(), n - utf8_width(s[0]))
    }
}

/// The slug of `name` before the length limit.
pub open spec fn slug_body(name: Seq<char>) -> Seq<char> {
    trim_end_hyphens(collapse_hyphens(name.map_values(|c: char| slug_char(c)), true))
}

/// The slug of `name`: `unnamed-theme` when nothing is left, else at most 64 bytes.
pub open spec fn slug_of(name: Seq<char>) -> Seq<char> {
    let body = slug_body(name);
    if body.len() == 0 {
        "unnamed-theme"@
    } else {
        byte_prefix(body, MAX_SLUG_LENGTH as int)
    }
}

proof fn lemma_byte_prefix_within(s: Seq<char>, n: int)
    ensures
        utf8_len(byte_prefix(s, n)) <= n || byte_prefix(s, n).len() == 0,
        utf8_len(s) <= n ==> byte_prefix(s, n) == s,
    decreases s.len(),
{
    if s.len() > 0 {
        lemma_utf8_len_front(s);
        if utf8_width(s[0]) <= n {
            lemma_byte_prefix_within(s.drop_first(), n - utf8_width(s[0]));
            lemma_utf8_len_front(byte_prefix(s, n));
            assert(byte_prefix(s, n).drop_first() =~= byte_prefix(s.drop_first(), n - utf8_width(
                s[0],
            )));
            if utf8_len(s) <= n {
                assert(seq![s[0]] + s.drop_first() =~= s);
            }
        }
    }
}

/// The UTF-8 length of a non-empty sequence counted from the front.
pub proof fn lemma_utf8_len_front(s: Seq<char>)
    requires
        s.len() > 0,
    ensures
        utf8_len(s) == utf8_width(s[0]) + utf8_len(s.drop_first()),
    decreases s.len(),
{
    if s.len() > 1 {
        lemma_utf8_len_front(s.drop_last());
        assert(s.drop_last().drop_first() =~= s.drop_first().drop_last());
    } else {
        assert(s.drop_last() =~= Seq::<char>::empty());
        assert(s.drop_first() =~= Seq::<char>::empty());
    }
}

/// The slug of `name` before the length limit.
fn slug_body_chars(name: &str) -> (body: Vec<char>)
    ensures
        body@ == slug_body(name@),
{
    let chars = chars_of(name);
    let ghost mapped = name@.map_values(|c: char| slug_char(c));
    // Map each character, and collapse runs of hyphens, treating the start as a hyphen.
    let mut collapsed: Vec<char> = Vec::new();
    let mut prev_hyphen = true;
    let mut i: usize = 0;
    assert(mapped.subrange(0, chars.len() as int) =~= mapped);
    while i < chars.len()
        invariant
            i <= chars.len(),
            chars@ == name@,
            mapped == name@.map_values(|c: char| slug_char(c)),
            collapsed@ + collapse_hyphens(mapped.subrange(i as int, chars.len() as int), prev_hyphen)
                == collapse_hyphens(mapped, true),
        decreases chars.len() - i,
    {
        let c = chars[i];
        let ch = if is_alphanumeric(c) || c == '-' || c == '_' {
            to_ascii_lowercase(c)
        } else {
            '-'
        };
        let ghost rest = mapped.subrange(i as int, chars.len() as int);
        let ghost old_col = collapsed@;
        let ghost old_prev = prev_hyphen;
        assert(rest[0] == ch);
        assert(rest.drop_first() =~= mapped.subrange(i + 1, chars.len() as int));
        if ch == '-' {
            if !prev_hyphen {
                collapsed.push('-');
            }
            prev_hyphen = true;
        } else {
            collapsed.push(ch);
            prev_hyphen = false;
        }
        proof {
            let tail = collapse_hyphens(rest.drop_first(), prev_hyphen);
            assert(collapse_hyphens(rest, old_prev) =~= (collapsed@.subrange(
                old_col.len() as int,
                collapsed@.len() as int,
            )) + tail);
            assert(collapsed@ =~= old_col + collapsed@.subrange(
                old_col.len() as int,
                collapsed@.len() as int,
            ));
            assert(collapsed@ + tail =~= old_col + collapse_hyphens(rest, old_prev));
        }
        i += 1;
    }
    assert(mapped.subrange(chars.len() as int, chars.len() as int) =~= Seq::<char>::empty());
    assert(collapsed@ =~= collapse_hyphens(mapped, true));
    // Strip trailing hyphens.
    let mut j: usize = collapsed.len();
    assert(collapsed@.take(j as int) =~= collapsed@);
    while j > 0 && collapsed[j - 1] == '-'
        invariant
            j <= collapsed.len(),
            trim_end_hyphens(collapsed@) == trim_end_hyphens(collapsed@.take(j as int)),
        decreases j,
    {
        assert(collapsed@.take(j as int).drop_last() =~= collapsed@.take(j - 1));
        j -= 1;
    }
    let ghost body = collapsed@.take(j as int);
    assert(trim_end_hyphens(body) == body);
    assert(body == slug_body(name@));
    let mut body: Vec<char> = Vec::new();
    let mut t: usize = 0;
    while t < j
        invariant
            j <= collapsed.len(),
            t <= j,
            body@ == collapsed@.take(t as int),
        decreases j - t,
    {
        body.push(collapsed[t]);
        t += 1;
        assert(body@ =~= collapsed@.take(t as int));
    }
    body
}

/// The longest prefix of `body` of at most `MAX_SLUG_LENGTH` bytes, with its byte length.
fn slug_prefix(body: &Vec<char>) -> (r: (Vec<char>, usize))
    ensures
        r.0@ == byte_prefix(body@, MAX_SLUG_LENGTH as int),
        r.1 == utf8_len(r.0@),
{
    let j = body.len();
    let mut out: Vec<char> = Vec::new();
    let mut used: usize = 0;
    let mut k: usize = 0;
    assert(body@.subrange(0, j as int) =~= body@);
    while k < j && char_width(body[k]) <= MAX_SLUG_LENGTH - used
        invariant
            k <= j == body.len(),
            used <= MAX_SLUG_LENGTH,
            used == utf8_len(out@),
            out@ + byte_prefix(body@.subrange(k as int, j as int), MAX_SLUG_LENGTH - used)
                == byte_prefix(body@, MAX_SLUG_LENGTH as int),
        decreases j - k,
    {
        let ghost rest = body@.subrange(k as int, j as int);
        assert(rest[0] == body@[k as int]);
        assert(rest.drop_first() =~= body@.subrange(k + 1, j as int));
        let w = char_width(body[k]);
        proof {
            lemma_utf8_len_push(out@, body@[k as int]);
        }
        out.push(body[k]);
        used = used + w;
        k += 1;
        proof {
            assert(byte_prefix(rest, MAX_SLUG_LENGTH - (used - w)) == seq![rest[0]] + byte_prefix(
                rest.drop_first(),
                MAX_SLUG_LENGTH - used,
            ));
            assert(out@ + byte_prefix(body@.subrange(k as int, j as int), MAX_SLUG_LENGTH - used)
                =~= out@.drop_last() + byte_prefix(rest, MAX_SLUG_LENGTH - (used - w)));
        }
    }
    assert(byte_prefix(body@.subrange(k as int, j as int), MAX_SLUG_LENGTH - used) =~= Seq::<
        char,
    >::empty());
    assert(out@ =~= byte_prefix(body@, MAX_SLUG_LENGTH as int));
    (out, used)
}

/// Generate a safe filesystem slug from a theme name; a slug longer than 64 bytes is cut at
/// the last character boundary at or below 64 bytes.
pub fn theme_slug(name: &str) -> (slug: String)
    ensures
        slug@ == slug_of(name@),
{
    let body = slug_body_chars(name);
    if body.len() == 0 {
        return String::from_str("unnamed-theme");
    }
    let (out, _) = slug_prefix(&body);
    string_from_chars(&out)
}


// ── Dates ──────────────────────────────────────────────────────────

/// Convert days since Unix epoch to (year, month, day).
#[verifier::spinoff_prover]
#[verifier::rlimit(40)]
pub fn days_to_ymd(days: i64) -> (r: (i64, u8, u8))
    requires
        days <= i64::MAX - 719468,
        days + 719468 - 146096 >= i64::MIN,
    ensures
        r == (civil_from_days(days as int).0 as i64, civil_from_days(days as int).1 as u8,
            civil_from_days(days as int).2 as u8),
{
    // Civil calendar algorithm from Howard Hinnant
    let z = days + 719468;
    // `(z - 146096) / 146097` for negative `z`, written on non-negative operands.
    let era = if z >= 0 {
        z / 146097
    } else {
        -((146096 - z) / 146097)
    };
    proof {
        lemma_floor_division(z as int);
        reveal(crate::update::civil_from_days);
    }
    let doe = (z - era * 146097) as u64;
    let yoe = (doe - doe / 1460 + doe / 36524 - doe / 146096) / 365;
    let y = yoe as i64 + era * 400;
    let doy = doe - (365 * yoe + yoe / 4 - yoe / 100);
    let mp = (5 * doy + 2) / 153;
    let d = (doy - (153 * mp + 2) / 5 + 1) as u8;
    let m = (if mp < 10 {
        mp + 3
    } else {
        mp - 9
    }) as u8;
    let y = if m <= 2 {
        y + 1
    } else {
        y
    };
    (y, m, d)
}

/// For a negative `z`, `-((146096 - z) / 146097)` is `z`'s floor division by 146097.
proof fn lemma_floor_division(z: int)
    ensures
        z < 0 ==> -((146096 - z) / 146097) == z / 146097,
{
    if z < 0 {
        let q = z / 146097;
        let r = z % 146097;
        assert(z == q * 146097 + r && 0 <= r < 146097);
        assert(146096 - z == (-q) * 146097 + (146096 - r)) by (nonlinear_arith)
            requires
                z == q * 146097 + r,
        ;
        assert((146096 - z) / 146097 == -q + (146096 - r) / 146097) by (nonlinear_arith)
            requires
                146096 - z == (-q) * 146097 + (146096 - r),
                0 <= 146096 - r,
        ;
        assert((146096 - r) / 146097 == 0);
    }
}

// ── Laws ───────────────────────────────────────────────────────────

/// A character that may stand in a slug: `-`, `_`, a lower-case ASCII letter, an ASCII digit,
/// or an alphanumeric that is not an upper-case ASCII letter.
pub open spec fn slug_ok_char(c: char) -> bool {
    ||| c == '-'
    ||| c == '_'
    ||| ('a' <= c && c <= 'z')
    ||| ('0' <= c && c <= '9')
    ||| (is_alnum(c) && !('A' <= c && c <= 'Z'))
}

/// No leading hyphen, no two hyphens in a row, and only slug characters.
pub open spec fn slug_shaped(s: Seq<char>) -> bool {
    &&& (s.len() > 0 ==> s[0] != '-')
    &&& forall|i: int| 0 <= i < s.len() - 1 ==> !(#[trigger] s[i] == '-' && s[i + 1] == '-')
    &&& forall|i: int| 0 <= i < s.len() ==> slug_ok_char(#[trigger] s[i])
}

proof fn lemma_collapse_shape(s: Seq<char>, prev: bool)
    requires
        forall|i: int| 0 <= i < s.len() ==> slug_ok_char(#[trigger] s[i]),
    ensures
        prev ==> slug_shaped(collapse_hyphens(s, prev)),
        forall|i: int|
            0 <= i < collapse_hyphens(s, prev).len() - 1 ==> !(#[trigger] collapse_hyphens(
                s,
                prev,
            )[i] == '-' && collapse_hyphens(s, prev)[i + 1] == '-'),
        forall|i: int|
            0 <= i < collapse_hyphens(s, prev).len() ==> slug_ok_char(
                #[trigger] collapse_hyphens(s, prev)[i],
            ),
    decreases s.len(),
{
    if s.len() > 0 {
        let rest = s.drop_first();
        assert forall|i: int| 0 <= i < rest.len() implies slug_ok_char(#[trigger] rest[i]) by {
            assert(rest[i] == s[i + 1]);
        }
        lemma_collapse_shape(rest, true);
        lemma_collapse_shape(rest, false);
        let r = collapse_hyphens(s, prev);
        if s[0] == '-' {
            let t = collapse_hyphens(rest, true);
            if prev {
                assert(r == t);
            } else {
                assert(r == seq!['-'] + t);
                assert forall|i: int| 0 <= i < r.len() - 1 implies !(#[trigger] r[i] == '-' && r[i
                    + 1] == '-') by {
                    if i > 0 {
                        assert(r[i] == t[i - 1] && r[i + 1] == t[i]);
                    }
                }
                assert forall|i: int| 0 <= i < r.len() implies slug_ok_char(#[trigger] r[i]) by {
                    if i > 0 {
                        assert(r[i] == t[i - 1]);
                    }
                }
            }
        } else {
            let t = collapse_hyphens(rest, false);
            assert(r == seq![s[0]] + t);
            assert forall|i: int| 0 <= i < r.len() - 1 implies !(#[trigger] r[i] == '-' && r[i
                + 1] == '-') by {
                if i > 0 {
                    assert(r[i] == t[i - 1] && r[i + 1] == t[i]);
                }
            }
            assert forall|i: int| 0 <= i < r.len() implies slug_ok_char(#[trigger] r[i]) by {
                if i > 0 {
                    assert(r[i] == t[i - 1]);
                }
            }
        }
    }
}

proof fn lemma_trim_end_hyphens(s: Seq<char>) -> (k: int)
    ensures
        0 <= k <= s.len(),
        trim_end_hyphens(s) == s.take(k),
        k > 0 ==> s[k - 1] != '-',
    decreases s.len(),
{
    if s.len() > 0 && s.last() == '-' {
        let k = lemma_trim_end_hyphens(s.drop_last());
        assert(s.drop_last().take(k) =~= s.take(k));
        k
    } else {
        assert(s.take(s.len() as int) =~= s);
        s.len() as int
    }
}

proof fn lemma_byte_prefix_is_prefix(s: Seq<char>, n: int) -> (k: int)
    ensures
        0 <= k <= s.len(),
        byte_prefix(s, n) == s.take(k),
    decreases s.len(),
{
    if s.len() == 0 || utf8_width(s[0]) > n {
        assert(s.take(0) =~= Seq::<char>::empty());
        0
    } else {
        let k = lemma_byte_prefix_is_prefix(s.drop_first(), n - utf8_width(s[0]));
        assert(seq![s[0]] + s.drop_first().take(k) =~= s.take(k + 1));
        k + 1
    }
}

proof fn lemma_shape_prefix(s: Seq<char>, k: int)
    requires
        slug_shaped(s),
        0 <= k <= s.len(),
    ensures
        slug_shaped(s.take(k)),
{
    let t = s.take(k);
    assert forall|i: int| 0 <= i < t.len() - 1 implies !(#[trigger] t[i] == '-' && t[i + 1]
        == '-') by {
        assert(t[i] == s[i] && t[i + 1] == s[i + 1]);
    }
    assert forall|i: int| 0 <= i < t.len() implies slug_ok_char(#[trigger] t[i]) by {
        assert(t[i] == s[i]);
    }
}

proof fn lemma_body_shape(name: Seq<char>)
    ensures
        slug_shaped(slug_body(name)),
        slug_body(name).len() > 0 ==> slug_body(name).last() != '-',
{
    let m = name.map_values(|c: char| slug_char(c));
    assert forall|i: int| 0 <= i < m.len() implies slug_ok_char(#[trigger] m[i]) by {
        let c = name[i];
        assert(m[i] == slug_char(c));
    }
    lemma_collapse_shape(m, true);
    let col = collapse_hyphens(m, true);
    let k = lemma_trim_end_hyphens(col);
    lemma_shape_prefix(col, k);
}

/// The slug of any name is non-empty, never starts with a hyphen, never holds two hyphens in a
/// row, and holds only `-`, `_`, lower-case ASCII letters, ASCII digits and other alphanumerics
/// that are not upper-case ASCII; a slug that was not cut at the length limit does not end with
/// a hyphen either (a cut one may).
pub proof fn law_slug_shape(name: Seq<char>)
    ensures
        slug_of(name).len() > 0,
        slug_shaped(slug_of(name)),
        utf8_len(slug_body(name)) <= MAX_SLUG_LENGTH ==> slug_of(name).last() != '-',
{
    reveal_strlit("unnamed-theme");
    lemma_body_shape(name);
    let body = slug_body(name);
    if body.len() > 0 {
        let k = lemma_byte_prefix_is_prefix(body, MAX_SLUG_LENGTH as int);
        lemma_shape_prefix(body, k);
        lemma_utf8_len_front(body);
        assert(utf8_width(body[0]) <= 4);
        assert(byte_prefix(body, MAX_SLUG_LENGTH as int).len() > 0);
        lemma_byte_prefix_within(body, MAX_SLUG_LENGTH as int);
    } else {
        let s = slug_of(name);
        assert(s.len() == 13);
        assert forall|i: int| 0 <= i < s.len() implies slug_ok_char(#[trigger] s[i]) by {
            assert(is_alnum(s[i]) || s[i] == '-');
        }
        assert forall|i: int| 0 <= i < s.len() - 1 implies !(#[trigger] s[i] == '-' && s[i + 1]
            == '-') by {}
    }
}

/// The slug of any name takes at most 64 bytes.
pub proof fn law_slug_length(name: Seq<char>)
    ensures
        utf8_len(slug_of(name)) <= MAX_SLUG_LENGTH,
{
    let body = slug_body(name);
    if body.len() == 0 {
        reveal_strlit("unnamed-theme");
        lemma_fallback_slug_ascii();
    } else {
        lemma_byte_prefix_within(body, MAX_SLUG_LENGTH as int);
    }
}

proof fn lemma_collapse_identity(s: Seq<char>, prev: bool)
    requires
        prev && s.len() > 0 ==> s[0] != '-',
        forall|i: int| 0 <= i < s.len() - 1 ==> !(#[trigger] s[i] == '-' && s[i + 1] == '-'),
    ensures
        collapse_hyphens(s, prev) == s,
    decreases s.len(),
{
    if s.len() > 0 {
        let rest = s.drop_first();
        assert forall|i: int| 0 <= i < rest.len() - 1 implies !(#[trigger] rest[i] == '-' && rest[i
            + 1] == '-') by {
            assert(rest[i] == s[i + 1] && rest[i + 1] == s[i + 2]);
        }
        if s[0] == '-' {
            if rest.len() > 0 {
                assert(!(s[0] == '-' && s[1] == '-'));
            }
            lemma_collapse_identity(rest, true);
        } else {
            lemma_collapse_identity(rest, false);
        }
        assert(seq![s[0]] + rest =~= s);
    }
}

/// A slug that was not cut at the length limit is its own slug: making a slug twice gives the
/// same text as making it once.
pub proof fn law_slug_idempotent(name: Seq<char>)
    requires
        utf8_len(slug_body(name)) <= MAX_SLUG_LENGTH,
    ensures
        slug_of(slug_of(name)) == slug_of(name),
{
    let body = slug_body(name);
    lemma_body_shape(name);
    let s = slug_of(name);
    if body.len() == 0 {
        reveal_strlit("unnamed-theme");
        assert(slug_shaped(s) && s.last() != '-') by {
            assert(s.len() == 13);
            assert forall|i: int| 0 <= i < s.len() implies slug_ok_char(#[trigger] s[i]) by {
                assert(is_alnum(s[i]) || s[i] == '-');
            }
        }
    } else {
        lemma_byte_prefix_within(body, MAX_SLUG_LENGTH as int);
        assert(s == body);
    }
    assert(slug_shaped(s) && s.len() > 0 && s.last() != '-');
    let m = s.map_values(|c: char| slug_char(c));
    assert(m =~= s) by {
        assert forall|i: int| 0 <= i < s.len() implies #[trigger] m[i] == s[i] by {
            assert(slug_ok_char(s[i]));
            assert(m[i] == slug_char(s[i]));
        }
    }
    lemma_collapse_identity(s, true);
    assert(trim_end_hyphens(s) == s);
    assert(slug_body(s) == s);
    lemma_byte_prefix_within(s, MAX_SLUG_LENGTH as int);
    if body.len() == 0 {
        lemma_fallback_slug_ascii();
    }
}

proof fn lemma_fallback_slug_ascii()
    ensures
        utf8_len("unnamed-theme"@) == 13,
{
    reveal_strlit("unnamed-theme");
    let s = "unnamed-theme"@;
    assert forall|i: int| 0 <= i < s.len() implies (#[trigger] s[i] as u32) < 0x80 by {}
    crate::ir::lemma_ascii_utf8_len(s);
}


// ── Theme paths ────────────────────────────────────────────────────

/// The last position of `c` in `s`.
pub open spec fn last_index_of(s: Seq<char>, c: char) -> Option<int>
    decreases s.len(),
{
    if s.len() == 0 {
        None
    } else if s.last() == c {
        Some(s.len() - 1)
    } else {
        last_index_of(s.drop_last(), c)
    }
}

proof fn lemma_last_index_bounds(s: Seq<char>, c: char)
    ensures
        last_index_of(s, c) matches Some(i) ==> 0 <= i < s.len() && s[i] == c,
    decreases s.len(),
{
    if s.len() > 0 {
        lemma_last_index_bounds(s.drop_last(), c);
    }
}

fn last_index(v: &Vec<char>, c: char) -> (r: Option<usize>)
    ensures
        match last_index_of(v@, c) {
            Some(i) => r matches Some(k) && k as int == i,
            None => r is None,
        },
        r matches Some(i) ==> i < v.len(),
{
    proof {
        lemma_last_index_bounds(v@, c);
    }
    let mut i: usize = v.len();
    assert(v@.take(v.len() as int) =~= v@);
    while i > 0
        invariant
            i <= v.len(),
            last_index_of(v@, c) == last_index_of(v@.take(i as int), c),
        decreases i,
    {
        assert(v@.take(i as int).last() == v@[i - 1]);
        assert(v@.take(i as int).drop_last() =~= v@.take(i - 1));
        if v[i - 1] == c {
            return Some(i - 1);
        }
        i -= 1;
    }
    None
}

/// The last component of a path.
pub open spec fn file_name(p: Seq<char>) -> Seq<char> {
    match last_index_of(p, '/') {
        Some(i) => p.subrange(i + 1, p.len() as int),
        None => p,
    }
}

/// The extension of a path as `Path::extension` gives it: what follows the last `.` of the
/// file name, unless that `.` opens the name.
pub open spec fn file_extension(p: Seq<char>) -> Option<Seq<char>> {
    file_extension_of_name(file_name(p))
}

/// The extension of a file name.
pub open spec fn file_extension_of_name(name: Seq<char>) -> Option<Seq<char>> {
    match last_index_of(name, '.') {
        Some(i) => if i > 0 {
            Some(name.subrange(i + 1, name.len() as int))
        } else {
            None
        },
        None => None,
    }
}

/// Whether the path `p` lies in the directory `base`, component by component, for paths in
/// canonical form (no repeated or trailing separators).
pub open spec fn path_within(p: Seq<char>, base: Seq<char>) -> bool {
    ||| p == base
    ||| base.len() > 0 && base.last() == '/' && crate::text::starts_with(p, base)
    ||| crate::text::starts_with(p, base + seq!['/'])
}

/// What `{:?}` writes for an optional text (`None`, or `Some("...")` with the text escaped as
/// `str`'s `Debug` escapes it).
pub uninterp spec fn debug_option_text(o: Option<Seq<char>>) -> Seq<char>;

/// `format!("{:?}", o)` for an optional text. Its result is `debug_option_text` of the text, a
/// function of the text alone; what that text is (the escaping `Debug` applies) is left unsaid.
#[verifier::external_body]
fn debug_option(o: Option<&str>) -> (r: String)
    ensures
        r@ == debug_option_text(
            match o {
                Some(s) => Some(s@),
                None => None,
            },
        ),
{
    format!("{:?}", o)
}

/// The outcome of resolving a theme path, given what canonicalizing the joined path and the
/// extension directory gave (`None` where it failed).
pub open spec fn theme_path_outcome(
    raw_path: Seq<char>,
    joined: Seq<char>,
    canonical: Option<Seq<char>>,
    extension_dir: Seq<char>,
    canonical_ext: Option<Seq<char>>,
) -> Result<Seq<char>, Seq<char>> {
    if raw_path.contains('\0') {
        Err("theme path contains null byte"@)
    } else {
        match canonical {
            None => Err("theme file not found: "@ + joined),
            Some(c) => match canonical_ext {
                None => Err("extension dir not found: "@ + extension_dir),
                Some(ce) => if !path_within(c, ce) {
                    Err("theme path escapes extension directory: "@ + raw_path + " -> "@ + c)
                } else if file_extension(c) == Some("json"@) {
                    Ok(c)
                } else {
                    Err("theme file must be .json, got: "@ + debug_option_text(file_extension(c)))
                },
            },
        }
    }
}

/// The characters of `v` from position `from` on.
fn tail_from(v: &Vec<char>, from: usize) -> (t: Vec<char>)
    requires
        from <= v.len(),
    ensures
        t@ == v@.subrange(from as int, v.len() as int),
{
    let mut t: Vec<char> = Vec::new();
    let mut j = from;
    while j < v.len()
        invariant
            from <= j <= v.len(),
            t@ == v@.subrange(from as int, j as int),
        decreases v.len() - j,
    {
        t.push(v[j]);
        j += 1;
    }
    t
}

fn file_name_chars(p: &Vec<char>) -> (n: Vec<char>)
    ensures
        n@ == file_name(p@),
{
    match last_index(p, '/') {
        Some(k) => tail_from(p, k + 1),
        None => {
            let mut n: Vec<char> = Vec::new();
            n.extend_from_slice(p.as_slice());
            assert(n@ =~= p@);
            n
        },
    }
}

fn extension_chars(name: &Vec<char>) -> (x: Option<Vec<char>>)
    ensures
        match file_extension_of_name(name@) {
            Some(e) => x matches Some(v) && v@ == e,
            None => x is None,
        },
{
    match last_index(name, '.') {
        Some(k) => if k > 0 {
            Some(tail_from(name, k + 1))
        } else {
            None
        },
        None => None,
    }
}

/// Validate that `raw_path` from an extension's package.json does not escape the extension
/// directory, given the canonical forms of the joined path and of the directory (`None` where
/// canonicalizing failed). Returns the canonical path of a `.json` theme file.
pub fn resolve_theme_path(
    raw_path: &str,
    joined: &str,
    canonical: Option<String>,
    extension_dir: &str,
    canonical_ext: Option<String>,
) -> (r: Result<String, String>)
    ensures
        match theme_path_outcome(
            raw_path@,
            joined@,
            crate::opencode::opt_text(canonical),
            extension_dir@,
            crate::opencode::opt_text(canonical_ext),
        ) {
            Ok(p) => r is Ok && r->Ok_0@ == p,
            Err(e) => r is Err && r->Err_0@ == e,
        },
{
    let raw = chars_of(raw_path);
    let mut i: usize = 0;
    while i < raw.len()
        invariant
            i <= raw.len(),
            raw@ == raw_path@,
            forall|j: int| 0 <= j < i ==> raw@[j] != '\0',
        decreases raw.len() - i,
    {
        if raw[i] == '\0' {
            assert(raw_path@.contains('\0')) by {
                assert(raw@[i as int] == '\0');
            }
            return Err(String::from_str("theme path contains null byte"));
        }
        i += 1;
    }
    assert(!raw_path@.contains('\0'));
    let c = match canonical {
        None => {
            let mut e = String::from_str("theme file not found: ");
            e.append(joined);
            return Err(e);
        },
        Some(c) => c,
    };
    let ce = match canonical_ext {
        None => {
            let mut e = String::from_str("extension dir not found: ");
            e.append(extension_dir);
            return Err(e);
        },
        Some(ce) => ce,
    };
    let cv = chars_of(c.as_str());
    let cev = chars_of(ce.as_str());
    let mut cev_slash = chars_of(ce.as_str());
    cev_slash.push('/');
    let within = crate::text::chars_eq(&cv, &cev) || (cev.len() > 0 && cev[cev.len() - 1] == '/'
        && crate::text::chars_starts_with(&cv, &cev)) || crate::text::chars_starts_with(
        &cv,
        &cev_slash,
    );
    assert(cev_slash@ == ce@ + seq!['/']);
    if !within {
        let mut e = String::from_str("theme path escapes extension directory: ");
        e.append(raw_path);
        e.append(" -> ");
        e.append(c.as_str());
        return Err(e);
    }
    let name = file_name_chars(&cv);
    let ext = extension_chars(&name);
    let json = chars_of("json");
    let mut e = String::from_str("theme file must be .json, got: ");
    match ext {
        Some(x) => {
            if crate::text::chars_eq(&x, &json) {
                return Ok(c);
            }
            let xs = string_from_chars(&x);
            let d = debug_option(Some(xs.as_str()));
            e.append(d.as_str());
            Err(e)
        },
        None => {
            let d = debug_option(None);
            e.append(d.as_str());
            Err(e)
        },
    }
}

/// Whether the path `p` lies in the directory `base` (see `path_within`).
pub fn path_is_within(p: &str, base: &str) -> (b: bool)
    ensures
        b == path_within(p@, base@),
{
    let cv = chars_of(p);
    let cev = chars_of(base);
    let mut cev_slash = chars_of(base);
    cev_slash.push('/');
    assert(cev_slash@ == base@ + seq!['/']);
    crate::text::chars_eq(&cv, &cev) || (cev.len() > 0 && cev[cev.len() - 1] == '/'
        && crate::text::chars_starts_with(&cv, &cev)) || crate::text::chars_starts_with(
        &cv,
        &cev_slash,
    )
}

// ── Included themes ────────────────────────────────────────────────

/// How deep `include` chains are followed.
pub const MAX_INCLUDE_DEPTH: u8 = 5;

/// The largest theme file that is read, in bytes.
pub const MAX_THEME_BYTES: u64 = 10485760;

/// Whether a theme file reached at include depth `depth` is past the limit (a chain that deep
/// is taken for a circular reference and refused).
pub fn include_depth_exceeded(depth: u8) -> (b: bool)
    ensures
        b == (depth > MAX_INCLUDE_DEPTH),
{
    depth > MAX_INCLUDE_DEPTH
}

/// Whether a theme file of `len` bytes is too large to read.
pub fn theme_file_too_large(len: u64) -> (b: bool)
    ensures
        b == (len > MAX_THEME_BYTES),
{
    len > MAX_THEME_BYTES
}

/// The theme an `include` leads to, given what canonicalizing the included path and the
/// extensions directory gave (`None` where it failed): followed only where both exist and the
/// included file lies in the extensions directory.
pub open spec fn include_target(canonical: Option<Seq<char>>, ext_canonical: Option<Seq<char>>) -> Option<
    Seq<char>,
> {
    match (canonical, ext_canonical) {
        (Some(c), Some(e)) => if path_within(c, e) {
            Some(c)
        } else {
            None
        },
        _ => None,
    }
}

/// The canonical path of the included theme to read next, or `None` where the include is not
/// followed (see `include_target`).
pub fn include_to_follow(canonical: Option<String>, ext_canonical: Option<String>) -> (r: Option<
    String,
>)
    ensures
        opt_view(r) == include_target(opt_view(canonical), opt_view(ext_canonical)),
{
    match (canonical, ext_canonical) {
        (Some(c), Some(e)) => if path_is_within(c.as_str(), e.as_str()) {
            Some(c)
        } else {
            None
        },
        _ => None,
    }
}

/// The view of an optional string.
pub open spec fn opt_view(o: Option<String>) -> Option<Seq<char>> {
    match o {
        Some(s) => Some(s@),
        None => None,
    }
}

/// What creating a symlink does, by what is at the link's place now.
#[derive(Debug, Clone, Copy, PartialEq, Eq, Structural)]
pub enum LinkPlace {
    /// A symlink, possibly broken.
    Symlink,
    /// Some other file.
    Other,
    /// Nothing.
    Empty,
}

/// How a symlink is created.
#[derive(Debug, Clone, Copy, PartialEq, Eq, Structural)]
pub enum LinkAction {
    /// Replace what is there atomically (a temporary link renamed over it).
    ReplaceAtomically,
    /// Refuse: a regular file is in the way and replacing was not forced.
    RefuseRegularFile,
    /// Create the link.
    Create,
}

/// Existing or broken symlinks are replaced atomically; a regular file is replaced only when
/// forced; an empty place gets a new link.
pub fn symlink_action(place: LinkPlace, force: bool) -> (a: LinkAction)
    ensures
        a == (match place {
            LinkPlace::Symlink => LinkAction::ReplaceAtomically,
            LinkPlace::Other => if force {
                LinkAction::ReplaceAtomically
            } else {
                LinkAction::RefuseRegularFile
            },
            LinkPlace::Empty => LinkAction::Create,
        }),
{
    match place {
        LinkPlace::Symlink => LinkAction::ReplaceAtomically,
        LinkPlace::Other => if force {
            LinkAction::ReplaceAtomically
        } else {
            LinkAction::RefuseRegularFile
        },
        LinkPlace::Empty => LinkAction::Create,
    }
}


/// The `YYYY-MM-DD` stamp (`{y:04}-{m:02}-{d:02}`) of the day `secs` seconds after
/// 1970-01-01, as a saved theme records when it was made.
pub fn date_stamp(secs: u64) -> (s: String)
    ensures
        s@ == crate::update::date_text(
            civil_from_days((secs / 86400) as int).0,
            civil_from_days((secs / 86400) as int).1,
            civil_from_days((secs / 86400) as int).2,
        ),
{
    let days = (secs / 86400) as i64;
    let (y, m, d) = days_to_ymd(days);
    proof {
        reveal(civil_from_days);
        let c = civil_from_days(days as int);
        assert(c.1 >= 1 && c.1 <= 12 && c.2 >= 1 && c.2 <= 31 && c.0 > i64::MIN && c.0 < i64::MAX) by {
            let z = days + 719468;
            assert(0 <= z % 146097 < 146097);
        }
    }
    let mut out: Vec<char> = Vec::new();
    crate::update::push_padded(&mut out, y, 4);
    out.push('-');
    crate::update::push_padded(&mut out, m as i64, 2);
    out.push('-');
    crate::update::push_padded(&mut out, d as i64, 2);
    proof {
        assert(out@ =~= crate::update::date_text(y as int, m as int, d as int));
    }
    string_from_chars(&out)
}

} // verus!
