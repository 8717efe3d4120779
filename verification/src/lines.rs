//! Line-based text editing: splitting text into lines, joining lines, and finding characters.
use vstd::prelude::*;
use crate::text::{is_whitespace, is_ws, trim_start};

verus! {

/// A line without the `\r` of a `\r\n` ending.
pub open spec fn strip_cr(l: Seq<char>) -> Seq<char> {
    if l.len() > 0 && l.last() == '\r' {
        l.drop_last()
    } else {
        l
    }
}

/// The lines of `cur + rest`, where `cur` is the part of a line already read.
pub open spec fn lines_from(cur: Seq<char>, rest: Seq<char>) -> Seq<Seq<char>>
    decreases rest.len(),
{
    if rest.len() == 0 {
        if cur.len() == 0 {
            seq![]
        } else {
            seq![cur]
        }
    } else if rest[0] == '\n' {
        seq![strip_cr(cur)] + lines_from(seq![], rest.drop_first())
    } else {
        lines_from(cur.push(rest[0]), rest.drop_first())
    }
}

/// `str::lines`: the text split at `\n` or `\r\n`; a final line ending adds no empty line.
pub open spec fn lines_of(s: Seq<char>) -> Seq<Seq<char>> {
    lines_from(seq![], s)
}

/// The lines joined with `\n` between them.
pub open spec fn join_lines(ls: Seq<Seq<char>>) -> Seq<char>
    decreases ls.len(),
{
    if ls.len() == 0 {
        seq![]
    } else if ls.len() == 1 {
        ls[0]
    } else {
        join_lines(ls.drop_last()) + seq!['\n'] + ls.last()
    }
}

/// The position of the first `c` in `s`.
pub open spec fn find_char(s: Seq<char>, c: char) -> Option<int>
    decreases s.len(),
{
    if s.len() == 0 {
        None
    } else if s[0] == c {
        Some(0)
    } else {
        match find_char(s.drop_first(), c) {
            Some(i) => Some(i + 1),
            None => None,
        }
    }
}

pub proof fn lemma_find_char(s: Seq<char>, c: char)
    ensures
        match find_char(s, c) {
            Some(i) => 0 <= i < s.len() && s[i] == c && forall|k: int| 0 <= k < i ==> s[k] != c,
            None => forall|k: int| 0 <= k < s.len() ==> s[k] != c,
        },
    decreases s.len(),
{
    if s.len() > 0 {
        lemma_find_char(s.drop_first(), c);
        if s[0] != c {
            match find_char(s.drop_first(), c) {
                Some(i) => {
                    assert forall|k: int| 0 <= k < i + 1 implies s[k] != c by {
                        if k > 0 {
                            assert(s[k] == s.drop_first()[k - 1]);
                        }
                    }
                },
                None => {
                    assert forall|k: int| 0 <= k < s.len() implies s[k] != c by {
                        if k > 0 {
                            assert(s[k] == s.drop_first()[k - 1]);
                        }
                    }
                },
            }
        }
    }
}

/// The position of the first `c` in `s`.
pub fn find_char_index(s: &Vec<char>, c: char) -> (r: Option<usize>)
    ensures
        match r {
            Some(i) => find_char(s@, c) == Some(i as int),
            None => find_char(s@, c) is None,
        },
{
    let mut i: usize = 0;
    while i < s.len()
        invariant
            i <= s.len(),
            forall|k: int| 0 <= k < i ==> s@[k] != c,
        decreases s.len() - i,
    {
        if s[i] == c {
            proof {
                lemma_find_char(s@, c);
                match find_char(s@, c) {
                    Some(j) => {
                        assert(j == i);
                    },
                    None => {},
                }
            }
            return Some(i);
        }
        i += 1;
    }
    proof {
        lemma_find_char(s@, c);
    }
    None
}

/// The characters of `v` without leading white space.
pub fn trim_start_chars(v: &Vec<char>) -> (r: Vec<char>)
    ensures
        r@ == trim_start(v@),
{
    let n = v.len();
    let mut i: usize = 0;
    assert(v@.subrange(0, n as int) =~= v@);
    while i < n && is_whitespace(v[i])
        invariant
            i <= n == v.len(),
            trim_start(v@) == trim_start(v@.subrange(i as int, n as int)),
        decreases n - i,
    {
        assert(v@.subrange(i as int, n as int).drop_first() =~= v@.subrange(i + 1, n as int));
        i += 1;
    }
    assert(trim_start(v@.subrange(i as int, n as int)) == v@.subrange(i as int, n as int));
    slice_chars(v, i, n)
}

/// The characters of `v` from position `i` up to `j`.
pub fn slice_chars(v: &Vec<char>, i: usize, j: usize) -> (r: Vec<char>)
    requires
        i <= j <= v.len(),
    ensures
        r@ == v@.subrange(i as int, j as int),
{
    let mut r: Vec<char> = Vec::new();
    let mut k: usize = i;
    while k < j
        invariant
            i <= k <= j <= v.len(),
            r@ == v@.subrange(i as int, k as int),
        decreases j - k,
    {
        r.push(v[k]);
        k += 1;
        assert(r@ =~= v@.subrange(i as int, k as int));
    }
    r
}

/// `a` followed by `b`.
pub fn append_chars(a: &mut Vec<char>, b: &Vec<char>)
    ensures
        final(a)@ == old(a)@ + b@,
{
    let mut k: usize = 0;
    let ghost start = a@;
    while k < b.len()
        invariant
            k <= b.len(),
            a@ == start + b@.take(k as int),
        decreases b.len() - k,
    {
        a.push(b[k]);
        k += 1;
        assert(a@ =~= start + b@.take(k as int));
    }
    assert(b@.take(b.len() as int) =~= b@);
}

/// `a` followed by the characters of `s`.
pub fn append_str(a: &mut Vec<char>, s: &str)
    ensures
        final(a)@ == old(a)@ + s@,
{
    let v = crate::text::chars_of(s);
    append_chars(a, &v);
}

/// The views of a list of character vectors.
pub open spec fn views(v: Seq<Vec<char>>) -> Seq<Seq<char>> {
    v.map_values(|l: Vec<char>| l@)
}

/// Splits text into lines as `str::lines` does.
pub fn split_lines(s: &Vec<char>) -> (r: Vec<Vec<char>>)
    ensures
        views(r@) == lines_of(s@),
{
    let mut out: Vec<Vec<char>> = Vec::new();
    let mut cur: Vec<char> = Vec::new();
    let mut i: usize = 0;
    assert(s@.subrange(0, s.len() as int) =~= s@);
    assert(views(out@) =~= Seq::<Seq<char>>::empty());
    while i < s.len()
        invariant
            i <= s.len(),
            views(out@) + lines_from(cur@, s@.subrange(i as int, s.len() as int)) == lines_of(
                s@,
            ),
        decreases s.len() - i,
    {
        let ghost rest = s@.subrange(i as int, s.len() as int);
        let ghost before = views(out@);
        let ghost old_cur = cur@;
        assert(rest.drop_first() =~= s@.subrange(i + 1, s.len() as int));
        if s[i] == '\n' {
            let n = cur.len();
            let line = if n > 0 && cur[n - 1] == '\r' {
                slice_chars(&cur, 0, n - 1)
            } else {
                slice_chars(&cur, 0, n)
            };
            assert(line@ == strip_cr(old_cur)) by {
                assert(old_cur.subrange(0, n as int) =~= old_cur);
                if n > 0 {
                    assert(old_cur.drop_last() =~= old_cur.subrange(0, n - 1));
                }
            }
            out.push(line);
            cur = Vec::new();
            assert(views(out@) =~= before.push(line@));
            assert(lines_from(old_cur, rest) == seq![strip_cr(old_cur)] + lines_from(
                seq![],
                rest.drop_first(),
            ));
            assert(views(out@) + lines_from(cur@, s@.subrange(i + 1, s.len() as int)) =~= before
                + lines_from(old_cur, rest));
        } else {
            cur.push(s[i]);
            assert(cur@ == old_cur.push(rest[0]));
        }
        i += 1;
    }
    assert(s@.subrange(i as int, s.len() as int) =~= Seq::<char>::empty());
    if cur.len() > 0 {
        let ghost before = views(out@);
        let ghost c = cur@;
        out.push(cur);
        assert(views(out@) =~= before.push(c));
    } else {
        assert(views(out@) + Seq::<Seq<char>>::empty() =~= views(out@));
    }
    out
}

/// The lines joined with `\n` between them.
pub fn join_line_vecs(ls: &Vec<Vec<char>>) -> (r: Vec<char>)
    ensures
        r@ == join_lines(views(ls@)),
{
    let mut out: Vec<char> = Vec::new();
    let mut k: usize = 0;
    while k < ls.len()
        invariant
            k <= ls.len(),
            out@ == join_lines(views(ls@).take(k as int)),
        decreases ls.len() - k,
    {
        let ghost v = views(ls@);
        assert(v.take(k + 1).drop_last() =~= v.take(k as int));
        assert(v.take(k + 1).last() == ls@[k as int]@);
        if k > 0 {
            out.push('\n');
        } else {
            assert(out@ =~= Seq::<char>::empty());
        }
        append_chars(&mut out, &ls[k]);
        k += 1;
        assert(out@ =~= join_lines(v.take(k as int)));
    }
    assert(views(ls@).take(ls.len() as int) =~= views(ls@));
    out
}

// ── Lines read back ────────────────────────────────────────────────

/// Each line followed by a newline.
pub open spec fn terminated(ls: Seq<Seq<char>>) -> Seq<char>
    decreases ls.len(),
{
    if ls.len() == 0 {
        seq![]
    } else {
        terminated(ls.drop_last()) + ls.last() + seq!['\n']
    }
}

/// Text without a newline.
pub open spec fn no_newline(l: Seq<char>) -> bool {
    forall|i: int| 0 <= i < l.len() ==> #[trigger] l[i] != '\n'
}

/// A line that reads back as itself: no newline in it, and no `\r` at its end.
pub open spec fn plain_line(l: Seq<char>) -> bool {
    no_newline(l) && !(l.len() > 0 && l.last() == '\r')
}

pub proof fn lemma_join_terminated(ls: Seq<Seq<char>>)
    requires
        ls.len() > 0,
    ensures
        join_lines(ls) + seq!['\n'] == terminated(ls),
    decreases ls.len(),
{
    if ls.len() > 1 {
        lemma_join_terminated(ls.drop_last());
        assert(join_lines(ls) + seq!['\n'] =~= join_lines(ls.drop_last()) + seq!['\n'] + ls.last()
            + seq!['\n']);
    } else {
        let e = ls.drop_last();
        assert(e =~= Seq::<Seq<char>>::empty());
        assert(terminated(e) == Seq::<char>::empty());
        assert(terminated(ls) == terminated(e) + ls.last() + seq!['\n']);
        assert(terminated(ls) =~= ls[0] + seq!['\n']);
    }
}

proof fn lemma_lines_from_split(cur: Seq<char>, a: Seq<char>, b: Seq<char>)
    requires
        a.len() > 0,
        a.last() == '\n',
    ensures
        lines_from(cur, a + b) == lines_from(cur, a) + lines_from(seq![], b),
    decreases a.len(),
{
    let ab = a + b;
    assert(ab[0] == a[0]);
    assert(ab.drop_first() =~= a.drop_first() + b);
    if a[0] == '\n' {
        if a.len() == 1 {
            assert(a.drop_first() + b =~= b);
            assert(lines_from(seq![], a.drop_first()) =~= Seq::<Seq<char>>::empty());
            assert(lines_from(cur, a) =~= seq![strip_cr(cur)]);
        } else {
            lemma_lines_from_split(seq![], a.drop_first(), b);
        }
    } else {
        lemma_lines_from_split(cur.push(a[0]), a.drop_first(), b);
    }
}

proof fn lemma_line_read_back(cur: Seq<char>, p: Seq<char>)
    requires
        no_newline(p),
    ensures
        lines_from(cur, p + seq!['\n']) == seq![strip_cr(cur + p)],
    decreases p.len(),
{
    let t = p + seq!['\n'];
    if p.len() == 0 {
        assert(t =~= seq!['\n']);
        assert(t.drop_first() =~= Seq::<char>::empty());
        assert(lines_from(seq![], t.drop_first()) =~= Seq::<Seq<char>>::empty());
        assert(cur + p =~= cur);
        assert(lines_from(cur, t) =~= seq![strip_cr(cur)]);
    } else {
        assert(t[0] == p[0]);
        assert(p[0] != '\n');
        assert(t.drop_first() =~= p.drop_first() + seq!['\n']);
        assert(no_newline(p.drop_first())) by {
            assert forall|i: int| 0 <= i < p.drop_first().len() implies #[trigger] p.drop_first()[i]
                != '\n' by {
                assert(p.drop_first()[i] == p[i + 1]);
            }
        }
        lemma_line_read_back(cur.push(p[0]), p.drop_first());
        assert(lines_from(cur, t) == lines_from(cur.push(p[0]), t.drop_first()));
        assert(cur.push(p[0]) + p.drop_first() =~= cur + p);
    }
}

/// Lines that read back as themselves, each written with a newline after it, read back as the
/// same lines.
pub proof fn lemma_lines_read_back(ls: Seq<Seq<char>>)
    requires
        forall|k: int| 0 <= k < ls.len() ==> plain_line(#[trigger] ls[k]),
    ensures
        lines_of(terminated(ls)) == ls,
    decreases ls.len(),
{
    if ls.len() > 0 {
        let dl = ls.drop_last();
        lemma_lines_read_back(dl);
        let l = ls.last();
        assert(plain_line(l));
        lemma_line_read_back(seq![], l);
        assert(seq![] + l =~= l);
        assert(strip_cr(l) == l);
        let tail = l + seq!['\n'];
        assert(terminated(ls) =~= terminated(dl) + tail);
        if dl.len() > 0 {
            let a = terminated(dl);
            assert(a.len() > 0 && a.last() == '\n');
            lemma_lines_from_split(seq![], a, tail);
        } else {
            assert(terminated(dl) =~= Seq::<char>::empty());
            assert(terminated(ls) =~= tail);
        }
        assert(ls =~= dl.push(l));
    }
}

proof fn lemma_lines_from_plain(cur: Seq<char>, rest: Seq<char>)
    requires
        no_newline(cur),
    ensures
        forall|k: int| 0 <= k < lines_from(cur, rest).len() ==> no_newline(
            #[trigger] lines_from(cur, rest)[k],
        ),
    decreases rest.len(),
{
    if rest.len() > 0 {
        if rest[0] == '\n' {
            lemma_lines_from_plain(seq![], rest.drop_first());
            let r = lines_from(seq![], rest.drop_first());
            assert(lines_from(cur, rest) == seq![strip_cr(cur)] + r);
            assert(no_newline(strip_cr(cur))) by {
                assert forall|i: int| 0 <= i < strip_cr(cur).len() implies #[trigger] strip_cr(
                    cur,
                )[i] != '\n' by {
                    assert(strip_cr(cur)[i] == cur[i]);
                }
            }
            assert forall|k: int| 0 <= k < lines_from(cur, rest).len() implies no_newline(
                #[trigger] lines_from(cur, rest)[k],
            ) by {
                if k > 0 {
                    assert(lines_from(cur, rest)[k] == r[k - 1]);
                }
            }
        } else {
            let c2 = cur.push(rest[0]);
            assert forall|i: int| 0 <= i < c2.len() implies #[trigger] c2[i] != '\n' by {
                if i < cur.len() {
                    assert(c2[i] == cur[i]);
                }
            }
            lemma_lines_from_plain(c2, rest.drop_first());
            assert(lines_from(cur, rest) == lines_from(c2, rest.drop_first()));
        }
    } else {
        if cur.len() > 0 {
            assert(lines_from(cur, rest) == seq![cur]);
        }
    }
}

/// No line of a text holds a newline.
pub proof fn lemma_lines_have_no_newline(s: Seq<char>)
    ensures
        forall|k: int| 0 <= k < lines_of(s).len() ==> no_newline(#[trigger] lines_of(s)[k]),
{
    lemma_lines_from_plain(seq![], s);
}

} // verus!
