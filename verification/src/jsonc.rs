//! Stripping JSONC (JSON with comments and trailing commas) down to JSON.
use vstd::prelude::*;
use crate::text::{chars_of, is_whitespace, is_ws, string_from_chars};

verus! {

/// Where the scan of JSONC text stands.
#[derive(Clone, Copy, PartialEq, Eq, Structural)]
pub enum ScanMode {
    /// Ordinary JSON text.
    Normal,
    /// Inside a string literal.
    InString,
    /// Inside a `//` comment, up to the end of the line.
    LineComment,
    /// Inside a `/* ... */` comment.
    BlockComment,
}

/// The number of backslashes right before position `i` of `s`.
pub open spec fn backslashes_before(s: Seq<char>, i: int) -> nat
    decreases i,
{
    if i > 0 && i <= s.len() && s[i - 1] == '\\' {
        1 + backslashes_before(s, i - 1)
    } else {
        0
    }
}

/// The text kept from position `i` on, scanning in `mode`: comments are dropped (a line
/// comment keeps its newline; an unterminated block comment drops the rest), strings are kept
/// verbatim, and a quote ends a string unless an odd number of backslashes precede it.
pub open spec fn strip_from(s: Seq<char>, i: int, mode: ScanMode) -> Seq<char>
    decreases s.len() - i,
{
    if i < 0 || i >= s.len() {
        seq![]
    } else {
        match mode {
            ScanMode::InString => {
                let closes = s[i] == '"' && backslashes_before(s, i) % 2 == 0;
                seq![s[i]] + strip_from(
                    s,
                    i + 1,
                    if closes {
                        ScanMode::Normal
                    } else {
                        ScanMode::InString
                    },
                )
            },
            ScanMode::LineComment => {
                if s[i] == '\n' {
                    seq![s[i]] + strip_from(s, i + 1, ScanMode::Normal)
                } else {
                    strip_from(s, i + 1, ScanMode::LineComment)
                }
            },
            ScanMode::BlockComment => {
                if s[i] == '*' && i + 1 < s.len() && s[i + 1] == '/' {
                    strip_from(s, i + 2, ScanMode::Normal)
                } else {
                    strip_from(s, i + 1, ScanMode::BlockComment)
                }
            },
            ScanMode::Normal => {
                if s[i] == '/' && i + 1 < s.len() && s[i + 1] == '/' {
                    strip_from(s, i + 2, ScanMode::LineComment)
                } else if s[i] == '/' && i + 1 < s.len() && s[i + 1] == '*' {
                    strip_from(s, i + 2, ScanMode::BlockComment)
                } else if s[i] == '"' {
                    seq![s[i]] + strip_from(s, i + 1, ScanMode::InString)
                } else {
                    seq![s[i]] + strip_from(s, i + 1, ScanMode::Normal)
                }
            },
        }
    }
}

/// The first character at or after position `j` of `s` that is not white space.
pub open spec fn next_non_ws(s: Seq<char>, j: int) -> Option<char>
    decreases s.len() - j,
{
    if j < 0 || j >= s.len() {
        None
    } else if is_ws(s[j]) {
        next_non_ws(s, j + 1)
    } else {
        Some(s[j])
    }
}

/// A comma whose next non-blank character closes an array or object.
pub open spec fn is_trailing_comma(s: Seq<char>, i: int) -> bool {
    s[i] == ',' && (next_non_ws(s, i + 1) == Some(']') || next_non_ws(s, i + 1) == Some('}'))
}

/// Whether the quote at position `i`, inside a string, ends it: an even number of
/// backslashes stands before it.
pub open spec fn closes_string(s: Seq<char>, i: int) -> bool {
    s[i] == '"' && backslashes_before(s, i) % 2 == 0
}

/// The characters of `s` from position `i` on, without the trailing commas that stand outside
/// string literals (`in_string` tells whether position `i` is inside one).
pub open spec fn without_trailing_commas_from(s: Seq<char>, i: int, in_string: bool) -> Seq<char>
    decreases s.len() - i,
{
    if i < 0 || i >= s.len() {
        seq![]
    } else if in_string {
        seq![s[i]] + without_trailing_commas_from(s, i + 1, !closes_string(s, i))
    } else if is_trailing_comma(s, i) {
        without_trailing_commas_from(s, i + 1, false)
    } else {
        seq![s[i]] + without_trailing_commas_from(s, i + 1, s[i] == '"')
    }
}

/// What `strip_jsonc` gives for `s`.
pub open spec fn stripped_jsonc(s: Seq<char>) -> Seq<char> {
    let t = strip_from(s, 0, ScanMode::Normal);
    without_trailing_commas_from(t, 0, false)
}

/// Strip JSONC comments and trailing commas so that a JSON parser can read it.
pub fn strip_jsonc(input: &str) -> (out: String)
    ensures
        out@ == stripped_jsonc(input@),
{
    let chars = chars_of(input);
    let len = chars.len();
    let mut output: Vec<char> = Vec::new();
    let mut i: usize = 0;
    let mut mode = ScanMode::Normal;
    while i < len
        invariant
            len == chars.len(),
            chars@ == input@,
            i <= len,
            output@ + strip_from(chars@, i as int, mode) == strip_from(
                chars@,
                0,
                ScanMode::Normal,
            ),
        decreases len - i,
    {
        let ghost old_out = output@;
        let ghost old_i = i as int;
        let ghost old_mode = mode;
        let ch = chars[i];
        match mode {
            ScanMode::InString => {
                output.push(ch);
                if ch == '"' {
                    // Count preceding backslashes to handle escaped quotes correctly.
                    // An even number of backslashes means the quote is NOT escaped.
                    let mut num_backslashes: usize = 0;
                    let mut k = i;
                    while k > 0 && chars[k - 1] == '\\'
                        invariant
                            k <= i < len == chars.len(),
                            num_backslashes + k == i,
                            backslashes_before(chars@, i as int) == num_backslashes
                                + backslashes_before(chars@, k as int),
                        decreases k,
                    {
                        num_backslashes += 1;
                        k -= 1;
                    }
                    if num_backslashes % 2 == 0 {
                        mode = ScanMode::Normal;
                    }
                }
                i += 1;
            },
            ScanMode::LineComment => {
                if ch == '\n' {
                    output.push(ch);
                    mode = ScanMode::Normal;
                }
                i += 1;
            },
            ScanMode::BlockComment => {
                if ch == '*' && i + 1 < len && chars[i + 1] == '/' {
                    mode = ScanMode::Normal;
                    i += 2;
                } else {
                    i += 1;
                }
            },
            ScanMode::Normal => {
                if ch == '/' && i + 1 < len && chars[i + 1] == '/' {
                    mode = ScanMode::LineComment;
                    i += 2;
                } else if ch == '/' && i + 1 < len && chars[i + 1] == '*' {
                    mode = ScanMode::BlockComment;
                    i += 2;
                } else {
                    if ch == '"' {
                        mode = ScanMode::InString;
                    }
                    output.push(ch);
                    i += 1;
                }
            },
        }
        assert(output@ + strip_from(chars@, i as int, mode) =~= old_out + strip_from(
            chars@,
            old_i,
            old_mode,
        ));
    }
    remove_trailing_commas(&output)
}

fn quote_closes(chars: &Vec<char>, i: usize) -> (b: bool)
    requires
        i < chars.len(),
        chars@[i as int] == '"',
    ensures
        b == closes_string(chars@, i as int),
{
    let mut num_backslashes: usize = 0;
    let mut k = i;
    while k > 0 && chars[k - 1] == '\\'
        invariant
            k <= i < chars.len(),
            num_backslashes + k == i,
            backslashes_before(chars@, i as int) == num_backslashes + backslashes_before(
                chars@,
                k as int,
            ),
        decreases k,
    {
        num_backslashes += 1;
        k -= 1;
    }
    num_backslashes % 2 == 0
}

/// The text without commas that come right before `]` or `}` (blanks between allowed);
/// commas inside string literals are kept.
pub fn remove_trailing_commas(chars: &Vec<char>) -> (out: String)
    ensures
        out@ == without_trailing_commas_from(chars@, 0, false),
{
    let len = chars.len();
    let mut result: Vec<char> = Vec::new();
    let mut i: usize = 0;
    let mut in_string = false;
    while i < len
        invariant
            len == chars.len(),
            i <= len,
            result@ + without_trailing_commas_from(chars@, i as int, in_string)
                == without_trailing_commas_from(chars@, 0, false),
        decreases len - i,
    {
        let ghost old_res = result@;
        let ghost old_in = in_string;
        if in_string {
            result.push(chars[i]);
            if chars[i] == '"' && quote_closes(chars, i) {
                in_string = false;
            }
            i += 1;
            assert(result@ + without_trailing_commas_from(chars@, i as int, in_string) =~= old_res
                + without_trailing_commas_from(chars@, i - 1, old_in));
        } else {
            let mut skip = false;
            if chars[i] == ',' {
                // Look ahead past whitespace for ] or }
                let mut j = i + 1;
                while j < len && is_whitespace(chars[j])
                    invariant
                        i < j <= len == chars.len(),
                        next_non_ws(chars@, i + 1) == next_non_ws(chars@, j as int),
                    decreases len - j,
                {
                    j += 1;
                }
                skip = j < len && (chars[j] == ']' || chars[j] == '}');
            }
            if skip {
                i += 1;
            } else {
                result.push(chars[i]);
                in_string = chars[i] == '"';
                i += 1;
                assert(result@ + without_trailing_commas_from(chars@, i as int, in_string)
                    =~= old_res + without_trailing_commas_from(chars@, i - 1, old_in));
            }
        }
    }
    string_from_chars(&result)
}

/// Text whose comments and trailing commas, outside string literals, are none: from position
/// `i` on, with `in_string` telling whether position `i` is inside a string.
pub open spec fn plain_json_from(s: Seq<char>, i: int, in_string: bool) -> bool
    decreases s.len() - i,
{
    if i < 0 || i >= s.len() {
        true
    } else if in_string {
        plain_json_from(s, i + 1, !closes_string(s, i))
    } else {
        &&& !(s[i] == '/' && i + 1 < s.len() && (s[i + 1] == '/' || s[i + 1] == '*'))
        &&& !is_trailing_comma(s, i)
        &&& plain_json_from(s, i + 1, s[i] == '"')
    }
}

proof fn lemma_strip_plain(s: Seq<char>, i: int, in_string: bool)
    requires
        0 <= i <= s.len(),
        plain_json_from(s, i, in_string),
    ensures
        strip_from(
            s,
            i,
            if in_string {
                ScanMode::InString
            } else {
                ScanMode::Normal
            },
        ) == s.subrange(i, s.len() as int),
        without_trailing_commas_from(s, i, in_string) == s.subrange(i, s.len() as int),
    decreases s.len() - i,
{
    if i < s.len() {
        let next = if in_string {
            !closes_string(s, i)
        } else {
            s[i] == '"'
        };
        lemma_strip_plain(s, i + 1, next);
        assert(seq![s[i]] + s.subrange(i + 1, s.len() as int) =~= s.subrange(i, s.len() as int));
    } else {
        assert(s.subrange(i, s.len() as int) =~= seq![]);
    }
}

/// Plain JSON passes through unchanged: a text with no comment and no trailing comma outside
/// its string literals (whatever the strings hold, `//`, `/*` or `,]` included) is left exactly
/// as it was.
pub proof fn law_plain_json_unchanged(s: Seq<char>)
    requires
        plain_json_from(s, 0, false),
    ensures
        stripped_jsonc(s) == s,
{
    lemma_strip_plain(s, 0, false);
    assert(s.subrange(0, s.len() as int) =~= s);
}

} // verus!
