//! WezTerm: the color scheme file, Lua string escaping, and the `color_scheme` setting of
//! `wezterm.lua`.
use vstd::prelude::*;
use crate::ghostty::{file_stem, rgb_text, strip_alpha, terminal_selection_bg};
use crate::ir::{HexColor, ThemeIR};
use crate::lines::{
    append_chars, append_str, find_char, find_char_index, join_line_vecs, join_lines,
    lemma_find_char, lines_of, slice_chars, split_lines, trim_start_chars, views,
};
use crate::text::{
    chars_contains, chars_eq, chars_of, chars_starts_with, contains, starts_with,
    string_from_chars, trim, trim_chars, trim_start,
};

verus! {

// ── File name ──────────────────────────────────────────────────────

/// The color scheme's file name: the theme's file name (see `ghostty::theme_filename`) and
/// `.toml`.
pub fn theme_filename(name: &str) -> (r: String)
    ensures
        r@ == file_stem(name@) + ".toml"@,
{
    let stem = crate::ghostty::theme_filename(name);
    let mut v = chars_of(stem.as_str());
    append_str(&mut v, ".toml");
    string_from_chars(&v)
}

// ── Lua strings ────────────────────────────────────────────────────

/// `char::is_ascii_control`: U+0000 to U+001F and U+007F.
pub open spec fn is_ascii_control(c: char) -> bool {
    (c as int) < 0x20 || c as int == 0x7f
}

/// A lower-case hexadecimal digit.
pub open spec fn lower_hex_digit(v: int) -> char {
    if v < 10 {
        ('0' as int + v) as char
    } else {
        ('a' as int + v - 10) as char
    }
}

/// How one character is written inside a Lua string literal: backslash, both quotes, `\n`
/// and `\r` escaped; NUL dropped; any other ASCII control character as `\xNN`.
pub open spec fn lua_escape_char(c: char) -> Seq<char> {
    if c == '\\' {
        seq!['\\', '\\']
    } else if c == '"' {
        seq!['\\', '"']
    } else if c == '\'' {
        seq!['\\', '\'']
    } else if c == '\n' {
        seq!['\\', 'n']
    } else if c == '\r' {
        seq!['\\', 'r']
    } else if c == '\0' {
        seq![]
    } else if is_ascii_control(c) {
        seq!['\\', 'x', lower_hex_digit(c as int / 16), lower_hex_digit(c as int % 16)]
    } else {
        seq![c]
    }
}

/// The text escaped character by character for a Lua string literal.
pub open spec fn lua_escaped(s: Seq<char>) -> Seq<char>
    decreases s.len(),
{
    if s.len() == 0 {
        seq![]
    } else {
        lua_escaped(s.drop_last()) + lua_escape_char(s.last())
    }
}

fn lower_hex_char(v: u32) -> (c: char)
    requires
        v < 16,
    ensures
        c == lower_hex_digit(v as int),
{
    if v < 10 {
        char_from_ascii((48 + v) as u8)
    } else {
        char_from_ascii((97 + v - 10) as u8)
    }
}

fn char_code(c: char) -> (n: u32)
    ensures
        n as int == c as int,
{
    c as u32
}

fn char_from_ascii(b: u8) -> (c: char)
    requires
        b < 128,
    ensures
        c as int == b as int,
{
    b as char
}

/// Escapes a text for a Lua string literal, so that it cannot end the literal early or break
/// the line: `\`, `"` and `'` are escaped, `\n` and `\r` are written as such, NUL bytes are
/// dropped, and other ASCII control characters are written as `\xNN`.
pub fn lua_escape_string(s: &str) -> (r: String)
    ensures
        r@ == lua_escaped(s@),
{
    let v = chars_of(s);
    let mut out: Vec<char> = Vec::new();
    let mut i: usize = 0;
    while i < v.len()
        invariant
            i <= v.len(),
            out@ == lua_escaped(v@.take(i as int)),
        decreases v.len() - i,
    {
        let c = v[i];
        let ghost before = out@;
        if c == '\\' {
            out.push('\\');
            out.push('\\');
        } else if c == '"' {
            out.push('\\');
            out.push('"');
        } else if c == '\'' {
            out.push('\\');
            out.push('\'');
        } else if c == '\n' {
            out.push('\\');
            out.push('n');
        } else if c == '\r' {
            out.push('\\');
            out.push('r');
        } else if c == '\0' {
        } else if char_code(c) < 0x20 || char_code(c) == 0x7f {
            let code = char_code(c);
            out.push('\\');
            out.push('x');
            out.push(lower_hex_char(code / 16));
            out.push(lower_hex_char(code % 16));
        } else {
            out.push(c);
        }
        assert(out@ =~= before + lua_escape_char(c));
        assert(v@.take(i + 1).drop_last() =~= v@.take(i as int));
        i += 1;
    }
    assert(v@.take(v.len() as int) =~= v@);
    string_from_chars(&out)
}

/// Text that can stand inside a quoted Lua string: every quote is escaped by the backslash
/// before it, and there is no line break and no NUL.
pub open spec fn safe_in_lua_string(t: Seq<char>) -> bool {
    &&& forall|i: int|
        0 <= i < t.len() && (#[trigger] t[i] == '"' || t[i] == '\'') ==> i > 0 && t[i - 1]
            == '\\'
    &&& forall|i: int| 0 <= i < t.len() ==> #[trigger] t[i] != '\n' && t[i] != '\r' && t[i] != '\0'
}

proof fn lemma_escape_char_safe(c: char)
    ensures
        forall|j: int|
            #![trigger lua_escape_char(c)[j]]
            0 <= j < lua_escape_char(c).len() && (lua_escape_char(c)[j] == '"'
                || lua_escape_char(c)[j] == '\'') ==> j == 1 && lua_escape_char(c)[0] == '\\',
        forall|j: int|
            #![trigger lua_escape_char(c)[j]]
            0 <= j < lua_escape_char(c).len() ==> lua_escape_char(c)[j] != '\n'
                && lua_escape_char(c)[j] != '\r' && lua_escape_char(c)[j] != '\0',
{
    let e = lua_escape_char(c);
    if is_ascii_control(c) && c != '\n' && c != '\r' && c != '\0' {
        assert(lower_hex_digit(c as int / 16) == '0' || lower_hex_digit(c as int / 16) == '1'
            || lower_hex_digit(c as int / 16) == '7');
        assert(0 <= c as int % 16 < 16);
        let d = lower_hex_digit(c as int % 16);
        assert(('0' <= d && d <= '9') || ('a' <= d && d <= 'f'));
    }
}

/// An escaped name cannot break out of the Lua string it is written into: whatever the name,
/// its escaped form has every quote escaped and no line break or NUL.
pub proof fn law_lua_escape_safe(s: Seq<char>)
    ensures
        safe_in_lua_string(lua_escaped(s)),
    decreases s.len(),
{
    if s.len() > 0 {
        law_lua_escape_safe(s.drop_last());
        lemma_escape_char_safe(s.last());
        let a = lua_escaped(s.drop_last());
        let e = lua_escape_char(s.last());
        assert(lua_escaped(s) == a + e);
        let t = a + e;
        assert forall|i: int|
            #![trigger t[i]]
            0 <= i < t.len() && (t[i] == '"' || t[i] == '\'') implies i > 0 && t[i - 1]
            == '\\' by {
            if i >= a.len() {
                assert(t[i] == e[i - a.len()]);
                assert(t[i - 1] == e[0]);
            } else {
                assert(t[i] == a[i]);
                assert(t[i - 1] == a[i - 1]);
            }
        }
        assert forall|i: int| #![trigger t[i]] 0 <= i < t.len() implies t[i] != '\n' && t[i]
            != '\r' && t[i] != '\0' by {
            if i >= a.len() {
                assert(t[i] == e[i - a.len()]);
            } else {
                assert(t[i] == a[i]);
            }
        }
    }
}

// ── The color scheme file ──────────────────────────────────────────

/// `"#RRGGBB"` (alpha dropped).
pub open spec fn quoted_color(c: Seq<char>) -> Seq<char> {
    seq!['"'] + rgb_text(c) + seq!['"']
}

/// The items joined with `, ` between them.
pub open spec fn join_comma(ls: Seq<Seq<char>>) -> Seq<char>
    decreases ls.len(),
{
    if ls.len() == 0 {
        seq![]
    } else if ls.len() == 1 {
        ls[0]
    } else {
        join_comma(ls.drop_last()) + ", "@ + ls.last()
    }
}

/// `key = "#RRGGBB"` and a newline.
pub open spec fn toml_color_line(key: Seq<char>, c: Seq<char>) -> Seq<char> {
    key + " = "@ + quoted_color(c) + seq!['\n']
}

/// `key = ["#RRGGBB", ...]` and a newline.
pub open spec fn toml_list_line(key: Seq<char>, cs: Seq<Seq<char>>) -> Seq<char> {
    key + " = ["@ + join_comma(cs.map_values(|c: Seq<char>| quoted_color(c))) + "]\n"@
}

/// The WezTerm color scheme file (TOML).
pub open spec fn wezterm_theme_text(ir: ThemeIR) -> Seq<char> {
    "# Generated by chromaport\n[colors]\n"@ + toml_color_line(
        "foreground"@,
        ir.terminal.foreground@,
    ) + toml_color_line("background"@, ir.terminal.background@) + toml_color_line(
        "cursor_bg"@,
        ir.terminal.cursor@,
    ) + toml_color_line("cursor_fg"@, ir.background@) + toml_color_line(
        "cursor_border"@,
        ir.terminal.cursor@,
    ) + toml_color_line("selection_bg"@, terminal_selection_bg(ir)) + toml_color_line(
        "selection_fg"@,
        ir.foreground@,
    ) + toml_list_line("ansi"@, ir.terminal.normal.colors()) + toml_list_line(
        "brights"@,
        ir.terminal.bright.colors(),
    )
}

fn push_color_line(out: &mut Vec<char>, key: &str, c: &HexColor)
    ensures
        final(out)@ == old(out)@ + toml_color_line(key@, c@),
{
    append_str(out, key);
    append_str(out, " = ");
    out.push('"');
    let rgb = strip_alpha(c);
    append_chars(out, &rgb);
    out.push('"');
    out.push('\n');
    assert(final(out)@ =~= old(out)@ + toml_color_line(key@, c@));
}

fn push_list_line(out: &mut Vec<char>, key: &str, colors: [(u8, &HexColor); 8], Ghost(cs): Ghost<
    Seq<Seq<char>>,
>)
    requires
        cs.len() == 8,
        forall|i: int| 0 <= i < 8 ==> (#[trigger] colors@[i]).1@ == cs[i],
    ensures
        final(out)@ == old(out)@ + toml_list_line(key@, cs),
{
    append_str(out, key);
    append_str(out, " = [");
    let ghost q = cs.map_values(|c: Seq<char>| quoted_color(c));
    let ghost start = out@;
    let mut k: usize = 0;
    while k < 8
        invariant
            k <= 8,
            q == cs.map_values(|c: Seq<char>| quoted_color(c)),
            q.len() == 8,
            forall|i: int| 0 <= i < 8 ==> (#[trigger] colors@[i]).1@ == cs[i],
            out@ == start + join_comma(q.take(k as int)),
        decreases 8 - k,
    {
        let ghost before = out@;
        assert(q.take(k + 1).drop_last() =~= q.take(k as int));
        if k > 0 {
            append_str(out, ", ");
        } else {
            assert(join_comma(q.take(0)) =~= Seq::<char>::empty());
        }
        out.push('"');
        let rgb = strip_alpha(colors[k].1);
        append_chars(out, &rgb);
        out.push('"');
        k += 1;
        assert(out@ =~= start + join_comma(q.take(k as int)));
    }
    assert(q.take(8) =~= q);
    append_str(out, "]\n");
    assert(final(out)@ =~= old(out)@ + toml_list_line(key@, cs));
}

/// The WezTerm color scheme for `ir`: the terminal colors, cursor, selection (the terminal's
/// own selection background where it has one) and both ANSI palettes, as `#RRGGBB`.
pub fn format_wezterm_theme(ir: &ThemeIR) -> (r: String)
    ensures
        r@ == wezterm_theme_text(*ir),
{
    let mut out = chars_of("# Generated by chromaport\n[colors]\n");
    push_color_line(&mut out, "foreground", &ir.terminal.foreground);
    push_color_line(&mut out, "background", &ir.terminal.background);
    push_color_line(&mut out, "cursor_bg", &ir.terminal.cursor);
    push_color_line(&mut out, "cursor_fg", &ir.background);
    push_color_line(&mut out, "cursor_border", &ir.terminal.cursor);
    let sel = match &ir.terminal.selection_bg {
        Some(c) => c,
        None => &ir.selection_bg,
    };
    push_color_line(&mut out, "selection_bg", sel);
    push_color_line(&mut out, "selection_fg", &ir.foreground);
    push_list_line(
        &mut out,
        "ansi",
        ir.terminal.normal.as_indexed(0),
        Ghost(ir.terminal.normal.colors()),
    );
    push_list_line(
        &mut out,
        "brights",
        ir.terminal.bright.as_indexed(8),
        Ghost(ir.terminal.bright.colors()),
    );
    string_from_chars(&out)
}

/// The eight colors of a palette, each as `"#RRGGBB"` (alpha dropped), in palette order and
/// separated by `, `.
pub open spec fn quoted_palette(p: Seq<Seq<char>>) -> Seq<char> {
    quoted_color(p[0]) + ", "@ + quoted_color(p[1]) + ", "@ + quoted_color(p[2]) + ", "@
        + quoted_color(p[3]) + ", "@ + quoted_color(p[4]) + ", "@ + quoted_color(p[5]) + ", "@
        + quoted_color(p[6]) + ", "@ + quoted_color(p[7])
}

proof fn lemma_join_comma8(p: Seq<Seq<char>>)
    requires
        p.len() == 8,
    ensures
        join_comma(p.map_values(|c: Seq<char>| quoted_color(c))) == quoted_palette(p),
{
    let q = p.map_values(|c: Seq<char>| quoted_color(c));
    assert(q.len() == 8);
    assert forall|i: int| 0 <= i < 8 implies #[trigger] q[i] == quoted_color(p[i]) by {}
    assert(q.take(1).drop_last() =~= q.take(0));
    assert(join_comma(q.take(1)) == q[0]);
    assert(q.take(2).drop_last() =~= q.take(1));
    assert(join_comma(q.take(2)) == join_comma(q.take(1)) + ", "@ + q[1]);
    assert(q.take(3).drop_last() =~= q.take(2));
    assert(join_comma(q.take(3)) == join_comma(q.take(2)) + ", "@ + q[2]);
    assert(q.take(4).drop_last() =~= q.take(3));
    assert(join_comma(q.take(4)) == join_comma(q.take(3)) + ", "@ + q[3]);
    assert(q.take(5).drop_last() =~= q.take(4));
    assert(join_comma(q.take(5)) == join_comma(q.take(4)) + ", "@ + q[4]);
    assert(q.take(6).drop_last() =~= q.take(5));
    assert(join_comma(q.take(6)) == join_comma(q.take(5)) + ", "@ + q[5]);
    assert(q.take(7).drop_last() =~= q.take(6));
    assert(join_comma(q.take(7)) == join_comma(q.take(6)) + ", "@ + q[6]);
    assert(q.take(8).drop_last() =~= q.take(7));
    assert(q.take(8) =~= q);
    assert(join_comma(q) == join_comma(q.take(7)) + ", "@ + q[7]);
    assert(join_comma(q) =~= quoted_palette(p));
}

/// `key = "#RRGGBB"` for one setting of the scheme, alpha dropped, ending its line.
pub open spec fn scheme_setting(key: Seq<char>, c: Seq<char>) -> Seq<char> {
    key + " = \""@ + rgb_text(c) + "\"\n"@
}

/// The scheme's last two lines are its palettes: `ansi = [...]` with the eight normal colors,
/// then `brights = [...]` with the eight bright colors, each list in palette order (black, red,
/// green, yellow, blue, magenta, cyan, white) with alpha dropped.
pub proof fn law_wezterm_palettes(ir: ThemeIR)
    ensures
        ({
            let t = wezterm_theme_text(ir);
            let tail = "ansi = ["@ + quoted_palette(ir.terminal.normal.colors()) + "]\n"@
                + "brights = ["@ + quoted_palette(ir.terminal.bright.colors()) + "]\n"@;
            tail.len() <= t.len() && t.skip(t.len() - tail.len()) == tail
        }),
{
    lemma_join_comma8(ir.terminal.normal.colors());
    lemma_join_comma8(ir.terminal.bright.colors());
    let t = wezterm_theme_text(ir);
    let tail = "ansi = ["@ + quoted_palette(ir.terminal.normal.colors()) + "]\n"@ + "brights = ["@
        + quoted_palette(ir.terminal.bright.colors()) + "]\n"@;
    let head = "# Generated by chromaport\n[colors]\n"@ + toml_color_line(
        "foreground"@,
        ir.terminal.foreground@,
    ) + toml_color_line("background"@, ir.terminal.background@) + toml_color_line(
        "cursor_bg"@,
        ir.terminal.cursor@,
    ) + toml_color_line("cursor_fg"@, ir.background@) + toml_color_line(
        "cursor_border"@,
        ir.terminal.cursor@,
    ) + toml_color_line("selection_bg"@, terminal_selection_bg(ir)) + toml_color_line(
        "selection_fg"@,
        ir.foreground@,
    );
    reveal_strlit(" = [");
    reveal_strlit("ansi");
    reveal_strlit("ansi = [");
    reveal_strlit("brights");
    reveal_strlit("brights = [");
    assert("ansi"@ + " = ["@ =~= "ansi = ["@);
    assert("brights"@ + " = ["@ =~= "brights = ["@);
    assert(toml_list_line("ansi"@, ir.terminal.normal.colors()) + toml_list_line(
        "brights"@,
        ir.terminal.bright.colors(),
    ) =~= tail);
    assert(t =~= head + tail);
    assert((head + tail).skip(head.len() as int) =~= tail);
}

/// The scheme's settings: `foreground`, `background` and `cursor_bg` are the terminal's own
/// colors, `cursor_fg` is the theme background, `cursor_border` the terminal cursor,
/// `selection_bg` the terminal's selection background (the theme's where the terminal has
/// none) and `selection_fg` the theme foreground; each stands on a line of its own, in that
/// order, right after the `[colors]` header.
pub proof fn law_wezterm_settings(ir: ThemeIR)
    ensures
        ({
            let t = wezterm_theme_text(ir);
            let head = "# Generated by chromaport\n[colors]\n"@ + scheme_setting(
                "foreground"@,
                ir.terminal.foreground@,
            ) + scheme_setting("background"@, ir.terminal.background@) + scheme_setting(
                "cursor_bg"@,
                ir.terminal.cursor@,
            ) + scheme_setting("cursor_fg"@, ir.background@) + scheme_setting(
                "cursor_border"@,
                ir.terminal.cursor@,
            ) + scheme_setting(
                "selection_bg"@,
                match ir.terminal.selection_bg {
                    Some(c) => c@,
                    None => ir.selection_bg@,
                },
            ) + scheme_setting("selection_fg"@, ir.foreground@);
            head.len() <= t.len() && t.take(head.len() as int) == head
        }),
{
    let t = wezterm_theme_text(ir);
    let head = "# Generated by chromaport\n[colors]\n"@ + toml_color_line(
        "foreground"@,
        ir.terminal.foreground@,
    ) + toml_color_line("background"@, ir.terminal.background@) + toml_color_line(
        "cursor_bg"@,
        ir.terminal.cursor@,
    ) + toml_color_line("cursor_fg"@, ir.background@) + toml_color_line(
        "cursor_border"@,
        ir.terminal.cursor@,
    ) + toml_color_line("selection_bg"@, terminal_selection_bg(ir)) + toml_color_line(
        "selection_fg"@,
        ir.foreground@,
    );
    let tail = toml_list_line("ansi"@, ir.terminal.normal.colors()) + toml_list_line(
        "brights"@,
        ir.terminal.bright.colors(),
    );
    reveal_strlit(" = ");
    reveal_strlit(" = \"");
    reveal_strlit("\"\n");
    assert forall|k: Seq<char>, c: Seq<char>| #[trigger] toml_color_line(k, c) =~= scheme_setting(k, c) by {
        assert(toml_color_line(k, c) =~= k + " = \""@ + rgb_text(c) + "\"\n"@);
    }
    assert(t =~= head + tail);
    assert((head + tail).take(head.len() as int) =~= head);
}

// ── The `color_scheme` setting of wezterm.lua ──────────────────────

/// The position of the last `c` in `s`.
pub open spec fn rfind_char(s: Seq<char>, c: char) -> Option<int>
    decreases s.len(),
{
    if s.len() == 0 {
        None
    } else if s.last() == c {
        Some(s.len() - 1)
    } else {
        rfind_char(s.drop_last(), c)
    }
}

proof fn lemma_rfind_char(s: Seq<char>, c: char)
    ensures
        match rfind_char(s, c) {
            Some(i) => 0 <= i < s.len() && s[i] == c && forall|k: int| i < k < s.len() ==> s[k]
                != c,
            None => forall|k: int| 0 <= k < s.len() ==> s[k] != c,
        },
    decreases s.len(),
{
    if s.len() > 0 {
        lemma_rfind_char(s.drop_last(), c);
        assert forall|k: int| 0 <= k < s.len() - 1 implies s[k] == s.drop_last()[k] by {}
    }
}

/// The part of a key after its last `.` (`config.color_scheme` gives `color_scheme`).
pub open spec fn after_last_dot(key: Seq<char>) -> Seq<char> {
    match rfind_char(key, '.') {
        Some(d) => key.skip(d + 1),
        None => key,
    }
}

/// The key a line assigns, for a line that mentions `color_scheme`: the text before its first
/// `=`, trimmed, after its last `.`, trimmed.
pub open spec fn scheme_key(t: Seq<char>) -> Option<Seq<char>> {
    if !contains(t, "color_scheme"@) {
        None
    } else {
        match find_char(t, '=') {
            Some(e) => Some(trim(after_last_dot(trim(t.take(e))))),
            None => None,
        }
    }
}

/// The text without trailing commas.
pub open spec fn trim_end_commas(s: Seq<char>) -> Seq<char>
    decreases s.len(),
{
    if s.len() > 0 && s.last() == ',' {
        trim_end_commas(s.drop_last())
    } else {
        s
    }
}

/// The position of a Lua `--` comment in `s`, scanning from position `i` with the quoting
/// state so far and the character before `i`.
pub open spec fn comment_from(s: Seq<char>, i: int, in_single: bool, in_double: bool, prev: char) -> Option<int>
    decreases s.len() - i,
{
    if i < 0 || i >= s.len() {
        None
    } else {
        let ch = s[i];
        if ch == '"' && !in_single && prev != '\\' {
            comment_from(s, i + 1, in_single, !in_double, ch)
        } else if ch == '\'' && !in_double && prev != '\\' {
            comment_from(s, i + 1, !in_single, in_double, ch)
        } else if ch == '-' && !in_single && !in_double && i + 1 < s.len() && s[i + 1] == '-' {
            Some(i)
        } else {
            comment_from(s, i + 1, in_single, in_double, ch)
        }
    }
}

/// Where a `--` comment starts in `s`, outside string literals.
pub open spec fn inline_comment(s: Seq<char>) -> Option<int> {
    comment_from(s, 0, false, false, '\0')
}

/// The value a line assigns, after its first `=`: trimmed, without trailing commas, and
/// without an inline comment.
pub open spec fn assigned_value(t: Seq<char>) -> Seq<char> {
    let vp = match find_char(t, '=') {
        Some(e) => t.skip(e + 1),
        None => seq![],
    };
    let v = trim(trim_end_commas(trim(vp)));
    match inline_comment(v) {
        Some(i) => trim(v.take(i)),
        None => v,
    }
}

/// Whether the assigned value is a quoted string literal (`"..."` or `'...'`).
pub open spec fn literal_value(t: Seq<char>) -> bool {
    let v = assigned_value(t);
    v.len() > 0 && ((v[0] == '"' && v.last() == '"') || (v[0] == '\'' && v.last() == '\''))
}

/// A Lua comment line (after leading blanks).
pub open spec fn is_lua_comment(t: Seq<char>) -> bool {
    starts_with(t, "--"@)
}

/// A conditional line that mentions `color_scheme`.
pub open spec fn is_conditional(t: Seq<char>) -> bool {
    (starts_with(t, "if "@) || starts_with(t, "elseif "@)) && contains(t, "color_scheme"@)
}

/// A line (not a comment) that assigns `color_scheme`.
pub open spec fn assigns_scheme(l: Seq<char>) -> bool {
    let t = trim_start(l);
    !is_lua_comment(t) && !is_conditional(t) && scheme_key(t) == Some("color_scheme"@)
}

/// A line that rules out editing the config: a conditional about `color_scheme`, or a
/// `color_scheme` assignment whose value is not a string literal.
pub open spec fn blocks_edit(l: Seq<char>) -> bool {
    let t = trim_start(l);
    !is_lua_comment(t) && (is_conditional(t) || (scheme_key(t) == Some("color_scheme"@)
        && !literal_value(t)))
}

/// The config cannot be edited safely: some line blocks it, or two lines assign the scheme.
pub open spec fn scheme_edit_refused(ls: Seq<Seq<char>>) -> bool {
    (exists|k: int| 0 <= k < ls.len() && blocks_edit(#[trigger] ls[k])) || (exists|j: int, k: int|
        0 <= j < k < ls.len() && #[trigger] assigns_scheme(ls[j]) && #[trigger] assigns_scheme(
            ls[k],
        ))
}

/// The line with its quoted value replaced by `new`, keeping the quote style and whatever
/// follows the closing quote; `None` where the value is not quoted or the quote is not closed.
pub open spec fn replaced_value_line(line: Seq<char>, new: Seq<char>) -> Option<Seq<char>> {
    match find_char(line, '=') {
        None => None,
        Some(e) => {
            let after = trim_start(line.skip(e + 1));
            if after.len() == 0 || (after[0] != '"' && after[0] != '\'') {
                None
            } else {
                let q = after[0];
                let rest = after.drop_first();
                match find_char(rest, q) {
                    None => None,
                    Some(j) => Some(
                        line.take(e) + "= "@ + seq![q] + new + seq![q] + rest.skip(j + 1),
                    ),
                }
            }
        },
    }
}

/// The last line that begins (after blanks) with `return `.
pub open spec fn last_return_line(ls: Seq<Seq<char>>) -> Option<int>
    decreases ls.len(),
{
    if ls.len() == 0 {
        None
    } else if starts_with(trim_start(ls.last()), "return "@) {
        Some(ls.len() - 1)
    } else {
        last_return_line(ls.drop_last())
    }
}

/// `config.color_scheme = "name"`.
pub open spec fn scheme_line(name: Seq<char>) -> Seq<char> {
    "config.color_scheme = \""@ + name + seq!['"']
}

/// A newline where the content ends with one.
pub open spec fn final_newline(content: Seq<char>) -> Seq<char> {
    if content.len() > 0 && content.last() == '\n' {
        seq!['\n']
    } else {
        seq![]
    }
}

/// What setting the color scheme to `name` makes of the config `content`: `None` where the
/// config cannot be edited safely (see `scheme_edit_refused`), where the one assignment's value
/// cannot be replaced, or where there is no assignment and no `return` line to put one before.
pub open spec fn config_with_scheme(content: Seq<char>, name: Seq<char>) -> Option<Seq<char>> {
    let ls = lines_of(content);
    if scheme_edit_refused(ls) {
        None
    } else if exists|k: int| 0 <= k < ls.len() && assigns_scheme(#[trigger] ls[k]) {
        let k = choose|k: int| 0 <= k < ls.len() && assigns_scheme(#[trigger] ls[k]);
        match replaced_value_line(ls[k], name) {
            Some(nl) => Some(join_lines(ls.update(k, nl)) + final_newline(content)),
            None => None,
        }
    } else {
        match last_return_line(ls) {
            Some(ri) => Some(join_lines(ls.insert(ri, scheme_line(name))) + final_newline(
                content,
            )),
            None => None,
        }
    }
}

fn after_last_dot_chars(key: &Vec<char>) -> (r: Vec<char>)
    ensures
        r@ == after_last_dot(key@),
{
    let n = key.len();
    let mut j: usize = n;
    while j > 0 && key[j - 1] != '.'
        invariant
            j <= n == key.len(),
            forall|k: int| j <= k < n ==> key@[k] != '.',
        decreases j,
    {
        j -= 1;
    }
    proof {
        lemma_rfind_char(key@, '.');
    }
    if j == 0 {
        assert(key@.subrange(0, n as int) =~= key@);
        slice_chars(key, 0, n)
    } else {
        proof {
            match rfind_char(key@, '.') {
                Some(d) => {
                    assert(d == j - 1);
                },
                None => {
                    assert(key@[j - 1] == '.');
                },
            }
            assert(key@.skip(j as int) =~= key@.subrange(j as int, n as int));
        }
        slice_chars(key, j, n)
    }
}

fn scheme_key_of(t: &Vec<char>) -> (r: Option<Vec<char>>)
    ensures
        match scheme_key(t@) {
            Some(k) => r is Some && r->0@ == k,
            None => r is None,
        },
{
    let pat = chars_of("color_scheme");
    if !chars_contains(t, &pat) {
        return None;
    }
    proof {
        lemma_find_char(t@, '=');
    }
    match find_char_index(t, '=') {
        Some(e) => {
            let before = slice_chars(t, 0, e);
            assert(before@ =~= t@.take(e as int));
            let key = trim_chars(&before);
            let last = after_last_dot_chars(&key);
            Some(trim_chars(&last))
        },
        None => None,
    }
}

fn trim_end_commas_chars(v: &Vec<char>) -> (r: Vec<char>)
    ensures
        r@ == trim_end_commas(v@),
{
    let mut j: usize = v.len();
    assert(v@.subrange(0, j as int) =~= v@);
    while j > 0 && v[j - 1] == ','
        invariant
            j <= v.len(),
            trim_end_commas(v@) == trim_end_commas(v@.subrange(0, j as int)),
        decreases j,
    {
        assert(v@.subrange(0, j as int).drop_last() =~= v@.subrange(0, j - 1));
        j -= 1;
    }
    slice_chars(v, 0, j)
}

fn inline_comment_index(s: &Vec<char>) -> (r: Option<usize>)
    ensures
        match inline_comment(s@) {
            Some(i) => r == Some(i as usize) && 0 <= i < s@.len(),
            None => r is None,
        },
{
    let mut in_single = false;
    let mut in_double = false;
    let mut prev = '\0';
    let mut i: usize = 0;
    while i < s.len()
        invariant
            i <= s.len(),
            inline_comment(s@) == comment_from(s@, i as int, in_single, in_double, prev),
        decreases s.len() - i,
    {
        let ch = s[i];
        if ch == '"' && !in_single && prev != '\\' {
            in_double = !in_double;
        } else if ch == '\'' && !in_double && prev != '\\' {
            in_single = !in_single;
        } else if ch == '-' && !in_single && !in_double && i + 1 < s.len() && s[i + 1] == '-' {
            return Some(i);
        }
        prev = ch;
        i += 1;
    }
    None
}

fn assigned_value_chars(t: &Vec<char>) -> (r: Vec<char>)
    ensures
        r@ == assigned_value(t@),
{
    proof {
        lemma_find_char(t@, '=');
    }
    let vp = match find_char_index(t, '=') {
        Some(e) => {
            assert(e < t.len());
            let x = slice_chars(t, e + 1, t.len());
            assert(x@ =~= t@.skip(e + 1));
            x
        },
        None => Vec::new(),
    };
    let a = trim_chars(&vp);
    let b = trim_end_commas_chars(&a);
    let v = trim_chars(&b);
    match inline_comment_index(&v) {
        Some(i) => {
            let head = slice_chars(&v, 0, i);
            assert(head@ =~= v@.take(i as int));
            trim_chars(&head)
        },
        None => v,
    }
}

fn is_literal_value(t: &Vec<char>) -> (b: bool)
    ensures
        b == literal_value(t@),
{
    let v = assigned_value_chars(t);
    let n = v.len();
    n > 0 && ((v[0] == '"' && v[n - 1] == '"') || (v[0] == '\'' && v[n - 1] == '\''))
}

fn replace_value_line(line: &Vec<char>, new: &Vec<char>) -> (r: Option<Vec<char>>)
    ensures
        match replaced_value_line(line@, new@) {
            Some(x) => r is Some && r->0@ == x,
            None => r is None,
        },
{
    proof {
        lemma_find_char(line@, '=');
    }
    let e = match find_char_index(line, '=') {
        Some(e) => e,
        None => return None,
    };
    assert(e < line.len());
    let tail = slice_chars(line, e + 1, line.len());
    assert(tail@ =~= line@.skip(e + 1));
    let after = trim_start_chars(&tail);
    if after.len() == 0 || (after[0] != '"' && after[0] != '\'') {
        return None;
    }
    let q = after[0];
    let rest = slice_chars(&after, 1, after.len());
    assert(rest@ =~= after@.drop_first());
    proof {
        lemma_find_char(rest@, q);
    }
    let j = match find_char_index(&rest, q) {
        Some(j) => j,
        None => return None,
    };
    let mut out = slice_chars(line, 0, e);
    assert(out@ =~= line@.take(e as int));
    append_str(&mut out, "= ");
    out.push(q);
    append_chars(&mut out, new);
    out.push(q);
    let suffix = slice_chars(&rest, j + 1, rest.len());
    assert(suffix@ =~= rest@.skip(j + 1));
    append_chars(&mut out, &suffix);
    Some(out)
}

fn last_return_index(ls: &Vec<Vec<char>>) -> (r: Option<usize>)
    ensures
        match last_return_line(views(ls@)) {
            Some(i) => r == Some(i as usize) && 0 <= i < ls@.len(),
            None => r is None,
        },
{
    let ret = chars_of("return ");
    let mut j: usize = ls.len();
    assert(views(ls@).take(j as int) =~= views(ls@));
    while j > 0
        invariant
            j <= ls.len(),
            ret@ == "return "@,
            last_return_line(views(ls@)) == last_return_line(views(ls@).take(j as int)),
        decreases j,
    {
        let ghost v = views(ls@).take(j as int);
        assert(v.last() == ls@[j - 1]@);
        let t = trim_start_chars(&ls[j - 1]);
        if chars_starts_with(&t, &ret) {
            return Some(j - 1);
        }
        assert(v.drop_last() =~= views(ls@).take(j - 1));
        j -= 1;
    }
    None
}

/// Sets `color_scheme` in a WezTerm Lua config to `scheme_name` (already escaped for a Lua
/// string): the one existing assignment keeps its quotes and whatever follows them; where
/// there is none, `config.color_scheme = "..."` goes before the last `return` line. Comment
/// lines are skipped. `None` (leave the config to the user) where a conditional mentions the
/// setting, the assigned value is not a string literal, the setting is assigned twice, or there
/// is nowhere to put it. The final newline of the config is kept or left out as it was.
pub fn set_color_scheme_in_config(content: &str, scheme_name: &str) -> (r: Option<String>)
    ensures
        match config_with_scheme(content@, scheme_name@) {
            Some(x) => r is Some && r->0@ == x,
            None => r is None,
        },
{
    let text = chars_of(content);
    let mut ls = split_lines(&text);
    let ghost lv = lines_of(content@);
    assert(lv.len() == ls.len());
    let comment = chars_of("--");
    let if_kw = chars_of("if ");
    let elseif_kw = chars_of("elseif ");
    let pat = chars_of("color_scheme");
    let mut found: Option<usize> = None;
    let mut i: usize = 0;
    while i < ls.len()
        invariant
            i <= ls.len(),
            views(ls@) == lv,
            lv == lines_of(content@),
            comment@ == "--"@,
            if_kw@ == "if "@,
            elseif_kw@ == "elseif "@,
            pat@ == "color_scheme"@,
            forall|k: int| 0 <= k < i ==> !blocks_edit(#[trigger] lv[k]),
            match found {
                Some(j) => j < i && assigns_scheme(lv[j as int]) && forall|k: int|
                    0 <= k < i && k != j ==> !assigns_scheme(#[trigger] lv[k]),
                None => forall|k: int| 0 <= k < i ==> !assigns_scheme(#[trigger] lv[k]),
            },
        decreases ls.len() - i,
    {
        assert(ls@[i as int]@ == lv[i as int]);
        let t = trim_start_chars(&ls[i]);
        if !chars_starts_with(&t, &comment) {
            let cond = (chars_starts_with(&t, &if_kw) || chars_starts_with(&t, &elseif_kw))
                && chars_contains(&t, &pat);
            if cond {
                assert(blocks_edit(lv[i as int]));
                assert(scheme_edit_refused(lv));
                return None;
            }
            let key = scheme_key_of(&t);
            let is_scheme = match &key {
                Some(k) => chars_eq(k, &pat),
                None => false,
            };
            if is_scheme {
                if !is_literal_value(&t) {
                    assert(blocks_edit(lv[i as int]));
                    assert(scheme_edit_refused(lv));
                    return None;
                }
                match found {
                    Some(j) => {
                        assert(assigns_scheme(lv[j as int]) && assigns_scheme(lv[i as int]));
                        assert(scheme_edit_refused(lv));
                        return None;
                    },
                    None => {
                        found = Some(i);
                    },
                }
            } else {
                assert(!assigns_scheme(lv[i as int]) && !blocks_edit(lv[i as int]));
            }
        }
        i += 1;
    }
    assert(!scheme_edit_refused(lv));
    let name = chars_of(scheme_name);
    let mut out_lines: Vec<Vec<char>>;
    match found {
        Some(j) => {
            proof {
                assert(assigns_scheme(lv[j as int]));
                let k = choose|k: int| 0 <= k < lv.len() && assigns_scheme(#[trigger] lv[k]);
                assert(k == j);
            }
            assert(ls@[j as int]@ == lv[j as int]);
            let nl = match replace_value_line(&ls[j], &name) {
                Some(x) => x,
                None => return None,
            };
            let ghost nlv = nl@;
            ls[j] = nl;
            assert(views(ls@) =~= lv.update(j as int, nlv));
        },
        None => {
            let ri = match last_return_index(&ls) {
                Some(ri) => ri,
                None => return None,
            };
            let mut line = chars_of("config.color_scheme = \"");
            append_chars(&mut line, &name);
            line.push('"');
            let ghost lnv = line@;
            assert(lnv == scheme_line(scheme_name@));
            ls.insert(ri, line);
            assert(views(ls@) =~= lv.insert(ri as int, lnv));
        },
    }
    let mut joined = join_line_vecs(&ls);
    let n = text.len();
    if n > 0 && text[n - 1] == '\n' {
        joined.push('\n');
    } else {
        assert(joined@ + final_newline(content@) =~= joined@);
    }
    Some(string_from_chars(&joined))
}

} // verus!
