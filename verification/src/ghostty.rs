//! Ghostty: the theme file, its file name, and the `theme = ...` line of the config.
use vstd::prelude::*;
use crate::ir::{opt_color, HexColor, ThemeIR};
use crate::lines::{
    append_chars, append_str, find_char, find_char_index, join_line_vecs, join_lines,
    lemma_find_char, lemma_join_terminated, lemma_lines_have_no_newline, lemma_lines_read_back,
    lines_of, no_newline, plain_line, slice_chars, split_lines, trim_start_chars, views,
};
use crate::store::{slug_of, theme_slug};
use crate::text::{
    chars_eq, chars_of, chars_starts_with, starts_with, string_from_chars, trim, trim_chars,
    trim_end, trim_start,
};

verus! {

// ── Colors and file names ──────────────────────────────────────────

/// A color without its alpha digits: `#RRGGBBAA` becomes `#RRGGBB`, other forms stay.
pub open spec fn rgb_text(v: Seq<char>) -> Seq<char> {
    if v.len() == 9 {
        v.take(7)
    } else {
        v
    }
}

/// The color as `#RGB` or `#RRGGBB`, dropping the alpha digits of `#RRGGBBAA`.
pub fn strip_alpha(color: &HexColor) -> (r: Vec<char>)
    ensures
        r@ == rgb_text(color@),
{
    let v = chars_of(color.as_str());
    if v.len() == 9 {
        slice_chars(&v, 0, 7)
    } else {
        assert(v@.subrange(0, v.len() as int) =~= v@);
        slice_chars(&v, 0, v.len())
    }
}

/// Characters that cannot stand in a file name; each becomes `-`.
pub open spec fn unsafe_file_char(c: char) -> bool {
    c == '/' || c == '\\' || c == '\0' || c == ':' || c == '\n' || c == '\r'
}

/// The theme name with unsafe characters replaced by `-`, trimmed.
pub open spec fn safe_file_name(name: Seq<char>) -> Seq<char> {
    trim(
        name.map_values(
            |c: char|
                if unsafe_file_char(c) {
                    '-'
                } else {
                    c
                },
        ),
    )
}

/// A safe name that is empty, `.` or `..` cannot name a file; the slug stands in for it.
pub open spec fn needs_slug(name: Seq<char>) -> bool {
    let f = safe_file_name(name);
    f.len() == 0 || f == seq!['.'] || f == seq!['.', '.']
}

/// The file name a theme is written under: its own name made safe, else its slug.
pub open spec fn file_stem(name: Seq<char>) -> Seq<char> {
    if needs_slug(name) {
        slug_of(name)
    } else {
        safe_file_name(name)
    }
}

/// Whether the theme's file name falls back to its slug (see `needs_slug`).
pub fn needs_slug_name(name: &str) -> (b: bool)
    ensures
        b == needs_slug(name@),
{
    let f = safe_name_chars(name);
    let dot = f.len() == 1 && f[0] == '.';
    let dots = f.len() == 2 && f[0] == '.' && f[1] == '.';
    proof {
        if f@ == seq!['.'] {
            assert(f@[0] == '.');
        }
        if f@ == seq!['.', '.'] {
            assert(f@[0] == '.' && f@[1] == '.');
        }
        if dot {
            assert(f@ =~= seq!['.']);
        }
        if dots {
            assert(f@ =~= seq!['.', '.']);
        }
    }
    f.len() == 0 || dot || dots
}

/// The theme's file name: the name kept as it is but for characters that cannot stand in a
/// file name, or the slug where nothing usable is left.
pub fn theme_filename(name: &str) -> (r: String)
    ensures
        r@ == file_stem(name@),
{
    if needs_slug_name(name) {
        theme_slug(name)
    } else {
        let mapped = safe_name_chars(name);
        string_from_chars(&mapped)
    }
}

fn safe_name_chars(name: &str) -> (r: Vec<char>)
    ensures
        r@ == safe_file_name(name@),
{
    let v = chars_of(name);
    let mut mapped: Vec<char> = Vec::new();
    let mut i: usize = 0;
    while i < v.len()
        invariant
            i <= v.len(),
            mapped@ == v@.take(i as int).map_values(
                |c: char|
                    if unsafe_file_char(c) {
                        '-'
                    } else {
                        c
                    },
            ),
        decreases v.len() - i,
    {
        let c = v[i];
        if c == '/' || c == '\\' || c == '\0' || c == ':' || c == '\n' || c == '\r' {
            mapped.push('-');
        } else {
            mapped.push(c);
        }
        i += 1;
        assert(mapped@ =~= v@.take(i as int).map_values(
            |c: char|
                if unsafe_file_char(c) {
                    '-'
                } else {
                    c
                },
        ));
    }
    assert(v@.take(v.len() as int) =~= v@);
    trim_chars(&mapped)
}

/// The name with line breaks made spaces, so that it stays on one config line.
pub open spec fn single_line_text(name: Seq<char>) -> Seq<char> {
    name.map_values(
        |c: char|
            if c == '\n' || c == '\r' {
                ' '
            } else {
                c
            },
    )
}

/// The theme name with `\n` and `\r` replaced by spaces.
pub fn single_line_name(name: &str) -> (r: String)
    ensures
        r@ == single_line_text(name@),
{
    let v = chars_of(name);
    let mut out: Vec<char> = Vec::new();
    let mut i: usize = 0;
    while i < v.len()
        invariant
            i <= v.len(),
            out@ == single_line_text(v@.take(i as int)),
        decreases v.len() - i,
    {
        if v[i] == '\n' || v[i] == '\r' {
            out.push(' ');
        } else {
            out.push(v[i]);
        }
        i += 1;
        assert(out@ =~= single_line_text(v@.take(i as int)));
    }
    assert(v@.take(v.len() as int) =~= v@);
    string_from_chars(&out)
}

// ── The theme file ─────────────────────────────────────────────────

/// A number below 100 in decimal.
pub open spec fn small_decimal(i: int) -> Seq<char> {
    if i < 10 {
        seq![('0' as int + i) as char]
    } else {
        seq![('0' as int + i / 10) as char, ('0' as int + i % 10) as char]
    }
}

pub(crate) fn small_decimal_chars(i: u8) -> (r: Vec<char>)
    requires
        i < 100,
    ensures
        r@ == small_decimal(i as int),
{
    let mut r: Vec<char> = Vec::new();
    if i < 10 {
        r.push(((48u8 + i) as char));
    } else {
        r.push(((48u8 + i / 10) as char));
        r.push(((48u8 + i % 10) as char));
    }
    r
}

/// `key = color` (alpha dropped).
pub open spec fn setting_line(key: Seq<char>, color: Seq<char>) -> Seq<char> {
    key + " = "@ + rgb_text(color)
}

/// `palette = i=color` (alpha dropped).
pub open spec fn palette_line(i: int, color: Seq<char>) -> Seq<char> {
    "palette = "@ + small_decimal(i) + "="@ + rgb_text(color)
}

/// The selection background of the terminal: its own where it has one, else the UI one.
pub open spec fn terminal_selection_bg(ir: ThemeIR) -> Seq<char> {
    match opt_color(ir.terminal.selection_bg) {
        Some(v) => v,
        None => ir.selection_bg@,
    }
}

/// The sixteen palette colors: the normal ones, then the bright ones.
pub open spec fn palette16(ir: ThemeIR) -> Seq<Seq<char>> {
    ir.terminal.normal.colors() + ir.terminal.bright.colors()
}

/// The lines of the Ghostty theme file.
pub open spec fn ghostty_lines(ir: ThemeIR) -> Seq<Seq<char>> {
    seq![
        setting_line("background"@, ir.terminal.background@),
        setting_line("foreground"@, ir.terminal.foreground@),
        setting_line("cursor-color"@, ir.terminal.cursor@),
        setting_line("cursor-text"@, ir.background@),
        setting_line("selection-foreground"@, ir.foreground@),
        setting_line("selection-background"@, terminal_selection_bg(ir)),
    ] + Seq::new(16, |i: int| palette_line(i, palette16(ir)[i]))
}

/// The Ghostty theme file: one line per setting, each ended by a newline.
pub open spec fn ghostty_theme_text(ir: ThemeIR) -> Seq<char> {
    join_lines(ghostty_lines(ir)) + seq!['\n']
}

fn setting_chars(key: &str, color: &HexColor) -> (r: Vec<char>)
    ensures
        r@ == setting_line(key@, color@),
{
    let mut r = chars_of(key);
    append_str(&mut r, " = ");
    let c = strip_alpha(color);
    append_chars(&mut r, &c);
    r
}

fn palette_chars(i: u8, color: &HexColor) -> (r: Vec<char>)
    requires
        i < 100,
    ensures
        r@ == palette_line(i as int, color@),
{
    let mut r = chars_of("palette = ");
    let d = small_decimal_chars(i);
    append_chars(&mut r, &d);
    append_str(&mut r, "=");
    let c = strip_alpha(color);
    append_chars(&mut r, &c);
    r
}

/// The Ghostty theme file for `ir`: the terminal colors, the cursor, the selection (the
/// terminal's own selection background where it has one) and the sixteen palette entries,
/// each as `#RRGGBB` since Ghostty takes no alpha.
pub fn format_ghostty_theme(ir: &ThemeIR) -> (r: String)
    ensures
        r@ == ghostty_theme_text(*ir),
{
    let mut lines: Vec<Vec<char>> = Vec::new();
    lines.push(setting_chars("background", &ir.terminal.background));
    lines.push(setting_chars("foreground", &ir.terminal.foreground));
    lines.push(setting_chars("cursor-color", &ir.terminal.cursor));
    lines.push(setting_chars("cursor-text", &ir.background));
    lines.push(setting_chars("selection-foreground", &ir.foreground));
    let sel = match &ir.terminal.selection_bg {
        Some(c) => c,
        None => &ir.selection_bg,
    };
    lines.push(setting_chars("selection-background", sel));
    let ghost head = views(lines@);
    let normal = ir.terminal.normal.as_indexed(0);
    let bright = ir.terminal.bright.as_indexed(8);
    let ghost pal = palette16(*ir);
    let mut k: usize = 0;
    while k < 16
        invariant
            k <= 16,
            lines@.len() == 6 + k,
            views(lines@) == head + Seq::new(k as nat, |i: int| palette_line(i, pal[i])),
            pal == palette16(*ir),
            forall|i: int|
                0 <= i < 8 ==> (#[trigger] normal@[i]).0 == i && normal@[i].1@
                    == ir.terminal.normal.colors()[i],
            forall|i: int|
                0 <= i < 8 ==> (#[trigger] bright@[i]).0 == 8 + i && bright@[i].1@
                    == ir.terminal.bright.colors()[i],
        decreases 16 - k,
    {
        let ghost before = views(lines@);
        let (idx, color) = if k < 8 {
            normal[k]
        } else {
            bright[k - 8]
        };
        assert(idx == k);
        assert(color@ == pal[k as int]);
        let line = palette_chars(idx, color);
        let ghost lv = line@;
        lines.push(line);
        assert(views(lines@) =~= before.push(lv));
        k += 1;
        assert(views(lines@) =~= head + Seq::new(k as nat, |i: int| palette_line(i, pal[i])));
    }
    assert(views(lines@) =~= ghostty_lines(*ir));
    let mut out = join_line_vecs(&lines);
    out.push('\n');
    string_from_chars(&out)
}

// ── The config ─────────────────────────────────────────────────────

/// A config line that sets the theme: its key, before the first `=`, is `theme`.
pub open spec fn is_theme_setting(l: Seq<char>) -> bool {
    starts_with(trim_start(l), "theme"@) && match find_char(l, '=') {
        Some(e) => trim(l.take(e)) == "theme"@,
        None => false,
    }
}

/// `theme = name`.
pub open spec fn theme_line(name: Seq<char>) -> Seq<char> {
    "theme = "@ + name
}

/// The config lines with each theme setting replaced by `theme = name`; where there is none,
/// that line is added at the end.
pub open spec fn config_lines_with_theme(ls: Seq<Seq<char>>, name: Seq<char>) -> Seq<Seq<char>> {
    let replaced = ls.map_values(
        |l: Seq<char>|
            if is_theme_setting(l) {
                theme_line(name)
            } else {
                l
            },
    );
    if exists|k: int| 0 <= k < ls.len() && is_theme_setting(#[trigger] ls[k]) {
        replaced
    } else {
        replaced.push(theme_line(name))
    }
}

/// The config text with the theme set to `name`, every line ended by a newline.
pub open spec fn config_with_theme(content: Seq<char>, name: Seq<char>) -> Seq<char> {
    join_lines(config_lines_with_theme(lines_of(content), name)) + seq!['\n']
}

fn theme_setting_line(l: &Vec<char>) -> (b: bool)
    ensures
        b == is_theme_setting(l@),
{
    let t = trim_start_chars(l);
    let key = chars_of("theme");
    if !chars_starts_with(&t, &key) {
        return false;
    }
    proof {
        lemma_find_char(l@, '=');
    }
    match find_char_index(l, '=') {
        Some(e) => {
            let before = slice_chars(l, 0, e);
            assert(before@ =~= l@.take(e as int));
            let k = trim_chars(&before);
            chars_eq(&k, &key)
        },
        None => false,
    }
}

/// Sets the theme in a Ghostty config: every `theme = ...` line becomes `theme = name`, and
/// where there is none, `theme = name` is added at the end. Keys that only begin with `theme`
/// (such as `theme-variant`) are left alone.
pub fn set_theme_in_config(content: &str, theme_name: &str) -> (r: String)
    ensures
        r@ == config_with_theme(content@, theme_name@),
{
    let text = chars_of(content);
    let ls = split_lines(&text);
    let mut new_line = chars_of("theme = ");
    let name = chars_of(theme_name);
    append_chars(&mut new_line, &name);
    let ghost lv = lines_of(content@);
    let mut out: Vec<Vec<char>> = Vec::new();
    let mut found = false;
    let mut i: usize = 0;
    while i < ls.len()
        invariant
            i <= ls.len(),
            views(ls@) == lv,
            new_line@ == theme_line(theme_name@),
            views(out@) == lv.take(i as int).map_values(
                |l: Seq<char>|
                    if is_theme_setting(l) {
                        theme_line(theme_name@)
                    } else {
                        l
                    },
            ),
            found == exists|k: int| 0 <= k < i && is_theme_setting(#[trigger] lv[k]),
        decreases ls.len() - i,
    {
        let ghost before = views(out@);
        assert(ls@[i as int]@ == lv[i as int]);
        if theme_setting_line(&ls[i]) {
            found = true;
            let copy = slice_chars(&new_line, 0, new_line.len());
            assert(new_line@.subrange(0, new_line@.len() as int) =~= new_line@);
            out.push(copy);
            assert(views(out@) =~= before.push(theme_line(theme_name@)));
        } else {
            let copy = slice_chars(&ls[i], 0, ls[i].len());
            assert(ls@[i as int]@.subrange(0, ls@[i as int]@.len() as int) =~= ls@[i as int]@);
            out.push(copy);
            assert(views(out@) =~= before.push(lv[i as int]));
        }
        i += 1;
        assert(views(out@) =~= lv.take(i as int).map_values(
            |l: Seq<char>|
                if is_theme_setting(l) {
                    theme_line(theme_name@)
                } else {
                    l
                },
        ));
    }
    assert(lv.take(ls.len() as int) =~= lv);
    if !found {
        let ghost before = views(out@);
        let ghost nl = new_line@;
        out.push(new_line);
        assert(views(out@) =~= before.push(nl));
    }
    let mut joined = join_line_vecs(&out);
    joined.push('\n');
    string_from_chars(&joined)
}

proof fn lemma_theme_line_is_setting(name: Seq<char>)
    ensures
        is_theme_setting(theme_line(name)),
        no_newline(name) && !(name.len() > 0 && name.last() == '\r') ==> plain_line(
            theme_line(name),
        ),
{
    reveal_strlit("theme = ");
    reveal_strlit("theme");
    let t = theme_line(name);
    assert(t.len() == 8 + name.len());
    assert(t[0] == 't' && t[1] == 'h' && t[2] == 'e' && t[3] == 'm' && t[4] == 'e' && t[5] == ' '
        && t[6] == '=' && t[7] == ' ');
    assert(trim_start(t) == t);
    assert(t.take(5) =~= "theme"@);
    lemma_find_char(t, '=');
    match find_char(t, '=') {
        Some(i) => {
            assert(i == 6);
        },
        None => {
            assert(t[6] != '=');
        },
    }
    let key = t.take(6);
    assert(key =~= seq!['t', 'h', 'e', 'm', 'e', ' ']);
    assert(trim_start(key) == key);
    assert(key.drop_last() =~= seq!['t', 'h', 'e', 'm', 'e']);
    assert(trim_end(key.drop_last()) == key.drop_last());
    assert(trim(key) =~= "theme"@);
    if no_newline(name) && !(name.len() > 0 && name.last() == '\r') {
        assert forall|i: int| 0 <= i < t.len() implies #[trigger] t[i] != '\n' by {
            if i >= 8 {
                assert(t[i] == name[i - 8]);
            }
        }
        if name.len() > 0 {
            assert(t.last() == name.last());
        }
    }
}

/// The Ghostty theme's lines: `background`, `foreground` and `cursor-color` are the
/// terminal's own colors, `cursor-text` is the theme background, `selection-foreground` the
/// theme foreground and `selection-background` the terminal's selection background (the
/// theme's where the terminal has none); then `palette = 0` to `palette = 7` carry the normal
/// colors and `palette = 8` to `palette = 15` the bright ones, in palette order, alpha dropped.
pub proof fn law_ghostty_lines(ir: ThemeIR)
    ensures
        ({
            let ls = ghostty_lines(ir);
            &&& ls.len() == 22
            &&& ls[0] == "background = "@ + rgb_text(ir.terminal.background@)
            &&& ls[1] == "foreground = "@ + rgb_text(ir.terminal.foreground@)
            &&& ls[2] == "cursor-color = "@ + rgb_text(ir.terminal.cursor@)
            &&& ls[3] == "cursor-text = "@ + rgb_text(ir.background@)
            &&& ls[4] == "selection-foreground = "@ + rgb_text(ir.foreground@)
            &&& ls[5] == "selection-background = "@ + rgb_text(
                match ir.terminal.selection_bg {
                    Some(c) => c@,
                    None => ir.selection_bg@,
                },
            )
            &&& forall|i: int|
                0 <= i < 8 ==> #[trigger] ls[6 + i] == "palette = "@ + small_decimal(i) + "="@
                    + rgb_text(ir.terminal.normal.colors()[i])
            &&& forall|i: int|
                0 <= i < 8 ==> #[trigger] ls[14 + i] == "palette = "@ + small_decimal(8 + i) + "="@
                    + rgb_text(ir.terminal.bright.colors()[i])
        }),
{
    let ls = ghostty_lines(ir);
    reveal_strlit(" = ");
    reveal_strlit("background");
    reveal_strlit("background = ");
    reveal_strlit("foreground");
    reveal_strlit("foreground = ");
    reveal_strlit("cursor-color");
    reveal_strlit("cursor-color = ");
    reveal_strlit("cursor-text");
    reveal_strlit("cursor-text = ");
    reveal_strlit("selection-foreground");
    reveal_strlit("selection-foreground = ");
    reveal_strlit("selection-background");
    reveal_strlit("selection-background = ");
    assert("background"@ + " = "@ =~= "background = "@);
    assert("foreground"@ + " = "@ =~= "foreground = "@);
    assert("cursor-color"@ + " = "@ =~= "cursor-color = "@);
    assert("cursor-text"@ + " = "@ =~= "cursor-text = "@);
    assert("selection-foreground"@ + " = "@ =~= "selection-foreground = "@);
    assert("selection-background"@ + " = "@ =~= "selection-background = "@);
    assert(ls[0] =~= "background = "@ + rgb_text(ir.terminal.background@));
    assert(ls[1] =~= "foreground = "@ + rgb_text(ir.terminal.foreground@));
    assert(ls[2] =~= "cursor-color = "@ + rgb_text(ir.terminal.cursor@));
    assert(ls[3] =~= "cursor-text = "@ + rgb_text(ir.background@));
    assert(ls[4] =~= "selection-foreground = "@ + rgb_text(ir.foreground@));
    assert(ls[5] =~= "selection-background = "@ + rgb_text(terminal_selection_bg(ir)));
    assert forall|i: int| 0 <= i < 8 implies #[trigger] ls[6 + i] == "palette = "@
        + small_decimal(i) + "="@ + rgb_text(ir.terminal.normal.colors()[i]) by {
        assert(palette16(ir)[i] == ir.terminal.normal.colors()[i]);
    }
    assert forall|i: int| 0 <= i < 8 implies #[trigger] ls[14 + i] == "palette = "@
        + small_decimal(8 + i) + "="@ + rgb_text(ir.terminal.bright.colors()[i]) by {
        assert(palette16(ir)[8 + i] == ir.terminal.bright.colors()[i]);
    }
}

/// Setting the same theme a second time changes nothing: the config that `set_theme_in_config`
/// writes already has every theme setting at `name`. (The config's lines must read back as
/// themselves, so none may end in a stray `\r`, and the name must stay on one line.)
pub proof fn law_theme_set_twice(content: Seq<char>, name: Seq<char>)
    requires
        forall|k: int|
            0 <= k < lines_of(content).len() ==> !(#[trigger] lines_of(content)[k].len() > 0
                && lines_of(content)[k].last() == '\r'),
        no_newline(name),
        !(name.len() > 0 && name.last() == '\r'),
    ensures
        config_with_theme(config_with_theme(content, name), name) == config_with_theme(
            content,
            name,
        ),
{
    let ls = lines_of(content);
    lemma_lines_have_no_newline(content);
    lemma_theme_line_is_setting(name);
    let tl = theme_line(name);
    let out1 = config_lines_with_theme(ls, name);
    let replaced = ls.map_values(
        |l: Seq<char>|
            if is_theme_setting(l) {
                theme_line(name)
            } else {
                l
            },
    );
    let had = exists|k: int| 0 <= k < ls.len() && is_theme_setting(#[trigger] ls[k]);
    assert(out1 == if had {
        replaced
    } else {
        replaced.push(tl)
    });
    assert forall|j: int| 0 <= j < out1.len() implies plain_line(#[trigger] out1[j])
        && (out1[j] == tl || !is_theme_setting(out1[j])) by {
        if j < ls.len() {
            assert(out1[j] == replaced[j]);
            assert(plain_line(ls[j]));
        } else {
            assert(out1[j] == tl);
        }
    }
    assert(out1.len() > 0) by {
        if had {
            let k = choose|k: int| 0 <= k < ls.len() && is_theme_setting(#[trigger] ls[k]);
            assert(out1.len() == ls.len());
        }
    }
    lemma_join_terminated(out1);
    lemma_lines_read_back(out1);
    let text1 = config_with_theme(content, name);
    assert(lines_of(text1) == out1);
    let replaced2 = out1.map_values(
        |l: Seq<char>|
            if is_theme_setting(l) {
                theme_line(name)
            } else {
                l
            },
    );
    assert(replaced2 =~= out1);
    assert(exists|k: int| 0 <= k < out1.len() && is_theme_setting(#[trigger] out1[k])) by {
        if had {
            let k = choose|k: int| 0 <= k < ls.len() && is_theme_setting(#[trigger] ls[k]);
            assert(out1[k] == tl);
        } else {
            assert(out1[out1.len() - 1] == tl);
        }
    }
    assert(config_lines_with_theme(out1, name) == out1);
}

} // verus!
