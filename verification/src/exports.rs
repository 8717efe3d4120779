//! What the JSON, YAML and CSS targets are given: the colors of each theme file, key by key,
//! and the theme name as it may stand in a CSS comment.
use vstd::prelude::*;
use crate::converter::colors_view;
use crate::ghostty::{palette16, small_decimal, small_decimal_chars, terminal_selection_bg};
use crate::ir::{HexColor, ThemeIR, ThemeType};
use crate::opencode::{color_at, diff_of, opencode_theme, syntax_keys, syntax_of};
use crate::color::PaletteShades;
use crate::iterm2::{hex_at, iterm2_theme, preset_color, required_keys, DerivedShades};
use crate::lines::{append_chars, append_str};
use crate::text::{chars_of, string_from_chars};

verus! {

/// A key and the color it takes.
pub open spec fn kv(key: Seq<char>, c: HexColor) -> (Seq<char>, Seq<char>) {
    (key, c@)
}

fn entry(out: &mut Vec<(String, String)>, key: &str, c: &HexColor)
    ensures
        colors_view(final(out)@) == colors_view(old(out)@).push((key@, c@)),
{
    let ghost before = colors_view(out@);
    out.push((String::from_str(key), String::from_str(c.as_str())));
    assert(colors_view(out@) =~= before.push((key@, c@)));
}

// ── OpenCode ───────────────────────────────────────────────────────

/// The syntax colors of an OpenCode theme: the theme's own where it has them, else taken from
/// the chart colors, the muted foreground, cyan and the foreground.
pub open spec fn opencode_syntax(ir: ThemeIR) -> Seq<(Seq<char>, Seq<char>)> {
    match ir.syntax {
        Some(s) => seq![
            kv("syntaxComment"@, s.comment),
            kv("syntaxKeyword"@, s.keyword),
            kv("syntaxFunction"@, s.function),
            kv("syntaxVariable"@, s.variable),
            kv("syntaxString"@, s.string),
            kv("syntaxNumber"@, s.number),
            kv("syntaxType"@, s.type_),
            kv("syntaxOperator"@, s.operator),
            kv("syntaxPunctuation"@, s.punctuation),
        ],
        None => seq![
            kv("syntaxKeyword"@, ir.chart_colors@[0]),
            kv("syntaxString"@, ir.chart_colors@[1]),
            kv("syntaxFunction"@, ir.chart_colors@[2]),
            kv("syntaxNumber"@, ir.chart_colors@[3]),
            kv("syntaxVariable"@, ir.chart_colors@[4]),
            kv("syntaxComment"@, ir.muted_fg),
            kv("syntaxType"@, ir.terminal.normal.cyan),
            kv("syntaxOperator"@, ir.foreground),
            kv("syntaxPunctuation"@, ir.muted_fg),
        ],
    }
}

/// The diff colors of an OpenCode theme: the theme's own where it has them, else green, red,
/// the muted foreground and blue.
pub open spec fn opencode_diff(ir: ThemeIR) -> Seq<(Seq<char>, Seq<char>)> {
    match ir.diff {
        Some(d) => seq![
            kv("diffAdded"@, d.added),
            kv("diffRemoved"@, d.removed),
            kv("diffContext"@, d.context),
            kv("diffHunkHeader"@, d.hunk_header),
        ],
        None => seq![
            kv("diffAdded"@, ir.terminal.normal.green),
            kv("diffRemoved"@, ir.terminal.normal.red),
            kv("diffContext"@, ir.muted_fg),
            kv("diffHunkHeader"@, ir.terminal.normal.blue),
        ],
    }
}

/// The markdown colors: headings and code from the keyword and string colors (or the first two
/// chart colors), links in the accent.
pub open spec fn opencode_markdown(ir: ThemeIR) -> Seq<(Seq<char>, Seq<char>)> {
    match ir.syntax {
        Some(s) => seq![
            kv("markdownHeading"@, s.keyword),
            kv("markdownCode"@, s.string),
            kv("markdownLink"@, ir.accent),
        ],
        None => seq![
            kv("markdownHeading"@, ir.chart_colors@[0]),
            kv("markdownCode"@, ir.chart_colors@[1]),
            kv("markdownLink"@, ir.accent),
        ],
    }
}

/// The colors of the OpenCode theme file (its `theme` object), key by key.
pub open spec fn opencode_colors(ir: ThemeIR) -> Seq<(Seq<char>, Seq<char>)> {
    seq![
        kv("primary"@, ir.accent),
        kv("secondary"@, ir.sidebar_bg),
        kv("accent"@, ir.accent),
        kv("text"@, ir.foreground),
        kv("textMuted"@, ir.muted_fg),
        kv("background"@, ir.background),
        kv("error"@, ir.terminal.normal.red),
        kv("warning"@, ir.terminal.normal.yellow),
        kv("success"@, ir.terminal.normal.green),
        kv("info"@, ir.terminal.normal.blue),
        kv("border"@, ir.border),
        kv("borderActive"@, ir.accent),
        kv("backgroundPanel"@, ir.sidebar_bg),
        kv("backgroundElement"@, ir.input_bg),
    ] + opencode_syntax(ir) + opencode_diff(ir) + opencode_markdown(ir)
}

/// The colors of the OpenCode theme file for `ir`, key by key.
pub fn opencode_theme_colors(ir: &ThemeIR) -> (r: Vec<(String, String)>)
    ensures
        colors_view(r@) == opencode_colors(*ir),
{
    let mut r: Vec<(String, String)> = Vec::new();
    entry(&mut r, "primary", &ir.accent);
    entry(&mut r, "secondary", &ir.sidebar_bg);
    entry(&mut r, "accent", &ir.accent);
    entry(&mut r, "text", &ir.foreground);
    entry(&mut r, "textMuted", &ir.muted_fg);
    entry(&mut r, "background", &ir.background);
    entry(&mut r, "error", &ir.terminal.normal.red);
    entry(&mut r, "warning", &ir.terminal.normal.yellow);
    entry(&mut r, "success", &ir.terminal.normal.green);
    entry(&mut r, "info", &ir.terminal.normal.blue);
    entry(&mut r, "border", &ir.border);
    entry(&mut r, "borderActive", &ir.accent);
    entry(&mut r, "backgroundPanel", &ir.sidebar_bg);
    entry(&mut r, "backgroundElement", &ir.input_bg);
    let ghost base = colors_view(r@);
    match &ir.syntax {
        Some(s) => {
            entry(&mut r, "syntaxComment", &s.comment);
            entry(&mut r, "syntaxKeyword", &s.keyword);
            entry(&mut r, "syntaxFunction", &s.function);
            entry(&mut r, "syntaxVariable", &s.variable);
            entry(&mut r, "syntaxString", &s.string);
            entry(&mut r, "syntaxNumber", &s.number);
            entry(&mut r, "syntaxType", &s.type_);
            entry(&mut r, "syntaxOperator", &s.operator);
            entry(&mut r, "syntaxPunctuation", &s.punctuation);
        },
        None => {
            entry(&mut r, "syntaxKeyword", &ir.chart_colors[0]);
            entry(&mut r, "syntaxString", &ir.chart_colors[1]);
            entry(&mut r, "syntaxFunction", &ir.chart_colors[2]);
            entry(&mut r, "syntaxNumber", &ir.chart_colors[3]);
            entry(&mut r, "syntaxVariable", &ir.chart_colors[4]);
            entry(&mut r, "syntaxComment", &ir.muted_fg);
            entry(&mut r, "syntaxType", &ir.terminal.normal.cyan);
            entry(&mut r, "syntaxOperator", &ir.foreground);
            entry(&mut r, "syntaxPunctuation", &ir.muted_fg);
        },
    }
    assert(colors_view(r@) =~= base + opencode_syntax(*ir));
    let ghost with_syntax = colors_view(r@);
    match &ir.diff {
        Some(d) => {
            entry(&mut r, "diffAdded", &d.added);
            entry(&mut r, "diffRemoved", &d.removed);
            entry(&mut r, "diffContext", &d.context);
            entry(&mut r, "diffHunkHeader", &d.hunk_header);
        },
        None => {
            entry(&mut r, "diffAdded", &ir.terminal.normal.green);
            entry(&mut r, "diffRemoved", &ir.terminal.normal.red);
            entry(&mut r, "diffContext", &ir.muted_fg);
            entry(&mut r, "diffHunkHeader", &ir.terminal.normal.blue);
        },
    }
    assert(colors_view(r@) =~= with_syntax + opencode_diff(*ir));
    let ghost with_diff = colors_view(r@);
    match &ir.syntax {
        Some(s) => {
            entry(&mut r, "markdownHeading", &s.keyword);
            entry(&mut r, "markdownCode", &s.string);
        },
        None => {
            entry(&mut r, "markdownHeading", &ir.chart_colors[0]);
            entry(&mut r, "markdownCode", &ir.chart_colors[1]);
        },
    }
    entry(&mut r, "markdownLink", &ir.accent);
    assert(colors_view(r@) =~= with_diff + opencode_markdown(*ir));
    r
}

// ── Superset ───────────────────────────────────────────────────────

/// The terminal colors of a Superset theme; the cursor accent and the selection background
/// appear only where the theme has them.
pub open spec fn superset_terminal(ir: ThemeIR) -> Seq<(Seq<char>, Seq<char>)> {
    let t = ir.terminal;
    seq![kv("background"@, t.background), kv("foreground"@, t.foreground), kv("cursor"@, t.cursor)]
        + match t.cursor_accent {
        Some(c) => seq![kv("cursorAccent"@, c)],
        None => seq![],
    } + match t.selection_bg {
        Some(c) => seq![kv("selectionBackground"@, c)],
        None => seq![],
    } + seq![
        kv("black"@, t.normal.black),
        kv("red"@, t.normal.red),
        kv("green"@, t.normal.green),
        kv("yellow"@, t.normal.yellow),
        kv("blue"@, t.normal.blue),
        kv("magenta"@, t.normal.magenta),
        kv("cyan"@, t.normal.cyan),
        kv("white"@, t.normal.white),
        kv("brightBlack"@, t.bright.black),
        kv("brightRed"@, t.bright.red),
        kv("brightGreen"@, t.bright.green),
        kv("brightYellow"@, t.bright.yellow),
        kv("brightBlue"@, t.bright.blue),
        kv("brightMagenta"@, t.bright.magenta),
        kv("brightCyan"@, t.bright.cyan),
        kv("brightWhite"@, t.bright.white),
    ]
}

/// The terminal colors of the Superset theme file for `ir`, key by key.
pub fn superset_terminal_colors(ir: &ThemeIR) -> (r: Vec<(String, String)>)
    ensures
        colors_view(r@) == superset_terminal(*ir),
{
    let t = &ir.terminal;
    let mut r: Vec<(String, String)> = Vec::new();
    entry(&mut r, "background", &t.background);
    entry(&mut r, "foreground", &t.foreground);
    entry(&mut r, "cursor", &t.cursor);
    let ghost head = colors_view(r@);
    match &t.cursor_accent {
        Some(c) => entry(&mut r, "cursorAccent", c),
        None => {},
    }
    match &t.selection_bg {
        Some(c) => entry(&mut r, "selectionBackground", c),
        None => {},
    }
    let ghost mid = colors_view(r@);
    assert(mid =~= head + match t.cursor_accent {
        Some(c) => seq![kv("cursorAccent"@, c)],
        None => seq![],
    } + match t.selection_bg {
        Some(c) => seq![kv("selectionBackground"@, c)],
        None => seq![],
    });
    entry(&mut r, "black", &t.normal.black);
    entry(&mut r, "red", &t.normal.red);
    entry(&mut r, "green", &t.normal.green);
    entry(&mut r, "yellow", &t.normal.yellow);
    entry(&mut r, "blue", &t.normal.blue);
    entry(&mut r, "magenta", &t.normal.magenta);
    entry(&mut r, "cyan", &t.normal.cyan);
    entry(&mut r, "white", &t.normal.white);
    entry(&mut r, "brightBlack", &t.bright.black);
    entry(&mut r, "brightRed", &t.bright.red);
    entry(&mut r, "brightGreen", &t.bright.green);
    entry(&mut r, "brightYellow", &t.bright.yellow);
    entry(&mut r, "brightBlue", &t.bright.blue);
    entry(&mut r, "brightMagenta", &t.bright.magenta);
    entry(&mut r, "brightCyan", &t.bright.cyan);
    entry(&mut r, "brightWhite", &t.bright.white);
    assert(colors_view(r@) =~= superset_terminal(*ir));
    r
}

/// The UI colors of a Superset theme, key by key; the two highlight colors are the accent
/// with an alpha of `33` and `80`.
pub open spec fn superset_ui(ir: ThemeIR) -> Seq<(Seq<char>, Seq<char>)> {
    seq![
        kv("background"@, ir.background),
        kv("foreground"@, ir.foreground),
        kv("card"@, ir.sidebar_bg),
        kv("cardForeground"@, ir.foreground),
        kv("popover"@, ir.sidebar_bg),
        kv("popoverForeground"@, ir.foreground),
        kv("primary"@, ir.accent),
        kv("primaryForeground"@, ir.background),
        kv("secondary"@, ir.input_bg),
        kv("secondaryForeground"@, ir.foreground),
        kv("muted"@, ir.input_bg),
        kv("mutedForeground"@, ir.muted_fg),
        kv("accent"@, ir.selection_bg),
        kv("accentForeground"@, ir.foreground),
        kv("tertiary"@, ir.sidebar_bg),
        kv("tertiaryActive"@, ir.input_bg),
        kv("destructive"@, ir.terminal.normal.red),
        kv("destructiveForeground"@, ir.foreground),
        kv("border"@, ir.border),
        kv("input"@, ir.input_bg),
        kv("ring"@, ir.accent),
        kv("sidebar"@, ir.sidebar_bg),
        kv("sidebarForeground"@, ir.sidebar_fg),
        kv("sidebarPrimary"@, ir.accent),
        kv("sidebarPrimaryForeground"@, ir.background),
        kv("sidebarAccent"@, ir.input_bg),
        kv("sidebarAccentForeground"@, ir.foreground),
        kv("sidebarBorder"@, ir.border),
        kv("sidebarRing"@, ir.accent),
        kv("chart1"@, ir.chart_colors@[0]),
        kv("chart2"@, ir.chart_colors@[1]),
        kv("chart3"@, ir.chart_colors@[2]),
        kv("chart4"@, ir.chart_colors@[3]),
        kv("chart5"@, ir.chart_colors@[4]),
        ("highlightMatch"@, ir.accent@ + "33"@),
        ("highlightActive"@, ir.accent@ + "80"@),
    ]
}

fn entry_with_alpha(out: &mut Vec<(String, String)>, key: &str, c: &HexColor, alpha: &str)
    ensures
        colors_view(final(out)@) == colors_view(old(out)@).push((key@, c@ + alpha@)),
{
    let ghost before = colors_view(out@);
    let mut v = String::from_str(c.as_str());
    v.append(alpha);
    out.push((String::from_str(key), v));
    assert(colors_view(out@) =~= before.push((key@, c@ + alpha@)));
}

/// The UI colors of the Superset theme file for `ir`, key by key.
pub fn superset_ui_colors(ir: &ThemeIR) -> (r: Vec<(String, String)>)
    ensures
        colors_view(r@) == superset_ui(*ir),
{
    let mut r: Vec<(String, String)> = Vec::new();
    entry(&mut r, "background", &ir.background);
    entry(&mut r, "foreground", &ir.foreground);
    entry(&mut r, "card", &ir.sidebar_bg);
    entry(&mut r, "cardForeground", &ir.foreground);
    entry(&mut r, "popover", &ir.sidebar_bg);
    entry(&mut r, "popoverForeground", &ir.foreground);
    entry(&mut r, "primary", &ir.accent);
    entry(&mut r, "primaryForeground", &ir.background);
    entry(&mut r, "secondary", &ir.input_bg);
    entry(&mut r, "secondaryForeground", &ir.foreground);
    entry(&mut r, "muted", &ir.input_bg);
    entry(&mut r, "mutedForeground", &ir.muted_fg);
    entry(&mut r, "accent", &ir.selection_bg);
    entry(&mut r, "accentForeground", &ir.foreground);
    entry(&mut r, "tertiary", &ir.sidebar_bg);
    entry(&mut r, "tertiaryActive", &ir.input_bg);
    entry(&mut r, "destructive", &ir.terminal.normal.red);
    entry(&mut r, "destructiveForeground", &ir.foreground);
    entry(&mut r, "border", &ir.border);
    entry(&mut r, "input", &ir.input_bg);
    entry(&mut r, "ring", &ir.accent);
    entry(&mut r, "sidebar", &ir.sidebar_bg);
    entry(&mut r, "sidebarForeground", &ir.sidebar_fg);
    entry(&mut r, "sidebarPrimary", &ir.accent);
    entry(&mut r, "sidebarPrimaryForeground", &ir.background);
    entry(&mut r, "sidebarAccent", &ir.input_bg);
    entry(&mut r, "sidebarAccentForeground", &ir.foreground);
    entry(&mut r, "sidebarBorder", &ir.border);
    entry(&mut r, "sidebarRing", &ir.accent);
    entry(&mut r, "chart1", &ir.chart_colors[0]);
    entry(&mut r, "chart2", &ir.chart_colors[1]);
    entry(&mut r, "chart3", &ir.chart_colors[2]);
    entry(&mut r, "chart4", &ir.chart_colors[3]);
    entry(&mut r, "chart5", &ir.chart_colors[4]);
    entry_with_alpha(&mut r, "highlightMatch", &ir.accent, "33");
    entry_with_alpha(&mut r, "highlightActive", &ir.accent, "80");
    assert(colors_view(r@) =~= superset_ui(*ir));
    r
}

// ── Warp ───────────────────────────────────────────────────────────

/// Warp's `details` setting: `darker` for a dark theme, `lighter` for a light one.
pub fn warp_details(theme_type: &ThemeType) -> (s: &'static str)
    ensures
        s@ == (match *theme_type {
            ThemeType::Dark => "darker"@,
            ThemeType::Light => "lighter"@,
        }),
{
    match theme_type {
        ThemeType::Dark => "darker",
        ThemeType::Light => "lighter",
    }
}

// ── Obsidian ───────────────────────────────────────────────────────

/// `str::replace("*/", "* /")`: every `*/` (scanning from the left) broken up by a space.
pub open spec fn css_comment_safe(s: Seq<char>) -> Seq<char>
    decreases s.len(),
{
    if s.len() == 0 {
        seq![]
    } else if s.len() >= 2 && s[0] == '*' && s[1] == '/' {
        seq!['*', ' ', '/'] + css_comment_safe(s.skip(2))
    } else {
        seq![s[0]] + css_comment_safe(s.drop_first())
    }
}

/// Text that cannot close a CSS comment: no `*` is directly followed by `/`.
pub open spec fn closes_no_comment(t: Seq<char>) -> bool {
    forall|i: int| 0 <= i < t.len() - 1 ==> !(#[trigger] t[i] == '*' && t[i + 1] == '/')
}

proof fn lemma_css_first(s: Seq<char>)
    requires
        s.len() > 0,
    ensures
        css_comment_safe(s).len() > 0,
        css_comment_safe(s)[0] == s[0],
{
}

/// The theme name put into the comment at the top of the generated CSS cannot end that
/// comment early: whatever the name, the text written has no `*/`.
pub proof fn law_css_name_cannot_close_comment(s: Seq<char>)
    ensures
        closes_no_comment(css_comment_safe(s)),
    decreases s.len(),
{
    if s.len() >= 2 && s[0] == '*' && s[1] == '/' {
        let rest = s.skip(2);
        law_css_name_cannot_close_comment(rest);
        let t = css_comment_safe(s);
        let r = css_comment_safe(rest);
        assert(t == seq!['*', ' ', '/'] + r);
        assert forall|i: int| 0 <= i < t.len() - 1 implies !(#[trigger] t[i] == '*' && t[i + 1]
            == '/') by {
            if i >= 3 {
                assert(t[i] == r[i - 3] && t[i + 1] == r[i - 2]);
            } else if i == 2 {
                assert(t[i] == '/');
            } else {
                assert(t[i + 1] == ' ' || t[i + 1] == '/');
                assert(i == 0 ==> t[i + 1] == ' ');
                assert(i == 1 ==> t[i] == ' ');
            }
        }
    } else if s.len() > 0 {
        let rest = s.drop_first();
        law_css_name_cannot_close_comment(rest);
        let t = css_comment_safe(s);
        let r = css_comment_safe(rest);
        assert(t == seq![s[0]] + r);
        if rest.len() > 0 {
            lemma_css_first(rest);
        }
        assert forall|i: int| 0 <= i < t.len() - 1 implies !(#[trigger] t[i] == '*' && t[i + 1]
            == '/') by {
            if i >= 1 {
                assert(t[i] == r[i - 1] && t[i + 1] == r[i]);
            } else {
                assert(t[1] == r[0]);
                assert(r[0] == rest[0]);
                assert(rest[0] == s[1]);
            }
        }
    }
}

/// The theme name as it may stand in a CSS comment: each `*/` becomes `* /`.
pub fn css_comment_name(name: &str) -> (r: String)
    ensures
        r@ == css_comment_safe(name@),
{
    let v = crate::text::chars_of(name);
    let n = v.len();
    let mut out: Vec<char> = Vec::new();
    let mut i: usize = 0;
    assert(v@.skip(0) =~= v@);
    while i < n
        invariant
            i <= n == v.len(),
            out@ + css_comment_safe(v@.skip(i as int)) == css_comment_safe(v@),
        decreases n - i,
    {
        let ghost rest = v@.skip(i as int);
        let ghost before = out@;
        if v[i] == '*' && i + 1 < n && v[i + 1] == '/' {
            out.push('*');
            out.push(' ');
            out.push('/');
            assert(rest.skip(2) =~= v@.skip(i + 2));
            assert(out@ =~= before + seq!['*', ' ', '/']);
            i += 2;
        } else {
            out.push(v[i]);
            assert(rest.drop_first() =~= v@.skip(i + 1));
            assert(out@ =~= before + seq![rest[0]]);
            i += 1;
        }
    }
    assert(v@.skip(n as int) =~= Seq::<char>::empty());
    assert(out@ + Seq::<char>::empty() =~= out@);
    crate::text::string_from_chars(&out)
}

// ── iTerm2 ─────────────────────────────────────────────────────────

/// `Ansi i Color`.
pub open spec fn ansi_key(i: int) -> Seq<char> {
    "Ansi "@ + small_decimal(i) + " Color"@
}

/// The colors of the iTerm2 color preset, key by key: the sixteen ANSI colors, the terminal's
/// background, foreground and cursor, the cursor text in the UI background, the selection (the
/// terminal's own where it has one), the selected text in the UI foreground, bold text in the
/// terminal foreground and links in the accent.
pub open spec fn iterm2_colors(ir: ThemeIR) -> Seq<(Seq<char>, Seq<char>)> {
    Seq::new(16, |i: int| (ansi_key(i), palette16(ir)[i])) + seq![
        kv("Background Color"@, ir.terminal.background),
        kv("Foreground Color"@, ir.terminal.foreground),
        kv("Cursor Color"@, ir.terminal.cursor),
        kv("Cursor Text Color"@, ir.background),
        ("Selection Color"@, terminal_selection_bg(ir)),
        kv("Selected Text Color"@, ir.foreground),
        kv("Bold Color"@, ir.terminal.foreground),
        kv("Link Color"@, ir.accent),
    ]
}

/// The colors of the iTerm2 color preset for `ir`, key by key.
pub fn iterm2_preset_colors(ir: &ThemeIR) -> (r: Vec<(String, String)>)
    ensures
        colors_view(r@) == iterm2_colors(*ir),
{
    let mut r: Vec<(String, String)> = Vec::new();
    let normal = ir.terminal.normal.as_indexed(0);
    let bright = ir.terminal.bright.as_indexed(8);
    let ghost pal = palette16(*ir);
    let mut k: usize = 0;
    while k < 16
        invariant
            k <= 16,
            colors_view(r@) == Seq::new(k as nat, |i: int| (ansi_key(i), pal[i])),
            pal == palette16(*ir),
            forall|i: int|
                0 <= i < 8 ==> (#[trigger] normal@[i]).0 == i && normal@[i].1@
                    == ir.terminal.normal.colors()[i],
            forall|i: int|
                0 <= i < 8 ==> (#[trigger] bright@[i]).0 == 8 + i && bright@[i].1@
                    == ir.terminal.bright.colors()[i],
        decreases 16 - k,
    {
        let ghost before = colors_view(r@);
        let (idx, color) = if k < 8 {
            normal[k]
        } else {
            bright[k - 8]
        };
        assert(idx == k);
        assert(color@ == pal[k as int]);
        let mut key = chars_of("Ansi ");
        let d = small_decimal_chars(idx);
        append_chars(&mut key, &d);
        append_str(&mut key, " Color");
        let ks = string_from_chars(&key);
        assert(ks@ == ansi_key(k as int));
        let cs = String::from_str(color.as_str());
        r.push((ks, cs));
        assert(colors_view(r@) =~= before.push((ansi_key(k as int), pal[k as int])));
        k += 1;
        assert(colors_view(r@) =~= Seq::new(k as nat, |i: int| (ansi_key(i), pal[i])));
    }
    entry(&mut r, "Background Color", &ir.terminal.background);
    entry(&mut r, "Foreground Color", &ir.terminal.foreground);
    entry(&mut r, "Cursor Color", &ir.terminal.cursor);
    entry(&mut r, "Cursor Text Color", &ir.background);
    let sel = match &ir.terminal.selection_bg {
        Some(c) => c,
        None => &ir.selection_bg,
    };
    entry(&mut r, "Selection Color", sel);
    entry(&mut r, "Selected Text Color", &ir.foreground);
    entry(&mut r, "Bold Color", &ir.terminal.foreground);
    entry(&mut r, "Link Color", &ir.accent);
    assert(colors_view(r@) =~= iterm2_colors(*ir));
    r
}

// ── Laws: each key carries its color ───────────────────────────────

/// The entries hold `key` with `value`.
pub open spec fn has_entry(s: Seq<(Seq<char>, Seq<char>)>, key: Seq<char>, value: Seq<char>) -> bool {
    exists|i: int| 0 <= i < s.len() && #[trigger] s[i] == (key, value)
}

/// Superset's terminal map: the terminal background, foreground and cursor; each ANSI name
/// (`black` to `white`) with the normal palette's color and each bright name (`brightBlack` to
/// `brightWhite`) with the bright palette's color; `cursorAccent` and `selectionBackground` with
/// the terminal's own colors where it has them; and nothing else (one entry per key).
pub proof fn law_superset_terminal_keys(ir: ThemeIR)
    ensures
        ({
            let t = superset_terminal(ir);
            &&& t.len() == 19 + (if ir.terminal.cursor_accent is Some { 1int } else { 0int }) + (
                if ir.terminal.selection_bg is Some { 1int } else { 0int })
            &&& has_entry(t, "background"@, ir.terminal.background@)
            &&& has_entry(t, "foreground"@, ir.terminal.foreground@)
            &&& has_entry(t, "cursor"@, ir.terminal.cursor@)
            &&& has_entry(t, "black"@, ir.terminal.normal.black@)
            &&& has_entry(t, "red"@, ir.terminal.normal.red@)
            &&& has_entry(t, "green"@, ir.terminal.normal.green@)
            &&& has_entry(t, "yellow"@, ir.terminal.normal.yellow@)
            &&& has_entry(t, "blue"@, ir.terminal.normal.blue@)
            &&& has_entry(t, "magenta"@, ir.terminal.normal.magenta@)
            &&& has_entry(t, "cyan"@, ir.terminal.normal.cyan@)
            &&& has_entry(t, "white"@, ir.terminal.normal.white@)
            &&& has_entry(t, "brightBlack"@, ir.terminal.bright.black@)
            &&& has_entry(t, "brightRed"@, ir.terminal.bright.red@)
            &&& has_entry(t, "brightGreen"@, ir.terminal.bright.green@)
            &&& has_entry(t, "brightYellow"@, ir.terminal.bright.yellow@)
            &&& has_entry(t, "brightBlue"@, ir.terminal.bright.blue@)
            &&& has_entry(t, "brightMagenta"@, ir.terminal.bright.magenta@)
            &&& has_entry(t, "brightCyan"@, ir.terminal.bright.cyan@)
            &&& has_entry(t, "brightWhite"@, ir.terminal.bright.white@)
            &&& (ir.terminal.cursor_accent matches Some(c) ==> has_entry(t, "cursorAccent"@, c@))
            &&& (ir.terminal.selection_bg matches Some(c) ==> has_entry(
                t,
                "selectionBackground"@,
                c@,
            ))
        }),
{
    let t = superset_terminal(ir);
    let a: int = if ir.terminal.cursor_accent is Some { 1 } else { 0 };
    let b: int = if ir.terminal.selection_bg is Some { 1 } else { 0 };
    assert(t[0] == ("background"@, ir.terminal.background@));
    assert(t[1] == ("foreground"@, ir.terminal.foreground@));
    assert(t[2] == ("cursor"@, ir.terminal.cursor@));
    assert(t[3 + a + b + 0] == ("black"@, ir.terminal.normal.black@));
    assert(t[3 + a + b + 1] == ("red"@, ir.terminal.normal.red@));
    assert(t[3 + a + b + 2] == ("green"@, ir.terminal.normal.green@));
    assert(t[3 + a + b + 3] == ("yellow"@, ir.terminal.normal.yellow@));
    assert(t[3 + a + b + 4] == ("blue"@, ir.terminal.normal.blue@));
    assert(t[3 + a + b + 5] == ("magenta"@, ir.terminal.normal.magenta@));
    assert(t[3 + a + b + 6] == ("cyan"@, ir.terminal.normal.cyan@));
    assert(t[3 + a + b + 7] == ("white"@, ir.terminal.normal.white@));
    assert(t[3 + a + b + 8] == ("brightBlack"@, ir.terminal.bright.black@));
    assert(t[3 + a + b + 9] == ("brightRed"@, ir.terminal.bright.red@));
    assert(t[3 + a + b + 10] == ("brightGreen"@, ir.terminal.bright.green@));
    assert(t[3 + a + b + 11] == ("brightYellow"@, ir.terminal.bright.yellow@));
    assert(t[3 + a + b + 12] == ("brightBlue"@, ir.terminal.bright.blue@));
    assert(t[3 + a + b + 13] == ("brightMagenta"@, ir.terminal.bright.magenta@));
    assert(t[3 + a + b + 14] == ("brightCyan"@, ir.terminal.bright.cyan@));
    assert(t[3 + a + b + 15] == ("brightWhite"@, ir.terminal.bright.white@));
    if let Some(c) = ir.terminal.cursor_accent {
        assert(t[3] == ("cursorAccent"@, c@));
    }
    if let Some(c) = ir.terminal.selection_bg {
        assert(t[3 + a] == ("selectionBackground"@, c@));
    }
}

/// Superset's UI map: each of its 36 keys with the theme color the format gives it (the
/// background, foreground, sidebar, input, accent, selection, border, muted and chart colors,
/// destructive in the normal red, and the two highlights the accent with alpha `33` and `80`),
/// one entry per key.
pub proof fn law_superset_ui_keys(ir: ThemeIR)
    ensures
        ({
            let t = superset_ui(ir);
            &&& t.len() == 36
            &&& has_entry(t, "background"@, ir.background@)
            &&& has_entry(t, "foreground"@, ir.foreground@)
            &&& has_entry(t, "card"@, ir.sidebar_bg@)
            &&& has_entry(t, "cardForeground"@, ir.foreground@)
            &&& has_entry(t, "popover"@, ir.sidebar_bg@)
            &&& has_entry(t, "popoverForeground"@, ir.foreground@)
            &&& has_entry(t, "primary"@, ir.accent@)
            &&& has_entry(t, "primaryForeground"@, ir.background@)
            &&& has_entry(t, "secondary"@, ir.input_bg@)
            &&& has_entry(t, "secondaryForeground"@, ir.foreground@)
            &&& has_entry(t, "muted"@, ir.input_bg@)
            &&& has_entry(t, "mutedForeground"@, ir.muted_fg@)
            &&& has_entry(t, "accent"@, ir.selection_bg@)
            &&& has_entry(t, "accentForeground"@, ir.foreground@)
            &&& has_entry(t, "tertiary"@, ir.sidebar_bg@)
            &&& has_entry(t, "tertiaryActive"@, ir.input_bg@)
            &&& has_entry(t, "destructive"@, ir.terminal.normal.red@)
            &&& has_entry(t, "destructiveForeground"@, ir.foreground@)
            &&& has_entry(t, "border"@, ir.border@)
            &&& has_entry(t, "input"@, ir.input_bg@)
            &&& has_entry(t, "ring"@, ir.accent@)
            &&& has_entry(t, "sidebar"@, ir.sidebar_bg@)
            &&& has_entry(t, "sidebarForeground"@, ir.sidebar_fg@)
            &&& has_entry(t, "sidebarPrimary"@, ir.accent@)
            &&& has_entry(t, "sidebarPrimaryForeground"@, ir.background@)
            &&& has_entry(t, "sidebarAccent"@, ir.input_bg@)
            &&& has_entry(t, "sidebarAccentForeground"@, ir.foreground@)
            &&& has_entry(t, "sidebarBorder"@, ir.border@)
            &&& has_entry(t, "sidebarRing"@, ir.accent@)
            &&& has_entry(t, "chart1"@, ir.chart_colors@[0]@)
            &&& has_entry(t, "chart2"@, ir.chart_colors@[1]@)
            &&& has_entry(t, "chart3"@, ir.chart_colors@[2]@)
            &&& has_entry(t, "chart4"@, ir.chart_colors@[3]@)
            &&& has_entry(t, "chart5"@, ir.chart_colors@[4]@)
            &&& has_entry(t, "highlightMatch"@, ir.accent@ + "33"@)
            &&& has_entry(t, "highlightActive"@, ir.accent@ + "80"@)
        }),
{
    let t = superset_ui(ir);
    assert(t[0] == ("background"@, ir.background@));
    assert(t[1] == ("foreground"@, ir.foreground@));
    assert(t[2] == ("card"@, ir.sidebar_bg@));
    assert(t[3] == ("cardForeground"@, ir.foreground@));
    assert(t[4] == ("popover"@, ir.sidebar_bg@));
    assert(t[5] == ("popoverForeground"@, ir.foreground@));
    assert(t[6] == ("primary"@, ir.accent@));
    assert(t[7] == ("primaryForeground"@, ir.background@));
    assert(t[8] == ("secondary"@, ir.input_bg@));
    assert(t[9] == ("secondaryForeground"@, ir.foreground@));
    assert(t[10] == ("muted"@, ir.input_bg@));
    assert(t[11] == ("mutedForeground"@, ir.muted_fg@));
    assert(t[12] == ("accent"@, ir.selection_bg@));
    assert(t[13] == ("accentForeground"@, ir.foreground@));
    assert(t[14] == ("tertiary"@, ir.sidebar_bg@));
    assert(t[15] == ("tertiaryActive"@, ir.input_bg@));
    assert(t[16] == ("destructive"@, ir.terminal.normal.red@));
    assert(t[17] == ("destructiveForeground"@, ir.foreground@));
    assert(t[18] == ("border"@, ir.border@));
    assert(t[19] == ("input"@, ir.input_bg@));
    assert(t[20] == ("ring"@, ir.accent@));
    assert(t[21] == ("sidebar"@, ir.sidebar_bg@));
    assert(t[22] == ("sidebarForeground"@, ir.sidebar_fg@));
    assert(t[23] == ("sidebarPrimary"@, ir.accent@));
    assert(t[24] == ("sidebarPrimaryForeground"@, ir.background@));
    assert(t[25] == ("sidebarAccent"@, ir.input_bg@));
    assert(t[26] == ("sidebarAccentForeground"@, ir.foreground@));
    assert(t[27] == ("sidebarBorder"@, ir.border@));
    assert(t[28] == ("sidebarRing"@, ir.accent@));
    assert(t[29] == ("chart1"@, ir.chart_colors@[0]@));
    assert(t[30] == ("chart2"@, ir.chart_colors@[1]@));
    assert(t[31] == ("chart3"@, ir.chart_colors@[2]@));
    assert(t[32] == ("chart4"@, ir.chart_colors@[3]@));
    assert(t[33] == ("chart5"@, ir.chart_colors@[4]@));
    assert(t[34] == ("highlightMatch"@, ir.accent@ + "33"@));
    assert(t[35] == ("highlightActive"@, ir.accent@ + "80"@));
}

/// OpenCode's theme object: the UI keys with the theme's colors, the semantic ones on the
/// normal ANSI colors (`error` red, `warning` yellow, `success` green, `info` blue); the syntax
/// keys from the theme's syntax colors, else from the chart colors, the muted foreground, cyan
/// and the foreground; the diff keys from the theme's diff colors, else green, red, the muted
/// foreground and blue; markdown headings and code from the keyword and string colors (or the
/// first two chart colors) and links in the accent; 30 entries, one per key.
pub proof fn law_opencode_keys(ir: ThemeIR)
    ensures
        ({
            let t = opencode_colors(ir);
            &&& t.len() == 30
            &&& has_entry(t, "primary"@, ir.accent@)
            &&& has_entry(t, "secondary"@, ir.sidebar_bg@)
            &&& has_entry(t, "accent"@, ir.accent@)
            &&& has_entry(t, "text"@, ir.foreground@)
            &&& has_entry(t, "textMuted"@, ir.muted_fg@)
            &&& has_entry(t, "background"@, ir.background@)
            &&& has_entry(t, "error"@, ir.terminal.normal.red@)
            &&& has_entry(t, "warning"@, ir.terminal.normal.yellow@)
            &&& has_entry(t, "success"@, ir.terminal.normal.green@)
            &&& has_entry(t, "info"@, ir.terminal.normal.blue@)
            &&& has_entry(t, "border"@, ir.border@)
            &&& has_entry(t, "borderActive"@, ir.accent@)
            &&& has_entry(t, "backgroundPanel"@, ir.sidebar_bg@)
            &&& has_entry(t, "backgroundElement"@, ir.input_bg@)
            &&& has_entry(t, "markdownLink"@, ir.accent@)
            &&& (ir.syntax matches Some(s) ==> {
                &&& has_entry(t, "syntaxComment"@, s.comment@)
                &&& has_entry(t, "syntaxKeyword"@, s.keyword@)
                &&& has_entry(t, "syntaxFunction"@, s.function@)
                &&& has_entry(t, "syntaxVariable"@, s.variable@)
                &&& has_entry(t, "syntaxString"@, s.string@)
                &&& has_entry(t, "syntaxNumber"@, s.number@)
                &&& has_entry(t, "syntaxType"@, s.type_@)
                &&& has_entry(t, "syntaxOperator"@, s.operator@)
                &&& has_entry(t, "syntaxPunctuation"@, s.punctuation@)
                &&& has_entry(t, "markdownHeading"@, s.keyword@)
                &&& has_entry(t, "markdownCode"@, s.string@)
            })
            &&& (ir.syntax is None ==> {
                &&& has_entry(t, "syntaxKeyword"@, ir.chart_colors@[0]@)
                &&& has_entry(t, "syntaxString"@, ir.chart_colors@[1]@)
                &&& has_entry(t, "syntaxFunction"@, ir.chart_colors@[2]@)
                &&& has_entry(t, "syntaxNumber"@, ir.chart_colors@[3]@)
                &&& has_entry(t, "syntaxVariable"@, ir.chart_colors@[4]@)
                &&& has_entry(t, "syntaxComment"@, ir.muted_fg@)
                &&& has_entry(t, "syntaxType"@, ir.terminal.normal.cyan@)
                &&& has_entry(t, "syntaxOperator"@, ir.foreground@)
                &&& has_entry(t, "syntaxPunctuation"@, ir.muted_fg@)
                &&& has_entry(t, "markdownHeading"@, ir.chart_colors@[0]@)
                &&& has_entry(t, "markdownCode"@, ir.chart_colors@[1]@)
            })
            &&& (ir.diff matches Some(d) ==> {
                &&& has_entry(t, "diffAdded"@, d.added@)
                &&& has_entry(t, "diffRemoved"@, d.removed@)
                &&& has_entry(t, "diffContext"@, d.context@)
                &&& has_entry(t, "diffHunkHeader"@, d.hunk_header@)
            })
            &&& (ir.diff is None ==> {
                &&& has_entry(t, "diffAdded"@, ir.terminal.normal.green@)
                &&& has_entry(t, "diffRemoved"@, ir.terminal.normal.red@)
                &&& has_entry(t, "diffContext"@, ir.muted_fg@)
                &&& has_entry(t, "diffHunkHeader"@, ir.terminal.normal.blue@)
            })
        }),
{
    let t = opencode_colors(ir);
    assert(t[0] == ("primary"@, ir.accent@));
    assert(t[1] == ("secondary"@, ir.sidebar_bg@));
    assert(t[2] == ("accent"@, ir.accent@));
    assert(t[3] == ("text"@, ir.foreground@));
    assert(t[4] == ("textMuted"@, ir.muted_fg@));
    assert(t[5] == ("background"@, ir.background@));
    assert(t[6] == ("error"@, ir.terminal.normal.red@));
    assert(t[7] == ("warning"@, ir.terminal.normal.yellow@));
    assert(t[8] == ("success"@, ir.terminal.normal.green@));
    assert(t[9] == ("info"@, ir.terminal.normal.blue@));
    assert(t[10] == ("border"@, ir.border@));
    assert(t[11] == ("borderActive"@, ir.accent@));
    assert(t[12] == ("backgroundPanel"@, ir.sidebar_bg@));
    assert(t[13] == ("backgroundElement"@, ir.input_bg@));
    assert(t[29] == ("markdownLink"@, ir.accent@));
    if let Some(s) = ir.syntax {
        assert(t[14] == ("syntaxComment"@, s.comment@));
        assert(t[15] == ("syntaxKeyword"@, s.keyword@));
        assert(t[16] == ("syntaxFunction"@, s.function@));
        assert(t[17] == ("syntaxVariable"@, s.variable@));
        assert(t[18] == ("syntaxString"@, s.string@));
        assert(t[19] == ("syntaxNumber"@, s.number@));
        assert(t[20] == ("syntaxType"@, s.type_@));
        assert(t[21] == ("syntaxOperator"@, s.operator@));
        assert(t[22] == ("syntaxPunctuation"@, s.punctuation@));
        assert(t[27] == ("markdownHeading"@, s.keyword@));
        assert(t[28] == ("markdownCode"@, s.string@));
    } else {
        assert(t[14] == ("syntaxKeyword"@, ir.chart_colors@[0]@));
        assert(t[15] == ("syntaxString"@, ir.chart_colors@[1]@));
        assert(t[16] == ("syntaxFunction"@, ir.chart_colors@[2]@));
        assert(t[17] == ("syntaxNumber"@, ir.chart_colors@[3]@));
        assert(t[18] == ("syntaxVariable"@, ir.chart_colors@[4]@));
        assert(t[19] == ("syntaxComment"@, ir.muted_fg@));
        assert(t[20] == ("syntaxType"@, ir.terminal.normal.cyan@));
        assert(t[21] == ("syntaxOperator"@, ir.foreground@));
        assert(t[22] == ("syntaxPunctuation"@, ir.muted_fg@));
        assert(t[27] == ("markdownHeading"@, ir.chart_colors@[0]@));
        assert(t[28] == ("markdownCode"@, ir.chart_colors@[1]@));
    }
    if let Some(d) = ir.diff {
        assert(t[23] == ("diffAdded"@, d.added@));
        assert(t[24] == ("diffRemoved"@, d.removed@));
        assert(t[25] == ("diffContext"@, d.context@));
        assert(t[26] == ("diffHunkHeader"@, d.hunk_header@));
    } else {
        assert(t[23] == ("diffAdded"@, ir.terminal.normal.green@));
        assert(t[24] == ("diffRemoved"@, ir.terminal.normal.red@));
        assert(t[25] == ("diffContext"@, ir.muted_fg@));
        assert(t[26] == ("diffHunkHeader"@, ir.terminal.normal.blue@));
    }
}

/// iTerm2's preset: `Ansi i Color` with the normal palette's color `i` for `i` below 8 and the
/// bright palette's color `i - 8` from 8 to 15; the terminal background, foreground and cursor;
/// the cursor text in the UI background; the selection in the terminal's own selection color
/// where it has one, else the UI one; the selected text in the UI foreground; bold text in the
/// terminal foreground; links in the accent; 24 entries, one per key.
pub proof fn law_iterm2_keys(ir: ThemeIR)
    ensures
        ({
            let t = iterm2_colors(ir);
            let sel = match ir.terminal.selection_bg {
                Some(c) => c@,
                None => ir.selection_bg@,
            };
            &&& t.len() == 24
            &&& forall|i: int| 0 <= i < 8 ==> has_entry(t, ansi_key(i), ir.terminal.normal.colors()[i])
            &&& forall|i: int|
                0 <= i < 8 ==> has_entry(t, ansi_key(8 + i), ir.terminal.bright.colors()[i])
            &&& has_entry(t, "Background Color"@, ir.terminal.background@)
            &&& has_entry(t, "Foreground Color"@, ir.terminal.foreground@)
            &&& has_entry(t, "Cursor Color"@, ir.terminal.cursor@)
            &&& has_entry(t, "Cursor Text Color"@, ir.background@)
            &&& has_entry(t, "Selection Color"@, sel)
            &&& has_entry(t, "Selected Text Color"@, ir.foreground@)
            &&& has_entry(t, "Bold Color"@, ir.terminal.foreground@)
            &&& has_entry(t, "Link Color"@, ir.accent@)
        }),
{
    let t = iterm2_colors(ir);
    let sel = match ir.terminal.selection_bg {
        Some(c) => c@,
        None => ir.selection_bg@,
    };
    assert forall|i: int| 0 <= i < 8 implies has_entry(t, ansi_key(i), ir.terminal.normal.colors()[i]) by {
        assert(t[i] == (ansi_key(i), ir.terminal.normal.colors()[i]));
    }
    assert forall|i: int|
        0 <= i < 8 implies has_entry(t, ansi_key(8 + i), ir.terminal.bright.colors()[i]) by {
        assert(t[8 + i] == (ansi_key(8 + i), ir.terminal.bright.colors()[i]));
    }
    assert(t[16] == ("Background Color"@, ir.terminal.background@));
    assert(t[17] == ("Foreground Color"@, ir.terminal.foreground@));
    assert(t[18] == ("Cursor Color"@, ir.terminal.cursor@));
    assert(t[19] == ("Cursor Text Color"@, ir.background@));
    assert(t[20] == ("Selection Color"@, sel));
    assert(t[21] == ("Selected Text Color"@, ir.foreground@));
    assert(t[22] == ("Bold Color"@, ir.terminal.foreground@));
    assert(t[23] == ("Link Color"@, ir.accent@));
}


proof fn lemma_ansi_key_names()
    ensures
        forall|i: int| 0 <= i < 16 ==> #[trigger] ansi_key(i) == required_keys()[i],
{
    reveal_strlit("Ansi ");
    reveal_strlit(" Color");
    reveal_strlit("Ansi 0 Color");
    reveal_strlit("Ansi 1 Color");
    reveal_strlit("Ansi 2 Color");
    reveal_strlit("Ansi 3 Color");
    reveal_strlit("Ansi 4 Color");
    reveal_strlit("Ansi 5 Color");
    reveal_strlit("Ansi 6 Color");
    reveal_strlit("Ansi 7 Color");
    reveal_strlit("Ansi 8 Color");
    reveal_strlit("Ansi 9 Color");
    reveal_strlit("Ansi 10 Color");
    reveal_strlit("Ansi 11 Color");
    reveal_strlit("Ansi 12 Color");
    reveal_strlit("Ansi 13 Color");
    reveal_strlit("Ansi 14 Color");
    reveal_strlit("Ansi 15 Color");
    assert(ansi_key(0) =~= "Ansi 0 Color"@);
    assert(ansi_key(1) =~= "Ansi 1 Color"@);
    assert(ansi_key(2) =~= "Ansi 2 Color"@);
    assert(ansi_key(3) =~= "Ansi 3 Color"@);
    assert(ansi_key(4) =~= "Ansi 4 Color"@);
    assert(ansi_key(5) =~= "Ansi 5 Color"@);
    assert(ansi_key(6) =~= "Ansi 6 Color"@);
    assert(ansi_key(7) =~= "Ansi 7 Color"@);
    assert(ansi_key(8) =~= "Ansi 8 Color"@);
    assert(ansi_key(9) =~= "Ansi 9 Color"@);
    assert(ansi_key(10) =~= "Ansi 10 Color"@);
    assert(ansi_key(11) =~= "Ansi 11 Color"@);
    assert(ansi_key(12) =~= "Ansi 12 Color"@);
    assert(ansi_key(13) =~= "Ansi 13 Color"@);
    assert(ansi_key(14) =~= "Ansi 14 Color"@);
    assert(ansi_key(15) =~= "Ansi 15 Color"@);
}

/// An iTerm2 preset read in and written back out keeps its colors: each `Ansi i Color`, the
/// background, foreground and cursor, and the selection where the preset has one come back
/// under their own keys; links come back in the preset's blue (`Ansi 4 Color`), the theme's
/// accent.
pub proof fn law_iterm2_round_trip(
    ir: ThemeIR,
    name: Seq<char>,
    p: Seq<(Seq<char>, (u8, u8, u8))>,
    theme_type: ThemeType,
    shades: DerivedShades,
)
    requires
        iterm2_theme(ir, name, p, theme_type, shades),
    ensures
        ({
            let t = iterm2_colors(ir);
            &&& forall|i: int| 0 <= i < 16 ==> has_entry(t, ansi_key(i), hex_at(p, ansi_key(i)))
            &&& has_entry(t, "Background Color"@, hex_at(p, "Background Color"@))
            &&& has_entry(t, "Foreground Color"@, hex_at(p, "Foreground Color"@))
            &&& has_entry(t, "Cursor Color"@, hex_at(p, "Cursor Color"@))
            &&& (preset_color(p, "Selection Color"@) is Ok ==> has_entry(
                t,
                "Selection Color"@,
                hex_at(p, "Selection Color"@),
            ))
            &&& has_entry(t, "Link Color"@, hex_at(p, ansi_key(4)))
        }),
{
    let t = iterm2_colors(ir);
    let k = required_keys();
    lemma_ansi_key_names();
    law_iterm2_keys(ir);
    assert forall|i: int| 0 <= i < 16 implies has_entry(t, ansi_key(i), hex_at(p, ansi_key(i))) by {
        assert(ansi_key(i) == k[i]);
        if i < 8 {
            assert(ir.terminal.normal.colors()[i] == Seq::new(8, |j: int| hex_at(p, k[j]))[i]);
            assert(has_entry(t, ansi_key(i), ir.terminal.normal.colors()[i]));
        } else {
            let j = i - 8;
            assert(ir.terminal.bright.colors()[j] == Seq::new(8, |m: int| hex_at(p, k[m + 8]))[j]);
            assert(has_entry(t, ansi_key(8 + j), ir.terminal.bright.colors()[j]));
        }
    }
    assert(ansi_key(4) == k[4]);
    assert(ir.accent@ == Seq::new(8, |j: int| hex_at(p, k[j]))[4]);
}


/// The color a theme file gives under `key`, where it gives one, stands under that key among
/// the exported colors.
pub open spec fn comes_back(
    exported: Seq<(Seq<char>, Seq<char>)>,
    t: Seq<(Seq<char>, Seq<char>)>,
    key: Seq<char>,
) -> bool {
    color_at(t, key) matches Some(c) ==> has_entry(exported, key, c)
}

/// An OpenCode theme read in and written back out keeps what it gave: its background and
/// text, and each of `accent`, `textMuted`, `error`, `warning`, `success`, `info`, `border`,
/// `backgroundPanel` and `backgroundElement` that it holds as a color; its syntax colors where
/// it gave enough of them to be read; its diff colors where it gave the added and removed ones.
pub proof fn law_opencode_round_trip(
    ir: ThemeIR,
    name: Seq<char>,
    t: Seq<(Seq<char>, Seq<char>)>,
    theme_type: ThemeType,
    shades: PaletteShades,
    bg: Seq<char>,
    fg: Seq<char>,
)
    requires
        opencode_theme(ir, name, t, theme_type, shades, bg, fg),
    ensures
        ({
            let oc = opencode_colors(ir);
            &&& has_entry(oc, "background"@, bg)
            &&& has_entry(oc, "text"@, fg)
            &&& comes_back(oc, t, "accent"@)
            &&& comes_back(oc, t, "textMuted"@)
            &&& comes_back(oc, t, "error"@)
            &&& comes_back(oc, t, "warning"@)
            &&& comes_back(oc, t, "success"@)
            &&& comes_back(oc, t, "info"@)
            &&& comes_back(oc, t, "border"@)
            &&& comes_back(oc, t, "backgroundPanel"@)
            &&& comes_back(oc, t, "backgroundElement"@)
            &&& (syntax_of(t) is Some ==> forall|i: int|
                0 <= i < 9 ==> comes_back(oc, t, #[trigger] syntax_keys()[i]))
            &&& (color_at(t, "diffAdded"@) is Some && color_at(t, "diffRemoved"@) is Some ==> {
                &&& comes_back(oc, t, "diffAdded"@)
                &&& comes_back(oc, t, "diffRemoved"@)
                &&& comes_back(oc, t, "diffContext"@)
                &&& comes_back(oc, t, "diffHunkHeader"@)
            })
        }),
{
    let oc = opencode_colors(ir);
    law_opencode_keys(ir);
    assert(ir.terminal.normal.colors()[1] == ir.terminal.normal.red@);
    assert(ir.terminal.normal.colors()[2] == ir.terminal.normal.green@);
    assert(ir.terminal.normal.colors()[3] == ir.terminal.normal.yellow@);
    assert(ir.terminal.normal.colors()[4] == ir.terminal.normal.blue@);
    if syntax_of(t) is Some {
        let s = ir.syntax->Some_0;
        let cs = syntax_of(t)->Some_0;
        assert(s.colors() == cs);
        assert forall|i: int| 0 <= i < 9 implies comes_back(oc, t, #[trigger] syntax_keys()[i]) by {
            assert(cs[i] == crate::opencode::or_else(
                color_at(t, syntax_keys()[i]),
                crate::ir::parsed_hex("#D4D4D4"@),
            ));
        }
    }
    if color_at(t, "diffAdded"@) is Some && color_at(t, "diffRemoved"@) is Some {
        let d = ir.diff->Some_0;
        assert(seq![d.added@, d.removed@, d.context@, d.hunk_header@] == diff_of(t)->Some_0);
    }
}

} // verus!
