//! Converting an OpenCode theme into the intermediate representation.
//!
//! An OpenCode theme arrives as its resolved map of string values: (key, text) pairs, each key
//! once. Entries whose value is not a string are left out, exactly as a lookup that finds no
//! string treats them.
use vstd::prelude::*;
use crate::converter::{colors_view, keys_view, lemma_six, lookup, lookup_color, parse_known};
use crate::ir::{
    opt_color, parse_hex_color, parsed_hex, parses_as_hex, str_eq, DiffColors, HexColor, SyntaxColors,
    ThemeIR, ThemeType,
};
use crate::color::{bright_white_of, derive_palette, PaletteShades};
use crate::store::{slug_of, theme_slug};

verus! {

/// The color under `key`, when its value parses as a color.
pub open spec fn color_at(theme: Seq<(Seq<char>, Seq<char>)>, key: Seq<char>) -> Option<Seq<char>> {
    match lookup(theme, key) {
        Some(v) => if parses_as_hex(v) {
            Some(parsed_hex(v))
        } else {
            None
        },
        None => None,
    }
}

/// The color in `o`, else `d`.
pub open spec fn or_else(o: Option<Seq<char>>, d: Seq<char>) -> Seq<char> {
    match o {
        Some(c) => c,
        None => d,
    }
}

/// The color under `key`, when its value parses as a color.
fn color_opt(theme: &Vec<(String, String)>, key: &str) -> (c: Option<HexColor>)
    ensures
        opt_color(c) == color_at(colors_view(theme@), key@),
{
    match lookup_color(theme, key) {
        Some(v) => match HexColor::parse(v.as_str()) {
            Ok(c) => Some(c),
            Err(_) => None,
        },
        None => None,
    }
}

/// The color under `key`, else a copy of `default`.
fn color_or(theme: &Vec<(String, String)>, key: &str, default: &HexColor) -> (c: HexColor)
    ensures
        c@ == or_else(color_at(colors_view(theme@), key@), default@),
{
    match color_opt(theme, key) {
        Some(c) => c,
        None => default.clone(),
    }
}

/// A field that must be present: its color, or the error naming it.
pub open spec fn required_color(theme: Seq<(Seq<char>, Seq<char>)>, key: Seq<char>) -> Result<
    Seq<char>,
    Seq<char>,
> {
    match lookup(theme, key) {
        None => Err("missing required field: "@ + key),
        Some(v) => match parse_hex_color(v) {
            Ok(c) => Ok(c),
            Err(e) => Err("invalid color for "@ + key + ": "@ + e),
        },
    }
}

/// A field that must be present: its color, or the error naming it.
fn get_required(theme: &Vec<(String, String)>, key: &str) -> (r: Result<HexColor, String>)
    ensures
        match required_color(colors_view(theme@), key@) {
            Ok(c) => r is Ok && r->Ok_0@ == c,
            Err(e) => r is Err && r->Err_0@ == e,
        },
{
    match lookup_color(theme, key) {
        None => {
            let mut e = String::from_str("missing required field: ");
            e.append(key);
            Err(e)
        },
        Some(v) => match HexColor::parse(v.as_str()) {
            Ok(c) => Ok(c),
            Err(msg) => {
                let mut e = String::from_str("invalid color for ");
                e.append(key);
                e.append(": ");
                e.append(msg.as_str());
                Err(e)
            },
        },
    }
}

/// The accent: `accent`, else `primary`, else a blue.
pub open spec fn opencode_accent(theme: Seq<(Seq<char>, Seq<char>)>) -> Seq<char> {
    or_else(
        color_at(theme, "accent"@),
        or_else(color_at(theme, "primary"@), parsed_hex("#0078D4"@)),
    )
}

/// The three colors a palette is derived from: background, text and accent. The background
/// and text are required; their errors come in that order.
pub fn opencode_base_colors(theme: &Vec<(String, String)>) -> (r: Result<
    (HexColor, HexColor, HexColor),
    String,
>)
    ensures
        match (
            required_color(colors_view(theme@), "background"@),
            required_color(colors_view(theme@), "text"@),
        ) {
            (Err(e), _) => r is Err && r->Err_0@ == e,
            (Ok(_), Err(e)) => r is Err && r->Err_0@ == e,
            (Ok(bg), Ok(fg)) => r is Ok && r->Ok_0.0@ == bg && r->Ok_0.1@ == fg && r->Ok_0.2@
                == opencode_accent(colors_view(theme@)),
        },
{
    let background = match get_required(theme, "background") {
        Ok(c) => c,
        Err(e) => return Err(e),
    };
    let foreground = match get_required(theme, "text") {
        Ok(c) => c,
        Err(e) => return Err(e),
    };
    let accent = match color_opt(theme, "accent") {
        Some(c) => c,
        None => match color_opt(theme, "primary") {
            Some(c) => c,
            None => {
                proof {
                    reveal_strlit("#0078D4");
                    lemma_six("#0078D4"@);
                }
                parse_known("#0078D4")
            },
        },
    };
    Ok((background, foreground, accent))
}

/// The syntax keys, in the order of `SyntaxColors::colors`.
pub open spec fn syntax_keys() -> Seq<Seq<char>> {
    seq![
        "syntaxComment"@,
        "syntaxKeyword"@,
        "syntaxFunction"@,
        "syntaxVariable"@,
        "syntaxString"@,
        "syntaxNumber"@,
        "syntaxType"@,
        "syntaxOperator"@,
        "syntaxPunctuation"@,
    ]
}

/// How many of the first `n` keys hold a color.
pub open spec fn found_count(theme: Seq<(Seq<char>, Seq<char>)>, keys: Seq<Seq<char>>, n: int) -> nat
    decreases n,
{
    if n <= 0 {
        0
    } else {
        found_count(theme, keys, n - 1) + if color_at(theme, keys[n - 1]) is Some {
            1nat
        } else {
            0nat
        }
    }
}

/// The syntax colors: present when at least three of the nine keys hold a color; each
/// missing one is a light gray.
pub open spec fn syntax_of(theme: Seq<(Seq<char>, Seq<char>)>) -> Option<Seq<Seq<char>>> {
    if found_count(theme, syntax_keys(), 9) < 3 {
        None
    } else {
        Some(
            Seq::new(9, |i: int| or_else(color_at(theme, syntax_keys()[i]), parsed_hex("#D4D4D4"@))),
        )
    }
}

/// The view of optional syntax colors.
pub open spec fn opt_syntax(s: Option<SyntaxColors>) -> Option<Seq<Seq<char>>> {
    match s {
        Some(x) => Some(x.colors()),
        None => None,
    }
}

/// Syntax colors of an OpenCode theme, when at least three are given.
pub fn extract_syntax(theme: &Vec<(String, String)>) -> (r: Option<SyntaxColors>)
    ensures
        opt_syntax(r) == syntax_of(colors_view(theme@)),
{
    let fields = [
        "syntaxComment",
        "syntaxKeyword",
        "syntaxFunction",
        "syntaxVariable",
        "syntaxString",
        "syntaxNumber",
        "syntaxType",
        "syntaxOperator",
        "syntaxPunctuation",
    ];
    assert(keys_view(fields@) =~= syntax_keys());
    let mut found: usize = 0;
    let mut i: usize = 0;
    while i < 9
        invariant
            i <= 9,
            keys_view(fields@) == syntax_keys(),
            found == found_count(colors_view(theme@), syntax_keys(), i as int),
            found <= i,
        decreases 9 - i,
    {
        assert(keys_view(fields@)[i as int] == fields@[i as int]@);
        if color_opt(theme, fields[i]).is_some() {
            found += 1;
        }
        i += 1;
    }
    if found < 3 {
        return None;
    }
    proof {
        reveal_strlit("#D4D4D4");
        lemma_six("#D4D4D4"@);
    }
    let default = parse_known("#D4D4D4");
    let s = SyntaxColors {
        comment: color_or(theme, "syntaxComment", &default),
        keyword: color_or(theme, "syntaxKeyword", &default),
        function: color_or(theme, "syntaxFunction", &default),
        variable: color_or(theme, "syntaxVariable", &default),
        string: color_or(theme, "syntaxString", &default),
        number: color_or(theme, "syntaxNumber", &default),
        type_: color_or(theme, "syntaxType", &default),
        operator: color_or(theme, "syntaxOperator", &default),
        punctuation: color_or(theme, "syntaxPunctuation", &default),
    };
    assert(s.colors() =~= syntax_of(colors_view(theme@))->Some_0);
    Some(s)
}

/// The diff colors: present when both the added and removed colors are given; the context
/// and hunk header fall back to gray and blue.
pub open spec fn diff_of(theme: Seq<(Seq<char>, Seq<char>)>) -> Option<Seq<Seq<char>>> {
    match (color_at(theme, "diffAdded"@), color_at(theme, "diffRemoved"@)) {
        (Some(a), Some(r)) => Some(
            seq![
                a,
                r,
                or_else(color_at(theme, "diffContext"@), parsed_hex("#858585"@)),
                or_else(color_at(theme, "diffHunkHeader"@), parsed_hex("#61AFEF"@)),
            ],
        ),
        _ => None,
    }
}

/// The view of optional diff colors: added, removed, context, hunk header.
pub open spec fn opt_diff(d: Option<DiffColors>) -> Option<Seq<Seq<char>>> {
    match d {
        Some(x) => Some(seq![x.added@, x.removed@, x.context@, x.hunk_header@]),
        None => None,
    }
}

/// Diff colors of an OpenCode theme, when the added and removed colors are given.
pub fn extract_diff(theme: &Vec<(String, String)>) -> (r: Option<DiffColors>)
    ensures
        opt_diff(r) == diff_of(colors_view(theme@)),
{
    let added = match color_opt(theme, "diffAdded") {
        Some(c) => c,
        None => return None,
    };
    let removed = match color_opt(theme, "diffRemoved") {
        Some(c) => c,
        None => return None,
    };
    proof {
        reveal_strlit("#858585");
        reveal_strlit("#61AFEF");
        lemma_six("#858585"@);
        lemma_six("#61AFEF"@);
    }
    let context = match color_opt(theme, "diffContext") {
        Some(c) => c,
        None => parse_known("#858585"),
    };
    let hunk_header = match color_opt(theme, "diffHunkHeader") {
        Some(c) => c,
        None => parse_known("#61AFEF"),
    };
    let d = DiffColors { added, removed, context, hunk_header };
    assert(opt_diff(Some(d))->Some_0 =~= diff_of(colors_view(theme@))->Some_0);
    Some(d)
}

/// The theme built from an OpenCode theme: background, text and accent as given; the cursor
/// and sidebar text in the text color; the optional UI colors as given or else the derived
/// `shades`; the terminal on the theme's background and text, its ANSI colors the derived ones,
/// with the semantic colors (error, success, warning, info) over red, green, yellow and blue.
pub open spec fn opencode_theme(
    ir: ThemeIR,
    name: Seq<char>,
    t: Seq<(Seq<char>, Seq<char>)>,
    theme_type: ThemeType,
    shades: PaletteShades,
    bg: Seq<char>,
    fg: Seq<char>,
) -> bool {
    &&& ir.id@ == slug_of(name)
    &&& ir.name@ == name
    &&& ir.theme_type == theme_type
    &&& ir.background@ == bg
    &&& ir.foreground@ == fg
    &&& ir.accent@ == opencode_accent(t)
    &&& ir.cursor@ == fg
    &&& ir.selection_bg@ == shades.selection_bg@
    &&& ir.border@ == or_else(color_at(t, "border"@), shades.border@)
    &&& ir.sidebar_bg@ == or_else(color_at(t, "backgroundPanel"@), shades.sidebar_bg@)
    &&& ir.sidebar_fg@ == fg
    &&& ir.input_bg@ == or_else(color_at(t, "backgroundElement"@), shades.input_bg@)
    &&& ir.muted_fg@ == or_else(color_at(t, "textMuted"@), shades.muted_fg@)
    &&& ir.chart() == shades.chart_colors@.map_values(|c: HexColor| c@)
    &&& ir.terminal.normal.colors() == seq![
        shades.normal.black@,
        or_else(color_at(t, "error"@), shades.normal.red@),
        or_else(color_at(t, "success"@), shades.normal.green@),
        or_else(color_at(t, "warning"@), shades.normal.yellow@),
        or_else(color_at(t, "info"@), shades.normal.blue@),
        shades.normal.magenta@,
        shades.normal.cyan@,
        shades.normal.white@,
    ]
    &&& ir.terminal.bright.colors() == seq![
        shades.bright_black@,
        shades.bright_red@,
        shades.bright_green@,
        shades.bright_yellow@,
        shades.bright_blue@,
        shades.bright_magenta@,
        shades.bright_cyan@,
        bright_white_of(theme_type),
    ]
    &&& ir.terminal.background@ == bg
    &&& ir.terminal.foreground@ == fg
    &&& ir.terminal.cursor@ == fg
    &&& ir.terminal.cursor_accent is None
    &&& ir.terminal.selection_bg is None
    &&& opt_syntax(ir.syntax) == syntax_of(t)
    &&& opt_diff(ir.diff) == diff_of(t)
    &&& ir.created_at is None
}

/// Convert an OpenCode theme (name + resolved theme map) into ThemeIR. What the theme leaves
/// out comes from the palette `derive_palette` builds on its background, text and accent, with
/// `shades` the shades derived from those three colors (see `opencode_base_colors`).
pub fn convert_opencode(
    name: &str,
    theme: &Vec<(String, String)>,
    theme_type: ThemeType,
    shades: PaletteShades,
) -> (r: Result<ThemeIR, String>)
    ensures
        match (
            required_color(colors_view(theme@), "background"@),
            required_color(colors_view(theme@), "text"@),
        ) {
            (Err(e), _) => r is Err && r->Err_0@ == e,
            (Ok(_), Err(e)) => r is Err && r->Err_0@ == e,
            (Ok(bg), Ok(fg)) => r is Ok && opencode_theme(
                r->Ok_0,
                name@,
                colors_view(theme@),
                theme_type,
                shades,
                bg,
                fg,
            ),
        },
{
    let (background, foreground, accent) = match opencode_base_colors(theme) {
        Ok(c) => c,
        Err(e) => return Err(e),
    };
    let ghost sh = shades;
    let base = derive_palette(&background, &foreground, &accent, &theme_type, shades);
    let ghost b = base;
    let muted_fg = match color_opt(theme, "textMuted") {
        Some(c) => c,
        None => base.muted_fg,
    };
    let border = match color_opt(theme, "border") {
        Some(c) => c,
        None => base.border,
    };
    let sidebar_bg = match color_opt(theme, "backgroundPanel") {
        Some(c) => c,
        None => base.sidebar_bg,
    };
    let input_bg = match color_opt(theme, "backgroundElement") {
        Some(c) => c,
        None => base.input_bg,
    };
    let mut terminal = base.terminal;
    match color_opt(theme, "error") {
        Some(c) => terminal.normal.red = c,
        None => {},
    }
    match color_opt(theme, "success") {
        Some(c) => terminal.normal.green = c,
        None => {},
    }
    match color_opt(theme, "warning") {
        Some(c) => terminal.normal.yellow = c,
        None => {},
    }
    match color_opt(theme, "info") {
        Some(c) => terminal.normal.blue = c,
        None => {},
    }
    let syntax = extract_syntax(theme);
    let diff = extract_diff(theme);
    let id = theme_slug(name);
    assert(base.chart() == sh.chart_colors@.map_values(|c: HexColor| c@));
    let ir = ThemeIR {
        id,
        name: String::from_str(name),
        theme_type,
        background,
        foreground,
        accent,
        cursor: base.cursor,
        selection_bg: base.selection_bg,
        border,
        sidebar_bg,
        sidebar_fg: base.sidebar_fg,
        input_bg,
        muted_fg,
        chart_colors: base.chart_colors,
        terminal,
        syntax,
        diff,
        created_at: None,
    };
    assert(ir.terminal.normal.colors() =~= seq![
        b.terminal.normal.black@,
        or_else(color_at(colors_view(theme@), "error"@), b.terminal.normal.red@),
        or_else(color_at(colors_view(theme@), "success"@), b.terminal.normal.green@),
        or_else(color_at(colors_view(theme@), "warning"@), b.terminal.normal.yellow@),
        or_else(color_at(colors_view(theme@), "info"@), b.terminal.normal.blue@),
        b.terminal.normal.magenta@,
        b.terminal.normal.cyan@,
        b.terminal.normal.white@,
    ]);
    Ok(ir)
}


// ── Theme files ────────────────────────────────────────────────────

/// A theme file's map as (key, value) where a string value is `Some(text)` and any other JSON
/// value is `None`.
pub open spec fn entries_view(e: Seq<(String, Option<String>)>) -> Seq<(Seq<char>, Option<Seq<char>>)> {
    e.map_values(|p: (String, Option<String>)| (p.0@, opt_text(p.1)))
}

/// The view of an optional text.
pub open spec fn opt_text(o: Option<String>) -> Option<Seq<char>> {
    match o {
        Some(s) => Some(s@),
        None => None,
    }
}

/// The value under `key` (its first entry), if the key is there.
pub open spec fn entry_lookup(d: Seq<(Seq<char>, Option<Seq<char>>)>, key: Seq<char>) -> Option<
    Option<Seq<char>>,
>
    decreases d.len(),
{
    if d.len() == 0 {
        None
    } else if d[0].0 == key {
        Some(d[0].1)
    } else {
        entry_lookup(d.drop_first(), key)
    }
}

/// A value with `defs` references resolved: a string naming a definition becomes the
/// definition's value; anything else stays.
pub open spec fn resolved(v: Option<Seq<char>>, defs: Seq<(Seq<char>, Option<Seq<char>>)>) -> Option<
    Seq<char>,
> {
    match v {
        Some(s) => match entry_lookup(defs, s) {
            Some(dv) => dv,
            None => Some(s),
        },
        None => None,
    }
}

fn clone_opt(o: &Option<String>) -> (r: Option<String>)
    ensures
        opt_text(r) == opt_text(*o),
{
    match o {
        Some(s) => Some(s.clone()),
        None => None,
    }
}

/// The value under `key` in `defs`, if the key is there.
fn def_value(defs: &Vec<(String, Option<String>)>, key: &String) -> (r: Option<Option<String>>)
    ensures
        match entry_lookup(entries_view(defs@), key@) {
            Some(v) => r matches Some(x) && opt_text(x) == v,
            None => r is None,
        },
{
    let mut i: usize = 0;
    assert(entries_view(defs@).subrange(0, defs.len() as int) =~= entries_view(defs@));
    while i < defs.len()
        invariant
            i <= defs.len(),
            entry_lookup(entries_view(defs@), key@) == entry_lookup(
                entries_view(defs@).subrange(i as int, defs.len() as int),
                key@,
            ),
        decreases defs.len() - i,
    {
        let ghost rest = entries_view(defs@).subrange(i as int, defs.len() as int);
        assert(rest[0] == (defs@[i as int].0@, opt_text(defs@[i as int].1)));
        if defs[i].0 == *key {
            return Some(clone_opt(&defs[i].1));
        }
        assert(rest.drop_first() =~= entries_view(defs@).subrange(i + 1, defs.len() as int));
        i += 1;
    }
    None
}

/// Resolve defs references in a theme object (one level): each value that is a string naming
/// a definition is replaced by the definition's value.
pub fn resolve_defs(theme: &Vec<(String, Option<String>)>, defs: &Vec<(String, Option<String>)>) -> (r:
    Vec<(String, Option<String>)>)
    ensures
        r@.len() == theme@.len(),
        forall|i: int|
            0 <= i < r@.len() ==> (#[trigger] r@[i]).0@ == theme@[i].0@ && opt_text(r@[i].1)
                == resolved(opt_text(theme@[i].1), entries_view(defs@)),
{
    let mut r: Vec<(String, Option<String>)> = Vec::new();
    let mut i: usize = 0;
    while i < theme.len()
        invariant
            i <= theme.len(),
            r@.len() == i,
            forall|j: int|
                0 <= j < i ==> (#[trigger] r@[j]).0@ == theme@[j].0@ && opt_text(r@[j].1)
                    == resolved(opt_text(theme@[j].1), entries_view(defs@)),
        decreases theme.len() - i,
    {
        let value = match &theme[i].1 {
            Some(s) => match def_value(defs, s) {
                Some(dv) => dv,
                None => Some(s.clone()),
            },
            None => None,
        };
        r.push((theme[i].0.clone(), value));
        i += 1;
    }
    r
}

/// The string-valued entries, in order: what lookups of text see.
pub open spec fn text_entries(e: Seq<(Seq<char>, Option<Seq<char>>)>) -> Seq<(Seq<char>, Seq<char>)>
    decreases e.len(),
{
    if e.len() == 0 {
        seq![]
    } else {
        match e.last().1 {
            Some(v) => text_entries(e.drop_last()).push((e.last().0, v)),
            None => text_entries(e.drop_last()),
        }
    }
}

/// The string-valued entries, in order.
pub fn string_entries(e: &Vec<(String, Option<String>)>) -> (r: Vec<(String, String)>)
    ensures
        colors_view(r@) == text_entries(entries_view(e@)),
{
    let ghost ev = entries_view(e@);
    let mut r: Vec<(String, String)> = Vec::new();
    let mut i: usize = 0;
    while i < e.len()
        invariant
            i <= e.len(),
            ev == entries_view(e@),
            colors_view(r@) == text_entries(ev.take(i as int)),
        decreases e.len() - i,
    {
        assert(ev.take(i + 1).drop_last() =~= ev.take(i as int));
        assert(ev.take(i + 1).last() == ev[i as int]);
        match &e[i].1 {
            Some(v) => {
                let ghost before = r@;
                let k = e[i].0.clone();
                let t = v.clone();
                r.push((k, t));
                assert(colors_view(r@) =~= colors_view(before).push((k@, t@)));
            },
            None => {},
        }
        i += 1;
    }
    assert(ev.take(e.len() as int) =~= ev);
    r
}

/// The theme's entries with each value resolved through `defs`.
pub open spec fn resolved_entries(
    theme: Seq<(Seq<char>, Option<Seq<char>>)>,
    defs: Seq<(Seq<char>, Option<Seq<char>>)>,
) -> Seq<(Seq<char>, Option<Seq<char>>)> {
    theme.map_values(|p: (Seq<char>, Option<Seq<char>>)| (p.0, resolved(p.1, defs)))
}

/// A top-level entry of a JSON object as the theme reader sees it: its key and, where its value
/// is itself an object, that object's entries (each `Some(text)` for a string, `None` for any
/// other JSON value).
pub open spec fn top_view(
    e: Seq<(String, Option<Vec<(String, Option<String>)>>)>,
) -> Seq<(Seq<char>, Option<Seq<(Seq<char>, Option<Seq<char>>)>>)> {
    e.map_values(
        |p: (String, Option<Vec<(String, Option<String>)>>)|
            (
                p.0@,
                match p.1 {
                    Some(v) => Some(entries_view(v@)),
                    None => None,
                },
            ),
    )
}

/// What `serde_json::from_str` reads from a text, as top-level entries (see `top_view`):
/// `None` where the text is no JSON object.
pub uninterp spec fn json_top_entries(raw: Seq<char>) -> Option<
    Seq<(Seq<char>, Option<Seq<(Seq<char>, Option<Seq<char>>)>>)>,
>;

/// `serde_json::from_str` of a text into a `serde_json::Value`, its top-level object's entries
/// copied out in the library's form (see `top_view`). The result is `json_top_entries` of the
/// text, a function of the text alone; what JSON reading gives for a given text is left unsaid.
#[verifier::external_body]
fn parse_json_top(raw: &str) -> (r: Option<Vec<(String, Option<Vec<(String, Option<String>)>>)>>)
    ensures
        match json_top_entries(raw@) {
            None => r is None,
            Some(t) => r matches Some(v) && top_view(v@) == t,
        },
{
    let v: serde_json::Value = serde_json::from_str(raw).ok()?;
    let pairs = |m: &serde_json::Map<String, serde_json::Value>| -> Vec<(String, Option<String>)> {
        m.iter().map(|(k, x)| (k.clone(), x.as_str().map(String::from))).collect()
    };
    Some(v.as_object()?.iter().map(|(k, x)| (k.clone(), x.as_object().map(pairs))).collect())
}

/// The value under `key` among top-level entries (its first entry), if the key is there.
pub open spec fn top_lookup(
    t: Seq<(Seq<char>, Option<Seq<(Seq<char>, Option<Seq<char>>)>>)>,
    key: Seq<char>,
) -> Option<Option<Seq<(Seq<char>, Option<Seq<char>>)>>>
    decreases t.len(),
{
    if t.len() == 0 {
        None
    } else if t[0].0 == key {
        Some(t[0].1)
    } else {
        top_lookup(t.drop_first(), key)
    }
}

/// What an OpenCode theme file holds: `None` where its text is no JSON object or holds no
/// object under `theme`; else the entries of the `theme` object and of the `defs` object (none
/// where `defs` is missing or not an object).
pub open spec fn opencode_file(raw: Seq<char>) -> Option<
    (Seq<(Seq<char>, Option<Seq<char>>)>, Seq<(Seq<char>, Option<Seq<char>>)>),
> {
    match json_top_entries(raw) {
        None => None,
        Some(t) => match top_lookup(t, "theme"@) {
            Some(Some(theme)) => Some(
                (
                    theme,
                    match top_lookup(t, "defs"@) {
                        Some(Some(d)) => d,
                        _ => seq![],
                    },
                ),
            ),
            _ => None,
        },
    }
}

/// The object under `key` among top-level entries: `Some(entries)` where the key is there and
/// its value is an object.
fn top_object(t: &Vec<(String, Option<Vec<(String, Option<String>)>>)>, key: &str) -> (r: Option<
    Vec<(String, Option<String>)>,
>)
    ensures
        match top_lookup(top_view(t@), key@) {
            Some(Some(o)) => r matches Some(v) && entries_view(v@) == o,
            _ => r is None,
        },
{
    let ghost tv = top_view(t@);
    let mut i: usize = 0;
    assert(tv.subrange(0, t.len() as int) =~= tv);
    while i < t.len()
        invariant
            i <= t.len(),
            tv == top_view(t@),
            top_lookup(tv, key@) == top_lookup(tv.subrange(i as int, t.len() as int), key@),
        decreases t.len() - i,
    {
        let ghost rest = tv.subrange(i as int, t.len() as int);
        assert(rest[0] == tv[i as int]);
        if str_eq(t[i].0.as_str(), key) {
            return match &t[i].1 {
                Some(o) => Some(clone_entries(o)),
                None => None,
            };
        }
        assert(rest.drop_first() =~= tv.subrange(i + 1, t.len() as int));
        i += 1;
    }
    None
}

fn clone_entries(v: &Vec<(String, Option<String>)>) -> (r: Vec<(String, Option<String>)>)
    ensures
        entries_view(r@) == entries_view(v@),
{
    let mut r: Vec<(String, Option<String>)> = Vec::new();
    let mut i: usize = 0;
    while i < v.len()
        invariant
            i <= v.len(),
            entries_view(r@) == entries_view(v@).take(i as int),
        decreases v.len() - i,
    {
        let ghost before = entries_view(r@);
        let k = v[i].0.clone();
        let o = clone_opt(&v[i].1);
        assert(k@ == v@[i as int].0@);
        r.push((k, o));
        assert(entries_view(r@) =~= before.push((v@[i as int].0@, opt_text(v@[i as int].1))));
        i += 1;
        assert(entries_view(r@) =~= entries_view(v@).take(i as int));
    }
    assert(entries_view(v@).take(v.len() as int) =~= entries_view(v@));
    r
}

/// The `theme` and `defs` objects of an OpenCode theme file, from its text (see
/// `opencode_file`).
fn parse_opencode_file(raw: &str) -> (r: Option<
    (Vec<(String, Option<String>)>, Vec<(String, Option<String>)>),
>)
    ensures
        match opencode_file(raw@) {
            None => r is None,
            Some(p) => r matches Some(q) && entries_view(q.0@) == p.0 && entries_view(q.1@) == p.1,
        },
{
    let top = match parse_json_top(raw) {
        Some(t) => t,
        None => return None,
    };
    let theme = match top_object(&top, "theme") {
        Some(t) => t,
        None => return None,
    };
    let defs = match top_object(&top, "defs") {
        Some(d) => d,
        None => {
            let e: Vec<(String, Option<String>)> = Vec::new();
            assert(entries_view(e@) =~= Seq::<(Seq<char>, Option<Seq<char>>)>::empty());
            e
        },
    };
    Some((theme, defs))
}

/// The colors of an OpenCode theme file, from its text: the string-valued entries of its
/// `theme` object, in order, each resolved through `defs`; `None` where the text is no theme
/// file (see `opencode_file`).
pub fn opencode_theme_from_text(raw: &str) -> (r: Option<Vec<(String, String)>>)
    ensures
        match opencode_file(raw@) {
            None => r is None,
            Some(p) => r matches Some(v) && colors_view(v@) == text_entries(
                resolved_entries(p.0, p.1),
            ),
        },
{
    match parse_opencode_file(raw) {
        None => None,
        Some((theme, defs)) => {
            let resolved_theme = resolve_defs(&theme, &defs);
            assert(entries_view(resolved_theme@) =~= resolved_entries(
                entries_view(theme@),
                entries_view(defs@),
            ));
            Some(string_entries(&resolved_theme))
        },
    }
}

} // verus!
