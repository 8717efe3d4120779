//! Converting a VS Code theme into the intermediate representation.
use vstd::prelude::*;
use crate::reader::ThemeEntry;
use crate::store::{slug_of, theme_slug};
use crate::ir::{
    law_parse_canonical, lemma_parsed_hex_valid, opt_color, valid_hex_color,
    parse_hex_color, parsed_hex, parses_as_hex, ui_theme_type,
    AnsiColors, AnsiPalette, HexColor, ThemeIR, ThemeType,
};
use crate::text::{
    chars_of, chars_starts_with, is_hex_digit, is_upper_hex_digit, starts_with, str_eq_chars, string_from_chars, trim,
    trim_chars,
};

verus! {

broadcast use vstd::array::group_array_axioms;

// ── Colors map ─────────────────────────────────────────────────────

/// The `colors` map of a theme as (key, value) texts.
pub open spec fn colors_view(colors: Seq<(String, String)>) -> Seq<(Seq<char>, Seq<char>)> {
    colors.map_values(|p: (String, String)| (p.0@, p.1@))
}

/// The value of `key` in `colors` (its first entry; keys of a map occur once).
pub open spec fn lookup(colors: Seq<(Seq<char>, Seq<char>)>, key: Seq<char>) -> Option<Seq<char>>
    decreases colors.len(),
{
    if colors.len() == 0 {
        None
    } else if colors[0].0 == key {
        Some(colors[0].1)
    } else {
        lookup(colors.drop_first(), key)
    }
}

/// The value of `key` in `colors`.
pub fn lookup_color<'a>(colors: &'a Vec<(String, String)>, key: &str) -> (r: Option<&'a String>)
    ensures
        match lookup(colors_view(colors@), key@) {
            Some(v) => r is Some && r->0@ == v,
            None => r is None,
        },
{
    let kv = chars_of(key);
    let mut i: usize = 0;
    assert(colors_view(colors@).subrange(0, colors.len() as int) =~= colors_view(colors@));
    while i < colors.len()
        invariant
            i <= colors.len(),
            kv@ == key@,
            lookup(colors_view(colors@), key@) == lookup(
                colors_view(colors@).subrange(i as int, colors.len() as int),
                key@,
            ),
        decreases colors.len() - i,
    {
        let ghost rest = colors_view(colors@).subrange(i as int, colors.len() as int);
        assert(rest[0] == (colors@[i as int].0@, colors@[i as int].1@));
        if str_eq_chars(colors[i].0.as_str(), &kv) {
            return Some(&colors[i].1);
        }
        assert(rest.drop_first() =~= colors_view(colors@).subrange(i + 1, colors.len() as int));
        i += 1;
    }
    None
}

/// The first of `keys` whose value in `colors` is a valid color gives the color; else the
/// fallback text (or black if the fallback is not a color either).
pub open spec fn pick_color(
    colors: Seq<(Seq<char>, Seq<char>)>,
    keys: Seq<Seq<char>>,
    fallback: Seq<char>,
) -> Seq<char>
    decreases keys.len(),
{
    if keys.len() == 0 {
        if parses_as_hex(fallback) {
            parsed_hex(fallback)
        } else {
            "#000000"@
        }
    } else {
        match lookup(colors, keys[0]) {
            Some(v) => if parses_as_hex(v) {
                parsed_hex(v)
            } else {
                pick_color(colors, keys.drop_first(), fallback)
            },
            None => pick_color(colors, keys.drop_first(), fallback),
        }
    }
}

/// The views of a list of keys.
pub open spec fn keys_view(keys: Seq<&str>) -> Seq<Seq<char>> {
    keys.map_values(|k: &str| k@)
}

proof fn lemma_black_parses()
    ensures
        parse_hex_color("#000000"@) == Ok::<Seq<char>, Seq<char>>("#000000"@),
{
    reveal_strlit("#000000");
    crate::ir::law_parse_canonical("#000000"@);
}

/// Extract a color from the VS Code colors map, with fallback chain.
pub fn get_color(colors: &Vec<(String, String)>, keys: &[&str], fallback: &str) -> (c: HexColor)
    ensures
        c@ == pick_color(colors_view(colors@), keys_view(keys@), fallback@),
{
    let mut i: usize = 0;
    assert(keys_view(keys@).subrange(0, keys@.len() as int) =~= keys_view(keys@));
    while i < keys.len()
        invariant
            i <= keys@.len(),
            pick_color(colors_view(colors@), keys_view(keys@), fallback@) == pick_color(
                colors_view(colors@),
                keys_view(keys@).subrange(i as int, keys@.len() as int),
                fallback@,
            ),
        decreases keys@.len() - i,
    {
        let ghost rest = keys_view(keys@).subrange(i as int, keys@.len() as int);
        assert(rest[0] == keys@[i as int]@);
        assert(rest.drop_first() =~= keys_view(keys@).subrange(i + 1, keys@.len() as int));
        if let Some(val) = lookup_color(colors, keys[i]) {
            if let Ok(c) = HexColor::parse(val.as_str()) {
                return c;
            }
        }
        i += 1;
    }
    match HexColor::parse(fallback) {
        Ok(c) => c,
        Err(_) => {
            proof {
                lemma_black_parses();
            }
            HexColor::parse("#000000").unwrap()
        },
    }
}


// ── Defaults ───────────────────────────────────────────────────────

/// The fallback palette of a theme type, used where the theme leaves a color out.
pub struct ThemeDefaults {
    pub background: &'static str,
    pub foreground: &'static str,
    pub accent: &'static str,
    pub cursor: &'static str,
    pub selection_bg: &'static str,
    pub border: &'static str,
    pub sidebar_bg: &'static str,
    pub sidebar_fg: &'static str,
    pub input_bg: &'static str,
    pub muted_fg: &'static str,
    pub ansi_black: &'static str,
    pub ansi_red: &'static str,
    pub ansi_green: &'static str,
    pub ansi_yellow: &'static str,
    pub ansi_blue: &'static str,
    pub ansi_magenta: &'static str,
    pub ansi_cyan: &'static str,
    pub ansi_white: &'static str,
    pub ansi_bright_black: &'static str,
    pub ansi_bright_red: &'static str,
    pub ansi_bright_green: &'static str,
    pub ansi_bright_yellow: &'static str,
    pub ansi_bright_blue: &'static str,
    pub ansi_bright_magenta: &'static str,
    pub ansi_bright_cyan: &'static str,
    pub ansi_bright_white: &'static str,
}

/// The default dark palette (fallback when keys are missing).
pub open spec fn dark_defaults() -> Seq<Seq<char>> {
    seq![
        "#1e1e1e"@, "#d4d4d4"@, "#0078d4"@, "#d4d4d4"@, "#264f78"@, "#3e3e3e"@, "#1e1e1e"@,
        "#d4d4d4"@, "#1e1e1e"@, "#858585"@,
        "#000000"@, "#cd3131"@, "#0dbc79"@, "#e5e510"@, "#2472c8"@, "#bc3fbc"@, "#11a8cd"@,
        "#e5e5e5"@,
        "#666666"@, "#f14c4c"@, "#23d18b"@, "#f5f543"@, "#3b8eea"@, "#d670d6"@, "#29b8db"@,
        "#e5e5e5"@,
    ]
}

/// The default light palette.
pub open spec fn light_defaults() -> Seq<Seq<char>> {
    seq![
        "#ffffff"@, "#000000"@, "#0078d4"@, "#000000"@, "#add6ff"@, "#cecece"@, "#f3f3f3"@,
        "#000000"@, "#ffffff"@, "#717171"@,
        "#000000"@, "#cd3131"@, "#00bc00"@, "#949800"@, "#0451a5"@, "#bc05bc"@, "#0598bc"@,
        "#555555"@,
        "#666666"@, "#cd3131"@, "#14ce14"@, "#b5ba00"@, "#0451a5"@, "#bc05bc"@, "#0598bc"@,
        "#a5a5a5"@,
    ]
}

/// The default palette of a theme type.
pub open spec fn defaults_for(theme_type: ThemeType) -> Seq<Seq<char>> {
    match theme_type {
        ThemeType::Dark => dark_defaults(),
        ThemeType::Light => light_defaults(),
    }
}

impl ThemeDefaults {
    /// The 26 defaults in order: background, foreground, accent, cursor, selection_bg, border,
    /// sidebar_bg, sidebar_fg, input_bg, muted_fg, then the eight normal and the eight bright
    /// ANSI colors (black, red, green, yellow, blue, magenta, cyan, white).
    pub open spec fn values(&self) -> Seq<Seq<char>> {
        seq![
            self.background@, self.foreground@, self.accent@, self.cursor@, self.selection_bg@,
            self.border@, self.sidebar_bg@, self.sidebar_fg@, self.input_bg@, self.muted_fg@,
            self.ansi_black@, self.ansi_red@, self.ansi_green@, self.ansi_yellow@,
            self.ansi_blue@, self.ansi_magenta@, self.ansi_cyan@, self.ansi_white@,
            self.ansi_bright_black@, self.ansi_bright_red@, self.ansi_bright_green@,
            self.ansi_bright_yellow@, self.ansi_bright_blue@, self.ansi_bright_magenta@,
            self.ansi_bright_cyan@, self.ansi_bright_white@,
        ]
    }
}

/// The fallback palette of a theme type.
pub fn defaults(theme_type: &ThemeType) -> (d: ThemeDefaults)
    ensures
        d.values() == defaults_for(*theme_type),
{
    match theme_type {
        ThemeType::Dark => ThemeDefaults {
            background: "#1e1e1e",
            foreground: "#d4d4d4",
            accent: "#0078d4",
            cursor: "#d4d4d4",
            selection_bg: "#264f78",
            border: "#3e3e3e",
            sidebar_bg: "#1e1e1e",
            sidebar_fg: "#d4d4d4",
            input_bg: "#1e1e1e",
            muted_fg: "#858585",
            ansi_black: "#000000",
            ansi_red: "#cd3131",
            ansi_green: "#0dbc79",
            ansi_yellow: "#e5e510",
            ansi_blue: "#2472c8",
            ansi_magenta: "#bc3fbc",
            ansi_cyan: "#11a8cd",
            ansi_white: "#e5e5e5",
            ansi_bright_black: "#666666",
            ansi_bright_red: "#f14c4c",
            ansi_bright_green: "#23d18b",
            ansi_bright_yellow: "#f5f543",
            ansi_bright_blue: "#3b8eea",
            ansi_bright_magenta: "#d670d6",
            ansi_bright_cyan: "#29b8db",
            ansi_bright_white: "#e5e5e5",
        },
        ThemeType::Light => ThemeDefaults {
            background: "#ffffff",
            foreground: "#000000",
            accent: "#0078d4",
            cursor: "#000000",
            selection_bg: "#add6ff",
            border: "#cecece",
            sidebar_bg: "#f3f3f3",
            sidebar_fg: "#000000",
            input_bg: "#ffffff",
            muted_fg: "#717171",
            ansi_black: "#000000",
            ansi_red: "#cd3131",
            ansi_green: "#00bc00",
            ansi_yellow: "#949800",
            ansi_blue: "#0451a5",
            ansi_magenta: "#bc05bc",
            ansi_cyan: "#0598bc",
            ansi_white: "#555555",
            ansi_bright_black: "#666666",
            ansi_bright_red: "#cd3131",
            ansi_bright_green: "#14ce14",
            ansi_bright_yellow: "#b5ba00",
            ansi_bright_blue: "#0451a5",
            ansi_bright_magenta: "#bc05bc",
            ansi_bright_cyan: "#0598bc",
            ansi_bright_white: "#a5a5a5",
        },
    }
}

// ── Token colors ───────────────────────────────────────────────────

/// The `scope` of a token color rule: absent, one comma-separated string, or a list.
pub enum ScopeValue {
    NoScope,
    Single(String),
    Multiple(Vec<String>),
}

/// `str::split` on a single character: the pieces between separators, empty ones included.
pub open spec fn split_on(s: Seq<char>, sep: char) -> Seq<Seq<char>>
    decreases s.len(),
{
    if s.len() == 0 {
        seq![seq![]]
    } else {
        let rest = split_on(s.drop_first(), sep);
        if s[0] == sep {
            seq![seq![]] + rest
        } else {
            rest.update(0, seq![s[0]] + rest[0])
        }
    }
}

proof fn lemma_split_nonempty(s: Seq<char>, sep: char)
    ensures
        split_on(s, sep).len() >= 1,
    decreases s.len(),
{
    if s.len() > 0 {
        lemma_split_nonempty(s.drop_first(), sep);
    }
}

/// `cur` put in front of the first piece of `pieces`.
pub open spec fn prepend_first(cur: Seq<char>, pieces: Seq<Seq<char>>) -> Seq<Seq<char>> {
    pieces.update(0, cur + pieces[0])
}

/// The views of a list of strings.
pub open spec fn strings_view(v: Seq<String>) -> Seq<Seq<char>> {
    v.map_values(|s: String| s@)
}

/// The scopes of a rule: a single string is split on commas and each piece trimmed.
pub open spec fn scope_list(sv: ScopeValue) -> Seq<Seq<char>> {
    match sv {
        ScopeValue::NoScope => seq![],
        ScopeValue::Single(s) => split_on(s@, ',').map_values(|p: Seq<char>| trim(p)),
        ScopeValue::Multiple(v) => strings_view(v@),
    }
}

fn split_commas(v: &Vec<char>) -> (pieces: Vec<Vec<char>>)
    ensures
        pieces@.len() == split_on(v@, ',').len(),
        forall|i: int| 0 <= i < pieces@.len() ==> #[trigger] pieces@[i]@ == split_on(v@, ',')[i],
{
    let mut done: Vec<Vec<char>> = Vec::new();
    let mut cur: Vec<char> = Vec::new();
    let mut i: usize = 0;
    proof {
        lemma_split_nonempty(v@, ',');
        assert(v@.subrange(0, v.len() as int) =~= v@);
        assert(prepend_first(cur@, split_on(v@, ',')) =~= split_on(v@, ','));
    }
    while i < v.len()
        invariant
            i <= v.len(),
            done@.map_values(|p: Vec<char>| p@) + prepend_first(
                cur@,
                split_on(v@.subrange(i as int, v.len() as int), ','),
            ) == split_on(v@, ','),
        decreases v.len() - i,
    {
        let ghost rest = v@.subrange(i as int, v.len() as int);
        let ghost old_done = done@.map_values(|p: Vec<char>| p@);
        let ghost old_cur = cur@;
        assert(rest.drop_first() =~= v@.subrange(i + 1, v.len() as int));
        assert(rest[0] == v@[i as int]);
        proof {
            lemma_split_nonempty(rest.drop_first(), ',');
        }
        if v[i] == ',' {
            let piece = cur;
            done.push(piece);
            cur = Vec::new();
            proof {
                let sp = split_on(rest.drop_first(), ',');
                assert(prepend_first(seq![], sp) =~= sp);
                assert(done@.map_values(|p: Vec<char>| p@) =~= old_done.push(old_cur));
                assert(prepend_first(old_cur, seq![seq![]] + sp) =~= seq![old_cur] + sp);
                assert(old_done.push(old_cur) + sp =~= old_done + (seq![old_cur] + sp));
            }
        } else {
            cur.push(v[i]);
            proof {
                let sp = split_on(rest.drop_first(), ',');
                assert(cur@ =~= old_cur + seq![v@[i as int]]);
                assert(old_cur + (seq![v@[i as int]] + sp[0]) =~= cur@ + sp[0]);
                assert(prepend_first(old_cur, sp.update(0, seq![v@[i as int]] + sp[0]))
                    =~= prepend_first(cur@, sp));
            }
        }
        i += 1;
    }
    proof {
        assert(v@.subrange(v.len() as int, v.len() as int) =~= Seq::<char>::empty());
        assert(prepend_first(cur@, seq![seq![]]) =~= seq![cur@]);
    }
    let ghost before = done@.map_values(|p: Vec<char>| p@);
    done.push(cur);
    assert(done@.map_values(|p: Vec<char>| p@) =~= split_on(v@, ','));
    proof {
        assert forall|i: int| 0 <= i < done@.len() implies #[trigger] done@[i]@ == split_on(
            v@,
            ',',
        )[i] by {
            assert(done@.map_values(|p: Vec<char>| p@)[i] == done@[i]@);
        }
    }
    done
}

impl ScopeValue {
    /// The scopes of a rule.
    pub fn to_scopes(&self) -> (r: Vec<String>)
        ensures
            strings_view(r@) == scope_list(*self),
    {
        match self {
            ScopeValue::NoScope => {
                let r: Vec<String> = Vec::new();
                assert(strings_view(r@) =~= Seq::<Seq<char>>::empty());
                r
            },
            ScopeValue::Single(s) => {
                let chars = chars_of(s.as_str());
                let pieces = split_commas(&chars);
                let mut out: Vec<String> = Vec::new();
                let mut i: usize = 0;
                while i < pieces.len()
                    invariant
                        i <= pieces.len(),
                        out@.len() == i,
                        chars@ == s@,
                        pieces@.len() == split_on(chars@, ',').len(),
                        forall|k: int|
                            0 <= k < pieces@.len() ==> #[trigger] pieces@[k]@ == split_on(
                                chars@,
                                ',',
                            )[k],
                        strings_view(out@) == split_on(chars@, ',').take(i as int).map_values(
                            |p: Seq<char>| trim(p),
                        ),
                    decreases pieces.len() - i,
                {
                    let t = trim_chars(&pieces[i]);
                    assert(pieces@[i as int]@ == split_on(chars@, ',')[i as int]);
                    let ghost before = out@;
                    out.push(string_from_chars(&t));
                    assert(out@ == before.push(out@[i as int]));
                    assert(out@[i as int]@ == trim(split_on(chars@, ',')[i as int]));
                    i += 1;
                    assert forall|k: int| 0 <= k < i implies #[trigger] strings_view(out@)[k]
                        == split_on(chars@, ',').take(i as int).map_values(|p: Seq<char>| trim(p))[k] by {
                        if k < i - 1 {
                            assert(strings_view(out@)[k] == strings_view(before)[k]);
                        }
                    }
                    assert(strings_view(out@) =~= split_on(chars@, ',').take(i as int).map_values(
                        |p: Seq<char>| trim(p),
                    ));
                }
                assert(split_on(chars@, ',').take(pieces.len() as int) =~= split_on(chars@, ','));
                out
            },
            ScopeValue::Multiple(v) => {
                let mut out: Vec<String> = Vec::new();
                let mut i: usize = 0;
                while i < v.len()
                    invariant
                        i <= v.len(),
                        out@.len() == i,
                        strings_view(out@) == strings_view(v@).take(i as int),
                    decreases v.len() - i,
                {
                    let ghost before = out@;
                    let c = v[i].clone();
                    assert(c@ == v@[i as int]@);
                    out.push(c);
                    assert(out@ == before.push(c));
                    i += 1;
                    assert(strings_view(out@) =~= strings_view(v@).take(i as int));
                }
                assert(strings_view(v@).take(v.len() as int) =~= strings_view(v@));
                out
            },
        }
    }
}


/// The `settings` of a token color rule.
pub struct TokenSettings {
    pub foreground: Option<String>,
}

/// One entry of a theme's `tokenColors`.
pub struct TokenColorRule {
    pub name: Option<String>,
    pub scope: ScopeValue,
    pub settings: TokenSettings,
}

/// A VS Code theme file, as far as the conversion reads it.
pub struct VsCodeThemeJson {
    pub colors: Vec<(String, String)>,
    pub token_colors: Vec<TokenColorRule>,
}

/// Some scope starts with some prefix.
pub open spec fn scope_matches(scopes: Seq<Seq<char>>, prefixes: Seq<Seq<char>>) -> bool {
    exists|i: int, j: int|
        0 <= i < scopes.len() && 0 <= j < prefixes.len() && starts_with(
            #[trigger] scopes[i],
            #[trigger] prefixes[j],
        )
}

/// The color that a rule gives to a group of scope prefixes: its foreground, if that is a valid
/// color and one of its scopes starts with one of the prefixes.
pub open spec fn rule_color(rule: TokenColorRule, prefixes: Seq<Seq<char>>) -> Option<Seq<char>> {
    match rule.settings.foreground {
        Some(fg) => if parses_as_hex(fg@) && scope_matches(scope_list(rule.scope), prefixes) {
            Some(parsed_hex(fg@))
        } else {
            None
        },
        None => None,
    }
}

/// The color of the first rule that gives one.
pub open spec fn first_rule_color(rules: Seq<TokenColorRule>, prefixes: Seq<Seq<char>>) -> Option<
    Seq<char>,
>
    decreases rules.len(),
{
    if rules.len() == 0 {
        None
    } else {
        match rule_color(rules[0], prefixes) {
            Some(c) => Some(c),
            None => first_rule_color(rules.drop_first(), prefixes),
        }
    }
}

/// The scope prefixes of chart color `g`, in priority order.
pub open spec fn chart_prefixes(g: int) -> Seq<Seq<char>> {
    if g == 0 {
        seq!["keyword"@, "storage.type"@, "keyword.operator"@]
    } else if g == 1 {
        seq!["string"@, "string.template"@]
    } else if g == 2 {
        seq!["entity.name.function"@, "support.function"@]
    } else if g == 3 {
        seq!["constant.numeric"@, "constant.language"@]
    } else {
        seq!["entity.name.tag"@, "variable.language"@]
    }
}

/// The fallback of chart color `g`.
pub open spec fn chart_fallback(g: int, dark: bool) -> Seq<char> {
    if dark {
        if g == 0 {
            "#e06c75"@
        } else if g == 1 {
            "#98c379"@
        } else if g == 2 {
            "#61afef"@
        } else if g == 3 {
            "#c678dd"@
        } else {
            "#56b6c2"@
        }
    } else {
        if g == 0 {
            "#a31515"@
        } else if g == 1 {
            "#498205"@
        } else if g == 2 {
            "#0000ff"@
        } else if g == 3 {
            "#811f3f"@
        } else {
            "#0070c1"@
        }
    }
}

/// Chart color `g` of a theme with these rules.
pub open spec fn chart_color(rules: Seq<TokenColorRule>, g: int, dark: bool) -> Seq<char> {
    match first_rule_color(rules, chart_prefixes(g)) {
        Some(c) => c,
        None => parsed_hex(chart_fallback(g, dark)),
    }
}

fn chart_prefixes_exec(g: usize) -> (p: Vec<&'static str>)
    requires
        g < 5,
    ensures
        keys_view(p@) == chart_prefixes(g as int),
{
    let p = if g == 0 {
        vec!["keyword", "storage.type", "keyword.operator"]
    } else if g == 1 {
        vec!["string", "string.template"]
    } else if g == 2 {
        vec!["entity.name.function", "support.function"]
    } else if g == 3 {
        vec!["constant.numeric", "constant.language"]
    } else {
        vec!["entity.name.tag", "variable.language"]
    };
    assert(keys_view(p@) =~= chart_prefixes(g as int));
    p
}

pub(crate) fn parse_known(s: &str) -> (c: HexColor)
    requires
        parses_as_hex(s@),
    ensures
        c@ == parsed_hex(s@),
{
    HexColor::parse(s).unwrap()
}

pub(crate) proof fn lemma_six(s: Seq<char>)
    requires
        s.len() == 7,
        s[0] == '#',
        forall|i: int| 1 <= i < 7 ==> is_hex_digit(#[trigger] s[i]),
    ensures
        parses_as_hex(s),
{
    crate::ir::lemma_parse_six_digits(s);
}

fn chart_fallback_color(g: usize, dark: bool) -> (c: HexColor)
    requires
        g < 5,
    ensures
        c@ == parsed_hex(chart_fallback(g as int, dark)),
{
    proof {
        reveal_strlit("#e06c75");
        reveal_strlit("#98c379");
        reveal_strlit("#61afef");
        reveal_strlit("#c678dd");
        reveal_strlit("#56b6c2");
        reveal_strlit("#a31515");
        reveal_strlit("#498205");
        reveal_strlit("#0000ff");
        reveal_strlit("#811f3f");
        reveal_strlit("#0070c1");
        lemma_six("#e06c75"@);
        lemma_six("#98c379"@);
        lemma_six("#61afef"@);
        lemma_six("#c678dd"@);
        lemma_six("#56b6c2"@);
        lemma_six("#a31515"@);
        lemma_six("#498205"@);
        lemma_six("#0000ff"@);
        lemma_six("#811f3f"@);
        lemma_six("#0070c1"@);
    }
    let s = if dark {
        if g == 0 {
            "#e06c75"
        } else if g == 1 {
            "#98c379"
        } else if g == 2 {
            "#61afef"
        } else if g == 3 {
            "#c678dd"
        } else {
            "#56b6c2"
        }
    } else {
        if g == 0 {
            "#a31515"
        } else if g == 1 {
            "#498205"
        } else if g == 2 {
            "#0000ff"
        } else if g == 3 {
            "#811f3f"
        } else {
            "#0070c1"
        }
    };
    parse_known(s)
}

/// Whether some scope starts with some prefix.
fn any_scope_matches(scopes: &Vec<String>, prefixes: &Vec<&str>) -> (b: bool)
    ensures
        b == scope_matches(strings_view(scopes@), keys_view(prefixes@)),
{
    let mut i: usize = 0;
    while i < scopes.len()
        invariant
            i <= scopes.len(),
            forall|a: int, b: int|
                0 <= a < i && 0 <= b < prefixes@.len() ==> !starts_with(
                    #[trigger] strings_view(scopes@)[a],
                    #[trigger] keys_view(prefixes@)[b],
                ),
        decreases scopes.len() - i,
    {
        let sc = chars_of(scopes[i].as_str());
        let mut j: usize = 0;
        while j < prefixes.len()
            invariant
                i < scopes.len(),
                j <= prefixes.len(),
                sc@ == scopes@[i as int]@,
                forall|b: int|
                    0 <= b < j ==> !starts_with(
                        strings_view(scopes@)[i as int],
                        #[trigger] keys_view(prefixes@)[b],
                    ),
            decreases prefixes.len() - j,
        {
            let pv = chars_of(prefixes[j]);
            if chars_starts_with(&sc, &pv) {
                assert(starts_with(strings_view(scopes@)[i as int], keys_view(prefixes@)[j as int]));
                return true;
            }
            j += 1;
        }
        i += 1;
    }
    false
}

/// Chart colors: for each group of scope prefixes, the first rule with a valid foreground and a
/// matching scope gives the color; else the group's fallback for the theme type.
pub fn extract_chart_colors(token_colors: &[TokenColorRule], theme_type: &ThemeType) -> (r: [HexColor; 5])
    ensures
        forall|g: int|
            0 <= g < 5 ==> (#[trigger] r@[g])@ == chart_color(
                token_colors@,
                g,
                *theme_type == ThemeType::Dark,
            ),
{
    let is_dark = match theme_type {
        ThemeType::Dark => true,
        ThemeType::Light => false,
    };
    let c0 = chart_group_color(token_colors, 0, is_dark);
    let c1 = chart_group_color(token_colors, 1, is_dark);
    let c2 = chart_group_color(token_colors, 2, is_dark);
    let c3 = chart_group_color(token_colors, 3, is_dark);
    let c4 = chart_group_color(token_colors, 4, is_dark);
    [c0, c1, c2, c3, c4]
}

/// Chart color `g`.
fn chart_group_color(rules: &[TokenColorRule], g: usize, dark: bool) -> (c: HexColor)
    requires
        g < 5,
    ensures
        c@ == chart_color(rules@, g as int, dark),
{
    let prefixes = chart_prefixes_exec(g);
    let mut i: usize = 0;
    assert(rules@.subrange(0, rules@.len() as int) =~= rules@);
    while i < rules.len()
        invariant
            i <= rules@.len(),
            keys_view(prefixes@) == chart_prefixes(g as int),
            first_rule_color(rules@, chart_prefixes(g as int)) == first_rule_color(
                rules@.subrange(i as int, rules@.len() as int),
                chart_prefixes(g as int),
            ),
        decreases rules@.len() - i,
    {
        let ghost rest = rules@.subrange(i as int, rules@.len() as int);
        assert(rest[0] == rules@[i as int]);
        assert(rest.drop_first() =~= rules@.subrange(i + 1, rules@.len() as int));
        let rule = &rules[i];
        if let Some(fg) = &rule.settings.foreground {
            if let Ok(color) = HexColor::parse(fg.as_str()) {
                let scopes = rule.scope.to_scopes();
                if any_scope_matches(&scopes, &prefixes) {
                    return color;
                }
            }
        }
        i += 1;
    }
    chart_fallback_color(g, dark)
}


// ── Conversion ─────────────────────────────────────────────────────

/// The VS Code keys of the eight ANSI colors (`bright` for the bright ones).
pub open spec fn ansi_keys(bright: bool) -> Seq<Seq<char>> {
    if bright {
        seq![
            "terminal.ansiBrightBlack"@, "terminal.ansiBrightRed"@, "terminal.ansiBrightGreen"@,
            "terminal.ansiBrightYellow"@, "terminal.ansiBrightBlue"@,
            "terminal.ansiBrightMagenta"@, "terminal.ansiBrightCyan"@, "terminal.ansiBrightWhite"@,
        ]
    } else {
        seq![
            "terminal.ansiBlack"@, "terminal.ansiRed"@, "terminal.ansiGreen"@,
            "terminal.ansiYellow"@, "terminal.ansiBlue"@, "terminal.ansiMagenta"@,
            "terminal.ansiCyan"@, "terminal.ansiWhite"@,
        ]
    }
}

/// The value of `key` if it is a valid color.
pub open spec fn valid_lookup(c: Seq<(Seq<char>, Seq<char>)>, key: Seq<char>) -> Option<Seq<char>> {
    match lookup(c, key) {
        Some(v) => if parses_as_hex(v) {
            Some(parsed_hex(v))
        } else {
            None
        },
        None => None,
    }
}

/// The terminal selection: `terminal.selectionBackground` if present, else
/// `editor.selectionBackground`, as a color if valid.
pub open spec fn terminal_selection(c: Seq<(Seq<char>, Seq<char>)>) -> Option<Seq<char>> {
    if lookup(c, "terminal.selectionBackground"@) is Some {
        valid_lookup(c, "terminal.selectionBackground"@)
    } else {
        valid_lookup(c, "editor.selectionBackground"@)
    }
}

/// What the conversion makes of a theme's colors: the ten UI colors, in `ui_colors` order.
pub open spec fn converted_ui(c: Seq<(Seq<char>, Seq<char>)>, d: Seq<Seq<char>>) -> Seq<Seq<char>> {
    let bg = pick_color(c, seq!["editor.background"@], d[0]);
    let fg = pick_color(c, seq!["terminal.foreground"@, "editor.foreground"@], d[1]);
    let accent = pick_color(
        c,
        seq!["activityBarBadge.background"@, "button.background"@, "focusBorder"@],
        d[2],
    );
    let cursor = pick_color(c, seq!["editorCursor.foreground"@], fg);
    let selection = pick_color(c, seq!["editor.selectionBackground"@], d[4]);
    let border = pick_color(
        c,
        seq!["editorIndentGuide.background"@, "editorGroup.border"@, "panel.border"@],
        d[5],
    );
    let sidebar_bg = pick_color(c, seq!["sideBar.background"@], bg);
    let sidebar_fg = pick_color(
        c,
        seq!["sideBarSectionHeader.foreground"@, "sideBar.foreground"@],
        fg,
    );
    let input_bg = pick_color(c, seq!["input.background"@, "dropdown.background"@], sidebar_bg);
    let muted = pick_color(c, seq!["editorLineNumber.foreground"@], d[9]);
    seq![bg, fg, accent, cursor, selection, border, sidebar_bg, sidebar_fg, input_bg, muted]
}

/// Every color the fallback chains give is a canonical color.
pub proof fn lemma_pick_valid(c: Seq<(Seq<char>, Seq<char>)>, keys: Seq<Seq<char>>, fb: Seq<char>)
    ensures
        valid_hex_color(pick_color(c, keys, fb)),
    decreases keys.len(),
{
    reveal_strlit("#000000");
    if keys.len() == 0 {
        if parses_as_hex(fb) {
            lemma_parsed_hex_valid(fb);
        } else {
            assert(is_upper_hex_digit('0'));
        }
    } else {
        match lookup(c, keys[0]) {
            Some(v) => if parses_as_hex(v) {
                lemma_parsed_hex_valid(v);
            } else {
                lemma_pick_valid(c, keys.drop_first(), fb);
            },
            None => lemma_pick_valid(c, keys.drop_first(), fb),
        }
    }
}

/// A single key falling back to a color: the key's color where it holds a valid one, else the
/// fallback itself.
pub proof fn lemma_pick_one(c: Seq<(Seq<char>, Seq<char>)>, key: Seq<char>, fb: Seq<char>)
    requires
        valid_hex_color(fb),
    ensures
        pick_color(c, seq![key], fb) == match valid_lookup(c, key) {
            Some(v) => v,
            None => fb,
        },
{
    law_parse_canonical(fb);
    assert(parses_as_hex(fb) && parsed_hex(fb) == fb);
    let ks = seq![key];
    assert(ks.drop_first() =~= Seq::<Seq<char>>::empty());
    assert(pick_color(c, Seq::<Seq<char>>::empty(), fb) == fb);
    assert(ks[0] == key);
    assert(pick_color(c, ks.drop_first(), fb) == fb);
}

/// The colors that fall back to other converted colors: with no valid `editorCursor.foreground`
/// the cursor (and the terminal cursor) is the converted foreground; with no valid
/// `sideBar.background` the sidebar is the converted background; with no valid
/// `terminal.background` / `terminal.foreground` the terminal shares the converted background /
/// foreground. Where the key holds a valid color, that color is used.
pub proof fn law_convert_fallbacks(c: Seq<(Seq<char>, Seq<char>)>, d: Seq<Seq<char>>)
    ensures
        ({
            let ui = converted_ui(c, d);
            &&& ui[3] == match valid_lookup(c, "editorCursor.foreground"@) {
                Some(v) => v,
                None => ui[1],
            }
            &&& pick_color(c, seq!["editorCursor.foreground"@], ui[3]) == ui[3]
            &&& ui[6] == match valid_lookup(c, "sideBar.background"@) {
                Some(v) => v,
                None => ui[0],
            }
            &&& pick_color(c, seq!["terminal.background"@], ui[0]) == match valid_lookup(
                c,
                "terminal.background"@,
            ) {
                Some(v) => v,
                None => ui[0],
            }
            &&& pick_color(c, seq!["terminal.foreground"@], ui[1]) == match valid_lookup(
                c,
                "terminal.foreground"@,
            ) {
                Some(v) => v,
                None => ui[1],
            }
        }),
{
    let ui = converted_ui(c, d);
    lemma_pick_valid(c, seq!["editor.background"@], d[0]);
    lemma_pick_valid(c, seq!["terminal.foreground"@, "editor.foreground"@], d[1]);
    lemma_pick_valid(c, seq!["editorCursor.foreground"@], ui[1]);
    lemma_pick_one(c, "editorCursor.foreground"@, ui[1]);
    lemma_pick_one(c, "editorCursor.foreground"@, ui[3]);
    lemma_pick_one(c, "sideBar.background"@, ui[0]);
    lemma_pick_one(c, "terminal.background"@, ui[0]);
    lemma_pick_one(c, "terminal.foreground"@, ui[1]);
}

/// A color where there is one, else the fallback.
pub open spec fn or_color(o: Option<Seq<char>>, fallback: Seq<char>) -> Seq<char> {
    match o {
        Some(v) => v,
        None => fallback,
    }
}

/// A default taken as a color: its canonical form where it is a color, else black.
pub open spec fn default_as_color(d: Seq<char>) -> Seq<char> {
    if parses_as_hex(d) {
        parsed_hex(d)
    } else {
        "#000000"@
    }
}

proof fn lemma_pick_step(c: Seq<(Seq<char>, Seq<char>)>, keys: Seq<Seq<char>>, fb: Seq<char>)
    requires
        keys.len() > 0,
    ensures
        pick_color(c, keys, fb) == or_color(valid_lookup(c, keys[0]), pick_color(c, keys.drop_first(), fb)),
{
}

proof fn lemma_pick_chain(c: Seq<(Seq<char>, Seq<char>)>, k1: Seq<char>, k2: Seq<char>, k3: Seq<char>, fb: Seq<char>)
    ensures
        pick_color(c, seq![k1], fb) == or_color(valid_lookup(c, k1), default_as_color(fb)),
        pick_color(c, seq![k1, k2], fb) == or_color(
            valid_lookup(c, k1),
            or_color(valid_lookup(c, k2), default_as_color(fb)),
        ),
        pick_color(c, seq![k1, k2, k3], fb) == or_color(
            valid_lookup(c, k1),
            or_color(valid_lookup(c, k2), or_color(valid_lookup(c, k3), default_as_color(fb))),
        ),
{
    let e = Seq::<Seq<char>>::empty();
    assert(pick_color(c, e, fb) == default_as_color(fb));
    assert(seq![k3].drop_first() =~= e);
    assert(seq![k2].drop_first() =~= e);
    assert(seq![k1].drop_first() =~= e);
    assert(seq![k2, k3].drop_first() =~= seq![k3]);
    assert(seq![k1, k2].drop_first() =~= seq![k2]);
    assert(seq![k1, k2, k3].drop_first() =~= seq![k2, k3]);
    lemma_pick_step(c, seq![k3], fb);
    lemma_pick_step(c, seq![k2], fb);
    lemma_pick_step(c, seq![k1], fb);
    lemma_pick_step(c, seq![k2, k3], fb);
    lemma_pick_step(c, seq![k1, k2], fb);
    lemma_pick_step(c, seq![k1, k2, k3], fb);
}

/// Each UI color is the first of its VS Code keys that holds a valid color, in this order,
/// else its fallback: the background is `editor.background`, else the theme type's default;
/// the foreground `terminal.foreground`, then `editor.foreground`; the accent
/// `activityBarBadge.background`, `button.background`, `focusBorder`; the selection
/// `editor.selectionBackground`; the border `editorIndentGuide.background`,
/// `editorGroup.border`, `panel.border`; the muted foreground `editorLineNumber.foreground`
/// (each else its default). The sidebar foreground is `sideBarSectionHeader.foreground`, then
/// `sideBar.foreground`, else the converted foreground; the input background
/// `input.background`, then `dropdown.background`, else the converted sidebar background.
pub proof fn law_convert_key_chains(c: Seq<(Seq<char>, Seq<char>)>, d: Seq<Seq<char>>)
    ensures
        ({
            let ui = converted_ui(c, d);
            &&& ui[0] == or_color(valid_lookup(c, "editor.background"@), default_as_color(d[0]))
            &&& ui[1] == or_color(
                valid_lookup(c, "terminal.foreground"@),
                or_color(valid_lookup(c, "editor.foreground"@), default_as_color(d[1])),
            )
            &&& ui[2] == or_color(
                valid_lookup(c, "activityBarBadge.background"@),
                or_color(
                    valid_lookup(c, "button.background"@),
                    or_color(valid_lookup(c, "focusBorder"@), default_as_color(d[2])),
                ),
            )
            &&& ui[4] == or_color(
                valid_lookup(c, "editor.selectionBackground"@),
                default_as_color(d[4]),
            )
            &&& ui[5] == or_color(
                valid_lookup(c, "editorIndentGuide.background"@),
                or_color(
                    valid_lookup(c, "editorGroup.border"@),
                    or_color(valid_lookup(c, "panel.border"@), default_as_color(d[5])),
                ),
            )
            &&& ui[7] == or_color(
                valid_lookup(c, "sideBarSectionHeader.foreground"@),
                or_color(valid_lookup(c, "sideBar.foreground"@), ui[1]),
            )
            &&& ui[8] == or_color(
                valid_lookup(c, "input.background"@),
                or_color(valid_lookup(c, "dropdown.background"@), ui[6]),
            )
            &&& ui[9] == or_color(
                valid_lookup(c, "editorLineNumber.foreground"@),
                default_as_color(d[9]),
            )
        }),
{
    let ui = converted_ui(c, d);
    let z = "#000000"@;
    lemma_pick_chain(c, "editor.background"@, z, z, d[0]);
    lemma_pick_chain(c, "terminal.foreground"@, "editor.foreground"@, z, d[1]);
    lemma_pick_chain(
        c,
        "activityBarBadge.background"@,
        "button.background"@,
        "focusBorder"@,
        d[2],
    );
    lemma_pick_chain(c, "editor.selectionBackground"@, z, z, d[4]);
    lemma_pick_chain(
        c,
        "editorIndentGuide.background"@,
        "editorGroup.border"@,
        "panel.border"@,
        d[5],
    );
    lemma_pick_chain(c, "sideBarSectionHeader.foreground"@, "sideBar.foreground"@, z, ui[1]);
    lemma_pick_chain(c, "input.background"@, "dropdown.background"@, z, ui[6]);
    lemma_pick_chain(c, "editorLineNumber.foreground"@, z, z, d[9]);
    lemma_pick_valid(c, seq!["terminal.foreground"@, "editor.foreground"@], d[1]);
    lemma_pick_valid(c, seq!["sideBar.background"@], ui[0]);
    law_parse_canonical(ui[1]);
    law_parse_canonical(ui[6]);
}

fn get_color1(colors: &Vec<(String, String)>, k1: &str, fallback: &str) -> (c: HexColor)
    ensures
        c@ == pick_color(colors_view(colors@), seq![k1@], fallback@),
{
    let keys = [k1];
    proof {
        assert(keys_view(keys@) =~= seq![k1@]);
    }
    get_color(colors, keys.as_slice(), fallback)
}

fn get_color2(colors: &Vec<(String, String)>, k1: &str, k2: &str, fallback: &str) -> (c: HexColor)
    ensures
        c@ == pick_color(colors_view(colors@), seq![k1@, k2@], fallback@),
{
    let keys = [k1, k2];
    proof {
        assert(keys_view(keys@) =~= seq![k1@, k2@]);
    }
    get_color(colors, keys.as_slice(), fallback)
}

fn get_color3(colors: &Vec<(String, String)>, k1: &str, k2: &str, k3: &str, fallback: &str) -> (c:
    HexColor)
    ensures
        c@ == pick_color(colors_view(colors@), seq![k1@, k2@, k3@], fallback@),
{
    let keys = [k1, k2, k3];
    proof {
        assert(keys_view(keys@) =~= seq![k1@, k2@, k3@]);
    }
    get_color(colors, keys.as_slice(), fallback)
}

fn ansi_pair(
    colors: &Vec<(String, String)>,
    normal_key: &str,
    bright_key: &str,
    normal_default: &str,
    bright_default: &str,
) -> (r: (HexColor, HexColor))
    ensures
        r.0@ == pick_color(colors_view(colors@), seq![normal_key@], normal_default@),
        r.1@ == pick_color(colors_view(colors@), seq![bright_key@], bright_default@),
{
    let n = get_color1(colors, normal_key, normal_default);
    let b = get_color1(colors, bright_key, bright_default);
    (n, b)
}

/// Convert a VS Code theme (ThemeEntry + parsed JSON) into the intermediate representation.
pub fn convert(entry: &ThemeEntry, theme_json: &VsCodeThemeJson) -> (r: Result<ThemeIR, String>)
    ensures
        r is Ok,
        ({
            let ir = r->Ok_0;
            let tt = ui_theme_type(entry.ui_theme@);
            let d = defaults_for(tt);
            let c = colors_view(theme_json.colors@);
            let ui = converted_ui(c, d);
            &&& ir.id@ == slug_of(entry.label@)
            &&& ir.name@ == entry.label@
            &&& ir.theme_type == tt
            &&& ir.ui_colors() == ui
            &&& forall|g: int|
                0 <= g < 5 ==> #[trigger] ir.chart()[g] == chart_color(
                    theme_json.token_colors@,
                    g,
                    tt == ThemeType::Dark,
                )
            &&& forall|k: int|
                0 <= k < 8 ==> #[trigger] ir.terminal.normal.colors()[k] == pick_color(
                    c,
                    seq![ansi_keys(false)[k]],
                    d[10 + k],
                )
            &&& forall|k: int|
                0 <= k < 8 ==> #[trigger] ir.terminal.bright.colors()[k] == pick_color(
                    c,
                    seq![ansi_keys(true)[k]],
                    d[18 + k],
                )
            &&& ir.terminal.background@ == pick_color(c, seq!["terminal.background"@], ui[0])
            &&& ir.terminal.foreground@ == pick_color(c, seq!["terminal.foreground"@], ui[1])
            &&& ir.terminal.cursor@ == pick_color(c, seq!["editorCursor.foreground"@], ui[3])
            &&& ir.terminal.cursor@ == ir.cursor@
            &&& (valid_lookup(c, "editorCursor.foreground"@) is None ==> ir.cursor@
                == ir.foreground@)
            &&& (valid_lookup(c, "sideBar.background"@) is None ==> ir.sidebar_bg@
                == ir.background@)
            &&& (valid_lookup(c, "terminal.background"@) is None ==> ir.terminal.background@
                == ir.background@)
            &&& (valid_lookup(c, "terminal.foreground"@) is None ==> ir.terminal.foreground@
                == ir.foreground@)
            &&& ir.terminal.cursor_accent is None
            &&& opt_color(ir.terminal.selection_bg) == terminal_selection(c)
            &&& ir.syntax is None
            &&& ir.diff is None
            &&& ir.created_at is None
        }),
{
    let theme_type = ThemeType::from_ui_theme(entry.ui_theme.as_str());
    let d = defaults(&theme_type);
    let colors = &theme_json.colors;
    let ghost c = colors_view(colors@);

    let background = get_color1(colors, "editor.background", d.background);
    let foreground = get_color2(colors, "terminal.foreground", "editor.foreground", d.foreground);
    let accent = get_color3(colors, "activityBarBadge.background", "button.background", "focusBorder",
        d.accent,
    );
    let cursor = get_color1(colors, "editorCursor.foreground", foreground.as_str());
    let selection_bg = get_color1(colors, "editor.selectionBackground", d.selection_bg);
    let border = get_color3(colors, "editorIndentGuide.background", "editorGroup.border", "panel.border",
        d.border,
    );
    let sidebar_bg = get_color1(colors, "sideBar.background", background.as_str());
    let sidebar_fg = get_color2(colors, "sideBarSectionHeader.foreground", "sideBar.foreground",
        foreground.as_str(),
    );
    let input_bg = get_color2(colors, "input.background", "dropdown.background",
        sidebar_bg.as_str(),
    );
    let muted_fg = get_color1(colors, "editorLineNumber.foreground", d.muted_fg);

    let chart_colors = extract_chart_colors(theme_json.token_colors.as_slice(), &theme_type);

    // Terminal ANSI colors
    let term_bg = get_color1(colors, "terminal.background", background.as_str());
    let term_fg = get_color1(colors, "terminal.foreground", foreground.as_str());
    let term_cursor = get_color1(colors, "editorCursor.foreground", cursor.as_str());
    let term_selection = match lookup_color(colors, "terminal.selectionBackground") {
        Some(v) => match HexColor::parse(v.as_str()) {
            Ok(h) => Some(h),
            Err(_) => None,
        },
        None => match lookup_color(colors, "editor.selectionBackground") {
            Some(v) => match HexColor::parse(v.as_str()) {
                Ok(h) => Some(h),
                Err(_) => None,
            },
            None => None,
        },
    };

    let (n_black, b_black) = ansi_pair(
        colors,
        "terminal.ansiBlack",
        "terminal.ansiBrightBlack",
        d.ansi_black,
        d.ansi_bright_black,
    );
    let (n_red, b_red) = ansi_pair(
        colors,
        "terminal.ansiRed",
        "terminal.ansiBrightRed",
        d.ansi_red,
        d.ansi_bright_red,
    );
    let (n_green, b_green) = ansi_pair(
        colors,
        "terminal.ansiGreen",
        "terminal.ansiBrightGreen",
        d.ansi_green,
        d.ansi_bright_green,
    );
    let (n_yellow, b_yellow) = ansi_pair(
        colors,
        "terminal.ansiYellow",
        "terminal.ansiBrightYellow",
        d.ansi_yellow,
        d.ansi_bright_yellow,
    );
    let (n_blue, b_blue) = ansi_pair(
        colors,
        "terminal.ansiBlue",
        "terminal.ansiBrightBlue",
        d.ansi_blue,
        d.ansi_bright_blue,
    );
    let (n_magenta, b_magenta) = ansi_pair(
        colors,
        "terminal.ansiMagenta",
        "terminal.ansiBrightMagenta",
        d.ansi_magenta,
        d.ansi_bright_magenta,
    );
    let (n_cyan, b_cyan) = ansi_pair(
        colors,
        "terminal.ansiCyan",
        "terminal.ansiBrightCyan",
        d.ansi_cyan,
        d.ansi_bright_cyan,
    );
    let (n_white, b_white) = ansi_pair(
        colors,
        "terminal.ansiWhite",
        "terminal.ansiBrightWhite",
        d.ansi_white,
        d.ansi_bright_white,
    );

    // Generate a slug-based ID from the name
    let id = theme_slug(entry.label.as_str());

    let ir = ThemeIR {
        id,
        name: entry.label.clone(),
        theme_type,
        background,
        foreground,
        accent,
        cursor,
        selection_bg,
        border,
        sidebar_bg,
        sidebar_fg,
        input_bg,
        muted_fg,
        chart_colors,
        terminal: AnsiColors {
            normal: AnsiPalette {
                black: n_black,
                red: n_red,
                green: n_green,
                yellow: n_yellow,
                blue: n_blue,
                magenta: n_magenta,
                cyan: n_cyan,
                white: n_white,
            },
            bright: AnsiPalette {
                black: b_black,
                red: b_red,
                green: b_green,
                yellow: b_yellow,
                blue: b_blue,
                magenta: b_magenta,
                cyan: b_cyan,
                white: b_white,
            },
            background: term_bg,
            foreground: term_fg,
            cursor: term_cursor,
            cursor_accent: None,
            selection_bg: term_selection,
        },
        syntax: None,
        diff: None,
        created_at: None,
    };
    proof {
        assert(ir.ui_colors() =~= converted_ui(c, defaults_for(theme_type)));
        assert forall|k: int| 0 <= k < 8 implies #[trigger] ir.terminal.normal.colors()[k]
            == pick_color(c, seq![ansi_keys(false)[k]], defaults_for(theme_type)[10 + k]) by {}
        assert forall|k: int| 0 <= k < 8 implies #[trigger] ir.terminal.bright.colors()[k]
            == pick_color(c, seq![ansi_keys(true)[k]], defaults_for(theme_type)[18 + k]) by {}
        assert forall|g: int| 0 <= g < 5 implies #[trigger] ir.chart()[g] == chart_color(
            theme_json.token_colors@,
            g,
            theme_type == ThemeType::Dark,
        ) by {
            assert(ir.chart()[g] == ir.chart_colors@[g]@);
        }
        law_convert_fallbacks(c, defaults_for(theme_type));
    }
    Ok(ir)
}


// ── Included themes ────────────────────────────────────────────────

/// Looking up in a sequence with one more entry at the end.
pub proof fn lemma_lookup_push(c: Seq<(Seq<char>, Seq<char>)>, e: (Seq<char>, Seq<char>), key: Seq<char>)
    ensures
        lookup(c.push(e), key) == match lookup(c, key) {
            Some(v) => Some(v),
            None => if e.0 == key {
                Some(e.1)
            } else {
                None
            },
        },
    decreases c.len(),
{
    if c.len() > 0 {
        assert(c.push(e)[0] == c[0]);
        assert(c.push(e).drop_first() =~= c.drop_first().push(e));
        lemma_lookup_push(c.drop_first(), e, key);
    } else {
        assert(c.push(e)[0] == e);
        assert(c.push(e).drop_first() =~= c);
    }
}

/// Looking up in two sequences one after the other.
pub proof fn lemma_lookup_concat(a: Seq<(Seq<char>, Seq<char>)>, b: Seq<(Seq<char>, Seq<char>)>, key: Seq<char>)
    ensures
        lookup(a + b, key) == match lookup(a, key) {
            Some(v) => Some(v),
            None => lookup(b, key),
        },
    decreases a.len(),
{
    if a.len() > 0 {
        assert((a + b).drop_first() =~= a.drop_first() + b);
        lemma_lookup_concat(a.drop_first(), b, key);
    } else {
        assert(a + b =~= b);
    }
}

/// The entries of `base` whose keys `child` does not have, in order.
pub open spec fn not_overridden(
    base: Seq<(Seq<char>, Seq<char>)>,
    child: Seq<(Seq<char>, Seq<char>)>,
) -> Seq<(Seq<char>, Seq<char>)>
    decreases base.len(),
{
    if base.len() == 0 {
        seq![]
    } else if lookup(child, base.last().0) is None {
        not_overridden(base.drop_last(), child).push(base.last())
    } else {
        not_overridden(base.drop_last(), child)
    }
}

proof fn lemma_not_overridden(
    base: Seq<(Seq<char>, Seq<char>)>,
    child: Seq<(Seq<char>, Seq<char>)>,
    key: Seq<char>,
)
    requires
        lookup(child, key) is None,
    ensures
        lookup(not_overridden(base, child), key) == lookup(base, key),
    decreases base.len(),
{
    if base.len() > 0 {
        lemma_not_overridden(base.drop_last(), child, key);
        lemma_lookup_push(base.drop_last(), base.last(), key);
        lemma_lookup_push(not_overridden(base.drop_last(), child), base.last(), key);
        assert(base.drop_last().push(base.last()) =~= base);
    }
}

/// Merge child theme on top of base theme (child wins on conflict): every color the child
/// has is the child's, every other color is the base's; the base's token rules come first,
/// then the child's. (Only string-valued colors reach this point.)
pub fn merge_themes(base: VsCodeThemeJson, child: VsCodeThemeJson) -> (merged: VsCodeThemeJson)
    ensures
        forall|key: Seq<char>|
            #[trigger] lookup(colors_view(merged.colors@), key) == match lookup(
                colors_view(child.colors@),
                key,
            ) {
                Some(v) => Some(v),
                None => lookup(colors_view(base.colors@), key),
            },
        merged.token_colors@ == base.token_colors@ + child.token_colors@,
{
    let ghost cv = colors_view(child.colors@);
    let ghost bv = colors_view(base.colors@);
    let mut colors: Vec<(String, String)> = Vec::new();
    let mut i: usize = 0;
    while i < child.colors.len()
        invariant
            i <= child.colors.len(),
            cv == colors_view(child.colors@),
            colors_view(colors@) == cv.take(i as int),
        decreases child.colors.len() - i,
    {
        let k = child.colors[i].0.clone();
        let v = child.colors[i].1.clone();
        let ghost before = colors@;
        colors.push((k, v));
        assert(colors_view(colors@) =~= colors_view(before).push((k@, v@)));
        assert(cv.take(i + 1) =~= cv.take(i as int).push(cv[i as int]));
        i += 1;
    }
    assert(cv.take(child.colors.len() as int) =~= cv);
    let mut j: usize = 0;
    while j < base.colors.len()
        invariant
            j <= base.colors.len(),
            cv == colors_view(child.colors@),
            bv == colors_view(base.colors@),
            colors_view(colors@) == cv + not_overridden(bv.take(j as int), cv),
        decreases base.colors.len() - j,
    {
        assert(bv.take(j + 1).drop_last() =~= bv.take(j as int));
        assert(bv.take(j + 1).last() == bv[j as int]);
        if lookup_color(&child.colors, base.colors[j].0.as_str()).is_none() {
            let ghost before = colors@;
            let k = base.colors[j].0.clone();
            let v = base.colors[j].1.clone();
            colors.push((k, v));
            assert(colors_view(colors@) =~= colors_view(before).push(bv[j as int]));
        }
        j += 1;
    }
    assert(bv.take(base.colors.len() as int) =~= bv);
    proof {
        assert forall|key: Seq<char>|
            #[trigger] lookup(colors_view(colors@), key) == match lookup(cv, key) {
                Some(v) => Some(v),
                None => lookup(bv, key),
            } by {
            lemma_lookup_concat(cv, not_overridden(bv, cv), key);
            if lookup(cv, key) is None {
                lemma_not_overridden(bv, cv, key);
            }
        }
    }
    let mut token_colors = base.token_colors;
    let mut rest = child.token_colors;
    token_colors.append(&mut rest);
    VsCodeThemeJson { colors, token_colors }
}

} // verus!
