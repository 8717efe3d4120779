//! The intermediate representation of a theme, and validated hex colors.
use vstd::prelude::*;
use crate::text::{
    char_width, chars_of, concat_chars, hex_upper, is_ascii_hexdigit, is_hex_digit, is_upper_hex_digit,
    lemma_utf8_len_monotone, lemma_utf8_len_take_step, str_eq_chars, string_from_chars, to_hex_upper,
    trim, trim_chars, utf8_len, hex_value, hex_digit_value, trim_start, trim_end,
};

verus! {

/// Whether a theme is dark or light.
#[derive(Debug, Clone, Copy, PartialEq, Eq, Structural)]
pub enum ThemeType {
    Dark,
    Light,
}

/// The theme type that a VS Code `uiTheme` value stands for: `vs` and `hc-light` are light,
/// everything else is dark.
pub open spec fn ui_theme_type(ui_theme: Seq<char>) -> ThemeType {
    if ui_theme == "vs"@ || ui_theme == "hc-light"@ {
        ThemeType::Light
    } else {
        ThemeType::Dark
    }
}

/// Whether two strings hold the same characters.
pub fn str_eq(a: &str, b: &str) -> (r: bool)
    ensures
        r == (a@ == b@),
{
    let bv = chars_of(b);
    str_eq_chars(a, &bv)
}

impl ThemeType {
    pub fn from_ui_theme(ui_theme: &str) -> (t: ThemeType)
        ensures
            t == ui_theme_type(ui_theme@),
    {
        if str_eq(ui_theme, "vs") || str_eq(ui_theme, "hc-light") {
            ThemeType::Light
        } else {
            ThemeType::Dark
        }
    }

    /// The type as the preview labels it: "Dark" or "Light".
    pub fn as_str_label(&self) -> (s: &'static str)
        ensures
            s@ == (match *self {
                ThemeType::Dark => "Dark"@,
                ThemeType::Light => "Light"@,
            }),
    {
        match self {
            ThemeType::Dark => "Dark",
            ThemeType::Light => "Light",
        }
    }

    pub fn as_str(&self) -> (s: &'static str)
        ensures
            s@ == (match *self {
                ThemeType::Dark => "dark"@,
                ThemeType::Light => "light"@,
            }),
    {
        match self {
            ThemeType::Dark => "dark",
            ThemeType::Light => "light",
        }
    }
}

// ── Hex colors ─────────────────────────────────────────────────────

/// A canonical hex color: `#` and then 3, 6 or 8 upper-case hexadecimal digits.
pub open spec fn valid_hex_color(v: Seq<char>) -> bool {
    &&& v.len() == 4 || v.len() == 7 || v.len() == 9
    &&& v[0] == '#'
    &&& forall|i: int| 1 <= i < v.len() ==> is_upper_hex_digit(#[trigger] v[i])
}

pub open spec fn all_hex_digits(s: Seq<char>) -> bool {
    forall|i: int| 0 <= i < s.len() ==> is_hex_digit(#[trigger] s[i])
}

/// The digits of `s`, with `a` to `f` made upper case.
pub open spec fn upper_hex(s: Seq<char>) -> Seq<char> {
    s.map_values(|c: char| hex_upper(c))
}

/// What `HexColor::parse` gives for `s`: the canonical color, or the error message.
pub open spec fn parse_hex_color(s: Seq<char>) -> Result<Seq<char>, Seq<char>> {
    let t = trim(s);
    if !(t.len() > 0 && t[0] == '#') {
        Err("color must start with '#': "@ + t)
    } else if !(utf8_len(t.drop_first()) == 3 || utf8_len(t.drop_first()) == 6 || utf8_len(
        t.drop_first(),
    ) == 8) {
        Err("color must be #RGB, #RRGGBB, or #RRGGBBAA: "@ + t)
    } else if !all_hex_digits(t.drop_first()) {
        Err("color contains non-hex characters: "@ + t)
    } else {
        Ok(seq!['#'] + upper_hex(t.drop_first()))
    }
}

/// Whether `s` is accepted by `HexColor::parse`.
pub open spec fn parses_as_hex(s: Seq<char>) -> bool {
    parse_hex_color(s) is Ok
}

/// The canonical color of a string that `HexColor::parse` accepts.
pub open spec fn parsed_hex(s: Seq<char>) -> Seq<char> {
    parse_hex_color(s)->Ok_0
}

/// A string of ASCII characters has as many bytes as characters.
pub proof fn lemma_ascii_utf8_len(s: Seq<char>)
    requires
        forall|i: int| 0 <= i < s.len() ==> (#[trigger] s[i] as u32) < 0x80,
    ensures
        utf8_len(s) == s.len(),
    decreases s.len(),
{
    if s.len() > 0 {
        assert forall|i: int| 0 <= i < s.drop_last().len() implies (#[trigger] s.drop_last()[i]
            as u32) < 0x80 by {
            assert(s.drop_last()[i] == s[i]);
        }
        lemma_ascii_utf8_len(s.drop_last());
        assert((s.last() as u32) < 0x80);
    }
}

/// What `HexColor::parse` accepts, it gives back in canonical form.
pub proof fn lemma_parsed_hex_valid(s: Seq<char>)
    requires
        parses_as_hex(s),
    ensures
        valid_hex_color(parsed_hex(s)),
{
    let t = trim(s);
    let h = t.drop_first();
    assert forall|i: int| 0 <= i < h.len() implies (#[trigger] h[i] as u32) < 0x80 by {
        assert(is_hex_digit(h[i]));
    }
    lemma_ascii_utf8_len(h);
    let v = parsed_hex(s);
    assert forall|i: int| 1 <= i < v.len() implies is_upper_hex_digit(#[trigger] v[i]) by {
        assert(v[i] == hex_upper(h[i - 1]));
        assert(is_hex_digit(h[i - 1]));
    }
}

/// A color's canonical text parses back to the same color: `parse` of `as_str` is the identity,
/// which is what lets a color be stored as text and read again.
pub proof fn law_parse_canonical(v: Seq<char>)
    requires
        valid_hex_color(v),
    ensures
        parse_hex_color(v) == Ok::<Seq<char>, Seq<char>>(v),
{
    assert(trim_start(v) == v);
    assert(is_upper_hex_digit(v[v.len() - 1]));
    assert(trim_end(v) == v);
    let h = v.drop_first();
    assert forall|i: int| 0 <= i < h.len() implies (#[trigger] h[i] as u32) < 0x80 by {
        assert(is_upper_hex_digit(v[i + 1]));
    }
    lemma_ascii_utf8_len(h);
    assert forall|i: int| 0 <= i < h.len() implies is_hex_digit(#[trigger] h[i]) by {
        assert(is_upper_hex_digit(v[i + 1]));
    }
    assert(upper_hex(h) =~= h) by {
        assert forall|i: int| 0 <= i < h.len() implies #[trigger] upper_hex(h)[i] == h[i] by {
            assert(is_upper_hex_digit(v[i + 1]));
        }
    }
    assert(seq!['#'] + h =~= v);
}

/// `#` and then six hexadecimal digits of either case parse to their upper-case form.
pub proof fn lemma_parse_six_digits(s: Seq<char>)
    requires
        s.len() == 7,
        s[0] == '#',
        forall|i: int| 1 <= i < 7 ==> is_hex_digit(#[trigger] s[i]),
    ensures
        parse_hex_color(s) == Ok::<Seq<char>, Seq<char>>(seq!['#'] + upper_hex(s.drop_first())),
{
    assert(trim_start(s) == s);
    assert(is_hex_digit(s[6]));
    assert(trim_end(s) == s);
    let h = s.drop_first();
    assert forall|i: int| 0 <= i < h.len() implies (#[trigger] h[i] as u32) < 0x80 by {
        assert(is_hex_digit(s[i + 1]));
    }
    lemma_ascii_utf8_len(h);
    assert forall|i: int| 0 <= i < h.len() implies is_hex_digit(#[trigger] h[i]) by {
        assert(is_hex_digit(s[i + 1]));
    }
}

/// A validated CSS hex color: #RGB, #RRGGBB, or #RRGGBBAA, kept in upper case.
#[derive(Debug)]
pub struct HexColor(String);

impl View for HexColor {
    type V = Seq<char>;

    closed spec fn view(&self) -> Seq<char> {
        self.0@
    }
}

impl HexColor {
    #[verifier::type_invariant]
    spec fn inv(self) -> bool {
        valid_hex_color(self.0@)
    }

    /// Makes a color from text already in canonical form.
    pub(crate) fn from_canonical(s: String) -> (c: HexColor)
        requires
            valid_hex_color(s@),
        ensures
            c@ == s@,
    {
        HexColor(s)
    }

    pub fn parse(s: &str) -> (r: Result<HexColor, String>)
        ensures
            match parse_hex_color(s@) {
                Ok(v) => r is Ok && r->Ok_0@ == v,
                Err(m) => r is Err && r->Err_0@ == m,
            },
    {
        let all = chars_of(s);
        let t = trim_chars(&all);
        if t.len() == 0 || t[0] != '#' {
            return Err(concat_chars("color must start with '#': ", &t));
        }
        let mut hex: Vec<char> = Vec::new();
        let mut i: usize = 1;
        while i < t.len()
            invariant
                1 <= i <= t.len(),
                hex@ == t@.subrange(1, i as int),
            decreases t.len() - i,
        {
            hex.push(t[i]);
            i += 1;
            assert(hex@ =~= t@.subrange(1, i as int));
        }
        assert(hex@ =~= t@.drop_first());
        let blen = utf8_len_capped(&hex, 9);
        if !(blen == 3 || blen == 6 || blen == 8) {
            return Err(concat_chars("color must be #RGB, #RRGGBB, or #RRGGBBAA: ", &t));
        }
        let mut out: Vec<char> = Vec::new();
        out.push('#');
        let mut k: usize = 0;
        while k < hex.len()
            invariant
                k <= hex.len(),
                hex@ == t@.drop_first(),
                t@ == trim(s@),
                t@.len() > 0 && t@[0] == '#',
                utf8_len(hex@) == 3 || utf8_len(hex@) == 6 || utf8_len(hex@) == 8,
                all_hex_digits(hex@.take(k as int)),
                out@ == seq!['#'] + upper_hex(hex@.take(k as int)),
            decreases hex.len() - k,
        {
            if !is_ascii_hexdigit(hex[k]) {
                assert(!all_hex_digits(hex@)) by {
                    assert(!is_hex_digit(hex@[k as int]));
                }
                return Err(concat_chars("color contains non-hex characters: ", &t));
            }
            out.push(to_hex_upper(hex[k]));
            k += 1;
            assert(hex@.take(k as int) =~= hex@.take(k - 1).push(hex@[k - 1]));
            assert(out@ =~= seq!['#'] + upper_hex(hex@.take(k as int)));
        }
        assert(hex@.take(hex.len() as int) =~= hex@);
        proof {
            lemma_parsed_hex_valid(s@);
        }
        Ok(HexColor(string_from_chars(&out)))
    }

    pub fn as_str(&self) -> (s: &str)
        ensures
            s@ == self@,
            valid_hex_color(self@),
    {
        proof {
            use_type_invariant(self);
        }
        self.0.as_str()
    }

    /// The red, green and blue components; a 3-digit color repeats each digit.
    pub fn to_rgb(&self) -> (rgb: (u8, u8, u8))
        ensures
            (rgb.0 as int, rgb.1 as int, rgb.2 as int) == rgb_of(self@),
    {
        proof {
            use_type_invariant(self);
        }
        let v = chars_of(self.0.as_str());
        if v.len() == 4 {
            let r = hex_digit_value(v[1]);
            let g = hex_digit_value(v[2]);
            let b = hex_digit_value(v[3]);
            (r * 17, g * 17, b * 17)
        } else {
            let r = hex_digit_value(v[1]) * 16 + hex_digit_value(v[2]);
            let g = hex_digit_value(v[3]) * 16 + hex_digit_value(v[4]);
            let b = hex_digit_value(v[5]) * 16 + hex_digit_value(v[6]);
            (r, g, b)
        }
    }
}

/// The value of two hexadecimal digits.
pub open spec fn hex_pair(hi: char, lo: char) -> int {
    hex_value(hi) * 16 + hex_value(lo)
}

/// The red, green and blue components of a canonical color: `#RGB` repeats each digit
/// (`#F0A` is `#FF00AA`); `#RRGGBB` and `#RRGGBBAA` read the first three pairs.
pub open spec fn rgb_of(v: Seq<char>) -> (int, int, int) {
    if v.len() == 4 {
        (hex_value(v[1]) * 17, hex_value(v[2]) * 17, hex_value(v[3]) * 17)
    } else {
        (hex_pair(v[1], v[2]), hex_pair(v[3], v[4]), hex_pair(v[5], v[6]))
    }
}

impl Clone for HexColor {
    fn clone(&self) -> (c: Self)
        ensures
            c@ == self@,
    {
        proof {
            use_type_invariant(self);
        }
        HexColor(self.0.clone())
    }
}

impl PartialEq for HexColor {
    fn eq(&self, other: &Self) -> (r: bool) {
        self.0 == other.0
    }
}

impl vstd::std_specs::cmp::PartialEqSpecImpl for HexColor {
    open spec fn obeys_eq_spec() -> bool {
        true
    }

    open spec fn eq_spec(&self, other: &HexColor) -> bool {
        self@ == other@
    }
}

impl Eq for HexColor {
}

/// The number of bytes of `v` in UTF-8, or `cap` if that is more.
pub fn utf8_len_capped(v: &Vec<char>, cap: usize) -> (n: usize)
    ensures
        n == if utf8_len(v@) < cap { utf8_len(v@) } else { cap as nat },
{
    if cap == 0 {
        return 0;
    }
    let mut n: usize = 0;
    let mut i: usize = 0;
    while i < v.len()
        invariant
            i <= v.len(),
            n == utf8_len(v@.take(i as int)),
            n < cap,
        decreases v.len() - i,
    {
        proof {
            lemma_utf8_len_take_step(v@, i as int);
        }
        let w = char_width(v[i]);
        if w >= cap - n {
            proof {
                lemma_utf8_len_monotone(v@, i + 1, v.len() as int);
                assert(v@.take(v.len() as int) =~= v@);
            }
            return cap;
        }
        n = n + w;
        i += 1;
    }
    assert(v@.take(v.len() as int) =~= v@);
    n
}

} // verus!

verus! {

/// The view of an optional color.
pub open spec fn opt_color(c: Option<HexColor>) -> Option<Seq<char>> {
    match c {
        Some(x) => Some(x@),
        None => None,
    }
}

/// Eight ANSI colors, in palette order.
#[derive(Debug)]
pub struct AnsiPalette {
    pub black: HexColor,
    pub red: HexColor,
    pub green: HexColor,
    pub yellow: HexColor,
    pub blue: HexColor,
    pub magenta: HexColor,
    pub cyan: HexColor,
    pub white: HexColor,
}

impl AnsiPalette {
    /// The eight colors in palette order: black, red, green, yellow, blue, magenta, cyan, white.
    pub open spec fn colors(&self) -> Seq<Seq<char>> {
        seq![
            self.black@,
            self.red@,
            self.green@,
            self.yellow@,
            self.blue@,
            self.magenta@,
            self.cyan@,
            self.white@,
        ]
    }

    /// Returns palette colors indexed from `offset` (0 for normal, 8 for bright).
    pub fn as_indexed(&self, offset: u8) -> (r: [(u8, &HexColor); 8])
        requires
            offset <= 248,
        ensures
            forall|i: int|
                0 <= i < 8 ==> (#[trigger] r@[i]).0 == offset + i && r@[i].1@ == self.colors()[i],
    {
        [
            (offset, &self.black),
            (offset + 1, &self.red),
            (offset + 2, &self.green),
            (offset + 3, &self.yellow),
            (offset + 4, &self.blue),
            (offset + 5, &self.magenta),
            (offset + 6, &self.cyan),
            (offset + 7, &self.white),
        ]
    }
}

impl Clone for AnsiPalette {
    fn clone(&self) -> (p: Self)
        ensures
            p.colors() == self.colors(),
    {
        AnsiPalette {
            black: self.black.clone(),
            red: self.red.clone(),
            green: self.green.clone(),
            yellow: self.yellow.clone(),
            blue: self.blue.clone(),
            magenta: self.magenta.clone(),
            cyan: self.cyan.clone(),
            white: self.white.clone(),
        }
    }
}

/// The terminal colors of a theme.
#[derive(Debug)]
pub struct AnsiColors {
    pub normal: AnsiPalette,
    pub bright: AnsiPalette,
    pub background: HexColor,
    pub foreground: HexColor,
    pub cursor: HexColor,
    pub cursor_accent: Option<HexColor>,
    pub selection_bg: Option<HexColor>,
}

impl AnsiColors {
    /// Two terminal color sets hold the same colors.
    pub open spec fn same_as(&self, other: &AnsiColors) -> bool {
        &&& self.normal.colors() == other.normal.colors()
        &&& self.bright.colors() == other.bright.colors()
        &&& self.background@ == other.background@
        &&& self.foreground@ == other.foreground@
        &&& self.cursor@ == other.cursor@
        &&& opt_color(self.cursor_accent) == opt_color(other.cursor_accent)
        &&& opt_color(self.selection_bg) == opt_color(other.selection_bg)
    }
}

pub fn clone_opt_color(c: &Option<HexColor>) -> (r: Option<HexColor>)
    ensures
        opt_color(r) == opt_color(*c),
{
    match c {
        Some(x) => Some(x.clone()),
        None => None,
    }
}

impl Clone for AnsiColors {
    fn clone(&self) -> (c: Self)
        ensures
            c.same_as(self),
    {
        AnsiColors {
            normal: self.normal.clone(),
            bright: self.bright.clone(),
            background: self.background.clone(),
            foreground: self.foreground.clone(),
            cursor: self.cursor.clone(),
            cursor_accent: clone_opt_color(&self.cursor_accent),
            selection_bg: clone_opt_color(&self.selection_bg),
        }
    }
}

/// Syntax colors of a theme.
#[derive(Debug, Clone)]
pub struct SyntaxColors {
    pub comment: HexColor,
    pub keyword: HexColor,
    pub function: HexColor,
    pub variable: HexColor,
    pub string: HexColor,
    pub number: HexColor,
    pub type_: HexColor,
    pub operator: HexColor,
    pub punctuation: HexColor,
}

impl SyntaxColors {
    /// The nine colors in order: comment, keyword, function, variable, string, number, type,
    /// operator, punctuation.
    pub open spec fn colors(&self) -> Seq<Seq<char>> {
        seq![
            self.comment@,
            self.keyword@,
            self.function@,
            self.variable@,
            self.string@,
            self.number@,
            self.type_@,
            self.operator@,
            self.punctuation@,
        ]
    }
}

/// Diff colors of a theme.
#[derive(Debug, Clone)]
pub struct DiffColors {
    pub added: HexColor,
    pub removed: HexColor,
    pub context: HexColor,
    pub hunk_header: HexColor,
}

/// A theme in the intermediate representation that every target is written from.
#[derive(Debug, Clone)]
pub struct ThemeIR {
    pub id: String,
    pub name: String,
    pub theme_type: ThemeType,
    // UI colors
    pub background: HexColor,
    pub foreground: HexColor,
    pub accent: HexColor,
    pub cursor: HexColor,
    pub selection_bg: HexColor,
    pub border: HexColor,
    pub sidebar_bg: HexColor,
    pub sidebar_fg: HexColor,
    pub input_bg: HexColor,
    pub muted_fg: HexColor,
    // 5 chart colors extracted from tokenColors
    pub chart_colors: [HexColor; 5],
    // Terminal ANSI
    pub terminal: AnsiColors,
    pub syntax: Option<SyntaxColors>,
    pub diff: Option<DiffColors>,
    pub created_at: Option<String>,
}

impl ThemeIR {
    /// The UI colors in order: background, foreground, accent, cursor, selection background,
    /// border, sidebar background, sidebar foreground, input background, muted foreground.
    pub open spec fn ui_colors(&self) -> Seq<Seq<char>> {
        seq![
            self.background@,
            self.foreground@,
            self.accent@,
            self.cursor@,
            self.selection_bg@,
            self.border@,
            self.sidebar_bg@,
            self.sidebar_fg@,
            self.input_bg@,
            self.muted_fg@,
        ]
    }

    /// The five chart colors.
    pub open spec fn chart(&self) -> Seq<Seq<char>> {
        self.chart_colors@.map_values(|c: HexColor| c@)
    }
}

} // verus!
