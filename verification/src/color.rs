//! Colors built from RGB components.
use vstd::prelude::*;
use crate::ir::{rgb_of, valid_hex_color, AnsiColors, AnsiPalette, HexColor, ThemeIR, ThemeType};
use crate::text::{hex_value, push_char, upper_hex_char, upper_hex_digit};

verus! {

/// The two upper-case hexadecimal digits of a byte.
pub open spec fn byte_hex(v: u8) -> Seq<char> {
    seq![upper_hex_digit(v as int / 16), upper_hex_digit(v as int % 16)]
}

/// `#RRGGBB` for the given components, in upper case.
pub open spec fn rgb_hex(r: u8, g: u8, b: u8) -> Seq<char> {
    seq!['#'] + byte_hex(r) + byte_hex(g) + byte_hex(b)
}

proof fn lemma_upper_hex_digit(v: int)
    requires
        0 <= v < 16,
    ensures
        hex_value(upper_hex_digit(v)) == v,
        crate::text::is_upper_hex_digit(upper_hex_digit(v)),
{
}

/// `#RRGGBB` is a canonical color.
pub proof fn lemma_rgb_hex_valid(r: u8, g: u8, b: u8)
    ensures
        valid_hex_color(rgb_hex(r, g, b)),
{
    lemma_upper_hex_digit(r as int / 16);
    lemma_upper_hex_digit(r as int % 16);
    lemma_upper_hex_digit(g as int / 16);
    lemma_upper_hex_digit(g as int % 16);
    lemma_upper_hex_digit(b as int / 16);
    lemma_upper_hex_digit(b as int % 16);
    let v = rgb_hex(r, g, b);
    assert(v.len() == 7);
    assert(v[1] == upper_hex_digit(r as int / 16));
}

fn push_byte_hex(s: &mut String, v: u8)
    ensures
        final(s)@ == old(s)@ + byte_hex(v),
{
    push_char(s, upper_hex_char(v / 16));
    push_char(s, upper_hex_char(v % 16));
    assert(final(s)@ =~= old(s)@ + byte_hex(v));
}

/// The color `#RRGGBB` of the given components.
pub fn hex_from_rgb(r: u8, g: u8, b: u8) -> (c: HexColor)
    ensures
        c@ == rgb_hex(r, g, b),
{
    let mut s = String::new();
    push_char(&mut s, '#');
    push_byte_hex(&mut s, r);
    push_byte_hex(&mut s, g);
    push_byte_hex(&mut s, b);
    proof {
        assert(s@ =~= rgb_hex(r, g, b));
        lemma_rgb_hex_valid(r, g, b);
    }
    HexColor::from_canonical(s)
}

/// Reading back the components of `#RRGGBB` gives the components it was made from.
pub proof fn law_rgb_roundtrip(r: u8, g: u8, b: u8)
    ensures
        rgb_of(rgb_hex(r, g, b)) == (r as int, g as int, b as int),
{
    lemma_upper_hex_digit(r as int / 16);
    lemma_upper_hex_digit(r as int % 16);
    lemma_upper_hex_digit(g as int / 16);
    lemma_upper_hex_digit(g as int % 16);
    lemma_upper_hex_digit(b as int / 16);
    lemma_upper_hex_digit(b as int % 16);
}


/// The colors of a derived palette that come from color-space arithmetic on the base colors
/// (lightness shifts in OKLCH and hues raised to a minimum contrast), computed outside the
/// library.
pub struct PaletteShades {
    pub sidebar_bg: HexColor,
    pub input_bg: HexColor,
    pub border: HexColor,
    pub selection_bg: HexColor,
    pub muted_fg: HexColor,
    /// The eight normal ANSI colors.
    pub normal: AnsiPalette,
    pub bright_black: HexColor,
    pub bright_red: HexColor,
    pub bright_green: HexColor,
    pub bright_yellow: HexColor,
    pub bright_blue: HexColor,
    pub bright_magenta: HexColor,
    pub bright_cyan: HexColor,
    pub chart_colors: [HexColor; 5],
}

/// The bright white of a derived palette: white on dark themes, black on light ones.
pub open spec fn bright_white_of(theme_type: ThemeType) -> Seq<char> {
    match theme_type {
        ThemeType::Dark => rgb_hex(255, 255, 255),
        ThemeType::Light => rgb_hex(0, 0, 0),
    }
}

/// A full theme derived from a background, a foreground and an accent: the three colors are
/// kept as given, the cursor and sidebar text are the foreground, the terminal shares the
/// background, foreground and cursor, and the rest comes from `shades`; bright white is white
/// on dark themes and black on light ones. The name and id are left empty.
pub fn derive_palette(
    bg: &HexColor,
    fg: &HexColor,
    accent: &HexColor,
    theme_type: &ThemeType,
    shades: PaletteShades,
) -> (ir: ThemeIR)
    ensures
        ir.id@.len() == 0,
        ir.name@.len() == 0,
        ir.theme_type == *theme_type,
        ir.background@ == bg@,
        ir.foreground@ == fg@,
        ir.accent@ == accent@,
        ir.cursor@ == fg@,
        ir.selection_bg@ == shades.selection_bg@,
        ir.border@ == shades.border@,
        ir.sidebar_bg@ == shades.sidebar_bg@,
        ir.sidebar_fg@ == fg@,
        ir.input_bg@ == shades.input_bg@,
        ir.muted_fg@ == shades.muted_fg@,
        ir.chart() == shades.chart_colors@.map_values(|c: HexColor| c@),
        ir.terminal.normal.colors() == shades.normal.colors(),
        ir.terminal.bright.colors() == seq![
            shades.bright_black@,
            shades.bright_red@,
            shades.bright_green@,
            shades.bright_yellow@,
            shades.bright_blue@,
            shades.bright_magenta@,
            shades.bright_cyan@,
            bright_white_of(*theme_type),
        ],
        ir.terminal.background@ == bg@,
        ir.terminal.foreground@ == fg@,
        ir.terminal.cursor@ == fg@,
        ir.terminal.cursor_accent is None,
        ir.terminal.selection_bg is None,
        ir.syntax is None,
        ir.diff is None,
        ir.created_at is None,
{
    let bright_white = match theme_type {
        ThemeType::Dark => hex_from_rgb(255, 255, 255),
        ThemeType::Light => hex_from_rgb(0, 0, 0),
    };
    let PaletteShades {
        sidebar_bg,
        input_bg,
        border,
        selection_bg,
        muted_fg,
        normal,
        bright_black,
        bright_red,
        bright_green,
        bright_yellow,
        bright_blue,
        bright_magenta,
        bright_cyan,
        chart_colors,
    } = shades;
    let bright = AnsiPalette {
        black: bright_black,
        red: bright_red,
        green: bright_green,
        yellow: bright_yellow,
        blue: bright_blue,
        magenta: bright_magenta,
        cyan: bright_cyan,
        white: bright_white,
    };
    let tt = match theme_type {
        ThemeType::Dark => ThemeType::Dark,
        ThemeType::Light => ThemeType::Light,
    };
    ThemeIR {
        id: String::new(),
        name: String::new(),
        theme_type: tt,
        background: bg.clone(),
        foreground: fg.clone(),
        accent: accent.clone(),
        cursor: fg.clone(),
        selection_bg,
        border,
        sidebar_bg,
        sidebar_fg: fg.clone(),
        input_bg,
        muted_fg,
        chart_colors,
        terminal: AnsiColors {
            normal,
            bright,
            background: bg.clone(),
            foreground: fg.clone(),
            cursor: fg.clone(),
            cursor_accent: None,
            selection_bg: None,
        },
        syntax: None,
        diff: None,
        created_at: None,
    }
}

} // verus!
