//! Converting an iTerm2 color preset into the intermediate representation.
//!
//! A preset arrives as its color entries: (key, (red, green, blue)) with 8-bit components,
//! each key once. Entries that are not color dictionaries are left out, exactly as a lookup
//! that finds no dictionary treats them.
use vstd::prelude::*;
use crate::color::{hex_from_rgb, rgb_hex};
use crate::ir::{opt_color, AnsiColors, AnsiPalette, HexColor, ThemeIR, ThemeType};
use crate::store::{slug_of, theme_slug};

verus! {

broadcast use vstd::array::group_array_axioms;

/// A preset's color entries as (key, components).
pub open spec fn preset_view(p: Seq<(String, (u8, u8, u8))>) -> Seq<(Seq<char>, (u8, u8, u8))> {
    p.map_values(|e: (String, (u8, u8, u8))| (e.0@, e.1))
}

/// The components under `key` (its first entry).
pub open spec fn rgb_lookup(p: Seq<(Seq<char>, (u8, u8, u8))>, key: Seq<char>) -> Option<
    (u8, u8, u8),
>
    decreases p.len(),
{
    if p.len() == 0 {
        None
    } else if p[0].0 == key {
        Some(p[0].1)
    } else {
        rgb_lookup(p.drop_first(), key)
    }
}

/// The color under `key`, or the error naming the missing key.
pub open spec fn preset_color(p: Seq<(Seq<char>, (u8, u8, u8))>, key: Seq<char>) -> Result<
    Seq<char>,
    Seq<char>,
> {
    match rgb_lookup(p, key) {
        Some(c) => Ok(rgb_hex(c.0, c.1, c.2)),
        None => Err("missing color key: "@ + key),
    }
}

/// The color under `key`, or the error naming the missing key.
pub fn get_color(preset: &Vec<(String, (u8, u8, u8))>, key: &str) -> (r: Result<HexColor, String>)
    ensures
        match preset_color(preset_view(preset@), key@) {
            Ok(c) => r is Ok && r->Ok_0@ == c,
            Err(e) => r is Err && r->Err_0@ == e,
        },
{
    let mut i: usize = 0;
    assert(preset_view(preset@).subrange(0, preset.len() as int) =~= preset_view(preset@));
    while i < preset.len()
        invariant
            i <= preset.len(),
            rgb_lookup(preset_view(preset@), key@) == rgb_lookup(
                preset_view(preset@).subrange(i as int, preset.len() as int),
                key@,
            ),
        decreases preset.len() - i,
    {
        let ghost rest = preset_view(preset@).subrange(i as int, preset.len() as int);
        assert(rest[0] == (preset@[i as int].0@, preset@[i as int].1));
        if crate::ir::str_eq(preset[i].0.as_str(), key) {
            let (r, g, b) = preset[i].1;
            return Ok(hex_from_rgb(r, g, b));
        }
        assert(rest.drop_first() =~= preset_view(preset@).subrange(i + 1, preset.len() as int));
        i += 1;
    }
    let mut e = String::from_str("missing color key: ");
    e.append(key);
    Err(e)
}

/// The keys a preset must hold, in the order they are read: the sixteen ANSI colors, then
/// background, foreground and cursor.
pub open spec fn required_keys() -> Seq<Seq<char>> {
    seq![
        "Ansi 0 Color"@,
        "Ansi 1 Color"@,
        "Ansi 2 Color"@,
        "Ansi 3 Color"@,
        "Ansi 4 Color"@,
        "Ansi 5 Color"@,
        "Ansi 6 Color"@,
        "Ansi 7 Color"@,
        "Ansi 8 Color"@,
        "Ansi 9 Color"@,
        "Ansi 10 Color"@,
        "Ansi 11 Color"@,
        "Ansi 12 Color"@,
        "Ansi 13 Color"@,
        "Ansi 14 Color"@,
        "Ansi 15 Color"@,
        "Background Color"@,
        "Foreground Color"@,
        "Cursor Color"@,
    ]
}

/// The first of `keys` the preset lacks.
pub open spec fn first_missing(p: Seq<(Seq<char>, (u8, u8, u8))>, keys: Seq<Seq<char>>) -> Option<
    Seq<char>,
>
    decreases keys.len(),
{
    if keys.len() == 0 {
        None
    } else if rgb_lookup(p, keys[0]) is None {
        Some(keys[0])
    } else {
        first_missing(p, keys.drop_first())
    }
}

/// The color of a key the preset holds.
pub open spec fn hex_at(p: Seq<(Seq<char>, (u8, u8, u8))>, key: Seq<char>) -> Seq<char> {
    preset_color(p, key)->Ok_0
}

/// Shades of the background that the theme's UI uses, derived from it outside the library:
/// a border, a sidebar and an input background.
pub struct DerivedShades {
    pub border: HexColor,
    pub sidebar_bg: HexColor,
    pub input_bg: HexColor,
}

/// The theme built from a preset that holds every required key.
pub open spec fn iterm2_theme(
    ir: ThemeIR,
    name: Seq<char>,
    p: Seq<(Seq<char>, (u8, u8, u8))>,
    theme_type: ThemeType,
    shades: DerivedShades,
) -> bool {
    let k = required_keys();
    let normal = Seq::new(8, |i: int| hex_at(p, k[i]));
    let bright = Seq::new(8, |i: int| hex_at(p, k[i + 8]));
    let background = hex_at(p, k[16]);
    let foreground = hex_at(p, k[17]);
    let cursor = hex_at(p, k[18]);
    let selection = match preset_color(p, "Selection Color"@) {
        Ok(c) => Some(c),
        Err(_) => None,
    };
    &&& ir.id@ == slug_of(name)
    &&& ir.name@ == name
    &&& ir.theme_type == theme_type
    &&& ir.background@ == background
    &&& ir.foreground@ == foreground
    &&& ir.accent@ == normal[4]
    &&& ir.cursor@ == cursor
    &&& ir.selection_bg@ == (match selection {
        Some(c) => c,
        None => background,
    })
    &&& ir.border@ == shades.border@
    &&& ir.sidebar_bg@ == shades.sidebar_bg@
    &&& ir.sidebar_fg@ == foreground
    &&& ir.input_bg@ == shades.input_bg@
    &&& ir.muted_fg@ == bright[0]
    &&& ir.chart() == normal.subrange(1, 6)
    &&& ir.terminal.normal.colors() == normal
    &&& ir.terminal.bright.colors() == bright
    &&& ir.terminal.background@ == background
    &&& ir.terminal.foreground@ == foreground
    &&& ir.terminal.cursor@ == cursor
    &&& ir.terminal.cursor_accent is None
    &&& opt_color(ir.terminal.selection_bg) == selection
    &&& ir.syntax is None
    &&& ir.diff is None
    &&& ir.created_at is None
}

/// Convert an iTerm2 color preset into ThemeIR. The border, sidebar and input backgrounds
/// come from `shades`, which the caller derives from the preset's background.
pub fn convert_iterm2(
    name: &str,
    preset: &Vec<(String, (u8, u8, u8))>,
    theme_type: ThemeType,
    shades: DerivedShades,
) -> (r: Result<ThemeIR, String>)
    ensures
        match first_missing(preset_view(preset@), required_keys()) {
            Some(key) => r is Err && r->Err_0@ == "missing color key: "@ + key,
            None => r is Ok && iterm2_theme(
                r->Ok_0,
                name@,
                preset_view(preset@),
                theme_type,
                shades,
            ),
        },
{
    let ghost p = preset_view(preset@);
    let keys = [
        "Ansi 0 Color",
        "Ansi 1 Color",
        "Ansi 2 Color",
        "Ansi 3 Color",
        "Ansi 4 Color",
        "Ansi 5 Color",
        "Ansi 6 Color",
        "Ansi 7 Color",
        "Ansi 8 Color",
        "Ansi 9 Color",
        "Ansi 10 Color",
        "Ansi 11 Color",
        "Ansi 12 Color",
        "Ansi 13 Color",
        "Ansi 14 Color",
        "Ansi 15 Color",
        "Background Color",
        "Foreground Color",
        "Cursor Color",
    ];
    let ghost kv = keys@.map_values(|k: &str| k@);
    assert(kv =~= required_keys());
    let mut colors: Vec<HexColor> = Vec::new();
    let mut i: usize = 0;
    assert(required_keys().subrange(0, 19) =~= required_keys());
    while i < 19
        invariant
            i <= 19,
            p == preset_view(preset@),
            kv == required_keys(),
            kv == keys@.map_values(|k: &str| k@),
            colors@.len() == i,
            forall|j: int| 0 <= j < i ==> (#[trigger] colors@[j])@ == hex_at(p, required_keys()[j]),
            first_missing(p, required_keys()) == first_missing(
                p,
                required_keys().subrange(i as int, 19),
            ),
        decreases 19 - i,
    {
        let ghost rest = required_keys().subrange(i as int, 19);
        assert(rest[0] == keys@[i as int]@);
        assert(rest.drop_first() =~= required_keys().subrange(i + 1, 19));
        match get_color(preset, keys[i]) {
            Ok(c) => colors.push(c),
            Err(e) => return Err(e),
        }
        i += 1;
    }
    let selection_bg = match get_color(preset, "Selection Color") {
        Ok(c) => Some(c),
        Err(_) => None,
    };
    let normal = AnsiPalette {
        black: colors[0].clone(),
        red: colors[1].clone(),
        green: colors[2].clone(),
        yellow: colors[3].clone(),
        blue: colors[4].clone(),
        magenta: colors[5].clone(),
        cyan: colors[6].clone(),
        white: colors[7].clone(),
    };
    let bright = AnsiPalette {
        black: colors[8].clone(),
        red: colors[9].clone(),
        green: colors[10].clone(),
        yellow: colors[11].clone(),
        blue: colors[12].clone(),
        magenta: colors[13].clone(),
        cyan: colors[14].clone(),
        white: colors[15].clone(),
    };
    let background = colors[16].clone();
    let foreground = colors[17].clone();
    let cursor = colors[18].clone();
    let chart_colors = [
        colors[1].clone(),
        colors[2].clone(),
        colors[3].clone(),
        colors[4].clone(),
        colors[5].clone(),
    ];
    let selection = match &selection_bg {
        Some(c) => c.clone(),
        None => background.clone(),
    };
    let ir = ThemeIR {
        id: theme_slug(name),
        name: String::from_str(name),
        theme_type,
        background: background.clone(),
        foreground: foreground.clone(),
        accent: colors[4].clone(),
        cursor: cursor.clone(),
        selection_bg: selection,
        border: shades.border,
        sidebar_bg: shades.sidebar_bg,
        sidebar_fg: foreground.clone(),
        input_bg: shades.input_bg,
        muted_fg: colors[8].clone(),
        chart_colors,
        terminal: AnsiColors {
            normal,
            bright,
            background,
            foreground,
            cursor,
            cursor_accent: None,
            selection_bg,
        },
        syntax: None,
        diff: None,
        created_at: None,
    };
    proof {
        let k = required_keys();
        assert(ir.terminal.normal.colors() =~= Seq::new(8, |i: int| hex_at(p, k[i])));
        assert(ir.terminal.bright.colors() =~= Seq::new(8, |i: int| hex_at(p, k[i + 8])));
        assert(ir.chart() =~= Seq::new(8, |i: int| hex_at(p, k[i])).subrange(1, 6));
    }
    Ok(ir)
}

} // verus!
