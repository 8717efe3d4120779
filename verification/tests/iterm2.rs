use chromaport::ir::{HexColor, ThemeType};
use chromaport::iterm2::{convert_iterm2, get_color, DerivedShades};

/// A preset component in 0.0..=1.0 as the 8-bit value the library takes.
fn component(v: f64) -> u8 {
    if v.is_nan() || v.is_infinite() {
        return 0;
    }
    (v.clamp(0.0, 1.0) * 255.0).round() as u8
}

fn entry(key: &str, (r, g, b): (f64, f64, f64)) -> (String, (u8, u8, u8)) {
    (key.to_string(), (component(r), component(g), component(b)))
}

fn shades() -> DerivedShades {
    DerivedShades {
        border: HexColor::parse("#2A2A2A").unwrap(),
        sidebar_bg: HexColor::parse("#202020").unwrap(),
        input_bg: HexColor::parse("#141414").unwrap(),
    }
}

fn full_preset() -> Vec<(String, (u8, u8, u8))> {
    let colors = [
        ("Ansi 0 Color", (0.0, 0.0, 0.0)),
        ("Ansi 1 Color", (0.8, 0.0, 0.0)),
        ("Ansi 2 Color", (0.0, 0.8, 0.0)),
        ("Ansi 3 Color", (0.8, 0.8, 0.0)),
        ("Ansi 4 Color", (0.0, 0.0, 0.8)),
        ("Ansi 5 Color", (0.8, 0.0, 0.8)),
        ("Ansi 6 Color", (0.0, 0.8, 0.8)),
        ("Ansi 7 Color", (0.8, 0.8, 0.8)),
        ("Ansi 8 Color", (0.3, 0.3, 0.3)),
        ("Ansi 9 Color", (1.0, 0.0, 0.0)),
        ("Ansi 10 Color", (0.0, 1.0, 0.0)),
        ("Ansi 11 Color", (1.0, 1.0, 0.0)),
        ("Ansi 12 Color", (0.0, 0.0, 1.0)),
        ("Ansi 13 Color", (1.0, 0.0, 1.0)),
        ("Ansi 14 Color", (0.0, 1.0, 1.0)),
        ("Ansi 15 Color", (1.0, 1.0, 1.0)),
        ("Background Color", (0.1, 0.1, 0.1)),
        ("Foreground Color", (0.9, 0.9, 0.9)),
        ("Cursor Color", (0.9, 0.9, 0.9)),
        ("Selection Color", (0.3, 0.3, 0.5)),
    ];
    colors.iter().map(|(k, c)| entry(k, *c)).collect()
}

#[test]
fn get_color_missing_key_returns_error() {
    let preset: Vec<(String, (u8, u8, u8))> = vec![];
    let result = get_color(&preset, "Nonexistent Color");
    assert!(result.is_err());
    assert_eq!(result.err(), Some("missing color key: Nonexistent Color".to_string()));
}

#[test]
fn get_color_formats_components() {
    let preset = vec![entry("Ansi 1 Color", (1.0, 0.5, 0.0))];
    assert_eq!(get_color(&preset, "Ansi 1 Color").unwrap().as_str(), "#FF8000");
}

#[test]
fn convert_iterm2_full_preset() {
    let preset = full_preset();
    let ir = convert_iterm2("Test Preset", &preset, ThemeType::Dark, shades()).unwrap();

    assert_eq!(ir.name, "Test Preset");
    assert_eq!(ir.id, "test-preset");
    assert_eq!(ir.terminal.normal.black.as_str(), "#000000");
    assert_eq!(ir.terminal.bright.white.as_str(), "#FFFFFF");
    assert_eq!(ir.terminal.background.as_str(), "#1A1A1A");
    assert_eq!(ir.accent.as_str(), ir.terminal.normal.blue.as_str());
    assert!(ir.syntax.is_none());
    assert!(ir.diff.is_none());
}

#[test]
fn convert_iterm2_derived_fields() {
    let preset = full_preset();
    let ir = convert_iterm2("Test Preset", &preset, ThemeType::Dark, shades()).unwrap();
    assert_eq!(ir.muted_fg.as_str(), "#4D4D4D");
    assert_eq!(ir.selection_bg.as_str(), "#4D4D80");
    assert_eq!(ir.border.as_str(), "#2A2A2A");
    assert_eq!(ir.sidebar_fg.as_str(), ir.foreground.as_str());
    assert_eq!(ir.chart_colors[0].as_str(), "#CC0000");
    assert_eq!(ir.chart_colors[4].as_str(), "#CC00CC");
    assert!(ir.terminal.cursor_accent.is_none());
}

#[test]
fn convert_iterm2_reports_first_missing_key() {
    let mut preset = full_preset();
    preset.retain(|(k, _)| k != "Ansi 3 Color" && k != "Cursor Color");
    let err = convert_iterm2("X", &preset, ThemeType::Dark, shades()).err();
    assert_eq!(err, Some("missing color key: Ansi 3 Color".to_string()));
}

#[test]
fn convert_iterm2_selection_falls_back_to_background() {
    let mut preset = full_preset();
    preset.retain(|(k, _)| k != "Selection Color");
    let ir = convert_iterm2("X", &preset, ThemeType::Light, shades()).unwrap();
    assert_eq!(ir.selection_bg.as_str(), "#1A1A1A");
    assert!(ir.terminal.selection_bg.is_none());
}
