use chromaport::color::{derive_palette, PaletteShades};
use chromaport::ir::{AnsiPalette, HexColor, ThemeType};

fn hex(s: &str) -> HexColor {
    HexColor::parse(s).unwrap()
}

/// Shades standing in for the ones computed in OKLCH from the base colors.
fn shades() -> PaletteShades {
    PaletteShades {
        sidebar_bg: hex("#F5F5F5"),
        input_bg: hex("#F7F7F7"),
        border: hex("#E0E0E0"),
        selection_bg: hex("#D6D6D6"),
        muted_fg: hex("#666666"),
        normal: AnsiPalette {
            black: hex("#555555"),
            red: hex("#B03030"),
            green: hex("#307030"),
            yellow: hex("#806000"),
            blue: hex("#3050B0"),
            magenta: hex("#903090"),
            cyan: hex("#207080"),
            white: hex("#444444"),
        },
        bright_black: hex("#999999"),
        bright_red: hex("#902020"),
        bright_green: hex("#205020"),
        bright_yellow: hex("#604000"),
        bright_blue: hex("#203090"),
        bright_magenta: hex("#702070"),
        bright_cyan: hex("#105060"),
        chart_colors: [
            hex("#0066AA"),
            hex("#AA0066"),
            hex("#66AA00"),
            hex("#00AA66"),
            hex("#6600AA"),
        ],
    }
}

#[test]
fn derive_palette_light() {
    let bg = HexColor::parse("#FFFFFF").unwrap();
    let fg = HexColor::parse("#333333").unwrap();
    let accent = HexColor::parse("#0078D4").unwrap();
    let ir = derive_palette(&bg, &fg, &accent, &ThemeType::Light, shades());
    assert!(matches!(ir.theme_type, ThemeType::Light));
}

#[test]
fn derive_palette_assembles_fields() {
    let bg = hex("#1E1E1E");
    let fg = hex("#D4D4D4");
    let accent = hex("#0078D4");
    let ir = derive_palette(&bg, &fg, &accent, &ThemeType::Dark, shades());
    assert_eq!(ir.chart_colors.len(), 5);
    assert_eq!(ir.background.as_str(), "#1E1E1E");
    assert_eq!(ir.cursor.as_str(), "#D4D4D4");
    assert_eq!(ir.sidebar_fg.as_str(), "#D4D4D4");
    assert_eq!(ir.muted_fg.as_str(), "#666666");
    assert_eq!(ir.terminal.bright.white.as_str(), "#FFFFFF");
    assert_eq!(ir.terminal.bright.cyan.as_str(), "#105060");
    assert_eq!(ir.terminal.normal.red.as_str(), "#B03030");
    assert!(ir.name.is_empty() && ir.id.is_empty());
    let light = derive_palette(&bg, &fg, &accent, &ThemeType::Light, shades());
    assert_eq!(light.terminal.bright.white.as_str(), "#000000");
}
