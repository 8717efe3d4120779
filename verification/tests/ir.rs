use chromaport::color::hex_from_rgb;
use chromaport::ir::{HexColor, ThemeType};

#[test]
fn hex_color_valid_6_digit() {
    let c = HexColor::parse("#ff00aa").unwrap();
    assert_eq!(c.as_str(), "#FF00AA");
}

#[test]
fn hex_color_valid_3_digit() {
    let c = HexColor::parse("#f0a").unwrap();
    assert_eq!(c.as_str(), "#F0A");
}

#[test]
fn hex_color_valid_8_digit_alpha() {
    let c = HexColor::parse("#ff00aa80").unwrap();
    assert_eq!(c.as_str(), "#FF00AA80");
}

#[test]
fn hex_color_trims_whitespace() {
    let c = HexColor::parse("  #abc  ").unwrap();
    assert_eq!(c.as_str(), "#ABC");
}

#[test]
fn hex_color_rejects_no_hash() {
    assert!(HexColor::parse("ff00aa").is_err());
}

#[test]
fn hex_color_rejects_invalid_length() {
    assert!(HexColor::parse("#ff00a").is_err()); // 5 hex digits
    assert!(HexColor::parse("#ff").is_err()); // 2 hex digits
}

#[test]
fn hex_color_rejects_non_hex() {
    assert!(HexColor::parse("#gggggg").is_err());
}

#[test]
fn hex_color_error_messages() {
    assert_eq!(
        HexColor::parse(" ff00aa ").unwrap_err(),
        "color must start with '#': ff00aa"
    );
    assert_eq!(
        HexColor::parse("#ff00a").unwrap_err(),
        "color must be #RGB, #RRGGBB, or #RRGGBBAA: #ff00a"
    );
    assert_eq!(
        HexColor::parse("#gggggg").unwrap_err(),
        "color contains non-hex characters: #gggggg"
    );
    // Lengths are counted in bytes: three two-byte characters pass the length check.
    assert_eq!(
        HexColor::parse("#ééé").unwrap_err(),
        "color contains non-hex characters: #ééé"
    );
    assert!(HexColor::parse("").is_err());
    assert!(HexColor::parse("#").is_err());
}

#[test]
fn hex_color_text_roundtrip() {
    for s in ["#1E1E1E", "#ABC", "#FF00AA80", "#000000"] {
        let c = HexColor::parse(s).unwrap();
        let c2 = HexColor::parse(c.as_str()).unwrap();
        assert_eq!(c, c2);
        assert_eq!(c2.as_str(), s);
    }
}

#[test]
fn hex_color_to_rgb() {
    assert_eq!(HexColor::parse("#FF8040").unwrap().to_rgb(), (255, 128, 64));
    assert_eq!(HexColor::parse("#f0a").unwrap().to_rgb(), (255, 0, 170));
    assert_eq!(HexColor::parse("#11223344").unwrap().to_rgb(), (0x11, 0x22, 0x33));
}

#[test]
fn hex_from_rgb_formats_upper_case() {
    assert_eq!(hex_from_rgb(255, 128, 0).as_str(), "#FF8000");
    assert_eq!(hex_from_rgb(0, 0, 0).as_str(), "#000000");
    assert_eq!(hex_from_rgb(26, 26, 26).as_str(), "#1A1A1A");
}

#[test]
fn hex_from_rgb_roundtrip() {
    for (r, g, b) in [(0u8, 0u8, 0u8), (255, 255, 255), (1, 2, 3), (128, 64, 200)] {
        assert_eq!(hex_from_rgb(r, g, b).to_rgb(), (r, g, b));
    }
}

#[test]
fn theme_type_from_ui_theme() {
    assert_eq!(ThemeType::from_ui_theme("vs"), ThemeType::Light);
    assert_eq!(ThemeType::from_ui_theme("hc-light"), ThemeType::Light);
    assert_eq!(ThemeType::from_ui_theme("vs-dark"), ThemeType::Dark);
    assert_eq!(ThemeType::from_ui_theme("hc-black"), ThemeType::Dark);
    assert_eq!(ThemeType::from_ui_theme("unknown"), ThemeType::Dark);
}

#[test]
fn theme_type_as_str() {
    assert_eq!(ThemeType::Dark.as_str(), "dark");
    assert_eq!(ThemeType::Light.as_str(), "light");
}
