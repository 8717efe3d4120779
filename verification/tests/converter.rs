use chromaport::converter::{
    convert, merge_themes, ScopeValue, TokenColorRule, TokenSettings, VsCodeThemeJson,
};
use chromaport::ir::ThemeType;
use chromaport::reader::ThemeEntry;
use std::path::PathBuf;

fn make_entry(label: &str, ui_theme: &str) -> ThemeEntry {
    ThemeEntry {
        label: label.to_string(),
        settings_id: label.to_string(),
        ui_theme: ui_theme.to_string(),
        path: PathBuf::from("/fake/theme.json"),
        extension_name: "Test Extension".to_string(),
    }
}

fn colors(pairs: &[(&str, &str)]) -> Vec<(String, String)> {
    pairs
        .iter()
        .map(|(k, v)| (k.to_string(), v.to_string()))
        .collect()
}

fn rule(scope: &str, fg: &str) -> TokenColorRule {
    TokenColorRule {
        name: None,
        scope: ScopeValue::Single(scope.to_string()),
        settings: TokenSettings {
            foreground: Some(fg.to_string()),
        },
    }
}

fn minimal_dark_theme_json() -> VsCodeThemeJson {
    VsCodeThemeJson {
        colors: colors(&[
            ("editor.background", "#282c34"),
            ("editor.foreground", "#abb2bf"),
            ("activityBarBadge.background", "#528bff"),
            ("editorCursor.foreground", "#528bff"),
            ("editor.selectionBackground", "#3e4451"),
            ("terminal.ansiRed", "#e06c75"),
            ("terminal.ansiGreen", "#98c379"),
            ("terminal.ansiYellow", "#d19a66"),
            ("terminal.ansiBlue", "#61afef"),
            ("terminal.ansiMagenta", "#c678dd"),
            ("terminal.ansiCyan", "#56b6c2"),
            ("terminal.ansiWhite", "#abb2bf"),
            ("terminal.ansiBlack", "#282c34"),
            ("terminal.ansiBrightRed", "#e06c75"),
            ("terminal.ansiBrightGreen", "#98c379"),
            ("terminal.ansiBrightYellow", "#d19a66"),
            ("terminal.ansiBrightBlue", "#61afef"),
            ("terminal.ansiBrightMagenta", "#c678dd"),
            ("terminal.ansiBrightCyan", "#56b6c2"),
            ("terminal.ansiBrightWhite", "#ffffff"),
            ("terminal.ansiBrightBlack", "#5c6370"),
        ]),
        token_colors: vec![],
    }
}

#[test]
fn convert_dark_theme_extracts_colors() {
    let entry = make_entry("One Dark", "vs-dark");
    let json = minimal_dark_theme_json();
    let ir = convert(&entry, &json).unwrap();

    assert_eq!(ir.name, "One Dark");
    assert_eq!(ir.id, "one-dark");
    assert!(matches!(ir.theme_type, ThemeType::Dark));
    assert_eq!(ir.background.as_str(), "#282C34");
    assert_eq!(ir.foreground.as_str(), "#ABB2BF");
    assert_eq!(ir.accent.as_str(), "#528BFF");
    assert_eq!(ir.terminal.normal.red.as_str(), "#E06C75");
    assert_eq!(ir.terminal.bright.white.as_str(), "#FFFFFF");
}

#[test]
fn convert_light_theme_uses_light_defaults() {
    let entry = make_entry("Light Theme", "vs");
    let json = VsCodeThemeJson {
        colors: vec![],
        token_colors: vec![],
    };
    let ir = convert(&entry, &json).unwrap();

    assert!(matches!(ir.theme_type, ThemeType::Light));
    assert_eq!(ir.background.as_str(), "#FFFFFF");
    assert_eq!(ir.foreground.as_str(), "#000000");
}

#[test]
fn convert_empty_json_uses_defaults() {
    let entry = make_entry("Empty", "vs-dark");
    let json = VsCodeThemeJson {
        colors: vec![],
        token_colors: vec![],
    };
    let ir = convert(&entry, &json).unwrap();

    assert_eq!(ir.background.as_str(), "#1E1E1E");
    assert_eq!(ir.foreground.as_str(), "#D4D4D4");
    assert_eq!(ir.chart_colors.len(), 5);
}

#[test]
fn convert_generates_slug_id() {
    let entry = make_entry("Ayu Dark Bordered", "vs-dark");
    let json = VsCodeThemeJson {
        colors: vec![],
        token_colors: vec![],
    };
    let ir = convert(&entry, &json).unwrap();

    assert_eq!(ir.id, "ayu-dark-bordered");
}

#[test]
fn chart_colors_extracted_from_token_colors() {
    let entry = make_entry("Test", "vs-dark");
    let json = VsCodeThemeJson {
        colors: vec![],
        token_colors: vec![
            rule("keyword", "#ff0000"),
            rule("string", "#00ff00"),
            rule("entity.name.function", "#0000ff"),
            rule("constant.numeric", "#ff00ff"),
            rule("entity.name.tag", "#00ffff"),
        ],
    };
    let ir = convert(&entry, &json).unwrap();

    assert_eq!(ir.chart_colors[0].as_str(), "#FF0000");
    assert_eq!(ir.chart_colors[1].as_str(), "#00FF00");
    assert_eq!(ir.chart_colors[2].as_str(), "#0000FF");
    assert_eq!(ir.chart_colors[3].as_str(), "#FF00FF");
    assert_eq!(ir.chart_colors[4].as_str(), "#00FFFF");
}

#[test]
fn merge_themes_child_colors_win() {
    let base = VsCodeThemeJson {
        colors: colors(&[("editor.background", "#111111"), ("editor.foreground", "#222222")]),
        token_colors: vec![rule("keyword", "#aa0000")],
    };
    let child = VsCodeThemeJson {
        colors: colors(&[("editor.background", "#333333"), ("focusBorder", "#444444")]),
        token_colors: vec![rule("string", "#00bb00")],
    };
    let merged = merge_themes(base, child);
    let get = |k: &str| {
        merged
            .colors
            .iter()
            .find(|(key, _)| key == k)
            .map(|(_, v)| v.clone())
    };
    assert_eq!(get("editor.background").as_deref(), Some("#333333"));
    assert_eq!(get("editor.foreground").as_deref(), Some("#222222"));
    assert_eq!(get("focusBorder").as_deref(), Some("#444444"));
    assert_eq!(get("missing"), None);
    assert_eq!(merged.colors.len(), 3);
    assert_eq!(merged.token_colors.len(), 2);
    assert_eq!(merged.token_colors[0].settings.foreground.as_deref(), Some("#aa0000"));
    assert_eq!(merged.token_colors[1].settings.foreground.as_deref(), Some("#00bb00"));
}

#[test]
fn merged_theme_converts_with_child_background() {
    let base = minimal_dark_theme_json();
    let child = VsCodeThemeJson {
        colors: colors(&[("editor.background", "#101010")]),
        token_colors: vec![],
    };
    let merged = merge_themes(base, child);
    let ir = convert(&make_entry("Child", "vs-dark"), &merged).unwrap();
    assert_eq!(ir.background.as_str(), "#101010");
    assert_eq!(ir.foreground.as_str(), "#ABB2BF");
}

#[test]
fn scope_value_to_scopes_splits_and_trims() {
    let s = ScopeValue::Single("keyword, string ,comment".to_string());
    assert_eq!(s.to_scopes(), vec!["keyword", "string", "comment"]);
    assert!(ScopeValue::NoScope.to_scopes().is_empty());
    let m = ScopeValue::Multiple(vec!["a".to_string(), " b".to_string()]);
    assert_eq!(m.to_scopes(), vec!["a", " b"]);
}
