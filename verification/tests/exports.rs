use chromaport::exports::{
    css_comment_name, opencode_theme_colors, superset_terminal_colors, superset_ui_colors, warp_details,
};
use chromaport::ir::{
    AnsiColors, AnsiPalette, DiffColors, HexColor, SyntaxColors, ThemeIR, ThemeType,
};

fn hex(s: &str) -> HexColor {
    HexColor::parse(s).unwrap()
}

fn make_test_ir() -> ThemeIR {
    let palette = || AnsiPalette {
        black: hex("#000000"),
        red: hex("#FF0000"),
        green: hex("#00FF00"),
        yellow: hex("#FFFF00"),
        blue: hex("#0000FF"),
        magenta: hex("#FF00FF"),
        cyan: hex("#00FFFF"),
        white: hex("#FFFFFF"),
    };
    ThemeIR {
        id: "test-theme".to_string(),
        name: "Test Theme".to_string(),
        theme_type: ThemeType::Dark,
        background: hex("#1E1E1E"),
        foreground: hex("#D4D4D4"),
        accent: hex("#0078D4"),
        cursor: hex("#D4D4D4"),
        selection_bg: hex("#264F78"),
        border: hex("#3E3E3E"),
        sidebar_bg: hex("#252526"),
        sidebar_fg: hex("#CCCCCC"),
        input_bg: hex("#3C3C3C"),
        muted_fg: hex("#858585"),
        chart_colors: [
            hex("#E06C75"),
            hex("#98C379"),
            hex("#61AFEF"),
            hex("#C678DD"),
            hex("#56B6C2"),
        ],
        terminal: AnsiColors {
            normal: palette(),
            bright: palette(),
            background: hex("#1E1E1E"),
            foreground: hex("#D4D4D4"),
            cursor: hex("#D4D4D4"),
            cursor_accent: None,
            selection_bg: Some(hex("#264F78")),
        },
        syntax: None,
        diff: None,
        created_at: None,
    }
}

fn get<'a>(entries: &'a [(String, String)], key: &str) -> Option<&'a str> {
    entries.iter().find(|(k, _)| k == key).map(|(_, v)| v.as_str())
}

#[test]
fn format_opencode_theme_has_required_fields() {
    let theme = opencode_theme_colors(&make_test_ir());
    for key in [
        "primary",
        "text",
        "background",
        "accent",
        "error",
        "syntaxKeyword",
        "diffAdded",
        "markdownHeading",
    ] {
        assert!(get(&theme, key).is_some(), "missing {key}");
    }
    assert_eq!(theme.len(), 30);
}

#[test]
fn opencode_theme_falls_back_to_chart_and_ansi_colors() {
    let theme = opencode_theme_colors(&make_test_ir());
    assert_eq!(get(&theme, "syntaxKeyword"), Some("#E06C75"));
    assert_eq!(get(&theme, "syntaxType"), Some("#00FFFF"));
    assert_eq!(get(&theme, "diffAdded"), Some("#00FF00"));
    assert_eq!(get(&theme, "diffHunkHeader"), Some("#0000FF"));
    assert_eq!(get(&theme, "markdownCode"), Some("#98C379"));
    assert_eq!(get(&theme, "markdownLink"), Some("#0078D4"));
}

#[test]
fn format_opencode_theme_uses_syntax_when_present() {
    let mut ir = make_test_ir();
    ir.syntax = Some(SyntaxColors {
        comment: hex("#6A9955"),
        keyword: hex("#C586C0"),
        function: hex("#DCDCAA"),
        variable: hex("#9CDCFE"),
        string: hex("#CE9178"),
        number: hex("#B5CEA8"),
        type_: hex("#4EC9B0"),
        operator: hex("#D4D4D4"),
        punctuation: hex("#808080"),
    });
    let theme = opencode_theme_colors(&ir);
    assert_eq!(get(&theme, "syntaxComment"), Some("#6A9955"));
    assert_eq!(get(&theme, "syntaxKeyword"), Some("#C586C0"));
    assert_eq!(get(&theme, "markdownHeading"), Some("#C586C0"));
}

#[test]
fn format_opencode_theme_uses_diff_when_present() {
    let mut ir = make_test_ir();
    ir.diff = Some(DiffColors {
        added: hex("#2EA043"),
        removed: hex("#F85149"),
        context: hex("#858585"),
        hunk_header: hex("#61AFEF"),
    });
    let theme = opencode_theme_colors(&ir);
    assert_eq!(get(&theme, "diffAdded"), Some("#2EA043"));
    assert_eq!(get(&theme, "diffRemoved"), Some("#F85149"));
}

#[test]
fn ir_to_json_ui_colors_mapped() {
    let ui = superset_ui_colors(&make_test_ir());
    assert_eq!(get(&ui, "background"), Some("#1E1E1E"));
    assert_eq!(get(&ui, "foreground"), Some("#D4D4D4"));
    assert_eq!(get(&ui, "primary"), Some("#0078D4"));
    assert_eq!(get(&ui, "border"), Some("#3E3E3E"));
    assert_eq!(get(&ui, "chart1"), Some("#E06C75"));
    assert_eq!(get(&ui, "chart5"), Some("#56B6C2"));
    assert_eq!(get(&ui, "highlightMatch"), Some("#0078D433"));
    assert_eq!(get(&ui, "highlightActive"), Some("#0078D480"));
    assert_eq!(ui.len(), 36);
}

#[test]
fn ir_to_json_terminal_colors_mapped() {
    let terminal = superset_terminal_colors(&make_test_ir());
    assert_eq!(get(&terminal, "background"), Some("#1E1E1E"));
    assert_eq!(get(&terminal, "foreground"), Some("#D4D4D4"));
    assert_eq!(get(&terminal, "red"), Some("#FF0000"));
    assert_eq!(get(&terminal, "brightRed"), Some("#FF0000"));
    assert_eq!(get(&terminal, "selectionBackground"), Some("#264F78"));
}

#[test]
fn ir_to_json_omits_none_terminal_fields() {
    let mut ir = make_test_ir();
    ir.terminal.cursor_accent = None;
    ir.terminal.selection_bg = None;
    let terminal = superset_terminal_colors(&ir);
    assert!(get(&terminal, "cursorAccent").is_none());
    assert!(get(&terminal, "selectionBackground").is_none());
    assert_eq!(terminal.len(), 19);
}

#[test]
fn ir_to_json_includes_some_terminal_optional_fields() {
    let mut ir = make_test_ir();
    ir.terminal.cursor_accent = Some(hex("#FF0000"));
    ir.terminal.selection_bg = Some(hex("#00FF00"));
    let terminal = superset_terminal_colors(&ir);
    assert_eq!(get(&terminal, "cursorAccent"), Some("#FF0000"));
    assert_eq!(get(&terminal, "selectionBackground"), Some("#00FF00"));
}

#[test]
fn ir_to_json_terminal_has_all_required_ansi_colors() {
    let terminal = superset_terminal_colors(&make_test_ir());
    let required = [
        "background",
        "foreground",
        "cursor",
        "black",
        "red",
        "green",
        "yellow",
        "blue",
        "magenta",
        "cyan",
        "white",
        "brightBlack",
        "brightRed",
        "brightGreen",
        "brightYellow",
        "brightBlue",
        "brightMagenta",
        "brightCyan",
        "brightWhite",
    ];
    for key in required {
        assert!(get(&terminal, key).is_some(), "missing required terminal key: {}", key);
    }
}

#[test]
fn warp_light_theme_uses_lighter_details() {
    assert_eq!(warp_details(&ThemeType::Light), "lighter");
    assert_eq!(warp_details(&ThemeType::Dark), "darker");
}

#[test]
fn css_comment_name_breaks_comment_ends() {
    assert_eq!(css_comment_name("My */ Theme"), "My * / Theme");
    assert_eq!(css_comment_name("**//"), "** //");
    assert_eq!(css_comment_name("plain"), "plain");
    assert!(!css_comment_name("a*/*/b*").contains("*/"));
}

#[test]
fn iterm2_preset_colors_map_every_key() {
    let ir = make_test_ir();
    let colors = chromaport::exports::iterm2_preset_colors(&ir);
    assert_eq!(colors.len(), 24);
    assert_eq!(get(&colors, "Ansi 0 Color"), Some("#000000"));
    assert_eq!(get(&colors, "Ansi 9 Color"), Some("#FF0000"));
    assert_eq!(get(&colors, "Ansi 15 Color"), Some("#FFFFFF"));
    assert_eq!(get(&colors, "Cursor Text Color"), Some("#1E1E1E"));
    assert_eq!(get(&colors, "Selection Color"), Some("#264F78"));
    assert_eq!(get(&colors, "Link Color"), Some("#0078D4"));
}
