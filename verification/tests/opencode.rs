use chromaport::color::PaletteShades;
use chromaport::ir::{AnsiPalette, HexColor, ThemeType};
use chromaport::opencode::{
    convert_opencode, extract_diff, extract_syntax, opencode_base_colors, opencode_theme_from_text,
    resolve_defs,
    string_entries,
};

fn hex(s: &str) -> HexColor {
    HexColor::parse(s).unwrap()
}

fn palette() -> AnsiPalette {
    AnsiPalette {
        black: hex("#000000"),
        red: hex("#FF0000"),
        green: hex("#00FF00"),
        yellow: hex("#FFFF00"),
        blue: hex("#0000FF"),
        magenta: hex("#FF00FF"),
        cyan: hex("#00FFFF"),
        white: hex("#FFFFFF"),
    }
}

/// Shades standing in for the ones derived from the base colors.
fn shades() -> PaletteShades {
    PaletteShades {
        sidebar_bg: hex("#252526"),
        input_bg: hex("#3C3C3C"),
        border: hex("#3E3E3E"),
        selection_bg: hex("#264F78"),
        muted_fg: hex("#999999"),
        normal: palette(),
        bright_black: hex("#666666"),
        bright_red: hex("#FF0000"),
        bright_green: hex("#00FF00"),
        bright_yellow: hex("#FFFF00"),
        bright_blue: hex("#0000FF"),
        bright_magenta: hex("#FF00FF"),
        bright_cyan: hex("#00FFFF"),
        chart_colors: [
            hex("#E06C75"),
            hex("#98C379"),
            hex("#61AFEF"),
            hex("#C678DD"),
            hex("#56B6C2"),
        ],
    }
}

fn map(pairs: &[(&str, &str)]) -> Vec<(String, String)> {
    pairs
        .iter()
        .map(|(k, v)| (k.to_string(), v.to_string()))
        .collect()
}

fn make_opencode_theme() -> Vec<(String, String)> {
    map(&[
        ("background", "#1E1E1E"),
        ("text", "#D4D4D4"),
        ("accent", "#0078D4"),
        ("primary", "#0078D4"),
        ("textMuted", "#858585"),
        ("border", "#3E3E3E"),
        ("error", "#F85149"),
        ("success", "#2EA043"),
        ("warning", "#E5C07B"),
        ("info", "#61AFEF"),
        ("syntaxComment", "#6A9955"),
        ("syntaxKeyword", "#C586C0"),
        ("syntaxFunction", "#DCDCAA"),
        ("syntaxVariable", "#9CDCFE"),
        ("syntaxString", "#CE9178"),
        ("syntaxNumber", "#B5CEA8"),
        ("syntaxType", "#4EC9B0"),
        ("syntaxOperator", "#D4D4D4"),
        ("syntaxPunctuation", "#808080"),
        ("diffAdded", "#2EA043"),
        ("diffRemoved", "#F85149"),
    ])
}

#[test]
fn convert_opencode_basic() {
    let theme = make_opencode_theme();
    let ir = convert_opencode("test-theme", &theme, ThemeType::Dark, shades()).unwrap();

    assert_eq!(ir.name, "test-theme");
    assert_eq!(ir.id, "test-theme");
    assert_eq!(ir.background.as_str(), "#1E1E1E");
    assert_eq!(ir.foreground.as_str(), "#D4D4D4");
    assert_eq!(ir.accent.as_str(), "#0078D4");
    assert_eq!(ir.muted_fg.as_str(), "#858585");
    assert_eq!(ir.terminal.normal.red.as_str(), "#F85149");
    assert_eq!(ir.terminal.normal.green.as_str(), "#2EA043");
}

#[test]
fn convert_opencode_extracts_syntax() {
    let theme = make_opencode_theme();
    let ir = convert_opencode("test", &theme, ThemeType::Dark, shades()).unwrap();

    let syn = ir.syntax.expect("syntax should be Some");
    assert_eq!(syn.comment.as_str(), "#6A9955");
    assert_eq!(syn.keyword.as_str(), "#C586C0");
    assert_eq!(syn.function.as_str(), "#DCDCAA");
}

#[test]
fn convert_opencode_extracts_diff() {
    let theme = make_opencode_theme();
    let ir = convert_opencode("test", &theme, ThemeType::Dark, shades()).unwrap();

    let diff = ir.diff.expect("diff should be Some");
    assert_eq!(diff.added.as_str(), "#2EA043");
    assert_eq!(diff.removed.as_str(), "#F85149");
}

#[test]
fn convert_opencode_missing_required_fails() {
    let theme = map(&[("text", "#D4D4D4")]);
    let result = convert_opencode("test", &theme, ThemeType::Dark, shades());
    assert!(result.is_err());
}

#[test]
fn convert_opencode_error_messages() {
    let missing_bg = map(&[("text", "#D4D4D4")]);
    assert_eq!(
        convert_opencode("t", &missing_bg, ThemeType::Dark, shades()).err(),
        Some("missing required field: background".to_string())
    );
    let bad_text = map(&[("background", "#000"), ("text", "blue")]);
    assert_eq!(
        opencode_base_colors(&bad_text).err(),
        Some("invalid color for text: color must start with '#': blue".to_string())
    );
}

#[test]
fn convert_opencode_falls_back_to_base() {
    let theme = map(&[("background", "#101010"), ("text", "#EEEEEE"), ("primary", "#112233")]);
    let ir = convert_opencode("Fallback", &theme, ThemeType::Dark, shades()).unwrap();
    assert_eq!(ir.accent.as_str(), "#112233");
    assert_eq!(ir.muted_fg.as_str(), "#999999");
    assert_eq!(ir.border.as_str(), "#3E3E3E");
    assert_eq!(ir.cursor.as_str(), "#EEEEEE");
    assert_eq!(ir.sidebar_fg.as_str(), "#EEEEEE");
    assert_eq!(ir.terminal.background.as_str(), "#101010");
    assert_eq!(ir.terminal.bright.white.as_str(), "#FFFFFF");
    assert_eq!(ir.terminal.normal.red.as_str(), "#FF0000");
    assert!(ir.syntax.is_none());
    assert!(ir.diff.is_none());
    assert!(ir.created_at.is_none());

    let no_accent = map(&[("background", "#101010"), ("text", "#EEEEEE")]);
    let (_, _, accent) = opencode_base_colors(&no_accent).unwrap();
    assert_eq!(accent.as_str(), "#0078D4");
}

#[test]
fn extract_syntax_needs_three_fields() {
    let two = map(&[("syntaxComment", "#111111"), ("syntaxKeyword", "#222222")]);
    assert!(extract_syntax(&two).is_none());
    let three = map(&[
        ("syntaxComment", "#111111"),
        ("syntaxKeyword", "#222222"),
        ("syntaxType", "#333333"),
        ("syntaxNumber", "not a color"),
    ]);
    let syn = extract_syntax(&three).unwrap();
    assert_eq!(syn.type_.as_str(), "#333333");
    assert_eq!(syn.number.as_str(), "#D4D4D4");
    assert_eq!(syn.punctuation.as_str(), "#D4D4D4");
}

#[test]
fn extract_diff_defaults() {
    let only_added = map(&[("diffAdded", "#00FF00")]);
    assert!(extract_diff(&only_added).is_none());
    let both = map(&[("diffAdded", "#00FF00"), ("diffRemoved", "#FF0000")]);
    let d = extract_diff(&both).unwrap();
    assert_eq!(d.context.as_str(), "#858585");
    assert_eq!(d.hunk_header.as_str(), "#61AFEF");
}

#[test]
fn resolve_defs_replaces_named_values() {
    let theme = vec![
        ("background".to_string(), Some("bg".to_string())),
        ("text".to_string(), Some("#FFFFFF".to_string())),
        ("accent".to_string(), Some("varied".to_string())),
        ("panel".to_string(), None),
    ];
    let defs = vec![
        ("bg".to_string(), Some("#101010".to_string())),
        ("varied".to_string(), None),
    ];
    let r = resolve_defs(&theme, &defs);
    assert_eq!(r[0], ("background".to_string(), Some("#101010".to_string())));
    assert_eq!(r[1], ("text".to_string(), Some("#FFFFFF".to_string())));
    assert_eq!(r[2], ("accent".to_string(), None));
    assert_eq!(r[3], ("panel".to_string(), None));
    let s = string_entries(&r);
    assert_eq!(
        s,
        vec![
            ("background".to_string(), "#101010".to_string()),
            ("text".to_string(), "#FFFFFF".to_string())
        ]
    );
}

#[test]
fn opencode_theme_text_is_read_and_defs_resolved() {
    let raw = r##"{"defs": {"bg": "#101010"}, "theme": {"background": "bg", "text": "#EEEEEE", "n": 3}}"##;
    let colors = opencode_theme_from_text(raw).unwrap();
    assert_eq!(
        colors,
        vec![
            ("background".to_string(), "#101010".to_string()),
            ("text".to_string(), "#EEEEEE".to_string())
        ]
    );
    assert!(opencode_theme_from_text("not json").is_none());
    assert!(opencode_theme_from_text(r#"{"defs": {}}"#).is_none());
}
