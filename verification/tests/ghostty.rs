use chromaport::ghostty::{
    format_ghostty_theme, needs_slug_name, set_theme_in_config, single_line_name, theme_filename,
};
use chromaport::ir::{AnsiColors, AnsiPalette, HexColor, ThemeIR, ThemeType};

fn c(s: &str) -> HexColor {
    HexColor::parse(s).unwrap()
}

fn make_test_ir() -> ThemeIR {
    ThemeIR {
        id: "test-id".to_string(),
        name: "One Dark Pro".to_string(),
        theme_type: ThemeType::Dark,
        background: c("#282C34"),
        foreground: c("#ABB2BF"),
        accent: c("#528BFF"),
        cursor: c("#528BFF"),
        selection_bg: c("#3E4451"),
        border: c("#181A1F"),
        sidebar_bg: c("#21252B"),
        sidebar_fg: c("#ABB2BF"),
        input_bg: c("#1D1F23"),
        muted_fg: c("#5C6370"),
        chart_colors: [c("#E06C75"), c("#98C379"), c("#E5C07B"), c("#61AFEF"), c("#C678DD")],
        terminal: AnsiColors {
            normal: AnsiPalette {
                black: c("#282C34"),
                red: c("#E06C75"),
                green: c("#98C379"),
                yellow: c("#E5C07B"),
                blue: c("#61AFEF"),
                magenta: c("#C678DD"),
                cyan: c("#56B6C2"),
                white: c("#ABB2BF"),
            },
            bright: AnsiPalette {
                black: c("#545862"),
                red: c("#E06C75"),
                green: c("#98C379"),
                yellow: c("#E5C07B"),
                blue: c("#61AFEF"),
                magenta: c("#C678DD"),
                cyan: c("#56B6C2"),
                white: c("#ABB2BF"),
            },
            background: c("#282C34"),
            foreground: c("#ABB2BF"),
            cursor: c("#528BFF"),
            cursor_accent: None,
            selection_bg: None,
        },
        syntax: None,
        diff: None,
        created_at: None,
    }
}

#[test]
fn format_ghostty_theme_correct_output() {
    let ir = make_test_ir();
    let output = format_ghostty_theme(&ir);

    assert!(output.starts_with("background = #282C34\n"));
    assert!(output.contains("foreground = #ABB2BF\n"));
    assert!(output.contains("cursor-color = #528BFF\n"));
    assert!(output.contains("cursor-text = #282C34\n"));
    assert!(output.contains("selection-foreground = #ABB2BF\n"));
    assert!(output.contains("selection-background = #3E4451\n"));
    assert!(output.contains("palette = 0=#282C34\n"));
    assert!(output.contains("palette = 7=#ABB2BF\n"));
    assert!(output.contains("palette = 8=#545862\n"));
    assert!(output.contains("palette = 15=#ABB2BF\n"));
    assert!(output.ends_with('\n'));
}

#[test]
fn format_ghostty_theme_uses_terminal_selection_bg() {
    let mut ir = make_test_ir();
    ir.terminal.selection_bg = Some(c("#FF0000"));
    let output = format_ghostty_theme(&ir);
    assert!(output.contains("selection-background = #FF0000\n"));
}

#[test]
fn format_ghostty_theme_exact_text_and_alpha_dropped() {
    let mut ir = make_test_ir();
    ir.terminal.background = c("#282C34CC");
    let output = format_ghostty_theme(&ir);
    let lines: Vec<&str> = output.lines().collect();
    assert_eq!(lines.len(), 22);
    assert_eq!(lines[0], "background = #282C34");
    assert_eq!(lines[6], "palette = 0=#282C34");
    assert_eq!(lines[16], "palette = 10=#98C379");
    assert_eq!(lines[21], "palette = 15=#ABB2BF");
    assert!(output.ends_with("palette = 15=#ABB2BF\n"));
}

#[test]
fn set_theme_in_config_replaces_existing() {
    let config = "font-size = 14\ntheme = Dracula\nwindow-padding-x = 4\n";
    let result = set_theme_in_config(config, "One Dark Pro");
    assert!(result.contains("theme = One Dark Pro\n"));
    assert!(!result.contains("Dracula"));
    assert!(result.contains("font-size = 14\n"));
}

#[test]
fn set_theme_in_config_appends_when_missing() {
    let config = "font-size = 14\nwindow-padding-x = 4\n";
    let result = set_theme_in_config(config, "One Dark Pro");
    assert!(result.contains("theme = One Dark Pro\n"));
    assert!(result.contains("font-size = 14\n"));
}

#[test]
fn set_theme_in_config_ignores_theme_like_keys() {
    let config = "theme-variant = dark\ntheme = Old\n";
    let result = set_theme_in_config(config, "New");
    assert!(result.contains("theme = New\n"));
    assert!(result.contains("theme-variant = dark\n"));
}

#[test]
fn set_theme_in_config_exact_output() {
    assert_eq!(set_theme_in_config("", "A"), "theme = A\n");
    assert_eq!(set_theme_in_config("x = 1", "A"), "x = 1\ntheme = A\n");
    assert_eq!(set_theme_in_config("  theme=Old\r\nx = 1\n", "A"), "theme = A\nx = 1\n");
    assert_eq!(set_theme_in_config("theme = B\ntheme = C\n", "A"), "theme = A\ntheme = A\n");
}

#[test]
fn write_creates_theme_file_in_central_store() {
    let ir = make_test_ir();
    let filename = theme_filename(&ir.name);
    assert_eq!(filename, "One Dark Pro");
    let content = format_ghostty_theme(&ir);
    assert!(content.contains("background = #282C34"));
    assert!(content.contains("palette = 0=#282C34"));
}

#[test]
fn theme_filename_replaces_unsafe_chars_and_falls_back_to_slug() {
    assert_eq!(theme_filename(" a/b:c "), "a-b-c");
    assert!(!needs_slug_name("a/b"));
    assert!(needs_slug_name(" .. "));
    assert_eq!(theme_filename(".."), "unnamed-theme");
    assert_eq!(theme_filename("   "), "unnamed-theme");
}

#[test]
fn single_line_name_replaces_line_breaks() {
    assert_eq!(single_line_name("One\nDark\rPro"), "One Dark Pro");
}

#[test]
fn setting_the_same_theme_twice_changes_nothing() {
    let config = "font-size = 14\ntheme = Dracula\ntheme-variant = dark";
    let once = set_theme_in_config(config, "One Dark Pro");
    assert_eq!(once, "font-size = 14\ntheme = One Dark Pro\ntheme-variant = dark\n");
    assert_eq!(set_theme_in_config(&once, "One Dark Pro"), once);
    let fresh = set_theme_in_config("font-size = 14\n", "Nord");
    assert_eq!(set_theme_in_config(&fresh, "Nord"), fresh);
}
