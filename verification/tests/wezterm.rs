use chromaport::ir::{AnsiColors, AnsiPalette, HexColor, ThemeIR, ThemeType};
use chromaport::wezterm::{
    format_wezterm_theme, lua_escape_string, set_color_scheme_in_config, theme_filename,
};

fn hex(s: &str) -> HexColor {
    HexColor::parse(s).unwrap()
}

fn make_test_ir() -> ThemeIR {
    let palette = || AnsiPalette {
        black: hex("#000000"),
        red: hex("#FF0000"),
        green: hex("#00FF00"),
        yellow: hex("#FFFF00"),
        blue: hex("#0000FF"),
        magenta: hex("#FF00FF"),
        cyan: hex("#00FFFF"),
        white: hex("#FFFFFF"),
    };
    ThemeIR {
        id: "test-theme".to_string(),
        name: "Test Theme".to_string(),
        theme_type: ThemeType::Dark,
        background: hex("#1E1E1E"),
        foreground: hex("#D4D4D4"),
        accent: hex("#0078D4"),
        cursor: hex("#D4D4D4"),
        selection_bg: hex("#264F78"),
        border: hex("#3E3E3E"),
        sidebar_bg: hex("#252526"),
        sidebar_fg: hex("#CCCCCC"),
        input_bg: hex("#3C3C3C"),
        muted_fg: hex("#858585"),
        chart_colors: [
            hex("#E06C75"),
            hex("#98C379"),
            hex("#61AFEF"),
            hex("#C678DD"),
            hex("#56B6C2"),
        ],
        terminal: AnsiColors {
            normal: palette(),
            bright: palette(),
            background: hex("#1E1E1E"),
            foreground: hex("#D4D4D4"),
            cursor: hex("#D4D4D4"),
            cursor_accent: None,
            selection_bg: Some(hex("#264F78")),
        },
        syntax: None,
        diff: None,
        created_at: None,
    }
}

#[test]
fn format_wezterm_theme_correct_output() {
    let ir = make_test_ir();
    let output = format_wezterm_theme(&ir);

    assert!(output.starts_with("# Generated by chromaport\n"));
    assert!(output.contains("[colors]\n"));
    assert!(output.contains("foreground = \"#D4D4D4\"\n"));
    assert!(output.contains("background = \"#1E1E1E\"\n"));
    assert!(output.contains("cursor_bg = \"#D4D4D4\"\n"));
    assert!(output.contains("cursor_fg = \"#1E1E1E\"\n"));
    assert!(output.contains("cursor_border = \"#D4D4D4\"\n"));
    assert!(output.contains("selection_bg = \"#264F78\"\n"));
    assert!(output.contains("selection_fg = \"#D4D4D4\"\n"));
    assert!(output.contains("ansi = [\"#000000\""));
    assert!(output.contains("brights = [\"#000000\""));
    assert!(output.ends_with('\n'));
}

#[test]
fn format_wezterm_theme_palette_lists_exact() {
    let output = format_wezterm_theme(&make_test_ir());
    assert!(output.contains(
        "ansi = [\"#000000\", \"#FF0000\", \"#00FF00\", \"#FFFF00\", \"#0000FF\", \"#FF00FF\", \"#00FFFF\", \"#FFFFFF\"]\n"
    ));
}

#[test]
fn format_wezterm_theme_uses_terminal_selection_bg() {
    let mut ir = make_test_ir();
    ir.terminal.selection_bg = Some(HexColor::parse("#FF0000").unwrap());
    let output = format_wezterm_theme(&ir);
    assert!(output.contains("selection_bg = \"#FF0000\"\n"));
}

#[test]
fn format_wezterm_theme_strips_alpha() {
    let mut ir = make_test_ir();
    ir.terminal.background = HexColor::parse("#282C34FF").unwrap();
    let output = format_wezterm_theme(&ir);
    assert!(output.contains("background = \"#282C34\"\n"));
    assert!(!output.contains("#282C34FF"));
}

#[test]
fn set_color_scheme_replaces_config_builder() {
    let config = "local config = wezterm.config_builder()\nconfig.color_scheme = \"Dracula\"\nreturn config\n";
    let result = set_color_scheme_in_config(config, "One Dark Pro").unwrap();
    assert!(result.contains("config.color_scheme = \"One Dark Pro\"\n"));
    assert!(!result.contains("Dracula"));
}

#[test]
fn set_color_scheme_replaces_table_style() {
    let config = "return {\n  color_scheme = \"Dracula\",\n  font_size = 13,\n}\n";
    let result = set_color_scheme_in_config(config, "Nord").unwrap();
    assert!(result.contains("color_scheme = \"Nord\","));
    assert!(result.contains("font_size = 13,"));
}

#[test]
fn set_color_scheme_handles_single_quotes() {
    let config = "config.color_scheme = 'Dracula'\nreturn config\n";
    let result = set_color_scheme_in_config(config, "One Dark Pro").unwrap();
    assert!(result.contains("config.color_scheme = 'One Dark Pro'\n"));
}

#[test]
fn set_color_scheme_skips_comments() {
    let config =
        "-- config.color_scheme = \"Old\"\nconfig.color_scheme = \"Current\"\nreturn config\n";
    let result = set_color_scheme_in_config(config, "New").unwrap();
    assert!(result.contains("-- config.color_scheme = \"Old\""));
    assert!(result.contains("config.color_scheme = \"New\""));
    assert!(!result.contains("\"Current\""));
}

#[test]
fn set_color_scheme_skips_color_schemes_plural() {
    let config = "config.color_schemes = {}\nconfig.color_scheme = \"Old\"\nreturn config\n";
    let result = set_color_scheme_in_config(config, "New").unwrap();
    assert!(result.contains("config.color_schemes = {}"));
    assert!(result.contains("config.color_scheme = \"New\""));
}

#[test]
fn set_color_scheme_skips_color_scheme_dirs() {
    let config =
        "config.color_scheme_dirs = {\"/path\"}\nconfig.color_scheme = \"Old\"\nreturn config\n";
    let result = set_color_scheme_in_config(config, "New").unwrap();
    assert!(result.contains("color_scheme_dirs = "));
    assert!(result.contains("config.color_scheme = \"New\""));
}

#[test]
fn set_color_scheme_returns_none_for_conditional() {
    let config =
        "if appearance:find('Dark') then\n  config.color_scheme = \"Dark\"\nelse\n  config.color_scheme = \"Light\"\nend\nreturn config\n";
    assert!(set_color_scheme_in_config(config, "New").is_none());
}

#[test]
fn set_color_scheme_returns_none_for_multiple_matches() {
    let config =
        "config.color_scheme = \"First\"\nconfig.color_scheme = \"Second\"\nreturn config\n";
    assert!(set_color_scheme_in_config(config, "New").is_none());
}

#[test]
fn set_color_scheme_inserts_before_return() {
    let config = "config.font_size = 14\nreturn config\n";
    let result = set_color_scheme_in_config(config, "New Theme").unwrap();
    let lines: Vec<&str> = result.lines().collect();
    let cs_idx = lines.iter().position(|l| l.contains("color_scheme")).unwrap();
    let ret_idx = lines.iter().position(|l| l.starts_with("return")).unwrap();
    assert!(cs_idx < ret_idx);
    assert!(result.contains("config.color_scheme = \"New Theme\""));
}

#[test]
fn set_color_scheme_returns_none_when_no_return() {
    let config = "config.font_size = 14\n";
    assert!(set_color_scheme_in_config(config, "New").is_none());
}

#[test]
fn set_color_scheme_preserves_inline_comment() {
    let config = "config.color_scheme = \"Old\" -- my favorite\nreturn config\n";
    let result = set_color_scheme_in_config(config, "New").unwrap();
    assert!(result.contains("config.color_scheme = \"New\" -- my favorite"));
}

#[test]
fn set_color_scheme_returns_none_for_dynamic_value() {
    let config = "config.color_scheme = get_scheme()\nreturn config\n";
    assert!(set_color_scheme_in_config(config, "New").is_none());
}

#[test]
fn set_color_scheme_exact_output_and_final_newline() {
    assert_eq!(
        set_color_scheme_in_config("a = 1\nreturn config", "X").unwrap(),
        "a = 1\nconfig.color_scheme = \"X\"\nreturn config"
    );
    assert_eq!(
        set_color_scheme_in_config("  config.color_scheme='Old' -- c\r\nreturn config\n", "N")
            .unwrap(),
        "  config.color_scheme= 'N' -- c\nreturn config\n"
    );
    // The trailing comma is stripped before the comment, so this value is not a literal.
    assert!(set_color_scheme_in_config("color_scheme = 'Old', -- c\nreturn config\n", "N")
        .is_none());
    assert!(set_color_scheme_in_config("color_scheme = \"\n", "N").is_none());
}

#[test]
fn lua_escape_string_prevents_injection() {
    let malicious = "\"; os.execute(\"rm -rf /\"); --";
    let escaped = lua_escape_string(malicious);
    assert!(escaped.contains("\\\""));
    let result = format!("config.color_scheme = \"{}\"", escaped);
    let inner = &result["config.color_scheme = \"".len()..result.len() - 1];
    let chars: Vec<char> = inner.chars().collect();
    for i in 0..chars.len() {
        if chars[i] == '"' && (i == 0 || chars[i - 1] != '\\') {
            panic!("unescaped quote found in: {}", inner);
        }
    }
}

#[test]
fn lua_escape_string_handles_backslash_and_newlines() {
    assert_eq!(lua_escape_string("a\\b"), "a\\\\b");
    assert_eq!(lua_escape_string("a\"b"), "a\\\"b");
    assert_eq!(lua_escape_string("a\nb"), "a\\nb");
    assert_eq!(lua_escape_string("a\rb"), "a\\rb");
    assert_eq!(lua_escape_string("a\0b"), "ab");
    assert_eq!(lua_escape_string("a\x08b"), "a\\x08b");
    assert_eq!(lua_escape_string("a\x1bb"), "a\\x1bb");
    assert_eq!(lua_escape_string("a\x7fb\tc'"), "a\\x7fb\\x09c\\'");
}

#[test]
fn theme_filename_preserves_name_with_toml() {
    assert_eq!(theme_filename("One Dark Pro"), "One Dark Pro.toml");
    assert_eq!(theme_filename("Gruvbox Dark"), "Gruvbox Dark.toml");
}

#[test]
fn theme_filename_sanitizes_unsafe_chars() {
    assert_eq!(theme_filename("a/b\\c"), "a-b-c.toml");
    assert_eq!(theme_filename("a:b\nc"), "a-b-c.toml");
}

#[test]
fn theme_filename_handles_edge_cases() {
    let name = theme_filename(".");
    assert!(name.ends_with(".toml"));
    assert_ne!(name, "..toml");
}
