use chromaport::preview::{preview_title, shows_chart};
use chromaport::cli::Target;
use chromaport::ir::{AnsiColors, AnsiPalette, HexColor, ThemeIR, ThemeType};
use chromaport::preview::{
    build_label, compute_filtered, duplicate_labels, preview_order, scroll_offset,
    theme_list_title, theme_picker_key, theme_row_text, typescript_snippet, IrPicker, Key,
    PickOutcome, PreviewApp, TokenKind,
};
use chromaport::reader::ThemeEntry;
use std::path::PathBuf;

fn make_entry(label: &str, ext: &str) -> ThemeEntry {
    ThemeEntry {
        label: label.to_string(),
        settings_id: label.to_lowercase(),
        ui_theme: "vs-dark".to_string(),
        path: PathBuf::from(format!("/tmp/{label}.json")),
        extension_name: ext.to_string(),
    }
}

fn make_entries(n: usize) -> Vec<ThemeEntry> {
    (0..n)
        .map(|i| ThemeEntry {
            label: format!("Theme {i}"),
            settings_id: format!("theme-{i}"),
            ui_theme: "vs-dark".to_string(),
            path: PathBuf::from(format!("/tmp/theme-{i}.json")),
            extension_name: "test-ext".to_string(),
        })
        .collect()
}

fn make_app(n: usize) -> PreviewApp {
    PreviewApp::new(make_entries(n), None, Target::Ghostty, vec![])
}

fn hex(s: &str) -> HexColor {
    HexColor::parse(s).unwrap()
}

fn make_test_ir(name: &str, created_at: Option<&str>) -> ThemeIR {
    let palette = || AnsiPalette {
        black: hex("#000000"),
        red: hex("#FF0000"),
        green: hex("#00FF00"),
        yellow: hex("#FFFF00"),
        blue: hex("#0000FF"),
        magenta: hex("#FF00FF"),
        cyan: hex("#00FFFF"),
        white: hex("#FFFFFF"),
    };
    ThemeIR {
        id: "test-theme".to_string(),
        name: name.to_string(),
        theme_type: ThemeType::Dark,
        background: hex("#1E1E1E"),
        foreground: hex("#D4D4D4"),
        accent: hex("#0078D4"),
        cursor: hex("#D4D4D4"),
        selection_bg: hex("#264F78"),
        border: hex("#3E3E3E"),
        sidebar_bg: hex("#252526"),
        sidebar_fg: hex("#CCCCCC"),
        input_bg: hex("#3C3C3C"),
        muted_fg: hex("#858585"),
        chart_colors: [
            hex("#E06C75"),
            hex("#98C379"),
            hex("#61AFEF"),
            hex("#C678DD"),
            hex("#56B6C2"),
        ],
        terminal: AnsiColors {
            normal: palette(),
            bright: AnsiPalette {
                black: hex("#808080"),
                ..palette()
            },
            background: hex("#1E1E1E"),
            foreground: hex("#D4D4D4"),
            cursor: hex("#D4D4D4"),
            cursor_accent: None,
            selection_bg: None,
        },
        syntax: None,
        diff: None,
        created_at: created_at.map(|s| s.to_string()),
    }
}

#[test]
fn move_page_down_advances_by_page_size() {
    let mut app = make_app(30);
    assert_eq!(app.selected_index(), 0);
    app.move_page_down();
    assert_eq!(app.selected_index(), 10);
    app.move_page_down();
    assert_eq!(app.selected_index(), 20);
}

#[test]
fn move_page_down_clamps_to_last() {
    let mut app = make_app(15);
    app.move_page_down();
    assert_eq!(app.selected_index(), 10);
    app.move_page_down();
    assert_eq!(app.selected_index(), 14);
}

#[test]
fn move_page_up_goes_back() {
    let mut app = make_app(30);
    app.move_to_bottom();
    assert_eq!(app.selected_index(), 29);
    app.move_page_up();
    assert_eq!(app.selected_index(), 19);
}

#[test]
fn move_page_up_clamps_to_zero() {
    let mut app = make_app(15);
    app.move_page_up();
    assert_eq!(app.selected_index(), 0);
}

#[test]
fn move_to_top_and_bottom() {
    let mut app = make_app(20);
    app.move_to_bottom();
    assert_eq!(app.selected_index(), 19);
    app.move_to_top();
    assert_eq!(app.selected_index(), 0);
}

#[test]
fn navigation_on_empty_list_is_safe() {
    let mut app = make_app(0);
    app.move_page_down();
    app.move_page_up();
    app.move_to_top();
    app.move_to_bottom();
    assert_eq!(app.selected_index(), 0);
}

#[test]
fn move_up_and_down_stop_at_the_ends() {
    let mut app = make_app(2);
    app.move_up();
    assert_eq!(app.selected_index(), 0);
    app.move_down();
    app.move_down();
    assert_eq!(app.selected_index(), 1);
}

#[test]
fn token_kind_maps_to_ansi() {
    let ir = make_test_ir("Test Theme", None);
    let color = TokenKind::Keyword.color(&ir);
    assert_eq!(color.as_str(), ir.terminal.normal.blue.as_str());
    assert_eq!(TokenKind::Comment.color(&ir).as_str(), "#808080");
    assert_eq!(TokenKind::Plain.color(&ir).as_str(), "#D4D4D4");
}

#[test]
fn typescript_snippet_is_non_empty() {
    let snippet = typescript_snippet();
    assert!(!snippet.is_empty());
    assert!(!snippet[0].is_empty());
}

#[test]
fn typescript_snippet_lines() {
    let snippet = typescript_snippet();
    assert_eq!(snippet.len(), 6);
    assert_eq!(snippet[0][0], (TokenKind::Keyword, "const"));
    assert!(snippet[3].is_empty());
    assert_eq!(snippet[4], vec![(TokenKind::Comment, "// Call the function")]);
}

#[test]
fn filter_is_case_insensitive_and_clamps_selection() {
    let themes = vec![
        make_entry("One Dark", "a"),
        make_entry("Dracula", "b"),
        make_entry("One Light", "c"),
    ];
    let mut app = PreviewApp::new(themes, None, Target::Warp, vec![]);
    app.move_to_bottom();
    assert_eq!(app.selected_index(), 2);
    app.add_filter_char('d');
    app.add_filter_char('R');
    assert_eq!(app.filter(), "dR");
    assert_eq!(app.filtered_labels(), vec!["Dracula".to_string()]);
    assert_eq!(app.selected_index(), 0);
    app.delete_filter_char();
    assert_eq!(app.filter(), "d");
    assert_eq!(app.filtered_labels().len(), 2);
    app.add_filter_char('x');
    assert!(app.filtered_labels().is_empty());
    assert!(app.select().is_none());
    app.clear_filter();
    assert_eq!(app.filter(), "");
    assert_eq!(app.filtered_labels().len(), 3);
    assert_eq!(app.target(), Target::Warp);
}

#[test]
fn duplicate_labels_get_extension_names() {
    let themes = vec![
        make_entry("Monokai", "Ext A"),
        make_entry("Nord", "Ext B"),
        make_entry("Monokai", "Ext C"),
    ];
    let dupes = duplicate_labels(&themes);
    assert_eq!(dupes, vec!["Monokai".to_string()]);
    let app = PreviewApp::new(themes, Some("nord".to_string()), Target::Ghostty, vec![]);
    assert_eq!(
        app.filtered_labels(),
        vec![
            "Monokai (Ext A)".to_string(),
            "Nord".to_string(),
            "Monokai (Ext C)".to_string()
        ]
    );
    assert_eq!(
        app.filtered_settings_ids(),
        vec!["monokai".to_string(), "nord".to_string(), "monokai".to_string()]
    );
    assert_eq!(app.active_id(), Some("nord"));
}

#[test]
fn saved_flags_follow_slugs() {
    let themes = vec![make_entry("One Dark", "a"), make_entry("Nord", "b")];
    let app = PreviewApp::new(themes, None, Target::Ghostty, vec!["nord".to_string()]);
    assert_eq!(app.filtered_saved_flags(), vec![false, true]);
}

#[test]
fn theme_picker_keys() {
    let themes = vec![make_entry("Alpha", "a"), make_entry("Beta", "b")];
    let mut app = PreviewApp::new(themes, None, Target::Ghostty, vec![]);
    assert!(matches!(theme_picker_key(&mut app, Key::Down), PickOutcome::Continue));
    assert_eq!(app.selected_index(), 1);
    match theme_picker_key(&mut app, Key::Enter) {
        PickOutcome::Choose(e) => assert_eq!(e.label, "Beta"),
        _ => panic!("expected a choice"),
    }
    assert!(matches!(theme_picker_key(&mut app, Key::Char('a')), PickOutcome::Continue));
    assert_eq!(app.filter(), "a");
    assert!(matches!(theme_picker_key(&mut app, Key::Char('q')), PickOutcome::Continue));
    assert_eq!(app.filter(), "aq");
    assert!(matches!(theme_picker_key(&mut app, Key::Esc), PickOutcome::Continue));
    assert_eq!(app.filter(), "");
    assert!(matches!(theme_picker_key(&mut app, Key::Char('q')), PickOutcome::Cancel));
    assert!(matches!(theme_picker_key(&mut app, Key::Esc), PickOutcome::Cancel));
    assert!(matches!(theme_picker_key(&mut app, Key::Interrupt), PickOutcome::Cancel));
    assert!(matches!(theme_picker_key(&mut app, Key::PageDown), PickOutcome::Continue));
}

#[test]
fn preview_order_puts_active_first_then_labels() {
    let themes = vec![
        make_entry("Zenburn", "a"),
        make_entry("Abyss", "b"),
        make_entry("Monokai", "c"),
        make_entry("Abyss", "d"),
    ];
    assert_eq!(preview_order(&themes, Some("monokai")), vec![2, 1, 3, 0]);
    assert_eq!(preview_order(&themes, None), vec![1, 3, 2, 0]);
    assert_eq!(preview_order(&Vec::<ThemeEntry>::new(), None), Vec::<usize>::new());
}

#[test]
fn list_pane_text() {
    assert_eq!(scroll_offset(0, 100, 10), 0);
    assert_eq!(scroll_offset(50, 100, 10), 45);
    assert_eq!(scroll_offset(98, 100, 10), 90);
    assert_eq!(scroll_offset(3, 2, 10), 0);
    assert_eq!(theme_list_title(""), " Select Theme ");
    assert_eq!(theme_list_title("ab"), " Select Theme [ab] ");
    let labels = vec!["One".to_string(), "Two".to_string()];
    let ids = vec!["one".to_string(), "two".to_string()];
    let saved = vec![true];
    assert_eq!(
        theme_row_text(&labels, 0, 0, Some("one"), &ids, &saved),
        " > One [active] (saved)"
    );
    assert_eq!(theme_row_text(&labels, 1, 0, Some("one"), &ids, &saved), "   Two");
    assert_eq!(theme_row_text(&labels, 1, 1, None, &ids, &Vec::new()), " > Two");
}

#[test]
fn saved_theme_labels_and_filter() {
    let themes = vec![
        make_test_ir("Ocean", Some("2026-03-09")),
        make_test_ir("Forest", None),
    ];
    assert_eq!(build_label(&themes[0]), "Ocean [Dark] 2026-03-09");
    assert_eq!(build_label(&themes[1]), "Forest [Dark]");
    let rows = compute_filtered(&themes, "FOR");
    assert_eq!(rows, vec![(1, "Forest [Dark]".to_string())]);
    assert_eq!(compute_filtered(&themes, "").len(), 2);
}

#[test]
fn saved_theme_picker_keys() {
    let themes = vec![
        make_test_ir("Ocean", None),
        make_test_ir("Forest", None),
        make_test_ir("Desert", None),
    ];
    let mut p = IrPicker::new(&themes);
    p.clamp();
    assert!(matches!(p.key(&themes, Key::End), PickOutcome::Continue));
    assert_eq!(p.selected_index(), 2);
    assert!(matches!(p.key(&themes, Key::Home), PickOutcome::Continue));
    assert_eq!(p.selected_index(), 0);
    assert!(matches!(p.key(&themes, Key::PageDown), PickOutcome::Continue));
    assert_eq!(p.selected_index(), 2);
    assert!(matches!(p.key(&themes, Key::Char('o')), PickOutcome::Continue));
    assert_eq!(p.filtered().len(), 2);
    p.clamp();
    assert_eq!(p.selected_index(), 1);
    assert!(matches!(p.key(&themes, Key::Enter), PickOutcome::Choose(1)));
    assert!(matches!(p.key(&themes, Key::Backspace), PickOutcome::Continue));
    assert_eq!(p.filter(), "");
    assert!(matches!(p.key(&themes, Key::Char('q')), PickOutcome::Cancel));
    assert!(matches!(p.key(&themes, Key::Up), PickOutcome::Continue));
    assert_eq!(p.selected_index(), 0);
}

#[test]
fn preview_pane_title_and_chart() {
    let ir = make_test_ir("Test Theme", None);
    assert_eq!(preview_title(&ir), " Preview: Test Theme (Dark) ");
    assert!(shows_chart(Target::Superset));
    assert!(!shows_chart(Target::Ghostty));
}

#[test]
fn typing_then_erasing_a_filter_char_shows_the_same_themes() {
    let mut app = make_app(12);
    app.add_filter_char('1');
    let before = app.filtered_labels();
    app.add_filter_char('0');
    assert_eq!(app.filtered_labels(), vec!["Theme 10".to_string()]);
    app.delete_filter_char();
    assert_eq!(app.filter(), "1");
    assert_eq!(app.filtered_labels(), before);
    assert_eq!(before, vec!["Theme 1".to_string(), "Theme 10".to_string(), "Theme 11".to_string()]);
}
