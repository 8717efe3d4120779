use chromaport::reader::{extension_name, listed_themes, ExtensionManifest, ThemeContribution};

fn contribution(label: Option<&str>, path: Option<&str>, ui: Option<&str>, id: Option<&str>) -> ThemeContribution {
    ThemeContribution {
        label: label.map(|s| s.to_string()),
        path: path.map(|s| s.to_string()),
        ui_theme: ui.map(|s| s.to_string()),
        id: id.map(|s| s.to_string()),
    }
}

#[test]
fn extension_names_fall_back() {
    let m = |d: Option<&str>, n: Option<&str>| ExtensionManifest {
        display_name: d.map(|s| s.to_string()),
        name: n.map(|s| s.to_string()),
        themes: None,
    };
    assert_eq!(extension_name(&m(Some("Pretty"), Some("pretty"))), "Pretty");
    assert_eq!(extension_name(&m(None, Some("pretty"))), "pretty");
    assert_eq!(extension_name(&m(None, None)), "Unknown");
}

#[test]
fn listed_themes_need_label_and_path() {
    let m = ExtensionManifest {
        display_name: None,
        name: None,
        themes: Some(vec![
            contribution(Some("Dark"), Some("./dark.json"), None, None),
            contribution(None, Some("./x.json"), None, None),
            contribution(Some("Light"), Some("./light.json"), Some("vs"), Some("light-id")),
            contribution(Some("NoPath"), None, None, None),
        ]),
    };
    let t = listed_themes(&m);
    assert_eq!(t.len(), 2);
    assert_eq!(t[0].label, "Dark");
    assert_eq!(t[0].raw_path, "./dark.json");
    assert_eq!(t[0].ui_theme, "vs-dark");
    assert_eq!(t[0].settings_id, "Dark");
    assert_eq!(t[1].ui_theme, "vs");
    assert_eq!(t[1].settings_id, "light-id");
    let none = ExtensionManifest {
        display_name: None,
        name: None,
        themes: None,
    };
    assert!(listed_themes(&none).is_empty());
}
