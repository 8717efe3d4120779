use chromaport::presets::{
    available_presets, install_summary, picked_options, preset_list_line, preset_option,
    PresetEntry,
};

fn preset(slug: &str, name: &str) -> PresetEntry {
    PresetEntry {
        slug: slug.to_string(),
        name: name.to_string(),
        author: "Ann".to_string(),
        license: "MIT".to_string(),
    }
}

#[test]
fn preset_lines_mark_installed() {
    let installed = vec!["nord".to_string()];
    assert_eq!(preset_option(&preset("nord", "Nord")), "Nord by Ann [MIT]");
    assert_eq!(preset_list_line(&preset("nord", "Nord"), &installed), "  Nord by Ann [MIT] (installed)");
    assert_eq!(preset_list_line(&preset("dawn", "Dawn"), &installed), "  Dawn by Ann [MIT]");
}

#[test]
fn available_and_picked_presets() {
    let presets = vec![preset("nord", "Nord"), preset("dawn", "Dawn"), preset("dusk", "Dusk")];
    let installed = vec!["nord".to_string()];
    assert_eq!(available_presets(&presets, &installed), vec![1, 2]);
    let options = vec!["Dawn by Ann [MIT]".to_string(), "Dusk by Ann [MIT]".to_string()];
    let picked = vec!["Dusk by Ann [MIT]".to_string(), "Other".to_string(), "Dawn by Ann [MIT]".to_string()];
    assert_eq!(picked_options(&options, &picked), vec![1, 0]);
    assert_eq!(install_summary(2, 3), "\nInstalled 2/3 themes.");
}
