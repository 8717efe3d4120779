use chromaport::cli::{command_name, editor_name, options_unused, Cli, Command, Editor, PresetsAction, Target};
use chromaport::flow::{
    apply_config_prompt, apply_plan, chosen_targets, create_step, editor_not_found_message,
    name_created_theme, overwrite_prompt, prompt_failure_outcome, release_url,
    replace_with_symlink_prompt, resolve_editor, resolve_target, select_target_plan,
    target_options, unapplied_indices, update_plan, update_prompt, upgrade_command, ApplyPlan,
    CreateAction, CreateKey, EditorChoice, Phase, PromptFailure, PromptOutcome, TargetChoice,
    UpdatePlan, UpgradeStep,
};
use chromaport::ir::{AnsiColors, AnsiPalette, HexColor, ThemeIR, ThemeType};
use chromaport::update::InstallMethod;

fn hex(s: &str) -> HexColor {
    HexColor::parse(s).unwrap()
}

fn palette() -> AnsiPalette {
    AnsiPalette {
        black: hex("#000000"),
        red: hex("#FF0000"),
        green: hex("#00FF00"),
        yellow: hex("#FFFF00"),
        blue: hex("#0000FF"),
        magenta: hex("#FF00FF"),
        cyan: hex("#00FFFF"),
        white: hex("#FFFFFF"),
    }
}

fn derived_ir() -> ThemeIR {
    ThemeIR {
        id: String::new(),
        name: String::new(),
        theme_type: ThemeType::Light,
        background: hex("#F7F7F7"),
        foreground: hex("#4D4D4D"),
        accent: hex("#5AA9E6"),
        cursor: hex("#4D4D4D"),
        selection_bg: hex("#CCE0F5"),
        border: hex("#E0E0E0"),
        sidebar_bg: hex("#EFEFEF"),
        sidebar_fg: hex("#4D4D4D"),
        input_bg: hex("#FFFFFF"),
        muted_fg: hex("#8A8A8A"),
        chart_colors: [hex("#E06C75"), hex("#98C379"), hex("#61AFEF"), hex("#C678DD"), hex("#56B6C2")],
        terminal: AnsiColors {
            normal: palette(),
            bright: palette(),
            background: hex("#F7F7F7"),
            foreground: hex("#4D4D4D"),
            cursor: hex("#4D4D4D"),
            cursor_accent: None,
            selection_bg: None,
        },
        syntax: None,
        diff: None,
        created_at: None,
    }
}

#[test]
fn editor_choice_follows_request_and_detection() {
    let found = vec![Editor::Vscode, Editor::Cursor];
    assert_eq!(resolve_editor(Some(Editor::Cursor), &found, true), EditorChoice::Use(1));
    assert_eq!(resolve_editor(Some(Editor::Iterm2), &found, true), EditorChoice::NotFound);
    assert_eq!(resolve_editor(None, &found, true), EditorChoice::Ask);
    assert_eq!(resolve_editor(None, &found, false), EditorChoice::Use(0));
    assert_eq!(resolve_editor(None, &vec![Editor::Cursor], true), EditorChoice::AutoDetected(0));
    assert_eq!(
        editor_not_found_message(&Editor::Vscode),
        "VS Code not found. Check that extensions are installed."
    );
    assert_eq!(editor_name(&Editor::Iterm2), "iTerm2");
}

#[test]
fn target_choice_follows_request_and_detection() {
    let two = vec![Target::Warp, Target::Ghostty];
    assert_eq!(resolve_target(Some(Target::Obsidian), &two, true), TargetChoice::Use(Target::Obsidian));
    assert_eq!(resolve_target(None, &vec![], true), TargetChoice::NoneDetected);
    assert_eq!(resolve_target(None, &two, false), TargetChoice::Use(Target::Warp));
    assert_eq!(resolve_target(None, &two, true), TargetChoice::Ask);
    assert_eq!(resolve_target(None, &vec![Target::Wezterm], true), TargetChoice::Use(Target::Wezterm));
    assert_eq!(select_target_plan(&vec![]), TargetChoice::NoneDetected);
    assert_eq!(select_target_plan(&vec![Target::Iterm2]), TargetChoice::Use(Target::Iterm2));
    assert_eq!(select_target_plan(&two), TargetChoice::Ask);
}

#[test]
fn target_names_and_order() {
    let all = Target::all();
    assert_eq!(all.len(), 7);
    let names: Vec<&str> = all.iter().map(|t| t.display_name()).collect();
    assert_eq!(
        names,
        vec!["Superset", "Warp", "Ghostty", "OpenCode", "Obsidian", "iTerm2", "WezTerm"]
    );
}

#[test]
fn subcommand_names_and_unused_options() {
    assert_eq!(command_name(&Command::Update { yes: true }), "update");
    assert_eq!(command_name(&Command::Presets { action: PresetsAction::List }), "presets");
    let cli = Cli {
        version: (),
        command: Some(Command::Apply),
        editor: Some(Editor::Vscode),
        target: None,
    };
    assert!(options_unused(&cli));
    let plain = Cli {
        version: (),
        command: None,
        editor: Some(Editor::Vscode),
        target: Some(Target::Ghostty),
    };
    assert!(!options_unused(&plain));
}

#[test]
fn apply_plan_and_target_options() {
    assert_eq!(apply_plan(&vec![true, true]), ApplyPlan::AllApplied);
    assert_eq!(apply_plan(&vec![false]), ApplyPlan::OnlyTarget);
    assert_eq!(apply_plan(&vec![true, false]), ApplyPlan::Ask);
    let targets = vec![Target::Warp, Target::Ghostty, Target::Opencode];
    let applied = vec![true, false, false];
    let options = target_options(&targets, &applied);
    assert_eq!(options, vec!["Warp (applied)", "Ghostty", "OpenCode"]);
    assert_eq!(unapplied_indices(&applied), vec![1, 2]);
    let picked = vec!["OpenCode".to_string(), "Warp (applied)".to_string()];
    assert_eq!(chosen_targets(&targets, &options, &picked), vec![Target::Warp, Target::Opencode]);
    assert!(chosen_targets(&targets, &options, &vec![]).is_empty());
}

#[test]
fn create_steps() {
    assert_eq!(create_step(Phase::PickBg, CreateKey::Enter), (Phase::PickFg, CreateAction::Stay));
    assert_eq!(create_step(Phase::PickFg, CreateKey::Enter), (Phase::PickAccent, CreateAction::Stay));
    assert_eq!(
        create_step(Phase::PickAccent, CreateKey::Enter),
        (Phase::Preview, CreateAction::DerivePreview)
    );
    assert_eq!(create_step(Phase::Preview, CreateKey::Enter), (Phase::Preview, CreateAction::Finish));
    assert_eq!(create_step(Phase::Preview, CreateKey::Esc), (Phase::PickBg, CreateAction::DropPreview));
    assert_eq!(create_step(Phase::Preview, CreateKey::Char('q')), (Phase::Preview, CreateAction::Quit));
    assert_eq!(create_step(Phase::Preview, CreateKey::Up), (Phase::Preview, CreateAction::Stay));
    assert_eq!(create_step(Phase::PickBg, CreateKey::Esc), (Phase::PickBg, CreateAction::Quit));
    assert_eq!(create_step(Phase::PickAccent, CreateKey::Esc), (Phase::PickFg, CreateAction::Stay));
    assert_eq!(
        create_step(Phase::PickFg, CreateKey::Left { fast: true }),
        (Phase::PickFg, CreateAction::Adjust(-5))
    );
    assert_eq!(
        create_step(Phase::PickFg, CreateKey::Right { fast: false }),
        (Phase::PickFg, CreateAction::Adjust(1))
    );
    assert_eq!(create_step(Phase::PickBg, CreateKey::Down), (Phase::PickBg, CreateAction::PickerDown));
    assert_eq!(create_step(Phase::PickFg, CreateKey::Interrupt), (Phase::PickFg, CreateAction::Quit));
    assert_eq!(create_step(Phase::PickBg, CreateKey::Char('q')), (Phase::PickBg, CreateAction::Stay));
}

#[test]
fn created_theme_is_named_from_trimmed_input() {
    assert!(name_created_theme(derived_ir(), "   ").is_none());
    let ir = name_created_theme(derived_ir(), "  My Theme ").unwrap();
    assert_eq!(ir.name, "My Theme");
    assert_eq!(ir.id, "my-theme");
    assert_eq!(ir.background.as_str(), "#F7F7F7");
}

#[test]
fn update_plans() {
    let m = InstallMethod::Homebrew;
    assert_eq!(update_plan("x", "0.3.0", m, false, true, true), UpdatePlan::InvalidCurrent);
    assert_eq!(update_plan("0.2.0", "latest", m, false, true, true), UpdatePlan::InvalidLatest);
    assert_eq!(update_plan("0.3.0", "0.3.0", m, false, true, true), UpdatePlan::UpToDate);
    assert_eq!(update_plan("0.3.0", "0.2.0", m, false, true, true), UpdatePlan::UpToDate);
    assert_eq!(
        update_plan("0.2.0", "0.3.0", m, false, true, true),
        UpdatePlan::Upgrade(UpgradeStep::Confirm)
    );
    assert_eq!(
        update_plan("0.2.0", "0.3.0", m, false, true, false),
        UpdatePlan::Upgrade(UpgradeStep::MissingCwd)
    );
    assert_eq!(
        update_plan("0.2.0", "0.3.0", InstallMethod::Cargo, false, false, false),
        UpdatePlan::Upgrade(UpgradeStep::ShowCommand)
    );
    assert_eq!(
        update_plan("0.2.0", "0.3.0", InstallMethod::Cargo, true, false, true),
        UpdatePlan::Upgrade(UpgradeStep::Run)
    );
    assert_eq!(
        update_plan("0.2.0", "0.3.0", InstallMethod::Unknown, true, true, true),
        UpdatePlan::Upgrade(UpgradeStep::Manual)
    );
    assert_eq!(upgrade_command(InstallMethod::Cargo), "cargo install chromaport");
    assert_eq!(upgrade_command(InstallMethod::Homebrew), "brew update && brew upgrade chromaport");
}

#[test]
fn prompt_texts() {
    assert_eq!(overwrite_prompt("/tmp/a.json"), "/tmp/a.json already exists. Overwrite?");
    assert_eq!(apply_config_prompt("Ghostty"), "Apply to Ghostty config?");
    assert_eq!(
        replace_with_symlink_prompt("/tmp/b"),
        "A file exists at /tmp/b. Replace with symlink?"
    );
    assert_eq!(
        update_prompt("0.2.0", "0.3.0", "Homebrew"),
        "Upgrade chromaport 0.2.0 \u{2192} 0.3.0 via Homebrew?"
    );
    assert_eq!(
        release_url("0.3.0"),
        "https://github.com/hamsurang/chromaport/releases/tag/v0.3.0"
    );
    assert_eq!(prompt_failure_outcome(PromptFailure::NotTty), PromptOutcome::NotTtyError);
    assert_eq!(prompt_failure_outcome(PromptFailure::Canceled), PromptOutcome::Exit(0));
    assert_eq!(prompt_failure_outcome(PromptFailure::Interrupted), PromptOutcome::Exit(130));
    assert_eq!(prompt_failure_outcome(PromptFailure::Other), PromptOutcome::PromptError);
}
