//! The decisions of the interactive flows: which editor and target to use, what each key does
//! while a theme is created, which targets a saved theme goes to, and how an upgrade proceeds.
//! The prompts, screens and processes around them stay with the caller.
use vstd::prelude::*;
use crate::cli::{editor_label, target_label, Editor, Target};
use crate::converter::strings_view;
use crate::ir::ThemeIR;
use crate::store::{slug_of, theme_slug};
use crate::text::{chars_of, string_from_chars, trim, trim_chars};
use crate::update::InstallMethod;

verus! {

// ── Choosing the editor ────────────────────────────────────────────

/// How the source editor is chosen.
#[derive(Debug, Clone, Copy, PartialEq, Eq, Structural)]
pub enum EditorChoice {
    /// The editor at this position among the detected ones, as asked for.
    Use(usize),
    /// The only detected editor, announced as auto-detected.
    AutoDetected(usize),
    /// More than one editor: ask the user.
    Ask,
    /// The requested editor was not detected.
    NotFound,
}

/// The first position of `e` in `found`.
pub open spec fn first_index_of(found: Seq<Editor>, e: Editor) -> Option<int>
    decreases found.len(),
{
    if found.len() == 0 {
        None
    } else if found.last() == e {
        match first_index_of(found.drop_last(), e) {
            Some(i) => Some(i),
            None => Some(found.len() - 1),
        }
    } else {
        first_index_of(found.drop_last(), e)
    }
}

/// Pick the editor: the requested one if detected; else the only one; else the first when
/// there is no terminal to ask on; else ask.
pub fn resolve_editor(requested: Option<Editor>, found: &Vec<Editor>, tty: bool) -> (c: EditorChoice)
    requires
        found.len() > 0,
    ensures
        match requested {
            Some(e) => match first_index_of(found@, e) {
                Some(i) => c == EditorChoice::Use(i as usize),
                None => c == EditorChoice::NotFound,
            },
            None => if found.len() == 1 {
                c == EditorChoice::AutoDetected(0)
            } else if !tty {
                c == EditorChoice::Use(0)
            } else {
                c == EditorChoice::Ask
            },
        },
{
    match requested {
        Some(e) => {
            let mut i: usize = 0;
            while i < found.len()
                invariant
                    i <= found.len(),
                    requested == Some(e),
                    first_index_of(found@.take(i as int), e) is None,
                decreases found.len() - i,
            {
                assert(found@.take(i + 1).drop_last() =~= found@.take(i as int));
                if found[i] == e {
                    proof {
                        lemma_first_index_prefix(found@, e, i as int);
                    }
                    return EditorChoice::Use(i);
                }
                i += 1;
            }
            assert(found@.take(found.len() as int) =~= found@);
            EditorChoice::NotFound
        },
        None => {
            if found.len() == 1 {
                EditorChoice::AutoDetected(0)
            } else if !tty {
                EditorChoice::Use(0)
            } else {
                EditorChoice::Ask
            }
        },
    }
}

proof fn lemma_first_index_prefix(found: Seq<Editor>, e: Editor, i: int)
    requires
        0 <= i < found.len(),
        found[i] == e,
        first_index_of(found.take(i), e) is None,
    ensures
        first_index_of(found, e) == Some(i),
    decreases found.len(),
{
    if i < found.len() - 1 {
        assert(found.drop_last().take(i) =~= found.take(i));
        lemma_first_index_prefix(found.drop_last(), e, i);
    } else {
        assert(found.drop_last() =~= found.take(i));
    }
}

/// The error when the requested editor was not detected.
pub open spec fn editor_missing_text(e: Editor) -> Seq<char> {
    editor_label(e) + " not found. Check that extensions are installed."@
}

/// The error when the requested editor was not detected.
pub fn editor_not_found_message(e: &Editor) -> (m: String)
    ensures
        m@ == editor_missing_text(*e),
{
    let mut m = String::from_str(crate::cli::editor_name(e));
    m.append(" not found. Check that extensions are installed.");
    m
}

// ── Choosing the target ────────────────────────────────────────────

/// How the target app is chosen.
#[derive(Debug, Clone, Copy, PartialEq, Eq, Structural)]
pub enum TargetChoice {
    /// This target.
    Use(Target),
    /// No target app was detected.
    NoneDetected,
    /// Several targets: ask the user.
    Ask,
}

/// Pick the target: the requested one; else none when nothing is detected; else the first
/// when there is only one or no terminal to ask on; else ask.
pub fn resolve_target(requested: Option<Target>, available: &Vec<Target>, tty: bool) -> (c:
    TargetChoice)
    ensures
        c == (match requested {
            Some(t) => TargetChoice::Use(t),
            None => if available@.len() == 0 {
                TargetChoice::NoneDetected
            } else if available@.len() == 1 || !tty {
                TargetChoice::Use(available@[0])
            } else {
                TargetChoice::Ask
            },
        }),
{
    match requested {
        Some(t) => TargetChoice::Use(t),
        None => {
            if available.len() == 0 {
                TargetChoice::NoneDetected
            } else if available.len() == 1 || !tty {
                TargetChoice::Use(available[0])
            } else {
                TargetChoice::Ask
            }
        },
    }
}

/// The target prompt: none detected is an error, a single target is taken as auto-detected,
/// several are asked for.
pub fn select_target_plan(available: &Vec<Target>) -> (c: TargetChoice)
    ensures
        c == (if available@.len() == 0 {
            TargetChoice::NoneDetected
        } else if available@.len() == 1 {
            TargetChoice::Use(available@[0])
        } else {
            TargetChoice::Ask
        }),
{
    if available.len() == 0 {
        TargetChoice::NoneDetected
    } else if available.len() == 1 {
        TargetChoice::Use(available[0])
    } else {
        TargetChoice::Ask
    }
}

// ── Applying a saved theme ─────────────────────────────────────────

/// What happens once the applied state of each detected target is known.
#[derive(Debug, Clone, Copy, PartialEq, Eq, Structural)]
pub enum ApplyPlan {
    /// The theme is already on every detected target.
    AllApplied,
    /// The only detected target, which lacks the theme, is used without asking.
    OnlyTarget,
    /// Ask which targets to apply to.
    Ask,
}

/// What happens once the applied state of each detected target is known.
pub fn apply_plan(applied: &Vec<bool>) -> (p: ApplyPlan)
    requires
        applied.len() > 0,
    ensures
        p == (if forall|i: int| 0 <= i < applied@.len() ==> #[trigger] applied@[i] {
            ApplyPlan::AllApplied
        } else if applied@.len() == 1 {
            ApplyPlan::OnlyTarget
        } else {
            ApplyPlan::Ask
        }),
{
    let mut all = true;
    let mut i: usize = 0;
    while i < applied.len()
        invariant
            i <= applied.len(),
            all == (forall|j: int| 0 <= j < i ==> #[trigger] applied@[j]),
        decreases applied.len() - i,
    {
        if !applied[i] {
            all = false;
        }
        i += 1;
    }
    if all {
        ApplyPlan::AllApplied
    } else if applied.len() == 1 {
        ApplyPlan::OnlyTarget
    } else {
        ApplyPlan::Ask
    }
}

/// The option shown for a target: its name, marked when the theme is already there.
pub open spec fn target_option(t: Target, applied: bool) -> Seq<char> {
    if applied {
        target_label(t) + " (applied)"@
    } else {
        target_label(t)
    }
}

/// The options of the target prompt, one per target (targets without an applied flag are
/// left out, as a zip stops at the shorter list).
pub fn target_options(targets: &Vec<Target>, applied: &Vec<bool>) -> (options: Vec<String>)
    ensures
        options@.len() == if targets@.len() < applied@.len() {
            targets@.len()
        } else {
            applied@.len()
        },
        forall|i: int|
            0 <= i < options@.len() ==> #[trigger] options@[i]@ == target_option(
                targets@[i],
                applied@[i],
            ),
{
    let mut options: Vec<String> = Vec::new();
    let mut i: usize = 0;
    while i < targets.len() && i < applied.len()
        invariant
            i <= targets.len(),
            i <= applied.len(),
            options@.len() == i,
            forall|j: int|
                0 <= j < i ==> #[trigger] options@[j]@ == target_option(targets@[j], applied@[j]),
        decreases targets.len() - i,
    {
        let mut o = String::from_str(targets[i].display_name());
        if applied[i] {
            o.append(" (applied)");
        }
        options.push(o);
        i += 1;
    }
    options
}

/// The targets pre-selected in the prompt: those without the theme.
pub fn unapplied_indices(applied: &Vec<bool>) -> (idx: Vec<usize>)
    ensures
        forall|k: int| 0 <= k < idx@.len() ==> #[trigger] idx@[k] < applied@.len() && !applied@[idx@[k] as int],
        forall|i: int| 0 <= i < applied@.len() && !applied@[i] ==> idx@.contains(i as usize),
        forall|a: int, b: int| 0 <= a < b < idx@.len() ==> idx@[a] < idx@[b],
{
    let mut idx: Vec<usize> = Vec::new();
    let mut i: usize = 0;
    while i < applied.len()
        invariant
            i <= applied.len(),
            forall|k: int| 0 <= k < idx@.len() ==> #[trigger] idx@[k] < i && !applied@[idx@[k] as int],
            forall|j: int| 0 <= j < i && !applied@[j] ==> idx@.contains(j as usize),
            forall|a: int, b: int| 0 <= a < b < idx@.len() ==> idx@[a] < idx@[b],
        decreases applied.len() - i,
    {
        if !applied[i] {
            let ghost before = idx@;
            idx.push(i);
            assert forall|j: int| 0 <= j < i + 1 && !applied@[j] implies idx@.contains(j as usize) by {
                if j < i {
                    let k = choose|k: int| 0 <= k < before.len() && before[k] == j as usize;
                    assert(idx@[k] == j as usize);
                } else {
                    assert(idx@[before.len() as int] == i);
                }
            }
        }
        i += 1;
    }
    idx
}

/// The targets among the first `n` whose options were picked, in target order.
pub open spec fn picked_targets(
    targets: Seq<Target>,
    options: Seq<Seq<char>>,
    picked: Seq<Seq<char>>,
    n: int,
) -> Seq<Target>
    decreases n,
{
    if n <= 0 {
        seq![]
    } else if picked.contains(options[n - 1]) {
        picked_targets(targets, options, picked, n - 1).push(targets[n - 1])
    } else {
        picked_targets(targets, options, picked, n - 1)
    }
}

/// The targets whose options were picked, in target order.
pub fn chosen_targets(targets: &Vec<Target>, options: &Vec<String>, picked: &Vec<String>) -> (r:
    Vec<Target>)
    requires
        options.len() == targets.len(),
    ensures
        r@ == picked_targets(
            targets@,
            strings_view(options@),
            strings_view(picked@),
            targets@.len() as int,
        ),
{
    let mut r: Vec<Target> = Vec::new();
    let mut i: usize = 0;
    while i < targets.len()
        invariant
            i <= targets.len() == options.len(),
            r@ == picked_targets(
                targets@,
                strings_view(options@),
                strings_view(picked@),
                i as int,
            ),
        decreases targets.len() - i,
    {
        assert(strings_view(options@)[i as int] == options@[i as int]@);
        if crate::preview::listed(picked, &options[i]) {
            r.push(targets[i]);
        }
        i += 1;
    }
    r
}

// ── Creating a theme ───────────────────────────────────────────────

/// The steps of creating a theme: pick the background, the foreground, the accent, then
/// preview the derived theme.
#[derive(Debug, Clone, Copy, PartialEq, Eq, Structural)]
pub enum Phase {
    PickBg,
    PickFg,
    PickAccent,
    Preview,
}

/// A key while creating a theme (releases are dropped before this point).
#[derive(Debug, Clone, Copy, PartialEq, Eq, Structural)]
pub enum CreateKey {
    Up,
    Down,
    /// Left, with Shift held or not.
    Left { fast: bool },
    /// Right, with Shift held or not.
    Right { fast: bool },
    Enter,
    Esc,
    Char(char),
    /// Ctrl+C
    Interrupt,
    Other,
}

/// What the caller does for a key while creating a theme.
#[derive(Debug, Clone, Copy, PartialEq, Eq, Structural)]
pub enum CreateAction {
    /// Nothing.
    Stay,
    /// Move the current picker to the slider above.
    PickerUp,
    /// Move the current picker to the slider below.
    PickerDown,
    /// Move the current slider by this many steps.
    Adjust(i8),
    /// Derive the theme from the three picked colors and show it.
    DerivePreview,
    /// Drop the derived theme.
    DropPreview,
    /// Keep the derived theme and leave the screen.
    Finish,
    /// Leave without a theme.
    Quit,
}

/// The step a key leads to while creating a theme, and what to do for it.
pub open spec fn create_step_spec(phase: Phase, key: CreateKey) -> (Phase, CreateAction) {
    match key {
        CreateKey::Interrupt => (phase, CreateAction::Quit),
        _ => match phase {
            Phase::Preview => match key {
                CreateKey::Enter => (phase, CreateAction::Finish),
                CreateKey::Esc => (Phase::PickBg, CreateAction::DropPreview),
                CreateKey::Char(c) => if c == 'q' {
                    (phase, CreateAction::Quit)
                } else {
                    (phase, CreateAction::Stay)
                },
                _ => (phase, CreateAction::Stay),
            },
            _ => match key {
                CreateKey::Up => (phase, CreateAction::PickerUp),
                CreateKey::Down => (phase, CreateAction::PickerDown),
                CreateKey::Left { fast } => (phase, CreateAction::Adjust(if fast { -5i8 } else { -1i8 })),
                CreateKey::Right { fast } => (phase, CreateAction::Adjust(if fast { 5i8 } else { 1i8 })),
                CreateKey::Enter => match phase {
                    Phase::PickBg => (Phase::PickFg, CreateAction::Stay),
                    Phase::PickFg => (Phase::PickAccent, CreateAction::Stay),
                    _ => (Phase::Preview, CreateAction::DerivePreview),
                },
                CreateKey::Esc => match phase {
                    Phase::PickBg => (phase, CreateAction::Quit),
                    Phase::PickFg => (Phase::PickBg, CreateAction::Stay),
                    _ => (Phase::PickFg, CreateAction::Stay),
                },
                _ => (phase, CreateAction::Stay),
            },
        },
    }
}

/// The step a key leads to while creating a theme, and what to do for it.
pub fn create_step(phase: Phase, key: CreateKey) -> (r: (Phase, CreateAction))
    ensures
        r == create_step_spec(phase, key),
{
    if key == CreateKey::Interrupt {
        return (phase, CreateAction::Quit);
    }
    match phase {
        Phase::Preview => match key {
            CreateKey::Enter => (phase, CreateAction::Finish),
            CreateKey::Esc => (Phase::PickBg, CreateAction::DropPreview),
            CreateKey::Char(c) => if c == 'q' {
                (phase, CreateAction::Quit)
            } else {
                (phase, CreateAction::Stay)
            },
            _ => (phase, CreateAction::Stay),
        },
        _ => match key {
            CreateKey::Up => (phase, CreateAction::PickerUp),
            CreateKey::Down => (phase, CreateAction::PickerDown),
            CreateKey::Left { fast } => (phase, CreateAction::Adjust(if fast { -5 } else { -1 })),
            CreateKey::Right { fast } => (phase, CreateAction::Adjust(if fast { 5 } else { 1 })),
            CreateKey::Enter => match phase {
                Phase::PickBg => (Phase::PickFg, CreateAction::Stay),
                Phase::PickFg => (Phase::PickAccent, CreateAction::Stay),
                _ => (Phase::Preview, CreateAction::DerivePreview),
            },
            CreateKey::Esc => match phase {
                Phase::PickBg => (phase, CreateAction::Quit),
                Phase::PickFg => (Phase::PickBg, CreateAction::Stay),
                _ => (Phase::PickFg, CreateAction::Stay),
            },
            _ => (phase, CreateAction::Stay),
        },
    }
}

/// Names the created theme with the typed name, trimmed; `None` when it is blank.
pub fn name_created_theme(ir: ThemeIR, typed: &str) -> (r: Option<ThemeIR>)
    ensures
        trim(typed@).len() == 0 ==> r is None,
        trim(typed@).len() > 0 ==> (r matches Some(t) && t.name@ == trim(typed@) && t.id@
            == slug_of(trim(typed@)) && t.theme_type == ir.theme_type && t.ui_colors()
            == ir.ui_colors() && t.chart() == ir.chart() && t.terminal == ir.terminal && t.syntax
            == ir.syntax && t.diff == ir.diff && t.created_at == ir.created_at),
{
    let chars = chars_of(typed);
    let trimmed = trim_chars(&chars);
    if trimmed.len() == 0 {
        return None;
    }
    let name = string_from_chars(&trimmed);
    let id = theme_slug(name.as_str());
    let mut ir = ir;
    ir.name = name;
    ir.id = id;
    Some(ir)
}

// ── Upgrading ──────────────────────────────────────────────────────

/// How an upgrade goes on once a newer release is known.
#[derive(Debug, Clone, Copy, PartialEq, Eq, Structural)]
pub enum UpgradeStep {
    /// Run the upgrade now.
    Run,
    /// Ask before running it.
    Confirm,
    /// No terminal to ask on: show the command to run instead.
    ShowCommand,
    /// The install method is unknown: show both ways to upgrade.
    Manual,
    /// Homebrew cannot run from a directory that no longer exists.
    MissingCwd,
}

/// The outcome of `chromaport update` once the latest release is fetched.
#[derive(Debug, Clone, Copy, PartialEq, Eq, Structural)]
pub enum UpdatePlan {
    /// The running version does not parse.
    InvalidCurrent,
    /// The latest version does not parse.
    InvalidLatest,
    /// No newer release.
    UpToDate,
    /// A newer release: record it, then go on as the step says.
    Upgrade(UpgradeStep),
}

/// How an upgrade goes on for an install method.
pub open spec fn upgrade_step(method: InstallMethod, yes: bool, tty: bool, cwd_ok: bool) -> UpgradeStep {
    match method {
        InstallMethod::Unknown => UpgradeStep::Manual,
        _ => if method == InstallMethod::Homebrew && !cwd_ok {
            UpgradeStep::MissingCwd
        } else if yes {
            UpgradeStep::Run
        } else if !tty {
            UpgradeStep::ShowCommand
        } else {
            UpgradeStep::Confirm
        },
    }
}

/// The outcome of `chromaport update` once the latest release is fetched: both versions must
/// parse; an upgrade happens only to a greater version.
pub fn update_plan(
    current: &str,
    latest: &str,
    method: InstallMethod,
    yes: bool,
    tty: bool,
    cwd_ok: bool,
) -> (p: UpdatePlan)
    ensures
        p == (if !crate::update::semver_valid(current@) {
            UpdatePlan::InvalidCurrent
        } else if !crate::update::semver_valid(latest@) {
            UpdatePlan::InvalidLatest
        } else if !crate::update::semver_greater(latest@, current@) {
            UpdatePlan::UpToDate
        } else {
            UpdatePlan::Upgrade(upgrade_step(method, yes, tty, cwd_ok))
        }),
{
    let versions = crate::update::check_versions(latest, current);
    if !versions.current_valid {
        return UpdatePlan::InvalidCurrent;
    }
    if !versions.latest_valid {
        return UpdatePlan::InvalidLatest;
    }
    if !versions.newer {
        return UpdatePlan::UpToDate;
    }
    let step = match method {
        InstallMethod::Unknown => UpgradeStep::Manual,
        _ => if method == InstallMethod::Homebrew && !cwd_ok {
            UpgradeStep::MissingCwd
        } else if yes {
            UpgradeStep::Run
        } else if !tty {
            UpgradeStep::ShowCommand
        } else {
            UpgradeStep::Confirm
        },
    };
    UpdatePlan::Upgrade(step)
}

/// The upgrade command for an install method.
pub open spec fn upgrade_command_text(method: InstallMethod) -> Seq<char> {
    match method {
        InstallMethod::Homebrew => "brew update && brew upgrade chromaport"@,
        InstallMethod::Cargo => "cargo install chromaport"@,
        InstallMethod::Unknown => ""@,
    }
}

/// The upgrade command for an install method (empty when it is unknown).
pub fn upgrade_command(method: InstallMethod) -> (s: &'static str)
    ensures
        s@ == upgrade_command_text(method),
{
    match method {
        InstallMethod::Homebrew => "brew update && brew upgrade chromaport",
        InstallMethod::Cargo => "cargo install chromaport",
        InstallMethod::Unknown => "",
    }
}

// ── Prompt texts ───────────────────────────────────────────────────

/// `prefix`, then `middle`, then `suffix`.
fn surround(prefix: &str, middle: &str, suffix: &str) -> (s: String)
    ensures
        s@ == prefix@ + middle@ + suffix@,
{
    let mut s = String::from_str(prefix);
    s.append(middle);
    s.append(suffix);
    s
}

/// The question before an existing theme file is overwritten.
pub fn overwrite_prompt(path: &str) -> (s: String)
    ensures
        s@ == path@ + " already exists. Overwrite?"@,
{
    let mut s = String::from_str(path);
    s.append(" already exists. Overwrite?");
    s
}

/// The question before a target's config file is changed.
pub fn apply_config_prompt(target_name: &str) -> (s: String)
    ensures
        s@ == "Apply to "@ + target_name@ + " config?"@,
{
    surround("Apply to ", target_name, " config?")
}

/// The question before a plain file is replaced by a symlink.
pub fn replace_with_symlink_prompt(path: &str) -> (s: String)
    ensures
        s@ == "A file exists at "@ + path@ + ". Replace with symlink?"@,
{
    surround("A file exists at ", path, ". Replace with symlink?")
}

/// The question before an upgrade runs.
pub fn update_prompt(current: &str, latest: &str, method: &str) -> (s: String)
    ensures
        s@ == "Upgrade chromaport "@ + current@ + " \u{2192} "@ + latest@ + " via "@ + method@
            + "?"@,
{
    let mut s = surround("Upgrade chromaport ", current, " \u{2192} ");
    s.append(latest);
    s.append(" via ");
    s.append(method);
    s.append("?");
    s
}

/// The page of a release.
pub fn release_url(latest: &str) -> (s: String)
    ensures
        s@ == "https://github.com/hamsurang/chromaport/releases/tag/v"@ + latest@,
{
    let mut s = String::from_str("https://github.com/hamsurang/chromaport/releases/tag/v");
    s.append(latest);
    s
}

/// Why a prompt ended without an answer.
#[derive(Debug, Clone, Copy, PartialEq, Eq, Structural)]
pub enum PromptFailure {
    /// There is no terminal to prompt on.
    NotTty,
    /// The user pressed Esc.
    Canceled,
    /// The user pressed Ctrl+C.
    Interrupted,
    /// Anything else.
    Other,
}

/// What a failed prompt leads to.
#[derive(Debug, Clone, Copy, PartialEq, Eq, Structural)]
pub enum PromptOutcome {
    /// Report the error that there is no terminal.
    NotTtyError,
    /// Exit the process with this code.
    Exit(i32),
    /// Report the prompt's own error.
    PromptError,
}

/// What a failed prompt leads to: no terminal is an error; Esc exits with 0 and Ctrl+C with
/// 130; anything else is reported as a prompt error.
pub fn prompt_failure_outcome(f: PromptFailure) -> (o: PromptOutcome)
    ensures
        o == (match f {
            PromptFailure::NotTty => PromptOutcome::NotTtyError,
            PromptFailure::Canceled => PromptOutcome::Exit(0),
            PromptFailure::Interrupted => PromptOutcome::Exit(130),
            PromptFailure::Other => PromptOutcome::PromptError,
        }),
{
    match f {
        PromptFailure::NotTty => PromptOutcome::NotTtyError,
        PromptFailure::Canceled => PromptOutcome::Exit(0),
        PromptFailure::Interrupted => PromptOutcome::Exit(130),
        PromptFailure::Other => PromptOutcome::PromptError,
    }
}

} // verus!
