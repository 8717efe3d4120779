//! Command-line vocabulary: the parsed arguments, the source editors and the target apps.
use vstd::prelude::*;

verus! {

/// The parsed command line.
pub struct Cli {
    /// Print version
    pub version: (),
    pub command: Option<Command>,
    /// Source editor to read themes from
    pub editor: Option<Editor>,
    /// Target app to write themes to
    pub target: Option<Target>,
}

/// The subcommands.
#[derive(Debug, Clone, Copy, PartialEq, Eq, Structural)]
pub enum Command {
    /// Check for updates and upgrade chromaport
    Update {
        /// Skip confirmation prompt
        yes: bool,
    },
    /// Apply a saved theme to additional targets
    Apply,
    /// Create a custom theme from scratch
    Create,
    /// Manage preset themes
    Presets { action: PresetsAction },
    /// Show saved themes, applied targets, and detected editors
    Status,
}

/// The actions of the `presets` subcommand.
#[derive(Debug, Clone, Copy, PartialEq, Eq, Structural)]
pub enum PresetsAction {
    /// List available preset themes
    List,
    /// Install preset themes
    Install,
}

/// The editors themes are read from.
#[derive(Debug, Clone, Copy, PartialEq, Eq, Structural)]
pub enum Editor {
    Vscode,
    Cursor,
    Opencode,
    Iterm2,
}

/// The apps themes are written to.
#[derive(Debug, Clone, Copy, PartialEq, Eq, Structural)]
pub enum Target {
    Superset,
    Warp,
    Ghostty,
    Opencode,
    Obsidian,
    Iterm2,
    Wezterm,
}

/// The name an editor is shown under.
pub open spec fn editor_label(e: Editor) -> Seq<char> {
    match e {
        Editor::Vscode => "VS Code"@,
        Editor::Cursor => "Cursor"@,
        Editor::Opencode => "OpenCode"@,
        Editor::Iterm2 => "iTerm2"@,
    }
}

/// The name an editor is shown under.
pub fn editor_name(e: &Editor) -> (s: &'static str)
    ensures
        s@ == editor_label(*e),
{
    match e {
        Editor::Vscode => "VS Code",
        Editor::Cursor => "Cursor",
        Editor::Opencode => "OpenCode",
        Editor::Iterm2 => "iTerm2",
    }
}

/// The name a target app is shown under.
pub open spec fn target_label(t: Target) -> Seq<char> {
    match t {
        Target::Superset => "Superset"@,
        Target::Warp => "Warp"@,
        Target::Ghostty => "Ghostty"@,
        Target::Opencode => "OpenCode"@,
        Target::Obsidian => "Obsidian"@,
        Target::Iterm2 => "iTerm2"@,
        Target::Wezterm => "WezTerm"@,
    }
}

/// Every target app, in the order they are offered.
pub open spec fn all_targets() -> Seq<Target> {
    seq![
        Target::Superset,
        Target::Warp,
        Target::Ghostty,
        Target::Opencode,
        Target::Obsidian,
        Target::Iterm2,
        Target::Wezterm,
    ]
}

impl Target {
    /// The name this target is shown under.
    pub fn display_name(&self) -> (s: &'static str)
        ensures
            s@ == target_label(*self),
    {
        match self {
            Target::Superset => "Superset",
            Target::Warp => "Warp",
            Target::Ghostty => "Ghostty",
            Target::Opencode => "OpenCode",
            Target::Obsidian => "Obsidian",
            Target::Iterm2 => "iTerm2",
            Target::Wezterm => "WezTerm",
        }
    }

    /// Every target app, in the order they are offered.
    pub fn all() -> (r: Vec<Target>)
        ensures
            r@ == all_targets(),
    {
        let r = vec![
            Target::Superset,
            Target::Warp,
            Target::Ghostty,
            Target::Opencode,
            Target::Obsidian,
            Target::Iterm2,
            Target::Wezterm,
        ];
        assert(r@ =~= all_targets());
        r
    }
}

/// The name a subcommand is typed as.
pub open spec fn command_label(c: Command) -> Seq<char> {
    match c {
        Command::Update { .. } => "update"@,
        Command::Apply => "apply"@,
        Command::Create => "create"@,
        Command::Presets { .. } => "presets"@,
        Command::Status => "status"@,
    }
}

/// The name a subcommand is typed as.
pub fn command_name(c: &Command) -> (s: &'static str)
    ensures
        s@ == command_label(*c),
{
    match c {
        Command::Update { .. } => "update",
        Command::Apply => "apply",
        Command::Create => "create",
        Command::Presets { .. } => "presets",
        Command::Status => "status",
    }
}

/// Whether `--editor`/`--target` were given beside a subcommand, where they are not used.
pub fn options_unused(cli: &Cli) -> (b: bool)
    ensures
        b == (cli.command is Some && (cli.editor is Some || cli.target is Some)),
{
    cli.command.is_some() && (cli.editor.is_some() || cli.target.is_some())
}

} // verus!
