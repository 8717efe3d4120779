//! Theme entries found in editor extensions.
use vstd::prelude::*;

verus! {

/// A filesystem path, carried through unchanged.
#[verifier::external_type_specification]
#[verifier::external_body]
pub struct ExPathBuf(std::path::PathBuf);

/// A theme contributed by an editor extension.
pub struct ThemeEntry {
    /// Display name (from package.json contributes.themes[].label)
    pub label: String,
    /// Match key used in workbench.colorTheme (id if present, else label)
    pub settings_id: String,
    /// vs | vs-dark | hc-black | hc-light
    pub ui_theme: String,
    /// Absolute path to the theme JSON file
    pub path: std::path::PathBuf,
    /// Extension display name (from package.json displayName or name)
    pub extension_name: String,
}

/// `PathBuf::clone`: the copy is the same path.
#[verifier::external_body]
fn clone_path(p: &std::path::PathBuf) -> (c: std::path::PathBuf)
    ensures
        c == *p,
{
    p.clone()
}

impl Clone for ThemeEntry {
    fn clone(&self) -> (c: Self)
        ensures
            c == *self,
    {
        ThemeEntry {
            label: self.label.clone(),
            settings_id: self.settings_id.clone(),
            ui_theme: self.ui_theme.clone(),
            path: clone_path(&self.path),
            extension_name: self.extension_name.clone(),
        }
    }
}


/// One `contributes.themes[]` entry of an extension's package.json: each field that holds a
/// string, else `None`.
pub struct ThemeContribution {
    pub label: Option<String>,
    pub path: Option<String>,
    pub ui_theme: Option<String>,
    pub id: Option<String>,
}

/// An extension's package.json as far as theme listing reads it: the string fields, and the
/// theme contributions when `contributes.themes` is an array.
pub struct ExtensionManifest {
    pub display_name: Option<String>,
    pub name: Option<String>,
    pub themes: Option<Vec<ThemeContribution>>,
}

/// A contribution that names a theme: its label, path as written, UI theme and settings id.
pub struct ListedTheme {
    pub label: String,
    pub raw_path: String,
    pub ui_theme: String,
    pub settings_id: String,
}

/// The name an extension is shown under: `displayName`, else `name`, else "Unknown".
pub open spec fn extension_label(m: ExtensionManifest) -> Seq<char> {
    match m.display_name {
        Some(d) => d@,
        None => match m.name {
            Some(n) => n@,
            None => "Unknown"@,
        },
    }
}

/// The name an extension is shown under.
pub fn extension_name(m: &ExtensionManifest) -> (s: String)
    ensures
        s@ == extension_label(*m),
{
    match &m.display_name {
        Some(d) => d.clone(),
        None => match &m.name {
            Some(n) => n.clone(),
            None => String::from_str("Unknown"),
        },
    }
}

/// The view of a listed theme: label, raw path, UI theme, settings id.
pub open spec fn listed_view(t: ListedTheme) -> (Seq<char>, Seq<char>, Seq<char>, Seq<char>) {
    (t.label@, t.raw_path@, t.ui_theme@, t.settings_id@)
}

/// The themes the first `n` contributions name: those with a label and a path; the UI theme
/// defaults to `vs-dark` and the settings id to the label.
pub open spec fn named_themes(c: Seq<ThemeContribution>, n: int) -> Seq<(Seq<char>, Seq<char>, Seq<char>, Seq<char>)>
    decreases n,
{
    if n <= 0 {
        seq![]
    } else {
        let t = c[n - 1];
        match (t.label, t.path) {
            (Some(l), Some(p)) => named_themes(c, n - 1).push(
                (
                    l@,
                    p@,
                    match t.ui_theme {
                        Some(u) => u@,
                        None => "vs-dark"@,
                    },
                    match t.id {
                        Some(i) => i@,
                        None => l@,
                    },
                ),
            ),
            _ => named_themes(c, n - 1),
        }
    }
}

/// The themes an extension's package.json names, in order (none when it has no theme array).
pub fn listed_themes(m: &ExtensionManifest) -> (r: Vec<ListedTheme>)
    ensures
        r@.map_values(|t: ListedTheme| listed_view(t)) == match m.themes {
            Some(c) => named_themes(c@, c@.len() as int),
            None => seq![],
        },
{
    let mut r: Vec<ListedTheme> = Vec::new();
    match &m.themes {
        None => {
            assert(r@.map_values(|t: ListedTheme| listed_view(t)) =~= seq![]);
            r
        },
        Some(c) => {
            let mut i: usize = 0;
            while i < c.len()
                invariant
                    i <= c.len(),
                    r@.map_values(|t: ListedTheme| listed_view(t)) == named_themes(c@, i as int),
                decreases c.len() - i,
            {
                let t = &c[i];
                match (&t.label, &t.path) {
                    (Some(l), Some(p)) => {
                        let ui_theme = match &t.ui_theme {
                            Some(u) => u.clone(),
                            None => String::from_str("vs-dark"),
                        };
                        let settings_id = match &t.id {
                            Some(x) => x.clone(),
                            None => l.clone(),
                        };
                        let ghost before = r@;
                        r.push(
                            ListedTheme {
                                label: l.clone(),
                                raw_path: p.clone(),
                                ui_theme,
                                settings_id,
                            },
                        );
                        assert(r@.map_values(|t: ListedTheme| listed_view(t)) =~= before.map_values(
                            |t: ListedTheme| listed_view(t),
                        ).push(listed_view(r@[i as int - (i as int - before.len())])));
                    },
                    _ => {},
                }
                i += 1;
            }
            r
        },
    }
}

} // verus!
