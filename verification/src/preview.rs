//! The theme list behind the live preview: filtering, navigation and the code sample.
use vstd::prelude::*;
use crate::cli::Target;
use crate::converter::strings_view;
use crate::ir::{HexColor, ThemeIR, ThemeType};
use crate::reader::ThemeEntry;
use crate::store::{slug_of, theme_slug};
use crate::text::{chars_contains, chars_of, contains, string_from_chars};

verus! {

/// How far PageUp/PageDown move the selection.
pub const PAGE_SIZE: usize = 10;

// ── Code sample ────────────────────────────────────────────────────

/// Token types for syntax highlighting simulation.
#[derive(Debug, Clone, Copy, PartialEq, Eq, Structural)]
pub enum TokenKind {
    Keyword,
    String,
    Function,
    Comment,
    Type,
    Punctuation,
    Variable,
    Plain,
}

/// The terminal color each token kind is drawn in.
pub open spec fn token_color(k: TokenKind, ir: ThemeIR) -> Seq<char> {
    match k {
        TokenKind::Keyword => ir.terminal.normal.blue@,
        TokenKind::String => ir.terminal.normal.green@,
        TokenKind::Function => ir.terminal.normal.yellow@,
        TokenKind::Comment => ir.terminal.bright.black@,
        TokenKind::Type => ir.terminal.normal.cyan@,
        TokenKind::Punctuation => ir.terminal.foreground@,
        TokenKind::Variable => ir.terminal.normal.red@,
        TokenKind::Plain => ir.terminal.foreground@,
    }
}

impl TokenKind {
    /// Map token kind to a theme color using fixed ANSI mapping.
    pub fn color(self, ir: &ThemeIR) -> (c: HexColor)
        ensures
            c@ == token_color(self, *ir),
    {
        match self {
            TokenKind::Keyword => ir.terminal.normal.blue.clone(),
            TokenKind::String => ir.terminal.normal.green.clone(),
            TokenKind::Function => ir.terminal.normal.yellow.clone(),
            TokenKind::Comment => ir.terminal.bright.black.clone(),
            TokenKind::Type => ir.terminal.normal.cyan.clone(),
            TokenKind::Punctuation => ir.terminal.foreground.clone(),
            TokenKind::Variable => ir.terminal.normal.red.clone(),
            TokenKind::Plain => ir.terminal.foreground.clone(),
        }
    }
}

/// A tokenized line as (kind, text) pairs.
pub open spec fn token_line(l: Seq<(TokenKind, &'static str)>) -> Seq<(TokenKind, Seq<char>)> {
    l.map_values(|p: (TokenKind, &'static str)| (p.0, p.1@))
}

/// The TypeScript sample shown in the preview, line by line.
pub open spec fn typescript_tokens() -> Seq<Seq<(TokenKind, Seq<char>)>> {
    seq![
        seq![
            (TokenKind::Keyword, "const"@),
            (TokenKind::Plain, " "@),
            (TokenKind::Variable, "greet"@),
            (TokenKind::Plain, " "@),
            (TokenKind::Punctuation, "="@),
            (TokenKind::Plain, " "@),
            (TokenKind::Punctuation, "("@),
            (TokenKind::Variable, "name"@),
            (TokenKind::Punctuation, ":"@),
            (TokenKind::Plain, " "@),
            (TokenKind::Type, "string"@),
            (TokenKind::Punctuation, "):"@),
            (TokenKind::Plain, " "@),
            (TokenKind::Type, "void"@),
            (TokenKind::Plain, " "@),
            (TokenKind::Punctuation, "=>"@),
            (TokenKind::Plain, " "@),
            (TokenKind::Punctuation, "{"@),
        ],
        seq![
            (TokenKind::Plain, "  "@),
            (TokenKind::Variable, "console"@),
            (TokenKind::Punctuation, "."@),
            (TokenKind::Function, "log"@),
            (TokenKind::Punctuation, "("@),
            (TokenKind::String, "`Hello, "@),
            (TokenKind::Punctuation, "${"@),
            (TokenKind::Variable, "name"@),
            (TokenKind::Punctuation, "}"@),
            (TokenKind::String, "!`"@),
            (TokenKind::Punctuation, ")"@),
            (TokenKind::Punctuation, ";"@),
        ],
        seq![(TokenKind::Punctuation, "}"@), (TokenKind::Punctuation, ";"@)],
        seq![],
        seq![(TokenKind::Comment, "// Call the function"@)],
        seq![
            (TokenKind::Function, "greet"@),
            (TokenKind::Punctuation, "("@),
            (TokenKind::String, "\"World\""@),
            (TokenKind::Punctuation, ")"@),
            (TokenKind::Punctuation, ";"@),
        ],
    ]
}

/// Returns a TypeScript code snippet as tokenized lines.
pub fn typescript_snippet() -> (r: Vec<Vec<(TokenKind, &'static str)>>)
    ensures
        r@.len() == typescript_tokens().len(),
        forall|i: int| 0 <= i < r@.len() ==> token_line(#[trigger] r@[i]@) == typescript_tokens()[i],
{
    let l0 = vec![
        (TokenKind::Keyword, "const"),
        (TokenKind::Plain, " "),
        (TokenKind::Variable, "greet"),
        (TokenKind::Plain, " "),
        (TokenKind::Punctuation, "="),
        (TokenKind::Plain, " "),
        (TokenKind::Punctuation, "("),
        (TokenKind::Variable, "name"),
        (TokenKind::Punctuation, ":"),
        (TokenKind::Plain, " "),
        (TokenKind::Type, "string"),
        (TokenKind::Punctuation, "):"),
        (TokenKind::Plain, " "),
        (TokenKind::Type, "void"),
        (TokenKind::Plain, " "),
        (TokenKind::Punctuation, "=>"),
        (TokenKind::Plain, " "),
        (TokenKind::Punctuation, "{"),
    ];
    let l1 = vec![
        (TokenKind::Plain, "  "),
        (TokenKind::Variable, "console"),
        (TokenKind::Punctuation, "."),
        (TokenKind::Function, "log"),
        (TokenKind::Punctuation, "("),
        (TokenKind::String, "`Hello, "),
        (TokenKind::Punctuation, "${"),
        (TokenKind::Variable, "name"),
        (TokenKind::Punctuation, "}"),
        (TokenKind::String, "!`"),
        (TokenKind::Punctuation, ")"),
        (TokenKind::Punctuation, ";"),
    ];
    let l2 = vec![(TokenKind::Punctuation, "}"), (TokenKind::Punctuation, ";")];
    let l3: Vec<(TokenKind, &'static str)> = vec![];
    let l4 = vec![(TokenKind::Comment, "// Call the function")];
    let l5 = vec![
        (TokenKind::Function, "greet"),
        (TokenKind::Punctuation, "("),
        (TokenKind::String, "\"World\""),
        (TokenKind::Punctuation, ")"),
        (TokenKind::Punctuation, ";"),
    ];
    assert(token_line(l0@) =~= typescript_tokens()[0]);
    assert(token_line(l1@) =~= typescript_tokens()[1]);
    assert(token_line(l2@) =~= typescript_tokens()[2]);
    assert(token_line(l3@) =~= typescript_tokens()[3]);
    assert(token_line(l4@) =~= typescript_tokens()[4]);
    assert(token_line(l5@) =~= typescript_tokens()[5]);
    vec![l0, l1, l2, l3, l4, l5]
}


// ── Filtering ──────────────────────────────────────────────────────

/// The Unicode lower case of a text (`str::to_lowercase`).
pub uninterp spec fn unicode_lowercase(s: Seq<char>) -> Seq<char>;

/// `str::to_lowercase`: the text in Unicode lower case.
#[verifier::external_body]
fn to_lowercase(s: &str) -> (r: String)
    ensures
        r@ == unicode_lowercase(s@),
{
    s.to_lowercase()
}

/// A label passes the filter when the filter is empty or the label, in lower case, contains
/// the filter in lower case.
pub open spec fn label_matches(label: Seq<char>, filter: Seq<char>) -> bool {
    filter.len() == 0 || unicode_lowercase(filter).len() == 0 || contains(
        unicode_lowercase(label),
        unicode_lowercase(filter),
    )
}

/// The positions among the first `n` themes whose labels pass the filter, in order.
pub open spec fn matching(themes: Seq<ThemeEntry>, filter: Seq<char>, n: int) -> Seq<usize>
    decreases n,
{
    if n <= 0 {
        seq![]
    } else if label_matches(themes[n - 1].label@, filter) {
        matching(themes, filter, n - 1).push((n - 1) as usize)
    } else {
        matching(themes, filter, n - 1)
    }
}

/// The matching positions are increasing and below `n`.
pub proof fn lemma_matching_bounds(themes: Seq<ThemeEntry>, filter: Seq<char>, n: int)
    requires
        0 <= n <= usize::MAX + 1,
    ensures
        matching(themes, filter, n).len() <= n,
        forall|k: int|
            0 <= k < matching(themes, filter, n).len() ==> #[trigger] matching(
                themes,
                filter,
                n,
            )[k] < n,
        forall|a: int, b: int|
            0 <= a < b < matching(themes, filter, n).len() ==> matching(themes, filter, n)[a]
                < matching(themes, filter, n)[b],
    decreases n,
{
    if n > 0 {
        lemma_matching_bounds(themes, filter, n - 1);
    }
}

/// Every theme position passes an empty filter.
pub proof fn lemma_matching_all(themes: Seq<ThemeEntry>, n: int)
    requires
        0 <= n <= usize::MAX + 1,
    ensures
        matching(themes, Seq::<char>::empty(), n).len() == n,
        forall|k: int| 0 <= k < n ==> #[trigger] matching(themes, Seq::<char>::empty(), n)[k] == k,
    decreases n,
{
    if n > 0 {
        lemma_matching_all(themes, n - 1);
    }
}

/// How many themes carry the label `l`.
pub open spec fn label_count(themes: Seq<ThemeEntry>, l: Seq<char>) -> nat
    decreases themes.len(),
{
    if themes.len() == 0 {
        0
    } else {
        label_count(themes.drop_last(), l) + if themes.last().label@ == l {
            1nat
        } else {
            0nat
        }
    }
}

/// The label shown for a theme: its extension's name is added when another theme has the
/// same label.
pub open spec fn shown_label(themes: Seq<ThemeEntry>, t: ThemeEntry) -> Seq<char> {
    if label_count(themes, t.label@) >= 2 {
        t.label@ + " ("@ + t.extension_name@ + ")"@
    } else {
        t.label@
    }
}

/// Find theme labels that appear more than once (case-sensitive), each once.
pub fn duplicate_labels(themes: &Vec<ThemeEntry>) -> (dupes: Vec<String>)
    ensures
        forall|l: Seq<char>|
            strings_view(dupes@).contains(l) <==> label_count(themes@, l) >= 2,
{
    let mut dupes: Vec<String> = Vec::new();
    let mut i: usize = 0;
    while i < themes.len()
        invariant
            i <= themes.len(),
            forall|l: Seq<char>|
                strings_view(dupes@).contains(l) <==> label_count(themes@.take(i as int), l)
                    >= 2,
        decreases themes.len() - i,
    {
        let ghost prefix = themes@.take(i as int);
        let ghost next = themes@.take(i + 1);
        let ghost li = themes@[i as int].label@;
        let ghost before = strings_view(dupes@);
        assert(next.drop_last() =~= prefix);
        assert(next.last() == themes@[i as int]);
        // Whether this label occurred before.
        let mut seen = false;
        let mut j: usize = 0;
        while j < i
            invariant
                j <= i < themes.len(),
                seen == (label_count(themes@.take(j as int), themes@[i as int].label@) >= 1),
            decreases i - j,
        {
            assert(themes@.take(j + 1).drop_last() =~= themes@.take(j as int));
            if themes[j].label == themes[i].label {
                seen = true;
            }
            j += 1;
        }
        let already = listed(&dupes, &themes[i].label);
        if seen && !already {
            dupes.push(themes[i].label.clone());
            assert(strings_view(dupes@) =~= before.push(li));
        }
        proof {
            assert forall|l: Seq<char>|
                strings_view(dupes@).contains(l) <==> label_count(next, l) >= 2 by {
                assert(label_count(next, l) == label_count(prefix, l) + if li == l {
                    1nat
                } else {
                    0nat
                });
                if seen && !already {
                    if l == li {
                        assert(strings_view(dupes@)[before.len() as int] == l);
                    } else {
                        if strings_view(dupes@).contains(l) {
                            let k = choose|k: int|
                                0 <= k < strings_view(dupes@).len() && strings_view(dupes@)[k]
                                    == l;
                            assert(k < before.len());
                            assert(before[k] == l);
                        }
                        if before.contains(l) {
                            let k = choose|k: int| 0 <= k < before.len() && before[k] == l;
                            assert(strings_view(dupes@)[k] == l);
                        }
                    }
                }
            }
        }
        i += 1;
    }
    assert(themes@.take(themes.len() as int) =~= themes@);
    dupes
}

/// Whether `l` is one of `names`.
pub(crate) fn listed(names: &Vec<String>, l: &String) -> (b: bool)
    ensures
        b == strings_view(names@).contains(l@),
{
    let mut k: usize = 0;
    while k < names.len()
        invariant
            k <= names.len(),
            !strings_view(names@).take(k as int).contains(l@),
        decreases names.len() - k,
    {
        if names[k] == *l {
            assert(strings_view(names@)[k as int] == l@);
            return true;
        }
        assert(strings_view(names@).take(k + 1) =~= strings_view(names@).take(k as int).push(
            names@[k as int]@,
        ));
        k += 1;
    }
    assert(strings_view(names@).take(names.len() as int) =~= strings_view(names@));
    false
}

// ── The theme list ─────────────────────────────────────────────────

/// The state of the theme picker: all themes, the filter, the themes it lets through and the
/// selection among them.
pub struct PreviewApp {
    all_themes: Vec<ThemeEntry>,
    active_id: Option<String>,
    target: Target,
    selected: usize,
    filter: String,
    filtered_indices: Vec<usize>,
    saved_slugs: Vec<String>,
}

impl PreviewApp {
    /// All themes, in list order.
    pub closed spec fn entries(&self) -> Seq<ThemeEntry> {
        self.all_themes@
    }

    /// The selected row among the shown themes.
    pub closed spec fn cursor(&self) -> int {
        self.selected as int
    }

    /// The filter text typed so far.
    pub closed spec fn filter_text(&self) -> Seq<char> {
        self.filter@
    }

    /// The positions (in `entries`) of the themes the filter lets through, in order.
    pub closed spec fn shown(&self) -> Seq<usize> {
        self.filtered_indices@
    }

    /// The slugs of the themes already saved.
    pub closed spec fn saved(&self) -> Seq<Seq<char>> {
        strings_view(self.saved_slugs@)
    }

    /// The settings id of the editor's active theme.
    pub closed spec fn active(&self) -> Option<Seq<char>> {
        match self.active_id {
            Some(s) => Some(s@),
            None => None,
        }
    }

    /// The app the preview is drawn for.
    pub closed spec fn target_app(&self) -> Target {
        self.target
    }

    /// The shown themes are exactly those passing the filter, and the selection lies among
    /// them (at 0 when none is shown).
    pub open spec fn wf(&self) -> bool {
        &&& self.shown() == matching(self.entries(), self.filter_text(), self.entries().len() as int)
        &&& (self.shown().len() == 0 ==> self.cursor() == 0)
        &&& (self.shown().len() > 0 ==> 0 <= self.cursor() < self.shown().len())
    }

    /// Two states that differ at most in the selection.
    pub open spec fn same_list(&self, other: &PreviewApp) -> bool {
        &&& self.entries() == other.entries()
        &&& self.filter_text() == other.filter_text()
        &&& self.shown() == other.shown()
        &&& self.saved() == other.saved()
        &&& self.active() == other.active()
        &&& self.target_app() == other.target_app()
    }

    /// The theme at a shown row.
    pub open spec fn shown_entry(&self, k: int) -> ThemeEntry {
        self.entries()[self.shown()[k] as int]
    }

    proof fn lemma_wf(&self)
        requires
            self.wf(),
        ensures
            forall|k: int|
                0 <= k < self.shown().len() ==> #[trigger] self.shown()[k] < self.entries().len(),
            forall|k: int|
                0 <= k < self.filtered_indices@.len() ==> #[trigger] self.filtered_indices@[k]
                    < self.all_themes@.len(),
            self.shown().len() <= self.entries().len(),
    {
        assert(self.all_themes.len() == self.all_themes@.len());
        lemma_matching_bounds(self.entries(), self.filter_text(), self.entries().len() as int);
    }

    pub fn new(
        themes: Vec<ThemeEntry>,
        active_id: Option<String>,
        target: Target,
        saved_slugs: Vec<String>,
    ) -> (app: Self)
        ensures
            app.wf(),
            app.entries() == themes@,
            app.cursor() == 0,
            app.filter_text() == Seq::<char>::empty(),
            app.shown().len() == themes@.len(),
            forall|k: int| 0 <= k < themes@.len() ==> #[trigger] app.shown()[k] == k,
            app.saved() == strings_view(saved_slugs@),
            app.active() == (match active_id {
                Some(s) => Some(s@),
                None => None::<Seq<char>>,
            }),
            app.target_app() == target,
    {
        let mut filtered_indices: Vec<usize> = Vec::new();
        let mut i: usize = 0;
        while i < themes.len()
            invariant
                i <= themes.len(),
                filtered_indices@ == matching(themes@, Seq::<char>::empty(), i as int),
            decreases themes.len() - i,
        {
            filtered_indices.push(i);
            i += 1;
        }
        proof {
            lemma_matching_all(themes@, themes@.len() as int);
        }
        PreviewApp {
            all_themes: themes,
            active_id,
            target,
            selected: 0,
            filter: String::new(),
            filtered_indices,
            saved_slugs,
        }
    }

    pub fn selected_index(&self) -> (i: usize)
        ensures
            i == self.cursor(),
    {
        self.selected
    }

    pub fn filter(&self) -> (f: &str)
        ensures
            f@ == self.filter_text(),
    {
        self.filter.as_str()
    }

    pub fn target(&self) -> (t: Target)
        ensures
            t == self.target_app(),
    {
        self.target
    }

    pub fn active_id(&self) -> (a: Option<&str>)
        ensures
            match a {
                Some(s) => self.active() == Some(s@),
                None => self.active() is None,
            },
    {
        match &self.active_id {
            Some(s) => Some(s.as_str()),
            None => None,
        }
    }

    /// Get filtered theme labels (appends extension name for duplicates).
    pub fn filtered_labels(&self) -> (labels: Vec<String>)
        requires
            self.wf(),
        ensures
            labels@.len() == self.shown().len(),
            forall|k: int|
                0 <= k < labels@.len() ==> #[trigger] labels@[k]@ == shown_label(
                    self.entries(),
                    self.shown_entry(k),
                ),
    {
        proof {
            self.lemma_wf();
        }
        let dupes = duplicate_labels(&self.all_themes);
        let mut labels: Vec<String> = Vec::new();
        let mut k: usize = 0;
        while k < self.filtered_indices.len()
            invariant
                self.wf(),
                k <= self.filtered_indices.len(),
                labels@.len() == k,
                forall|j: int|
                    0 <= j < self.filtered_indices@.len() ==> #[trigger] self.filtered_indices@[j]
                        < self.all_themes@.len(),
                forall|l: Seq<char>|
                    strings_view(dupes@).contains(l) <==> label_count(self.entries(), l) >= 2,
                forall|j: int|
                    0 <= j < k ==> #[trigger] labels@[j]@ == shown_label(
                        self.entries(),
                        self.shown_entry(j),
                    ),
            decreases self.filtered_indices.len() - k,
        {
            let t = &self.all_themes[self.filtered_indices[k]];
            let text = if listed(&dupes, &t.label) {
                let mut s = t.label.clone();
                s.append(" (");
                s.append(t.extension_name.as_str());
                s.append(")");
                s
            } else {
                t.label.clone()
            };
            labels.push(text);
            k += 1;
        }
        labels
    }

    /// Get filtered theme settings IDs.
    pub fn filtered_settings_ids(&self) -> (ids: Vec<String>)
        requires
            self.wf(),
        ensures
            ids@.len() == self.shown().len(),
            forall|k: int|
                0 <= k < ids@.len() ==> #[trigger] ids@[k]@ == self.shown_entry(k).settings_id@,
    {
        proof {
            self.lemma_wf();
        }
        let mut ids: Vec<String> = Vec::new();
        let mut k: usize = 0;
        while k < self.filtered_indices.len()
            invariant
                k <= self.filtered_indices.len(),
                ids@.len() == k,
                forall|j: int|
                    0 <= j < self.filtered_indices@.len() ==> #[trigger] self.filtered_indices@[j]
                        < self.all_themes@.len(),
                forall|j: int|
                    0 <= j < k ==> #[trigger] ids@[j]@ == self.shown_entry(j).settings_id@,
            decreases self.filtered_indices.len() - k,
        {
            ids.push(self.all_themes[self.filtered_indices[k]].settings_id.clone());
            k += 1;
        }
        ids
    }

    /// Get saved flags for filtered themes (true if the theme's slug is among the saved ones).
    pub fn filtered_saved_flags(&self) -> (flags: Vec<bool>)
        requires
            self.wf(),
        ensures
            flags@.len() == self.shown().len(),
            forall|k: int|
                0 <= k < flags@.len() ==> #[trigger] flags@[k] == self.saved().contains(
                    slug_of(self.shown_entry(k).label@),
                ),
    {
        proof {
            self.lemma_wf();
        }
        let mut flags: Vec<bool> = Vec::new();
        let mut k: usize = 0;
        while k < self.filtered_indices.len()
            invariant
                k <= self.filtered_indices.len(),
                flags@.len() == k,
                forall|j: int|
                    0 <= j < self.filtered_indices@.len() ==> #[trigger] self.filtered_indices@[j]
                        < self.all_themes@.len(),
                forall|j: int|
                    0 <= j < k ==> #[trigger] flags@[j] == self.saved().contains(
                        slug_of(self.shown_entry(j).label@),
                    ),
            decreases self.filtered_indices.len() - k,
        {
            let slug = theme_slug(self.all_themes[self.filtered_indices[k]].label.as_str());
            flags.push(listed(&self.saved_slugs, &slug));
            k += 1;
        }
        flags
    }

    /// The theme on the selected row, if any row is shown.
    pub fn select(&self) -> (r: Option<ThemeEntry>)
        requires
            self.wf(),
        ensures
            r == (if self.shown().len() > 0 {
                Some(self.shown_entry(self.cursor()))
            } else {
                None::<ThemeEntry>
            }),
    {
        proof {
            self.lemma_wf();
        }
        if self.selected < self.filtered_indices.len() {
            Some(self.all_themes[self.filtered_indices[self.selected]].clone())
        } else {
            None
        }
    }

    pub fn move_up(&mut self)
        requires
            old(self).wf(),
        ensures
            final(self).wf(),
            final(self).same_list(&*old(self)),
            final(self).cursor() == if old(self).cursor() > 0 {
                old(self).cursor() - 1
            } else {
                old(self).cursor()
            },
    {
        if self.selected > 0 {
            self.selected -= 1;
        }
    }

    pub fn move_down(&mut self)
        requires
            old(self).wf(),
        ensures
            final(self).wf(),
            final(self).same_list(&*old(self)),
            final(self).cursor() == if old(self).cursor() + 1 < old(self).shown().len() {
                old(self).cursor() + 1
            } else {
                old(self).cursor()
            },
    {
        if !self.filtered_indices.is_empty() && self.selected < self.filtered_indices.len() - 1 {
            self.selected += 1;
        }
    }

    pub fn move_page_up(&mut self)
        requires
            old(self).wf(),
        ensures
            final(self).wf(),
            final(self).same_list(&*old(self)),
            final(self).cursor() == if old(self).cursor() >= PAGE_SIZE {
                old(self).cursor() - PAGE_SIZE
            } else {
                0
            },
    {
        self.selected = self.selected.saturating_sub(PAGE_SIZE);
    }

    pub fn move_page_down(&mut self)
        requires
            old(self).wf(),
        ensures
            final(self).wf(),
            final(self).same_list(&*old(self)),
            final(self).cursor() == if old(self).shown().len() == 0 {
                old(self).cursor()
            } else if old(self).cursor() + PAGE_SIZE < old(self).shown().len() {
                old(self).cursor() + PAGE_SIZE
            } else {
                old(self).shown().len() - 1
            },
    {
        if !self.filtered_indices.is_empty() {
            let last = self.filtered_indices.len() - 1;
            if last - self.selected > PAGE_SIZE {
                self.selected = self.selected + PAGE_SIZE;
            } else {
                self.selected = last;
            }
        }
    }

    pub fn move_to_top(&mut self)
        requires
            old(self).wf(),
        ensures
            final(self).wf(),
            final(self).same_list(&*old(self)),
            final(self).cursor() == 0,
    {
        self.selected = 0;
    }

    pub fn move_to_bottom(&mut self)
        requires
            old(self).wf(),
        ensures
            final(self).wf(),
            final(self).same_list(&*old(self)),
            final(self).cursor() == if old(self).shown().len() == 0 {
                old(self).cursor()
            } else {
                old(self).shown().len() - 1
            },
    {
        if !self.filtered_indices.is_empty() {
            self.selected = self.filtered_indices.len() - 1;
        }
    }

    /// Recomputes the shown themes for the current filter and keeps the selection in range.
    fn update_filter(&mut self)
        requires
            old(self).cursor() >= 0,
        ensures
            final(self).wf(),
            final(self).entries() == old(self).entries(),
            final(self).filter_text() == old(self).filter_text(),
            final(self).saved() == old(self).saved(),
            final(self).active() == old(self).active(),
            final(self).target_app() == old(self).target_app(),
            final(self).cursor() == if final(self).shown().len() == 0 {
                0
            } else if old(self).cursor() < final(self).shown().len() {
                old(self).cursor()
            } else {
                final(self).shown().len() - 1
            },
    {
        let lower_filter = to_lowercase(self.filter.as_str());
        let lf = chars_of(lower_filter.as_str());
        let raw_empty = self.filter.as_str().is_empty();
        let mut idx: Vec<usize> = Vec::new();
        let mut i: usize = 0;
        while i < self.all_themes.len()
            invariant
                i <= self.all_themes.len(),
                lf@ == unicode_lowercase(self.filter@),
                raw_empty == (self.filter@.len() == 0),
                idx@ == matching(self.all_themes@, self.filter@, i as int),
            decreases self.all_themes.len() - i,
        {
            let passes = if raw_empty || lf.len() == 0 {
                true
            } else {
                let lower_label = to_lowercase(self.all_themes[i].label.as_str());
                chars_contains(&chars_of(lower_label.as_str()), &lf)
            };
            if passes {
                idx.push(i);
            }
            i += 1;
        }
        self.filtered_indices = idx;
        if self.filtered_indices.is_empty() {
            self.selected = 0;
        } else if self.selected >= self.filtered_indices.len() {
            self.selected = self.filtered_indices.len() - 1;
        }
    }

    pub fn add_filter_char(&mut self, c: char)
        requires
            old(self).wf(),
        ensures
            final(self).wf(),
            final(self).filter_text() == old(self).filter_text().push(c),
            final(self).entries() == old(self).entries(),
            final(self).saved() == old(self).saved(),
            final(self).active() == old(self).active(),
            final(self).target_app() == old(self).target_app(),
            final(self).cursor() == if final(self).shown().len() == 0 {
                0
            } else if old(self).cursor() < final(self).shown().len() {
                old(self).cursor()
            } else {
                final(self).shown().len() - 1
            },
    {
        crate::text::push_char(&mut self.filter, c);
        self.update_filter();
    }

    pub fn delete_filter_char(&mut self)
        requires
            old(self).wf(),
        ensures
            final(self).wf(),
            final(self).filter_text() == if old(self).filter_text().len() > 0 {
                old(self).filter_text().drop_last()
            } else {
                old(self).filter_text()
            },
            final(self).entries() == old(self).entries(),
            final(self).saved() == old(self).saved(),
            final(self).active() == old(self).active(),
            final(self).target_app() == old(self).target_app(),
            final(self).cursor() == if final(self).shown().len() == 0 {
                0
            } else if old(self).cursor() < final(self).shown().len() {
                old(self).cursor()
            } else {
                final(self).shown().len() - 1
            },
    {
        let chars = chars_of(self.filter.as_str());
        if chars.len() > 0 {
            let mut kept: Vec<char> = Vec::new();
            let mut i: usize = 0;
            while i + 1 < chars.len()
                invariant
                    chars.len() > 0,
                    i + 1 <= chars.len(),
                    kept@ == chars@.take(i as int),
                decreases chars.len() - i,
            {
                kept.push(chars[i]);
                i += 1;
            }
            assert(kept@ =~= chars@.drop_last());
            self.filter = string_from_chars(&kept);
        }
        self.update_filter();
    }

    pub fn clear_filter(&mut self)
        requires
            old(self).wf(),
        ensures
            final(self).wf(),
            final(self).filter_text() == Seq::<char>::empty(),
            final(self).entries() == old(self).entries(),
            final(self).shown().len() == old(self).entries().len(),
            forall|k: int|
                0 <= k < old(self).entries().len() ==> #[trigger] final(self).shown()[k] == k,
            final(self).saved() == old(self).saved(),
            final(self).active() == old(self).active(),
            final(self).target_app() == old(self).target_app(),
            final(self).cursor() == if final(self).shown().len() == 0 {
                0
            } else if old(self).cursor() < final(self).shown().len() {
                old(self).cursor()
            } else {
                final(self).shown().len() - 1
            },
    {
        self.filter = String::new();
        self.update_filter();
        proof {
            assert(self.all_themes.len() == self.all_themes@.len());
            lemma_matching_all(self.all_themes@, self.all_themes@.len() as int);
        }
    }
}

/// Typing a character into the filter and erasing it again shows the same themes as before:
/// `before` is any state, `typed` a state that `add_filter_char(c)` leaves behind it, and
/// `erased` one that `delete_filter_char` leaves behind `typed`.
pub proof fn law_type_then_erase(before: PreviewApp, typed: PreviewApp, erased: PreviewApp, c: char)
    requires
        before.wf(),
        typed.wf(),
        erased.wf(),
        typed.filter_text() == before.filter_text().push(c),
        typed.entries() == before.entries(),
        erased.filter_text() == (if typed.filter_text().len() > 0 {
            typed.filter_text().drop_last()
        } else {
            typed.filter_text()
        }),
        erased.entries() == typed.entries(),
    ensures
        erased.filter_text() == before.filter_text(),
        erased.shown() == before.shown(),
{
    assert(before.filter_text().push(c).drop_last() =~= before.filter_text());
}


// ── Keys ───────────────────────────────────────────────────────────

/// A key press as the pickers see it (releases are dropped before this point).
#[derive(Debug, Clone, Copy, PartialEq, Eq, Structural)]
pub enum Key {
    Up,
    Down,
    PageUp,
    PageDown,
    Home,
    End,
    Enter,
    Esc,
    Backspace,
    Char(char),
    /// Ctrl+C
    Interrupt,
    Other,
}

/// What a picker does after a key: keep going, give up, or hand back a choice.
pub enum PickOutcome<T> {
    Continue,
    Cancel,
    Choose(T),
}

/// The shown rows after the filter changed: the selection stays where it was when it is
/// still in range, else moves to the last row (or 0 when nothing is shown).
pub open spec fn clamped(old_cursor: int, shown_len: int) -> int {
    if shown_len == 0 {
        0
    } else if old_cursor < shown_len {
        old_cursor
    } else {
        shown_len - 1
    }
}

/// One key in the theme picker with live preview.
pub fn theme_picker_key(app: &mut PreviewApp, key: Key) -> (r: PickOutcome<ThemeEntry>)
    requires
        old(app).wf(),
    ensures
        final(app).wf(),
        match key {
            Key::Interrupt => r is Cancel && *final(app) == *old(app),
            Key::Up => r is Continue && final(app).same_list(&*old(app)) && final(app).cursor() == (
            if old(app).cursor() > 0 {
                old(app).cursor() - 1
            } else {
                old(app).cursor()
            }),
            Key::Down => r is Continue && final(app).same_list(&*old(app)) && final(app).cursor()
                == (if old(app).cursor() + 1 < old(app).shown().len() {
                old(app).cursor() + 1
            } else {
                old(app).cursor()
            }),
            Key::Enter => *final(app) == *old(app) && if old(app).shown().len() > 0 {
                r == PickOutcome::Choose(old(app).shown_entry(old(app).cursor()))
            } else {
                r is Continue
            },
            Key::Esc => if old(app).filter_text().len() > 0 {
                &&& r is Continue
                &&& final(app).filter_text() == Seq::<char>::empty()
                &&& final(app).entries() == old(app).entries()
                &&& final(app).shown().len() == old(app).entries().len()
                &&& final(app).cursor() == clamped(old(app).cursor(), final(app).shown().len() as int)
            } else {
                r is Cancel && *final(app) == *old(app)
            },
            Key::Backspace => {
                &&& r is Continue
                &&& final(app).filter_text() == if old(app).filter_text().len() > 0 {
                    old(app).filter_text().drop_last()
                } else {
                    old(app).filter_text()
                }
                &&& final(app).entries() == old(app).entries()
                &&& final(app).cursor() == clamped(old(app).cursor(), final(app).shown().len() as int)
            },
            Key::Char(c) => if c == 'q' && old(app).filter_text().len() == 0 {
                r is Cancel && *final(app) == *old(app)
            } else {
                &&& r is Continue
                &&& final(app).filter_text() == old(app).filter_text().push(c)
                &&& final(app).entries() == old(app).entries()
                &&& final(app).cursor() == clamped(old(app).cursor(), final(app).shown().len() as int)
            },
            _ => r is Continue && *final(app) == *old(app),
        },
{
    match key {
        Key::Interrupt => PickOutcome::Cancel,
        Key::Up => {
            app.move_up();
            PickOutcome::Continue
        },
        Key::Down => {
            app.move_down();
            PickOutcome::Continue
        },
        Key::Enter => match app.select() {
            Some(entry) => PickOutcome::Choose(entry),
            None => PickOutcome::Continue,
        },
        Key::Esc => {
            if !app.filter().is_empty() {
                app.clear_filter();
                PickOutcome::Continue
            } else {
                PickOutcome::Cancel
            }
        },
        Key::Backspace => {
            app.delete_filter_char();
            PickOutcome::Continue
        },
        Key::Char(c) => {
            if c == 'q' && app.filter().is_empty() {
                PickOutcome::Cancel
            } else {
                app.add_filter_char(c);
                PickOutcome::Continue
            }
        },
        _ => PickOutcome::Continue,
    }
}

// ── The list pane ──────────────────────────────────────────────────

/// The first row drawn so that the selection sits mid-pane where the list allows.
pub open spec fn offset_for(selected: int, len: int, visible: int) -> int {
    let want = if selected >= visible / 2 {
        selected - visible / 2
    } else {
        0
    };
    let max_offset = if len >= visible {
        len - visible
    } else {
        0
    };
    if want < max_offset {
        want
    } else {
        max_offset
    }
}

/// The first row drawn so that the selection sits mid-pane where the list allows.
pub fn scroll_offset(selected: usize, len: usize, visible: usize) -> (o: usize)
    ensures
        o == offset_for(selected as int, len as int, visible as int),
{
    let want = selected.saturating_sub(visible / 2);
    let max_offset = len.saturating_sub(visible);
    if want < max_offset {
        want
    } else {
        max_offset
    }
}

/// The title of the theme list: the filter is shown in brackets once typed.
pub open spec fn list_title(filter: Seq<char>) -> Seq<char> {
    if filter.len() == 0 {
        " Select Theme "@
    } else {
        " Select Theme ["@ + filter + "] "@
    }
}

/// The title of the theme list.
pub fn theme_list_title(filter: &str) -> (t: String)
    ensures
        t@ == list_title(filter@),
{
    if filter.is_empty() {
        String::from_str(" Select Theme ")
    } else {
        let mut t = String::from_str(" Select Theme [");
        t.append(filter);
        t.append("] ");
        t
    }
}

/// One row of the theme list: markers for the active and saved themes, and the cursor.
pub open spec fn row_text(label: Seq<char>, active: bool, saved: bool, selected: bool) -> Seq<
    char,
> {
    let shown = label + (if active {
        " [active]"@
    } else {
        ""@
    }) + (if saved {
        " (saved)"@
    } else {
        ""@
    });
    (if selected {
        " > "@
    } else {
        "   "@
    }) + shown
}

/// Whether row `i` is the editor's active theme.
pub open spec fn row_active(active_id: Option<Seq<char>>, settings_ids: Seq<Seq<char>>, i: int) -> bool {
    match active_id {
        Some(id) => 0 <= i < settings_ids.len() && settings_ids[i] == id,
        None => false,
    }
}

/// One row of the theme list.
pub fn theme_row_text(
    labels: &Vec<String>,
    i: usize,
    selected: usize,
    active_id: Option<&str>,
    settings_ids: &Vec<String>,
    saved_flags: &Vec<bool>,
) -> (t: String)
    requires
        i < labels.len(),
    ensures
        t@ == row_text(
            labels@[i as int]@,
            row_active(
                match active_id {
                    Some(a) => Some(a@),
                    None => None::<Seq<char>>,
                },
                strings_view(settings_ids@),
                i as int,
            ),
            i < saved_flags.len() && saved_flags@[i as int],
            i == selected,
        ),
{
    let is_active = match active_id {
        Some(id) => i < settings_ids.len() && crate::ir::str_eq(settings_ids[i].as_str(), id),
        None => false,
    };
    let is_saved = i < saved_flags.len() && saved_flags[i];
    let mut t = if i == selected {
        String::from_str(" > ")
    } else {
        String::from_str("   ")
    };
    t.append(labels[i].as_str());
    if is_active {
        t.append(" [active]");
    }
    if is_saved {
        t.append(" (saved)");
    }
    proof {
        reveal_strlit("");
        let label = labels@[i as int]@;
        assert(label + ""@ =~= label);
        assert(label + " [active]"@ + ""@ =~= label + " [active]"@);
        assert(label + ""@ + " (saved)"@ =~= label + " (saved)"@);
        assert(label + ""@ + ""@ =~= label);
    }
    t
}


// ── Picking a saved theme ──────────────────────────────────────────

/// The list label of a saved theme: its name, its type, and the date it was made if known.
pub open spec fn ir_label(ir: ThemeIR) -> Seq<char> {
    let tag = match ir.theme_type {
        ThemeType::Dark => "Dark"@,
        ThemeType::Light => "Light"@,
    };
    match ir.created_at {
        Some(date) => ir.name@ + " ["@ + tag + "] "@ + date@,
        None => ir.name@ + " ["@ + tag + "]"@,
    }
}

/// The list label of a saved theme.
pub fn build_label(ir: &ThemeIR) -> (l: String)
    ensures
        l@ == ir_label(*ir),
{
    let type_tag = match ir.theme_type {
        ThemeType::Dark => "Dark",
        ThemeType::Light => "Light",
    };
    let mut l = ir.name.clone();
    l.append(" [");
    l.append(type_tag);
    match &ir.created_at {
        Some(date) => {
            l.append("] ");
            l.append(date.as_str());
        },
        None => {
            l.append("]");
        },
    }
    l
}

/// A saved theme passes the filter when the filter is empty or its name, in lower case,
/// contains the filter in lower case.
pub open spec fn ir_matches(name: Seq<char>, filter: Seq<char>) -> bool {
    filter.len() == 0 || contains(unicode_lowercase(name), unicode_lowercase(filter))
}

/// The positions and labels of the first `n` saved themes that pass the filter.
pub open spec fn ir_matching(themes: Seq<ThemeIR>, filter: Seq<char>, n: int) -> Seq<
    (usize, Seq<char>),
>
    decreases n,
{
    if n <= 0 {
        seq![]
    } else if ir_matches(themes[n - 1].name@, filter) {
        ir_matching(themes, filter, n - 1).push(((n - 1) as usize, ir_label(themes[n - 1])))
    } else {
        ir_matching(themes, filter, n - 1)
    }
}

/// The view of a filtered list of (position, label) rows.
pub open spec fn rows_view(rows: Seq<(usize, String)>) -> Seq<(usize, Seq<char>)> {
    rows.map_values(|r: (usize, String)| (r.0, r.1@))
}

/// The saved themes that pass the filter, as (position, label) rows.
pub fn compute_filtered(themes: &Vec<ThemeIR>, filter: &str) -> (rows: Vec<(usize, String)>)
    ensures
        rows_view(rows@) == ir_matching(themes@, filter@, themes@.len() as int),
{
    let filter_lower = to_lowercase(filter);
    let lf = chars_of(filter_lower.as_str());
    let mut rows: Vec<(usize, String)> = Vec::new();
    let mut i: usize = 0;
    while i < themes.len()
        invariant
            i <= themes.len(),
            lf@ == unicode_lowercase(filter@),
            rows_view(rows@) == ir_matching(themes@, filter@, i as int),
        decreases themes.len() - i,
    {
        let passes = if filter.is_empty() {
            true
        } else {
            let lower_name = to_lowercase(themes[i].name.as_str());
            chars_contains(&chars_of(lower_name.as_str()), &lf)
        };
        if passes {
            let ghost before = rows@;
            rows.push((i, build_label(&themes[i])));
            assert(rows_view(rows@) =~= rows_view(before).push((i, ir_label(themes@[i as int]))));
        }
        i += 1;
    }
    rows
}

/// The state of the saved-theme picker: the selection, the filter and the rows it lets
/// through.
pub struct IrPicker {
    selected: usize,
    filter: String,
    filtered: Vec<(usize, String)>,
}

impl IrPicker {
    /// The selected row.
    pub closed spec fn cursor(&self) -> int {
        self.selected as int
    }

    /// The filter text typed so far.
    pub closed spec fn filter_text(&self) -> Seq<char> {
        self.filter@
    }

    /// The rows shown, as (position, label).
    pub closed spec fn rows(&self) -> Seq<(usize, Seq<char>)> {
        rows_view(self.filtered@)
    }

    /// The rows are those of `themes` that pass the filter.
    pub open spec fn lists(&self, themes: Seq<ThemeIR>) -> bool {
        self.rows() == ir_matching(themes, self.filter_text(), themes.len() as int)
    }

    /// The selection lies on a row (or at 0 when no row is shown).
    pub open spec fn in_range(&self) -> bool {
        self.cursor() == 0 || self.cursor() < self.rows().len()
    }

    pub fn new(themes: &Vec<ThemeIR>) -> (p: Self)
        ensures
            p.lists(themes@),
            p.cursor() == 0,
            p.filter_text() == Seq::<char>::empty(),
    {
        let filter = String::new();
        let filtered = compute_filtered(themes, filter.as_str());
        IrPicker { selected: 0, filter, filtered }
    }

    pub fn selected_index(&self) -> (i: usize)
        ensures
            i == self.cursor(),
    {
        self.selected
    }

    pub fn filter(&self) -> (f: &str)
        ensures
            f@ == self.filter_text(),
    {
        self.filter.as_str()
    }

    /// The rows shown.
    pub fn filtered(&self) -> (rows: &Vec<(usize, String)>)
        ensures
            rows_view(rows@) == self.rows(),
    {
        &self.filtered
    }

    /// Before each frame: a selection past the last row moves to the last row.
    pub fn clamp(&mut self)
        ensures
            final(self).in_range(),
            final(self).rows() == old(self).rows(),
            final(self).filter_text() == old(self).filter_text(),
            final(self).cursor() == if old(self).cursor() < old(self).rows().len() {
                old(self).cursor()
            } else if old(self).rows().len() == 0 {
                0
            } else {
                old(self).rows().len() - 1
            },
    {
        if self.selected >= self.filtered.len() {
            self.selected = self.filtered.len().saturating_sub(1);
        }
    }

    /// Recomputes the rows after the filter changed.
    fn refilter(&mut self, themes: &Vec<ThemeIR>)
        ensures
            final(self).lists(themes@),
            final(self).filter_text() == old(self).filter_text(),
            final(self).cursor() == old(self).cursor(),
    {
        self.filtered = compute_filtered(themes, self.filter.as_str());
    }

    /// One key in the saved-theme picker.
    pub fn key(&mut self, themes: &Vec<ThemeIR>, key: Key) -> (r: PickOutcome<usize>)
        requires
            old(self).lists(themes@),
            old(self).in_range(),
        ensures
            final(self).lists(themes@),
            match key {
                Key::Interrupt => r is Cancel && *final(self) == *old(self),
                Key::Up => r is Continue && final(self).rows() == old(self).rows()
                    && final(self).cursor() == if old(self).cursor() > 0 {
                    old(self).cursor() - 1
                } else {
                    0
                },
                Key::Down => r is Continue && final(self).rows() == old(self).rows()
                    && final(self).cursor() == if old(self).cursor() + 1 < old(self).rows().len() {
                    old(self).cursor() + 1
                } else {
                    old(self).cursor()
                },
                Key::PageUp => r is Continue && final(self).rows() == old(self).rows()
                    && final(self).cursor() == if old(self).cursor() >= PAGE_SIZE {
                    old(self).cursor() - PAGE_SIZE
                } else {
                    0
                },
                Key::PageDown => r is Continue && final(self).rows() == old(self).rows()
                    && final(self).cursor() == if old(self).rows().len() == 0 {
                    old(self).cursor()
                } else if old(self).cursor() + PAGE_SIZE < old(self).rows().len() {
                    old(self).cursor() + PAGE_SIZE
                } else {
                    old(self).rows().len() - 1
                },
                Key::Home => r is Continue && final(self).rows() == old(self).rows()
                    && final(self).cursor() == 0,
                Key::End => r is Continue && final(self).rows() == old(self).rows()
                    && final(self).cursor() == if old(self).rows().len() > 0 {
                    old(self).rows().len() - 1
                } else {
                    0
                },
                Key::Enter => *final(self) == *old(self) && if old(self).cursor()
                    < old(self).rows().len() {
                    r == PickOutcome::Choose(old(self).rows()[old(self).cursor()].0)
                } else {
                    r is Continue
                },
                Key::Esc => if old(self).filter_text().len() > 0 {
                    r is Continue && final(self).filter_text() == Seq::<char>::empty()
                        && final(self).cursor() == 0
                } else {
                    r is Cancel && *final(self) == *old(self)
                },
                Key::Backspace => r is Continue && final(self).cursor() == old(self).cursor()
                    && final(self).filter_text() == if old(self).filter_text().len() > 0 {
                    old(self).filter_text().drop_last()
                } else {
                    old(self).filter_text()
                },
                Key::Char(c) => if c == 'q' && old(self).filter_text().len() == 0 {
                    r is Cancel && *final(self) == *old(self)
                } else {
                    r is Continue && final(self).cursor() == old(self).cursor()
                        && final(self).filter_text() == old(self).filter_text().push(c)
                },
                Key::Other => r is Continue && *final(self) == *old(self),
            },
    {
        let len = self.filtered.len();
        match key {
            Key::Interrupt => PickOutcome::Cancel,
            Key::Up => {
                self.selected = self.selected.saturating_sub(1);
                PickOutcome::Continue
            },
            Key::Down => {
                if self.selected < len.saturating_sub(1) {
                    self.selected += 1;
                }
                PickOutcome::Continue
            },
            Key::PageUp => {
                self.selected = self.selected.saturating_sub(PAGE_SIZE);
                PickOutcome::Continue
            },
            Key::PageDown => {
                if len > 0 {
                    let last = len - 1;
                    if last - self.selected > PAGE_SIZE {
                        self.selected = self.selected + PAGE_SIZE;
                    } else {
                        self.selected = last;
                    }
                }
                PickOutcome::Continue
            },
            Key::Home => {
                self.selected = 0;
                PickOutcome::Continue
            },
            Key::End => {
                self.selected = len.saturating_sub(1);
                PickOutcome::Continue
            },
            Key::Enter => {
                if self.selected < len {
                    PickOutcome::Choose(self.filtered[self.selected].0)
                } else {
                    PickOutcome::Continue
                }
            },
            Key::Esc => {
                if !self.filter.as_str().is_empty() {
                    self.filter = String::new();
                    self.selected = 0;
                    self.refilter(themes);
                    PickOutcome::Continue
                } else {
                    PickOutcome::Cancel
                }
            },
            Key::Backspace => {
                let chars = chars_of(self.filter.as_str());
                if chars.len() > 0 {
                    let mut kept: Vec<char> = Vec::new();
                    let mut i: usize = 0;
                    while i + 1 < chars.len()
                        invariant
                            chars.len() > 0,
                            i + 1 <= chars.len(),
                            kept@ == chars@.take(i as int),
                        decreases chars.len() - i,
                    {
                        kept.push(chars[i]);
                        i += 1;
                    }
                    assert(kept@ =~= chars@.drop_last());
                    self.filter = string_from_chars(&kept);
                }
                self.refilter(themes);
                PickOutcome::Continue
            },
            Key::Char(c) => {
                if c == 'q' && self.filter.as_str().is_empty() {
                    PickOutcome::Cancel
                } else {
                    crate::text::push_char(&mut self.filter, c);
                    self.refilter(themes);
                    PickOutcome::Continue
                }
            },
            Key::Other => PickOutcome::Continue,
        }
    }
}


// ── List order ─────────────────────────────────────────────────────

/// Strict lexicographic order on texts, by code point (the order `String::cmp` gives, since
/// UTF-8 keeps code point order).
pub open spec fn chars_lt(a: Seq<char>, b: Seq<char>) -> bool
    decreases a.len(),
{
    if a.len() == 0 {
        b.len() > 0
    } else if b.len() == 0 {
        false
    } else if a[0] != b[0] {
        (a[0] as int) < (b[0] as int)
    } else {
        chars_lt(a.drop_first(), b.drop_first())
    }
}

/// `chars_lt` is a strict total order.
pub proof fn lemma_chars_lt_order(a: Seq<char>, b: Seq<char>, c: Seq<char>)
    ensures
        !chars_lt(a, a),
        chars_lt(a, b) ==> !chars_lt(b, a),
        chars_lt(a, b) && chars_lt(b, c) ==> chars_lt(a, c),
        !chars_lt(a, b) && !chars_lt(b, a) ==> a == b,
    decreases a.len(),
{
    if a.len() > 0 && b.len() > 0 && c.len() > 0 {
        lemma_chars_lt_order(a.drop_first(), b.drop_first(), c.drop_first());
    } else if a.len() > 0 && b.len() > 0 {
        lemma_chars_lt_order(a.drop_first(), b.drop_first(), a.drop_first());
    } else if a.len() > 0 {
        lemma_chars_lt_order(a.drop_first(), a.drop_first(), a.drop_first());
    }
    if a.len() > 0 && b.len() > 0 && a[0] == b[0] && !chars_lt(a, b) && !chars_lt(b, a) {
        assert(a =~= seq![a[0]] + a.drop_first());
        assert(b =~= seq![b[0]] + b.drop_first());
    }
    if a.len() == 0 && b.len() == 0 {
        assert(a =~= b);
    }
    if a.len() > 0 && b.len() > 0 {
        assert(a[0] != b[0] ==> (a[0] as int) != (b[0] as int));
    }
}

/// Whether `a` sorts strictly before `b` (code point order).
pub fn label_less(a: &str, b: &str) -> (r: bool)
    ensures
        r == chars_lt(a@, b@),
{
    let av = chars_of(a);
    let bv = chars_of(b);
    let mut i: usize = 0;
    assert(av@.skip(0) =~= av@);
    assert(bv@.skip(0) =~= bv@);
    while i < av.len() && i < bv.len()
        invariant
            i <= av.len(),
            i <= bv.len(),
            av@ == a@,
            bv@ == b@,
            chars_lt(av@, bv@) == chars_lt(av@.skip(i as int), bv@.skip(i as int)),
        decreases av.len() - i,
    {
        let ghost sa = av@.skip(i as int);
        let ghost sb = bv@.skip(i as int);
        assert(sa[0] == av@[i as int] && sb[0] == bv@[i as int]);
        if av[i] != bv[i] {
            let r = av[i] < bv[i];
            assert(sa[0] != sb[0]);
            return r;
        }
        assert(sa.drop_first() =~= av@.skip(i + 1));
        assert(sb.drop_first() =~= bv@.skip(i + 1));
        i += 1;
    }
    av.len() - i < bv.len() - i
}

/// Whether a theme is the editor's active one.
pub open spec fn is_active_entry(t: ThemeEntry, active: Option<Seq<char>>) -> bool {
    match active {
        Some(id) => t.settings_id@ == id,
        None => false,
    }
}

/// Whether `t` is listed strictly before `u`: the active theme first, then by label.
pub open spec fn listed_before(t: ThemeEntry, u: ThemeEntry, active: Option<Seq<char>>) -> bool {
    ||| is_active_entry(t, active) && !is_active_entry(u, active)
    ||| is_active_entry(t, active) == is_active_entry(u, active) && chars_lt(t.label@, u.label@)
}

/// Whether `t` and `u` sort alike (both active or neither, same label).
pub open spec fn listed_alike(t: ThemeEntry, u: ThemeEntry, active: Option<Seq<char>>) -> bool {
    is_active_entry(t, active) == is_active_entry(u, active) && t.label@ == u.label@
}

/// `order` lists positions `0..n` once each.
pub open spec fn is_permutation(order: Seq<usize>, n: int) -> bool {
    &&& order.len() == n
    &&& forall|k: int| 0 <= k < n ==> #[trigger] order[k] < n
    &&& forall|a: int, b: int| 0 <= a < b < n ==> order[a] != order[b]
}

/// `order` sorts `themes` (active first, then by label) and keeps themes that sort alike in
/// their original order.
pub open spec fn is_stable_sort(
    themes: Seq<ThemeEntry>,
    order: Seq<usize>,
    active: Option<Seq<char>>,
) -> bool {
    &&& is_permutation(order, themes.len() as int)
    &&& forall|a: int, b: int|
        0 <= a < b < order.len() ==> !listed_before(
            themes[order[b] as int],
            themes[order[a] as int],
            active,
        )
    &&& forall|a: int, b: int|
        0 <= a < b < order.len() && listed_alike(
            themes[order[a] as int],
            themes[order[b] as int],
            active,
        ) ==> order[a] < order[b]
}

proof fn lemma_before_order(t: ThemeEntry, u: ThemeEntry, v: ThemeEntry, active: Option<Seq<char>>)
    ensures
        !listed_before(t, t, active),
        listed_before(t, u, active) ==> !listed_before(u, t, active),
        listed_before(t, u, active) && listed_before(u, v, active) ==> listed_before(t, v, active),
        !listed_before(t, u, active) && !listed_before(u, t, active) ==> listed_alike(t, u, active),
        listed_alike(t, u, active) ==> (listed_before(t, v, active) == listed_before(u, v, active)),
{
    lemma_chars_lt_order(t.label@, u.label@, v.label@);
}

/// The order the theme picker lists themes in: the editor's active theme first, then by
/// label; themes that sort alike keep their original order. Returns positions in `themes`.
pub fn preview_order(themes: &Vec<ThemeEntry>, active_id: Option<&str>) -> (order: Vec<usize>)
    ensures
        is_stable_sort(
            themes@,
            order@,
            match active_id {
                Some(a) => Some(a@),
                None => None::<Seq<char>>,
            },
        ),
{
    let ghost active = match active_id {
        Some(a) => Some(a@),
        None => None::<Seq<char>>,
    };
    let mut order: Vec<usize> = Vec::new();
    let mut i: usize = 0;
    while i < themes.len()
        invariant
            i <= themes.len(),
            active == match active_id {
                Some(a) => Some(a@),
                None => None::<Seq<char>>,
            },
            is_stable_sort(themes@.take(i as int), order@, active),
            forall|k: int| 0 <= k < order@.len() ==> #[trigger] order@[k] < i,
        decreases themes.len() - i,
    {
        let ghost t = themes@[i as int];
        let i_active = match active_id {
            Some(a) => crate::ir::str_eq(themes[i].settings_id.as_str(), a),
            None => false,
        };
        assert(i_active == is_active_entry(t, active));
        // The first listed theme that the new one sorts strictly before.
        let mut p: usize = 0;
        while p < order.len()
            invariant
                i < themes.len(),
                p <= order.len(),
                forall|k: int| 0 <= k < order@.len() ==> #[trigger] order@[k] < i,
                i_active == is_active_entry(t, active),
                t == themes@[i as int],
                active == match active_id {
                    Some(a) => Some(a@),
                    None => None::<Seq<char>>,
                },
                forall|q: int|
                    0 <= q < p ==> !listed_before(t, #[trigger] themes@[order@[q] as int], active),
            ensures
                p <= order.len(),
                forall|q: int|
                    0 <= q < p ==> !listed_before(t, #[trigger] themes@[order@[q] as int], active),
                p < order.len() ==> listed_before(t, themes@[order@[p as int] as int], active),
            decreases order.len() - p,
        {
            let other = &themes[order[p]];
            let o_active = match active_id {
                Some(a) => crate::ir::str_eq(other.settings_id.as_str(), a),
                None => false,
            };
            let before = (i_active && !o_active) || (i_active == o_active && label_less(
                themes[i].label.as_str(),
                other.label.as_str(),
            ));
            if before {
                break;
            }
            p += 1;
        }
        let ghost old_order = order@;
        let ghost prefix = themes@.take(i as int);
        let ghost next = themes@.take(i + 1);
        order.insert(p, i);
        proof {
            old_order.insert_ensures(p as int, i);
            assert(order@ == old_order.insert(p as int, i));
            assert forall|k: int| 0 <= k < old_order.len() implies #[trigger] prefix[old_order[k] as int]
                == next[old_order[k] as int] && next[old_order[k] as int] == themes@[old_order[k] as int] by {}
            assert(next[i as int] == t);
            // Positions after p hold themes the new one sorts strictly before.
            if p < old_order.len() {
                assert(listed_before(t, themes@[old_order[p as int] as int], active));
            }
            assert forall|b: int| p <= b < old_order.len() implies listed_before(
                t,
                #[trigger] themes@[old_order[b] as int],
                active,
            ) && !listed_alike(t, themes@[old_order[b] as int], active) by {
                let e_p = themes@[old_order[p as int] as int];
                let e_b = themes@[old_order[b] as int];
                assert(!listed_before(prefix[old_order[b] as int], prefix[old_order[p as int] as int], active) || b == p);
                lemma_before_order(t, e_p, e_b, active);
                lemma_before_order(e_b, t, e_p, active);
                lemma_before_order(e_p, e_b, t, active);
                lemma_before_order(t, e_b, e_p, active);
            }
            assert forall|a: int, b: int| 0 <= a < b < order@.len() implies !listed_before(
                next[order@[b] as int],
                next[order@[a] as int],
                active,
            ) by {
                if b < p {
                } else if b == p {
                    assert(order@[b] == i);
                    assert(order@[a] == old_order[a]);
                    lemma_before_order(t, themes@[old_order[a] as int], t, active);
                } else if a < p {
                    assert(order@[b] == old_order[b - 1]);
                    assert(order@[a] == old_order[a]);
                    let e_a = themes@[old_order[a] as int];
                    let e_b = themes@[old_order[b - 1] as int];
                    assert(listed_before(t, e_b, active));
                    assert(!listed_before(t, e_a, active));
                    lemma_before_order(e_b, e_a, t, active);
                    lemma_before_order(e_a, t, e_b, active);
                    lemma_before_order(t, e_a, e_b, active);
                } else if a == p {
                    assert(order@[a] == i);
                    assert(order@[b] == old_order[b - 1]);
                    let e_b = themes@[old_order[b - 1] as int];
                    assert(listed_before(t, e_b, active));
                    lemma_before_order(t, e_b, t, active);
                } else {
                    assert(order@[a] == old_order[a - 1]);
                    assert(order@[b] == old_order[b - 1]);
                }
            }
            assert forall|a: int, b: int|
                0 <= a < b < order@.len() && listed_alike(
                    next[order@[a] as int],
                    next[order@[b] as int],
                    active,
                ) implies order@[a] < order@[b] by {
                if b < p {
                } else if b == p {
                    assert(order@[b] == i);
                    assert(order@[a] == old_order[a]);
                } else if a < p {
                    assert(order@[a] == old_order[a]);
                    assert(order@[b] == old_order[b - 1]);
                } else if a == p {
                    assert(order@[b] == old_order[b - 1]);
                    assert(!listed_alike(t, themes@[old_order[b - 1] as int], active));
                } else {
                    assert(order@[a] == old_order[a - 1]);
                    assert(order@[b] == old_order[b - 1]);
                }
            }
            assert forall|a: int, b: int| 0 <= a < b < i + 1 implies order@[a] != order@[b] by {
                if b < p {
                } else if b == p {
                    assert(order@[a] == old_order[a]);
                } else if a < p {
                    assert(order@[a] == old_order[a]);
                    assert(order@[b] == old_order[b - 1]);
                } else if a == p {
                    assert(order@[b] == old_order[b - 1]);
                } else {
                    assert(order@[a] == old_order[a - 1]);
                    assert(order@[b] == old_order[b - 1]);
                }
            }
            assert forall|k: int| 0 <= k < order@.len() implies #[trigger] order@[k] < i + 1 by {
                if k < p {
                    assert(order@[k] == old_order[k]);
                } else if k > p {
                    assert(order@[k] == old_order[k - 1]);
                }
            }
        }
        i += 1;
    }
    assert(themes@.take(themes.len() as int) =~= themes@);
    order
}


// ── The preview pane ───────────────────────────────────────────────

/// The title of the preview pane: ` Preview: {name} ({Dark|Light}) `.
pub open spec fn preview_title_text(ir: ThemeIR) -> Seq<char> {
    " Preview: "@ + ir.name@ + " ("@ + (match ir.theme_type {
        ThemeType::Dark => "Dark"@,
        ThemeType::Light => "Light"@,
    }) + ") "@
}

/// The title of the preview pane.
pub fn preview_title(ir: &ThemeIR) -> (t: String)
    ensures
        t@ == preview_title_text(*ir),
{
    let mut t = String::from_str(" Preview: ");
    t.append(ir.name.as_str());
    t.append(" (");
    t.append(ir.theme_type.as_str_label());
    t.append(") ");
    t
}

/// Whether the preview shows the chart colors: only Superset uses them.
pub fn shows_chart(target: Target) -> (b: bool)
    ensures
        b == (target == Target::Superset),
{
    target == Target::Superset
}

} // verus!
