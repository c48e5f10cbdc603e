//! Finding the privileged tool.
//!
//! Three places are tried, and the first that yields a path wins: the path
//! the user configured, the well-known install locations, and a search of
//! the program directories to a fixed depth. The locator does no I/O: each
//! step says what to look at, and the caller reports what it saw.

use vstd::prelude::*;
use crate::path::{file_name, file_name_of};
use crate::text::{eq_ignore_ascii_case, same_ignoring_ascii_case, texts, trim, trimmed};

verus! {

/// How many levels below a program directory the search descends.
pub const SEARCH_DEPTH: usize = 3;

/// The file name of the tool's executable.
pub open spec fn tool_file_name() -> Seq<char> {
    "IObitUnlocker.exe"@
}

/// The well-known install locations of the tool, in the order in which
/// they are tried.
pub open spec fn known_locations() -> Seq<Seq<char>> {
    seq![
        "C:\\\\Program Files (x86)\\\\IObit\\\\IObit Unlocker\\\\IObitUnlocker.exe"@,
        "C:\\\\Program Files\\\\IObit\\\\IObit Unlocker\\\\IObitUnlocker.exe"@,
    ]
}

/// The program directories that are searched, in order.
pub open spec fn search_roots() -> Seq<Seq<char>> {
    seq!["C:\\\\Program Files"@, "C:\\\\Program Files (x86)"@]
}

/// Computes [`known_locations`].
pub fn known_tool_locations() -> (out: Vec<String>)
    ensures
        texts(out@) == known_locations(),
{
    let mut out: Vec<String> = Vec::new();
    out.push("C:\\\\Program Files (x86)\\\\IObit\\\\IObit Unlocker\\\\IObitUnlocker.exe".to_owned());
    out.push("C:\\\\Program Files\\\\IObit\\\\IObit Unlocker\\\\IObitUnlocker.exe".to_owned());
    assert(texts(out@) =~= known_locations());
    out
}

/// Computes [`search_roots`].
pub fn tool_search_roots() -> (out: Vec<String>)
    ensures
        texts(out@) == search_roots(),
{
    let mut out: Vec<String> = Vec::new();
    out.push("C:\\\\Program Files".to_owned());
    out.push("C:\\\\Program Files (x86)".to_owned());
    assert(texts(out@) =~= search_roots());
    out
}

/// Whether the file name of `path` is the tool's, capitals aside.
pub open spec fn is_tool_path(path: Seq<char>) -> bool {
    file_name_of(path) matches Some(name) && same_ignoring_ascii_case(name, tool_file_name())
}

/// Decides [`is_tool_path`].
pub fn names_tool(path: &str) -> (r: bool)
    ensures
        r == is_tool_path(path@),
{
    match file_name(path) {
        Some(name) => eq_ignore_ascii_case(name.as_str(), "IObitUnlocker.exe"),
        None => false,
    }
}

/// The first of `paths` that names the tool.
pub open spec fn first_tool_in(paths: Seq<Seq<char>>) -> Option<Seq<char>>
    decreases paths.len(),
{
    if paths.len() == 0 {
        None
    } else if is_tool_path(paths[0]) {
        Some(paths[0])
    } else {
        first_tool_in(paths.drop_first())
    }
}

/// Where none of the first `n` paths names the tool, the first that does
/// is the first among the rest.
pub proof fn lemma_first_tool_skips(paths: Seq<Seq<char>>, n: int)
    requires
        0 <= n <= paths.len(),
        forall|j: int| 0 <= j < n ==> !is_tool_path(paths[j]),
    ensures
        first_tool_in(paths) == first_tool_in(paths.skip(n)),
    decreases n,
{
    if n == 0 {
        assert(paths.skip(0) =~= paths);
    } else {
        let rest = paths.drop_first();
        assert forall|j: int| 0 <= j < n - 1 implies !is_tool_path(rest[j]) by {
            assert(rest[j] == paths[j + 1]);
        }
        lemma_first_tool_skips(rest, n - 1);
        assert(rest.skip(n - 1) =~= paths.skip(n));
    }
}

/// Computes [`first_tool_in`].
pub fn find_tool_in(paths: &Vec<String>) -> (r: Option<String>)
    ensures
        match r {
            Some(p) => first_tool_in(texts(paths@)) == Some(p@),
            None => first_tool_in(texts(paths@)) is None,
        },
{
    let mut i: usize = 0;
    while i < paths.len()
        invariant
            i <= paths.len(),
            forall|j: int| 0 <= j < i ==> !is_tool_path(texts(paths@)[j]),
        decreases paths.len() - i,
    {
        if names_tool(paths[i].as_str()) {
            proof {
                lemma_first_tool_skips(texts(paths@), i as int);
                assert(texts(paths@).skip(i as int)[0] == paths@[i as int]@);
            }
            return Some(paths[i].clone());
        }
        i = i + 1;
    }
    proof {
        lemma_first_tool_skips(texts(paths@), paths@.len() as int);
    }
    None
}

/// Where the search for the tool stands.
#[derive(Clone, Copy, Debug, PartialEq, Eq, Structural)]
pub enum LocatorPhase {
    Start,
    /// The configured path is being read.
    ReadingOverride,
    /// Asked whether the configured path exists.
    ProbingOverride,
    /// Asked whether well-known location `index` exists.
    ProbingKnown { index: usize },
    /// Asked whether program directory `index` exists.
    ProbingRoot { index: usize },
    /// Program directory `index` is being listed.
    Searching { index: usize },
    Finished,
}

/// What the caller reports to the locator.
#[derive(Debug, PartialEq, Eq)]
pub enum LocatorEvent {
    /// The search is to begin.
    Begin,
    /// What the file that holds the configured path says; `None` where
    /// there is no such file or it cannot be read.
    OverrideText { text: Option<String> },
    /// Whether the path that was asked about exists.
    Exists { found: bool },
    /// The paths found under the directory that was to be listed, the
    /// directory itself included, in the order of the walk.
    Listing { paths: Vec<String> },
}

/// What a [`LocatorEvent`] holds, as text.
pub enum LocatorEventView {
    Begin,
    OverrideText { text: Option<Seq<char>> },
    Exists { found: bool },
    Listing { paths: Seq<Seq<char>> },
}

impl View for LocatorEvent {
    type V = LocatorEventView;

    open spec fn view(&self) -> LocatorEventView {
        match self {
            LocatorEvent::Begin => LocatorEventView::Begin,
            LocatorEvent::OverrideText { text } => LocatorEventView::OverrideText {
                text: match text {
                    Some(t) => Some(t@),
                    None => None,
                },
            },
            LocatorEvent::Exists { found } => LocatorEventView::Exists { found: *found },
            LocatorEvent::Listing { paths } => LocatorEventView::Listing { paths: texts(paths@) },
        }
    }
}

/// What the caller is to do next.
#[derive(Debug, PartialEq, Eq)]
pub enum LocatorAction {
    /// Read the file that holds the configured path and report
    /// `OverrideText`.
    ReadOverride,
    /// Report with `Exists` whether this path exists.
    ProbePath { path: String },
    /// List what lies under `root`, no deeper than `max_depth` levels, and
    /// report `Listing`.
    ListTree { root: String, max_depth: usize },
    /// Nothing more: the tool is at `found`, or nowhere.
    Finish { found: Option<String> },
}

/// What a [`LocatorAction`] holds, as text.
pub enum LocatorActionView {
    ReadOverride,
    ProbePath { path: Seq<char> },
    ListTree { root: Seq<char>, max_depth: usize },
    Finish { found: Option<Seq<char>> },
}

impl View for LocatorAction {
    type V = LocatorActionView;

    open spec fn view(&self) -> LocatorActionView {
        match self {
            LocatorAction::ReadOverride => LocatorActionView::ReadOverride,
            LocatorAction::ProbePath { path } => LocatorActionView::ProbePath { path: path@ },
            LocatorAction::ListTree { root, max_depth } => LocatorActionView::ListTree {
                root: root@,
                max_depth: *max_depth,
            },
            LocatorAction::Finish { found } => LocatorActionView::Finish {
                found: match found {
                    Some(p) => Some(p@),
                    None => None,
                },
            },
        }
    }
}

/// A search in progress, as a mathematical value: its phase and, while the
/// configured path is probed, that path.
pub struct LocatorView {
    pub phase: LocatorPhase,
    pub candidate: Option<Seq<char>>,
}

/// What one step of the search yields.
pub struct LocatorStep {
    pub locator: LocatorView,
    pub action: LocatorActionView,
}

impl LocatorView {
    /// A search that has not begun.
    pub open spec fn initial() -> LocatorView {
        LocatorView { phase: LocatorPhase::Start, candidate: None }
    }

    /// The step that ends the search.
    pub open spec fn finishes(self, found: Option<Seq<char>>) -> LocatorStep {
        LocatorStep {
            locator: LocatorView { phase: LocatorPhase::Finished, candidate: None },
            action: LocatorActionView::Finish { found },
        }
    }

    /// The search turns to program directory `index`, or ends without a
    /// result where none is left.
    pub open spec fn turns_to_root(self, index: int) -> LocatorStep {
        if 0 <= index < search_roots().len() {
            LocatorStep {
                locator: LocatorView {
                    phase: LocatorPhase::ProbingRoot { index: index as usize },
                    candidate: None,
                },
                action: LocatorActionView::ProbePath { path: search_roots()[index] },
            }
        } else {
            self.finishes(None)
        }
    }

    /// The search turns to well-known location `index`, or to the program
    /// directories where none is left.
    pub open spec fn turns_to_known(self, index: int) -> LocatorStep {
        if 0 <= index < known_locations().len() {
            LocatorStep {
                locator: LocatorView {
                    phase: LocatorPhase::ProbingKnown { index: index as usize },
                    candidate: None,
                },
                action: LocatorActionView::ProbePath { path: known_locations()[index] },
            }
        } else {
            self.turns_to_root(0)
        }
    }

    /// The transition function of the search.
    pub open spec fn step(self, event: LocatorEventView) -> LocatorStep {
        match (self.phase, event) {
            (LocatorPhase::Start, LocatorEventView::Begin) => LocatorStep {
                locator: LocatorView { phase: LocatorPhase::ReadingOverride, candidate: None },
                action: LocatorActionView::ReadOverride,
            },
            (LocatorPhase::ReadingOverride, LocatorEventView::OverrideText { text: Some(text) }) => {
                LocatorStep {
                    locator: LocatorView {
                        phase: LocatorPhase::ProbingOverride,
                        candidate: Some(trimmed(text)),
                    },
                    action: LocatorActionView::ProbePath { path: trimmed(text) },
                }
            },
            (LocatorPhase::ReadingOverride, LocatorEventView::OverrideText { text: None }) => {
                self.turns_to_known(0)
            },
            (LocatorPhase::ProbingOverride, LocatorEventView::Exists { found }) => {
                if found && self.candidate is Some {
                    self.finishes(self.candidate)
                } else {
                    self.turns_to_known(0)
                }
            },
            (LocatorPhase::ProbingKnown { index }, LocatorEventView::Exists { found }) => {
                if found && index < known_locations().len() {
                    self.finishes(Some(known_locations()[index as int]))
                } else {
                    self.turns_to_known(index + 1)
                }
            },
            (LocatorPhase::ProbingRoot { index }, LocatorEventView::Exists { found }) => {
                if found && index < search_roots().len() {
                    LocatorStep {
                        locator: LocatorView {
                            phase: LocatorPhase::Searching { index },
                            candidate: None,
                        },
                        action: LocatorActionView::ListTree {
                            root: search_roots()[index as int],
                            max_depth: SEARCH_DEPTH,
                        },
                    }
                } else {
                    self.turns_to_root(index + 1)
                }
            },
            (LocatorPhase::Searching { index }, LocatorEventView::Listing { paths }) => {
                match first_tool_in(paths) {
                    Some(path) => self.finishes(Some(path)),
                    None => self.turns_to_root(index + 1),
                }
            },
            _ => self.finishes(None),
        }
    }
}

/// What the locator can look at: what the configuration file says, which
/// paths exist, and what lies under each directory.
pub struct Surroundings {
    pub override_text: Option<Seq<char>>,
    pub existing: Set<Seq<char>>,
    pub listing: spec_fn(Seq<char>) -> Seq<Seq<char>>,
}

impl Surroundings {
    /// The report that answers `action` truthfully.
    pub open spec fn answer(self, action: LocatorActionView) -> LocatorEventView {
        match action {
            LocatorActionView::ReadOverride => LocatorEventView::OverrideText {
                text: self.override_text,
            },
            LocatorActionView::ProbePath { path } => LocatorEventView::Exists {
                found: self.existing.contains(path),
            },
            LocatorActionView::ListTree { root, .. } => LocatorEventView::Listing {
                paths: (self.listing)(root),
            },
            LocatorActionView::Finish { .. } => LocatorEventView::Begin,
        }
    }

    /// What the search of program directory `index` yields: the first path
    /// under it that names the tool, if the directory exists.
    pub open spec fn found_under(self, index: int) -> Option<Seq<char>> {
        if self.existing.contains(search_roots()[index]) {
            first_tool_in((self.listing)(search_roots()[index]))
        } else {
            None
        }
    }

    /// Where the tool is, by the resolution order: the configured path if
    /// it exists; else the first well-known location that exists; else the
    /// first hit of the search, program directory by program directory;
    /// else nowhere.
    pub open spec fn located(self) -> Option<Seq<char>> {
        if self.override_text is Some && self.existing.contains(trimmed(self.override_text->0)) {
            Some(trimmed(self.override_text->0))
        } else if self.existing.contains(known_locations()[0]) {
            Some(known_locations()[0])
        } else if self.existing.contains(known_locations()[1]) {
            Some(known_locations()[1])
        } else if self.found_under(0) is Some {
            self.found_under(0)
        } else {
            self.found_under(1)
        }
    }

    /// The result of a search that is answered truthfully from `self`, if
    /// it ends within `fuel` steps.
    pub open spec fn run(self, locator: LocatorView, event: LocatorEventView, fuel: nat)
        -> Option<Option<Seq<char>>>
        decreases fuel,
    {
        if fuel == 0 {
            None
        } else {
            match locator.step(event).action {
                LocatorActionView::Finish { found } => Some(found),
                action => self.run(locator.step(event).locator, self.answer(action), (fuel - 1) as nat),
            }
        }
    }
}

/// A search that is answered truthfully ends within nine steps, and ends
/// with what the resolution order says.
pub proof fn law_search_follows_resolution_order(env: Surroundings)
    ensures
        env.run(LocatorView::initial(), LocatorEventView::Begin, 9) == Some(env.located()),
{
    reveal_with_fuel(Surroundings::run, 10);
}

/// A search for the privileged tool.
pub struct Locator {
    phase: LocatorPhase,
    candidate: Option<String>,
}

impl View for Locator {
    type V = LocatorView;

    closed spec fn view(&self) -> LocatorView {
        LocatorView {
            phase: self.phase,
            candidate: match self.candidate {
                Some(c) => Some(c@),
                None => None,
            },
        }
    }
}

/// Whether the locator `after` and the action `action` are what `step`
/// says.
pub open spec fn locator_yields(after: LocatorView, action: LocatorAction, step: LocatorStep)
    -> bool {
    after == step.locator && action@ == step.action
}

impl Locator {
    /// A search that has not begun.
    pub fn new() -> (l: Self)
        ensures
            l@ == LocatorView::initial(),
    {
        Locator { phase: LocatorPhase::Start, candidate: None }
    }

    /// Where the search stands.
    pub fn phase(&self) -> (p: LocatorPhase)
        ensures
            p == self@.phase,
    {
        self.phase
    }

    fn finish(&mut self, found: Option<String>) -> (action: LocatorAction)
        ensures
            locator_yields(
                final(self)@,
                action,
                old(self)@.finishes(
                    match found {
                        Some(p) => Some(p@),
                        None => None,
                    },
                ),
            ),
    {
        self.phase = LocatorPhase::Finished;
        self.candidate = None;
        LocatorAction::Finish { found }
    }

    fn turn_to_root(&mut self, index: usize) -> (action: LocatorAction)
        ensures
            locator_yields(final(self)@, action, old(self)@.turns_to_root(index as int)),
    {
        let roots = tool_search_roots();
        if index < roots.len() {
            self.phase = LocatorPhase::ProbingRoot { index };
            self.candidate = None;
            LocatorAction::ProbePath { path: roots[index].clone() }
        } else {
            self.finish(None)
        }
    }

    fn turn_to_known(&mut self, index: usize) -> (action: LocatorAction)
        ensures
            locator_yields(final(self)@, action, old(self)@.turns_to_known(index as int)),
    {
        let known = known_tool_locations();
        if index < known.len() {
            self.phase = LocatorPhase::ProbingKnown { index };
            self.candidate = None;
            LocatorAction::ProbePath { path: known[index].clone() }
        } else {
            self.turn_to_root(0)
        }
    }

    fn after_exists(&mut self, found: bool) -> (action: LocatorAction)
        ensures
            locator_yields(
                final(self)@,
                action,
                old(self)@.step(LocatorEventView::Exists { found }),
            ),
    {
        match self.phase {
            LocatorPhase::ProbingOverride => {
                let candidate = self.candidate.take();
                match candidate {
                    Some(path) => {
                        if found {
                            self.finish(Some(path))
                        } else {
                            self.turn_to_known(0)
                        }
                    },
                    None => self.turn_to_known(0),
                }
            },
            LocatorPhase::ProbingKnown { index } => {
                let known = known_tool_locations();
                if index < known.len() {
                    if found {
                        self.finish(Some(known[index].clone()))
                    } else {
                        self.turn_to_known(index + 1)
                    }
                } else {
                    self.turn_to_root(0)
                }
            },
            LocatorPhase::ProbingRoot { index } => {
                let roots = tool_search_roots();
                if index < roots.len() {
                    if found {
                        self.phase = LocatorPhase::Searching { index };
                        self.candidate = None;
                        LocatorAction::ListTree {
                            root: roots[index].clone(),
                            max_depth: SEARCH_DEPTH,
                        }
                    } else {
                        self.turn_to_root(index + 1)
                    }
                } else {
                    self.finish(None)
                }
            },
            _ => self.finish(None),
        }
    }

    /// Takes one report and says what to look at next. The result is
    /// exactly what the transition function [`LocatorView::step`] gives.
    pub fn step(&mut self, event: LocatorEvent) -> (action: LocatorAction)
        ensures
            locator_yields(final(self)@, action, old(self)@.step(event@)),
    {
        match event {
            LocatorEvent::Begin => match self.phase {
                LocatorPhase::Start => {
                    self.phase = LocatorPhase::ReadingOverride;
                    self.candidate = None;
                    LocatorAction::ReadOverride
                },
                _ => self.finish(None),
            },
            LocatorEvent::OverrideText { text } => match self.phase {
                LocatorPhase::ReadingOverride => match text {
                    Some(text) => {
                        let path = trim(text.as_str());
                        self.phase = LocatorPhase::ProbingOverride;
                        self.candidate = Some(path.clone());
                        LocatorAction::ProbePath { path }
                    },
                    None => self.turn_to_known(0),
                },
                _ => self.finish(None),
            },
            LocatorEvent::Exists { found } => self.after_exists(found),
            LocatorEvent::Listing { paths } => match self.phase {
                LocatorPhase::Searching { index } => match find_tool_in(&paths) {
                    Some(path) => self.finish(Some(path)),
                    None => {
                        let roots = tool_search_roots();
                        if index < roots.len() {
                            self.turn_to_root(index + 1)
                        } else {
                            self.finish(None)
                        }
                    },
                },
                _ => self.finish(None),
            },
        }
    }
}

} // verus!
