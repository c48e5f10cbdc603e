//! The deployment strategy engine: one target, one set of materials, three
//! strategies tried in a fixed order.
//!
//! The engine does no I/O. Each step takes what the outside world reported
//! and says what is to be done next; the caller does it and reports back.
//!
//! ```text
//! Start -> tool located?  yes -> Unlocker (delete pass, then copy pass)
//!                         no  -> protection check
//! Unlocker                ok  -> record -> done
//!                         not -> protection check
//! protection check        Open      -> DirectCopy
//!                         Protected -> ElevatedFallback
//! DirectCopy, ElevatedFallback   ok -> record -> done;  not -> failed
//! ```

use vstd::prelude::*;
use crate::cache::{PackInfo, PackInfoView};
use crate::clock::Instant;
use crate::command::{
    argument_list_of, delete_targets, delete_targets_of, destination, destination_of,
    elevated_invocation, elevated_script_of, shell_invocation_of, start_process_text, Invocation,
    InvocationView, ToolOperation, ToolOperationView,
};
use crate::ledger::{record_of, InstalledPreset, InstalledPresetView};
use crate::path::{classify, materials_dir, materials_dir_of, protection_of, ProtectionLevel};
use crate::text::{copy_texts, texts};

verus! {

/// A way of putting the materials in place.
#[derive(Clone, Copy, Debug, PartialEq, Eq, Structural)]
pub enum Strategy {
    /// Two passes of the privileged tool: delete, then copy.
    Unlocker,
    /// Plain file operations, for targets in ordinary storage.
    DirectCopy,
    /// One elevated shell call, for targets in the package store.
    ElevatedFallback,
}

/// Where a deployment stands.
#[derive(Clone, Copy, Debug, PartialEq, Eq, Structural)]
pub enum Phase {
    Start,
    /// Waiting to hear where the privileged tool is.
    Locating,
    /// The tool's delete pass is running.
    Deleting,
    /// The destination directory is being created before the copy pass.
    Preparing,
    /// The tool's copy pass is running.
    Copying,
    /// DirectCopy: the destination directory is being created.
    DirectEnsuring,
    /// DirectCopy: asked whether the source of material `index` exists.
    DirectProbingSource { index: usize },
    /// DirectCopy: asked whether the destination of material `index` exists.
    DirectProbingDestination { index: usize },
    /// DirectCopy: the old destination of material `index` is being removed.
    DirectRemoving { index: usize },
    /// DirectCopy: material `index` is being copied.
    DirectCopying { index: usize },
    /// The elevated shell call is running.
    Elevating,
    /// The ledger entry is being written after `strategy` succeeded.
    Recording { strategy: Strategy },
    Done,
    Failed,
}

/// What DirectCopy was doing when the destination turned out unwritable.
#[derive(Clone, Copy, Debug, PartialEq, Eq, Structural)]
pub enum WriteStage {
    /// Creating the materials directory.
    CreatingDirectory,
    /// Copying a material into it.
    CopyingFile,
}

/// Why a deployment, or one strategy of it, did not succeed.
#[derive(Debug, PartialEq, Eq)]
pub enum DeployError {
    /// The privileged tool is not installed. Not fatal: the next strategy
    /// is tried.
    ToolNotFound,
    /// A pass of the privileged tool did not succeed. Fatal to that
    /// strategy only.
    PrivilegedOperationFailed { detail: String },
    /// A material to deploy does not exist on disk.
    SourceMaterialMissing { path: String },
    /// A material path has no file name to copy it under.
    InvalidMaterialName,
    /// The destination directory could not be created, or a file could
    /// not be written into it; `path` is the directory or the file.
    DestinationUnwritable { stage: WriteStage, path: String, detail: String },
    /// The elevated shell could not be started.
    SubprocessSpawnFailed { detail: String },
    /// The elevated shell ended with a failure; `stderr` is what it wrote.
    SubprocessNonZeroExit { stderr: String },
    /// The materials are in place but the ledger could not be written. Not
    /// fatal: the deployment counts as done.
    LedgerWriteFailed,
    /// An event arrived that does not answer the action that was asked for.
    UnexpectedEvent,
}

/// What a [`DeployError`] holds, as text.
pub enum DeployErrorView {
    ToolNotFound,
    PrivilegedOperationFailed { detail: Seq<char> },
    SourceMaterialMissing { path: Seq<char> },
    InvalidMaterialName,
    DestinationUnwritable { stage: WriteStage, path: Seq<char>, detail: Seq<char> },
    SubprocessSpawnFailed { detail: Seq<char> },
    SubprocessNonZeroExit { stderr: Seq<char> },
    LedgerWriteFailed,
    UnexpectedEvent,
}

impl View for DeployError {
    type V = DeployErrorView;

    open spec fn view(&self) -> DeployErrorView {
        match self {
            DeployError::ToolNotFound => DeployErrorView::ToolNotFound,
            DeployError::PrivilegedOperationFailed { detail } => {
                DeployErrorView::PrivilegedOperationFailed { detail: detail@ }
            },
            DeployError::SourceMaterialMissing { path } => DeployErrorView::SourceMaterialMissing {
                path: path@,
            },
            DeployError::InvalidMaterialName => DeployErrorView::InvalidMaterialName,
            DeployError::DestinationUnwritable { stage, path, detail } => {
                DeployErrorView::DestinationUnwritable {
                    stage: *stage,
                    path: path@,
                    detail: detail@,
                }
            },
            DeployError::SubprocessSpawnFailed { detail } => DeployErrorView::SubprocessSpawnFailed {
                detail: detail@,
            },
            DeployError::SubprocessNonZeroExit { stderr } => DeployErrorView::SubprocessNonZeroExit {
                stderr: stderr@,
            },
            DeployError::LedgerWriteFailed => DeployErrorView::LedgerWriteFailed,
            DeployError::UnexpectedEvent => DeployErrorView::UnexpectedEvent,
        }
    }
}

/// What an error says in words.
pub open spec fn message_of(error: DeployErrorView) -> Seq<char> {
    match error {
        DeployErrorView::ToolNotFound => "IObit Unlocker not found"@,
        DeployErrorView::PrivilegedOperationFailed { detail } => "IObit Unlocker failed: "@
            + detail,
        DeployErrorView::SourceMaterialMissing { path } => "Source material not found: "@ + path,
        DeployErrorView::InvalidMaterialName => "invalid material filename"@,
        DeployErrorView::DestinationUnwritable { stage, path, detail } => match stage {
            WriteStage::CreatingDirectory => "Failed to create materials dir: "@ + detail,
            WriteStage::CopyingFile => "Direct copy failed to "@ + path + ": "@ + detail,
        },
        DeployErrorView::SubprocessSpawnFailed { detail } => "Failed to run elevated PowerShell: "@
            + detail,
        DeployErrorView::SubprocessNonZeroExit { stderr } => "Elevated PowerShell failed: "@
            + stderr,
        DeployErrorView::LedgerWriteFailed => "Failed to save preset tracking"@,
        DeployErrorView::UnexpectedEvent => "unexpected event"@,
    }
}

impl DeployError {
    /// The error in words, with the path or the captured text it carries.
    pub fn message(&self) -> (out: String)
        ensures
            out@ == message_of(self@),
    {
        match self {
            DeployError::ToolNotFound => "IObit Unlocker not found".to_owned(),
            DeployError::PrivilegedOperationFailed { detail } => {
                let mut out = "IObit Unlocker failed: ".to_owned();
                out.append(detail.as_str());
                out
            },
            DeployError::SourceMaterialMissing { path } => {
                let mut out = "Source material not found: ".to_owned();
                out.append(path.as_str());
                out
            },
            DeployError::InvalidMaterialName => "invalid material filename".to_owned(),
            DeployError::DestinationUnwritable { stage, path, detail } => match stage {
                WriteStage::CreatingDirectory => {
                    let mut out = "Failed to create materials dir: ".to_owned();
                    out.append(detail.as_str());
                    out
                },
                WriteStage::CopyingFile => {
                    let mut out = "Direct copy failed to ".to_owned();
                    out.append(path.as_str());
                    out.append(": ");
                    out.append(detail.as_str());
                    out
                },
            },
            DeployError::SubprocessSpawnFailed { detail } => {
                let mut out = "Failed to run elevated PowerShell: ".to_owned();
                out.append(detail.as_str());
                out
            },
            DeployError::SubprocessNonZeroExit { stderr } => {
                let mut out = "Elevated PowerShell failed: ".to_owned();
                out.append(stderr.as_str());
                out
            },
            DeployError::LedgerWriteFailed => "Failed to save preset tracking".to_owned(),
            DeployError::UnexpectedEvent => "unexpected event".to_owned(),
        }
    }
}

/// How a subprocess ended.
#[derive(Debug, PartialEq, Eq)]
pub enum ProcessOutcome {
    /// It could not be started.
    SpawnFailed { detail: String },
    /// It ran and ended, successfully or not; `stderr` is what it wrote to
    /// its error stream.
    Exited { success: bool, stderr: String },
}

/// What the outside world reports to the engine.
#[derive(Debug, PartialEq, Eq)]
pub enum Event {
    /// The deployment is to begin.
    Begin,
    /// The privileged tool was looked for; `path` is where it is, if it is
    /// anywhere.
    ToolLocated { path: Option<String> },
    /// The subprocess that was asked for has ended.
    Process { outcome: ProcessOutcome },
    /// The directory that was asked for exists now, or could not be
    /// created.
    Directory { result: Result<(), String> },
    /// Whether the file that was asked about exists.
    Exists { found: bool },
    /// The removal that was asked for was tried.
    Removed,
    /// The copy that was asked for was made, or failed.
    Copied { result: Result<(), String> },
    /// The ledger entry was written, or could not be.
    Recorded { saved: bool },
}

/// What an [`Event`] holds, as text.
pub enum EventView {
    Begin,
    ToolLocated { path: Option<Seq<char>> },
    SpawnFailed { detail: Seq<char> },
    Exited { success: bool, stderr: Seq<char> },
    Directory { result: Result<(), Seq<char>> },
    Exists { found: bool },
    Removed,
    Copied { result: Result<(), Seq<char>> },
    Recorded { saved: bool },
}

impl View for Event {
    type V = EventView;

    open spec fn view(&self) -> EventView {
        match self {
            Event::Begin => EventView::Begin,
            Event::ToolLocated { path } => EventView::ToolLocated {
                path: match path {
                    Some(p) => Some(p@),
                    None => None,
                },
            },
            Event::Process { outcome } => match outcome {
                ProcessOutcome::SpawnFailed { detail } => EventView::SpawnFailed {
                    detail: detail@,
                },
                ProcessOutcome::Exited { success, stderr } => EventView::Exited {
                    success: *success,
                    stderr: stderr@,
                },
            },
            Event::Directory { result } => EventView::Directory {
                result: match result {
                    Ok(_) => Ok(()),
                    Err(detail) => Err(detail@),
                },
            },
            Event::Exists { found } => EventView::Exists { found: *found },
            Event::Removed => EventView::Removed,
            Event::Copied { result } => EventView::Copied {
                result: match result {
                    Ok(_) => Ok(()),
                    Err(detail) => Err(detail@),
                },
            },
            Event::Recorded { saved } => EventView::Recorded { saved: *saved },
        }
    }
}

/// How a deployment ended.
#[derive(Debug, PartialEq, Eq)]
pub enum DeployOutcome {
    /// The materials are in place, put there by `strategy`.
    Installed { strategy: Strategy, ledger_saved: bool },
    /// The last strategy that applied did not succeed.
    Failed { error: DeployError },
}

/// What a [`DeployOutcome`] holds, as text.
pub enum DeployOutcomeView {
    Installed { strategy: Strategy, ledger_saved: bool },
    Failed { error: DeployErrorView },
}

impl View for DeployOutcome {
    type V = DeployOutcomeView;

    open spec fn view(&self) -> DeployOutcomeView {
        match self {
            DeployOutcome::Installed { strategy, ledger_saved } => DeployOutcomeView::Installed {
                strategy: *strategy,
                ledger_saved: *ledger_saved,
            },
            DeployOutcome::Failed { error } => DeployOutcomeView::Failed { error: error@ },
        }
    }
}

/// What the caller is to do next.
#[derive(Debug, PartialEq, Eq)]
pub enum Action {
    /// Look for the privileged tool and report `ToolLocated`.
    LocateTool,
    /// Run the tool's delete pass and report `Process`.
    RunToolDelete { invocation: Invocation },
    /// Create the directory if it is missing and report `Directory`; the
    /// copy pass follows whether or not this works.
    PrepareDirectory { path: String },
    /// Run the tool's copy pass and report `Process`.
    RunToolCopy { invocation: Invocation },
    /// Create the directory if it is missing and report `Directory`.
    EnsureDirectory { path: String },
    /// Report with `Exists` whether this source file exists.
    ProbeSource { path: String },
    /// Report with `Exists` whether this destination file exists.
    ProbeDestination { path: String },
    /// Remove this destination file and report `Removed`, whether or not
    /// the removal worked.
    RemoveDestination { path: String },
    /// Copy the file and report `Copied`.
    CopyFile { from: String, to: String },
    /// Run the elevated copy and report `Process`.
    RunElevated { invocation: Invocation },
    /// Write this record to the ledger under `target_root` and report
    /// `Recorded`.
    RecordInstalled { target_root: String, record: InstalledPreset },
    /// Nothing more: the deployment has ended.
    Finish { outcome: DeployOutcome },
}

/// What an [`Action`] holds, as text.
pub enum ActionView {
    LocateTool,
    RunToolDelete { invocation: InvocationView },
    PrepareDirectory { path: Seq<char> },
    RunToolCopy { invocation: InvocationView },
    EnsureDirectory { path: Seq<char> },
    ProbeSource { path: Seq<char> },
    ProbeDestination { path: Seq<char> },
    RemoveDestination { path: Seq<char> },
    CopyFile { from: Seq<char>, to: Seq<char> },
    RunElevated { invocation: InvocationView },
    RecordInstalled { target_root: Seq<char>, record: InstalledPresetView },
    Finish { outcome: DeployOutcomeView },
}

impl View for Action {
    type V = ActionView;

    open spec fn view(&self) -> ActionView {
        match self {
            Action::LocateTool => ActionView::LocateTool,
            Action::RunToolDelete { invocation } => ActionView::RunToolDelete {
                invocation: invocation@,
            },
            Action::PrepareDirectory { path } => ActionView::PrepareDirectory { path: path@ },
            Action::RunToolCopy { invocation } => ActionView::RunToolCopy {
                invocation: invocation@,
            },
            Action::EnsureDirectory { path } => ActionView::EnsureDirectory { path: path@ },
            Action::ProbeSource { path } => ActionView::ProbeSource { path: path@ },
            Action::ProbeDestination { path } => ActionView::ProbeDestination { path: path@ },
            Action::RemoveDestination { path } => ActionView::RemoveDestination { path: path@ },
            Action::CopyFile { from, to } => ActionView::CopyFile { from: from@, to: to@ },
            Action::RunElevated { invocation } => ActionView::RunElevated {
                invocation: invocation@,
            },
            Action::RecordInstalled { target_root, record } => ActionView::RecordInstalled {
                target_root: target_root@,
                record: record@,
            },
            Action::Finish { outcome } => ActionView::Finish { outcome: outcome@ },
        }
    }
}

/// The strategy that an action belongs to, if it belongs to one.
pub open spec fn attempts(action: ActionView) -> Option<Strategy> {
    match action {
        ActionView::RunToolDelete { .. } => Some(Strategy::Unlocker),
        ActionView::PrepareDirectory { .. } => Some(Strategy::Unlocker),
        ActionView::RunToolCopy { .. } => Some(Strategy::Unlocker),
        ActionView::EnsureDirectory { .. } => Some(Strategy::DirectCopy),
        ActionView::ProbeSource { .. } => Some(Strategy::DirectCopy),
        ActionView::ProbeDestination { .. } => Some(Strategy::DirectCopy),
        ActionView::RemoveDestination { .. } => Some(Strategy::DirectCopy),
        ActionView::CopyFile { .. } => Some(Strategy::DirectCopy),
        ActionView::RunElevated { .. } => Some(Strategy::ElevatedFallback),
        _ => None,
    }
}

/// A deployment in progress, as a mathematical value.
pub struct EngineView {
    pub target_root: Seq<char>,
    pub materials: Seq<Seq<char>>,
    pub pack: PackInfoView,
    pub is_creator: Option<bool>,
    pub tool: Option<Seq<char>>,
    pub phase: Phase,
}

/// What one step yields: the deployment after it, the action asked of the
/// caller, and a failure that was survived, if there was one.
pub struct Step {
    pub engine: EngineView,
    pub action: ActionView,
    pub notice: Option<DeployErrorView>,
}

impl EngineView {
    /// A deployment that has not begun.
    pub open spec fn initial(
        target_root: Seq<char>,
        materials: Seq<Seq<char>>,
        pack: PackInfoView,
        is_creator: Option<bool>,
    ) -> EngineView {
        EngineView { target_root, materials, pack, is_creator, tool: None, phase: Phase::Start }
    }

    /// The directory that the materials go into.
    pub open spec fn dest_dir(self) -> Seq<char> {
        materials_dir_of(self.target_root)
    }

    /// The protection level of the target, judged from its path.
    pub open spec fn level(self) -> ProtectionLevel {
        protection_of(self.target_root)
    }

    /// The invocation of the tool's delete pass.
    pub open spec fn delete_pass(self, tool: Seq<char>) -> InvocationView {
        shell_invocation_of(
            start_process_text(
                tool,
                argument_list_of(
                    ToolOperationView::Delete {
                        targets: delete_targets_of(self.target_root, self.materials),
                    },
                ),
            ),
        )
    }

    /// The invocation of the tool's copy pass.
    pub open spec fn copy_pass(self, tool: Seq<char>) -> InvocationView {
        shell_invocation_of(
            start_process_text(
                tool,
                argument_list_of(
                    ToolOperationView::Copy {
                        sources: self.materials,
                        destination: self.dest_dir(),
                    },
                ),
            ),
        )
    }

    /// The step that moves to `phase` and asks for `action`.
    pub open spec fn moved(self, phase: Phase, action: ActionView) -> Step {
        Step { engine: EngineView { phase, ..self }, action, notice: None }
    }

    /// The step that ends the deployment with `error`.
    pub open spec fn fails(self, error: DeployErrorView) -> Step {
        self.moved(
            Phase::Failed,
            ActionView::Finish { outcome: DeployOutcomeView::Failed { error } },
        )
    }

    /// The step after `strategy` reported success: the ledger entry of the
    /// target is to be written, stamped `now`.
    pub open spec fn succeeds(self, strategy: Strategy, now: Instant) -> Step {
        self.moved(
            Phase::Recording { strategy },
            ActionView::RecordInstalled {
                target_root: self.target_root,
                record: record_of(self.pack, now, self.is_creator),
            },
        )
    }

    /// The first step of the strategy that the protection check picks.
    pub open spec fn begins_fallback(self) -> Step {
        match self.level() {
            ProtectionLevel::Open => self.moved(
                Phase::DirectEnsuring,
                ActionView::EnsureDirectory { path: self.dest_dir() },
            ),
            ProtectionLevel::Protected => match elevated_script_of(
                self.dest_dir(),
                self.materials,
            ) {
                Some(script) => self.moved(
                    Phase::Elevating,
                    ActionView::RunElevated { invocation: shell_invocation_of(script) },
                ),
                None => self.fails(DeployErrorView::InvalidMaterialName),
            },
        }
    }

    /// The step that gives up on the privileged tool for `reason` and goes
    /// on with the protection check.
    pub open spec fn falls_back(self, reason: DeployErrorView) -> Step {
        Step { notice: Some(reason), ..self.begins_fallback() }
    }

    /// DirectCopy turns to material `index`, or reports success where no
    /// material is left.
    pub open spec fn direct_turns_to(self, index: int, now: Instant) -> Step {
        if 0 <= index < self.materials.len() {
            self.moved(
                Phase::DirectProbingSource { index: index as usize },
                ActionView::ProbeSource { path: self.materials[index] },
            )
        } else {
            self.succeeds(Strategy::DirectCopy, now)
        }
    }

    /// DirectCopy copies material `index` to `dest`.
    pub open spec fn direct_copies(self, index: usize, dest: Seq<char>) -> Step {
        self.moved(
            Phase::DirectCopying { index },
            ActionView::CopyFile { from: self.materials[index as int], to: dest },
        )
    }

    /// The destination of material `index`, where the index is in range
    /// and the material has a file name.
    pub open spec fn destination(self, index: usize) -> Option<Seq<char>> {
        if index < self.materials.len() {
            destination_of(self.dest_dir(), self.materials[index as int])
        } else {
            None
        }
    }

    /// The transition function: what follows when `event` is reported at
    /// instant `now`.
    pub open spec fn step(self, event: EventView, now: Instant) -> Step {
        match (self.phase, event) {
            (Phase::Start, EventView::Begin) => self.moved(
                Phase::Locating,
                ActionView::LocateTool,
            ),
            (Phase::Locating, EventView::ToolLocated { path: Some(tool) }) => (EngineView {
                tool: Some(tool),
                ..self
            }).moved(
                Phase::Deleting,
                ActionView::RunToolDelete { invocation: self.delete_pass(tool) },
            ),
            (Phase::Locating, EventView::ToolLocated { path: None }) => self.falls_back(
                DeployErrorView::ToolNotFound,
            ),
            (Phase::Deleting, EventView::SpawnFailed { detail }) => self.falls_back(
                DeployErrorView::PrivilegedOperationFailed { detail },
            ),
            (Phase::Deleting, EventView::Exited { .. }) => self.moved(
                Phase::Preparing,
                ActionView::PrepareDirectory { path: self.dest_dir() },
            ),
            (Phase::Preparing, EventView::Directory { .. }) => match self.tool {
                Some(tool) => if self.materials.len() == 0 {
                    self.succeeds(Strategy::Unlocker, now)
                } else {
                    self.moved(
                        Phase::Copying,
                        ActionView::RunToolCopy { invocation: self.copy_pass(tool) },
                    )
                },
                None => self.fails(DeployErrorView::UnexpectedEvent),
            },
            (Phase::Copying, EventView::SpawnFailed { detail }) => self.falls_back(
                DeployErrorView::PrivilegedOperationFailed { detail },
            ),
            (Phase::Copying, EventView::Exited { success, stderr }) => if success {
                self.succeeds(Strategy::Unlocker, now)
            } else {
                self.falls_back(DeployErrorView::PrivilegedOperationFailed { detail: stderr })
            },
            (Phase::DirectEnsuring, EventView::Directory { result }) => match result {
                Ok(_) => self.direct_turns_to(0, now),
                Err(detail) => self.fails(
                    DeployErrorView::DestinationUnwritable {
                        stage: WriteStage::CreatingDirectory,
                        path: self.dest_dir(),
                        detail,
                    },
                ),
            },
            (Phase::DirectProbingSource { index }, EventView::Exists { found }) => if index
                >= self.materials.len() {
                self.fails(DeployErrorView::UnexpectedEvent)
            } else if !found {
                self.fails(
                    DeployErrorView::SourceMaterialMissing { path: self.materials[index as int] },
                )
            } else {
                match self.destination(index) {
                    Some(dest) => self.moved(
                        Phase::DirectProbingDestination { index },
                        ActionView::ProbeDestination { path: dest },
                    ),
                    None => self.fails(DeployErrorView::InvalidMaterialName),
                }
            },
            (Phase::DirectProbingDestination { index }, EventView::Exists { found }) => {
                match self.destination(index) {
                    Some(dest) => if found {
                        self.moved(
                            Phase::DirectRemoving { index },
                            ActionView::RemoveDestination { path: dest },
                        )
                    } else {
                        self.direct_copies(index, dest)
                    },
                    None => self.fails(DeployErrorView::UnexpectedEvent),
                }
            },
            (Phase::DirectRemoving { index }, EventView::Removed) => match self.destination(
                index,
            ) {
                Some(dest) => self.direct_copies(index, dest),
                None => self.fails(DeployErrorView::UnexpectedEvent),
            },
            (Phase::DirectCopying { index }, EventView::Copied { result }) => {
                match self.destination(index) {
                    Some(dest) => match result {
                        Ok(_) => self.direct_turns_to(index + 1, now),
                        Err(detail) => self.fails(
                            DeployErrorView::DestinationUnwritable {
                                stage: WriteStage::CopyingFile,
                                path: dest,
                                detail,
                            },
                        ),
                    },
                    None => self.fails(DeployErrorView::UnexpectedEvent),
                }
            },
            (Phase::Elevating, EventView::SpawnFailed { detail }) => self.fails(
                DeployErrorView::SubprocessSpawnFailed { detail },
            ),
            (Phase::Elevating, EventView::Exited { success, stderr }) => if success {
                self.succeeds(Strategy::ElevatedFallback, now)
            } else {
                self.fails(DeployErrorView::SubprocessNonZeroExit { stderr })
            },
            (Phase::Recording { strategy }, EventView::Recorded { saved }) => Step {
                engine: EngineView { phase: Phase::Done, ..self },
                action: ActionView::Finish {
                    outcome: DeployOutcomeView::Installed { strategy, ledger_saved: saved },
                },
                notice: if saved {
                    None
                } else {
                    Some(DeployErrorView::LedgerWriteFailed)
                },
            },
            _ => self.fails(DeployErrorView::UnexpectedEvent),
        }
    }
}

/// The actions asked for while `events` are reported one after another,
/// each with the instant at which it is reported.
pub open spec fn trace(e: EngineView, events: Seq<(EventView, Instant)>) -> Seq<ActionView>
    decreases events.len(),
{
    if events.len() == 0 {
        Seq::empty()
    } else {
        seq![e.step(events[0].0, events[0].1).action] + trace(
            e.step(events[0].0, events[0].1).engine,
            events.drop_first(),
        )
    }
}

/// The deployment after the first `n` of `events` were reported.
pub open spec fn state_after(e: EngineView, events: Seq<(EventView, Instant)>, n: int)
    -> EngineView
    decreases n,
{
    if n <= 0 || events.len() == 0 {
        e
    } else {
        state_after(e.step(events[0].0, events[0].1).engine, events.drop_first(), n - 1)
    }
}

/// The trace has one action per event, and its action at position `i` is
/// the one that the step from the state after `i` events asks for.
pub proof fn lemma_trace_at(e: EngineView, events: Seq<(EventView, Instant)>, i: int)
    requires
        0 <= i < events.len(),
    ensures
        trace(e, events).len() == events.len(),
        trace(e, events)[i] == state_after(e, events, i).step(events[i].0, events[i].1).action,
        state_after(e, events, i + 1) == state_after(e, events, i).step(
            events[i].0,
            events[i].1,
        ).engine,
        state_after(e, events, i).target_root == e.target_root,
        state_after(e, events, i).materials == e.materials,
        state_after(e, events, i).pack == e.pack,
        state_after(e, events, i).is_creator == e.is_creator,
    decreases events.len(),
{
    lemma_trace_len(e, events);
    reveal_with_fuel(state_after, 2);
    if i > 0 {
        let next = e.step(events[0].0, events[0].1).engine;
        let rest = events.drop_first();
        lemma_trace_at(next, rest, i - 1);
        assert(rest[i - 1] == events[i]);
    }
}

/// The trace has one action per event.
pub proof fn lemma_trace_len(e: EngineView, events: Seq<(EventView, Instant)>)
    ensures
        trace(e, events).len() == events.len(),
    decreases events.len(),
{
    if events.len() > 0 {
        lemma_trace_len(e.step(events[0].0, events[0].1).engine, events.drop_first());
    }
}

/// Whether a phase belongs to DirectCopy.
pub open spec fn is_direct_phase(phase: Phase) -> bool {
    phase is DirectEnsuring || phase is DirectProbingSource || phase is DirectProbingDestination
        || phase is DirectRemoving || phase is DirectCopying
}

/// A deployment to a target in the package store never stands in a phase
/// of DirectCopy, whatever is reported to it.
proof fn lemma_protected_stays_out_of_direct(
    e: EngineView,
    events: Seq<(EventView, Instant)>,
    n: int,
)
    requires
        e.level() == ProtectionLevel::Protected,
        !is_direct_phase(e.phase),
        0 <= n <= events.len(),
    ensures
        !is_direct_phase(state_after(e, events, n).phase),
    decreases n,
{
    if n > 0 {
        let next = e.step(events[0].0, events[0].1).engine;
        lemma_protected_stays_out_of_direct(next, events.drop_first(), n - 1);
    }
}

/// The protection check decides the fallback for good. Whatever is
/// reported to a deployment that starts afresh: for a target in ordinary
/// storage the elevated copy is never asked for, and for a target in the
/// package store no action of DirectCopy is. This holds with or without
/// the privileged tool.
pub proof fn law_fallback_follows_protection(
    e: EngineView,
    events: Seq<(EventView, Instant)>,
    i: int,
)
    requires
        e.phase == Phase::Start,
        0 <= i < events.len(),
    ensures
        trace(e, events).len() == events.len(),
        e.level() == ProtectionLevel::Open ==> attempts(trace(e, events)[i]) != Some(
            Strategy::ElevatedFallback,
        ),
        e.level() == ProtectionLevel::Protected ==> attempts(trace(e, events)[i]) != Some(
            Strategy::DirectCopy,
        ),
{
    lemma_trace_at(e, events, i);
    if e.level() == ProtectionLevel::Protected {
        lemma_protected_stays_out_of_direct(e, events, i);
    }
}

/// The strategy that reports success when `event` arrives, if one does.
/// The tool has succeeded when its copy pass ends well, or when its delete
/// pass has run and there is nothing to copy; DirectCopy when the last
/// material is copied, or the directory stands and there is nothing to
/// copy; the elevated copy when its shell ends well.
pub open spec fn reports_success(e: EngineView, event: EventView) -> Option<Strategy> {
    match (e.phase, event) {
        (Phase::Preparing, EventView::Directory { .. }) => if e.tool is Some
            && e.materials.len() == 0 {
            Some(Strategy::Unlocker)
        } else {
            None
        },
        (Phase::Copying, EventView::Exited { success: true, .. }) => Some(Strategy::Unlocker),
        (Phase::DirectEnsuring, EventView::Directory { result: Ok(_) }) => if e.materials.len()
            == 0 {
            Some(Strategy::DirectCopy)
        } else {
            None
        },
        (Phase::DirectCopying { index }, EventView::Copied { result: Ok(_) }) => if e.destination(
            index,
        ) is Some && index + 1 == e.materials.len() {
            Some(Strategy::DirectCopy)
        } else {
            None
        },
        (Phase::Elevating, EventView::Exited { success: true, .. }) => Some(
            Strategy::ElevatedFallback,
        ),
        _ => None,
    }
}

/// The ledger entry is asked for if and only if a strategy reports
/// success, and then it is the entry of this target, with the identity and
/// name of the preset being deployed and the instant of the report.
pub proof fn law_recorded_iff_success(e: EngineView, event: EventView, now: Instant)
    ensures
        e.step(event, now).action is RecordInstalled <==> reports_success(e, event) is Some,
        reports_success(e, event) matches Some(strategy) ==> e.step(event, now).action
            == (ActionView::RecordInstalled {
            target_root: e.target_root,
            record: record_of(e.pack, now, e.is_creator),
        }) && e.step(event, now).engine.phase == (Phase::Recording { strategy }),
{
}

/// Once the ledger entry has been asked for, it is never asked for again,
/// whatever is reported.
proof fn lemma_settled_stays_settled(e: EngineView, events: Seq<(EventView, Instant)>, n: int)
    requires
        e.phase is Recording || e.phase is Done || e.phase is Failed,
        0 <= n <= events.len(),
    ensures
        state_after(e, events, n).phase is Recording || state_after(e, events, n).phase is Done
            || state_after(e, events, n).phase is Failed,
        n < events.len() ==> !(state_after(e, events, n).step(
            events[n].0,
            events[n].1,
        ).action is RecordInstalled),
    decreases n,
{
    if n > 0 {
        let next = e.step(events[0].0, events[0].1).engine;
        lemma_settled_stays_settled(next, events.drop_first(), n - 1);
        if n < events.len() {
            assert(events.drop_first()[n - 1] == events[n]);
        }
    }
}

/// The state after `i + 1 + n` events is the state reached by reporting the
/// events from `i + 1` on to the state after `i + 1` events.
proof fn lemma_state_after_split(
    e: EngineView,
    events: Seq<(EventView, Instant)>,
    i: int,
    n: int,
)
    requires
        0 <= i,
        0 <= n,
        i + n <= events.len(),
    ensures
        state_after(e, events, i + n) == state_after(
            state_after(e, events, i),
            events.skip(i),
            n,
        ),
    decreases i,
{
    if i == 0 {
        assert(events.skip(0) =~= events);
    } else {
        let next = e.step(events[0].0, events[0].1).engine;
        lemma_state_after_split(next, events.drop_first(), i - 1, n);
        assert(events.drop_first().skip(i - 1) =~= events.skip(i));
    }
}

/// In one deployment the ledger entry is asked for at most once.
pub proof fn law_recorded_at_most_once(
    e: EngineView,
    events: Seq<(EventView, Instant)>,
    i: int,
    j: int,
)
    requires
        0 <= i < j < events.len(),
        trace(e, events)[i] is RecordInstalled,
    ensures
        !(trace(e, events)[j] is RecordInstalled),
{
    lemma_trace_at(e, events, i);
    lemma_trace_at(e, events, j);
    let settled = state_after(e, events, i + 1);
    law_recorded_iff_success(state_after(e, events, i), events[i].0, events[i].1);
    assert(settled.phase is Recording);
    let rest = events.skip(i + 1);
    lemma_state_after_split(e, events, i + 1, j - i - 1);
    lemma_settled_stays_settled(settled, rest, j - i - 1);
    assert(rest[j - i - 1] == events[j]);
}

/// Whether the tool's delete pass has been asked for and nothing but the
/// tool's own steps has followed it.
pub open spec fn is_tool_phase(phase: Phase) -> bool {
    phase is Deleting || phase is Preparing || phase is Copying
}

/// A deployment that stands in a phase of the tool after `n` events has
/// asked for the delete pass before.
proof fn lemma_tool_phase_follows_delete(
    e: EngineView,
    events: Seq<(EventView, Instant)>,
    n: int,
)
    requires
        e.phase == Phase::Start,
        0 <= n <= events.len(),
        is_tool_phase(state_after(e, events, n).phase),
    ensures
        exists|i: int| 0 <= i < n && #[trigger] trace(e, events)[i] is RunToolDelete,
    decreases n,
{
    if n > 0 {
        lemma_trace_at(e, events, n - 1);
        let before = state_after(e, events, n - 1);
        if is_tool_phase(before.phase) {
            lemma_tool_phase_follows_delete(e, events, n - 1);
            let i = choose|i: int| 0 <= i < n - 1 && #[trigger] trace(e, events)[i] is RunToolDelete;
            assert(trace(e, events)[i] is RunToolDelete);
        } else {
            assert(trace(e, events)[n - 1] is RunToolDelete);
        }
    }
}

/// The tool's two passes keep their order: whenever the copy pass is asked
/// for, the delete pass was asked for earlier in the same deployment.
pub proof fn law_copy_pass_follows_delete_pass(
    e: EngineView,
    events: Seq<(EventView, Instant)>,
    j: int,
)
    requires
        e.phase == Phase::Start,
        0 <= j < events.len(),
        trace(e, events)[j] is RunToolCopy,
    ensures
        exists|i: int| 0 <= i < j && #[trigger] trace(e, events)[i] is RunToolDelete,
{
    lemma_trace_at(e, events, j);
    assert(state_after(e, events, j).phase is Preparing);
    lemma_tool_phase_follows_delete(e, events, j);
}

/// The strategy that the protection check picks.
pub open spec fn fallback_for(level: ProtectionLevel) -> Strategy {
    match level {
        ProtectionLevel::Open => Strategy::DirectCopy,
        ProtectionLevel::Protected => Strategy::ElevatedFallback,
    }
}

/// The strategies that apply to a target, in the order in which they are
/// tried: the privileged tool where it is installed, then the one that the
/// protection check picks.
pub open spec fn strategies_of(tool_present: bool, level: ProtectionLevel) -> Seq<Strategy> {
    if tool_present {
        seq![Strategy::Unlocker, fallback_for(level)]
    } else {
        seq![fallback_for(level)]
    }
}

/// Computes [`strategies_of`].
pub fn strategies_for(tool_present: bool, level: ProtectionLevel) -> (out: Vec<Strategy>)
    ensures
        out@ == strategies_of(tool_present, level),
{
    let mut out: Vec<Strategy> = Vec::new();
    if tool_present {
        out.push(Strategy::Unlocker);
    }
    match level {
        ProtectionLevel::Open => out.push(Strategy::DirectCopy),
        ProtectionLevel::Protected => out.push(Strategy::ElevatedFallback),
    }
    assert(out@ =~= strategies_of(tool_present, level));
    out
}

/// Whether the reports begin with the start of the deployment and the
/// news that the privileged tool is installed.
pub open spec fn tool_was_reported(events: Seq<(EventView, Instant)>) -> bool {
    &&& events.len() > 1
    &&& events[0].0 is Begin
    &&& events[1].0 matches EventView::ToolLocated { path }
    &&& path is Some
}

/// A deployment stands at its start only before the first report, and
/// waits for the tool to be located only after exactly one report, which
/// was the start.
proof fn lemma_early_phases(e: EngineView, events: Seq<(EventView, Instant)>, n: int)
    requires
        e.phase == Phase::Start,
        0 <= n <= events.len(),
    ensures
        state_after(e, events, n).phase is Start ==> n == 0,
        state_after(e, events, n).phase is Locating ==> n == 1 && events[0].0 is Begin,
    decreases n,
{
    if n > 0 {
        lemma_trace_at(e, events, n - 1);
        lemma_early_phases(e, events, n - 1);
    }
}

/// The delete pass is asked for in answer to the second report only, and
/// only where that report says that the tool is installed.
proof fn lemma_delete_pass_needs_the_tool(
    e: EngineView,
    events: Seq<(EventView, Instant)>,
    i: int,
)
    requires
        e.phase == Phase::Start,
        0 <= i < events.len(),
        trace(e, events)[i] is RunToolDelete,
    ensures
        tool_was_reported(events),
{
    lemma_trace_at(e, events, i);
    lemma_early_phases(e, events, i);
}

/// Only the strategies that apply are ever attempted. Whatever is reported
/// to a deployment that starts afresh, each action it asks for belongs to
/// no strategy or to one of [`strategies_of`]: never to the privileged
/// tool where the tool was not reported as installed, and never to the
/// fallback of the other protection level.
pub proof fn law_attempts_follow_the_plan(
    e: EngineView,
    events: Seq<(EventView, Instant)>,
    i: int,
)
    requires
        e.phase == Phase::Start,
        0 <= i < events.len(),
    ensures
        attempts(trace(e, events)[i]) matches Some(s) ==> strategies_of(
            tool_was_reported(events),
            e.level(),
        ).contains(s),
{
    let plan = strategies_of(tool_was_reported(events), e.level());
    law_fallback_follows_protection(e, events, i);
    lemma_trace_at(e, events, i);
    match attempts(trace(e, events)[i]) {
        Some(Strategy::Unlocker) => {
            if trace(e, events)[i] is RunToolDelete {
                lemma_delete_pass_needs_the_tool(e, events, i);
            } else {
                assert(is_tool_phase(state_after(e, events, i).phase));
                lemma_tool_phase_follows_delete(e, events, i);
                let d = choose|d: int| 0 <= d < i && #[trigger] trace(e, events)[d] is RunToolDelete;
                lemma_delete_pass_needs_the_tool(e, events, d);
            }
            assert(plan[0] == Strategy::Unlocker);
        },
        Some(s) => {
            assert(s == fallback_for(e.level()));
            assert(plan[plan.len() - 1] == s);
        },
        None => {},
    }
}

/// What a step of the engine hands to the caller.
#[derive(Debug, PartialEq, Eq)]
pub struct Transition {
    /// What is to be done next.
    pub action: Action,
    /// A failure that the engine got over: a missing tool, a failed pass of
    /// the tool, a ledger that could not be written.
    pub notice: Option<DeployError>,
}

/// The view of an optional error.
pub open spec fn notice_view(notice: Option<DeployError>) -> Option<DeployErrorView> {
    match notice {
        Some(e) => Some(e@),
        None => None,
    }
}

/// Whether the engine `after` and the transition `t` are what `step`
/// says.
pub open spec fn yields(after: EngineView, t: Transition, step: Step) -> bool {
    &&& after == step.engine
    &&& t.action@ == step.action
    &&& notice_view(t.notice) == step.notice
}

/// One deployment: a target, the materials to put there, and the preset
/// they belong to.
pub struct Engine {
    target_root: String,
    materials: Vec<String>,
    pack: PackInfo,
    is_creator: Option<bool>,
    tool: Option<String>,
    phase: Phase,
}

impl View for Engine {
    type V = EngineView;

    closed spec fn view(&self) -> EngineView {
        EngineView {
            target_root: self.target_root@,
            materials: texts(self.materials@),
            pack: self.pack@,
            is_creator: self.is_creator,
            tool: match self.tool {
                Some(t) => Some(t@),
                None => None,
            },
            phase: self.phase,
        }
    }
}

impl Engine {
    /// A deployment of `materials` into `target_root` that has not begun.
    pub fn new(
        target_root: String,
        materials: Vec<String>,
        pack: PackInfo,
        is_creator: Option<bool>,
    ) -> (e: Self)
        ensures
            e@ == EngineView::initial(target_root@, texts(materials@), pack@, is_creator),
    {
        Engine { target_root, materials, pack, is_creator, tool: None, phase: Phase::Start }
    }

    /// Where the deployment stands.
    pub fn phase(&self) -> (p: Phase)
        ensures
            p == self@.phase,
    {
        self.phase
    }

    /// Whether the deployment has ended.
    pub fn is_finished(&self) -> (r: bool)
        ensures
            r == (self@.phase is Done || self@.phase is Failed),
    {
        match self.phase {
            Phase::Done => true,
            Phase::Failed => true,
            _ => false,
        }
    }

    /// The protection level of the target.
    pub fn protection(&self) -> (level: ProtectionLevel)
        ensures
            level == self@.level(),
    {
        classify(self.target_root.as_str())
    }

    fn move_to(&mut self, phase: Phase, action: Action) -> (t: Transition)
        ensures
            yields(final(self)@, t, old(self)@.moved(phase, action@)),
    {
        self.phase = phase;
        Transition { action, notice: None }
    }

    fn fail(&mut self, error: DeployError) -> (t: Transition)
        ensures
            yields(final(self)@, t, old(self)@.fails(error@)),
    {
        self.move_to(Phase::Failed, Action::Finish { outcome: DeployOutcome::Failed { error } })
    }

    fn succeed(&mut self, strategy: Strategy, now: Instant) -> (t: Transition)
        ensures
            yields(final(self)@, t, old(self)@.succeeds(strategy, now)),
    {
        let record = InstalledPreset::of_pack(&self.pack, now, self.is_creator);
        let target_root = self.target_root.clone();
        self.move_to(Phase::Recording { strategy }, Action::RecordInstalled { target_root, record })
    }

    fn begin_fallback(&mut self) -> (t: Transition)
        ensures
            yields(final(self)@, t, old(self)@.begins_fallback()),
    {
        let dir = materials_dir(self.target_root.as_str());
        match classify(self.target_root.as_str()) {
            ProtectionLevel::Open => self.move_to(
                Phase::DirectEnsuring,
                Action::EnsureDirectory { path: dir },
            ),
            ProtectionLevel::Protected => match elevated_invocation(
                dir.as_str(),
                &self.materials,
            ) {
                Some(invocation) => self.move_to(
                    Phase::Elevating,
                    Action::RunElevated { invocation },
                ),
                None => self.fail(DeployError::InvalidMaterialName),
            },
        }
    }

    fn fall_back(&mut self, reason: DeployError) -> (t: Transition)
        ensures
            yields(final(self)@, t, old(self)@.falls_back(reason@)),
    {
        let t = self.begin_fallback();
        Transition { action: t.action, notice: Some(reason) }
    }

    fn direct_turn_to(&mut self, index: usize, now: Instant) -> (t: Transition)
        ensures
            yields(final(self)@, t, old(self)@.direct_turns_to(index as int, now)),
    {
        if index < self.materials.len() {
            let path = self.materials[index].clone();
            self.move_to(Phase::DirectProbingSource { index }, Action::ProbeSource { path })
        } else {
            self.succeed(Strategy::DirectCopy, now)
        }
    }

    fn destination_at(&self, index: usize) -> (r: Option<String>)
        ensures
            match r {
                Some(d) => self@.destination(index) == Some(d@),
                None => self@.destination(index) is None,
            },
    {
        if index < self.materials.len() {
            let dir = materials_dir(self.target_root.as_str());
            destination(dir.as_str(), self.materials[index].as_str())
        } else {
            None
        }
    }

    fn direct_copy(&mut self, index: usize, dest: String) -> (t: Transition)
        requires
            index < old(self)@.materials.len(),
        ensures
            yields(final(self)@, t, old(self)@.direct_copies(index, dest@)),
    {
        let from = self.materials[index].clone();
        self.move_to(Phase::DirectCopying { index }, Action::CopyFile { from, to: dest })
    }

    fn delete_invocation(&self, tool: &str) -> (r: Invocation)
        ensures
            r@ == self@.delete_pass(tool@),
    {
        let targets = delete_targets(self.target_root.as_str(), &self.materials);
        let op = ToolOperation::Delete { targets };
        op.invocation(tool)
    }

    fn copy_invocation(&self, tool: &str) -> (r: Invocation)
        ensures
            r@ == self@.copy_pass(tool@),
    {
        let sources = copy_texts(&self.materials);
        let destination = materials_dir(self.target_root.as_str());
        let op = ToolOperation::Copy { sources, destination };
        op.invocation(tool)
    }

    fn after_preparing(&mut self, now: Instant) -> (t: Transition)
        requires
            old(self)@.phase is Preparing,
        ensures
            yields(
                final(self)@,
                t,
                old(self)@.step(EventView::Directory { result: Ok(()) }, now),
            ),
    {
        let invocation = match &self.tool {
            Some(tool) => Some(self.copy_invocation(tool.as_str())),
            None => None,
        };
        match invocation {
            Some(invocation) => {
                if self.materials.len() == 0 {
                    self.succeed(Strategy::Unlocker, now)
                } else {
                    self.move_to(Phase::Copying, Action::RunToolCopy { invocation })
                }
            },
            None => self.fail(DeployError::UnexpectedEvent),
        }
    }

    fn after_process(&mut self, outcome: ProcessOutcome, now: Instant) -> (t: Transition)
        ensures
            yields(
                final(self)@,
                t,
                old(self)@.step((Event::Process { outcome })@, now),
            ),
    {
        match self.phase {
            Phase::Deleting => match outcome {
                ProcessOutcome::SpawnFailed { detail } => self.fall_back(
                    DeployError::PrivilegedOperationFailed { detail },
                ),
                ProcessOutcome::Exited { .. } => {
                    let path = materials_dir(self.target_root.as_str());
                    self.move_to(Phase::Preparing, Action::PrepareDirectory { path })
                },
            },
            Phase::Copying => match outcome {
                ProcessOutcome::SpawnFailed { detail } => self.fall_back(
                    DeployError::PrivilegedOperationFailed { detail },
                ),
                ProcessOutcome::Exited { success, stderr } => {
                    if success {
                        self.succeed(Strategy::Unlocker, now)
                    } else {
                        self.fall_back(DeployError::PrivilegedOperationFailed { detail: stderr })
                    }
                },
            },
            Phase::Elevating => match outcome {
                ProcessOutcome::SpawnFailed { detail } => self.fail(
                    DeployError::SubprocessSpawnFailed { detail },
                ),
                ProcessOutcome::Exited { success, stderr } => {
                    if success {
                        self.succeed(Strategy::ElevatedFallback, now)
                    } else {
                        self.fail(DeployError::SubprocessNonZeroExit { stderr })
                    }
                },
            },
            _ => self.fail(DeployError::UnexpectedEvent),
        }
    }

    fn after_exists(&mut self, found: bool) -> (t: Transition)
        ensures
            forall|now: Instant|
                yields(final(self)@, t, #[trigger] old(self)@.step(EventView::Exists { found }, now)),
    {
        match self.phase {
            Phase::DirectProbingSource { index } => {
                if index >= self.materials.len() {
                    self.fail(DeployError::UnexpectedEvent)
                } else if !found {
                    let path = self.materials[index].clone();
                    self.fail(DeployError::SourceMaterialMissing { path })
                } else {
                    match self.destination_at(index) {
                        Some(dest) => self.move_to(
                            Phase::DirectProbingDestination { index },
                            Action::ProbeDestination { path: dest },
                        ),
                        None => self.fail(DeployError::InvalidMaterialName),
                    }
                }
            },
            Phase::DirectProbingDestination { index } => match self.destination_at(index) {
                Some(dest) => {
                    if found {
                        self.move_to(
                            Phase::DirectRemoving { index },
                            Action::RemoveDestination { path: dest },
                        )
                    } else {
                        self.direct_copy(index, dest)
                    }
                },
                None => self.fail(DeployError::UnexpectedEvent),
            },
            _ => self.fail(DeployError::UnexpectedEvent),
        }
    }

    fn after_directory(&mut self, result: Result<(), String>, now: Instant) -> (t: Transition)
        ensures
            yields(
                final(self)@,
                t,
                old(self)@.step((Event::Directory { result })@, now),
            ),
    {
        match self.phase {
            Phase::Preparing => self.after_preparing(now),
            Phase::DirectEnsuring => match result {
                Ok(_) => self.direct_turn_to(0, now),
                Err(detail) => {
                    let path = materials_dir(self.target_root.as_str());
                    self.fail(
                        DeployError::DestinationUnwritable {
                            stage: WriteStage::CreatingDirectory,
                            path,
                            detail,
                        },
                    )
                },
            },
            _ => self.fail(DeployError::UnexpectedEvent),
        }
    }

    fn after_copied(&mut self, result: Result<(), String>, now: Instant) -> (t: Transition)
        ensures
            yields(final(self)@, t, old(self)@.step((Event::Copied { result })@, now)),
    {
        match self.phase {
            Phase::DirectCopying { index } => match self.destination_at(index) {
                Some(dest) => match result {
                    Ok(_) => {
                        let count = self.materials.len();
                        assert(index < count) by {
                            assert(self@.destination(index) is Some);
                        }
                        self.direct_turn_to(index + 1, now)
                    },
                    Err(detail) => self.fail(
                        DeployError::DestinationUnwritable {
                            stage: WriteStage::CopyingFile,
                            path: dest,
                            detail,
                        },
                    ),
                },
                None => self.fail(DeployError::UnexpectedEvent),
            },
            _ => self.fail(DeployError::UnexpectedEvent),
        }
    }

    /// Takes one report from the outside world, at instant `now`, and says
    /// what is to be done next. The result is exactly what the transition
    /// function [`EngineView::step`] gives.
    pub fn step_at(&mut self, event: Event, now: Instant) -> (t: Transition)
        ensures
            yields(final(self)@, t, old(self)@.step(event@, now)),
    {
        match event {
            Event::Begin => match self.phase {
                Phase::Start => self.move_to(Phase::Locating, Action::LocateTool),
                _ => self.fail(DeployError::UnexpectedEvent),
            },
            Event::ToolLocated { path } => match self.phase {
                Phase::Locating => match path {
                    Some(tool) => {
                        let invocation = self.delete_invocation(tool.as_str());
                        self.tool = Some(tool);
                        self.move_to(Phase::Deleting, Action::RunToolDelete { invocation })
                    },
                    None => self.fall_back(DeployError::ToolNotFound),
                },
                _ => self.fail(DeployError::UnexpectedEvent),
            },
            Event::Process { outcome } => self.after_process(outcome, now),
            Event::Directory { result } => self.after_directory(result, now),
            Event::Exists { found } => self.after_exists(found),
            Event::Removed => match self.phase {
                Phase::DirectRemoving { index } => match self.destination_at(index) {
                    Some(dest) => self.direct_copy(index, dest),
                    None => self.fail(DeployError::UnexpectedEvent),
                },
                _ => self.fail(DeployError::UnexpectedEvent),
            },
            Event::Copied { result } => self.after_copied(result, now),
            Event::Recorded { saved } => match self.phase {
                Phase::Recording { strategy } => {
                    self.phase = Phase::Done;
                    Transition {
                        action: Action::Finish {
                            outcome: DeployOutcome::Installed { strategy, ledger_saved: saved },
                        },
                        notice: if saved {
                            None
                        } else {
                            Some(DeployError::LedgerWriteFailed)
                        },
                    }
                },
                _ => self.fail(DeployError::UnexpectedEvent),
            },
        }
    }

    /// Takes one report from the outside world and says what is to be done
    /// next, reading the system clock for the instant of the report.
    /// Whatever the clock reads, the result is what the transition function
    /// gives for that instant.
    pub fn step(&mut self, event: Event) -> (t: Transition)
        ensures
            exists|now: Instant| yields(final(self)@, t, old(self)@.step(event@, now)),
    {
        let now = Instant::now();
        let t = self.step_at(event, now);
        assert(yields(self@, t, old(self)@.step(event@, now)));
        t
    }
}

} // verus!
