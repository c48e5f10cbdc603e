//! A model of the files that DirectCopy reads and writes, and what a
//! deployment leaves there.
//!
//! The model is a map from path to contents. It answers the engine's
//! actions as a file system would where directories can always be made,
//! the privileged tool is not installed and the ledger can be written.

use vstd::prelude::*;
use crate::cache::PackInfoView;
use crate::clock::Instant;
use crate::command::destination_of;
use crate::engine::{
    ActionView, DeployErrorView, DeployOutcomeView, EngineView, EventView, Phase, Strategy,
};
use crate::path::{materials_dir_of, protection_of, ProtectionLevel};

verus! {

/// The files of the model: contents by path.
pub type Files = Map<Seq<char>, Seq<u8>>;

/// What the model reports for an action, and its files after the action.
pub open spec fn respond(files: Files, action: ActionView) -> (Files, EventView) {
    match action {
        ActionView::LocateTool => (files, EventView::ToolLocated { path: None }),
        ActionView::EnsureDirectory { .. } => (files, EventView::Directory { result: Ok(()) }),
        ActionView::ProbeSource { path } => (
            files,
            EventView::Exists { found: files.contains_key(path) },
        ),
        ActionView::ProbeDestination { path } => (
            files,
            EventView::Exists { found: files.contains_key(path) },
        ),
        ActionView::RemoveDestination { path } => (files.remove(path), EventView::Removed),
        ActionView::CopyFile { from, to } => if files.contains_key(from) {
            (files.insert(to, files[from]), EventView::Copied { result: Ok(()) })
        } else {
            (files, EventView::Copied { result: Err(Seq::empty()) })
        },
        ActionView::RecordInstalled { .. } => (files, EventView::Recorded { saved: true }),
        _ => (files, EventView::Begin),
    }
}

/// The files and the outcome that a deployment ends with when the model
/// answers each of its actions, if it ends within `fuel` steps.
pub open spec fn run(files: Files, e: EngineView, event: EventView, now: Instant, fuel: nat)
    -> Option<(Files, DeployOutcomeView)>
    decreases fuel,
{
    if fuel == 0 {
        None
    } else {
        match e.step(event, now).action {
            ActionView::Finish { outcome } => Some((files, outcome)),
            action => run(
                respond(files, action).0,
                e.step(event, now).engine,
                respond(files, action).1,
                now,
                (fuel - 1) as nat,
            ),
        }
    }
}

/// Whether DirectCopy can put `materials` into `dir` over and over: each
/// material exists and has a file name, and none of them lies where one of
/// them is copied to.
pub open spec fn can_repeat(files: Files, dir: Seq<char>, materials: Seq<Seq<char>>) -> bool {
    &&& forall|i: int|
        0 <= i < materials.len() ==> files.contains_key(#[trigger] materials[i])
            && destination_of(dir, materials[i]) is Some
    &&& forall|i: int, j: int|
        0 <= i < materials.len() && 0 <= j < materials.len() ==> destination_of(
            dir,
            #[trigger] materials[i],
        ) != Some(#[trigger] materials[j])
}

/// The files after the materials from position `from` on were copied into
/// `dir`, one after another.
pub open spec fn copied_from(files: Files, dir: Seq<char>, materials: Seq<Seq<char>>, from: int)
    -> Files
    decreases materials.len() - from,
{
    if from < 0 || from >= materials.len() {
        files
    } else {
        copied_from(
            files.insert(destination_of(dir, materials[from])->0, files[materials[from]]),
            dir,
            materials,
            from + 1,
        )
    }
}

/// The last material from position `from` on that is copied to `path`.
pub open spec fn writer_of(path: Seq<char>, dir: Seq<char>, materials: Seq<Seq<char>>, from: int)
    -> Option<int>
    decreases materials.len() - from,
{
    if from < 0 || from >= materials.len() {
        None
    } else {
        match writer_of(path, dir, materials, from + 1) {
            Some(j) => Some(j),
            None => if destination_of(dir, materials[from]) == Some(path) {
                Some(from)
            } else {
                None
            },
        }
    }
}

/// The writer of a path is a material that is copied to it.
proof fn lemma_writer_of(path: Seq<char>, dir: Seq<char>, materials: Seq<Seq<char>>, from: int)
    requires
        0 <= from,
    ensures
        match writer_of(path, dir, materials, from) {
            Some(j) => from <= j < materials.len() && destination_of(dir, materials[j]) == Some(
                path,
            ),
            None => forall|j: int|
                from <= j < materials.len() ==> destination_of(dir, #[trigger] materials[j])
                    != Some(path),
        },
    decreases materials.len() - from,
{
    if from < materials.len() {
        lemma_writer_of(path, dir, materials, from + 1);
    }
}

/// After the copying, a path that some material was copied to holds what
/// its last writer held before, and every other path is as it was.
proof fn lemma_copied_from(
    files: Files,
    dir: Seq<char>,
    materials: Seq<Seq<char>>,
    from: int,
    path: Seq<char>,
)
    requires
        0 <= from,
        can_repeat(files, dir, materials),
    ensures
        match writer_of(path, dir, materials, from) {
            Some(j) => copied_from(files, dir, materials, from).contains_key(path) && copied_from(
                files,
                dir,
                materials,
                from,
            )[path] == files[materials[j]],
            None => copied_from(files, dir, materials, from).contains_key(path)
                == files.contains_key(path) && (files.contains_key(path) ==> copied_from(
                files,
                dir,
                materials,
                from,
            )[path] == files[path]),
        },
    decreases materials.len() - from,
{
    if from < materials.len() {
        let dest = destination_of(dir, materials[from])->0;
        let next = files.insert(dest, files[materials[from]]);
        assert(can_repeat(next, dir, materials)) by {
            assert forall|i: int| 0 <= i < materials.len() implies next.contains_key(
                #[trigger] materials[i],
            ) && destination_of(dir, materials[i]) is Some by {}
        }
        lemma_copied_from(next, dir, materials, from + 1, path);
        lemma_writer_of(path, dir, materials, from + 1);
        match writer_of(path, dir, materials, from + 1) {
            Some(j) => {
                assert(destination_of(dir, materials[from]) != Some(materials[j]));
            },
            None => {},
        }
    }
}

/// After the materials were copied once, every material is where it was
/// and holds what it held.
proof fn lemma_sources_stay(files: Files, dir: Seq<char>, materials: Seq<Seq<char>>, i: int)
    requires
        can_repeat(files, dir, materials),
        0 <= i < materials.len(),
    ensures
        copied_from(files, dir, materials, 0).contains_key(materials[i]),
        copied_from(files, dir, materials, 0)[materials[i]] == files[materials[i]],
{
    lemma_copied_from(files, dir, materials, 0, materials[i]);
    lemma_writer_of(materials[i], dir, materials, 0);
    if writer_of(materials[i], dir, materials, 0) is Some {
        let j = writer_of(materials[i], dir, materials, 0)->0;
        assert(destination_of(dir, materials[j]) != Some(materials[i]));
    }
}

/// Copying the materials a second time leaves `path` as the first copying
/// left it.
proof fn lemma_same_at(files: Files, dir: Seq<char>, materials: Seq<Seq<char>>, path: Seq<char>)
    requires
        can_repeat(files, dir, materials),
        can_repeat(copied_from(files, dir, materials, 0), dir, materials),
    ensures
        copied_from(copied_from(files, dir, materials, 0), dir, materials, 0).contains_key(path)
            == copied_from(files, dir, materials, 0).contains_key(path),
        copied_from(files, dir, materials, 0).contains_key(path) ==> copied_from(
            copied_from(files, dir, materials, 0),
            dir,
            materials,
            0,
        )[path] == copied_from(files, dir, materials, 0)[path],
{
    let once = copied_from(files, dir, materials, 0);
    lemma_copied_from(files, dir, materials, 0, path);
    lemma_copied_from(once, dir, materials, 0, path);
    lemma_writer_of(path, dir, materials, 0);
    match writer_of(path, dir, materials, 0) {
        Some(j) => {
            lemma_sources_stay(files, dir, materials, j);
        },
        None => {},
    }
}

/// Copying the materials a second time changes nothing.
proof fn lemma_copying_twice(files: Files, dir: Seq<char>, materials: Seq<Seq<char>>)
    requires
        can_repeat(files, dir, materials),
    ensures
        can_repeat(copied_from(files, dir, materials, 0), dir, materials),
        copied_from(copied_from(files, dir, materials, 0), dir, materials, 0) == copied_from(
            files,
            dir,
            materials,
            0,
        ),
{
    let once = copied_from(files, dir, materials, 0);
    assert forall|i: int| 0 <= i < materials.len() implies once.contains_key(
        #[trigger] materials[i],
    ) by {
        lemma_sources_stay(files, dir, materials, i);
    }
    assert(can_repeat(once, dir, materials));
    let twice = copied_from(once, dir, materials, 0);
    assert forall|path: Seq<char>| #[trigger]
        twice.dom().contains(path) == once.dom().contains(path) by {
        lemma_same_at(files, dir, materials, path);
    }
    assert forall|path: Seq<char>| once.dom().contains(path) implies #[trigger] twice[path]
        == once[path] by {
        lemma_same_at(files, dir, materials, path);
    }
    assert(twice =~= once);
}

/// One step of [`run`], written out.
proof fn lemma_run_unfolds(files: Files, e: EngineView, event: EventView, now: Instant, fuel: nat)
    requires
        fuel > 0,
    ensures
        run(files, e, event, now, fuel) == match e.step(event, now).action {
            ActionView::Finish { outcome } => Some((files, outcome)),
            action => run(
                respond(files, action).0,
                e.step(event, now).engine,
                respond(files, action).1,
                now,
                (fuel - 1) as nat,
            ),
        },
{
}

/// The outcome of a DirectCopy that went through.
pub open spec fn direct_copy_done() -> DeployOutcomeView {
    DeployOutcomeView::Installed { strategy: Strategy::DirectCopy, ledger_saved: true }
}

/// A deployment whose DirectCopy has copied every material records the
/// installation and ends well.
proof fn lemma_run_to_the_end(files: Files, e: EngineView, strategy: Strategy, now: Instant, fuel: nat)
    requires
        e.phase == (Phase::Recording { strategy }),
        fuel >= 1,
    ensures
        run(files, e, EventView::Recorded { saved: true }, now, fuel) == Some(
            (files, DeployOutcomeView::Installed { strategy, ledger_saved: true }),
        ),
{
    lemma_run_unfolds(files, e, EventView::Recorded { saved: true }, now, fuel);
}

/// A deployment that has just copied material `index` of DirectCopy copies
/// the remaining materials and ends well.
proof fn lemma_run_after_copy(files: Files, e: EngineView, index: int, now: Instant, fuel: nat)
    requires
        0 <= index < e.materials.len(),
        e.materials.len() <= usize::MAX,
        e.phase == (Phase::DirectCopying { index: index as usize }),
        can_repeat(files, e.dest_dir(), e.materials),
        fuel >= 4 * (e.materials.len() - index - 1) + 2,
    ensures
        run(files, e, EventView::Copied { result: Ok(()) }, now, fuel) == Some(
            (copied_from(files, e.dest_dir(), e.materials, index + 1), direct_copy_done()),
        ),
    decreases e.materials.len() - index, 0int,
{
    let event = EventView::Copied { result: Ok(()) };
    assert(files.contains_key(e.materials[index]) && destination_of(
        e.dest_dir(),
        e.materials[index],
    ) is Some);
    assert(e.destination(index as usize) is Some);
    lemma_run_unfolds(files, e, event, now, fuel);
    if index + 1 < e.materials.len() {
        let next = EngineView {
            phase: Phase::DirectProbingSource { index: (index + 1) as usize },
            ..e
        };
        assert(e.step(event, now).engine == next);
        assert(e.step(event, now).action == (ActionView::ProbeSource {
            path: e.materials[index + 1],
        }));
        assert(files.contains_key(e.materials[index + 1]));
        assert(next.dest_dir() == e.dest_dir());
        lemma_run_from_material(files, next, index + 1, now, (fuel - 1) as nat);
    } else {
        let recording = EngineView {
            phase: Phase::Recording { strategy: Strategy::DirectCopy },
            ..e
        };
        assert(e.step(event, now).engine == recording);
        assert(e.step(event, now).action is RecordInstalled);
        lemma_run_to_the_end(files, recording, Strategy::DirectCopy, now, (fuel - 1) as nat);
    }
}

/// A deployment that stands before material `index` of DirectCopy, and is
/// told that the material exists, copies the remaining materials and ends
/// well.
proof fn lemma_run_from_material(
    files: Files,
    e: EngineView,
    index: int,
    now: Instant,
    fuel: nat,
)
    requires
        0 <= index < e.materials.len(),
        e.materials.len() <= usize::MAX,
        e.phase == (Phase::DirectProbingSource { index: index as usize }),
        can_repeat(files, e.dest_dir(), e.materials),
        fuel >= 4 * (e.materials.len() - index) + 1,
    ensures
        run(files, e, EventView::Exists { found: true }, now, fuel) == Some(
            (copied_from(files, e.dest_dir(), e.materials, index), direct_copy_done()),
        ),
    decreases e.materials.len() - index, 1int,
{
    let dir = e.dest_dir();
    let source = e.materials[index];
    assert(files.contains_key(source) && destination_of(dir, source) is Some);
    let dest = destination_of(dir, source)->0;
    assert(destination_of(dir, e.materials[index]) != Some(e.materials[index]));
    let next_files = files.insert(dest, files[source]);
    assert(can_repeat(next_files, dir, e.materials)) by {
        assert forall|i: int| 0 <= i < e.materials.len() implies next_files.contains_key(
            #[trigger] e.materials[i],
        ) && destination_of(dir, e.materials[i]) is Some by {}
    }
    let probing = EngineView {
        phase: Phase::DirectProbingDestination { index: index as usize },
        ..e
    };
    let removing = EngineView { phase: Phase::DirectRemoving { index: index as usize }, ..e };
    let copying = EngineView { phase: Phase::DirectCopying { index: index as usize }, ..e };
    assert(e.destination(index as usize) == Some(dest));
    assert(probing.destination(index as usize) == Some(dest));
    assert(removing.destination(index as usize) == Some(dest));
    assert(copying.dest_dir() == dir);
    let copy = ActionView::CopyFile { from: source, to: dest };

    let found = EventView::Exists { found: true };
    assert(e.step(found, now).engine == probing);
    assert(e.step(found, now).action == (ActionView::ProbeDestination { path: dest }));
    lemma_run_unfolds(files, e, found, now, fuel);
    if files.contains_key(dest) {
        assert(probing.step(found, now).engine == removing);
        assert(probing.step(found, now).action == (ActionView::RemoveDestination { path: dest }));
        lemma_run_unfolds(files, probing, found, now, (fuel - 1) as nat);
        let removed = files.remove(dest);
        assert(removing.step(EventView::Removed, now).engine == copying);
        assert(removing.step(EventView::Removed, now).action == copy);
        lemma_run_unfolds(removed, removing, EventView::Removed, now, (fuel - 2) as nat);
        assert(removed.contains_key(source));
        assert(removed.insert(dest, removed[source]) =~= next_files);
        assert(respond(removed, copy) == (next_files, EventView::Copied { result: Ok(()) }));
        lemma_run_after_copy(next_files, copying, index, now, (fuel - 3) as nat);
    } else {
        let missing = EventView::Exists { found: false };
        assert(probing.step(missing, now).engine == copying);
        assert(probing.step(missing, now).action == copy);
        lemma_run_unfolds(files, probing, missing, now, (fuel - 1) as nat);
        assert(respond(files, copy) == (next_files, EventView::Copied { result: Ok(()) }));
        lemma_run_after_copy(next_files, copying, index, now, (fuel - 2) as nat);
    }
}

/// Deploying the same materials twice to the same target in ordinary
/// storage, without the privileged tool, succeeds both times by
/// DirectCopy, and the second deployment leaves every file as the first
/// left it. This holds where each material exists and has a file name
/// and none of them lies where one of them is copied to.
pub proof fn law_direct_copy_is_idempotent(
    files: Files,
    target_root: Seq<char>,
    materials: Seq<Seq<char>>,
    pack: PackInfoView,
    is_creator: Option<bool>,
    first: Instant,
    second: Instant,
)
    requires
        protection_of(target_root) == ProtectionLevel::Open,
        materials.len() <= usize::MAX,
        can_repeat(files, materials_dir_of(target_root), materials),
    ensures
        ({
            let e = EngineView::initial(target_root, materials, pack, is_creator);
            let fuel = (4 * materials.len() + 6) as nat;
            let done = direct_copy_done();
            let after = copied_from(files, materials_dir_of(target_root), materials, 0);
            &&& run(files, e, EventView::Begin, first, fuel) == Some((after, done))
            &&& run(after, e, EventView::Begin, second, fuel) == Some((after, done))
        }),
{
    let e = EngineView::initial(target_root, materials, pack, is_creator);
    let dir = materials_dir_of(target_root);
    let after = copied_from(files, dir, materials, 0);
    lemma_copying_twice(files, dir, materials);
    lemma_run_whole(files, e, first);
    lemma_run_whole(after, e, second);
}

/// A fresh deployment to a target in ordinary storage runs DirectCopy to
/// its end.
proof fn lemma_run_whole(files: Files, e: EngineView, now: Instant)
    requires
        e.phase == Phase::Start,
        e.level() == ProtectionLevel::Open,
        e.materials.len() <= usize::MAX,
        can_repeat(files, e.dest_dir(), e.materials),
    ensures
        run(files, e, EventView::Begin, now, (4 * e.materials.len() + 6) as nat) == Some(
            (copied_from(files, e.dest_dir(), e.materials, 0), direct_copy_done()),
        ),
{
    let fuel = (4 * e.materials.len() + 6) as nat;
    let locating = EngineView { phase: Phase::Locating, ..e };
    let ensuring = EngineView { phase: Phase::DirectEnsuring, ..e };
    assert(e.step(EventView::Begin, now).engine == locating);
    assert(e.step(EventView::Begin, now).action == ActionView::LocateTool);
    lemma_run_unfolds(files, e, EventView::Begin, now, fuel);
    let absent = EventView::ToolLocated { path: None };
    assert(locating.level() == ProtectionLevel::Open);
    assert(locating.step(absent, now).engine == ensuring);
    assert(locating.step(absent, now).action == (ActionView::EnsureDirectory {
        path: e.dest_dir(),
    }));
    lemma_run_unfolds(files, locating, absent, now, (fuel - 1) as nat);
    let made = EventView::Directory { result: Ok(()) };
    lemma_run_unfolds(files, ensuring, made, now, (fuel - 2) as nat);
    if e.materials.len() > 0 {
        let probing = EngineView { phase: Phase::DirectProbingSource { index: 0 }, ..e };
        assert(ensuring.step(made, now).engine == probing);
        assert(ensuring.step(made, now).action == (ActionView::ProbeSource {
            path: e.materials[0],
        }));
        assert(probing.dest_dir() == e.dest_dir());
        assert(files.contains_key(e.materials[0]));
        lemma_run_from_material(files, probing, 0, now, (fuel - 3) as nat);
    } else {
        let recording = EngineView {
            phase: Phase::Recording { strategy: Strategy::DirectCopy },
            ..e
        };
        assert(ensuring.step(made, now).engine == recording);
        assert(ensuring.step(made, now).action is RecordInstalled);
        lemma_run_to_the_end(files, recording, Strategy::DirectCopy, now, (fuel - 3) as nat);
    }
}

} // verus!
