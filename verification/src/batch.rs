//! Deploying to several targets in one call.
//!
//! Targets are taken in the order given and each has an outcome of its own.
//! Whether a failure stops the batch is the caller's choice, stated as a
//! [`BatchPolicy`].

use vstd::prelude::*;
use crate::command::holds_name;
use crate::engine::{DeployError, DeployErrorView, Strategy};
use crate::text::texts;

verus! {

/// What a failed target means for the targets after it.
#[derive(Clone, Copy, Debug, PartialEq, Eq, Structural)]
pub enum BatchPolicy {
    /// The targets after a failed one are not attempted.
    StopAtFirstFailure,
    /// Every target is attempted, whatever happened to the others.
    ContinueAfterFailure,
}

/// What became of one selected target.
#[derive(Debug, PartialEq, Eq)]
pub enum TargetStatus {
    /// The selection names no known installation; nothing was done.
    Skipped,
    /// The batch had stopped before this target's turn.
    NotAttempted,
    /// The materials are in place, put there by `strategy`.
    Installed { strategy: Strategy },
    /// The deployment to this target failed.
    Failed { error: DeployError },
}

/// What a [`TargetStatus`] holds, as text.
pub enum TargetStatusView {
    Skipped,
    NotAttempted,
    Installed { strategy: Strategy },
    Failed { error: DeployErrorView },
}

impl View for TargetStatus {
    type V = TargetStatusView;

    open spec fn view(&self) -> TargetStatusView {
        match self {
            TargetStatus::Skipped => TargetStatusView::Skipped,
            TargetStatus::NotAttempted => TargetStatusView::NotAttempted,
            TargetStatus::Installed { strategy } => TargetStatusView::Installed {
                strategy: *strategy,
            },
            TargetStatus::Failed { error } => TargetStatusView::Failed { error: error@ },
        }
    }
}

/// The views of a list of statuses, in order.
pub open spec fn status_views(list: Seq<TargetStatus>) -> Seq<TargetStatusView> {
    Seq::new(list.len(), |i: int| list[i]@)
}

/// What to do with the next selected target.
#[derive(Clone, Copy, Debug, PartialEq, Eq, Structural)]
pub enum Decision {
    /// Deploy to it.
    Deploy,
    /// It names no known installation: record it as skipped.
    SkipUnknown,
    /// The batch has stopped: record it as not attempted.
    Halt,
}

/// Whether one of `results` is a failure.
pub open spec fn any_failed(results: Seq<TargetStatusView>) -> bool {
    exists|i: int| 0 <= i < results.len() && results[i] is Failed
}

/// The position of the first failure among `results`.
pub open spec fn first_failure_of(results: Seq<TargetStatusView>) -> Option<int>
    decreases results.len(),
{
    if results.len() == 0 {
        None
    } else {
        match first_failure_of(results.drop_last()) {
            Some(i) => Some(i),
            None => if results.last() is Failed {
                Some(results.len() - 1)
            } else {
                None
            },
        }
    }
}

/// [`first_failure_of`] is the least position that holds a failure.
pub proof fn lemma_first_failure(results: Seq<TargetStatusView>)
    ensures
        match first_failure_of(results) {
            Some(i) => 0 <= i < results.len() && results[i] is Failed && forall|j: int|
                0 <= j < i ==> !(results[j] is Failed),
            None => !any_failed(results),
        },
    decreases results.len(),
{
    if results.len() > 0 {
        let front = results.drop_last();
        lemma_first_failure(front);
        match first_failure_of(front) {
            Some(i) => {
                assert(front[i] == results[i]);
                assert forall|j: int| 0 <= j < i implies !(results[j] is Failed) by {
                    assert(front[j] == results[j]);
                }
            },
            None => {
                assert forall|j: int| 0 <= j < front.len() implies !(results[j] is Failed) by {
                    assert(front[j] == results[j]);
                    if front[j] is Failed {
                        assert(any_failed(front));
                    }
                }
            },
        }
    }
}

/// What is to be done with the selection `name` after `results`: nothing
/// more once a failure has stopped the batch; else a deployment if the
/// name is that of a known installation, and a skip if it is not.
pub open spec fn decision_of(
    policy: BatchPolicy,
    known: Seq<Seq<char>>,
    name: Seq<char>,
    results: Seq<TargetStatusView>,
) -> Decision {
    if policy == BatchPolicy::StopAtFirstFailure && any_failed(results) {
        Decision::Halt
    } else if known.contains(name) {
        Decision::Deploy
    } else {
        Decision::SkipUnknown
    }
}

/// Computes [`first_failure_of`].
pub fn first_failure(results: &Vec<TargetStatus>) -> (r: Option<usize>)
    ensures
        match r {
            Some(i) => first_failure_of(status_views(results@)) == Some(i as int),
            None => first_failure_of(status_views(results@)) is None,
        },
{
    let ghost all = status_views(results@);
    let mut i: usize = 0;
    while i < results.len()
        invariant
            i <= results.len(),
            all == status_views(results@),
            forall|j: int| 0 <= j < i ==> !(all[j] is Failed),
        decreases results.len() - i,
    {
        match &results[i] {
            TargetStatus::Failed { .. } => {
                assert(all[i as int] is Failed);
                proof {
                    lemma_first_failure(all);
                    if first_failure_of(all) is None {
                        assert(any_failed(all));
                    } else {
                        let k = first_failure_of(all)->0;
                        if k < i {
                            assert(!(all[k] is Failed));
                        } else if k > i {
                            assert(!(all[i as int] is Failed));
                        }
                    }
                }
                return Some(i);
            },
            _ => {},
        }
        i = i + 1;
    }
    proof {
        lemma_first_failure(all);
        if first_failure_of(all) is Some {
            let k = first_failure_of(all)->0;
            assert(all[k] is Failed);
        }
    }
    None
}

/// Computes [`decision_of`].
pub fn decide(
    policy: BatchPolicy,
    known: &Vec<String>,
    name: &String,
    results: &Vec<TargetStatus>,
) -> (d: Decision)
    ensures
        d == decision_of(policy, texts(known@), name@, status_views(results@)),
{
    proof {
        lemma_first_failure(status_views(results@));
    }
    let stopped = match policy {
        BatchPolicy::StopAtFirstFailure => first_failure(results).is_some(),
        BatchPolicy::ContinueAfterFailure => false,
    };
    if stopped {
        Decision::Halt
    } else if holds_name(known, name) {
        Decision::Deploy
    } else {
        Decision::SkipUnknown
    }
}

/// The outcome of the whole batch: success where no target failed, and
/// else the position of the first target that did.
pub fn overall(results: &Vec<TargetStatus>) -> (r: Result<(), usize>)
    ensures
        match r {
            Ok(_) => !any_failed(status_views(results@)),
            Err(i) => first_failure_of(status_views(results@)) == Some(i as int) && i
                < results@.len() && results@[i as int] is Failed,
        },
{
    proof {
        lemma_first_failure(status_views(results@));
    }
    match first_failure(results) {
        Some(i) => Err(i),
        None => Ok(()),
    }
}

/// With `ContinueAfterFailure` no target is ever passed over because of
/// another target's failure; with `StopAtFirstFailure` a target is passed
/// over exactly when an earlier one has failed.
pub proof fn law_failures_and_later_targets(
    policy: BatchPolicy,
    known: Seq<Seq<char>>,
    name: Seq<char>,
    results: Seq<TargetStatusView>,
)
    ensures
        policy == BatchPolicy::ContinueAfterFailure ==> decision_of(policy, known, name, results)
            != Decision::Halt,
        policy == BatchPolicy::StopAtFirstFailure ==> (decision_of(policy, known, name, results)
            == Decision::Halt <==> any_failed(results)),
        decision_of(policy, known, name, results) == Decision::Deploy ==> known.contains(name),
{
}

} // verus!
