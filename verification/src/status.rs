//! What the status requests report of a repository's runs: how many are
//! still pending, and a summary of the latest one, both derived from step
//! results.

use crate::ipc::RunInfo;
use crate::types::{derived_from_steps, run_state_text, Run, RunState, StepResult};
use vstd::prelude::*;

verus! {

/// A run in this state still counts as pending: it is running, awaiting
/// approval, or has not started.
pub open spec fn counts_as_pending(s: RunState) -> bool {
    s == RunState::Running || s == RunState::AwaitingApproval || s == RunState::Pending
}

/// How many of the runs (each with its step results) still count as
/// pending.
pub open spec fn pending_count(runs: Seq<(Run, Vec<StepResult>)>) -> nat
    decreases runs.len(),
{
    if runs.len() == 0 {
        0
    } else {
        pending_count(runs.drop_last()) + if counts_as_pending(
            derived_from_steps(runs.last().0, runs.last().1@),
        ) {
            1nat
        } else {
            0nat
        }
    }
}

proof fn lemma_pending_count_bound(runs: Seq<(Run, Vec<StepResult>)>)
    ensures
        pending_count(runs) <= runs.len(),
    decreases runs.len(),
{
    if runs.len() > 0 {
        lemma_pending_count_bound(runs.drop_last());
    }
}

/// Adding a run to the list adds one to the pending count exactly when its
/// derived status is running, awaiting approval or pending.
pub proof fn law_pending_count_adds_unfinished_runs(runs: Seq<(Run, Vec<StepResult>)>, x: (Run, Vec<StepResult>))
    ensures
        pending_count(runs.push(x)) == pending_count(runs) + if derived_from_steps(x.0, x.1@) == RunState::Running
            || derived_from_steps(x.0, x.1@) == RunState::AwaitingApproval || derived_from_steps(x.0, x.1@)
            == RunState::Pending {
            1int
        } else {
            0int
        },
{
    assert(runs.push(x).drop_last() =~= runs);
}

/// A run that is not superseded and has a step awaiting approval is
/// awaiting approval, so it counts as pending.
pub proof fn law_awaiting_run_counts_as_pending(runs: Seq<(Run, Vec<StepResult>)>, x: (Run, Vec<StepResult>), k: int)
    requires
        !x.0.superseded,
        0 <= k < x.1@.len(),
        x.1@[k].status == crate::types::StepStatus::AwaitingApproval,
    ensures
        derived_from_steps(x.0, x.1@) == RunState::AwaitingApproval,
        pending_count(runs.push(x)) == pending_count(runs) + 1,
{
    assert(runs.push(x).drop_last() =~= runs);
    assert(crate::types::any_step(x.1@, |s: crate::types::StepStatus| s == crate::types::StepStatus::AwaitingApproval));
}

/// The number of runs, each given with its step results, whose status
/// derived from those steps is running, awaiting approval or pending.
pub fn count_pending_runs(runs: &[(Run, Vec<StepResult>)]) -> (r: u32)
    requires
        runs@.len() <= u32::MAX,
    ensures
        r == pending_count(runs@),
{
    let mut count: u32 = 0;
    let mut i: usize = 0;
    while i < runs.len()
        invariant
            i <= runs@.len(),
            runs@.len() <= u32::MAX,
            count == pending_count(runs@.take(i as int)),
        decreases runs.len() - i,
    {
        proof {
            assert(runs@.take(i + 1).drop_last() =~= runs@.take(i as int));
            assert(runs@.take(i + 1).last() == runs@[i as int]);
            lemma_pending_count_bound(runs@.take(i as int));
        }
        let s = runs[i].0.derived_state(runs[i].1.as_slice());
        if s == RunState::Running || s == RunState::AwaitingApproval || s == RunState::Pending {
            count = count + 1;
        }
        i = i + 1;
    }
    proof {
        assert(runs@.take(runs@.len() as int) =~= runs@);
    }
    count
}

/// The latest completion time among the steps, if any step has one.
pub open spec fn max_step_completed(steps: Seq<StepResult>) -> Option<i64>
    decreases steps.len(),
{
    if steps.len() == 0 {
        None
    } else {
        let rest = max_step_completed(steps.drop_last());
        match steps.last().completed_at {
            None => rest,
            Some(t) => match rest {
                None => Some(t),
                Some(m) => Some(
                    if t > m {
                        t
                    } else {
                        m
                    },
                ),
            },
        }
    }
}

fn latest_step_completion(steps: &[StepResult]) -> (r: Option<i64>)
    ensures
        r == max_step_completed(steps@),
{
    let mut best: Option<i64> = None;
    let mut i: usize = 0;
    while i < steps.len()
        invariant
            i <= steps@.len(),
            best == max_step_completed(steps@.take(i as int)),
        decreases steps.len() - i,
    {
        proof {
            assert(steps@.take(i + 1).drop_last() =~= steps@.take(i as int));
            assert(steps@.take(i + 1).last() == steps@[i as int]);
        }
        match steps[i].completed_at {
            None => {},
            Some(t) => {
                best = match best {
                    None => Some(t),
                    Some(m) => Some(if t > m { t } else { m }),
                };
            },
        }
        i = i + 1;
    }
    proof {
        assert(steps@.take(steps@.len() as int) =~= steps@);
    }
    best
}

/// The summary of a repository's latest run in a status answer: its status
/// derived from its steps, its branch (none when empty), and, once it has
/// completed or failed, the latest completion time of its steps.
pub fn status_run_info(run: &Run, steps: &[StepResult]) -> (info: RunInfo)
    ensures
        info.id == run.id,
        info.repo_id is None,
        info.repo_name is None,
        info.status@ == run_state_text(derived_from_steps(*run, steps@)),
        info.branch == if run.branch@.len() == 0 {
            None::<String>
        } else {
            Some(run.branch)
        },
        info.base_sha is None,
        info.head_sha is None,
        info.current_step == run.current_step,
        info.created_at == run.created_at,
        info.updated_at == Some(run.updated_at),
        info.completed_at == if derived_from_steps(*run, steps@) == RunState::Completed
            || derived_from_steps(*run, steps@) == RunState::Failed {
            max_step_completed(steps@)
        } else {
            None::<i64>
        },
        info.error == run.error,
{
    let state = run.derived_state(steps);
    let completed_at = if state == RunState::Completed || state == RunState::Failed {
        latest_step_completion(steps)
    } else {
        None
    };
    RunInfo {
        id: run.id.clone(),
        repo_id: None,
        repo_name: None,
        status: crate::types::run_state_str(state).to_string(),
        branch: if run.branch.unicode_len() == 0 {
            None
        } else {
            Some(run.branch.clone())
        },
        base_sha: None,
        head_sha: None,
        current_step: match &run.current_step {
            Some(s) => Some(s.clone()),
            None => None,
        },
        created_at: run.created_at,
        updated_at: Some(run.updated_at),
        completed_at,
        error: match &run.error {
            Some(s) => Some(s.clone()),
            None => None,
        },
    }
}

} // verus!
