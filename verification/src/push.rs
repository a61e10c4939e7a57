//! What the push handlers decide: which refs of a push go through a
//! pipeline and which are forwarded at once, which base commit each run is
//! diffed against, which runs a push creates, which pushes were missed while
//! the daemon was down, and which protective refs are stale.

use crate::pipeline::{null_sha, opt_text};
use crate::push_coalescer::has_ref;
use crate::push_coalescer::refs_view;
use crate::text::{push_str, seq_starts_with, starts_with, str_eq, strip_prefix, trim, trim_seq};
use crate::types::{JobResult, JobStatus, RefUpdate, Run};
use crate::workflow::WorkflowConfig;
use vstd::prelude::*;

verus! {

// =============================================================================
// Ref names
// =============================================================================

/// The marker ref that records a push of `branch` to the local gate.
pub fn push_marker_ref(branch: &str) -> (r: String)
    ensures
        r@ == "refs/airlock/pushed/"@ + branch@,
{
    let mut s = "refs/airlock/pushed/".to_string();
    push_str(&mut s, branch);
    s
}

/// The ref that keeps a run's head commit from being collected.
pub fn run_ref(run_id: &str) -> (r: String)
    ensures
        r@ == "refs/airlock/runs/"@ + run_id@,
{
    let mut s = "refs/airlock/runs/".to_string();
    push_str(&mut s, run_id);
    s
}

/// The ref that tracks the upstream state of `branch`.
pub fn tracking_ref(branch: &str) -> (r: String)
    ensures
        r@ == "refs/remotes/origin/"@ + branch@,
{
    let mut s = "refs/remotes/origin/".to_string();
    push_str(&mut s, branch);
    s
}

/// The tracking ref that a forward of `ref_name` moves: that of its branch,
/// or none for a ref that is not a branch.
pub fn forwarded_tracking_ref(ref_name: &str) -> (r: Option<String>)
    ensures
        seq_starts_with(ref_name@, "refs/heads/"@) ==> (r matches Some(t) && t@ == "refs/remotes/origin/"@
            + ref_name@.skip(11)),
        !seq_starts_with(ref_name@, "refs/heads/"@) ==> r is None,
{
    proof {
        reveal_strlit("refs/heads/");
    }
    match strip_prefix(ref_name, "refs/heads/") {
        Some(b) => Some(tracking_ref(b)),
        None => None,
    }
}

/// The update goes through a pipeline: it updates a branch and does not
/// delete it. Tags, deletions and other refs are forwarded at once.
pub open spec fn pipeline_ref(u: RefUpdate) -> bool {
    seq_starts_with(u.ref_name@, "refs/heads/"@) && !null_sha(u.new_sha@)
}

/// Whether the update goes through a pipeline.
pub fn is_pipeline_ref(u: &RefUpdate) -> (r: bool)
    ensures
        r == pipeline_ref(*u),
{
    starts_with(u.ref_name.as_str(), "refs/heads/") && !crate::pipeline::is_null_sha(u.new_sha.as_str())
}

/// The updates for which `keep` is `pipeline_ref`, in order.
pub open spec fn split_refs(s: Seq<RefUpdate>, pipeline: bool) -> Seq<RefUpdate>
    decreases s.len(),
{
    if s.len() == 0 {
        Seq::empty()
    } else if pipeline_ref(s.last()) == pipeline {
        split_refs(s.drop_last(), pipeline).push(s.last())
    } else {
        split_refs(s.drop_last(), pipeline)
    }
}

pub(crate) fn copy_update(u: &RefUpdate) -> (r: RefUpdate)
    ensures
        crate::push_coalescer::ref_view(r) == crate::push_coalescer::ref_view(*u),
{
    RefUpdate { ref_name: u.ref_name.clone(), old_sha: u.old_sha.clone(), new_sha: u.new_sha.clone() }
}

/// Splits a push into the updates that go through a pipeline and those
/// forwarded at once, each in order.
pub fn partition_refs(updates: &[RefUpdate]) -> (r: (Vec<RefUpdate>, Vec<RefUpdate>))
    ensures
        refs_view(r.0@) == refs_view(split_refs(updates@, true)),
        refs_view(r.1@) == refs_view(split_refs(updates@, false)),
{
    let mut pipe: Vec<RefUpdate> = Vec::new();
    let mut pass: Vec<RefUpdate> = Vec::new();
    let mut i: usize = 0;
    while i < updates.len()
        invariant
            i <= updates@.len(),
            refs_view(pipe@) == refs_view(split_refs(updates@.take(i as int), true)),
            refs_view(pass@) == refs_view(split_refs(updates@.take(i as int), false)),
        decreases updates.len() - i,
    {
        proof {
            assert(updates@.take(i + 1).drop_last() =~= updates@.take(i as int));
            assert(updates@.take(i + 1).last() == updates@[i as int]);
        }
        let u = copy_update(&updates[i]);
        if is_pipeline_ref(&updates[i]) {
            let ghost before = pipe@;
            pipe.push(u);
            proof {
                assert(refs_view(pipe@) =~= refs_view(before).push(
                    crate::push_coalescer::ref_view(updates@[i as int]),
                ));
                assert(refs_view(split_refs(updates@.take(i + 1), true)) =~= refs_view(
                    split_refs(updates@.take(i as int), true),
                ).push(crate::push_coalescer::ref_view(updates@[i as int])));
            }
        } else {
            let ghost before = pass@;
            pass.push(u);
            proof {
                assert(refs_view(pass@) =~= refs_view(before).push(
                    crate::push_coalescer::ref_view(updates@[i as int]),
                ));
                assert(refs_view(split_refs(updates@.take(i + 1), false)) =~= refs_view(
                    split_refs(updates@.take(i as int), false),
                ).push(crate::push_coalescer::ref_view(updates@[i as int])));
            }
        }
        i = i + 1;
    }
    proof {
        assert(updates@.take(updates@.len() as int) =~= updates@);
    }
    (pipe, pass)
}

/// Every update of a push lands on exactly one side of the split, and an
/// update goes through a pipeline exactly when it updates a branch without
/// deleting it.
pub proof fn law_partition_is_exact(s: Seq<RefUpdate>)
    ensures
        split_refs(s, true).len() + split_refs(s, false).len() == s.len(),
        forall|i: int| 0 <= i < split_refs(s, true).len() ==> pipeline_ref(#[trigger] split_refs(s, true)[i]),
        forall|i: int| 0 <= i < split_refs(s, false).len() ==> !pipeline_ref(#[trigger] split_refs(s, false)[i]),
    decreases s.len(),
{
    if s.len() > 0 {
        law_partition_is_exact(s.drop_last());
        let a = split_refs(s.drop_last(), true);
        let b = split_refs(s.drop_last(), false);
        assert forall|i: int| 0 <= i < split_refs(s, true).len() implies pipeline_ref(
            #[trigger] split_refs(s, true)[i],
        ) by {
            if i < a.len() {
                assert(split_refs(s, true)[i] == a[i]);
            }
        }
        assert forall|i: int| 0 <= i < split_refs(s, false).len() implies !pipeline_ref(
            #[trigger] split_refs(s, false)[i],
        ) by {
            if i < b.len() {
                assert(split_refs(s, false)[i] == b[i]);
            }
        }
    }
}

// =============================================================================
// Base commits
// =============================================================================

/// The base sha of the last of `runs` that updates ref `name`, if any.
pub open spec fn last_base_for(runs: Seq<Run>, name: Seq<char>) -> Option<Seq<char>>
    decreases runs.len(),
{
    if runs.len() == 0 {
        None
    } else if crate::push_coalescer::run_has_ref(runs.last(), name) {
        Some(runs.last().base_sha@)
    } else {
        last_base_for(runs.drop_last(), name)
    }
}

fn run_updates_ref(run: &Run, name: &str) -> (r: bool)
    ensures
        r == crate::push_coalescer::run_has_ref(*run, name@),
{
    let mut j: usize = 0;
    while j < run.ref_updates.len()
        invariant
            j <= run.ref_updates@.len(),
            forall|k: int| 0 <= k < j ==> (#[trigger] refs_view(run.ref_updates@)[k]).0 != name@,
        decreases run.ref_updates.len() - j,
    {
        if str_eq(run.ref_updates[j].ref_name.as_str(), name) {
            assert(refs_view(run.ref_updates@)[j as int].0 == name@);
            return true;
        }
        j = j + 1;
    }
    false
}

/// Gives each update the base sha of the last superseded run that updated
/// the same ref, so that a superseding run still covers what the superseded
/// one had not yet forwarded; other updates are unchanged.
pub fn inherit_superseded_bases(updates: &mut Vec<RefUpdate>, superseded: &[Run])
    ensures
        final(updates)@.len() == old(updates)@.len(),
        forall|i: int|
            0 <= i < old(updates)@.len() ==> (#[trigger] final(updates)@[i]).ref_name@ == old(
                updates,
            )@[i].ref_name@ && final(updates)@[i].new_sha@ == old(updates)@[i].new_sha@
                && final(updates)@[i].old_sha@ == match last_base_for(
                superseded@,
                old(updates)@[i].ref_name@,
            ) {
                Some(b) => b,
                None => old(updates)@[i].old_sha@,
            },
{
    let mut k: usize = 0;
    while k < superseded.len()
        invariant
            k <= superseded@.len(),
            updates@.len() == old(updates)@.len(),
            forall|i: int|
                0 <= i < old(updates)@.len() ==> (#[trigger] updates@[i]).ref_name@ == old(
                    updates,
                )@[i].ref_name@ && updates@[i].new_sha@ == old(updates)@[i].new_sha@
                    && updates@[i].old_sha@ == match last_base_for(
                    superseded@.take(k as int),
                    old(updates)@[i].ref_name@,
                ) {
                    Some(b) => b,
                    None => old(updates)@[i].old_sha@,
                },
        decreases superseded.len() - k,
    {
        proof {
            assert(superseded@.take(k + 1).drop_last() =~= superseded@.take(k as int));
            assert(superseded@.take(k + 1).last() == superseded@[k as int]);
        }
        let run = &superseded[k];
        let mut i: usize = 0;
        while i < updates.len()
            invariant
                k < superseded@.len(),
                run == superseded@[k as int],
                superseded@.take(k + 1).drop_last() == superseded@.take(k as int),
                superseded@.take(k + 1).last() == superseded@[k as int],
                i <= updates@.len(),
                updates@.len() == old(updates)@.len(),
                forall|j: int|
                    0 <= j < old(updates)@.len() ==> (#[trigger] updates@[j]).ref_name@ == old(
                        updates,
                    )@[j].ref_name@ && updates@[j].new_sha@ == old(updates)@[j].new_sha@,
                forall|j: int|
                    0 <= j < i ==> (#[trigger] updates@[j]).old_sha@ == match last_base_for(
                        superseded@.take(k + 1),
                        old(updates)@[j].ref_name@,
                    ) {
                        Some(b) => b,
                        None => old(updates)@[j].old_sha@,
                    },
                forall|j: int|
                    i <= j < old(updates)@.len() ==> (#[trigger] updates@[j]).old_sha@ == match last_base_for(
                        superseded@.take(k as int),
                        old(updates)@[j].ref_name@,
                    ) {
                        Some(b) => b,
                        None => old(updates)@[j].old_sha@,
                    },
            decreases updates.len() - i,
        {
            if run_updates_ref(run, updates[i].ref_name.as_str()) {
                let base = run.base_sha.clone();
                let ghost before = updates@;
                updates[i].old_sha = base;
                proof {
                    assert forall|j: int| 0 <= j < old(updates)@.len() && j != i implies updates@[j] == before[j] by {}
                }
            }
            i = i + 1;
        }
        k = k + 1;
    }
    proof {
        assert(superseded@.take(superseded@.len() as int) =~= superseded@);
    }
}

/// Uses the upstream state of the branch as the base of an update, so that
/// the run covers every commit not yet forwarded: when the update does not
/// create the branch, and the tracking ref exists with another sha.
pub fn apply_upstream_base(update: &mut RefUpdate, upstream_sha: Option<String>)
    ensures
        final(update).ref_name == old(update).ref_name,
        final(update).new_sha == old(update).new_sha,
        final(update).old_sha@ == if !null_sha(old(update).old_sha@) && seq_starts_with(
            old(update).ref_name@,
            "refs/heads/"@,
        ) && (upstream_sha matches Some(u) && u@ != old(update).old_sha@) {
            upstream_sha->0@
        } else {
            old(update).old_sha@
        },
{
    if crate::pipeline::is_null_sha(update.old_sha.as_str()) {
        return;
    }
    if !starts_with(update.ref_name.as_str(), "refs/heads/") {
        return;
    }
    match upstream_sha {
        Some(u) => {
            if !str_eq(u.as_str(), update.old_sha.as_str()) {
                update.old_sha = u;
            }
        },
        None => {},
    }
}

/// Whether an update is diffed against its merge-base with the default
/// branch (a feature branch): it does not create the branch, and it names a
/// branch other than the default one.
pub open spec fn wants_merge_base(u: RefUpdate, default_branch: Seq<char>) -> bool {
    !null_sha(u.old_sha@) && seq_starts_with(u.ref_name@, "refs/heads/"@) && u.ref_name@.skip(11)
        != default_branch
}

/// Whether an update of a feature branch is diffed against its merge-base
/// with the default branch.
pub fn needs_merge_base(update: &RefUpdate, default_branch: &str) -> (r: bool)
    ensures
        r == wants_merge_base(*update, default_branch@),
{
    proof {
        reveal_strlit("refs/heads/");
    }
    if crate::pipeline::is_null_sha(update.old_sha.as_str()) {
        return false;
    }
    match strip_prefix(update.ref_name.as_str(), "refs/heads/") {
        Some(b) => !str_eq(b, default_branch),
        None => false,
    }
}

/// Uses the merge-base with the default branch as the base of a feature
/// branch update, when one was found.
pub fn apply_merge_base(update: &mut RefUpdate, default_branch: &str, merge_base: Option<String>)
    ensures
        final(update).ref_name == old(update).ref_name,
        final(update).new_sha == old(update).new_sha,
        final(update).old_sha@ == if wants_merge_base(*old(update), default_branch@)
            && merge_base is Some {
            merge_base->0@
        } else {
            old(update).old_sha@
        },
{
    if needs_merge_base(update, default_branch) {
        match merge_base {
            Some(m) => {
                update.old_sha = m;
            },
            None => {},
        }
    }
}

// =============================================================================
// Runs of a push
// =============================================================================

/// What loading the workflows of a pushed commit gave.
#[derive(Debug)]
pub enum WorkflowLoad {
    /// Workflows exist; these are the ones whose triggers match the branch.
    Loaded(Vec<(String, WorkflowConfig)>),
    /// The commit has no workflows.
    Empty,
    /// The workflows could not be read.
    Failed,
}

/// A pipeline update creates runs unless its commit has workflows and none
/// matches its branch (then it is forwarded at once). A commit without
/// readable workflows gets a run that records the error.
pub open spec fn creates_runs(load: WorkflowLoad) -> bool {
    match load {
        WorkflowLoad::Loaded(m) => m@.len() > 0,
        _ => true,
    }
}

/// Whether a push creates any run: some pipeline update creates runs.
pub fn will_create_runs(loads: &Vec<WorkflowLoad>) -> (r: bool)
    ensures
        r == exists|i: int| 0 <= i < loads@.len() && creates_runs(#[trigger] loads@[i]),
{
    let mut i: usize = 0;
    while i < loads.len()
        invariant
            i <= loads@.len(),
            forall|k: int| 0 <= k < i ==> !creates_runs(#[trigger] loads@[k]),
        decreases loads.len() - i,
    {
        let yes = match &loads[i] {
            WorkflowLoad::Loaded(m) => m.len() > 0,
            _ => true,
        };
        if yes {
            return true;
        }
        i = i + 1;
    }
    false
}

/// The runs created for a pipeline update: one per matching workflow, or,
/// when the commit's workflows could not be used, a single run without one
/// (which records the error when it starts). Each run is fresh: its own
/// identifier, not superseded, no error, no current step.
pub fn runs_for_update(repo_id: &str, update: &RefUpdate, workflows: &Vec<(String, WorkflowConfig)>) -> (r:
    Vec<Run>)
    ensures
        r@.len() == if workflows@.len() == 0 {
            1
        } else {
            workflows@.len() as int
        },
        forall|x: int|
            0 <= x < r@.len() ==> {
                let run = #[trigger] r@[x];
                &&& run.repo_id@ == repo_id@
                &&& run.ref_updates@.len() == 1
                &&& crate::push_coalescer::ref_view(run.ref_updates@[0])
                    == crate::push_coalescer::ref_view(*update)
                &&& run.branch@ == if seq_starts_with(update.ref_name@, "refs/heads/"@) {
                    update.ref_name@.skip(11)
                } else {
                    update.ref_name@
                }
                &&& run.base_sha@ == update.old_sha@
                &&& run.head_sha@ == update.new_sha@
                &&& run.error is None
                &&& !run.superseded
                &&& run.current_step is None
                &&& run.updated_at == run.created_at
                &&& run.id@.len() == 36
                &&& if workflows@.len() == 0 {
                    run.workflow_file@.len() == 0 && run.workflow_name is None
                } else {
                    run.workflow_file@ == workflows@[x].0@ && opt_text(run.workflow_name)
                        == opt_text(workflows@[x].1.name)
                }
            },
{
    proof {
        reveal_strlit("refs/heads/");
    }
    let branch = match strip_prefix(update.ref_name.as_str(), "refs/heads/") {
        Some(b) => b.to_string(),
        None => update.ref_name.clone(),
    };
    let mut out: Vec<Run> = Vec::new();
    let count = if workflows.len() == 0 {
        1
    } else {
        workflows.len()
    };
    let mut x: usize = 0;
    while x < count
        invariant
            count == if workflows@.len() == 0 {
                1
            } else {
                workflows@.len() as int
            },
            x <= count,
            out@.len() == x,
            branch@ == if seq_starts_with(update.ref_name@, "refs/heads/"@) {
                update.ref_name@.skip(11)
            } else {
                update.ref_name@
            },
            forall|y: int|
                0 <= y < x ==> {
                    let run = #[trigger] out@[y];
                    &&& run.repo_id@ == repo_id@
                    &&& run.ref_updates@.len() == 1
                    &&& crate::push_coalescer::ref_view(run.ref_updates@[0])
                        == crate::push_coalescer::ref_view(*update)
                    &&& run.branch@ == branch@
                    &&& run.base_sha@ == update.old_sha@
                    &&& run.head_sha@ == update.new_sha@
                    &&& run.error is None
                    &&& !run.superseded
                    &&& run.current_step is None
                    &&& run.updated_at == run.created_at
                    &&& run.id@.len() == 36
                    &&& if workflows@.len() == 0 {
                        run.workflow_file@.len() == 0 && run.workflow_name is None
                    } else {
                        run.workflow_file@ == workflows@[y].0@ && opt_text(run.workflow_name)
                            == opt_text(workflows@[y].1.name)
                    }
                },
        decreases count - x,
    {
        let created_at = crate::ids::now();
        let (workflow_file, workflow_name) = if workflows.len() == 0 {
            (String::new(), None)
        } else {
            (
                workflows[x].0.clone(),
                match &workflows[x].1.name {
                    Some(n) => Some(n.clone()),
                    None => None,
                },
            )
        };
        let mut refs: Vec<RefUpdate> = Vec::new();
        refs.push(copy_update(update));
        out.push(
            Run {
                id: crate::ids::new_id(),
                repo_id: repo_id.to_string(),
                ref_updates: refs,
                branch: branch.clone(),
                base_sha: update.old_sha.clone(),
                head_sha: update.new_sha.clone(),
                current_step: None,
                error: None,
                superseded: false,
                workflow_file,
                workflow_name,
                created_at,
                updated_at: created_at,
            },
        );
        x = x + 1;
    }
    out
}

/// The names of the updates of `refs`.
pub open spec fn names(refs: Seq<RefUpdate>) -> Seq<Seq<char>> {
    refs.map_values(|u: RefUpdate| u.ref_name@)
}

/// The ref names of the runs, run by run.
pub open spec fn all_ref_names(runs: Seq<Run>) -> Seq<Seq<char>>
    decreases runs.len(),
{
    if runs.len() == 0 {
        Seq::empty()
    } else {
        all_ref_names(runs.drop_last()) + names(runs.last().ref_updates@)
    }
}

/// The ref names of the runs, run by run, for the run queue.
pub fn queue_ref_names(runs: &Vec<Run>) -> (r: Vec<String>)
    ensures
        r@.map_values(|s: String| s@) == all_ref_names(runs@),
{
    let mut out: Vec<String> = Vec::new();
    let mut i: usize = 0;
    while i < runs.len()
        invariant
            i <= runs@.len(),
            out@.map_values(|s: String| s@) == all_ref_names(runs@.take(i as int)),
        decreases runs.len() - i,
    {
        proof {
            assert(runs@.take(i + 1).drop_last() =~= runs@.take(i as int));
            assert(runs@.take(i + 1).last() == runs@[i as int]);
        }
        let ghost base = all_ref_names(runs@.take(i as int));
        let ghost ns = names(runs@[i as int].ref_updates@);
        let mut j: usize = 0;
        while j < runs[i].ref_updates.len()
            invariant
                i < runs@.len(),
                j <= runs@[i as int].ref_updates@.len(),
                ns == names(runs@[i as int].ref_updates@),
                out@.map_values(|s: String| s@) == base + ns.take(j as int),
            decreases runs[i as int].ref_updates@.len() - j,
        {
            let ghost before = out@;
            out.push(runs[i].ref_updates[j].ref_name.clone());
            proof {
                assert(out@.map_values(|s: String| s@) =~= before.map_values(|s: String| s@).push(
                    ns[j as int],
                ));
                assert(base + ns.take(j + 1) =~= (base + ns.take(j as int)).push(ns[j as int]));
            }
            j = j + 1;
        }
        proof {
            assert(ns.take(j as int) =~= ns);
        }
        i = i + 1;
    }
    proof {
        assert(runs@.take(runs@.len() as int) =~= runs@);
    }
    out
}

/// The entry released for a job of a superseded run.
pub open spec fn released(repo_id: Seq<char>, j: JobResult) -> (Seq<char>, Seq<char>, Option<Seq<char>>) {
    (j.id@, repo_id, opt_text(j.worktree_path))
}

/// The entries released for the jobs that wait for approval, in order.
pub open spec fn released_jobs(repo_id: Seq<char>, jobs: Seq<JobResult>) -> Seq<
    (Seq<char>, Seq<char>, Option<Seq<char>>),
>
    decreases jobs.len(),
{
    if jobs.len() == 0 {
        Seq::empty()
    } else if jobs.last().status == JobStatus::AwaitingApproval {
        released_jobs(repo_id, jobs.drop_last()).push(released(repo_id, jobs.last()))
    } else {
        released_jobs(repo_id, jobs.drop_last())
    }
}

/// Jobs of superseded runs that wait for approval: they are skipped, and
/// their worktree slots released. Gives (job id, repository id, worktree)
/// for each, in order.
pub fn paused_jobs_to_release(repo_id: &str, jobs: &[JobResult]) -> (r: Vec<(String, String, Option<String>)>)
    ensures
        r@.map_values(|e: (String, String, Option<String>)| (e.0@, e.1@, opt_text(e.2)))
            == released_jobs(repo_id@, jobs@),
{
    let mut out: Vec<(String, String, Option<String>)> = Vec::new();
    let mut i: usize = 0;
    while i < jobs.len()
        invariant
            i <= jobs@.len(),
            out@.map_values(|e: (String, String, Option<String>)| (e.0@, e.1@, opt_text(e.2)))
                == released_jobs(repo_id@, jobs@.take(i as int)),
        decreases jobs.len() - i,
    {
        proof {
            assert(jobs@.take(i + 1).drop_last() =~= jobs@.take(i as int));
            assert(jobs@.take(i + 1).last() == jobs@[i as int]);
        }
        if jobs[i].status == JobStatus::AwaitingApproval {
            let wt = match &jobs[i].worktree_path {
                Some(p) => Some(p.clone()),
                None => None,
            };
            let ghost before = out@;
            out.push((jobs[i].id.clone(), repo_id.to_string(), wt));
            proof {
                assert(out@.map_values(|e: (String, String, Option<String>)| (e.0@, e.1@, opt_text(e.2)))
                    =~= before.map_values(
                    |e: (String, String, Option<String>)| (e.0@, e.1@, opt_text(e.2)),
                ).push(released(repo_id@, jobs@[i as int])));
            }
        }
        i = i + 1;
    }
    proof {
        assert(jobs@.take(jobs@.len() as int) =~= jobs@);
    }
    out
}

// =============================================================================
// Missed pushes and stale refs
// =============================================================================

/// The run covers ref `name` at sha `sha`.
pub open spec fn covers(run: Run, name: Seq<char>, sha: Seq<char>) -> bool {
    exists|j: int|
        0 <= j < run.ref_updates@.len() && (#[trigger] run.ref_updates@[j]).ref_name@ == name
            && run.ref_updates@[j].new_sha@ == sha
}

/// Whether the run covers ref `name` at sha `sha`.
pub fn run_covers(run: &Run, name: &str, sha: &str) -> (r: bool)
    ensures
        r == covers(*run, name@, sha@),
{
    let mut j: usize = 0;
    while j < run.ref_updates.len()
        invariant
            j <= run.ref_updates@.len(),
            forall|k: int|
                0 <= k < j ==> !((#[trigger] run.ref_updates@[k]).ref_name@ == name@
                    && run.ref_updates@[k].new_sha@ == sha@),
        decreases run.ref_updates.len() - j,
    {
        if str_eq(run.ref_updates[j].ref_name.as_str(), name) && str_eq(
            run.ref_updates[j].new_sha.as_str(),
            sha,
        ) {
            return true;
        }
        j = j + 1;
    }
    false
}

/// `n` zeros.
pub open spec fn zeros(n: nat) -> Seq<char> {
    Seq::new(n, |i: int| '0')
}

/// What to do about a branch with a push marker, found at daemon start.
#[derive(Debug)]
pub enum MissedPush {
    /// Nothing is missing: drop the marker.
    Cleanup,
    /// The push was missed: process this update.
    Missed(RefUpdate),
}

/// The decision for a marked branch: nothing is missing when the branch is
/// gone, an active run covers it, a finished run processed it, or upstream
/// already has its sha; otherwise the push from upstream's sha (or from the
/// null sha, for a branch upstream lacks) to the local gate's sha is missed.
pub fn missed_push_decision(
    branch: &str,
    gate_sha: Option<String>,
    has_active_run: bool,
    already_processed: bool,
    upstream_sha: Option<String>,
) -> (r: MissedPush)
    ensures
        gate_sha is None || has_active_run || already_processed || (upstream_sha is Some
            && gate_sha is Some && upstream_sha->0@ == gate_sha->0@) ==> r is Cleanup,
        !(gate_sha is None || has_active_run || already_processed || (upstream_sha is Some
            && gate_sha is Some && upstream_sha->0@ == gate_sha->0@)) ==> (r matches MissedPush::Missed(
            u,
        ) && u.ref_name@ == "refs/heads/"@ + branch@ && u.new_sha@ == gate_sha->0@ && u.old_sha@
            == match upstream_sha {
            Some(s) => s@,
            None => zeros(40),
        }),
{
    let gate = match gate_sha {
        Some(g) => g,
        None => {
            return MissedPush::Cleanup;
        },
    };
    if has_active_run || already_processed {
        return MissedPush::Cleanup;
    }
    let old_sha = match upstream_sha {
        Some(u) => {
            if str_eq(u.as_str(), gate.as_str()) {
                return MissedPush::Cleanup;
            }
            u
        },
        None => {
            let mut z = String::new();
            let mut i: usize = 0;
            while i < 40
                invariant
                    i <= 40,
                    z@ == zeros(i as nat),
                decreases 40 - i,
            {
                crate::text::push_char(&mut z, '0');
                assert(z@ =~= zeros((i + 1) as nat));
                i = i + 1;
            }
            z
        },
    };
    let mut name = "refs/heads/".to_string();
    push_str(&mut name, branch);
    MissedPush::Missed(RefUpdate { ref_name: name, old_sha, new_sha: gate })
}

/// The run id named by a line of `git for-each-ref refs/airlock/runs/`.
pub fn run_id_from_ref_line(line: &str) -> (r: Option<String>)
    ensures
        trim_seq(line@).len() > 0 && seq_starts_with(trim_seq(line@), "refs/airlock/runs/"@) ==> (r matches Some(
            id,
        ) && id@ == trim_seq(line@).skip(18)),
        !(trim_seq(line@).len() > 0 && seq_starts_with(trim_seq(line@), "refs/airlock/runs/"@)) ==> r is None,
{
    proof {
        reveal_strlit("refs/airlock/runs/");
    }
    let t = trim(line);
    if t.unicode_len() == 0 {
        return None;
    }
    match strip_prefix(t, "refs/airlock/runs/") {
        Some(id) => Some(id.to_string()),
        None => None,
    }
}

/// What looking up the run of a protective ref gave.
#[derive(Debug)]
pub enum RunLookup {
    /// The run exists; its jobs, when they could be read.
    Found(Run, Option<Vec<JobResult>>),
    /// No such run.
    Missing,
    /// The lookup failed.
    Failed,
}

/// A protective ref is stale when its run is gone, superseded, or has
/// completed; a failed lookup keeps it.
pub fn is_stale_run_ref(lookup: &RunLookup) -> (r: bool)
    ensures
        r == match lookup {
            RunLookup::Found(run, jobs) => run.superseded || (jobs matches Some(j) && j@.len() > 0
                && crate::types::all_jobs(j@, |s: JobStatus| crate::types::job_final(s))),
            RunLookup::Missing => true,
            RunLookup::Failed => false,
        },
{
    match lookup {
        RunLookup::Found(run, jobs) => {
            if run.superseded {
                true
            } else {
                match jobs {
                    Some(j) => run.is_completed_from_jobs(j.as_slice()),
                    None => false,
                }
            }
        },
        RunLookup::Missing => true,
        RunLookup::Failed => false,
    }
}

} // verus!
