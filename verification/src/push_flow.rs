//! Processing a coalesced push, step by step: the caller supplies what
//! only the database and git can tell (the active runs, the upstream
//! tracking refs, the merge-bases, the workflows of each pushed commit) and
//! carries out what it is told (forwarding, superseding, creating runs).

use crate::push::{
    apply_merge_base, apply_upstream_base, copy_update, creates_runs, inherit_superseded_bases,
    last_base_for, partition_refs, pipeline_ref, split_refs, wants_merge_base, WorkflowLoad,
};
use crate::push_coalescer::{copy_of_run, overlapping_runs, ref_view, refs_view, run_overlaps, supersede_overlapping_runs};
use crate::pipeline::null_sha;
use crate::text::seq_starts_with;
use crate::types::{RefUpdate, Run};
use vstd::prelude::*;

verus! {

/// The base an update gets from its upstream tracking ref (see
/// `apply_upstream_base`): the upstream sha when the update is of a branch,
/// not a creation, and upstream differs.
pub open spec fn upstream_base(u: (Seq<char>, Seq<char>, Seq<char>), upstream: Option<Seq<char>>) -> Seq<char> {
    if !null_sha(u.1) && seq_starts_with(u.0, "refs/heads/"@) && (upstream matches Some(x) && x != u.1) {
        upstream->0
    } else {
        u.1
    }
}

/// The base an update gets from its merge-base with the default branch
/// (see `apply_merge_base`).
pub open spec fn merge_base_of(u: RefUpdate, default_branch: Seq<char>, merge_base: Option<Seq<char>>) -> Seq<char> {
    if wants_merge_base(u, default_branch) && merge_base is Some {
        merge_base->0
    } else {
        u.old_sha@
    }
}

/// The indices of the updates whose commits create runs, in order.
pub open spec fn matched_indices(loads: Seq<WorkflowLoad>) -> Seq<int>
    decreases loads.len(),
{
    if loads.len() == 0 {
        Seq::empty()
    } else if creates_runs(loads.last()) {
        matched_indices(loads.drop_last()).push(loads.len() - 1)
    } else {
        matched_indices(loads.drop_last())
    }
}

/// The updates whose commits have workflows but none for their branch.
pub open spec fn unmatched_updates(updates: Seq<RefUpdate>, loads: Seq<WorkflowLoad>) -> Seq<(Seq<char>, Seq<char>, Seq<char>)>
    decreases loads.len(),
{
    if loads.len() == 0 || updates.len() < loads.len() {
        Seq::empty()
    } else if creates_runs(loads.last()) {
        unmatched_updates(updates, loads.drop_last())
    } else {
        unmatched_updates(updates, loads.drop_last()).push(ref_view(updates[loads.len() - 1]))
    }
}

/// Where the pipeline updates of a push go.
#[derive(Debug)]
pub struct PushRouting {
    /// The indices of the updates that get runs (see `runs_for_update`).
    pub matched: Vec<usize>,
    /// The updates forwarded upstream at once.
    pub unmatched: Vec<RefUpdate>,
    /// No update gets a run but runs were superseded: the active run of the
    /// repository is to be cancelled on the pushed refs.
    pub cancel_active: bool,
}

/// The pipeline updates of a push being processed.
pub struct CoalescedPush {
    pub repo_id: String,
    pub updates: Vec<RefUpdate>,
    pub had_superseded: bool,
}

impl CoalescedPush {
    /// Splits a push: the updates forwarded at once, and (when any update
    /// goes through a pipeline) the push to process.
    pub fn start(repo_id: String, updates: &[RefUpdate]) -> (r: (Option<CoalescedPush>, Vec<RefUpdate>))
        ensures
            refs_view(r.1@) == refs_view(split_refs(updates@, false)),
            r.0 is None <==> split_refs(updates@, true).len() == 0,
            r.0 matches Some(p) ==> p.repo_id == repo_id && refs_view(p.updates@) == refs_view(
                split_refs(updates@, true),
            ) && !p.had_superseded,
    {
        let (pipeline, passthrough) = partition_refs(updates);
        proof {
            assert(refs_view(pipeline@).len() == pipeline@.len());
            assert(refs_view(split_refs(updates@, true)).len() == split_refs(updates@, true).len());
        }
        if pipeline.len() == 0 {
            (None, passthrough)
        } else {
            (Some(CoalescedPush { repo_id, updates: pipeline, had_superseded: false }), passthrough)
        }
    }

    /// Supersedes the active runs that share a ref with the push: gives
    /// them (to be marked superseded), and each update inherits the base of
    /// the last of them that updates its ref.
    pub fn supersede(&mut self, active_runs: &[Run]) -> (r: Vec<Run>)
        ensures
            final(self).repo_id == old(self).repo_id,
            r@.len() == overlapping_runs(old(self).updates@, active_runs@).len(),
            forall|i: int|
                0 <= i < r@.len() ==> copy_of_run(#[trigger] r@[i], overlapping_runs(old(self).updates@, active_runs@)[i]),
            final(self).had_superseded == (old(self).had_superseded || r@.len() > 0),
            final(self).updates@.len() == old(self).updates@.len(),
            forall|i: int|
                0 <= i < old(self).updates@.len() ==> (#[trigger] final(self).updates@[i]).ref_name@ == old(
                    self,
                ).updates@[i].ref_name@ && final(self).updates@[i].new_sha@ == old(self).updates@[i].new_sha@
                    && final(self).updates@[i].old_sha@ == match last_base_for(r@, old(self).updates@[i].ref_name@) {
                    Some(b) => b,
                    None => old(self).updates@[i].old_sha@,
                },
    {
        let superseded = supersede_overlapping_runs(self.updates.as_slice(), active_runs);
        inherit_superseded_bases(&mut self.updates, superseded.as_slice());
        if superseded.len() > 0 {
            self.had_superseded = true;
        }
        superseded
    }

    /// Applies the upstream tracking shas, one per update.
    pub fn apply_upstream(&mut self, upstream: Vec<Option<String>>)
        requires
            upstream@.len() == old(self).updates@.len(),
        ensures
            final(self).repo_id == old(self).repo_id,
            final(self).had_superseded == old(self).had_superseded,
            final(self).updates@.len() == old(self).updates@.len(),
            forall|i: int|
                0 <= i < old(self).updates@.len() ==> (#[trigger] final(self).updates@[i]).ref_name@ == old(
                    self,
                ).updates@[i].ref_name@ && final(self).updates@[i].new_sha@ == old(self).updates@[i].new_sha@
                    && final(self).updates@[i].old_sha@ == upstream_base(
                    ref_view(old(self).updates@[i]),
                    crate::pipeline::opt_text(upstream@[i]),
                ),
    {
        let mut i: usize = 0;
        while i < self.updates.len()
            invariant
                i <= self.updates@.len(),
                upstream@.len() == old(self).updates@.len(),
                self.repo_id == old(self).repo_id,
                self.had_superseded == old(self).had_superseded,
                self.updates@.len() == old(self).updates@.len(),
                forall|j: int|
                    0 <= j < old(self).updates@.len() ==> (#[trigger] self.updates@[j]).ref_name@ == old(
                        self,
                    ).updates@[j].ref_name@ && self.updates@[j].new_sha@ == old(self).updates@[j].new_sha@,
                forall|j: int|
                    0 <= j < i ==> (#[trigger] self.updates@[j]).old_sha@ == upstream_base(
                        ref_view(old(self).updates@[j]),
                        crate::pipeline::opt_text(upstream@[j]),
                    ),
                forall|j: int| i <= j < old(self).updates@.len() ==> #[trigger] self.updates@[j] == old(self).updates@[j],
            decreases self.updates.len() - i,
        {
            let mut u = copy_update(&self.updates[i]);
            let up = match &upstream[i] {
                Some(s) => Some(s.clone()),
                None => None,
            };
            apply_upstream_base(&mut u, up);
            self.updates.set(i, u);
            i = i + 1;
        }
    }

    /// Which updates want their merge-base with the default branch.
    pub fn merge_bases_wanted(&self, default_branch: &str) -> (r: Vec<bool>)
        ensures
            r@.len() == self.updates@.len(),
            forall|i: int| 0 <= i < r@.len() ==> r@[i] == wants_merge_base(#[trigger] self.updates@[i], default_branch@),
    {
        let mut out: Vec<bool> = Vec::new();
        let mut i: usize = 0;
        while i < self.updates.len()
            invariant
                i <= self.updates@.len(),
                out@.len() == i,
                forall|j: int| 0 <= j < i ==> out@[j] == wants_merge_base(#[trigger] self.updates@[j], default_branch@),
            decreases self.updates.len() - i,
        {
            out.push(crate::push::needs_merge_base(&self.updates[i], default_branch));
            i = i + 1;
        }
        out
    }

    /// Applies the merge-bases found, one per update (`None` where none was
    /// wanted or found).
    pub fn apply_merge_bases(&mut self, default_branch: &str, merge_bases: Vec<Option<String>>)
        requires
            merge_bases@.len() == old(self).updates@.len(),
        ensures
            final(self).repo_id == old(self).repo_id,
            final(self).had_superseded == old(self).had_superseded,
            final(self).updates@.len() == old(self).updates@.len(),
            forall|i: int|
                0 <= i < old(self).updates@.len() ==> (#[trigger] final(self).updates@[i]).ref_name@ == old(
                    self,
                ).updates@[i].ref_name@ && final(self).updates@[i].new_sha@ == old(self).updates@[i].new_sha@
                    && final(self).updates@[i].old_sha@ == merge_base_of(
                    old(self).updates@[i],
                    default_branch@,
                    crate::pipeline::opt_text(merge_bases@[i]),
                ),
    {
        let mut i: usize = 0;
        while i < self.updates.len()
            invariant
                i <= self.updates@.len(),
                merge_bases@.len() == old(self).updates@.len(),
                self.repo_id == old(self).repo_id,
                self.had_superseded == old(self).had_superseded,
                self.updates@.len() == old(self).updates@.len(),
                forall|j: int|
                    0 <= j < old(self).updates@.len() ==> (#[trigger] self.updates@[j]).ref_name@ == old(
                        self,
                    ).updates@[j].ref_name@ && self.updates@[j].new_sha@ == old(self).updates@[j].new_sha@,
                forall|j: int|
                    0 <= j < i ==> (#[trigger] self.updates@[j]).old_sha@ == merge_base_of(
                        old(self).updates@[j],
                        default_branch@,
                        crate::pipeline::opt_text(merge_bases@[j]),
                    ),
                forall|j: int| i <= j < old(self).updates@.len() ==> #[trigger] self.updates@[j] == old(self).updates@[j],
            decreases self.updates.len() - i,
        {
            let mut u = copy_update(&self.updates[i]);
            let mb = match &merge_bases[i] {
                Some(s) => Some(s.clone()),
                None => None,
            };
            proof {
                assert(wants_merge_base(u, default_branch@) == wants_merge_base(old(self).updates@[i as int], default_branch@));
            }
            apply_merge_base(&mut u, default_branch, mb);
            self.updates.set(i, u);
            i = i + 1;
        }
    }

    /// Routes the updates given what loading each one's workflows gave:
    /// those whose commit has workflows but none for the branch are
    /// forwarded at once; the others get runs. When none gets a run but
    /// runs were superseded, the repository's active run is cancelled.
    pub fn route(&self, loads: &Vec<WorkflowLoad>) -> (r: PushRouting)
        requires
            loads@.len() == self.updates@.len(),
        ensures
            r.matched@.map_values(|i: usize| i as int) == matched_indices(loads@),
            refs_view(r.unmatched@) == unmatched_updates(self.updates@, loads@),
            r.cancel_active == (matched_indices(loads@).len() == 0 && self.had_superseded),
    {
        let mut matched: Vec<usize> = Vec::new();
        let mut unmatched: Vec<RefUpdate> = Vec::new();
        let mut i: usize = 0;
        while i < loads.len()
            invariant
                i <= loads@.len(),
                loads@.len() == self.updates@.len(),
                matched@.map_values(|x: usize| x as int) == matched_indices(loads@.take(i as int)),
                refs_view(unmatched@) == unmatched_updates(self.updates@, loads@.take(i as int)),
            decreases loads.len() - i,
        {
            proof {
                assert(loads@.take(i + 1).drop_last() =~= loads@.take(i as int));
                assert(loads@.take(i + 1).last() == loads@[i as int]);
            }
            let creates = match &loads[i] {
                WorkflowLoad::Loaded(m) => m.len() > 0,
                _ => true,
            };
            if creates {
                let ghost before = matched@.map_values(|x: usize| x as int);
                matched.push(i);
                proof {
                    assert(matched@.map_values(|x: usize| x as int) =~= before.push(i as int));
                }
            } else {
                let ghost before = refs_view(unmatched@);
                unmatched.push(copy_update(&self.updates[i]));
                proof {
                    assert(refs_view(unmatched@) =~= before.push(ref_view(self.updates@[i as int])));
                }
            }
            i = i + 1;
        }
        proof {
            assert(loads@.take(i as int) =~= loads@);
        }
        let cancel_active = matched.len() == 0 && self.had_superseded;
        PushRouting { matched, unmatched, cancel_active }
    }
}

proof fn lemma_split_refs_members(s: Seq<RefUpdate>, pipeline: bool)
    ensures
        forall|i: int|
            0 <= i < split_refs(s, pipeline).len() ==> pipeline_ref(#[trigger] split_refs(s, pipeline)[i]) == pipeline
                && s.contains(split_refs(s, pipeline)[i]),
    decreases s.len(),
{
    if s.len() > 0 {
        lemma_split_refs_members(s.drop_last(), pipeline);
        let prev = split_refs(s.drop_last(), pipeline);
        assert forall|i: int| 0 <= i < split_refs(s, pipeline).len() implies pipeline_ref(
            #[trigger] split_refs(s, pipeline)[i],
        ) == pipeline && s.contains(split_refs(s, pipeline)[i]) by {
            if i < prev.len() {
                assert(split_refs(s, pipeline)[i] == prev[i]);
                let j = choose|j: int| 0 <= j < s.drop_last().len() && s.drop_last()[j] == prev[i];
                assert(s[j] == prev[i]);
            } else {
                assert(split_refs(s, pipeline)[i] == s.last());
                assert(s[s.len() - 1] == s.last());
            }
        }
    }
}

proof fn lemma_overlapping_runs_members(new_refs: Seq<RefUpdate>, runs: Seq<Run>)
    ensures
        forall|j: int|
            0 <= j < runs.len() && run_overlaps(new_refs, #[trigger] runs[j]) ==> overlapping_runs(new_refs, runs).contains(
                runs[j],
            ),
    decreases runs.len(),
{
    if runs.len() > 0 {
        lemma_overlapping_runs_members(new_refs, runs.drop_last());
        let prev = overlapping_runs(new_refs, runs.drop_last());
        assert forall|j: int|
            0 <= j < runs.len() && run_overlaps(new_refs, #[trigger] runs[j]) implies overlapping_runs(
            new_refs,
            runs,
        ).contains(runs[j]) by {
            if j < runs.len() - 1 {
                assert(runs.drop_last()[j] == runs[j]);
                assert(prev.contains(runs[j]));
                let k = choose|k: int| 0 <= k < prev.len() && prev[k] == runs[j];
                if run_overlaps(new_refs, runs.last()) {
                    assert(overlapping_runs(new_refs, runs)[k] == runs[j]);
                } else {
                    assert(overlapping_runs(new_refs, runs)[k] == runs[j]);
                }
            } else {
                let o = overlapping_runs(new_refs, runs);
                assert(o[o.len() - 1] == runs[j]);
            }
        }
    }
}

/// Processing a coalesced push as a whole: with `started` the pipeline
/// updates `start` keeps, `superseded` what `supersede` gives, `processed`
/// the updates after `supersede`, `apply_upstream` and `apply_merge_bases`
/// (which change only old shas), and `runs` what `runs_for_update` creates
/// for the routed updates: every run is of exactly one pushed branch update
/// (not a tag, not a deletion), on that branch and at its new sha; and every
/// active run that shares a ref with the push is superseded. A push with no
/// branch update (tags or deletions only) goes no further than `start`.
pub proof fn law_coalesced_push(
    updates: Seq<RefUpdate>,
    active: Seq<Run>,
    started: Seq<RefUpdate>,
    superseded: Seq<Run>,
    processed: Seq<RefUpdate>,
    runs: Seq<Run>,
)
    requires
        refs_view(started) == refs_view(split_refs(updates, true)),
        superseded.len() == overlapping_runs(started, active).len(),
        forall|i: int| 0 <= i < superseded.len() ==> copy_of_run(#[trigger] superseded[i], overlapping_runs(started, active)[i]),
        processed.len() == started.len(),
        forall|i: int|
            0 <= i < processed.len() ==> (#[trigger] processed[i]).ref_name@ == started[i].ref_name@
                && processed[i].new_sha@ == started[i].new_sha@,
        forall|x: int|
            0 <= x < runs.len() ==> exists|i: int|
                0 <= i < processed.len() && (#[trigger] runs[x]).ref_updates@.len() == 1 && ref_view(
                    runs[x].ref_updates@[0],
                ) == ref_view(processed[i]) && runs[x].branch@ == (if seq_starts_with(
                    processed[i].ref_name@,
                    "refs/heads/"@,
                ) {
                    processed[i].ref_name@.skip(11)
                } else {
                    processed[i].ref_name@
                }) && runs[x].head_sha@ == processed[i].new_sha@,
    ensures
        split_refs(updates, true).len() == 0 ==> started.len() == 0,
        forall|x: int|
            0 <= x < runs.len() ==> (#[trigger] runs[x]).ref_updates@.len() == 1 && exists|u: RefUpdate|
                updates.contains(u) && pipeline_ref(u) && runs[x].ref_updates@[0].ref_name@ == u.ref_name@
                    && runs[x].head_sha@ == u.new_sha@ && runs[x].branch@ == u.ref_name@.skip(11),
        forall|j: int|
            0 <= j < active.len() && run_overlaps(started, #[trigger] active[j]) ==> exists|k: int|
                0 <= k < superseded.len() && superseded[k].id == active[j].id,
{
    lemma_split_refs_members(updates, true);
    let p = split_refs(updates, true);
    assert(refs_view(started).len() == started.len() && refs_view(p).len() == p.len());
    assert forall|x: int| 0 <= x < runs.len() implies (#[trigger] runs[x]).ref_updates@.len() == 1 && exists|u: RefUpdate|
        updates.contains(u) && pipeline_ref(u) && runs[x].ref_updates@[0].ref_name@ == u.ref_name@
            && runs[x].head_sha@ == u.new_sha@ && runs[x].branch@ == u.ref_name@.skip(11) by {
        let i = choose|i: int|
            0 <= i < processed.len() && (#[trigger] runs[x]).ref_updates@.len() == 1 && ref_view(
                runs[x].ref_updates@[0],
            ) == ref_view(processed[i]) && runs[x].branch@ == (if seq_starts_with(
                processed[i].ref_name@,
                "refs/heads/"@,
            ) {
                processed[i].ref_name@.skip(11)
            } else {
                processed[i].ref_name@
            }) && runs[x].head_sha@ == processed[i].new_sha@;
        assert(refs_view(started)[i] == refs_view(p)[i]);
        let u = p[i];
        assert(pipeline_ref(u));
        assert(updates.contains(u));
    }
    lemma_overlapping_runs_members(started, active);
    assert forall|j: int| 0 <= j < active.len() && run_overlaps(started, #[trigger] active[j]) implies exists|k: int|
        0 <= k < superseded.len() && superseded[k].id == active[j].id by {
        let o = overlapping_runs(started, active);
        let k = choose|k: int| 0 <= k < o.len() && o[k] == active[j];
        assert(copy_of_run(superseded[k], o[k]));
    }
}


} // verus!
