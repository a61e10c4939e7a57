//! Per-repository bookkeeping of pipeline runs: which runs hold a slot,
//! which wait for one, and which a newer run on the same refs cancels.
//!
//! The waiting itself (a semaphore of `MAX_CONCURRENT_RUNS` permits per
//! repository) is done by the caller; this state machine decides which runs
//! are cancelled and keeps the lists that those decisions read.

use crate::text::str_eq;
use vstd::prelude::*;

verus! {

/// Maximum number of concurrent runs per repository.
pub const MAX_CONCURRENT_RUNS: usize = 8;

#[verifier::external_type_specification]
#[verifier::external_body]
pub struct ExCancellationToken(tokio_util::sync::CancellationToken);

/// A fresh token in the non-cancelled state (`CancellationToken::new`).
#[verifier::external_body]
fn new_token() -> (r: tokio_util::sync::CancellationToken) {
    tokio_util::sync::CancellationToken::new()
}

/// A clone of `t` (`CancellationToken::clone`): a handle on the same shared
/// token (the clone holds the same `Arc` to the token's node), so it is the
/// same token: cancelling either cancels both.
#[verifier::external_body]
fn clone_token(t: &tokio_util::sync::CancellationToken) -> (r: tokio_util::sync::CancellationToken)
    ensures
        r == *t,
{
    t.clone()
}

/// The tokens the queue has cancelled so far (a record kept for the
/// contracts; it costs nothing at run time).
pub struct CancelLog {
    pub tokens: Ghost<Set<tokio_util::sync::CancellationToken>>,
}

/// Cancels `t` and every clone of it (`CancellationToken::cancel`), and
/// records it in `log` as cancelled.
#[verifier::external_body]
fn cancel_token(t: &tokio_util::sync::CancellationToken, log: &mut CancelLog)
    ensures
        final(log).tokens@ == old(log).tokens@.insert(*t),
{
    t.cancel()
}

/// The tokens of the runs hit by a cancellation for `refs`.
pub open spec fn hit_tokens(ts: Seq<TrackedRun>, refs: Option<Seq<String>>) -> Set<
    tokio_util::sync::CancellationToken,
>
    decreases ts.len(),
{
    if ts.len() == 0 {
        Set::empty()
    } else if hit(ts.last(), refs) {
        hit_tokens(ts.drop_last(), refs).insert(ts.last().token)
    } else {
        hit_tokens(ts.drop_last(), refs)
    }
}

/// A run the queue tracks, holding a slot or waiting for one.
pub struct TrackedRun {
    /// Identifier, unique within its repository.
    pub id: u64,
    /// Token the run's pipeline watches.
    pub token: tokio_util::sync::CancellationToken,
    /// Refs the run processes.
    pub refs: Vec<String>,
}

/// The runs of one repository.
pub struct RepoSlot {
    /// The repository.
    pub repo_id: String,
    /// The identifier the next run gets.
    pub next_id: u64,
    /// Runs holding a slot.
    pub running: Vec<TrackedRun>,
    /// Runs waiting for a slot, in arrival order.
    pub pending: Vec<TrackedRun>,
}

/// Two ref lists share a ref name.
pub open spec fn refs_overlap_spec(a: Seq<String>, b: Seq<String>) -> bool {
    exists|i: int, j: int| 0 <= i < a.len() && 0 <= j < b.len() && (#[trigger] a[i])@ == (#[trigger] b[j])@
}

/// A run is hit by a cancellation for `refs` (`None`: every run).
pub open spec fn hit(t: TrackedRun, refs: Option<Seq<String>>) -> bool {
    match refs {
        None => true,
        Some(r) => refs_overlap_spec(t.refs@, r),
    }
}

/// Identifiers of the runs hit, in order.
pub open spec fn hit_ids(ts: Seq<TrackedRun>, refs: Option<Seq<String>>) -> Seq<u64>
    decreases ts.len(),
{
    if ts.len() == 0 {
        Seq::empty()
    } else if hit(ts.last(), refs) {
        hit_ids(ts.drop_last(), refs).push(ts.last().id)
    } else {
        hit_ids(ts.drop_last(), refs)
    }
}

/// The runs not hit, in order.
pub open spec fn not_hit(ts: Seq<TrackedRun>, refs: Option<Seq<String>>) -> Seq<TrackedRun>
    decreases ts.len(),
{
    if ts.len() == 0 {
        Seq::empty()
    } else if hit(ts.last(), refs) {
        not_hit(ts.drop_last(), refs)
    } else {
        not_hit(ts.drop_last(), refs).push(ts.last())
    }
}

/// The runs whose identifier is not `id`, in order.
pub open spec fn without_id(ts: Seq<TrackedRun>, id: u64) -> Seq<TrackedRun>
    decreases ts.len(),
{
    if ts.len() == 0 {
        Seq::empty()
    } else if ts.last().id == id {
        without_id(ts.drop_last(), id)
    } else {
        without_id(ts.drop_last(), id).push(ts.last())
    }
}

/// Index of the slot of repository `repo`, if any.
pub open spec fn slot_of(slots: Seq<RepoSlot>, repo: Seq<char>) -> Option<int> {
    if exists|k: int| 0 <= k < slots.len() && (#[trigger] slots[k]).repo_id@ == repo {
        Some(choose|k: int| 0 <= k < slots.len() && (#[trigger] slots[k]).repo_id@ == repo)
    } else {
        None
    }
}

/// Every tracked run of the slot has an identifier below `next_id`, and
/// at most `MAX_CONCURRENT_RUNS` runs hold a slot.
pub open spec fn slot_wf(s: RepoSlot) -> bool {
    &&& s.running@.len() <= MAX_CONCURRENT_RUNS
    &&& forall|i: int| 0 <= i < s.running@.len() ==> (#[trigger] s.running@[i]).id < s.next_id
    &&& forall|i: int| 0 <= i < s.pending@.len() ==> (#[trigger] s.pending@[i]).id < s.next_id
}

/// One slot per repository, each well formed.
pub open spec fn slots_wf(slots: Seq<RepoSlot>) -> bool {
    &&& forall|a: int, b: int|
        0 <= a < slots.len() && 0 <= b < slots.len() && a != b ==> (#[trigger] slots[a]).repo_id@
            != (#[trigger] slots[b]).repo_id@
    &&& forall|a: int| 0 <= a < slots.len() ==> slot_wf(#[trigger] slots[a])
}

/// What registering a run on `refs` for repository `repo` does: the slots
/// go from `old` to `new`, the run gets identifier `id`, and the runs with
/// identifiers `cancelled` are cancelled.
pub open spec fn enqueued(
    old: Seq<RepoSlot>,
    repo: Seq<char>,
    refs: Seq<String>,
    new: Seq<RepoSlot>,
    id: u64,
    cancelled: Seq<u64>,
) -> bool {
    match slot_of(new, repo) {
        None => false,
        Some(k) => {
            let s = new[k];
            &&& s.pending@.len() >= 1
            &&& s.pending@.last().id == id
            &&& s.pending@.last().refs@.len() == refs.len()
            &&& forall|i: int|
                0 <= i < refs.len() ==> (#[trigger] s.pending@.last().refs@[i])@ == refs[i]@
            &&& match slot_of(old, repo) {
                Some(k0) => {
                    let s0 = old[k0];
                    &&& k == k0
                    &&& new.len() == old.len()
                    &&& forall|j: int| 0 <= j < old.len() && j != k ==> new[j] == old[j]
                    &&& id == s0.next_id
                    &&& s.next_id == s0.next_id + 1
                    &&& s.running == s0.running
                    &&& s.pending@.drop_last() == not_hit(s0.pending@, Some(refs))
                    &&& cancelled == hit_ids(s0.running@, Some(refs)) + hit_ids(
                        s0.pending@,
                        Some(refs),
                    )
                },
                None => {
                    &&& k == old.len()
                    &&& new.drop_last() == old
                    &&& id == 0
                    &&& s.next_id == 1
                    &&& s.running@.len() == 0
                    &&& s.pending@.len() == 1
                    &&& cancelled.len() == 0
                },
            }
        },
    }
}

/// Whether the two ref lists share a ref name.
pub fn refs_overlap(a: &[String], b: &[String]) -> (r: bool)
    ensures
        r == refs_overlap_spec(a@, b@),
{
    let mut i: usize = 0;
    while i < a.len()
        invariant
            i <= a@.len(),
            forall|x: int, y: int| 0 <= x < i && 0 <= y < b@.len() ==> (#[trigger] a@[x])@ != (#[trigger] b@[y])@,
        decreases a.len() - i,
    {
        let mut j: usize = 0;
        while j < b.len()
            invariant
                i < a@.len(),
                j <= b@.len(),
                forall|x: int, y: int| 0 <= x < i && 0 <= y < b@.len() ==> (#[trigger] a@[x])@ != (#[trigger] b@[y])@,
                forall|y: int| 0 <= y < j ==> a@[i as int]@ != (#[trigger] b@[y])@,
            decreases b.len() - j,
        {
            if str_eq(a[i].as_str(), b[j].as_str()) {
                return true;
            }
            j = j + 1;
        }
        i = i + 1;
    }
    false
}

fn should_cancel(t: &TrackedRun, refs: Option<&[String]>) -> (r: bool)
    ensures
        r == hit(*t, match refs {
            Some(x) => Some(x@),
            None => None,
        }),
{
    match refs {
        Some(r) => refs_overlap(t.refs.as_slice(), r),
        None => true,
    }
}

/// Cancels the hit runs of `running`, which stay listed (their permits are
/// still held), and returns their identifiers.
fn cancel_running(running: &Vec<TrackedRun>, refs: Option<&[String]>, log: &mut CancelLog) -> (r: Vec<u64>)
    ensures
        r@ == hit_ids(running@, match refs {
            Some(x) => Some(x@),
            None => None,
        }),
        final(log).tokens@ == old(log).tokens@.union(hit_tokens(running@, match refs {
            Some(x) => Some(x@),
            None => None,
        })),
{
    let ghost rv = match refs {
        Some(x) => Some(x@),
        None => None,
    };
    let mut out: Vec<u64> = Vec::new();
    let mut i: usize = 0;
    proof {
        assert(running@.take(0) =~= Seq::<TrackedRun>::empty());
        assert(old(log).tokens@.union(hit_tokens(running@.take(0), rv)) =~= old(log).tokens@);
    }
    while i < running.len()
        invariant
            i <= running@.len(),
            rv == (match refs {
                Some(x) => Some(x@),
                None => None,
            }),
            out@ == hit_ids(running@.take(i as int), rv),
            log.tokens@ == old(log).tokens@.union(hit_tokens(running@.take(i as int), rv)),
        decreases running.len() - i,
    {
        proof {
            assert(running@.take(i + 1).drop_last() =~= running@.take(i as int));
            assert(running@.take(i + 1).last() == running@[i as int]);
        }
        if should_cancel(&running[i], refs) {
            let ghost before = log.tokens@;
            cancel_token(&running[i].token, log);
            out.push(running[i].id);
            proof {
                assert(log.tokens@ =~= old(log).tokens@.union(hit_tokens(running@.take(i + 1), rv)));
            }
        }
        i = i + 1;
    }
    proof {
        assert(running@.take(running@.len() as int) =~= running@);
    }
    out
}

/// Cancels and drops the hit runs of `pending`; returns their identifiers.
fn cancel_pending(pending: &mut Vec<TrackedRun>, refs: Option<&[String]>, log: &mut CancelLog) -> (r: Vec<u64>)
    ensures
        final(log).tokens@ == old(log).tokens@.union(hit_tokens(old(pending)@, match refs {
            Some(x) => Some(x@),
            None => None,
        })),
        r@ == hit_ids(old(pending)@, match refs {
            Some(x) => Some(x@),
            None => None,
        }),
        final(pending)@ == not_hit(old(pending)@, match refs {
            Some(x) => Some(x@),
            None => None,
        }),
{
    let ghost rv = match refs {
        Some(x) => Some(x@),
        None => None,
    };
    let mut rest: Vec<TrackedRun> = Vec::new();
    std::mem::swap(&mut rest, pending);
    let ghost orig = rest@;
    assert(orig.len() == rest.len());
    let mut out: Vec<u64> = Vec::new();
    let mut keep: Vec<TrackedRun> = Vec::new();
    let mut i: usize = 0;
    proof {
        assert(orig.take(0) =~= Seq::<TrackedRun>::empty());
        assert(old(log).tokens@.union(hit_tokens(orig.take(0), rv)) =~= old(log).tokens@);
    }
    while rest.len() > 0
        invariant
            i <= orig.len(),
            orig.len() <= usize::MAX,
            rest@ == orig.skip(i as int),
            rv == (match refs {
                Some(x) => Some(x@),
                None => None,
            }),
            out@ == hit_ids(orig.take(i as int), rv),
            keep@ == not_hit(orig.take(i as int), rv),
            log.tokens@ == old(log).tokens@.union(hit_tokens(orig.take(i as int), rv)),
            orig == old(pending)@,
        decreases rest.len(),
    {
        let t = rest.remove(0);
        proof {
            assert(orig.take(i + 1).drop_last() =~= orig.take(i as int));
            assert(orig.take(i + 1).last() == t);
            assert(rest@ =~= orig.skip(i + 1));
        }
        if should_cancel(&t, refs) {
            cancel_token(&t.token, log);
            out.push(t.id);
            proof {
                assert(log.tokens@ =~= old(log).tokens@.union(hit_tokens(orig.take(i + 1), rv)));
            }
        } else {
            keep.push(t);
        }
        i = i + 1;
    }
    proof {
        assert(orig.take(i as int) =~= orig);
    }
    *pending = keep;
    out
}

proof fn lemma_not_hit_ids(ts: Seq<TrackedRun>, refs: Option<Seq<String>>, bound: u64)
    requires
        forall|i: int| 0 <= i < ts.len() ==> (#[trigger] ts[i]).id < bound,
    ensures
        forall|i: int| 0 <= i < not_hit(ts, refs).len() ==> (#[trigger] not_hit(ts, refs)[i]).id < bound,
        forall|i: int|
            0 <= i < not_hit(ts, refs).len() ==> !hit(#[trigger] not_hit(ts, refs)[i], refs),
    decreases ts.len(),
{
    if ts.len() > 0 {
        let d = ts.drop_last();
        assert forall|i: int| 0 <= i < d.len() implies (#[trigger] d[i]).id < bound by {
            assert(d[i] == ts[i]);
        }
        lemma_not_hit_ids(d, refs, bound);
        let p = not_hit(d, refs);
        assert(ts.last() == ts[ts.len() - 1]);
        if !hit(ts.last(), refs) {
            let q = not_hit(ts, refs);
            assert(q == p.push(ts.last()));
            assert forall|i: int| 0 <= i < q.len() implies (#[trigger] q[i]).id < bound && !hit(q[i], refs) by {
                if i < p.len() {
                    assert(q[i] == p[i]);
                }
            }
        }
    }
}

proof fn lemma_without_id(ts: Seq<TrackedRun>, id: u64, bound: u64)
    requires
        forall|i: int| 0 <= i < ts.len() ==> (#[trigger] ts[i]).id < bound,
    ensures
        without_id(ts, id).len() <= ts.len(),
        forall|i: int| 0 <= i < without_id(ts, id).len() ==> (#[trigger] without_id(ts, id)[i]).id < bound
            && without_id(ts, id)[i].id != id,
    decreases ts.len(),
{
    if ts.len() > 0 {
        let d = ts.drop_last();
        assert forall|i: int| 0 <= i < d.len() implies (#[trigger] d[i]).id < bound by {
            assert(d[i] == ts[i]);
        }
        lemma_without_id(d, id, bound);
        let p = without_id(d, id);
        assert(ts.last() == ts[ts.len() - 1]);
        if ts.last().id != id {
            let q = without_id(ts, id);
            assert(q == p.push(ts.last()));
            assert forall|i: int| 0 <= i < q.len() implies (#[trigger] q[i]).id < bound && q[i].id != id by {
                if i < p.len() {
                    assert(q[i] == p[i]);
                }
            }
        }
    }
}

/// Drops the runs with identifier `id`.
fn remove_id(ts: &mut Vec<TrackedRun>, id: u64)
    ensures
        final(ts)@ == without_id(old(ts)@, id),
{
    let mut rest: Vec<TrackedRun> = Vec::new();
    std::mem::swap(&mut rest, ts);
    let ghost orig = rest@;
    assert(orig.len() == rest.len());
    let mut keep: Vec<TrackedRun> = Vec::new();
    let mut i: usize = 0;
    while rest.len() > 0
        invariant
            i <= orig.len(),
            orig.len() <= usize::MAX,
            rest@ == orig.skip(i as int),
            keep@ == without_id(orig.take(i as int), id),
        decreases rest.len(),
    {
        let t = rest.remove(0);
        proof {
            assert(orig.take(i + 1).drop_last() =~= orig.take(i as int));
            assert(orig.take(i + 1).last() == t);
            assert(rest@ =~= orig.skip(i + 1));
        }
        if t.id != id {
            keep.push(t);
        }
        i = i + 1;
    }
    proof {
        assert(orig.take(i as int) =~= orig);
    }
    *ts = keep;
}

fn copy_refs(refs: &[String]) -> (r: Vec<String>)
    ensures
        r@.len() == refs@.len(),
        forall|i: int| 0 <= i < refs@.len() ==> (#[trigger] r@[i])@ == refs@[i]@,
{
    let mut out: Vec<String> = Vec::new();
    let mut i: usize = 0;
    while i < refs.len()
        invariant
            i <= refs@.len(),
            out@.len() == i,
            forall|k: int| 0 <= k < i ==> (#[trigger] out@[k])@ == refs@[k]@,
        decreases refs.len() - i,
    {
        out.push(refs[i].clone());
        i = i + 1;
    }
    out
}

proof fn lemma_hit_ids_sound(ts: Seq<TrackedRun>, refs: Option<Seq<String>>, k: int)
    requires
        0 <= k < hit_ids(ts, refs).len(),
    ensures
        exists|i: int| 0 <= i < ts.len() && (#[trigger] ts[i]).id == hit_ids(ts, refs)[k] && hit(ts[i], refs),
    decreases ts.len(),
{
    let d = ts.drop_last();
    if hit(ts.last(), refs) && k == hit_ids(ts, refs).len() - 1 {
        assert(ts[ts.len() - 1] == ts.last());
    } else {
        lemma_hit_ids_sound(d, refs, k);
        let i = choose|i: int| 0 <= i < d.len() && (#[trigger] d[i]).id == hit_ids(d, refs)[k] && hit(d[i], refs);
        assert(ts[i] == d[i]);
    }
}

proof fn lemma_hit_ids_contains(ts: Seq<TrackedRun>, refs: Option<Seq<String>>, i: int)
    requires
        0 <= i < ts.len(),
    ensures
        hit(ts[i], refs) ==> hit_ids(ts, refs).contains(ts[i].id),
        !hit(ts[i], refs) ==> not_hit(ts, refs).contains(ts[i]),
    decreases ts.len(),
{
    let d = ts.drop_last();
    if i == ts.len() - 1 {
        if hit(ts[i], refs) {
            assert(hit_ids(ts, refs).last() == ts[i].id);
        } else {
            assert(not_hit(ts, refs).last() == ts[i]);
        }
    } else {
        assert(d[i] == ts[i]);
        lemma_hit_ids_contains(d, refs, i);
        if hit(ts[i], refs) {
            let k = choose|k: int| 0 <= k < hit_ids(d, refs).len() && hit_ids(d, refs)[k] == ts[i].id;
            assert(hit_ids(ts, refs)[k] == ts[i].id);
        } else {
            let k = choose|k: int| 0 <= k < not_hit(d, refs).len() && not_hit(d, refs)[k] == ts[i];
            assert(not_hit(ts, refs)[k] == ts[i]);
        }
    }
}

/// Every run hit by a cancellation has its token among the cancelled ones
/// (`cancel_active` and `enqueue` add the hit tokens of the repository's
/// running and waiting runs to the queue's cancelled tokens).
pub proof fn law_hit_runs_are_cancelled(ts: Seq<TrackedRun>, refs: Option<Seq<String>>, i: int)
    requires
        0 <= i < ts.len(),
        hit(ts[i], refs),
    ensures
        hit_tokens(ts, refs).contains(ts[i].token),
    decreases ts.len(),
{
    if i < ts.len() - 1 {
        assert(ts.drop_last()[i] == ts[i]);
        law_hit_runs_are_cancelled(ts.drop_last(), refs, i);
    }
}

/// Some run of `ts` with identifier `id` shares a ref with `refs`.
pub open spec fn overlapping_id(ts: Seq<TrackedRun>, refs: Seq<String>, id: u64) -> bool {
    exists|i: int| 0 <= i < ts.len() && (#[trigger] ts[i]).id == id && refs_overlap_spec(ts[i].refs@, refs)
}

/// A new run cancels exactly the runs of its repository that share a ref
/// with it: each such run, holding a slot or waiting, is among the
/// cancelled; each cancelled identifier is that of such a run; each waiting
/// run that shares none is still waiting.
pub proof fn law_enqueue_cancels_overlapping(
    old: Seq<RepoSlot>,
    repo: Seq<char>,
    refs: Seq<String>,
    new: Seq<RepoSlot>,
    id: u64,
    cancelled: Seq<u64>,
)
    requires
        slots_wf(old),
        enqueued(old, repo, refs, new, id, cancelled),
        slot_of(old, repo) is Some,
    ensures
        forall|i: int|
            0 <= i < old[slot_of(old, repo)->0].running@.len() && refs_overlap_spec(
                (#[trigger] old[slot_of(old, repo)->0].running@[i]).refs@,
                refs,
            ) ==> cancelled.contains(old[slot_of(old, repo)->0].running@[i].id),
        forall|i: int|
            0 <= i < old[slot_of(old, repo)->0].pending@.len() && refs_overlap_spec(
                (#[trigger] old[slot_of(old, repo)->0].pending@[i]).refs@,
                refs,
            ) ==> cancelled.contains(old[slot_of(old, repo)->0].pending@[i].id),
        forall|i: int|
            0 <= i < old[slot_of(old, repo)->0].pending@.len() && !refs_overlap_spec(
                (#[trigger] old[slot_of(old, repo)->0].pending@[i]).refs@,
                refs,
            ) ==> new[slot_of(new, repo)->0].pending@.contains(
                old[slot_of(old, repo)->0].pending@[i],
            ),
        forall|k: int|
            0 <= k < cancelled.len() ==> overlapping_id(
                old[slot_of(old, repo)->0].running@,
                refs,
                #[trigger] cancelled[k],
            ) || overlapping_id(old[slot_of(old, repo)->0].pending@, refs, cancelled[k]),
{
    let s0 = old[slot_of(old, repo)->0];
    let s = new[slot_of(new, repo)->0];
    let a = hit_ids(s0.running@, Some(refs));
    let b = hit_ids(s0.pending@, Some(refs));
    assert forall|i: int|
        0 <= i < s0.running@.len() && refs_overlap_spec(
            (#[trigger] s0.running@[i]).refs@,
            refs,
        ) implies cancelled.contains(s0.running@[i].id) by {
        lemma_hit_ids_contains(s0.running@, Some(refs), i);
        let k = choose|k: int| 0 <= k < a.len() && a[k] == s0.running@[i].id;
        assert(cancelled[k] == a[k]);
    }
    assert forall|i: int|
        0 <= i < s0.pending@.len() && refs_overlap_spec(
            (#[trigger] s0.pending@[i]).refs@,
            refs,
        ) implies cancelled.contains(s0.pending@[i].id) by {
        lemma_hit_ids_contains(s0.pending@, Some(refs), i);
        let k = choose|k: int| 0 <= k < b.len() && b[k] == s0.pending@[i].id;
        assert(cancelled[a.len() + k] == b[k]);
    }
    assert forall|i: int|
        0 <= i < s0.pending@.len() && !refs_overlap_spec(
            (#[trigger] s0.pending@[i]).refs@,
            refs,
        ) implies s.pending@.contains(s0.pending@[i]) by {
        lemma_hit_ids_contains(s0.pending@, Some(refs), i);
        let nh = not_hit(s0.pending@, Some(refs));
        let k = choose|k: int| 0 <= k < nh.len() && nh[k] == s0.pending@[i];
        assert(s.pending@[k] == s.pending@.drop_last()[k]);
    }
    assert forall|k: int| 0 <= k < cancelled.len() implies overlapping_id(
        s0.running@,
        refs,
        #[trigger] cancelled[k],
    ) || overlapping_id(s0.pending@, refs, cancelled[k]) by {
        if k < a.len() {
            assert(cancelled[k] == a[k]);
            lemma_hit_ids_sound(s0.running@, Some(refs), k);
        } else {
            assert(cancelled[k] == b[k - a.len()]);
            lemma_hit_ids_sound(s0.pending@, Some(refs), k - a.len());
        }
    }
}

/// Registering a run for one repository leaves the runs of every other
/// repository as they were: repositories run independently.
pub proof fn law_enqueue_leaves_other_repos(
    old: Seq<RepoSlot>,
    repo: Seq<char>,
    refs: Seq<String>,
    new: Seq<RepoSlot>,
    id: u64,
    cancelled: Seq<u64>,
)
    requires
        enqueued(old, repo, refs, new, id, cancelled),
    ensures
        forall|j: int| 0 <= j < old.len() && (#[trigger] old[j]).repo_id@ != repo ==> new[j] == old[j],
{
    match slot_of(old, repo) {
        Some(k0) => {},
        None => {
            assert forall|j: int| 0 <= j < old.len() && (#[trigger] old[j]).repo_id@ != repo implies new[j] == old[j] by {
                assert(new.drop_last()[j] == new[j]);
            }
        },
    }
}

/// A new run gets an identifier that no run tracked for its repository
/// has, and afterwards no other waiting run shares a ref with it.
pub proof fn law_enqueue_fresh_and_exclusive(
    old: Seq<RepoSlot>,
    repo: Seq<char>,
    refs: Seq<String>,
    new: Seq<RepoSlot>,
    id: u64,
    cancelled: Seq<u64>,
)
    requires
        slots_wf(old),
        enqueued(old, repo, refs, new, id, cancelled),
    ensures
        forall|i: int|
            0 <= i < new[slot_of(new, repo)->0].running@.len() ==> (#[trigger] new[slot_of(
                new,
                repo,
            )->0].running@[i]).id != id,
        forall|i: int|
            0 <= i < new[slot_of(new, repo)->0].pending@.len() - 1 ==> (#[trigger] new[slot_of(
                new,
                repo,
            )->0].pending@[i]).id != id && !refs_overlap_spec(
                new[slot_of(new, repo)->0].pending@[i].refs@,
                refs,
            ),
{
    let s = new[slot_of(new, repo)->0];
    match slot_of(old, repo) {
        Some(k0) => {
            let s0 = old[k0];
            assert(slot_wf(s0));
            lemma_not_hit_ids(s0.pending@, Some(refs), s0.next_id);
            assert forall|i: int| 0 <= i < s.pending@.len() - 1 implies (#[trigger] s.pending@[i]).id
                != id && !refs_overlap_spec(s.pending@[i].refs@, refs) by {
                assert(s.pending@[i] == s.pending@.drop_last()[i]);
            }
        },
        None => {},
    }
}

/// Serializes pipeline runs within each repository: newer runs on the same
/// refs cancel older ones; runs on other refs are left alone.
pub struct RunQueue {
    slots: Vec<RepoSlot>,
    log: CancelLog,
}

impl RunQueue {
    /// The slots, one per repository that has had a run.
    pub closed spec fn slots(&self) -> Seq<RepoSlot> {
        self.slots@
    }

    /// The tokens cancelled so far.
    pub closed spec fn cancelled(&self) -> Set<tokio_util::sync::CancellationToken> {
        self.log.tokens@
    }

    /// Well-formedness of the queue.
    pub open spec fn wf(&self) -> bool {
        slots_wf(self.slots())
    }

    /// A queue with no runs.
    pub fn new() -> (r: Self)
        ensures
            r.wf(),
            r.slots().len() == 0,
            r.cancelled() == Set::<tokio_util::sync::CancellationToken>::empty(),
    {
        RunQueue { slots: Vec::new(), log: CancelLog { tokens: Ghost(Set::empty()) } }
    }

    fn find_slot(&self, repo_id: &str) -> (r: Option<usize>)
        requires
            self.wf(),
        ensures
            r matches Some(k) ==> k < self.slots().len() && slot_of(self.slots(), repo_id@) == Some(
                k as int,
            ),
            r is None ==> slot_of(self.slots(), repo_id@) is None,
    {
        let mut k: usize = 0;
        while k < self.slots.len()
            invariant
                k <= self.slots@.len(),
                slots_wf(self.slots@),
                forall|j: int| 0 <= j < k ==> (#[trigger] self.slots@[j]).repo_id@ != repo_id@,
            decreases self.slots.len() - k,
        {
            if str_eq(self.slots[k].repo_id.as_str(), repo_id) {
                proof {
                    let c = choose|j: int|
                        0 <= j < self.slots@.len() && (#[trigger] self.slots@[j]).repo_id@
                            == repo_id@;
                    assert(c == k);
                }
                return Some(k);
            }
            k = k + 1;
        }
        None
    }

    /// The identifier the next run of the repository gets (0 for a
    /// repository that has had none).
    pub fn next_run_id(&self, repo_id: &str) -> (r: u64)
        requires
            self.wf(),
        ensures
            r == (match slot_of(self.slots(), repo_id@) {
                Some(k) => self.slots()[k].next_id,
                None => 0,
            }),
    {
        match self.find_slot(repo_id) {
            Some(k) => self.slots[k].next_id,
            None => 0,
        }
    }

    /// How many runs of the repository hold a slot.
    pub fn running_count(&self, repo_id: &str) -> (r: usize)
        requires
            self.wf(),
        ensures
            r == (match slot_of(self.slots(), repo_id@) {
                Some(k) => self.slots()[k].running@.len(),
                None => 0,
            }),
    {
        match self.find_slot(repo_id) {
            Some(k) => self.slots[k].running.len(),
            None => 0,
        }
    }

    /// Cancels runs of a repository without starting one: with `ref_names`,
    /// the runs that share a ref with it; without, every run. Cancelled
    /// runs that hold a slot stay listed until their permit is released;
    /// cancelled waiting runs are dropped. Returns the identifiers of the
    /// cancelled runs, those holding a slot first.
    pub fn cancel_active(&mut self, repo_id: &str, ref_names: Option<&[String]>) -> (r: Vec<u64>)
        requires
            old(self).wf(),
        ensures
            final(self).wf(),
            match slot_of(old(self).slots(), repo_id@) {
                None => final(self).slots() == old(self).slots() && r@.len() == 0 && final(self).cancelled()
                    == old(self).cancelled(),
                Some(k) => {
                    let s = old(self).slots()[k];
                    let refs = match ref_names {
                        Some(x) => Some(x@),
                        None => None,
                    };
                    &&& final(self).cancelled() == old(self).cancelled().union(hit_tokens(s.running@, refs)).union(
                        hit_tokens(s.pending@, refs),
                    )
                    &&& final(self).slots().len() == old(self).slots().len()
                    &&& forall|j: int|
                        0 <= j < old(self).slots().len() && j != k ==> final(self).slots()[j]
                            == old(self).slots()[j]
                    &&& final(self).slots()[k].repo_id == s.repo_id
                    &&& final(self).slots()[k].next_id == s.next_id
                    &&& final(self).slots()[k].running == s.running
                    &&& final(self).slots()[k].pending@ == not_hit(s.pending@, refs)
                    &&& r@ == hit_ids(s.running@, refs) + hit_ids(s.pending@, refs)
                },
            },
    {
        match self.find_slot(repo_id) {
            None => Vec::new(),
            Some(k) => {
                let mut slot = self.slots.remove(k);
                let ghost s0 = slot;
                let mut ids = cancel_running(&slot.running, ref_names, &mut self.log);
                let mut more = cancel_pending(&mut slot.pending, ref_names, &mut self.log);
                ids.append(&mut more);
                proof {
                    lemma_not_hit_ids(s0.pending@, match ref_names {
                        Some(x) => Some(x@),
                        None => None,
                    }, s0.next_id);
                }
                self.slots.insert(k, slot);
                proof {
                    let rest = old(self).slots@.remove(k as int);
                    assert forall|j: int| 0 <= j < old(self).slots@.len() && j != k implies
                        self.slots@[j] == old(self).slots@[j] by {
                        if j < k {
                            assert(self.slots@[j] == rest[j]);
                        } else {
                            assert(self.slots@[j] == rest[j - 1]);
                        }
                    }
                    assert forall|a: int, b: int|
                        0 <= a < self.slots@.len() && 0 <= b < self.slots@.len() && a != b
                            implies (#[trigger] self.slots@[a]).repo_id@
                        != (#[trigger] self.slots@[b]).repo_id@ by {
                        if a != k {
                            assert(self.slots@[a] == old(self).slots@[a]);
                        }
                        if b != k {
                            assert(self.slots@[b] == old(self).slots@[b]);
                        }
                    }
                    assert forall|a: int| 0 <= a < self.slots@.len() implies slot_wf(
                        #[trigger] self.slots@[a],
                    ) by {
                        if a != k {
                            assert(self.slots@[a] == old(self).slots@[a]);
                        }
                    }
                }
                ids
            },
        }
    }

    /// Registers a new run on `ref_names` as waiting for a slot. Runs of the
    /// repository that share a ref with it are cancelled (waiting ones are
    /// dropped; running ones stay listed until their permit is released).
    /// Returns the new run's identifier, its token, and the identifiers of
    /// the cancelled runs, those holding a slot first.
    pub fn enqueue(&mut self, repo_id: &str, ref_names: &[String]) -> (r: (
        u64,
        tokio_util::sync::CancellationToken,
        Vec<u64>,
    ))
        requires
            old(self).wf(),
            slot_of(old(self).slots(), repo_id@) matches Some(k) ==> old(self).slots()[k].next_id
                < u64::MAX,
        ensures
            final(self).wf(),
            enqueued(old(self).slots(), repo_id@, ref_names@, final(self).slots(), r.0, r.2@),
            final(self).slots()[slot_of(final(self).slots(), repo_id@)->0].pending@.last().token == r.1,
            match slot_of(old(self).slots(), repo_id@) {
                None => final(self).cancelled() == old(self).cancelled(),
                Some(k) => final(self).cancelled() == old(self).cancelled().union(
                    hit_tokens(old(self).slots()[k].running@, Some(ref_names@)),
                ).union(hit_tokens(old(self).slots()[k].pending@, Some(ref_names@))),
            },
    {
        let k = match self.find_slot(repo_id) {
            Some(k) => k,
            None => {
                let slot = RepoSlot {
                    repo_id: repo_id.to_string(),
                    next_id: 0,
                    running: Vec::new(),
                    pending: Vec::new(),
                };
                self.slots.push(slot);
                proof {
                    assert forall|a: int, b: int|
                        0 <= a < self.slots@.len() && 0 <= b < self.slots@.len() && a != b
                            implies (#[trigger] self.slots@[a]).repo_id@
                        != (#[trigger] self.slots@[b]).repo_id@ by {
                        if a < old(self).slots@.len() {
                            assert(self.slots@[a] == old(self).slots@[a]);
                        }
                        if b < old(self).slots@.len() {
                            assert(self.slots@[b] == old(self).slots@[b]);
                        }
                    }
                    assert forall|a: int| 0 <= a < self.slots@.len() implies slot_wf(
                        #[trigger] self.slots@[a],
                    ) by {
                        if a < old(self).slots@.len() {
                            assert(self.slots@[a] == old(self).slots@[a]);
                        }
                    }
                }
                self.slots.len() - 1
            },
        };
        let ghost mid = self.slots@;
        let mut slot = self.slots.remove(k);
        let ghost s0 = slot;
        let mut ids = cancel_running(&slot.running, Some(ref_names), &mut self.log);
        let mut more = cancel_pending(&mut slot.pending, Some(ref_names), &mut self.log);
        ids.append(&mut more);
        proof {
            lemma_not_hit_ids(s0.pending@, Some(ref_names@), s0.next_id);
        }
        let token = new_token();
        let run_id = slot.next_id;
        slot.next_id = slot.next_id + 1;
        let kept = clone_token(&token);
        let refs = copy_refs(ref_names);
        slot.pending.push(TrackedRun { id: run_id, token: kept, refs });
        self.slots.insert(k, slot);
        proof {
            let rest = mid.remove(k as int);
            assert forall|j: int| 0 <= j < mid.len() && j != k implies self.slots@[j] == mid[j] by {
                if j < k {
                    assert(self.slots@[j] == rest[j]);
                } else {
                    assert(self.slots@[j] == rest[j - 1]);
                }
            }
            assert forall|a: int, b: int|
                0 <= a < self.slots@.len() && 0 <= b < self.slots@.len() && a != b implies (
                #[trigger] self.slots@[a]).repo_id@ != (#[trigger] self.slots@[b]).repo_id@ by {
                if a != k {
                    assert(self.slots@[a] == mid[a]);
                }
                if b != k {
                    assert(self.slots@[b] == mid[b]);
                }
            }
            assert forall|a: int| 0 <= a < self.slots@.len() implies slot_wf(
                #[trigger] self.slots@[a],
            ) by {
                if a != k {
                    assert(self.slots@[a] == mid[a]);
                }
            }
            let c = choose|j: int|
                0 <= j < self.slots@.len() && (#[trigger] self.slots@[j]).repo_id@ == repo_id@;
            assert(self.slots@[k as int].repo_id@ == repo_id@);
            assert(c == k);
            if slot_of(old(self).slots@, repo_id@) is None {
                assert(self.slots@.drop_last() =~= old(self).slots@);
                assert(s0.running@.len() == 0 && s0.pending@.len() == 0);
                assert(hit_ids(s0.running@, Some(ref_names@)) =~= Seq::<u64>::empty());
                assert(hit_ids(s0.pending@, Some(ref_names@)) =~= Seq::<u64>::empty());
                assert(not_hit(s0.pending@, Some(ref_names@)) =~= Seq::<TrackedRun>::empty());
            } else {
                let k0 = slot_of(old(self).slots@, repo_id@)->0;
                assert(old(self).slots@[k0].repo_id@ == repo_id@);
                assert(k0 == k);
                assert(self.slots@.len() == old(self).slots@.len());
            }
            assert(self.slots@[k as int].pending@.drop_last() =~= not_hit(
                s0.pending@,
                Some(ref_names@),
            ));
        }
        (run_id, token, ids)
    }

    /// Moves run `run_id` from waiting to holding a slot, once its permit
    /// is granted. The run is listed as running even when it was dropped
    /// from the waiting list meanwhile.
    pub fn promote(
        &mut self,
        repo_id: &str,
        run_id: u64,
        token: &tokio_util::sync::CancellationToken,
        ref_names: &[String],
    )
        requires
            old(self).wf(),
            slot_of(old(self).slots(), repo_id@) matches Some(k) ==> run_id < old(
                self,
            ).slots()[k].next_id && old(self).slots()[k].running@.len() < MAX_CONCURRENT_RUNS,
        ensures
            final(self).wf(),
            final(self).cancelled() == old(self).cancelled(),
            final(self).slots().len() == old(self).slots().len(),
            match slot_of(old(self).slots(), repo_id@) {
                None => final(self).slots() == old(self).slots(),
                Some(k) => {
                    let s0 = old(self).slots()[k];
                    let s = final(self).slots()[k];
                    &&& forall|j: int|
                        0 <= j < old(self).slots().len() && j != k ==> final(self).slots()[j]
                            == old(self).slots()[j]
                    &&& s.repo_id == s0.repo_id
                    &&& s.next_id == s0.next_id
                    &&& s.pending@ == without_id(s0.pending@, run_id)
                    &&& s.running@.len() == s0.running@.len() + 1
                    &&& s.running@.drop_last() == s0.running@
                    &&& s.running@.last().id == run_id
                    &&& s.running@.last().token == *token
                    &&& s.running@.last().refs@.len() == ref_names@.len()
                    &&& forall|i: int|
                        0 <= i < ref_names@.len() ==> (#[trigger] s.running@.last().refs@[i])@
                            == ref_names@[i]@
                },
            },
    {
        match self.find_slot(repo_id) {
            None => {},
            Some(k) => {
                let mut slot = self.slots.remove(k);
                let ghost s0 = slot;
                remove_id(&mut slot.pending, run_id);
                proof {
                    lemma_without_id(s0.pending@, run_id, s0.next_id);
                }
                let t = clone_token(token);
                let refs = copy_refs(ref_names);
                slot.running.push(TrackedRun { id: run_id, token: t, refs });
                self.slots.insert(k, slot);
                proof {
                    let rest = old(self).slots@.remove(k as int);
                    assert forall|j: int| 0 <= j < old(self).slots@.len() && j != k implies
                        self.slots@[j] == old(self).slots@[j] by {
                        if j < k {
                            assert(self.slots@[j] == rest[j]);
                        } else {
                            assert(self.slots@[j] == rest[j - 1]);
                        }
                    }
                    assert forall|a: int, b: int|
                        0 <= a < self.slots@.len() && 0 <= b < self.slots@.len() && a != b
                            implies (#[trigger] self.slots@[a]).repo_id@
                        != (#[trigger] self.slots@[b]).repo_id@ by {
                        if a != k {
                            assert(self.slots@[a] == old(self).slots@[a]);
                        }
                        if b != k {
                            assert(self.slots@[b] == old(self).slots@[b]);
                        }
                    }
                    assert forall|a: int| 0 <= a < self.slots@.len() implies slot_wf(
                        #[trigger] self.slots@[a],
                    ) by {
                        if a != k {
                            assert(self.slots@[a] == old(self).slots@[a]);
                        } else {
                            assert(self.slots@[a].running@.drop_last() =~= s0.running@);
                        }
                    }
                    assert(self.slots@[k as int].running@.drop_last() =~= s0.running@);
                }
            },
        }
    }

    /// Forgets run `run_id` once its permit is released.
    pub fn release(&mut self, repo_id: &str, run_id: u64)
        requires
            old(self).wf(),
        ensures
            final(self).wf(),
            final(self).cancelled() == old(self).cancelled(),
            final(self).slots().len() == old(self).slots().len(),
            match slot_of(old(self).slots(), repo_id@) {
                None => final(self).slots() == old(self).slots(),
                Some(k) => {
                    let s0 = old(self).slots()[k];
                    let s = final(self).slots()[k];
                    &&& forall|j: int|
                        0 <= j < old(self).slots().len() && j != k ==> final(self).slots()[j]
                            == old(self).slots()[j]
                    &&& s.repo_id == s0.repo_id
                    &&& s.next_id == s0.next_id
                    &&& s.pending == s0.pending
                    &&& s.running@ == without_id(s0.running@, run_id)
                },
            },
    {
        match self.find_slot(repo_id) {
            None => {},
            Some(k) => {
                let mut slot = self.slots.remove(k);
                let ghost s0 = slot;
                remove_id(&mut slot.running, run_id);
                proof {
                    lemma_without_id(s0.running@, run_id, s0.next_id);
                }
                self.slots.insert(k, slot);
                proof {
                    let rest = old(self).slots@.remove(k as int);
                    assert forall|j: int| 0 <= j < old(self).slots@.len() && j != k implies
                        self.slots@[j] == old(self).slots@[j] by {
                        if j < k {
                            assert(self.slots@[j] == rest[j]);
                        } else {
                            assert(self.slots@[j] == rest[j - 1]);
                        }
                    }
                    assert forall|a: int, b: int|
                        0 <= a < self.slots@.len() && 0 <= b < self.slots@.len() && a != b
                            implies (#[trigger] self.slots@[a]).repo_id@
                        != (#[trigger] self.slots@[b]).repo_id@ by {
                        if a != k {
                            assert(self.slots@[a] == old(self).slots@[a]);
                        }
                        if b != k {
                            assert(self.slots@[b] == old(self).slots@[b]);
                        }
                    }
                    assert forall|a: int| 0 <= a < self.slots@.len() implies slot_wf(
                        #[trigger] self.slots@[a],
                    ) by {
                        if a != k {
                            assert(self.slots@[a] == old(self).slots@[a]);
                        }
                    }
                }
            },
        }
    }
}

impl Default for RunQueue {
    fn default() -> (r: Self)
        ensures
            r.wf(),
            r.slots().len() == 0,
            r.cancelled() == Set::<tokio_util::sync::CancellationToken>::empty(),
    {
        RunQueue::new()
    }
}

} // verus!
