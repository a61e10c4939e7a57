//! Workflow and job configuration, and the job dependency graph.

use crate::text::str_eq;
use crate::types::StepDefinition;
use vstd::prelude::*;

verus! {

/// A job: steps that run in order in one worktree, after the jobs it needs.
#[derive(Debug, Clone)]
pub struct JobConfig {
    /// Display name.
    pub name: Option<String>,
    /// Keys of the jobs that must finish first.
    pub needs: Vec<String>,
    /// Steps, run in order.
    pub steps: Vec<StepDefinition>,
    /// Keep the job's worktree after it finishes.
    pub keep_worktrees: bool,
}

/// A workflow: named jobs forming a dependency graph.
#[derive(Debug, Clone)]
pub struct WorkflowConfig {
    /// Display name from the workflow's `name:` field.
    pub name: Option<String>,
    /// Jobs by key, in file order.
    pub jobs: Vec<(String, JobConfig)>,
}

/// The key of job `i`.
pub open spec fn key_of(jobs: Seq<(String, JobConfig)>, i: int) -> Seq<char> {
    jobs[i].0@
}

/// Job keys are pairwise distinct.
pub open spec fn keys_unique(jobs: Seq<(String, JobConfig)>) -> bool {
    forall|i: int, j: int|
        0 <= i < jobs.len() && 0 <= j < jobs.len() && i != j ==> key_of(jobs, i) != key_of(
            jobs,
            j,
        )
}

/// Whether no two jobs of the workflow share a key, as a workflow read
/// from a mapping of keys to jobs has it.
pub fn job_keys_unique(workflow: &WorkflowConfig) -> (r: bool)
    ensures
        r == keys_unique(workflow.jobs@),
{
    let mut i: usize = 0;
    while i < workflow.jobs.len()
        invariant
            i <= workflow.jobs@.len(),
            forall|a: int, b: int| 0 <= a < i && 0 <= b < workflow.jobs@.len() && a != b ==> key_of(workflow.jobs@, a) != key_of(workflow.jobs@, b),
        decreases workflow.jobs.len() - i,
    {
        let mut j: usize = 0;
        while j < workflow.jobs.len()
            invariant
                i < workflow.jobs@.len(),
                j <= workflow.jobs@.len(),
                forall|a: int, b: int| 0 <= a < i && 0 <= b < workflow.jobs@.len() && a != b ==> key_of(workflow.jobs@, a) != key_of(workflow.jobs@, b),
                forall|b: int| 0 <= b < j && b != i ==> key_of(workflow.jobs@, i as int) != key_of(workflow.jobs@, b),
            decreases workflow.jobs.len() - j,
        {
            if j != i && crate::text::str_eq(workflow.jobs[i].0.as_str(), workflow.jobs[j].0.as_str()) {
                proof {
                    assert(key_of(workflow.jobs@, i as int) == key_of(workflow.jobs@, j as int));
                }
                return false;
            }
            j = j + 1;
        }
        i = i + 1;
    }
    true
}

/// The job needs the job with key `dep`.
pub open spec fn job_needs(c: JobConfig, dep: Seq<char>) -> bool {
    exists|j: int| 0 <= j < c.needs.len() && (#[trigger] c.needs@[j])@ == dep
}

/// `path` is a chain of jobs, none of them `target`, whose first element
/// needs `target` and each later element needs the one before.
pub open spec fn downstream_path(
    jobs: Seq<(String, JobConfig)>,
    target: Seq<char>,
    path: Seq<int>,
) -> bool {
    &&& path.len() >= 1
    &&& forall|t: int|
        0 <= t < path.len() ==> 0 <= #[trigger] path[t] < jobs.len() && key_of(jobs, path[t])
            != target
    &&& job_needs(jobs[path[0]].1, target)
    &&& forall|t: int|
        1 <= t < path.len() ==> job_needs(jobs[#[trigger] path[t]].1, key_of(jobs, path[t - 1]))
}

/// Job `i` depends on `target`, directly or transitively.
pub open spec fn is_downstream(jobs: Seq<(String, JobConfig)>, target: Seq<char>, i: int) -> bool {
    exists|path: Seq<int>| #[trigger] downstream_path(jobs, target, path) && path.last() == i
}

/// Whether `needs` names `dep`.
pub fn needs_contains(needs: &Vec<String>, dep: &str) -> (r: bool)
    ensures
        r == exists|j: int| 0 <= j < needs@.len() && (#[trigger] needs@[j])@ == dep@,
{
    let mut j: usize = 0;
    while j < needs.len()
        invariant
            j <= needs@.len(),
            forall|k: int| 0 <= k < j ==> (#[trigger] needs@[k])@ != dep@,
        decreases needs.len() - j,
    {
        if str_eq(needs[j].as_str(), dep) {
            return true;
        }
        j = j + 1;
    }
    false
}

/// Index of the first job with key `key`.
pub fn find_job(jobs: &Vec<(String, JobConfig)>, key: &str) -> (r: Option<usize>)
    ensures
        r matches Some(i) ==> i < jobs@.len() && key_of(jobs@, i as int) == key@ && forall|j: int|
            0 <= j < i ==> key_of(jobs@, j) != key@,
        r is None ==> forall|j: int| 0 <= j < jobs@.len() ==> key_of(jobs@, j) != key@,
{
    let mut i: usize = 0;
    while i < jobs.len()
        invariant
            i <= jobs@.len(),
            forall|j: int| 0 <= j < i ==> key_of(jobs@, j) != key@,
        decreases jobs.len() - i,
    {
        if str_eq(jobs[i].0.as_str(), key) {
            return Some(i);
        }
        i = i + 1;
    }
    None
}

/// Number of `false` entries.
pub open spec fn count_unmarked(m: Seq<bool>) -> nat
    decreases m.len(),
{
    if m.len() == 0 {
        0
    } else {
        count_unmarked(m.drop_last()) + if m.last() {
            0nat
        } else {
            1nat
        }
    }
}

/// Marking an unmarked entry lowers the count of unmarked entries.
proof fn lemma_mark_decreases(m: Seq<bool>, i: int)
    requires
        0 <= i < m.len(),
        !m[i],
    ensures
        count_unmarked(m.update(i, true)) + 1 == count_unmarked(m),
    decreases m.len(),
{
    let u = m.update(i, true);
    if i == m.len() - 1 {
        assert(u.drop_last() =~= m.drop_last());
    } else {
        assert(u.drop_last() =~= m.drop_last().update(i, true));
        lemma_mark_decreases(m.drop_last(), i);
    }
}

/// A chain in which every element is marked, starting from a job that
/// needs `target`, when marks are closed under the dependency edges.
proof fn lemma_path_marked(
    jobs: Seq<(String, JobConfig)>,
    target: Seq<char>,
    marked: Seq<bool>,
    path: Seq<int>,
    t: int,
)
    requires
        marked.len() == jobs.len(),
        downstream_path(jobs, target, path),
        0 <= t < path.len(),
        forall|i: int|
            0 <= i < jobs.len() && key_of(jobs, i) != target && job_needs(jobs[i].1, target)
                ==> #[trigger] marked[i],
        forall|u: int, i: int|
            0 <= u < jobs.len() && 0 <= i < jobs.len() && marked[u] && key_of(jobs, i) != target
                && #[trigger] job_needs(jobs[i].1, key_of(jobs, u)) ==> marked[i],
    ensures
        marked[path[t]],
    decreases t,
{
    if t == 0 {
        assert(0 <= path[0] < jobs.len());
    } else {
        lemma_path_marked(jobs, target, marked, path, t - 1);
        assert(job_needs(jobs[path[t]].1, key_of(jobs, path[t - 1])));
        assert(0 <= path[t] < jobs.len() && key_of(jobs, path[t]) != target);
        assert(0 <= path[t - 1] < jobs.len());
    }
}

/// Marks every job that needs `current` and is not `target`; returns the
/// newly marked indices appended to `queue`.
fn mark_dependents(
    jobs: &Vec<(String, JobConfig)>,
    target: &str,
    current: &str,
    marked: &mut Vec<bool>,
    queue: &mut Vec<usize>,
)
    requires
        old(marked)@.len() == jobs@.len(),
        forall|k: int| 0 <= k < old(queue)@.len() ==> #[trigger] old(queue)@[k] < jobs@.len(),
    ensures
        final(marked)@.len() == jobs@.len(),
        forall|k: int| 0 <= k < final(queue)@.len() ==> #[trigger] final(queue)@[k] < jobs@.len(),
        final(queue)@.len() >= old(queue)@.len(),
        final(queue)@.subrange(0, old(queue)@.len() as int) == old(queue)@,
        forall|i: int| 0 <= i < jobs@.len() && old(marked)@[i] ==> #[trigger] final(marked)@[i],
        forall|i: int|
            0 <= i < jobs@.len() && key_of(jobs@, i) != target@ && job_needs(
                jobs@[i].1,
                current@,
            ) ==> #[trigger] final(marked)@[i],
        forall|k: int|
            old(queue)@.len() <= k < final(queue)@.len() ==> !old(marked)@[#[trigger] final(queue)@[k] as int]
                && key_of(jobs@, final(queue)@[k] as int) != target@ && job_needs(
                jobs@[final(queue)@[k] as int].1,
                current@,
            ),
        forall|i: int|
            0 <= i < jobs@.len() && !old(marked)@[i] && #[trigger] final(marked)@[i] ==> exists|
                k: int,
            |
                old(queue)@.len() <= k < final(queue)@.len() && final(queue)@[k] == i,
        forall|k1: int, k2: int|
            old(queue)@.len() <= k1 < k2 < final(queue)@.len() ==> #[trigger] final(queue)@[k1]
                != #[trigger] final(queue)@[k2],
        count_unmarked(final(marked)@) + (final(queue)@.len() - old(queue)@.len()) == count_unmarked(
            old(marked)@,
        ),
{
    let n = jobs.len();
    let mut i: usize = 0;
    while i < n
        invariant
            n == jobs@.len(),
            i <= n,
            marked@.len() == n,
            forall|k: int| 0 <= k < queue@.len() ==> #[trigger] queue@[k] < n,
            queue@.len() >= old(queue)@.len(),
            queue@.subrange(0, old(queue)@.len() as int) == old(queue)@,
            forall|j: int| 0 <= j < n && old(marked)@[j] ==> #[trigger] marked@[j],
            forall|j: int| i <= j < n ==> marked@[j] == old(marked)@[j],
            forall|j: int|
                0 <= j < i && key_of(jobs@, j) != target@ && job_needs(jobs@[j].1, current@)
                    ==> #[trigger] marked@[j],
            forall|k: int|
                old(queue)@.len() <= k < queue@.len() ==> !old(marked)@[#[trigger] queue@[k] as int]
                    && key_of(jobs@, queue@[k] as int) != target@ && job_needs(
                    jobs@[queue@[k] as int].1,
                    current@,
                ) && queue@[k] < i,
            forall|j: int|
                0 <= j < n && !old(marked)@[j] && #[trigger] marked@[j] ==> exists|k: int|
                    old(queue)@.len() <= k < queue@.len() && queue@[k] == j,
            forall|k1: int, k2: int|
                old(queue)@.len() <= k1 < k2 < queue@.len() ==> #[trigger] queue@[k1]
                    != #[trigger] queue@[k2],
            count_unmarked(marked@) + (queue@.len() - old(queue)@.len()) == count_unmarked(
                old(marked)@,
            ),
        decreases n - i,
    {
        if !marked[i] && !str_eq(jobs[i].0.as_str(), target) && needs_contains(
            &jobs[i].1.needs,
            current,
        ) {
            proof {
                lemma_mark_decreases(marked@, i as int);
            }
            let ghost qprev = queue@;
            let ghost mprev = marked@;
            marked.set(i, true);
            queue.push(i);
            proof {
                assert(queue@.subrange(0, old(queue)@.len() as int) =~= qprev.subrange(
                    0,
                    old(queue)@.len() as int,
                ));
                assert(!old(marked)@[i as int]);
                assert forall|j: int|
                    0 <= j < n && !old(marked)@[j] && #[trigger] marked@[j] implies exists|k: int|
                    old(queue)@.len() <= k < queue@.len() && queue@[k] == j by {
                    if j == i {
                        assert(queue@[queue@.len() - 1] == j);
                    } else {
                        assert(mprev[j]);
                        let k = choose|k: int|
                            old(queue)@.len() <= k < qprev.len() && qprev[k] == j;
                        assert(queue@[k] == j);
                    }
                }
            }
        }
        i = i + 1;
    }
}

/// Keys of the jobs that depend on `target`, directly or transitively
/// (the jobs to reset along with it on a retry). `target` itself is never
/// included. Jobs are listed in the order a breadth-first walk reaches them.
pub fn collect_downstream(target: &str, workflow: &WorkflowConfig) -> (r: Vec<String>)
    ensures
        forall|x: int|
            0 <= x < r@.len() ==> exists|i: int|
                0 <= i < workflow.jobs@.len() && key_of(workflow.jobs@, i) == (#[trigger] r@[x])@
                    && is_downstream(workflow.jobs@, target@, i),
        forall|i: int|
            0 <= i < workflow.jobs@.len() && #[trigger] is_downstream(workflow.jobs@, target@, i)
                ==> exists|x: int| 0 <= x < r@.len() && r@[x]@ == key_of(workflow.jobs@, i),
        keys_unique(workflow.jobs@) ==> forall|x: int, y: int|
            0 <= x < y < r@.len() ==> (#[trigger] r@[x])@ != (#[trigger] r@[y])@,
{
    let jobs = &workflow.jobs;
    let n = jobs.len();
    let mut marked: Vec<bool> = Vec::new();
    let mut k: usize = 0;
    while k < n
        invariant
            k <= n,
            marked@.len() == k,
            forall|j: int| 0 <= j < k ==> !#[trigger] marked@[j],
        decreases n - k,
    {
        marked.push(false);
        k = k + 1;
    }
    let mut queue: Vec<usize> = Vec::new();
    mark_dependents(jobs, target, target, &mut marked, &mut queue);
    proof {
        assert forall|i: int| 0 <= i < n && #[trigger] marked@[i] implies is_downstream(
            jobs@,
            target@,
            i,
        ) by {
            let k = choose|k: int| 0 <= k < queue@.len() && queue@[k] == i;
            assert(key_of(jobs@, queue@[k] as int) != target@);
            let path = seq![i];
            assert(downstream_path(jobs@, target@, path));
        }
    }
    let mut p: usize = 0;
    while p < queue.len()
        invariant
            n == jobs@.len(),
            marked@.len() == n,
            p <= queue@.len(),
            forall|x: int| 0 <= x < queue@.len() ==> #[trigger] queue@[x] < n,
            forall|x: int| 0 <= x < queue@.len() ==> #[trigger] marked@[queue@[x] as int],
            forall|i: int| 0 <= i < n && #[trigger] marked@[i] ==> exists|x: int|
                0 <= x < queue@.len() && queue@[x] == i,
            forall|x: int, y: int| 0 <= x < y < queue@.len() ==> #[trigger] queue@[x] != #[trigger] queue@[y],
            forall|i: int| 0 <= i < n && #[trigger] marked@[i] ==> key_of(jobs@, i) != target@,
            forall|i: int|
                0 <= i < n && #[trigger] marked@[i] ==> is_downstream(jobs@, target@, i),
            forall|i: int|
                0 <= i < n && key_of(jobs@, i) != target@ && job_needs(jobs@[i].1, target@)
                    ==> #[trigger] marked@[i],
            forall|x: int, i: int|
                0 <= x < p && 0 <= i < n && key_of(jobs@, i) != target@ && #[trigger] job_needs(
                    jobs@[i].1,
                    key_of(jobs@, #[trigger] queue@[x] as int),
                ) ==> marked@[i],
        decreases count_unmarked(marked@), queue@.len() - p,
    {
        let u = queue[p];
        let ghost qprev = queue@;
        let ghost mprev = marked@;
        mark_dependents(jobs, target, jobs[u].0.as_str(), &mut marked, &mut queue);
        proof {
            assert forall|x: int| 0 <= x < queue@.len() implies #[trigger] marked@[queue@[x] as int] by {
                if x < qprev.len() {
                    assert(queue@[x] == qprev[x]);
                }
            }
            assert forall|i: int| 0 <= i < n && #[trigger] marked@[i] implies exists|x: int|
                0 <= x < queue@.len() && queue@[x] == i by {
                if mprev[i] {
                    let x = choose|x: int| 0 <= x < qprev.len() && qprev[x] == i;
                    assert(queue@[x] == i);
                }
            }
            assert forall|x: int, y: int| 0 <= x < y < queue@.len() implies #[trigger] queue@[x]
                != #[trigger] queue@[y] by {
                if y < qprev.len() {
                    assert(queue@[x] == qprev[x] && queue@[y] == qprev[y]);
                } else if x < qprev.len() {
                    assert(queue@[x] == qprev[x]);
                    assert(mprev[qprev[x] as int]);
                    assert(!mprev[queue@[y] as int]);
                }
            }
            assert forall|i: int| 0 <= i < n && #[trigger] marked@[i] implies key_of(jobs@, i)
                != target@ && is_downstream(jobs@, target@, i) by {
                if !mprev[i] {
                    let y = choose|y: int| qprev.len() <= y < queue@.len() && queue@[y] == i;
                    assert(job_needs(jobs@[i].1, key_of(jobs@, u as int)));
                    assert(mprev[u as int]);
                    assert(is_downstream(jobs@, target@, u as int));
                    let pu = choose|path: Seq<int>|
                        #[trigger] downstream_path(jobs@, target@, path) && path.last() == u;
                    let pi = pu.push(i);
                    assert forall|t: int| 0 <= t < pi.len() implies 0 <= #[trigger] pi[t]
                        < jobs@.len() && key_of(jobs@, pi[t]) != target@ by {
                        if t < pu.len() {
                            assert(pi[t] == pu[t]);
                        }
                    }
                    assert forall|t: int| 1 <= t < pi.len() implies job_needs(
                        jobs@[#[trigger] pi[t]].1,
                        key_of(jobs@, pi[t - 1]),
                    ) by {
                        if t < pu.len() {
                            assert(pi[t] == pu[t] && pi[t - 1] == pu[t - 1]);
                        } else {
                            assert(pi[t - 1] == u && pi[t] == i);
                        }
                    }
                    assert(pi[0] == pu[0]);
                    assert(downstream_path(jobs@, target@, pi));
                    assert(pi.last() == i);
                }
            }
            assert forall|x: int, i: int|
                0 <= x < p + 1 && 0 <= i < n && key_of(jobs@, i) != target@ && #[trigger] job_needs(
                    jobs@[i].1,
                    key_of(jobs@, #[trigger] queue@[x] as int),
                ) implies marked@[i] by {
                assert(queue@[x] == qprev[x]);
                if x < p {
                    assert(mprev[i]);
                }
            }
        }
        p = p + 1;
    }
    // Every downstream job is marked: marks are closed under the edges.
    proof {
        assert forall|u: int, i: int|
            0 <= u < n && 0 <= i < n && marked@[u] && key_of(jobs@, i) != target@
                && #[trigger] job_needs(jobs@[i].1, key_of(jobs@, u)) implies marked@[i] by {
            let x = choose|x: int| 0 <= x < queue@.len() && queue@[x] == u;
            assert(job_needs(jobs@[i].1, key_of(jobs@, queue@[x] as int)));
        }
        assert forall|i: int|
            0 <= i < n && key_of(jobs@, i) != target@ && job_needs(jobs@[i].1, target@)
                implies #[trigger] marked@[i] by {
        }
    }
    let mut out: Vec<String> = Vec::new();
    let mut x: usize = 0;
    while x < queue.len()
        invariant
            n == jobs@.len(),
            x <= queue@.len(),
            out@.len() == x,
            forall|y: int| 0 <= y < queue@.len() ==> #[trigger] queue@[y] < n,
            forall|y: int| 0 <= y < x ==> (#[trigger] out@[y])@ == key_of(jobs@, queue@[y] as int),
        decreases queue.len() - x,
    {
        out.push(jobs[queue[x]].0.clone());
        x = x + 1;
    }
    proof {
        assert forall|x: int| 0 <= x < out@.len() implies exists|i: int|
            0 <= i < n && key_of(jobs@, i) == (#[trigger] out@[x])@ && is_downstream(
                jobs@,
                target@,
                i,
            ) by {
            let i = queue@[x] as int;
            assert(marked@[i]);
        }
        assert forall|i: int| 0 <= i < n && #[trigger] is_downstream(jobs@, target@, i) implies exists|
            x: int,
        | 0 <= x < out@.len() && out@[x]@ == key_of(jobs@, i) by {
            let path = choose|path: Seq<int>|
                #[trigger] downstream_path(jobs@, target@, path) && path.last() == i;
            lemma_path_marked(jobs@, target@, marked@, path, path.len() - 1);
            let x = choose|x: int| 0 <= x < queue@.len() && queue@[x] == i;
            assert(out@[x]@ == key_of(jobs@, i));
        }
        if keys_unique(jobs@) {
            assert forall|a: int, b: int| 0 <= a < b < out@.len() implies (#[trigger] out@[a])@
                != (#[trigger] out@[b])@ by {
                assert(queue@[a] != queue@[b]);
            }
        }
    }
    out
}

} // verus!
