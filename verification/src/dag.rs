//! Running a workflow's jobs wave by wave. The caller starts each wave
//! (saying whether the run was cancelled), runs the jobs it is told to
//! launch, reports each job's end, and finally asks which worktrees to
//! remove and what became of the run.

use crate::pipeline::{
    choose_job_worktree, dag_run_outcome, first_job, flat_keys, lemma_key_index_props, paths_view,
    removable_paths, set_job_status, set_value, should_skip_job, skip_spec, statuses_view, value_of,
    waves_known, worktrees_to_remove, RunOutcome, WorktreeChoice,
};
use crate::text::str_eq;
use crate::types::JobStatus;
use crate::workflow::{find_job, key_of, JobConfig, WorkflowConfig};
use vstd::prelude::*;

verus! {

/// The configuration of the first job with key `key`.
pub open spec fn job_cfg(jobs: Seq<(String, JobConfig)>, key: Seq<char>) -> JobConfig {
    jobs[choose|i: int| first_job(jobs, key, i)].1
}

/// `c` is the worktree a job with configuration `cfg` runs in, given the
/// worktrees `wts` of the jobs that ran before (see `choose_job_worktree`).
pub open spec fn choice_ok(cfg: JobConfig, wts: Seq<(Seq<char>, Seq<char>)>, c: WorktreeChoice) -> bool {
    let inherits = cfg.needs@.len() == 1 && value_of(wts, cfg.needs@[0]@) is Some;
    match c {
        WorktreeChoice::Inherit(p) => cfg.needs@.len() == 1 && value_of(wts, cfg.needs@[0]@) == Some(p@),
        WorktreeChoice::Persistent => !inherits && cfg.needs@.len() == 0 && wts.len() == 0,
        WorktreeChoice::Ephemeral => !inherits && !(cfg.needs@.len() == 0 && wts.len() == 0),
    }
}

/// The statuses once each of `keys`, in order, is marked skipped.
pub open spec fn skip_all(st: Seq<(Seq<char>, JobStatus)>, keys: Seq<Seq<char>>) -> Seq<(Seq<char>, JobStatus)>
    decreases keys.len(),
{
    if keys.len() == 0 {
        st
    } else {
        set_value(skip_all(st, keys.drop_last()), keys.last(), JobStatus::Skipped)
    }
}

/// Starting a wave with jobs `keys`, in order: a job with a failed or
/// skipped dependency is marked skipped (which later jobs of the wave see);
/// any other is launched. Gives the statuses after, the skipped keys and
/// the launched keys.
pub open spec fn wave_scan(
    jobs: Seq<(String, JobConfig)>,
    st: Seq<(Seq<char>, JobStatus)>,
    keys: Seq<Seq<char>>,
) -> (Seq<(Seq<char>, JobStatus)>, Seq<Seq<char>>, Seq<Seq<char>>)
    decreases keys.len(),
{
    if keys.len() == 0 {
        (st, Seq::empty(), Seq::empty())
    } else {
        let prev = wave_scan(jobs, st, keys.drop_last());
        let k = keys.last();
        if skip_spec(job_cfg(jobs, k), prev.0) {
            (set_value(prev.0, k, JobStatus::Skipped), prev.1.push(k), prev.2)
        } else {
            (prev.0, prev.1, prev.2.push(k))
        }
    }
}

/// The keys of a wave, as text.
pub open spec fn keys_view(keys: Seq<String>) -> Seq<Seq<char>> {
    keys.map_values(|k: String| k@)
}

/// What starting a wave asks of the caller.
#[derive(Debug)]
pub enum WaveStep {
    /// The run was cancelled: these jobs (all not yet started) are marked
    /// skipped, and the run is marked cancelled.
    Cancelled(Vec<String>),
    /// These jobs were skipped; these are to be run, each in its worktree.
    Launch { skipped: Vec<String>, launch: Vec<(String, WorktreeChoice)> },
    /// Every wave has been started.
    Done,
}

/// A workflow run in progress: its waves, the next one to start, and what
/// is known of the jobs so far.
pub struct DagRun {
    pub waves: Vec<Vec<String>>,
    pub next_wave: usize,
    pub statuses: Vec<(String, JobStatus)>,
    pub worktrees: Vec<(String, String)>,
    pub failed: bool,
}

proof fn lemma_first_job_unique(jobs: Seq<(String, JobConfig)>, key: Seq<char>, a: int, b: int)
    requires
        first_job(jobs, key, a),
        first_job(jobs, key, b),
    ensures
        a == b,
{
    if a < b {
        assert(key_of(jobs, a) != key);
    } else if b < a {
        assert(key_of(jobs, b) != key);
    }
}

fn job_config<'a>(workflow: &'a WorkflowConfig, key: &str) -> (r: &'a JobConfig)
    requires
        exists|i: int| 0 <= i < workflow.jobs@.len() && key_of(workflow.jobs@, i) == key@,
    ensures
        *r == job_cfg(workflow.jobs@, key@),
{
    match find_job(&workflow.jobs, key) {
        Some(i) => {
            proof {
                assert(first_job(workflow.jobs@, key@, i as int));
                let c = choose|c: int| first_job(workflow.jobs@, key@, c);
                lemma_first_job_unique(workflow.jobs@, key@, c, i as int);
            }
            &workflow.jobs[i].1
        },
        None => {
            proof {
                let i = choose|i: int| 0 <= i < workflow.jobs@.len() && key_of(workflow.jobs@, i) == key@;
                assert(key_of(workflow.jobs@, i) != key@);
            }
            &workflow.jobs[0].1
        },
    }
}

fn set_job_worktree(wts: &mut Vec<(String, String)>, key: &str, path: String)
    ensures
        paths_view(final(wts)@) == set_value(paths_view(old(wts)@), key@, path@),
{
    let ghost v = paths_view(wts@);
    let mut i: usize = 0;
    while i < wts.len()
        invariant
            i <= wts@.len(),
            wts@ == old(wts)@,
            v == paths_view(wts@),
            forall|k: int| 0 <= k < i ==> (#[trigger] v[k]).0 != key@,
        decreases wts.len() - i,
    {
        if str_eq(wts[i].0.as_str(), key) {
            proof {
                lemma_key_index_props(v, key@);
                assert(crate::pipeline::key_index(v, key@) == Some(i as int)) by {
                    match crate::pipeline::key_index(v, key@) {
                        Some(j) => {
                            if j < i {
                                assert(v[j].0 != key@);
                            } else if j > i {
                                assert(v[i as int].0 == key@);
                            }
                        },
                        None => {
                            assert(v[i as int].0 == key@);
                        },
                    }
                }
            }
            let k = wts[i].0.clone();
            wts.set(i, (k, path));
            proof {
                assert(paths_view(wts@) =~= v.update(i as int, (key@, path@)));
            }
            return;
        }
        i = i + 1;
    }
    proof {
        lemma_key_index_props(v, key@);
    }
    wts.push((key.to_string(), path));
    proof {
        assert(paths_view(wts@) =~= v.push((key@, path@)));
    }
}

impl DagRun {
    /// A run about to start its first wave.
    pub fn new(waves: Vec<Vec<String>>) -> (r: Self)
        ensures
            r.waves == waves,
            r.next_wave == 0,
            r.statuses@.len() == 0,
            r.worktrees@.len() == 0,
            !r.failed,
    {
        DagRun { waves, next_wave: 0, statuses: Vec::new(), worktrees: Vec::new(), failed: false }
    }

    /// Starts the next wave. When the run was `cancelled`, every job not
    /// yet started is skipped instead and no wave is left.
    pub fn start_wave(&mut self, workflow: &WorkflowConfig, cancelled: bool) -> (r: WaveStep)
        requires
            waves_known(workflow.jobs@, old(self).waves@),
        ensures
            final(self).waves == old(self).waves,
            old(self).next_wave >= old(self).waves@.len() ==> r is Done && *final(self) == *old(self),
            old(self).next_wave < old(self).waves@.len() && cancelled ==> (r matches WaveStep::Cancelled(
                keys,
            ) && keys_view(keys@) == flat_keys(old(self).waves@.skip(old(self).next_wave as int))
                && statuses_view(final(self).statuses@) == skip_all(
                statuses_view(old(self).statuses@),
                keys_view(keys@),
            ) && final(self).next_wave == old(self).waves@.len() && final(self).worktrees
                == old(self).worktrees && final(self).failed == old(self).failed),
            old(self).next_wave < old(self).waves@.len() && !cancelled ==> (r matches WaveStep::Launch {
                skipped,
                launch,
            } && {
                let scan = wave_scan(
                    workflow.jobs@,
                    statuses_view(old(self).statuses@),
                    keys_view(old(self).waves@[old(self).next_wave as int]@),
                );
                &&& statuses_view(final(self).statuses@) == scan.0
                &&& keys_view(skipped@) == scan.1
                &&& launch@.map_values(|p: (String, WorktreeChoice)| p.0@) == scan.2
                &&& forall|i: int|
                    0 <= i < launch@.len() ==> choice_ok(
                        job_cfg(workflow.jobs@, (#[trigger] launch@[i]).0@),
                        paths_view(old(self).worktrees@),
                        launch@[i].1,
                    )
                &&& final(self).failed == (old(self).failed || scan.1.len() > 0)
                &&& final(self).next_wave == old(self).next_wave + 1
                &&& final(self).worktrees == old(self).worktrees
            }),
    {
        if self.next_wave >= self.waves.len() {
            return WaveStep::Done;
        }
        let n = self.next_wave;
        if cancelled {
            let mut keys: Vec<String> = Vec::new();
            let mut w: usize = n;
            proof {
                assert(self.waves@.skip(n as int).take(0) =~= Seq::<Vec<String>>::empty());
            }
            while w < self.waves.len()
                invariant
                    n <= w <= self.waves@.len(),
                    self.waves == old(self).waves,
                    self.worktrees == old(self).worktrees,
                    self.failed == old(self).failed,
                    keys_view(keys@) == flat_keys(self.waves@.skip(n as int).take(w - n)),
                    statuses_view(self.statuses@) == skip_all(statuses_view(old(self).statuses@), keys_view(keys@)),
                decreases self.waves.len() - w,
            {
                let ghost before = keys_view(keys@);
                let mut j: usize = 0;
                while j < self.waves[w].len()
                    invariant
                        n <= w < self.waves@.len(),
                        j <= self.waves@[w as int]@.len(),
                        self.waves == old(self).waves,
                        self.worktrees == old(self).worktrees,
                        self.failed == old(self).failed,
                        keys_view(keys@) == before + keys_view(self.waves@[w as int]@.take(j as int)),
                        statuses_view(self.statuses@) == skip_all(statuses_view(old(self).statuses@), keys_view(keys@)),
                    decreases self.waves@[w as int]@.len() - j,
                {
                    let k = self.waves[w][j].clone();
                    set_job_status(&mut self.statuses, k.as_str(), JobStatus::Skipped);
                    let ghost kv = keys_view(keys@);
                    keys.push(k);
                    proof {
                        assert(keys_view(keys@) =~= kv.push(self.waves@[w as int]@[j as int]@));
                        assert(keys_view(keys@).drop_last() =~= kv);
                        assert(keys_view(self.waves@[w as int]@.take(j + 1)) =~= keys_view(
                            self.waves@[w as int]@.take(j as int),
                        ).push(self.waves@[w as int]@[j as int]@));
                    }
                    j = j + 1;
                }
                proof {
                    let s = self.waves@.skip(n as int);
                    assert(s.take(w + 1 - n).drop_last() =~= s.take(w - n));
                    assert(s.take(w + 1 - n).last() == self.waves@[w as int]);
                    assert(self.waves@[w as int]@.take(j as int) =~= self.waves@[w as int]@);
                }
                w = w + 1;
            }
            proof {
                assert(self.waves@.skip(n as int).take(w - n) =~= self.waves@.skip(n as int));
            }
            self.next_wave = self.waves.len();
            return WaveStep::Cancelled(keys);
        }
        let ghost wts = paths_view(self.worktrees@);
        let ghost st0 = statuses_view(self.statuses@);
        let mut skipped: Vec<String> = Vec::new();
        let mut launch: Vec<(String, WorktreeChoice)> = Vec::new();
        let mut failed = self.failed;
        let mut j: usize = 0;
        while j < self.waves[n].len()
            invariant
                n == old(self).next_wave,
                n < self.waves@.len(),
                j <= self.waves@[n as int]@.len(),
                self.waves == old(self).waves,
                self.worktrees == old(self).worktrees,
                self.next_wave == old(self).next_wave,
                waves_known(workflow.jobs@, self.waves@),
                wts == paths_view(self.worktrees@),
                st0 == statuses_view(old(self).statuses@),
                ({
                    let scan = wave_scan(workflow.jobs@, st0, keys_view(self.waves@[n as int]@.take(j as int)));
                    &&& statuses_view(self.statuses@) == scan.0
                    &&& keys_view(skipped@) == scan.1
                    &&& launch@.map_values(|p: (String, WorktreeChoice)| p.0@) == scan.2
                    &&& failed == (old(self).failed || scan.1.len() > 0)
                }),
                forall|i: int|
                    0 <= i < launch@.len() ==> choice_ok(
                        job_cfg(workflow.jobs@, (#[trigger] launch@[i]).0@),
                        wts,
                        launch@[i].1,
                    ),
            decreases self.waves@[n as int]@.len() - j,
        {
            let ghost keys = keys_view(self.waves@[n as int]@.take(j + 1));
            proof {
                assert(keys.drop_last() =~= keys_view(self.waves@[n as int]@.take(j as int)));
                assert(keys.last() == self.waves@[n as int]@[j as int]@);
                assert(exists|i: int|
                    0 <= i < workflow.jobs@.len() && key_of(workflow.jobs@, i) == (
                    #[trigger] self.waves@[n as int]@[j as int])@);
            }
            let key = self.waves[n][j].clone();
            let cfg = job_config(workflow, key.as_str());
            if should_skip_job(key.as_str(), cfg, &self.statuses) {
                set_job_status(&mut self.statuses, key.as_str(), JobStatus::Skipped);
                let ghost sv = keys_view(skipped@);
                skipped.push(key);
                failed = true;
                proof {
                    assert(keys_view(skipped@) =~= sv.push(keys.last()));
                }
            } else {
                let choice = choose_job_worktree(cfg, &self.worktrees);
                let ghost lv = launch@.map_values(|p: (String, WorktreeChoice)| p.0@);
                launch.push((key, choice));
                proof {
                    assert(launch@.map_values(|p: (String, WorktreeChoice)| p.0@) =~= lv.push(keys.last()));
                    assert(choice_ok(job_cfg(workflow.jobs@, launch@[launch@.len() - 1].0@), wts, launch@[launch@.len() - 1].1));
                }
            }
            j = j + 1;
        }
        proof {
            assert(self.waves@[n as int]@.take(j as int) =~= self.waves@[n as int]@);
        }
        self.failed = failed;
        self.next_wave = n + 1;
        WaveStep::Launch { skipped, launch }
    }

    /// Records the end of job `key`, run in `worktree`: its status, or
    /// `None` when its task died (which fails the run).
    pub fn job_finished(&mut self, key: &str, worktree: String, status: Option<JobStatus>)
        ensures
            final(self).waves == old(self).waves,
            final(self).next_wave == old(self).next_wave,
            status matches Some(s) ==> statuses_view(final(self).statuses@) == set_value(
                statuses_view(old(self).statuses@),
                key@,
                s,
            ) && paths_view(final(self).worktrees@) == set_value(
                paths_view(old(self).worktrees@),
                key@,
                worktree@,
            ) && final(self).failed == (old(self).failed || s == JobStatus::Failed),
            status is None ==> final(self).statuses == old(self).statuses && final(self).worktrees
                == old(self).worktrees && final(self).failed,
    {
        match status {
            Some(s) => {
                set_job_worktree(&mut self.worktrees, key, worktree);
                if s == JobStatus::Failed {
                    self.failed = true;
                }
                set_job_status(&mut self.statuses, key, s);
            },
            None => {
                self.failed = true;
            },
        }
    }

    /// Once every wave has run: the worktrees to remove (not the
    /// persistent one, not kept, not of a paused job), and the run's
    /// outcome.
    pub fn finish(&self, workflow: &WorkflowConfig, persistent: &str) -> (r: (Vec<String>, RunOutcome))
        ensures
            r.0@.map_values(|p: String| p@) == removable_paths(
                workflow.jobs@,
                statuses_view(self.statuses@),
                persistent@,
                false,
                paths_view(self.worktrees@),
            ),
            r.1 == if exists|i: int|
                0 <= i < self.statuses@.len() && (#[trigger] self.statuses@[i]).1
                    == JobStatus::AwaitingApproval {
                RunOutcome::AwaitingApproval
            } else {
                RunOutcome::Completed { success: !self.failed }
            },
    {
        let removals = worktrees_to_remove(workflow, &self.worktrees, &self.statuses, persistent, false);
        (removals, dag_run_outcome(&self.statuses, self.failed))
    }
}

} // verus!
