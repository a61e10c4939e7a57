//! Applying chosen patches to a run, as a sequence of steps: the caller
//! performs each action (creating the worktree, reading a patch file,
//! applying a diff, staging, committing) and reports what happened; the
//! session decides what comes next and, at the end, the reply.

use crate::ipc::{ApplyPatchesResult, GIT_ERROR};
use crate::patches::{
    applied_patches_commit_message, patch_entry_spec, patch_fields, patch_json, read_patch_entry,
    titles_text, PatchApplication,
};
use crate::text::push_str;
use vstd::prelude::*;

verus! {

/// How running `git apply` on a patch went.
#[derive(Debug)]
pub enum ApplyOutcome {
    /// The patch applied.
    Applied,
    /// git ran and refused the patch, with this error output.
    Failed(String),
    /// git could not be run.
    NotRun(String),
    /// The diff could not be written to its temporary file.
    WriteFailed(String),
}

/// How committing the applied patches went.
#[derive(Debug)]
pub enum CommitOutcome {
    /// Committed; the new head sha.
    Sha(String),
    /// git ran and refused the commit, with this error output.
    Failed(String),
    /// git could not be run.
    NotRun(String),
    /// Committed, but the new head sha could not be read.
    NoSha,
}

/// What the caller reports.
#[derive(Debug)]
pub enum PatchEvent {
    /// The temporary worktree was created, or not.
    WorktreeCreated(Result<(), String>),
    /// The current patch file was read (its content), or not.
    FileRead(Result<String, String>),
    /// The current diff was applied, or not.
    Applied(ApplyOutcome),
    /// Everything was staged; whether anything changed (`None` when that
    /// could not be told), or staging failed.
    Staged(Result<Option<bool>, String>),
    /// The commit was made, or not.
    Committed(CommitOutcome),
}

/// What the caller is to do next.
#[derive(Debug)]
pub enum PatchAction {
    /// Read this patch file.
    ReadFile(String),
    /// Apply this diff in the worktree: after writing it to a temporary
    /// file and with `--3way` the first time, plainly the second.
    Apply { diff: String, three_way: bool },
    /// Stage every change and tell whether anything changed.
    StageAll,
    /// Commit with this message and read the new head sha.
    Commit(String),
    /// Remove the worktree and answer the request with this.
    Finish(Result<ApplyPatchesResult, (i32, String)>),
}

/// Where the session stands.
#[derive(Debug)]
pub enum PatchPhase {
    Creating,
    Reading(usize),
    Applying { index: usize, three_way: bool, title: String, diff: String },
    Staging,
    Committing,
    Done,
}

/// Applying the patches at `paths`, in order, for run `run_id`.
pub struct PatchSession {
    pub run_id: String,
    pub paths: Vec<String>,
    pub phase: PatchPhase,
    pub progress: PatchApplication,
}

/// The failed patches, as (path, error) text.
pub open spec fn errors_view(p: PatchApplication) -> Seq<(Seq<char>, Seq<char>)> {
    p.patch_errors@.map_values(|e: crate::ipc::PatchError| (e.path@, e.error@))
}

/// The titles of the applied patches, as text.
pub open spec fn titles_view(p: PatchApplication) -> Seq<Seq<char>> {
    p.applied_titles@.map_values(|t: String| t@)
}

/// `r` is the reply for the patches tried so far (see
/// `PatchApplication::reply`), with the new head `head` if one was made.
pub open spec fn reply_spec(p: PatchApplication, run_id: Seq<char>, head: Option<Seq<char>>, r: ApplyPatchesResult) -> bool {
    &&& r.run_id@ == run_id
    &&& r.applied_count == p.applied_count
    &&& r.patch_errors@ == p.patch_errors@
    &&& p.applied_count == 0 ==> !r.success && r.new_head_sha is None && (r.error matches Some(e) && e@ == if p.patch_errors@.len() == 0 {
        "No patches to apply"@
    } else {
        "All patches failed to apply"@
    })
    &&& p.applied_count != 0 && head is None ==> r.success && r.new_head_sha is None && (r.error matches Some(e) && e@
        == "Patches applied but produced no changes"@)
    &&& p.applied_count != 0 && head is Some ==> r.success && crate::pipeline::opt_text(r.new_head_sha) == head
        && r.error is None
}

/// `a` asks to finish with the error `code` and `message`.
pub open spec fn fails_with(a: PatchAction, code: i32, message: Seq<char>) -> bool {
    a matches PatchAction::Finish(Err(e)) && e.0 == code && e.1@ == message
}

/// Having dealt with the patches before `i`, with progress `p`, the
/// session `s` moves on: it reads patch `i` if there is one; else, when
/// none applied, it finishes with the reply; else it stages.
pub open spec fn moved_on(s: PatchSession, p: PatchApplication, i: int, a: PatchAction) -> bool {
    if i < s.paths@.len() {
        s.phase == PatchPhase::Reading(i as usize) && s.progress == p && (a matches PatchAction::ReadFile(x) && x@
            == s.paths@[i]@)
    } else if p.applied_count == 0 {
        s.phase == PatchPhase::Done && (a matches PatchAction::Finish(Ok(r)) && reply_spec(p, s.run_id@, None, r))
    } else {
        s.phase == PatchPhase::Staging && s.progress == p && a is StageAll
    }
}

/// The progress after patch `path` failed with `error`.
pub open spec fn failed_one(before: PatchApplication, after: PatchApplication, path: Seq<char>, error: Seq<char>) -> bool {
    &&& after.applied_count == before.applied_count
    &&& titles_view(after) == titles_view(before)
    &&& errors_view(after) == errors_view(before).push((path, error))
}

/// The progress after the patch titled `title` applied.
pub open spec fn applied_one(before: PatchApplication, after: PatchApplication, title: Seq<char>) -> bool {
    &&& after.applied_count == before.applied_count + 1
    &&& titles_view(after) == titles_view(before).push(title)
    &&& errors_view(after) == errors_view(before)
}

/// The event is the kind the phase waits for.
pub open spec fn expects(phase: PatchPhase, e: PatchEvent) -> bool {
    match phase {
        PatchPhase::Creating => e is WorktreeCreated,
        PatchPhase::Reading(_) => e is FileRead,
        PatchPhase::Applying { .. } => e is Applied,
        PatchPhase::Staging => e is Staged,
        PatchPhase::Committing => e is Committed,
        PatchPhase::Done => false,
    }
}

/// `prefix` followed by `detail`.
fn message(prefix: &str, detail: &str) -> (r: String)
    ensures
        r@ == prefix@ + detail@,
{
    let mut m = prefix.to_string();
    push_str(&mut m, detail);
    m
}

/// What one step of the session does: from `before`, on `event`, it
/// becomes `after` and asks for `a`.
pub open spec fn transition_ok(before: PatchSession, event: PatchEvent, after: PatchSession, a: PatchAction) -> bool {
    match (before.phase, event) {
        (PatchPhase::Creating, PatchEvent::WorktreeCreated(Err(e))) => after.phase
            == PatchPhase::Done && fails_with(a, GIT_ERROR, "Failed to create worktree: "@ + e@),
        (PatchPhase::Creating, PatchEvent::WorktreeCreated(Ok(_))) => moved_on(
            after,
            before.progress,
            0,
            a,
        ),
        (PatchPhase::Reading(i), PatchEvent::FileRead(Err(e))) => exists|p: PatchApplication|
            failed_one(
                before.progress,
                p,
                before.paths@[i as int]@,
                "Failed to read patch file: "@ + e@,
            ) && moved_on(after, p, i + 1, a),
        (PatchPhase::Reading(i), PatchEvent::FileRead(Ok(c))) => match patch_entry_spec(
            before.paths@[i as int]@,
            patch_fields(patch_json(c@)),
        ) {
            Err(pe) => exists|p: PatchApplication|
                failed_one(before.progress, p, before.paths@[i as int]@, pe.1) && moved_on(after, p, i + 1, a),
            Ok(td) => after.progress == before.progress && (after.phase matches PatchPhase::Applying { index, three_way, title, diff } && index == i
                && three_way && title@ == td.0 && diff@ == td.1) && (a matches PatchAction::Apply {
                diff,
                three_way,
            } && three_way && diff@ == td.1),
        },
        (
            PatchPhase::Applying { index, three_way, title, diff },
            PatchEvent::Applied(o),
        ) => match o {
            ApplyOutcome::Applied => exists|p: PatchApplication|
                applied_one(before.progress, p, title@) && moved_on(after, p, index + 1, a),
            ApplyOutcome::Failed(err) => if three_way {
                after.progress == before.progress && (after.phase matches PatchPhase::Applying { index: i2, three_way: t2, title: ti2, diff: d2 }
                    && i2 == index && !t2 && ti2@ == title@ && d2@ == diff@) && (a matches PatchAction::Apply {
                    diff: d3,
                    three_way: t3,
                } && !t3 && d3@ == diff@)
            } else {
                exists|p: PatchApplication|
                    failed_one(
                        before.progress,
                        p,
                        before.paths@[index as int]@,
                        "git apply failed: "@ + err@,
                    ) && moved_on(after, p, index + 1, a)
            },
            ApplyOutcome::NotRun(err) => exists|p: PatchApplication|
                failed_one(
                    before.progress,
                    p,
                    before.paths@[index as int]@,
                    "Failed to execute git apply: "@ + err@,
                ) && moved_on(after, p, index + 1, a),
            ApplyOutcome::WriteFailed(err) => exists|p: PatchApplication|
                failed_one(
                    before.progress,
                    p,
                    before.paths@[index as int]@,
                    "Failed to write temp patch file: "@ + err@,
                ) && moved_on(after, p, index + 1, a),
        },
        (PatchPhase::Staging, PatchEvent::Staged(Err(e))) => after.phase == PatchPhase::Done
            && fails_with(a, GIT_ERROR, "Failed to stage changes: "@ + e@),
        (PatchPhase::Staging, PatchEvent::Staged(Ok(changed))) => if changed == Some(false) {
            after.phase == PatchPhase::Done && (a matches PatchAction::Finish(Ok(r)) && reply_spec(
                before.progress,
                before.run_id@,
                None,
                r,
            ))
        } else {
            after.phase == PatchPhase::Committing && after.progress == before.progress
                && (a matches PatchAction::Commit(m) && m@ == "Airlock: applied patches: "@
                + titles_text(before.progress.applied_titles@))
        },
        (PatchPhase::Committing, PatchEvent::Committed(o)) => after.phase == PatchPhase::Done
            && match o {
            CommitOutcome::Sha(sha) => a matches PatchAction::Finish(Ok(r)) && reply_spec(
                before.progress,
                before.run_id@,
                Some(sha@),
                r,
            ),
            CommitOutcome::Failed(err) => fails_with(a, GIT_ERROR, "Failed to commit patches: "@ + err@),
            CommitOutcome::NotRun(err) => fails_with(a, GIT_ERROR, "Failed to execute git commit: "@ + err@),
            CommitOutcome::NoSha => fails_with(a, GIT_ERROR, "Failed to get new HEAD SHA after commit"@),
        },
        _ => false,
    }
}

impl PatchSession {
    /// Well-formedness: the position and the count agree with the phase.
    pub open spec fn wf(&self) -> bool {
        &&& self.paths@.len() < u32::MAX
        &&& match self.phase {
            PatchPhase::Creating => self.progress.applied_count == 0,
            PatchPhase::Reading(i) => i < self.paths@.len() && self.progress.applied_count <= i,
            PatchPhase::Applying { index, .. } => index < self.paths@.len() && self.progress.applied_count
                <= index,
            PatchPhase::Staging => 0 < self.progress.applied_count <= self.paths@.len(),
            PatchPhase::Committing => 0 < self.progress.applied_count <= self.paths@.len(),
            PatchPhase::Done => true,
        }
    }

    /// A session that first creates its worktree.
    pub fn new(run_id: String, paths: Vec<String>) -> (r: Self)
        requires
            paths@.len() < u32::MAX,
        ensures
            r.wf(),
            r.run_id == run_id,
            r.paths == paths,
            r.phase == PatchPhase::Creating,
            r.progress.applied_count == 0,
            titles_view(r.progress).len() == 0,
            errors_view(r.progress).len() == 0,
    {
        PatchSession { run_id, paths, phase: PatchPhase::Creating, progress: PatchApplication::new() }
    }

    /// Finishes with the reply for the progress so far and the new head.
    fn finish_ok(&mut self, head: Option<String>) -> (a: PatchAction)
        ensures
            final(self).phase == PatchPhase::Done,
            final(self).run_id == old(self).run_id,
            final(self).paths == old(self).paths,
            a matches PatchAction::Finish(Ok(r)) && reply_spec(
                old(self).progress,
                old(self).run_id@,
                crate::pipeline::opt_text(head),
                r,
            ),
    {
        self.phase = PatchPhase::Done;
        let mut progress = PatchApplication::new();
        std::mem::swap(&mut progress, &mut self.progress);
        let r = progress.reply(self.run_id.clone(), head);
        PatchAction::Finish(Ok(r))
    }

    fn move_on(&mut self, i: usize) -> (a: PatchAction)
        requires
            i <= old(self).paths@.len(),
            old(self).paths@.len() < u32::MAX,
            old(self).progress.applied_count <= i,
        ensures
            final(self).wf(),
            final(self).run_id == old(self).run_id,
            final(self).paths == old(self).paths,
            moved_on(*final(self), old(self).progress, i as int, a),
    {
        if i < self.paths.len() {
            self.phase = PatchPhase::Reading(i);
            PatchAction::ReadFile(self.paths[i].clone())
        } else if self.progress.applied_count == 0 {
            self.finish_ok(None)
        } else {
            self.phase = PatchPhase::Staging;
            PatchAction::StageAll
        }
    }

    fn fail_current(&mut self, i: usize, error: String) -> (r: (PatchAction, Ghost<PatchApplication>))
        requires
            i < old(self).paths@.len(),
            old(self).paths@.len() < u32::MAX,
            old(self).progress.applied_count <= i,
        ensures
            final(self).wf(),
            final(self).run_id == old(self).run_id,
            final(self).paths == old(self).paths,
            failed_one(old(self).progress, r.1@, old(self).paths@[i as int]@, error@),
            moved_on(*final(self), r.1@, i + 1, r.0),
    {
        let ghost before = self.progress;
        let path = self.paths[i].clone();
        self.progress.record_error(path, error);
        let ghost mid = self.progress;
        proof {
            assert(errors_view(mid) =~= errors_view(before).push((old(self).paths@[i as int]@, error@))) by {
                assert(mid.patch_errors@.drop_last() == before.patch_errors@);
            }
            assert(titles_view(mid) =~= titles_view(before));
        }
        let a = self.move_on(i + 1);
        (a, Ghost(mid))
    }

    /// Takes in what the caller reports and says what to do next.
    pub fn on_event(&mut self, event: PatchEvent) -> (a: PatchAction)
        requires
            old(self).wf(),
            expects(old(self).phase, event),
        ensures
            final(self).wf(),
            final(self).run_id == old(self).run_id,
            final(self).paths == old(self).paths,
            transition_ok(*old(self), event, *final(self), a),
    {
        let ghost ev = event;
        let ghost start = *self;
        let mut phase = PatchPhase::Done;
        std::mem::swap(&mut phase, &mut self.phase);
        let result = match phase {
            PatchPhase::Creating => match event {
                PatchEvent::WorktreeCreated(Ok(())) => self.move_on(0),
                PatchEvent::WorktreeCreated(Err(e)) => {
                    PatchAction::Finish(Err((GIT_ERROR, message("Failed to create worktree: ", e.as_str()))))
                },
                _ => PatchAction::StageAll,
            },
            PatchPhase::Reading(i) => match event {
                PatchEvent::FileRead(Err(e)) => {
                    self.phase = PatchPhase::Reading(i);
                    let ghost m = "Failed to read patch file: "@ + e@;
                    let (a, Ghost(p)) = self.fail_current(i, message("Failed to read patch file: ", e.as_str()));
                    proof {
                        assert(failed_one(start.progress, p, start.paths@[i as int]@, m) && moved_on(*self, p, i + 1, a));
                        assert(transition_ok(start, ev, *self, a));
                    }
                    a
                },
                PatchEvent::FileRead(Ok(c)) => {
                    let entry = read_patch_entry(self.paths[i].as_str(), c.as_str());
                    match entry {
                        Err(pe) => {
                            self.phase = PatchPhase::Reading(i);
                            let ghost pv = (pe.path@, pe.error@);
                            let (a, Ghost(p)) = self.fail_current(i, pe.error);
                            proof {
                                let spec_entry = patch_entry_spec(start.paths@[i as int]@, patch_fields(patch_json(c@)));
                                assert(spec_entry == Err::<(Seq<char>, Seq<char>), (Seq<char>, Seq<char>)>(pv));
                                assert(failed_one(start.progress, p, start.paths@[i as int]@, pv.1) && moved_on(*self, p, i + 1, a));
                                assert(spec_entry->Err_0.1 == pv.1);
                                assert(failed_one(start.progress, p, start.paths@[i as int]@, spec_entry->Err_0.1));
                                assert(transition_ok(start, ev, *self, a));
                            }
                            a
                        },
                        Ok((title, diff)) => {
                            let d = diff.clone();
                            self.phase = PatchPhase::Applying { index: i, three_way: true, title, diff };
                            PatchAction::Apply { diff: d, three_way: true }
                        },
                    }
                },
                _ => PatchAction::StageAll,
            },
            PatchPhase::Applying { index, three_way, title, diff } => match event {
                PatchEvent::Applied(o) => {
                    let ghost t = title@;
                    let ghost path = start.paths@[index as int]@;
                    match o {
                        ApplyOutcome::Applied => {
                            self.progress.record_applied(title);
                            let ghost mid = self.progress;
                            proof {
                                assert(titles_view(mid) =~= titles_view(start.progress).push(t));
                                assert(errors_view(mid) =~= errors_view(start.progress));
                            }
                            let a = self.move_on(index + 1);
                            proof {
                                assert(applied_one(start.progress, mid, t) && moved_on(*self, mid, index + 1, a));
                                assert(transition_ok(start, ev, *self, a));
                            }
                            a
                        },
                        ApplyOutcome::Failed(err) => {
                            if three_way {
                                let d = diff.clone();
                                self.phase = PatchPhase::Applying { index, three_way: false, title, diff };
                                PatchAction::Apply { diff: d, three_way: false }
                            } else {
                                let ghost m = "git apply failed: "@ + err@;
                                let (a, Ghost(p)) = self.fail_current(index, message("git apply failed: ", err.as_str()));
                                proof {
                                    assert(failed_one(start.progress, p, path, m) && moved_on(*self, p, index + 1, a));
                                    assert(transition_ok(start, ev, *self, a));
                                }
                                a
                            }
                        },
                        ApplyOutcome::NotRun(err) => {
                            let ghost m = "Failed to execute git apply: "@ + err@;
                            let (a, Ghost(p)) = self.fail_current(index, message("Failed to execute git apply: ", err.as_str()));
                            proof {
                                assert(failed_one(start.progress, p, path, m) && moved_on(*self, p, index + 1, a));
                                assert(transition_ok(start, ev, *self, a));
                            }
                            a
                        },
                        ApplyOutcome::WriteFailed(err) => {
                            let ghost m = "Failed to write temp patch file: "@ + err@;
                            let (a, Ghost(p)) = self.fail_current(index, message("Failed to write temp patch file: ", err.as_str()));
                            proof {
                                assert(failed_one(start.progress, p, path, m) && moved_on(*self, p, index + 1, a));
                                assert(transition_ok(start, ev, *self, a));
                            }
                            a
                        },
                    }
                },
                _ => PatchAction::StageAll,
            },
            PatchPhase::Staging => match event {
                PatchEvent::Staged(Err(e)) => {
                    PatchAction::Finish(Err((GIT_ERROR, message("Failed to stage changes: ", e.as_str()))))
                },
                PatchEvent::Staged(Ok(changed)) => {
                    let unchanged = match changed {
                        Some(c) => !c,
                        None => false,
                    };
                    if unchanged {
                        self.finish_ok(None)
                    } else {
                        self.phase = PatchPhase::Committing;
                        PatchAction::Commit(applied_patches_commit_message(&self.progress.applied_titles))
                    }
                },
                _ => PatchAction::StageAll,
            },
            PatchPhase::Committing => match event {
                PatchEvent::Committed(o) => match o {
                    CommitOutcome::Sha(sha) => self.finish_ok(Some(sha)),
                    CommitOutcome::Failed(err) => {
                        PatchAction::Finish(Err((GIT_ERROR, message("Failed to commit patches: ", err.as_str()))))
                    },
                    CommitOutcome::NotRun(err) => {
                        PatchAction::Finish(Err((GIT_ERROR, message("Failed to execute git commit: ", err.as_str()))))
                    },
                    CommitOutcome::NoSha => PatchAction::Finish(
                        Err((GIT_ERROR, "Failed to get new HEAD SHA after commit".to_string())),
                    ),
                },
                _ => PatchAction::StageAll,
            },
            PatchPhase::Done => PatchAction::StageAll,
        };
        proof {
            assert(transition_ok(start, ev, *self, result));
        }
        result
    }
}

} // verus!
