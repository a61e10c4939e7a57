use airlock::ipc::GIT_ERROR;
use airlock::patch_session::{ApplyOutcome, CommitOutcome, PatchAction, PatchEvent, PatchSession};

fn session(paths: &[&str]) -> PatchSession {
    PatchSession::new("run-1".to_string(), paths.iter().map(|p| p.to_string()).collect())
}

#[test]
fn patches_are_read_applied_and_committed_in_order() {
    let mut s = session(&["/a/p1.json", "/a/p2.json"]);
    match s.on_event(PatchEvent::WorktreeCreated(Ok(()))) {
        PatchAction::ReadFile(p) => assert_eq!(p, "/a/p1.json"),
        other => panic!("unexpected {:?}", other),
    }
    match s.on_event(PatchEvent::FileRead(Ok(r#"{"title": "Fix", "diff": "d1"}"#.to_string()))) {
        PatchAction::Apply { diff, three_way } => {
            assert_eq!(diff, "d1");
            assert!(three_way);
        }
        other => panic!("unexpected {:?}", other),
    }
    match s.on_event(PatchEvent::Applied(ApplyOutcome::Failed("conflict".to_string()))) {
        PatchAction::Apply { diff, three_way } => {
            assert_eq!(diff, "d1");
            assert!(!three_way);
        }
        other => panic!("unexpected {:?}", other),
    }
    match s.on_event(PatchEvent::Applied(ApplyOutcome::Applied)) {
        PatchAction::ReadFile(p) => assert_eq!(p, "/a/p2.json"),
        other => panic!("unexpected {:?}", other),
    }
    assert!(matches!(s.on_event(PatchEvent::FileRead(Err("gone".to_string()))), PatchAction::StageAll));
    match s.on_event(PatchEvent::Staged(Ok(Some(true)))) {
        PatchAction::Commit(m) => assert_eq!(m, "Airlock: applied patches: Fix"),
        other => panic!("unexpected {:?}", other),
    }
    match s.on_event(PatchEvent::Committed(CommitOutcome::Sha("abc".to_string()))) {
        PatchAction::Finish(Ok(r)) => {
            assert!(r.success);
            assert_eq!(r.applied_count, 1);
            assert_eq!(r.new_head_sha, Some("abc".to_string()));
            assert_eq!(r.error, None);
            assert_eq!(r.patch_errors.len(), 1);
            assert_eq!(r.patch_errors[0].path, "/a/p2.json");
            assert_eq!(r.patch_errors[0].error, "Failed to read patch file: gone");
        }
        other => panic!("unexpected {:?}", other),
    }
}

#[test]
fn no_patch_applying_finishes_without_staging() {
    let mut s = session(&["/a/p1.json"]);
    let _ = s.on_event(PatchEvent::WorktreeCreated(Ok(())));
    let _ = s.on_event(PatchEvent::FileRead(Ok(r#"{"diff": "d"}"#.to_string())));
    let _ = s.on_event(PatchEvent::Applied(ApplyOutcome::Failed("x".to_string())));
    match s.on_event(PatchEvent::Applied(ApplyOutcome::Failed("still".to_string()))) {
        PatchAction::Finish(Ok(r)) => {
            assert!(!r.success);
            assert_eq!(r.error, Some("All patches failed to apply".to_string()));
            assert_eq!(r.patch_errors[0].error, "git apply failed: still");
        }
        other => panic!("unexpected {:?}", other),
    }
    let mut empty = session(&[]);
    match empty.on_event(PatchEvent::WorktreeCreated(Ok(()))) {
        PatchAction::Finish(Ok(r)) => assert_eq!(r.error, Some("No patches to apply".to_string())),
        other => panic!("unexpected {:?}", other),
    }
}

#[test]
fn git_failures_end_the_session_with_an_error() {
    let mut s = session(&["/a/p1.json"]);
    match s.on_event(PatchEvent::WorktreeCreated(Err("busy".to_string()))) {
        PatchAction::Finish(Err((code, m))) => {
            assert_eq!(code, GIT_ERROR);
            assert_eq!(m, "Failed to create worktree: busy");
        }
        other => panic!("unexpected {:?}", other),
    }
    let mut s = session(&["/a/p1.json"]);
    let _ = s.on_event(PatchEvent::WorktreeCreated(Ok(())));
    let _ = s.on_event(PatchEvent::FileRead(Ok(r#"{"diff": "d"}"#.to_string())));
    let _ = s.on_event(PatchEvent::Applied(ApplyOutcome::Applied));
    match s.on_event(PatchEvent::Staged(Ok(Some(false)))) {
        PatchAction::Finish(Ok(r)) => {
            assert!(r.success);
            assert_eq!(r.error, Some("Patches applied but produced no changes".to_string()));
        }
        other => panic!("unexpected {:?}", other),
    }
}
