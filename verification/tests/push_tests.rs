use airlock::push::{
    apply_merge_base, apply_upstream_base, inherit_superseded_bases, is_pipeline_ref,
    is_stale_run_ref, missed_push_decision, needs_merge_base, partition_refs,
    paused_jobs_to_release, push_marker_ref, queue_ref_names, run_covers, run_id_from_ref_line,
    run_ref, runs_for_update, tracking_ref, will_create_runs, MissedPush, RunLookup, WorkflowLoad,
};
use airlock::push_coalescer::{
    find_overlapping_runs, has_overlapping_refs, merge_ref_updates, PushCoalescer,
    DEBOUNCE_DELAY_MS,
};
use airlock::types::{JobResult, JobStatus, RefUpdate, Run};
use airlock::workflow::WorkflowConfig;

fn update(name: &str, old: &str, new: &str) -> RefUpdate {
    RefUpdate { ref_name: name.to_string(), old_sha: old.to_string(), new_sha: new.to_string() }
}

fn t(u: &RefUpdate) -> (&str, &str, &str) {
    (u.ref_name.as_str(), u.old_sha.as_str(), u.new_sha.as_str())
}

fn ts(v: &[RefUpdate]) -> Vec<(&str, &str, &str)> {
    v.iter().map(t).collect()
}

fn run_with(id: &str, refs: Vec<RefUpdate>, base: &str) -> Run {
    Run {
        id: id.to_string(),
        repo_id: "repo1".to_string(),
        ref_updates: refs,
        error: None,
        superseded: false,
        created_at: 1000,
        branch: String::new(),
        base_sha: base.to_string(),
        head_sha: String::new(),
        current_step: None,
        updated_at: 1000,
        workflow_file: String::new(),
        workflow_name: None,
    }
}

fn job(id: &str, status: JobStatus, wt: Option<&str>) -> JobResult {
    JobResult {
        id: id.to_string(),
        run_id: "run1".to_string(),
        job_key: id.to_string(),
        name: None,
        status,
        job_order: 0,
        started_at: None,
        completed_at: None,
        error: None,
        worktree_path: wt.map(|s| s.to_string()),
    }
}

#[test]
fn test_push_marker_ref_format() {
    assert_eq!(push_marker_ref("main"), "refs/airlock/pushed/main");
    assert_eq!(push_marker_ref("feature/my-branch"), "refs/airlock/pushed/feature/my-branch");
}

#[test]
fn other_ref_names() {
    assert_eq!(run_ref("abc"), "refs/airlock/runs/abc");
    assert_eq!(tracking_ref("main"), "refs/remotes/origin/main");
}

#[test]
fn test_merge_ref_updates_new_ref() {
    let mut existing = vec![update("refs/heads/main", "aaa", "bbb")];
    let new = vec![update("refs/heads/feature", "ccc", "ddd")];
    merge_ref_updates(&mut existing, new);
    assert_eq!(existing.len(), 2);
    assert!(existing.iter().any(|r| r.ref_name == "refs/heads/main"));
    assert!(existing.iter().any(|r| r.ref_name == "refs/heads/feature"));
}

#[test]
fn test_merge_ref_updates_same_ref() {
    let mut existing = vec![update("refs/heads/main", "aaa", "bbb")];
    let new = vec![update("refs/heads/main", "bbb", "ccc")];
    merge_ref_updates(&mut existing, new);
    assert_eq!(existing.len(), 1);
    assert_eq!(existing[0].old_sha, "aaa");
    assert_eq!(existing[0].new_sha, "ccc");
}

#[test]
fn merge_keeps_order_and_newest_sha() {
    let mut existing = vec![update("refs/heads/a", "1", "2"), update("refs/heads/b", "3", "4")];
    let new = vec![update("refs/heads/c", "5", "6"), update("refs/heads/a", "2", "7"), update("refs/heads/a", "7", "8")];
    merge_ref_updates(&mut existing, new);
    assert_eq!(existing.len(), 3);
    assert_eq!(t(&existing[0]), ("refs/heads/a", "1", "8"));
    assert_eq!(t(&existing[1]), ("refs/heads/b", "3", "4"));
    assert_eq!(t(&existing[2]), ("refs/heads/c", "5", "6"));
}

#[test]
fn test_has_overlapping_refs() {
    let new_refs = vec![update("refs/heads/main", "aaa", "bbb")];
    let active_runs = vec![run_with("run1", vec![update("refs/heads/main", "000", "aaa")], "")];
    assert!(has_overlapping_refs(&new_refs, &active_runs));
}

#[test]
fn test_no_overlapping_refs() {
    let new_refs = vec![update("refs/heads/feature", "aaa", "bbb")];
    let active_runs = vec![run_with("run1", vec![update("refs/heads/main", "000", "aaa")], "")];
    assert!(!has_overlapping_refs(&new_refs, &active_runs));
}

#[test]
fn overlapping_runs_are_found_in_order() {
    let new_refs = vec![update("refs/heads/main", "a", "b")];
    let runs = vec![
        run_with("r1", vec![update("refs/heads/main", "0", "a")], ""),
        run_with("r2", vec![update("refs/heads/x", "0", "a")], ""),
        run_with("r3", vec![update("refs/heads/main", "a", "c")], ""),
    ];
    let found = find_overlapping_runs(&new_refs, &runs);
    let ids: Vec<&str> = found.iter().map(|r| r.id.as_str()).collect();
    assert_eq!(ids, vec!["r1", "r3"]);
}

#[test]
fn test_coalescer_first_push() {
    let mut coalescer = PushCoalescer::new();
    let refs = vec![update("refs/heads/main", "aaa", "bbb")];
    let result = coalescer.record_push("repo1", refs);
    assert!(result.is_none());
    assert!(coalescer.pending_for("repo1").is_some());
}

#[test]
fn test_coalescer_merge_pushes() {
    let mut coalescer = PushCoalescer::new();
    coalescer.record_push("repo1", vec![update("refs/heads/main", "aaa", "bbb")]);
    coalescer.record_push("repo1", vec![update("refs/heads/main", "bbb", "ccc")]);
    let push = coalescer.pending_for("repo1").unwrap();
    assert_eq!(push.ref_updates.len(), 1);
    assert_eq!(push.ref_updates[0].old_sha, "aaa");
    assert_eq!(push.ref_updates[0].new_sha, "ccc");
}

#[test]
fn coalescer_window_timing() {
    let mut c = PushCoalescer::new();
    assert!(c.record_push_at("r", vec![update("refs/heads/main", "a", "b")], 100).is_none());
    assert!(c.record_push_at("r", vec![update("refs/heads/dev", "c", "d")], 100 + DEBOUNCE_DELAY_MS - 1).is_none());
    assert_eq!(c.pending_for("r").unwrap().last_received, 100 + DEBOUNCE_DELAY_MS - 1);
    // Nothing is ready before the window closes.
    assert!(c.ready_pushes_at(100 + DEBOUNCE_DELAY_MS - 1).is_empty());
    // A push after the window closes flushes everything merged so far.
    let flushed = c.record_push_at("r", vec![update("refs/heads/main", "b", "e")], 100 + DEBOUNCE_DELAY_MS).unwrap();
    assert_eq!(ts(&flushed), vec![("refs/heads/main", "a", "e"), ("refs/heads/dev", "c", "d")]);
    assert!(c.pending_for("r").is_none());
}

#[test]
fn coalescer_ready_pushes_by_repo() {
    let mut c = PushCoalescer::new();
    c.record_push_at("early", vec![update("refs/heads/main", "a", "b")], 0);
    c.record_push_at("late", vec![update("refs/heads/main", "c", "d")], 1500);
    let ready = c.ready_pushes_at(2500);
    assert_eq!(ready.len(), 1);
    assert_eq!(ready[0].0, "early");
    assert!(c.pending_for("late").is_some());
    assert!(c.pending_for("early").is_none());
    let ready = c.ready_pushes_at(3500);
    assert_eq!(ready.len(), 1);
    assert_eq!(ready[0].0, "late");
}

#[test]
fn pipeline_refs_and_partition() {
    let zero = "0000000000000000000000000000000000000000";
    assert!(is_pipeline_ref(&update("refs/heads/main", "a", "b")));
    assert!(!is_pipeline_ref(&update("refs/tags/v1", "a", "b")));
    assert!(!is_pipeline_ref(&update("refs/heads/main", "a", zero)));
    let (pipe, pass) = partition_refs(&[
        update("refs/tags/v1", zero, "t"),
        update("refs/heads/main", "a", "b"),
        update("refs/heads/old", "c", zero),
        update("refs/heads/dev", zero, "d"),
    ]);
    assert_eq!(ts(&pipe), vec![("refs/heads/main", "a", "b"), ("refs/heads/dev", zero, "d")]);
    assert_eq!(ts(&pass), vec![("refs/tags/v1", zero, "t"), ("refs/heads/old", "c", zero)]);
}

#[test]
fn superseded_bases_are_inherited() {
    let mut ups = vec![update("refs/heads/main", "b2", "b3"), update("refs/heads/dev", "d1", "d2")];
    let superseded = vec![
        run_with("r1", vec![update("refs/heads/main", "b0", "b1")], "b0"),
        run_with("r2", vec![update("refs/heads/main", "b1", "b2")], "b1"),
    ];
    inherit_superseded_bases(&mut ups, &superseded);
    assert_eq!(t(&ups[0]), ("refs/heads/main", "b1", "b3"));
    assert_eq!(t(&ups[1]), ("refs/heads/dev", "d1", "d2"));
}

#[test]
fn upstream_and_merge_base() {
    let zero = "0000000000000000000000000000000000000000";
    let mut u = update("refs/heads/main", "c1", "c2");
    apply_upstream_base(&mut u, Some("u0".to_string()));
    assert_eq!(u.old_sha, "u0");
    let mut created = update("refs/heads/main", zero, "c2");
    apply_upstream_base(&mut created, Some("u0".to_string()));
    assert_eq!(created.old_sha, zero);

    let feature = update("refs/heads/feature", "f1", "f2");
    assert!(needs_merge_base(&feature, "main"));
    assert!(!needs_merge_base(&update("refs/heads/main", "m1", "m2"), "main"));
    let mut f = feature.clone();
    apply_merge_base(&mut f, "main", Some("mb".to_string()));
    assert_eq!(f.old_sha, "mb");
    let mut m = update("refs/heads/main", "m1", "m2");
    apply_merge_base(&mut m, "main", Some("mb".to_string()));
    assert_eq!(m.old_sha, "m1");
}

#[test]
fn runs_of_a_push() {
    assert!(!will_create_runs(&vec![WorkflowLoad::Loaded(vec![])]));
    assert!(will_create_runs(&vec![WorkflowLoad::Loaded(vec![]), WorkflowLoad::Empty]));
    assert!(will_create_runs(&vec![WorkflowLoad::Failed]));

    let u = update("refs/heads/feature/x", "a", "b");
    let none = runs_for_update("repo", &u, &vec![]);
    assert_eq!(none.len(), 1);
    assert_eq!(none[0].branch, "feature/x");
    assert_eq!(none[0].base_sha, "a");
    assert_eq!(none[0].head_sha, "b");
    assert!(none[0].workflow_file.is_empty());

    let wfs = vec![
        ("main.yml".to_string(), WorkflowConfig { name: Some("CI".to_string()), jobs: vec![] }),
        ("lint.yml".to_string(), WorkflowConfig { name: None, jobs: vec![] }),
    ];
    let runs = runs_for_update("repo", &u, &wfs);
    assert_eq!(runs.len(), 2);
    assert_eq!(runs[0].workflow_file, "main.yml");
    assert_eq!(runs[0].workflow_name, Some("CI".to_string()));
    assert_eq!(runs[1].workflow_file, "lint.yml");
    assert_ne!(runs[0].id, runs[1].id);
    assert_eq!(ts(&runs[1].ref_updates), vec![t(&u)]);
}

#[test]
fn queue_names_and_paused_jobs() {
    let runs = vec![
        run_with("r1", vec![update("refs/heads/a", "1", "2")], ""),
        run_with("r2", vec![update("refs/heads/b", "1", "2"), update("refs/heads/c", "1", "2")], ""),
    ];
    assert_eq!(queue_ref_names(&runs), vec!["refs/heads/a", "refs/heads/b", "refs/heads/c"]);
    let jobs = vec![
        job("j1", JobStatus::AwaitingApproval, Some("/wt/1")),
        job("j2", JobStatus::Passed, None),
        job("j3", JobStatus::AwaitingApproval, None),
    ];
    assert_eq!(
        paused_jobs_to_release("repo", &jobs),
        vec![
            ("j1".to_string(), "repo".to_string(), Some("/wt/1".to_string())),
            ("j3".to_string(), "repo".to_string(), None)
        ]
    );
}

#[test]
fn missed_push_decisions() {
    let run = run_with("r", vec![update("refs/heads/main", "a", "b")], "a");
    assert!(run_covers(&run, "refs/heads/main", "b"));
    assert!(!run_covers(&run, "refs/heads/main", "c"));

    assert!(matches!(missed_push_decision("main", None, false, false, None), MissedPush::Cleanup));
    assert!(matches!(missed_push_decision("main", Some("g".into()), true, false, None), MissedPush::Cleanup));
    assert!(matches!(missed_push_decision("main", Some("g".into()), false, false, Some("g".into())), MissedPush::Cleanup));
    match missed_push_decision("main", Some("g".into()), false, false, Some("u".into())) {
        MissedPush::Missed(u) => assert_eq!(t(&u), ("refs/heads/main", "u", "g")),
        MissedPush::Cleanup => panic!("expected a missed push"),
    }
    match missed_push_decision("feat", Some("g".into()), false, false, None) {
        MissedPush::Missed(u) => {
            assert_eq!(u.old_sha, "0000000000000000000000000000000000000000");
            assert_eq!(u.ref_name, "refs/heads/feat");
        }
        MissedPush::Cleanup => panic!("expected a missed push"),
    }
}

#[test]
fn stale_run_refs() {
    assert_eq!(run_id_from_ref_line("  refs/airlock/runs/abc-1 \n"), Some("abc-1".to_string()));
    assert_eq!(run_id_from_ref_line("refs/heads/main"), None);
    assert_eq!(run_id_from_ref_line("   "), None);

    assert!(is_stale_run_ref(&RunLookup::Missing));
    assert!(!is_stale_run_ref(&RunLookup::Failed));
    let mut run = run_with("r", vec![], "");
    assert!(!is_stale_run_ref(&RunLookup::Found(run.clone(), Some(vec![job("j", JobStatus::Running, None)]))));
    assert!(is_stale_run_ref(&RunLookup::Found(run.clone(), Some(vec![job("j", JobStatus::Passed, None)]))));
    assert!(!is_stale_run_ref(&RunLookup::Found(run.clone(), None)));
    run.superseded = true;
    assert!(is_stale_run_ref(&RunLookup::Found(run, None)));
}

#[test]
fn merged_ref_names_stay_distinct() {
    let mut existing = vec![update("refs/heads/main", "a", "b"), update("refs/heads/dev", "c", "d")];
    let newer = vec![
        update("refs/heads/dev", "d", "e"),
        update("refs/heads/x", "0", "1"),
        update("refs/heads/x", "1", "2"),
        update("refs/heads/main", "b", "f"),
    ];
    merge_ref_updates(&mut existing, newer);
    assert_eq!(
        ts(&existing),
        vec![("refs/heads/main", "a", "f"), ("refs/heads/dev", "c", "e"), ("refs/heads/x", "0", "2")]
    );
}
