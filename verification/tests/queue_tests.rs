use airlock::run_queue::{refs_overlap, RunQueue, MAX_CONCURRENT_RUNS};

fn refs(names: &[&str]) -> Vec<String> {
    names.iter().map(|s| s.to_string()).collect()
}

#[test]
fn sequential_runs_on_one_branch() {
    let mut q = RunQueue::new();
    let main = refs(&["refs/heads/main"]);
    let (id, token, cancelled) = q.enqueue("repo-1", &main);
    assert_eq!(id, 0);
    assert!(cancelled.is_empty());
    q.promote("repo-1", id, &token, &main);
    assert!(!token.is_cancelled());
    q.release("repo-1", id);
    let (id2, token2, cancelled2) = q.enqueue("repo-1", &main);
    assert_eq!(id2, 1);
    assert!(cancelled2.is_empty());
    assert!(!token2.is_cancelled());
    assert!(!token.is_cancelled());
}

#[test]
fn newer_push_cancels_active_run_on_same_branch() {
    let mut q = RunQueue::new();
    let main = refs(&["refs/heads/main"]);
    let (a, ta, _) = q.enqueue("repo-1", &main);
    q.promote("repo-1", a, &ta, &main);
    let (b, tb, cancelled) = q.enqueue("repo-1", &main);
    assert_eq!(cancelled, vec![a]);
    assert!(ta.is_cancelled());
    assert!(!tb.is_cancelled());
    assert_ne!(a, b);
}

#[test]
fn other_branches_and_repos_are_untouched() {
    let mut q = RunQueue::new();
    let a_refs = refs(&["refs/heads/feature-a"]);
    let b_refs = refs(&["refs/heads/feature-b"]);
    let (a, ta, _) = q.enqueue("repo-1", &a_refs);
    q.promote("repo-1", a, &ta, &a_refs);
    let (_, tb, cancelled) = q.enqueue("repo-1", &b_refs);
    assert!(cancelled.is_empty());
    let (_, tc, cancelled) = q.enqueue("repo-2", &a_refs);
    assert!(cancelled.is_empty());
    assert!(!ta.is_cancelled() && !tb.is_cancelled() && !tc.is_cancelled());
    assert_eq!(q.next_run_id("repo-1"), 2);
    assert_eq!(q.next_run_id("repo-2"), 1);
    assert_eq!(q.next_run_id("repo-3"), 0);
}

#[test]
fn cancel_active_without_enqueue() {
    let mut q = RunQueue::new();
    let main = refs(&["refs/heads/main"]);
    let (a, ta, _) = q.enqueue("repo-1", &main);
    q.promote("repo-1", a, &ta, &main);
    assert_eq!(q.cancel_active("repo-1", None), vec![a]);
    assert!(ta.is_cancelled());
    assert!(q.cancel_active("repo-nonexistent", None).is_empty());
}

#[test]
fn cancel_active_is_ref_aware() {
    let mut q = RunQueue::new();
    let main = refs(&["refs/heads/main"]);
    let other = refs(&["refs/heads/other"]);
    let (a, ta, _) = q.enqueue("repo-1", &main);
    q.promote("repo-1", a, &ta, &main);
    assert!(q.cancel_active("repo-1", Some(&other)).is_empty());
    assert!(!ta.is_cancelled());
}

#[test]
fn cancel_active_drops_matching_waiting_runs_only() {
    let mut q = RunQueue::new();
    let a_refs = refs(&["refs/heads/feature-a"]);
    let b_refs = refs(&["refs/heads/feature-b"]);
    let (a, ta, _) = q.enqueue("repo-1", &a_refs);
    q.promote("repo-1", a, &ta, &a_refs);
    let (_b, tb, _) = q.enqueue("repo-1", &b_refs);
    let (c, tc, _) = q.enqueue("repo-1", &refs(&["refs/heads/feature-a", "refs/heads/x"]));
    // Enqueuing c already cancelled a; cancelling feature-a again hits a and c.
    assert!(ta.is_cancelled());
    let hit = q.cancel_active("repo-1", Some(&a_refs));
    assert_eq!(hit, vec![a, c]);
    assert!(tc.is_cancelled());
    assert!(!tb.is_cancelled());
}

#[test]
fn overlap_of_ref_lists() {
    assert!(refs_overlap(&refs(&["a", "b"]), &refs(&["c", "b"])));
    assert!(!refs_overlap(&refs(&["a"]), &refs(&["b"])));
    assert!(!refs_overlap(&refs(&[]), &refs(&["b"])));
    assert_eq!(MAX_CONCURRENT_RUNS, 8);
}

#[test]
fn concurrent_branches_of_one_repo_cancel_only_their_own_runs() {
    let mut q = RunQueue::new();
    let main = refs(&["refs/heads/main"]);
    let other = refs(&["refs/heads/other"]);
    let (a, t1, _) = q.enqueue("repo-1", &main);
    q.promote("repo-1", a, &t1, &main);
    let (b, t2, _) = q.enqueue("repo-1", &other);
    q.promote("repo-1", b, &t2, &other);
    assert_eq!(q.running_count("repo-1"), 2);
    let (c, t3, cancelled) = q.enqueue("repo-1", &main);
    assert_eq!(cancelled, vec![a]);
    q.promote("repo-1", c, &t3, &main);
    assert_eq!(q.running_count("repo-1"), 3);
    assert!(t1.is_cancelled() && !t2.is_cancelled() && !t3.is_cancelled());
    q.release("repo-1", a);
    assert_eq!(q.running_count("repo-1"), 2);
    assert_eq!(q.running_count("repo-9"), 0);
}
