use airlock::push::WorkflowLoad;
use airlock::push_flow::CoalescedPush;
use airlock::types::{RefUpdate, Run};
use airlock::workflow::WorkflowConfig;

fn upd(name: &str, old: &str, new: &str) -> RefUpdate {
    RefUpdate { ref_name: name.to_string(), old_sha: old.to_string(), new_sha: new.to_string() }
}

fn active_run(id: &str, refs: Vec<RefUpdate>, base: &str) -> Run {
    Run {
        id: id.to_string(),
        repo_id: "repo".to_string(),
        ref_updates: refs,
        branch: "main".to_string(),
        base_sha: base.to_string(),
        head_sha: "h".to_string(),
        current_step: None,
        error: None,
        superseded: false,
        workflow_file: String::new(),
        workflow_name: None,
        created_at: 1,
        updated_at: 1,
    }
}

#[test]
fn a_coalesced_push_splits_supersedes_rebases_and_routes() {
    let zero = "0000000000000000000000000000000000000000";
    let push = vec![
        upd("refs/tags/v1", zero, "t1"),
        upd("refs/heads/main", "a", "b"),
        upd("refs/heads/feature", "c", "d"),
    ];
    let (flow, passthrough) = CoalescedPush::start("repo".to_string(), &push);
    assert_eq!(passthrough.len(), 1);
    assert_eq!(passthrough[0].ref_name, "refs/tags/v1");
    let mut flow = flow.unwrap();
    assert_eq!(flow.updates.len(), 2);

    let active = vec![active_run("r1", vec![upd("refs/heads/main", "x", "a")], "base0")];
    let superseded = flow.supersede(&active);
    assert_eq!(superseded.len(), 1);
    assert_eq!(superseded[0].id, "r1");
    assert!(flow.had_superseded);
    assert_eq!(flow.updates[0].old_sha, "base0");

    flow.apply_upstream(vec![None, Some("up".to_string())]);
    assert_eq!(flow.updates[0].old_sha, "base0");
    assert_eq!(flow.updates[1].old_sha, "up");

    assert_eq!(flow.merge_bases_wanted("main"), vec![false, true]);
    flow.apply_merge_bases("main", vec![None, Some("mb".to_string())]);
    assert_eq!(flow.updates[1].old_sha, "mb");

    let wf = WorkflowConfig { name: None, jobs: vec![] };
    let routing = flow.route(&vec![WorkflowLoad::Loaded(vec![("ci.yml".to_string(), wf)]), WorkflowLoad::Loaded(vec![])]);
    assert_eq!(routing.matched, vec![0]);
    assert_eq!(routing.unmatched.len(), 1);
    assert_eq!(routing.unmatched[0].ref_name, "refs/heads/feature");
    assert!(!routing.cancel_active);

    let routing = flow.route(&vec![WorkflowLoad::Loaded(vec![]), WorkflowLoad::Loaded(vec![])]);
    assert!(routing.matched.is_empty());
    assert!(routing.cancel_active);
    let routing = flow.route(&vec![WorkflowLoad::Failed, WorkflowLoad::Empty]);
    assert_eq!(routing.matched, vec![0, 1]);
}

#[test]
fn a_push_of_tags_only_needs_no_processing() {
    let (flow, passthrough) = CoalescedPush::start("repo".to_string(), &[upd("refs/tags/v1", "a", "b")]);
    assert!(flow.is_none());
    assert_eq!(passthrough.len(), 1);
}
