use airlock::artifacts::{
    determine_artifact_type, is_active_status, is_listed_subdir, is_log_file,
    sort_artifacts_by_creation, sort_runs_newest_first,
};
use airlock::cleanup::{
    age_secs, cleanup_enabled, is_older_than, max_artifact_age_days, CleanupResult,
    DEFAULT_MAX_ARTIFACT_AGE_DAYS,
    SECONDS_PER_DAY,
};
use airlock::error::AirlockError;
use airlock::ipc::{method_name, method_not_found_message, route, ArtifactInfo, Method, RunInfo};
use airlock::jj::{bookmark_glob, jj_failure, sync_after_eject, sync_after_init, JjCommand};
use airlock::patches::{
    applied_patches_commit_message, auto_fix_commit_message, check_patch_path,
    first_foreign_patch_path, is_blank_diff, parent_component, nothing_applied_message, patch_entry,
    patch_fields_of, read_patch_entry, temp_patch_file_name, PatchApplication,
};
use airlock::shell::{
    choose_login_shell, choose_user_path, parse_dscl_shell, parse_getent_shell, path_probe_args,
    shell_supports_interactive, DEFAULT_PATH,
};

fn artifact(name: &str, created_at: i64) -> ArtifactInfo {
    ArtifactInfo {
        name: name.to_string(),
        path: format!("/a/{}", name),
        artifact_type: "json".to_string(),
        size_bytes: 1,
        created_at,
    }
}

fn run_info(id: &str, created_at: i64) -> RunInfo {
    RunInfo {
        id: id.to_string(),
        repo_id: None,
        repo_name: None,
        status: "passed".to_string(),
        branch: None,
        base_sha: None,
        head_sha: None,
        current_step: None,
        created_at,
        updated_at: None,
        completed_at: None,
        error: None,
    }
}

#[test]
fn artifact_types() {
    assert_eq!(determine_artifact_type("description.json"), "description");
    assert_eq!(determine_artifact_type("description.md"), "description");
    assert_eq!(determine_artifact_type("test_result.json"), "test_results");
    assert_eq!(determine_artifact_type("push_result.json"), "push");
    assert_eq!(determine_artifact_type("pr_result.json"), "pr");
    assert_eq!(determine_artifact_type("tour.json"), "tour");
    assert_eq!(determine_artifact_type("diff_analysis.json"), "analysis");
    assert_eq!(determine_artifact_type("notes.MD"), "md");
    assert_eq!(determine_artifact_type("Makefile"), "unknown");
}

#[test]
fn listed_entries() {
    assert!(is_listed_subdir("content"));
    assert!(is_listed_subdir("patches"));
    assert!(!is_listed_subdir("logs"));
    assert!(is_log_file("stdout.log"));
    assert!(!is_log_file("log.txt"));
    assert!(is_active_status("running"));
    assert!(is_active_status("awaiting_approval"));
    assert!(!is_active_status("passed"));
}

#[test]
fn stable_sorts() {
    let sorted = sort_artifacts_by_creation(vec![artifact("c", 3), artifact("a", 1), artifact("b", 1)]);
    let names: Vec<&str> = sorted.iter().map(|a| a.name.as_str()).collect();
    assert_eq!(names, vec!["a", "b", "c"]);
    let runs = sort_runs_newest_first(vec![run_info("x", 1), run_info("y", 5), run_info("z", 5)]);
    let ids: Vec<&str> = runs.iter().map(|r| r.id.as_str()).collect();
    assert_eq!(ids, vec!["y", "z", "x"]);
}

#[test]
fn cleanup_accounting() {
    let mut r = CleanupResult::new();
    r.record_deleted(100);
    r.record_deleted(50);
    r.record_preserved();
    r.record_unknown_age("no mtime".to_string());
    r.record_error("io".to_string());
    assert_eq!(r.deleted_count, 2);
    assert_eq!(r.bytes_freed, 150);
    assert_eq!(r.preserved_count, 2);
    assert_eq!(r.errors, vec!["no mtime".to_string(), "io".to_string()]);
}

#[test]
fn cleanup_age_rules() {
    assert_eq!(DEFAULT_MAX_ARTIFACT_AGE_DAYS, 30);
    assert_eq!(max_artifact_age_days(None), 30);
    assert_eq!(max_artifact_age_days(Some(Err("bad yaml".to_string()))), 30);
    assert_eq!(max_artifact_age_days(Some(Ok(0))), 0);
    assert_eq!(max_artifact_age_days(Some(Ok(7))), 7);
    assert!(!cleanup_enabled(0));
    assert!(cleanup_enabled(30));
    assert_eq!(age_secs(100, 40), 60);
    assert_eq!(age_secs(40, 100), 0);
    assert!(is_older_than(31 * SECONDS_PER_DAY, 30));
    assert!(!is_older_than(30 * SECONDS_PER_DAY, 30));
    assert!(is_older_than(u64::MAX, u32::MAX));
    assert!(!is_older_than(0, 0));
}

#[test]
fn jj_bookmark_sync() {
    assert_eq!(bookmark_glob("origin"), "glob:*@origin");
    match jj_failure(&JjCommand::Track("origin".to_string()), "  oops \n") {
        AirlockError::Git(m) => assert_eq!(m, "jj bookmark track failed: oops"),
        other => panic!("unexpected {:?}", other),
    }
    let mut s = sync_after_init();
    assert_eq!(s.next_command(), Some(&JjCommand::GitImport));
    assert!(s.on_outcome(Ok(())).is_none());
    assert_eq!(s.next_command(), Some(&JjCommand::Track("origin".to_string())));
    assert!(s.on_outcome(Ok(())).is_none());
    assert_eq!(s.next_command(), Some(&JjCommand::Untrack("upstream".to_string())));
    // Untracking upstream may fail without failing the sync.
    assert!(matches!(s.on_outcome(Err(AirlockError::Git("x".into()))), Some(Ok(()))));
    assert!(s.next_command().is_none());

    let mut e = sync_after_eject();
    assert!(matches!(e.on_outcome(Err(AirlockError::Git("import".into()))), Some(Err(_))));
}

#[test]
fn patch_files() {
    let ok = read_patch_entry("/a/p.json", r#"{"title": "Fix", "diff": "--- a\n+++ b\n"}"#).unwrap();
    assert_eq!(ok.0, "Fix");
    assert_eq!(ok.1, "--- a\n+++ b\n");
    let untitled = read_patch_entry("/a/p.json", r#"{"diff": "x"}"#).unwrap();
    assert_eq!(untitled.0, "Untitled Patch");
    let e = read_patch_entry("/a/p.json", r#"{"title": "t"}"#).unwrap_err();
    assert_eq!(e.path, "/a/p.json");
    assert_eq!(e.error, "Patch JSON missing 'diff' field");
    let e = read_patch_entry("/a/p.json", "not json").unwrap_err();
    assert!(e.error.starts_with("Failed to parse patch JSON: "));
    let e = patch_entry("/p", Err("bad".to_string())).unwrap_err();
    assert_eq!(e.error, "Failed to parse patch JSON: bad");
    let e = read_patch_entry("/a/p.json", r#"{"title": "t", "diff": 3}"#).unwrap_err();
    assert_eq!(e.error, "Patch JSON missing 'diff' field");
    let e = read_patch_entry("/a/p.json", r#"["diff", "x"]"#).unwrap_err();
    assert_eq!(e.error, "Patch JSON missing 'diff' field");
    let fields = patch_fields_of(Ok(Some(vec![
        ("diff".to_string(), Some("d".to_string())),
        ("title".to_string(), None),
    ])));
    assert_eq!(fields, Ok((None, Some("d".to_string()))));

    assert!(is_blank_diff(" \n\t"));
    assert!(!is_blank_diff("x"));
    let titles = vec!["a".to_string(), "b".to_string()];
    assert_eq!(auto_fix_commit_message(&titles), "Airlock: auto-fixes from a, b");
    assert_eq!(applied_patches_commit_message(&titles), "Airlock: applied patches: a, b");
    assert_eq!(nothing_applied_message(false), "No patches to apply");
    assert_eq!(nothing_applied_message(true), "All patches failed to apply");
    let n = temp_patch_file_name();
    assert!(n.starts_with("airlock-patch-") && n.ends_with(".diff"));
    assert_eq!(n.len(), "airlock-patch-".len() + 36 + ".diff".len());
    assert_ne!(n, temp_patch_file_name());
}

#[test]
fn patch_paths_stay_in_artifacts() {
    assert!(check_patch_path("/art/run/patches/p.json", "/art/run").is_ok());
    assert_eq!(
        check_patch_path("/etc/passwd", "/art/run"),
        Err("Patch path must be within artifacts directory: /etc/passwd".to_string())
    );
    assert!(check_patch_path("/art/runner/p.json", "/art/run").is_err());
    let paths = vec!["/art/run/a".to_string(), "/tmp/b".to_string(), "/tmp/c".to_string()];
    assert_eq!(first_foreign_patch_path(&paths, "/art/run"), Some(1));
    assert_eq!(first_foreign_patch_path(&vec!["/art/run/a".to_string()], "/art/run"), None);
}

#[test]
fn patch_paths_climbing_out_of_artifacts_are_refused() {
    assert_eq!(
        check_patch_path("/art/run/../../etc/passwd", "/art/run"),
        Err("Patch path must be within artifacts directory: /art/run/../../etc/passwd".to_string())
    );
    assert!(check_patch_path("/art/run/patches/..", "/art/run").is_err());
    assert!(check_patch_path("/art/run/..hidden/p.json", "/art/run").is_ok());
    assert!(check_patch_path("/art/run/p..json", "/art/run").is_ok());
    let paths = vec!["/art/run/a".to_string(), "/art/run/x/../../../b".to_string()];
    assert_eq!(first_foreign_patch_path(&paths, "/art/run"), Some(1));
    assert!(parent_component(".."));
    assert!(parent_component("a/../b"));
    assert!(!parent_component("a/.../b"));
}

#[test]
fn login_shell_and_path() {
    assert_eq!(choose_login_shell(Some("/bin/fish".into()), Some("/bin/zsh".into())), "/bin/fish");
    assert_eq!(choose_login_shell(Some(String::new()), Some("/bin/zsh".into())), "/bin/zsh");
    assert_eq!(choose_login_shell(None, None), "bash");
    assert_eq!(parse_dscl_shell("UserShell: /bin/zsh\n"), Some("/bin/zsh".to_string()));
    assert_eq!(parse_dscl_shell("Other: x"), None);
    assert_eq!(parse_getent_shell("alice:x:1000:1000::/home/alice:/bin/bash\n"), Some("/bin/bash".to_string()));
    assert_eq!(parse_getent_shell("alice:x:1000:1000::/home/alice:"), None);
    assert_eq!(choose_user_path(Some(" /a:/b \n"), Some("/env".into())), "/a:/b");
    assert_eq!(choose_user_path(Some("  "), Some("/env".into())), "/env");
    assert_eq!(choose_user_path(None, None), DEFAULT_PATH);
    assert!(shell_supports_interactive("/usr/local/bin/zsh"));
    assert!(shell_supports_interactive("bash"));
    assert!(!shell_supports_interactive("/usr/bin/fish"));
    assert_eq!(path_probe_args("/bin/bash"), vec!["-l", "-i", "-c", "echo $PATH"]);
    assert_eq!(path_probe_args("/bin/sh"), vec!["-l", "-c", "echo $PATH"]);
}

#[test]
fn method_routing() {
    assert_eq!(route("get_runs"), Some(Method::GetRuns));
    assert_eq!(route("approve_step"), Some(Method::ApproveStep));
    assert_eq!(route("subscribe"), None);
    assert_eq!(route("nope"), None);
    assert_eq!(route("cancel_run"), Some(Method::CancelRun));
    assert_eq!(route("retry_job"), Some(Method::RetryJob));
    assert_eq!(method_name(Method::SyncAll), "sync_all");
    assert_eq!(method_not_found_message("foo"), "Method 'foo' not found");
}

#[test]
fn applying_chosen_patches() {
    let none = PatchApplication::new().reply("run-1".to_string(), None);
    assert!(!none.success);
    assert_eq!(none.error, Some("No patches to apply".to_string()));

    let mut failed = PatchApplication::new();
    failed.record_error("/a/p.json".to_string(), "git apply failed: x".to_string());
    let r = failed.reply("run-1".to_string(), None);
    assert!(!r.success);
    assert_eq!(r.error, Some("All patches failed to apply".to_string()));
    assert_eq!(r.patch_errors.len(), 1);

    let mut some = PatchApplication::new();
    some.record_applied("Fix lint".to_string());
    some.record_error("/a/q.json".to_string(), "bad".to_string());
    assert_eq!(applied_patches_commit_message(&some.applied_titles), "Airlock: applied patches: Fix lint");
    let r = some.reply("run-1".to_string(), Some("newsha".to_string()));
    assert!(r.success);
    assert_eq!(r.applied_count, 1);
    assert_eq!(r.new_head_sha, Some("newsha".to_string()));
    assert_eq!(r.error, None);
    assert_eq!(r.patch_errors.len(), 1);

    let mut unchanged = PatchApplication::new();
    unchanged.record_applied("Noop".to_string());
    let r = unchanged.reply("run-1".to_string(), None);
    assert!(r.success);
    assert_eq!(r.error, Some("Patches applied but produced no changes".to_string()));
}
