use airlock::types::SplitHunk;
use airlock::error::AirlockError;
use airlock::worktree::{
    gitdir_target, hunks_to_patch, persistent_worktree_step, reset_failure, sort_names, str_lt,
    worktree_paths_from_porcelain, PersistentWorktreeStep,
};

fn hunk(file: &str, index: u32, old: (u32, u32), new: (u32, u32), content: &str) -> SplitHunk {
    SplitHunk {
        id: format!("{}:{}", file, index),
        file_path: file.to_string(),
        hunk_index: index,
        old_start: old.0,
        old_lines: old.1,
        new_start: new.0,
        new_lines: new.1,
        additions: 1,
        deletions: 0,
        content: content.to_string(),
        language: Some("rust".to_string()),
    }
}

#[test]
fn test_hunks_to_patch_empty() {
    let patch = hunks_to_patch(&[]);
    assert!(patch.is_empty());
}

#[test]
fn test_hunks_to_patch_single_hunk() {
    let h = hunk(
        "src/main.rs",
        0,
        (1, 3),
        (1, 4),
        "@@ -1,3 +1,4 @@\n fn main() {\n     println!(\"Hello\");\n+    println!(\"World\");\n }\n",
    );
    let patch = hunks_to_patch(&[h]);
    assert!(patch.contains("diff --git a/src/main.rs b/src/main.rs"));
    assert!(patch.contains("--- a/src/main.rs"));
    assert!(patch.contains("+++ b/src/main.rs"));
    assert!(patch.contains("@@ -1,3 +1,4 @@"));
    assert!(patch.contains("+    println!(\"World\");"));
}

#[test]
fn test_hunks_to_patch_multiple_files() {
    let h1 = hunk("src/lib.rs", 0, (1, 1), (1, 2), "@@ -1,1 +1,2 @@\n pub mod foo;\n+pub mod bar;\n");
    let h2 = hunk("src/main.rs", 0, (1, 1), (1, 2), "@@ -1,1 +1,2 @@\n fn main() {}\n+// comment\n");
    let patch = hunks_to_patch(&[h1, h2]);
    assert!(patch.contains("diff --git a/src/lib.rs b/src/lib.rs"));
    assert!(patch.contains("diff --git a/src/main.rs b/src/main.rs"));
}

#[test]
fn test_hunks_to_patch_multiple_hunks_same_file() {
    let h1 = hunk("src/main.rs", 0, (1, 1), (1, 2), "@@ -1,1 +1,2 @@\n fn main() {\n+    // first\n");
    let h2 = hunk("src/main.rs", 1, (10, 1), (11, 2), "@@ -10,1 +11,2 @@\n fn other() {\n+    // second\n");
    let patch = hunks_to_patch(&[h2, h1]);
    let diff_count = patch.matches("diff --git a/src/main.rs b/src/main.rs").count();
    assert_eq!(diff_count, 1, "Should have exactly one file header");
    let first_pos = patch.find("// first").unwrap();
    let second_pos = patch.find("// second").unwrap();
    assert!(first_pos < second_pos, "Hunks should be ordered by index");
}

#[test]
fn test_hunks_to_patch_adds_header_if_missing() {
    let h = hunk(
        "src/main.rs",
        0,
        (1, 3),
        (1, 4),
        " fn main() {\n     println!(\"Hello\");\n+    println!(\"World\");\n }\n",
    );
    let patch = hunks_to_patch(&[h]);
    assert!(patch.contains("@@ -1,3 +1,4 @@"));
}

#[test]
fn patch_exact_text_and_file_order() {
    let b = hunk("b.rs", 0, (2, 1), (2, 1), "@@ -2,1 +2,1 @@\n-x\n+y");
    let a = hunk("a.rs", 0, (1, 0), (1, 1), "+z\n");
    let patch = hunks_to_patch(&[b, a]);
    assert_eq!(
        patch,
        "diff --git a/a.rs b/a.rs\n--- a/a.rs\n+++ b/a.rs\n@@ -1,0 +1,1 @@\n+z\n\
         diff --git a/b.rs b/b.rs\n--- a/b.rs\n+++ b/b.rs\n@@ -2,1 +2,1 @@\n-x\n+y\n"
    );
}

#[test]
fn text_order() {
    assert!(str_lt("a", "b"));
    assert!(str_lt("a", "ab"));
    assert!(!str_lt("b", "a"));
    assert!(!str_lt("a", "a"));
}

#[test]
fn porcelain_listing() {
    let out = "worktree /repos/gate.git\nbare\n\nworktree /wt/repo/run-1\nHEAD abc\ndetached\n\nworktree /wt/repo/persistent\r\n";
    assert_eq!(
        worktree_paths_from_porcelain(out),
        vec!["/repos/gate.git", "/wt/repo/run-1", "/wt/repo/persistent"]
    );
    assert!(worktree_paths_from_porcelain("").is_empty());
}

#[test]
fn worktree_git_file() {
    assert_eq!(gitdir_target("gitdir: /g/worktrees/run-1\n"), Some("/g/worktrees/run-1".to_string()));
    assert_eq!(gitdir_target("  gitdir:/x  "), Some("/x".to_string()));
    assert_eq!(gitdir_target("ref: refs/heads/main"), None);
}

#[test]
fn persistent_worktree_steps() {
    assert_eq!(persistent_worktree_step(false, false), PersistentWorktreeStep::Create);
    assert_eq!(persistent_worktree_step(true, false), PersistentWorktreeStep::ReplaceStale);
    assert_eq!(persistent_worktree_step(true, true), PersistentWorktreeStep::Reset);
    assert!(reset_failure("fatal: not a git repository (or any parent)").is_none());
    match reset_failure("fatal: bad revision") {
        Some(AirlockError::Git(m)) => assert_eq!(m, "Failed to reset persistent worktree: fatal: bad revision"),
        other => panic!("unexpected {:?}", other),
    }
}

#[test]
fn names_sort_ascending_without_duplicates() {
    let names: Vec<String> = ["b.json", "a.json", "c.json", "a.json", "B.json"].iter().map(|s| s.to_string()).collect();
    assert_eq!(sort_names(&names), vec!["B.json", "a.json", "b.json", "c.json"]);
}

#[test]
fn the_patch_does_not_depend_on_hunk_order() {
    let hunks = vec![
        hunk("b.rs", 1, (10, 2), (10, 3), "@@ -10,2 +10,3 @@\n x\n+y\n"),
        hunk("a.rs", 0, (1, 1), (1, 1), "-a\n+b"),
        hunk("b.rs", 0, (1, 1), (1, 2), " c\n+d\n"),
        hunk("a.rs", 2, (5, 1), (5, 1), "-e\n+f\n"),
    ];
    let expected = hunks_to_patch(&hunks);
    let orders: [[usize; 4]; 4] = [[3, 2, 1, 0], [1, 3, 0, 2], [2, 0, 3, 1], [0, 1, 3, 2]];
    for order in orders {
        let permuted: Vec<SplitHunk> = order.iter().map(|&i| hunks[i].clone()).collect();
        assert_eq!(hunks_to_patch(&permuted), expected);
    }
}
