//! Patches assembled from diff hunks, and what `git worktree` prints.

use crate::error::AirlockError;
use crate::text::{
    contains, decimal, lines, lines_seq, push_decimal, push_str, seq_contains, seq_starts_with, starts_with, str_eq,
    strip_prefix, trim, trim_seq,
};
use crate::types::SplitHunk;
use vstd::prelude::*;

verus! {

// =============================================================================
// Ordering paths
// =============================================================================

/// `a` sorts before `b`: lexicographic order of characters (the order of
/// Rust's `str`, whose UTF-8 bytes sort as their code points do).
pub open spec fn seq_lt(a: Seq<char>, b: Seq<char>) -> bool
    decreases a.len(),
{
    if a.len() == 0 {
        b.len() > 0
    } else if b.len() == 0 {
        false
    } else if a[0] != b[0] {
        (a[0] as u32) < (b[0] as u32)
    } else {
        seq_lt(a.drop_first(), b.drop_first())
    }
}

/// Whether `a` sorts before `b`.
pub fn str_lt(a: &str, b: &str) -> (r: bool)
    ensures
        r == seq_lt(a@, b@),
{
    let n = a.unicode_len();
    let m = b.unicode_len();
    let mut i: usize = 0;
    assert(a@.skip(0) =~= a@ && b@.skip(0) =~= b@);
    while i < n && i < m
        invariant
            n == a@.len(),
            m == b@.len(),
            i <= n,
            i <= m,
            forall|k: int| 0 <= k < i ==> a@[k] == b@[k],
            seq_lt(a@, b@) == seq_lt(a@.skip(i as int), b@.skip(i as int)),
        decreases n - i,
    {
        let x = a.get_char(i);
        let y = b.get_char(i);
        proof {
            assert(a@.skip(i as int)[0] == x);
            assert(b@.skip(i as int)[0] == y);
            assert(a@.skip(i as int).drop_first() =~= a@.skip(i + 1));
            assert(b@.skip(i as int).drop_first() =~= b@.skip(i + 1));
        }
        if x != y {
            return (x as u32) < (y as u32);
        }
        i = i + 1;
    }
    proof {
        assert(a@.skip(i as int).len() == n - i);
        assert(b@.skip(i as int).len() == m - i);
    }
    i == n && i < m
}

/// Index of the first element of `s` that does not sort before `p`
/// (`s.len()` when all do).
pub open spec fn first_not_lt(s: Seq<Seq<char>>, p: Seq<char>) -> int
    decreases s.len(),
{
    if s.len() == 0 {
        0
    } else if seq_lt(s[0], p) {
        1 + first_not_lt(s.drop_first(), p)
    } else {
        0
    }
}

/// Adds `p` to the ordered list `s` of distinct paths, before the first
/// that does not sort before it, unless it is that one.
pub open spec fn insert_path(s: Seq<Seq<char>>, p: Seq<char>) -> Seq<Seq<char>> {
    let i = first_not_lt(s, p);
    if i < s.len() && s[i] == p {
        s
    } else {
        s.insert(i, p)
    }
}

/// The distinct file paths of the hunks, in sorted order.
pub open spec fn sorted_paths(hunks: Seq<SplitHunk>) -> Seq<Seq<char>>
    decreases hunks.len(),
{
    if hunks.len() == 0 {
        Seq::empty()
    } else {
        insert_path(sorted_paths(hunks.drop_last()), hunks.last().file_path@)
    }
}

proof fn lemma_first_not_lt_bounds(s: Seq<Seq<char>>, p: Seq<char>)
    ensures
        0 <= first_not_lt(s, p) <= s.len(),
        forall|k: int| 0 <= k < first_not_lt(s, p) ==> seq_lt(#[trigger] s[k], p),
        first_not_lt(s, p) < s.len() ==> !seq_lt(s[first_not_lt(s, p)], p),
    decreases s.len(),
{
    if s.len() > 0 && seq_lt(s[0], p) {
        lemma_first_not_lt_bounds(s.drop_first(), p);
        assert forall|k: int| 0 <= k < first_not_lt(s, p) implies seq_lt(#[trigger] s[k], p) by {
            if k > 0 {
                assert(s[k] == s.drop_first()[k - 1]);
            }
        }
    }
}

fn position_for_path(v: &Vec<String>, p: &str) -> (r: usize)
    ensures
        r == first_not_lt(v@.map_values(|x: String| x@), p@),
{
    let ghost sv = v@.map_values(|x: String| x@);
    let mut i: usize = 0;
    assert(sv.skip(0) =~= sv);
    while i < v.len()
        invariant
            i <= v@.len(),
            sv == v@.map_values(|x: String| x@),
            first_not_lt(sv, p@) == i + first_not_lt(sv.skip(i as int), p@),
        decreases v.len() - i,
    {
        proof {
            assert(sv.skip(i as int)[0] == v@[i as int]@);
            assert(sv.skip(i as int).drop_first() =~= sv.skip(i + 1));
        }
        if !str_lt(v[i].as_str(), p) {
            return i;
        }
        i = i + 1;
    }
    proof {
        assert(sv.skip(i as int).len() == 0);
    }
    i
}

// =============================================================================
// Ordering hunks
// =============================================================================

/// Index of the first hunk in `ids` (indices into `hunks`) whose index
/// comes after `index` (`ids.len()` when none does).
pub open spec fn first_after(hunks: Seq<SplitHunk>, ids: Seq<int>, index: u32) -> int
    decreases ids.len(),
{
    if ids.len() == 0 {
        0
    } else if hunks[ids[0]].hunk_index <= index {
        1 + first_after(hunks, ids.drop_first(), index)
    } else {
        0
    }
}

/// The hunks of file `f`, as indices into `hunks`, ordered by hunk index
/// and, for equal indices, as they come (a stable sort).
pub open spec fn file_hunk_ids(hunks: Seq<SplitHunk>, f: Seq<char>, n: int) -> Seq<int>
    decreases n,
{
    if n <= 0 {
        Seq::empty()
    } else {
        let prev = file_hunk_ids(hunks, f, n - 1);
        if hunks[n - 1].file_path@ == f {
            prev.insert(first_after(hunks, prev, hunks[n - 1].hunk_index), n - 1)
        } else {
            prev
        }
    }
}

proof fn lemma_file_hunk_ids_bounds(hunks: Seq<SplitHunk>, f: Seq<char>, n: int)
    requires
        0 <= n <= hunks.len(),
    ensures
        forall|k: int|
            0 <= k < file_hunk_ids(hunks, f, n).len() ==> 0 <= #[trigger] file_hunk_ids(hunks, f, n)[k]
                < n,
    decreases n,
{
    if n > 0 {
        lemma_file_hunk_ids_bounds(hunks, f, n - 1);
        let prev = file_hunk_ids(hunks, f, n - 1);
        if hunks[n - 1].file_path@ == f {
            lemma_first_after_bounds(hunks, prev, hunks[n - 1].hunk_index);
            let q = prev.insert(first_after(hunks, prev, hunks[n - 1].hunk_index), n - 1);
            assert forall|k: int| 0 <= k < q.len() implies 0 <= #[trigger] q[k] < n by {
                let i = first_after(hunks, prev, hunks[n - 1].hunk_index);
                if k < i {
                    assert(q[k] == prev[k]);
                } else if k > i {
                    assert(q[k] == prev[k - 1]);
                }
            }
        }
    }
}

proof fn lemma_first_after_bounds(hunks: Seq<SplitHunk>, ids: Seq<int>, index: u32)
    ensures
        0 <= first_after(hunks, ids, index) <= ids.len(),
    decreases ids.len(),
{
    if ids.len() > 0 && hunks[ids[0]].hunk_index <= index {
        lemma_first_after_bounds(hunks, ids.drop_first(), index);
    }
}

fn position_for_hunk(hunks: &[SplitHunk], ids: &Vec<usize>, index: u32) -> (r: usize)
    requires
        forall|k: int| 0 <= k < ids@.len() ==> #[trigger] ids@[k] < hunks@.len(),
    ensures
        r == first_after(hunks@, ids@.map_values(|x: usize| x as int), index),
        r <= ids@.len(),
{
    let ghost iv = ids@.map_values(|x: usize| x as int);
    let mut i: usize = 0;
    assert(iv.skip(0) =~= iv);
    while i < ids.len()
        invariant
            i <= ids@.len(),
            iv == ids@.map_values(|x: usize| x as int),
            forall|k: int| 0 <= k < ids@.len() ==> #[trigger] ids@[k] < hunks@.len(),
            first_after(hunks@, iv, index) == i + first_after(hunks@, iv.skip(i as int), index),
        decreases ids.len() - i,
    {
        proof {
            assert(iv.skip(i as int)[0] == ids@[i as int] as int);
            assert(iv.skip(i as int).drop_first() =~= iv.skip(i + 1));
        }
        if hunks[ids[i]].hunk_index > index {
            return i;
        }
        i = i + 1;
    }
    proof {
        assert(iv.skip(i as int).len() == 0);
    }
    i
}

// =============================================================================
// Patches
// =============================================================================

/// The file header of a patch section for `f`.
pub open spec fn file_header(f: Seq<char>) -> Seq<char> {
    "diff --git a/"@ + f + " b/"@ + f + "\n--- a/"@ + f + "\n+++ b/"@ + f + "\n"@
}

/// The `@@` line of a hunk whose content lacks one.
pub open spec fn range_header(h: SplitHunk) -> Seq<char> {
    "@@ -"@ + decimal(h.old_start as nat) + ","@ + decimal(h.old_lines as nat) + " +"@ + decimal(
        h.new_start as nat,
    ) + ","@ + decimal(h.new_lines as nat) + " @@\n"@
}

/// A hunk in a patch: its content, after an `@@` line built from its ranges
/// when the content does not start with one, and ending with a newline.
pub open spec fn hunk_text(h: SplitHunk) -> Seq<char> {
    let c = h.content@;
    (if seq_starts_with(c, "@@"@) {
        Seq::<char>::empty()
    } else {
        range_header(h)
    }) + c + if c.len() > 0 && c.last() != '\n' {
        "\n"@
    } else {
        Seq::<char>::empty()
    }
}

/// The hunks with indices `ids`, one after the other.
pub open spec fn hunks_text(hunks: Seq<SplitHunk>, ids: Seq<int>) -> Seq<char>
    decreases ids.len(),
{
    if ids.len() == 0 {
        Seq::empty()
    } else {
        hunks_text(hunks, ids.drop_last()) + hunk_text(hunks[ids.last()])
    }
}

/// The sections of the files `files`, one after the other.
pub open spec fn sections(hunks: Seq<SplitHunk>, files: Seq<Seq<char>>) -> Seq<char>
    decreases files.len(),
{
    if files.len() == 0 {
        Seq::empty()
    } else {
        sections(hunks, files.drop_last()) + file_header(files.last()) + hunks_text(
            hunks,
            file_hunk_ids(hunks, files.last(), hunks.len() as int),
        )
    }
}

/// The unified patch of the hunks: one section per file, files in sorted
/// order, each with its `diff --git`, `---` and `+++` lines, then its
/// hunks by hunk index.
pub open spec fn patch_spec(hunks: Seq<SplitHunk>) -> Seq<char> {
    sections(hunks, sorted_paths(hunks))
}

fn push_range_header(patch: &mut String, h: &SplitHunk)
    ensures
        final(patch)@ == old(patch)@ + range_header(*h),
{
    push_str(patch, "@@ -");
    push_decimal(patch, h.old_start as u64);
    push_str(patch, ",");
    push_decimal(patch, h.old_lines as u64);
    push_str(patch, " +");
    push_decimal(patch, h.new_start as u64);
    push_str(patch, ",");
    push_decimal(patch, h.new_lines as u64);
    push_str(patch, " @@\n");
    proof {
        assert(final(patch)@ =~= old(patch)@ + range_header(*h));
    }
}

fn push_hunk(patch: &mut String, h: &SplitHunk)
    ensures
        final(patch)@ == old(patch)@ + hunk_text(*h),
{
    let ghost c = h.content@;
    let ghost prefix: Seq<char> = if seq_starts_with(c, "@@"@) {
        Seq::<char>::empty()
    } else {
        range_header(*h)
    };
    let ghost suffix: Seq<char> = if c.len() > 0 && c.last() != '\n' {
        "\n"@
    } else {
        Seq::<char>::empty()
    };
    if !starts_with(h.content.as_str(), "@@") {
        push_range_header(patch, h);
    } else {
        assert(patch@ =~= old(patch)@ + prefix);
    }
    let ghost p1 = patch@;
    push_str(patch, h.content.as_str());
    let n = h.content.unicode_len();
    if n > 0 && h.content.get_char(n - 1) != '\n' {
        push_str(patch, "\n");
    } else {
        assert(patch@ =~= p1 + c + suffix);
    }
    proof {
        assert(hunk_text(*h) == prefix + c + suffix);
        assert(patch@ =~= old(patch)@ + (prefix + c + suffix));
    }
}

/// Builds a unified patch from hunks, which may come from several files and
/// in any order: files are sorted, each gets its header once, and its hunks
/// follow by hunk index; a hunk without an `@@` line gets one from its line
/// ranges, and every hunk ends with a newline.
pub fn hunks_to_patch(hunks: &[SplitHunk]) -> (r: String)
    ensures
        r@ == patch_spec(hunks@),
        hunks@.len() == 0 ==> r@.len() == 0,
{
    // The distinct paths, sorted.
    let mut paths: Vec<String> = Vec::new();
    let mut i: usize = 0;
    while i < hunks.len()
        invariant
            i <= hunks@.len(),
            paths@.map_values(|x: String| x@) == sorted_paths(hunks@.take(i as int)),
        decreases hunks.len() - i,
    {
        proof {
            assert(hunks@.take(i + 1).drop_last() =~= hunks@.take(i as int));
            assert(hunks@.take(i + 1).last() == hunks@[i as int]);
        }
        let ghost sv = paths@.map_values(|x: String| x@);
        let p = hunks[i].file_path.as_str();
        let pos = position_for_path(&paths, p);
        proof {
            lemma_first_not_lt_bounds(sv, p@);
        }
        let present = pos < paths.len() && str_eq(paths[pos].as_str(), p);
        if !present {
            paths.insert(pos, p.to_string());
            proof {
                assert(paths@.map_values(|x: String| x@) =~= sv.insert(pos as int, p@));
            }
        }
        i = i + 1;
    }
    proof {
        assert(hunks@.take(hunks@.len() as int) =~= hunks@);
    }
    let ghost files = paths@.map_values(|x: String| x@);
    let mut patch = String::new();
    let mut f: usize = 0;
    while f < paths.len()
        invariant
            f <= paths@.len(),
            files == paths@.map_values(|x: String| x@),
            files == sorted_paths(hunks@),
            patch@ == sections(hunks@, files.take(f as int)),
        decreases paths.len() - f,
    {
        proof {
            assert(files.take(f + 1).drop_last() =~= files.take(f as int));
            assert(files.take(f + 1).last() == paths@[f as int]@);
        }
        let path = paths[f].as_str();
        push_str(&mut patch, "diff --git a/");
        push_str(&mut patch, path);
        push_str(&mut patch, " b/");
        push_str(&mut patch, path);
        push_str(&mut patch, "\n--- a/");
        push_str(&mut patch, path);
        push_str(&mut patch, "\n+++ b/");
        push_str(&mut patch, path);
        push_str(&mut patch, "\n");
        let ghost after_header = patch@;
        proof {
            assert(after_header =~= sections(hunks@, files.take(f as int)) + file_header(path@));
        }
        // The file's hunks, ordered by hunk index.
        let mut ids: Vec<usize> = Vec::new();
        let mut k: usize = 0;
        while k < hunks.len()
            invariant
                k <= hunks@.len(),
                forall|j: int| 0 <= j < ids@.len() ==> #[trigger] ids@[j] < k,
                ids@.map_values(|x: usize| x as int) == file_hunk_ids(hunks@, path@, k as int),
            decreases hunks.len() - k,
        {
            let ghost iv = ids@.map_values(|x: usize| x as int);
            let ghost prev = ids@;
            if str_eq(hunks[k].file_path.as_str(), path) {
                let pos = position_for_hunk(hunks, &ids, hunks[k].hunk_index);
                ids.insert(pos, k);
                proof {
                    assert(ids@.map_values(|x: usize| x as int) =~= iv.insert(pos as int, k as int));
                    assert forall|j: int| 0 <= j < ids@.len() implies #[trigger] ids@[j] < k + 1 by {
                        if j < pos {
                            assert(ids@[j] == prev[j]);
                        } else if j > pos {
                            assert(ids@[j] == prev[j - 1]);
                        }
                    }
                }
            }
            k = k + 1;
        }
        let ghost iv = ids@.map_values(|x: usize| x as int);
        let mut h: usize = 0;
        while h < ids.len()
            invariant
                h <= ids@.len(),
                iv == ids@.map_values(|x: usize| x as int),
                forall|j: int| 0 <= j < ids@.len() ==> #[trigger] ids@[j] < hunks@.len(),
                patch@ == after_header + hunks_text(hunks@, iv.take(h as int)),
            decreases ids.len() - h,
        {
            proof {
                assert(iv.take(h + 1).drop_last() =~= iv.take(h as int));
                assert(iv.take(h + 1).last() == ids@[h as int] as int);
            }
            push_hunk(&mut patch, &hunks[ids[h]]);
            proof {
                assert(patch@ =~= after_header + hunks_text(hunks@, iv.take(h + 1)));
            }
            h = h + 1;
        }
        proof {
            assert(iv.take(h as int) =~= iv);
            assert(patch@ =~= sections(hunks@, files.take(f + 1)));
        }
        f = f + 1;
    }
    proof {
        assert(files.take(f as int) =~= files);
        if hunks@.len() == 0 {
            assert(sorted_paths(hunks@).len() == 0);
        }
    }
    patch
}

// =============================================================================
// Worktrees on disk
// =============================================================================

/// The worktree paths listed by `git worktree list --porcelain`: the text
/// after `worktree ` on each line that starts with it, in order.
pub open spec fn porcelain_paths(ls: Seq<Seq<char>>) -> Seq<Seq<char>>
    decreases ls.len(),
{
    if ls.len() == 0 {
        Seq::empty()
    } else if seq_starts_with(ls.last(), "worktree "@) {
        porcelain_paths(ls.drop_last()).push(ls.last().skip(9))
    } else {
        porcelain_paths(ls.drop_last())
    }
}

/// The worktree paths in the output of `git worktree list --porcelain`.
pub fn worktree_paths_from_porcelain(stdout: &str) -> (r: Vec<String>)
    ensures
        r@.map_values(|p: String| p@) == porcelain_paths(lines_seq(stdout@)),
{
    let ls = lines(stdout);
    let ghost lv = ls@.map_values(|l: String| l@);
    let mut out: Vec<String> = Vec::new();
    let mut i: usize = 0;
    while i < ls.len()
        invariant
            i <= ls@.len(),
            lv == ls@.map_values(|l: String| l@),
            out@.map_values(|p: String| p@) == porcelain_paths(lv.take(i as int)),
        decreases ls.len() - i,
    {
        proof {
            assert(lv.take(i + 1).drop_last() =~= lv.take(i as int));
            assert(lv.take(i + 1).last() == ls@[i as int]@);
        }
        let line = ls[i].as_str();
        assert(line@ == lv[i as int]);
        match strip_prefix(line, "worktree ") {
            Some(p) => {
                let ghost before = out@;
                out.push(p.to_string());
                proof {
                    assert(out@.map_values(|x: String| x@) =~= before.map_values(|x: String| x@).push(p@));
                    reveal_strlit("worktree ");
                    assert(p@ == lv.take(i + 1).last().skip(9));
                }
            },
            None => {
                proof {
                    assert(!seq_starts_with(lv.take(i + 1).last(), "worktree "@));
                }
            },
        }
        i = i + 1;
    }
    proof {
        assert(lv.take(ls@.len() as int) =~= lv);
    }
    out
}

/// The metadata directory a worktree's `.git` file points to: the text
/// after `gitdir:` in its trimmed contents, trimmed; none when the file
/// does not have that form (the worktree is then stale).
pub fn gitdir_target(contents: &str) -> (r: Option<String>)
    ensures
        seq_starts_with(trim_seq(contents@), "gitdir:"@) ==> (r matches Some(g) && g@ == trim_seq(
            trim_seq(contents@).skip(7),
        )),
        !seq_starts_with(trim_seq(contents@), "gitdir:"@) ==> r is None,
{
    proof {
        reveal_strlit("gitdir:");
    }
    match strip_prefix(trim(contents), "gitdir:") {
        Some(rest) => Some(trim(rest).to_string()),
        None => None,
    }
}

/// What resetting the persistent worktree starts with.
#[derive(Debug, Clone, Copy, PartialEq, Eq, Structural)]
pub enum PersistentWorktreeStep {
    /// No worktree yet: create it at the commit.
    Create,
    /// The directory is stale (its git metadata is gone): remove it, prune
    /// the bare repository's worktree list, and create it anew.
    ReplaceStale,
    /// Reset the existing worktree to the commit and clean untracked files
    /// (ignored files, such as build caches, stay).
    Reset,
}

/// The first step of resetting the persistent worktree, from whether its
/// directory exists and, if so, whether it is a valid worktree.
pub fn persistent_worktree_step(present: bool, valid: bool) -> (r: PersistentWorktreeStep)
    ensures
        r == if !present {
            PersistentWorktreeStep::Create
        } else if !valid {
            PersistentWorktreeStep::ReplaceStale
        } else {
            PersistentWorktreeStep::Reset
        },
{
    if !present {
        PersistentWorktreeStep::Create
    } else if !valid {
        PersistentWorktreeStep::ReplaceStale
    } else {
        PersistentWorktreeStep::Reset
    }
}

/// What a failed `git reset --hard` in the persistent worktree leads to:
/// `None` when the worktree turned out to be stale (it is then replaced),
/// else the error.
pub fn reset_failure(stderr: &str) -> (r: Option<AirlockError>)
    ensures
        seq_contains(stderr@, "not a git repository"@) ==> r is None,
        !seq_contains(stderr@, "not a git repository"@) ==> (r matches Some(AirlockError::Git(m))
            && m@ == "Failed to reset persistent worktree: "@ + stderr@),
{
    if contains(stderr, "not a git repository") {
        None
    } else {
        let mut m = "Failed to reset persistent worktree: ".to_string();
        push_str(&mut m, stderr);
        Some(AirlockError::Git(m))
    }
}

/// The distinct names, in sorted order.
pub open spec fn sorted_names_spec(names: Seq<Seq<char>>) -> Seq<Seq<char>>
    decreases names.len(),
{
    if names.len() == 0 {
        Seq::empty()
    } else {
        insert_path(sorted_names_spec(names.drop_last()), names.last())
    }
}

/// The distinct names (file paths, for instance), sorted character by
/// character: the order in which the patch files of a directory are read.
pub fn sort_names(names: &Vec<String>) -> (r: Vec<String>)
    ensures
        r@.map_values(|x: String| x@) == sorted_names_spec(names@.map_values(|x: String| x@)),
{
    let ghost nv = names@.map_values(|x: String| x@);
    let mut out: Vec<String> = Vec::new();
    let mut i: usize = 0;
    while i < names.len()
        invariant
            i <= names@.len(),
            nv == names@.map_values(|x: String| x@),
            out@.map_values(|x: String| x@) == sorted_names_spec(nv.take(i as int)),
        decreases names.len() - i,
    {
        proof {
            assert(nv.take(i + 1).drop_last() =~= nv.take(i as int));
            assert(nv.take(i + 1).last() == names@[i as int]@);
        }
        let ghost sv = out@.map_values(|x: String| x@);
        let p = names[i].as_str();
        let pos = position_for_path(&out, p);
        proof {
            lemma_first_not_lt_bounds(sv, p@);
        }
        let present = pos < out.len() && str_eq(out[pos].as_str(), p);
        if !present {
            out.insert(pos, p.to_string());
            proof {
                assert(out@.map_values(|x: String| x@) =~= sv.insert(pos as int, p@));
            }
        }
        i = i + 1;
    }
    proof {
        assert(nv.take(names@.len() as int) =~= nv);
    }
    out
}

proof fn lemma_seq_lt_irreflexive(a: Seq<char>)
    ensures
        !seq_lt(a, a),
    decreases a.len(),
{
    if a.len() > 0 {
        lemma_seq_lt_irreflexive(a.drop_first());
    }
}

proof fn lemma_seq_lt_transitive(a: Seq<char>, b: Seq<char>, c: Seq<char>)
    requires
        seq_lt(a, b),
        seq_lt(b, c),
    ensures
        seq_lt(a, c),
    decreases a.len(),
{
    if a.len() > 0 && b.len() > 0 && c.len() > 0 && a[0] == b[0] && b[0] == c[0] {
        lemma_seq_lt_transitive(a.drop_first(), b.drop_first(), c.drop_first());
    }
}

proof fn lemma_seq_lt_total(a: Seq<char>, b: Seq<char>)
    requires
        a != b,
    ensures
        seq_lt(a, b) || seq_lt(b, a),
    decreases a.len(),
{
    if a.len() > 0 && b.len() > 0 && a[0] == b[0] {
        if a.drop_first() == b.drop_first() {
            assert(a =~= seq![a[0]] + a.drop_first());
            assert(b =~= seq![b[0]] + b.drop_first());
        }
        lemma_seq_lt_total(a.drop_first(), b.drop_first());
    } else if a.len() > 0 && b.len() > 0 {
        let x = a[0];
        let y = b[0];
        vstd::utf8::char_u32_cast(x, x as u32);
        vstd::utf8::char_u32_cast(y, y as u32);
        assert((x as u32) != (y as u32));
    } else if a.len() == 0 && b.len() == 0 {
        assert(a =~= b);
    }
}

/// Each name sorts before every later one.
pub open spec fn ascending(s: Seq<Seq<char>>) -> bool {
    forall|i: int, j: int| 0 <= i < j < s.len() ==> seq_lt(#[trigger] s[i], #[trigger] s[j])
}

proof fn lemma_insert_path_ascending(s: Seq<Seq<char>>, p: Seq<char>)
    requires
        ascending(s),
    ensures
        ascending(insert_path(s, p)),
{
    lemma_first_not_lt_bounds(s, p);
    let i = first_not_lt(s, p);
    if !(i < s.len() && s[i] == p) {
        let t = s.insert(i, p);
        if i < s.len() {
            lemma_seq_lt_total(s[i], p);
        }
        assert forall|a: int, b: int| 0 <= a < b < t.len() implies seq_lt(#[trigger] t[a], #[trigger] t[b]) by {
            if b < i {
                assert(t[a] == s[a] && t[b] == s[b]);
            } else if b == i {
                assert(t[a] == s[a]);
            } else if a < i {
                assert(t[a] == s[a] && t[b] == s[b - 1]);
                if b - 1 > i {
                    lemma_seq_lt_transitive(s[a], s[i], s[b - 1]);
                }
                lemma_seq_lt_transitive(s[a], p, s[i]);
                if b - 1 > i {
                    lemma_seq_lt_transitive(s[a], s[i], s[b - 1]);
                }
            } else if a == i {
                assert(t[b] == s[b - 1]);
                if b - 1 > i {
                    lemma_seq_lt_transitive(p, s[i], s[b - 1]);
                }
            } else {
                assert(t[a] == s[a - 1] && t[b] == s[b - 1]);
            }
        }
    }
}

/// The sorted names come out in strictly ascending order: each sorts
/// before the next, so none occurs twice.
pub proof fn law_sorted_names_ascending(names: Seq<Seq<char>>)
    ensures
        ascending(sorted_names_spec(names)),
    decreases names.len(),
{
    if names.len() > 0 {
        law_sorted_names_ascending(names.drop_last());
        lemma_insert_path_ascending(sorted_names_spec(names.drop_last()), names.last());
    }
}

// =============================================================================
// The patch does not depend on the order of the hunks
// =============================================================================

proof fn lemma_insert_path_members(s: Seq<Seq<char>>, p: Seq<char>)
    ensures
        forall|x: Seq<char>| #[trigger] insert_path(s, p).contains(x) <==> (s.contains(x) || x == p),
{
    lemma_first_not_lt_bounds(s, p);
    let i = first_not_lt(s, p);
    if !(i < s.len() && s[i] == p) {
        let t = s.insert(i, p);
        assert forall|x: Seq<char>| #[trigger] t.contains(x) <==> (s.contains(x) || x == p) by {
            if t.contains(x) {
                let k = choose|k: int| 0 <= k < t.len() && t[k] == x;
                if k < i {
                    assert(s[k] == x);
                } else if k > i {
                    assert(s[k - 1] == x);
                }
            }
            if s.contains(x) {
                let k = choose|k: int| 0 <= k < s.len() && s[k] == x;
                if k < i {
                    assert(t[k] == x);
                } else {
                    assert(t[k + 1] == x);
                }
            }
            if x == p {
                assert(t[i] == x);
            }
        }
    } else {
        assert(s.contains(p) ==> true);
        assert(s[i] == p);
    }
}

/// The sorted paths of the hunks are ascending and hold exactly the paths
/// of the hunks.
proof fn lemma_sorted_paths_props(h: Seq<SplitHunk>)
    ensures
        ascending(sorted_paths(h)),
        forall|x: Seq<char>|
            #[trigger] sorted_paths(h).contains(x) <==> exists|j: int| 0 <= j < h.len() && h[j].file_path@ == x,
    decreases h.len(),
{
    if h.len() > 0 {
        let prev = h.drop_last();
        lemma_sorted_paths_props(prev);
        lemma_insert_path_ascending(sorted_paths(prev), h.last().file_path@);
        lemma_insert_path_members(sorted_paths(prev), h.last().file_path@);
        assert forall|x: Seq<char>|
            #[trigger] sorted_paths(h).contains(x) <==> exists|j: int| 0 <= j < h.len() && h[j].file_path@ == x by {
            if exists|j: int| 0 <= j < h.len() && h[j].file_path@ == x {
                let j = choose|j: int| 0 <= j < h.len() && h[j].file_path@ == x;
                if j < h.len() - 1 {
                    assert(prev[j].file_path@ == x);
                }
            }
            if sorted_paths(prev).contains(x) {
                let j = choose|j: int| 0 <= j < prev.len() && prev[j].file_path@ == x;
                assert(h[j].file_path@ == x);
            }
        }
    }
}

/// Two ascending lists with the same elements are equal.
proof fn lemma_ascending_unique(a: Seq<Seq<char>>, b: Seq<Seq<char>>)
    requires
        ascending(a),
        ascending(b),
        forall|x: Seq<char>| a.contains(x) <==> b.contains(x),
    ensures
        a == b,
    decreases a.len(),
{
    if a.len() == 0 {
        if b.len() > 0 {
            assert(b.contains(b[0]));
        }
        assert(a =~= b);
    } else {
        assert(a.contains(a[0]));
        let k = choose|k: int| 0 <= k < b.len() && b[k] == a[0];
        assert(b.contains(b[0]));
        let m = choose|m: int| 0 <= m < a.len() && a[m] == b[0];
        if k > 0 {
            assert(seq_lt(b[0], b[k]));
            if m > 0 {
                assert(seq_lt(a[0], a[m]));
                lemma_seq_lt_transitive(a[0], a[m], a[0]);
                lemma_seq_lt_irreflexive(a[0]);
            } else {
                lemma_seq_lt_irreflexive(a[0]);
            }
        }
        assert(b[0] == a[0]);
        let a2 = a.drop_first();
        let b2 = b.drop_first();
        assert forall|x: Seq<char>| a2.contains(x) <==> b2.contains(x) by {
            if a2.contains(x) {
                let i = choose|i: int| 0 <= i < a2.len() && a2[i] == x;
                assert(a[i + 1] == x);
                assert(seq_lt(a[0], a[i + 1]));
                lemma_seq_lt_irreflexive(a[0]);
                assert(b.contains(x));
                let j = choose|j: int| 0 <= j < b.len() && b[j] == x;
                assert(j != 0);
                assert(b2[j - 1] == x);
            }
            if b2.contains(x) {
                let i = choose|i: int| 0 <= i < b2.len() && b2[i] == x;
                assert(b[i + 1] == x);
                assert(seq_lt(b[0], b[i + 1]));
                lemma_seq_lt_irreflexive(b[0]);
                assert(a.contains(x));
                let j = choose|j: int| 0 <= j < a.len() && a[j] == x;
                assert(j != 0);
                assert(a2[j - 1] == x);
            }
        }
        lemma_ascending_unique(a2, b2);
        assert(a =~= seq![a[0]] + a2);
        assert(b =~= seq![b[0]] + b2);
    }
}


proof fn lemma_first_after_props(h: Seq<SplitHunk>, ids: Seq<int>, index: u32)
    ensures
        0 <= first_after(h, ids, index) <= ids.len(),
        forall|k: int| 0 <= k < first_after(h, ids, index) ==> h[#[trigger] ids[k]].hunk_index <= index,
        first_after(h, ids, index) < ids.len() ==> h[ids[first_after(h, ids, index)]].hunk_index > index,
    decreases ids.len(),
{
    if ids.len() > 0 && h[ids[0]].hunk_index <= index {
        lemma_first_after_props(h, ids.drop_first(), index);
        assert forall|k: int| 0 <= k < first_after(h, ids, index) implies h[#[trigger] ids[k]].hunk_index
            <= index by {
            if k > 0 {
                assert(ids[k] == ids.drop_first()[k - 1]);
            }
        }
    }
}

/// The hunks of file `f` among the first `n`: each once, all of them, in
/// order of hunk index.
proof fn lemma_file_hunk_ids_props(h: Seq<SplitHunk>, f: Seq<char>, n: int)
    requires
        0 <= n <= h.len(),
    ensures
        forall|k: int|
            0 <= k < file_hunk_ids(h, f, n).len() ==> 0 <= #[trigger] file_hunk_ids(h, f, n)[k] < n
                && h[file_hunk_ids(h, f, n)[k]].file_path@ == f,
        forall|a: int, b: int|
            0 <= a < b < file_hunk_ids(h, f, n).len() ==> #[trigger] file_hunk_ids(h, f, n)[a]
                != #[trigger] file_hunk_ids(h, f, n)[b],
        forall|j: int| 0 <= j < n && h[j].file_path@ == f ==> #[trigger] file_hunk_ids(h, f, n).contains(j),
        forall|a: int, b: int|
            0 <= a < b < file_hunk_ids(h, f, n).len() ==> h[#[trigger] file_hunk_ids(h, f, n)[a]].hunk_index
                <= h[#[trigger] file_hunk_ids(h, f, n)[b]].hunk_index,
    decreases n,
{
    if n > 0 {
        lemma_file_hunk_ids_props(h, f, n - 1);
        let prev = file_hunk_ids(h, f, n - 1);
        if h[n - 1].file_path@ == f {
            let idx = h[n - 1].hunk_index;
            lemma_first_after_props(h, prev, idx);
            let q = first_after(h, prev, idx);
            let t = prev.insert(q, n - 1);
            assert(file_hunk_ids(h, f, n) == t);
            assert forall|k: int| 0 <= k < t.len() implies 0 <= #[trigger] t[k] < n && h[t[k]].file_path@ == f by {
                if k < q {
                    assert(t[k] == prev[k]);
                } else if k > q {
                    assert(t[k] == prev[k - 1]);
                }
            }
            assert forall|a: int, b: int| 0 <= a < b < t.len() implies #[trigger] t[a] != #[trigger] t[b] by {
                if a < q && b < q {
                    assert(t[a] == prev[a] && t[b] == prev[b]);
                } else if a < q && b == q {
                    assert(t[a] == prev[a]);
                } else if a < q {
                    assert(t[a] == prev[a] && t[b] == prev[b - 1]);
                } else if a == q {
                    assert(t[b] == prev[b - 1]);
                } else {
                    assert(t[a] == prev[a - 1] && t[b] == prev[b - 1]);
                }
            }
            assert forall|j: int| 0 <= j < n && h[j].file_path@ == f implies #[trigger] t.contains(j) by {
                if j == n - 1 {
                    assert(t[q] == j);
                } else {
                    assert(prev.contains(j));
                    let k = choose|k: int| 0 <= k < prev.len() && prev[k] == j;
                    if k < q {
                        assert(t[k] == j);
                    } else {
                        assert(t[k + 1] == j);
                    }
                }
            }
            assert forall|a: int, b: int| 0 <= a < b < t.len() implies h[#[trigger] t[a]].hunk_index
                <= h[#[trigger] t[b]].hunk_index by {
                if a < q && b < q {
                    assert(t[a] == prev[a] && t[b] == prev[b]);
                } else if a < q && b == q {
                    assert(t[a] == prev[a]);
                } else if a < q {
                    assert(t[a] == prev[a] && t[b] == prev[b - 1]);
                } else if a == q {
                    assert(t[b] == prev[b - 1]);
                    assert(h[prev[q]].hunk_index > idx);
                    if b - 1 > q {
                        assert(h[prev[q]].hunk_index <= h[prev[b - 1]].hunk_index);
                    }
                } else {
                    assert(t[a] == prev[a - 1] && t[b] == prev[b - 1]);
                }
            }
        } else {
            assert(file_hunk_ids(h, f, n) == prev);
        }
    }
}


/// No two hunks have the same file and hunk index.
pub open spec fn distinct_hunks(h: Seq<SplitHunk>) -> bool {
    forall|a: int, b: int|
        0 <= a < h.len() && 0 <= b < h.len() && a != b && (#[trigger] h[a]).file_path@ == (#[trigger] h[b]).file_path@
            ==> h[a].hunk_index != h[b].hunk_index
}

/// The hunks of file `f`, in the order the patch gives them.
pub open spec fn file_hunks(h: Seq<SplitHunk>, f: Seq<char>) -> Seq<SplitHunk> {
    file_hunk_ids(h, f, h.len() as int).map_values(|i: int| h[i])
}

/// The text of hunks, one after the other.
pub open spec fn values_text(v: Seq<SplitHunk>) -> Seq<char>
    decreases v.len(),
{
    if v.len() == 0 {
        Seq::empty()
    } else {
        values_text(v.drop_last()) + hunk_text(v.last())
    }
}

proof fn lemma_hunks_text_values(h: Seq<SplitHunk>, ids: Seq<int>)
    ensures
        hunks_text(h, ids) == values_text(ids.map_values(|i: int| h[i])),
    decreases ids.len(),
{
    if ids.len() > 0 {
        lemma_hunks_text_values(h, ids.drop_last());
        assert(ids.map_values(|i: int| h[i]).drop_last() =~= ids.drop_last().map_values(|i: int| h[i]));
    }
}

proof fn lemma_file_hunks_props(h: Seq<SplitHunk>, f: Seq<char>)
    requires
        distinct_hunks(h),
    ensures
        forall|a: int, b: int|
            0 <= a < b < file_hunks(h, f).len() ==> (#[trigger] file_hunks(h, f)[a]).hunk_index
                < (#[trigger] file_hunks(h, f)[b]).hunk_index,
        forall|x: SplitHunk| #[trigger] file_hunks(h, f).contains(x) <==> (h.contains(x) && x.file_path@ == f),
{
    let n = h.len() as int;
    lemma_file_hunk_ids_props(h, f, n);
    let ids = file_hunk_ids(h, f, n);
    let v = file_hunks(h, f);
    assert forall|a: int, b: int| 0 <= a < b < v.len() implies (#[trigger] v[a]).hunk_index
        < (#[trigger] v[b]).hunk_index by {
        assert(v[a] == h[ids[a]] && v[b] == h[ids[b]]);
        assert(ids[a] != ids[b]);
        assert(h[ids[a]].hunk_index <= h[ids[b]].hunk_index);
        assert(h[ids[a]].file_path@ == f && h[ids[b]].file_path@ == f);
    }
    assert forall|x: SplitHunk| #[trigger] v.contains(x) <==> (h.contains(x) && x.file_path@ == f) by {
        if v.contains(x) {
            let k = choose|k: int| 0 <= k < v.len() && v[k] == x;
            assert(v[k] == h[ids[k]]);
            assert(h[ids[k]] == x);
        }
        if h.contains(x) && x.file_path@ == f {
            let j = choose|j: int| 0 <= j < h.len() && h[j] == x;
            assert(ids.contains(j));
            let k = choose|k: int| 0 <= k < ids.len() && ids[k] == j;
            assert(v[k] == x);
        }
    }
}

/// Two lists of hunks, each strictly ordered by hunk index, with the same
/// elements, are equal.
proof fn lemma_index_sorted_unique(a: Seq<SplitHunk>, b: Seq<SplitHunk>)
    requires
        forall|i: int, j: int| 0 <= i < j < a.len() ==> (#[trigger] a[i]).hunk_index < (#[trigger] a[j]).hunk_index,
        forall|i: int, j: int| 0 <= i < j < b.len() ==> (#[trigger] b[i]).hunk_index < (#[trigger] b[j]).hunk_index,
        forall|x: SplitHunk| a.contains(x) <==> b.contains(x),
    ensures
        a == b,
    decreases a.len(),
{
    if a.len() == 0 {
        if b.len() > 0 {
            assert(b.contains(b[0]));
        }
        assert(a =~= b);
    } else {
        assert(a.contains(a[0]));
        let k = choose|k: int| 0 <= k < b.len() && b[k] == a[0];
        assert(b.contains(b[0]));
        let m = choose|m: int| 0 <= m < a.len() && a[m] == b[0];
        if k > 0 {
            assert(b[0].hunk_index < b[k].hunk_index);
            if m > 0 {
                assert(a[0].hunk_index < a[m].hunk_index);
            }
        }
        assert(b[0] == a[0]);
        let a2 = a.drop_first();
        let b2 = b.drop_first();
        assert forall|x: SplitHunk| a2.contains(x) <==> b2.contains(x) by {
            if a2.contains(x) {
                let i = choose|i: int| 0 <= i < a2.len() && a2[i] == x;
                assert(a[i + 1] == x);
                assert(a[0].hunk_index < a[i + 1].hunk_index);
                assert(b.contains(x));
                let j = choose|j: int| 0 <= j < b.len() && b[j] == x;
                assert(j != 0);
                assert(b2[j - 1] == x);
            }
            if b2.contains(x) {
                let i = choose|i: int| 0 <= i < b2.len() && b2[i] == x;
                assert(b[i + 1] == x);
                assert(b[0].hunk_index < b[i + 1].hunk_index);
                assert(a.contains(x));
                let j = choose|j: int| 0 <= j < a.len() && a[j] == x;
                assert(j != 0);
                assert(a2[j - 1] == x);
            }
        }
        assert forall|i: int, j: int| 0 <= i < j < a2.len() implies (#[trigger] a2[i]).hunk_index
            < (#[trigger] a2[j]).hunk_index by {
            assert(a2[i] == a[i + 1] && a2[j] == a[j + 1]);
        }
        assert forall|i: int, j: int| 0 <= i < j < b2.len() implies (#[trigger] b2[i]).hunk_index
            < (#[trigger] b2[j]).hunk_index by {
            assert(b2[i] == b[i + 1] && b2[j] == b[j + 1]);
        }
        lemma_index_sorted_unique(a2, b2);
        assert(a =~= seq![a[0]] + a2);
        assert(b =~= seq![b[0]] + b2);
    }
}

proof fn lemma_sections_equal(h1: Seq<SplitHunk>, h2: Seq<SplitHunk>, files: Seq<Seq<char>>)
    requires
        forall|k: int| 0 <= k < files.len() ==> file_hunks(h1, #[trigger] files[k]) == file_hunks(h2, files[k]),
    ensures
        sections(h1, files) == sections(h2, files),
    decreases files.len(),
{
    if files.len() > 0 {
        let f = files.last();
        assert(file_hunks(h1, files[files.len() - 1]) == file_hunks(h2, files[files.len() - 1]));
        lemma_sections_equal(h1, h2, files.drop_last());
        lemma_hunks_text_values(h1, file_hunk_ids(h1, f, h1.len() as int));
        lemma_hunks_text_values(h2, file_hunk_ids(h2, f, h2.len() as int));
    }
}

/// The patch does not depend on the order in which the hunks come: two
/// lists holding the same hunks, no two of which share a file and a hunk
/// index, give the same patch.
pub proof fn law_patch_ignores_hunk_order(h1: Seq<SplitHunk>, h2: Seq<SplitHunk>)
    requires
        h1.to_multiset() == h2.to_multiset(),
        distinct_hunks(h1),
        distinct_hunks(h2),
    ensures
        patch_spec(h1) == patch_spec(h2),
{
    broadcast use vstd::seq_lib::to_multiset_contains;
    assert forall|x: SplitHunk| h1.contains(x) <==> h2.contains(x) by {
        assert(h1.contains(x) <==> h1.to_multiset().count(x) > 0);
        assert(h2.contains(x) <==> h2.to_multiset().count(x) > 0);
    }
    lemma_sorted_paths_props(h1);
    lemma_sorted_paths_props(h2);
    assert forall|x: Seq<char>| sorted_paths(h1).contains(x) <==> sorted_paths(h2).contains(x) by {
        if exists|j: int| 0 <= j < h1.len() && h1[j].file_path@ == x {
            let j = choose|j: int| 0 <= j < h1.len() && h1[j].file_path@ == x;
            assert(h1.contains(h1[j]));
            let k = choose|k: int| 0 <= k < h2.len() && h2[k] == h1[j];
            assert(h2[k].file_path@ == x);
        }
        if exists|j: int| 0 <= j < h2.len() && h2[j].file_path@ == x {
            let j = choose|j: int| 0 <= j < h2.len() && h2[j].file_path@ == x;
            assert(h2.contains(h2[j]));
            let k = choose|k: int| 0 <= k < h1.len() && h1[k] == h2[j];
            assert(h1[k].file_path@ == x);
        }
    }
    lemma_ascending_unique(sorted_paths(h1), sorted_paths(h2));
    let files = sorted_paths(h1);
    assert forall|k: int| 0 <= k < files.len() implies file_hunks(h1, #[trigger] files[k]) == file_hunks(h2, files[k]) by {
        let f = files[k];
        lemma_file_hunks_props(h1, f);
        lemma_file_hunks_props(h2, f);
        lemma_index_sorted_unique(file_hunks(h1, f), file_hunks(h2, f));
    }
    lemma_sections_equal(h1, h2, files);
}


/// The layout of a patch: one section per file, each file once and in
/// ascending order, with exactly the files of the hunks; each section holds
/// exactly that file's hunks, in ascending hunk index, when no two hunks
/// share a file and a hunk index.
pub proof fn law_patch_layout(h: Seq<SplitHunk>)
    ensures
        patch_spec(h) == sections(h, sorted_paths(h)),
        ascending(sorted_paths(h)),
        forall|x: Seq<char>|
            #[trigger] sorted_paths(h).contains(x) <==> exists|j: int| 0 <= j < h.len() && h[j].file_path@ == x,
        distinct_hunks(h) ==> forall|f: Seq<char>, a: int, b: int|
            0 <= a < b < file_hunks(h, f).len() ==> (#[trigger] file_hunks(h, f)[a]).hunk_index
                < (#[trigger] file_hunks(h, f)[b]).hunk_index,
        distinct_hunks(h) ==> forall|f: Seq<char>, x: SplitHunk|
            #[trigger] file_hunks(h, f).contains(x) <==> (h.contains(x) && x.file_path@ == f),
        forall|f: Seq<char>|
            hunks_text(h, file_hunk_ids(h, f, h.len() as int)) == values_text(#[trigger] file_hunks(h, f)),
{
    lemma_sorted_paths_props(h);
    if distinct_hunks(h) {
        assert forall|f: Seq<char>, a: int, b: int|
            0 <= a < b < file_hunks(h, f).len() implies (#[trigger] file_hunks(h, f)[a]).hunk_index
                < (#[trigger] file_hunks(h, f)[b]).hunk_index by {
            lemma_file_hunks_props(h, f);
        }
        assert forall|f: Seq<char>, x: SplitHunk|
            #[trigger] file_hunks(h, f).contains(x) <==> (h.contains(x) && x.file_path@ == f) by {
            lemma_file_hunks_props(h, f);
        }
    }
    assert forall|f: Seq<char>|
        hunks_text(h, file_hunk_ids(h, f, h.len() as int)) == values_text(#[trigger] file_hunks(h, f)) by {
        lemma_hunks_text_values(h, file_hunk_ids(h, f, h.len() as int));
    }
}


} // verus!
