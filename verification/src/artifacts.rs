//! The artifacts of a run as they are listed: what kind each file is,
//! which entries are listed, and in what order; and the order of run lists.

use crate::ipc::{ArtifactInfo, RunInfo};
use crate::text::{ends_with, lowercase, str_eq};
use vstd::prelude::*;

verus! {

/// The extension of a file name (`std::path::Path::extension`), if any.
pub uninterp spec fn extension_of(name: Seq<char>) -> Option<Seq<char>>;

/// The extension of a file name (`std::path::Path::extension`), as text.
#[verifier::external_body]
fn file_extension(name: &str) -> (r: Option<String>)
    ensures
        crate::pipeline::opt_text(r) == extension_of(name@),
{
    match std::path::Path::new(name).extension() {
        Some(e) => Some(e.to_string_lossy().into_owned()),
        None => None,
    }
}

/// The type of an artifact file: known names have their own type; any
/// other is typed by its extension, lowercased, or is "unknown".
pub open spec fn artifact_type_spec(name: Seq<char>) -> Seq<char> {
    if name == "description.json"@ || name == "description.md"@ {
        "description"@
    } else if name == "test_result.json"@ {
        "test_results"@
    } else if name == "push_result.json"@ {
        "push"@
    } else if name == "pr_result.json"@ {
        "pr"@
    } else if name == "tour.json"@ {
        "tour"@
    } else if name == "diff_analysis.json"@ {
        "analysis"@
    } else {
        match extension_of(name) {
            Some(e) => lowercase(e),
            None => "unknown"@,
        }
    }
}

/// Determines the artifact type of a file from its name.
pub fn determine_artifact_type(filename: &str) -> (r: String)
    ensures
        r@ == artifact_type_spec(filename@),
{
    if str_eq(filename, "description.json") || str_eq(filename, "description.md") {
        "description".to_string()
    } else if str_eq(filename, "test_result.json") {
        "test_results".to_string()
    } else if str_eq(filename, "push_result.json") {
        "push".to_string()
    } else if str_eq(filename, "pr_result.json") {
        "pr".to_string()
    } else if str_eq(filename, "tour.json") {
        "tour".to_string()
    } else if str_eq(filename, "diff_analysis.json") {
        "analysis".to_string()
    } else {
        match file_extension(filename) {
            Some(e) => crate::text::to_lowercase(e.as_str()),
            None => "unknown".to_string(),
        }
    }
}

/// The subdirectories of a run's artifacts that are listed: `content`,
/// `comments` and `patches` (not `logs`).
pub fn is_listed_subdir(name: &str) -> (r: bool)
    ensures
        r == (name@ == "content"@ || name@ == "comments"@ || name@ == "patches"@),
{
    str_eq(name, "content") || str_eq(name, "comments") || str_eq(name, "patches")
}

/// Top-level log files are not listed.
pub fn is_log_file(name: &str) -> (r: bool)
    ensures
        r == crate::text::seq_ends_with(name@, ".log"@),
{
    ends_with(name, ".log")
}

// =============================================================================
// Stable sorting by time
// =============================================================================

/// Index of the first element of `s` created after `t` (`s.len()` if none).
pub open spec fn first_created_after(s: Seq<ArtifactInfo>, t: i64) -> int
    decreases s.len(),
{
    if s.len() == 0 {
        0
    } else if s[0].created_at <= t {
        1 + first_created_after(s.drop_first(), t)
    } else {
        0
    }
}

/// The artifacts ordered by creation time, those created at the same time
/// in the order they come (a stable sort).
pub open spec fn by_creation(s: Seq<ArtifactInfo>) -> Seq<ArtifactInfo>
    decreases s.len(),
{
    if s.len() == 0 {
        Seq::empty()
    } else {
        let prev = by_creation(s.drop_last());
        prev.insert(first_created_after(prev, s.last().created_at), s.last())
    }
}

proof fn lemma_first_created_after(s: Seq<ArtifactInfo>, t: i64)
    ensures
        0 <= first_created_after(s, t) <= s.len(),
        forall|k: int| 0 <= k < first_created_after(s, t) ==> (#[trigger] s[k]).created_at <= t,
        first_created_after(s, t) < s.len() ==> s[first_created_after(s, t)].created_at > t,
    decreases s.len(),
{
    if s.len() > 0 && s[0].created_at <= t {
        lemma_first_created_after(s.drop_first(), t);
        assert forall|k: int| 0 <= k < first_created_after(s, t) implies (#[trigger] s[k]).created_at
            <= t by {
            if k > 0 {
                assert(s[k] == s.drop_first()[k - 1]);
            }
        }
    }
}

/// Listing artifacts by creation time gives them in nondecreasing order of
/// creation time, and loses or adds none.
pub proof fn law_by_creation_sorted(s: Seq<ArtifactInfo>)
    ensures
        by_creation(s).len() == s.len(),
        forall|a: int, b: int|
            0 <= a <= b < by_creation(s).len() ==> (#[trigger] by_creation(s)[a]).created_at
                <= (#[trigger] by_creation(s)[b]).created_at,
        by_creation(s).to_multiset() == s.to_multiset(),
    decreases s.len(),
{
    if s.len() > 0 {
        let d = s.drop_last();
        law_by_creation_sorted(d);
        let prev = by_creation(d);
        let x = s.last();
        let p = first_created_after(prev, x.created_at);
        lemma_first_created_after(prev, x.created_at);
        let q = prev.insert(p, x);
        assert forall|a: int, b: int| 0 <= a <= b < q.len() implies (#[trigger] q[a]).created_at
            <= (#[trigger] q[b]).created_at by {
            if a < p && b < p {
                assert(q[a] == prev[a] && q[b] == prev[b]);
            } else if a < p && b == p {
                assert(q[a] == prev[a]);
            } else if a < p && b > p {
                assert(q[a] == prev[a] && q[b] == prev[b - 1]);
                assert(prev[a].created_at <= prev[b - 1].created_at);
            } else if a == p && b == p {
            } else if a == p && b > p {
                assert(q[b] == prev[b - 1]);
                assert(prev[p].created_at <= prev[b - 1].created_at);
            } else {
                assert(q[a] == prev[a - 1] && q[b] == prev[b - 1]);
            }
        }
        assert(s =~= d.push(x));
        assert(by_creation(s) == q);
        vstd::seq_lib::to_multiset_insert(prev, p, x);
        vstd::seq_lib::to_multiset_build(d, x);
    } else {
        assert(by_creation(s) =~= s);
    }
}

/// Orders artifacts by creation time, keeping the order of those created at
/// the same time.
pub fn sort_artifacts_by_creation(items: Vec<ArtifactInfo>) -> (r: Vec<ArtifactInfo>)
    ensures
        r@ == by_creation(items@),
{
    let mut rest = items;
    let ghost orig = rest@;
    assert(orig.len() == rest.len());
    let mut out: Vec<ArtifactInfo> = Vec::new();
    let mut i: usize = 0;
    while rest.len() > 0
        invariant
            i <= orig.len(),
            orig.len() <= usize::MAX,
            rest@ == orig.skip(i as int),
            out@ == by_creation(orig.take(i as int)),
        decreases rest.len(),
    {
        let x = rest.remove(0);
        proof {
            assert(orig.take(i + 1).drop_last() =~= orig.take(i as int));
            assert(orig.take(i + 1).last() == x);
            assert(rest@ =~= orig.skip(i + 1));
        }
        let t = x.created_at;
        let mut p: usize = 0;
        let ghost sorted = out@;
        assert(sorted.skip(0) =~= sorted);
        while p < out.len() && out[p].created_at <= t
            invariant
                p <= out@.len(),
                out@ == sorted,
                first_created_after(sorted, t) == p + first_created_after(sorted.skip(p as int), t),
            decreases out.len() - p,
        {
            proof {
                assert(sorted.skip(p as int)[0] == sorted[p as int]);
                assert(sorted.skip(p as int).drop_first() =~= sorted.skip(p + 1));
            }
            p = p + 1;
        }
        proof {
            if p < out@.len() {
                assert(sorted.skip(p as int)[0] == sorted[p as int]);
            } else {
                assert(sorted.skip(p as int).len() == 0);
            }
        }
        out.insert(p, x);
        i = i + 1;
    }
    proof {
        assert(orig.take(i as int) =~= orig);
    }
    out
}

/// Index of the first run in `s` created before `t` (`s.len()` if none).
pub open spec fn first_created_before(s: Seq<RunInfo>, t: i64) -> int
    decreases s.len(),
{
    if s.len() == 0 {
        0
    } else if s[0].created_at >= t {
        1 + first_created_before(s.drop_first(), t)
    } else {
        0
    }
}

/// The runs ordered newest first, runs created at the same time in the
/// order they come (a stable sort).
pub open spec fn newest_first(s: Seq<RunInfo>) -> Seq<RunInfo>
    decreases s.len(),
{
    if s.len() == 0 {
        Seq::empty()
    } else {
        let prev = newest_first(s.drop_last());
        prev.insert(first_created_before(prev, s.last().created_at), s.last())
    }
}

/// Orders runs newest first, keeping the order of runs created at the same
/// time.
pub fn sort_runs_newest_first(items: Vec<RunInfo>) -> (r: Vec<RunInfo>)
    ensures
        r@ == newest_first(items@),
{
    let mut rest = items;
    let ghost orig = rest@;
    assert(orig.len() == rest.len());
    let mut out: Vec<RunInfo> = Vec::new();
    let mut i: usize = 0;
    while rest.len() > 0
        invariant
            i <= orig.len(),
            orig.len() <= usize::MAX,
            rest@ == orig.skip(i as int),
            out@ == newest_first(orig.take(i as int)),
        decreases rest.len(),
    {
        let x = rest.remove(0);
        proof {
            assert(orig.take(i + 1).drop_last() =~= orig.take(i as int));
            assert(orig.take(i + 1).last() == x);
            assert(rest@ =~= orig.skip(i + 1));
        }
        let t = x.created_at;
        let mut p: usize = 0;
        let ghost sorted = out@;
        assert(sorted.skip(0) =~= sorted);
        while p < out.len() && out[p].created_at >= t
            invariant
                p <= out@.len(),
                out@ == sorted,
                first_created_before(sorted, t) == p + first_created_before(sorted.skip(p as int), t),
            decreases out.len() - p,
        {
            proof {
                assert(sorted.skip(p as int)[0] == sorted[p as int]);
                assert(sorted.skip(p as int).drop_first() =~= sorted.skip(p + 1));
            }
            p = p + 1;
        }
        proof {
            if p < out@.len() {
                assert(sorted.skip(p as int)[0] == sorted[p as int]);
            } else {
                assert(sorted.skip(p as int).len() == 0);
            }
        }
        out.insert(p, x);
        i = i + 1;
    }
    proof {
        assert(orig.take(i as int) =~= orig);
    }
    out
}

/// A run outside the listed window is added to the list only while it is
/// running or awaiting approval.
pub fn is_active_status(status: &str) -> (r: bool)
    ensures
        r == (status@ == "running"@ || status@ == "awaiting_approval"@),
{
    str_eq(status, "running") || str_eq(status, "awaiting_approval")
}

} // verus!
