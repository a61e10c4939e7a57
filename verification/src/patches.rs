//! Patches produced by pipeline steps: reading their JSON, which to skip,
//! where they may come from, and the commit messages that apply them.

use crate::ipc::{ApplyPatchesResult, PatchError};
use crate::text::{join, join_seq, push_str, trim, trim_seq};
use vstd::prelude::*;

verus! {

/// A patch produced by a step: a title and a unified diff.
#[derive(Debug, Clone)]
pub struct PatchArtifact {
    /// Title for this patch.
    pub title: String,
    /// The unified diff content.
    pub diff: String,
}

/// A JSON document as `serde_json` parses it, reduced to what patch files
/// use: `None` when the top-level value is not an object, else the object's
/// entries in the parser's map order, each with its value when that value
/// is a string.
pub type JsonObject = Option<Vec<(String, Option<String>)>>;

/// What `serde_json::from_str` reads from `content` (the top-level object's
/// entries, as in `JsonObject`), or the parse error's message.
pub uninterp spec fn patch_json(content: Seq<char>) -> Result<Option<Seq<(Seq<char>, Option<Seq<char>>)>>, Seq<char>>;

/// The view of an object's entries.
pub open spec fn entries_view(entries: Seq<(String, Option<String>)>) -> Seq<(Seq<char>, Option<Seq<char>>)> {
    entries.map_values(|e: (String, Option<String>)| (e.0@, crate::pipeline::opt_text(e.1)))
}

/// The view of a parsed document.
pub open spec fn object_view(r: Result<JsonObject, String>) -> Result<
    Option<Seq<(Seq<char>, Option<Seq<char>>)>>,
    Seq<char>,
> {
    match r {
        Ok(None) => Ok(None),
        Ok(Some(entries)) => Ok(Some(entries_view(entries@))),
        Err(e) => Err(e@),
    }
}

/// Parses a patch file as JSON (`serde_json::from_str` into a
/// `serde_json::Value`) and hands back the top-level object's entries, each
/// with its string value (none for a value of another kind), or the parse
/// error's message. Its result is named `patch_json`; nothing more is
/// claimed of it.
#[verifier::external_body]
fn read_patch_json(content: &str) -> (r: Result<JsonObject, String>)
    ensures
        object_view(r) == patch_json(content@),
{
    match serde_json::from_str::<serde_json::Value>(content) {
        Ok(serde_json::Value::Object(map)) => Ok(Some(
            map.into_iter().map(|(k, v)| (k, v.as_str().map(|t| t.to_string()))).collect(),
        )),
        Ok(_) => Ok(None),
        Err(e) => Err(e.to_string()),
    }
}

/// The string value of the first entry named `key`, if the document is an
/// object and that value is a string.
pub open spec fn string_field(doc: Option<Seq<(Seq<char>, Option<Seq<char>>)>>, key: Seq<char>) -> Option<
    Seq<char>,
> {
    match doc {
        None => None,
        Some(entries) => if exists|i: int| 0 <= i < entries.len() && entries[i].0 == key {
            entries[choose|i: int| 0 <= i < entries.len() && entries[i].0 == key && forall|k: int|
                0 <= k < i ==> entries[k].0 != key].1
        } else {
            None
        },
    }
}

/// The `title` and `diff` string fields of a parsed patch file, or its
/// parse error.
pub open spec fn patch_fields(parsed: Result<Option<Seq<(Seq<char>, Option<Seq<char>>)>>, Seq<char>>) -> Result<
    (Option<Seq<char>>, Option<Seq<char>>),
    Seq<char>,
> {
    match parsed {
        Ok(doc) => Ok((string_field(doc, "title"@), string_field(doc, "diff"@))),
        Err(e) => Err(e),
    }
}

/// The view of a patch file's fields.
pub open spec fn fields_view(r: Result<(Option<String>, Option<String>), String>) -> Result<
    (Option<Seq<char>>, Option<Seq<char>>),
    Seq<char>,
> {
    match r {
        Ok(f) => Ok((crate::pipeline::opt_text(f.0), crate::pipeline::opt_text(f.1))),
        Err(e) => Err(e@),
    }
}

/// The string value of the first entry named `key`.
fn find_string_field(entries: &Vec<(String, Option<String>)>, key: &str) -> (r: Option<String>)
    ensures
        crate::pipeline::opt_text(r) == string_field(Some(entries_view(entries@)), key@),
{
    let ghost v = entries_view(entries@);
    let mut i: usize = 0;
    while i < entries.len()
        invariant
            i <= entries@.len(),
            v == entries@.map_values(|e: (String, Option<String>)| (e.0@, crate::pipeline::opt_text(e.1))),
            forall|k: int| 0 <= k < i ==> (#[trigger] v[k]).0 != key@,
        decreases entries.len() - i,
    {
        if crate::text::str_eq(entries[i].0.as_str(), key) {
            proof {
                let c = choose|c: int| 0 <= c < v.len() && v[c].0 == key@ && forall|k: int| 0 <= k < c ==> v[k].0 != key@;
                assert(0 <= i < v.len() && v[i as int].0 == key@ && forall|k: int| 0 <= k < i ==> v[k].0 != key@);
                if c < i {
                    assert(v[c].0 != key@);
                } else if c > i {
                    assert(v[i as int].0 != key@);
                }
                assert(c == i);
            }
            return match &entries[i].1 {
                Some(t) => Some(t.clone()),
                None => None,
            };
        }
        i = i + 1;
    }
    proof {
        assert(!exists|c: int| 0 <= c < v.len() && v[c].0 == key@);
    }
    None
}

/// The `title` and `diff` string fields of a parsed patch file.
pub fn patch_fields_of(parsed: Result<JsonObject, String>) -> (r: Result<(Option<String>, Option<String>), String>)
    ensures
        fields_view(r) == patch_fields(object_view(parsed)),
{
    match parsed {
        Err(e) => Err(e),
        Ok(None) => Ok((None, None)),
        Ok(Some(entries)) => {
            let title = find_string_field(&entries, "title");
            let diff = find_string_field(&entries, "diff");
            Ok((title, diff))
        },
    }
}

/// What a parsed patch file gives: its title (default "Untitled Patch") and
/// diff; an error for a parse failure or a missing diff.
pub open spec fn patch_entry_spec(
    path: Seq<char>,
    parsed: Result<(Option<Seq<char>>, Option<Seq<char>>), Seq<char>>,
) -> Result<(Seq<char>, Seq<char>), (Seq<char>, Seq<char>)> {
    match parsed {
        Err(e) => Err((path, "Failed to parse patch JSON: "@ + e)),
        Ok(f) => match f.1 {
            None => Err((path, "Patch JSON missing 'diff' field"@)),
            Some(d) => Ok(
                (
                    match f.0 {
                        Some(t) => t,
                        None => "Untitled Patch"@,
                    },
                    d,
                ),
            ),
        },
    }
}

/// The view of a patch entry.
pub open spec fn entry_view(r: Result<(String, String), PatchError>) -> Result<
    (Seq<char>, Seq<char>),
    (Seq<char>, Seq<char>),
> {
    match r {
        Ok(p) => Ok((p.0@, p.1@)),
        Err(e) => Err((e.path@, e.error@)),
    }
}

/// The title and diff of a parsed patch file at `path`, or the error
/// recorded for it.
pub fn patch_entry(path: &str, parsed: Result<(Option<String>, Option<String>), String>) -> (r: Result<
    (String, String),
    PatchError,
>)
    ensures
        entry_view(r) == patch_entry_spec(path@, fields_view(parsed)),
{
    match parsed {
        Err(e) => {
            let mut m = "Failed to parse patch JSON: ".to_string();
            push_str(&mut m, e.as_str());
            Err(PatchError { path: path.to_string(), error: m })
        },
        Ok((title, diff)) => match diff {
            None => Err(
                PatchError {
                    path: path.to_string(),
                    error: "Patch JSON missing 'diff' field".to_string(),
                },
            ),
            Some(d) => {
                let t = match title {
                    Some(t) => t,
                    None => "Untitled Patch".to_string(),
                };
                Ok((t, d))
            },
        },
    }
}

/// Reads the patch file at `path` with content `content`: its title and
/// diff, or the error recorded for it.
pub fn read_patch_entry(path: &str, content: &str) -> (r: Result<(String, String), PatchError>)
    ensures
        entry_view(r) == patch_entry_spec(path@, patch_fields(patch_json(content@))),
{
    let parsed = read_patch_json(content);
    patch_entry(path, patch_fields_of(parsed))
}

/// A patch whose diff is blank is skipped.
pub fn is_blank_diff(diff: &str) -> (r: bool)
    ensures
        r == (trim_seq(diff@).len() == 0),
{
    trim(diff).unicode_len() == 0
}

/// The titles joined by ", ".
pub open spec fn titles_text(titles: Seq<String>) -> Seq<char> {
    join_seq(titles.map_values(|t: String| t@), ", "@)
}

/// The message of the commit that applies pending patches after a step.
pub fn auto_fix_commit_message(titles: &Vec<String>) -> (r: String)
    ensures
        r@ == "Airlock: auto-fixes from "@ + titles_text(titles@),
{
    let mut m = "Airlock: auto-fixes from ".to_string();
    let j = join(titles, ", ");
    push_str(&mut m, j.as_str());
    m
}

/// The message of the commit that applies patches chosen by the user.
pub fn applied_patches_commit_message(titles: &Vec<String>) -> (r: String)
    ensures
        r@ == "Airlock: applied patches: "@ + titles_text(titles@),
{
    let mut m = "Airlock: applied patches: ".to_string();
    let j = join(titles, ", ");
    push_str(&mut m, j.as_str());
    m
}

/// The error reported when no patch could be applied: "No patches to
/// apply" when none failed either, else "All patches failed to apply".
pub fn nothing_applied_message(any_errors: bool) -> (r: &'static str)
    ensures
        r@ == if any_errors {
            "All patches failed to apply"@
        } else {
            "No patches to apply"@
        },
{
    if any_errors {
        "All patches failed to apply"
    } else {
        "No patches to apply"
    }
}

/// The name of a temporary file holding a patch's diff.
pub fn temp_patch_file_name() -> (r: String)
    ensures
        exists|id: Seq<char>| id.len() == 36 && r@ == "airlock-patch-"@ + id + ".diff"@,
{
    let id = crate::ids::new_id();
    let mut n = "airlock-patch-".to_string();
    push_str(&mut n, id.as_str());
    push_str(&mut n, ".diff");
    n
}

/// `std::path::Path::starts_with` on the two paths (component-wise).
pub uninterp spec fn path_starts_with(path: Seq<char>, base: Seq<char>) -> bool;

/// Whether `path` lies under `base`, component by component
/// (`std::path::Path::starts_with`).
#[verifier::external_body]
fn path_has_prefix(path: &str, base: &str) -> (r: bool)
    ensures
        r == path_starts_with(path@, base@),
{
    std::path::Path::new(path).starts_with(base)
}

/// `p` has a `..` component: two dots that stand between separators (or
/// the ends of the path).
pub open spec fn has_parent_component(p: Seq<char>) -> bool {
    exists|i: int|
        0 <= i && i + 2 <= p.len() && #[trigger] p[i] == '.' && p[i + 1] == '.' && (i == 0 || p[i - 1] == '/')
            && (i + 2 == p.len() || p[i + 2] == '/')
}

/// `path` lies within `base`: it starts with `base`, component by
/// component, and has no `..` component that could lead back out of it.
pub open spec fn within_dir(path: Seq<char>, base: Seq<char>) -> bool {
    !has_parent_component(path) && path_starts_with(path, base)
}

/// Whether `p` has a `..` component.
pub fn parent_component(p: &str) -> (r: bool)
    ensures
        r == has_parent_component(p@),
{
    let n = p.unicode_len();
    let mut i: usize = 0;
    while i < n
        invariant
            n == p@.len(),
            i <= n,
            forall|k: int|
                0 <= k < i && k + 2 <= p@.len() ==> !(#[trigger] p@[k] == '.' && p@[k + 1] == '.' && (k == 0 || p@[k
                    - 1] == '/') && (k + 2 == p@.len() || p@[k + 2] == '/')),
        decreases n - i,
    {
        if i + 1 < n && p.get_char(i) == '.' && p.get_char(i + 1) == '.' && (i == 0 || p.get_char(i - 1) == '/') && (i + 2 == n
            || p.get_char(i + 2) == '/') {
            return true;
        }
        i = i + 1;
    }
    false
}

/// A patch path is accepted only within the artifacts directory: it must
/// start with that directory and have no `..` component. The error for one
/// that is not.
pub fn check_patch_path(path: &str, artifacts_dir: &str) -> (r: Result<(), String>)
    ensures
        within_dir(path@, artifacts_dir@) ==> r is Ok,
        !within_dir(path@, artifacts_dir@) ==> (r matches Err(m) && m@
            == "Patch path must be within artifacts directory: "@ + path@),
{
    if !parent_component(path) && path_has_prefix(path, artifacts_dir) {
        Ok(())
    } else {
        let mut m = "Patch path must be within artifacts directory: ".to_string();
        push_str(&mut m, path);
        Err(m)
    }
}

/// The first patch path outside the artifacts directory (see
/// `within_dir`), if any: the request is refused for it.
pub fn first_foreign_patch_path(paths: &Vec<String>, artifacts_dir: &str) -> (r: Option<usize>)
    ensures
        r matches Some(i) ==> i < paths@.len() && !within_dir(paths@[i as int]@, artifacts_dir@)
            && forall|k: int| 0 <= k < i ==> within_dir((#[trigger] paths@[k])@, artifacts_dir@),
        r is None ==> forall|k: int| 0 <= k < paths@.len() ==> within_dir((#[trigger] paths@[k])@, artifacts_dir@),
{
    let mut i: usize = 0;
    while i < paths.len()
        invariant
            i <= paths@.len(),
            forall|k: int| 0 <= k < i ==> within_dir((#[trigger] paths@[k])@, artifacts_dir@),
        decreases paths.len() - i,
    {
        if parent_component(paths[i].as_str()) || !path_has_prefix(paths[i].as_str(), artifacts_dir) {
            return Some(i);
        }
        i = i + 1;
    }
    None
}

// =============================================================================
// Applying the patches a user chose
// =============================================================================

/// The progress of applying the patches a user chose to a run.
#[derive(Debug)]
pub struct PatchApplication {
    /// How many patches applied.
    pub applied_count: u32,
    /// The titles of the applied patches, in order.
    pub applied_titles: Vec<String>,
    /// The patches that failed, in order.
    pub patch_errors: Vec<PatchError>,
}

impl PatchApplication {
    /// Nothing applied, nothing failed.
    pub fn new() -> (r: Self)
        ensures
            r.applied_count == 0,
            r.applied_titles@.len() == 0,
            r.patch_errors@.len() == 0,
    {
        PatchApplication { applied_count: 0, applied_titles: Vec::new(), patch_errors: Vec::new() }
    }

    /// Counts a patch that applied.
    pub fn record_applied(&mut self, title: String)
        requires
            old(self).applied_count < u32::MAX,
        ensures
            final(self).applied_count == old(self).applied_count + 1,
            final(self).applied_titles@ == old(self).applied_titles@.push(title),
            final(self).patch_errors@ == old(self).patch_errors@,
    {
        self.applied_count = self.applied_count + 1;
        self.applied_titles.push(title);
    }

    /// Records a patch that failed, with its error.
    pub fn record_error(&mut self, path: String, error: String)
        ensures
            final(self).applied_count == old(self).applied_count,
            final(self).applied_titles@ == old(self).applied_titles@,
            final(self).patch_errors@.len() == old(self).patch_errors@.len() + 1,
            final(self).patch_errors@.drop_last() == old(self).patch_errors@,
            final(self).patch_errors@.last().path == path,
            final(self).patch_errors@.last().error == error,
    {
        let ghost before = self.patch_errors@;
        self.patch_errors.push(PatchError { path, error });
        assert(self.patch_errors@.drop_last() =~= before);
    }

    /// The reply once the patches have been tried: when none applied, a
    /// failure whose error says whether any failed; when some applied but
    /// changed nothing, a success without a new head and with that note;
    /// otherwise a success with the new head sha. The failed patches are
    /// reported in every case.
    pub fn reply(self, run_id: String, new_head_sha: Option<String>) -> (r: ApplyPatchesResult)
        ensures
            r.run_id == run_id,
            r.applied_count == self.applied_count,
            r.patch_errors@ == self.patch_errors@,
            self.applied_count == 0 ==> !r.success && r.new_head_sha is None && (r.error matches Some(
                e,
            ) && e@ == if self.patch_errors@.len() == 0 {
                "No patches to apply"@
            } else {
                "All patches failed to apply"@
            }),
            self.applied_count != 0 && new_head_sha is None ==> r.success && r.new_head_sha is None
                && (r.error matches Some(e) && e@ == "Patches applied but produced no changes"@),
            self.applied_count != 0 && new_head_sha is Some ==> r.success && r.new_head_sha
                == new_head_sha && r.error is None,
    {
        if self.applied_count == 0 {
            let msg = nothing_applied_message(self.patch_errors.len() > 0);
            ApplyPatchesResult {
                run_id,
                success: false,
                applied_count: 0,
                new_head_sha: None,
                error: Some(msg.to_string()),
                patch_errors: self.patch_errors,
            }
        } else {
            match new_head_sha {
                None => ApplyPatchesResult {
                    run_id,
                    success: true,
                    applied_count: self.applied_count,
                    new_head_sha: None,
                    error: Some("Patches applied but produced no changes".to_string()),
                    patch_errors: self.patch_errors,
                },
                Some(sha) => ApplyPatchesResult {
                    run_id,
                    success: true,
                    applied_count: self.applied_count,
                    new_head_sha: Some(sha),
                    error: None,
                    patch_errors: self.patch_errors,
                },
            }
        }
    }
}

} // verus!
