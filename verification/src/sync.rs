//! What the sync requests record and answer once a sync with upstream has
//! run: the sync log entries, the repository's last-sync time, and the
//! replies of `sync`, `sync_all` and `fetch_notification`.

use crate::ipc::{FetchNotificationResult, SyncAllResult, SyncError, SyncResult};
use crate::types::SyncLog;
use vstd::prelude::*;

verus! {

/// A sync log entry with a fresh identifier.
pub fn sync_log(repo_id: &str, success: bool, error: Option<String>, synced_at: i64) -> (r: SyncLog)
    ensures
        r.id@.len() == 36,
        r.repo_id@ == repo_id@,
        r.success == success,
        r.error == error,
        r.synced_at == synced_at,
{
    SyncLog { id: crate::ids::new_id(), repo_id: repo_id.to_string(), success, error, synced_at }
}

/// What a `sync` request records and answers after syncing a repository at
/// `synced_at`: the log entry (always), whether the repository's last-sync
/// time moves to `synced_at` (only on success), and the reply.
pub fn sync_outcome(repo_id: &str, outcome: Result<(), String>, synced_at: i64) -> (r: (
    SyncLog,
    bool,
    SyncResult,
))
    ensures
        r.0.repo_id@ == repo_id@,
        r.0.success == (outcome is Ok),
        r.0.error == match outcome {
            Ok(_) => None::<String>,
            Err(e) => Some(e),
        },
        r.0.synced_at == synced_at,
        r.1 == (outcome is Ok),
        r.2.success == (outcome is Ok),
        r.2.error == r.0.error,
        r.2.synced_at == synced_at,
{
    let (success, error) = match outcome {
        Ok(()) => (true, None),
        Err(e) => (false, Some(e)),
    };
    let reply_error = copy_text(&error);
    let log = sync_log(repo_id, success, error, synced_at);
    (log, success, SyncResult { success, error: reply_error, synced_at })
}

/// A `sync_all` reply with nothing synced yet.
pub fn sync_all_start() -> (r: SyncAllResult)
    ensures
        r.synced_count == 0,
        r.failed_count == 0,
        r.errors@.len() == 0,
{
    SyncAllResult { synced_count: 0, failed_count: 0, errors: Vec::new() }
}

/// Counts one repository's sync in a `sync_all` reply: a success adds to
/// the synced count, a failure to the failed count and the errors. Returns
/// the log entry to record (the last-sync time moves only on success).
pub fn record_sync_all(
    tally: &mut SyncAllResult,
    repo_id: &str,
    outcome: Result<(), String>,
    synced_at: i64,
) -> (r: SyncLog)
    requires
        old(tally).synced_count < u32::MAX,
        old(tally).failed_count < u32::MAX,
    ensures
        r.repo_id@ == repo_id@,
        r.success == (outcome is Ok),
        r.error == match outcome {
            Ok(_) => None::<String>,
            Err(e) => Some(e),
        },
        r.synced_at == synced_at,
        outcome is Ok ==> final(tally).synced_count == old(tally).synced_count + 1
            && final(tally).failed_count == old(tally).failed_count && final(tally).errors@
            == old(tally).errors@,
        outcome is Err ==> final(tally).synced_count == old(tally).synced_count
            && final(tally).failed_count == old(tally).failed_count + 1
            && final(tally).errors@.len() == old(tally).errors@.len() + 1
            && final(tally).errors@.drop_last() == old(tally).errors@
            && final(tally).errors@.last().repo_id@ == repo_id@
            && final(tally).errors@.last().error == outcome->Err_0,
{
    match outcome {
        Ok(()) => {
            tally.synced_count = tally.synced_count + 1;
            sync_log(repo_id, true, None, synced_at)
        },
        Err(e) => {
            tally.failed_count = tally.failed_count + 1;
            let ghost before = tally.errors@;
            tally.errors.push(SyncError { repo_id: repo_id.to_string(), error: e.clone() });
            proof {
                assert(tally.errors@.drop_last() =~= before);
            }
            sync_log(repo_id, false, Some(e), synced_at)
        },
    }
}

/// What a stale-check sync of a repository did.
#[derive(Debug, Clone)]
pub struct StaleSync {
    /// A sync was attempted.
    pub synced: bool,
    /// The sync succeeded (meaningful when attempted).
    pub success: bool,
    /// The sync's error, if any.
    pub error: Option<String>,
    /// No sync was needed: the repository was fresh.
    pub skipped_not_stale: bool,
    /// When the check ran.
    pub timestamp: i64,
}

/// The reply to a fetch notification for a gate that no repository owns:
/// nothing synced, no error.
pub fn unknown_gate_reply() -> (r: FetchNotificationResult)
    ensures
        !r.synced && r.success && r.error is None && !r.skipped_not_stale && r.repo_id is None,
{
    FetchNotificationResult { synced: false, success: true, error: None, skipped_not_stale: false, repo_id: None }
}

fn copy_text(e: &Option<String>) -> (c: Option<String>)
    ensures
        c == *e,
{
    match e {
        Some(s) => Some(s.clone()),
        None => None,
    }
}

/// What a fetch notification records and answers for repository `repo_id`
/// after its stale check: a log entry only when a sync ran (its error only
/// when it failed), the last-sync time moved only after a successful sync,
/// and the reply that reports the check.
pub fn fetch_notification_outcome(repo_id: &str, sync: &StaleSync) -> (r: (
    Option<SyncLog>,
    bool,
    FetchNotificationResult,
))
    ensures
        sync.synced ==> (r.0 matches Some(l) && l.repo_id@ == repo_id@ && l.success == sync.success
            && l.synced_at == sync.timestamp && l.error == if sync.success {
            None::<String>
        } else {
            sync.error
        }),
        !sync.synced ==> r.0 is None,
        r.1 == (sync.synced && sync.success),
        r.2.synced == sync.synced,
        r.2.success == sync.success,
        r.2.error == sync.error,
        r.2.skipped_not_stale == sync.skipped_not_stale,
        r.2.repo_id matches Some(id) && id@ == repo_id@,
{
    let log = if sync.synced {
        let error = if sync.success {
            None
        } else {
            copy_text(&sync.error)
        };
        Some(sync_log(repo_id, sync.success, error, sync.timestamp))
    } else {
        None
    };
    let reply = FetchNotificationResult {
        synced: sync.synced,
        success: sync.success,
        error: copy_text(&sync.error),
        skipped_not_stale: sync.skipped_not_stale,
        repo_id: Some(repo_id.to_string()),
    };
    (log, sync.synced && sync.success, reply)
}

} // verus!
