//! Removing old run artifacts: when a run's directory is old enough to
//! delete, and the tally of what a cleanup did.

use vstd::prelude::*;

verus! {

/// The age (in days) after which artifacts are deleted when the
/// configuration gives none.
pub const DEFAULT_MAX_ARTIFACT_AGE_DAYS: u32 = 30;

/// Seconds in a day.
pub const SECONDS_PER_DAY: u64 = 24 * 60 * 60;

/// Result of the artifact cleanup operation.
#[derive(Debug, Clone)]
pub struct CleanupResult {
    /// Number of artifact directories deleted.
    pub deleted_count: u32,
    /// Number of artifact directories preserved.
    pub preserved_count: u32,
    /// Total bytes freed (approximate).
    pub bytes_freed: u64,
    /// Errors encountered during cleanup (non-fatal).
    pub errors: Vec<String>,
}


impl CleanupResult {
    /// Nothing deleted, preserved or freed, and no errors.
    pub fn new() -> (r: Self)
        ensures
            r.deleted_count == 0,
            r.preserved_count == 0,
            r.bytes_freed == 0,
            r.errors@.len() == 0,
    {
        CleanupResult { deleted_count: 0, preserved_count: 0, bytes_freed: 0, errors: Vec::new() }
    }

    /// Counts a deleted directory of `size` bytes.
    pub fn record_deleted(&mut self, size: u64)
        requires
            old(self).deleted_count < u32::MAX,
            old(self).bytes_freed + size <= u64::MAX,
        ensures
            final(self).deleted_count == old(self).deleted_count + 1,
            final(self).bytes_freed == old(self).bytes_freed + size,
            final(self).preserved_count == old(self).preserved_count,
            final(self).errors == old(self).errors,
    {
        self.deleted_count = self.deleted_count + 1;
        self.bytes_freed = self.bytes_freed + size;
    }

    /// Counts a preserved directory.
    pub fn record_preserved(&mut self)
        requires
            old(self).preserved_count < u32::MAX,
        ensures
            final(self).preserved_count == old(self).preserved_count + 1,
            final(self).deleted_count == old(self).deleted_count,
            final(self).bytes_freed == old(self).bytes_freed,
            final(self).errors == old(self).errors,
    {
        self.preserved_count = self.preserved_count + 1;
    }

    /// Records a non-fatal error.
    pub fn record_error(&mut self, message: String)
        ensures
            final(self).errors@ == old(self).errors@.push(message),
            final(self).deleted_count == old(self).deleted_count,
            final(self).preserved_count == old(self).preserved_count,
            final(self).bytes_freed == old(self).bytes_freed,
    {
        self.errors.push(message);
    }

    /// A directory whose age could not be read is preserved, and the error
    /// recorded.
    pub fn record_unknown_age(&mut self, message: String)
        requires
            old(self).preserved_count < u32::MAX,
        ensures
            final(self).errors@ == old(self).errors@.push(message),
            final(self).preserved_count == old(self).preserved_count + 1,
            final(self).deleted_count == old(self).deleted_count,
            final(self).bytes_freed == old(self).bytes_freed,
    {
        self.errors.push(message);
        self.preserved_count = self.preserved_count + 1;
    }
}

/// Cleanup runs only when the maximum age is not zero.
pub fn cleanup_enabled(max_age_days: u32) -> (r: bool)
    ensures
        r == (max_age_days != 0),
{
    max_age_days != 0
}

/// The age of something modified at `modified` (Unix seconds) at time
/// `now`: zero for a time in the future.
pub fn age_secs(now: u64, modified: u64) -> (r: u64)
    ensures
        r == if now >= modified {
            now - modified
        } else {
            0
        },
{
    if now >= modified {
        now - modified
    } else {
        0
    }
}

/// A directory is deleted once its age passes the maximum age.
pub fn is_older_than(age_secs: u64, max_age_days: u32) -> (r: bool)
    ensures
        r == (age_secs > max_age_days * SECONDS_PER_DAY),
{
    assert((max_age_days as u64) * SECONDS_PER_DAY <= u64::MAX) by (nonlinear_arith)
        requires
            max_age_days <= u32::MAX,
            SECONDS_PER_DAY == 86400,
    ;
    let max_age: u64 = (max_age_days as u64) * SECONDS_PER_DAY;
    age_secs > max_age
}

/// The maximum artifact age in days: the global configuration's, when it
/// exists and could be read; else the default.
pub fn max_artifact_age_days(configured: Option<Result<u32, String>>) -> (r: u32)
    ensures
        r == match configured {
            Some(Ok(d)) => d,
            _ => DEFAULT_MAX_ARTIFACT_AGE_DAYS,
        },
{
    match configured {
        Some(Ok(d)) => d,
        _ => DEFAULT_MAX_ARTIFACT_AGE_DAYS,
    }
}

} // verus!
