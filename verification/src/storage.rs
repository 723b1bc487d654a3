//! The decisions of a database sync: which logs to read again, what a
//! stored session's cache hit rate is, and how the outcomes are counted.
//!
//! The database itself (SQLite) and the directory walk are the caller's.
use vstd::prelude::*;

use crate::paths::{has_jsonl_extension, is_jsonl_path};
use crate::ratio::Ratio;
use crate::text::string_views;
use crate::types::ParseResult;

verus! {

/// Report from a full sync operation.
#[derive(Debug, Clone, Copy, PartialEq, Eq, Structural)]
pub struct SyncReport {
    pub total_files_on_disk: u64,
    pub files_to_sync: u64,
    pub files_synced: u64,
    pub files_failed: u64,
    pub sessions_upserted: u64,
}

/// A log must be read again when it was never synced, or when it was
/// modified after the sync that is recorded for it.
pub open spec fn spec_needs_sync(mtime: i64, stored_mtime: Option<i64>) -> bool {
    match stored_mtime {
        Some(stored) => mtime > stored,
        None => true,
    }
}

/// Whether a log modified at `mtime` (seconds since the epoch) must be read
/// again, given the modification time recorded at its last sync.
pub fn needs_sync(mtime: i64, stored_mtime: Option<i64>) -> (r: bool)
    ensures
        r == spec_needs_sync(mtime, stored_mtime),
{
    match stored_mtime {
        Some(stored) => mtime > stored,
        None => true,
    }
}

/// Syncing is idempotent: once a log's modification time is recorded, the
/// log needs no second sync until it is modified again.
pub proof fn lemma_synced_log_is_current(mtime: i64)
    ensures
        !spec_needs_sync(mtime, Some(mtime)),
        forall|later: i64| later > mtime ==> spec_needs_sync(later, Some(mtime)),
{
}

/// A log with its modification time and the one recorded at its last sync.
pub open spec fn sync_views(files: Seq<(String, i64, Option<i64>)>) -> Seq<(Seq<char>, i64, Option<i64>)> {
    files.map_values(|f: (String, i64, Option<i64>)| (f.0@, f.1, f.2))
}

/// The logs of `files` that must be read again, in their order.
pub open spec fn spec_files_to_sync(files: Seq<(Seq<char>, i64, Option<i64>)>) -> Seq<Seq<char>>
    decreases files.len(),
{
    if files.len() == 0 {
        Seq::empty()
    } else {
        let rest = spec_files_to_sync(files.drop_last());
        let (p, mtime, stored) = files.last();
        if spec_needs_sync(mtime, stored) {
            rest.push(p)
        } else {
            rest
        }
    }
}

/// Filter the logs found on disk (each with its modification time and the
/// one recorded at its last sync) to those that need syncing.
pub fn files_to_sync(files: &Vec<(String, i64, Option<i64>)>) -> (r: Vec<String>)
    ensures
        string_views(r@) == spec_files_to_sync(sync_views(files@)),
{
    let mut out: Vec<String> = Vec::new();
    let mut i: usize = 0;
    while i < files.len()
        invariant
            i <= files.len(),
            string_views(out@) == spec_files_to_sync(sync_views(files@).take(i as int)),
        decreases files.len() - i,
    {
        assert(sync_views(files@).take(i + 1).drop_last() =~= sync_views(files@).take(i as int));
        if needs_sync(files[i].1, files[i].2) {
            out.push(files[i].0.clone());
        }
        i = i + 1;
        assert(string_views(out@) =~= spec_files_to_sync(sync_views(files@).take(i as int)));
    }
    assert(sync_views(files@).take(files.len() as int) =~= sync_views(files@));
    out
}

/// The `.jsonl` files of `paths`, in their order.
pub open spec fn spec_jsonl_files(paths: Seq<Seq<char>>) -> Seq<Seq<char>>
    decreases paths.len(),
{
    if paths.len() == 0 {
        Seq::empty()
    } else {
        let rest = spec_jsonl_files(paths.drop_last());
        if is_jsonl_path(paths.last()) {
            rest.push(paths.last())
        } else {
            rest
        }
    }
}

/// The session logs among the regular files found below a directory: those
/// with the extension `jsonl`, in walk order.
pub fn jsonl_files(paths: &Vec<String>) -> (r: Vec<String>)
    ensures
        string_views(r@) == spec_jsonl_files(string_views(paths@)),
{
    let mut out: Vec<String> = Vec::new();
    let mut i: usize = 0;
    while i < paths.len()
        invariant
            i <= paths.len(),
            string_views(out@) == spec_jsonl_files(string_views(paths@).take(i as int)),
        decreases paths.len() - i,
    {
        assert(string_views(paths@).take(i + 1).drop_last() =~= string_views(paths@).take(
            i as int,
        ));
        if has_jsonl_extension(paths[i].as_str()) {
            out.push(paths[i].clone());
        }
        i = i + 1;
        assert(string_views(out@) =~= spec_jsonl_files(string_views(paths@).take(i as int)));
    }
    assert(string_views(paths@).take(paths.len() as int) =~= string_views(paths@));
    out
}

/// The cache hit rate stored for a session: cache reads over input, cache
/// reads and cache writes, or nothing when all three are zero.
pub fn session_cache_hit_rate(result: &ParseResult) -> (r: Option<Ratio>)
    requires
        result.total_input_tokens + result.total_cache_read_tokens
            + result.total_cache_creation_tokens <= u64::MAX,
    ensures
        match r {
            Some(q) => q.num == result.total_cache_read_tokens && q.den
                == result.total_input_tokens + result.total_cache_read_tokens
                + result.total_cache_creation_tokens && q.den > 0,
            None => result.total_input_tokens + result.total_cache_read_tokens
                + result.total_cache_creation_tokens == 0,
        },
{
    let den = result.total_input_tokens + result.total_cache_read_tokens
        + result.total_cache_creation_tokens;
    if den > 0 {
        Some(Ratio::new(result.total_cache_read_tokens, den))
    } else {
        None
    }
}

impl SyncReport {
    /// The report before any log was processed: `total_files_on_disk` logs
    /// found, `files_to_sync` of them to be read.
    pub fn start(total_files_on_disk: u64, files_to_sync: u64) -> (r: SyncReport)
        ensures
            r == (SyncReport {
                total_files_on_disk,
                files_to_sync,
                files_synced: 0,
                files_failed: 0,
                sessions_upserted: 0,
            }),
    {
        SyncReport {
            total_files_on_disk,
            files_to_sync,
            files_synced: 0,
            files_failed: 0,
            sessions_upserted: 0,
        }
    }

    /// Counts one processed log: a log that was parsed and stored counts as
    /// synced and as one upserted session, any other as failed.
    pub fn record(&mut self, stored: bool)
        requires
            old(self).files_synced < u64::MAX,
            old(self).sessions_upserted < u64::MAX,
            old(self).files_failed < u64::MAX,
        ensures
            final(self).total_files_on_disk == old(self).total_files_on_disk,
            final(self).files_to_sync == old(self).files_to_sync,
            stored ==> final(self).files_synced == old(self).files_synced + 1
                && final(self).sessions_upserted == old(self).sessions_upserted + 1
                && final(self).files_failed == old(self).files_failed,
            !stored ==> final(self).files_failed == old(self).files_failed + 1
                && final(self).files_synced == old(self).files_synced
                && final(self).sessions_upserted == old(self).sessions_upserted,
    {
        if stored {
            self.files_synced = self.files_synced + 1;
            self.sessions_upserted = self.sessions_upserted + 1;
        } else {
            self.files_failed = self.files_failed + 1;
        }
    }
}

/// How many of the outcomes are successes.
pub open spec fn count_stored(outcomes: Seq<bool>) -> nat
    decreases outcomes.len(),
{
    if outcomes.len() == 0 {
        0
    } else {
        count_stored(outcomes.drop_last()) + if outcomes.last() {
            1nat
        } else {
            0nat
        }
    }
}

/// The report of a sync over `total_files_on_disk` logs whose processing
/// ended with `outcomes` (one per log that needed syncing, `true` where it
/// was stored): every log is counted exactly once, as synced or as failed.
pub fn sync_report(total_files_on_disk: u64, outcomes: &Vec<bool>) -> (r: SyncReport)
    requires
        outcomes@.len() <= u64::MAX,
    ensures
        r.total_files_on_disk == total_files_on_disk,
        r.files_to_sync == outcomes@.len(),
        r.files_synced == count_stored(outcomes@),
        r.sessions_upserted == count_stored(outcomes@),
        r.files_failed == outcomes@.len() - count_stored(outcomes@),
        r.files_synced + r.files_failed == r.files_to_sync,
{
    let mut report = SyncReport::start(total_files_on_disk, outcomes.len() as u64);
    let mut i: usize = 0;
    while i < outcomes.len()
        invariant
            i <= outcomes.len(),
            outcomes@.len() <= u64::MAX,
            report.total_files_on_disk == total_files_on_disk,
            report.files_to_sync == outcomes@.len(),
            report.files_synced == count_stored(outcomes@.take(i as int)),
            report.sessions_upserted == count_stored(outcomes@.take(i as int)),
            report.files_failed == i - count_stored(outcomes@.take(i as int)),
            count_stored(outcomes@.take(i as int)) <= i,
        decreases outcomes.len() - i,
    {
        assert(outcomes@.take(i + 1).drop_last() =~= outcomes@.take(i as int));
        report.record(outcomes[i]);
        i = i + 1;
    }
    assert(outcomes@.take(outcomes.len() as int) =~= outcomes@);
    report
}

// ============================================================
// Syncing twice
// ============================================================
/// A log after a sync in which reading it ended with `ok`: a log that
/// needed syncing and was stored has its modification time recorded; any
/// other keeps its record.
pub open spec fn synced_state(f: (Seq<char>, i64, Option<i64>), ok: bool) -> (
    Seq<char>,
    i64,
    Option<i64>,
) {
    if spec_needs_sync(f.1, f.2) && ok {
        (f.0, f.1, Some(f.1))
    } else {
        f
    }
}

/// The logs after a sync, `ok[i]` telling whether log `i` was stored.
pub open spec fn after_sync(files: Seq<(Seq<char>, i64, Option<i64>)>, ok: Seq<bool>) -> Seq<
    (Seq<char>, i64, Option<i64>),
>
    decreases files.len(),
{
    if files.len() == 0 || ok.len() == 0 {
        Seq::empty()
    } else {
        after_sync(files.drop_last(), ok.drop_last()).push(synced_state(files.last(), ok.last()))
    }
}

/// The outcomes a sync reports: one per log that needed syncing, in order.
pub open spec fn sync_outcomes(files: Seq<(Seq<char>, i64, Option<i64>)>, ok: Seq<bool>) -> Seq<
    bool,
>
    decreases files.len(),
{
    if files.len() == 0 || ok.len() == 0 {
        Seq::empty()
    } else {
        let rest = sync_outcomes(files.drop_last(), ok.drop_last());
        if spec_needs_sync(files.last().1, files.last().2) {
            rest.push(ok.last())
        } else {
            rest
        }
    }
}

/// The logs that needed syncing and could not be stored, in order.
pub open spec fn failed_syncs(files: Seq<(Seq<char>, i64, Option<i64>)>, ok: Seq<bool>) -> Seq<
    Seq<char>,
>
    decreases files.len(),
{
    if files.len() == 0 || ok.len() == 0 {
        Seq::empty()
    } else {
        let rest = failed_syncs(files.drop_last(), ok.drop_last());
        if spec_needs_sync(files.last().1, files.last().2) && !ok.last() {
            rest.push(files.last().0)
        } else {
            rest
        }
    }
}

/// A sync reports one outcome per log to sync, and syncing again with no
/// log modified reads exactly the logs that failed: as many as the first
/// report counts as failed.
pub proof fn lemma_second_sync_retries_failures(
    files: Seq<(Seq<char>, i64, Option<i64>)>,
    ok: Seq<bool>,
)
    requires
        ok.len() == files.len(),
    ensures
        sync_outcomes(files, ok).len() == spec_files_to_sync(files).len(),
        spec_files_to_sync(after_sync(files, ok)) == failed_syncs(files, ok),
        failed_syncs(files, ok).len() == sync_outcomes(files, ok).len() - count_stored(
            sync_outcomes(files, ok),
        ),
    decreases files.len(),
{
    if files.len() > 0 {
        let pre = files.drop_last();
        let okp = ok.drop_last();
        lemma_second_sync_retries_failures(pre, okp);
        let a = after_sync(files, ok);
        assert(a.drop_last() == after_sync(pre, okp));
        let o = sync_outcomes(files, ok);
        if spec_needs_sync(files.last().1, files.last().2) {
            assert(o.drop_last() == sync_outcomes(pre, okp));
        }
        assert(count_stored(sync_outcomes(pre, okp)) <= sync_outcomes(pre, okp).len()) by {
            lemma_count_stored_bound(sync_outcomes(pre, okp));
        }
    } else {
        assert(after_sync(files, ok) =~= Seq::<(Seq<char>, i64, Option<i64>)>::empty());
    }
}

proof fn lemma_count_stored_bound(o: Seq<bool>)
    ensures
        count_stored(o) <= o.len(),
    decreases o.len(),
{
    if o.len() > 0 {
        lemma_count_stored_bound(o.drop_last());
    }
}

} // verus!
