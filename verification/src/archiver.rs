//! zstd archives of session logs that are about to expire.
//!
//! A log `<dir>/<project>/<session>.jsonl` is archived as
//! `<archive_dir>/<project>/<session>.jsonl.zst`.  Reading and writing the
//! files is the caller's; this module decides names, compresses and
//! decompresses, and picks the logs that are old enough.
use vstd::prelude::*;

use crate::config::{path_join, spec_join};
use crate::parser::{file_name_of, opt_file_name, or_text, text_or_unknown};
use crate::paths::{file_stem, has_jsonl_extension, is_jsonl_path, parent, std_file_stem, std_parent};
use crate::text::string_views;
use vstd::string::StringExecFns;

verus! {

/// `std::io::Error`, the error of the zstd calls.
#[verifier::external_type_specification]
#[verifier::external_body]
pub struct ExIoError(std::io::Error);

/// What `zstd::encode_all` returns for `data` at compression `level` when
/// it succeeds.
pub uninterp spec fn zstd_encoded(data: Seq<u8>, level: i32) -> Seq<u8>;

/// What `zstd::decode_all` returns for `data`: the decompressed bytes, or
/// nothing when `data` is not zstd frames.
pub uninterp spec fn zstd_decoded(data: Seq<u8>) -> Option<Seq<u8>>;

/// Calls `zstd::encode_all` on the bytes of `data`.  The contract names the
/// compressed bytes and states what the crate's source shows: reading a
/// slice into a `Vec` cannot fail at a level zstd accepts (1 to 22), the
/// result is a zstd frame (never empty, it starts with the frame's magic
/// number), and it decompresses to `data` (zstd is lossless).
#[verifier::external_body]
fn zstd_encode_all(data: &Vec<u8>, level: i32) -> (r: Result<Vec<u8>, std::io::Error>)
    ensures
        1 <= level <= 22 ==> r is Ok,
        r matches Ok(c) ==> c@ == zstd_encoded(data@, level) && c@.len() > 0 && zstd_decoded(c@)
            == Some(data@),
{
    zstd::encode_all(data.as_slice(), level)
}

/// Calls `zstd::decode_all` on the bytes of `data`.  The contract states
/// that it succeeds exactly when `data` decodes, with the decoded bytes.
#[verifier::external_body]
fn zstd_decode_all(data: &Vec<u8>) -> (r: Result<Vec<u8>, std::io::Error>)
    ensures
        match zstd_decoded(data@) {
            Some(v) => r matches Ok(w) && w@ == v,
            None => r is Err,
        },
{
    zstd::decode_all(data.as_slice())
}

/// The zstd level the archive uses.
pub const ARCHIVE_LEVEL: i32 = 3;

/// Why an archive operation failed.
#[derive(Debug, Clone, Copy, PartialEq, Eq, Structural)]
pub enum ArchiveError {
    /// zstd could not compress the log.
    CompressFailed,
    /// zstd could not decompress the archive.
    DecompressFailed,
}

impl ArchiveError {
    /// The text that [`ArchiveError::message`] returns.
    pub open spec fn spec_message(self) -> Seq<char> {
        match self {
            ArchiveError::CompressFailed => "Failed to compress with zstd"@,
            ArchiveError::DecompressFailed => "Failed to decompress zstd data"@,
        }
    }

    /// Human-readable description of the error.
    pub fn message(&self) -> (r: String)
        ensures
            r@ == self.spec_message(),
    {
        match self {
            ArchiveError::CompressFailed => String::from_str("Failed to compress with zstd"),
            ArchiveError::DecompressFailed => String::from_str("Failed to decompress zstd data"),
        }
    }
}

/// Manages zstd-compressed archives of session logs.
pub struct Archiver {
    archive_dir: String,
}

/// Manifest tracking all archived files.
pub struct ArchiveManifest {
    pub entries: Vec<ArchiveEntry>,
    pub last_updated: String,
}

/// A single entry in the archive manifest.
pub struct ArchiveEntry {
    pub session_id: String,
    pub source_path: String,
    pub archive_path: String,
    pub original_size: u64,
    pub compressed_size: u64,
    pub archived_at: String,
}

/// Where a log goes in the archive.
pub struct ArchiveTarget {
    /// Name of the directory that holds the log.
    pub project_name: String,
    /// File name of the log without its extension.
    pub session_id: String,
    /// The archive's directory for the project.
    pub subdir: String,
    /// The archive file.
    pub archive_path: String,
}

/// A log compressed for the archive, with its manifest entry.
pub struct ArchivedLog {
    pub entry: ArchiveEntry,
    pub compressed: Vec<u8>,
}

/// The project name of the log at `source`: the name of the directory
/// that holds it, or `unknown`.
pub open spec fn spec_project_name(source: Seq<char>) -> Seq<char> {
    or_text(opt_file_name(std_parent(source)), "unknown"@)
}

/// The session id of the log at `source`: its file stem, or `unknown`.
pub open spec fn spec_session_id(source: Seq<char>) -> Seq<char> {
    or_text(std_file_stem(source), "unknown"@)
}

/// The archive directory of the log at `source`.
pub open spec fn spec_subdir(archive_dir: Seq<char>, source: Seq<char>) -> Seq<char> {
    spec_join(archive_dir, spec_project_name(source))
}

/// The archive file of the log at `source`.
pub open spec fn spec_archive_path(archive_dir: Seq<char>, source: Seq<char>) -> Seq<char> {
    spec_join(spec_subdir(archive_dir, source), spec_session_id(source) + ".jsonl.zst"@)
}

/// Seconds a log may age before it expires within `days_threshold` days:
/// logs are kept about 30 days.
pub open spec fn max_age_secs(days_threshold: u32) -> nat {
    (if days_threshold >= 30 {
        0
    } else {
        30 - days_threshold
    }) as nat * 86400
}

/// A log of age `age_secs` (unknown when its modification time could not be
/// read, or lies in the future) expires within `days_threshold` days.
pub open spec fn is_expiring(age_secs: Option<u64>, days_threshold: u32) -> bool {
    match age_secs {
        Some(age) => age >= max_age_secs(days_threshold),
        None => false,
    }
}

/// The expiring logs among `files` (path and age), in their order.
pub open spec fn expiring(files: Seq<(Seq<char>, Option<u64>)>, days_threshold: u32) -> Seq<
    Seq<char>,
>
    decreases files.len(),
{
    if files.len() == 0 {
        Seq::empty()
    } else {
        let rest = expiring(files.drop_last(), days_threshold);
        let (p, age) = files.last();
        if is_jsonl_path(p) && is_expiring(age, days_threshold) {
            rest.push(p)
        } else {
            rest
        }
    }
}

/// The files with their ages as values.
pub open spec fn aged_views(files: Seq<(String, Option<u64>)>) -> Seq<(Seq<char>, Option<u64>)> {
    files.map_values(|f: (String, Option<u64>)| (f.0@, f.1))
}

/// What restoring the archive file `compressed` gives: the log it holds, or
/// nothing when it is not zstd data.
pub open spec fn spec_restored(compressed: Seq<u8>) -> Option<Seq<u8>> {
    zstd_decoded(compressed)
}

/// Restoring an archive gives back the log that was archived: when
/// `archived` is the compressed form that [`Archiver::archive_file`]
/// produced for the bytes `original`, [`Archiver::restore_file`] returns
/// `original`.
pub proof fn lemma_restore_returns_original(original: Seq<u8>, archived: Seq<u8>)
    requires
        zstd_decoded(archived) == Some(original),
    ensures
        spec_restored(archived) == Some(original),
{
}

impl Archiver {
    /// The archive directory.
    pub closed spec fn dir(&self) -> Seq<char> {
        self.archive_dir@
    }

    /// Create a new Archiver targeting the given archive directory.
    pub fn new(archive_dir: &str) -> (r: Archiver)
        ensures
            r.dir() == archive_dir@,
    {
        Archiver { archive_dir: String::from_str(archive_dir) }
    }

    /// The archive directory.
    pub fn archive_dir(&self) -> (r: &String)
        ensures
            r@ == self.dir(),
    {
        &self.archive_dir
    }

    /// Where the log at `source` goes: `<archive_dir>/<project>/<session>.jsonl.zst`,
    /// with the project named by the directory that holds the log and the
    /// session by the log's file stem.
    pub fn archive_target(&self, source: &str) -> (r: ArchiveTarget)
        ensures
            r.project_name@ == spec_project_name(source@),
            r.session_id@ == spec_session_id(source@),
            r.subdir@ == spec_subdir(self.dir(), source@),
            r.archive_path@ == spec_archive_path(self.dir(), source@),
    {
        let project_name = text_or_unknown(file_name_of(parent(source)));
        let session_id = text_or_unknown(file_stem(source));
        let subdir = path_join(self.archive_dir.as_str(), project_name.as_str());
        let mut file = session_id.clone();
        file.append(".jsonl.zst");
        proof {
            reveal_strlit(".jsonl.zst");
        }
        let archive_path = path_join(subdir.as_str(), file.as_str());
        ArchiveTarget { project_name, session_id, subdir, archive_path }
    }

    /// Compress the log read from `source` (its bytes are `data`) for the
    /// archive, and describe it in a manifest entry stamped `archived_at`.
    pub fn archive_file(&self, source: &str, data: &Vec<u8>, archived_at: &str) -> (r: Result<
        ArchivedLog,
        ArchiveError,
    >)
        ensures
            match r {
                Ok(a) => {
                    &&& a.compressed@ == zstd_encoded(data@, ARCHIVE_LEVEL)
                    &&& zstd_decoded(a.compressed@) == Some(data@)
                    &&& a.entry.session_id@ == spec_session_id(source@)
                    &&& a.entry.source_path@ == source@
                    &&& a.entry.archive_path@ == spec_archive_path(self.dir(), source@)
                    &&& a.entry.original_size == data.len()
                    &&& a.entry.compressed_size == a.compressed.len()
                    &&& a.entry.archived_at@ == archived_at@
                },
                Err(e) => e == ArchiveError::CompressFailed,
            },
            r is Ok,
            r matches Ok(a) ==> a.entry.compressed_size > 0,
    {
        let target = self.archive_target(source);
        let compressed = match zstd_encode_all(data, ARCHIVE_LEVEL) {
            Ok(c) => c,
            Err(_) => {
                return Err(ArchiveError::CompressFailed);
            },
        };
        let entry = ArchiveEntry {
            session_id: target.session_id,
            source_path: String::from_str(source),
            archive_path: target.archive_path,
            original_size: data.len() as u64,
            compressed_size: compressed.len() as u64,
            archived_at: String::from_str(archived_at),
        };
        Ok(ArchivedLog { entry, compressed })
    }

    /// Decompress an archive file (its bytes are `compressed`) back to the
    /// log it holds.
    pub fn restore_file(&self, compressed: &Vec<u8>) -> (r: Result<Vec<u8>, ArchiveError>)
        ensures
            match spec_restored(compressed@) {
                Some(v) => r matches Ok(w) && w@ == v,
                None => r == Err::<Vec<u8>, ArchiveError>(ArchiveError::DecompressFailed),
            },
    {
        match zstd_decode_all(compressed) {
            Ok(v) => Ok(v),
            Err(_) => Err(ArchiveError::DecompressFailed),
        }
    }

    /// The logs among `files` (each path with its age in seconds, where it
    /// could be read) that expire within `days_threshold` days: `.jsonl`
    /// files at least `(30 - days_threshold)` days old, in the order given.
    pub fn find_expiring_sessions(files: &Vec<(String, Option<u64>)>, days_threshold: u32) -> (r:
        Vec<String>)
        ensures
            string_views(r@) == expiring(aged_views(files@), days_threshold),
    {
        let max_age: u64 = (30u64 - if (days_threshold as u64) < 30 {
            days_threshold as u64
        } else {
            30
        }) * 86400;
        let mut out: Vec<String> = Vec::new();
        let mut i: usize = 0;
        while i < files.len()
            invariant
                i <= files.len(),
                max_age == max_age_secs(days_threshold),
                string_views(out@) == expiring(aged_views(files@).take(i as int), days_threshold),
            decreases files.len() - i,
        {
            assert(aged_views(files@).take(i + 1).drop_last() =~= aged_views(files@).take(
                i as int,
            ));
            let keep = match files[i].1 {
                Some(age) => age >= max_age,
                None => false,
            };
            if keep && has_jsonl_extension(files[i].0.as_str()) {
                out.push(files[i].0.clone());
            }
            i = i + 1;
            assert(string_views(out@) =~= expiring(
                aged_views(files@).take(i as int),
                days_threshold,
            ));
        }
        assert(aged_views(files@).take(files.len() as int) =~= aged_views(files@));
        out
    }
}


} // verus!
