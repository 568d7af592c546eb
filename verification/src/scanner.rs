//! Incremental scanning of an image library.
//!
//! A scan walks the library directory, keeps the files whose extension marks them
//! as images, compares each with the index row stored for its path, and decides:
//! an unchanged file (same size and modification time, status `ok`) is skipped; a
//! file with a row is updated (which also restores a row marked `missing`); a new
//! file is inserted. Rows whose path was not met on disk are then marked
//! `missing`; rows are never deleted.
//!
//! The directory walk, the header reads and the database statements are done by
//! the caller; the decisions and the bookkeeping are made here, as a state machine
//! that takes the result of each outside step and says what to do next.
use vstd::prelude::*;
use crate::text::{decimal, push_decimal, push_str};
use crate::pathname::{spec_normalize, normalize_str, is_image_path, has_extension_in, image_extensions, constant_extensions, PathStyle};
use crate::path_index::PathIndex;
use crate::metadata::ImageProbe;

verus! {

broadcast use vstd::string::group_string_axioms;

/// Status of an index row whose file is present on disk.
pub const STATUS_OK: &'static str = "ok";

/// Status of an index row whose file was not found by the last scan.
pub const STATUS_MISSING: &'static str = "missing";

/// Phase reported in a progress event.
#[derive(Debug, Clone, Copy, PartialEq, Eq, Structural)]
pub enum ScanPhase {
    Scanning,
    Done,
}

/// Name of a phase in the events sent to the interface.
pub open spec fn phase_name_spec(phase: ScanPhase) -> Seq<char> {
    match phase {
        ScanPhase::Scanning => "scanning"@,
        ScanPhase::Done => "done"@,
    }
}

pub fn phase_name(phase: ScanPhase) -> (r: &'static str)
    ensures
        r@ == phase_name_spec(phase),
{
    match phase {
        ScanPhase::Scanning => "scanning",
        ScanPhase::Done => "done",
    }
}

/// Progress event of a scan.
#[derive(Debug, Clone)]
pub struct ScanProgress {
    pub phase: ScanPhase,
    pub scanned: u64,
    pub total: u64,
    pub message: Option<String>,
}

/// Counters of one scan.
#[derive(Debug, Clone, Copy)]
pub struct ScanStats {
    pub total: u64,
    pub scanned: u64,
    pub inserted: u64,
    pub updated: u64,
    pub skipped: u64,
    pub missing: u64,
    /// Files indexed although their dimensions/format could not be read.
    pub probe_failed: u64,
    /// Entries that could not be read and files whose row could not be written.
    pub failed: u64,
}

impl ScanStats {
    pub open spec fn zero() -> ScanStats {
        ScanStats {
            total: 0,
            scanned: 0,
            inserted: 0,
            updated: 0,
            skipped: 0,
            missing: 0,
            probe_failed: 0,
            failed: 0,
        }
    }
}

impl Default for ScanStats {
    fn default() -> (r: Self)
        ensures
            r == ScanStats::zero(),
    {
        ScanStats {
            total: 0,
            scanned: 0,
            inserted: 0,
            updated: 0,
            skipped: 0,
            missing: 0,
            probe_failed: 0,
            failed: 0,
        }
    }
}

/// Text of the final progress event.
pub open spec fn done_message(s: ScanStats) -> Seq<char> {
    "扫描完成：新增 "@ + decimal(s.inserted as nat) + "，更新 "@ + decimal(s.updated as nat)
        + "，跳过 "@ + decimal(s.skipped as nat) + "，标记缺失 "@ + decimal(s.missing as nat)
        + "，失败 "@ + decimal(s.failed as nat)
}

impl ScanProgress {
    /// A progress event of the scanning phase.
    pub fn scanning(scanned: u64, total: u64, message: Option<String>) -> (r: Self)
        ensures
            r.phase == ScanPhase::Scanning,
            r.scanned == scanned,
            r.total == total,
            r.message == message,
    {
        ScanProgress { phase: ScanPhase::Scanning, scanned, total, message }
    }

    /// The final progress event: the counters of `stats` and a summary line
    /// `扫描完成：新增 i，更新 u，跳过 s，标记缺失 m，失败 f`.
    pub fn done(stats: &ScanStats) -> (r: Self)
        ensures
            r.phase == ScanPhase::Done,
            r.scanned == stats.scanned,
            r.total == stats.total,
            r.message matches Some(m) && m@ == done_message(*stats),
    {
        let mut m = String::new();
        push_str(&mut m, "扫描完成：新增 ");
        push_decimal(&mut m, stats.inserted);
        push_str(&mut m, "，更新 ");
        push_decimal(&mut m, stats.updated);
        push_str(&mut m, "，跳过 ");
        push_decimal(&mut m, stats.skipped);
        push_str(&mut m, "，标记缺失 ");
        push_decimal(&mut m, stats.missing);
        push_str(&mut m, "，失败 ");
        push_decimal(&mut m, stats.failed);
        ScanProgress {
            phase: ScanPhase::Done,
            scanned: stats.scanned,
            total: stats.total,
            message: Some(m),
        }
    }
}

/// The text of the error for a library root that is not a directory.
pub open spec fn root_error_message(root: Seq<char>) -> Seq<char> {
    "图库目录不存在或不是目录："@ + root
}

/// Error returned when the library root is missing or not a directory.
pub fn root_error(root: &str) -> (r: String)
    ensures
        r@ == root_error_message(root@),
{
    let mut m = String::new();
    push_str(&mut m, "图库目录不存在或不是目录：");
    push_str(&mut m, root);
    m
}

/// An image file found on disk, with the size and modification time (Unix seconds)
/// read when it was found.
#[derive(Debug, Clone)]
pub struct DiskFile {
    pub path: String,
    pub size: i64,
    pub mtime: i64,
}

/// Gathers the image files of a directory walk and counts the entries that failed.
pub struct FileCollector {
    pub files: Vec<DiskFile>,
    pub failed: u64,
}

impl FileCollector {
    pub fn new() -> (r: Self)
        ensures
            r.files@ == Seq::<DiskFile>::empty(),
            r.failed == 0,
    {
        FileCollector { files: Vec::new(), failed: 0 }
    }

    /// An entry of the walk could not be read: it is counted as a failure.
    pub fn on_walk_error(&mut self)
        requires
            old(self).failed < u64::MAX,
        ensures
            final(self).files@ == old(self).files@,
            final(self).failed == old(self).failed + 1,
    {
        self.failed = self.failed + 1;
    }

    /// Whether the walk entry at `path` is an image file whose metadata is wanted.
    pub fn wants_metadata(path: &str, style: PathStyle, is_file: bool) -> (r: bool)
        ensures
            r == (is_file && has_extension_in(path@, style, image_extensions())),
            r == (is_file && has_extension_in(path@, style, constant_extensions())),
    {
        is_file && is_image_path(path, style)
    }

    /// Records the metadata of a wanted file: its length and modification time, or
    /// the error of reading either. A file with both is kept; otherwise the failure
    /// is counted.
    pub fn on_metadata(&mut self, path: String, meta: Result<(u64, Result<i64, String>), String>)
        requires
            old(self).failed < u64::MAX,
        ensures
            match meta {
                Ok((len, Ok(mtime))) => {
                    &&& final(self).files@ == old(self).files@.push(
                        DiskFile { path: path, size: len as i64, mtime: mtime },
                    )
                    &&& final(self).failed == old(self).failed
                },
                _ => {
                    &&& final(self).files@ == old(self).files@
                    &&& final(self).failed == old(self).failed + 1
                },
            },
    {
        match meta {
            Ok((len, Ok(mtime))) => {
                self.files.push(DiskFile { path, size: len as i64, mtime });
            },
            _ => {
                self.failed = self.failed + 1;
            },
        }
    }
}

/// What an index row says of a path.
#[derive(Debug, Clone)]
pub struct IndexEntry {
    pub file_size: Option<i64>,
    pub mtime: Option<i64>,
    pub status: String,
}

/// A row of the image index as read from the database.
#[derive(Debug, Clone)]
pub struct IndexRow {
    pub path: String,
    pub file_size: Option<i64>,
    pub mtime: Option<i64>,
    pub status: String,
}

pub open spec fn entry_of_row(r: IndexRow) -> IndexEntry {
    IndexEntry { file_size: r.file_size, mtime: r.mtime, status: r.status }
}

/// The index that a list of rows describes, keyed by normalised path; a later row
/// for the same normalised path replaces an earlier one.
pub open spec fn index_of_rows(rows: Seq<IndexRow>) -> Map<Seq<char>, IndexEntry>
    decreases rows.len(),
{
    if rows.len() == 0 {
        Map::empty()
    } else {
        index_of_rows(rows.drop_last()).insert(
            spec_normalize(rows.last().path@),
            entry_of_row(rows.last()),
        )
    }
}

/// Builds the lookup index of the rows loaded from the database.
pub fn load_index(rows: &Vec<IndexRow>) -> (r: PathIndex<IndexEntry>)
    ensures
        r.wf(),
        r.view() == index_of_rows(rows@),
{
    let mut index: PathIndex<IndexEntry> = PathIndex::new();
    let mut i: usize = 0;
    while i < rows.len()
        invariant
            i <= rows.len(),
            index.wf(),
            index.view() == index_of_rows(rows@.take(i as int)),
        decreases rows.len() - i,
    {
        let row = &rows[i];
        let key = normalize_str(row.path.as_str());
        index.insert(
            key,
            IndexEntry { file_size: row.file_size, mtime: row.mtime, status: row.status.clone() },
        );
        proof {
            assert(rows@.take(i + 1).drop_last() =~= rows@.take(i as int));
        }
        i = i + 1;
    }
    proof {
        assert(rows@.take(rows.len() as int) =~= rows@);
    }
    index
}

/// Result of processing one file.
#[derive(Debug, Clone, Copy, PartialEq, Eq, Structural)]
pub enum FileOutcome {
    Inserted,
    Updated,
    Skipped,
}

/// The index key of a file: its normalised path.
pub open spec fn file_key(f: DiskFile) -> Seq<char> {
    spec_normalize(f.path@)
}

/// The row says the file is present and unchanged.
pub open spec fn entry_unchanged(e: IndexEntry, size: i64, mtime: i64) -> bool {
    &&& e.status@ == STATUS_OK@
    &&& e.file_size == Some(size)
    &&& e.mtime == Some(mtime)
}

/// What a scan does with a file of this key, size and modification time.
pub open spec fn planned_outcome(
    index: Map<Seq<char>, IndexEntry>,
    key: Seq<char>,
    size: i64,
    mtime: i64,
) -> FileOutcome {
    if index.contains_key(key) {
        if entry_unchanged(index[key], size, mtime) {
            FileOutcome::Skipped
        } else {
            FileOutcome::Updated
        }
    } else {
        FileOutcome::Inserted
    }
}

/// A row to write for a file: an update of the row with this path, or an insertion.
#[derive(Debug, Clone)]
pub struct ImageWrite {
    pub update: bool,
    pub path: String,
    pub file_size: i64,
    pub mtime: i64,
    pub width: Option<i64>,
    pub height: Option<i64>,
    pub format: Option<String>,
    pub status: String,
    pub scanned_at: String,
}

/// The row written for file `f` with the given probe result and time.
pub open spec fn write_matches(
    w: ImageWrite,
    f: DiskFile,
    update: bool,
    probe: Result<ImageProbe, String>,
    scanned_at: Seq<char>,
) -> bool {
    &&& w.update == update
    &&& w.path@ == file_key(f)
    &&& w.file_size == f.size
    &&& w.mtime == f.mtime
    &&& w.status@ == STATUS_OK@
    &&& w.scanned_at@ == scanned_at
    &&& match probe {
        Ok(p) => {
            &&& w.width == Some(p.width as i64)
            &&& w.height == Some(p.height as i64)
            &&& w.format matches Some(fm) && fm@ == p.format@
        },
        Err(_) => w.width is None && w.height is None && w.format is None,
    }
}

/// The index entry that reading back the row of `w` gives.
pub open spec fn entry_of_write(w: ImageWrite) -> IndexEntry {
    IndexEntry { file_size: Some(w.file_size), mtime: Some(w.mtime), status: w.status }
}

/// Number of elements of `s` equal to `o`.
pub open spec fn count_of(s: Seq<Option<FileOutcome>>, o: Option<FileOutcome>) -> nat
    decreases s.len(),
{
    if s.len() == 0 {
        0
    } else {
        count_of(s.drop_last(), o) + if s.last() == o {
            1nat
        } else {
            0nat
        }
    }
}

/// The keys of the first `n` files.
pub open spec fn seen_keys(files: Seq<DiskFile>, n: int) -> Set<Seq<char>>
    decreases n,
{
    if n <= 0 {
        Set::empty()
    } else {
        seen_keys(files, n - 1).insert(file_key(files[n - 1]))
    }
}

/// The ids of the rows whose normalised path is not in `seen`, in order.
pub open spec fn missing_rows(rows: Seq<(i64, String)>, seen: Set<Seq<char>>) -> Seq<i64>
    decreases rows.len(),
{
    if rows.len() == 0 {
        Seq::empty()
    } else {
        missing_rows(rows.drop_last(), seen) + if seen.contains(spec_normalize(rows.last().1@)) {
            Seq::<i64>::empty()
        } else {
            seq![rows.last().0]
        }
    }
}

/// Next step of a scan for the current file.
pub enum FileStep {
    /// The file is unchanged and was skipped; the event reports it.
    Skipped(ScanProgress),
    /// The header of the file at this path must be read (dimensions, then
    /// `ScanSession::prepare_write`).
    Probe(String),
}

struct PendingFile {
    key: String,
    update: bool,
    probe_failed: Option<bool>,
}

/// The state of a scan between the directory walk and the marking of missing rows.
pub struct ScanSession {
    files: Vec<DiskFile>,
    existing: PathIndex<IndexEntry>,
    seen: PathIndex<()>,
    stats: ScanStats,
    base_failed: u64,
    next: usize,
    pending: Option<PendingFile>,
    ok_status: String,
    outcomes: Ghost<Seq<Option<FileOutcome>>>,
}

impl ScanSession {
    pub closed spec fn files(&self) -> Seq<DiskFile> {
        self.files@
    }

    pub closed spec fn existing(&self) -> Map<Seq<char>, IndexEntry> {
        self.existing.view()
    }

    /// The normalised paths met so far.
    pub closed spec fn seen(&self) -> Set<Seq<char>> {
        self.seen.view().dom()
    }

    pub closed spec fn stats(&self) -> ScanStats {
        self.stats
    }

    /// Failures counted before the session started (during the walk).
    pub closed spec fn base_failed(&self) -> u64 {
        self.base_failed
    }

    /// Number of files dealt with.
    pub closed spec fn next(&self) -> nat {
        self.next as nat
    }

    /// For each file dealt with, its outcome, or `None` when its row could not be written.
    pub closed spec fn outcomes(&self) -> Seq<Option<FileOutcome>> {
        self.outcomes@
    }

    /// A file is between `begin_file` and `finish_file`.
    pub closed spec fn in_file(&self) -> bool {
        self.pending is Some
    }

    /// Its row has been prepared.
    pub closed spec fn prepared(&self) -> bool {
        self.pending matches Some(p) && p.probe_failed is Some
    }

    pub closed spec fn wf(&self) -> bool {
        &&& self.files@.len() == self.stats.total
        &&& self.existing.wf()
        &&& self.seen.wf()
        &&& self.next <= self.files@.len()
        &&& self.stats.scanned == self.next
        &&& self.outcomes@.len() == self.next
        &&& self.base_failed + self.files@.len() <= u64::MAX
        &&& forall|i: int|
            0 <= i < self.next ==> (#[trigger] self.outcomes@[i] matches Some(o) ==> o
                == planned_outcome(
                self.existing.view(),
                file_key(self.files@[i]),
                self.files@[i].size,
                self.files@[i].mtime,
            ))
        &&& forall|i: int|
            0 <= i < self.next ==> (#[trigger] self.outcomes@[i] is None ==> planned_outcome(
                self.existing.view(),
                file_key(self.files@[i]),
                self.files@[i].size,
                self.files@[i].mtime,
            ) != FileOutcome::Skipped)
        &&& self.stats.inserted == count_of(self.outcomes@, Some(FileOutcome::Inserted))
        &&& self.stats.updated == count_of(self.outcomes@, Some(FileOutcome::Updated))
        &&& self.stats.skipped == count_of(self.outcomes@, Some(FileOutcome::Skipped))
        &&& self.stats.failed == self.base_failed + count_of(self.outcomes@, None)
        &&& self.stats.probe_failed <= self.stats.inserted + self.stats.updated
        &&& self.stats.missing == 0
        &&& self.ok_status@ == STATUS_OK@
        &&& match self.pending {
            None => self.seen.view().dom() == seen_keys(self.files@, self.next as int),
            Some(p) => {
                &&& self.next < self.files@.len()
                &&& p.key@ == file_key(self.files@[self.next as int])
                &&& p.update == self.existing.view().contains_key(p.key@)
                &&& planned_outcome(
                    self.existing.view(),
                    p.key@,
                    self.files@[self.next as int].size,
                    self.files@[self.next as int].mtime,
                ) != FileOutcome::Skipped
                &&& self.seen.view().dom() == seen_keys(self.files@, self.next + 1)
            },
        }
    }

    /// Starts the per-file phase over the files found on disk, the failures counted
    /// during the walk and the index loaded from the database.
    pub fn new(files: Vec<DiskFile>, failed: u64, existing: PathIndex<IndexEntry>) -> (r: Self)
        requires
            failed + files@.len() <= u64::MAX,
            existing.wf(),
        ensures
            r.wf(),
            !r.in_file(),
            r.files() == files@,
            r.existing() == existing.view(),
            r.next() == 0,
            r.base_failed() == failed,
            r.stats() == (ScanStats { total: files@.len() as u64, failed: failed, ..ScanStats::zero() }),
    {
        let total = files.len() as u64;
        let r = ScanSession {
            files,
            existing,
            seen: PathIndex::new(),
            stats: ScanStats { total, failed, ..ScanStats::default() },
            base_failed: failed,
            next: 0,
            pending: None,
            ok_status: STATUS_OK.to_owned(),
            outcomes: Ghost(Seq::empty()),
        };
        proof {
            assert(r.seen.view().dom() =~= seen_keys(r.files@, 0));
        }
        r
    }

    /// Takes up the next file: `None` when all files are dealt with. An unchanged
    /// file (row with status `ok`, same size and modification time) is skipped at
    /// once; any other file must be probed and its row written.
    pub fn begin_file(&mut self) -> (r: Option<FileStep>)
        requires
            old(self).wf(),
            !old(self).in_file(),
        ensures
            final(self).wf(),
            final(self).files() == old(self).files(),
            final(self).existing() == old(self).existing(),
            final(self).base_failed() == old(self).base_failed(),
            old(self).next() == old(self).files().len() ==> r is None && !final(self).in_file()
                && final(self).next() == old(self).next() && final(self).stats() == old(
                self,
            ).stats() && final(self).outcomes() == old(self).outcomes(),
            old(self).next() < old(self).files().len() ==> {
                let f = old(self).files()[old(self).next() as int];
                let o = planned_outcome(old(self).existing(), file_key(f), f.size, f.mtime);
                &&& final(self).seen() == old(self).seen().insert(file_key(f))
                &&& o == FileOutcome::Skipped ==> {
                    &&& r matches Some(FileStep::Skipped(p))
                    &&& p.phase == ScanPhase::Scanning
                    &&& p.scanned == old(self).next() + 1
                    &&& p.total == old(self).files().len()
                    &&& p.message is None
                    &&& !final(self).in_file()
                    &&& final(self).next() == old(self).next() + 1
                    &&& final(self).outcomes() == old(self).outcomes().push(
                        Some(FileOutcome::Skipped),
                    )
                }
                &&& o != FileOutcome::Skipped ==> {
                    &&& r matches Some(FileStep::Probe(path)) && path@ == f.path@
                    &&& final(self).in_file()
                    &&& !final(self).prepared()
                    &&& final(self).next() == old(self).next()
                    &&& final(self).outcomes() == old(self).outcomes()
                }
            },
    {
        if self.next >= self.files.len() {
            return None;
        }
        let ghost f = self.files@[self.next as int];
        let key = normalize_str(self.files[self.next].path.as_str());
        let key2 = key.clone();
        self.seen.insert(key2, ());
        let size = self.files[self.next].size;
        let mtime = self.files[self.next].mtime;
        let (exists, unchanged) = match self.existing.get(&key) {
            Some(e) => (
                true,
                e.status == self.ok_status && e.file_size == Some(size) && e.mtime == Some(
                    mtime,
                ),
            ),
            None => (false, false),
        };
        proof {
            lemma_count_le(self.outcomes@, Some(FileOutcome::Skipped));
            assert(seen_keys(self.files@, self.next + 1) == seen_keys(self.files@, self.next as int).insert(file_key(f)));
        }
        if unchanged {
            proof {
                self.outcomes@ = self.outcomes@.push(Some(FileOutcome::Skipped));
                lemma_count_push(old(self).outcomes@, Some(FileOutcome::Skipped));
            }
            self.stats.skipped = self.stats.skipped + 1;
            self.next = self.next + 1;
            self.stats.scanned = self.next as u64;
            let p = ScanProgress::scanning(self.stats.scanned, self.stats.total, None);
            Some(FileStep::Skipped(p))
        } else {
            let path = self.files[self.next].path.clone();
            self.pending = Some(PendingFile { key, update: exists, probe_failed: None });
            Some(FileStep::Probe(path))
        }
    }

    /// Whether the probe of the current file failed (set by `prepare_write`).
    pub closed spec fn pending_probe_failed(&self) -> bool {
        self.pending matches Some(p) && p.probe_failed == Some(true)
    }

    /// Whether the current file already has a row (its write is an update).
    pub closed spec fn pending_update(&self) -> bool {
        self.pending matches Some(p) && p.update
    }

    /// The row to write for the current file, given the result of probing it and the
    /// time of the scan. A failed probe still gives a row, without dimensions or format.
    pub fn prepare_write(&mut self, probe: Result<ImageProbe, String>, scanned_at: String) -> (w:
        ImageWrite)
        requires
            old(self).wf(),
            old(self).in_file(),
            !old(self).prepared(),
        ensures
            final(self).wf(),
            final(self).in_file(),
            final(self).prepared(),
            final(self).pending_probe_failed() == probe is Err,
            final(self).pending_update() == old(self).pending_update(),
            final(self).pending_update() == old(self).existing().contains_key(w.path@),
            final(self).files() == old(self).files(),
            final(self).existing() == old(self).existing(),
            final(self).seen() == old(self).seen(),
            final(self).stats() == old(self).stats(),
            final(self).base_failed() == old(self).base_failed(),
            final(self).next() == old(self).next(),
            final(self).outcomes() == old(self).outcomes(),
            write_matches(
                w,
                old(self).files()[old(self).next() as int],
                old(self).pending_update(),
                probe,
                scanned_at@,
            ),
    {
        let (key, update) = match &self.pending {
            Some(p) => (p.key.clone(), p.update),
            None => (String::new(), false),
        };
        let probe_failed = probe.is_err();
        let (width, height, format) = match probe {
            Ok(p) => (Some(p.width as i64), Some(p.height as i64), Some(p.format)),
            Err(_) => (None, None, None),
        };
        let w = ImageWrite {
            update,
            path: key.clone(),
            file_size: self.files[self.next].size,
            mtime: self.files[self.next].mtime,
            width,
            height,
            format,
            status: self.ok_status.clone(),
            scanned_at,
        };
        self.pending = Some(PendingFile { key, update, probe_failed: Some(probe_failed) });
        w
    }

    /// Records the result of writing the current file's row and reports progress.
    /// A written row counts as inserted or updated (and as a failed probe when the
    /// probe failed); a failed write counts as a failure.
    pub fn finish_file(&mut self, result: Result<(), String>) -> (p: ScanProgress)
        requires
            old(self).wf(),
            old(self).prepared(),
        ensures
            final(self).wf(),
            !final(self).in_file(),
            final(self).files() == old(self).files(),
            final(self).existing() == old(self).existing(),
            final(self).seen() == old(self).seen(),
            final(self).base_failed() == old(self).base_failed(),
            final(self).next() == old(self).next() + 1,
            final(self).outcomes() == old(self).outcomes().push(
                match result {
                    Ok(_) => Some(
                        if old(self).pending_update() {
                            FileOutcome::Updated
                        } else {
                            FileOutcome::Inserted
                        },
                    ),
                    Err(_) => None,
                },
            ),
            final(self).stats().probe_failed == old(self).stats().probe_failed + if result is Ok
                && old(self).pending_probe_failed() {
                1int
            } else {
                0int
            },
            p.phase == ScanPhase::Scanning,
            p.scanned == old(self).next() + 1,
            p.total == old(self).files().len(),
            p.message is None,
    {
        let (update, probe_failed) = match &self.pending {
            Some(p) => (p.update, p.probe_failed == Some(true)),
            None => (false, false),
        };
        let n = self.next;
        let len = self.files.len();
        proof {
            assert(self.next < self.files@.len());
            lemma_count_le(self.outcomes@, Some(FileOutcome::Inserted));
            lemma_count_le(self.outcomes@, Some(FileOutcome::Updated));
            lemma_count_le(self.outcomes@, None);
            lemma_count_sum(self.outcomes@);
        }
        match result {
            Ok(_) => {
                if update {
                    proof {
                        self.outcomes@ = self.outcomes@.push(Some(FileOutcome::Updated));
                        lemma_count_push(old(self).outcomes@, Some(FileOutcome::Updated));
                    }
                    self.stats.updated = self.stats.updated + 1;
                } else {
                    proof {
                        self.outcomes@ = self.outcomes@.push(Some(FileOutcome::Inserted));
                        lemma_count_push(old(self).outcomes@, Some(FileOutcome::Inserted));
                    }
                    self.stats.inserted = self.stats.inserted + 1;
                }
                if probe_failed {
                    self.stats.probe_failed = self.stats.probe_failed + 1;
                }
            },
            Err(_) => {
                proof {
                    self.outcomes@ = self.outcomes@.push(None);
                    lemma_count_push(old(self).outcomes@, None);
                }
                self.stats.failed = self.stats.failed + 1;
            },
        }
        self.pending = None;
        assert(n < len);
        self.next = n + 1;
        self.stats.scanned = self.next as u64;
        ScanProgress::scanning(self.stats.scanned, self.stats.total, None)
    }

    /// Of the rows `(id, path)` not marked missing, the ids of those whose normalised
    /// path was not met on disk, in order: the rows to mark missing.
    pub fn missing_ids(&self, rows: &Vec<(i64, String)>) -> (r: Vec<i64>)
        requires
            self.wf(),
            !self.in_file(),
        ensures
            r@ == missing_rows(rows@, self.seen()),
            forall|x: i64|
                r@.contains(x) <==> exists|j: int|
                    0 <= j < rows@.len() && #[trigger] rows@[j].0 == x && !self.seen().contains(
                        spec_normalize(rows@[j].1@),
                    ),
    {
        let mut out: Vec<i64> = Vec::new();
        let mut i: usize = 0;
        while i < rows.len()
            invariant
                i <= rows.len(),
                self.wf(),
                out@ == missing_rows(rows@.take(i as int), self.seen()),
            decreases rows.len() - i,
        {
            let key = normalize_str(rows[i].1.as_str());
            let seen = self.seen.contains_key(&key);
            if !seen {
                out.push(rows[i].0);
            }
            proof {
                assert(rows@.take(i + 1).drop_last() =~= rows@.take(i as int));
                assert(out@ =~= missing_rows(rows@.take(i + 1), self.seen()));
            }
            i = i + 1;
        }
        proof {
            assert(rows@.take(rows.len() as int) =~= rows@);
            lemma_missing_rows_members(rows@, self.seen());
        }
        out
    }

    /// Ends the scan once every file is dealt with and `missing` rows were marked:
    /// the final counters and the `Done` event.
    pub fn finish(self, missing: u64) -> (r: (ScanStats, ScanProgress))
        requires
            self.wf(),
            !self.in_file(),
            self.next() == self.files().len(),
        ensures
            r.0 == (ScanStats { missing: missing, ..self.stats() }),
            r.0.scanned == r.0.total,
            r.1.phase == ScanPhase::Done,
            r.1.scanned == r.0.total,
            r.1.total == r.0.total,
            r.1.message matches Some(m) && m@ == done_message(r.0),
    {
        let mut stats = self.stats;
        stats.missing = missing;
        let p = ScanProgress::done(&stats);
        (stats, p)
    }

    /// A finished session (every file dealt with) has decided each file as its index
    /// row says, counted every file exactly once, and met exactly the normalised
    /// paths of the files on disk; `missing_ids` then selects the rows whose
    /// normalised path is none of them.
    pub proof fn lemma_scan_complete(&self)
        requires
            self.wf(),
            !self.in_file(),
            self.next() == self.files().len(),
        ensures
            self.stats().scanned == self.stats().total,
            self.stats().inserted + self.stats().updated + self.stats().skipped + (
            self.stats().failed - self.base_failed()) == self.stats().total,
            forall|i: int|
                0 <= i < self.files().len() ==> (#[trigger] self.outcomes()[i] matches Some(o) ==> o
                    == planned_outcome(
                    self.existing(),
                    file_key(self.files()[i]),
                    self.files()[i].size,
                    self.files()[i].mtime,
                )),
            forall|k: Seq<char>|
                #![trigger self.seen().contains(k)]
                self.seen().contains(k) <==> exists|j: int|
                    0 <= j < self.files().len() && #[trigger] file_key(self.files()[j]) == k,
    {
        self.lemma_consistent();
        assert forall|k: Seq<char>|
            #![trigger self.seen().contains(k)]
            self.seen().contains(k) <==> exists|j: int|
                0 <= j < self.files().len() && #[trigger] file_key(self.files()[j]) == k by {
            lemma_seen_keys(self.files(), self.files().len() as int, k);
        }
    }

    /// Rescanning a library where nothing changed writes nothing: when every file found
    /// has a row that says it is present with the same size and modification time, and
    /// every row's path is one of these files, a finished session has skipped every
    /// file (nothing inserted, updated or failed) and marks no row missing.
    pub proof fn lemma_unchanged_rescan(&self, rows: Seq<(i64, String)>)
        requires
            self.wf(),
            !self.in_file(),
            self.next() == self.files().len(),
            forall|i: int|
                0 <= i < self.files().len() ==> self.existing().contains_key(
                    #[trigger] file_key(self.files()[i]),
                ) && entry_unchanged(
                    self.existing()[file_key(self.files()[i])],
                    self.files()[i].size,
                    self.files()[i].mtime,
                ),
            forall|j: int|
                0 <= j < rows.len() ==> exists|i: int|
                    0 <= i < self.files().len() && #[trigger] file_key(self.files()[i])
                        == spec_normalize(#[trigger] rows[j].1@),
        ensures
            self.stats().inserted == 0,
            self.stats().updated == 0,
            self.stats().skipped == self.stats().total,
            self.stats().failed == self.base_failed(),
            self.stats().probe_failed == 0,
            missing_rows(rows, self.seen()) == Seq::<i64>::empty(),
    {
        let outs = self.outcomes@;
        assert forall|i: int| 0 <= i < outs.len() implies #[trigger] outs[i] == Some(
            FileOutcome::Skipped,
        ) by {
            let k = file_key(self.files@[i]);
            assert(planned_outcome(self.existing.view(), k, self.files@[i].size, self.files@[i].mtime)
                == FileOutcome::Skipped);
        }
        lemma_count_all_skipped(outs);
        lemma_count_sum(outs);
        assert forall|j: int| 0 <= j < rows.len() implies self.seen().contains(
            spec_normalize(#[trigger] rows[j].1@),
        ) by {
            let i = choose|i: int|
                0 <= i < self.files().len() && #[trigger] file_key(self.files()[i])
                    == spec_normalize(rows[j].1@);
            lemma_seen_keys(self.files@, self.next as int, spec_normalize(rows[j].1@));
        }
        lemma_missing_rows_none(rows, self.seen());
    }

    /// After the whole scan, a row is marked missing exactly when no file found on disk
    /// has its normalised path: `missing_ids` gives the id of every such row, and of no
    /// other.
    pub proof fn lemma_missing_means_vanished(&self, rows: Seq<(i64, String)>, x: i64)
        requires
            self.wf(),
            !self.in_file(),
            self.next() == self.files().len(),
        ensures
            missing_rows(rows, self.seen()).contains(x) <==> exists|j: int|
                0 <= j < rows.len() && #[trigger] rows[j].0 == x && !exists|i: int|
                    0 <= i < self.files().len() && #[trigger] file_key(self.files()[i])
                        == spec_normalize(rows[j].1@),
    {
        lemma_missing_rows_members(rows, self.seen());
        assert forall|j: int| 0 <= j < rows.len() implies (self.seen().contains(
            spec_normalize(#[trigger] rows[j].1@),
        ) <==> exists|i: int|
            0 <= i < self.files().len() && #[trigger] file_key(self.files()[i]) == spec_normalize(
                rows[j].1@,
            )) by {
            lemma_seen_keys(self.files@, self.next as int, spec_normalize(rows[j].1@));
        }
        if missing_rows(rows, self.seen()).contains(x) {
            let j = choose|j: int|
                0 <= j < rows.len() && #[trigger] rows[j].0 == x && !self.seen().contains(
                    spec_normalize(rows[j].1@),
                );
            assert(self.seen().contains(spec_normalize(rows[j].1@)) <==> exists|i: int|
                0 <= i < self.files().len() && #[trigger] file_key(self.files()[i]) == spec_normalize(
                    rows[j].1@,
                ));
        }
        if exists|j: int|
            0 <= j < rows.len() && #[trigger] rows[j].0 == x && !exists|i: int|
                0 <= i < self.files().len() && #[trigger] file_key(self.files()[i])
                    == spec_normalize(rows[j].1@) {
            let j = choose|j: int|
                0 <= j < rows.len() && #[trigger] rows[j].0 == x && !exists|i: int|
                    0 <= i < self.files().len() && #[trigger] file_key(self.files()[i])
                        == spec_normalize(rows[j].1@);
            assert(self.seen().contains(spec_normalize(rows[j].1@)) <==> exists|i: int|
                0 <= i < self.files().len() && #[trigger] file_key(self.files()[i]) == spec_normalize(
                    rows[j].1@,
                ));
        }
    }

    /// What a well-formed session guarantees: every file dealt with was decided as
    /// the index says (`planned_outcome`), the counters add up to the files dealt
    /// with, and outside a file the paths met are exactly those of these files.
    pub proof fn lemma_consistent(&self)
        requires
            self.wf(),
        ensures
            self.stats().total == self.files().len(),
            self.stats().scanned == self.next(),
            self.next() <= self.files().len(),
            self.outcomes().len() == self.next(),
            forall|i: int|
                0 <= i < self.next() ==> (#[trigger] self.outcomes()[i] matches Some(o) ==> o
                    == planned_outcome(
                    self.existing(),
                    file_key(self.files()[i]),
                    self.files()[i].size,
                    self.files()[i].mtime,
                )),
            self.stats().inserted == count_of(self.outcomes(), Some(FileOutcome::Inserted)),
            self.stats().updated == count_of(self.outcomes(), Some(FileOutcome::Updated)),
            self.stats().skipped == count_of(self.outcomes(), Some(FileOutcome::Skipped)),
            self.stats().failed == self.base_failed() + count_of(self.outcomes(), None),
            self.stats().inserted + self.stats().updated + self.stats().skipped + (
            self.stats().failed - self.base_failed()) == self.next(),
            self.stats().probe_failed <= self.stats().inserted + self.stats().updated,
            !self.in_file() ==> self.seen() == seen_keys(self.files(), self.next() as int),
    {
        lemma_count_sum(self.outcomes@);
    }
}


pub proof fn lemma_normalize_idempotent(s: Seq<char>)
    ensures
        spec_normalize(spec_normalize(s)) == spec_normalize(s),
{
    assert(spec_normalize(spec_normalize(s)) =~= spec_normalize(s));
}

/// Rescanning an unchanged file skips it: once the row written for file `f` is read
/// back (as the last row for its path), the file is planned as skipped.
pub proof fn lemma_rescan_skips_written(
    rows: Seq<IndexRow>,
    w: ImageWrite,
    f: DiskFile,
    update: bool,
    probe: Result<ImageProbe, String>,
    scanned_at: Seq<char>,
    row: IndexRow,
)
    requires
        write_matches(w, f, update, probe, scanned_at),
        row.path@ == w.path@,
        row.file_size == Some(w.file_size),
        row.mtime == Some(w.mtime),
        row.status@ == w.status@,
    ensures
        planned_outcome(index_of_rows(rows.push(row)), file_key(f), f.size, f.mtime)
            == FileOutcome::Skipped,
{
    lemma_normalize_idempotent(f.path@);
    assert(rows.push(row).drop_last() =~= rows);
}

/// A file whose row is marked missing is updated, which restores its status to `ok`.
pub proof fn lemma_missing_entry_is_restored(
    index: Map<Seq<char>, IndexEntry>,
    f: DiskFile,
    w: ImageWrite,
    probe: Result<ImageProbe, String>,
    scanned_at: Seq<char>,
)
    requires
        index.contains_key(file_key(f)),
        index[file_key(f)].status@ == STATUS_MISSING@,
        write_matches(w, f, true, probe, scanned_at),
    ensures
        planned_outcome(index, file_key(f), f.size, f.mtime) == FileOutcome::Updated,
        w.status@ == STATUS_OK@,
{
    reveal_strlit("ok");
    reveal_strlit("missing");
    assert(STATUS_OK@.len() != STATUS_MISSING@.len());
}

/// A file whose size or modification time differs from its row is updated.
pub proof fn lemma_changed_file_is_updated(
    index: Map<Seq<char>, IndexEntry>,
    key: Seq<char>,
    size: i64,
    mtime: i64,
)
    requires
        index.contains_key(key),
        index[key].file_size != Some(size) || index[key].mtime != Some(mtime),
    ensures
        planned_outcome(index, key, size, mtime) == FileOutcome::Updated,
{
}

/// A file with no row is inserted.
pub proof fn lemma_new_file_is_inserted(
    index: Map<Seq<char>, IndexEntry>,
    key: Seq<char>,
    size: i64,
    mtime: i64,
)
    requires
        !index.contains_key(key),
    ensures
        planned_outcome(index, key, size, mtime) == FileOutcome::Inserted,
{
}

/// The paths met are the normalised paths of the files dealt with: a row is marked
/// missing exactly when no such file has its normalised path.
pub proof fn lemma_seen_keys(files: Seq<DiskFile>, n: int, k: Seq<char>)
    requires
        0 <= n <= files.len(),
    ensures
        seen_keys(files, n).contains(k) <==> exists|j: int|
            0 <= j < n && #[trigger] file_key(files[j]) == k,
    decreases n,
{
    if n > 0 {
        lemma_seen_keys(files, n - 1, k);
        if file_key(files[n - 1]) == k {
            assert(file_key(files[n - 1]) == k);
        }
    }
}

proof fn lemma_count_all_skipped(s: Seq<Option<FileOutcome>>)
    requires
        forall|i: int| 0 <= i < s.len() ==> #[trigger] s[i] == Some(FileOutcome::Skipped),
    ensures
        count_of(s, Some(FileOutcome::Skipped)) == s.len(),
    decreases s.len(),
{
    if s.len() > 0 {
        lemma_count_all_skipped(s.drop_last());
        assert(s.last() == s[s.len() - 1]);
    }
}

proof fn lemma_missing_rows_none(rows: Seq<(i64, String)>, seen: Set<Seq<char>>)
    requires
        forall|j: int| 0 <= j < rows.len() ==> seen.contains(spec_normalize(#[trigger] rows[j].1@)),
    ensures
        missing_rows(rows, seen) == Seq::<i64>::empty(),
    decreases rows.len(),
{
    if rows.len() > 0 {
        let r = rows.drop_last();
        assert forall|j: int| 0 <= j < r.len() implies seen.contains(spec_normalize(#[trigger] r[j].1@)) by {
            assert(r[j] == rows[j]);
        }
        lemma_missing_rows_none(r, seen);
        assert(seen.contains(spec_normalize(rows[rows.len() - 1].1@)));
        assert(missing_rows(rows, seen) =~= Seq::<i64>::empty());
    }
}

/// The rows marked missing are the ids of exactly the rows whose normalised path was
/// not met, every row examined.
pub proof fn lemma_missing_rows_members(rows: Seq<(i64, String)>, seen: Set<Seq<char>>)
    ensures
        forall|x: i64|
            missing_rows(rows, seen).contains(x) <==> exists|j: int|
                0 <= j < rows.len() && #[trigger] rows[j].0 == x && !seen.contains(
                    spec_normalize(rows[j].1@),
                ),
    decreases rows.len(),
{
    if rows.len() > 0 {
        let r = rows.drop_last();
        let last = rows[rows.len() - 1];
        lemma_missing_rows_members(r, seen);
        let tail = if seen.contains(spec_normalize(last.1@)) {
            Seq::<i64>::empty()
        } else {
            seq![last.0]
        };
        assert(missing_rows(rows, seen) == missing_rows(r, seen) + tail);
        assert forall|x: i64|
            missing_rows(rows, seen).contains(x) <==> exists|j: int|
                0 <= j < rows.len() && #[trigger] rows[j].0 == x && !seen.contains(
                    spec_normalize(rows[j].1@),
                ) by {
            let m = missing_rows(r, seen);
            if missing_rows(rows, seen).contains(x) {
                let p = choose|p: int| 0 <= p < (m + tail).len() && (m + tail)[p] == x;
                if p < m.len() {
                    assert(m[p] == x);
                    assert(m.contains(x));
                    let j = choose|j: int|
                        0 <= j < r.len() && #[trigger] r[j].0 == x && !seen.contains(
                            spec_normalize(r[j].1@),
                        );
                    assert(rows[j] == r[j]);
                } else {
                    assert(rows[rows.len() - 1].0 == x);
                }
            }
            if exists|j: int|
                0 <= j < rows.len() && #[trigger] rows[j].0 == x && !seen.contains(
                    spec_normalize(rows[j].1@),
                ) {
                let j = choose|j: int|
                    0 <= j < rows.len() && #[trigger] rows[j].0 == x && !seen.contains(
                        spec_normalize(rows[j].1@),
                    );
                if j < r.len() {
                    assert(r[j] == rows[j]);
                    assert(m.contains(x));
                    let p = choose|p: int| 0 <= p < m.len() && m[p] == x;
                    assert((m + tail)[p] == x);
                } else {
                    assert((m + tail)[m.len() as int] == x);
                }
            }
        }
    }
}

proof fn lemma_count_le(s: Seq<Option<FileOutcome>>, o: Option<FileOutcome>)
    ensures
        count_of(s, o) <= s.len(),
    decreases s.len(),
{
    if s.len() > 0 {
        lemma_count_le(s.drop_last(), o);
    }
}

proof fn lemma_count_sum(s: Seq<Option<FileOutcome>>)
    ensures
        count_of(s, Some(FileOutcome::Inserted)) + count_of(s, Some(FileOutcome::Updated))
            + count_of(s, Some(FileOutcome::Skipped)) + count_of(s, None) == s.len(),
    decreases s.len(),
{
    if s.len() > 0 {
        lemma_count_sum(s.drop_last());
        let x = s.last();
        assert(x == None::<FileOutcome> || x == Some(FileOutcome::Inserted) || x == Some(
            FileOutcome::Updated,
        ) || x == Some(FileOutcome::Skipped)) by {
            match x {
                None => {},
                Some(o) => match o {
                    FileOutcome::Inserted => {},
                    FileOutcome::Updated => {},
                    FileOutcome::Skipped => {},
                },
            }
        }
    }
}

proof fn lemma_count_push(s: Seq<Option<FileOutcome>>, o: Option<FileOutcome>)
    ensures
        forall|x: Option<FileOutcome>|
            #[trigger] count_of(s.push(o), x) == count_of(s, x) + if x == o {
                1nat
            } else {
                0nat
            },
{
    assert forall|x: Option<FileOutcome>|
        #[trigger] count_of(s.push(o), x) == count_of(s, x) + if x == o {
            1nat
        } else {
            0nat
        } by {
        assert(s.push(o).drop_last() =~= s);
    }
}

} // verus!
