//! The scan engine.
//!
//! A scan runs over a snapshot of a directory tree: the sequence of walk
//! entries, each carrying the entry's path, its metadata (when readable)
//! and, for regular files, the read outcome of its contents.  The caller
//! enumerates the tree and reads the files; the engine does everything
//! else: a size pre-pass, per-file hashing, false-positive suppression,
//! signature lookups, progress accounting and early-stop handling.
//!
//! The expected outcome of a scan is pinned down by the `scan_fold`
//! specification, a fold over the entries in walk order.

use crate::digest::{is_digest, md5_hex, md5_hex_of};
use crate::progress::{percent_of, rounded_pct, send_progress};
use crate::store::{contains_string, SignatureStore};
use vstd::prelude::*;

verus! {

/// Failures that abort a whole scan job.
#[derive(Debug, Clone, PartialEq, Eq)]
pub enum ScanError {
    /// The requested scan root does not exist; nothing was scanned.
    PathInvalid,
    /// The size pre-pass could not establish a total (unreadable metadata,
    /// or a total beyond the machine's range); no partial scan is made,
    /// since percentages would be meaningless without a denominator.
    SizeUnavailable,
    /// The pre-pass total is zero: an empty tree cannot produce a
    /// meaningful percentage, so this is an error, not a clean result.
    FolderSizeZero,
}

impl ScanError {
    /// A human-readable rendering, the only error surface promised to
    /// callers outside this crate.
    pub fn message(&self) -> (m: String)
        ensures
            self is PathInvalid ==> m@ == "invalid path"@,
            self is SizeUnavailable ==> m@ == "can't get folder size"@,
            self is FolderSizeZero ==> m@ == "calculated folder size is 0"@,
    {
        match self {
            ScanError::PathInvalid => "invalid path".to_owned(),
            ScanError::SizeUnavailable => "can't get folder size".to_owned(),
            ScanError::FolderSizeZero => "calculated folder size is 0".to_owned(),
        }
    }
}

/// The read outcome for a regular file's contents.
pub enum FileContent {
    /// The file's full byte stream.
    Data(Vec<u8>),
    /// The file could not be opened or read; it is skipped, not fatal.
    Unreadable,
}

/// Metadata of one walk entry.
pub struct FileMeta {
    /// Whether the entry resolves to a regular file; directories and
    /// symlinks to directories are walked but never hashed.
    pub is_file: bool,
    /// The entry's byte length as the metadata reports it.
    pub size: u64,
    /// The contents, for a regular file.
    pub content: FileContent,
}

/// One entry of the walk, in walk order.
pub struct ScanEntry {
    pub path: String,
    /// `None` when the entry's metadata could not be read, which aborts
    /// the size pre-pass.
    pub meta: Option<FileMeta>,
}

impl ScanEntry {
    /// A readable regular file with the given contents.
    pub fn file(path: String, data: Vec<u8>) -> (e: ScanEntry)
        ensures
            e.path == path,
            e.meta matches Some(m) && m.is_file && m.size == data@.len() && m.content
                == FileContent::Data(data),
    {
        let size = data.len() as u64;
        ScanEntry { path, meta: Some(FileMeta { is_file: true, size, content: FileContent::Data(data) }) }
    }

    /// A regular file whose metadata was readable but whose contents were
    /// not.
    pub fn unreadable_file(path: String, size: u64) -> (e: ScanEntry)
        ensures
            e.path == path,
            e.meta matches Some(m) && m.is_file && m.size == size && m.content
                == FileContent::Unreadable,
    {
        ScanEntry { path, meta: Some(FileMeta { is_file: true, size, content: FileContent::Unreadable }) }
    }

    /// A walked entry that is not a regular file (a directory, or a
    /// symlink to one).
    pub fn directory(path: String) -> (e: ScanEntry)
        ensures
            e.path == path,
            e.meta matches Some(m) && !m.is_file,
    {
        ScanEntry { path, meta: Some(FileMeta { is_file: false, size: 0, content: FileContent::Unreadable }) }
    }

    /// An entry whose metadata could not be read.
    pub fn unknown(path: String) -> (e: ScanEntry)
        ensures
            e.path == path,
            e.meta is None,
    {
        ScanEntry { path, meta: None }
    }
}

/// Every entry's metadata could be read: the precondition for a
/// meaningful size pre-pass.
pub open spec fn meta_all_known(s: Seq<ScanEntry>) -> bool {
    forall|i: int| 0 <= i < s.len() ==> (#[trigger] s[i].meta) is Some
}

/// What one entry contributes to the pre-pass total: a regular file's
/// byte length, else nothing.
pub open spec fn entry_size(e: ScanEntry) -> int {
    match e.meta {
        Some(m) => if m.is_file {
            m.size as int
        } else {
            0
        },
        None => 0,
    }
}

/// The pre-pass total: the summed byte length of every regular file in
/// the snapshot.
pub open spec fn total_size(s: Seq<ScanEntry>) -> int
    decreases s.len(),
{
    if s.len() == 0 {
        0
    } else {
        total_size(s.drop_last()) + entry_size(s.last())
    }
}

/// What hashing one file yields: `None` when the file is empty or
/// unreadable, or when its digest is on the false-positive list (all
/// three are "skipped"); otherwise the digest.
pub open spec fn digest_outcome(fps: Seq<Seq<char>>, content: FileContent) -> Option<Seq<char>> {
    match content {
        FileContent::Unreadable => None,
        FileContent::Data(d) => if d@.len() == 0 {
            None
        } else if fps.contains(md5_hex(d@)) {
            None
        } else {
            Some(md5_hex(d@))
        },
    }
}

/// The state of one scan job as it walks the snapshot.
pub struct ScanState {
    /// Paths of matched files, in walk-encounter order.
    pub matches: Seq<Seq<char>>,
    /// The percentages pushed through the progress channel, in order.
    pub emitted: Seq<int>,
    /// Files hashed so far.
    pub analysed: int,
    /// Files skipped so far (empty, unreadable, or false positives).
    pub skipped: int,
    /// Bytes accounted so far.
    pub scanned: int,
    /// The last reported percentage, if any was reported yet.
    pub last: Option<int>,
    /// Whether an early stop was triggered.
    pub stopped: bool,
}

/// The state before any entry is processed.
pub open spec fn scan_init() -> ScanState {
    ScanState {
        matches: Seq::empty(),
        emitted: Seq::empty(),
        analysed: 0,
        skipped: 0,
        scanned: 0,
        last: None,
        stopped: false,
    }
}

/// Processing of one regular file: hash it, account its size, report
/// progress when the rounded percentage moved, and consult the signature
/// set unless hashing skipped the file.
pub open spec fn scan_step(
    store: Set<Seq<char>>,
    fps: Seq<Seq<char>>,
    total: int,
    stop: bool,
    st: ScanState,
    path: Seq<char>,
    m: FileMeta,
) -> ScanState {
    let h = digest_outcome(fps, m.content);
    let scanned = st.scanned + m.size;
    let pct = rounded_pct(scanned, total);
    let matched = h matches Some(d) && store.contains(d);
    ScanState {
        matches: if matched {
            st.matches.push(path)
        } else {
            st.matches
        },
        emitted: if st.last != Some(pct) {
            st.emitted.push(pct)
        } else {
            st.emitted
        },
        analysed: if h is Some {
            st.analysed + 1
        } else {
            st.analysed
        },
        skipped: if h is None {
            st.skipped + 1
        } else {
            st.skipped
        },
        scanned,
        last: Some(pct),
        stopped: matched && stop,
    }
}

/// Processing of one walk entry: only regular files do anything, and a
/// stopped job stays as it is.
pub open spec fn scan_entry_step(
    store: Set<Seq<char>>,
    fps: Seq<Seq<char>>,
    total: int,
    stop: bool,
    st: ScanState,
    e: ScanEntry,
) -> ScanState {
    if st.stopped {
        st
    } else {
        match e.meta {
            Some(m) => if m.is_file {
                scan_step(store, fps, total, stop, st, e.path@, m)
            } else {
                st
            },
            None => st,
        }
    }
}

/// The outcome of a whole scan job: the fold of `scan_entry_step` over
/// the snapshot in walk order.
pub open spec fn scan_fold(
    store: Set<Seq<char>>,
    fps: Seq<Seq<char>>,
    total: int,
    stop: bool,
    s: Seq<ScanEntry>,
) -> ScanState
    decreases s.len(),
{
    if s.len() == 0 {
        scan_init()
    } else {
        scan_entry_step(
            store,
            fps,
            total,
            stop,
            scan_fold(store, fps, total, stop, s.drop_last()),
            s.last(),
        )
    }
}

/// Maps reported percentages into the mathematical state.
pub open spec fn seq_u32_int(s: Seq<u32>) -> Seq<int> {
    s.map_values(|x: u32| x as int)
}

/// Maps the last reported percentage into the mathematical state.
pub open spec fn opt_pct_int(o: Option<u32>) -> Option<int> {
    match o {
        Some(p) => Some(p as int),
        None => None,
    }
}

/// A total never sums below zero.
pub proof fn lemma_total_size_nonneg(s: Seq<ScanEntry>)
    ensures
        0 <= total_size(s),
    decreases s.len(),
{
    if s.len() > 0 {
        lemma_total_size_nonneg(s.drop_last());
    }
}

/// A prefix of the snapshot never sums to more than a longer prefix.
pub proof fn lemma_total_size_take_le(s: Seq<ScanEntry>, i: int, j: int)
    requires
        0 <= i <= j <= s.len(),
    ensures
        total_size(s.take(i)) <= total_size(s.take(j)),
    decreases j - i,
{
    if i < j {
        lemma_total_size_take_le(s, i, j - 1);
        assert(s.take(j).drop_last() =~= s.take(j - 1));
        assert(total_size(s.take(j)) == total_size(s.take(j - 1)) + entry_size(s[j - 1]));
    }
}

/// What a job's byte account can be: never more than the snapshot's
/// total, and exactly the total when the job was not stopped early.
pub proof fn lemma_fold_scanned(
    store: Set<Seq<char>>,
    fps: Seq<Seq<char>>,
    total: int,
    stop: bool,
    s: Seq<ScanEntry>,
)
    ensures
        0 <= scan_fold(store, fps, total, stop, s).scanned <= total_size(s),
        !scan_fold(store, fps, total, stop, s).stopped ==> scan_fold(
            store,
            fps,
            total,
            stop,
            s,
        ).scanned == total_size(s),
    decreases s.len(),
{
    if s.len() > 0 {
        lemma_fold_scanned(store, fps, total, stop, s.drop_last());
        lemma_total_size_nonneg(s.drop_last());
    }
}

/// File counts: every processed file is either analysed or skipped, and
/// no more files are processed than the snapshot holds.
pub proof fn lemma_fold_counts(
    store: Set<Seq<char>>,
    fps: Seq<Seq<char>>,
    total: int,
    stop: bool,
    s: Seq<ScanEntry>,
)
    ensures
        0 <= scan_fold(store, fps, total, stop, s).analysed,
        0 <= scan_fold(store, fps, total, stop, s).skipped,
        scan_fold(store, fps, total, stop, s).analysed + scan_fold(
            store,
            fps,
            total,
            stop,
            s,
        ).skipped <= s.len(),
    decreases s.len(),
{
    if s.len() > 0 {
        lemma_fold_counts(store, fps, total, stop, s.drop_last());
    }
}

/// Once a job has stopped, the remaining entries change nothing.
pub proof fn lemma_fold_stopped_extend(
    store: Set<Seq<char>>,
    fps: Seq<Seq<char>>,
    total: int,
    stop: bool,
    s: Seq<ScanEntry>,
    i: int,
)
    requires
        0 <= i <= s.len(),
        scan_fold(store, fps, total, stop, s.take(i)).stopped,
    ensures
        scan_fold(store, fps, total, stop, s) == scan_fold(store, fps, total, stop, s.take(i)),
    decreases s.len() - i,
{
    if i < s.len() {
        assert(s.take(i + 1).drop_last() =~= s.take(i));
        assert(scan_fold(store, fps, total, stop, s.take(i + 1)) == scan_fold(
            store,
            fps,
            total,
            stop,
            s.take(i),
        ));
        lemma_fold_stopped_extend(store, fps, total, stop, s, i + 1);
    } else {
        assert(s.take(i) =~= s);
    }
}

/// The scanner: walks a snapshot of a directory tree, hashes every
/// regular file, consults the signature store, and reports matches and
/// progress.
pub struct FileScanner {
    /// The signature store the scanner queries.
    pub store: SignatureStore,
    /// Paths of files identified as malicious, in walk-encounter order.
    pub dirty_files: Vec<String>,
    /// The root the snapshot was taken of.
    pub scanloc: String,
    /// Digests known to be benign; a file hashing to one of these is
    /// skipped before the store is ever consulted.
    pub false_positive: Vec<String>,
    /// The pre-pass total for the current job, in bytes.
    pub folder_size: u64,
    /// Bytes accounted so far in the current job.
    pub scanned_size: u64,
    /// The last reported percentage, if any.
    pub last_percentage: Option<u32>,
    /// Files hashed in the current job.
    pub analysed: u64,
    /// Files skipped in the current job.
    pub skipped: u64,
    /// Percentages reported by the current job, in order.
    pub emitted: Vec<u32>,
    /// The send side of the progress channel, when a consumer listens.
    pub sender: Option<flume::Sender<u32>>,
}

/// The built-in false-positive list.
pub open spec fn default_false_positives() -> Seq<Seq<char>> {
    seq!["7dea362b3fac8e00956a4952a3d4f474"@, "81051bcc2cf1bedf378224b0a93e2877"@]
}

impl FileScanner {
    pub open spec fn spec_folder_size(&self) -> int {
        self.folder_size as int
    }

    pub open spec fn spec_scanned_size(&self) -> int {
        self.scanned_size as int
    }

    pub open spec fn analysed_spec(&self) -> int {
        self.analysed as int
    }

    pub open spec fn skipped_spec(&self) -> int {
        self.skipped as int
    }

    pub open spec fn emitted_spec(&self) -> Seq<u32> {
        self.emitted@
    }

    pub open spec fn last_pct_spec(&self) -> Option<u32> {
        self.last_percentage
    }

    pub open spec fn sender_spec(&self) -> Option<flume::Sender<u32>> {
        self.sender
    }

    /// Creates a scanner over the given root.  The caller, who owns the
    /// filesystem boundary, reports whether the root exists; a missing
    /// root fails fast with `PathInvalid` before any work begins.
    pub fn new(
        scanloc: String,
        root_exists: bool,
        store: SignatureStore,
        sender: Option<flume::Sender<u32>>,
    ) -> (r: Result<FileScanner, ScanError>)
        ensures
            root_exists <==> r is Ok,
            !root_exists ==> r == Err::<FileScanner, ScanError>(ScanError::PathInvalid),
            r matches Ok(fs) ==> {
                &&& fs.store == store
                &&& fs.scanloc == scanloc
                &&& fs.dirty_files.deep_view() == Seq::<Seq<char>>::empty()
                &&& fs.false_positive.deep_view() == default_false_positives()
                &&& fs.spec_scanned_size() == 0
                &&& fs.analysed_spec() == 0
                &&& fs.skipped_spec() == 0
                &&& fs.emitted_spec() == Seq::<u32>::empty()
                &&& fs.last_pct_spec() is None
                &&& fs.sender_spec() == sender
            },
    {
        if !root_exists {
            return Err(ScanError::PathInvalid);
        }
        let mut false_positive: Vec<String> = Vec::new();
        false_positive.push("7dea362b3fac8e00956a4952a3d4f474".to_owned());
        false_positive.push("81051bcc2cf1bedf378224b0a93e2877".to_owned());
        let fs = FileScanner {
            store,
            dirty_files: Vec::new(),
            scanloc,
            false_positive,
            folder_size: 0,
            scanned_size: 0,
            last_percentage: None,
            analysed: 0,
            skipped: 0,
            emitted: Vec::new(),
            sender,
        };
        proof {
            assert(fs.false_positive.deep_view() =~= default_false_positives());
            assert(fs.dirty_files.deep_view() =~= Seq::<Seq<char>>::empty());
            assert(fs.emitted_spec() =~= Seq::<u32>::empty());
        }
        Ok(fs)
    }

    /// Hashes one file's contents.  Yields `None` for an unreadable or
    /// empty file and for a digest on the false-positive list — all
    /// treated as "skipped" — and the digest otherwise.
    pub fn create_hash(&self, content: &FileContent) -> (r: Option<String>)
        ensures
            r.deep_view() == digest_outcome(self.false_positive.deep_view(), *content),
            r matches Some(h) ==> is_digest(h@),
    {
        match content {
            FileContent::Unreadable => None,
            FileContent::Data(d) => {
                if d.len() == 0 {
                    None
                } else {
                    let hex = md5_hex_of(d.as_slice());
                    if contains_string(&self.false_positive, &hex) {
                        None
                    } else {
                        Some(hex)
                    }
                }
            },
        }
    }

    /// The size pre-pass: sums the byte length of every regular file in
    /// the snapshot.  Unreadable metadata anywhere, or a total beyond the
    /// machine's range, aborts with `SizeUnavailable`.
    fn get_folder_size(&mut self, entries: &Vec<ScanEntry>) -> (r: Result<u64, ScanError>)
        ensures
            (meta_all_known(entries@) && total_size(entries@) <= u64::MAX) <==> r is Ok,
            r matches Ok(t) ==> {
                &&& t == total_size(entries@)
                &&& *final(self) == (FileScanner { folder_size: t, ..*old(self) })
            },
            r is Err ==> r == Err::<u64, ScanError>(ScanError::SizeUnavailable) && *final(self)
                == *old(self),
    {
        let mut total: u64 = 0;
        let mut i: usize = 0;
        proof {
            assert(entries@.take(0) =~= Seq::<ScanEntry>::empty());
        }
        while i < entries.len()
            invariant
                0 <= i <= entries@.len(),
                total == total_size(entries@.take(i as int)),
                forall|j: int| 0 <= j < i ==> (#[trigger] entries@[j].meta) is Some,
                *self == *old(self),
            decreases entries@.len() - i,
        {
            let e = &entries[i];
            proof {
                assert(entries@.take(i + 1).drop_last() =~= entries@.take(i as int));
            }
            match &e.meta {
                None => {
                    proof {
                        assert(!meta_all_known(entries@));
                    }
                    return Err(ScanError::SizeUnavailable);
                },
                Some(m) => {
                    if m.is_file {
                        match total.checked_add(m.size) {
                            Some(t) => {
                                total = t;
                            },
                            None => {
                                proof {
                                    lemma_total_size_take_le(entries@, i + 1, entries@.len() as int);
                                    assert(entries@.take(entries@.len() as int) =~= entries@);
                                }
                                return Err(ScanError::SizeUnavailable);
                            },
                        }
                    }
                },
            }
            i = i + 1;
        }
        proof {
            assert(entries@.take(entries@.len() as int) =~= entries@);
        }
        self.folder_size = total;
        Ok(total)
    }

    /// Accounts one file's bytes and reports the new rounded percentage
    /// when it differs from the last reported one.
    fn calculate_progress(&mut self, file_size: u64) -> (pct: u32)
        requires
            0 < old(self).spec_folder_size(),
            old(self).spec_scanned_size() + file_size <= old(self).spec_folder_size(),
        ensures
            final(self).spec_scanned_size() == old(self).spec_scanned_size() + file_size,
            pct == rounded_pct(final(self).spec_scanned_size(), final(self).spec_folder_size()),
            final(self).last_pct_spec() == Some(pct),
            opt_pct_int(old(self).last_pct_spec()) != Some(pct as int) ==> final(self).emitted_spec()
                == old(self).emitted_spec().push(pct),
            opt_pct_int(old(self).last_pct_spec()) == Some(pct as int) ==> final(self).emitted_spec()
                == old(self).emitted_spec(),
            *final(self) == (FileScanner {
                scanned_size: final(self).scanned_size,
                last_percentage: final(self).last_percentage,
                emitted: final(self).emitted,
                ..*old(self)
            }),
    {
        self.scanned_size = self.scanned_size + file_size;
        let pct = percent_of(self.scanned_size, self.folder_size);
        let emit = match self.last_percentage {
            Some(lp) => lp != pct,
            None => true,
        };
        if emit {
            self.emitted.push(pct);
            if let Some(snd) = &self.sender {
                send_progress(snd, pct);
            }
        }
        self.last_percentage = Some(pct);
        pct
    }

    /// Scans the snapshot: for every regular file, hash, suppress false
    /// positives, consult the store, account progress; on a match with
    /// `stop_early` the walk halts at once, keeping the match that
    /// triggered the stop.  The job's state is reset first, so each call
    /// is one self-contained scan job.
    pub fn search_files(&mut self, entries: &Vec<ScanEntry>, stop_early: bool) -> (r: Result<
        Vec<String>,
        ScanError,
    >)
        ensures
            final(self).store == old(self).store,
            final(self).scanloc == old(self).scanloc,
            final(self).false_positive == old(self).false_positive,
            final(self).sender_spec() == old(self).sender_spec(),
            (r matches Err(ScanError::SizeUnavailable)) <==> !(meta_all_known(entries@)
                && total_size(entries@) <= u64::MAX),
            (r matches Err(ScanError::FolderSizeZero)) <==> (meta_all_known(entries@) && total_size(
                entries@,
            ) <= u64::MAX && total_size(entries@) == 0),
            (r is Ok) <==> (meta_all_known(entries@) && 0 < total_size(entries@) <= u64::MAX),
            r is Err ==> final(self).dirty_files.deep_view() == Seq::<Seq<char>>::empty()
                && final(self).emitted_spec() == Seq::<u32>::empty() && final(self).analysed_spec()
                == 0 && final(self).skipped_spec() == 0 && final(self).spec_scanned_size() == 0
                && final(self).last_pct_spec() is None,
            r matches Ok(v) ==> ({
                let st = scan_fold(
                    old(self).store@,
                    old(self).false_positive.deep_view(),
                    total_size(entries@),
                    stop_early,
                    entries@,
                );
                &&& v.deep_view() == st.matches
                &&& final(self).dirty_files.deep_view() == st.matches
                &&& seq_u32_int(final(self).emitted_spec()) == st.emitted
                &&& final(self).analysed_spec() == st.analysed
                &&& final(self).skipped_spec() == st.skipped
                &&& final(self).spec_scanned_size() == st.scanned
                &&& final(self).spec_folder_size() == total_size(entries@)
            }),
    {
        // Each call is one scan job: no state leaks across successive
        // scans.
        self.dirty_files = Vec::new();
        self.scanned_size = 0;
        self.last_percentage = None;
        self.analysed = 0;
        self.skipped = 0;
        self.emitted = Vec::new();

        let total = match self.get_folder_size(entries) {
            Ok(t) => t,
            Err(e) => {
                return Err(e);
            },
        };
        if total == 0 {
            return Err(ScanError::FolderSizeZero);
        }

        let ghost g_store = old(self).store@;
        let ghost g_fps = old(self).false_positive.deep_view();
        let ghost g_total = total_size(entries@);

        let mut idx: usize = 0;
        let mut stopped = false;
        proof {
            assert(entries@.take(0) =~= Seq::<ScanEntry>::empty());
        }
        while idx < entries.len() && !stopped
            invariant
                0 <= idx <= entries@.len(),
                meta_all_known(entries@),
                total == g_total,
                g_total == total_size(entries@),
                0 < g_total <= u64::MAX,
                g_store == old(self).store@,
                g_fps == old(self).false_positive.deep_view(),
                self.store == old(self).store,
                self.scanloc == old(self).scanloc,
                self.false_positive == old(self).false_positive,
                self.sender == old(self).sender,
                self.folder_size == total,
                ({
                    let st = scan_fold(g_store, g_fps, g_total, stop_early, entries@.take(idx as int));
                    &&& self.dirty_files.deep_view() == st.matches
                    &&& seq_u32_int(self.emitted@) == st.emitted
                    &&& self.analysed == st.analysed
                    &&& self.skipped == st.skipped
                    &&& self.scanned_size == st.scanned
                    &&& opt_pct_int(self.last_percentage) == st.last
                    &&& stopped == st.stopped
                }),
            decreases entries@.len() - idx,
        {
            let ghost st_pre = scan_fold(g_store, g_fps, g_total, stop_early, entries@.take(idx as int));
            proof {
                assert(entries@.take(idx + 1).drop_last() =~= entries@.take(idx as int));
                lemma_fold_counts(g_store, g_fps, g_total, stop_early, entries@.take(idx as int));
                lemma_fold_scanned(g_store, g_fps, g_total, stop_early, entries@.take(idx as int));
                lemma_total_size_take_le(entries@, idx + 1, entries@.len() as int);
                assert(entries@.take(entries@.len() as int) =~= entries@);
                assert(total_size(entries@.take(idx + 1)) == total_size(entries@.take(idx as int))
                    + entry_size(entries@[idx as int]));
            }
            let e = &entries[idx];
            if let Some(m) = &e.meta {
                if m.is_file {
                    let hash_opt = self.create_hash(&m.content);
                    let ghost g_path = e.path@;
                    match &hash_opt {
                        Some(_) => {
                            self.analysed = self.analysed + 1;
                        },
                        None => {
                            self.skipped = self.skipped + 1;
                        },
                    }
                    proof {
                        assert(!st_pre.stopped);
                        assert(st_pre.scanned == total_size(entries@.take(idx as int)));
                        assert(entry_size(entries@[idx as int]) == m.size as int);
                        assert(self.scanned_size == st_pre.scanned);
                        assert(self.scanned_size + m.size == total_size(entries@.take(idx + 1)));
                        assert(total_size(entries@.take(idx + 1)) <= total_size(entries@.take(
                            entries@.len() as int,
                        )));
                        assert(total_size(entries@.take(entries@.len() as int)) == g_total);
                        assert(self.scanned_size + m.size <= total);
                    }
                    let pct = self.calculate_progress(m.size);
                    match hash_opt {
                        Some(hash) => {
                            match self.store.contains(&hash) {
                                Ok(true) => {
                                    self.dirty_files.push(e.path.clone());
                                    proof {
                                        assert(self.dirty_files.deep_view()
                                            =~= st_pre.matches.push(g_path));
                                    }
                                    if stop_early {
                                        stopped = true;
                                    }
                                },
                                Ok(false) => {},
                                Err(_) => {
                                    // A failed lookup must never pass as
                                    // a clean result; the in-memory index
                                    // cannot fail, so there is nothing to
                                    // record here.
                                },
                            }
                        },
                        None => {},
                    }
                }
            }
            proof {
                let st_post = scan_fold(g_store, g_fps, g_total, stop_early, entries@.take(idx + 1));
                assert(st_post == scan_entry_step(
                    g_store,
                    g_fps,
                    g_total,
                    stop_early,
                    st_pre,
                    entries@[idx as int],
                ));
                assert(seq_u32_int(self.emitted@) =~= st_post.emitted);
                assert(self.dirty_files.deep_view() =~= st_post.matches);
            }
            idx = idx + 1;
        }
        proof {
            if stopped {
                lemma_fold_stopped_extend(g_store, g_fps, g_total, stop_early, entries@, idx as int);
            } else {
                assert(entries@.take(idx as int) =~= entries@);
            }
        }
        Ok(self.dirty_files.clone())
    }

    /// The percentages this job has reported, in order.
    pub fn emitted(&self) -> (e: &Vec<u32>)
        ensures
            e@ == self.emitted_spec(),
    {
        &self.emitted
    }

    /// How many files this job hashed.
    pub fn analysed(&self) -> (n: u64)
        ensures
            n == self.analysed_spec(),
    {
        self.analysed
    }

    /// How many files this job skipped.
    pub fn skipped(&self) -> (n: u64)
        ensures
            n == self.skipped_spec(),
    {
        self.skipped
    }
}

} // verus!
