//! Directory scanning: a depth-first walk that produces entry records
//! with size, modification time and type. Directory sizes are the
//! recursive sum of contained file sizes; per-entry failures are collected
//! and the entry omitted, never aborting the whole scan; with hidden
//! skipping on, hidden entries and everything beneath a hidden directory
//! are pruned.

use vstd::prelude::*;
use crate::models::{EntryType, FileEntry, FileEntryV};
use crate::paths::{basename, basename_of, is_hidden_name};
use crate::walk::{measure_dir_size, walk_begin, walk_next, walk_skip_dir, RawEntry, ScanError, ScanErrorV};

verus! {

/// Configuration for file system scanning.
#[derive(Debug, Clone, Default)]
pub struct ScanConfig {
    /// Whether to follow symbolic links
    pub follow_links: bool,
    /// Maximum depth to traverse (None = unlimited)
    pub max_depth: Option<usize>,
    /// Whether to skip hidden files/directories
    pub skip_hidden: bool,
}

/// What the walk reported for one visited path: its metadata with, for a
/// directory, its measured recursive size — or a per-entry failure.
#[derive(Debug, Clone)]
pub enum ScanEvent {
    /// A visited path with its metadata
    Found { path: String, is_dir: bool, size: u64, mtime_secs: i64 },
    /// A per-entry failure, collected rather than aborting the scan
    Failed(ScanError),
}

/// Mathematical model of a [`ScanEvent`].
pub enum ScanEventV {
    Found { path: Seq<char>, is_dir: bool, size: u64, mtime_secs: i64 },
    Failed(ScanErrorV),
}

impl View for ScanEvent {
    type V = ScanEventV;

    open spec fn view(&self) -> ScanEventV {
        match self {
            ScanEvent::Found { path, is_dir, size, mtime_secs } => ScanEventV::Found {
                path: path@,
                is_dir: *is_dir,
                size: *size,
                mtime_secs: *mtime_secs,
            },
            ScanEvent::Failed(e) => ScanEventV::Failed(e@),
        }
    }
}

impl DeepView for ScanEvent {
    type V = ScanEventV;

    open spec fn deep_view(&self) -> ScanEventV {
        self.view()
    }
}

/// What a scan makes of a sequence of walk events: one entry record per
/// found path that passes the hidden filter, in walk order, and the
/// collected per-entry failures, in order. A directory's recorded size is
/// the measured size its event carries.
pub open spec fn spec_scan(events: Seq<ScanEventV>, skip_hidden: bool) -> (
    Seq<FileEntryV>,
    Seq<ScanErrorV>,
)
    decreases events.len(),
{
    if events.len() == 0 {
        (Seq::<FileEntryV>::empty(), Seq::<ScanErrorV>::empty())
    } else {
        let rest = spec_scan(events.drop_last(), skip_hidden);
        match events.last() {
            ScanEventV::Found { path, is_dir, size, mtime_secs } => {
                if skip_hidden && is_hidden_name(basename_of(path)) {
                    rest
                } else {
                    (
                        rest.0.push(FileEntryV {
                            path,
                            size,
                            modified: mtime_secs,
                            entry_type: if is_dir {
                                EntryType::Directory
                            } else {
                                EntryType::File
                            },
                            file_id: None,
                        }),
                        rest.1,
                    )
                }
            },
            ScanEventV::Failed(e) => (rest.0, rest.1.push(e)),
        }
    }
}

/// Every entry a scan produces passes the hidden filter.
pub proof fn lemma_spec_scan_filter(events: Seq<ScanEventV>, skip_hidden: bool)
    ensures
        scan_filter_holds(spec_scan(events, skip_hidden).0, skip_hidden),
    decreases events.len(),
{
    if events.len() > 0 {
        lemma_spec_scan_filter(events.drop_last(), skip_hidden);
    }
}

/// Scans directories and collects file metadata.
pub struct FileScanner {
    config: ScanConfig,
}

impl FileScanner {
    /// Whether hidden entries are skipped, as contracts see it.
    pub closed spec fn spec_skip_hidden(&self) -> bool {
        self.config.skip_hidden
    }

    /// Creates a new FileScanner with the given configuration.
    pub fn new(config: ScanConfig) -> (r: Self)
        ensures
            r.spec_skip_hidden() == config.skip_hidden,
    {
        Self { config }
    }

    /// Scans the given root directory and returns all entries reachable
    /// from it: exactly what [`spec_scan`] makes of the walk events that
    /// came back. Fails, before any traversal, with a path-not-found
    /// error naming the root when the root does not exist on disk.
    pub fn scan(&self, root: &str) -> (r: Result<Vec<FileEntry>, ScanError>)
        ensures
            r matches Ok(entries) ==> exists|events: Seq<ScanEventV>|
                entries.deep_view() == #[trigger] spec_scan(events, self.spec_skip_hidden()).0,
            r matches Ok(entries) ==> scan_filter_holds(
                entries.deep_view(),
                self.spec_skip_hidden(),
            ),
            r matches Err(e) ==> e matches ScanError::PathNotFound(m) && m@ == root@,
    {
        match self.scan_with_errors(root) {
            Ok((entries, _errors)) => {
                proof {
                    let ev = choose|ev: Seq<ScanEventV>|
                        (entries.deep_view(), _errors.deep_view()) == #[trigger] spec_scan(
                            ev,
                            self.spec_skip_hidden(),
                        );
                    assert(entries.deep_view() == spec_scan(ev, self.spec_skip_hidden()).0);
                    lemma_spec_scan_filter(ev, self.spec_skip_hidden());
                }
                Ok(entries)
            },
            Err(e) => Err(e),
        }
    }

    /// Scans the given root directory, also returning the per-entry
    /// failures that were collected along the way: exactly what
    /// [`spec_scan`] makes of the walk events that came back.
    pub fn scan_with_errors(&self, root: &str) -> (r: Result<
        (Vec<FileEntry>, Vec<ScanError>),
        ScanError,
    >)
        ensures
            r matches Ok(p) ==> exists|events: Seq<ScanEventV>|
                (p.0.deep_view(), p.1.deep_view()) == #[trigger] spec_scan(
                    events,
                    self.spec_skip_hidden(),
                ),
            r matches Ok(p) ==> scan_filter_holds(p.0.deep_view(), self.spec_skip_hidden()),
            r matches Err(e) ==> e matches ScanError::PathNotFound(m) && m@ == root@,
    {
        if !crate::probe::probe_exists(root) {
            return Err(ScanError::PathNotFound(String::from_str(root)));
        }
        let max_depth = match self.config.max_depth {
            Some(d) => d,
            None => usize::MAX,
        };
        let mut it = walk_begin(root, self.config.follow_links, max_depth);
        let mut events: Vec<ScanEvent> = Vec::new();
        let mut fuel: u64 = u64::MAX;
        while fuel > 0
            decreases fuel,
        {
            fuel = fuel - 1;
            match walk_next(&mut it) {
                None => {
                    break;
                },
                Some(Ok(raw)) => {
                    let skipped = self.should_skip(&raw);
                    if skipped && raw.is_dir {
                        // Nothing beneath a skipped hidden directory is
                        // scanned, so both traversal strategies yield the
                        // same set of entries.
                        walk_skip_dir(&mut it);
                    }
                    let size = if skipped {
                        0
                    } else if raw.is_dir {
                        measure_dir_size(raw.path.as_str())
                    } else {
                        raw.len
                    };
                    events.push(ScanEvent::Found {
                        path: raw.path,
                        is_dir: raw.is_dir,
                        size,
                        mtime_secs: raw.mtime_secs,
                    });
                },
                Some(Err(e)) => {
                    events.push(ScanEvent::Failed(e));
                },
            }
        }
        let (entries, errors) = self.scan_observed(&events);
        proof {
            lemma_spec_scan_filter(events.deep_view(), self.spec_skip_hidden());
        }
        Ok((entries, errors))
    }

    /// Makes entry records and an error list from a sequence of walk
    /// events: the pure core of scanning, fully determined by its inputs.
    pub fn scan_observed(&self, events: &Vec<ScanEvent>) -> (r: (Vec<FileEntry>, Vec<ScanError>))
        ensures
            (r.0.deep_view(), r.1.deep_view()) == spec_scan(
                events.deep_view(),
                self.spec_skip_hidden(),
            ),
    {
        let mut entries: Vec<FileEntry> = Vec::new();
        let mut errors: Vec<ScanError> = Vec::new();
        let mut i: usize = 0;
        proof {
            assert(entries.deep_view() =~= Seq::<FileEntryV>::empty());
            assert(errors.deep_view() =~= Seq::<ScanErrorV>::empty());
            assert(events.deep_view().take(0) =~= Seq::<ScanEventV>::empty());
        }
        while i < events.len()
            invariant
                i <= events@.len(),
                events.deep_view().len() == events@.len(),
                (entries.deep_view(), errors.deep_view()) == spec_scan(
                    events.deep_view().take(i as int),
                    self.spec_skip_hidden(),
                ),
            decreases events@.len() - i,
        {
            proof {
                assert(events.deep_view().take(i + 1 as int).drop_last() =~= events.deep_view()
                    .take(i as int));
                assert(events.deep_view().take(i + 1 as int).last() == events.deep_view()[
                    i as int
                ]);
                assert(events.deep_view()[i as int] == events@[i as int].deep_view());
            }
            match &events[i] {
                ScanEvent::Found { path, is_dir, size, mtime_secs } => {
                    let base = basename(path.as_str());
                    let hidden = crate::paths::hidden_name(base.as_str());
                    if !(self.config.skip_hidden && hidden) {
                        let entry_type = if *is_dir {
                            EntryType::Directory
                        } else {
                            EntryType::File
                        };
                        let entry = FileEntry::new(
                            crate::detector::clone_string(path),
                            *size,
                            *mtime_secs,
                            entry_type,
                        );
                        let ghost e0 = entries.deep_view();
                        let ghost ev = entry@;
                        entries.push(entry);
                        proof {
                            assert(entries.deep_view() =~= e0.push(ev));
                        }
                    }
                },
                ScanEvent::Failed(e) => {
                    let ghost r0 = errors.deep_view();
                    let err = clone_scan_error(e);
                    let ghost errv = err@;
                    errors.push(err);
                    proof {
                        assert(errors.deep_view() =~= r0.push(errv));
                    }
                },
            }
            i = i + 1;
        }
        proof {
            assert(events.deep_view().take(events@.len() as int) =~= events.deep_view());
        }
        (entries, errors)
    }

    /// Determines if an entry should be skipped: hidden entries are
    /// skipped when so configured.
    fn should_skip(&self, raw: &RawEntry) -> (r: bool)
        ensures
            r == (self.spec_skip_hidden() && is_hidden_name(basename_of(raw.path@))),
    {
        if !self.config.skip_hidden {
            return false;
        }
        let base = basename(raw.path.as_str());
        crate::paths::hidden_name(base.as_str())
    }
}

/// Every entry passed the hidden filter: with hidden skipping on, no
/// entry's base name is hidden.
pub open spec fn scan_filter_holds(entries: Seq<FileEntryV>, skip_hidden: bool) -> bool {
    skip_hidden ==> forall|i: int|
        0 <= i < entries.len() ==> !is_hidden_name(basename_of(
            (#[trigger] entries[i]).path,
        ))
}

/// Clones a scan error with its contents known.
fn clone_scan_error(e: &ScanError) -> (r: ScanError)
    ensures
        r@ == e@,
{
    match e {
        ScanError::Io(m) => ScanError::Io(crate::detector::clone_string(m)),
        ScanError::PermissionDenied(m) => ScanError::PermissionDenied(
            crate::detector::clone_string(m),
        ),
        ScanError::InvalidPath(m) => ScanError::InvalidPath(crate::detector::clone_string(m)),
        ScanError::PathNotFound(m) => ScanError::PathNotFound(crate::detector::clone_string(m)),
    }
}

} // verus!
