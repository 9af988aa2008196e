//! Directory walking through `walkdir`, and recursive directory size
//! measurement shared by the scanner and the drift engine.

use std::time::UNIX_EPOCH;
use vstd::prelude::*;

verus! {

/// Declared: `walkdir`'s depth-first directory iterator.
#[verifier::external_type_specification]
#[verifier::external_body]
pub struct ExWalkDirIntoIter(walkdir::IntoIter);

/// Declared: `walkdir`'s directory entry.
#[verifier::external_type_specification]
#[verifier::external_body]
pub struct ExWalkDirDirEntry(walkdir::DirEntry);

/// Declared: `walkdir`'s error type.
#[verifier::external_type_specification]
#[verifier::external_body]
pub struct ExWalkDirError(walkdir::Error);

/// What one visited path reports: its path, its final component, whether
/// it is a directory or a regular file (a symbolic link walked without
/// following is neither), its byte length, and its modification time in
/// whole seconds since the Unix epoch.
#[derive(Debug, Clone)]
pub struct RawEntry {
    pub path: String,
    pub file_name: String,
    pub is_dir: bool,
    pub is_file: bool,
    pub len: u64,
    pub mtime_secs: i64,
}

/// Errors that can occur during scanning.
#[derive(Debug, Clone, PartialEq)]
pub enum ScanError {
    /// An I/O failure
    Io(String),
    /// A permission-denied failure
    PermissionDenied(String),
    /// An invalid path
    InvalidPath(String),
    /// The scan root does not exist
    PathNotFound(String),
}

/// Mathematical model of a [`ScanError`].
pub enum ScanErrorV {
    Io(Seq<char>),
    PermissionDenied(Seq<char>),
    InvalidPath(Seq<char>),
    PathNotFound(Seq<char>),
}

impl View for ScanError {
    type V = ScanErrorV;

    open spec fn view(&self) -> ScanErrorV {
        match self {
            ScanError::Io(m) => ScanErrorV::Io(m@),
            ScanError::PermissionDenied(m) => ScanErrorV::PermissionDenied(m@),
            ScanError::InvalidPath(m) => ScanErrorV::InvalidPath(m@),
            ScanError::PathNotFound(m) => ScanErrorV::PathNotFound(m@),
        }
    }
}

impl DeepView for ScanError {
    type V = ScanErrorV;

    open spec fn deep_view(&self) -> ScanErrorV {
        self.view()
    }
}

impl ScanError {
    /// A human-readable description of the error.
    pub fn message(&self) -> (r: &str) {
        match self {
            ScanError::Io(m) => m.as_str(),
            ScanError::PermissionDenied(m) => m.as_str(),
            ScanError::InvalidPath(m) => m.as_str(),
            ScanError::PathNotFound(m) => m.as_str(),
        }
    }
}

/// Relies on `walkdir::WalkDir::new`, `follow_links`, `max_depth` and
/// `into_iter`: a depth-first walk of the tree rooted at `root`.
#[verifier::external_body]
pub(crate) fn walk_begin(root: &str, follow_links: bool, max_depth: usize) -> walkdir::IntoIter {
    walkdir::WalkDir::new(root).follow_links(follow_links).max_depth(max_depth).into_iter()
}

/// Relies on `walkdir::IntoIter::skip_current_dir`: the walk will not
/// descend into the directory most recently yielded.
#[verifier::external_body]
pub(crate) fn walk_skip_dir(it: &mut walkdir::IntoIter) {
    it.skip_current_dir()
}

/// Relies on `walkdir::Error::io_error`: classifies a walk error as
/// permission-denied or other I/O.
#[verifier::external_body]
pub(crate) fn walk_err(err: walkdir::Error) -> ScanError {
    match err.io_error() {
        Some(io) if io.kind() == std::io::ErrorKind::PermissionDenied => {
            ScanError::PermissionDenied(err.to_string())
        },
        _ => ScanError::Io(err.to_string()),
    }
}

/// Relies on `walkdir::IntoIter::next` and `walkdir::DirEntry::{path,
/// file_name, metadata}`: the next visited path with its metadata, an
/// error, or `None` at the end of the walk. What comes back depends on
/// the disk, so nothing is promised of it.
#[verifier::external_body]
pub(crate) fn walk_next(it: &mut walkdir::IntoIter) -> Option<Result<RawEntry, ScanError>> {
    let e = match it.next()? {
        Ok(e) => e,
        Err(err) => return Some(Err(walk_err(err))),
    };
    let m = match e.metadata() {
        Ok(m) => m,
        Err(err) => return Some(Err(walk_err(err))),
    };
    let t = m.modified().ok().and_then(|x| x.duration_since(UNIX_EPOCH).ok());
    Some(Ok(RawEntry {
        path: e.path().to_string_lossy().into_owned(),
        file_name: e.file_name().to_string_lossy().into_owned(),
        is_dir: m.is_dir(), is_file: m.is_file(), len: m.len(),
        mtime_secs: t.map_or(0, |d| d.as_secs().min(i64::MAX as u64) as i64),
    }))
}

/// What one step of a size measurement saw: a regular file of some
/// length, some other kind of entry, or an unreadable one that is
/// skipped rather than aborting the measurement.
#[derive(Debug, Clone, Copy, PartialEq, Eq, Structural)]
pub enum SizeProbe {
    /// A regular file of this byte length
    File { len: u64 },
    /// A directory, symbolic link or other non-file entry
    Other,
    /// An entry whose metadata could not be read
    Unreadable,
}

/// The recursive size a sequence of probes adds up to: the byte lengths
/// of the regular files, summed with saturation at `u64::MAX`; other and
/// unreadable entries contribute nothing.
pub open spec fn spec_dir_size(probes: Seq<SizeProbe>) -> u64
    decreases probes.len(),
{
    if probes.len() == 0 {
        0u64
    } else {
        let rest = spec_dir_size(probes.drop_last());
        match probes.last() {
            SizeProbe::File { len } => if rest + len <= u64::MAX {
                (rest + len) as u64
            } else {
                u64::MAX
            },
            SizeProbe::Other => rest,
            SizeProbe::Unreadable => rest,
        }
    }
}

/// Sums the regular-file lengths of a probe sequence, saturating: the
/// pure core of directory size measurement.
pub fn sum_file_sizes(probes: &Vec<SizeProbe>) -> (r: u64)
    ensures
        r == spec_dir_size(probes@),
{
    let mut total: u64 = 0;
    let mut i: usize = 0;
    while i < probes.len()
        invariant
            i <= probes@.len(),
            total == spec_dir_size(probes@.take(i as int)),
        decreases probes@.len() - i,
    {
        proof {
            assert(probes@.take(i + 1 as int).drop_last() =~= probes@.take(i as int));
            assert(probes@.take(i + 1 as int).last() == probes@[i as int]);
        }
        match probes[i] {
            SizeProbe::File { len } => {
                if total <= u64::MAX - len {
                    total = total + len;
                } else {
                    total = u64::MAX;
                }
            },
            SizeProbe::Other => {},
            SizeProbe::Unreadable => {},
        }
        i = i + 1;
    }
    proof {
        assert(probes@.take(probes@.len() as int) =~= probes@);
    }
    total
}

/// The recursive size of a directory: what the walk below it probed,
/// summed by [`spec_dir_size`] — the regular files' byte lengths,
/// saturating at `u64::MAX`, with unreadable subentries skipped rather
/// than aborting the measurement.
pub fn measure_dir_size(path: &str) -> (r: u64)
    ensures
        exists|probes: Seq<SizeProbe>| r == #[trigger] spec_dir_size(probes),
{
    let mut it = walk_begin(path, false, usize::MAX);
    let mut probes: Vec<SizeProbe> = Vec::new();
    let mut fuel: u64 = u64::MAX;
    while fuel > 0
        decreases fuel,
    {
        fuel = fuel - 1;
        match walk_next(&mut it) {
            None => {
                break;
            },
            Some(Ok(e)) => {
                if e.is_file {
                    probes.push(SizeProbe::File { len: e.len });
                } else {
                    probes.push(SizeProbe::Other);
                }
            },
            Some(Err(_)) => {
                probes.push(SizeProbe::Unreadable);
            },
        }
    }
    let r = sum_file_sizes(&probes);
    proof {
        assert(r == spec_dir_size(probes@));
    }
    r
}

} // verus!
