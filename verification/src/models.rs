//! Shared value types: filesystem entry records and cleanup plans.

use vstd::prelude::*;

verus! {

/// Type of file system entry.
#[derive(Debug, Clone, Copy, PartialEq, Eq, Structural)]
pub enum EntryType {
    /// Regular file
    File,
    /// Directory
    Directory,
}

/// Represents a file or directory entry with metadata for cleanup analysis.
#[derive(Debug, Clone, PartialEq)]
pub struct FileEntry {
    /// Absolute path to the file or directory
    pub path: String,
    /// Size in bytes (for directories, the recursive sum of contained file sizes)
    pub size: u64,
    /// Last modification time, in seconds since the Unix epoch
    pub modified: i64,
    /// Type of entry (file or directory)
    pub entry_type: EntryType,
    /// Optional platform-specific stable identifier for rename detection
    pub file_id: Option<u64>,
}

/// Mathematical model of a [`FileEntry`].
pub struct FileEntryV {
    pub path: Seq<char>,
    pub size: u64,
    pub modified: i64,
    pub entry_type: EntryType,
    pub file_id: Option<u64>,
}

impl View for FileEntry {
    type V = FileEntryV;

    open spec fn view(&self) -> FileEntryV {
        FileEntryV {
            path: self.path@,
            size: self.size,
            modified: self.modified,
            entry_type: self.entry_type,
            file_id: self.file_id,
        }
    }
}

impl DeepView for FileEntry {
    type V = FileEntryV;

    open spec fn deep_view(&self) -> FileEntryV {
        self.view()
    }
}

impl FileEntry {
    /// Creates a new FileEntry.
    pub fn new(path: String, size: u64, modified: i64, entry_type: EntryType) -> (r: Self)
        ensures
            r@ == (FileEntryV { path: path@, size, modified, entry_type, file_id: None }),
    {
        Self { path, size, modified, entry_type, file_id: None }
    }

    /// Creates a new FileEntry with an optional file ID.
    pub fn with_file_id(
        path: String,
        size: u64,
        modified: i64,
        entry_type: EntryType,
        file_id: Option<u64>,
    ) -> (r: Self)
        ensures
            r@ == (FileEntryV { path: path@, size, modified, entry_type, file_id }),
    {
        Self { path, size, modified, entry_type, file_id }
    }

    /// Returns true if this entry is a file.
    pub fn is_file(&self) -> (r: bool)
        ensures
            r == (self.entry_type == EntryType::File),
    {
        matches!(self.entry_type, EntryType::File)
    }

    /// Returns true if this entry is a directory.
    pub fn is_directory(&self) -> (r: bool)
        ensures
            r == (self.entry_type == EntryType::Directory),
    {
        matches!(self.entry_type, EntryType::Directory)
    }
}

/// Action to perform on a cleanup entry.
#[derive(Debug, Clone, Copy, PartialEq, Eq, Structural)]
pub enum CleanupAction {
    /// Delete the file or directory
    Delete,
    /// Keep the file or directory
    Keep,
    /// Review manually before deciding
    Review,
}

/// A single entry in a cleanup plan.
#[derive(Debug, Clone, PartialEq)]
pub struct CleanupEntry {
    /// Path relative to the plan's base path
    pub path: String,
    /// Size in bytes
    pub size: u64,
    /// Last modification time as an RFC 3339 string
    pub modified: String,
    /// Action to take on this entry
    pub action: CleanupAction,
    /// Name of the detection rule that flagged this entry
    pub rule_name: String,
    /// Reason why this was flagged
    pub reason: String,
}

/// Mathematical model of a [`CleanupEntry`].
pub struct CleanupEntryV {
    pub path: Seq<char>,
    pub size: u64,
    pub modified: Seq<char>,
    pub action: CleanupAction,
    pub rule_name: Seq<char>,
    pub reason: Seq<char>,
}

impl View for CleanupEntry {
    type V = CleanupEntryV;

    open spec fn view(&self) -> CleanupEntryV {
        CleanupEntryV {
            path: self.path@,
            size: self.size,
            modified: self.modified@,
            action: self.action,
            rule_name: self.rule_name@,
            reason: self.reason@,
        }
    }
}

impl DeepView for CleanupEntry {
    type V = CleanupEntryV;

    open spec fn deep_view(&self) -> CleanupEntryV {
        self.view()
    }
}

impl CleanupEntry {
    /// Creates a new cleanup entry.
    pub fn new(
        path: String,
        size: u64,
        modified: String,
        action: CleanupAction,
        rule_name: String,
        reason: String,
    ) -> (r: Self)
        ensures
            r@ == (CleanupEntryV {
                path: path@,
                size,
                modified: modified@,
                action,
                rule_name: rule_name@,
                reason: reason@,
            }),
    {
        Self { path, size, modified, action, rule_name, reason }
    }
}

/// A cleanup plan containing entries to be processed.
#[derive(Debug, Clone, PartialEq)]
pub struct CleanupPlan {
    /// Plan format version for future compatibility
    pub version: String,
    /// Timestamp when the plan was created, as an RFC 3339 string
    pub created_at: String,
    /// Base directory that was scanned
    pub base_path: String,
    /// List of cleanup entries
    pub entries: Vec<CleanupEntry>,
}

/// Mathematical model of a [`CleanupPlan`].
pub struct CleanupPlanV {
    pub version: Seq<char>,
    pub created_at: Seq<char>,
    pub base_path: Seq<char>,
    pub entries: Seq<CleanupEntryV>,
}

impl View for CleanupPlan {
    type V = CleanupPlanV;

    open spec fn view(&self) -> CleanupPlanV {
        CleanupPlanV {
            version: self.version@,
            created_at: self.created_at@,
            base_path: self.base_path@,
            entries: self.entries.deep_view(),
        }
    }
}

impl DeepView for CleanupPlan {
    type V = CleanupPlanV;

    open spec fn deep_view(&self) -> CleanupPlanV {
        self.view()
    }
}

/// Total size of the entries, summed with saturation at `u64::MAX`.
pub open spec fn spec_total_size(entries: Seq<CleanupEntryV>) -> u64
    decreases entries.len(),
{
    if entries.len() == 0 {
        0u64
    } else {
        let rest = spec_total_size(entries.drop_last());
        if rest + entries.last().size <= u64::MAX {
            (rest + entries.last().size) as u64
        } else {
            u64::MAX
        }
    }
}

/// How many entries carry the given action.
pub open spec fn spec_count_action(entries: Seq<CleanupEntryV>, action: CleanupAction) -> nat
    decreases entries.len(),
{
    if entries.len() == 0 {
        0nat
    } else {
        spec_count_action(entries.drop_last(), action)
            + if entries.last().action == action { 1nat } else { 0nat }
    }
}

proof fn lemma_count_action_bound(entries: Seq<CleanupEntryV>, action: CleanupAction)
    ensures
        spec_count_action(entries, action) <= entries.len(),
    decreases entries.len(),
{
    if entries.len() > 0 {
        lemma_count_action_bound(entries.drop_last(), action);
    }
}

impl CleanupPlan {
    /// Creates an empty cleanup plan for the given base path, with the
    /// current time as its creation timestamp.
    pub fn new(base_path: String) -> (r: Self)
        ensures
            r@.version == "1.0"@,
            r@.base_path == base_path@,
            r@.entries == Seq::<CleanupEntryV>::empty(),
    {
        let r = Self {
            version: String::from_str("1.0"),
            created_at: crate::clock::now_rfc3339(),
            base_path,
            entries: Vec::new(),
        };
        assert(r.entries.deep_view() =~= Seq::<CleanupEntryV>::empty());
        r
    }

    /// Adds an entry to the plan.
    pub fn add_entry(&mut self, entry: CleanupEntry)
        ensures
            final(self)@.entries == old(self)@.entries.push(entry@),
            final(self)@.version == old(self)@.version,
            final(self)@.created_at == old(self)@.created_at,
            final(self)@.base_path == old(self)@.base_path,
    {
        self.entries.push(entry);
        assert(self.entries.deep_view() =~= old(self).entries.deep_view().push(entry@));
    }

    /// Returns the total size of all entries in bytes, saturating at `u64::MAX`.
    pub fn total_size(&self) -> (r: u64)
        ensures
            r == spec_total_size(self@.entries),
    {
        let mut total: u64 = 0;
        let mut i: usize = 0;
        while i < self.entries.len()
            invariant
                i <= self.entries.len(),
                total == spec_total_size(self@.entries.take(i as int)),
            decreases self.entries.len() - i,
        {
            let size = self.entries[i].size;
            assert(self@.entries.take(i + 1 as int).drop_last() =~= self@.entries.take(i as int));
            assert(self@.entries.take(i + 1 as int).last() == self@.entries[i as int]);
            if total <= u64::MAX - size {
                total = total + size;
            } else {
                total = u64::MAX;
            }
            i = i + 1;
        }
        assert(self@.entries.take(self.entries.len() as int) =~= self@.entries);
        total
    }

    /// Returns the number of entries marked for deletion.
    pub fn delete_count(&self) -> (r: usize)
        ensures
            r == spec_count_action(self@.entries, CleanupAction::Delete),
    {
        self.count_action(CleanupAction::Delete)
    }

    /// Returns the number of entries marked for review.
    pub fn review_count(&self) -> (r: usize)
        ensures
            r == spec_count_action(self@.entries, CleanupAction::Review),
    {
        self.count_action(CleanupAction::Review)
    }

    /// Returns the number of entries marked to keep.
    pub fn keep_count(&self) -> (r: usize)
        ensures
            r == spec_count_action(self@.entries, CleanupAction::Keep),
    {
        self.count_action(CleanupAction::Keep)
    }

    fn count_action(&self, action: CleanupAction) -> (r: usize)
        ensures
            r == spec_count_action(self@.entries, action),
    {
        let mut count: usize = 0;
        let mut i: usize = 0;
        while i < self.entries.len()
            invariant
                i <= self.entries.len(),
                count == spec_count_action(self@.entries.take(i as int), action),
                count <= i,
            decreases self.entries.len() - i,
        {
            assert(self@.entries.take(i + 1 as int).drop_last() =~= self@.entries.take(i as int));
            assert(self@.entries.take(i + 1 as int).last() == self@.entries[i as int]);
            if self.entries[i].action == action {
                count = count + 1;
            }
            i = i + 1;
        }
        assert(self@.entries.take(self.entries.len() as int) =~= self@.entries);
        count
    }
}

} // verus!
