//! Rule-based detection of cleanup candidates, with a protection policy
//! that excludes source code and project roots before any rule runs.

use vstd::prelude::*;
use crate::models::{EntryType, FileEntry, FileEntryV};
use crate::paths::{basename, basename_of, extension, extension_of};
use crate::text::{dec_of, lower_seq, str_eq, to_ascii_lower, u64_to_dec};

verus! {

/// Context information for detection rules.
#[derive(Debug, Default)]
pub struct ScanContext {}

/// Result of applying detection rules to an entry.
#[derive(Debug, Clone)]
pub struct DetectionResult {
    /// The file entry that was flagged
    pub entry: FileEntry,
    /// Name of the rule that flagged it
    pub rule_name: String,
    /// Reason it was flagged
    pub reason: String,
}

/// Mathematical model of a [`DetectionResult`].
pub struct DetectionResultV {
    pub entry: FileEntryV,
    pub rule_name: Seq<char>,
    pub reason: Seq<char>,
}

impl View for DetectionResult {
    type V = DetectionResultV;

    open spec fn view(&self) -> DetectionResultV {
        DetectionResultV {
            entry: self.entry@,
            rule_name: self.rule_name@,
            reason: self.reason@,
        }
    }
}

impl DeepView for DetectionResult {
    type V = DetectionResultV;

    open spec fn deep_view(&self) -> DetectionResultV {
        self.view()
    }
}

/// A detection rule: a name, a match predicate over an entry, and a
/// reason-string producer.
pub trait DetectionRule: Sized {
    /// The rule's name, as contracts see it.
    spec fn spec_name(&self) -> Seq<char>;

    /// Whether the rule flags the entry, as contracts see it.
    spec fn spec_matches(&self, entry: FileEntryV) -> bool;

    /// The rule's reason string, as contracts see it.
    spec fn spec_reason(&self) -> Seq<char>;

    /// Returns the name of this rule.
    fn name(&self) -> (r: &str)
        ensures
            r@ == self.spec_name(),
    ;

    /// Determines if an entry should be flagged by this rule.
    fn should_flag(&self, entry: &FileEntry, context: &ScanContext) -> (r: bool)
        ensures
            r == self.spec_matches(entry@),
    ;

    /// Returns the reason why this entry was flagged.
    fn reason(&self) -> (r: String)
        ensures
            r@ == self.spec_reason(),
    ;
}

/// Rule that flags entries at or above a size threshold.
pub struct SizeThresholdRule {
    /// Minimum size in bytes to flag
    pub threshold_bytes: u64,
}

impl DetectionRule for SizeThresholdRule {
    open spec fn spec_name(&self) -> Seq<char> {
        "large_file"@
    }

    open spec fn spec_matches(&self, entry: FileEntryV) -> bool {
        entry.size >= self.threshold_bytes
    }

    open spec fn spec_reason(&self) -> Seq<char> {
        "File exceeds size threshold of "@ + dec_of((self.threshold_bytes / 1048576) as int)
            + " MB"@
    }

    fn name(&self) -> (r: &str)
        ensures
            r@ == self.spec_name(),
    {
        "large_file"
    }

    fn should_flag(&self, entry: &FileEntry, _context: &ScanContext) -> (r: bool)
        ensures
            r == self.spec_matches(entry@),
    {
        entry.size >= self.threshold_bytes
    }

    fn reason(&self) -> (r: String)
        ensures
            r@ == self.spec_reason(),
    {
        let mut s = String::from_str("File exceeds size threshold of ");
        let d = u64_to_dec(self.threshold_bytes / 1048576);
        s.append(d.as_str());
        s.append(" MB");
        s
    }
}

/// The conventional generated-output directory names flagged by default.
pub open spec fn default_artifact_patterns() -> Seq<Seq<char>> {
    seq![
        "target"@,
        "node_modules"@,
        "build"@,
        ".next"@,
        "dist"@,
        "__pycache__"@,
        ".pytest_cache"@,
        "bin"@,
        "obj"@,
    ]
}

/// Rule that flags directories whose base name matches a build-artifact
/// pattern exactly. Never flags a file.
pub struct BuildArtifactRule {
    patterns: Vec<&'static str>,
}

impl BuildArtifactRule {
    /// The configured patterns, as contracts see them.
    pub closed spec fn spec_patterns(&self) -> Seq<Seq<char>> {
        self.patterns.deep_view()
    }

    /// Creates a new BuildArtifactRule with default patterns.
    pub fn new() -> (r: Self)
        ensures
            r.spec_patterns() == default_artifact_patterns(),
    {
        let mut patterns: Vec<&'static str> = Vec::new();
        patterns.push("target");
        patterns.push("node_modules");
        patterns.push("build");
        patterns.push(".next");
        patterns.push("dist");
        patterns.push("__pycache__");
        patterns.push(".pytest_cache");
        patterns.push("bin");
        patterns.push("obj");
        let r = Self { patterns };
        proof {
            assert(r.spec_patterns() =~= default_artifact_patterns());
        }
        r
    }

    /// Creates a BuildArtifactRule with custom patterns.
    pub fn with_patterns(patterns: Vec<&'static str>) -> (r: Self)
        ensures
            r.spec_patterns() == patterns.deep_view(),
    {
        Self { patterns }
    }
}

impl Default for BuildArtifactRule {
    /// Creates a BuildArtifactRule with default patterns.
    fn default() -> (r: Self)
        ensures
            r.spec_patterns() == default_artifact_patterns(),
    {
        Self::new()
    }
}

impl DetectionRule for BuildArtifactRule {
    open spec fn spec_name(&self) -> Seq<char> {
        "build_artifact"@
    }

    open spec fn spec_matches(&self, entry: FileEntryV) -> bool {
        entry.entry_type == EntryType::Directory && exists|i: int|
            0 <= i < self.spec_patterns().len() && #[trigger] self.spec_patterns()[i]
                == basename_of(entry.path)
    }

    open spec fn spec_reason(&self) -> Seq<char> {
        "Common build artifact directory"@
    }

    fn name(&self) -> (r: &str)
        ensures
            r@ == self.spec_name(),
    {
        "build_artifact"
    }

    fn should_flag(&self, entry: &FileEntry, _context: &ScanContext) -> (r: bool)
        ensures
            r == self.spec_matches(entry@),
    {
        if !entry.is_directory() {
            return false;
        }
        let dir_name = basename(entry.path.as_str());
        let mut i: usize = 0;
        while i < self.patterns.len()
            invariant
                forall|j: int|
                    0 <= j < i ==> #[trigger] self.spec_patterns()[j] != basename_of(entry@.path),
                i <= self.patterns.len(),
                dir_name@ == basename_of(entry@.path),
                entry@.entry_type == EntryType::Directory,
            decreases self.patterns.len() - i,
        {
            if str_eq(self.patterns[i], dir_name.as_str()) {
                proof {
                    assert(self.spec_patterns().len() == self.patterns@.len());
                    assert(self.spec_patterns()[i as int]
                        == self.patterns@[i as int].deep_view());
                    assert(self.spec_patterns()[i as int] == basename_of(entry@.path));
                    assert(entry@.entry_type == EntryType::Directory);
                    assert(exists|k: int|
                        0 <= k < self.spec_patterns().len() && #[trigger] self.spec_patterns()[k]
                            == basename_of(entry@.path));
                }
                return true;
            }
            proof {
                assert(self.spec_patterns()[i as int] == self.patterns@[i as int].deep_view());
            }
            i = i + 1;
        }
        false
    }

    fn reason(&self) -> (r: String)
        ensures
            r@ == self.spec_reason(),
    {
        String::from_str("Common build artifact directory")
    }
}

/// A caller-defined rule: an optional size floor and an optional extension
/// list; an empty constraint matches every entry.
pub struct CustomRule {
    /// Rule name
    pub name: String,
    /// Reason reported for flagged entries
    pub reason: String,
    /// Minimum size in bytes, if constrained
    pub min_size: Option<u64>,
    /// File extensions to match, if constrained
    pub extensions: Vec<String>,
}

impl DetectionRule for CustomRule {
    open spec fn spec_name(&self) -> Seq<char> {
        self.name@
    }

    open spec fn spec_matches(&self, entry: FileEntryV) -> bool {
        &&& (match self.min_size {
            Some(t) => entry.size >= t,
            None => true,
        })
        &&& (self.extensions.deep_view().len() == 0 || (match extension_of(
            basename_of(entry.path),
        ) {
            Some(e) => exists|i: int|
                0 <= i < self.extensions.deep_view().len()
                    && #[trigger] self.extensions.deep_view()[i] == e,
            None => false,
        }))
    }

    open spec fn spec_reason(&self) -> Seq<char> {
        self.reason@
    }

    fn name(&self) -> (r: &str)
        ensures
            r@ == self.spec_name(),
    {
        self.name.as_str()
    }

    fn should_flag(&self, entry: &FileEntry, _context: &ScanContext) -> (r: bool)
        ensures
            r == self.spec_matches(entry@),
    {
        let size_ok = match self.min_size {
            Some(t) => entry.size >= t,
            None => true,
        };
        if !size_ok {
            return false;
        }
        if self.extensions.len() == 0 {
            return true;
        }
        let base = basename(entry.path.as_str());
        match extension(base.as_str()) {
            Some(e) => {
                let mut i: usize = 0;
                while i < self.extensions.len()
                    invariant
                        forall|j: int|
                            0 <= j < i ==> #[trigger] self.extensions.deep_view()[j]
                                != extension_of(basename_of(entry@.path)).unwrap(),
                        i <= self.extensions.len(),
                        extension_of(basename_of(entry@.path)) == Some(e@),
                        match self.min_size {
                            Some(t) => entry@.size >= t,
                            None => true,
                        },
                    decreases self.extensions.len() - i,
                {
                    if str_eq(self.extensions[i].as_str(), e.as_str()) {
                        proof {
                            assert(self.extensions.deep_view().len() == self.extensions@.len());
                            assert(self.extensions.deep_view()[i as int]
                                == self.extensions@[i as int].deep_view());
                            assert(self.extensions.deep_view()[i as int] == e@);
                            assert(exists|k: int|
                                0 <= k < self.extensions.deep_view().len()
                                    && #[trigger] self.extensions.deep_view()[k]
                                    == extension_of(basename_of(entry@.path)).unwrap());
                        }
                        return true;
                    }
                    proof {
                        assert(self.extensions.deep_view()[i as int]
                            == self.extensions@[i as int].deep_view());
                    }
                    i = i + 1;
                }
                false
            },
            None => false,
        }
    }

    fn reason(&self) -> (r: String)
        ensures
            r@ == self.spec_reason(),
    {
        let mut s = String::new();
        s.append(self.reason.as_str());
        proof {
            assert(s@ =~= self.reason@);
        }
        s
    }
}

/// One rule of the engine's ordered list.
pub enum RuleKind {
    /// A size-threshold rule
    Size(SizeThresholdRule),
    /// A build-artifact rule
    Artifact(BuildArtifactRule),
    /// A caller-defined rule
    Custom(CustomRule),
}

impl DetectionRule for RuleKind {
    open spec fn spec_name(&self) -> Seq<char> {
        match self {
            RuleKind::Size(r) => r.spec_name(),
            RuleKind::Artifact(r) => r.spec_name(),
            RuleKind::Custom(r) => r.spec_name(),
        }
    }

    open spec fn spec_matches(&self, entry: FileEntryV) -> bool {
        match self {
            RuleKind::Size(r) => r.spec_matches(entry),
            RuleKind::Artifact(r) => r.spec_matches(entry),
            RuleKind::Custom(r) => r.spec_matches(entry),
        }
    }

    open spec fn spec_reason(&self) -> Seq<char> {
        match self {
            RuleKind::Size(r) => r.spec_reason(),
            RuleKind::Artifact(r) => r.spec_reason(),
            RuleKind::Custom(r) => r.spec_reason(),
        }
    }

    fn name(&self) -> (r: &str)
        ensures
            r@ == self.spec_name(),
    {
        match self {
            RuleKind::Size(r) => r.name(),
            RuleKind::Artifact(r) => r.name(),
            RuleKind::Custom(r) => r.name(),
        }
    }

    fn should_flag(&self, entry: &FileEntry, context: &ScanContext) -> (r: bool)
        ensures
            r == self.spec_matches(entry@),
    {
        match self {
            RuleKind::Size(r) => r.should_flag(entry, context),
            RuleKind::Artifact(r) => r.should_flag(entry, context),
            RuleKind::Custom(r) => r.should_flag(entry, context),
        }
    }

    fn reason(&self) -> (r: String)
        ensures
            r@ == self.spec_reason(),
    {
        match self {
            RuleKind::Size(r) => r.reason(),
            RuleKind::Artifact(r) => r.reason(),
            RuleKind::Custom(r) => r.reason(),
        }
    }
}

// ---------------------------------------------------------------------------
// Protection policy
// ---------------------------------------------------------------------------

/// What the filesystem said about one entry when the engine examined it:
/// whether the path is a file or a directory on disk, and whether the
/// directory holds a version-control or package-manifest marker.
#[derive(Debug, Clone, Copy, PartialEq, Eq, Structural)]
pub struct ProbeFlags {
    /// The path is a regular file on disk
    pub on_disk_file: bool,
    /// The path is a directory on disk
    pub on_disk_dir: bool,
    /// The directory holds a version-control or package-manifest marker
    pub repo_marker: bool,
    /// The directory holds a package-manifest file
    pub manifest_marker: bool,
}

/// Whether an extension (lower-cased) names a recognized source-code file.
pub open spec fn is_source_ext(e: Seq<char>) -> bool {
    ||| e == "rs"@
    ||| e == "ts"@
    ||| e == "tsx"@
    ||| e == "js"@
    ||| e == "jsx"@
    ||| e == "svelte"@
    ||| e == "vue"@
    ||| e == "py"@
    ||| e == "go"@
    ||| e == "java"@
    ||| e == "kt"@
    ||| e == "c"@
    ||| e == "cc"@
    ||| e == "cpp"@
    ||| e == "h"@
    ||| e == "hpp"@
    ||| e == "cs"@
    ||| e == "rb"@
    ||| e == "php"@
}

fn source_ext(e: &str) -> (r: bool)
    ensures
        r == is_source_ext(e@),
{
    str_eq(e, "rs") || str_eq(e, "ts") || str_eq(e, "tsx") || str_eq(e, "js") || str_eq(e, "jsx")
        || str_eq(e, "svelte") || str_eq(e, "vue") || str_eq(e, "py") || str_eq(e, "go")
        || str_eq(e, "java") || str_eq(e, "kt") || str_eq(e, "c") || str_eq(e, "cc")
        || str_eq(e, "cpp") || str_eq(e, "h") || str_eq(e, "hpp") || str_eq(e, "cs")
        || str_eq(e, "rb") || str_eq(e, "php")
}

/// Whether a directory name (lower-cased) names a recognized source or
/// configuration directory.
pub open spec fn is_source_dir_name(n: Seq<char>) -> bool {
    ||| n == "src"@
    ||| n == "app"@
    ||| n == "apps"@
    ||| n == "lib"@
    ||| n == "libs"@
    ||| n == "packages"@
    ||| n == ".git"@
    ||| n == ".hg"@
    ||| n == ".svn"@
    ||| n == ".idea"@
    ||| n == ".vscode"@
    ||| n == "config"@
    ||| n == "configs"@
    ||| n == "docs"@
}

fn source_dir_name(n: &str) -> (r: bool)
    ensures
        r == is_source_dir_name(n@),
{
    str_eq(n, "src") || str_eq(n, "app") || str_eq(n, "apps") || str_eq(n, "lib")
        || str_eq(n, "libs") || str_eq(n, "packages") || str_eq(n, ".git") || str_eq(n, ".hg")
        || str_eq(n, ".svn") || str_eq(n, ".idea") || str_eq(n, ".vscode") || str_eq(n, "config")
        || str_eq(n, "configs") || str_eq(n, "docs")
}

/// Whether a directory name (lower-cased) names a conventional
/// generated-output directory, which is never treated as a protected root.
pub open spec fn is_junk_dir_name(n: Seq<char>) -> bool {
    ||| n == "node_modules"@
    ||| n == "target"@
    ||| n == "dist"@
    ||| n == "build"@
    ||| n == ".next"@
    ||| n == "__pycache__"@
    ||| n == ".pytest_cache"@
    ||| n == ".cache"@
    ||| n == "bin"@
    ||| n == "obj"@
}

/// Whether the entry's path carries a conventional generated-output name.
pub open spec fn spec_known_junk_dir(path: Seq<char>) -> bool {
    is_junk_dir_name(lower_seq(basename_of(path)))
}

fn is_known_junk_dir(path: &str) -> (r: bool)
    ensures
        r == spec_known_junk_dir(path@),
{
    let base = basename(path);
    let n = to_ascii_lower(base.as_str());
    str_eq(n.as_str(), "node_modules") || str_eq(n.as_str(), "target") || str_eq(n.as_str(), "dist")
        || str_eq(n.as_str(), "build") || str_eq(n.as_str(), ".next")
        || str_eq(n.as_str(), "__pycache__") || str_eq(n.as_str(), ".pytest_cache")
        || str_eq(n.as_str(), ".cache") || str_eq(n.as_str(), "bin") || str_eq(n.as_str(), "obj")
}

/// Whether the entry is protected as source code: a file on disk bearing a
/// recognized source extension, or a directory on disk bearing a
/// recognized source or configuration name.
pub open spec fn spec_protected_source(entry: FileEntryV, probe: ProbeFlags) -> bool {
    ||| (probe.on_disk_file && (match extension_of(basename_of(entry.path)) {
        Some(e) => is_source_ext(lower_seq(e)),
        None => false,
    }))
    ||| (probe.on_disk_dir && is_source_dir_name(lower_seq(basename_of(entry.path))))
}

fn is_protected_source(entry: &FileEntry, probe: ProbeFlags) -> (r: bool)
    ensures
        r == spec_protected_source(entry@, probe),
{
    if probe.on_disk_file {
        let base = basename(entry.path.as_str());
        match extension(base.as_str()) {
            Some(e) => {
                let le = to_ascii_lower(e.as_str());
                if source_ext(le.as_str()) {
                    return true;
                }
            },
            None => {},
        }
    }
    if probe.on_disk_dir {
        let base = basename(entry.path.as_str());
        let ln = to_ascii_lower(base.as_str());
        if source_dir_name(ln.as_str()) {
            return true;
        }
    }
    false
}

/// Whether the entry is a protected project root: a directory that is not
/// itself a generated-output directory, and either is the
/// current-directory marker or holds a version-control or
/// package-manifest marker.
pub open spec fn spec_repo_root(entry: FileEntryV, probe: ProbeFlags) -> bool {
    &&& entry.entry_type == EntryType::Directory
    &&& !spec_known_junk_dir(entry.path)
    &&& (entry.path == "."@ || probe.repo_marker)
}

fn is_repo_root(entry: &FileEntry, probe: ProbeFlags) -> (r: bool)
    ensures
        r == spec_repo_root(entry@, probe),
{
    if !entry.is_directory() {
        return false;
    }
    if is_known_junk_dir(entry.path.as_str()) {
        return false;
    }
    if str_eq(entry.path.as_str(), ".") {
        return true;
    }
    probe.repo_marker
}

/// Whether the entry is a directory protected by a package manifest
/// directly inside it, and not itself a generated-output directory.
pub open spec fn spec_protected_manifest(entry: FileEntryV, probe: ProbeFlags) -> bool {
    &&& entry.entry_type == EntryType::Directory
    &&& !spec_known_junk_dir(entry.path)
    &&& probe.manifest_marker
}

fn is_protected_manifest(entry: &FileEntry, probe: ProbeFlags) -> (r: bool)
    ensures
        r == spec_protected_manifest(entry@, probe),
{
    if !entry.is_directory() {
        return false;
    }
    if is_known_junk_dir(entry.path.as_str()) {
        return false;
    }
    probe.manifest_marker
}

/// Whether the protection policy excludes the entry from consideration
/// entirely, before any rule runs.
pub open spec fn spec_excluded(entry: FileEntryV, probe: ProbeFlags) -> bool {
    ||| spec_protected_source(entry, probe)
    ||| spec_repo_root(entry, probe)
    ||| spec_protected_manifest(entry, probe)
}

/// Probes the filesystem for the protection facts about one entry.
fn probe_entry(entry: &FileEntry) -> ProbeFlags {
    let p = entry.path.as_str();
    let repo_marker = crate::probe::probe_child_exists(p, ".git")
        || crate::probe::probe_child_exists(p, ".hg") || crate::probe::probe_child_exists(p, ".svn")
        || crate::probe::probe_child_exists(p, "package.json")
        || crate::probe::probe_child_exists(p, "Cargo.toml");
    let manifest_marker = crate::probe::probe_child_exists(p, "package.json")
        || crate::probe::probe_child_exists(p, "Cargo.toml")
        || crate::probe::probe_child_exists(p, "pyproject.toml");
    ProbeFlags {
        on_disk_file: crate::probe::probe_is_file(p),
        on_disk_dir: crate::probe::probe_is_dir(p),
        repo_marker,
        manifest_marker,
    }
}

// ---------------------------------------------------------------------------
// Engine
// ---------------------------------------------------------------------------

/// The first rule index at or past `i` whose predicate matches the entry.
pub open spec fn spec_match_from(rules: Seq<RuleKind>, entry: FileEntryV, i: int) -> Option<int>
    decreases rules.len() - i,
{
    if i < 0 || i >= rules.len() {
        None
    } else if rules[i].spec_matches(entry) {
        Some(i)
    } else {
        spec_match_from(rules, entry, i + 1)
    }
}

/// What the engine reports for one entry: nothing when the protection
/// policy excludes it or no rule matches; otherwise one detection carrying
/// the earliest matching rule's name and reason.
pub open spec fn spec_detect_one(
    rules: Seq<RuleKind>,
    entry: FileEntryV,
    probe: ProbeFlags,
) -> Option<DetectionResultV> {
    if spec_excluded(entry, probe) {
        None
    } else {
        match spec_match_from(rules, entry, 0) {
            Some(k) => Some(DetectionResultV {
                entry,
                rule_name: rules[k].spec_name(),
                reason: rules[k].spec_reason(),
            }),
            None => None,
        }
    }
}

/// What the engine reports for a list of entries, in input order, one
/// detection at most per entry.
pub open spec fn spec_detections(
    entries: Seq<FileEntryV>,
    probes: Seq<ProbeFlags>,
    rules: Seq<RuleKind>,
) -> Seq<DetectionResultV>
    decreases entries.len(),
{
    if entries.len() == 0 {
        Seq::<DetectionResultV>::empty()
    } else {
        let rest = spec_detections(entries.skip(1), probes.skip(1), rules);
        match spec_detect_one(rules, entries[0], probes[0]) {
            Some(d) => seq![d] + rest,
            None => rest,
        }
    }
}

/// Engine that applies an ordered list of detection rules to identify
/// cleanup candidates.
pub struct DetectionEngine {
    rules: Vec<RuleKind>,
}

impl DetectionEngine {
    /// The engine's ordered rule list, as contracts see it.
    pub closed spec fn spec_rules(&self) -> Seq<RuleKind> {
        self.rules@
    }

    /// Creates a new DetectionEngine with the default rules: a 100 MB size
    /// threshold, then the build-artifact rule.
    pub fn new() -> (r: Self)
        ensures
            r.spec_rules().len() == 2,
            r.spec_rules()[0] matches RuleKind::Size(s) && s.threshold_bytes == 104857600,
            r.spec_rules()[1] matches RuleKind::Artifact(b) && b.spec_patterns()
                == default_artifact_patterns(),
    {
        let mut rules: Vec<RuleKind> = Vec::new();
        rules.push(RuleKind::Size(SizeThresholdRule { threshold_bytes: 100 * 1048576 }));
        rules.push(RuleKind::Artifact(BuildArtifactRule::new()));
        Self { rules }
    }

    /// Creates an empty DetectionEngine with no rules.
    pub fn empty() -> (r: Self)
        ensures
            r.spec_rules() == Seq::<RuleKind>::empty(),
    {
        let r = Self { rules: Vec::new() };
        proof {
            assert(r.spec_rules() =~= Seq::<RuleKind>::empty());
        }
        r
    }

    /// Adds a rule at the end of the engine's ordered list.
    pub fn add_rule(&mut self, rule: RuleKind)
        ensures
            final(self).spec_rules() == old(self).spec_rules().push(rule),
    {
        self.rules.push(rule);
    }

    /// Returns the number of rules in this engine.
    pub fn rule_count(&self) -> (r: usize)
        ensures
            r == self.spec_rules().len(),
    {
        self.rules.len()
    }

    /// Analyzes entries and returns those flagged by any rule, in input
    /// order: for the protection facts the filesystem reported, the result
    /// is exactly the specified detection list.
    pub fn analyze(&self, entries: &[FileEntry], context: &ScanContext) -> (r: Vec<
        DetectionResult,
    >)
        ensures
            exists|probes: Seq<ProbeFlags>|
                probes.len() == entries@.len() && r.deep_view() == #[trigger] spec_detections(
                    entries.deep_view(),
                    probes,
                    self.spec_rules(),
                ),
    {
        let mut probes: Vec<ProbeFlags> = Vec::new();
        let mut i: usize = 0;
        while i < entries.len()
            invariant
                probes@.len() == i,
                i <= entries@.len(),
            decreases entries@.len() - i,
        {
            probes.push(probe_entry(&entries[i]));
            i = i + 1;
        }
        let r = self.analyze_probed(entries, &probes, context);
        proof {
            assert(probes@.len() == entries@.len() && r.deep_view() == spec_detections(
                entries.deep_view(),
                probes@,
                self.spec_rules(),
            ));
        }
        r
    }

    /// Analyzes entries against given protection facts: the pure core of
    /// the engine, fully determined by its inputs.
    pub fn analyze_probed(
        &self,
        entries: &[FileEntry],
        probes: &Vec<ProbeFlags>,
        context: &ScanContext,
    ) -> (r: Vec<DetectionResult>)
        requires
            probes@.len() == entries@.len(),
        ensures
            r.deep_view() == spec_detections(entries.deep_view(), probes@, self.spec_rules()),
    {
        let mut out: Vec<DetectionResult> = Vec::new();
        let mut i: usize = 0;
        proof {
            assert(entries.deep_view().skip(0) =~= entries.deep_view());
            assert(probes@.skip(0) =~= probes@);
            assert(out.deep_view() =~= Seq::<DetectionResultV>::empty());
        }
        while i < entries.len()
            invariant
                probes@.len() == entries@.len(),
                entries.deep_view().len() == entries@.len(),
                i <= entries@.len(),
                out.deep_view() + spec_detections(
                    entries.deep_view().skip(i as int),
                    probes@.skip(i as int),
                    self.spec_rules(),
                ) == spec_detections(entries.deep_view(), probes@, self.spec_rules()),
            decreases entries@.len() - i,
        {
            let entry = &entries[i];
            let probe = probes[i];
            proof {
                let se = entries.deep_view().skip(i as int);
                let sp = probes@.skip(i as int);
                assert(se.len() > 0);
                assert(se[0] == entries.deep_view()[i as int]);
                assert(entries.deep_view()[i as int] == entries@[i as int].deep_view());
                assert(sp[0] == probes@[i as int]);
                assert(se.skip(1) =~= entries.deep_view().skip(i + 1 as int));
                assert(sp.skip(1) =~= probes@.skip(i + 1 as int));
            }
            let ghost out0 = out.deep_view();
            if !is_protected_source(entry, probe) && !is_repo_root(entry, probe)
                && !is_protected_manifest(entry, probe) {
                match self.first_match(entry, context) {
                    Some(k) => {
                        let rule = &self.rules[k];
                        let d = DetectionResult {
                            entry: FileEntry {
                                path: clone_string(&entry.path),
                                size: entry.size,
                                modified: entry.modified,
                                entry_type: entry.entry_type,
                                file_id: entry.file_id,
                            },
                            rule_name: String::from_str(rule.name()),
                            reason: rule.reason(),
                        };
                        let ghost dv = d.deep_view();
                        out.push(d);
                        proof {
                            assert(out.deep_view() =~= out0.push(dv));
                            assert(spec_detect_one(
                                self.spec_rules(),
                                entries.deep_view()[i as int],
                                probes@[i as int],
                            ) == Some(dv));
                            assert(out0 + (seq![dv] + spec_detections(
                                entries.deep_view().skip(i + 1 as int),
                                probes@.skip(i + 1 as int),
                                self.spec_rules(),
                            )) =~= out.deep_view() + spec_detections(
                                entries.deep_view().skip(i + 1 as int),
                                probes@.skip(i + 1 as int),
                                self.spec_rules(),
                            ));
                        }
                    },
                    None => {
                        proof {
                            assert(spec_detect_one(
                                self.spec_rules(),
                                entries.deep_view()[i as int],
                                probes@[i as int],
                            ) is None);
                        }
                    },
                }
            } else {
                proof {
                    assert(spec_excluded(entries.deep_view()[i as int], probes@[i as int]));
                }
            }
            i = i + 1;
        }
        proof {
            assert(entries.deep_view().skip(entries@.len() as int)
                =~= Seq::<FileEntryV>::empty());
            assert(probes@.skip(entries@.len() as int) =~= Seq::<ProbeFlags>::empty());
            assert(out.deep_view() + Seq::<DetectionResultV>::empty() =~= out.deep_view());
        }
        out
    }

    /// Index of the earliest rule matching the entry.
    fn first_match(&self, entry: &FileEntry, context: &ScanContext) -> (r: Option<usize>)
        ensures
            r is Some <==> spec_match_from(self.spec_rules(), entry@, 0) is Some,
            r is Some ==> spec_match_from(self.spec_rules(), entry@, 0) == Some(
                r.unwrap() as int,
            ) && r.unwrap() < self.spec_rules().len(),
    {
        let mut i: usize = 0;
        while i < self.rules.len()
            invariant
                i <= self.rules.len(),
                spec_match_from(self.spec_rules(), entry@, 0) == spec_match_from(
                    self.spec_rules(),
                    entry@,
                    i as int,
                ),
            decreases self.rules.len() - i,
        {
            if self.rules[i].should_flag(entry, context) {
                return Some(i);
            }
            i = i + 1;
        }
        None
    }
}

/// Clones a string with its contents known.
pub(crate) fn clone_string(s: &String) -> (r: String)
    ensures
        r@ == s@,
{
    String::from_str(s.as_str())
}

impl Default for DetectionEngine {
    /// Creates a DetectionEngine with the default rules.
    fn default() -> (r: Self)
        ensures
            r.spec_rules().len() == 2,
            r.spec_rules()[0] matches RuleKind::Size(s) && s.threshold_bytes == 104857600,
            r.spec_rules()[1] matches RuleKind::Artifact(b) && b.spec_patterns()
                == default_artifact_patterns(),
    {
        Self::new()
    }
}

// ---------------------------------------------------------------------------
// Laws
// ---------------------------------------------------------------------------

/// Law: detection is deterministic. The engine's output is a function of
/// the entries, the protection facts and the rule list alone: any two
/// results of analyzing the same inputs are the same sequence, in the same
/// order.
pub proof fn lemma_detection_deterministic(
    entries: Seq<FileEntryV>,
    probes: Seq<ProbeFlags>,
    rules: Seq<RuleKind>,
    r1: Seq<DetectionResultV>,
    r2: Seq<DetectionResultV>,
)
    requires
        r1 == spec_detections(entries, probes, rules),
        r2 == spec_detections(entries, probes, rules),
    ensures
        r1 == r2,
{
}

proof fn lemma_match_from_props(rules: Seq<RuleKind>, entry: FileEntryV, i: int)
    requires
        0 <= i <= rules.len(),
    ensures
        match spec_match_from(rules, entry, i) {
            Some(k) => {
                &&& i <= k < rules.len()
                &&& rules[k].spec_matches(entry)
                &&& forall|j: int| i <= j < k ==> !(#[trigger] rules[j].spec_matches(entry))
            },
            None => forall|j: int| i <= j < rules.len() ==> !(#[trigger] rules[j].spec_matches(
                entry,
            )),
        },
    decreases rules.len() - i,
{
    if i < rules.len() && !rules[i].spec_matches(entry) {
        lemma_match_from_props(rules, entry, i + 1);
    }
}

/// Law: with several matching rules, exactly one detection is produced for
/// the entry, and it carries the earliest-indexed matching rule's name and
/// reason.
pub proof fn lemma_first_matching_rule_wins(
    rules: Seq<RuleKind>,
    entry: FileEntryV,
    probe: ProbeFlags,
)
    requires
        !spec_excluded(entry, probe),
        exists|j: int| 0 <= j < rules.len() && #[trigger] rules[j].spec_matches(entry),
    ensures
        spec_detect_one(rules, entry, probe) is Some,
        exists|k: int|
            {
                &&& 0 <= k < rules.len()
                &&& #[trigger] rules[k].spec_matches(entry)
                &&& forall|j: int| 0 <= j < k ==> !(#[trigger] rules[j].spec_matches(entry))
                &&& spec_detect_one(rules, entry, probe) == Some(DetectionResultV {
                    entry,
                    rule_name: rules[k].spec_name(),
                    reason: rules[k].spec_reason(),
                })
            },
{
    lemma_match_from_props(rules, entry, 0);
    let k: int = spec_match_from(rules, entry, 0).unwrap();
    assert(rules[k].spec_matches(entry));
}

/// The indices of the entries that contribute a detection, in order.
pub open spec fn detected_indices(
    entries: Seq<FileEntryV>,
    probes: Seq<ProbeFlags>,
    rules: Seq<RuleKind>,
) -> Seq<int>
    decreases entries.len(),
{
    if entries.len() == 0 {
        Seq::<int>::empty()
    } else {
        let rest = detected_indices(entries.skip(1), probes.skip(1), rules).map_values(
            |x: int| x + 1,
        );
        match spec_detect_one(rules, entries[0], probes[0]) {
            Some(d) => seq![0] + rest,
            None => rest,
        }
    }
}

/// The detection list corresponds index-for-index, in order, to the
/// entries the engine flagged: one detection per flagged entry, none for
/// the others.
pub proof fn lemma_detections_indexed(
    entries: Seq<FileEntryV>,
    probes: Seq<ProbeFlags>,
    rules: Seq<RuleKind>,
)
    requires
        probes.len() == entries.len(),
    ensures
        ({
            let out = spec_detections(entries, probes, rules);
            let di = detected_indices(entries, probes, rules);
            &&& out.len() == di.len()
            &&& forall|m: int| 0 <= m < di.len() ==> 0 <= #[trigger] di[m] < entries.len()
            &&& forall|m: int|
                0 <= m < di.len() ==> spec_detect_one(
                    rules,
                    entries[#[trigger] di[m]],
                    probes[di[m]],
                ) == Some(out[m])
            &&& forall|m1: int, m2: int| 0 <= m1 < m2 < di.len() ==> di[m1] < di[m2]
            &&& forall|i: int|
                0 <= i < entries.len() ==> ((#[trigger] spec_detect_one(
                    rules,
                    entries[i],
                    probes[i],
                )) is Some <==> exists|m: int| 0 <= m < di.len() && #[trigger] di[m] == i)
        }),
    decreases entries.len(),
{
    if entries.len() == 0 {
    } else {
        lemma_detections_indexed(entries.skip(1), probes.skip(1), rules);
        let out = spec_detections(entries, probes, rules);
        let di = detected_indices(entries, probes, rules);
        let outr = spec_detections(entries.skip(1), probes.skip(1), rules);
        let dir = detected_indices(entries.skip(1), probes.skip(1), rules);
        assert(forall|m: int|
            0 <= m < dir.len() ==> 0 <= #[trigger] dir[m] < entries.skip(1).len());
        assert(forall|m: int|
            0 <= m < dir.len() ==> entries.skip(1)[#[trigger] dir[m]] == entries[dir[m] + 1]);
        assert(forall|m: int|
            0 <= m < dir.len() ==> probes.skip(1)[#[trigger] dir[m]] == probes[dir[m] + 1]);
        let shifted = dir.map_values(|x: int| x + 1);
        assert(shifted.len() == dir.len());
        assert(forall|m: int| 0 <= m < shifted.len() ==> #[trigger] shifted[m] == dir[m] + 1);
        match spec_detect_one(rules, entries[0], probes[0]) {
            Some(d) => {
                assert(di == seq![0] + shifted);
                assert(out == seq![d] + outr);
                assert(di[0] == 0);
                assert(out[0] == d);
                assert(forall|m: int| 1 <= m < di.len() ==> #[trigger] di[m] == dir[m - 1] + 1);
                assert(forall|m: int| 1 <= m < out.len() ==> #[trigger] out[m] == outr[m - 1]);
                assert forall|i: int|
                    0 <= i < entries.len() implies ((#[trigger] spec_detect_one(
                    rules,
                    entries[i],
                    probes[i],
                )) is Some <==> exists|m: int| 0 <= m < di.len() && #[trigger] di[m] == i) by {
                    if i == 0 {
                        assert(di[0] == 0);
                    } else {
                        assert(entries.skip(1)[i - 1] == entries[i]);
                        assert(probes.skip(1)[i - 1] == probes[i]);
                        if spec_detect_one(rules, entries[i], probes[i]) is Some {
                            let m0: int = choose|m0: int|
                                0 <= m0 < dir.len() && #[trigger] dir[m0] == i - 1;
                            assert(di[m0 + 1] == i);
                        } else {
                            if exists|m: int| 0 <= m < di.len() && #[trigger] di[m] == i {
                                let m: int = choose|m: int|
                                    0 <= m < di.len() && #[trigger] di[m] == i;
                                assert(m >= 1);
                                assert(dir[m - 1] == i - 1);
                            }
                        }
                    }
                }
            },
            None => {
                assert(di == shifted);
                assert(out == outr);
                assert forall|i: int|
                    0 <= i < entries.len() implies ((#[trigger] spec_detect_one(
                    rules,
                    entries[i],
                    probes[i],
                )) is Some <==> exists|m: int| 0 <= m < di.len() && #[trigger] di[m] == i) by {
                    if i == 0 {
                        if exists|m: int| 0 <= m < di.len() && #[trigger] di[m] == 0 {
                            let m: int = choose|m: int|
                                0 <= m < di.len() && #[trigger] di[m] == 0;
                            assert(di[m] == dir[m] + 1);
                            assert(false);
                        }
                    } else {
                        assert(entries.skip(1)[i - 1] == entries[i]);
                        assert(probes.skip(1)[i - 1] == probes[i]);
                        if spec_detect_one(rules, entries[i], probes[i]) is Some {
                            let m0: int = choose|m0: int|
                                0 <= m0 < dir.len() && #[trigger] dir[m0] == i - 1;
                            assert(di[m0] == i);
                        } else {
                            if exists|m: int| 0 <= m < di.len() && #[trigger] di[m] == i {
                                let m: int = choose|m: int|
                                    0 <= m < di.len() && #[trigger] di[m] == i;
                                assert(dir[m] == i - 1);
                            }
                        }
                    }
                }
            },
        }
    }
}

/// Law: over a whole entry list, an entry that the protection policy
/// admits and that more than one rule matches yields exactly one
/// detection, and it carries the earliest-indexed matching rule's name
/// and reason.
pub proof fn lemma_list_first_matching_rule_wins(
    entries: Seq<FileEntryV>,
    probes: Seq<ProbeFlags>,
    rules: Seq<RuleKind>,
)
    requires
        probes.len() == entries.len(),
    ensures
        ({
            let out = spec_detections(entries, probes, rules);
            let di = detected_indices(entries, probes, rules);
            forall|i: int|
                0 <= i < entries.len() && !(#[trigger] spec_excluded(entries[i], probes[i]))
                    && (exists|j: int|
                    0 <= j < rules.len() && #[trigger] rules[j].spec_matches(entries[i]))
                    ==> exists|m: int|
                    {
                        &&& 0 <= m < out.len()
                        &&& #[trigger] di[m] == i
                        &&& forall|m2: int| 0 <= m2 < di.len() && #[trigger] di[m2] == i ==> m2
                            == m
                        &&& exists|k: int|
                            {
                                &&& 0 <= k < rules.len()
                                &&& #[trigger] rules[k].spec_matches(entries[i])
                                &&& forall|j: int|
                                    0 <= j < k ==> !(#[trigger] rules[j].spec_matches(
                                        entries[i],
                                    ))
                                &&& out[m] == (DetectionResultV {
                                    entry: entries[i],
                                    rule_name: rules[k].spec_name(),
                                    reason: rules[k].spec_reason(),
                                })
                            }
                    }
        }),
{
    lemma_detections_indexed(entries, probes, rules);
    let out = spec_detections(entries, probes, rules);
    let di = detected_indices(entries, probes, rules);
    assert forall|i: int|
        0 <= i < entries.len() && !(#[trigger] spec_excluded(entries[i], probes[i])) && (
        exists|j: int| 0 <= j < rules.len() && #[trigger] rules[j].spec_matches(entries[i]))
        implies exists|m: int|
        {
            &&& 0 <= m < out.len()
            &&& #[trigger] di[m] == i
            &&& forall|m2: int| 0 <= m2 < di.len() && #[trigger] di[m2] == i ==> m2 == m
            &&& exists|k: int|
                {
                    &&& 0 <= k < rules.len()
                    &&& #[trigger] rules[k].spec_matches(entries[i])
                    &&& forall|j: int|
                        0 <= j < k ==> !(#[trigger] rules[j].spec_matches(entries[i]))
                    &&& out[m] == (DetectionResultV {
                        entry: entries[i],
                        rule_name: rules[k].spec_name(),
                        reason: rules[k].spec_reason(),
                    })
                }
        } by {
        lemma_first_matching_rule_wins(rules, entries[i], probes[i]);
        assert(spec_detect_one(rules, entries[i], probes[i]) is Some);
        let m: int = choose|m: int| 0 <= m < di.len() && #[trigger] di[m] == i;
        assert(spec_detect_one(rules, entries[i], probes[i]) == Some(out[m]));
        assert forall|m2: int| 0 <= m2 < di.len() && #[trigger] di[m2] == i implies m2 == m by {
            if m2 < m {
                assert(di[m2] < di[m]);
            } else if m2 > m {
                assert(di[m] < di[m2]);
            }
        }
        let k: int = choose|k: int|
            {
                &&& 0 <= k < rules.len()
                &&& #[trigger] rules[k].spec_matches(entries[i])
                &&& forall|j: int|
                    0 <= j < k ==> !(#[trigger] rules[j].spec_matches(entries[i]))
                &&& spec_detect_one(rules, entries[i], probes[i]) == Some(
                    DetectionResultV {
                        entry: entries[i],
                        rule_name: rules[k].spec_name(),
                        reason: rules[k].spec_reason(),
                    },
                )
            };
        assert(out[m] == (DetectionResultV {
            entry: entries[i],
            rule_name: rules[k].spec_name(),
            reason: rules[k].spec_reason(),
        }));
    }
}

} // verus!
