//! Plan generation from detection results, and plan-writing support:
//! validation, rendering, and the temporary-sibling path used for atomic
//! replacement.

use vstd::prelude::*;
use vstd::seq_lib::group_to_multiset_ensures;
use crate::clock::{clamp_format_secs, rfc3339_clamped, rfc3339_of};
use crate::detector::{DetectionResult, DetectionResultV};
use crate::models::{
    CleanupAction, CleanupEntry, CleanupEntryV, CleanupPlan, CleanupPlanV, EntryType,
};
use crate::paths::{basename_of, extension_of, is_strict_descendant, rel_of, rel_path};

verus! {

broadcast use group_to_multiset_ensures;

/// The default disposition for a rule identity: build artifacts are
/// regenerable and default to `Delete`; every other rule, including
/// unrecognized custom rules, defaults to `Review`.
pub open spec fn spec_default_action(rule_name: Seq<char>) -> CleanupAction {
    if rule_name == "build_artifact"@ {
        CleanupAction::Delete
    } else {
        CleanupAction::Review
    }
}

/// Whether the detection list is ordered by path length ascending, so a
/// parent directory is visited no later than any of its descendants.
pub open spec fn sorted_by_path_len(dets: Seq<DetectionResultV>) -> bool {
    forall|i: int, j: int|
        0 <= i <= j < dets.len() ==> (#[trigger] dets[i].entry.path).len()
            <= (#[trigger] dets[j].entry.path).len()
}

/// The plan entry generated for one detection.
pub open spec fn spec_entry_for(det: DetectionResultV, protected: bool, base: Seq<char>) -> CleanupEntryV {
    CleanupEntryV {
        path: rel_of(det.entry.path, base),
        size: det.entry.size,
        modified: rfc3339_of(clamp_format_secs(det.entry.modified as int)),
        action: if protected {
            CleanupAction::Review
        } else {
            spec_default_action(det.rule_name)
        },
        rule_name: det.rule_name,
        reason: det.reason,
    }
}

/// Whether a detection is dropped: its path lies strictly below a
/// directory already assigned `Delete`.
pub open spec fn spec_dropped(det: DetectionResultV, deleted: Seq<Seq<char>>) -> bool {
    exists|k: int|
        0 <= k < deleted.len() && is_strict_descendant(det.entry.path, #[trigger] deleted[k])
}

/// The entries of the generated plan: detections processed in order, each
/// either dropped (a strict descendant of a directory already assigned
/// `Delete`), or emitted with its disposition; a directory assigned
/// `Delete` extends the deleted set for all later detections.
pub open spec fn spec_build(
    dets: Seq<DetectionResultV>,
    flags: Seq<bool>,
    base: Seq<char>,
    deleted: Seq<Seq<char>>,
) -> Seq<CleanupEntryV>
    decreases dets.len(),
{
    if dets.len() == 0 {
        Seq::<CleanupEntryV>::empty()
    } else if spec_dropped(dets[0], deleted) {
        spec_build(dets.skip(1), flags.skip(1), base, deleted)
    } else {
        let e = spec_entry_for(dets[0], flags[0], base);
        let deleted2 = if dets[0].entry.entry_type == EntryType::Directory && e.action
            == CleanupAction::Delete {
            deleted.push(dets[0].entry.path)
        } else {
            deleted
        };
        seq![e] + spec_build(dets.skip(1), flags.skip(1), base, deleted2)
    }
}

/// Every entry the builder emits carries a non-empty path, provided
/// every detection's path is non-empty: rebasing yields the sentinel or
/// a non-empty suffix, never an empty string.
pub proof fn lemma_build_nonempty_paths(
    dets: Seq<DetectionResultV>,
    flags: Seq<bool>,
    base: Seq<char>,
    deleted: Seq<Seq<char>>,
)
    requires
        flags.len() == dets.len(),
        forall|i: int| 0 <= i < dets.len() ==> (#[trigger] dets[i]).entry.path.len() > 0,
    ensures
        forall|j: int|
            0 <= j < spec_build(dets, flags, base, deleted).len() ==> (#[trigger] spec_build(
                dets,
                flags,
                base,
                deleted,
            )[j]).path.len() > 0,
    decreases dets.len(),
{
    if dets.len() > 0 {
        assert(forall|i: int|
            0 <= i < dets.skip(1).len() ==> (#[trigger] dets.skip(1)[i]).entry.path.len() > 0)
            by {
            assert(forall|i: int|
                0 <= i < dets.skip(1).len() ==> #[trigger] dets.skip(1)[i] == dets[i + 1]);
        }
        let out = spec_build(dets, flags, base, deleted);
        if spec_dropped(dets[0], deleted) {
            lemma_build_nonempty_paths(dets.skip(1), flags.skip(1), base, deleted);
        } else {
            let e = spec_entry_for(dets[0], flags[0], base);
            let deleted2 = if dets[0].entry.entry_type == EntryType::Directory && e.action
                == CleanupAction::Delete {
                deleted.push(dets[0].entry.path)
            } else {
                deleted
            };
            lemma_build_nonempty_paths(dets.skip(1), flags.skip(1), base, deleted2);
            crate::paths::lemma_rel_of_nonempty(dets[0].entry.path, base);
            let rest = spec_build(dets.skip(1), flags.skip(1), base, deleted2);
            assert(out[0] == e);
            assert(forall|j: int| 1 <= j < out.len() ==> #[trigger] out[j] == rest[j - 1]);
        }
    }
}

/// Generates cleanup plans from detection results.
pub struct PlanGenerator {
    base_path: String,
}

impl PlanGenerator {
    /// The base path, as contracts see it.
    pub closed spec fn spec_base(&self) -> Seq<char> {
        self.base_path@
    }

    /// Creates a new PlanGenerator for the specified base path.
    pub fn new(base_path: String) -> (r: Self)
        ensures
            r.spec_base() == base_path@,
    {
        Self { base_path }
    }

    /// Returns the base path for this generator.
    pub fn base_path(&self) -> (r: &str)
        ensures
            r@ == self.spec_base(),
    {
        self.base_path.as_str()
    }

    /// The default action for a rule identity.
    fn default_action_for_rule(&self, rule_name: &str) -> (r: CleanupAction)
        ensures
            r == spec_default_action(rule_name@),
    {
        if crate::text::str_eq(rule_name, "build_artifact") {
            CleanupAction::Delete
        } else {
            CleanupAction::Review
        }
    }

    /// Generates a cleanup plan from detection results.
    ///
    /// Detections are sorted by path length ascending, so a parent comes
    /// no later than its descendants; a detection below a directory
    /// already assigned `Delete` is dropped entirely; protected paths are
    /// forced to `Review`; paths are rewritten relative to the base path,
    /// with the sentinel `.` for the base path itself.
    pub fn generate(&self, detections: Vec<DetectionResult>) -> (r: CleanupPlan)
        ensures
            r@.version == "1.0"@,
            r@.base_path == self.spec_base(),
            exists|sorted: Seq<DetectionResultV>, flags: Seq<bool>|
                {
                    &&& sorted_by_path_len(sorted)
                    &&& sorted.to_multiset() == detections.deep_view().to_multiset()
                    &&& flags.len() == sorted.len()
                    &&& r@.entries == #[trigger] spec_build(
                        sorted,
                        flags,
                        self.spec_base(),
                        Seq::<Seq<char>>::empty(),
                    )
                },
            (forall|i: int|
                0 <= i < detections.deep_view().len() ==> (#[trigger] detections.deep_view()[i])
                    .entry.path.len() > 0) ==> (forall|j: int|
                0 <= j < r@.entries.len() ==> (#[trigger] r@.entries[j]).path.len() > 0),
    {
        let sorted = sort_by_path_len(detections);
        let mut flags: Vec<bool> = Vec::new();
        let mut i: usize = 0;
        while i < sorted.len()
            invariant
                flags@.len() == i,
                i <= sorted@.len(),
            decreases sorted@.len() - i,
        {
            flags.push(is_protected_path(sorted[i].entry.path.as_str()));
            i = i + 1;
        }
        let r = self.generate_from_sorted(&sorted, &flags);
        proof {
            assert({
                &&& sorted_by_path_len(sorted.deep_view())
                &&& sorted.deep_view().to_multiset() == detections.deep_view().to_multiset()
                &&& flags@.len() == sorted.deep_view().len()
                &&& r@.entries == spec_build(
                    sorted.deep_view(),
                    flags@,
                    self.spec_base(),
                    Seq::<Seq<char>>::empty(),
                )
            });
            if forall|i: int|
                0 <= i < detections.deep_view().len() ==> (#[trigger] detections.deep_view()[i])
                    .entry.path.len() > 0 {
                let sv = sorted.deep_view();
                let dv = detections.deep_view();
                assert forall|i: int| 0 <= i < sv.len() implies (#[trigger] sv[i]).entry.path.len()
                    > 0 by {
                    let x = sv[i];
                    assert(sv.contains(x));
                    sv.to_multiset_ensures();
                    dv.to_multiset_ensures();
                    assert(dv.to_multiset().count(x) > 0);
                    assert(dv.contains(x));
                    let j: int = choose|j: int| 0 <= j < dv.len() && dv[j] == x;
                    assert(dv[j].entry.path.len() > 0);
                }
            }
        }
        r
    }

    /// The pure core of plan generation: builds the plan from an already
    /// sorted detection list and the per-detection protection facts.
    pub fn generate_from_sorted(
        &self,
        detections: &Vec<DetectionResult>,
        protected: &Vec<bool>,
    ) -> (r: CleanupPlan)
        requires
            protected@.len() == detections@.len(),
        ensures
            r@.version == "1.0"@,
            r@.base_path == self.spec_base(),
            r@.entries == spec_build(
                detections.deep_view(),
                protected@,
                self.spec_base(),
                Seq::<Seq<char>>::empty(),
            ),
            (forall|i: int|
                0 <= i < detections.deep_view().len() ==> (#[trigger] detections.deep_view()[i])
                    .entry.path.len() > 0) ==> (forall|j: int|
                0 <= j < r@.entries.len() ==> (#[trigger] r@.entries[j]).path.len() > 0),
    {
        let mut deleted: Vec<String> = Vec::new();
        let mut entries: Vec<CleanupEntry> = Vec::new();
        let mut i: usize = 0;
        proof {
            assert(detections.deep_view().skip(0) =~= detections.deep_view());
            assert(protected@.skip(0) =~= protected@);
            assert(entries.deep_view() =~= Seq::<CleanupEntryV>::empty());
            assert(deleted.deep_view() =~= Seq::<Seq<char>>::empty());
        }
        while i < detections.len()
            invariant
                protected@.len() == detections@.len(),
                detections.deep_view().len() == detections@.len(),
                i <= detections@.len(),
                entries.deep_view() + spec_build(
                    detections.deep_view().skip(i as int),
                    protected@.skip(i as int),
                    self.spec_base(),
                    deleted.deep_view(),
                ) == spec_build(
                    detections.deep_view(),
                    protected@,
                    self.spec_base(),
                    Seq::<Seq<char>>::empty(),
                ),
            decreases detections@.len() - i,
        {
            let det = &detections[i];
            proof {
                let sd = detections.deep_view().skip(i as int);
                let sp = protected@.skip(i as int);
                assert(sd.len() > 0);
                assert(sd[0] == detections.deep_view()[i as int]);
                assert(detections.deep_view()[i as int] == detections@[i as int].deep_view());
                assert(sp[0] == protected@[i as int]);
                assert(sd.skip(1) =~= detections.deep_view().skip(i + 1 as int));
                assert(sp.skip(1) =~= protected@.skip(i + 1 as int));
            }
            let ghost entries0 = entries.deep_view();
            if !self.is_child_of_deleted(&deleted, det.entry.path.as_str()) {
                let mut action = self.default_action_for_rule(det.rule_name.as_str());
                if protected[i] {
                    action = CleanupAction::Review;
                }
                let is_dir = matches!(det.entry.entry_type, EntryType::Directory);
                let ghost deleted0 = deleted.deep_view();
                if is_dir && matches!(action, CleanupAction::Delete) {
                    deleted.push(crate::detector::clone_string(&det.entry.path));
                    proof {
                        assert(deleted.deep_view() =~= deleted0.push(
                            detections.deep_view()[i as int].entry.path,
                        ));
                    }
                }
                let relative = rel_path(det.entry.path.as_str(), self.base_path.as_str());
                let modified = rfc3339_clamped(det.entry.modified);
                let entry = CleanupEntry {
                    path: relative,
                    size: det.entry.size,
                    modified,
                    action,
                    rule_name: crate::detector::clone_string(&det.rule_name),
                    reason: crate::detector::clone_string(&det.reason),
                };
                let ghost ev = entry@;
                entries.push(entry);
                proof {
                    assert(entries.deep_view() =~= entries0.push(ev));
                    assert(ev == spec_entry_for(
                        detections.deep_view()[i as int],
                        protected@[i as int],
                        self.spec_base(),
                    ));
                    assert(entries0 + (seq![ev] + spec_build(
                        detections.deep_view().skip(i + 1 as int),
                        protected@.skip(i + 1 as int),
                        self.spec_base(),
                        deleted.deep_view(),
                    )) =~= entries.deep_view() + spec_build(
                        detections.deep_view().skip(i + 1 as int),
                        protected@.skip(i + 1 as int),
                        self.spec_base(),
                        deleted.deep_view(),
                    ));
                }
            }
            i = i + 1;
        }
        proof {
            assert(detections.deep_view().skip(detections@.len() as int)
                =~= Seq::<DetectionResultV>::empty());
            assert(protected@.skip(detections@.len() as int) =~= Seq::<bool>::empty());
            assert(entries.deep_view() + Seq::<CleanupEntryV>::empty() =~= entries.deep_view());
        }
        let plan = CleanupPlan {
            version: String::from_str("1.0"),
            created_at: crate::clock::now_rfc3339(),
            base_path: crate::detector::clone_string(&self.base_path),
            entries,
        };
        proof {
            if forall|i: int|
                0 <= i < detections.deep_view().len() ==> (#[trigger] detections.deep_view()[i])
                    .entry.path.len() > 0 {
                lemma_build_nonempty_paths(
                    detections.deep_view(),
                    protected@,
                    self.spec_base(),
                    Seq::<Seq<char>>::empty(),
                );
            }
        }
        plan
    }

    /// Whether the path lies strictly below a path already assigned
    /// `Delete`.
    fn is_child_of_deleted(&self, deleted: &Vec<String>, path: &str) -> (r: bool)
        ensures
            r == spec_dropped_path(path@, deleted.deep_view()),
    {
        let mut k: usize = 0;
        while k < deleted.len()
            invariant
                k <= deleted@.len(),
                forall|j: int|
                    0 <= j < k ==> !is_strict_descendant(path@, #[trigger] deleted.deep_view()[j]),
            decreases deleted@.len() - k,
        {
            if crate::paths::strict_descendant(path, deleted[k].as_str()) {
                proof {
                    assert(deleted.deep_view()[k as int] == deleted@[k as int].deep_view());
                }
                return true;
            }
            proof {
                assert(deleted.deep_view()[k as int] == deleted@[k as int].deep_view());
            }
            k = k + 1;
        }
        false
    }
}

/// Whether the path lies strictly below any of the given paths.
pub open spec fn spec_dropped_path(path: Seq<char>, deleted: Seq<Seq<char>>) -> bool {
    exists|k: int| 0 <= k < deleted.len() && is_strict_descendant(path, #[trigger] deleted[k])
}

/// Whether the path on disk holds a version-control directory or package
/// manifest directly inside it, marking it a protected project root.
fn is_protected_path(path: &str) -> bool {
    crate::probe::probe_child_exists(path, ".git") || crate::probe::probe_child_exists(path, ".hg")
        || crate::probe::probe_child_exists(path, ".svn")
        || crate::probe::probe_child_exists(path, "package.json")
        || crate::probe::probe_child_exists(path, "Cargo.toml")
        || crate::probe::probe_child_exists(path, "pyproject.toml")
}

/// Clones a detection with its contents known.
fn clone_detection(d: &DetectionResult) -> (r: DetectionResult)
    ensures
        r@ == d@,
{
    DetectionResult {
        entry: crate::models::FileEntry {
            path: crate::detector::clone_string(&d.entry.path),
            size: d.entry.size,
            modified: d.entry.modified,
            entry_type: d.entry.entry_type,
            file_id: d.entry.file_id,
        },
        rule_name: crate::detector::clone_string(&d.rule_name),
        reason: crate::detector::clone_string(&d.reason),
    }
}

/// Sorts detections by path length ascending, keeping the multiset of
/// detections.
fn sort_by_path_len(v: Vec<DetectionResult>) -> (r: Vec<DetectionResult>)
    ensures
        sorted_by_path_len(r.deep_view()),
        r.deep_view().to_multiset() == v.deep_view().to_multiset(),
{
    let mut out: Vec<DetectionResult> = Vec::new();
    let mut i: usize = 0;
    proof {
        assert(out.deep_view() =~= Seq::<DetectionResultV>::empty());
        assert(v.deep_view().take(0) =~= Seq::<DetectionResultV>::empty());
        out.deep_view().to_multiset_ensures();
        v.deep_view().take(0).to_multiset_ensures();
    }
    while i < v.len()
        invariant
            i <= v@.len(),
            v.deep_view().len() == v@.len(),
            sorted_by_path_len(out.deep_view()),
            out.deep_view().to_multiset() == v.deep_view().take(i as int).to_multiset(),
        decreases v@.len() - i,
    {
        let x = clone_detection(&v[i]);
        let ghost xv = x.deep_view();
        let xlen = x.entry.path.as_str().unicode_len();
        let mut p: usize = 0;
        while p < out.len()
            invariant
                p <= out@.len(),
                out.deep_view().len() == out@.len(),
                xv == x.deep_view(),
                xlen == xv.entry.path.len(),
                forall|k: int|
                    0 <= k < p ==> (#[trigger] out.deep_view()[k].entry.path).len()
                        <= xv.entry.path.len(),
            ensures
                p <= out@.len(),
                out.deep_view().len() == out@.len(),
                xv == x.deep_view(),
                xlen == xv.entry.path.len(),
                forall|k: int|
                    0 <= k < p ==> (#[trigger] out.deep_view()[k].entry.path).len()
                        <= xv.entry.path.len(),
                p < out@.len() ==> out.deep_view()[p as int].entry.path.len()
                    > xv.entry.path.len(),
            decreases out@.len() - p,
        {
            let olen = out[p].entry.path.as_str().unicode_len();
            proof {
                assert(out.deep_view()[p as int] == out@[p as int].deep_view());
            }
            if olen > xlen {
                break;
            }
            p = p + 1;
        }
        let ghost old_out = out.deep_view();
        out.insert(p, x);
        proof {
            assert(out.deep_view() =~= old_out.insert(p as int, xv));
            let newv = out.deep_view();
            assert(newv =~= old_out.take(p as int) + seq![xv] + old_out.skip(p as int));
            assert(forall|k: int| 0 <= k < p ==> newv[k] == old_out[k]);
            assert(newv[p as int] == xv);
            assert(forall|k: int| p < k < newv.len() ==> newv[k] == old_out[k - 1]);
            assert(forall|a: int, b: int|
                0 <= a <= b < newv.len() ==> (#[trigger] newv[a].entry.path).len()
                    <= (#[trigger] newv[b].entry.path).len()) by {
                assert(forall|k: int|
                    p <= k < old_out.len() ==> xv.entry.path.len()
                        < (#[trigger] old_out[k].entry.path).len()) by {
                    if p < old_out.len() {
                        assert(forall|k: int|
                            p <= k < old_out.len() ==> (#[trigger] old_out[p as int].entry.path).len()
                                <= old_out[k].entry.path.len());
                    }
                }
            }
            old_out.to_multiset_ensures();
            assert(old_out.insert(p as int, xv).to_multiset()
                == old_out.to_multiset().insert(xv));
            assert(v.deep_view().take(i + 1 as int) =~= v.deep_view().take(i as int).push(
                v.deep_view()[i as int],
            ));
            v.deep_view().take(i as int).to_multiset_ensures();
            assert(v.deep_view().take(i as int).push(xv).to_multiset()
                == v.deep_view().take(i as int).to_multiset().insert(xv));
            assert(v.deep_view()[i as int] == v@[i as int].deep_view());
        }
        i = i + 1;
    }
    proof {
        assert(v.deep_view().take(v@.len() as int) =~= v.deep_view());
    }
    out
}

// ---------------------------------------------------------------------------
// Plan writing
// ---------------------------------------------------------------------------

/// Errors that can occur while preparing a plan for writing.
#[derive(Debug)]
pub enum WriteError {
    /// Plan validation failed
    Validation(String),
}

impl WriteError {
    /// A human-readable description of the error.
    pub fn message(&self) -> (r: &str) {
        match self {
            WriteError::Validation(m) => m.as_str(),
        }
    }
}

/// Whether a plan may be persisted: its base path is non-empty and every
/// entry's relative path is non-empty.
pub open spec fn spec_valid_plan(p: CleanupPlanV) -> bool {
    &&& p.base_path.len() > 0
    &&& forall|i: int| 0 <= i < p.entries.len() ==> (#[trigger] p.entries[i].path).len() > 0
}

/// Renders cleanup plans as plan documents, validating first; the
/// temporary-sibling path supports atomic replacement.
pub struct PlanWriter;

impl PlanWriter {
    /// Validates a cleanup plan before writing: fails exactly when the
    /// base path is empty or some entry's path is empty.
    pub fn validate(plan: &CleanupPlan) -> (r: Result<(), WriteError>)
        ensures
            r is Ok <==> spec_valid_plan(plan@),
    {
        if plan.base_path.as_str().unicode_len() == 0 {
            return Err(WriteError::Validation(String::from_str("Base path cannot be empty")));
        }
        let mut i: usize = 0;
        while i < plan.entries.len()
            invariant
                i <= plan@.entries.len(),
                plan@.entries.len() == plan.entries.len(),
                forall|j: int| 0 <= j < i ==> (#[trigger] plan@.entries[j].path).len() > 0,
            decreases plan.entries.len() - i,
        {
            if plan.entries[i].path.as_str().unicode_len() == 0 {
                proof {
                    assert(plan@.entries[i as int].path.len() == 0);
                }
                return Err(WriteError::Validation(String::from_str(
                    "Entry path cannot be empty",
                )));
            }
            proof {
                assert(plan@.entries[i as int] == plan.entries@[i as int].deep_view());
            }
            i = i + 1;
        }
        Ok(())
    }

    /// Renders a plan as its document text: validation, then the exact
    /// encoding, whose parse yields the plan back.
    pub fn render(plan: &CleanupPlan) -> (r: Result<String, WriteError>)
        ensures
            r is Ok <==> spec_valid_plan(plan@),
            r is Ok ==> r.unwrap()@ == crate::codec::spec_encode_plan(plan@),
    {
        match Self::validate(plan) {
            Ok(()) => Ok(crate::codec::encode_plan(plan)),
            Err(e) => Err(e),
        }
    }

    /// The temporary sibling of a target path: the target with its
    /// extension replaced by `tmp`, in the same directory, so the final
    /// rename stays on one filesystem volume.
    pub open spec fn spec_temp_path(t: Seq<char>) -> Seq<char> {
        match extension_of(basename_of(t)) {
            Some(e) => t.take(t.len() - e.len()) + "tmp"@,
            None => t + ".tmp"@,
        }
    }

    /// Generates the temporary file path for an atomic write of `target`.
    pub fn temp_path(target: &str) -> (r: String)
        ensures
            r@ == Self::spec_temp_path(target@),
    {
        let plen = target.unicode_len();
        let base = crate::paths::basename(target);
        proof {
            crate::paths::lemma_after_last_len(target@, '/');
        }
        match crate::paths::extension(base.as_str()) {
            Some(e) => {
                proof {
                    crate::paths::lemma_after_last_len(base@, '.');
                }
                let elen = e.as_str().unicode_len();
                let keep = target.substring_char(0, plen - elen);
                let mut out = String::from_str(keep);
                out.append("tmp");
                out
            },
            None => {
                let mut out = String::from_str(target);
                out.append(".tmp");
                out
            },
        }
    }
}

// ---------------------------------------------------------------------------
// The pruning law
// ---------------------------------------------------------------------------

/// The indices of the detections that contribute an entry to the plan, in
/// order.
pub open spec fn kept_indices(
    dets: Seq<DetectionResultV>,
    flags: Seq<bool>,
    deleted: Seq<Seq<char>>,
) -> Seq<int>
    decreases dets.len(),
{
    if dets.len() == 0 {
        Seq::<int>::empty()
    } else if spec_dropped(dets[0], deleted) {
        kept_indices(dets.skip(1), flags.skip(1), deleted).map_values(|x: int| x + 1)
    } else {
        let e = spec_entry_for(dets[0], flags[0], Seq::<char>::empty());
        let deleted2 = if dets[0].entry.entry_type == EntryType::Directory && e.action
            == CleanupAction::Delete {
            deleted.push(dets[0].entry.path)
        } else {
            deleted
        };
        seq![0] + kept_indices(dets.skip(1), flags.skip(1), deleted2).map_values(|x: int| x + 1)
    }
}

/// The plan's entries correspond one-to-one, in order, to the kept
/// detections.
pub proof fn lemma_build_kept(
    dets: Seq<DetectionResultV>,
    flags: Seq<bool>,
    base: Seq<char>,
    deleted: Seq<Seq<char>>,
)
    requires
        flags.len() == dets.len(),
    ensures
        ({
            let out = spec_build(dets, flags, base, deleted);
            let ks = kept_indices(dets, flags, deleted);
            &&& out.len() == ks.len()
            &&& forall|m: int|
                0 <= m < ks.len() ==> 0 <= #[trigger] ks[m] < dets.len()
            &&& forall|m: int|
                0 <= m < ks.len() ==> #[trigger] out[m] == spec_entry_for(
                    dets[ks[m]],
                    flags[ks[m]],
                    base,
                )
            &&& forall|m1: int, m2: int| 0 <= m1 < m2 < ks.len() ==> ks[m1] < ks[m2]
        }),
    decreases dets.len(),
{
    if dets.len() == 0 {
    } else {
        let e0 = spec_entry_for(dets[0], flags[0], base);
        let ez = spec_entry_for(dets[0], flags[0], Seq::<char>::empty());
        assert(e0.action == ez.action);
        if spec_dropped(dets[0], deleted) {
            lemma_build_kept(dets.skip(1), flags.skip(1), base, deleted);
            let ksr = kept_indices(dets.skip(1), flags.skip(1), deleted);
            let ks = kept_indices(dets, flags, deleted);
            assert(forall|m: int|
                0 <= m < ksr.len() ==> 0 <= #[trigger] ksr[m] < dets.skip(1).len());
            assert(ks == ksr.map_values(|x: int| x + 1));
            assert(ks.len() == ksr.len());
            assert(forall|m: int| 0 <= m < ks.len() ==> #[trigger] ks[m] == ksr[m] + 1);
            assert(forall|m: int|
                0 <= m < ks.len() ==> dets.skip(1)[#[trigger] ksr[m]] == dets[ksr[m] + 1]);
            assert(forall|m: int|
                0 <= m < ks.len() ==> flags.skip(1)[#[trigger] ksr[m]] == flags[ksr[m] + 1]);
        } else {
            let deleted2 = if dets[0].entry.entry_type == EntryType::Directory && ez.action
                == CleanupAction::Delete {
                deleted.push(dets[0].entry.path)
            } else {
                deleted
            };
            lemma_build_kept(dets.skip(1), flags.skip(1), base, deleted2);
            let ksr = kept_indices(dets.skip(1), flags.skip(1), deleted2);
            let outr = spec_build(dets.skip(1), flags.skip(1), base, deleted2);
            let ks = kept_indices(dets, flags, deleted);
            let out = spec_build(dets, flags, base, deleted);
            assert(forall|m: int|
                0 <= m < ksr.len() ==> 0 <= #[trigger] ksr[m] < dets.skip(1).len());
            assert(ks == seq![0] + ksr.map_values(|x: int| x + 1));
            assert(ks.len() == ksr.len() + 1);
            assert(out == seq![e0] + outr);
            assert(forall|m: int| 1 <= m < ks.len() ==> #[trigger] ks[m] == ksr[m - 1] + 1);
            assert(forall|m: int| 1 <= m < out.len() ==> #[trigger] out[m] == outr[m - 1]);
            assert(forall|m: int|
                1 <= m < ks.len() ==> dets.skip(1)[#[trigger] ksr[m - 1]] == dets[ksr[m - 1] + 1]);
            assert(forall|m: int|
                1 <= m < ks.len() ==> flags.skip(1)[#[trigger] ksr[m - 1]] == flags[ksr[m - 1]
                    + 1]);
            assert(ks[0] == 0);
            assert(out[0] == e0);
        }
    }
}

/// No kept detection lies strictly below any path of the deleted set the
/// builder was started with.
pub proof fn lemma_kept_not_under_deleted(
    dets: Seq<DetectionResultV>,
    flags: Seq<bool>,
    deleted: Seq<Seq<char>>,
)
    requires
        flags.len() == dets.len(),
    ensures
        ({
            let ks = kept_indices(dets, flags, deleted);
            forall|m: int, d: int|
                0 <= m < ks.len() && 0 <= d < deleted.len() ==> !is_strict_descendant(
                    dets[#[trigger] ks[m]].entry.path,
                    #[trigger] deleted[d],
                )
        }),
    decreases dets.len(),
{
    if dets.len() == 0 {
    } else {
        let ez = spec_entry_for(dets[0], flags[0], Seq::<char>::empty());
        if spec_dropped(dets[0], deleted) {
            lemma_kept_not_under_deleted(dets.skip(1), flags.skip(1), deleted);
            lemma_build_kept(dets.skip(1), flags.skip(1), Seq::<char>::empty(), deleted);
            let ksr = kept_indices(dets.skip(1), flags.skip(1), deleted);
            let ks = kept_indices(dets, flags, deleted);
            assert(forall|m: int|
                0 <= m < ksr.len() ==> 0 <= #[trigger] ksr[m] < dets.skip(1).len());
            assert(ks.len() == ksr.len());
            assert(forall|m: int| 0 <= m < ks.len() ==> #[trigger] ks[m] == ksr[m] + 1);
            assert(forall|m: int|
                0 <= m < ks.len() ==> dets.skip(1)[#[trigger] ksr[m]] == dets[ksr[m] + 1]);
        } else {
            let deleted2 = if dets[0].entry.entry_type == EntryType::Directory && ez.action
                == CleanupAction::Delete {
                deleted.push(dets[0].entry.path)
            } else {
                deleted
            };
            lemma_kept_not_under_deleted(dets.skip(1), flags.skip(1), deleted2);
            lemma_build_kept(dets.skip(1), flags.skip(1), Seq::<char>::empty(), deleted2);
            let ksr = kept_indices(dets.skip(1), flags.skip(1), deleted2);
            let ks = kept_indices(dets, flags, deleted);
            assert(forall|m: int|
                0 <= m < ksr.len() ==> 0 <= #[trigger] ksr[m] < dets.skip(1).len());
            assert(ks.len() == ksr.len() + 1);
            assert(forall|m: int| 1 <= m < ks.len() ==> #[trigger] ks[m] == ksr[m - 1] + 1);
            assert(forall|m: int|
                1 <= m < ks.len() ==> dets.skip(1)[#[trigger] ksr[m - 1]] == dets[ksr[m - 1] + 1]);
            assert(forall|d: int|
                0 <= d < deleted.len() ==> deleted2[d] == #[trigger] deleted[d]);
            assert(ks[0] == 0);
            assert(!spec_dropped(dets[0], deleted));
            assert(forall|d: int|
                0 <= d < deleted.len() ==> !is_strict_descendant(
                    dets[0].entry.path,
                    #[trigger] deleted[d],
                ));
        }
    }
}

/// Law: once a directory is assigned `Delete`, no detection lying
/// strictly below it contributes any entry to the generated plan — the
/// descendant is dropped entirely, not merely marked `Keep`. Stated over
/// the sorted detection list the generator processes: for any two distinct
/// kept detections, if the first is a directory whose plan entry carries
/// `Delete`, the second's path does not lie strictly below the first's.
pub proof fn lemma_no_descendant_of_deleted_dir(
    dets: Seq<DetectionResultV>,
    flags: Seq<bool>,
    base: Seq<char>,
    deleted: Seq<Seq<char>>,
)
    requires
        flags.len() == dets.len(),
        sorted_by_path_len(dets),
    ensures
        ({
            let out = spec_build(dets, flags, base, deleted);
            let ks = kept_indices(dets, flags, deleted);
            forall|m1: int, m2: int|
                0 <= m1 < out.len() && 0 <= m2 < out.len() && m1 != m2 && dets[#[trigger] ks[m1]]
                    .entry.entry_type == EntryType::Directory && (#[trigger] out[m1]).action
                    == CleanupAction::Delete ==> !is_strict_descendant(
                    dets[#[trigger] ks[m2]].entry.path,
                    dets[ks[m1]].entry.path,
                )
        }),
    decreases dets.len(),
{
    lemma_build_kept(dets, flags, base, deleted);
    let out = spec_build(dets, flags, base, deleted);
    let ks = kept_indices(dets, flags, deleted);
    if dets.len() == 0 {
    } else {
        let e0 = spec_entry_for(dets[0], flags[0], base);
        let ez = spec_entry_for(dets[0], flags[0], Seq::<char>::empty());
        assert(e0.action == ez.action);
        assert(sorted_by_path_len(dets.skip(1))) by {
            assert(forall|i: int, j: int|
                0 <= i <= j < dets.skip(1).len() ==> (#[trigger] dets.skip(1)[i].entry.path).len()
                    <= (#[trigger] dets.skip(1)[j].entry.path).len()) by {
                assert(forall|i: int|
                    0 <= i < dets.skip(1).len() ==> #[trigger] dets.skip(1)[i] == dets[i + 1]);
            }
        }
        if spec_dropped(dets[0], deleted) {
            lemma_no_descendant_of_deleted_dir(dets.skip(1), flags.skip(1), base, deleted);
            lemma_build_kept(dets.skip(1), flags.skip(1), base, deleted);
            let ksr = kept_indices(dets.skip(1), flags.skip(1), deleted);
            assert(forall|m: int|
                0 <= m < ksr.len() ==> 0 <= #[trigger] ksr[m] < dets.skip(1).len());
            assert(ks.len() == ksr.len());
            assert(forall|m: int| 0 <= m < ks.len() ==> #[trigger] ks[m] == ksr[m] + 1);
            assert(forall|m: int|
                0 <= m < ks.len() ==> dets.skip(1)[#[trigger] ksr[m]] == dets[ksr[m] + 1]);
            assert(forall|m: int|
                0 <= m < ks.len() ==> flags.skip(1)[#[trigger] ksr[m]] == flags[ksr[m] + 1]);
        } else {
            let deleted2 = if dets[0].entry.entry_type == EntryType::Directory && ez.action
                == CleanupAction::Delete {
                deleted.push(dets[0].entry.path)
            } else {
                deleted
            };
            lemma_no_descendant_of_deleted_dir(dets.skip(1), flags.skip(1), base, deleted2);
            lemma_build_kept(dets.skip(1), flags.skip(1), base, deleted2);
            lemma_kept_not_under_deleted(dets.skip(1), flags.skip(1), deleted2);
            let ksr = kept_indices(dets.skip(1), flags.skip(1), deleted2);
            let outr = spec_build(dets.skip(1), flags.skip(1), base, deleted2);
            assert(forall|m: int|
                0 <= m < ksr.len() ==> 0 <= #[trigger] ksr[m] < dets.skip(1).len());
            assert(ks.len() == ksr.len() + 1);
            assert(forall|m: int| 1 <= m < ks.len() ==> #[trigger] ks[m] == ksr[m - 1] + 1);
            assert(forall|m: int| 1 <= m < out.len() ==> #[trigger] out[m] == outr[m - 1]);
            assert(forall|m: int|
                1 <= m < ks.len() ==> dets.skip(1)[#[trigger] ksr[m - 1]] == dets[ksr[m - 1] + 1]);
            assert(forall|m: int|
                1 <= m < ks.len() ==> flags.skip(1)[#[trigger] ksr[m - 1]] == flags[ksr[m - 1]
                    + 1]);
            assert forall|m1: int, m2: int|
                0 <= m1 < out.len() && 0 <= m2 < out.len() && m1 != m2 && dets[ks[m1]].entry
                    .entry_type == EntryType::Directory && out[m1].action == CleanupAction::Delete
                implies !is_strict_descendant(
                dets[ks[m2]].entry.path,
                dets[ks[m1]].entry.path,
            ) by {
                if m1 == 0 {
                    // dets[0] is a directory assigned Delete, so its path
                    // stands in the deleted set handed to the rest.
                    assert(out[0] == e0);
                    assert(deleted2.len() == deleted.len() + 1);
                    assert(deleted2[deleted.len() as int] == dets[0].entry.path);
                    assert(m2 >= 1);
                    assert(!is_strict_descendant(
                        dets.skip(1)[ksr[m2 - 1]].entry.path,
                        deleted2[deleted.len() as int],
                    ));
                } else if m2 == 0 {
                    // An earlier detection is never longer, and a strict
                    // descendant is strictly longer.
                    assert(ks[m1] >= 1);
                    assert(dets[0].entry.path.len() <= dets[ks[m1]].entry.path.len());
                } else {
                    assert(outr[m1 - 1].action == CleanupAction::Delete);
                }
            }
        }
    }
}

/// Law: once a directory is assigned `Delete`, no descendant path of
/// that directory appears anywhere in the generated plan. Stated over the
/// plan's own relative paths: for detections at or below a base path
/// written without a trailing separator, any plan entry generated for a
/// directory detection with disposition `Delete` has no other plan entry
/// whose relative path lies strictly below its own.
pub proof fn lemma_plan_free_of_deleted_dir_descendants(
    dets: Seq<DetectionResultV>,
    flags: Seq<bool>,
    base: Seq<char>,
)
    requires
        flags.len() == dets.len(),
        sorted_by_path_len(dets),
        base.len() == 0 || base.last() != '/',
        forall|i: int|
            0 <= i < dets.len() ==> ((#[trigger] dets[i].entry.path) == base
                || crate::paths::is_strict_descendant(dets[i].entry.path, base)),
    ensures
        ({
            let out = spec_build(dets, flags, base, Seq::<Seq<char>>::empty());
            let ks = kept_indices(dets, flags, Seq::<Seq<char>>::empty());
            forall|m1: int, m2: int|
                0 <= m1 < out.len() && 0 <= m2 < out.len() && m1 != m2 && dets[#[trigger] ks[m1]]
                    .entry.entry_type == EntryType::Directory && (#[trigger] out[m1]).action
                    == CleanupAction::Delete ==> !is_strict_descendant(
                    (#[trigger] out[m2]).path,
                    out[m1].path,
                )
        }),
{
    let deleted = Seq::<Seq<char>>::empty();
    lemma_build_kept(dets, flags, base, deleted);
    lemma_no_descendant_of_deleted_dir(dets, flags, base, deleted);
    let out = spec_build(dets, flags, base, deleted);
    let ks = kept_indices(dets, flags, deleted);
    assert forall|m1: int, m2: int|
        0 <= m1 < out.len() && 0 <= m2 < out.len() && m1 != m2 && dets[ks[m1]].entry.entry_type
            == EntryType::Directory && out[m1].action == CleanupAction::Delete implies
        !is_strict_descendant(out[m2].path, out[m1].path) by {
        let p = dets[ks[m2]].entry.path;
        let q = dets[ks[m1]].entry.path;
        assert(out[m1] == spec_entry_for(dets[ks[m1]], flags[ks[m1]], base));
        assert(out[m2] == spec_entry_for(dets[ks[m2]], flags[ks[m2]], base));
        assert(out[m1].path == rel_of(q, base));
        assert(out[m2].path == rel_of(p, base));
        assert(!is_strict_descendant(p, q));
        if is_strict_descendant(rel_of(p, base), rel_of(q, base)) {
            crate::paths::lemma_rel_preserves_descent(p, q, base);
        }
    }
}

} // verus!
