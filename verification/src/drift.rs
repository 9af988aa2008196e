//! Drift verification: re-inspecting the filesystem against a previously
//! generated plan and classifying every divergence before execution.

use vstd::prelude::*;
use crate::clock::{clamp_format_secs, rfc3339_of, rfc3339_secs};
use crate::models::{CleanupAction, CleanupEntry, CleanupEntryV, CleanupPlan, CleanupPlanV};
use crate::paths::join_of;
use crate::text::dec_of;

verus! {

/// Timestamp differences up to this many seconds are absorbed as
/// filesystem timestamp-resolution noise, not drift.
pub const MTIME_TOLERANCE_SECS: i64 = 2;

/// Configuration for verification behavior.
#[derive(Debug, Clone, Copy, PartialEq, Eq, Structural)]
pub struct VerificationConfig {
    /// Check modification times
    pub check_mtime: bool,
    /// Check file sizes
    pub check_size: bool,
    /// Stop at the first missing or drifted entry
    pub fail_fast: bool,
}

impl Default for VerificationConfig {
    /// The default checks sizes and modification times and does not stop
    /// at the first drift.
    fn default() -> (r: Self)
        ensures
            r == (VerificationConfig { check_mtime: true, check_size: true, fail_fast: false }),
    {
        Self { check_mtime: true, check_size: true, fail_fast: false }
    }
}

/// Types of drift that can be detected.
#[derive(Debug, Clone, Copy, PartialEq, Eq, Structural)]
pub enum DriftType {
    /// The size on disk differs from the recorded size
    SizeMismatch,
    /// The modification time differs beyond the tolerance band
    ModificationTimeMismatch,
}

/// Details of a detected drift.
#[derive(Debug, Clone)]
pub struct DriftDetection {
    /// Absolute path of the drifted entry
    pub path: String,
    /// The kind of drift
    pub drift_type: DriftType,
    /// The recorded value, as a display string
    pub expected: String,
    /// The observed value, as a display string
    pub actual: String,
}

/// Mathematical model of a [`DriftDetection`].
pub struct DriftDetectionV {
    pub path: Seq<char>,
    pub drift_type: DriftType,
    pub expected: Seq<char>,
    pub actual: Seq<char>,
}

impl View for DriftDetection {
    type V = DriftDetectionV;

    open spec fn view(&self) -> DriftDetectionV {
        DriftDetectionV {
            path: self.path@,
            drift_type: self.drift_type,
            expected: self.expected@,
            actual: self.actual@,
        }
    }
}

impl DeepView for DriftDetection {
    type V = DriftDetectionV;

    open spec fn deep_view(&self) -> DriftDetectionV {
        self.view()
    }
}

/// Result of a verification pass.
#[derive(Debug)]
pub struct VerificationResult {
    pub total_entries: usize,
    pub verified: usize,
    pub drifted: Vec<DriftDetection>,
    pub missing: Vec<String>,
    pub permission_errors: Vec<String>,
}

/// Mathematical model of a [`VerificationResult`].
pub struct VerificationResultV {
    pub total_entries: int,
    pub verified: int,
    pub drifted: Seq<DriftDetectionV>,
    pub missing: Seq<Seq<char>>,
    pub permission_errors: Seq<Seq<char>>,
}

impl View for VerificationResult {
    type V = VerificationResultV;

    open spec fn view(&self) -> VerificationResultV {
        VerificationResultV {
            total_entries: self.total_entries as int,
            verified: self.verified as int,
            drifted: self.drifted.deep_view(),
            missing: self.missing.deep_view(),
            permission_errors: self.permission_errors.deep_view(),
        }
    }
}

impl VerificationResult {
    /// Check if any drift was detected: a drifted or missing entry.
    pub fn has_drift(&self) -> (r: bool)
        ensures
            r == (self@.drifted.len() > 0 || self@.missing.len() > 0),
    {
        self.drifted.len() > 0 || self.missing.len() > 0
    }

    /// Check if the plan is safe to execute: no missing entries and no
    /// drift detections. Permission errors are warnings only and never
    /// block execution.
    pub fn is_safe_to_execute(&self) -> (r: bool)
        ensures
            r == spec_safe(self@),
    {
        !self.has_drift()
    }
}

/// A plan is safe to execute exactly when nothing is missing and nothing
/// has drifted.
pub open spec fn spec_safe(v: VerificationResultV) -> bool {
    v.drifted.len() == 0 && v.missing.len() == 0
}

/// What the filesystem said about one plan entry when it was examined.
#[derive(Debug, Clone, Copy, PartialEq, Eq, Structural)]
pub enum Observation {
    /// The path no longer exists
    Missing,
    /// The path exists but its metadata could not be read
    Unreadable,
    /// The path exists with this metadata; for a directory, `size` is the
    /// recursively measured size
    Present { is_dir: bool, size: u64, mtime_secs: i64 },
}

/// Errors that can occur during verification.
#[derive(Debug)]
pub enum VerificationError {
    /// A plan entry's recorded modification time is not a valid RFC 3339
    /// date-time
    InvalidTimestamp(String),
}

impl VerificationError {
    /// A human-readable description of the error.
    pub fn message(&self) -> (r: &str) {
        match self {
            VerificationError::InvalidTimestamp(m) => m.as_str(),
        }
    }
}

/// How one examined entry is classified.
pub enum EntryCheck {
    /// Counted verified without inspection (`Keep`) or all checks passed
    Clean,
    /// The path no longer exists
    MissingPath,
    /// Metadata could not be read: a warning, never a blocker
    Permission,
    /// The size on disk differs from the recorded size
    SizeDrift,
    /// The modification time differs beyond the tolerance band
    TimeDrift,
    /// The recorded modification time does not parse
    BadTimestamp,
}

/// The classification of one plan entry against its observation.
/// Entries marked `Keep` are verified without inspection; a missing path
/// is recorded missing; unreadable metadata is a permission warning; then
/// the size check and the modification-time check run as configured, the
/// latter tolerating differences up to [`MTIME_TOLERANCE_SECS`].
pub open spec fn spec_check_entry(
    entry: CleanupEntryV,
    obs: Observation,
    cfg: VerificationConfig,
) -> EntryCheck {
    if entry.action == CleanupAction::Keep {
        EntryCheck::Clean
    } else {
        match obs {
            Observation::Missing => EntryCheck::MissingPath,
            Observation::Unreadable => EntryCheck::Permission,
            Observation::Present { is_dir: _, size, mtime_secs } => {
                if cfg.check_size && size != entry.size {
                    EntryCheck::SizeDrift
                } else if cfg.check_mtime {
                    match rfc3339_secs(entry.modified) {
                        None => EntryCheck::BadTimestamp,
                        Some(expected) => {
                            let diff = if mtime_secs >= expected {
                                mtime_secs - expected
                            } else {
                                expected - mtime_secs
                            };
                            if diff > MTIME_TOLERANCE_SECS as int {
                                EntryCheck::TimeDrift
                            } else {
                                EntryCheck::Clean
                            }
                        },
                    }
                } else {
                    EntryCheck::Clean
                }
            },
        }
    }
}

/// The drift record for a size mismatch.
pub open spec fn spec_size_drift(entry: CleanupEntryV, base: Seq<char>, size: u64) -> DriftDetectionV {
    DriftDetectionV {
        path: join_of(base, entry.path),
        drift_type: DriftType::SizeMismatch,
        expected: dec_of(entry.size as int) + " bytes"@,
        actual: dec_of(size as int) + " bytes"@,
    }
}

/// The drift record for a modification-time mismatch.
pub open spec fn spec_time_drift(entry: CleanupEntryV, base: Seq<char>, mtime_secs: i64) -> DriftDetectionV {
    DriftDetectionV {
        path: join_of(base, entry.path),
        drift_type: DriftType::ModificationTimeMismatch,
        expected: entry.modified,
        actual: rfc3339_of(clamp_format_secs(mtime_secs as int)),
    }
}

/// One verification step folded into the accumulated result.
pub open spec fn spec_verify_rec(
    entries: Seq<CleanupEntryV>,
    obs: Seq<Observation>,
    cfg: VerificationConfig,
    base: Seq<char>,
    acc: VerificationResultV,
) -> Option<VerificationResultV>
    decreases entries.len(),
{
    if entries.len() == 0 {
        Some(acc)
    } else {
        let e = entries[0];
        match spec_check_entry(e, obs[0], cfg) {
            EntryCheck::Clean => spec_verify_rec(
                entries.skip(1),
                obs.skip(1),
                cfg,
                base,
                VerificationResultV { verified: acc.verified + 1, ..acc },
            ),
            EntryCheck::MissingPath => {
                let acc2 = VerificationResultV {
                    missing: acc.missing.push(join_of(base, e.path)),
                    ..acc
                };
                if cfg.fail_fast {
                    Some(acc2)
                } else {
                    spec_verify_rec(entries.skip(1), obs.skip(1), cfg, base, acc2)
                }
            },
            EntryCheck::Permission => spec_verify_rec(
                entries.skip(1),
                obs.skip(1),
                cfg,
                base,
                VerificationResultV {
                    permission_errors: acc.permission_errors.push(join_of(base, e.path)),
                    ..acc
                },
            ),
            EntryCheck::SizeDrift => {
                let size = obs[0]->Present_size;
                let acc2 = VerificationResultV {
                    drifted: acc.drifted.push(spec_size_drift(e, base, size)),
                    ..acc
                };
                if cfg.fail_fast {
                    Some(acc2)
                } else {
                    spec_verify_rec(entries.skip(1), obs.skip(1), cfg, base, acc2)
                }
            },
            EntryCheck::TimeDrift => {
                let mtime = obs[0]->Present_mtime_secs;
                let acc2 = VerificationResultV {
                    drifted: acc.drifted.push(spec_time_drift(e, base, mtime)),
                    ..acc
                };
                if cfg.fail_fast {
                    Some(acc2)
                } else {
                    spec_verify_rec(entries.skip(1), obs.skip(1), cfg, base, acc2)
                }
            },
            EntryCheck::BadTimestamp => None,
        }
    }
}

/// The empty accumulator for a plan with this many entries.
pub open spec fn spec_verify_start(total: int) -> VerificationResultV {
    VerificationResultV {
        total_entries: total,
        verified: 0,
        drifted: Seq::<DriftDetectionV>::empty(),
        missing: Seq::<Seq<char>>::empty(),
        permission_errors: Seq::<Seq<char>>::empty(),
    }
}

/// What verifying a plan against a filesystem snapshot yields; `None`
/// when a recorded timestamp cannot be parsed.
pub open spec fn spec_verify(
    plan: CleanupPlanV,
    obs: Seq<Observation>,
    cfg: VerificationConfig,
) -> Option<VerificationResultV> {
    spec_verify_rec(
        plan.entries,
        obs,
        cfg,
        plan.base_path,
        spec_verify_start(plan.entries.len() as int),
    )
}

/// Engine for verifying cleanup plans against current filesystem state.
pub struct VerificationEngine {
    config: VerificationConfig,
}

impl VerificationEngine {
    /// The engine's configuration, as contracts see it.
    pub closed spec fn spec_config(&self) -> VerificationConfig {
        self.config
    }

    /// Create a new verification engine with the given configuration.
    pub fn new(config: VerificationConfig) -> (r: Self)
        ensures
            r.spec_config() == config,
    {
        Self { config }
    }

    /// Verify a cleanup plan against the current filesystem state: each
    /// non-`Keep` entry is probed on disk and classified. Whatever the
    /// probes returned, the result is the exact classification of the
    /// plan against some snapshot of observations.
    pub fn verify(&self, plan: &CleanupPlan) -> (r: Result<VerificationResult, VerificationError>)
        ensures
            exists|obs: Seq<Observation>|
                {
                    &&& obs.len() == plan@.entries.len()
                    &&& (r is Ok <==> #[trigger] spec_verify(plan@, obs, self.spec_config())
                        is Some)
                    &&& (r is Ok ==> spec_verify(plan@, obs, self.spec_config()) == Some(
                        r.unwrap()@,
                    ))
                },
    {
        let mut obs: Vec<Observation> = Vec::new();
        let mut i: usize = 0;
        while i < plan.entries.len()
            invariant
                obs@.len() == i,
                i <= plan.entries.len(),
            decreases plan.entries.len() - i,
        {
            let entry = &plan.entries[i];
            if matches!(entry.action, CleanupAction::Keep) {
                // Entries marked Keep are never touched, so they are
                // verified without inspecting the filesystem.
                obs.push(Observation::Unreadable);
            } else {
                let full = crate::paths::join_path(
                    self_base(plan).as_str(),
                    entry.path.as_str(),
                );
                if !crate::probe::probe_exists(full.as_str()) {
                    obs.push(Observation::Missing);
                } else {
                    match crate::probe::probe_meta(full.as_str()) {
                        None => {
                            obs.push(Observation::Unreadable);
                        },
                        Some((is_dir, len, mtime_secs)) => {
                            let size = if is_dir {
                                crate::walk::measure_dir_size(full.as_str())
                            } else {
                                len
                            };
                            obs.push(Observation::Present { is_dir, size, mtime_secs });
                        },
                    }
                }
            }
            i = i + 1;
        }
        let r = self.verify_observed(plan, &obs);
        proof {
            assert({
                &&& obs@.len() == plan@.entries.len()
                &&& (r is Ok <==> spec_verify(plan@, obs@, self.spec_config()) is Some)
                &&& (r is Ok ==> spec_verify(plan@, obs@, self.spec_config()) == Some(
                    r.unwrap()@,
                ))
            });
        }
        r
    }

    /// The pure core of verification: classifies every plan entry against
    /// a given snapshot of observations, exactly as specified.
    pub fn verify_observed(&self, plan: &CleanupPlan, obs: &Vec<Observation>) -> (r: Result<
        VerificationResult,
        VerificationError,
    >)
        requires
            obs@.len() == plan@.entries.len(),
        ensures
            r is Ok <==> spec_verify(plan@, obs@, self.spec_config()) is Some,
            r is Ok ==> spec_verify(plan@, obs@, self.spec_config()) == Some(r.unwrap()@),
            r matches Ok(res) ==> {
                &&& res@.total_entries == plan@.entries.len()
                &&& res@.verified + res@.drifted.len() + res@.missing.len()
                    + res@.permission_errors.len() <= res@.total_entries
            },
    {
        proof {
            lemma_verify_bounds(plan@, obs@, self.spec_config());
        }
        let total = plan.entries.len();
        let mut verified: usize = 0;
        let mut drifted: Vec<DriftDetection> = Vec::new();
        let mut missing: Vec<String> = Vec::new();
        let mut permission_errors: Vec<String> = Vec::new();
        let mut i: usize = 0;
        proof {
            assert(plan@.entries.skip(0) =~= plan@.entries);
            assert(obs@.skip(0) =~= obs@);
            assert(drifted.deep_view() =~= Seq::<DriftDetectionV>::empty());
            assert(missing.deep_view() =~= Seq::<Seq<char>>::empty());
            assert(permission_errors.deep_view() =~= Seq::<Seq<char>>::empty());
        }
        while i < plan.entries.len()
            invariant
                obs@.len() == plan@.entries.len(),
                plan@.entries.len() == plan.entries@.len(),
                total == plan@.entries.len(),
                i <= plan.entries@.len(),
                verified <= i,
                spec_verify(plan@, obs@, self.spec_config()) == spec_verify_rec(
                    plan@.entries.skip(i as int),
                    obs@.skip(i as int),
                    self.spec_config(),
                    plan@.base_path,
                    VerificationResultV {
                        total_entries: total as int,
                        verified: verified as int,
                        drifted: drifted.deep_view(),
                        missing: missing.deep_view(),
                        permission_errors: permission_errors.deep_view(),
                    },
                ),
            decreases plan.entries@.len() - i,
        {
            let entry = &plan.entries[i];
            let ob = obs[i];
            proof {
                let se = plan@.entries.skip(i as int);
                let so = obs@.skip(i as int);
                assert(se.len() > 0);
                assert(se[0] == plan@.entries[i as int]);
                assert(plan@.entries[i as int] == plan.entries@[i as int].deep_view());
                assert(so[0] == obs@[i as int]);
                assert(se.skip(1) =~= plan@.entries.skip(i + 1 as int));
                assert(so.skip(1) =~= obs@.skip(i + 1 as int));
            }
            match self.check_entry(entry, ob, plan) {
                EntryCheck::Clean => {
                    verified = verified + 1;
                },
                EntryCheck::MissingPath => {
                    let full = crate::paths::join_path(
                        self_base(plan).as_str(),
                        entry.path.as_str(),
                    );
                    let ghost m0 = missing.deep_view();
                    missing.push(full);
                    proof {
                        assert(missing.deep_view() =~= m0.push(join_of(
                            plan@.base_path,
                            plan@.entries[i as int].path,
                        )));
                    }
                    if self.config.fail_fast {
                        proof {
                            lemma_verify_bounds(plan@, obs@, self.spec_config());
                        }
                        return Ok(self.assemble(total, verified, drifted, missing, permission_errors));
                    }
                },
                EntryCheck::Permission => {
                    let full = crate::paths::join_path(
                        self_base(plan).as_str(),
                        entry.path.as_str(),
                    );
                    let ghost p0 = permission_errors.deep_view();
                    permission_errors.push(full);
                    proof {
                        assert(permission_errors.deep_view() =~= p0.push(join_of(
                            plan@.base_path,
                            plan@.entries[i as int].path,
                        )));
                    }
                },
                EntryCheck::SizeDrift => {
                    let size = match ob {
                        Observation::Present { size, .. } => size,
                        _ => 0,
                    };
                    let d = make_size_drift(entry, plan, size);
                    let ghost d0 = drifted.deep_view();
                    let ghost dv = d@;
                    drifted.push(d);
                    proof {
                        assert(drifted.deep_view() =~= d0.push(dv));
                        assert(dv == spec_size_drift(
                            plan@.entries[i as int],
                            plan@.base_path,
                            size,
                        ));
                    }
                    if self.config.fail_fast {
                        proof {
                            lemma_verify_bounds(plan@, obs@, self.spec_config());
                        }
                        return Ok(self.assemble(total, verified, drifted, missing, permission_errors));
                    }
                },
                EntryCheck::TimeDrift => {
                    let mtime = match ob {
                        Observation::Present { mtime_secs, .. } => mtime_secs,
                        _ => 0,
                    };
                    let d = make_time_drift(entry, plan, mtime);
                    let ghost d0 = drifted.deep_view();
                    let ghost dv = d@;
                    drifted.push(d);
                    proof {
                        assert(drifted.deep_view() =~= d0.push(dv));
                        assert(dv == spec_time_drift(
                            plan@.entries[i as int],
                            plan@.base_path,
                            mtime,
                        ));
                    }
                    if self.config.fail_fast {
                        proof {
                            lemma_verify_bounds(plan@, obs@, self.spec_config());
                        }
                        return Ok(self.assemble(total, verified, drifted, missing, permission_errors));
                    }
                },
                EntryCheck::BadTimestamp => {
                    return Err(VerificationError::InvalidTimestamp(
                        crate::detector::clone_string(&entry.modified),
                    ));
                },
            }
            i = i + 1;
        }
        proof {
            assert(plan@.entries.skip(plan.entries@.len() as int) =~= Seq::<CleanupEntryV>::empty());
            assert(obs@.skip(plan.entries@.len() as int) =~= Seq::<Observation>::empty());
        }
        Ok(self.assemble(total, verified, drifted, missing, permission_errors))
    }

    /// Packs the accumulated counters and lists into a result.
    fn assemble(
        &self,
        total: usize,
        verified: usize,
        drifted: Vec<DriftDetection>,
        missing: Vec<String>,
        permission_errors: Vec<String>,
    ) -> (r: VerificationResult)
        ensures
            r@ == (VerificationResultV {
                total_entries: total as int,
                verified: verified as int,
                drifted: drifted.deep_view(),
                missing: missing.deep_view(),
                permission_errors: permission_errors.deep_view(),
            }),
    {
        VerificationResult { total_entries: total, verified, drifted, missing, permission_errors }
    }

    /// Classifies one entry against its observation.
    fn check_entry(&self, entry: &CleanupEntry, ob: Observation, plan: &CleanupPlan) -> (r:
        EntryCheck)
        ensures
            r == spec_check_entry(entry@, ob, self.spec_config()),
    {
        if matches!(entry.action, CleanupAction::Keep) {
            return EntryCheck::Clean;
        }
        match ob {
            Observation::Missing => EntryCheck::MissingPath,
            Observation::Unreadable => EntryCheck::Permission,
            Observation::Present { is_dir: _, size, mtime_secs } => {
                if self.config.check_size && size != entry.size {
                    EntryCheck::SizeDrift
                } else if self.config.check_mtime {
                    match crate::clock::parse_rfc3339_secs(entry.modified.as_str()) {
                        None => EntryCheck::BadTimestamp,
                        Some(expected) => {
                            let diff: i64 = if mtime_secs >= expected {
                                sub_i64(mtime_secs, expected)
                            } else {
                                sub_i64(expected, mtime_secs)
                            };
                            if diff > MTIME_TOLERANCE_SECS {
                                EntryCheck::TimeDrift
                            } else {
                                EntryCheck::Clean
                            }
                        },
                    }
                } else {
                    EntryCheck::Clean
                }
            },
        }
    }
}

/// Subtraction of epoch timestamps, saturating at `i64::MAX`.
fn sub_i64(a: i64, b: i64) -> (r: i64)
    requires
        a >= b,
    ensures
        a - b <= i64::MAX ==> r == a - b,
        a - b > i64::MAX ==> r == i64::MAX,
{
    if b >= 0 || a <= i64::MAX + b {
        a - b
    } else {
        i64::MAX
    }
}

/// Borrows a plan's base path.
fn self_base(plan: &CleanupPlan) -> (r: &String)
    ensures
        r@ == plan@.base_path,
{
    &plan.base_path
}

/// Builds the drift record for a size mismatch.
fn make_size_drift(entry: &CleanupEntry, plan: &CleanupPlan, size: u64) -> (r: DriftDetection)
    ensures
        r@ == spec_size_drift(entry@, plan@.base_path, size),
{
    let mut expected = crate::text::u64_to_dec(entry.size);
    expected.append(" bytes");
    let mut actual = crate::text::u64_to_dec(size);
    actual.append(" bytes");
    DriftDetection {
        path: crate::paths::join_path(self_base(plan).as_str(), entry.path.as_str()),
        drift_type: DriftType::SizeMismatch,
        expected,
        actual,
    }
}

/// Builds the drift record for a modification-time mismatch.
fn make_time_drift(entry: &CleanupEntry, plan: &CleanupPlan, mtime_secs: i64) -> (r: DriftDetection)
    ensures
        r@ == spec_time_drift(entry@, plan@.base_path, mtime_secs),
{
    DriftDetection {
        path: crate::paths::join_path(self_base(plan).as_str(), entry.path.as_str()),
        drift_type: DriftType::ModificationTimeMismatch,
        expected: crate::detector::clone_string(&entry.modified),
        actual: crate::clock::rfc3339_clamped(mtime_secs),
    }
}

// ---------------------------------------------------------------------------
// Laws
// ---------------------------------------------------------------------------

/// Law: verification is idempotent. Verifying an untouched plan twice in
/// a row examines the same entries against the same observations, and the
/// classification is a function of plan, observations and configuration
/// alone: both passes yield the same verified count and the same drift.
pub proof fn lemma_verification_idempotent(
    plan: CleanupPlanV,
    obs: Seq<Observation>,
    cfg: VerificationConfig,
    r1: Option<VerificationResultV>,
    r2: Option<VerificationResultV>,
)
    requires
        r1 == spec_verify(plan, obs, cfg),
        r2 == spec_verify(plan, obs, cfg),
    ensures
        r1 == r2,
{
}

/// Law: a clean snapshot verifies completely. If every non-`Keep` entry
/// is present with its recorded size and a modification time within the
/// tolerance band of its recorded timestamp, verification reports every
/// entry verified, no drift and no missing entries, and the plan is safe
/// to execute.
pub proof fn lemma_clean_snapshot_verifies(
    plan: CleanupPlanV,
    obs: Seq<Observation>,
    cfg: VerificationConfig,
)
    requires
        obs.len() == plan.entries.len(),
        forall|i: int|
            0 <= i < plan.entries.len() && (#[trigger] plan.entries[i]).action
                != CleanupAction::Keep ==> spec_check_entry(plan.entries[i], obs[i], cfg)
                == EntryCheck::Clean,
    ensures
        spec_verify(plan, obs, cfg) == Some(VerificationResultV {
            total_entries: plan.entries.len() as int,
            verified: plan.entries.len() as int,
            drifted: Seq::<DriftDetectionV>::empty(),
            missing: Seq::<Seq<char>>::empty(),
            permission_errors: Seq::<Seq<char>>::empty(),
        }),
{
    lemma_clean_rec(plan.entries, obs, cfg, plan.base_path, spec_verify_start(
        plan.entries.len() as int,
    ));
}

proof fn lemma_clean_rec(
    entries: Seq<CleanupEntryV>,
    obs: Seq<Observation>,
    cfg: VerificationConfig,
    base: Seq<char>,
    acc: VerificationResultV,
)
    requires
        obs.len() == entries.len(),
        forall|i: int|
            0 <= i < entries.len() && (#[trigger] entries[i]).action != CleanupAction::Keep
                ==> spec_check_entry(entries[i], obs[i], cfg) == EntryCheck::Clean,
    ensures
        spec_verify_rec(entries, obs, cfg, base, acc) == Some(VerificationResultV {
            verified: acc.verified + entries.len(),
            ..acc
        }),
    decreases entries.len(),
{
    if entries.len() == 0 {
        assert(VerificationResultV { verified: acc.verified + 0, ..acc } == acc);
    } else {
        assert(spec_check_entry(entries[0], obs[0], cfg) == EntryCheck::Clean);
        let acc2 = VerificationResultV { verified: acc.verified + 1, ..acc };
        assert(forall|i: int|
            0 <= i < entries.skip(1).len() ==> #[trigger] entries.skip(1)[i] == entries[i + 1]);
        assert(forall|i: int|
            0 <= i < obs.skip(1).len() ==> #[trigger] obs.skip(1)[i] == obs[i + 1]);
        lemma_clean_rec(entries.skip(1), obs.skip(1), cfg, base, acc2);
    }
}

/// Law: the examined entries split among the buckets. However a
/// verification pass ends, the verified count plus the drifted, missing
/// and permission lists never exceed the total entry count.
pub proof fn lemma_verify_bounds(
    plan: CleanupPlanV,
    obs: Seq<Observation>,
    cfg: VerificationConfig,
)
    requires
        obs.len() == plan.entries.len(),
    ensures
        spec_verify(plan, obs, cfg) matches Some(res) ==> {
            &&& res.total_entries == plan.entries.len()
            &&& res.verified + res.drifted.len() + res.missing.len()
                + res.permission_errors.len() <= res.total_entries
        },
{
    lemma_bounds_rec(plan.entries, obs, cfg, plan.base_path, spec_verify_start(
        plan.entries.len() as int,
    ));
}

proof fn lemma_bounds_rec(
    entries: Seq<CleanupEntryV>,
    obs: Seq<Observation>,
    cfg: VerificationConfig,
    base: Seq<char>,
    acc: VerificationResultV,
)
    requires
        obs.len() == entries.len(),
    ensures
        spec_verify_rec(entries, obs, cfg, base, acc) matches Some(res) ==> {
            &&& res.total_entries == acc.total_entries
            &&& res.verified + res.drifted.len() + res.missing.len()
                + res.permission_errors.len() <= acc.verified + acc.drifted.len()
                + acc.missing.len() + acc.permission_errors.len() + entries.len()
        },
    decreases entries.len(),
{
    if entries.len() > 0 {
        let e = entries[0];
        match spec_check_entry(e, obs[0], cfg) {
            EntryCheck::Clean => {
                lemma_bounds_rec(entries.skip(1), obs.skip(1), cfg, base, VerificationResultV {
                    verified: acc.verified + 1,
                    ..acc
                });
            },
            EntryCheck::MissingPath => {
                let acc2 = VerificationResultV {
                    missing: acc.missing.push(join_of(base, e.path)),
                    ..acc
                };
                if !cfg.fail_fast {
                    lemma_bounds_rec(entries.skip(1), obs.skip(1), cfg, base, acc2);
                }
            },
            EntryCheck::Permission => {
                lemma_bounds_rec(entries.skip(1), obs.skip(1), cfg, base, VerificationResultV {
                    permission_errors: acc.permission_errors.push(join_of(base, e.path)),
                    ..acc
                });
            },
            EntryCheck::SizeDrift => {
                let size = obs[0]->Present_size;
                let acc2 = VerificationResultV {
                    drifted: acc.drifted.push(spec_size_drift(e, base, size)),
                    ..acc
                };
                if !cfg.fail_fast {
                    lemma_bounds_rec(entries.skip(1), obs.skip(1), cfg, base, acc2);
                }
            },
            EntryCheck::TimeDrift => {
                let mtime = obs[0]->Present_mtime_secs;
                let acc2 = VerificationResultV {
                    drifted: acc.drifted.push(spec_time_drift(e, base, mtime)),
                    ..acc
                };
                if !cfg.fail_fast {
                    lemma_bounds_rec(entries.skip(1), obs.skip(1), cfg, base, acc2);
                }
            },
            EntryCheck::BadTimestamp => {},
        }
    }
}

} // verus!
