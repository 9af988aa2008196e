//! Transactional plan execution: a state machine over the `Delete`-bound
//! entries of a plan. The engine decides; the surrounding program performs
//! each filesystem action and hands the outcome back, so every decision —
//! mode validation, action selection, fail-fast, batching and the summary
//! — is verified here.

use vstd::prelude::*;
use crate::models::{CleanupAction, CleanupEntry, CleanupEntryV, CleanupPlan};
use crate::paths::join_of;

verus! {

/// Execution modes.
#[derive(Debug, Clone, Copy, PartialEq, Eq, Structural)]
pub enum ExecutionMode {
    /// Simulate execution without touching anything
    DryRun,
    /// Prompt for confirmation on each deletion
    Interactive,
    /// Execute all Delete actions automatically
    Batch,
}

/// Configuration for execution behavior.
#[derive(Debug, Clone)]
pub struct ExecutionConfig {
    pub mode: ExecutionMode,
    pub backup_dir: Option<String>,
    pub fail_fast: bool,
    pub use_recycle_bin: bool,
    /// Enable parallel deletion (not compatible with Interactive mode)
    pub parallel: bool,
    /// Batch size for parallel processing
    pub batch_size: usize,
}

impl Default for ExecutionConfig {
    /// Batch mode, no backup, no recycle bin, sequential, batch size 100.
    fn default() -> (r: Self)
        ensures
            r.mode == ExecutionMode::Batch,
            r.backup_dir is None,
            !r.fail_fast,
            !r.use_recycle_bin,
            !r.parallel,
            r.batch_size == 100,
    {
        Self {
            mode: ExecutionMode::Batch,
            backup_dir: None,
            fail_fast: false,
            use_recycle_bin: false,
            parallel: false,
            batch_size: 100,
        }
    }
}

/// Action performed on an entry.
#[derive(Debug, Clone, Copy, PartialEq, Eq, Structural)]
pub enum OperationAction {
    Delete,
    MoveToBackup,
    MoveToRecycleBin,
    Skip,
}

/// Status of an operation.
#[derive(Debug, Clone, Copy, PartialEq, Eq, Structural)]
pub enum OperationStatus {
    Success,
    Failed,
    Skipped,
    DryRun,
}

/// Result of a single operation.
#[derive(Debug, Clone)]
pub struct OperationResult {
    /// Absolute path the operation acted on
    pub path: String,
    pub action: OperationAction,
    pub status: OperationStatus,
    /// Bytes freed, when known
    pub size_freed: Option<u64>,
    pub error: Option<String>,
    /// Seconds since the Unix epoch when the operation was attempted
    pub timestamp: i64,
}

/// Mathematical model of an [`OperationResult`].
pub struct OperationResultV {
    pub path: Seq<char>,
    pub action: OperationAction,
    pub status: OperationStatus,
    pub size_freed: Option<u64>,
    pub error: Option<Seq<char>>,
    pub timestamp: i64,
}

impl View for OperationResult {
    type V = OperationResultV;

    open spec fn view(&self) -> OperationResultV {
        OperationResultV {
            path: self.path@,
            action: self.action,
            status: self.status,
            size_freed: self.size_freed,
            error: self.error.deep_view(),
            timestamp: self.timestamp,
        }
    }
}

impl DeepView for OperationResult {
    type V = OperationResultV;

    open spec fn deep_view(&self) -> OperationResultV {
        self.view()
    }
}

/// Summary of execution: a pure reduction over the operation list.
#[derive(Debug, Clone, Copy, PartialEq, Eq, Structural)]
pub struct ExecutionSummary {
    pub total_operations: usize,
    pub successful: usize,
    pub failed: usize,
    pub skipped: usize,
    pub space_freed: u64,
    /// Wall-clock duration in milliseconds
    pub duration_ms: u64,
}

/// Result of an execution run.
#[derive(Debug)]
pub struct ExecutionResult {
    pub operations: Vec<OperationResult>,
    pub summary: ExecutionSummary,
}

/// Errors that can occur during execution.
#[derive(Debug)]
pub enum ExecutionError {
    /// The user aborted an interactive run
    UserAborted,
    /// The configuration is contradictory
    InvalidConfiguration(String),
}

impl ExecutionError {
    /// A human-readable description of the error.
    pub fn message(&self) -> (r: &str) {
        match self {
            ExecutionError::UserAborted => "User aborted execution",
            ExecutionError::InvalidConfiguration(m) => m.as_str(),
        }
    }
}

/// How many operations count successful: `Success` and `DryRun`.
pub open spec fn spec_success_count(ops: Seq<OperationResultV>) -> nat
    decreases ops.len(),
{
    if ops.len() == 0 {
        0nat
    } else {
        spec_success_count(ops.drop_last()) + if ops.last().status == OperationStatus::Success
            || ops.last().status == OperationStatus::DryRun {
            1nat
        } else {
            0nat
        }
    }
}

/// How many operations failed.
pub open spec fn spec_failed_count(ops: Seq<OperationResultV>) -> nat
    decreases ops.len(),
{
    if ops.len() == 0 {
        0nat
    } else {
        spec_failed_count(ops.drop_last()) + if ops.last().status == OperationStatus::Failed {
            1nat
        } else {
            0nat
        }
    }
}

/// How many operations were skipped.
pub open spec fn spec_skipped_count(ops: Seq<OperationResultV>) -> nat
    decreases ops.len(),
{
    if ops.len() == 0 {
        0nat
    } else {
        spec_skipped_count(ops.drop_last()) + if ops.last().status == OperationStatus::Skipped {
            1nat
        } else {
            0nat
        }
    }
}

/// The bytes freed over the operations, saturating at `u64::MAX`.
pub open spec fn spec_space_freed(ops: Seq<OperationResultV>) -> u64
    decreases ops.len(),
{
    if ops.len() == 0 {
        0u64
    } else {
        let rest = spec_space_freed(ops.drop_last());
        match ops.last().size_freed {
            Some(n) => if rest + n <= u64::MAX {
                (rest + n) as u64
            } else {
                u64::MAX
            },
            None => rest,
        }
    }
}

/// The summary is recomputable from the operation list alone.
pub open spec fn spec_summary_of(ops: Seq<OperationResultV>, duration_ms: u64) -> ExecutionSummary {
    ExecutionSummary {
        total_operations: ops.len() as usize,
        successful: spec_success_count(ops) as usize,
        failed: spec_failed_count(ops) as usize,
        skipped: spec_skipped_count(ops) as usize,
        space_freed: spec_space_freed(ops),
        duration_ms,
    }
}

/// Computes the aggregate summary from the operation list: counts by
/// status, bytes freed and the wall-clock duration.
pub fn compute_summary(operations: &Vec<OperationResult>, duration_ms: u64) -> (r:
    ExecutionSummary)
    ensures
        r == spec_summary_of(operations.deep_view(), duration_ms),
{
    let mut successful: usize = 0;
    let mut failed: usize = 0;
    let mut skipped: usize = 0;
    let mut space_freed: u64 = 0;
    let mut i: usize = 0;
    while i < operations.len()
        invariant
            i <= operations@.len(),
            operations.deep_view().len() == operations@.len(),
            successful == spec_success_count(operations.deep_view().take(i as int)),
            failed == spec_failed_count(operations.deep_view().take(i as int)),
            skipped == spec_skipped_count(operations.deep_view().take(i as int)),
            space_freed == spec_space_freed(operations.deep_view().take(i as int)),
            successful <= i,
            failed <= i,
            skipped <= i,
        decreases operations@.len() - i,
    {
        proof {
            assert(operations.deep_view().take(i + 1 as int).drop_last() =~= operations
                .deep_view().take(i as int));
            assert(operations.deep_view().take(i + 1 as int).last() == operations.deep_view()[
                i as int
            ]);
            assert(operations.deep_view()[i as int] == operations@[i as int].deep_view());
        }
        let op = &operations[i];
        match op.status {
            OperationStatus::Success => {
                successful = successful + 1;
            },
            OperationStatus::DryRun => {
                successful = successful + 1;
            },
            OperationStatus::Failed => {
                failed = failed + 1;
            },
            OperationStatus::Skipped => {
                skipped = skipped + 1;
            },
        }
        match op.size_freed {
            Some(n) => {
                if space_freed <= u64::MAX - n {
                    space_freed = space_freed + n;
                } else {
                    space_freed = u64::MAX;
                }
            },
            None => {},
        }
        i = i + 1;
    }
    proof {
        assert(operations.deep_view().take(operations@.len() as int) =~= operations.deep_view());
    }
    ExecutionSummary {
        total_operations: operations.len(),
        successful,
        failed,
        skipped,
        space_freed,
        duration_ms,
    }
}

/// The `Delete`-bound entries of a plan, in plan order; `Keep` and
/// `Review` entries are inert by design.
pub open spec fn spec_deletes(entries: Seq<CleanupEntryV>) -> Seq<CleanupEntryV>
    decreases entries.len(),
{
    if entries.len() == 0 {
        Seq::<CleanupEntryV>::empty()
    } else if entries[0].action == CleanupAction::Delete {
        seq![entries[0]] + spec_deletes(entries.skip(1))
    } else {
        spec_deletes(entries.skip(1))
    }
}

/// The filesystem action the configuration selects for a `Delete` entry,
/// in priority order: recycle bin, then backup, then outright deletion.
pub open spec fn spec_selected_action(use_recycle_bin: bool, has_backup: bool) -> OperationAction {
    if use_recycle_bin {
        OperationAction::MoveToRecycleBin
    } else if has_backup {
        OperationAction::MoveToBackup
    } else {
        OperationAction::Delete
    }
}

/// Engine for executing cleanup plans.
pub struct ExecutionEngine {
    config: ExecutionConfig,
}

impl ExecutionEngine {
    /// The engine's mode, as contracts see it.
    pub closed spec fn spec_mode(&self) -> ExecutionMode {
        self.config.mode
    }

    /// Whether parallel execution is requested, as contracts see it.
    pub closed spec fn spec_parallel(&self) -> bool {
        self.config.parallel
    }

    /// Create a new execution engine with the given configuration.
    pub fn new(config: ExecutionConfig) -> (r: Self)
        ensures
            r.spec_mode() == config.mode,
            r.spec_parallel() == config.parallel,
            r.spec_fail_fast() == config.fail_fast,
            r.spec_batch_size() == config.batch_size as int,
            r.spec_use_recycle_bin() == config.use_recycle_bin,
            r.spec_backup() == config.backup_dir.deep_view(),
    {
        Self { config }
    }

    /// Starts an execution attempt over a plan's `Delete` entries.
    ///
    /// Requesting `parallel` together with `Interactive` mode is a
    /// configuration error, reported before any operation begins; no
    /// other input is rejected. A parallel run needs a positive batch
    /// size.
    pub fn begin(&self, plan: &CleanupPlan) -> (r: Result<ExecutionState, ExecutionError>)
        requires
            self.spec_parallel() ==> self.spec_batch_size() > 0,
        ensures
            r is Err <==> self.spec_parallel() && self.spec_mode() == ExecutionMode::Interactive,
            r matches Err(e) ==> e is InvalidConfiguration,
            r is Ok ==> ({
                let st = r.unwrap();
                &&& st.spec_pending() == spec_deletes(plan@.entries)
                &&& st.spec_next() == 0
                &&& st.spec_ops() == Seq::<OperationResultV>::empty()
                &&& st.spec_mode() == self.spec_mode()
                &&& st.spec_parallel() == self.spec_parallel()
                &&& st.spec_fail_fast() == self.spec_fail_fast()
                &&& st.spec_batch_size() == self.spec_batch_size()
                &&& st.spec_action() == spec_selected_action(
                    self.spec_use_recycle_bin(),
                    self.spec_backup() is Some,
                )
                &&& st.spec_base() == plan@.base_path
                &&& st.spec_backup() == self.spec_backup()
            }),
    {
        if self.config.parallel && matches!(self.config.mode, ExecutionMode::Interactive) {
            return Err(ExecutionError::InvalidConfiguration(String::from_str(
                "Parallel execution is not compatible with Interactive mode",
            )));
        }
        let mut pending: Vec<CleanupEntry> = Vec::new();
        let mut i: usize = 0;
        proof {
            assert(plan@.entries.skip(0) =~= plan@.entries);
            assert(pending.deep_view() =~= Seq::<CleanupEntryV>::empty());
        }
        while i < plan.entries.len()
            invariant
                i <= plan.entries@.len(),
                plan@.entries.len() == plan.entries@.len(),
                pending.deep_view() + spec_deletes(plan@.entries.skip(i as int)) == spec_deletes(
                    plan@.entries,
                ),
            decreases plan.entries@.len() - i,
        {
            proof {
                let se = plan@.entries.skip(i as int);
                assert(se.len() > 0);
                assert(se[0] == plan@.entries[i as int]);
                assert(plan@.entries[i as int] == plan.entries@[i as int].deep_view());
                assert(se.skip(1) =~= plan@.entries.skip(i + 1 as int));
            }
            let entry = &plan.entries[i];
            if matches!(entry.action, CleanupAction::Delete) {
                let ghost p0 = pending.deep_view();
                pending.push(clone_entry(entry));
                proof {
                    assert(pending.deep_view() =~= p0.push(plan@.entries[i as int]));
                    assert(p0 + (seq![plan@.entries[i as int]] + spec_deletes(
                        plan@.entries.skip(i + 1 as int),
                    )) =~= pending.deep_view() + spec_deletes(plan@.entries.skip(i + 1 as int)));
                }
            }
            i = i + 1;
        }
        proof {
            assert(plan@.entries.skip(plan.entries@.len() as int) =~= Seq::<
                CleanupEntryV,
            >::empty());
            assert(pending.deep_view() + Seq::<CleanupEntryV>::empty() =~= pending.deep_view());
        }
        let action = if self.config.use_recycle_bin {
            OperationAction::MoveToRecycleBin
        } else if self.config.backup_dir.is_some() {
            OperationAction::MoveToBackup
        } else {
            OperationAction::Delete
        };
        Ok(ExecutionState {
            mode: self.config.mode,
            fail_fast: self.config.fail_fast,
            parallel: self.config.parallel,
            batch_size: self.config.batch_size,
            action,
            backup_dir: clone_opt_string(&self.config.backup_dir),
            base_path: crate::detector::clone_string(&plan.base_path),
            pending,
            next: 0,
            operations: Vec::new(),
        })
    }

    /// Simulates a run: every `Delete` entry is reported successful with
    /// its recorded size as the bytes that deletion would free, and the
    /// filesystem is not touched.
    pub fn simulate(&self, plan: &CleanupPlan, timestamp: i64, duration_ms: u64) -> (r: Result<
        ExecutionResult,
        ExecutionError,
    >)
        requires
            self.spec_parallel() ==> self.spec_batch_size() > 0,
        ensures
            r is Err <==> self.spec_parallel() && self.spec_mode() == ExecutionMode::Interactive,
            r matches Err(e) ==> e is InvalidConfiguration,
            r is Ok ==> ({
                let res = r.unwrap();
                let dels = spec_deletes(plan@.entries);
                &&& res@.operations.len() == dels.len()
                &&& (forall|k: int|
                    0 <= k < dels.len() ==> #[trigger] res@.operations[k]
                        == spec_dry_run_op(dels[k], plan@.base_path, timestamp))
                &&& res@.summary == spec_summary_of(res@.operations, duration_ms)
            }),
    {
        let st = match self.begin(plan) {
            Ok(st) => st,
            Err(e) => {
                return Err(e);
            },
        };
        let mut st = st;
        let ghost dels = spec_deletes(plan@.entries);
        let mut fuel: usize = st.remaining();
        while fuel > 0
            invariant
                st.spec_pending() == dels,
                st.spec_mode() == self.spec_mode(),
                st.spec_fail_fast() == self.spec_fail_fast(),
                0 <= st.spec_next() <= dels.len(),
                fuel == dels.len() - st.spec_next(),
                st.spec_ops().len() == st.spec_next(),
                forall|k: int|
                    0 <= k < st.spec_next() ==> #[trigger] st.spec_ops()[k] == spec_dry_run_op(
                        dels[k],
                        st.spec_base(),
                        timestamp,
                    ),
                st.spec_base() == plan@.base_path,
                no_failures(st.spec_ops()),
            decreases fuel,
        {
            proof {
                lemma_no_failures_not_halted(st.spec_ops());
            }
            st.record_dry_run(timestamp);
            fuel = fuel - 1;
        }
        Ok(st.finish(duration_ms))
    }

    pub closed spec fn spec_fail_fast(&self) -> bool {
        self.config.fail_fast
    }

    pub closed spec fn spec_batch_size(&self) -> int {
        self.config.batch_size as int
    }

    pub closed spec fn spec_use_recycle_bin(&self) -> bool {
        self.config.use_recycle_bin
    }

    pub closed spec fn spec_backup(&self) -> Option<Seq<char>> {
        self.config.backup_dir.deep_view()
    }
}

/// No operation so far has failed.
pub open spec fn no_failures(ops: Seq<OperationResultV>) -> bool {
    forall|k: int| 0 <= k < ops.len() ==> (#[trigger] ops[k]).status != OperationStatus::Failed
}

proof fn lemma_no_failures_not_halted(ops: Seq<OperationResultV>)
    requires
        no_failures(ops),
    ensures
        spec_failed_count(ops) == 0,
    decreases ops.len(),
{
    if ops.len() > 0 {
        assert(forall|k: int|
            0 <= k < ops.drop_last().len() ==> #[trigger] ops.drop_last()[k] == ops[k]);
        lemma_no_failures_not_halted(ops.drop_last());
    }
}

/// The operation a dry run records for one entry.
pub open spec fn spec_dry_run_op(entry: CleanupEntryV, base: Seq<char>, timestamp: i64) -> OperationResultV {
    OperationResultV {
        path: join_of(base, entry.path),
        action: OperationAction::Delete,
        status: OperationStatus::DryRun,
        size_freed: Some(entry.size),
        error: None,
        timestamp,
    }
}

/// Clones a cleanup entry with its contents known.
fn clone_entry(e: &CleanupEntry) -> (r: CleanupEntry)
    ensures
        r@ == e@,
{
    CleanupEntry {
        path: crate::detector::clone_string(&e.path),
        size: e.size,
        modified: crate::detector::clone_string(&e.modified),
        action: e.action,
        rule_name: crate::detector::clone_string(&e.rule_name),
        reason: crate::detector::clone_string(&e.reason),
    }
}

/// Clones an optional string with its contents known.
fn clone_opt_string(s: &Option<String>) -> (r: Option<String>)
    ensures
        r.deep_view() == s.deep_view(),
{
    match s {
        Some(x) => Some(crate::detector::clone_string(x)),
        None => None,
    }
}

/// One execution attempt in flight: the `Delete` entries, the cursor, and
/// the operations recorded so far. The surrounding program asks for the
/// next pending entry or batch, performs the action, and records the
/// outcome; fail-fast is decided here, entry-granular sequentially and
/// batch-granular in parallel mode.
pub struct ExecutionState {
    mode: ExecutionMode,
    fail_fast: bool,
    parallel: bool,
    batch_size: usize,
    action: OperationAction,
    backup_dir: Option<String>,
    base_path: String,
    pending: Vec<CleanupEntry>,
    next: usize,
    operations: Vec<OperationResult>,
}

impl ExecutionState {
    /// The `Delete` entries this attempt processes, as contracts see them.
    pub closed spec fn spec_pending(&self) -> Seq<CleanupEntryV> {
        self.pending.deep_view()
    }

    /// The cursor: how many entries have been decided.
    pub closed spec fn spec_next(&self) -> int {
        self.next as int
    }

    /// The operations recorded so far.
    pub closed spec fn spec_ops(&self) -> Seq<OperationResultV> {
        self.operations.deep_view()
    }

    /// The mode in force.
    pub closed spec fn spec_mode(&self) -> ExecutionMode {
        self.mode
    }

    /// Whether fail-fast is in force.
    pub closed spec fn spec_fail_fast(&self) -> bool {
        self.fail_fast
    }

    /// Whether this is a parallel attempt.
    pub closed spec fn spec_parallel(&self) -> bool {
        self.parallel
    }

    /// The parallel batch size.
    pub closed spec fn spec_batch_size(&self) -> int {
        self.batch_size as int
    }

    /// The filesystem action selected for every entry of this attempt.
    pub closed spec fn spec_action(&self) -> OperationAction {
        self.action
    }

    /// The base path entries are joined onto.
    pub closed spec fn spec_base(&self) -> Seq<char> {
        self.base_path@
    }

    /// The backup directory, when one is configured.
    pub closed spec fn spec_backup(&self) -> Option<Seq<char>> {
        self.backup_dir.deep_view()
    }

    /// Whether the attempt is well-formed.
    pub open spec fn wf(&self) -> bool {
        0 <= self.spec_next() <= self.spec_pending().len()
    }

    /// Whether fail-fast has halted the attempt: an operation has failed
    /// and fail-fast is in force.
    pub open spec fn spec_halted(&self) -> bool {
        self.spec_fail_fast() && spec_failed_count(self.spec_ops()) > 0
    }

    /// Whether the attempt is finished: every entry decided, or halted.
    pub open spec fn spec_done(&self) -> bool {
        self.spec_halted() || self.spec_next() >= self.spec_pending().len()
    }

    /// How many entries remain undecided (zero once halted).
    pub fn remaining(&self) -> (r: usize)
        ensures
            r == if self.spec_done() {
                0int
            } else {
                self.spec_pending().len() - self.spec_next()
            },
    {
        if self.is_done() {
            0
        } else {
            self.pending.len() - self.next
        }
    }

    /// Whether the attempt is finished.
    pub fn is_done(&self) -> (r: bool)
        ensures
            r == self.spec_done(),
    {
        if self.next >= self.pending.len() {
            return true;
        }
        if !self.fail_fast {
            return false;
        }
        let mut k: usize = 0;
        let mut failed = false;
        while k < self.operations.len()
            invariant
                k <= self.operations@.len(),
                self.spec_ops().len() == self.operations@.len(),
                failed == (spec_failed_count(self.spec_ops().take(k as int)) > 0),
            decreases self.operations@.len() - k,
        {
            proof {
                assert(self.spec_ops().take(k + 1 as int).drop_last() =~= self.spec_ops().take(
                    k as int,
                ));
                assert(self.spec_ops().take(k + 1 as int).last() == self.spec_ops()[k as int]);
                assert(self.spec_ops()[k as int] == self.operations@[k as int].deep_view());
            }
            if matches!(self.operations[k].status, OperationStatus::Failed) {
                failed = true;
            }
            k = k + 1;
        }
        proof {
            assert(self.spec_ops().take(self.operations@.len() as int) =~= self.spec_ops());
        }
        failed
    }

    /// Whether this attempt simulates only.
    pub fn is_dry_run(&self) -> (r: bool)
        ensures
            r == (self.spec_mode() == ExecutionMode::DryRun),
    {
        matches!(self.mode, ExecutionMode::DryRun)
    }

    /// Whether each entry awaits a confirmation prompt.
    pub fn is_interactive(&self) -> (r: bool)
        ensures
            r == (self.spec_mode() == ExecutionMode::Interactive),
    {
        matches!(self.mode, ExecutionMode::Interactive)
    }

    /// The next pending entry, when the attempt is not finished.
    pub fn next_entry(&self) -> (r: Option<&CleanupEntry>)
        ensures
            r is Some <==> !self.spec_done(),
            r is Some ==> r.unwrap()@ == self.spec_pending()[self.spec_next()],
    {
        if self.is_done() {
            None
        } else {
            proof {
                assert(self.pending.deep_view()[self.next as int] == self.pending@[
                    self.next as int
                ].deep_view());
            }
            Some(&self.pending[self.next])
        }
    }

    /// The absolute path of the next pending entry.
    pub fn next_full_path(&self) -> (r: Option<String>)
        ensures
            r is Some <==> !self.spec_done(),
            r is Some ==> r.unwrap()@ == join_of(
                self.spec_base(),
                self.spec_pending()[self.spec_next()].path,
            ),
    {
        match self.next_entry() {
            Some(e) => Some(crate::paths::join_path(self.base_path.as_str(), e.path.as_str())),
            None => None,
        }
    }

    /// The filesystem action selected for this attempt's entries.
    pub fn planned_action(&self) -> (r: OperationAction)
        ensures
            r == self.spec_action(),
    {
        self.action
    }

    /// The destination under the backup root for the next pending entry,
    /// recreating its relative directory structure.
    pub fn backup_destination(&self) -> (r: Option<String>)
        ensures
            r is Some <==> (!self.spec_done() && self.spec_backup() is Some),
            r is Some ==> r.unwrap()@ == join_of(
                self.spec_backup().unwrap(),
                self.spec_pending()[self.spec_next()].path,
            ),
    {
        match self.next_entry() {
            Some(e) => match &self.backup_dir {
                Some(b) => Some(crate::paths::join_path(b.as_str(), e.path.as_str())),
                None => None,
            },
            None => None,
        }
    }

    /// Records a simulated deletion for the next entry and advances.
    pub fn record_dry_run(&mut self, timestamp: i64)
        requires
            !old(self).spec_done(),
        ensures
            final(self).spec_ops() == old(self).spec_ops().push(
                spec_dry_run_op(
                    old(self).spec_pending()[old(self).spec_next()],
                    old(self).spec_base(),
                    timestamp,
                ),
            ),
            final(self).spec_next() == old(self).spec_next() + 1,
            unchanged_but_cursor(old(self), final(self)),
    {
        let pending_len = self.pending.len();
        proof {
            assert(self.pending.deep_view().len() == self.pending@.len());
            assert(self.next < pending_len);
        }
        let path = crate::paths::join_path(
            self.base_path.as_str(),
            self.pending[self.next].path.as_str(),
        );
        proof {
            assert(self.pending.deep_view()[self.next as int] == self.pending@[
                self.next as int
            ].deep_view());
        }
        let size = self.pending[self.next].size;
        let op = OperationResult {
            path,
            action: OperationAction::Delete,
            status: OperationStatus::DryRun,
            size_freed: Some(size),
            error: None,
            timestamp,
        };
        let ghost o0 = self.operations.deep_view();
        let ghost ov = op@;
        self.operations.push(op);
        self.next = self.next + 1;
        proof {
            assert(self.operations.deep_view() =~= o0.push(ov));
        }
    }

    /// Records a user-declined entry as skipped, with no side effects,
    /// and advances.
    pub fn record_skip(&mut self, timestamp: i64)
        requires
            !old(self).spec_done(),
        ensures
            final(self).spec_ops() == old(self).spec_ops().push(OperationResultV {
                path: join_of(
                    old(self).spec_base(),
                    old(self).spec_pending()[old(self).spec_next()].path,
                ),
                action: OperationAction::Skip,
                status: OperationStatus::Skipped,
                size_freed: None,
                error: None,
                timestamp,
            }),
            final(self).spec_next() == old(self).spec_next() + 1,
            unchanged_but_cursor(old(self), final(self)),
    {
        let pending_len = self.pending.len();
        proof {
            assert(self.pending.deep_view().len() == self.pending@.len());
            assert(self.next < pending_len);
        }
        let path = crate::paths::join_path(
            self.base_path.as_str(),
            self.pending[self.next].path.as_str(),
        );
        proof {
            assert(self.pending.deep_view()[self.next as int] == self.pending@[
                self.next as int
            ].deep_view());
        }
        let op = OperationResult {
            path,
            action: OperationAction::Skip,
            status: OperationStatus::Skipped,
            size_freed: None,
            error: None,
            timestamp,
        };
        let ghost o0 = self.operations.deep_view();
        let ghost ov = op@;
        self.operations.push(op);
        self.next = self.next + 1;
        proof {
            assert(self.operations.deep_view() =~= o0.push(ov));
        }
    }

    /// Records the outcome of the performed action for the next entry and
    /// advances: on success the entry's recorded size counts as freed; on
    /// failure the error is kept and fail-fast, if in force, finishes the
    /// attempt.
    pub fn record_outcome(&mut self, ok: bool, error: Option<String>, timestamp: i64)
        requires
            !old(self).spec_done(),
        ensures
            final(self).spec_ops() == old(self).spec_ops().push(OperationResultV {
                path: join_of(
                    old(self).spec_base(),
                    old(self).spec_pending()[old(self).spec_next()].path,
                ),
                action: old(self).spec_action(),
                status: if ok {
                    OperationStatus::Success
                } else {
                    OperationStatus::Failed
                },
                size_freed: if ok {
                    Some(old(self).spec_pending()[old(self).spec_next()].size)
                } else {
                    None
                },
                error: error.deep_view(),
                timestamp,
            }),
            final(self).spec_next() == old(self).spec_next() + 1,
            unchanged_but_cursor(old(self), final(self)),
    {
        let pending_len = self.pending.len();
        proof {
            assert(self.pending.deep_view().len() == self.pending@.len());
            assert(self.next < pending_len);
        }
        let path = crate::paths::join_path(
            self.base_path.as_str(),
            self.pending[self.next].path.as_str(),
        );
        proof {
            assert(self.pending.deep_view()[self.next as int] == self.pending@[
                self.next as int
            ].deep_view());
        }
        let size = self.pending[self.next].size;
        let op = OperationResult {
            path,
            action: self.action,
            status: if ok {
                OperationStatus::Success
            } else {
                OperationStatus::Failed
            },
            size_freed: if ok {
                Some(size)
            } else {
                None
            },
            error,
            timestamp,
        };
        let ghost o0 = self.operations.deep_view();
        let ghost ov = op@;
        self.operations.push(op);
        self.next = self.next + 1;
        proof {
            assert(self.operations.deep_view() =~= o0.push(ov));
        }
    }

    /// The absolute paths of the next parallel batch: up to `batch_size`
    /// pending entries, empty once the attempt is finished — a failure in
    /// an earlier batch stops the run at this batch boundary.
    pub fn batch_paths(&self) -> (r: Vec<String>)
        ensures
            r@.len() == self.spec_batch_len(),
            forall|k: int|
                0 <= k < r@.len() ==> (#[trigger] r@[k])@ == join_of(
                    self.spec_base(),
                    self.spec_pending()[self.spec_next() + k].path,
                ),
    {
        let mut out: Vec<String> = Vec::new();
        proof {
            assert(self.pending.deep_view().len() == self.pending@.len());
        }
        if self.is_done() {
            return out;
        }
        let left = self.pending.len() - self.next;
        let n = if self.batch_size < left {
            self.batch_size
        } else {
            left
        };
        let mut k: usize = 0;
        while k < n
            invariant
                k <= n,
                n == self.spec_batch_len(),
                self.spec_next() + n <= self.spec_pending().len(),
                self.spec_pending().len() == self.pending@.len(),
                out@.len() == k,
                forall|j: int|
                    0 <= j < k ==> (#[trigger] out@[j])@ == join_of(
                        self.spec_base(),
                        self.spec_pending()[self.spec_next() + j].path,
                    ),
            decreases n - k,
        {
            let pending_len = self.pending.len();
            proof {
                assert(self.pending.deep_view().len() == self.pending@.len());
                assert(self.next + k < pending_len);
                assert(self.pending.deep_view()[self.next + k as int] == self.pending@[
                    self.next + k as int
                ].deep_view());
            }
            out.push(crate::paths::join_path(
                self.base_path.as_str(),
                self.pending[self.next + k].path.as_str(),
            ));
            k = k + 1;
        }
        out
    }

    /// The backup destinations for the next parallel batch, one per
    /// batch entry, present when a backup directory is configured.
    pub fn batch_backup_destinations(&self) -> (r: Vec<Option<String>>)
        ensures
            r@.len() == self.spec_batch_len(),
            forall|k: int|
                0 <= k < r@.len() ==> (#[trigger] r@[k]).deep_view() == (match self
                    .spec_backup() {
                    Some(b) => Some(join_of(
                        b,
                        self.spec_pending()[self.spec_next() + k].path,
                    )),
                    None => None::<Seq<char>>,
                }),
    {
        let mut out: Vec<Option<String>> = Vec::new();
        if self.is_done() {
            return out;
        }
        let left = self.pending.len() - self.next;
        let n = if self.batch_size < left {
            self.batch_size
        } else {
            left
        };
        let mut k: usize = 0;
        while k < n
            invariant
                k <= n,
                n == self.spec_batch_len(),
                self.spec_next() + n <= self.spec_pending().len(),
                self.spec_pending().len() == self.pending@.len(),
                out@.len() == k,
                forall|j: int|
                    0 <= j < k ==> (#[trigger] out@[j]).deep_view() == (match self
                        .spec_backup() {
                        Some(b) => Some(join_of(
                            b,
                            self.spec_pending()[self.spec_next() + j].path,
                        )),
                        None => None::<Seq<char>>,
                    }),
            decreases n - k,
        {
            let pending_len = self.pending.len();
            proof {
                assert(self.pending.deep_view().len() == self.pending@.len());
                assert(self.next + k < pending_len);
                assert(self.pending.deep_view()[self.next + k as int] == self.pending@[
                    self.next + k as int
                ].deep_view());
            }
            let dest = match &self.backup_dir {
                Some(b) => Some(crate::paths::join_path(
                    b.as_str(),
                    self.pending[self.next + k].path.as_str(),
                )),
                None => None,
            };
            out.push(dest);
            k = k + 1;
        }
        out
    }

    /// How many entries the next parallel batch holds.
    pub open spec fn spec_batch_len(&self) -> int {
        if self.spec_done() {
            0
        } else if self.spec_batch_size() < self.spec_pending().len() - self.spec_next() {
            self.spec_batch_size()
        } else {
            self.spec_pending().len() - self.spec_next()
        }
    }

    /// Records the outcomes of one parallel batch, in batch order, and
    /// advances past the batch.
    pub fn record_batch(&mut self, outcomes: &Vec<(bool, Option<String>)>, timestamp: i64)
        requires
            outcomes@.len() == old(self).spec_batch_len(),
            old(self).spec_batch_len() > 0,
        ensures
            final(self).spec_next() == old(self).spec_next() + outcomes@.len(),
            final(self).spec_ops().len() == old(self).spec_ops().len() + outcomes@.len(),
            forall|k: int|
                0 <= k < old(self).spec_ops().len() ==> #[trigger] final(self).spec_ops()[k]
                    == old(self).spec_ops()[k],
            forall|k: int|
                0 <= k < outcomes@.len() ==> #[trigger] final(self).spec_ops()[old(
                    self,
                ).spec_ops().len() + k] == (OperationResultV {
                    path: join_of(
                        old(self).spec_base(),
                        old(self).spec_pending()[old(self).spec_next() + k].path,
                    ),
                    action: old(self).spec_action(),
                    status: if outcomes@[k].0 {
                        OperationStatus::Success
                    } else {
                        OperationStatus::Failed
                    },
                    size_freed: if outcomes@[k].0 {
                        Some(old(self).spec_pending()[old(self).spec_next() + k].size)
                    } else {
                        None
                    },
                    error: outcomes@[k].1.deep_view(),
                    timestamp,
                }),
            unchanged_but_cursor(old(self), final(self)),
    {
        let n = outcomes.len();
        let mut k: usize = 0;
        proof {
            assert(self.pending.deep_view().len() == self.pending@.len());
        }
        while k < n
            invariant
                k <= n,
                n == outcomes@.len(),
                n + old(self).spec_next() <= old(self).spec_pending().len(),
                self.spec_pending() == old(self).spec_pending(),
                self.spec_base() == old(self).spec_base(),
                self.spec_action() == old(self).spec_action(),
                self.spec_mode() == old(self).spec_mode(),
                self.spec_fail_fast() == old(self).spec_fail_fast(),
                self.spec_parallel() == old(self).spec_parallel(),
                self.spec_batch_size() == old(self).spec_batch_size(),
                self.spec_backup() == old(self).spec_backup(),
                self.spec_next() == old(self).spec_next() + k,
                self.spec_ops().len() == old(self).spec_ops().len() + k,
                self.spec_pending().len() == self.pending@.len(),
                self.spec_ops().len() == self.operations@.len(),
                self.spec_next() == self.next as int,
                forall|j: int|
                    0 <= j < old(self).spec_ops().len() ==> #[trigger] self.spec_ops()[j] == old(
                        self,
                    ).spec_ops()[j],
                forall|j: int|
                    0 <= j < k ==> #[trigger] self.spec_ops()[old(self).spec_ops().len() + j]
                        == (OperationResultV {
                        path: join_of(
                            old(self).spec_base(),
                            old(self).spec_pending()[old(self).spec_next() + j].path,
                        ),
                        action: old(self).spec_action(),
                        status: if outcomes@[j].0 {
                            OperationStatus::Success
                        } else {
                            OperationStatus::Failed
                        },
                        size_freed: if outcomes@[j].0 {
                            Some(old(self).spec_pending()[old(self).spec_next() + j].size)
                        } else {
                            None
                        },
                        error: outcomes@[j].1.deep_view(),
                        timestamp,
                    }),
            decreases n - k,
        {
            let pending_len = self.pending.len();
            proof {
                assert(self.pending.deep_view().len() == self.pending@.len());
                assert(self.next < pending_len);
            }
            let path = crate::paths::join_path(
                self.base_path.as_str(),
                self.pending[self.next].path.as_str(),
            );
            proof {
                assert(self.pending.deep_view()[self.next as int] == self.pending@[
                    self.next as int
                ].deep_view());
            }
            let size = self.pending[self.next].size;
            let (ok, err) = get_outcome(outcomes, k);
            let op = OperationResult {
                path,
                action: self.action,
                status: if ok {
                    OperationStatus::Success
                } else {
                    OperationStatus::Failed
                },
                size_freed: if ok {
                    Some(size)
                } else {
                    None
                },
                error: err,
                timestamp,
            };
            let ghost o0 = self.operations.deep_view();
            let ghost ov = op@;
            self.operations.push(op);
            self.next = self.next + 1;
            proof {
                assert(self.operations.deep_view() =~= o0.push(ov));
            }
            k = k + 1;
        }
    }

    /// Finishes the attempt: the operations with their aggregate summary,
    /// recomputable from the operation list alone.
    pub fn finish(self, duration_ms: u64) -> (r: ExecutionResult)
        ensures
            r@.operations == self.spec_ops(),
            r@.summary == spec_summary_of(self.spec_ops(), duration_ms),
    {
        let summary = compute_summary(&self.operations, duration_ms);
        ExecutionResult { operations: self.operations, summary }
    }
}

/// Mathematical model of an [`ExecutionResult`].
pub struct ExecutionResultV {
    pub operations: Seq<OperationResultV>,
    pub summary: ExecutionSummary,
}

impl View for ExecutionResult {
    type V = ExecutionResultV;

    open spec fn view(&self) -> ExecutionResultV {
        ExecutionResultV { operations: self.operations.deep_view(), summary: self.summary }
    }
}

/// Everything but the cursor and the recorded operations stays unchanged.
pub open spec fn unchanged_but_cursor(a: &ExecutionState, b: &ExecutionState) -> bool {
    &&& b.spec_pending() == a.spec_pending()
    &&& b.spec_mode() == a.spec_mode()
    &&& b.spec_fail_fast() == a.spec_fail_fast()
    &&& b.spec_parallel() == a.spec_parallel()
    &&& b.spec_batch_size() == a.spec_batch_size()
    &&& b.spec_action() == a.spec_action()
    &&& b.spec_base() == a.spec_base()
    &&& b.spec_backup() == a.spec_backup()
}

/// Relies on `trash::delete`: moves the path to the platform recycle
/// mechanism. Whether it succeeds depends on the disk and the platform,
/// so nothing is promised of the outcome.
#[verifier::external_body]
pub fn recycle_path(path: &str) -> Result<(), String> {
    match trash::delete(path) {
        Ok(()) => Ok(()),
        Err(e) => Err(e.to_string()),
    }
}

/// Reads one outcome pair with its contents known.
fn get_outcome(outcomes: &Vec<(bool, Option<String>)>, k: usize) -> (r: (bool, Option<String>))
    requires
        k < outcomes@.len(),
    ensures
        r.0 == outcomes@[k as int].0,
        r.1.deep_view() == outcomes@[k as int].1.deep_view(),
{
    let (ok, err) = &outcomes[k];
    (*ok, clone_opt_string(err))
}

} // verus!
