//! Transaction logging: a durable, independently-auditable record of every
//! attempted operation, keyed by a fresh execution identifier. The logger
//! builds and renders the record; the surrounding program persists the
//! rendered text with the same atomic-replace discipline as the plan
//! writer.

use vstd::prelude::*;
use crate::codec::{spec_escape, spec_line, escape, put_line};
use crate::executor::{ExecutionResult, OperationAction, OperationResult, OperationStatus};
use crate::text::{dec_of, u64_to_dec};

verus! {

/// Status of a transaction.
#[derive(Debug, Clone, Copy, PartialEq, Eq, Structural)]
pub enum TransactionStatus {
    InProgress,
    Completed,
    Failed,
    Aborted,
}

/// The log-file name of a transaction status.
pub open spec fn spec_status_name(s: TransactionStatus) -> Seq<char> {
    match s {
        TransactionStatus::InProgress => "in_progress"@,
        TransactionStatus::Completed => "completed"@,
        TransactionStatus::Failed => "failed"@,
        TransactionStatus::Aborted => "aborted"@,
    }
}

/// Options used for execution, as recorded in the log.
#[derive(Debug, Clone)]
pub struct TransactionOptions {
    pub dry_run: bool,
    pub backup_dir: Option<String>,
    pub use_recycle_bin: bool,
    pub fail_fast: bool,
}

/// Mathematical model of [`TransactionOptions`].
pub struct TransactionOptionsV {
    pub dry_run: bool,
    pub backup_dir: Option<Seq<char>>,
    pub use_recycle_bin: bool,
    pub fail_fast: bool,
}

impl View for TransactionOptions {
    type V = TransactionOptionsV;

    open spec fn view(&self) -> TransactionOptionsV {
        TransactionOptionsV {
            dry_run: self.dry_run,
            backup_dir: self.backup_dir.deep_view(),
            use_recycle_bin: self.use_recycle_bin,
            fail_fast: self.fail_fast,
        }
    }
}

/// A logged operation.
#[derive(Debug, Clone)]
pub struct LoggedOperation {
    pub path: String,
    pub action: String,
    pub status: String,
    pub size_freed: Option<u64>,
    pub error: Option<String>,
    pub timestamp: i64,
}

/// Mathematical model of a [`LoggedOperation`].
pub struct LoggedOperationV {
    pub path: Seq<char>,
    pub action: Seq<char>,
    pub status: Seq<char>,
    pub size_freed: Option<u64>,
    pub error: Option<Seq<char>>,
    pub timestamp: i64,
}

impl View for LoggedOperation {
    type V = LoggedOperationV;

    open spec fn view(&self) -> LoggedOperationV {
        LoggedOperationV {
            path: self.path@,
            action: self.action@,
            status: self.status@,
            size_freed: self.size_freed,
            error: self.error.deep_view(),
            timestamp: self.timestamp,
        }
    }
}

impl DeepView for LoggedOperation {
    type V = LoggedOperationV;

    open spec fn deep_view(&self) -> LoggedOperationV {
        self.view()
    }
}

/// The log-file name of an operation action.
pub open spec fn spec_op_action_name(a: OperationAction) -> Seq<char> {
    match a {
        OperationAction::Delete => "Delete"@,
        OperationAction::MoveToBackup => "MoveToBackup"@,
        OperationAction::MoveToRecycleBin => "MoveToRecycleBin"@,
        OperationAction::Skip => "Skip"@,
    }
}

/// The log-file name of an operation status.
pub open spec fn spec_op_status_name(s: OperationStatus) -> Seq<char> {
    match s {
        OperationStatus::Success => "Success"@,
        OperationStatus::Failed => "Failed"@,
        OperationStatus::Skipped => "Skipped"@,
        OperationStatus::DryRun => "DryRun"@,
    }
}

/// How an operation result is logged: the action and status by name, the
/// rest verbatim.
pub open spec fn spec_logged_of(op: crate::executor::OperationResultV) -> LoggedOperationV {
    LoggedOperationV {
        path: op.path,
        action: spec_op_action_name(op.action),
        status: spec_op_status_name(op.status),
        size_freed: op.size_freed,
        error: op.error,
        timestamp: op.timestamp,
    }
}

/// Summary of execution as recorded in the log.
#[derive(Debug, Clone, Copy, PartialEq, Eq, Structural)]
pub struct ExecutionSummaryLog {
    pub total_operations: usize,
    pub successful: usize,
    pub failed: usize,
    pub skipped: usize,
    pub space_freed: u64,
    pub duration_ms: u64,
}

/// A transaction log.
#[derive(Debug)]
pub struct TransactionLog {
    pub version: String,
    pub execution_id: String,
    pub plan_file: String,
    /// Seconds since the Unix epoch when the attempt started
    pub started_at: i64,
    /// Seconds since the Unix epoch when the attempt finished, once known
    pub completed_at: Option<i64>,
    pub status: TransactionStatus,
    pub mode: String,
    pub options: TransactionOptions,
    pub operations: Vec<LoggedOperation>,
    pub summary: Option<ExecutionSummaryLog>,
}

/// Mathematical model of a [`TransactionLog`].
pub struct TransactionLogV {
    pub version: Seq<char>,
    pub execution_id: Seq<char>,
    pub plan_file: Seq<char>,
    pub started_at: i64,
    pub completed_at: Option<i64>,
    pub status: TransactionStatus,
    pub mode: Seq<char>,
    pub options: TransactionOptionsV,
    pub operations: Seq<LoggedOperationV>,
    pub summary: Option<ExecutionSummaryLog>,
}

impl View for TransactionLog {
    type V = TransactionLogV;

    open spec fn view(&self) -> TransactionLogV {
        TransactionLogV {
            version: self.version@,
            execution_id: self.execution_id@,
            plan_file: self.plan_file@,
            started_at: self.started_at,
            completed_at: self.completed_at,
            status: self.status,
            mode: self.mode@,
            options: self.options@,
            operations: self.operations.deep_view(),
            summary: self.summary,
        }
    }
}

/// Relies on `uuid::Uuid::new_v4` and its `Display` rendering: a freshly
/// generated random identifier in the 36-character hyphenated form.
/// Nothing else is promised of a random value.
#[verifier::external_body]
fn fresh_execution_id() -> (r: String)
    ensures
        r@.len() == 36,
{
    uuid::Uuid::new_v4().to_string()
}

/// Logger for transaction operations.
pub struct TransactionLogger {
    log_path: String,
    log: TransactionLog,
}

impl TransactionLogger {
    /// The record built so far, as contracts see it.
    pub closed spec fn spec_log(&self) -> TransactionLogV {
        self.log@
    }

    /// The path the rendered log is meant to be persisted at.
    pub closed spec fn spec_log_path(&self) -> Seq<char> {
        self.log_path@
    }

    /// Create a new transaction logger: a fresh unique execution
    /// identifier, the source plan file, the current time as the start
    /// timestamp, and status `InProgress`.
    pub fn new(plan_file: &str, log_path: String, options: TransactionOptions) -> (r: Self)
        ensures
            r.spec_log().plan_file == plan_file@,
            r.spec_log().completed_at is None,
            r.spec_log().status == TransactionStatus::InProgress,
            r.spec_log().mode == if options@.dry_run {
                "dry_run"@
            } else {
                "batch"@
            },
            r.spec_log().options == options@,
            r.spec_log().operations == Seq::<LoggedOperationV>::empty(),
            r.spec_log().summary is None,
            r.spec_log().execution_id.len() == 36,
            r.spec_log_path() == log_path@,
    {
        let mode = if options.dry_run {
            String::from_str("dry_run")
        } else {
            String::from_str("batch")
        };
        let log = TransactionLog {
            version: String::from_str("1.0"),
            execution_id: fresh_execution_id(),
            plan_file: String::from_str(plan_file),
            started_at: crate::clock::now_epoch_secs(),
            completed_at: None,
            status: TransactionStatus::InProgress,
            mode,
            options,
            operations: Vec::new(),
            summary: None,
        };
        let r = Self { log_path, log };
        proof {
            assert(r.spec_log().operations =~= Seq::<LoggedOperationV>::empty());
        }
        r
    }

    /// Get the execution ID.
    pub fn execution_id(&self) -> (r: &str)
        ensures
            r@ == self.spec_log().execution_id,
    {
        self.log.execution_id.as_str()
    }

    /// Read access to the record built so far.
    pub fn log(&self) -> (r: &TransactionLog)
        ensures
            r@ == self.spec_log(),
    {
        &self.log
    }

    /// Log a single operation: appended to the record, with the action
    /// and status recorded by name.
    pub fn log_operation(&mut self, operation: &OperationResult)
        ensures
            final(self).spec_log().operations == old(self).spec_log().operations.push(
                spec_logged_of(operation@),
            ),
            unchanged_log_header(old(self), final(self)),
            final(self).spec_log().completed_at == old(self).spec_log().completed_at,
            final(self).spec_log().status == old(self).spec_log().status,
            final(self).spec_log().summary == old(self).spec_log().summary,
            final(self).spec_log_path() == old(self).spec_log_path(),
    {
        let action = match operation.action {
            OperationAction::Delete => String::from_str("Delete"),
            OperationAction::MoveToBackup => String::from_str("MoveToBackup"),
            OperationAction::MoveToRecycleBin => String::from_str("MoveToRecycleBin"),
            OperationAction::Skip => String::from_str("Skip"),
        };
        let status = match operation.status {
            OperationStatus::Success => String::from_str("Success"),
            OperationStatus::Failed => String::from_str("Failed"),
            OperationStatus::Skipped => String::from_str("Skipped"),
            OperationStatus::DryRun => String::from_str("DryRun"),
        };
        let entry = LoggedOperation {
            path: crate::detector::clone_string(&operation.path),
            action,
            status,
            size_freed: operation.size_freed,
            error: clone_opt(&operation.error),
            timestamp: operation.timestamp,
        };
        let ghost o0 = self.log.operations.deep_view();
        let ghost ev = entry@;
        self.log.operations.push(entry);
        proof {
            assert(self.log.operations.deep_view() =~= o0.push(ev));
        }
    }

    /// Finalize the transaction log: the completion timestamp is set to
    /// the current time, the terminal status recorded, and the final
    /// summary taken over from the execution result.
    pub fn finalize(&mut self, result: &ExecutionResult, status: TransactionStatus)
        ensures
            final(self).spec_log().completed_at is Some,
            final(self).spec_log().status == status,
            final(self).spec_log().summary == Some(ExecutionSummaryLog {
                total_operations: result.summary.total_operations,
                successful: result.summary.successful,
                failed: result.summary.failed,
                skipped: result.summary.skipped,
                space_freed: result.summary.space_freed,
                duration_ms: result.summary.duration_ms,
            }),
            final(self).spec_log().operations == old(self).spec_log().operations,
            unchanged_log_header(old(self), final(self)),
            final(self).spec_log_path() == old(self).spec_log_path(),
    {
        self.log.completed_at = Some(crate::clock::now_epoch_secs());
        self.log.status = status;
        self.log.summary = Some(ExecutionSummaryLog {
            total_operations: result.summary.total_operations,
            successful: result.summary.successful,
            failed: result.summary.failed,
            skipped: result.summary.skipped,
            space_freed: result.summary.space_freed,
            duration_ms: result.summary.duration_ms,
        });
    }

    /// Returns the path the rendered log should be persisted at.
    pub fn log_path(&self) -> (r: &str)
        ensures
            r@ == self.spec_log_path(),
    {
        self.log_path.as_str()
    }

    /// Renders the record as its log-document text, ready to be persisted
    /// with the atomic-replace discipline.
    pub fn render(&self) -> (r: String)
        ensures
            r@ == spec_encode_log(self.spec_log()),
    {
        encode_log(&self.log)
    }
}

/// Everything of the log but operations, completion, status and summary
/// stays unchanged.
pub open spec fn unchanged_log_header(a: &TransactionLogger, b: &TransactionLogger) -> bool {
    &&& b.spec_log().version == a.spec_log().version
    &&& b.spec_log().execution_id == a.spec_log().execution_id
    &&& b.spec_log().plan_file == a.spec_log().plan_file
    &&& b.spec_log().started_at == a.spec_log().started_at
    &&& b.spec_log().mode == a.spec_log().mode
    &&& b.spec_log().options == a.spec_log().options
}

/// Clones an optional string with its contents known.
fn clone_opt(s: &Option<String>) -> (r: Option<String>)
    ensures
        r.deep_view() == s.deep_view(),
{
    match s {
        Some(x) => Some(crate::detector::clone_string(x)),
        None => None,
    }
}

// ---------------------------------------------------------------------------
// Log document rendering
// ---------------------------------------------------------------------------

/// Renders a boolean.
fn enc_bool(b: bool) -> (r: &'static str)
    ensures
        r@ == crate::codec::spec_bool_name(b),
{
    if b {
        "true"
    } else {
        "false"
    }
}

/// The rendering of one logged operation: six `key value` lines.
pub open spec fn spec_encode_logged(op: LoggedOperationV) -> Seq<char> {
    spec_line("op_path"@, spec_escape(op.path)) + (spec_line(
        "op_action"@,
        spec_escape(op.action),
    ) + (spec_line("op_status"@, spec_escape(op.status)) + (spec_line(
        "op_size_freed"@,
        opt_dec_name(op.size_freed),
    ) + (spec_line("op_error"@, opt_esc_name(op.error)) + spec_line(
        "op_timestamp"@,
        crate::codec::spec_enc_int(op.timestamp),
    )))))
}

/// The rendering of the logged operations, in order.
pub open spec fn spec_encode_logged_ops(ops: Seq<LoggedOperationV>) -> Seq<char>
    decreases ops.len(),
{
    if ops.len() == 0 {
        Seq::<char>::empty()
    } else {
        spec_encode_logged(ops[0]) + spec_encode_logged_ops(ops.skip(1))
    }
}

/// The rendering of the final summary, when known.
pub open spec fn spec_encode_summary(s: Option<ExecutionSummaryLog>) -> Seq<char> {
    match s {
        None => spec_line("summary"@, "none"@),
        Some(v) => spec_line("summary"@, "some"@) + (spec_line(
            "total_operations"@,
            dec_of(v.total_operations as int),
        ) + (spec_line("successful"@, dec_of(v.successful as int)) + (spec_line(
            "failed"@,
            dec_of(v.failed as int),
        ) + (spec_line("skipped"@, dec_of(v.skipped as int)) + (spec_line(
            "space_freed"@,
            dec_of(v.space_freed as int),
        ) + spec_line("duration_ms"@, dec_of(v.duration_ms as int))))))),
    }
}

/// The rendering of a whole transaction log.
pub open spec fn spec_encode_log(log: TransactionLogV) -> Seq<char> {
    spec_line("version"@, spec_escape(log.version)) + (spec_line(
        "execution_id"@,
        spec_escape(log.execution_id),
    ) + (spec_line("plan_file"@, spec_escape(log.plan_file)) + spec_encode_log_mid(log)))
}

/// The rendering of everything from the started-at field on.
pub open spec fn spec_encode_log_mid(log: TransactionLogV) -> Seq<char> {
    spec_line("started_at"@, crate::codec::spec_enc_int(log.started_at)) + (spec_line(
        "completed_at"@,
        opt_int_name(log.completed_at),
    ) + (spec_line("status"@, spec_status_name(log.status)) + spec_encode_log_tail(log)))
}

/// The rendering of everything from the mode field on.
pub open spec fn spec_encode_log_tail(log: TransactionLogV) -> Seq<char> {
    spec_line("mode"@, spec_escape(log.mode)) + (spec_line(
        "dry_run"@,
        crate::codec::spec_bool_name(log.options.dry_run),
    ) + (spec_line("backup_dir"@, opt_esc_name(log.options.backup_dir)) + (spec_line(
        "use_recycle_bin"@,
        crate::codec::spec_bool_name(log.options.use_recycle_bin),
    ) + (spec_line("fail_fast"@, crate::codec::spec_bool_name(log.options.fail_fast)) + (spec_line(
        "operations"@,
        dec_of(log.operations.len() as int),
    ) + (spec_encode_logged_ops(log.operations) + spec_encode_summary(log.summary)))))))
}

/// Renders an optional payload.
fn enc_opt_payload(p: Option<String>) -> (r: String)
    ensures
        r@ == crate::codec::spec_opt_name(match p {
            Some(v) => Some(v@),
            None => None,
        }),
{
    match p {
        None => String::from_str("none"),
        Some(v) => {
            let mut out = String::from_str("some ");
            out.append(v.as_str());
            proof {
                assert(out@ =~= "some "@ + v@);
            }
            out
        },
    }
}

/// Appends the rendering of one logged operation.
fn append_logged(out: &mut String, op: &LoggedOperation)
    ensures
        final(out)@ == old(out)@ + spec_encode_logged(op@),
{
    let v1 = escape(op.path.as_str());
    put_line(out, "op_path", v1.as_str());
    let v2 = escape(op.action.as_str());
    put_line(out, "op_action", v2.as_str());
    let v3 = escape(op.status.as_str());
    put_line(out, "op_status", v3.as_str());
    let v4 = enc_opt_payload(match op.size_freed {
        Some(n) => Some(u64_to_dec(n)),
        None => None,
    });
    put_line(out, "op_size_freed", v4.as_str());
    let v5 = enc_opt_payload(match &op.error {
        Some(e) => Some(escape(e.as_str())),
        None => None,
    });
    put_line(out, "op_error", v5.as_str());
    let v6 = crate::codec::enc_int(op.timestamp);
    put_line(out, "op_timestamp", v6.as_str());
    proof {
        assert(out@ =~= old(out)@ + spec_encode_logged(op@));
    }
}

/// Borrows one logged operation.
fn log_op_at(log: &TransactionLog, i: usize) -> (r: &LoggedOperation)
    requires
        i < log.operations@.len(),
    ensures
        r@ == log@.operations[i as int],
{
    &log.operations[i]
}

/// Renders a transaction log as its log-document text.
pub fn encode_log(log: &TransactionLog) -> (r: String)
    ensures
        r@ == spec_encode_log(log@),
{
    let mut out = String::new();
    let v1 = escape(log.version.as_str());
    put_line(&mut out, "version", v1.as_str());
    let v2 = escape(log.execution_id.as_str());
    put_line(&mut out, "execution_id", v2.as_str());
    let v3 = escape(log.plan_file.as_str());
    put_line(&mut out, "plan_file", v3.as_str());
    let mid = encode_log_mid_part(log);
    out.append(mid.as_str());
    proof {
        assert(out@ =~= spec_encode_log(log@));
    }
    out
}

/// Renders the timestamps and status section onward.
fn encode_log_mid_part(log: &TransactionLog) -> (r: String)
    ensures
        r@ == spec_encode_log_mid(log@),
{
    let mut out = String::new();
    let v4 = crate::codec::enc_int(log.started_at);
    put_line(&mut out, "started_at", v4.as_str());
    let v5 = enc_opt_payload(match log.completed_at {
        Some(t) => Some(crate::codec::enc_int(t)),
        None => None,
    });
    put_line(&mut out, "completed_at", v5.as_str());
    let v6 = match log.status {
        TransactionStatus::InProgress => String::from_str("in_progress"),
        TransactionStatus::Completed => String::from_str("completed"),
        TransactionStatus::Failed => String::from_str("failed"),
        TransactionStatus::Aborted => String::from_str("aborted"),
    };
    put_line(&mut out, "status", v6.as_str());
    let tail = encode_log_tail_part(log);
    out.append(tail.as_str());
    proof {
        assert(out@ =~= spec_encode_log_mid(log@));
    }
    out
}

/// Renders the mode, options, operations and summary sections.
#[verifier::rlimit(100)]
fn encode_log_tail_part(log: &TransactionLog) -> (r: String)
    ensures
        r@ == spec_encode_log_tail(log@),
{
    let mut out = String::new();
    let v7 = escape(log.mode.as_str());
    put_line(&mut out, "mode", v7.as_str());
    put_line(&mut out, "dry_run", enc_bool(log.options.dry_run));
    let v8 = enc_opt_payload(match &log.options.backup_dir {
        Some(b) => Some(escape(b.as_str())),
        None => None,
    });
    put_line(&mut out, "backup_dir", v8.as_str());
    put_line(&mut out, "use_recycle_bin", enc_bool(log.options.use_recycle_bin));
    put_line(&mut out, "fail_fast", enc_bool(log.options.fail_fast));
    let v9 = u64_to_dec(log.operations.len() as u64);
    put_line(&mut out, "operations", v9.as_str());
    let ops = encode_logged_ops(log);
    out.append(ops.as_str());
    let summary = encode_summary_part(log);
    out.append(summary.as_str());
    proof {
        assert(out@ =~= spec_encode_log_tail(log@));
    }
    out
}

/// Renders the logged operations, in order.
fn encode_logged_ops(log: &TransactionLog) -> (r: String)
    ensures
        r@ == spec_encode_logged_ops(log@.operations),
{
    let mut out = String::new();
    let mut i: usize = 0;
    proof {
        assert(log@.operations.skip(0) =~= log@.operations);
        assert(Seq::<char>::empty() + spec_encode_logged_ops(log@.operations)
            =~= spec_encode_logged_ops(log@.operations));
    }
    while i < log.operations.len()
        invariant
            i <= log.operations@.len(),
            log@.operations.len() == log.operations@.len(),
            out@ + spec_encode_logged_ops(log@.operations.skip(i as int)) == spec_encode_logged_ops(
                log@.operations,
            ),
        decreases log.operations@.len() - i,
    {
        proof {
            let suf = log@.operations.skip(i as int);
            assert(suf.len() > 0);
            assert(suf[0] == log@.operations[i as int]);
            assert(log@.operations[i as int] == log.operations@[i as int].deep_view());
            assert(suf.skip(1) =~= log@.operations.skip(i + 1 as int));
        }
        let ghost out0 = out@;
        append_logged(&mut out, log_op_at(log, i));
        proof {
            assert(out0 + (spec_encode_logged(log@.operations[i as int]) + spec_encode_logged_ops(
                log@.operations.skip(i + 1 as int),
            )) =~= out@ + spec_encode_logged_ops(log@.operations.skip(i + 1 as int)));
        }
        i = i + 1;
    }
    proof {
        assert(log@.operations.skip(log.operations@.len() as int) =~= Seq::<
            LoggedOperationV,
        >::empty());
        assert(out@ + Seq::<char>::empty() =~= out@);
    }
    out
}

/// Renders the summary section.
fn encode_summary_part(log: &TransactionLog) -> (r: String)
    ensures
        r@ == spec_encode_summary(log@.summary),
{
    let mut out = String::new();
    match &log.summary {
        None => {
            put_line(&mut out, "summary", "none");
        },
        Some(v) => {
            put_line(&mut out, "summary", "some");
            let s1 = u64_to_dec(v.total_operations as u64);
            put_line(&mut out, "total_operations", s1.as_str());
            let s2 = u64_to_dec(v.successful as u64);
            put_line(&mut out, "successful", s2.as_str());
            let s3 = u64_to_dec(v.failed as u64);
            put_line(&mut out, "failed", s3.as_str());
            let s4 = u64_to_dec(v.skipped as u64);
            put_line(&mut out, "skipped", s4.as_str());
            let s5 = u64_to_dec(v.space_freed);
            put_line(&mut out, "space_freed", s5.as_str());
            let s6 = u64_to_dec(v.duration_ms);
            put_line(&mut out, "duration_ms", s6.as_str());
        },
    }
    proof {
        assert(out@ =~= spec_encode_summary(log@.summary));
    }
    out
}

// ---------------------------------------------------------------------------
// Log document parsing
// ---------------------------------------------------------------------------

/// The log document keys are newline-free.
pub proof fn lemma_log_keys_no_newline()
    ensures
        forall|i: int| 0 <= i < "execution_id"@.len() ==> #[trigger] "execution_id"@[i] != '\n',
        forall|i: int| 0 <= i < "plan_file"@.len() ==> #[trigger] "plan_file"@[i] != '\n',
        forall|i: int| 0 <= i < "started_at"@.len() ==> #[trigger] "started_at"@[i] != '\n',
        forall|i: int| 0 <= i < "completed_at"@.len() ==> #[trigger] "completed_at"@[i] != '\n',
        forall|i: int| 0 <= i < "status"@.len() ==> #[trigger] "status"@[i] != '\n',
        forall|i: int| 0 <= i < "mode"@.len() ==> #[trigger] "mode"@[i] != '\n',
        forall|i: int| 0 <= i < "dry_run"@.len() ==> #[trigger] "dry_run"@[i] != '\n',
        forall|i: int| 0 <= i < "backup_dir"@.len() ==> #[trigger] "backup_dir"@[i] != '\n',
        forall|i: int|
            0 <= i < "use_recycle_bin"@.len() ==> #[trigger] "use_recycle_bin"@[i] != '\n',
        forall|i: int| 0 <= i < "fail_fast"@.len() ==> #[trigger] "fail_fast"@[i] != '\n',
        forall|i: int| 0 <= i < "operations"@.len() ==> #[trigger] "operations"@[i] != '\n',
        forall|i: int| 0 <= i < "op_path"@.len() ==> #[trigger] "op_path"@[i] != '\n',
        forall|i: int| 0 <= i < "op_action"@.len() ==> #[trigger] "op_action"@[i] != '\n',
        forall|i: int| 0 <= i < "op_status"@.len() ==> #[trigger] "op_status"@[i] != '\n',
        forall|i: int|
            0 <= i < "op_size_freed"@.len() ==> #[trigger] "op_size_freed"@[i] != '\n',
        forall|i: int| 0 <= i < "op_error"@.len() ==> #[trigger] "op_error"@[i] != '\n',
        forall|i: int| 0 <= i < "op_timestamp"@.len() ==> #[trigger] "op_timestamp"@[i] != '\n',
        forall|i: int| 0 <= i < "summary"@.len() ==> #[trigger] "summary"@[i] != '\n',
        forall|i: int|
            0 <= i < "total_operations"@.len() ==> #[trigger] "total_operations"@[i] != '\n',
        forall|i: int| 0 <= i < "successful"@.len() ==> #[trigger] "successful"@[i] != '\n',
        forall|i: int| 0 <= i < "failed"@.len() ==> #[trigger] "failed"@[i] != '\n',
        forall|i: int| 0 <= i < "skipped"@.len() ==> #[trigger] "skipped"@[i] != '\n',
        forall|i: int| 0 <= i < "space_freed"@.len() ==> #[trigger] "space_freed"@[i] != '\n',
        forall|i: int| 0 <= i < "duration_ms"@.len() ==> #[trigger] "duration_ms"@[i] != '\n',
{
    reveal_strlit("execution_id");
    reveal_strlit("plan_file");
    reveal_strlit("started_at");
    reveal_strlit("completed_at");
    reveal_strlit("status");
    reveal_strlit("mode");
    reveal_strlit("dry_run");
    reveal_strlit("backup_dir");
    reveal_strlit("use_recycle_bin");
    reveal_strlit("fail_fast");
    reveal_strlit("operations");
    reveal_strlit("op_path");
    reveal_strlit("op_action");
    reveal_strlit("op_status");
    reveal_strlit("op_size_freed");
    reveal_strlit("op_error");
    reveal_strlit("op_timestamp");
    reveal_strlit("summary");
    reveal_strlit("total_operations");
    reveal_strlit("successful");
    reveal_strlit("failed");
    reveal_strlit("skipped");
    reveal_strlit("space_freed");
    reveal_strlit("duration_ms");
}

/// The rendering of an optional recorded size.
pub open spec fn opt_dec_name(p: Option<u64>) -> Seq<char> {
    crate::codec::spec_opt_name(match p {
        Some(n) => Some(dec_of(n as int)),
        None => None,
    })
}

/// The rendering of an optional escaped string.
pub open spec fn opt_esc_name(p: Option<Seq<char>>) -> Seq<char> {
    crate::codec::spec_opt_name(match p {
        Some(v) => Some(spec_escape(v)),
        None => None,
    })
}

/// The rendering of an optional signed timestamp.
pub open spec fn opt_int_name(p: Option<i64>) -> Seq<char> {
    crate::codec::spec_opt_name(match p {
        Some(t) => Some(crate::codec::spec_enc_int(t)),
        None => None,
    })
}

/// An optional decimal payload.
pub open spec fn spec_parse_opt_u64(v: Seq<char>) -> Option<Option<u64>> {
    match crate::codec::spec_parse_opt(v) {
        None => None,
        Some(None) => Some(None),
        Some(Some(p)) => match crate::text::spec_parse_u64(p) {
            Some(n) => Some(Some(n)),
            None => None,
        },
    }
}

/// An optional escaped-string payload.
pub open spec fn spec_parse_opt_str(v: Seq<char>) -> Option<Option<Seq<char>>> {
    match crate::codec::spec_parse_opt(v) {
        None => None,
        Some(None) => Some(None),
        Some(Some(p)) => match crate::codec::spec_unescape(p) {
            Some(t) => Some(Some(t)),
            None => None,
        },
    }
}

/// An optional signed-decimal payload.
pub open spec fn spec_parse_opt_i64(v: Seq<char>) -> Option<Option<i64>> {
    match crate::codec::spec_parse_opt(v) {
        None => None,
        Some(None) => Some(None),
        Some(Some(p)) => match crate::codec::spec_parse_i64(p) {
            Some(n) => Some(Some(n)),
            None => None,
        },
    }
}

/// The optional-decimal payload of a recorded size parses back.
proof fn lemma_opt_u64_round_trip(p: Option<u64>)
    ensures
        spec_parse_opt_u64(opt_dec_name(p)) == Some(p),
        forall|i: int|
            0 <= i < opt_dec_name(p).len() ==> #[trigger] opt_dec_name(p)[i] != '\n',
{
    match p {
        Some(n) => {
            crate::codec::lemma_dec_no_newline(n as int);
            crate::codec::lemma_opt_round_trip(Some(dec_of(n as int)));
            crate::text::lemma_parse_dec_round_trip(n);
        },
        None => {
            crate::codec::lemma_opt_round_trip(None);
        },
    }
}

/// The optional-escaped payload of an error or backup path parses back.
proof fn lemma_opt_str_round_trip(p: Option<Seq<char>>)
    ensures
        spec_parse_opt_str(opt_esc_name(p)) == Some(p),
        forall|i: int|
            0 <= i < opt_esc_name(p).len() ==> #[trigger] opt_esc_name(p)[i] != '\n',
{
    match p {
        Some(v) => {
            crate::codec::lemma_escape_no_newline(v);
            crate::codec::lemma_opt_round_trip(Some(spec_escape(v)));
            crate::codec::lemma_escape_round_trip(v);
        },
        None => {
            crate::codec::lemma_opt_round_trip(None);
        },
    }
}

/// The optional-signed payload of a completion time parses back.
proof fn lemma_opt_i64_round_trip(p: Option<i64>)
    ensures
        spec_parse_opt_i64(opt_int_name(p)) == Some(p),
        forall|i: int|
            0 <= i < opt_int_name(p).len() ==> #[trigger] opt_int_name(p)[i] != '\n',
{
    match p {
        Some(t) => {
            crate::codec::lemma_int_round_trip(t);
            crate::codec::lemma_opt_round_trip(Some(crate::codec::spec_enc_int(t)));
        },
        None => {
            crate::codec::lemma_opt_round_trip(None);
        },
    }
}

/// What a status name denotes.
pub open spec fn spec_parse_status(v: Seq<char>) -> Option<TransactionStatus> {
    if v == "in_progress"@ {
        Some(TransactionStatus::InProgress)
    } else if v == "completed"@ {
        Some(TransactionStatus::Completed)
    } else if v == "failed"@ {
        Some(TransactionStatus::Failed)
    } else if v == "aborted"@ {
        Some(TransactionStatus::Aborted)
    } else {
        None
    }
}

/// Status names parse back, and contain no newline.
pub proof fn lemma_status_round_trip(st: TransactionStatus)
    ensures
        spec_parse_status(spec_status_name(st)) == Some(st),
        forall|i: int|
            0 <= i < spec_status_name(st).len() ==> #[trigger] spec_status_name(st)[i] != '\n',
{
    reveal_strlit("in_progress");
    reveal_strlit("completed");
    reveal_strlit("failed");
    reveal_strlit("aborted");
    assert("in_progress"@.len() == 11);
    assert("completed"@.len() == 9);
    assert("failed"@.len() == 6);
    assert("aborted"@.len() == 7);
}

/// Parses a status name.
pub fn parse_status(v: &str) -> (r: Option<TransactionStatus>)
    ensures
        r == spec_parse_status(v@),
{
    if crate::text::str_eq(v, "in_progress") {
        Some(TransactionStatus::InProgress)
    } else if crate::text::str_eq(v, "completed") {
        Some(TransactionStatus::Completed)
    } else if crate::text::str_eq(v, "failed") {
        Some(TransactionStatus::Failed)
    } else if crate::text::str_eq(v, "aborted") {
        Some(TransactionStatus::Aborted)
    } else {
        None
    }
}

/// What parsing one logged operation at `pos` yields.
pub open spec fn spec_parse_logged(s: Seq<char>, pos: int) -> Option<(LoggedOperationV, int)> {
    match crate::codec::spec_read_field(s, pos, "op_path"@) {
        None => None,
        Some((raw_path, p1)) => match crate::codec::spec_unescape(raw_path) {
            None => None,
            Some(path) => match crate::codec::spec_read_field(s, p1, "op_action"@) {
                None => None,
                Some((raw_action, p2)) => match crate::codec::spec_unescape(raw_action) {
                    None => None,
                    Some(action) => match crate::codec::spec_read_field(s, p2, "op_status"@) {
                        None => None,
                        Some((raw_status, p3)) => match crate::codec::spec_unescape(raw_status) {
                            None => None,
                            Some(status) => match crate::codec::spec_read_field(
                                s,
                                p3,
                                "op_size_freed"@,
                            ) {
                                None => None,
                                Some((raw_size, p4)) => match spec_parse_opt_u64(raw_size) {
                                    None => None,
                                    Some(size_freed) => match crate::codec::spec_read_field(
                                        s,
                                        p4,
                                        "op_error"@,
                                    ) {
                                        None => None,
                                        Some((raw_err, p5)) => match spec_parse_opt_str(raw_err) {
                                            None => None,
                                            Some(error) => match crate::codec::spec_read_field(
                                                s,
                                                p5,
                                                "op_timestamp"@,
                                            ) {
                                                None => None,
                                                Some((raw_ts, p6)) => match
                                                    crate::codec::spec_parse_i64(raw_ts) {
                                                    None => None,
                                                    Some(timestamp) => Some((
                                                        LoggedOperationV {
                                                            path,
                                                            action,
                                                            status,
                                                            size_freed,
                                                            error,
                                                            timestamp,
                                                        },
                                                        p6,
                                                    )),
                                                },
                                            },
                                        },
                                    },
                                },
                            },
                        },
                    },
                },
            },
        },
    }
}

/// What parsing `n` logged operations in a row yields.
pub open spec fn spec_parse_logged_ops(s: Seq<char>, pos: int, n: nat) -> Option<(
    Seq<LoggedOperationV>,
    int,
)>
    decreases n,
{
    if n == 0 {
        Some((Seq::<LoggedOperationV>::empty(), pos))
    } else {
        match spec_parse_logged(s, pos) {
            None => None,
            Some((op, p)) => match spec_parse_logged_ops(s, p, (n - 1) as nat) {
                None => None,
                Some((ops, p2)) => Some((seq![op] + ops, p2)),
            },
        }
    }
}

/// What parsing the summary section yields.
pub open spec fn spec_parse_summary(s: Seq<char>, pos: int) -> Option<(
    Option<ExecutionSummaryLog>,
    int,
)> {
    match crate::codec::spec_read_field(s, pos, "summary"@) {
        None => None,
        Some((tag, p0)) => if tag == "none"@ {
            Some((None, p0))
        } else if tag == "some"@ {
            match crate::codec::spec_read_field(s, p0, "total_operations"@) {
                None => None,
                Some((v1, p1)) => match crate::text::spec_parse_u64(v1) {
                    None => None,
                    Some(total_operations) => match crate::codec::spec_read_field(
                        s,
                        p1,
                        "successful"@,
                    ) {
                        None => None,
                        Some((v2, p2)) => match crate::text::spec_parse_u64(v2) {
                            None => None,
                            Some(successful) => match crate::codec::spec_read_field(
                                s,
                                p2,
                                "failed"@,
                            ) {
                                None => None,
                                Some((v3, p3)) => match crate::text::spec_parse_u64(v3) {
                                    None => None,
                                    Some(failed) => match crate::codec::spec_read_field(
                                        s,
                                        p3,
                                        "skipped"@,
                                    ) {
                                        None => None,
                                        Some((v4, p4)) => match crate::text::spec_parse_u64(v4) {
                                            None => None,
                                            Some(skipped) => match crate::codec::spec_read_field(
                                                s,
                                                p4,
                                                "space_freed"@,
                                            ) {
                                                None => None,
                                                Some((v5, p5)) => match
                                                    crate::text::spec_parse_u64(v5) {
                                                    None => None,
                                                    Some(space_freed) => match
                                                        crate::codec::spec_read_field(
                                                        s,
                                                        p5,
                                                        "duration_ms"@,
                                                    ) {
                                                        None => None,
                                                        Some((v6, p6)) => match
                                                            crate::text::spec_parse_u64(v6) {
                                                            None => None,
                                                            Some(duration_ms) => if
                                                                total_operations
                                                                <= usize::MAX as u64 && successful
                                                                <= usize::MAX as u64 && failed
                                                                <= usize::MAX as u64 && skipped
                                                                <= usize::MAX as u64 {
                                                                Some((
                                                                    Some(ExecutionSummaryLog {
                                                                        total_operations:
                                                                            total_operations
                                                                            as usize,
                                                                        successful: successful
                                                                            as usize,
                                                                        failed: failed as usize,
                                                                        skipped: skipped as usize,
                                                                        space_freed,
                                                                        duration_ms,
                                                                    }),
                                                                    p6,
                                                                ))
                                                            } else {
                                                                None
                                                            },
                                                        },
                                                    },
                                                },
                                            },
                                        },
                                    },
                                },
                            },
                        },
                    },
                },
            }
        } else {
            None
        },
    }
}

/// What parsing a whole log document yields. The parse is strict: fields
/// come in a fixed order and the document must be consumed completely.
pub open spec fn spec_parse_log(s: Seq<char>) -> Option<TransactionLogV> {
    match crate::codec::spec_read_field(s, 0, "version"@) {
        None => None,
        Some((raw_ver, p1)) => match crate::codec::spec_unescape(raw_ver) {
            None => None,
            Some(version) => match crate::codec::spec_read_field(s, p1, "execution_id"@) {
                None => None,
                Some((raw_id, p2)) => match crate::codec::spec_unescape(raw_id) {
                    None => None,
                    Some(execution_id) => match crate::codec::spec_read_field(
                        s,
                        p2,
                        "plan_file"@,
                    ) {
                        None => None,
                        Some((raw_plan, p3)) => match crate::codec::spec_unescape(raw_plan) {
                            None => None,
                            Some(plan_file) => spec_parse_log_mid(
                                s,
                                p3,
                                version,
                                execution_id,
                                plan_file,
                            ),
                        },
                    },
                },
            },
        },
    }
}

/// The middle of a log parse: timestamps and status.
pub open spec fn spec_parse_log_mid(
    s: Seq<char>,
    pos: int,
    version: Seq<char>,
    execution_id: Seq<char>,
    plan_file: Seq<char>,
) -> Option<TransactionLogV> {
    match crate::codec::spec_read_field(s, pos, "started_at"@) {
        None => None,
        Some((raw_started, p4)) => match crate::codec::spec_parse_i64(raw_started) {
            None => None,
            Some(started_at) => match crate::codec::spec_read_field(s, p4, "completed_at"@) {
                None => None,
                Some((raw_completed, p5)) => match spec_parse_opt_i64(raw_completed) {
                    None => None,
                    Some(completed_at) => match crate::codec::spec_read_field(s, p5, "status"@) {
                        None => None,
                        Some((raw_status, p6)) => match spec_parse_status(raw_status) {
                            None => None,
                            Some(status) => spec_parse_log_tail(
                                s,
                                p6,
                                version,
                                execution_id,
                                plan_file,
                                started_at,
                                completed_at,
                                status,
                            ),
                        },
                    },
                },
            },
        },
    }
}

/// The rest of a log parse: mode, options, operations and summary.
pub open spec fn spec_parse_log_tail(
    s: Seq<char>,
    pos: int,
    version: Seq<char>,
    execution_id: Seq<char>,
    plan_file: Seq<char>,
    started_at: i64,
    completed_at: Option<i64>,
    status: TransactionStatus,
) -> Option<TransactionLogV> {
    match crate::codec::spec_read_field(s, pos, "mode"@) {
        None => None,
        Some((raw_mode, p7)) => match crate::codec::spec_unescape(raw_mode) {
            None => None,
            Some(mode) => match crate::codec::spec_read_field(s, p7, "dry_run"@) {
                None => None,
                Some((v1, p8)) => match crate::codec::spec_parse_bool(v1) {
                    None => None,
                    Some(dry_run) => match crate::codec::spec_read_field(s, p8, "backup_dir"@) {
                        None => None,
                        Some((v2, p9)) => match spec_parse_opt_str(v2) {
                            None => None,
                            Some(backup_dir) => match crate::codec::spec_read_field(
                                s,
                                p9,
                                "use_recycle_bin"@,
                            ) {
                                None => None,
                                Some((v3, p10)) => match crate::codec::spec_parse_bool(v3) {
                                    None => None,
                                    Some(use_recycle_bin) => match crate::codec::spec_read_field(
                                        s,
                                        p10,
                                        "fail_fast"@,
                                    ) {
                                        None => None,
                                        Some((v4, p11)) => match crate::codec::spec_parse_bool(
                                            v4,
                                        ) {
                                            None => None,
                                            Some(fail_fast) => match
                                                crate::codec::spec_read_field(
                                                s,
                                                p11,
                                                "operations"@,
                                            ) {
                                                None => None,
                                                Some((v5, p12)) => match
                                                    crate::text::spec_parse_u64(v5) {
                                                    None => None,
                                                    Some(count) => if count <= usize::MAX as u64 {
                                                        match spec_parse_logged_ops(
                                                            s,
                                                            p12,
                                                            count as nat,
                                                        ) {
                                                            None => None,
                                                            Some((operations, p13)) => match
                                                                spec_parse_summary(s, p13) {
                                                                None => None,
                                                                Some((summary, p14)) => if p14
                                                                    == s.len() {
                                                                    Some(TransactionLogV {
                                                                        version,
                                                                        execution_id,
                                                                        plan_file,
                                                                        started_at,
                                                                        completed_at,
                                                                        status,
                                                                        mode,
                                                                        options:
                                                                            TransactionOptionsV {
                                                                            dry_run,
                                                                            backup_dir,
                                                                            use_recycle_bin,
                                                                            fail_fast,
                                                                        },
                                                                        operations,
                                                                        summary,
                                                                    })
                                                                } else {
                                                                    None
                                                                },
                                                            },
                                                        }
                                                    } else {
                                                        None
                                                    },
                                                },
                                            },
                                        },
                                    },
                                },
                            },
                        },
                    },
                },
            },
        },
    }
}

/// Parsing the rendering of one logged operation yields it back.
proof fn lemma_parse_logged_of(s: Seq<char>, pos: int, op: LoggedOperationV, rest: Seq<char>)
    requires
        0 <= pos <= s.len(),
        s.skip(pos) == spec_encode_logged(op) + rest,
    ensures
        spec_parse_logged(s, pos) == Some((op, s.len() - rest.len())),
        pos <= s.len() - rest.len() <= s.len(),
        s.skip(s.len() - rest.len()) == rest,
{
    lemma_log_keys_no_newline();
    let l1 = spec_line("op_path"@, spec_escape(op.path));
    let l2 = spec_line("op_action"@, spec_escape(op.action));
    let l3 = spec_line("op_status"@, spec_escape(op.status));
    let v4 = opt_dec_name(op.size_freed);
    let l4 = spec_line("op_size_freed"@, v4);
    let v5 = opt_esc_name(op.error);
    let l5 = spec_line("op_error"@, v5);
    let l6 = spec_line("op_timestamp"@, crate::codec::spec_enc_int(op.timestamp));
    assert(s.skip(pos) =~= l1 + (l2 + (l3 + (l4 + (l5 + (l6 + rest))))));
    crate::codec::lemma_read_str_field_of(s, pos, "op_path"@, op.path, l2 + (l3 + (l4 + (l5 + (l6
        + rest)))));
    let p1 = s.len() - (l2 + (l3 + (l4 + (l5 + (l6 + rest))))).len();
    crate::codec::lemma_read_str_field_of(s, p1, "op_action"@, op.action, l3 + (l4 + (l5 + (l6
        + rest))));
    let p2 = s.len() - (l3 + (l4 + (l5 + (l6 + rest)))).len();
    crate::codec::lemma_read_str_field_of(s, p2, "op_status"@, op.status, l4 + (l5 + (l6 + rest)));
    let p3 = s.len() - (l4 + (l5 + (l6 + rest))).len();
    lemma_opt_u64_round_trip(op.size_freed);
    crate::codec::lemma_read_plain_field_of(s, p3, "op_size_freed"@, v4, l5 + (l6 + rest));
    let p4 = s.len() - (l5 + (l6 + rest)).len();
    lemma_opt_str_round_trip(op.error);
    crate::codec::lemma_read_plain_field_of(s, p4, "op_error"@, v5, l6 + rest);
    let p5 = s.len() - (l6 + rest).len();
    crate::codec::lemma_int_round_trip(op.timestamp);
    crate::codec::lemma_read_plain_field_of(
        s,
        p5,
        "op_timestamp"@,
        crate::codec::spec_enc_int(op.timestamp),
        rest,
    );
}

/// Parsing the rendering of a logged-operation list yields it back.
proof fn lemma_parse_logged_ops_of(
    s: Seq<char>,
    pos: int,
    ops: Seq<LoggedOperationV>,
    rest: Seq<char>,
)
    requires
        0 <= pos <= s.len(),
        s.skip(pos) == spec_encode_logged_ops(ops) + rest,
    ensures
        spec_parse_logged_ops(s, pos, ops.len()) == Some((ops, s.len() - rest.len())),
        pos <= s.len() - rest.len() <= s.len(),
        s.skip(s.len() - rest.len()) == rest,
    decreases ops.len(),
{
    if ops.len() == 0 {
        assert(spec_encode_logged_ops(ops) + rest =~= rest);
        assert(s.skip(pos).len() == s.len() - pos);
        assert(ops =~= Seq::<LoggedOperationV>::empty());
    } else {
        let tail = spec_encode_logged_ops(ops.skip(1)) + rest;
        assert(s.skip(pos) =~= spec_encode_logged(ops[0]) + tail);
        lemma_parse_logged_of(s, pos, ops[0], tail);
        let p1 = s.len() - tail.len();
        assert(s.skip(p1) =~= spec_encode_logged_ops(ops.skip(1)) + rest);
        lemma_parse_logged_ops_of(s, p1, ops.skip(1), rest);
        assert(seq![ops[0]] + ops.skip(1) =~= ops);
    }
}

/// Parsing the rendering of the summary section yields it back.
#[verifier::rlimit(100)]
#[verifier::spinoff_prover]
proof fn lemma_parse_summary_of(
    s: Seq<char>,
    pos: int,
    sm: Option<ExecutionSummaryLog>,
    rest: Seq<char>,
)
    requires
        0 <= pos <= s.len(),
        s.skip(pos) == spec_encode_summary(sm) + rest,
    ensures
        spec_parse_summary(s, pos) == Some((sm, s.len() - rest.len())),
        pos <= s.len() - rest.len() <= s.len(),
        s.skip(s.len() - rest.len()) == rest,
{
    lemma_log_keys_no_newline();
    reveal_strlit("none");
    reveal_strlit("some");
    assert("none"@.len() == 4);
    assert("some"@.len() == 4);
    assert("none"@[0] == 'n');
    assert("some"@[0] == 's');
    assert(forall|i: int| 0 <= i < "none"@.len() ==> #[trigger] "none"@[i] != '\n');
    assert(forall|i: int| 0 <= i < "some"@.len() ==> #[trigger] "some"@[i] != '\n');
    match sm {
        None => {
            assert(s.skip(pos) =~= spec_line("summary"@, "none"@) + rest);
            crate::codec::lemma_read_plain_field_of(s, pos, "summary"@, "none"@, rest);
        },
        Some(v) => {
            let l0 = spec_line("summary"@, "some"@);
            let l1 = spec_line("total_operations"@, dec_of(v.total_operations as int));
            let l2 = spec_line("successful"@, dec_of(v.successful as int));
            let l3 = spec_line("failed"@, dec_of(v.failed as int));
            let l4 = spec_line("skipped"@, dec_of(v.skipped as int));
            let l5 = spec_line("space_freed"@, dec_of(v.space_freed as int));
            let l6 = spec_line("duration_ms"@, dec_of(v.duration_ms as int));
            assert(s.skip(pos) =~= l0 + (l1 + (l2 + (l3 + (l4 + (l5 + (l6 + rest)))))));
            crate::codec::lemma_read_plain_field_of(s, pos, "summary"@, "some"@, l1 + (l2 + (l3
                + (l4 + (l5 + (l6 + rest))))));
            assert("some"@ != "none"@);
            let p0 = s.len() - (l1 + (l2 + (l3 + (l4 + (l5 + (l6 + rest)))))).len();
            crate::codec::lemma_read_u64_field_of(
                s,
                p0,
                "total_operations"@,
                v.total_operations as u64,
                l2 + (l3 + (l4 + (l5 + (l6 + rest)))),
            );
            let p1 = s.len() - (l2 + (l3 + (l4 + (l5 + (l6 + rest))))).len();
            crate::codec::lemma_read_u64_field_of(
                s,
                p1,
                "successful"@,
                v.successful as u64,
                l3 + (l4 + (l5 + (l6 + rest))),
            );
            let p2 = s.len() - (l3 + (l4 + (l5 + (l6 + rest)))).len();
            crate::codec::lemma_read_u64_field_of(
                s,
                p2,
                "failed"@,
                v.failed as u64,
                l4 + (l5 + (l6 + rest)),
            );
            let p3 = s.len() - (l4 + (l5 + (l6 + rest))).len();
            crate::codec::lemma_read_u64_field_of(
                s,
                p3,
                "skipped"@,
                v.skipped as u64,
                l5 + (l6 + rest),
            );
            let p4 = s.len() - (l5 + (l6 + rest)).len();
            crate::codec::lemma_read_u64_field_of(s, p4, "space_freed"@, v.space_freed, l6 + rest);
            let p5 = s.len() - (l6 + rest).len();
            crate::codec::lemma_read_u64_field_of(s, p5, "duration_ms"@, v.duration_ms, rest);
        },
    }
}

#[verifier::rlimit(100)]
#[verifier::spinoff_prover]
proof fn lemma_log_round_trip_head(log: TransactionLogV)
    ensures
        ({
            let s = spec_encode_log(log);
            let mid = spec_encode_log_mid(log);
            &&& mid.len() <= s.len()
            &&& s.skip(s.len() - mid.len()) == mid
            &&& spec_parse_log(s) == spec_parse_log_mid(
                s,
                s.len() - mid.len(),
                log.version,
                log.execution_id,
                log.plan_file,
            )
        }),
{
    crate::codec::lemma_keys_no_newline();
    lemma_log_keys_no_newline();
    let s = spec_encode_log(log);
    let l1 = spec_line("version"@, spec_escape(log.version));
    let l2 = spec_line("execution_id"@, spec_escape(log.execution_id));
    let l3 = spec_line("plan_file"@, spec_escape(log.plan_file));
    let mid = spec_encode_log_mid(log);
    assert(s.skip(0) =~= l1 + (l2 + (l3 + mid)));
    crate::codec::lemma_read_str_field_of(s, 0, "version"@, log.version, l2 + (l3 + mid));
    let p1 = s.len() - (l2 + (l3 + mid)).len();
    crate::codec::lemma_read_str_field_of(s, p1, "execution_id"@, log.execution_id, l3 + mid);
    let p2 = s.len() - (l3 + mid).len();
    crate::codec::lemma_read_str_field_of(s, p2, "plan_file"@, log.plan_file, mid);
}

#[verifier::rlimit(100)]
#[verifier::spinoff_prover]
proof fn lemma_log_round_trip_mid(log: TransactionLogV, s: Seq<char>, pos: int)
    requires
        0 <= pos <= s.len(),
        s.skip(pos) == spec_encode_log_mid(log),
    ensures
        ({
            let tail = spec_encode_log_tail(log);
            &&& tail.len() <= s.len() - pos
            &&& s.skip(s.len() - tail.len()) == tail
            &&& spec_parse_log_mid(s, pos, log.version, log.execution_id, log.plan_file)
                == spec_parse_log_tail(
                s,
                s.len() - tail.len(),
                log.version,
                log.execution_id,
                log.plan_file,
                log.started_at,
                log.completed_at,
                log.status,
            )
        }),
{
    lemma_log_keys_no_newline();
    let l4 = spec_line("started_at"@, crate::codec::spec_enc_int(log.started_at));
    let l5 = spec_line("completed_at"@, opt_int_name(log.completed_at));
    let l6 = spec_line("status"@, spec_status_name(log.status));
    let tail = spec_encode_log_tail(log);
    assert(s.skip(pos) =~= l4 + (l5 + (l6 + tail)));
    crate::codec::lemma_int_round_trip(log.started_at);
    crate::codec::lemma_read_plain_field_of(
        s,
        pos,
        "started_at"@,
        crate::codec::spec_enc_int(log.started_at),
        l5 + (l6 + tail),
    );
    let p4 = s.len() - (l5 + (l6 + tail)).len();
    lemma_opt_i64_round_trip(log.completed_at);
    crate::codec::lemma_read_plain_field_of(s, p4, "completed_at"@, opt_int_name(
        log.completed_at,
    ), l6 + tail);
    let p5 = s.len() - (l6 + tail).len();
    lemma_status_round_trip(log.status);
    crate::codec::lemma_read_plain_field_of(s, p5, "status"@, spec_status_name(log.status), tail);
}

#[verifier::rlimit(100)]
#[verifier::spinoff_prover]
proof fn lemma_log_round_trip_tail(log: TransactionLogV, s: Seq<char>, pos: int)
    requires
        log.operations.len() <= usize::MAX,
        0 <= pos <= s.len(),
        s.skip(pos) == spec_encode_log_tail(log),
    ensures
        spec_parse_log_tail(
            s,
            pos,
            log.version,
            log.execution_id,
            log.plan_file,
            log.started_at,
            log.completed_at,
            log.status,
        ) == Some(log),
{
    lemma_log_keys_no_newline();
    let lops = spec_encode_logged_ops(log.operations);
    let lsum = spec_encode_summary(log.summary);
    crate::codec::lemma_read_str_field_of(
        s,
        pos,
        "mode"@,
        log.mode,
        spec_line("dry_run"@, crate::codec::spec_bool_name(log.options.dry_run)) + (spec_line(
            "backup_dir"@,
            opt_esc_name(log.options.backup_dir),
        ) + (spec_line(
            "use_recycle_bin"@,
            crate::codec::spec_bool_name(log.options.use_recycle_bin),
        ) + (spec_line("fail_fast"@, crate::codec::spec_bool_name(log.options.fail_fast)) + (
        spec_line("operations"@, dec_of(log.operations.len() as int)) + (lops + lsum))))),
    );
    let r8 = spec_line("backup_dir"@, opt_esc_name(log.options.backup_dir)) + (spec_line(
        "use_recycle_bin"@,
        crate::codec::spec_bool_name(log.options.use_recycle_bin),
    ) + (spec_line("fail_fast"@, crate::codec::spec_bool_name(log.options.fail_fast)) + (
    spec_line("operations"@, dec_of(log.operations.len() as int)) + (lops + lsum))));
    let p7 = s.len() - (spec_line(
        "dry_run"@,
        crate::codec::spec_bool_name(log.options.dry_run),
    ) + r8).len();
    crate::codec::lemma_bool_round_trip(log.options.dry_run);
    crate::codec::lemma_read_plain_field_of(
        s,
        p7,
        "dry_run"@,
        crate::codec::spec_bool_name(log.options.dry_run),
        r8,
    );
    let r9 = spec_line(
        "use_recycle_bin"@,
        crate::codec::spec_bool_name(log.options.use_recycle_bin),
    ) + (spec_line("fail_fast"@, crate::codec::spec_bool_name(log.options.fail_fast)) + (
    spec_line("operations"@, dec_of(log.operations.len() as int)) + (lops + lsum)));
    let p8 = s.len() - r8.len();
    lemma_opt_str_round_trip(log.options.backup_dir);
    crate::codec::lemma_read_plain_field_of(s, p8, "backup_dir"@, opt_esc_name(
        log.options.backup_dir,
    ), r9);
    let r10 = spec_line("fail_fast"@, crate::codec::spec_bool_name(log.options.fail_fast)) + (
    spec_line("operations"@, dec_of(log.operations.len() as int)) + (lops + lsum));
    let p9 = s.len() - r9.len();
    crate::codec::lemma_bool_round_trip(log.options.use_recycle_bin);
    crate::codec::lemma_read_plain_field_of(
        s,
        p9,
        "use_recycle_bin"@,
        crate::codec::spec_bool_name(log.options.use_recycle_bin),
        r10,
    );
    let r11 = spec_line("operations"@, dec_of(log.operations.len() as int)) + (lops + lsum);
    let p10 = s.len() - r10.len();
    crate::codec::lemma_bool_round_trip(log.options.fail_fast);
    crate::codec::lemma_read_plain_field_of(
        s,
        p10,
        "fail_fast"@,
        crate::codec::spec_bool_name(log.options.fail_fast),
        r11,
    );
    let p11 = s.len() - r11.len();
    crate::codec::lemma_read_u64_field_of(
        s,
        p11,
        "operations"@,
        log.operations.len() as u64,
        lops + lsum,
    );
    let p12 = s.len() - (lops + lsum).len();
    lemma_parse_logged_ops_of(s, p12, log.operations, lsum);
    let p13 = s.len() - lsum.len();
    assert(s.skip(p13) =~= lsum + Seq::<char>::empty());
    lemma_parse_summary_of(s, p13, log.summary, Seq::<char>::empty());
    assert((log.operations.len() as u64) as nat == log.operations.len());
    assert(TransactionOptionsV {
        dry_run: log.options.dry_run,
        backup_dir: log.options.backup_dir,
        use_recycle_bin: log.options.use_recycle_bin,
        fail_fast: log.options.fail_fast,
    } == log.options);
}

/// Law: serialize-then-deserialize yields a transaction log equal in all
/// observable fields to the original. For every log value, parsing its
/// rendering succeeds and gives the log back.
pub proof fn lemma_log_round_trip(log: TransactionLogV)
    requires
        log.operations.len() <= usize::MAX,
    ensures
        spec_parse_log(spec_encode_log(log)) == Some(log),
{
    lemma_log_round_trip_head(log);
    let s = spec_encode_log(log);
    let mid = spec_encode_log_mid(log);
    lemma_log_round_trip_mid(log, s, s.len() - mid.len());
    let tail = spec_encode_log_tail(log);
    lemma_log_round_trip_tail(log, s, s.len() - tail.len());
}

/// Parses an optional decimal payload.
fn parse_opt_u64_field(v: &str) -> (r: Option<Option<u64>>)
    ensures
        r == spec_parse_opt_u64(v@),
{
    match crate::codec::parse_opt(v) {
        None => None,
        Some(None) => Some(None),
        Some(Some(p)) => match crate::text::parse_u64(p.as_str()) {
            Some(n) => Some(Some(n)),
            None => None,
        },
    }
}

/// Parses an optional escaped-string payload.
fn parse_opt_str_field(v: &str) -> (r: Option<Option<String>>)
    ensures
        r is Some <==> spec_parse_opt_str(v@) is Some,
        r is Some ==> spec_parse_opt_str(v@) == Some(r.unwrap().deep_view()),
{
    match crate::codec::parse_opt(v) {
        None => None,
        Some(None) => Some(None),
        Some(Some(p)) => match crate::codec::unescape(p.as_str()) {
            Some(t) => Some(Some(t)),
            None => None,
        },
    }
}

/// Parses an optional signed-decimal payload.
fn parse_opt_i64_field(v: &str) -> (r: Option<Option<i64>>)
    ensures
        r == spec_parse_opt_i64(v@),
{
    match crate::codec::parse_opt(v) {
        None => None,
        Some(None) => Some(None),
        Some(Some(p)) => match crate::codec::parse_i64(p.as_str()) {
            Some(n) => Some(Some(n)),
            None => None,
        },
    }
}

/// Parses one logged operation at `pos`.
fn parse_logged_at(s: &str, pos: usize) -> (r: Option<(LoggedOperation, usize)>)
    requires
        pos <= s@.len(),
    ensures
        r is Some <==> spec_parse_logged(s@, pos as int) is Some,
        r is Some ==> {
            &&& spec_parse_logged(s@, pos as int) == Some((
                r.unwrap().0@,
                r.unwrap().1 as int,
            ))
            &&& pos < r.unwrap().1 <= s@.len()
        },
{
    match crate::codec::read_field(s, pos, "op_path") {
        None => None,
        Some((raw_path, p1)) => match crate::codec::unescape(raw_path.as_str()) {
            None => None,
            Some(path) => match crate::codec::read_field(s, p1, "op_action") {
                None => None,
                Some((raw_action, p2)) => match crate::codec::unescape(raw_action.as_str()) {
                    None => None,
                    Some(action) => match crate::codec::read_field(s, p2, "op_status") {
                        None => None,
                        Some((raw_status, p3)) => match crate::codec::unescape(
                            raw_status.as_str(),
                        ) {
                            None => None,
                            Some(status) => match crate::codec::read_field(
                                s,
                                p3,
                                "op_size_freed",
                            ) {
                                None => None,
                                Some((raw_size, p4)) => match parse_opt_u64_field(
                                    raw_size.as_str(),
                                ) {
                                    None => None,
                                    Some(size_freed) => match crate::codec::read_field(
                                        s,
                                        p4,
                                        "op_error",
                                    ) {
                                        None => None,
                                        Some((raw_err, p5)) => match parse_opt_str_field(
                                            raw_err.as_str(),
                                        ) {
                                            None => None,
                                            Some(error) => match crate::codec::read_field(
                                                s,
                                                p5,
                                                "op_timestamp",
                                            ) {
                                                None => None,
                                                Some((raw_ts, p6)) => match
                                                    crate::codec::parse_i64(raw_ts.as_str()) {
                                                    None => None,
                                                    Some(timestamp) => Some((
                                                        LoggedOperation {
                                                            path,
                                                            action,
                                                            status,
                                                            size_freed,
                                                            error,
                                                            timestamp,
                                                        },
                                                        p6,
                                                    )),
                                                },
                                            },
                                        },
                                    },
                                },
                            },
                        },
                    },
                },
            },
        },
    }
}

/// Parses `n` logged operations in a row at `pos`.
fn parse_logged_ops_at(s: &str, pos: usize, n: usize) -> (r: Option<(
    Vec<LoggedOperation>,
    usize,
)>)
    requires
        pos <= s@.len(),
    ensures
        r is Some <==> spec_parse_logged_ops(s@, pos as int, n as nat) is Some,
        r is Some ==> {
            &&& spec_parse_logged_ops(s@, pos as int, n as nat) == Some((
                r.unwrap().0.deep_view(),
                r.unwrap().1 as int,
            ))
            &&& pos <= r.unwrap().1 <= s@.len()
        },
{
    let mut collected: Vec<LoggedOperation> = Vec::new();
    let mut cur: usize = pos;
    let mut i: usize = 0;
    proof {
        assert(collected.deep_view() =~= Seq::<LoggedOperationV>::empty());
    }
    while i < n
        invariant
            pos <= cur <= s@.len(),
            i <= n,
            spec_parse_logged_ops(s@, pos as int, n as nat) is Some <==> spec_parse_logged_ops(
                s@,
                cur as int,
                (n - i) as nat,
            ) is Some,
            forall|ops: Seq<LoggedOperationV>, p: int|
                spec_parse_logged_ops(s@, cur as int, (n - i) as nat) == Some((ops, p))
                    ==> spec_parse_logged_ops(s@, pos as int, n as nat) == Some((
                    collected.deep_view() + ops,
                    p,
                )),
        decreases n - i,
    {
        match parse_logged_at(s, cur) {
            None => {
                proof {
                    assert(spec_parse_logged_ops(s@, cur as int, (n - i) as nat) is None);
                }
                return None;
            },
            Some((op, p)) => {
                let ghost col0 = collected.deep_view();
                let ghost ov = op@;
                collected.push(op);
                proof {
                    assert(collected.deep_view() =~= col0.push(ov));
                    if spec_parse_logged_ops(s@, p as int, (n - i - 1) as nat) is Some {
                        let (ops2, p2) = spec_parse_logged_ops(s@, p as int, (n - i - 1) as nat)
                            .unwrap();
                        assert(spec_parse_logged_ops(s@, cur as int, (n - i) as nat) == Some((
                            seq![ov] + ops2,
                            p2,
                        )));
                        assert(col0 + (seq![ov] + ops2) =~= collected.deep_view() + ops2);
                    } else {
                        assert(spec_parse_logged_ops(s@, cur as int, (n - i) as nat) is None);
                    }
                }
                cur = p;
                i = i + 1;
            },
        }
    }
    proof {
        assert(spec_parse_logged_ops(s@, cur as int, 0) == Some((
            Seq::<LoggedOperationV>::empty(),
            cur as int,
        )));
        assert(collected.deep_view() + Seq::<LoggedOperationV>::empty()
            =~= collected.deep_view());
    }
    Some((collected, cur))
}

/// Parses the summary section at `pos`.
fn parse_summary_at(s: &str, pos: usize) -> (r: Option<(Option<ExecutionSummaryLog>, usize)>)
    requires
        pos <= s@.len(),
    ensures
        r is Some <==> spec_parse_summary(s@, pos as int) is Some,
        r is Some ==> {
            &&& spec_parse_summary(s@, pos as int) == Some((
                r.unwrap().0,
                r.unwrap().1 as int,
            ))
            &&& pos < r.unwrap().1 <= s@.len()
        },
{
    match crate::codec::read_field(s, pos, "summary") {
        None => None,
        Some((tag, p0)) => {
            if crate::text::str_eq(tag.as_str(), "none") {
                return Some((None, p0));
            }
            if !crate::text::str_eq(tag.as_str(), "some") {
                return None;
            }
            match crate::codec::read_field(s, p0, "total_operations") {
                None => None,
                Some((v1, p1)) => match crate::text::parse_u64(v1.as_str()) {
                    None => None,
                    Some(total_operations) => match crate::codec::read_field(
                        s,
                        p1,
                        "successful",
                    ) {
                        None => None,
                        Some((v2, p2)) => match crate::text::parse_u64(v2.as_str()) {
                            None => None,
                            Some(successful) => match crate::codec::read_field(s, p2, "failed") {
                                None => None,
                                Some((v3, p3)) => match crate::text::parse_u64(v3.as_str()) {
                                    None => None,
                                    Some(failed) => match crate::codec::read_field(
                                        s,
                                        p3,
                                        "skipped",
                                    ) {
                                        None => None,
                                        Some((v4, p4)) => match crate::text::parse_u64(
                                            v4.as_str(),
                                        ) {
                                            None => None,
                                            Some(skipped) => match crate::codec::read_field(
                                                s,
                                                p4,
                                                "space_freed",
                                            ) {
                                                None => None,
                                                Some((v5, p5)) => match crate::text::parse_u64(
                                                    v5.as_str(),
                                                ) {
                                                    None => None,
                                                    Some(space_freed) => match
                                                        crate::codec::read_field(
                                                        s,
                                                        p5,
                                                        "duration_ms",
                                                    ) {
                                                        None => None,
                                                        Some((v6, p6)) => match
                                                            crate::text::parse_u64(v6.as_str()) {
                                                            None => None,
                                                            Some(duration_ms) => if
                                                                total_operations
                                                                <= usize::MAX as u64 && successful
                                                                <= usize::MAX as u64 && failed
                                                                <= usize::MAX as u64 && skipped
                                                                <= usize::MAX as u64 {
                                                                Some((
                                                                    Some(ExecutionSummaryLog {
                                                                        total_operations:
                                                                            total_operations
                                                                            as usize,
                                                                        successful: successful
                                                                            as usize,
                                                                        failed: failed as usize,
                                                                        skipped: skipped as usize,
                                                                        space_freed,
                                                                        duration_ms,
                                                                    }),
                                                                    p6,
                                                                ))
                                                            } else {
                                                                None
                                                            },
                                                        },
                                                    },
                                                },
                                            },
                                        },
                                    },
                                },
                            },
                        },
                    },
                },
            }
        },
    }
}

/// Parses a log document. Strict: fields in order, full consumption;
/// `None` exactly when the text is not the rendering the parser accepts.
pub fn parse_log(s: &str) -> (r: Option<TransactionLog>)
    ensures
        r is Some <==> spec_parse_log(s@) is Some,
        r is Some ==> spec_parse_log(s@) == Some(r.unwrap()@),
{
    match crate::codec::read_field(s, 0, "version") {
        None => None,
        Some((raw_ver, p1)) => match crate::codec::unescape(raw_ver.as_str()) {
            None => None,
            Some(version) => match crate::codec::read_field(s, p1, "execution_id") {
                None => None,
                Some((raw_id, p2)) => match crate::codec::unescape(raw_id.as_str()) {
                    None => None,
                    Some(execution_id) => match crate::codec::read_field(s, p2, "plan_file") {
                        None => None,
                        Some((raw_plan, p3)) => match crate::codec::unescape(raw_plan.as_str()) {
                            None => None,
                            Some(plan_file) => parse_log_mid(
                                s,
                                p3,
                                version,
                                execution_id,
                                plan_file,
                            ),
                        },
                    },
                },
            },
        },
    }
}

/// Parses the middle and rest of a log document.
fn parse_log_mid(
    s: &str,
    pos: usize,
    version: String,
    execution_id: String,
    plan_file: String,
) -> (r: Option<TransactionLog>)
    requires
        pos <= s@.len(),
    ensures
        r is Some <==> spec_parse_log_mid(
            s@,
            pos as int,
            version@,
            execution_id@,
            plan_file@,
        ) is Some,
        r is Some ==> spec_parse_log_mid(s@, pos as int, version@, execution_id@, plan_file@)
            == Some(r.unwrap()@),
{
    match crate::codec::read_field(s, pos, "started_at") {
        None => None,
        Some((raw_started, p4)) => match crate::codec::parse_i64(raw_started.as_str()) {
            None => None,
            Some(started_at) => match crate::codec::read_field(s, p4, "completed_at") {
                None => None,
                Some((raw_completed, p5)) => match parse_opt_i64_field(raw_completed.as_str()) {
                    None => None,
                    Some(completed_at) => match crate::codec::read_field(s, p5, "status") {
                        None => None,
                        Some((raw_status, p6)) => match parse_status(raw_status.as_str()) {
                            None => None,
                            Some(status) => parse_log_tail(
                                s,
                                p6,
                                version,
                                execution_id,
                                plan_file,
                                started_at,
                                completed_at,
                                status,
                            ),
                        },
                    },
                },
            },
        },
    }
}

/// Parses the mode, options, operations and summary of a log document.
fn parse_log_tail(
    s: &str,
    pos: usize,
    version: String,
    execution_id: String,
    plan_file: String,
    started_at: i64,
    completed_at: Option<i64>,
    status: TransactionStatus,
) -> (r: Option<TransactionLog>)
    requires
        pos <= s@.len(),
    ensures
        r is Some <==> spec_parse_log_tail(
            s@,
            pos as int,
            version@,
            execution_id@,
            plan_file@,
            started_at,
            completed_at,
            status,
        ) is Some,
        r is Some ==> spec_parse_log_tail(
            s@,
            pos as int,
            version@,
            execution_id@,
            plan_file@,
            started_at,
            completed_at,
            status,
        ) == Some(r.unwrap()@),
{
    match crate::codec::read_field(s, pos, "mode") {
        None => None,
        Some((raw_mode, p7)) => match crate::codec::unescape(raw_mode.as_str()) {
            None => None,
            Some(mode) => match crate::codec::read_field(s, p7, "dry_run") {
                None => None,
                Some((v1, p8)) => match crate::codec::parse_bool(v1.as_str()) {
                    None => None,
                    Some(dry_run) => match crate::codec::read_field(s, p8, "backup_dir") {
                        None => None,
                        Some((v2, p9)) => match parse_opt_str_field(v2.as_str()) {
                            None => None,
                            Some(backup_dir) => match crate::codec::read_field(
                                s,
                                p9,
                                "use_recycle_bin",
                            ) {
                                None => None,
                                Some((v3, p10)) => match crate::codec::parse_bool(v3.as_str()) {
                                    None => None,
                                    Some(use_recycle_bin) => match crate::codec::read_field(
                                        s,
                                        p10,
                                        "fail_fast",
                                    ) {
                                        None => None,
                                        Some((v4, p11)) => match crate::codec::parse_bool(
                                            v4.as_str(),
                                        ) {
                                            None => None,
                                            Some(fail_fast) => match crate::codec::read_field(
                                                s,
                                                p11,
                                                "operations",
                                            ) {
                                                None => None,
                                                Some((v5, p12)) => match crate::text::parse_u64(
                                                    v5.as_str(),
                                                ) {
                                                    None => None,
                                                    Some(count) => if count <= usize::MAX as u64 {
                                                        match parse_logged_ops_at(
                                                            s,
                                                            p12,
                                                            count as usize,
                                                        ) {
                                                            None => None,
                                                            Some((operations, p13)) => match
                                                                parse_summary_at(s, p13) {
                                                                None => None,
                                                                Some((summary, p14)) => if p14
                                                                    == s.unicode_len() {
                                                                    Some(TransactionLog {
                                                                        version,
                                                                        execution_id,
                                                                        plan_file,
                                                                        started_at,
                                                                        completed_at,
                                                                        status,
                                                                        mode,
                                                                        options:
                                                                            TransactionOptions {
                                                                            dry_run,
                                                                            backup_dir,
                                                                            use_recycle_bin,
                                                                            fail_fast,
                                                                        },
                                                                        operations,
                                                                        summary,
                                                                    })
                                                                } else {
                                                                    None
                                                                },
                                                            },
                                                        }
                                                    } else {
                                                        None
                                                    },
                                                },
                                            },
                                        },
                                    },
                                },
                            },
                        },
                    },
                },
            },
        },
    }
}

} // verus!
