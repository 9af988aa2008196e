//! Storage-cleanup library: scan a directory tree, detect reclaimable
//! entries with ordered rules, produce a reviewable deletion plan, confirm
//! the plan still matches reality, and execute it transactionally.
//!
//! The five stages — scan, detect, plan, verify, execute — share one
//! responsibility: never destroy data the user did not knowingly approve.
//! Every decision along that path is specified and verified here; the
//! filesystem itself is reached only through narrow probes and walks
//! whose results the contracts quantify over.

pub mod clock;
pub mod codec;
pub mod detector;
pub mod drift;
pub mod executor;
pub mod models;
pub mod paths;
pub mod planner;
pub mod probe;
pub mod progress;
pub mod report;
pub mod scanner;
pub mod text;
pub mod transaction;
pub mod walk;

pub use detector::{
    BuildArtifactRule, CustomRule, DetectionEngine, DetectionResult, DetectionRule, ProbeFlags,
    RuleKind, ScanContext, SizeThresholdRule,
};
pub use drift::{
    DriftDetection, DriftType, Observation, VerificationConfig, VerificationEngine,
    VerificationError, VerificationResult,
};
pub use executor::{
    ExecutionConfig, ExecutionEngine, ExecutionError, ExecutionMode, ExecutionResult,
    ExecutionState, ExecutionSummary, OperationAction, OperationResult, OperationStatus,
};
pub use models::{CleanupAction, CleanupEntry, CleanupPlan, EntryType, FileEntry};
pub use planner::{PlanGenerator, PlanWriter, WriteError};
pub use progress::{AdvancedProgress, ProgressReport, ScanProgress};
pub use report::DriftReporter;
pub use scanner::{FileScanner, ScanConfig};
pub use transaction::{
    ExecutionSummaryLog, LoggedOperation, TransactionLog, TransactionLogger, TransactionOptions,
    TransactionStatus,
};
pub use walk::ScanError;
