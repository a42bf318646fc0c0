//! Audit records: what was dispatched, where, and what the safety policy
//! decided. Writing them out as NDJSON is the host's job.

use vstd::prelude::*;
use crate::config::AuditConfig;
use crate::text::owned;

verus! {

/// Safety policy outcome recorded in the audit log.
#[derive(Debug, Clone, Copy, PartialEq, Eq, Structural)]
pub enum AuditDecision {
    /// The command was allowed.
    Allow,
    /// The command was denied.
    Deny,
    /// The command needed, and received, confirmation.
    Confirm,
}

/// A single audit log record.
#[derive(Debug, Clone)]
pub struct AuditRecord {
    /// Unix timestamp (seconds) when the record was created.
    pub timestamp_secs: u64,
    /// Working directory at dispatch time.
    pub cwd: String,
    /// Command argv; `argv[0]` is the executable.
    pub argv: Vec<String>,
    /// Safety policy decision.
    pub decision: AuditDecision,
    /// Optional annotation (e.g. the reasons of a denial).
    pub note: Option<String>,
}

/// `SystemTime::now()` as whole seconds since the Unix epoch (0 when the
/// clock is before the epoch). It reads the clock, so nothing is claimed
/// of the value.
#[verifier::external_body]
fn unix_now() -> u64 {
    std::time::SystemTime::now().duration_since(std::time::UNIX_EPOCH).unwrap_or_default().as_secs()
}

impl AuditRecord {
    /// A record stamped with the current Unix time, without a note.
    pub fn new(cwd: &str, argv: Vec<String>, decision: AuditDecision) -> (r: AuditRecord)
        ensures
            r.cwd@ == cwd@,
            r.argv == argv,
            r.decision == decision,
            r.note is None,
    {
        AuditRecord { timestamp_secs: unix_now(), cwd: owned(cwd), argv, decision, note: None }
    }

    /// The same record with `note` attached.
    pub fn with_note(self, note: &str) -> (r: AuditRecord)
        ensures
            r.timestamp_secs == self.timestamp_secs,
            r.cwd == self.cwd,
            r.argv == self.argv,
            r.decision == self.decision,
            r.note matches Some(n) && n@ == note@,
    {
        AuditRecord { note: Some(owned(note)), ..self }
    }
}

/// Where audit records go.
#[derive(Debug, Clone, PartialEq, Eq)]
pub enum AuditTarget {
    /// Auditing is switched off: records are dropped.
    Disabled,
    /// Records are appended to the file at this path.
    File(String),
    /// Records are appended to the default log file in the OS temp directory.
    DefaultFile,
}

/// The target that `config` selects: nothing when auditing is disabled,
/// otherwise the configured path, or the default file when none is set.
pub fn audit_target(config: &AuditConfig) -> (t: AuditTarget)
    ensures
        !config.enabled ==> t is Disabled,
        config.enabled ==> match config.path {
            Some(p) => t matches AuditTarget::File(q) && q@ == p@,
            None => t is DefaultFile,
        },
{
    if !config.enabled {
        return AuditTarget::Disabled;
    }
    match &config.path {
        Some(p) => AuditTarget::File(owned(p.as_str())),
        None => AuditTarget::DefaultFile,
    }
}

} // verus!
