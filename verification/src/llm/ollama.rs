//! Decisions of the Ollama client: health classification of the
//! `/api/tags` reply and the error for a failed `/api/generate` call.

use vstd::prelude::*;
use crate::text::{append, chars_of, owned, push_decimal, starts_with, starts_with_exec, string_views};
use super::error::LlmError;

verus! {

/// Result of a health probe against the daemon.
#[derive(Debug, Clone, PartialEq, Eq, Structural)]
pub enum HealthStatus {
    /// Reachable, and the configured model is listed.
    Healthy,
    /// Reachable, but the configured model is not pulled.
    ModelMissing,
    /// The daemon answered with a non-success HTTP status.
    UnexpectedStatus(u16),
}

/// A status code in `200..300`.
pub open spec fn is_success(status: u16) -> bool {
    200 <= status < 300
}

/// A listed model name matches `model` exactly or as `model:<tag>`.
pub open spec fn names_model(name: Seq<char>, model: Seq<char>) -> bool {
    name == model || starts_with(name, model.push(':'))
}

/// The health status for a non-success HTTP status, `None` on success.
pub fn status_health(status: u16) -> (h: Option<HealthStatus>)
    ensures
        is_success(status) ==> h is None,
        !is_success(status) ==> h == Some(HealthStatus::UnexpectedStatus(status)),
{
    if 200 <= status && status < 300 {
        None
    } else {
        Some(HealthStatus::UnexpectedStatus(status))
    }
}

/// `Healthy` when some listed name matches the model, else `ModelMissing`.
pub fn model_listed(names: &Vec<String>, model: &str) -> (h: HealthStatus)
    ensures
        h == (if exists|i: int| 0 <= i < names@.len() && names_model(names@[i]@, model@) {
            HealthStatus::Healthy
        } else {
            HealthStatus::ModelMissing
        }),
{
    let m = chars_of(model);
    let mut tagged = chars_of(model);
    tagged.push(':');
    let mut i: usize = 0;
    while i < names.len()
        invariant
            i <= names@.len(),
            m@ == model@,
            tagged@ == model@.push(':'),
            forall|k: int| 0 <= k < i ==> !names_model(names@[k]@, model@),
        decreases names.len() - i,
    {
        let n = chars_of(names[i].as_str());
        proof {
            if n@ == m@ {
                assert(n@.subrange(0, m@.len() as int) =~= n@);
            }
        }
        let exact = n.len() == m.len() && starts_with_exec(&n, &m);
        if exact {
            assert(n@ =~= m@);
        }
        if exact || starts_with_exec(&n, &tagged) {
            assert(names_model(names@[i as int]@, model@));
            return HealthStatus::Healthy;
        }
        i += 1;
    }
    HealthStatus::ModelMissing
}

/// The error for a non-success `/api/generate` reply.
pub fn generate_status_error(status: u16, body: &str) -> (e: LlmError)
    ensures
        e matches LlmError::Http(m) && m@ == "Ollama /api/generate returned HTTP "@
            + crate::text::decimal(status as nat) + ": "@ + body@,
{
    let mut s = owned("Ollama /api/generate returned HTTP ");
    push_decimal(&mut s, status as u64);
    append(&mut s, ": ");
    append(&mut s, body);
    LlmError::Http(s)
}

} // verus!
