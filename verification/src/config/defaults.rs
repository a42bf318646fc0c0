//! Built-in default values of the configuration.

use vstd::prelude::*;
use crate::text::{owned, string_views};

verus! {

/// The default Ollama base URL.
pub open spec fn spec_base_url() -> Seq<char> {
    "http://127.0.0.1:11434"@
}

/// The default deny prefixes.
pub open spec fn spec_deny_prefixes() -> Seq<Seq<char>> {
    seq!["rm -rf /"@, "mkfs"@, "dd if="@]
}

/// The default high-risk regular expressions.
pub open spec fn spec_high_risk_patterns() -> Seq<Seq<char>> {
    seq!["rm\\s+-[rf]*r"@, "sudo\\s+"@, "curl.*\\|\\s*bash"@, "wget.*\\|\\s*sh"@]
}

/// Default schema version: 1.
pub fn schema_version() -> (v: u32)
    ensures
        v == 1,
{
    1
}

/// Default Ollama base URL: `http://127.0.0.1:11434`.
pub fn base_url() -> (s: String)
    ensures
        s@ == spec_base_url(),
{
    owned("http://127.0.0.1:11434")
}

/// Default LLM timeout: 60 seconds.
pub fn timeout_secs() -> (v: u64)
    ensures
        v == 60,
{
    60
}

/// Default prompt context cap: 8 000 characters.
pub fn max_context_chars() -> (v: u64)
    ensures
        v == 8_000,
{
    8_000
}

/// Default deny prefixes: `rm -rf /`, `mkfs`, `dd if=`.
pub fn deny_prefixes() -> (v: Vec<String>)
    ensures
        string_views(v@) == spec_deny_prefixes(),
{
    let v = vec![owned("rm -rf /"), owned("mkfs"), owned("dd if=")];
    assert(string_views(v@) =~= spec_deny_prefixes());
    v
}

/// Default high-risk patterns: recursive delete, sudo, and pipe-to-shell downloads.
pub fn high_risk_patterns() -> (v: Vec<String>)
    ensures
        string_views(v@) == spec_high_risk_patterns(),
{
    let v = vec![
        owned("rm\\s+-[rf]*r"),
        owned("sudo\\s+"),
        owned("curl.*\\|\\s*bash"),
        owned("wget.*\\|\\s*sh"),
    ];
    assert(string_views(v@) =~= spec_high_risk_patterns());
    v
}

/// Default audit switch: enabled.
pub fn audit_enabled() -> (b: bool)
    ensures
        b,
{
    true
}

/// Default hook timeout: 5 000 ms.
pub fn hook_timeout_ms() -> (v: u64)
    ensures
        v == 5_000,
{
    5_000
}

/// Default stdout capture cap: 1 MiB.
pub fn max_stdout_capture_bytes() -> (v: u64)
    ensures
        v == 1_048_576,
{
    1_048_576
}

/// Default LLM payload cap: 256 000 bytes.
pub fn max_llm_payload_bytes() -> (v: u64)
    ensures
        v == 256_000,
{
    256_000
}

} // verus!
