use logicshell::error::{LogicShellError, Result};

/// errors are structured values, not panics.
#[test]
fn config_error_display() {
    let e = LogicShellError::Config("missing schema_version".into());
    assert_eq!(e.to_string(), "configuration error: missing schema_version");
}

#[test]
fn dispatch_error_display() {
    let e = LogicShellError::Dispatch("no such executable".into());
    assert_eq!(e.to_string(), "dispatch error: no such executable");
}

#[test]
fn safety_error_display() {
    let e = LogicShellError::Safety("pattern denied".into());
    assert_eq!(e.to_string(), "safety policy error: pattern denied");
}

#[test]
fn audit_error_display() {
    let e = LogicShellError::Audit("write failed".into());
    assert_eq!(e.to_string(), "audit error: write failed");
}

#[test]
fn hook_error_display() {
    let e = LogicShellError::Hook("pre-exec hook timed out".into());
    assert_eq!(e.to_string(), "hook error: pre-exec hook timed out");
}

/// `std::io::Error` converts into `LogicShellError::Io` via `From`.
#[test]
fn io_error_from_conversion() {
    let io_err = std::io::Error::new(std::io::ErrorKind::NotFound, "file missing");
    let ls_err: LogicShellError = io_err.into();
    assert!(matches!(ls_err, LogicShellError::Io(_)));
    assert!(ls_err.to_string().contains("I/O error"));
}

/// `Result<T>` alias resolves to `std::result::Result<T, LogicShellError>`.
#[test]
fn result_alias_ok() {
    let r: Result<u32> = Ok(42);
    assert_eq!(r.unwrap(), 42);
}

#[test]
fn result_alias_err() {
    let r: Result<u32> = Err(LogicShellError::Config("bad".into()));
    assert!(r.is_err());
}

/// Error variants are `Debug`-printable (required for `unwrap`/`?` ergonomics).
#[test]
fn error_errors_are_debug() {
    let e = LogicShellError::Safety("denied".into());
    let s = format!("{e:?}");
    assert!(s.contains("Safety"));
}
