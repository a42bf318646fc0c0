//! Process dispatch: the options of one invocation, its structured result,
//! and the decisions the process runner takes around the spawn.

use vstd::prelude::*;
use crate::config::LimitsConfig;
use crate::error::LogicShellError;
use crate::text::{owned, string_views};

verus! {

/// How to connect the child's stdin.
#[derive(Debug, Clone)]
pub enum StdinMode {
    /// `/dev/null`: the child sees immediate end of input.
    Null,
    /// The caller's stdin.
    Inherit,
    /// These bytes, after which the pipe is closed.
    Piped(Vec<u8>),
}

impl Default for StdinMode {
    fn default() -> (m: Self)
        ensures
            m is Null,
    {
        StdinMode::Null
    }
}

/// Options for a single dispatch.
#[derive(Debug, Clone)]
pub struct DispatchOptions {
    /// `argv[0]` is the executable; the rest are its arguments.
    pub argv: Vec<String>,
    /// Extra environment variables (override inherited ones).
    pub env_extra: Vec<(String, String)>,
    /// Working directory of the child (`None` inherits).
    pub cwd: Option<String>,
    /// Stdin connection.
    pub stdin: StdinMode,
}

impl Default for DispatchOptions {
    fn default() -> (o: Self)
        ensures
            o.argv@.len() == 0,
            o.env_extra@.len() == 0,
            o.cwd is None,
            o.stdin is Null,
    {
        DispatchOptions { argv: Vec::new(), env_extra: Vec::new(), cwd: None, stdin: StdinMode::Null }
    }
}

/// Structured result of a finished child process.
#[derive(Debug, Clone)]
pub struct DispatchOutput {
    /// The exit code (`-1` when the OS reports none, e.g. on a signal kill).
    pub exit_code: i32,
    /// Captured stdout, at most the capture limit.
    pub stdout: Vec<u8>,
    /// Captured stderr (not capped).
    pub stderr: Vec<u8>,
    /// Stdout held more than the capture limit.
    pub stdout_truncated: bool,
}

/// What the process runner spawns: the program, its arguments and the
/// stdout capture limit.
#[derive(Debug, Clone)]
pub struct Launch {
    pub program: String,
    pub args: Vec<String>,
    pub capture_limit: u64,
}

/// Process dispatcher with a stdout capture limit.
#[derive(Debug, Clone)]
pub struct Dispatcher {
    max_stdout_capture_bytes: u64,
}

/// The message of a dispatch with an empty argv.
pub open spec fn empty_argv_message() -> Seq<char> {
    "argv must not be empty"@
}

impl Dispatcher {
    /// The stdout capture limit in bytes.
    pub closed spec fn limit(&self) -> u64 {
        self.max_stdout_capture_bytes
    }

    /// A dispatcher with the limits of a loaded configuration.
    pub fn new(limits: &LimitsConfig) -> (d: Self)
        ensures
            d.limit() == limits.max_stdout_capture_bytes,
    {
        Dispatcher { max_stdout_capture_bytes: limits.max_stdout_capture_bytes }
    }

    /// A dispatcher with an explicit stdout capture limit.
    pub fn with_capture_limit(max_bytes: u64) -> (d: Self)
        ensures
            d.limit() == max_bytes,
    {
        Dispatcher { max_stdout_capture_bytes: max_bytes }
    }

    /// The stdout capture limit in bytes.
    pub fn max_stdout_capture_bytes(&self) -> (n: u64)
        ensures
            n == self.limit(),
    {
        self.max_stdout_capture_bytes
    }

    /// What to spawn for `argv`: the executable is `argv[0]`, the rest are
    /// its arguments. An empty argv is a dispatch error.
    pub fn launch(&self, argv: &Vec<String>) -> (r: Result<Launch, LogicShellError>)
        ensures
            r is Err <==> argv@.len() == 0,
            r matches Err(e) ==> e is Dispatch && e.detail() == empty_argv_message(),
            r matches Ok(l) ==> {
                &&& l.program@ == argv@[0]@
                &&& string_views(l.args@) == string_views(argv@).drop_first()
                &&& l.capture_limit == self.limit()
            },
    {
        if argv.len() == 0 {
            return Err(LogicShellError::Dispatch(owned("argv must not be empty")));
        }
        let mut args: Vec<String> = Vec::new();
        let mut i: usize = 1;
        while i < argv.len()
            invariant
                1 <= i <= argv@.len(),
                string_views(args@) == string_views(argv@).subrange(1, i as int),
            decreases argv.len() - i,
        {
            let ghost before = args@;
            args.push(owned(argv[i].as_str()));
            assert(string_views(args@) =~= string_views(before).push(argv@[i as int]@));
            assert(string_views(argv@).subrange(1, i + 1) =~= string_views(argv@).subrange(
                1,
                i as int,
            ).push(argv@[i as int]@));
            i += 1;
        }
        assert(string_views(argv@).subrange(1, argv@.len() as int) =~= string_views(
            argv@,
        ).drop_first());
        Ok(Launch {
            program: owned(argv[0].as_str()),
            args,
            capture_limit: self.max_stdout_capture_bytes,
        })
    }
}

/// The exit code reported for a process status: its code, or `-1` when the
/// OS surfaces none (a signal kill).
pub fn exit_code_of(code: Option<i32>) -> (c: i32)
    ensures
        c == match code {
            Some(n) => n,
            None => -1i32,
        },
{
    match code {
        Some(n) => n,
        None => -1,
    }
}

} // verus!
