//! Pre-execution hooks: which hook runs next, and what its outcome means.
//!
//! Hooks run one after another; a hook with an empty command is skipped,
//! and the first hook that fails or times out stops the chain with a hook
//! error. The chain is a state machine: [`HookRunner::start`] and
//! [`HookRunner::step`] say which hook to run next or how the chain ends;
//! spawning the hook and waiting for it is the host's job.

use vstd::prelude::*;
use crate::config::{HookEntry, HooksConfig};
use crate::error::LogicShellError;
use crate::text::{append, decimal, owned, push_decimal, push_signed, signed_decimal};

verus! {

/// How a hook process ended.
#[derive(Debug, Clone, PartialEq, Eq)]
pub enum HookOutcome {
    /// It exited successfully.
    Succeeded,
    /// It exited unsuccessfully, with this exit code if the OS reported one.
    Failed(Option<i32>),
    /// It could not be spawned; the OS error message.
    SpawnFailed(String),
    /// Waiting for it failed; the OS error message.
    WaitFailed(String),
    /// It did not finish within its timeout.
    TimedOut,
}

/// What the hook chain asks the host to do next.
#[derive(Debug)]
pub enum HookStep {
    /// Run the hook at this index and report how it ended.
    Run(usize),
    /// Every hook has run successfully (hooks with an empty command are skipped).
    Done,
    /// A hook did not succeed: the chain stops with this error.
    Stop(LogicShellError),
}

/// The index of the first hook at or after `from` whose command is not empty.
pub open spec fn next_to_run(hooks: Seq<HookEntry>, from: int) -> Option<int>
    decreases hooks.len() - from,
{
    if from < 0 || from >= hooks.len() {
        None
    } else if hooks[from].command@.len() > 0 {
        Some(from)
    } else {
        next_to_run(hooks, from + 1)
    }
}

/// The step that runs the next hook at or after `from`, or ends the chain.
pub open spec fn continues_at(s: HookStep, hooks: Seq<HookEntry>, from: int) -> bool {
    match next_to_run(hooks, from) {
        Some(k) => s matches HookStep::Run(j) && j == k,
        None => s is Done,
    }
}

/// `next_to_run` names the first hook with a command, given that those
/// from `from` up to `k` have none.
pub proof fn lemma_next_to_run(hooks: Seq<HookEntry>, from: int, k: int)
    requires
        0 <= from <= k <= hooks.len(),
        forall|j: int| from <= j < k ==> #[trigger] hooks[j].command@.len() == 0,
    ensures
        k < hooks.len() && hooks[k].command@.len() > 0 ==> next_to_run(hooks, from) == Some(k),
        k == hooks.len() ==> next_to_run(hooks, from) is None,
    decreases k - from,
{
    if from < k {
        lemma_next_to_run(hooks, from + 1, k);
    }
}

/// Runs the `pre_exec` hooks of a [`HooksConfig`].
pub struct HookRunner<'a> {
    config: &'a HooksConfig,
}

/// The debug rendering of an optional exit code: `Some(<n>)` or `None`.
pub open spec fn code_text(code: Option<i32>) -> Seq<char> {
    match code {
        Some(n) => "Some("@ + signed_decimal(n as int) + ")"@,
        None => "None"@,
    }
}

/// The error message for hook `h` ending with `outcome`, or `None` when it succeeded.
pub open spec fn failure_message(h: HookEntry, outcome: HookOutcome) -> Option<Seq<char>> {
    let name = h.command@[0]@;
    match outcome {
        HookOutcome::Succeeded => None,
        HookOutcome::Failed(code) => Some(
            "hook '"@ + name + "' exited with non-zero status: "@ + code_text(code),
        ),
        HookOutcome::SpawnFailed(e) => Some("hook spawn failed: "@ + e@),
        HookOutcome::WaitFailed(e) => Some("hook wait failed: "@ + e@),
        HookOutcome::TimedOut => Some(
            "hook '"@ + name + "' timed out after "@ + decimal(h.timeout_ms as nat) + "ms"@,
        ),
    }
}

impl<'a> HookRunner<'a> {
    /// The hooks, in order.
    pub closed spec fn hooks(&self) -> Seq<HookEntry> {
        self.config.pre_exec@
    }

    /// A runner over `config`'s hooks.
    pub fn new(config: &'a HooksConfig) -> (r: Self)
        ensures
            r.hooks() == config.pre_exec@,
    {
        HookRunner { config }
    }

    /// The hook at `i`.
    pub fn hook(&self, i: usize) -> (h: &'a HookEntry)
        requires
            i < self.hooks().len(),
        ensures
            *h == self.hooks()[i as int],
    {
        &self.config.pre_exec[i]
    }

    /// The next hook to run at or after `from`: the first whose command is
    /// not empty, or `None` when all remaining ones are done.
    pub fn next_hook(&self, from: usize) -> (r: Option<usize>)
        ensures
            r matches Some(k) ==> {
                &&& from <= k < self.hooks().len()
                &&& self.hooks()[k as int].command@.len() > 0
                &&& forall|j: int| from <= j < k ==> #[trigger] self.hooks()[j].command@.len() == 0
            },
            r is None ==> forall|j: int|
                from <= j < self.hooks().len() ==> #[trigger] self.hooks()[j].command@.len() == 0,
    {
        let hooks = &self.config.pre_exec;
        let mut i = from;
        if i > hooks.len() {
            return None;
        }
        while i < hooks.len()
            invariant
                from <= i <= hooks@.len(),
                hooks@ == self.hooks(),
                forall|j: int| from <= j < i ==> #[trigger] self.hooks()[j].command@.len() == 0,
            decreases hooks.len() - i,
        {
            if hooks[i].command.len() > 0 {
                return Some(i);
            }
            i += 1;
        }
        None
    }

    /// What the outcome of hook `i` means: success continues the chain,
    /// anything else stops it with a hook error naming the hook.
    pub fn verdict(&self, i: usize, outcome: &HookOutcome) -> (r: Result<(), LogicShellError>)
        requires
            i < self.hooks().len(),
            self.hooks()[i as int].command@.len() > 0,
        ensures
            r is Ok <==> *outcome is Succeeded,
            r matches Err(e) ==> e is Hook && Some(e.detail()) == failure_message(
                self.hooks()[i as int],
                *outcome,
            ),
    {
        let h = &self.config.pre_exec[i];
        let name = h.command[0].as_str();
        match outcome {
            HookOutcome::Succeeded => Ok(()),
            HookOutcome::Failed(code) => {
                let mut m = owned("hook '");
                append(&mut m, name);
                append(&mut m, "' exited with non-zero status: ");
                match code {
                    Some(n) => {
                        append(&mut m, "Some(");
                        push_signed(&mut m, *n);
                        append(&mut m, ")");
                    },
                    None => append(&mut m, "None"),
                }
                Err(LogicShellError::Hook(m))
            },
            HookOutcome::SpawnFailed(e) => {
                let mut m = owned("hook spawn failed: ");
                append(&mut m, e.as_str());
                Err(LogicShellError::Hook(m))
            },
            HookOutcome::WaitFailed(e) => {
                let mut m = owned("hook wait failed: ");
                append(&mut m, e.as_str());
                Err(LogicShellError::Hook(m))
            },
            HookOutcome::TimedOut => {
                let mut m = owned("hook '");
                append(&mut m, name);
                append(&mut m, "' timed out after ");
                push_decimal(&mut m, h.timeout_ms);
                append(&mut m, "ms");
                Err(LogicShellError::Hook(m))
            },
        }
    }
    /// The first step of the chain: run the first hook with a command, or
    /// finish at once when there is none.
    pub fn start(&self) -> (s: HookStep)
        ensures
            continues_at(s, self.hooks(), 0),
    {
        self.after(0)
    }

    /// The step that runs the next hook at or after `from`.
    fn after(&self, from: usize) -> (s: HookStep)
        ensures
            continues_at(s, self.hooks(), from as int),
    {
        let r = self.next_hook(from);
        proof {
            if from <= self.hooks().len() {
                match r {
                    Some(k) => lemma_next_to_run(self.hooks(), from as int, k as int),
                    None => lemma_next_to_run(self.hooks(), from as int, self.hooks().len() as int),
                }
            }
        }
        match r {
            Some(k) => HookStep::Run(k),
            None => HookStep::Done,
        }
    }

    /// The step after hook `i` ended with `outcome`: success moves on to the
    /// next hook with a command (or finishes the chain), anything else stops
    /// the chain with a hook error naming the hook, so no later hook runs.
    pub fn step(&self, i: usize, outcome: &HookOutcome) -> (s: HookStep)
        requires
            i < self.hooks().len(),
            self.hooks()[i as int].command@.len() > 0,
        ensures
            *outcome is Succeeded ==> continues_at(s, self.hooks(), i + 1),
            !(*outcome is Succeeded) ==> (s matches HookStep::Stop(e) && e is Hook && Some(
                e.detail(),
            ) == failure_message(self.hooks()[i as int], *outcome)),
    {
        // `i` indexes a hook, so `i + 1` does not overflow.
        let len = self.config.pre_exec.len();
        assert(i < len);
        match self.verdict(i, outcome) {
            Ok(()) => self.after(i + 1),
            Err(e) => HookStep::Stop(e),
        }
    }
}

} // verus!
