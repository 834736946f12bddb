//! Shell profiles: resolving a shell by name and building the argument
//! vector a command runs with.

use vstd::prelude::*;
use crate::config::{view_strings, ShellConfig};
use crate::provider::ProviderError;
use crate::strmap::StrMap;

verus! {

/// The output produced by a shell command execution.
#[derive(Debug, Clone)]
pub struct ShellOutput {
    pub stdout: String,
    pub stderr: String,
    pub exit_code: i32,
}

/// Resolves a shell name to its [`ShellConfig`] and builds the command line
/// a command string runs with.
pub struct ShellRunner;

/// The argument vector for `command` run through `shell`: the shell binary,
/// its prefix arguments, then the command string.
pub open spec fn spec_argv(shell: ShellConfig, command: Seq<char>) -> Seq<Seq<char>> {
    seq![shell.command@] + view_strings(shell.args@) + seq![command]
}

/// What the process reported when a command finished or failed to.
pub enum RunOutcome {
    /// The command did not finish within the allowed time.
    TimedOut,
    /// The process could not be started; the operating system's message.
    SpawnFailed(String),
    /// The process finished: its decoded output and its exit code, if the
    /// platform reported one (none when it was ended by a signal).
    Finished { stdout: String, stderr: String, code: Option<i32> },
}

impl ShellRunner {
    /// Builds the argv vector that is passed to the OS for a given shell and
    /// command string.
    pub fn build_argv(shell: &ShellConfig, command: &str) -> (argv: Vec<String>)
        ensures
            view_strings(argv@) == spec_argv(*shell, command@),
    {
        let mut argv: Vec<String> = Vec::new();
        argv.push(shell.command.clone());
        let mut i: usize = 0;
        while i < shell.args.len()
            invariant
                i <= shell.args@.len(),
                view_strings(argv@) == seq![shell.command@] + view_strings(shell.args@.take(i as int)),
            decreases shell.args.len() - i,
        {
            let ghost before = argv@;
            argv.push(shell.args[i].clone());
            assert(view_strings(shell.args@.take(i + 1)) =~= view_strings(shell.args@.take(i as int)).push(
                shell.args@[i as int]@,
            ));
            assert(view_strings(argv@) =~= view_strings(before).push(shell.args@[i as int]@));
            i = i + 1;
        }
        assert(shell.args@.take(shell.args@.len() as int) =~= shell.args@);
        let ghost before = argv@;
        argv.push(command.to_owned());
        assert(view_strings(argv@) =~= view_strings(before).push(command@));
        argv
    }

    /// Looks up the shell profile named `shell_name`; an unknown name is an
    /// execution failure whose message names it.
    pub fn resolve<'a>(shell_name: &str, shells: &'a StrMap<ShellConfig>) -> (r: Result<
        &'a ShellConfig,
        ProviderError,
    >)
        ensures
            match r {
                Ok(s) => shells@.contains_key(shell_name@) && *s == shells@[shell_name@],
                Err(e) => !shells@.contains_key(shell_name@) && (e matches ProviderError::ExecutionFailed(
                    m,
                ) && m@ == "unknown shell: "@ + shell_name@),
            },
    {
        proof {
            reveal_strlit("");
        }
        match shells.get(shell_name) {
            Some(s) => Ok(s),
            None => Err(
                ProviderError::ExecutionFailed(crate::text::concat3("unknown shell: ", shell_name, "")),
            ),
        }
    }

    /// The argument vector for `command` run through the shell named
    /// `shell_name`, or the error for an unknown shell.
    pub fn command_line(shell_name: &str, command: &str, shells: &StrMap<ShellConfig>) -> (r: Result<
        Vec<String>,
        ProviderError,
    >)
        ensures
            match r {
                Ok(argv) => shells@.contains_key(shell_name@) && view_strings(argv@) == spec_argv(
                    shells@[shell_name@],
                    command@,
                ),
                Err(e) => !shells@.contains_key(shell_name@) && (e matches ProviderError::ExecutionFailed(
                    m,
                ) && m@ == "unknown shell: "@ + shell_name@),
            },
    {
        match Self::resolve(shell_name, shells) {
            Ok(shell) => Ok(Self::build_argv(shell, command)),
            Err(e) => Err(e),
        }
    }

    /// Turns what the process reported into the run's result: a timeout, a
    /// start failure carrying the system's message, or the output with the
    /// exit code (`-1` when none was reported).
    pub fn finish(outcome: RunOutcome) -> (r: Result<ShellOutput, ProviderError>)
        ensures
            match outcome {
                RunOutcome::TimedOut => r == Err::<ShellOutput, ProviderError>(ProviderError::Timeout),
                RunOutcome::SpawnFailed(m) => r matches Err(ProviderError::ExecutionFailed(m2)) && m2@
                    == m@,
                RunOutcome::Finished { stdout, stderr, code } => r matches Ok(o) && o.stdout@ == stdout@
                    && o.stderr@ == stderr@ && o.exit_code == match code {
                    Some(c) => c,
                    None => -1i32,
                },
            },
    {
        match outcome {
            RunOutcome::TimedOut => Err(ProviderError::Timeout),
            RunOutcome::SpawnFailed(m) => Err(ProviderError::ExecutionFailed(m)),
            RunOutcome::Finished { stdout, stderr, code } => {
                let exit_code = match code {
                    Some(c) => c,
                    None => -1,
                };
                Ok(ShellOutput { stdout, stderr, exit_code })
            },
        }
    }
}

} // verus!
