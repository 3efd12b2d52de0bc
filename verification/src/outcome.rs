//! Bounded process executor: outcome classification.
//!
//! Running an external process is I/O and lives outside the library; what is
//! verified here is the classification of every way such a run can end into a
//! structured [`ExecutionOutcome`].  The three constructors are mutually
//! exclusive by construction: a run is observed exactly once, either as a
//! completion, as a spawn failure, or as an elapsed timeout.

use vstd::prelude::*;
use vstd::string::*;
use crate::decimal::{dec_int, dec_digits, fmt_i64};

verus! {

/// Wall-clock ceiling for one external process run, in seconds.
pub const DEFAULT_TIMEOUT_SECS: u64 = 300;

/// Exit-code sentinel reported when the timeout elapsed before the process
/// finished.
pub const TIMEOUT_EXIT_CODE: i32 = -1;

/// The structured result of one bounded external process run.  All failure
/// modes are encoded here; none is an error of the library.
#[derive(Debug)]
pub struct ExecutionOutcome {
    /// Whether the process terminated cleanly with exit code zero.
    pub success: bool,
    /// Captured standard output.
    pub stdout: String,
    /// Captured standard error; on a failure, the explanatory message.
    pub stderr: String,
    /// The process's exit code, the timeout sentinel, or nothing when the
    /// process never spawned or was terminated without a code.
    pub exit_code: Option<i32>,
}

/// An exit code rendered for an explanatory message.
pub open spec fn code_text(code: Option<i32>) -> Seq<char> {
    match code {
        Some(c) => dec_int(c as int),
        None => "unknown"@,
    }
}

/// The message carried when a process completed without success: the exit
/// code and both captured streams.
pub open spec fn failure_text(code: Option<i32>, stderr: Seq<char>, stdout: Seq<char>) -> Seq<
    char,
> {
    "Process failed with return code "@ + code_text(code) + "\nSTDERR: "@ + stderr + "\nSTDOUT: "@
        + stdout
}

/// The message carried when the wall-clock ceiling elapsed first.
pub open spec fn timeout_text(timeout_secs: int) -> Seq<char> {
    "Process timed out after "@ + dec_digits(timeout_secs as nat) + " seconds"@
}

/// The message carried when the process could not be spawned.
pub open spec fn spawn_failure_text(error: Seq<char>) -> Seq<char> {
    "Failed to execute command: "@ + error
}

impl ExecutionOutcome {
    /// Classifies a process that ran to completion.  Exit code zero is
    /// success and carries both captured streams unchanged (diagnostic tools
    /// log warnings to stderr even on success); anything else is a failure
    /// whose message combines the exit code, stderr and stdout.
    pub fn from_completion(exit_code: Option<i32>, stdout: String, stderr: String) -> (r:
        ExecutionOutcome)
        ensures
            r.success <==> exit_code == Some(0i32),
            r.exit_code == exit_code,
            r.stdout@ == stdout@,
            r.success ==> r.stderr@ == stderr@,
            !r.success ==> r.stderr@ == failure_text(exit_code, stderr@, stdout@),
    {
        let success = match exit_code {
            Some(c) => c == 0,
            None => false,
        };
        if success {
            ExecutionOutcome { success: true, stdout, stderr, exit_code }
        } else {
            let mut msg = String::from_str("Process failed with return code ");
            match exit_code {
                Some(c) => {
                    let code_str = fmt_i64(c as i64);
                    msg.append(code_str.as_str());
                },
                None => msg.append("unknown"),
            }
            msg.append("\nSTDERR: ");
            msg.append(stderr.as_str());
            msg.append("\nSTDOUT: ");
            msg.append(stdout.as_str());
            proof {
                assert(msg@ =~= failure_text(exit_code, stderr@, stdout@));
            }
            ExecutionOutcome { success: false, stdout, stderr: msg, exit_code }
        }
    }

    /// Classifies a run whose wall-clock ceiling elapsed before the process
    /// finished: never a success, with the distinguished sentinel exit code.
    pub fn from_timeout(timeout_secs: u64) -> (r: ExecutionOutcome)
        ensures
            !r.success,
            r.exit_code == Some(TIMEOUT_EXIT_CODE),
            r.stdout@ == Seq::<char>::empty(),
            r.stderr@ == timeout_text(timeout_secs as int),
    {
        let mut msg = String::from_str("Process timed out after ");
        let secs_str = crate::decimal::fmt_u64(timeout_secs);
        msg.append(secs_str.as_str());
        msg.append(" seconds");
        proof {
            assert(msg@ =~= timeout_text(timeout_secs as int));
        }
        ExecutionOutcome { success: false, stdout: String::new(), stderr: msg, exit_code: Some(
            TIMEOUT_EXIT_CODE,
        ) }
    }

    /// Classifies a process that could not be spawned at all: never a
    /// success, and no exit code.
    pub fn from_spawn_failure(error: &str) -> (r: ExecutionOutcome)
        ensures
            !r.success,
            r.exit_code is None,
            r.stdout@ == Seq::<char>::empty(),
            r.stderr@ == spawn_failure_text(error@),
    {
        let mut msg = String::from_str("Failed to execute command: ");
        msg.append(error);
        ExecutionOutcome { success: false, stdout: String::new(), stderr: msg, exit_code: None }
    }
}

} // verus!
