//! The command executor: one command run to completion over a fresh
//! logical channel, modelled as a stage machine.
//!
//! The stages run strictly in order: open the channel, request execution,
//! read standard output to completion, then read standard error to
//! completion, fetch the exit status, close the channel. (Reading the two
//! streams one after the other, rather than concurrently, is a documented
//! limitation of this exchange: a remote process producing large
//! interleaved output on both streams can stall it.) Each stage's failure
//! is distinct and nothing is retried.

use vstd::prelude::*;
use vstd::string::StringExecFns;

verus! {

/// The stages of one command execution, in the order they run.
pub enum ExecStage {
    OpenChannel,
    RequestExec,
    ReadStdout,
    ReadStderr,
    FetchExitStatus,
    CloseChannel,
}

/// Where the execution stands.
pub enum ExecState {
    Working(ExecStage),
    Finished,
    Failed(String),
}

/// The stage that follows a completed stage, if any.
pub open spec fn next_exec_stage(s: ExecStage) -> Option<ExecStage> {
    match s {
        ExecStage::OpenChannel => Some(ExecStage::RequestExec),
        ExecStage::RequestExec => Some(ExecStage::ReadStdout),
        ExecStage::ReadStdout => Some(ExecStage::ReadStderr),
        ExecStage::ReadStderr => Some(ExecStage::FetchExitStatus),
        ExecStage::FetchExitStatus => Some(ExecStage::CloseChannel),
        ExecStage::CloseChannel => None,
    }
}

/// The failure wording of each stage.
pub open spec fn exec_failure_text(stage: ExecStage, detail: Seq<char>) -> Seq<char> {
    match stage {
        ExecStage::OpenChannel => "Failed to open channel: "@ + detail,
        ExecStage::RequestExec => "Failed to execute command: "@ + detail,
        ExecStage::ReadStdout => "Failed to read stdout: "@ + detail,
        ExecStage::ReadStderr => "Failed to read stderr: "@ + detail,
        ExecStage::FetchExitStatus => "Failed to get exit status: "@ + detail,
        ExecStage::CloseChannel => "Failed to close channel: "@ + detail,
    }
}

/// One command execution in progress: the command it runs, the current
/// stage, and what the finished stages collected.
///
/// The command is fixed at construction and carried unchanged through
/// every stage: what the request-execution stage hands to the transport is
/// `command`, verbatim — no local shell interpretation. Any shell
/// semantics are applied by the remote endpoint.
pub struct ExecFlow {
    pub command: String,
    pub state: ExecState,
    pub stdout: Option<String>,
    pub stderr: Option<String>,
    pub exit_code: Option<i32>,
}

impl ExecFlow {
    /// What each stage must already have collected: the streams are read
    /// and the status fetched in a fixed order, so reaching a stage pins
    /// which pieces are present.
    pub open spec fn wf(self) -> bool {
        &&& (match self.state {
            ExecState::Working(ExecStage::OpenChannel) => self.stdout is None && self.stderr
                is None && self.exit_code is None,
            ExecState::Working(ExecStage::RequestExec) => self.stdout is None && self.stderr
                is None && self.exit_code is None,
            ExecState::Working(ExecStage::ReadStdout) => self.stdout is None && self.stderr
                is None && self.exit_code is None,
            ExecState::Working(ExecStage::ReadStderr) => self.stdout is Some && self.stderr
                is None && self.exit_code is None,
            ExecState::Working(ExecStage::FetchExitStatus) => self.stdout is Some && self.stderr
                is Some && self.exit_code is None,
            ExecState::Working(ExecStage::CloseChannel) => self.stdout is Some && self.stderr
                is Some && self.exit_code is Some,
            ExecState::Finished => self.stdout is Some && self.stderr is Some && self.exit_code
                is Some,
            ExecState::Failed(_) => true,
        })
    }

    /// Starts an execution of `command` at the channel-open stage,
    /// nothing collected.
    pub fn new(command: String) -> (f: ExecFlow)
        ensures
            f.wf(),
            f.command@ == command@,
            f.state == ExecState::Working(ExecStage::OpenChannel),
            f.stdout is None && f.stderr is None && f.exit_code is None,
    {
        ExecFlow {
            command,
            state: ExecState::Working(ExecStage::OpenChannel),
            stdout: None,
            stderr: None,
            exit_code: None,
        }
    }

    /// A stage with no payload succeeded: opening the channel, requesting
    /// execution, or closing the channel, which completes the exchange.
    pub fn step_ok(&mut self)
        requires
            old(self).wf(),
            old(self).state matches ExecState::Working(s) && (s is OpenChannel || s is RequestExec
                || s is CloseChannel),
        ensures
            final(self).wf(),
            final(self).command == old(self).command,
            final(self).stdout == old(self).stdout,
            final(self).stderr == old(self).stderr,
            final(self).exit_code == old(self).exit_code,
            (match old(self).state {
                ExecState::Working(s) => match next_exec_stage(s) {
                    Some(n) => final(self).state == ExecState::Working(n),
                    None => final(self).state == ExecState::Finished,
                },
                _ => false,
            }),
    {
        let next = match &self.state {
            ExecState::Working(ExecStage::OpenChannel) => ExecState::Working(
                ExecStage::RequestExec,
            ),
            ExecState::Working(ExecStage::RequestExec) => ExecState::Working(
                ExecStage::ReadStdout,
            ),
            ExecState::Working(ExecStage::CloseChannel) => ExecState::Finished,
            _ => {
                proof {
                    assert(false);
                }
                ExecState::Finished
            },
        };
        self.state = next;
    }

    /// Standard output was read to completion; only then does the machine
    /// move on to standard error.
    pub fn stdout_read(&mut self, data: String)
        requires
            old(self).wf(),
            old(self).state == ExecState::Working(ExecStage::ReadStdout),
        ensures
            final(self).wf(),
            final(self).command == old(self).command,
            final(self).state == ExecState::Working(ExecStage::ReadStderr),
            final(self).stdout matches Some(s) && s@ == data@,
            final(self).stderr == old(self).stderr,
            final(self).exit_code == old(self).exit_code,
    {
        self.stdout = Some(data);
        self.state = ExecState::Working(ExecStage::ReadStderr);
    }

    /// Standard error was read to completion.
    pub fn stderr_read(&mut self, data: String)
        requires
            old(self).wf(),
            old(self).state == ExecState::Working(ExecStage::ReadStderr),
        ensures
            final(self).wf(),
            final(self).command == old(self).command,
            final(self).state == ExecState::Working(ExecStage::FetchExitStatus),
            final(self).stderr matches Some(s) && s@ == data@,
            final(self).stdout == old(self).stdout,
            final(self).exit_code == old(self).exit_code,
    {
        self.stderr = Some(data);
        self.state = ExecState::Working(ExecStage::FetchExitStatus);
    }

    /// The numeric exit status was retrieved.
    pub fn exit_status(&mut self, code: i32)
        requires
            old(self).wf(),
            old(self).state == ExecState::Working(ExecStage::FetchExitStatus),
        ensures
            final(self).wf(),
            final(self).command == old(self).command,
            final(self).state == ExecState::Working(ExecStage::CloseChannel),
            final(self).exit_code == Some(code),
            final(self).stdout == old(self).stdout,
            final(self).stderr == old(self).stderr,
    {
        self.exit_code = Some(code);
        self.state = ExecState::Working(ExecStage::CloseChannel);
    }

    /// The current stage failed: the whole execution fails, worded for the
    /// stage. Nothing is retried.
    pub fn step_failed(&mut self, detail: String)
        requires
            old(self).wf(),
            old(self).state matches ExecState::Working(_),
        ensures
            final(self).wf(),
            final(self).command == old(self).command,
            (match old(self).state {
                ExecState::Working(s) => final(self).state matches ExecState::Failed(m) && m@
                    == exec_failure_text(s, detail@),
                _ => false,
            }),
    {
        let mut m = String::new();
        match &self.state {
            ExecState::Working(ExecStage::OpenChannel) => m.append("Failed to open channel: "),
            ExecState::Working(ExecStage::RequestExec) => m.append("Failed to execute command: "),
            ExecState::Working(ExecStage::ReadStdout) => m.append("Failed to read stdout: "),
            ExecState::Working(ExecStage::ReadStderr) => m.append("Failed to read stderr: "),
            ExecState::Working(ExecStage::FetchExitStatus) => m.append(
                "Failed to get exit status: ",
            ),
            ExecState::Working(ExecStage::CloseChannel) => m.append("Failed to close channel: "),
            _ => {
                proof {
                    assert(false);
                }
            },
        }
        m.append(detail.as_str());
        proof {
            match old(self).state {
                ExecState::Working(s) => {
                    assert(m@ =~= exec_failure_text(s, detail@));
                },
                _ => {},
            }
        }
        self.state = ExecState::Failed(m);
    }
}

} // verus!
