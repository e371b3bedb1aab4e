//! Commands: what is run, and what comes of a run.
use vstd::prelude::*;

use crate::error::AppError;
#[allow(unused_imports)]
use crate::error::{outcome, AppErrorView};
use crate::path::debug_path;
#[allow(unused_imports)]
use crate::path::path_debug;
#[allow(unused_imports)]
use crate::text::joined;
use crate::text::{cat2, cat3, cat4, cat6, join_texts, texts_copy};

verus! {

/// A command: a program with fixed arguments, a working directory and variables to set.
#[derive(Debug)]
pub struct CommandSpec {
    pub program: String,
    pub args: Vec<String>,
    pub current_directory: Option<String>,
    pub environment: Vec<(String, String)>,
}

/// A command with the characters of its texts.
#[verifier::ext_equal]
pub struct CommandView {
    pub program: Seq<char>,
    pub args: Seq<Seq<char>>,
    pub current_directory: Option<Seq<char>>,
    pub environment: Seq<(Seq<char>, Seq<char>)>,
}

impl View for CommandSpec {
    type V = CommandView;

    open spec fn view(&self) -> CommandView {
        CommandView {
            program: self.program@,
            args: self.args.deep_view(),
            current_directory: self.current_directory.deep_view(),
            environment: self.environment.deep_view(),
        }
    }
}

/// What a successful command printed.
#[derive(Debug)]
pub struct CommandOutput {
    pub stdout: String,
    pub stderr: String,
}

/// What a successful command printed, as characters.
pub struct CommandOutputView {
    pub stdout: Seq<char>,
    pub stderr: Seq<char>,
}

impl View for CommandOutput {
    type V = CommandOutputView;

    open spec fn view(&self) -> CommandOutputView {
        CommandOutputView { stdout: self.stdout@, stderr: self.stderr@ }
    }
}

impl DeepView for CommandOutput {
    type V = CommandOutputView;

    open spec fn deep_view(&self) -> CommandOutputView {
        self@
    }
}

/// What reading one of the two output streams came to.
#[derive(Debug)]
pub enum StreamOutcome {
    /// The lines that were printed.
    Lines(Vec<String>),
    /// Reading failed.
    Failed { source: String },
    /// The task that reads did not end.
    Lost { source: String },
}

/// What running a command came to.
#[derive(Debug)]
pub enum CommandOutcome {
    /// The program could not be started.
    NotStarted { source: String },
    /// The started program has no standard output.
    NoStdout,
    /// The started program has no standard error.
    NoStderr,
    /// Waiting for the program failed.
    WaitFailed { source: String },
    /// The program ran too long and could not be ended.
    NotKilled { source: String },
    /// The program ran too long and was ended.
    TimedOut,
    /// The program ended by itself, with an exit status unless a signal ended it.
    Exited { status: Option<i32>, stdout: StreamOutcome, stderr: StreamOutcome },
}

/// The error of a command that did not end with an exit status.
pub open spec fn not_run(command: CommandView, stderr: Seq<char>) -> AppErrorView {
    AppErrorView::CommandFailed {
        program: command.program,
        args: command.args,
        status: None,
        stdout: Seq::empty(),
        stderr,
    }
}

/// The text of a stream: its lines, with a line break between each two.
pub open spec fn stream_text(
    command: CommandView,
    stream: Seq<char>,
    outcome: StreamOutcome,
) -> Result<Seq<char>, AppErrorView> {
    match outcome {
        StreamOutcome::Lines(lines) => Ok(joined(lines.deep_view(), "\n"@)),
        StreamOutcome::Failed { source } => Err(
            not_run(command, "failed to read "@ + stream + ": "@ + source@),
        ),
        StreamOutcome::Lost { source } => Err(
            AppErrorView::TaskJoin {
                reason: "command "@ + path_debug(command.program) + " "@ + stream
                    + " reader failed: "@ + source@,
            },
        ),
    }
}

/// What running a command returns: its output where it ended with exit status 0, else the error
/// of the first thing that went wrong.
pub open spec fn command_result(
    command: CommandView,
    timeout_seconds: u64,
    outcome: CommandOutcome,
) -> Result<CommandOutputView, AppErrorView> {
    match outcome {
        CommandOutcome::NotStarted { source } => Err(not_run(command, source@)),
        CommandOutcome::NoStdout => Err(
            AppErrorView::InvalidState {
                reason: "command "@ + path_debug(command.program)
                    + " stdout pipe was not available"@,
            },
        ),
        CommandOutcome::NoStderr => Err(
            AppErrorView::InvalidState {
                reason: "command "@ + path_debug(command.program)
                    + " stderr pipe was not available"@,
            },
        ),
        CommandOutcome::WaitFailed { source } => Err(not_run(command, source@)),
        CommandOutcome::NotKilled { source } => Err(
            not_run(command, "timed out and failed to terminate command: "@ + source@),
        ),
        CommandOutcome::TimedOut => Err(
            AppErrorView::CommandTimedOut {
                program: command.program,
                args: command.args,
                timeout_seconds,
            },
        ),
        CommandOutcome::Exited { status, stdout, stderr } => match stream_text(
            command,
            "stdout"@,
            stdout,
        ) {
            Err(error) => Err(error),
            Ok(stdout) => match stream_text(command, "stderr"@, stderr) {
                Err(error) => Err(error),
                Ok(stderr) => if status == Some(0i32) {
                    Ok(CommandOutputView { stdout, stderr })
                } else {
                    Err(
                        AppErrorView::CommandFailed {
                            program: command.program,
                            args: command.args,
                            status,
                            stdout,
                            stderr,
                        },
                    )
                },
            },
        },
    }
}

fn command_failed(
    spec: &CommandSpec,
    status: Option<i32>,
    stdout: String,
    stderr: String,
) -> (error: AppError)
    ensures
        error@ == (AppErrorView::CommandFailed {
            program: spec@.program,
            args: spec@.args,
            status,
            stdout: stdout@,
            stderr: stderr@,
        }),
{
    AppError::CommandFailed {
        program: spec.program.clone(),
        args: texts_copy(&spec.args),
        status,
        stdout,
        stderr,
    }
}

fn join_stream(spec: &CommandSpec, stream: &'static str, outcome: StreamOutcome) -> (result: Result<
    String,
    AppError,
>)
    ensures
        crate::error::outcome(result) == stream_text(spec@, stream@, outcome),
{
    match outcome {
        StreamOutcome::Lines(lines) => Ok(join_texts(&lines, "\n")),
        StreamOutcome::Failed { source } => Err(
            command_failed(
                spec,
                None,
                String::new(),
                cat4("failed to read ", stream, ": ", source.as_str()),
            ),
        ),
        StreamOutcome::Lost { source } => Err(
            AppError::TaskJoin {
                reason: cat6(
                    "command ",
                    debug_path(spec.program.as_str()).as_str(),
                    " ",
                    stream,
                    " reader failed: ",
                    source.as_str(),
                ),
            },
        ),
    }
}

/// What running a command returns, given what the run came to.
pub fn run_command(spec: &CommandSpec, timeout_seconds: u64, outcome: CommandOutcome) -> (result:
    Result<CommandOutput, AppError>)
    ensures
        crate::error::outcome(result) == command_result(spec@, timeout_seconds, outcome),
{
    match outcome {
        CommandOutcome::NotStarted { source } => Err(
            command_failed(spec, None, String::new(), source),
        ),
        CommandOutcome::NoStdout => Err(
            AppError::InvalidState {
                reason: cat3(
                    "command ",
                    debug_path(spec.program.as_str()).as_str(),
                    " stdout pipe was not available",
                ),
            },
        ),
        CommandOutcome::NoStderr => Err(
            AppError::InvalidState {
                reason: cat3(
                    "command ",
                    debug_path(spec.program.as_str()).as_str(),
                    " stderr pipe was not available",
                ),
            },
        ),
        CommandOutcome::WaitFailed { source } => Err(
            command_failed(spec, None, String::new(), source),
        ),
        CommandOutcome::NotKilled { source } => Err(
            command_failed(
                spec,
                None,
                String::new(),
                cat2("timed out and failed to terminate command: ", source.as_str()),
            ),
        ),
        CommandOutcome::TimedOut => Err(
            AppError::CommandTimedOut {
                program: spec.program.clone(),
                args: texts_copy(&spec.args),
                timeout_seconds,
            },
        ),
        CommandOutcome::Exited { status, stdout, stderr } => {
            let stdout = match join_stream(spec, "stdout", stdout) {
                Ok(text) => text,
                Err(error) => {
                    return Err(error);
                },
            };
            let stderr = match join_stream(spec, "stderr", stderr) {
                Ok(text) => text,
                Err(error) => {
                    return Err(error);
                },
            };
            match status {
                Some(0) => Ok(CommandOutput { stdout, stderr }),
                _ => Err(command_failed(spec, status, stdout, stderr)),
            }
        },
    }
}

/// A command succeeds exactly where the program ended with exit status 0 and both of its streams
/// were read; it then returns what they held.
pub proof fn only_exit_status_zero_succeeds(
    command: CommandView,
    timeout_seconds: u64,
    outcome: CommandOutcome,
)
    ensures
        command_result(command, timeout_seconds, outcome) is Ok <==> (outcome matches
            CommandOutcome::Exited { status, stdout, stderr } && status == Some(0i32)
            && stdout is Lines && stderr is Lines),
        outcome matches CommandOutcome::Exited {
            status: Some(0),
            stdout: StreamOutcome::Lines(printed),
            stderr: StreamOutcome::Lines(reported),
        } ==> command_result(command, timeout_seconds, outcome) == Ok::<
            CommandOutputView,
            AppErrorView,
        >(
            CommandOutputView {
                stdout: joined(printed.deep_view(), "\n"@),
                stderr: joined(reported.deep_view(), "\n"@),
            },
        ),
{
}

/// A command that was run and did not succeed tells what was run: with the exit status and what
/// it printed where it ended by itself, without a status where it was not started, could not be
/// waited for or could not be ended, and with its time where it ran too long.
pub proof fn failures_tell_what_was_run(
    command: CommandView,
    timeout_seconds: u64,
    outcome: CommandOutcome,
)
    ensures
        command_result(command, timeout_seconds, outcome) matches Err(error) ==> match error {
            AppErrorView::CommandFailed { program, args, status, stdout, stderr } => {
                &&& program == command.program && args == command.args
                &&& status is Some ==> (outcome matches CommandOutcome::Exited {
                    status: ended,
                    stdout: StreamOutcome::Lines(printed),
                    stderr: StreamOutcome::Lines(reported),
                } && ended == status && status != Some(0i32) && stdout == joined(
                    printed.deep_view(),
                    "\n"@,
                ) && stderr == joined(reported.deep_view(), "\n"@))
                &&& !(outcome is TimedOut)
            },
            AppErrorView::CommandTimedOut { program, args, timeout_seconds: limit } => program
                == command.program && args == command.args && limit == timeout_seconds && outcome
                is TimedOut,
            AppErrorView::InvalidState { .. } => outcome is NoStdout || outcome is NoStderr,
            AppErrorView::TaskJoin { .. } => outcome is Exited,
            _ => false,
        },
        outcome is TimedOut ==> (command_result(command, timeout_seconds, outcome) matches Err(
            error,
        ) && error is CommandTimedOut),
        outcome matches CommandOutcome::NotStarted { source } ==> (command_result(
            command,
            timeout_seconds,
            outcome,
        ) matches Err(AppErrorView::CommandFailed { stderr, .. }) && stderr == source@),
{
}

} // verus!
