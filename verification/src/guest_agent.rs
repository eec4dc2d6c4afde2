//! The agent inside a guest: who may give it orders, and what it answers.

use crate::config::constant_time_eq;
use crate::protocol::{AgentRequest, AgentRequestView, AgentResponse, AgentResponseView, Envelope,
    DEFAULT_EXEC_TIMEOUT_SECS};
use crate::scan::{self, trim};
use crate::text::{self, chars_of, decimal};
use vstd::prelude::*;

verus! {

// --------------------------------------------------------------------- secrets

/// The secret in the contents of the token file: what is left of them without
/// the white space around it, if anything is.
pub open spec fn secret_in(contents: Option<Seq<char>>) -> Option<Seq<char>> {
    match contents {
        Some(c) => if scan::trimmed(c).len() > 0 {
            Some(scan::trimmed(c))
        } else {
            None
        },
        None => None,
    }
}

/// The secret that requests have to show, from the contents of the token file,
/// if it could be read.
pub fn expected_token(contents: &Option<String>) -> (r: Option<String>)
    ensures
        text::opt(r) == secret_in(text::opt(*contents)),
{
    match contents {
        Some(c) => {
            let token = trim(c.as_str());
            let letters = chars_of(token.as_str());
            if letters.len() > 0 {
                Some(token)
            } else {
                None
            }
        },
        None => None,
    }
}

/// A request may be carried out if no secret is set or it shows the one that
/// is.
pub open spec fn authorized(expected: Option<Seq<char>>, shown: Option<Seq<char>>) -> bool {
    expected is Some ==> shown == expected
}

fn is_authorized(expected: &Option<String>, shown: &Option<String>) -> (r: bool)
    ensures
        r == authorized(text::opt(*expected), text::opt(*shown)),
{
    match expected {
        Some(e) => match shown {
            Some(s) => constant_time_eq(e.as_str(), s.as_str()),
            None => false,
        },
        None => true,
    }
}

// -------------------------------------------------------------------- requests

/// What to do for a request.
#[derive(Debug)]
pub enum AgentStep {
    /// Send the response; that is all.
    Reply { response: AgentResponse },
    /// Run the command and send what comes of it.
    Run { command: String, timeout_secs: u64 },
    /// Send the response, then shut the guest down.
    ShutDown { response: AgentResponse },
}

pub enum AgentStepView {
    Reply { response: AgentResponseView },
    Run { command: Seq<char>, timeout_secs: u64 },
    ShutDown { response: AgentResponseView },
}

impl View for AgentStep {
    type V = AgentStepView;

    open spec fn view(&self) -> AgentStepView {
        match *self {
            AgentStep::Reply { response } => AgentStepView::Reply { response: response@ },
            AgentStep::Run { command, timeout_secs } => AgentStepView::Run {
                command: command@,
                timeout_secs,
            },
            AgentStep::ShutDown { response } => AgentStepView::ShutDown { response: response@ },
        }
    }
}

/// What a request without the right secret is answered.
pub open spec fn refusal() -> AgentResponseView {
    AgentResponseView::Error { message: "unauthorized: missing or incorrect token"@ }
}

pub open spec fn step_for(
    expected: Option<Seq<char>>,
    shown: Option<Seq<char>>,
    request: AgentRequestView,
) -> AgentStepView {
    if !authorized(expected, shown) {
        AgentStepView::Reply { response: refusal() }
    } else {
        match request {
            AgentRequestView::Ping => AgentStepView::Reply { response: AgentResponseView::Pong },
            AgentRequestView::Exec { command, timeout_seconds } => AgentStepView::Run {
                command,
                timeout_secs: match timeout_seconds {
                    Some(t) => t,
                    None => DEFAULT_EXEC_TIMEOUT_SECS,
                },
            },
            AgentRequestView::Shutdown => AgentStepView::ShutDown {
                response: AgentResponseView::ShuttingDown,
            },
        }
    }
}

/// What to do for a request that was received.
pub fn handle_request(expected: &Option<String>, envelope: Envelope) -> (r: AgentStep)
    ensures
        r@ == step_for(text::opt(*expected), text::opt(envelope.token), envelope.request@),
{
    if !is_authorized(expected, &envelope.token) {
        return AgentStep::Reply {
            response: AgentResponse::Error {
                message: "unauthorized: missing or incorrect token".to_owned(),
            },
        };
    }
    match envelope.request {
        AgentRequest::Ping => AgentStep::Reply { response: AgentResponse::Pong },
        AgentRequest::Exec { command, timeout_seconds } => AgentStep::Run {
            command,
            timeout_secs: match timeout_seconds {
                Some(t) => t,
                None => DEFAULT_EXEC_TIMEOUT_SECS,
            },
        },
        AgentRequest::Shutdown => AgentStep::ShutDown { response: AgentResponse::ShuttingDown },
    }
}

// -------------------------------------------------------------------- commands

/// What was found when a command was looked at.
#[derive(Debug)]
pub enum Poll {
    /// It has ended, with an exit code unless a signal ended it.
    Exited { code: Option<i32> },
    Running,
    Failed { error: String },
}

/// What to do about a command.
#[derive(Debug)]
pub enum PollStep {
    /// Look again a little later.
    Sleep,
    /// Kill the command; its time is up.
    Kill,
    /// The command is over in this way.
    Over { outcome: ExecOutcome },
}

/// How a command came to its end.
#[derive(Debug)]
pub enum ExecOutcome {
    /// It could not be started.
    NotStarted { error: String },
    /// It could not be waited for.
    Lost { error: String },
    Exited { code: Option<i32> },
    TimedOut,
}

/// What to do about a command that was just looked at, its time being up or
/// not.
pub fn on_poll(poll: Poll, time_is_up: bool) -> (r: PollStep)
    ensures
        match poll {
            Poll::Exited { code } => r == (PollStep::Over { outcome: ExecOutcome::Exited { code } }),
            Poll::Running => if time_is_up {
                r == PollStep::Kill
            } else {
                r == PollStep::Sleep
            },
            Poll::Failed { error } => r == (PollStep::Over { outcome: ExecOutcome::Lost { error } }),
        },
{
    match poll {
        Poll::Exited { code } => PollStep::Over { outcome: ExecOutcome::Exited { code } },
        Poll::Running => {
            if time_is_up {
                PollStep::Kill
            } else {
                PollStep::Sleep
            }
        },
        Poll::Failed { error } => PollStep::Over { outcome: ExecOutcome::Lost { error } },
    }
}

/// What a command is answered with: its exit code (-1 if a signal ended it) and
/// its output, or what went wrong.
pub open spec fn exec_answer(
    outcome: ExecOutcome,
    timeout_secs: u64,
    stdout: Seq<char>,
    stderr: Seq<char>,
) -> AgentResponseView {
    match outcome {
        ExecOutcome::NotStarted { error } => AgentResponseView::Error {
            message: "spawning command: "@ + error@,
        },
        ExecOutcome::Lost { error } => AgentResponseView::Error {
            message: "waiting on command: "@ + error@,
        },
        ExecOutcome::Exited { code } => AgentResponseView::Exec {
            exit_code: match code {
                Some(c) => c,
                None => (-1) as i32,
            },
            stdout,
            stderr,
        },
        ExecOutcome::TimedOut => AgentResponseView::Error {
            message: "command exceeded "@ + text::dec(timeout_secs as nat)
                + "s timeout and was killed"@,
        },
    }
}

pub fn exec_response(outcome: ExecOutcome, timeout_secs: u64, stdout: String, stderr: String) -> (r:
    AgentResponse)
    ensures
        r@ == exec_answer(outcome, timeout_secs, stdout@, stderr@),
{
    match outcome {
        ExecOutcome::NotStarted { error } => AgentResponse::Error {
            message: text::cat2("spawning command: ", error.as_str()),
        },
        ExecOutcome::Lost { error } => AgentResponse::Error {
            message: text::cat2("waiting on command: ", error.as_str()),
        },
        ExecOutcome::Exited { code } => AgentResponse::Exec {
            exit_code: match code {
                Some(c) => c,
                None => -1,
            },
            stdout,
            stderr,
        },
        ExecOutcome::TimedOut => {
            let n = decimal(timeout_secs);
            AgentResponse::Error {
                message: text::cat3("command exceeded ", n.as_str(), "s timeout and was killed"),
            }
        },
    }
}

// ------------------------------------------------------------------------ laws

/// With a secret set, a request that does not show it is refused and nothing is
/// run or shut down for it.
pub proof fn nothing_runs_without_the_secret(
    expected: Seq<char>,
    shown: Option<Seq<char>>,
    request: AgentRequestView,
)
    requires
        shown != Some(expected),
    ensures
        step_for(Some(expected), shown, request) == (AgentStepView::Reply { response: refusal() }),
{
}

/// Without a secret, the same request is treated the same whatever it shows.
pub proof fn without_a_secret_anyone_may_ask(
    shown: Option<Seq<char>>,
    other: Option<Seq<char>>,
    request: AgentRequestView,
)
    ensures
        step_for(None, shown, request) == step_for(None, other, request),
        step_for(None, shown, request) != (AgentStepView::Reply { response: refusal() }),
{
}

/// A request that may be carried out is: a ping is answered, a command is run for
/// as long as it says or thirty seconds, and a shutdown is confirmed and then done.
pub proof fn an_authorized_request_is_carried_out(
    expected: Option<Seq<char>>,
    shown: Option<Seq<char>>,
    command: Seq<char>,
    timeout: u64,
)
    requires
        expected is None || shown == expected,
    ensures
        step_for(expected, shown, AgentRequestView::Ping) == (AgentStepView::Reply {
            response: AgentResponseView::Pong,
        }),
        step_for(
            expected,
            shown,
            AgentRequestView::Exec { command, timeout_seconds: Some(timeout) },
        ) == (AgentStepView::Run { command, timeout_secs: timeout }),
        step_for(expected, shown, AgentRequestView::Exec { command, timeout_seconds: None }) == (
        AgentStepView::Run { command, timeout_secs: 30 }),
        step_for(expected, shown, AgentRequestView::Shutdown) == (AgentStepView::ShutDown {
            response: AgentResponseView::ShuttingDown,
        }),
{
}

/// What a request without the right secret is told.
pub proof fn a_refusal_is_an_error()
    ensures
        refusal() == (AgentResponseView::Error {
            message: "unauthorized: missing or incorrect token"@,
        }),
{
}

/// The secret is what stands in the token file without the white space around it;
/// a file of white space alone, or none, sets no secret.
pub proof fn the_secret_is_what_the_file_holds(contents: Seq<char>)
    ensures
        secret_in(None) is None,
        scan::trimmed(contents).len() > 0 ==> secret_in(Some(contents)) == Some(
            scan::trimmed(contents),
        ),
        (forall|i: int| 0 <= i < contents.len() ==> scan::is_space(#[trigger] contents[i]))
            ==> secret_in(Some(contents)) is None,
{
    if forall|i: int| 0 <= i < contents.len() ==> scan::is_space(#[trigger] contents[i]) {
        scan::trimming_takes_white_space_alone(contents);
        if scan::trimmed(contents).len() > 0 {
            let (from, to) = choose|from: int, to: int|
                {
                    &&& 0 <= from <= to <= contents.len()
                    &&& scan::trimmed(contents) == #[trigger] contents.subrange(from, to)
                    &&& forall|i: int|
                        0 <= i < from || to <= i < contents.len() ==> scan::is_space(
                            #[trigger] contents[i],
                        )
                };
            assert(scan::trimmed(contents)[0] == contents[from]);
        }
    }
}

/// A command that ended is answered with its exit code, or -1 if a signal ended it,
/// and with all that it wrote.
pub proof fn a_command_is_answered_with_its_output(
    code: Option<i32>,
    timeout_secs: u64,
    stdout: Seq<char>,
    stderr: Seq<char>,
)
    ensures
        exec_answer(ExecOutcome::Exited { code }, timeout_secs, stdout, stderr) matches AgentResponseView::Exec {
            exit_code,
            stdout: out,
            stderr: err,
        } && out == stdout && err == stderr && (code is Some ==> exit_code == code->0) && (
        code is None ==> exit_code == -1),
{
}

/// A command that did not end by itself is answered with an error that says why.
pub proof fn what_went_wrong_is_told(
    error: String,
    timeout_secs: u64,
    stdout: Seq<char>,
    stderr: Seq<char>,
)
    ensures
        exec_answer(ExecOutcome::NotStarted { error }, timeout_secs, stdout, stderr) == (
        AgentResponseView::Error { message: "spawning command: "@ + error@ }),
        exec_answer(ExecOutcome::Lost { error }, timeout_secs, stdout, stderr) == (
        AgentResponseView::Error { message: "waiting on command: "@ + error@ }),
        exec_answer(ExecOutcome::TimedOut, timeout_secs, stdout, stderr) == (
        AgentResponseView::Error {
            message: "command exceeded "@ + text::dec(timeout_secs as nat)
                + "s timeout and was killed"@,
        }),
{
}

/// The view of what to do shows it in full.
pub proof fn what_to_do_is_shown_in_full(s: AgentStep)
    ensures
        match s {
            AgentStep::Reply { response } => s@ == (AgentStepView::Reply { response: response@ }),
            AgentStep::Run { command, timeout_secs } => s@ == (AgentStepView::Run {
                command: command@,
                timeout_secs,
            }),
            AgentStep::ShutDown { response } => s@ == (AgentStepView::ShutDown {
                response: response@,
            }),
        },
{
}

} // verus!
