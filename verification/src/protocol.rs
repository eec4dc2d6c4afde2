//! What the control plane and the agent in a guest say to each other: one JSON
//! object per line, one request and one response. The lines are made and taken
//! apart here; the program around the library turns messages into JSON text and
//! back.

use crate::scan::{self, trim_end};
use vstd::prelude::*;

verus! {

/// The vsock port that the agent listens on unless told otherwise.
pub const DEFAULT_PORT: u32 = 17777;

/// How long a command may run if the request does not say.
pub const DEFAULT_EXEC_TIMEOUT_SECS: u64 = 30;

/// The file in the guest that holds the secret of the agent.
pub fn token_file_path() -> (r: String)
    ensures
        r@ == token_file(),
{
    "/etc/ephemera/agent-token".to_owned()
}

pub open spec fn token_file() -> Seq<char> {
    "/etc/ephemera/agent-token"@
}

#[derive(Debug)]
pub enum AgentRequest {
    Ping,
    Exec { command: String, timeout_seconds: Option<u64> },
    Shutdown,
}

pub enum AgentRequestView {
    Ping,
    Exec { command: Seq<char>, timeout_seconds: Option<u64> },
    Shutdown,
}

impl View for AgentRequest {
    type V = AgentRequestView;

    open spec fn view(&self) -> AgentRequestView {
        match *self {
            AgentRequest::Ping => AgentRequestView::Ping,
            AgentRequest::Exec { command, timeout_seconds } => AgentRequestView::Exec {
                command: command@,
                timeout_seconds,
            },
            AgentRequest::Shutdown => AgentRequestView::Shutdown,
        }
    }
}

#[derive(Debug)]
pub enum AgentResponse {
    Pong,
    Exec { exit_code: i32, stdout: String, stderr: String },
    ShuttingDown,
    Error { message: String },
}

pub enum AgentResponseView {
    Pong,
    Exec { exit_code: i32, stdout: Seq<char>, stderr: Seq<char> },
    ShuttingDown,
    Error { message: Seq<char> },
}

impl View for AgentResponse {
    type V = AgentResponseView;

    open spec fn view(&self) -> AgentResponseView {
        match *self {
            AgentResponse::Pong => AgentResponseView::Pong,
            AgentResponse::Exec { exit_code, stdout, stderr } => AgentResponseView::Exec {
                exit_code,
                stdout: stdout@,
                stderr: stderr@,
            },
            AgentResponse::ShuttingDown => AgentResponseView::ShuttingDown,
            AgentResponse::Error { message } => AgentResponseView::Error { message: message@ },
        }
    }
}

/// A request with the secret that it shows.
#[derive(Debug)]
pub struct Envelope {
    pub token: Option<String>,
    pub request: AgentRequest,
}

/// A line with the JSON text of a message, ready to be sent.
pub fn encode_line(json: &str) -> (r: String)
    ensures
        r@ == json@.push('\n'),
{
    let mut line = json.to_owned();
    line.push('\n');
    line
}

/// The JSON text of a line that was received, with or without its end.
pub fn decode_line(line: &str) -> (r: String)
    ensures
        r@ == scan::trimmed_end(line@),
{
    trim_end(line)
}

// ------------------------------------------------------------------------ laws

/// A text that goes out as a line comes in as it went out, but for white space
/// at its end.
pub proof fn decode_undoes_encode(json: Seq<char>)
    ensures
        scan::trimmed_end(json.push('\n')) == scan::trimmed_end(json),
        json.len() > 0 && !scan::is_space(json.last()) ==> scan::trimmed_end(json.push('\n'))
            == json,
{
    assert(json.push('\n').drop_last() =~= json);
}

/// A JSON text without line feeds, as messages are written, goes out as one
/// line, and is read back as it was with the end of the line and without it.
pub proof fn a_message_is_one_line(json: Seq<char>)
    requires
        json.len() > 0,
        !scan::is_space(json.last()),
        !json.contains('\n'),
    ensures
        json.push('\n').last() == '\n',
        !json.push('\n').drop_last().contains('\n'),
        scan::trimmed_end(json.push('\n')) == json,
        scan::trimmed_end(json.push('\n').drop_last()) == json,
{
    decode_undoes_encode(json);
    assert(json.push('\n').drop_last() =~= json);
}

/// The end of the line is tolerated but not required.
pub proof fn decode_is_stable(line: Seq<char>)
    ensures
        scan::trimmed_end(scan::trimmed_end(line)) == scan::trimmed_end(line),
    decreases line.len(),
{
    if line.len() > 0 && scan::is_space(line.last()) {
        decode_is_stable(line.drop_last());
    }
}

/// The views of messages show them in full.
pub proof fn messages_are_shown_in_full(q: AgentRequest, r: AgentResponse)
    ensures
        match q {
            AgentRequest::Ping => q@ is Ping,
            AgentRequest::Exec { command, timeout_seconds } => q@ == (AgentRequestView::Exec {
                command: command@,
                timeout_seconds,
            }),
            AgentRequest::Shutdown => q@ is Shutdown,
        },
        match r {
            AgentResponse::Pong => r@ is Pong,
            AgentResponse::Exec { exit_code, stdout, stderr } => r@ == (AgentResponseView::Exec {
                exit_code,
                stdout: stdout@,
                stderr: stderr@,
            }),
            AgentResponse::ShuttingDown => r@ is ShuttingDown,
            AgentResponse::Error { message } => r@ == (AgentResponseView::Error {
                message: message@,
            }),
        },
{
}

} // verus!
