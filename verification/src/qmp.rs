//! The QEMU machine protocol: greeting, negotiation of capabilities, one
//! command and its reply. What to do next is decided line by line.

use crate::json::{self, json_display, json_empty, json_error, json_get, json_parse, json_string,
    json_with, Json};
use crate::text;
use vstd::prelude::*;

verus! {

/// What the next line from QEMU is expected to be.
#[derive(Debug, Clone, Copy, PartialEq, Eq, Structural)]
pub enum QmpStage {
    Greeting,
    Negotiation,
    Reply,
}

#[derive(Debug)]
pub enum QmpError {
    /// The greeting is no JSON, for the reason given.
    BadGreeting { reason: String },
    /// The greeting is no QMP greeting.
    NotQmp { greeting: String },
    /// The answer to the negotiation is no JSON, for the reason given.
    BadNegotiation { reason: String },
    /// QEMU refused the negotiation.
    NegotiationRefused { error: String },
    /// The connection ended before the reply.
    Closed,
    /// A line in place of the reply is no JSON, for the reason given.
    BadReply { line: String, reason: String },
    /// The command failed.
    CommandFailed { error: String },
}

/// What to do after a line from QEMU.
#[derive(Debug)]
pub enum QmpStep {
    /// Send `line`; the next line from QEMU is of stage `next`.
    Send { line: String, next: QmpStage },
    /// Read another line of the same stage.
    Wait,
    /// The command succeeded; `value` is the JSON text of what it returned.
    Done { value: String },
    Failed(QmpError),
}

pub enum QmpErrorView {
    BadGreeting { reason: Seq<char> },
    NotQmp { greeting: Seq<char> },
    BadNegotiation { reason: Seq<char> },
    NegotiationRefused { error: Seq<char> },
    Closed,
    BadReply { line: Seq<char>, reason: Seq<char> },
    CommandFailed { error: Seq<char> },
}

pub enum QmpStepView {
    Send { line: Seq<char>, next: QmpStage },
    Wait,
    Done { value: Seq<char> },
    Failed(QmpErrorView),
}

impl View for QmpError {
    type V = QmpErrorView;

    open spec fn view(&self) -> QmpErrorView {
        match *self {
            QmpError::BadGreeting { reason } => QmpErrorView::BadGreeting { reason: reason@ },
            QmpError::NotQmp { greeting } => QmpErrorView::NotQmp { greeting: greeting@ },
            QmpError::BadNegotiation { reason } => QmpErrorView::BadNegotiation {
                reason: reason@,
            },
            QmpError::NegotiationRefused { error } => QmpErrorView::NegotiationRefused {
                error: error@,
            },
            QmpError::Closed => QmpErrorView::Closed,
            QmpError::BadReply { line, reason } => QmpErrorView::BadReply {
                line: line@,
                reason: reason@,
            },
            QmpError::CommandFailed { error } => QmpErrorView::CommandFailed { error: error@ },
        }
    }
}

impl View for QmpStep {
    type V = QmpStepView;

    open spec fn view(&self) -> QmpStepView {
        match *self {
            QmpStep::Send { line, next } => QmpStepView::Send { line: line@, next },
            QmpStep::Wait => QmpStepView::Wait,
            QmpStep::Done { value } => QmpStepView::Done { value: value@ },
            QmpStep::Failed(e) => QmpStepView::Failed(e@),
        }
    }
}

impl QmpErrorView {
    /// The error in words, for the command `command`.
    pub open spec fn text(self, command: Seq<char>) -> Seq<char> {
        match self {
            QmpErrorView::BadGreeting { reason } => "parsing QMP greeting: "@ + reason,
            QmpErrorView::NotQmp { greeting } => "unexpected QMP greeting: "@ + greeting,
            QmpErrorView::BadNegotiation { reason } => {
                "parsing qmp_capabilities response: "@ + reason
            },
            QmpErrorView::NegotiationRefused { error } => "qmp_capabilities rejected: "@ + error,
            QmpErrorView::Closed => {
                "QEMU closed the QMP connection without responding to "@ + command
            },
            QmpErrorView::BadReply { line, reason } => {
                "parsing QMP response: "@ + line + ": "@ + reason
            },
            QmpErrorView::CommandFailed { error } => "QMP "@ + command + " failed: "@ + error,
        }
    }
}

impl QmpError {
    pub fn message(&self, command: &str) -> (r: String)
        ensures
            r@ == self@.text(command@),
    {
        match self {
            QmpError::BadGreeting { reason } => text::cat2(
                "parsing QMP greeting: ",
                reason.as_str(),
            ),
            QmpError::NotQmp { greeting } => text::cat2(
                "unexpected QMP greeting: ",
                greeting.as_str(),
            ),
            QmpError::BadNegotiation { reason } => text::cat2(
                "parsing qmp_capabilities response: ",
                reason.as_str(),
            ),
            QmpError::NegotiationRefused { error } => text::cat2(
                "qmp_capabilities rejected: ",
                error.as_str(),
            ),
            QmpError::Closed => text::cat2(
                "QEMU closed the QMP connection without responding to ",
                command,
            ),
            QmpError::BadReply { line, reason } => text::cat4(
                "parsing QMP response: ",
                line.as_str(),
                ": ",
                reason.as_str(),
            ),
            QmpError::CommandFailed { error } => text::cat4(
                "QMP ",
                command,
                " failed: ",
                error.as_str(),
            ),
        }
    }
}

// ------------------------------------------------------------------- requests

/// The line that asks for the negotiation of capabilities.
pub open spec fn capabilities_line() -> Seq<char> {
    "{\"execute\":\"qmp_capabilities\"}\n"@
}

/// `line` is a JSON object on one line that has `command` under `execute` and,
/// if there are any, the arguments under `arguments`.
pub open spec fn is_command_line(
    line: Seq<char>,
    command: Seq<char>,
    arguments: Option<Json>,
) -> bool {
    let execute = json::member_text("execute"@, json::quoted(command));
    match arguments {
        None => line == "{"@ + execute + "}"@ + "\n"@,
        Some(a) => line.len() > 0 && line == line.drop_last() + "\n"@ && json::is_pair_text(
            line.drop_last(),
            execute,
            json::member_text("arguments"@, json::json_compact(a)),
        ),
    }
}

/// What the arguments of a command hold.
pub open spec fn arguments_of(arguments: Option<serde_json::Value>) -> Option<Json> {
    match arguments {
        Some(a) => Some(json::json_tree(a)),
        None => None,
    }
}

/// The line that sends a command.
pub fn command_line(command: &str, arguments: Option<serde_json::Value>) -> (r: String)
    ensures
        is_command_line(r@, command@, arguments_of(arguments)),
{
    let name = json_string(command);
    let request = json_with(json_empty(), "execute", name);
    let request = match arguments {
        None => request,
        Some(a) => {
            proof {
                reveal_strlit("execute");
                reveal_strlit("arguments");
                assert("execute"@.len() != "arguments"@.len());
            }
            json_with(request, "arguments", a)
        },
    };
    let shown = json_display(&request);
    let line = text::cat2(shown.as_str(), "\n");
    proof {
        reveal_strlit("\n");
        assert(line@.drop_last() =~= shown@);
    }
    line
}

// -------------------------------------------------------------------- replies

/// A line that reports an event and answers nothing.
pub open spec fn is_event(line: Seq<char>) -> bool {
    line.len() > 0 && (json::json_parsed(line) matches Ok(t) && json::has_member(t, "event"@))
}

/// What a line of a stage means that is no JSON, for the reason `reason`.
pub open spec fn bad_line(stage: QmpStage, line: Seq<char>, reason: Seq<char>) -> QmpErrorView {
    match stage {
        QmpStage::Greeting => QmpErrorView::BadGreeting { reason },
        QmpStage::Negotiation => QmpErrorView::BadNegotiation { reason },
        QmpStage::Reply => QmpErrorView::BadReply { line, reason },
    }
}

/// What to do after a line that holds `t`: a greeting starts the negotiation,
/// an accepted negotiation releases the command, and of the lines after that
/// events are passed over.
pub open spec fn value_step(stage: QmpStage, request: Seq<char>, t: Json) -> QmpStepView {
    match stage {
        QmpStage::Greeting => if json::has_member(t, "QMP"@) {
            QmpStepView::Send { line: capabilities_line(), next: QmpStage::Negotiation }
        } else {
            QmpStepView::Failed(QmpErrorView::NotQmp { greeting: json::json_compact(t) })
        },
        QmpStage::Negotiation => if json::has_member(t, "error"@) {
            QmpStepView::Failed(
                QmpErrorView::NegotiationRefused {
                    error: json::json_compact(json::member(t, "error"@)),
                },
            )
        } else {
            QmpStepView::Send { line: request, next: QmpStage::Reply }
        },
        QmpStage::Reply => if json::has_member(t, "event"@) {
            QmpStepView::Wait
        } else if json::has_member(t, "error"@) {
            QmpStepView::Failed(
                QmpErrorView::CommandFailed {
                    error: json::json_compact(json::member(t, "error"@)),
                },
            )
        } else if json::has_member(t, "return"@) {
            QmpStepView::Done { value: json::json_compact(json::member(t, "return"@)) }
        } else {
            QmpStepView::Done { value: "null"@ }
        },
    }
}

/// What to do after `line`, an empty one in place of the reply being the end of
/// the connection.
pub open spec fn qmp_step(stage: QmpStage, request: Seq<char>, line: Seq<char>) -> QmpStepView {
    if stage == QmpStage::Reply && line.len() == 0 {
        QmpStepView::Failed(QmpErrorView::Closed)
    } else {
        match json::json_parsed(line) {
            Err(reason) => QmpStepView::Failed(bad_line(stage, line, reason)),
            Ok(t) => value_step(stage, request, t),
        }
    }
}

/// Decides what follows a line from QEMU that holds `value`, `request` being the
/// command that is to be sent once capabilities are negotiated.
pub fn on_value(stage: QmpStage, request: &str, value: &serde_json::Value) -> (r: QmpStep)
    ensures
        r@ == value_step(stage, request@, json::json_tree(*value)),
{
    match stage {
        QmpStage::Greeting => {
            if json_get(value, "QMP").is_none() {
                QmpStep::Failed(QmpError::NotQmp { greeting: json_display(value) })
            } else {
                QmpStep::Send {
                    line: "{\"execute\":\"qmp_capabilities\"}\n".to_owned(),
                    next: QmpStage::Negotiation,
                }
            }
        },
        QmpStage::Negotiation => match json_get(value, "error") {
            Some(e) => QmpStep::Failed(QmpError::NegotiationRefused { error: json_display(e) }),
            None => QmpStep::Send { line: request.to_owned(), next: QmpStage::Reply },
        },
        QmpStage::Reply => {
            if json_get(value, "event").is_some() {
                return QmpStep::Wait;
            }
            if let Some(e) = json_get(value, "error") {
                return QmpStep::Failed(QmpError::CommandFailed { error: json_display(e) });
            }
            match json_get(value, "return") {
                Some(v) => QmpStep::Done { value: json_display(v) },
                None => QmpStep::Done { value: "null".to_owned() },
            }
        },
    }
}

/// What follows a line from QEMU that is no JSON, for the reason `reason`.
pub fn on_bad_line(stage: QmpStage, line: &str, reason: String) -> (r: QmpStep)
    ensures
        r@ == QmpStepView::Failed(bad_line(stage, line@, reason@)),
{
    QmpStep::Failed(
        match stage {
            QmpStage::Greeting => QmpError::BadGreeting { reason },
            QmpStage::Negotiation => QmpError::BadNegotiation { reason },
            QmpStage::Reply => QmpError::BadReply { line: line.to_owned(), reason },
        },
    )
}

/// Decides what follows a line from QEMU, `request` being the command that is
/// to be sent once capabilities are negotiated.
pub fn on_line(stage: QmpStage, request: &str, line: &str) -> (r: QmpStep)
    ensures
        r@ == qmp_step(stage, request@, line@),
{
    if stage == QmpStage::Reply && line.is_empty() {
        return QmpStep::Failed(QmpError::Closed);
    }
    match json_parse(line) {
        Ok(value) => on_value(stage, request, &value),
        Err(e) => on_bad_line(stage, line, json_error(&e)),
    }
}

/// How an exchange ends when QEMU sends `lines` and then closes the
/// connection, from stage `stage` on.
pub open spec fn qmp_outcome(
    stage: QmpStage,
    request: Seq<char>,
    lines: Seq<Seq<char>>,
) -> QmpStepView
    decreases lines.len(),
{
    let line = if lines.len() > 0 {
        lines[0]
    } else {
        Seq::empty()
    };
    match qmp_step(stage, request, line) {
        QmpStepView::Send { line: _, next } => if lines.len() > 0 {
            qmp_outcome(next, request, lines.skip(1))
        } else {
            QmpStepView::Failed(QmpErrorView::Closed)
        },
        QmpStepView::Wait => if lines.len() > 0 {
            qmp_outcome(stage, request, lines.skip(1))
        } else {
            QmpStepView::Failed(QmpErrorView::Closed)
        },
        end => end,
    }
}

/// Events that QEMU puts before its reply change nothing about the outcome,
/// however many there are.
pub proof fn events_are_skipped(request: Seq<char>, events: Seq<Seq<char>>, rest: Seq<Seq<char>>)
    requires
        forall|i: int| 0 <= i < events.len() ==> is_event(#[trigger] events[i]),
    ensures
        qmp_outcome(QmpStage::Reply, request, events + rest) == qmp_outcome(
            QmpStage::Reply,
            request,
            rest,
        ),
    decreases events.len(),
{
    if events.len() == 0 {
        assert(events + rest =~= rest);
    } else {
        assert(is_event(events[0]));
        assert((events + rest)[0] == events[0]);
        assert(qmp_step(QmpStage::Reply, request, events[0]) is Wait);
        assert((events + rest).skip(1) =~= events.skip(1) + rest);
        assert forall|i: int| 0 <= i < events.skip(1).len() implies is_event(
            #[trigger] events.skip(1)[i],
        ) by {
            assert(events.skip(1)[i] == events[i + 1]);
        }
        events_are_skipped(request, events.skip(1), rest);
    }
}

/// No command goes out before QEMU has greeted and accepted the negotiation:
/// only the negotiation's answer releases it.
pub proof fn command_waits_for_negotiation(stage: QmpStage, request: Seq<char>, line: Seq<char>)
    requires
        request != capabilities_line(),
    ensures
        qmp_step(stage, request, line) matches QmpStepView::Send { line: sent, next: _ } && sent
            == request ==> stage == QmpStage::Negotiation && json::json_parsed(line) is Ok
            && !json::has_member(json::json_parsed(line)->Ok_0, "error"@),
{
}

/// A command without arguments goes out as one line: the only line feed is at
/// its end, whatever the command holds.
pub proof fn a_command_is_one_line(line: Seq<char>, command: Seq<char>)
    requires
        is_command_line(line, command, None),
    ensures
        line.len() > 0,
        line.last() == '\n',
        !line.drop_last().contains('\n'),
{
    reveal_strlit("execute");
    reveal_strlit("{");
    reveal_strlit("}");
    reveal_strlit(":");
    reveal_strlit("\n");
    json::quoted_is_one_line("execute"@);
    json::quoted_is_one_line(command);
    let key = json::quoted("execute"@);
    let value = json::quoted(command);
    let rest = line.drop_last();
    assert(rest =~= "{"@ + key + ":"@ + value + "}"@);
    assert forall|i: int| 0 <= i < rest.len() implies rest[i] != '\n' by {
        if 1 <= i < 1 + key.len() {
            assert(rest[i] == key[i - 1]);
        } else if 2 + key.len() <= i < 2 + key.len() + value.len() {
            assert(rest[i] == value[i - 2 - key.len()]);
        }
    }
}

/// A command without arguments and of plain characters goes out as an object with
/// the one member `execute`.
pub proof fn a_command_is_an_object_with_its_name(line: Seq<char>, command: Seq<char>)
    requires
        forall|i: int| 0 <= i < command.len() ==> json::is_plain(#[trigger] command[i]),
        is_command_line(line, command, None),
    ensures
        line == "{\"execute\":\""@ + command + "\"}\n"@,
{
    reveal_strlit("execute");
    reveal_strlit("{");
    reveal_strlit("}");
    reveal_strlit(":");
    reveal_strlit("\n");
    reveal_strlit("{\"execute\":\"");
    reveal_strlit("\"}\n");
    json::plain_text_is_only_quoted("execute"@);
    json::plain_text_is_only_quoted(command);
    assert(line =~= "{\"execute\":\""@ + command + "\"}\n"@);
}

/// A greeting is answered with the negotiation of capabilities, and an accepted
/// negotiation with the command. A line that is neither is an error that says what
/// QEMU said.
pub proof fn greeting_negotiation_and_command_follow(request: Seq<char>, t: Json)
    ensures
        json::has_member(t, "QMP"@) ==> value_step(QmpStage::Greeting, request, t) == (
        QmpStepView::Send {
            line: "{\"execute\":\"qmp_capabilities\"}\n"@,
            next: QmpStage::Negotiation,
        }),
        !json::has_member(t, "QMP"@) ==> value_step(QmpStage::Greeting, request, t)
            == QmpStepView::Failed(QmpErrorView::NotQmp { greeting: json::json_compact(t) }),
        !json::has_member(t, "error"@) ==> value_step(QmpStage::Negotiation, request, t) == (
        QmpStepView::Send { line: request, next: QmpStage::Reply }),
        json::has_member(t, "error"@) ==> value_step(QmpStage::Negotiation, request, t)
            == QmpStepView::Failed(
            QmpErrorView::NegotiationRefused {
                error: json::json_compact(json::member(t, "error"@)),
            },
        ),
{
}

/// A command has succeeded if and only if a line that is no event and no error
/// comes back, and what it returned is what that line says it did; an error is
/// reported with what QEMU said of it; an event changes nothing.
pub proof fn a_reply_ends_the_exchange(request: Seq<char>, t: Json)
    ensures
        ({
            let step = value_step(QmpStage::Reply, request, t);
            let event = json::has_member(t, "event"@);
            let error = json::has_member(t, "error"@);
            &&& step is Wait <==> event
            &&& !event && error ==> step == QmpStepView::Failed(
                QmpErrorView::CommandFailed {
                    error: json::json_compact(json::member(t, "error"@)),
                },
            )
            &&& step is Done <==> !event && !error
            &&& !event && !error && json::has_member(t, "return"@) ==> step == (QmpStepView::Done {
                value: json::json_compact(json::member(t, "return"@)),
            })
            &&& !event && !error && !json::has_member(t, "return"@) ==> step == (
            QmpStepView::Done { value: "null"@ })
        }),
{
}

/// A connection that ends in place of a reply is an error, and so is a line that is
/// no JSON, which is told with what is wrong with it.
pub proof fn what_is_no_reply_is_an_error(stage: QmpStage, request: Seq<char>, line: Seq<char>)
    ensures
        qmp_step(QmpStage::Reply, request, Seq::empty()) == QmpStepView::Failed(
            QmpErrorView::Closed,
        ),
        line.len() > 0 && json::json_parsed(line) is Err ==> qmp_step(stage, request, line)
            == QmpStepView::Failed(
            match stage {
                QmpStage::Greeting => QmpErrorView::BadGreeting {
                    reason: json::json_parsed(line)->Err_0,
                },
                QmpStage::Negotiation => QmpErrorView::BadNegotiation {
                    reason: json::json_parsed(line)->Err_0,
                },
                QmpStage::Reply => QmpErrorView::BadReply {
                    line,
                    reason: json::json_parsed(line)->Err_0,
                },
            },
        ),
        line.len() > 0 && json::json_parsed(line) is Ok ==> qmp_step(stage, request, line)
            == value_step(stage, request, json::json_parsed(line)->Ok_0),
{
}

/// A command with arguments goes out as an object with the two members `execute`
/// and `arguments`, in the one order or the other, on one line.
pub proof fn arguments_go_out_with_the_command(
    line: Seq<char>,
    command: Seq<char>,
    arguments: Json,
)
    requires
        forall|i: int| 0 <= i < command.len() ==> json::is_plain(#[trigger] command[i]),
        is_command_line(line, command, Some(arguments)),
    ensures
        ({
            let execute = "\"execute\":\""@ + command + "\""@;
            let given = "\"arguments\":"@ + json::json_compact(arguments);
            line == "{"@ + execute + ","@ + given + "}"@ + "\n"@ || line == "{"@ + given + ","@
                + execute + "}"@ + "\n"@
        }),
{
    reveal_strlit("execute");
    reveal_strlit("arguments");
    reveal_strlit(":");
    reveal_strlit("\"execute\":\"");
    reveal_strlit("\"");
    reveal_strlit("\"arguments\":");
    json::plain_text_is_only_quoted("execute"@);
    json::plain_text_is_only_quoted("arguments"@);
    json::plain_text_is_only_quoted(command);
    assert(json::member_text("execute"@, json::quoted(command)) =~= "\"execute\":\""@ + command
        + "\""@);
    assert(json::member_text("arguments"@, json::json_compact(arguments)) =~= "\"arguments\":"@
        + json::json_compact(arguments));
}

/// What went wrong in an exchange is told with what QEMU said and for which
/// command.
pub proof fn errors_tell_what_was_said(
    command: Seq<char>,
    said: Seq<char>,
    reason: Seq<char>,
)
    ensures
        (QmpErrorView::NotQmp { greeting: said }).text(command) == "unexpected QMP greeting: "@ + said,
        (QmpErrorView::NegotiationRefused { error: said }).text(command)
            == "qmp_capabilities rejected: "@ + said,
        (QmpErrorView::CommandFailed { error: said }).text(command) == "QMP "@ + command
            + " failed: "@ + said,
        QmpErrorView::Closed.text(command)
            == "QEMU closed the QMP connection without responding to "@ + command,
        (QmpErrorView::BadReply { line: said, reason }).text(command) == "parsing QMP response: "@
            + said + ": "@ + reason,
        (QmpErrorView::BadGreeting { reason }).text(command) == "parsing QMP greeting: "@ + reason,
        (QmpErrorView::BadNegotiation { reason }).text(command)
            == "parsing qmp_capabilities response: "@ + reason,
{
}

/// The views of what to do and of what went wrong show them in full.
pub proof fn what_to_do_is_shown_in_full(s: QmpStep, e: QmpError)
    ensures
        match s {
            QmpStep::Send { line, next } => s@ == (QmpStepView::Send { line: line@, next }),
            QmpStep::Wait => s@ is Wait,
            QmpStep::Done { value } => s@ == (QmpStepView::Done { value: value@ }),
            QmpStep::Failed(e) => s@ == QmpStepView::Failed(e@),
        },
        match e {
            QmpError::BadGreeting { reason } => e@ == (QmpErrorView::BadGreeting {
                reason: reason@,
            }),
            QmpError::NotQmp { greeting } => e@ == (QmpErrorView::NotQmp { greeting: greeting@ }),
            QmpError::BadNegotiation { reason } => e@ == (QmpErrorView::BadNegotiation {
                reason: reason@,
            }),
            QmpError::NegotiationRefused { error } => e@ == (QmpErrorView::NegotiationRefused {
                error: error@,
            }),
            QmpError::Closed => e@ is Closed,
            QmpError::BadReply { line, reason } => e@ == (QmpErrorView::BadReply {
                line: line@,
                reason: reason@,
            }),
            QmpError::CommandFailed { error } => e@ == (QmpErrorView::CommandFailed {
                error: error@,
            }),
        },
{
}

} // verus!
