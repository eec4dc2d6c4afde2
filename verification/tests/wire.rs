//! HTTP, QMP, JSON and the protocol of the guest agent.

use ephemera::guest_agent::{exec_response, expected_token, handle_request, on_poll, AgentStep,
    ExecOutcome, Poll, PollStep};
use ephemera::http::{conclude, parse_head, request_head, HttpError, Progress, ResponseReader};
use ephemera::protocol::{decode_line, encode_line, token_file_path, AgentRequest, AgentResponse,
    Envelope, DEFAULT_EXEC_TIMEOUT_SECS, DEFAULT_PORT};
use ephemera::qmp::{command_line, on_bad_line, on_line, on_value, QmpError, QmpStage, QmpStep};
use ephemera::vsock::{call, connect_line, ping, proxy_connected, response_text, route, LineReader,
    PingError, Route, RouteError};
use ephemera::config::Config;
use ephemera::create::instance;
use ephemera::clock::Timestamp;
use ephemera::model::{AgentSpec, BackendKind, CreateVmRequest, NetworkSpec, StorageBackend,
    VmRecord};

// ------------------------------------------------------------------------ HTTP

#[test]
fn a_request_head() {
    assert_eq!(
        request_head("PATCH", "/vm", "{\"a\":\"\u{e9}\"}"),
        "PATCH /vm HTTP/1.1\r\nHost: localhost\r\nConnection: close\r\nContent-Length: 10\r\nContent-Type: application/json\r\n\r\n"
    );
    assert_eq!(
        request_head("GET", "/", ""),
        "GET / HTTP/1.1\r\nHost: localhost\r\nConnection: close\r\nContent-Length: 0\r\n\r\n"
    );
}

#[test]
fn response_heads() {
    let head = parse_head("HTTP/1.1 204 No Content\r\nServer: x\r\nCONTENT-length:  12 ").unwrap();
    assert_eq!((head.status, head.content_length), (204, 12));
    assert_eq!(parse_head("HTTP/1.1 200").unwrap().content_length, 0);
    assert_eq!(parse_head("HTTP/1.1 200\nContent-Length: x").unwrap().content_length, 0);
    assert_eq!(
        parse_head("HTTP/1.1 200\nContent-Length: x\nContent-Length: 3").unwrap().content_length,
        0
    );
    assert!(matches!(parse_head(""), Err(HttpError::NoStatusLine)));
    assert!(matches!(parse_head("HTTP/1.1"), Err(HttpError::NoStatusCode)));
    let complaint = |word: &str| word.parse::<u16>().unwrap_err().to_string();
    for word in ["abc", "70000", "-1", "+"] {
        match parse_head(&format!("HTTP/1.1 {word}")) {
            Err(HttpError::BadStatusCode { reason }) => assert_eq!(reason, complaint(word)),
            _ => panic!("{word}"),
        }
    }
}

#[test]
fn a_reader_says_what_is_wrong_with_a_status() {
    let mut r = ResponseReader::new();
    match r.feed(b"HTTP/1.1 abc\r\n\r\n") {
        Progress::Failed(e) => assert_eq!(
            e.message("PUT", "/actions"),
            "non-numeric HTTP status code: invalid digit found in string"
        ),
        other => panic!("{other:?}"),
    }
}

#[test]
fn a_response_is_complete_with_its_body() {
    let mut r = ResponseReader::new();
    assert!(matches!(r.feed(b"HTTP/1.1 200 OK\r\nContent-Le"), Progress::More));
    assert!(matches!(r.closed(), HttpError::ClosedInHead));
    assert!(matches!(r.feed(b"ngth: 5\r\n\r\nab"), Progress::More));
    assert!(matches!(r.closed(), HttpError::ClosedInBody { have: 2, want: 5 }));
    match r.feed(b"cdefgh") {
        Progress::Complete { status, body } => assert_eq!((status, body), (200, b"abcde".to_vec())),
        other => panic!("{other:?}"),
    }
}

#[test]
fn a_response_without_a_body() {
    let mut r = ResponseReader::new();
    match r.feed(b"HTTP/1.1 204 No Content\r\n\r\n") {
        Progress::Complete { status, body } => assert_eq!((status, body.len()), (204, 0)),
        other => panic!("{other:?}"),
    }
    let mut bad = ResponseReader::new();
    assert!(matches!(bad.feed(b"\r\n\r\n"), Progress::Failed(HttpError::NoStatusLine)));
}

#[test]
fn only_success_is_success() {
    assert!(conclude(200, vec![]).is_ok());
    assert!(conclude(299, vec![]).is_ok());
    assert!(conclude(199, vec![]).is_err());
    match conclude(400, vec![b'n', b'o', 0xff]) {
        Err(HttpError::Refused { status, body }) => assert_eq!((status, body.as_str()), (400, "no\u{fffd}")),
        other => panic!("{other:?}"),
    }
}

// ------------------------------------------------------------------------- QMP

#[test]
fn qmp_commands() {
    assert_eq!(command_line("stop", None), "{\"execute\":\"stop\"}\n");
    let line = command_line("x\"\n", Some(serde_json::Value::from(7)));
    let v: serde_json::Value = serde_json::from_str(&line).unwrap();
    assert_eq!(v.get("execute").and_then(|e| e.as_str()), Some("x\"\n"));
    assert_eq!(v.get("arguments").and_then(|a| a.as_u64()), Some(7));
    assert_eq!(line.matches('\n').count(), 1);
}

#[test]
fn a_qmp_exchange() {
    let greeting = "{\"QMP\": {\"version\": {}}}\r\n";
    match on_line(QmpStage::Greeting, "cmd\n", greeting) {
        QmpStep::Send { line, next } => {
            assert_eq!(line, "{\"execute\":\"qmp_capabilities\"}\n");
            assert_eq!(next, QmpStage::Negotiation);
        }
        other => panic!("{other:?}"),
    }
    match on_line(QmpStage::Negotiation, "cmd\n", "{\"return\": {}}") {
        QmpStep::Send { line, next } => assert_eq!((line.as_str(), next), ("cmd\n", QmpStage::Reply)),
        other => panic!("{other:?}"),
    }
    assert!(matches!(on_line(QmpStage::Reply, "", "{\"event\": \"STOP\"}"), QmpStep::Wait));
    assert!(matches!(on_line(QmpStage::Reply, "", "{\"event\": 1, \"error\": 2}"), QmpStep::Wait));
    match on_line(QmpStage::Reply, "", "{\"return\": {\"b\": [1, 2.5], \"a\": \"x\"}}") {
        QmpStep::Done { value } => assert_eq!(value, "{\"a\":\"x\",\"b\":[1,2.5]}"),
        other => panic!("{other:?}"),
    }
    assert!(matches!(on_line(QmpStage::Reply, "", "{}"), QmpStep::Done { ref value } if value == "null"));
}

#[test]
fn qmp_failures() {
    let complaint = |line: &str| serde_json::from_str::<serde_json::Value>(line).unwrap_err().to_string();
    match on_line(QmpStage::Greeting, "", "hello") {
        QmpStep::Failed(QmpError::BadGreeting { reason }) => assert_eq!(reason, complaint("hello")),
        other => panic!("{other:?}"),
    }
    match on_line(QmpStage::Greeting, "", "{\"SPICE\":1}") {
        QmpStep::Failed(QmpError::NotQmp { greeting }) => assert_eq!(greeting, "{\"SPICE\":1}"),
        other => panic!("{other:?}"),
    }
    match on_line(QmpStage::Negotiation, "", "") {
        QmpStep::Failed(QmpError::BadNegotiation { reason }) => assert_eq!(reason, complaint("")),
        other => panic!("{other:?}"),
    }
    match on_line(QmpStage::Negotiation, "", "{\"error\": {\"class\": \"X\"}}") {
        QmpStep::Failed(QmpError::NegotiationRefused { error }) => assert_eq!(error, "{\"class\":\"X\"}"),
        other => panic!("{other:?}"),
    }
    assert!(matches!(on_line(QmpStage::Reply, "", ""), QmpStep::Failed(QmpError::Closed)));
    match on_line(QmpStage::Reply, "", "oops") {
        QmpStep::Failed(QmpError::BadReply { line, reason }) => {
            assert_eq!((line.as_str(), reason), ("oops", complaint("oops")));
        }
        other => panic!("{other:?}"),
    }
    match on_bad_line(QmpStage::Reply, "x", "why".into()) {
        QmpStep::Failed(e) => assert_eq!(e.message("stop"), "parsing QMP response: x: why"),
        other => panic!("{other:?}"),
    }
    let v = serde_json::from_str("{\"error\": \"no\"}").unwrap();
    match on_value(QmpStage::Reply, "", &v) {
        QmpStep::Failed(QmpError::CommandFailed { error }) => assert_eq!(error, "\"no\""),
        other => panic!("{other:?}"),
    }
}

// ------------------------------------------------------------------ guest agent

#[test]
fn lines_of_the_agent_protocol() {
    assert_eq!(encode_line("{\"op\":\"ping\"}"), "{\"op\":\"ping\"}\n");
    assert_eq!(decode_line("{\"op\":\"ping\"}\r\n"), "{\"op\":\"ping\"}");
    assert_eq!(decode_line(&encode_line("{}")), "{}");
    assert_eq!(decode_line("{}"), "{}");
    assert_eq!((DEFAULT_PORT, DEFAULT_EXEC_TIMEOUT_SECS), (17777, 30));
    assert!(token_file_path().starts_with('/'));
}

#[test]
fn secrets_from_a_file() {
    assert_eq!(expected_token(&Some("  abc\n".into())).as_deref(), Some("abc"));
    assert_eq!(expected_token(&Some(" \n\t".into())), None);
    assert_eq!(expected_token(&None), None);
}

fn ask(expected: Option<&str>, token: Option<&str>, request: AgentRequest) -> AgentStep {
    handle_request(
        &expected.map(Into::into),
        Envelope { token: token.map(Into::into), request },
    )
}

#[test]
fn the_agent_asks_for_the_secret() {
    for shown in [None, Some("x"), Some("secret "), Some("")] {
        match ask(Some("secret"), shown, AgentRequest::Shutdown) {
            AgentStep::Reply { response: AgentResponse::Error { message } } => {
                assert_eq!(message, "unauthorized: missing or incorrect token");
            }
            other => panic!("{other:?}"),
        }
    }
    assert!(matches!(
        ask(Some("secret"), Some("secret"), AgentRequest::Ping),
        AgentStep::Reply { response: AgentResponse::Pong }
    ));
    assert!(matches!(
        ask(None, Some("anything"), AgentRequest::Ping),
        AgentStep::Reply { response: AgentResponse::Pong }
    ));
}

#[test]
fn what_the_agent_does() {
    let exec = |timeout_seconds| AgentRequest::Exec { command: "ls".into(), timeout_seconds };
    assert!(matches!(
        ask(None, None, exec(None)),
        AgentStep::Run { ref command, timeout_secs: 30 } if command == "ls"
    ));
    assert!(matches!(ask(None, None, exec(Some(3))), AgentStep::Run { timeout_secs: 3, .. }));
    assert!(matches!(
        ask(None, None, AgentRequest::Shutdown),
        AgentStep::ShutDown { response: AgentResponse::ShuttingDown }
    ));
}

#[test]
fn commands_are_watched() {
    assert!(matches!(on_poll(Poll::Running, false), PollStep::Sleep));
    assert!(matches!(on_poll(Poll::Running, true), PollStep::Kill));
    assert!(matches!(
        on_poll(Poll::Exited { code: Some(2) }, true),
        PollStep::Over { outcome: ExecOutcome::Exited { code: Some(2) } }
    ));
    assert!(matches!(
        on_poll(Poll::Failed { error: "e".into() }, false),
        PollStep::Over { outcome: ExecOutcome::Lost { .. } }
    ));
}

#[test]
fn what_comes_of_a_command() {
    let answer = |outcome| exec_response(outcome, 30, "out".into(), "err".into());
    assert!(matches!(
        answer(ExecOutcome::Exited { code: Some(3) }),
        AgentResponse::Exec { exit_code: 3, ref stdout, ref stderr } if stdout == "out" && stderr == "err"
    ));
    assert!(matches!(answer(ExecOutcome::Exited { code: None }), AgentResponse::Exec { exit_code: -1, .. }));
    let message = |outcome| match answer(outcome) {
        AgentResponse::Error { message } => message,
        other => panic!("{other:?}"),
    };
    assert_eq!(message(ExecOutcome::TimedOut), "command exceeded 30s timeout and was killed");
    assert_eq!(message(ExecOutcome::NotStarted { error: "x".into() }), "spawning command: x");
    assert_eq!(message(ExecOutcome::Lost { error: "x".into() }), "waiting on command: x");
}

// ------------------------------------------------------------------------ vsock

fn machine(backend: BackendKind, agent: Option<AgentSpec>, cid: Option<u32>) -> VmRecord {
    let req = CreateVmRequest {
        name: "m".into(),
        backend,
        image: "/i".into(),
        vcpus: 1,
        memory_mib: 1,
        disk_size_gib: None,
        kernel: None,
        initrd: None,
        firmware: None,
        kernel_args: None,
        network: NetworkSpec::default(),
        cloud_init: None,
        ttl_seconds: None,
        extra_args: vec![],
        agent,
        storage: StorageBackend::Default,
        shared_folders: vec![],
    };
    let t = Timestamp { secs: 0, nanos: 0 };
    let mut vm = instance(req, &Config::default(), 1, 2, t, t).unwrap();
    vm.workspace = "/w".into();
    vm.guest_cid = cid;
    vm
}

fn agent(enabled: bool) -> Option<AgentSpec> {
    Some(AgentSpec { enabled, port: 99, token: Some("t".into()) })
}

#[test]
fn the_way_to_the_agent() {
    assert!(matches!(
        route(&machine(BackendKind::Qemu, agent(true), Some(3))),
        Ok(Route::Native { cid: 3, port: 99 })
    ));
    for backend in [BackendKind::CloudHypervisor, BackendKind::Firecracker] {
        assert!(matches!(
            route(&machine(backend, agent(true), Some(3))),
            Ok(Route::Proxy { ref socket, port: 99 }) if socket == "/w/vsock.sock"
        ));
    }
    assert_eq!(route(&machine(BackendKind::Qemu, None, Some(3))).err(), Some(RouteError::AgentDisabled));
    assert_eq!(route(&machine(BackendKind::Qemu, agent(false), Some(3))).err(), Some(RouteError::AgentDisabled));
    assert_eq!(route(&machine(BackendKind::Qemu, agent(true), None)).err(), Some(RouteError::NoCid));
    assert_eq!(
        route(&machine(BackendKind::Auto, agent(true), Some(3))).err(),
        Some(RouteError::UnresolvedBackend)
    );
    let envelope = call(&machine(BackendKind::Qemu, agent(true), Some(3)), AgentRequest::Ping);
    assert_eq!(envelope.token.as_deref(), Some("t"));
}

#[test]
fn the_proxy_handshake() {
    assert_eq!(connect_line(17777), "CONNECT 17777\n");
    for ack in ["OK 1\n", "ok\n", "  Ok", "OKAY"] {
        assert!(proxy_connected(ack), "{ack}");
    }
    for ack in ["", "O", "NO", "ERR OK"] {
        assert!(!proxy_connected(ack), "{ack}");
    }
    assert_eq!(response_text(""), None);
    assert_eq!(response_text("{} \n").as_deref(), Some("{}"));
}

#[test]
fn lines_byte_by_byte() {
    let mut r = LineReader::new();
    assert_eq!(r.finish(), None);
    for b in b"{\"a\":1} " {
        assert!(!r.push(*b));
    }
    assert!(r.push(b'\n'));
    assert_eq!(r.finish().as_deref(), Some("{\"a\":1}"));
    let mut odd = LineReader::new();
    odd.push(0xc3);
    assert_eq!(odd.finish().as_deref(), Some("\u{fffd}"));
}

#[test]
fn answers_to_a_ping() {
    assert!(ping(AgentResponse::Pong).is_ok());
    assert!(matches!(
        ping(AgentResponse::Error { message: "no".into() }),
        Err(PingError::Agent { ref message }) if message == "no"
    ));
    assert!(matches!(ping(AgentResponse::ShuttingDown), Err(PingError::Unexpected)));
}

#[test]
fn errors_on_the_wire_in_words() {
    let http = |e: HttpError| e.message("PUT", "/actions");
    assert_eq!(http(HttpError::NoStatusLine), "malformed HTTP response: no status line");
    assert_eq!(http(HttpError::NoStatusCode), "malformed HTTP status line");
    assert_eq!(http(HttpError::BadStatusCode { reason: "why".into() }), "non-numeric HTTP status code: why");
    assert_eq!(
        http(HttpError::ClosedInHead),
        "Firecracker closed the connection before sending a complete response header"
    );
    assert_eq!(
        http(HttpError::ClosedInBody { have: 3, want: 10 }),
        "Firecracker closed the connection with only 3/10 body bytes sent"
    );
    assert_eq!(
        http(HttpError::Refused { status: 400, body: "bad".into() }),
        "Firecracker PUT /actions -> HTTP 400: bad"
    );
    let qmp = |e: QmpError| e.message("stop");
    assert_eq!(qmp(QmpError::BadGreeting { reason: "why".into() }), "parsing QMP greeting: why");
    assert_eq!(qmp(QmpError::NotQmp { greeting: "{}".into() }), "unexpected QMP greeting: {}");
    assert_eq!(
        qmp(QmpError::BadNegotiation { reason: "why".into() }),
        "parsing qmp_capabilities response: why"
    );
    assert_eq!(
        qmp(QmpError::NegotiationRefused { error: "1".into() }),
        "qmp_capabilities rejected: 1"
    );
    assert_eq!(
        qmp(QmpError::Closed),
        "QEMU closed the QMP connection without responding to stop"
    );
    assert_eq!(
        qmp(QmpError::BadReply { line: "x".into(), reason: "why".into() }),
        "parsing QMP response: x: why"
    );
    assert_eq!(qmp(QmpError::CommandFailed { error: "1".into() }), "QMP stop failed: 1");
    assert_eq!(RouteError::AgentDisabled.message(), "guest agent is not enabled for this VM");
    assert_eq!(RouteError::NoCid.message(), "VM has no vsock CID assigned");
    assert!(RouteError::UnresolvedBackend.message().contains("BackendKind::Auto"));
}
