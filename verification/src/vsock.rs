//! Reaching the agent in a guest: the way to it, and what comes back.

use crate::model::{BackendKind, VmRecord, VmRecordView};
use crate::paths::{self, join};
use crate::policy::{self, UnresolvedBackend};
use crate::protocol::{decode_line, AgentRequest, AgentResponse, AgentResponseView, Envelope};
use crate::scan::{self, trim};
use crate::text::{self, chars_of, clone_text, decimal, text_lossy};
use vstd::prelude::*;

verus! {

/// The way to the agent of a machine.
#[derive(Debug)]
pub enum Route {
    /// A vsock connection to the address of the guest.
    Native { cid: u32, port: u32 },
    /// The Unix socket of the machine monitor, which is told the port.
    Proxy { socket: String, port: u32 },
}

pub enum RouteView {
    Native { cid: u32, port: u32 },
    Proxy { socket: Seq<char>, port: u32 },
}

impl View for Route {
    type V = RouteView;

    open spec fn view(&self) -> RouteView {
        match *self {
            Route::Native { cid, port } => RouteView::Native { cid, port },
            Route::Proxy { socket, port } => RouteView::Proxy { socket: socket@, port },
        }
    }
}

/// Why the agent of a machine cannot be reached.
#[derive(Debug, Clone, Copy, PartialEq, Eq, Structural)]
pub enum RouteError {
    AgentDisabled,
    NoCid,
    UnresolvedBackend,
}

impl RouteError {
    pub open spec fn text(self) -> Seq<char> {
        match self {
            RouteError::AgentDisabled => "guest agent is not enabled for this VM"@,
            RouteError::NoCid => "VM has no vsock CID assigned"@,
            RouteError::UnresolvedBackend => policy::unresolved_text(),
        }
    }

    /// The error in words.
    pub fn message(self) -> (r: &'static str)
        ensures
            r@ == self.text(),
    {
        match self {
            RouteError::AgentDisabled => "guest agent is not enabled for this VM",
            RouteError::NoCid => "VM has no vsock CID assigned",
            RouteError::UnresolvedBackend => UnresolvedBackend.message(),
        }
    }
}

/// The way to the agent of a machine, or why there is none.
pub open spec fn route_to(vm: VmRecordView) -> Result<RouteView, RouteError> {
    if !vm.request.agent_enabled() {
        Err(RouteError::AgentDisabled)
    } else if vm.guest_cid is None {
        Err(RouteError::NoCid)
    } else {
        let port = vm.request.agent->0.port;
        match vm.backend {
            BackendKind::Qemu => Ok(RouteView::Native { cid: vm.guest_cid->0, port }),
            BackendKind::Auto => Err(RouteError::UnresolvedBackend),
            _ => Ok(
                RouteView::Proxy { socket: paths::joined(vm.workspace, "vsock.sock"@), port },
            ),
        }
    }
}

/// Where a call to the agent of a machine goes.
pub fn route(vm: &VmRecord) -> (r: Result<Route, RouteError>)
    ensures
        match r {
            Ok(way) => route_to(vm@) == Ok::<RouteView, RouteError>(way@),
            Err(e) => route_to(vm@) == Err::<RouteView, RouteError>(e),
        },
{
    let port: u32 = match &vm.request.agent {
        Some(a) => {
            if !a.enabled {
                return Err(RouteError::AgentDisabled);
            }
            a.port
        },
        None => {
            return Err(RouteError::AgentDisabled);
        },
    };
    match vm.guest_cid {
        None => Err(RouteError::NoCid),
        Some(cid) => match vm.backend {
            BackendKind::Qemu => Ok(Route::Native { cid, port }),
            BackendKind::CloudHypervisor | BackendKind::Firecracker => Ok(
                Route::Proxy { socket: join(vm.workspace.as_str(), "vsock.sock"), port },
            ),
            BackendKind::Auto => Err(RouteError::UnresolvedBackend),
        },
    }
}

/// A request for the agent of a machine, with the secret of that machine.
pub fn call(vm: &VmRecord, request: AgentRequest) -> (r: Envelope)
    ensures
        r.request == request,
        text::opt(r.token) == match vm@.request.agent {
            Some(a) => a.token,
            None => None,
        },
{
    let token = match &vm.request.agent {
        Some(a) => clone_text(&a.token),
        None => None,
    };
    Envelope { token, request }
}

// ----------------------------------------------------------------------- proxy

/// The line that asks the proxy for a port of the guest.
pub fn connect_line(port: u32) -> (r: String)
    ensures
        r@ == "CONNECT "@ + text::dec(port as nat) + "\n"@,
{
    let n = decimal(port as u64);
    text::cat3("CONNECT ", n.as_str(), "\n")
}

/// The proxy has connected: its answer, without white space, begins with `OK`
/// in capital or small letters.
pub open spec fn is_ok(ack: Seq<char>) -> bool {
    let a = scan::trimmed(ack);
    a.len() >= 2 && (a[0] == 'O' || a[0] == 'o') && (a[1] == 'K' || a[1] == 'k')
}

pub fn proxy_connected(ack: &str) -> (r: bool)
    ensures
        r == is_ok(ack@),
{
    let a = trim(ack);
    let v = chars_of(a.as_str());
    v.len() >= 2 && (v[0] == 'O' || v[0] == 'o') && (v[1] == 'K' || v[1] == 'k')
}

/// The JSON text of a response line; `None` if the agent said nothing.
pub fn response_text(line: &str) -> (r: Option<String>)
    ensures
        match r {
            Some(json) => line@.len() > 0 && json@ == scan::trimmed_end(line@),
            None => line@.len() == 0,
        },
{
    let v = chars_of(line);
    if v.len() == 0 {
        None
    } else {
        Some(decode_line(line))
    }
}

// ---------------------------------------------------------------------- native

/// A line that is read byte by byte.
#[derive(Debug)]
pub struct LineReader {
    buf: Vec<u8>,
}

impl LineReader {
    /// The bytes of the line so far.
    pub closed spec fn bytes(&self) -> Seq<u8> {
        self.buf@
    }

    pub fn new() -> (r: Self)
        ensures
            r.bytes().len() == 0,
    {
        LineReader { buf: Vec::new() }
    }

    /// Takes the next byte. Says whether the line is complete: a line feed ends
    /// it and is no part of it.
    pub fn push(&mut self, byte: u8) -> (r: bool)
        ensures
            r == (byte == 10),
            final(self).bytes() == if byte == 10 {
                old(self).bytes()
            } else {
                old(self).bytes().push(byte)
            },
    {
        if byte == 10 {
            return true;
        }
        self.buf.push(byte);
        false
    }

    /// The JSON text of the line; `None` if the agent said nothing.
    pub fn finish(&self) -> (r: Option<String>)
        ensures
            match r {
                Some(json) => self.bytes().len() > 0 && json@ == scan::trimmed_end(
                    text::utf8_lossy(self.bytes()),
                ),
                None => self.bytes().len() == 0,
            },
    {
        if self.buf.len() == 0 {
            return None;
        }
        let line = text_lossy(&self.buf);
        Some(decode_line(line.as_str()))
    }
}

// ------------------------------------------------------------------------ ping

/// Why a ping was not answered as it should be.
#[derive(Debug)]
pub enum PingError {
    /// The agent reported an error.
    Agent { message: String },
    /// The agent answered something else.
    Unexpected,
}

/// Whether a response answers a ping.
pub fn ping(response: AgentResponse) -> (r: Result<(), PingError>)
    ensures
        match response@ {
            AgentResponseView::Pong => r is Ok,
            AgentResponseView::Error { message } => r matches Err(PingError::Agent { message: m })
                && m@ == message,
            _ => r == Err::<(), PingError>(PingError::Unexpected),
        },
{
    match response {
        AgentResponse::Pong => Ok(()),
        AgentResponse::Error { message } => Err(PingError::Agent { message }),
        _ => Err(PingError::Unexpected),
    }
}

// ------------------------------------------------------------------------ laws

/// The agent can be reached if and only if it is enabled, the machine has an
/// address, and its backend is resolved.
pub proof fn reachable_means_enabled_and_addressed(vm: VmRecordView)
    ensures
        route_to(vm) is Ok <==> vm.request.agent_enabled() && vm.guest_cid is Some && vm.backend
            != BackendKind::Auto,
{
}

/// The agent of a machine under QEMU is reached over the address of the guest, and
/// one under another monitor through the socket in its workspace, on the port that
/// the request says.
pub proof fn the_way_leads_to_the_right_guest(vm: VmRecordView)
    requires
        vm.request.agent_enabled(),
        vm.guest_cid is Some,
    ensures
        ({
            let port = vm.request.agent->0.port;
            match vm.backend {
                BackendKind::Qemu => route_to(vm) == Ok::<RouteView, RouteError>(
                    RouteView::Native { cid: vm.guest_cid->0, port },
                ),
                BackendKind::Auto => route_to(vm) == Err::<RouteView, RouteError>(
                    RouteError::UnresolvedBackend,
                ),
                _ => route_to(vm) == Ok::<RouteView, RouteError>(
                    RouteView::Proxy { socket: paths::joined(vm.workspace, "vsock.sock"@), port },
                ),
            }
        }),
{
}

/// Why an agent cannot be reached: it is not enabled, or else the machine has no
/// address.
pub proof fn why_an_agent_cannot_be_reached(vm: VmRecordView)
    ensures
        route_to(vm) == Err::<RouteView, RouteError>(RouteError::AgentDisabled)
            <==> !vm.request.agent_enabled(),
        route_to(vm) == Err::<RouteView, RouteError>(RouteError::NoCid)
            <==> vm.request.agent_enabled() && vm.guest_cid is None,
{
}

/// The proxy has connected if and only if its answer starts, after white space,
/// with `OK` in capital or small letters.
pub proof fn a_proxy_says_ok(ack: Seq<char>)
    ensures
        is_ok(ack) <==> scan::trimmed(ack).len() >= 2 && scan::equal_ignoring_case(
            scan::trimmed(ack).take(2),
            "OK"@,
        ),
{
    reveal_strlit("OK");
    let a = scan::trimmed(ack);
    if a.len() >= 2 {
        let two = a.take(2);
        assert(two[0] == a[0] && two[1] == a[1]);
        assert("OK"@.len() == 2 && "OK"@[0] == 'O' && "OK"@[1] == 'K');
        assert(scan::ascii_lower('O') == 'o');
        assert(scan::ascii_lower('K') == 'k');
        if scan::equal_ignoring_case(two, "OK"@) {
            assert(scan::ascii_lower(two[0]) == scan::ascii_lower("OK"@[0]));
            assert(scan::ascii_lower(two[1]) == scan::ascii_lower("OK"@[1]));
        }
    }
}

/// The view of a way shows it in full.
pub proof fn a_way_is_shown_in_full(w: Route)
    ensures
        match w {
            Route::Native { cid, port } => w@ == (RouteView::Native { cid, port }),
            Route::Proxy { socket, port } => w@ == (RouteView::Proxy { socket: socket@, port }),
        },
{
}

} // verus!
