//! What every backend works with: command lines, the prepared network, and
//! what a launch takes and gives.

use crate::model::{BackendKind, NetworkSpec, NetworkSpecView, VmRecord};
use crate::scan;
use crate::text::{self, clone_texts};
use vstd::prelude::*;

verus! {

// -------------------------------------------------------------- command lines

/// A list of arguments in the making.
pub struct Args {
    items: Vec<String>,
}

impl View for Args {
    type V = Seq<Seq<char>>;

    closed spec fn view(&self) -> Seq<Seq<char>> {
        text::views(self.items@)
    }
}

impl Args {
    pub fn new() -> (r: Self)
        ensures
            r@ == Seq::<Seq<char>>::empty(),
    {
        let r = Args { items: Vec::new() };
        proof {
            assert(r@ =~= Seq::<Seq<char>>::empty());
        }
        r
    }

    /// Adds an argument.
    pub fn put(&mut self, arg: String)
        ensures
            final(self)@ == old(self)@.push(arg@),
    {
        proof {
            text::lemma_views_push(self.items@, arg);
        }
        self.items.push(arg);
    }

    /// Adds an argument that is written out in the program.
    pub fn add(&mut self, arg: &str)
        ensures
            final(self)@ == old(self)@.push(arg@),
    {
        self.put(arg.to_owned());
    }

    /// Adds a flag and its value.
    pub fn flag(&mut self, name: &str, value: String)
        ensures
            final(self)@ == old(self)@ + seq![name@, value@],
    {
        let ghost before = self@;
        self.add(name);
        self.put(value);
        proof {
            assert(self@ =~= before + seq![name@, value@]);
        }
    }

    /// Adds all of `more`.
    pub fn extend(&mut self, more: &Vec<String>)
        ensures
            final(self)@ == old(self)@ + text::views(more@),
    {
        let ghost before = self.items@;
        let mut copy = clone_texts(more);
        let ghost added = copy@;
        self.items.append(&mut copy);
        proof {
            assert(text::views(before + added) =~= text::views(before) + text::views(more@));
        }
    }

    pub fn done(self) -> (r: Vec<String>)
        ensures
            text::views(r@) == self@,
    {
        self.items
    }
}

/// Two arguments.
pub fn args2(a: &str, b: &str) -> (r: Args)
    ensures
        r@ == seq![a@, b@],
{
    let mut r = Args::new();
    r.add(a);
    r.add(b);
    proof {
        assert(r@ =~= seq![a@, b@]);
    }
    r
}

/// Three arguments.
pub fn args3(a: &str, b: &str, c: &str) -> (r: Args)
    ensures
        r@ == seq![a@, b@, c@],
{
    let mut r = Args::new();
    r.add(a);
    r.add(b);
    r.add(c);
    proof {
        assert(r@ =~= seq![a@, b@, c@]);
    }
    r
}

/// Four arguments.
pub fn args4(a: &str, b: &str, c: &str, d: &str) -> (r: Args)
    ensures
        r@ == seq![a@, b@, c@, d@],
{
    let mut r = Args::new();
    r.add(a);
    r.add(b);
    r.add(c);
    r.add(d);
    proof {
        assert(r@ =~= seq![a@, b@, c@, d@]);
    }
    r
}

/// Five arguments.
pub fn args5(a: &str, b: &str, c: &str, d: &str, e: &str) -> (r: Args)
    ensures
        r@ == seq![a@, b@, c@, d@, e@],
{
    let mut r = Args::new();
    r.add(a);
    r.add(b);
    r.add(c);
    r.add(d);
    r.add(e);
    proof {
        assert(r@ =~= seq![a@, b@, c@, d@, e@]);
    }
    r
}

/// Six arguments.
pub fn args6(a: &str, b: &str, c: &str, d: &str, e: &str, f: &str) -> (r: Args)
    ensures
        r@ == seq![a@, b@, c@, d@, e@, f@],
{
    let mut r = Args::new();
    r.add(a);
    r.add(b);
    r.add(c);
    r.add(d);
    r.add(e);
    r.add(f);
    proof {
        assert(r@ =~= seq![a@, b@, c@, d@, e@, f@]);
    }
    r
}

/// Eight arguments.
pub fn args8(a: &str, b: &str, c: &str, d: &str, e: &str, f: &str, g: &str, h: &str) -> (r: Args)
    ensures
        r@ == seq![a@, b@, c@, d@, e@, f@, g@, h@],
{
    let mut r = Args::new();
    r.add(a);
    r.add(b);
    r.add(c);
    r.add(d);
    r.add(e);
    r.add(f);
    r.add(g);
    r.add(h);
    proof {
        assert(r@ =~= seq![a@, b@, c@, d@, e@, f@, g@, h@]);
    }
    r
}

/// A program of the host with its arguments.
#[derive(Debug)]
pub struct HostCommand {
    pub program: String,
    pub args: Vec<String>,
}

#[verifier::ext_equal]
pub struct HostCommandView {
    pub program: Seq<char>,
    pub args: Seq<Seq<char>>,
}

impl View for HostCommand {
    type V = HostCommandView;

    open spec fn view(&self) -> HostCommandView {
        HostCommandView { program: self.program@, args: text::views(self.args@) }
    }
}

pub fn host_command(program: &str, args: Args) -> (r: HostCommand)
    ensures
        r@ == (HostCommandView { program: program@, args: args@ }),
{
    HostCommand { program: program.to_owned(), args: args.done() }
}

/// The command run inside the network namespace `netns`, or as it is without
/// one.
pub open spec fn in_namespace(
    netns: Option<Seq<char>>,
    program: Seq<char>,
    args: Seq<Seq<char>>,
) -> HostCommandView {
    match netns {
        Some(ns) => HostCommandView {
            program: "ip"@,
            args: seq!["netns"@, "exec"@, ns, program] + args,
        },
        None => HostCommandView { program, args },
    }
}

/// Puts `ip netns exec` before a command that is to run in a namespace.
pub fn netns_wrap(netns: &Option<String>, program: &str, args: Vec<String>) -> (r: HostCommand)
    ensures
        r@ == in_namespace(text::opt(*netns), program@, text::views(args@)),
{
    match netns {
        Some(ns) => {
            let mut full = Args::new();
            full.add("netns");
            full.add("exec");
            full.put(ns.clone());
            full.add(program);
            full.extend(&args);
            host_command("ip", full)
        },
        None => HostCommand { program: program.to_owned(), args },
    }
}

/// A path as an argument.
pub fn path_arg(p: &str) -> (r: String)
    ensures
        r@ == p@,
{
    p.to_owned()
}

// -------------------------------------------------------------------- launches

/// A network that is ready for a machine to be attached to.
#[derive(Debug)]
pub struct PreparedNetwork {
    pub spec: NetworkSpec,
    /// The network device to remove when the machine stops.
    pub tap_name: Option<String>,
    /// For a macvtap network: the open descriptor of the device, which the
    /// machine inherits.
    pub macvtap_fd: Option<i32>,
    /// The network namespace that the machine runs in.
    pub netns: Option<String>,
}

#[verifier::ext_equal]
pub struct PreparedNetworkView {
    pub spec: NetworkSpecView,
    pub tap_name: Option<Seq<char>>,
    pub macvtap_fd: Option<i32>,
    pub netns: Option<Seq<char>>,
}

impl View for PreparedNetwork {
    type V = PreparedNetworkView;

    open spec fn view(&self) -> PreparedNetworkView {
        PreparedNetworkView {
            spec: self.spec@,
            tap_name: text::opt(self.tap_name),
            macvtap_fd: self.macvtap_fd,
            netns: text::opt(self.netns),
        }
    }
}

/// What a launch needs to know beside the request.
#[derive(Debug)]
pub struct LaunchContext {
    pub id: u128,
    pub workspace: String,
    pub disk: String,
    pub seed_disk: Option<String>,
    pub log_path: String,
    pub network: PreparedNetwork,
    /// The vsock address of the guest, when the request enables the agent.
    pub guest_cid: Option<u32>,
    /// The Unix socket that stands for the guest's vsock. QEMU has a kernel
    /// device in its place.
    pub vsock_socket: Option<String>,
    pub disk_format: String,
    /// The socket of the `qemu-nbd` export that holds the disk, if one does.
    pub nbd_export: Option<String>,
}

#[verifier::ext_equal]
pub struct LaunchContextView {
    pub id: u128,
    pub workspace: Seq<char>,
    pub disk: Seq<char>,
    pub seed_disk: Option<Seq<char>>,
    pub log_path: Seq<char>,
    pub network: PreparedNetworkView,
    pub guest_cid: Option<u32>,
    pub vsock_socket: Option<Seq<char>>,
    pub disk_format: Seq<char>,
    pub nbd_export: Option<Seq<char>>,
}

impl View for LaunchContext {
    type V = LaunchContextView;

    open spec fn view(&self) -> LaunchContextView {
        LaunchContextView {
            id: self.id,
            workspace: self.workspace@,
            disk: self.disk@,
            seed_disk: text::opt(self.seed_disk),
            log_path: self.log_path@,
            network: self.network@,
            guest_cid: self.guest_cid,
            vsock_socket: text::opt(self.vsock_socket),
            disk_format: self.disk_format@,
            nbd_export: text::opt(self.nbd_export),
        }
    }
}

/// What a launch gives back.
#[derive(Debug)]
pub struct LaunchResult {
    pub pid: u32,
    pub control_socket: Option<String>,
    pub jail_path: Option<String>,
    pub vsock_socket: Option<String>,
    pub virtiofsd_pids: Vec<u32>,
}

/// A launch without anything but a process and a control socket.
pub open spec fn plain_result(r: LaunchResult, pid: u32, control_socket: Seq<char>) -> bool {
    &&& r.pid == pid
    &&& text::opt(r.control_socket) == Some(control_socket)
    &&& r.jail_path is None
    &&& r.vsock_socket is None
    &&& r.virtiofsd_pids@.len() == 0
}

// --------------------------------------------------------------------- control

/// What a running machine can be asked for.
#[derive(Debug, Clone, Copy, PartialEq, Eq, Structural)]
pub enum Control {
    Pause,
    Resume,
    Shutdown,
}

/// A call that asks a machine monitor for something.
#[derive(Debug)]
pub enum ControlCall {
    /// A command over the QMP socket of QEMU.
    Qmp { socket: String, command: String },
    /// A request over the HTTP socket of Firecracker.
    Http { socket: String, method: String, path: String, body: String },
}

pub enum ControlCallView {
    Qmp { socket: Seq<char>, command: Seq<char> },
    Http { socket: Seq<char>, method: Seq<char>, path: Seq<char>, body: Seq<char> },
}

impl View for ControlCall {
    type V = ControlCallView;

    open spec fn view(&self) -> ControlCallView {
        match *self {
            ControlCall::Qmp { socket, command } => ControlCallView::Qmp {
                socket: socket@,
                command: command@,
            },
            ControlCall::Http { socket, method, path, body } => ControlCallView::Http {
                socket: socket@,
                method: method@,
                path: path@,
                body: body@,
            },
        }
    }
}

/// A machine monitor that the control plane can drive.
pub trait VmBackend {
    /// Which monitor this is.
    spec fn monitor(&self) -> BackendKind;

    /// The call that asks for `c` on the machine in `workspace`, if the monitor
    /// has one.
    spec fn call_for(&self, workspace: Seq<char>, c: Control) -> Option<ControlCallView>;

    fn kind(&self) -> (r: BackendKind)
        ensures
            r == self.monitor(),
    ;

    fn pause(&self, vm: &VmRecord) -> (r: Option<ControlCall>)
        ensures
            text::opt(r) == self.call_for(vm@.workspace, Control::Pause),
    ;

    fn resume(&self, vm: &VmRecord) -> (r: Option<ControlCall>)
        ensures
            text::opt(r) == self.call_for(vm@.workspace, Control::Resume),
    ;

    fn graceful_shutdown(&self, vm: &VmRecord) -> (r: Option<ControlCall>)
        ensures
            text::opt(r) == self.call_for(vm@.workspace, Control::Shutdown),
    ;
}

/// Why a request cannot be turned into a launch.
#[derive(Debug, Clone, Copy, PartialEq, Eq, Structural)]
pub enum LaunchError {
    /// A macvtap network has no open device.
    MacvtapNotPrepared,
    /// A TAP network has no device.
    TapNotPrepared,
    /// The backend has no user networking.
    UserNetworkUnsupported,
    /// The backend cannot attach a macvtap device.
    MacvtapUnsupported,
    /// Cloud Hypervisor has neither a kernel nor a firmware to boot.
    NothingToBoot,
    /// Firecracker has no kernel to boot.
    NoKernel,
    /// The agent is enabled and no vsock address was assigned.
    NoGuestCid,
    /// The agent is enabled and no vsock socket was assigned.
    NoVsockSocket,
}

/// A machine monitor as it is called in messages.
pub open spec fn monitor_text(kind: BackendKind) -> Seq<char> {
    match kind {
        BackendKind::CloudHypervisor => "Cloud Hypervisor"@,
        BackendKind::Firecracker => "Firecracker"@,
        _ => "QEMU"@,
    }
}

pub fn monitor_name(kind: BackendKind) -> (r: &'static str)
    ensures
        r@ == monitor_text(kind),
{
    match kind {
        BackendKind::CloudHypervisor => "Cloud Hypervisor",
        BackendKind::Firecracker => "Firecracker",
        _ => "QEMU",
    }
}

impl LaunchError {
    /// The error in words, for a launch under the monitor `kind`.
    pub open spec fn text(self, kind: BackendKind) -> Seq<char> {
        let who = monitor_text(kind);
        match self {
            LaunchError::MacvtapNotPrepared => "macvtap network was not prepared"@,
            LaunchError::TapNotPrepared => "tap network was not prepared"@,
            LaunchError::UserNetworkUnsupported => if kind == BackendKind::CloudHypervisor {
                who + " backend requires network.mode=none or tap in this MVP"@
            } else {
                who + " backend requires network.mode=none or tap"@
            },
            LaunchError::MacvtapUnsupported => who
                + " backend does not support macvtap: its API only accepts a host_dev_name it opens itself via /dev/net/tun, with no fd-passing option for a macvtap character device. Use network.mode=tap with a bridge, or mode=none."@,
            LaunchError::NothingToBoot => who
                + " needs req.kernel for direct boot or firmware/config cloud_hypervisor_firmware"@,
            LaunchError::NoKernel => who
                + " requires a Linux kernel via request.kernel or config.firecracker_kernel"@,
            LaunchError::NoGuestCid => "agent enabled but no vsock CID was assigned"@,
            LaunchError::NoVsockSocket => "agent enabled but no vsock socket path was assigned"@,
        }
    }

    pub fn message(self, kind: BackendKind) -> (r: String)
        ensures
            r@ == self.text(kind),
    {
        let who = monitor_name(kind);
        match self {
            LaunchError::MacvtapNotPrepared => "macvtap network was not prepared".to_owned(),
            LaunchError::TapNotPrepared => "tap network was not prepared".to_owned(),
            LaunchError::UserNetworkUnsupported => if kind == BackendKind::CloudHypervisor {
                text::cat2(who, " backend requires network.mode=none or tap in this MVP")
            } else {
                text::cat2(who, " backend requires network.mode=none or tap")
            },
            LaunchError::MacvtapUnsupported => text::cat2(
                who,
                " backend does not support macvtap: its API only accepts a host_dev_name it opens itself via /dev/net/tun, with no fd-passing option for a macvtap character device. Use network.mode=tap with a bridge, or mode=none.",
            ),
            LaunchError::NothingToBoot => text::cat2(
                who,
                " needs req.kernel for direct boot or firmware/config cloud_hypervisor_firmware",
            ),
            LaunchError::NoKernel => text::cat2(
                who,
                " requires a Linux kernel via request.kernel or config.firecracker_kernel",
            ),
            LaunchError::NoGuestCid => "agent enabled but no vsock CID was assigned".to_owned(),
            LaunchError::NoVsockSocket => {
                "agent enabled but no vsock socket path was assigned".to_owned()
            },
        }
    }
}

// ------------------------------------------------------------------------ laws

/// `name` stands among the arguments, with `value` right behind it.
pub open spec fn has_flag(args: Seq<Seq<char>>, name: Seq<char>, value: Seq<char>) -> bool {
    exists|i: int| 0 <= i < args.len() - 1 && #[trigger] args[i] == name && args[i + 1] == value
}

/// A command for a namespace is run by `ip netns exec` of that namespace, itself
/// and all its arguments unchanged; without a namespace it is run as it is.
pub proof fn a_namespace_leaves_the_command_as_it_is(
    netns: Option<Seq<char>>,
    program: Seq<char>,
    args: Seq<Seq<char>>,
)
    ensures
        ({
            let c = in_namespace(netns, program, args);
            match netns {
                Some(ns) => {
                    &&& c.program == "ip"@
                    &&& c.args.len() == args.len() + 4
                    &&& c.args[0] == "netns"@
                    &&& c.args[1] == "exec"@
                    &&& c.args[2] == ns
                    &&& c.args[3] == program
                    &&& forall|i: int| 0 <= i < args.len() ==> #[trigger] args[i] == c.args[i + 4]
                },
                None => c.program == program && c.args == args,
            }
        }),
{
}

/// The views of a command, a network, a launch and a call show all that they say.
pub proof fn launches_are_shown_in_full(
    c: HostCommand,
    n: PreparedNetwork,
    ctx: LaunchContext,
    call: ControlCall,
)
    ensures
        c@.program == c.program@ && c@.args == text::views(c.args@),
        n@.spec == n.spec@ && n@.tap_name == text::opt(n.tap_name),
        n@.macvtap_fd == n.macvtap_fd && n@.netns == text::opt(n.netns),
        ctx@.id == ctx.id && ctx@.workspace == ctx.workspace@ && ctx@.disk == ctx.disk@,
        ctx@.seed_disk == text::opt(ctx.seed_disk) && ctx@.log_path == ctx.log_path@,
        ctx@.network == ctx.network@ && ctx@.guest_cid == ctx.guest_cid,
        ctx@.vsock_socket == text::opt(ctx.vsock_socket),
        ctx@.disk_format == ctx.disk_format@ && ctx@.nbd_export == text::opt(ctx.nbd_export),
        match call {
            ControlCall::Qmp { socket, command } => call@ == (ControlCallView::Qmp {
                socket: socket@,
                command: command@,
            }),
            ControlCall::Http { socket, method, path, body } => call@ == (ControlCallView::Http {
                socket: socket@,
                method: method@,
                path: path@,
                body: body@,
            }),
        },
{
}

/// What keeps a machine from being launched is told in words that name the
/// monitor.
pub proof fn launch_errors_name_the_monitor(kind: BackendKind)
    requires
        kind != BackendKind::Auto,
    ensures
        ({
            let who = match kind {
                BackendKind::CloudHypervisor => "Cloud Hypervisor"@,
                BackendKind::Firecracker => "Firecracker"@,
                _ => "QEMU"@,
            };
            &&& monitor_text(kind) == who
            &&& scan::starts_with(LaunchError::UserNetworkUnsupported.text(kind), who)
            &&& scan::starts_with(LaunchError::MacvtapUnsupported.text(kind), who)
            &&& scan::starts_with(LaunchError::NothingToBoot.text(kind), who)
            &&& scan::starts_with(LaunchError::NoKernel.text(kind), who)
        }),
        LaunchError::TapNotPrepared.text(kind) == "tap network was not prepared"@,
        LaunchError::MacvtapNotPrepared.text(kind) == "macvtap network was not prepared"@,
        LaunchError::NoGuestCid.text(kind) == "agent enabled but no vsock CID was assigned"@,
        LaunchError::NoVsockSocket.text(kind)
            == "agent enabled but no vsock socket path was assigned"@,
{
    let who = monitor_text(kind);
    let a = LaunchError::UserNetworkUnsupported.text(kind);
    let b = LaunchError::MacvtapUnsupported.text(kind);
    let c = LaunchError::NothingToBoot.text(kind);
    let d = LaunchError::NoKernel.text(kind);
    assert(a.take(who.len() as int) =~= who);
    assert(b.take(who.len() as int) =~= who);
    assert(c.take(who.len() as int) =~= who);
    assert(d.take(who.len() as int) =~= who);
}

} // verus!
