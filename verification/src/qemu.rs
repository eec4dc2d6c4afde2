//! The QEMU/KVM backend: command lines of QEMU and of the `virtiofsd`
//! processes that serve its shared folders.

use crate::backend::{self, netns_wrap, path_arg, Args, Control, ControlCall, ControlCallView,
    HostCommand, HostCommandView, LaunchContext, LaunchContextView, LaunchError, LaunchResult,
    VmBackend};
use crate::config::Config;
use crate::model::{BackendKind, CreateVmRequest, CreateVmRequestView, NetworkSpec,
    NetworkSpecView, PortForward, PortForwardView, SharedFolder, SharedFolderView, VmRecord};
use crate::paths::{self, join};
use crate::text::{self, decimal, decimal_signed};
use vstd::prelude::*;

verus! {

pub struct QemuBackend;

/// The tag of a shared folder and the socket of the `virtiofsd` that serves
/// it.
pub type VirtiofsSocket = (String, String);

/// Tags and sockets as text.
pub open spec fn socket_views(s: Seq<VirtiofsSocket>) -> Seq<(Seq<char>, Seq<char>)> {
    Seq::new(s.len(), |i: int| (s[i].0@, s[i].1@))
}

// ------------------------------------------------------------------ arguments

/// The root disk: an NBD export if there is one, else the file in its format.
pub open spec fn disk_drive(ctx: LaunchContextView) -> Seq<char> {
    match ctx.nbd_export {
        Some(socket) => "file=nbd:unix:"@ + socket + ",if=virtio,format=raw"@,
        None => "file="@ + ctx.disk + ",if=virtio,format="@ + ctx.disk_format
            + ",cache=none,aio=native"@,
    }
}

pub open spec fn machine_args(req: CreateVmRequestView, ctx: LaunchContextView) -> Seq<Seq<char>> {
    seq![
        "-enable-kvm"@,
        "-machine"@,
        "q35,accel=kvm"@,
        "-cpu"@,
        "host"@,
        "-smp"@,
        text::dec(req.vcpus as nat),
        "-m"@,
        text::dec(req.memory_mib as nat),
        "-nodefaults"@,
        "-display"@,
        "none"@,
        "-vnc"@,
        "unix:"@ + paths::joined(ctx.workspace, "vnc.sock"@),
        "-serial"@,
        "stdio"@,
        "-drive"@,
        disk_drive(ctx),
    ]
}

pub open spec fn seed_args(ctx: LaunchContextView) -> Seq<Seq<char>> {
    match ctx.seed_disk {
        Some(seed) => seq!["-drive"@, "file="@ + seed + ",if=virtio,format=raw,readonly=on"@],
        None => Seq::empty(),
    }
}

/// Shared folders need memory that other processes can map.
pub open spec fn shared_memory_args(
    req: CreateVmRequestView,
    sockets: Seq<(Seq<char>, Seq<char>)>,
) -> Seq<Seq<char>> {
    if sockets.len() > 0 {
        seq![
            "-object"@,
            "memory-backend-memfd,id=mem,size="@ + text::dec(req.memory_mib as nat)
                + "M,share=on"@,
            "-numa"@,
            "node,memdev=mem"@,
        ]
    } else {
        Seq::empty()
    }
}

/// The device of one shared folder.
pub open spec fn share_args(i: nat, tag: Seq<char>, socket: Seq<char>) -> Seq<Seq<char>> {
    seq![
        "-chardev"@,
        "socket,id=vfsock"@ + text::dec(i) + ",path="@ + socket,
        "-device"@,
        "vhost-user-fs-pci,queue-size=1024,chardev=vfsock"@ + text::dec(i) + ",tag="@ + tag,
    ]
}

/// One device per shared folder, in order.
pub open spec fn shares_args(sockets: Seq<(Seq<char>, Seq<char>)>) -> Seq<Seq<char>>
    decreases sockets.len(),
{
    if sockets.len() == 0 {
        Seq::empty()
    } else {
        shares_args(sockets.drop_last()) + share_args(
            (sockets.len() - 1) as nat,
            sockets.last().0,
            sockets.last().1,
        )
    }
}

/// A host port forwarded on all interfaces.
pub open spec fn forward_text(f: PortForwardView) -> Seq<char> {
    ",hostfwd="@ + f.protocol + ":0.0.0.0:"@ + text::dec(f.host_port as nat) + "-:"@ + text::dec(
        f.guest_port as nat,
    )
}

pub open spec fn user_netdev(forwards: Seq<PortForwardView>) -> Seq<char>
    decreases forwards.len(),
{
    if forwards.len() == 0 {
        "user,id=net0"@
    } else {
        user_netdev(forwards.drop_last()) + forward_text(forwards.last())
    }
}

pub open spec fn net_device(mac: Option<Seq<char>>) -> Seq<char> {
    match mac {
        Some(m) => "virtio-net-pci,netdev=net0,mac="@ + m,
        None => "virtio-net-pci,netdev=net0"@,
    }
}

/// The network devices; `None` for a macvtap network without an open device.
pub open spec fn network_args(ctx: LaunchContextView) -> Option<Seq<Seq<char>>> {
    match ctx.network.spec {
        NetworkSpecView::Unconnected => Some(Seq::empty()),
        NetworkSpecView::User { forwards } => Some(
            seq!["-netdev"@, user_netdev(forwards), "-device"@, "virtio-net-pci,netdev=net0"@],
        ),
        NetworkSpecView::Tap { tap_name, bridge: _, mac } => Some(
            match tap_name {
                Some(tap) => seq![
                    "-netdev"@,
                    "tap,id=net0,ifname="@ + tap + ",script=no,downscript=no"@,
                    "-device"@,
                    net_device(mac),
                ],
                None => Seq::empty(),
            },
        ),
        NetworkSpecView::Macvtap { parent: _, macvtap_mode: _, mac } => match ctx.network.macvtap_fd {
            Some(fd) => Some(
                seq![
                    "-netdev"@,
                    "tap,id=net0,fd="@ + text::dec_signed(fd as int),
                    "-device"@,
                    net_device(mac),
                ],
            ),
            None => None,
        },
    }
}

pub open spec fn vsock_args(req: CreateVmRequestView, ctx: LaunchContextView) -> Seq<Seq<char>> {
    if req.agent_enabled() && ctx.guest_cid is Some {
        seq!["-device"@, "vhost-vsock-pci,guest-cid="@ + text::dec(ctx.guest_cid->0 as nat)]
    } else {
        Seq::empty()
    }
}

/// A flag with its value, if there is one.
pub open spec fn optional(name: Seq<char>, value: Option<Seq<char>>) -> Seq<Seq<char>> {
    match value {
        Some(v) => seq![name, v],
        None => Seq::empty(),
    }
}

pub open spec fn kernel_args(req: CreateVmRequestView) -> Seq<Seq<char>> {
    match req.kernel {
        Some(kernel) => seq!["-kernel"@, kernel] + optional("-initrd"@, req.initrd) + optional(
            "-append"@,
            req.kernel_args,
        ),
        None => Seq::empty(),
    }
}

pub open spec fn qmp_args(ctx: LaunchContextView) -> Seq<Seq<char>> {
    seq!["-qmp"@, "unix:"@ + paths::joined(ctx.workspace, "qmp.sock"@) + ",server=on,wait=off"@]
}

/// The whole command line of QEMU, the extra arguments of the request last.
pub open spec fn qemu_args(
    req: CreateVmRequestView,
    ctx: LaunchContextView,
    sockets: Seq<(Seq<char>, Seq<char>)>,
) -> Option<Seq<Seq<char>>> {
    match network_args(ctx) {
        Some(network) => Some(
            machine_args(req, ctx) + seed_args(ctx) + shared_memory_args(req, sockets)
                + shares_args(sockets) + network + vsock_args(req, ctx) + kernel_args(req)
                + qmp_args(ctx) + req.extra_args,
        ),
        None => None,
    }
}

fn put_machine(a: &mut Args, req: &CreateVmRequest, ctx: &LaunchContext)
    requires
        old(a)@ == Seq::<Seq<char>>::empty(),
    ensures
        final(a)@ == machine_args(req@, ctx@),
{
    let drive = match &ctx.nbd_export {
        Some(socket) => text::cat3("file=nbd:unix:", socket.as_str(), ",if=virtio,format=raw"),
        None => {
            let disk = path_arg(ctx.disk.as_str());
            text::cat5(
                "file=",
                disk.as_str(),
                ",if=virtio,format=",
                ctx.disk_format.as_str(),
                ",cache=none,aio=native",
            )
        },
    };
    a.add("-enable-kvm");
    a.add("-machine");
    a.add("q35,accel=kvm");
    a.add("-cpu");
    a.add("host");
    a.add("-smp");
    a.put(decimal(req.vcpus as u64));
    a.add("-m");
    a.put(decimal(req.memory_mib));
    a.add("-nodefaults");
    a.add("-display");
    a.add("none");
    a.add("-vnc");
    let vnc = join(ctx.workspace.as_str(), "vnc.sock");
    a.put(text::cat2("unix:", vnc.as_str()));
    a.add("-serial");
    a.add("stdio");
    a.add("-drive");
    a.put(drive);
}

fn put_shares(a: &mut Args, sockets: &Vec<VirtiofsSocket>)
    ensures
        final(a)@ == old(a)@ + shares_args(socket_views(sockets@)),
{
    let ghost before = a@;
    let ghost all = socket_views(sockets@);
    let mut i: usize = 0;
    proof {
        assert(all.take(0) =~= Seq::<(Seq<char>, Seq<char>)>::empty());
        assert(before + Seq::<Seq<char>>::empty() =~= before);
    }
    while i < sockets.len()
        invariant
            i <= sockets@.len(),
            all == socket_views(sockets@),
            a@ == before + shares_args(all.take(i as int)),
        decreases sockets@.len() - i,
    {
        let ghost so_far = a@;
        let n = decimal(i as u64);
        let tag = &sockets[i].0;
        let socket = path_arg(sockets[i].1.as_str());
        a.flag(
            "-chardev",
            text::cat4("socket,id=vfsock", n.as_str(), ",path=", socket.as_str()),
        );
        a.flag(
            "-device",
            text::cat4(
                "vhost-user-fs-pci,queue-size=1024,chardev=vfsock",
                n.as_str(),
                ",tag=",
                tag.as_str(),
            ),
        );
        proof {
            let next = all.take(i + 1);
            assert(next.drop_last() =~= all.take(i as int));
            assert(next.last() == all[i as int]);
            assert(a@ =~= so_far + share_args(i as nat, all[i as int].0, all[i as int].1));
            assert(a@ =~= before + shares_args(next));
        }
        i += 1;
    }
    proof {
        assert(all.take(i as int) =~= all);
    }
}

fn netdev_with_forwards(forwards: &Vec<PortForward>) -> (r: String)
    ensures
        r@ == user_netdev(text::views(forwards@)),
{
    let ghost all = text::views(forwards@);
    let mut netdev = "user,id=net0".to_owned();
    let mut i: usize = 0;
    proof {
        assert(all.take(0) =~= Seq::<PortForwardView>::empty());
    }
    while i < forwards.len()
        invariant
            i <= forwards@.len(),
            all == text::views(forwards@),
            netdev@ == user_netdev(all.take(i as int)),
        decreases forwards@.len() - i,
    {
        let f = &forwards[i];
        let host = decimal(f.host_port as u64);
        let guest = decimal(f.guest_port as u64);
        let mut one = text::cat5(
            ",hostfwd=",
            f.protocol.as_str(),
            ":0.0.0.0:",
            host.as_str(),
            "-:",
        );
        one.append(guest.as_str());
        netdev.append(one.as_str());
        proof {
            assert(all.take(i + 1).drop_last() =~= all.take(i as int));
            assert(all.take(i + 1).last() == f@);
        }
        i += 1;
    }
    proof {
        assert(all.take(i as int) =~= all);
    }
    netdev
}

fn device_with_mac(mac: &Option<String>) -> (r: String)
    ensures
        r@ == net_device(text::opt(*mac)),
{
    match mac {
        Some(m) => text::cat2("virtio-net-pci,netdev=net0,mac=", m.as_str()),
        None => "virtio-net-pci,netdev=net0".to_owned(),
    }
}

fn put_network(a: &mut Args, ctx: &LaunchContext) -> (r: Result<(), LaunchError>)
    ensures
        match r {
            Ok(_) => network_args(ctx@) is Some && final(a)@ == old(a)@ + network_args(ctx@)->0,
            Err(e) => network_args(ctx@) is None && e == LaunchError::MacvtapNotPrepared,
        },
{
    let ghost before = a@;
    match &ctx.network.spec {
        NetworkSpec::Unconnected => {},
        NetworkSpec::User { forwards } => {
            a.flag("-netdev", netdev_with_forwards(forwards));
            a.flag("-device", "virtio-net-pci,netdev=net0".to_owned());
        },
        NetworkSpec::Tap { tap_name, bridge: _, mac } => {
            if let Some(tap) = tap_name {
                a.flag(
                    "-netdev",
                    text::cat3("tap,id=net0,ifname=", tap.as_str(), ",script=no,downscript=no"),
                );
                a.flag("-device", device_with_mac(mac));
            }
        },
        NetworkSpec::Macvtap { parent: _, macvtap_mode: _, mac } => {
            match ctx.network.macvtap_fd {
                Some(fd) => {
                    let n = decimal_signed(fd);
                    a.flag("-netdev", text::cat2("tap,id=net0,fd=", n.as_str()));
                    a.flag("-device", device_with_mac(mac));
                },
                None => {
                    return Err(LaunchError::MacvtapNotPrepared);
                },
            }
        },
    }
    proof {
        assert(a@ =~= before + network_args(ctx@)->0);
    }
    Ok(())
}

fn put_kernel(a: &mut Args, req: &CreateVmRequest)
    ensures
        final(a)@ == old(a)@ + kernel_args(req@),
{
    let ghost before = a@;
    if let Some(kernel) = &req.kernel {
        a.flag("-kernel", path_arg(kernel.as_str()));
        if let Some(initrd) = &req.initrd {
            a.flag("-initrd", path_arg(initrd.as_str()));
        }
        if let Some(kargs) = &req.kernel_args {
            a.flag("-append", kargs.clone());
        }
    }
    proof {
        assert(a@ =~= before + kernel_args(req@));
    }
}

/// The command line of QEMU for a request.
pub fn build_args(
    req: &CreateVmRequest,
    ctx: &LaunchContext,
    virtiofs_sockets: &Vec<VirtiofsSocket>,
) -> (r: Result<Vec<String>, LaunchError>)
    ensures
        match r {
            Ok(args) => qemu_args(req@, ctx@, socket_views(virtiofs_sockets@)) == Some(
                text::views(args@),
            ),
            Err(e) => qemu_args(req@, ctx@, socket_views(virtiofs_sockets@)) is None && e
                == LaunchError::MacvtapNotPrepared,
        },
{
    let ghost sockets = socket_views(virtiofs_sockets@);
    let mut a = Args::new();
    put_machine(&mut a, req, ctx);
    if let Some(seed) = &ctx.seed_disk {
        a.flag(
            "-drive",
            text::cat3("file=", seed.as_str(), ",if=virtio,format=raw,readonly=on"),
        );
    }
    proof {
        assert(a@ =~= machine_args(req@, ctx@) + seed_args(ctx@));
    }
    let ghost s1 = a@;
    if virtiofs_sockets.len() > 0 {
        let n = decimal(req.memory_mib);
        a.flag(
            "-object",
            text::cat3("memory-backend-memfd,id=mem,size=", n.as_str(), "M,share=on"),
        );
        a.flag("-numa", "node,memdev=mem".to_owned());
    }
    proof {
        assert(a@ =~= s1 + shared_memory_args(req@, sockets));
    }
    put_shares(&mut a, virtiofs_sockets);
    put_network(&mut a, ctx)?;
    let ghost s2 = a@;
    if req.agent_enabled() {
        if let Some(cid) = ctx.guest_cid {
            let n = decimal(cid as u64);
            a.flag("-device", text::cat2("vhost-vsock-pci,guest-cid=", n.as_str()));
        }
    }
    proof {
        assert(a@ =~= s2 + vsock_args(req@, ctx@));
    }
    put_kernel(&mut a, req);
    let qmp = join(ctx.workspace.as_str(), "qmp.sock");
    a.flag("-qmp", text::cat3("unix:", qmp.as_str(), ",server=on,wait=off"));
    a.extend(&req.extra_args);
    Ok(a.done())
}

// ------------------------------------------------------------------- launching

/// The command that starts QEMU, inside the network namespace of the machine
/// if it has one.
pub fn launch_command(
    cfg: &Config,
    req: &CreateVmRequest,
    ctx: &LaunchContext,
    virtiofs_sockets: &Vec<VirtiofsSocket>,
) -> (r: Result<HostCommand, LaunchError>)
    ensures
        match r {
            Ok(c) => qemu_args(req@, ctx@, socket_views(virtiofs_sockets@)) is Some && c@
                == backend::in_namespace(
                ctx@.network.netns,
                cfg.qemu_binary@,
                qemu_args(req@, ctx@, socket_views(virtiofs_sockets@))->0,
            ),
            Err(e) => qemu_args(req@, ctx@, socket_views(virtiofs_sockets@)) is None && e
                == LaunchError::MacvtapNotPrepared,
        },
{
    let args = build_args(req, ctx, virtiofs_sockets)?;
    Ok(netns_wrap(&ctx.network.netns, cfg.qemu_binary.as_str(), args))
}

/// How the start of a process ended.
#[derive(Debug, Clone, Copy, PartialEq, Eq, Structural)]
pub enum Spawned {
    /// It runs under this process id.
    Running(u32),
    /// It could not be started.
    NotStarted,
    /// It was gone before its process id could be read.
    Gone,
}

/// What a launch gives back by how the start of QEMU ended. If it failed, the
/// `virtiofsd` processes that were started for it have to be killed.
pub fn launched(ctx: &LaunchContext, spawned: Spawned, virtiofsd_pids: Vec<u32>) -> (r: Result<
    LaunchResult,
    Vec<u32>,
>)
    ensures
        match spawned {
            Spawned::Running(pid) => {
                &&& r matches Ok(result)
                &&& result.pid == pid
                &&& text::opt(result.control_socket) == Some(
                    paths::joined(ctx@.workspace, "qmp.sock"@),
                )
                &&& result.jail_path is None
                &&& result.vsock_socket is None
                &&& result.virtiofsd_pids == virtiofsd_pids
            },
            _ => r == Err::<LaunchResult, Vec<u32>>(virtiofsd_pids),
        },
{
    match spawned {
        Spawned::Running(pid) => Ok(
            LaunchResult {
                pid,
                control_socket: Some(join(ctx.workspace.as_str(), "qmp.sock")),
                jail_path: None,
                vsock_socket: None,
                virtiofsd_pids,
            },
        ),
        _ => Err(virtiofsd_pids),
    }
}

// --------------------------------------------------------------------- control

pub open spec fn qmp_command(c: Control) -> Seq<char> {
    match c {
        Control::Pause => "stop"@,
        Control::Resume => "cont"@,
        Control::Shutdown => "system_powerdown"@,
    }
}

fn qmp_call(vm: &VmRecord, command: &str) -> (r: Option<ControlCall>)
    ensures
        text::opt(r) == Some(
            ControlCallView::Qmp {
                socket: paths::joined(vm@.workspace, "qmp.sock"@),
                command: command@,
            },
        ),
{
    Some(
        ControlCall::Qmp {
            socket: join(vm.workspace.as_str(), "qmp.sock"),
            command: command.to_owned(),
        },
    )
}

impl VmBackend for QemuBackend {
    open spec fn monitor(&self) -> BackendKind {
        BackendKind::Qemu
    }

    open spec fn call_for(&self, workspace: Seq<char>, c: Control) -> Option<ControlCallView> {
        Some(
            ControlCallView::Qmp {
                socket: paths::joined(workspace, "qmp.sock"@),
                command: qmp_command(c),
            },
        )
    }

    fn kind(&self) -> (r: BackendKind) {
        BackendKind::Qemu
    }

    fn pause(&self, vm: &VmRecord) -> (r: Option<ControlCall>) {
        qmp_call(vm, "stop")
    }

    fn resume(&self, vm: &VmRecord) -> (r: Option<ControlCall>) {
        qmp_call(vm, "cont")
    }

    fn graceful_shutdown(&self, vm: &VmRecord) -> (r: Option<ControlCall>) {
        qmp_call(vm, "system_powerdown")
    }
}

// ------------------------------------------------------------------- virtiofsd

/// What starts the `virtiofsd` of one shared folder.
#[derive(Debug)]
pub struct VirtiofsdLaunch {
    pub command: HostCommand,
    pub log: String,
    pub tag: String,
    pub socket: String,
}

pub open spec fn share_tag(i: nat) -> Seq<char> {
    "fs"@ + text::dec(i)
}

pub open spec fn share_socket(workspace: Seq<char>, i: nat) -> Seq<char> {
    paths::joined(workspace, "virtiofs-"@ + text::dec(i) + ".sock"@)
}

pub open spec fn virtiofsd_args(
    workspace: Seq<char>,
    share: SharedFolderView,
    i: nat,
) -> Seq<Seq<char>> {
    let always = seq![
        "--socket-path"@,
        share_socket(workspace, i),
        "--shared-dir"@,
        share.host_path,
    ];
    if share.read_only {
        always.push("--readonly"@)
    } else {
        always
    }
}

/// How to start the `virtiofsd` of the `i`-th shared folder.
pub fn virtiofsd_launch(cfg: &Config, workspace: &str, share: &SharedFolder, i: usize) -> (r:
    VirtiofsdLaunch)
    ensures
        r.command@ == (HostCommandView {
            program: cfg.virtiofsd_binary@,
            args: virtiofsd_args(workspace@, share@, i as nat),
        }),
        r.tag@ == share_tag(i as nat),
        r.socket@ == share_socket(workspace@, i as nat),
        r.log@ == paths::joined(workspace@, "virtiofsd-"@ + text::dec(i as nat) + ".log"@),
{
    let n = decimal(i as u64);
    let socket_name = text::cat3("virtiofs-", n.as_str(), ".sock");
    let log_name = text::cat3("virtiofsd-", n.as_str(), ".log");
    let socket = join(workspace, socket_name.as_str());
    let mut a = Args::new();
    a.add("--socket-path");
    a.put(path_arg(socket.as_str()));
    a.add("--shared-dir");
    a.put(path_arg(share.host_path.as_str()));
    if share.read_only {
        a.add("--readonly");
    }
    VirtiofsdLaunch {
        command: backend::host_command(cfg.virtiofsd_binary.as_str(), a),
        log: join(workspace, log_name.as_str()),
        tag: text::cat2("fs", n.as_str()),
        socket,
    }
}

/// The `virtiofsd` processes of one launch that run so far.
pub struct VirtiofsdSet {
    pub pids: Vec<u32>,
    pub sockets: Vec<VirtiofsSocket>,
}

impl VirtiofsdSet {
    /// Every process that runs serves the folder with its own index.
    pub open spec fn wf(&self, workspace: Seq<char>) -> bool {
        &&& self.pids@.len() == self.sockets@.len()
        &&& forall|i: int|
            0 <= i < self.sockets@.len() ==> (#[trigger] socket_views(self.sockets@)[i]) == (
                share_tag(i as nat),
                share_socket(workspace, i as nat),
            )
    }

    pub fn new() -> (r: Self)
        ensures
            r.pids@.len() == 0,
            r.sockets@.len() == 0,
            forall|workspace: Seq<char>| #[trigger] r.wf(workspace),
    {
        VirtiofsdSet { pids: Vec::new(), sockets: Vec::new() }
    }

    /// Takes in how the next `virtiofsd` started. A start that failed gives
    /// back the processes that have to be killed: all that run.
    pub fn started(self, launch: VirtiofsdLaunch, spawned: Spawned) -> (r: Result<
        VirtiofsdSet,
        Vec<u32>,
    >)
        ensures
            match spawned {
                Spawned::Running(pid) => r matches Ok(set) && set.pids@ == self.pids@.push(pid)
                    && set.sockets@ == self.sockets@.push((launch.tag, launch.socket)),
                _ => r == Err::<VirtiofsdSet, Vec<u32>>(self.pids),
            },
            forall|workspace: Seq<char>|
                #[trigger] self.wf(workspace) && launch.tag@ == share_tag(self.pids@.len())
                    && launch.socket@ == share_socket(workspace, self.pids@.len()) && r is Ok ==> r->Ok_0.wf(
                    workspace,
                ),
    {
        match spawned {
            Spawned::Running(pid) => {
                let ghost before = self.sockets@;
                let mut pids = self.pids;
                let mut sockets = self.sockets;
                pids.push(pid);
                sockets.push((launch.tag, launch.socket));
                proof {
                    assert forall|i: int| 0 <= i < before.len() implies (
                    #[trigger] socket_views(sockets@)[i]) == socket_views(before)[i] by {}
                }
                Ok(VirtiofsdSet { pids, sockets })
            },
            _ => Err(self.pids),
        }
    }
}

// ------------------------------------------------------------------------ laws

/// Without shared folders there is no argument for shared memory and none for a
/// virtiofs device.
pub proof fn no_shares_no_virtiofs(req: CreateVmRequestView, ctx: LaunchContextView)
    ensures
        shared_memory_args(req, Seq::empty()) == Seq::<Seq<char>>::empty(),
        shares_args(Seq::empty()) == Seq::<Seq<char>>::empty(),
{
}

/// There are four arguments for each shared folder, so one device per folder.
pub proof fn one_device_per_share(sockets: Seq<(Seq<char>, Seq<char>)>)
    ensures
        shares_args(sockets).len() == 4 * sockets.len(),
        forall|i: int|
            0 <= i < sockets.len() ==> shares_args(sockets).subrange(4 * i, 4 * i + 4)
                == #[trigger] share_args(i as nat, sockets[i].0, sockets[i].1),
    decreases sockets.len(),
{
    if sockets.len() > 0 {
        one_device_per_share(sockets.drop_last());
        let high = shares_args(sockets.drop_last());
        let n = (sockets.len() - 1) as nat;
        assert forall|i: int| 0 <= i < sockets.len() implies shares_args(sockets).subrange(
            4 * i,
            4 * i + 4,
        ) == #[trigger] share_args(i as nat, sockets[i].0, sockets[i].1) by {
            if i < n {
                assert(sockets.drop_last()[i] == sockets[i]);
                assert(shares_args(sockets).subrange(4 * i, 4 * i + 4) =~= high.subrange(
                    4 * i,
                    4 * i + 4,
                ));
                assert(share_args(i as nat, sockets.drop_last()[i].0, sockets.drop_last()[i].1)
                    == share_args(i as nat, sockets[i].0, sockets[i].1));
            } else {
                assert(shares_args(sockets).subrange(4 * i, 4 * i + 4) =~= share_args(
                    n,
                    sockets.last().0,
                    sockets.last().1,
                ));
            }
        }
    }
}

/// The extra arguments of a request end the command line, so they can override
/// what stands before them.
pub proof fn extra_args_come_last(
    req: CreateVmRequestView,
    ctx: LaunchContextView,
    sockets: Seq<(Seq<char>, Seq<char>)>,
)
    requires
        qemu_args(req, ctx, sockets) is Some,
    ensures
        ({
            let args = qemu_args(req, ctx, sockets)->0;
            let n = req.extra_args.len();
            n <= args.len() && args.skip(args.len() - n) == req.extra_args
        }),
{
    let args = qemu_args(req, ctx, sockets)->0;
    assert(args.skip(args.len() - req.extra_args.len()) =~= req.extra_args);
}

/// How many arguments come before the extra ones of the request: twenty that are
/// always there, and those for a seed disk, for shared folders, for the network,
/// for the agent and for a kernel.
pub open spec fn own_count(
    req: CreateVmRequestView,
    ctx: LaunchContextView,
    sockets: Seq<(Seq<char>, Seq<char>)>,
) -> int {
    let seed: int = if ctx.seed_disk is Some {
        2
    } else {
        0
    };
    let shares: int = if sockets.len() > 0 {
        (4 + 4 * sockets.len()) as int
    } else {
        0
    };
    let network: int = match ctx.network.spec {
        NetworkSpecView::Unconnected => 0,
        NetworkSpecView::Tap { tap_name: None, .. } => 0,
        _ => 4,
    };
    let agent: int = if req.agent_enabled() && ctx.guest_cid is Some {
        2
    } else {
        0
    };
    let kernel: int = if req.kernel is None {
        0
    } else {
        2 + (if req.initrd is Some {
            2int
        } else {
            0int
        }) + (if req.kernel_args is Some {
            2int
        } else {
            0int
        })
    };
    18 + seed + shares + network + agent + kernel + 2
}

proof fn lemma_parts(
    req: CreateVmRequestView,
    ctx: LaunchContextView,
    sockets: Seq<(Seq<char>, Seq<char>)>,
)
    requires
        qemu_args(req, ctx, sockets) is Some,
    ensures
        ({
            let args = qemu_args(req, ctx, sockets)->0;
            let a = machine_args(req, ctx);
            let b = seed_args(ctx);
            let c = shared_memory_args(req, sockets);
            let d = shares_args(sockets);
            let e = network_args(ctx)->0;
            let f = vsock_args(req, ctx);
            let g = kernel_args(req);
            let h = qmp_args(ctx);
            let n = own_count(req, ctx, sockets);
            &&& args == a + b + c + d + e + f + g + h + req.extra_args
            &&& a.len() == 18
            &&& h.len() == 2
            &&& d.len() == 4 * sockets.len()
            &&& a.len() + b.len() + c.len() + d.len() + e.len() + f.len() + g.len() + h.len() == n
            &&& args.len() == n + req.extra_args.len()
            &&& args.skip(n) == req.extra_args
        }),
{
    one_device_per_share(sockets);
    let args = qemu_args(req, ctx, sockets)->0;
    assert(args.skip(own_count(req, ctx, sockets)) =~= req.extra_args);
}

/// QEMU runs with the processors, the memory and the disk of the machine under
/// KVM, and with no default device; its control socket lies in the workspace. Its
/// root disk is the NBD export of the instance, if there is one, and else the file
/// in its format; the seed disk, if there is one, can only be read. The extra
/// arguments of the request follow unchanged.
#[verifier::spinoff_prover]
#[verifier::rlimit(50)]
pub proof fn the_machine_is_as_asked_for(
    req: CreateVmRequestView,
    ctx: LaunchContextView,
    sockets: Seq<(Seq<char>, Seq<char>)>,
)
    requires
        qemu_args(req, ctx, sockets) is Some,
    ensures
        ({
            let args = qemu_args(req, ctx, sockets)->0;
            let n = own_count(req, ctx, sockets);
            let own = args.take(n);
            &&& args.len() == n + req.extra_args.len()
            &&& ctx.seed_disk is None && sockets.len() == 0 && ctx.network.spec is Unconnected
                && !req.agent_enabled() && req.kernel is None ==> n == 20
            &&& args.skip(n) == req.extra_args
            &&& own[0] == "-enable-kvm"@
            &&& backend::has_flag(own, "-machine"@, "q35,accel=kvm"@)
            &&& backend::has_flag(own, "-cpu"@, "host"@)
            &&& backend::has_flag(own, "-smp"@, text::dec(req.vcpus as nat))
            &&& backend::has_flag(own, "-m"@, text::dec(req.memory_mib as nat))
            &&& own.contains("-nodefaults"@)
            &&& backend::has_flag(own, "-display"@, "none"@)
            &&& backend::has_flag(
                own,
                "-vnc"@,
                "unix:"@ + paths::joined(ctx.workspace, "vnc.sock"@),
            )
            &&& backend::has_flag(own, "-serial"@, "stdio"@)
            &&& ctx.nbd_export matches Some(socket) ==> backend::has_flag(
                own,
                "-drive"@,
                "file=nbd:unix:"@ + socket + ",if=virtio,format=raw"@,
            )
            &&& ctx.nbd_export is None ==> backend::has_flag(
                own,
                "-drive"@,
                "file="@ + ctx.disk + ",if=virtio,format="@ + ctx.disk_format
                    + ",cache=none,aio=native"@,
            )
            &&& ctx.seed_disk matches Some(seed) ==> backend::has_flag(
                own,
                "-drive"@,
                "file="@ + seed + ",if=virtio,format=raw,readonly=on"@,
            )
            &&& backend::has_flag(
                own,
                "-qmp"@,
                "unix:"@ + paths::joined(ctx.workspace, "qmp.sock"@) + ",server=on,wait=off"@,
            )
        }),
{
    let args = qemu_args(req, ctx, sockets)->0;
    let n = own_count(req, ctx, sockets);
    let own = args.take(n);
    lemma_parts(req, ctx, sockets);
    let a = machine_args(req, ctx);
    assert forall|i: int| 0 <= i < 18 implies #[trigger] own[i] == a[i] by {}
    assert(own[1] == "-machine"@ && own[2] == "q35,accel=kvm"@);
    assert(own[3] == "-cpu"@ && own[4] == "host"@);
    assert(own[5] == "-smp"@ && own[6] == text::dec(req.vcpus as nat));
    assert(own[7] == "-m"@ && own[8] == text::dec(req.memory_mib as nat));
    assert(own[9] == "-nodefaults"@);
    assert(own[10] == "-display"@ && own[11] == "none"@);
    assert(own[12] == "-vnc"@ && own[13] == "unix:"@ + paths::joined(ctx.workspace, "vnc.sock"@));
    assert(own[14] == "-serial"@ && own[15] == "stdio"@);
    assert(own[16] == "-drive"@ && own[17] == disk_drive(ctx));
    if ctx.seed_disk is Some {
        assert(own[18] == "-drive"@ && own[19] == "file="@ + ctx.seed_disk->0
            + ",if=virtio,format=raw,readonly=on"@);
    }
    assert(own[n - 2] == qmp_args(ctx)[0]);
    assert(own[n - 1] == qmp_args(ctx)[1]);
}

/// A machine with shared folders has memory that other processes can map, as much
/// as the request says, and for each folder a device with its tag behind the
/// socket of the process that serves it.
#[verifier::spinoff_prover]
#[verifier::rlimit(50)]
pub proof fn every_share_has_its_device(
    req: CreateVmRequestView,
    ctx: LaunchContextView,
    sockets: Seq<(Seq<char>, Seq<char>)>,
    i: int,
)
    requires
        qemu_args(req, ctx, sockets) is Some,
        0 <= i < sockets.len(),
    ensures
        ({
            let own = qemu_args(req, ctx, sockets)->0.take(own_count(req, ctx, sockets));
            &&& backend::has_flag(
                own,
                "-object"@,
                "memory-backend-memfd,id=mem,size="@ + text::dec(req.memory_mib as nat)
                    + "M,share=on"@,
            )
            &&& backend::has_flag(own, "-numa"@, "node,memdev=mem"@)
            &&& backend::has_flag(
                own,
                "-chardev"@,
                "socket,id=vfsock"@ + text::dec(i as nat) + ",path="@ + sockets[i].1,
            )
            &&& backend::has_flag(
                own,
                "-device"@,
                "vhost-user-fs-pci,queue-size=1024,chardev=vfsock"@ + text::dec(i as nat) + ",tag="@
                    + sockets[i].0,
            )
        }),
{
    let own = qemu_args(req, ctx, sockets)->0.take(own_count(req, ctx, sockets));
    lemma_parts(req, ctx, sockets);
    one_device_per_share(sockets);
    let k: int = (18 + seed_args(ctx).len()) as int;
    let c = shared_memory_args(req, sockets);
    assert(c.len() == 4);
    assert(own[k + 0] == c[0] && own[k + 1] == c[1]);
    assert(own[k + 2] == c[2] && own[k + 3] == c[3]);
    let d = shares_args(sockets);
    let one = share_args(i as nat, sockets[i].0, sockets[i].1);
    let part = d.subrange(4 * i, 4 * i + 4);
    assert(part == one);
    let at: int = k + 4 + 4 * i;
    assert(own[at] == d[4 * i] && d[4 * i] == part[0]);
    assert(own[at + 1] == d[4 * i + 1] && d[4 * i + 1] == part[1]);
    assert(own[at + 2] == d[4 * i + 2] && d[4 * i + 2] == part[2]);
    assert(own[at + 3] == d[4 * i + 3] && d[4 * i + 3] == part[3]);
}

/// A machine is attached to its network: to the device that was made for it, to
/// the open descriptor, or to the user network with every forward; its card has
/// the address of the request, if that names one. A TAP network whose device has
/// no name, and no network, give no card.
#[verifier::spinoff_prover]
#[verifier::rlimit(50)]
pub proof fn it_is_attached_to_its_network(
    req: CreateVmRequestView,
    ctx: LaunchContextView,
    sockets: Seq<(Seq<char>, Seq<char>)>,
)
    requires
        qemu_args(req, ctx, sockets) is Some,
    ensures
        ({
            let own = qemu_args(req, ctx, sockets)->0.take(own_count(req, ctx, sockets));
            match ctx.network.spec {
                NetworkSpecView::Unconnected => true,
                NetworkSpecView::User { forwards } => backend::has_flag(
                    own,
                    "-netdev"@,
                    user_netdev(forwards),
                ) && backend::has_flag(own, "-device"@, "virtio-net-pci,netdev=net0"@),
                NetworkSpecView::Tap { tap_name, bridge: _, mac } => tap_name is Some ==> {
                    &&& backend::has_flag(
                        own,
                        "-netdev"@,
                        "tap,id=net0,ifname="@ + tap_name->0 + ",script=no,downscript=no"@,
                    )
                    &&& mac matches Some(m) ==> backend::has_flag(
                        own,
                        "-device"@,
                        "virtio-net-pci,netdev=net0,mac="@ + m,
                    )
                    &&& mac is None ==> backend::has_flag(
                        own,
                        "-device"@,
                        "virtio-net-pci,netdev=net0"@,
                    )
                },
                NetworkSpecView::Macvtap { parent: _, macvtap_mode: _, mac } => {
                    &&& ctx.network.macvtap_fd is Some
                    &&& backend::has_flag(
                        own,
                        "-netdev"@,
                        "tap,id=net0,fd="@ + text::dec_signed(ctx.network.macvtap_fd->0 as int),
                    )
                    &&& mac matches Some(m) ==> backend::has_flag(
                        own,
                        "-device"@,
                        "virtio-net-pci,netdev=net0,mac="@ + m,
                    )
                    &&& mac is None ==> backend::has_flag(
                        own,
                        "-device"@,
                        "virtio-net-pci,netdev=net0"@,
                    )
                },
            }
        }),
{
    let own = qemu_args(req, ctx, sockets)->0.take(own_count(req, ctx, sockets));
    lemma_parts(req, ctx, sockets);
    let e = network_args(ctx)->0;
    if e.len() == 4 {
        let k: int = (18 + seed_args(ctx).len() + shared_memory_args(req, sockets).len() + shares_args(
            sockets,
        ).len()) as int;
        assert(own[k + 0] == e[0] && own[k + 1] == e[1]);
        assert(own[k + 2] == e[2] && own[k + 3] == e[3]);
    }
}

/// The user network forwards every port of the host that the request names, on all
/// interfaces, to the port of the guest, in their order and nothing else.
pub proof fn every_forward_is_told(forwards: Seq<PortForwardView>, more: PortForwardView)
    ensures
        user_netdev(Seq::empty()) == "user,id=net0"@,
        user_netdev(forwards.push(more)) == user_netdev(forwards) + (",hostfwd="@ + more.protocol
            + ":0.0.0.0:"@ + text::dec(more.host_port as nat) + "-:"@ + text::dec(
            more.guest_port as nat,
        )),
{
    assert(forwards.push(more).drop_last() =~= forwards);
}

/// The guest has the vsock address that was assigned to it, if its agent is
/// enabled.
#[verifier::spinoff_prover]
#[verifier::rlimit(50)]
pub proof fn the_agent_has_its_address(
    req: CreateVmRequestView,
    ctx: LaunchContextView,
    sockets: Seq<(Seq<char>, Seq<char>)>,
)
    requires
        qemu_args(req, ctx, sockets) is Some,
        req.agent_enabled(),
        ctx.guest_cid is Some,
    ensures
        backend::has_flag(
            qemu_args(req, ctx, sockets)->0.take(own_count(req, ctx, sockets)),
            "-device"@,
            "vhost-vsock-pci,guest-cid="@ + text::dec(ctx.guest_cid->0 as nat),
        ),
{
    let own = qemu_args(req, ctx, sockets)->0.take(own_count(req, ctx, sockets));
    lemma_parts(req, ctx, sockets);
    let f = vsock_args(req, ctx);
    let k: int = (18 + seed_args(ctx).len() + shared_memory_args(req, sockets).len() + shares_args(
        sockets,
    ).len() + network_args(ctx)->0.len()) as int;
    assert(own[k + 0] == f[0] && own[k + 1] == f[1]);
}

/// A kernel of the request is booted with its initial RAM disk and its arguments.
#[verifier::spinoff_prover]
#[verifier::rlimit(50)]
pub proof fn it_boots_the_kernel_of_the_request(
    req: CreateVmRequestView,
    ctx: LaunchContextView,
    sockets: Seq<(Seq<char>, Seq<char>)>,
)
    requires
        qemu_args(req, ctx, sockets) is Some,
        req.kernel is Some,
    ensures
        ({
            let own = qemu_args(req, ctx, sockets)->0.take(own_count(req, ctx, sockets));
            &&& backend::has_flag(own, "-kernel"@, req.kernel->0)
            &&& req.initrd matches Some(i) ==> backend::has_flag(own, "-initrd"@, i)
            &&& req.kernel_args matches Some(a) ==> backend::has_flag(own, "-append"@, a)
        }),
{
    let own = qemu_args(req, ctx, sockets)->0.take(own_count(req, ctx, sockets));
    lemma_parts(req, ctx, sockets);
    let g = kernel_args(req);
    let k: int = (18 + seed_args(ctx).len() + shared_memory_args(req, sockets).len() + shares_args(
        sockets,
    ).len() + network_args(ctx)->0.len() + vsock_args(req, ctx).len()) as int;
    assert forall|i: int| 0 <= i < g.len() implies #[trigger] own[k + i] == g[i] by {}
    assert(own[k + 0] == g[0] && own[k + 1] == g[1]);
    if req.initrd is Some {
        assert(g[2] == "-initrd"@ && g[3] == req.initrd->0);
        assert(own[k + 2] == g[2] && own[k + 3] == g[3]);
    }
    if req.kernel_args is Some {
        let j: int = if req.initrd is Some {
            4
        } else {
            2
        };
        assert(g[j] == "-append"@ && g[j + 1] == req.kernel_args->0);
        assert(own[k + j] == g[j] && own[k + (j + 1)] == g[j + 1]);
    }
}

/// QEMU cannot be started if and only if a macvtap network has no open device.
pub proof fn launches_unless_a_descriptor_is_missing(
    req: CreateVmRequestView,
    ctx: LaunchContextView,
    sockets: Seq<(Seq<char>, Seq<char>)>,
)
    ensures
        qemu_args(req, ctx, sockets) is None <==> ctx.network.spec is Macvtap
            && ctx.network.macvtap_fd is None,
{
}

/// A shared folder is served from the directory of the request behind the socket
/// that belongs to its number, and read-only if the request says so.
pub proof fn a_folder_is_served_as_asked_for(
    workspace: Seq<char>,
    share: SharedFolderView,
    i: nat,
)
    ensures
        ({
            let args = virtiofsd_args(workspace, share, i);
            &&& backend::has_flag(
                args,
                "--socket-path"@,
                paths::joined(workspace, "virtiofs-"@ + text::dec(i) + ".sock"@),
            )
            &&& backend::has_flag(args, "--shared-dir"@, share.host_path)
            &&& share.read_only <==> args.len() == 5 && args[4] == "--readonly"@
            &&& !share.read_only <==> args.len() == 4
        }),
        share_tag(i) == "fs"@ + text::dec(i),
        share_socket(workspace, i) == paths::joined(
            workspace,
            "virtiofs-"@ + text::dec(i) + ".sock"@,
        ),
{
    let args = virtiofsd_args(workspace, share, i);
    assert(args[0] == "--socket-path"@ && args[1] == share_socket(workspace, i));
    assert(args[2] == "--shared-dir"@ && args[3] == share.host_path);
}

} // verus!
