//! The Firecracker backend: the configuration file of a micro-VM, and the
//! calls of its API.

use crate::backend::{self, Args, Control, ControlCall, ControlCallView, HostCommand,
    HostCommandView, LaunchContext, LaunchContextView, LaunchError, LaunchResult, VmBackend};
use crate::config::Config;
use crate::json::{self, json_array, json_bool, json_display, json_empty, json_number,
    json_pretty, json_string, json_with, Json};
use crate::model::{BackendKind, CreateVmRequest, CreateVmRequestView, NetworkSpec,
    NetworkSpecView, VmRecord};
use crate::paths::{self, join};
use crate::text;
use vstd::prelude::*;

verus! {

pub struct FirecrackerBackend;

// -------------------------------------------------------------- configuration

/// The arguments of the kernel where the request names none.
pub open spec fn default_boot_args() -> Seq<char> {
    "console=ttyS0 reboot=k panic=1 pci=off root=/dev/vda rw"@
}

/// The kernel of the request, or else that of the settings.
pub open spec fn kernel_for(
    req: CreateVmRequestView,
    default_kernel: Option<Seq<char>>,
) -> Option<Seq<char>> {
    match req.kernel {
        Some(k) => Some(k),
        None => default_kernel,
    }
}

/// What keeps a request from being launched, the kernel first, then the
/// network, then the agent.
pub open spec fn config_error(
    default_kernel: Option<Seq<char>>,
    req: CreateVmRequestView,
    ctx: LaunchContextView,
) -> Option<LaunchError> {
    if kernel_for(req, default_kernel) is None {
        Some(LaunchError::NoKernel)
    } else if ctx.network.spec is User {
        Some(LaunchError::UserNetworkUnsupported)
    } else if ctx.network.spec is Macvtap {
        Some(LaunchError::MacvtapUnsupported)
    } else if ctx.network.spec matches NetworkSpecView::Tap { tap_name: None, .. } {
        Some(LaunchError::TapNotPrepared)
    } else if req.agent_enabled() && ctx.guest_cid is None {
        Some(LaunchError::NoGuestCid)
    } else if req.agent_enabled() && ctx.vsock_socket is None {
        Some(LaunchError::NoVsockSocket)
    } else {
        None
    }
}

pub open spec fn drive_tree(id: Seq<char>, path: Seq<char>, root: bool, read_only: bool) -> Json {
    let o = json::with(json::empty_object(), "drive_id"@, Json::Text(id));
    let o = json::with(o, "path_on_host"@, Json::Text(path));
    let o = json::with(o, "is_root_device"@, Json::Bool(root));
    json::with(o, "is_read_only"@, Json::Bool(read_only))
}

/// The root disk and, if there is one, the seed disk.
pub open spec fn drives_tree(ctx: LaunchContextView) -> Json {
    let root = drive_tree("rootfs"@, ctx.disk, true, false);
    match ctx.seed_disk {
        Some(seed) => Json::List(seq![root, drive_tree("seed"@, seed, false, true)]),
        None => Json::List(seq![root]),
    }
}

pub open spec fn boot_source_tree(kernel: Seq<char>, req: CreateVmRequestView) -> Json {
    let boot_args = match req.kernel_args {
        Some(a) => a,
        None => default_boot_args(),
    };
    let o = json::with(json::empty_object(), "kernel_image_path"@, Json::Text(kernel));
    json::with(o, "boot_args"@, Json::Text(boot_args))
}

pub open spec fn machine_tree(req: CreateVmRequestView) -> Json {
    let o = json::with(json::empty_object(), "vcpu_count"@, Json::Number(text::dec(req.vcpus as nat)));
    let o = json::with(o, "mem_size_mib"@, Json::Number(text::dec(req.memory_mib as nat)));
    let o = json::with(o, "smt"@, Json::Bool(false));
    json::with(o, "track_dirty_pages"@, Json::Bool(false))
}

/// The address of a guest whose network names none.
pub open spec fn default_mac() -> Seq<char> {
    "06:00:AC:10:00:02"@
}

pub open spec fn interface_tree(tap: Seq<char>, mac: Option<Seq<char>>) -> Json {
    let guest_mac = match mac {
        Some(m) => m,
        None => default_mac(),
    };
    let o = json::with(json::empty_object(), "iface_id"@, Json::Text("eth0"@));
    let o = json::with(o, "guest_mac"@, Json::Text(guest_mac));
    Json::List(seq![json::with(o, "host_dev_name"@, Json::Text(tap))])
}

pub open spec fn vsock_tree(cid: u32, socket: Seq<char>) -> Json {
    let o = json::with(json::empty_object(), "guest_cid"@, Json::Number(text::dec(cid as nat)));
    json::with(o, "uds_path"@, Json::Text(socket))
}

/// The configuration file of a request that nothing keeps from being launched.
pub open spec fn config_tree(
    default_kernel: Option<Seq<char>>,
    req: CreateVmRequestView,
    ctx: LaunchContextView,
) -> Json {
    let o = json::with(
        json::empty_object(),
        "boot-source"@,
        boot_source_tree(kernel_for(req, default_kernel)->0, req),
    );
    let o = json::with(o, "drives"@, drives_tree(ctx));
    let o = json::with(o, "machine-config"@, machine_tree(req));
    let o = match ctx.network.spec {
        NetworkSpecView::Tap { tap_name: Some(tap), bridge: _, mac } => json::with(
            o,
            "network-interfaces"@,
            interface_tree(tap, mac),
        ),
        _ => o,
    };
    if req.agent_enabled() {
        json::with(o, "vsock"@, vsock_tree(ctx.guest_cid->0, ctx.vsock_socket->0))
    } else {
        o
    }
}

fn drive(id: &str, path: &str, root: bool, read_only: bool) -> (r: serde_json::Value)
    ensures
        json::json_tree(r) == drive_tree(id@, path@, root, read_only),
{
    let o = json_with(json_empty(), "drive_id", json_string(id));
    let o = json_with(o, "path_on_host", json_string(path));
    let o = json_with(o, "is_root_device", json_bool(root));
    json_with(o, "is_read_only", json_bool(read_only))
}

fn drives(ctx: &LaunchContext) -> (r: serde_json::Value)
    ensures
        json::json_tree(r) == drives_tree(ctx@),
{
    let mut list: Vec<serde_json::Value> = Vec::new();
    list.push(drive("rootfs", ctx.disk.as_str(), true, false));
    if let Some(seed) = &ctx.seed_disk {
        list.push(drive("seed", seed.as_str(), false, true));
    }
    proof {
        assert(json::trees(list@) =~= drives_tree(ctx@)->List_0);
    }
    json_array(list)
}

fn boot_source(kernel: &str, req: &CreateVmRequest) -> (r: serde_json::Value)
    ensures
        json::json_tree(r) == boot_source_tree(kernel@, req@),
{
    let boot_args = match &req.kernel_args {
        Some(a) => a.clone(),
        None => "console=ttyS0 reboot=k panic=1 pci=off root=/dev/vda rw".to_owned(),
    };
    let o = json_with(json_empty(), "kernel_image_path", json_string(kernel));
    json_with(o, "boot_args", json_string(boot_args.as_str()))
}

fn machine(req: &CreateVmRequest) -> (r: serde_json::Value)
    ensures
        json::json_tree(r) == machine_tree(req@),
{
    let o = json_with(json_empty(), "vcpu_count", json_number(req.vcpus as u64));
    let o = json_with(o, "mem_size_mib", json_number(req.memory_mib));
    let o = json_with(o, "smt", json_bool(false));
    json_with(o, "track_dirty_pages", json_bool(false))
}

fn interface(tap: &str, mac: &Option<String>) -> (r: serde_json::Value)
    ensures
        json::json_tree(r) == interface_tree(tap@, text::opt(*mac)),
{
    let guest_mac = match mac {
        Some(m) => m.clone(),
        None => "06:00:AC:10:00:02".to_owned(),
    };
    let o = json_with(json_empty(), "iface_id", json_string("eth0"));
    let o = json_with(o, "guest_mac", json_string(guest_mac.as_str()));
    let mut list: Vec<serde_json::Value> = Vec::new();
    list.push(json_with(o, "host_dev_name", json_string(tap)));
    proof {
        assert(json::trees(list@) =~= interface_tree(tap@, text::opt(*mac))->List_0);
    }
    json_array(list)
}

/// The configuration of a micro-VM for a request.
pub fn config_json(cfg: &Config, req: &CreateVmRequest, ctx: &LaunchContext) -> (r: Result<
    serde_json::Value,
    LaunchError,
>)
    ensures
        match r {
            Ok(v) => config_error(text::opt(cfg.firecracker_kernel), req@, ctx@) is None
                && json::json_tree(v) == config_tree(
                text::opt(cfg.firecracker_kernel),
                req@,
                ctx@,
            ),
            Err(e) => config_error(text::opt(cfg.firecracker_kernel), req@, ctx@) == Some(e),
        },
{
    let kernel: &String = match &req.kernel {
        Some(k) => k,
        None => match &cfg.firecracker_kernel {
            Some(k) => k,
            None => {
                return Err(LaunchError::NoKernel);
            },
        },
    };
    let mut root = json_with(json_empty(), "boot-source", boot_source(kernel.as_str(), req));
    root = json_with(root, "drives", drives(ctx));
    root = json_with(root, "machine-config", machine(req));
    match &ctx.network.spec {
        NetworkSpec::Unconnected => {},
        NetworkSpec::Tap { tap_name, bridge: _, mac } => {
            match tap_name {
                Some(tap) => {
                    root = json_with(root, "network-interfaces", interface(tap.as_str(), mac));
                },
                None => {
                    return Err(LaunchError::TapNotPrepared);
                },
            }
        },
        NetworkSpec::Macvtap { parent: _, macvtap_mode: _, mac: _ } => {
            return Err(LaunchError::MacvtapUnsupported);
        },
        NetworkSpec::User { forwards: _ } => {
            return Err(LaunchError::UserNetworkUnsupported);
        },
    }
    if req.agent_enabled() {
        match ctx.guest_cid {
            None => {
                return Err(LaunchError::NoGuestCid);
            },
            Some(cid) => {
                match &ctx.vsock_socket {
                    None => {
                        return Err(LaunchError::NoVsockSocket);
                    },
                    Some(socket) => {
                        let o = json_with(json_empty(), "guest_cid", json_number(cid as u64));
                        let o = json_with(o, "uds_path", json_string(socket.as_str()));
                        root = json_with(root, "vsock", o);
                    },
                }
            },
        }
    }
    Ok(root)
}

// ------------------------------------------------------------------- launching

/// What starts a micro-VM: its configuration file and the command.
#[derive(Debug)]
pub struct FirecrackerLaunch {
    pub config_path: String,
    pub config: String,
    pub command: HostCommand,
}

/// How to start a micro-VM for a request.
pub fn launch_plan(cfg: &Config, req: &CreateVmRequest, ctx: &LaunchContext) -> (r: Result<
    FirecrackerLaunch,
    LaunchError,
>)
    ensures
        match r {
            Ok(l) => {
                &&& config_error(text::opt(cfg.firecracker_kernel), req@, ctx@) is None
                &&& l.config_path@ == paths::joined(ctx@.workspace, "firecracker.json"@)
                &&& l.config@ == json::json_indented(
                    config_tree(text::opt(cfg.firecracker_kernel), req@, ctx@),
                )
                &&& l.command@ == (HostCommandView {
                    program: cfg.firecracker_binary@,
                    args: seq![
                        "--api-sock"@,
                        paths::joined(ctx@.workspace, "firecracker.sock"@),
                        "--config-file"@,
                        paths::joined(ctx@.workspace, "firecracker.json"@),
                    ],
                })
            },
            Err(e) => config_error(text::opt(cfg.firecracker_kernel), req@, ctx@) == Some(e),
        },
{
    match config_json(cfg, req, ctx) {
        Err(e) => Err(e),
        Ok(v) => {
            let config_path = join(ctx.workspace.as_str(), "firecracker.json");
            let mut a = Args::new();
            a.add("--api-sock");
            a.put(join(ctx.workspace.as_str(), "firecracker.sock"));
            a.add("--config-file");
            a.put(config_path.clone());
            Ok(
                FirecrackerLaunch {
                    config_path,
                    config: json_pretty(&v),
                    command: backend::host_command(cfg.firecracker_binary.as_str(), a),
                },
            )
        },
    }
}

/// What a launch gives back once Firecracker runs as `pid`.
pub fn launch_result(ctx: &LaunchContext, pid: u32) -> (r: LaunchResult)
    ensures
        backend::plain_result(r, pid, paths::joined(ctx@.workspace, "firecracker.sock"@)),
{
    LaunchResult {
        pid,
        control_socket: Some(join(ctx.workspace.as_str(), "firecracker.sock")),
        jail_path: None,
        vsock_socket: None,
        virtiofsd_pids: Vec::new(),
    }
}

// --------------------------------------------------------------------- control

/// A call of the API whose body is an object with one text member.
pub open spec fn api_call(
    workspace: Seq<char>,
    method: Seq<char>,
    path: Seq<char>,
    key: Seq<char>,
    value: Seq<char>,
) -> ControlCallView {
    ControlCallView::Http {
        socket: paths::joined(workspace, "firecracker.sock"@),
        method,
        path,
        body: "{"@ + json::member_text(key, json::quoted(value)) + "}"@,
    }
}

fn call(vm: &VmRecord, method: &str, path: &str, key: &str, value: &str) -> (r: Option<
    ControlCall,
>)
    ensures
        text::opt(r) == Some(api_call(vm@.workspace, method@, path@, key@, value@)),
{
    let body = json_with(json_empty(), key, json_string(value));
    Some(
        ControlCall::Http {
            socket: join(vm.workspace.as_str(), "firecracker.sock"),
            method: method.to_owned(),
            path: path.to_owned(),
            body: json_display(&body),
        },
    )
}

impl VmBackend for FirecrackerBackend {
    open spec fn monitor(&self) -> BackendKind {
        BackendKind::Firecracker
    }

    open spec fn call_for(&self, workspace: Seq<char>, c: Control) -> Option<ControlCallView> {
        Some(
            match c {
                Control::Pause => api_call(workspace, "PATCH"@, "/vm"@, "state"@, "Paused"@),
                Control::Resume => api_call(workspace, "PATCH"@, "/vm"@, "state"@, "Resumed"@),
                Control::Shutdown => api_call(
                    workspace,
                    "PUT"@,
                    "/actions"@,
                    "action_type"@,
                    "SendCtrlAltDel"@,
                ),
            },
        )
    }

    fn kind(&self) -> (r: BackendKind) {
        BackendKind::Firecracker
    }

    fn pause(&self, vm: &VmRecord) -> (r: Option<ControlCall>) {
        call(vm, "PATCH", "/vm", "state", "Paused")
    }

    fn resume(&self, vm: &VmRecord) -> (r: Option<ControlCall>) {
        call(vm, "PATCH", "/vm", "state", "Resumed")
    }

    fn graceful_shutdown(&self, vm: &VmRecord) -> (r: Option<ControlCall>) {
        call(vm, "PUT", "/actions", "action_type", "SendCtrlAltDel")
    }
}

// ------------------------------------------------------------------------ laws

/// Firecracker starts if and only if there is a kernel, the network is none or
/// a device that was made ready, and an agent has an address and a socket.
pub proof fn launches_with_kernel_device_and_socket(
    default_kernel: Option<Seq<char>>,
    req: CreateVmRequestView,
    ctx: LaunchContextView,
)
    ensures
        config_error(default_kernel, req, ctx) is None <==> {
            &&& req.kernel is Some || default_kernel is Some
            &&& match ctx.network.spec {
                NetworkSpecView::Unconnected => true,
                NetworkSpecView::Tap { tap_name, .. } => tap_name is Some,
                _ => false,
            }
            &&& req.agent_enabled() ==> ctx.guest_cid is Some && ctx.vsock_socket is Some
        },
{
}

/// Why a request is not launched: there is no kernel; or else the network is of
/// a kind that Firecracker does not take or its device was not made; or else an
/// agent has no address or no socket.
pub proof fn what_keeps_a_request_from_firecracker(
    default_kernel: Option<Seq<char>>,
    req: CreateVmRequestView,
    ctx: LaunchContextView,
)
    ensures
        ({
            let e = config_error(default_kernel, req, ctx);
            let kernel = req.kernel is Some || default_kernel is Some;
            let network = match ctx.network.spec {
                NetworkSpecView::Unconnected => true,
                NetworkSpecView::Tap { tap_name, .. } => tap_name is Some,
                _ => false,
            };
            &&& e == Some(LaunchError::NoKernel) <==> !kernel
            &&& e == Some(LaunchError::UserNetworkUnsupported) <==> kernel
                && ctx.network.spec is User
            &&& e == Some(LaunchError::MacvtapUnsupported) <==> kernel
                && ctx.network.spec is Macvtap
            &&& e == Some(LaunchError::TapNotPrepared) <==> kernel && ctx.network.spec is Tap
                && !network
            &&& e == Some(LaunchError::NoGuestCid) <==> kernel && network && req.agent_enabled()
                && ctx.guest_cid is None
            &&& e == Some(LaunchError::NoVsockSocket) <==> kernel && network && req.agent_enabled()
                && ctx.guest_cid is Some && ctx.vsock_socket is None
        }),
{
}

/// The object has the member `key`, which is `value`.
pub open spec fn holds(t: Json, key: Seq<char>, value: Json) -> bool {
    json::has_member(t, key) && json::member(t, key) == value
}

/// A micro-VM boots the kernel of the request, or else that of the settings, with
/// the very arguments of the request; the arguments that are the same for all
/// stand there if and only if the request has none.
pub proof fn it_boots_what_was_asked_for(
    default_kernel: Option<Seq<char>>,
    req: CreateVmRequestView,
    ctx: LaunchContextView,
)
    requires
        config_error(default_kernel, req, ctx) is None,
    ensures
        ({
            let t = config_tree(default_kernel, req, ctx);
            let boot = json::member(t, "boot-source"@);
            &&& json::has_member(t, "boot-source"@)
            &&& req.kernel matches Some(k) ==> holds(boot, "kernel_image_path"@, Json::Text(k))
            &&& req.kernel is None ==> holds(
                boot,
                "kernel_image_path"@,
                Json::Text(default_kernel->0),
            )
            &&& req.kernel_args matches Some(a) ==> holds(boot, "boot_args"@, Json::Text(a))
            &&& req.kernel_args is None ==> holds(
                boot,
                "boot_args"@,
                Json::Text("console=ttyS0 reboot=k panic=1 pci=off root=/dev/vda rw"@),
            )
        }),
{
    lemma_top_members(default_kernel, req, ctx);
    reveal_strlit("kernel_image_path");
    reveal_strlit("boot_args");
    assert("kernel_image_path"@.len() == 17);
    assert("boot_args"@.len() == 9);
}

proof fn lemma_top_members(
    default_kernel: Option<Seq<char>>,
    req: CreateVmRequestView,
    ctx: LaunchContextView,
)
    ensures
        ({
            let t = config_tree(default_kernel, req, ctx);
            &&& t is Object
            &&& holds(
                t,
                "boot-source"@,
                boot_source_tree(kernel_for(req, default_kernel)->0, req),
            )
            &&& holds(t, "drives"@, drives_tree(ctx))
            &&& holds(t, "machine-config"@, machine_tree(req))
            &&& json::has_member(t, "network-interfaces"@) <==> (
            ctx.network.spec matches NetworkSpecView::Tap { tap_name: Some(_), .. })
            &&& ctx.network.spec matches NetworkSpecView::Tap {
                tap_name: Some(tap),
                bridge: _,
                mac,
            } ==> json::member(t, "network-interfaces"@) == interface_tree(tap, mac)
            &&& json::has_member(t, "vsock"@) <==> req.agent_enabled()
            &&& req.agent_enabled() ==> json::member(t, "vsock"@) == vsock_tree(
                ctx.guest_cid->0,
                ctx.vsock_socket->0,
            )
            &&& forall|key: Seq<char>| #[trigger]
                json::has_member(t, key) ==> key == "boot-source"@ || key == "drives"@ || key
                    == "machine-config"@ || key == "network-interfaces"@ || key == "vsock"@
        }),
{
    reveal_strlit("boot-source");
    reveal_strlit("drives");
    reveal_strlit("machine-config");
    reveal_strlit("network-interfaces");
    reveal_strlit("vsock");
    assert("boot-source"@.len() == 11);
    assert("drives"@.len() == 6);
    assert("machine-config"@.len() == 14);
    assert("network-interfaces"@.len() == 18);
    assert("vsock"@.len() == 5);
}

/// The configuration of a micro-VM has a network device if and only if the network
/// has one, and a vsock if and only if the agent is enabled, and nothing beside
/// them but what to boot, drives and the machine.
pub proof fn nothing_else_is_configured(
    default_kernel: Option<Seq<char>>,
    req: CreateVmRequestView,
    ctx: LaunchContextView,
    key: Seq<char>,
)
    requires
        config_error(default_kernel, req, ctx) is None,
    ensures
        ({
            let t = config_tree(default_kernel, req, ctx);
            &&& json::has_member(t, key) ==> key == "boot-source"@ || key == "drives"@ || key
                == "machine-config"@ || key == "network-interfaces"@ || key == "vsock"@
            &&& json::has_member(t, "network-interfaces"@) <==> ctx.network.spec is Tap
            &&& json::has_member(t, "vsock"@) <==> req.agent_enabled()
        }),
{
    lemma_top_members(default_kernel, req, ctx);
}

/// The root drive of a micro-VM is the disk of the instance, which it can write
/// to; the seed disk, if there is one, is a second drive, which it can only read.
pub proof fn drives_are_the_disk_and_the_seed(
    default_kernel: Option<Seq<char>>,
    req: CreateVmRequestView,
    ctx: LaunchContextView,
)
    ensures
        ({
            let t = config_tree(default_kernel, req, ctx);
            &&& json::has_member(t, "drives"@)
            &&& json::member(t, "drives"@) matches Json::List(drives)
            &&& drives.len() == if ctx.seed_disk is Some {
                2nat
            } else {
                1nat
            }
            &&& holds(drives[0], "drive_id"@, Json::Text("rootfs"@))
            &&& holds(drives[0], "path_on_host"@, Json::Text(ctx.disk))
            &&& holds(drives[0], "is_root_device"@, Json::Bool(true))
            &&& holds(drives[0], "is_read_only"@, Json::Bool(false))
            &&& ctx.seed_disk matches Some(seed) ==> {
                &&& holds(drives[1], "drive_id"@, Json::Text("seed"@))
                &&& holds(drives[1], "path_on_host"@, Json::Text(seed))
                &&& holds(drives[1], "is_root_device"@, Json::Bool(false))
                &&& holds(drives[1], "is_read_only"@, Json::Bool(true))
            }
        }),
{
    lemma_top_members(default_kernel, req, ctx);
    reveal_strlit("drive_id");
    reveal_strlit("path_on_host");
    reveal_strlit("is_root_device");
    reveal_strlit("is_read_only");
    assert("drive_id"@.len() == 8);
    assert("path_on_host"@.len() == 12);
    assert("is_root_device"@.len() == 14);
    assert("is_read_only"@.len() == 12);
    assert("path_on_host"@[0] != "is_read_only"@[0]);
}

/// A micro-VM has as many processors and as much memory as the request says.
pub proof fn the_machine_is_as_large_as_asked_for(
    default_kernel: Option<Seq<char>>,
    req: CreateVmRequestView,
    ctx: LaunchContextView,
)
    ensures
        ({
            let t = config_tree(default_kernel, req, ctx);
            let machine = json::member(t, "machine-config"@);
            &&& json::has_member(t, "machine-config"@)
            &&& holds(machine, "vcpu_count"@, Json::Number(text::dec(req.vcpus as nat)))
            &&& holds(machine, "mem_size_mib"@, Json::Number(text::dec(req.memory_mib as nat)))
            &&& holds(machine, "smt"@, Json::Bool(false))
            &&& holds(machine, "track_dirty_pages"@, Json::Bool(false))
        }),
{
    lemma_top_members(default_kernel, req, ctx);
    reveal_strlit("vcpu_count");
    reveal_strlit("mem_size_mib");
    reveal_strlit("smt");
    reveal_strlit("track_dirty_pages");
    assert("vcpu_count"@.len() == 10);
    assert("mem_size_mib"@.len() == 12);
    assert("smt"@.len() == 3);
    assert("track_dirty_pages"@.len() == 17);
}

/// A micro-VM is attached to the device that was made for it, under the address
/// of the request or else one that is the same for all.
pub proof fn it_is_attached_to_its_device(
    default_kernel: Option<Seq<char>>,
    req: CreateVmRequestView,
    ctx: LaunchContextView,
)
    requires
        ctx.network.spec is Tap,
        ctx.network.spec->tap_name is Some,
    ensures
        ({
            let t = config_tree(default_kernel, req, ctx);
            let mac = ctx.network.spec->Tap_mac;
            &&& json::has_member(t, "network-interfaces"@)
            &&& json::member(t, "network-interfaces"@) matches Json::List(devices)
            &&& devices.len() == 1
            &&& holds(devices[0], "iface_id"@, Json::Text("eth0"@))
            &&& holds(
                devices[0],
                "host_dev_name"@,
                Json::Text(ctx.network.spec->tap_name->0),
            )
            &&& mac is Some ==> holds(devices[0], "guest_mac"@, Json::Text(mac->0))
            &&& mac is None ==> holds(
                devices[0],
                "guest_mac"@,
                Json::Text("06:00:AC:10:00:02"@),
            )
        }),
{
    lemma_top_members(default_kernel, req, ctx);
    reveal_strlit("iface_id");
    reveal_strlit("guest_mac");
    reveal_strlit("host_dev_name");
    assert("iface_id"@.len() == 8);
    assert("guest_mac"@.len() == 9);
    assert("host_dev_name"@.len() == 13);
}

/// The agent of a micro-VM is reached under the address and through the socket
/// that were assigned to it.
pub proof fn the_agent_has_its_address(
    default_kernel: Option<Seq<char>>,
    req: CreateVmRequestView,
    ctx: LaunchContextView,
)
    requires
        config_error(default_kernel, req, ctx) is None,
        req.agent_enabled(),
    ensures
        ({
            let t = config_tree(default_kernel, req, ctx);
            let vsock = json::member(t, "vsock"@);
            &&& json::has_member(t, "vsock"@)
            &&& holds(vsock, "guest_cid"@, Json::Number(text::dec(ctx.guest_cid->0 as nat)))
            &&& holds(vsock, "uds_path"@, Json::Text(ctx.vsock_socket->0))
        }),
{
    lemma_top_members(default_kernel, req, ctx);
    reveal_strlit("guest_cid");
    reveal_strlit("uds_path");
    assert("guest_cid"@.len() == 9);
    assert("uds_path"@.len() == 8);
}

/// The parts of a configuration have no members but those that they are known by.
pub proof fn parts_have_no_other_members(
    kernel: Seq<char>,
    req: CreateVmRequestView,
    id: Seq<char>,
    path: Seq<char>,
    root: bool,
    read_only: bool,
    tap: Seq<char>,
    mac: Option<Seq<char>>,
    cid: u32,
    socket: Seq<char>,
    key: Seq<char>,
)
    ensures
        json::has_member(boot_source_tree(kernel, req), key) ==> key == "kernel_image_path"@ || key
            == "boot_args"@,
        json::has_member(drive_tree(id, path, root, read_only), key) ==> key == "drive_id"@ || key
            == "path_on_host"@ || key == "is_root_device"@ || key == "is_read_only"@,
        json::has_member(machine_tree(req), key) ==> key == "vcpu_count"@ || key == "mem_size_mib"@
            || key == "smt"@ || key == "track_dirty_pages"@,
        json::has_member(interface_tree(tap, mac)->List_0[0], key) ==> key == "iface_id"@ || key
            == "guest_mac"@ || key == "host_dev_name"@,
        json::has_member(vsock_tree(cid, socket), key) ==> key == "guest_cid"@ || key
            == "uds_path"@,
{
}

} // verus!
