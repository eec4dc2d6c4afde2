//! The Cloud Hypervisor backend.

use crate::backend::{self, path_arg, Args, Control, ControlCall, ControlCallView, HostCommand,
    HostCommandView, LaunchContext, LaunchContextView, LaunchError, LaunchResult, VmBackend};
use crate::config::Config;
use crate::model::{BackendKind, CreateVmRequest, CreateVmRequestView, NetworkSpec,
    NetworkSpecView, VmRecord};
use crate::paths::{self, join};
use crate::qemu;
use crate::text::{self, decimal, decimal_signed};
use vstd::prelude::*;

verus! {

pub struct CloudHypervisorBackend;

/// Cloud Hypervisor is not asked to pause, resume or shut a guest down.
impl VmBackend for CloudHypervisorBackend {
    open spec fn monitor(&self) -> BackendKind {
        BackendKind::CloudHypervisor
    }

    open spec fn call_for(&self, workspace: Seq<char>, c: Control) -> Option<ControlCallView> {
        None
    }

    fn kind(&self) -> (r: BackendKind) {
        BackendKind::CloudHypervisor
    }

    fn pause(&self, _vm: &VmRecord) -> (r: Option<ControlCall>) {
        None
    }

    fn resume(&self, _vm: &VmRecord) -> (r: Option<ControlCall>) {
        None
    }

    fn graceful_shutdown(&self, _vm: &VmRecord) -> (r: Option<ControlCall>) {
        None
    }
}

// ------------------------------------------------------------------ arguments

pub open spec fn machine_args(req: CreateVmRequestView, ctx: LaunchContextView) -> Seq<Seq<char>> {
    seq![
        "--api-socket"@,
        paths::joined(ctx.workspace, "ch-api.sock"@),
        "--cpus"@,
        "boot="@ + text::dec(req.vcpus as nat),
        "--memory"@,
        "size="@ + text::dec(req.memory_mib as nat) + "M"@,
        "--disk"@,
        "path="@ + ctx.disk,
        "--serial"@,
        "file="@ + ctx.log_path,
        "--console"@,
        "off"@,
    ]
}

pub open spec fn seed_args(ctx: LaunchContextView) -> Seq<Seq<char>> {
    match ctx.seed_disk {
        Some(seed) => seq!["--disk"@, "path="@ + seed + ",readonly=on"@],
        None => Seq::empty(),
    }
}

/// A network device with its address, if it has one.
pub open spec fn with_mac(device: Seq<char>, mac: Option<Seq<char>>) -> Seq<char> {
    match mac {
        Some(m) => device + ",mac="@ + m,
        None => device,
    }
}

pub open spec fn network_args(ctx: LaunchContextView) -> Result<Seq<Seq<char>>, LaunchError> {
    match ctx.network.spec {
        NetworkSpecView::Unconnected => Ok(Seq::empty()),
        NetworkSpecView::Tap { tap_name: Some(tap), bridge: _, mac } => Ok(
            seq!["--net"@, with_mac("tap="@ + tap, mac)],
        ),
        NetworkSpecView::Tap { tap_name: None, bridge: _, mac: _ } => Err(
            LaunchError::TapNotPrepared,
        ),
        NetworkSpecView::Macvtap { parent: _, macvtap_mode: _, mac } => match ctx.network.macvtap_fd {
            Some(fd) => Ok(seq!["--net"@, with_mac("fd="@ + text::dec_signed(fd as int), mac)]),
            None => Err(LaunchError::MacvtapNotPrepared),
        },
        NetworkSpecView::User { forwards: _ } => Err(LaunchError::UserNetworkUnsupported),
    }
}

/// The kernel of the request, or else the firmware of the request, or else that
/// of the settings.
pub open spec fn boot_args(
    req: CreateVmRequestView,
    default_firmware: Option<Seq<char>>,
) -> Result<Seq<Seq<char>>, LaunchError> {
    match req.kernel {
        Some(kernel) => Ok(
            seq!["--kernel"@, kernel] + qemu::optional("--initramfs"@, req.initrd)
                + qemu::optional("--cmdline"@, req.kernel_args),
        ),
        None => match req.firmware {
            Some(fw) => Ok(seq!["--firmware"@, fw]),
            None => match default_firmware {
                Some(fw) => Ok(seq!["--firmware"@, fw]),
                None => Err(LaunchError::NothingToBoot),
            },
        },
    }
}

/// The whole command line of Cloud Hypervisor, the extra arguments of the
/// request last. What is wrong with the network comes before what is wrong with
/// the boot.
pub open spec fn cloud_hypervisor_args(
    default_firmware: Option<Seq<char>>,
    req: CreateVmRequestView,
    ctx: LaunchContextView,
) -> Result<Seq<Seq<char>>, LaunchError> {
    match network_args(ctx) {
        Err(e) => Err(e),
        Ok(network) => match boot_args(req, default_firmware) {
            Err(e) => Err(e),
            Ok(boot) => Ok(
                machine_args(req, ctx) + seed_args(ctx) + network + boot + req.extra_args,
            ),
        },
    }
}

/// The arguments as text.
pub open spec fn args_view(r: Result<Vec<String>, LaunchError>) -> Result<
    Seq<Seq<char>>,
    LaunchError,
> {
    match r {
        Ok(args) => Ok(text::views(args@)),
        Err(e) => Err(e),
    }
}

fn device(kind: &str, name: &str, mac: &Option<String>) -> (r: String)
    ensures
        r@ == with_mac(kind@ + name@, text::opt(*mac)),
{
    let mut n = text::cat2(kind, name);
    if let Some(m) = mac {
        n.append(",mac=");
        n.append(m.as_str());
    }
    n
}

fn put_network(a: &mut Args, ctx: &LaunchContext) -> (r: Result<(), LaunchError>)
    ensures
        match r {
            Ok(_) => network_args(ctx@) is Ok && final(a)@ == old(a)@ + network_args(ctx@)->Ok_0,
            Err(e) => network_args(ctx@) == Err::<Seq<Seq<char>>, LaunchError>(e),
        },
{
    let ghost before = a@;
    match &ctx.network.spec {
        NetworkSpec::Unconnected => {},
        NetworkSpec::Tap { tap_name, bridge: _, mac } => {
            match tap_name {
                Some(tap) => {
                    a.flag("--net", device("tap=", tap.as_str(), mac));
                },
                None => {
                    return Err(LaunchError::TapNotPrepared);
                },
            }
        },
        NetworkSpec::Macvtap { parent: _, macvtap_mode: _, mac } => {
            match ctx.network.macvtap_fd {
                Some(fd) => {
                    let n = decimal_signed(fd);
                    a.flag("--net", device("fd=", n.as_str(), mac));
                },
                None => {
                    return Err(LaunchError::MacvtapNotPrepared);
                },
            }
        },
        NetworkSpec::User { forwards: _ } => {
            return Err(LaunchError::UserNetworkUnsupported);
        },
    }
    proof {
        assert(a@ =~= before + network_args(ctx@)->Ok_0);
    }
    Ok(())
}

fn put_boot(a: &mut Args, cfg: &Config, req: &CreateVmRequest) -> (r: Result<(), LaunchError>)
    ensures
        ({
            let wanted = boot_args(req@, text::opt(cfg.cloud_hypervisor_firmware));
            match r {
                Ok(_) => wanted is Ok && final(a)@ == old(a)@ + wanted->Ok_0,
                Err(e) => wanted == Err::<Seq<Seq<char>>, LaunchError>(e),
            }
        }),
{
    let ghost before = a@;
    if let Some(kernel) = &req.kernel {
        a.flag("--kernel", path_arg(kernel.as_str()));
        if let Some(initrd) = &req.initrd {
            a.flag("--initramfs", path_arg(initrd.as_str()));
        }
        if let Some(kargs) = &req.kernel_args {
            a.flag("--cmdline", kargs.clone());
        }
    } else if let Some(fw) = &req.firmware {
        a.flag("--firmware", path_arg(fw.as_str()));
    } else if let Some(fw) = &cfg.cloud_hypervisor_firmware {
        a.flag("--firmware", path_arg(fw.as_str()));
    } else {
        return Err(LaunchError::NothingToBoot);
    }
    proof {
        assert(a@ =~= before + boot_args(req@, text::opt(cfg.cloud_hypervisor_firmware))->Ok_0);
    }
    Ok(())
}

/// The command line of Cloud Hypervisor for a request.
pub fn build_args(cfg: &Config, req: &CreateVmRequest, ctx: &LaunchContext) -> (r: Result<
    Vec<String>,
    LaunchError,
>)
    ensures
        args_view(r) == cloud_hypervisor_args(text::opt(cfg.cloud_hypervisor_firmware), req@, ctx@),
{
    let cpus = decimal(req.vcpus as u64);
    let memory = decimal(req.memory_mib);
    let mut a = Args::new();
    a.add("--api-socket");
    a.put(join(ctx.workspace.as_str(), "ch-api.sock"));
    a.add("--cpus");
    a.put(text::cat2("boot=", cpus.as_str()));
    a.add("--memory");
    a.put(text::cat3("size=", memory.as_str(), "M"));
    a.add("--disk");
    a.put(text::cat2("path=", ctx.disk.as_str()));
    a.add("--serial");
    a.put(text::cat2("file=", ctx.log_path.as_str()));
    a.add("--console");
    a.add("off");
    proof {
        assert(a@ =~= machine_args(req@, ctx@));
    }
    if let Some(seed) = &ctx.seed_disk {
        a.flag("--disk", text::cat3("path=", seed.as_str(), ",readonly=on"));
    }
    proof {
        assert(a@ =~= machine_args(req@, ctx@) + seed_args(ctx@));
    }
    match put_network(&mut a, ctx) {
        Ok(_) => {},
        Err(e) => {
            return Err(e);
        },
    }
    match put_boot(&mut a, cfg, req) {
        Ok(_) => {},
        Err(e) => {
            return Err(e);
        },
    }
    a.extend(&req.extra_args);
    Ok(a.done())
}

// ------------------------------------------------------------------- launching

/// The command that starts Cloud Hypervisor.
pub fn launch_command(cfg: &Config, req: &CreateVmRequest, ctx: &LaunchContext) -> (r: Result<
    HostCommand,
    LaunchError,
>)
    ensures
        ({
            let args = cloud_hypervisor_args(
                text::opt(cfg.cloud_hypervisor_firmware),
                req@,
                ctx@,
            );
            match r {
                Ok(c) => args is Ok && c@ == (HostCommandView {
                    program: cfg.cloud_hypervisor_binary@,
                    args: args->Ok_0,
                }),
                Err(e) => args == Err::<Seq<Seq<char>>, LaunchError>(e),
            }
        }),
{
    match build_args(cfg, req, ctx) {
        Ok(args) => Ok(HostCommand { program: cfg.cloud_hypervisor_binary.clone(), args }),
        Err(e) => Err(e),
    }
}

/// What a launch gives back once Cloud Hypervisor runs as `pid`.
pub fn launch_result(ctx: &LaunchContext, pid: u32) -> (r: LaunchResult)
    ensures
        backend::plain_result(r, pid, paths::joined(ctx@.workspace, "ch-api.sock"@)),
{
    LaunchResult {
        pid,
        control_socket: Some(join(ctx.workspace.as_str(), "ch-api.sock")),
        jail_path: None,
        vsock_socket: None,
        virtiofsd_pids: Vec::new(),
    }
}

// ------------------------------------------------------------------------ laws

/// Cloud Hypervisor starts if and only if the network is none or an attached
/// device, and there is a kernel or a firmware to boot.
pub proof fn launches_with_device_and_boot_source(
    default_firmware: Option<Seq<char>>,
    req: CreateVmRequestView,
    ctx: LaunchContextView,
)
    ensures
        cloud_hypervisor_args(default_firmware, req, ctx) is Ok <==> {
            &&& match ctx.network.spec {
                NetworkSpecView::Unconnected => true,
                NetworkSpecView::User { .. } => false,
                NetworkSpecView::Tap { tap_name, .. } => tap_name is Some,
                NetworkSpecView::Macvtap { .. } => ctx.network.macvtap_fd is Some,
            }
            &&& req.kernel is Some || req.firmware is Some || default_firmware is Some
        },
{
}

/// How many arguments describe the machine: twelve that are always there, two for
/// each of a seed disk, a network device, an initial RAM disk and arguments of a
/// kernel, and two for what to boot.
pub open spec fn own_count(req: CreateVmRequestView, ctx: LaunchContextView) -> int {
    let seed: int = if ctx.seed_disk is Some {
        2
    } else {
        0
    };
    let network: int = if ctx.network.spec is Unconnected {
        0
    } else {
        2
    };
    let initrd: int = if req.kernel is Some && req.initrd is Some {
        2
    } else {
        0
    };
    let kernel_args: int = if req.kernel is Some && req.kernel_args is Some {
        2
    } else {
        0
    };
    12 + seed + network + 2 + initrd + kernel_args
}

/// The command line describes the machine of the request: its processors and
/// memory, the disk of the instance, the console log and the control socket in
/// the workspace; the seed disk, which it can only read, if there is one; and then
/// come the extra arguments of the request, unchanged.
pub proof fn the_machine_is_as_asked_for(
    default_firmware: Option<Seq<char>>,
    req: CreateVmRequestView,
    ctx: LaunchContextView,
)
    requires
        cloud_hypervisor_args(default_firmware, req, ctx) is Ok,
    ensures
        ({
            let args = cloud_hypervisor_args(default_firmware, req, ctx)->Ok_0;
            let n = own_count(req, ctx);
            let own = args.take(n);
            &&& args.len() == n + req.extra_args.len()
            &&& ctx.seed_disk is None && ctx.network.spec is Unconnected && req.initrd is None
                && req.kernel_args is None ==> n == 14
            &&& args.skip(n) == req.extra_args
            &&& backend::has_flag(
                own,
                "--api-socket"@,
                paths::joined(ctx.workspace, "ch-api.sock"@),
            )
            &&& backend::has_flag(own, "--cpus"@, "boot="@ + text::dec(req.vcpus as nat))
            &&& backend::has_flag(
                own,
                "--memory"@,
                "size="@ + text::dec(req.memory_mib as nat) + "M"@,
            )
            &&& backend::has_flag(own, "--disk"@, "path="@ + ctx.disk)
            &&& backend::has_flag(own, "--serial"@, "file="@ + ctx.log_path)
            &&& backend::has_flag(own, "--console"@, "off"@)
            &&& ctx.seed_disk matches Some(seed) ==> backend::has_flag(
                own,
                "--disk"@,
                "path="@ + seed + ",readonly=on"@,
            )
        }),
{
    let args = cloud_hypervisor_args(default_firmware, req, ctx)->Ok_0;
    let n = own_count(req, ctx);
    let own = args.take(n);
    lemma_own_count(default_firmware, req, ctx);
    assert(args.skip(n) =~= req.extra_args);
    assert(own[0] == "--api-socket"@ && own[1] == paths::joined(ctx.workspace, "ch-api.sock"@));
    assert(own[2] == "--cpus"@ && own[3] == "boot="@ + text::dec(req.vcpus as nat));
    assert(own[4] == "--memory"@ && own[5] == "size="@ + text::dec(req.memory_mib as nat) + "M"@);
    assert(own[6] == "--disk"@ && own[7] == "path="@ + ctx.disk);
    assert(own[8] == "--serial"@ && own[9] == "file="@ + ctx.log_path);
    assert(own[10] == "--console"@ && own[11] == "off"@);
    if ctx.seed_disk is Some {
        assert(own[12] == "--disk"@ && own[13] == "path="@ + ctx.seed_disk->0 + ",readonly=on"@);
    }
}

proof fn lemma_own_count(
    default_firmware: Option<Seq<char>>,
    req: CreateVmRequestView,
    ctx: LaunchContextView,
)
    requires
        cloud_hypervisor_args(default_firmware, req, ctx) is Ok,
    ensures
        cloud_hypervisor_args(default_firmware, req, ctx)->Ok_0.len() == own_count(req, ctx)
            + req.extra_args.len(),
        machine_args(req, ctx).len() == 12,
        seed_args(ctx).len() == if ctx.seed_disk is Some {
            2nat
        } else {
            0nat
        },
        network_args(ctx)->Ok_0.len() == if ctx.network.spec is Unconnected {
            0nat
        } else {
            2nat
        },
{
}

/// The machine is attached to the device that was made for it, under the address
/// of the request, if it names one; a machine without a network has no device.
pub proof fn it_is_attached_to_its_device(
    default_firmware: Option<Seq<char>>,
    req: CreateVmRequestView,
    ctx: LaunchContextView,
)
    requires
        cloud_hypervisor_args(default_firmware, req, ctx) is Ok,
    ensures
        ({
            let args = cloud_hypervisor_args(default_firmware, req, ctx)->Ok_0;
            let own = args.take(own_count(req, ctx));
            match ctx.network.spec {
                NetworkSpecView::Unconnected => true,
                NetworkSpecView::User { .. } => false,
                NetworkSpecView::Tap { tap_name, bridge: _, mac } => tap_name is Some && match mac {
                    Some(m) => backend::has_flag(
                        own,
                        "--net"@,
                        "tap="@ + tap_name->0 + ",mac="@ + m,
                    ),
                    None => backend::has_flag(own, "--net"@, "tap="@ + tap_name->0),
                },
                NetworkSpecView::Macvtap { parent: _, macvtap_mode: _, mac } => {
                    let fd = "fd="@ + text::dec_signed(ctx.network.macvtap_fd->0 as int);
                    ctx.network.macvtap_fd is Some && match mac {
                        Some(m) => backend::has_flag(own, "--net"@, fd + ",mac="@ + m),
                        None => backend::has_flag(own, "--net"@, fd),
                    }
                },
            }
        }),
{
    let args = cloud_hypervisor_args(default_firmware, req, ctx)->Ok_0;
    let own = args.take(own_count(req, ctx));
    lemma_own_count(default_firmware, req, ctx);
    if !(ctx.network.spec is Unconnected) {
        let k: int = (12 + seed_args(ctx).len()) as int;
        assert(own[k] == network_args(ctx)->Ok_0[0]);
        assert(own[k + 1] == network_args(ctx)->Ok_0[1]);
        assert(own[k] == "--net"@);
    }
}

/// What is booted is the kernel of the request with its initial RAM disk and its
/// arguments; without a kernel it is the firmware of the request, or else that of
/// the settings.
pub proof fn it_boots_what_was_asked_for(
    default_firmware: Option<Seq<char>>,
    req: CreateVmRequestView,
    ctx: LaunchContextView,
)
    requires
        cloud_hypervisor_args(default_firmware, req, ctx) is Ok,
    ensures
        ({
            let args = cloud_hypervisor_args(default_firmware, req, ctx)->Ok_0;
            let own = args.take(own_count(req, ctx));
            &&& req.kernel matches Some(k) ==> {
                &&& backend::has_flag(own, "--kernel"@, k)
                &&& req.initrd matches Some(i) ==> backend::has_flag(own, "--initramfs"@, i)
                &&& req.kernel_args matches Some(a) ==> backend::has_flag(own, "--cmdline"@, a)
            }
            &&& req.kernel is None && req.firmware is Some ==> backend::has_flag(
                own,
                "--firmware"@,
                req.firmware->0,
            )
            &&& req.kernel is None && req.firmware is None ==> backend::has_flag(
                own,
                "--firmware"@,
                default_firmware->0,
            )
        }),
{
    let args = cloud_hypervisor_args(default_firmware, req, ctx)->Ok_0;
    let own = args.take(own_count(req, ctx));
    lemma_own_count(default_firmware, req, ctx);
    let boot = boot_args(req, default_firmware)->Ok_0;
    let k: int = (12 + seed_args(ctx).len() + network_args(ctx)->Ok_0.len()) as int;
    assert forall|i: int| 0 <= i < boot.len() implies #[trigger] own[k + i] == boot[i] by {}
    assert(own[k + 0] == boot[0] && own[k + 1] == boot[1]);
    if req.kernel is Some {
        assert(boot[0] == "--kernel"@ && boot[1] == req.kernel->0);
        if req.initrd is Some {
            assert(boot[2] == "--initramfs"@ && boot[3] == req.initrd->0);
            assert(own[k + 2] == boot[2] && own[k + 3] == boot[3]);
        }
        if req.kernel_args is Some {
            let j: int = if req.initrd is Some {
                4
            } else {
                2
            };
            assert(boot[j] == "--cmdline"@ && boot[j + 1] == req.kernel_args->0);
            assert(own[k + j] == boot[j] && own[k + (j + 1)] == boot[j + 1]);
        }
    }
}

/// What is wrong with the network is told before what is wrong with the boot.
pub proof fn what_keeps_a_request_from_cloud_hypervisor(
    default_firmware: Option<Seq<char>>,
    req: CreateVmRequestView,
    ctx: LaunchContextView,
)
    ensures
        ({
            let r = cloud_hypervisor_args(default_firmware, req, ctx);
            match ctx.network.spec {
                NetworkSpecView::User { .. } => r == Err::<Seq<Seq<char>>, LaunchError>(
                    LaunchError::UserNetworkUnsupported,
                ),
                NetworkSpecView::Tap { tap_name: None, .. } => r == Err::<
                    Seq<Seq<char>>,
                    LaunchError,
                >(LaunchError::TapNotPrepared),
                NetworkSpecView::Macvtap { .. } if ctx.network.macvtap_fd is None => r == Err::<
                    Seq<Seq<char>>,
                    LaunchError,
                >(LaunchError::MacvtapNotPrepared),
                _ => r is Err <==> req.kernel is None && req.firmware is None
                    && default_firmware is None,
            }
        }),
        ({
            let r = cloud_hypervisor_args(default_firmware, req, ctx);
            r is Err && network_args(ctx) is Ok ==> r->Err_0 == LaunchError::NothingToBoot
        }),
{
}

} // verus!
