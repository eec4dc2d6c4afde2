//! Which backend a request gets, and whether it may run at all.

use crate::backend::{Control, ControlCall, ControlCallView, VmBackend};
use crate::cloud_hypervisor::{self, CloudHypervisorBackend};
use crate::config::{Config, Policy};
use crate::firecracker::{self, FirecrackerBackend};
use crate::json;
use crate::model::{BackendKind, CreateVmRequest, CreateVmRequestView, VmRecord};
use crate::paths::{self, is_under};
use crate::qemu::QemuBackend;
use crate::text::{self, decimal};
use vstd::prelude::*;

verus! {

// -------------------------------------------------------------------- backends

/// A machine monitor that a request was given.
pub enum Backend {
    Qemu(QemuBackend),
    CloudHypervisor(CloudHypervisorBackend),
    Firecracker(FirecrackerBackend),
}

/// A backend that is still to be chosen where one is needed.
#[derive(Debug, Clone, Copy, PartialEq, Eq, Structural)]
pub struct UnresolvedBackend;

/// What is said of a machine whose backend was never chosen.
pub open spec fn unresolved_text() -> Seq<char> {
    "VM has an unresolved BackendKind::Auto \u{2014} this is a bug, backend selection must happen before dispatch"@
}

impl UnresolvedBackend {
    /// The error in words.
    pub fn message(self) -> (r: &'static str)
        ensures
            r@ == unresolved_text(),
    {
        "VM has an unresolved BackendKind::Auto \u{2014} this is a bug, backend selection must happen before dispatch"
    }
}

impl Backend {
    pub open spec fn monitor(&self) -> BackendKind {
        match self {
            Backend::Qemu(b) => b.monitor(),
            Backend::CloudHypervisor(b) => b.monitor(),
            Backend::Firecracker(b) => b.monitor(),
        }
    }

    /// The call that asks for `c` on the machine in `workspace`, if the monitor
    /// has one.
    pub open spec fn call_for(&self, workspace: Seq<char>, c: Control) -> Option<ControlCallView> {
        match self {
            Backend::Qemu(b) => b.call_for(workspace, c),
            Backend::CloudHypervisor(b) => b.call_for(workspace, c),
            Backend::Firecracker(b) => b.call_for(workspace, c),
        }
    }

    pub fn kind(&self) -> (r: BackendKind)
        ensures
            r == self.monitor(),
    {
        match self {
            Backend::Qemu(b) => b.kind(),
            Backend::CloudHypervisor(b) => b.kind(),
            Backend::Firecracker(b) => b.kind(),
        }
    }

    pub fn control(&self, vm: &VmRecord, c: Control) -> (r: Option<ControlCall>)
        ensures
            text::opt(r) == self.call_for(vm@.workspace, c),
    {
        match self {
            Backend::Qemu(b) => control(b, vm, c),
            Backend::CloudHypervisor(b) => control(b, vm, c),
            Backend::Firecracker(b) => control(b, vm, c),
        }
    }
}

fn control<B: VmBackend>(b: &B, vm: &VmRecord, c: Control) -> (r: Option<ControlCall>)
    ensures
        text::opt(r) == b.call_for(vm@.workspace, c),
{
    match c {
        Control::Pause => b.pause(vm),
        Control::Resume => b.resume(vm),
        Control::Shutdown => b.graceful_shutdown(vm),
    }
}

/// The call that asks a monitor for `c` on the machine in `workspace`, if the
/// monitor has one.
pub open spec fn control_call(kind: BackendKind, workspace: Seq<char>, c: Control) -> Option<
    ControlCallView,
> {
    match kind {
        BackendKind::Qemu => QemuBackend.call_for(workspace, c),
        BackendKind::CloudHypervisor => CloudHypervisorBackend.call_for(workspace, c),
        BackendKind::Firecracker => FirecrackerBackend.call_for(workspace, c),
        BackendKind::Auto => None,
    }
}

/// The monitor of a kind. `Auto` is none.
pub fn backend(kind: BackendKind) -> (r: Result<Backend, UnresolvedBackend>)
    ensures
        match r {
            Ok(b) => kind != BackendKind::Auto && b.monitor() == kind,
            Err(_) => kind == BackendKind::Auto,
        },
{
    match kind {
        BackendKind::Qemu => Ok(Backend::Qemu(QemuBackend)),
        BackendKind::CloudHypervisor => Ok(Backend::CloudHypervisor(CloudHypervisorBackend)),
        BackendKind::Firecracker => Ok(Backend::Firecracker(FirecrackerBackend)),
        BackendKind::Auto => Err(UnresolvedBackend),
    }
}

/// The backend that a request gets: the one it names, or for `Auto` the first
/// of Firecracker (with a kernel), Cloud Hypervisor (with a kernel or a
/// firmware) and QEMU (with nothing but a disk) that can boot it.
pub open spec fn resolved(
    req: CreateVmRequestView,
    default_kernel: Option<Seq<char>>,
    default_firmware: Option<Seq<char>>,
) -> BackendKind {
    if req.backend != BackendKind::Auto {
        req.backend
    } else if req.kernel is Some || default_kernel is Some {
        BackendKind::Firecracker
    } else if req.firmware is Some || default_firmware is Some {
        BackendKind::CloudHypervisor
    } else {
        BackendKind::Qemu
    }
}

/// What a request gets under the settings `cfg`.
pub open spec fn resolved_under(req: CreateVmRequestView, cfg: Config) -> BackendKind {
    resolved(req, text::opt(cfg.firecracker_kernel), text::opt(cfg.cloud_hypervisor_firmware))
}

pub fn resolve_backend(req: &CreateVmRequest, cfg: &Config) -> (r: BackendKind)
    ensures
        r == resolved_under(req@, *cfg),
{
    if req.backend != BackendKind::Auto {
        return req.backend;
    }
    let firecracker_ok = req.kernel.is_some() || cfg.firecracker_kernel.is_some();
    let cloud_hypervisor_ok = req.kernel.is_some() || req.firmware.is_some()
        || cfg.cloud_hypervisor_firmware.is_some();
    if firecracker_ok {
        BackendKind::Firecracker
    } else if cloud_hypervisor_ok {
        BackendKind::CloudHypervisor
    } else {
        BackendKind::Qemu
    }
}

// ---------------------------------------------------------------------- limits

/// Why a request is not admitted.
#[derive(Debug, Clone, Copy, PartialEq, Eq, Structural)]
pub enum PolicyError {
    TooManyVcpus { vcpus: u8, max_vcpus: u8 },
    TooMuchMemory { memory_mib: u64, max: u64 },
    TooMuchDisk { disk_gib: u64, max: u64 },
    TtlTooLong { ttl: u64, max: u64 },
    /// A lifetime is required, and the request names none.
    TtlMissing { max: u64 },
    BackendNotAllowed { backend: BackendKind },
    /// The image lies under none of the allowed directories.
    ImageNotAllowed,
}

/// The lifetime of a request against the longest that is allowed.
pub open spec fn ttl_violation(ttl_seconds: Option<u64>, max_ttl: Option<u64>) -> Option<
    PolicyError,
> {
    match max_ttl {
        None => None,
        Some(max) => match ttl_seconds {
            None => Some(PolicyError::TtlMissing { max }),
            Some(ttl) => if ttl > max {
                Some(PolicyError::TtlTooLong { ttl, max })
            } else {
                None
            },
        },
    }
}

/// The image lies under one of the directories.
pub open spec fn under_one_of(image: Seq<char>, dirs: Seq<String>) -> bool {
    exists|i: int| 0 <= i < dirs.len() && paths::under(image, #[trigger] dirs[i]@)
}

/// The first limit that a request breaks: processors, memory, disk, lifetime,
/// backend, image.
pub open spec fn violation(req: CreateVmRequestView, p: Policy) -> Option<PolicyError> {
    if p.max_vcpus is Some && req.vcpus > p.max_vcpus->0 {
        Some(PolicyError::TooManyVcpus { vcpus: req.vcpus, max_vcpus: p.max_vcpus->0 })
    } else if p.max_memory_mib is Some && req.memory_mib > p.max_memory_mib->0 {
        Some(
            PolicyError::TooMuchMemory { memory_mib: req.memory_mib, max: p.max_memory_mib->0 },
        )
    } else if p.max_disk_gib is Some && req.disk_size_gib is Some && req.disk_size_gib->0
        > p.max_disk_gib->0 {
        Some(
            PolicyError::TooMuchDisk { disk_gib: req.disk_size_gib->0, max: p.max_disk_gib->0 },
        )
    } else if ttl_violation(req.ttl_seconds, p.max_ttl_seconds) is Some {
        ttl_violation(req.ttl_seconds, p.max_ttl_seconds)
    } else if p.allowed_backends is Some && !p.allowed_backends->0@.contains(req.backend) {
        Some(PolicyError::BackendNotAllowed { backend: req.backend })
    } else if p.allowed_image_dirs is Some && !under_one_of(
        req.image,
        p.allowed_image_dirs->0@,
    ) {
        Some(PolicyError::ImageNotAllowed)
    } else {
        None
    }
}

fn allows_backend(allowed: &Vec<BackendKind>, kind: BackendKind) -> (r: bool)
    ensures
        r == allowed@.contains(kind),
{
    let mut i: usize = 0;
    while i < allowed.len()
        invariant
            i <= allowed@.len(),
            forall|k: int| 0 <= k < i ==> allowed@[k] != kind,
        decreases allowed@.len() - i,
    {
        if allowed[i] == kind {
            return true;
        }
        i += 1;
    }
    false
}

fn allows_image(dirs: &Vec<String>, image: &str) -> (r: bool)
    ensures
        r == under_one_of(image@, dirs@),
{
    let mut i: usize = 0;
    while i < dirs.len()
        invariant
            i <= dirs@.len(),
            forall|k: int| 0 <= k < i ==> !paths::under(image@, #[trigger] dirs@[k]@),
        decreases dirs@.len() - i,
    {
        if is_under(image, dirs[i].as_str()) {
            return true;
        }
        i += 1;
    }
    false
}

/// Whether a request, its backend resolved, keeps all limits.
pub fn validate_policy(req: &CreateVmRequest, cfg: &Config) -> (r: Result<(), PolicyError>)
    ensures
        match r {
            Ok(_) => violation(req@, cfg.policy) is None,
            Err(e) => violation(req@, cfg.policy) == Some(e),
        },
{
    let p = &cfg.policy;
    if let Some(max) = p.max_vcpus {
        if req.vcpus > max {
            return Err(PolicyError::TooManyVcpus { vcpus: req.vcpus, max_vcpus: max });
        }
    }
    if let Some(max) = p.max_memory_mib {
        if req.memory_mib > max {
            return Err(PolicyError::TooMuchMemory { memory_mib: req.memory_mib, max });
        }
    }
    if let Some(max) = p.max_disk_gib {
        if let Some(disk) = req.disk_size_gib {
            if disk > max {
                return Err(PolicyError::TooMuchDisk { disk_gib: disk, max });
            }
        }
    }
    if let Some(max) = p.max_ttl_seconds {
        match req.ttl_seconds {
            Some(ttl) => {
                if ttl > max {
                    return Err(PolicyError::TtlTooLong { ttl, max });
                }
            },
            None => {
                return Err(PolicyError::TtlMissing { max });
            },
        }
    }
    if let Some(allowed) = &p.allowed_backends {
        if !allows_backend(allowed, req.backend) {
            return Err(PolicyError::BackendNotAllowed { backend: req.backend });
        }
    }
    if let Some(dirs) = &p.allowed_image_dirs {
        if !allows_image(dirs, req.image.as_str()) {
            return Err(PolicyError::ImageNotAllowed);
        }
    }
    Ok(())
}

// -------------------------------------------------------------------- refusals

/// A backend as it is called in messages.
pub open spec fn kind_text(kind: BackendKind) -> Seq<char> {
    match kind {
        BackendKind::Qemu => "Qemu"@,
        BackendKind::CloudHypervisor => "CloudHypervisor"@,
        BackendKind::Firecracker => "Firecracker"@,
        BackendKind::Auto => "Auto"@,
    }
}

fn kind_name(kind: BackendKind) -> (r: &'static str)
    ensures
        r@ == kind_text(kind),
{
    match kind {
        BackendKind::Qemu => "Qemu",
        BackendKind::CloudHypervisor => "CloudHypervisor",
        BackendKind::Firecracker => "Firecracker",
        BackendKind::Auto => "Auto",
    }
}

/// A list as it is written in messages.
pub open spec fn list_text(items: Seq<Seq<char>>) -> Seq<char> {
    "["@ + text::separated(items, ", "@) + "]"@
}

fn list_of(items: &Vec<String>) -> (r: String)
    ensures
        r@ == list_text(text::views(items@)),
{
    let inner = text::join_with(items, ", ");
    text::cat3("[", inner.as_str(), "]")
}

/// The names of backends, in their order.
pub open spec fn kind_texts(kinds: Seq<BackendKind>) -> Seq<Seq<char>> {
    Seq::new(kinds.len(), |i: int| kind_text(kinds[i]))
}

fn kind_names(kinds: &Vec<BackendKind>) -> (r: Vec<String>)
    ensures
        text::views(r@) == kind_texts(kinds@),
{
    let mut out: Vec<String> = Vec::new();
    let mut i: usize = 0;
    while i < kinds.len()
        invariant
            i <= kinds@.len(),
            text::views(out@) == kind_texts(kinds@).take(i as int),
        decreases kinds@.len() - i,
    {
        let name = kind_name(kinds[i]).to_owned();
        proof {
            text::lemma_views_push(out@, name);
            assert(kind_texts(kinds@).take(i + 1) =~= kind_texts(kinds@).take(i as int).push(name@));
        }
        out.push(name);
        i += 1;
    }
    proof {
        assert(kind_texts(kinds@).take(i as int) =~= kind_texts(kinds@));
    }
    out
}

/// A path in quotation marks, as messages show it.
pub uninterp spec fn quoted_path(path: Seq<char>) -> Seq<char>;

/// `Debug` of `std::path::Path`: the same path is always shown the same. How
/// what needs it is escaped between the quotation marks is left unsaid.
#[verifier::external_body]
fn quote_path(path: &str) -> (r: String)
    ensures
        r@ == quoted_path(path@),
{
    format!("{:?}", std::path::Path::new(path))
}

/// The paths in quotation marks, in their order.
pub open spec fn quoted_paths(dirs: Seq<String>) -> Seq<Seq<char>> {
    Seq::new(dirs.len(), |i: int| quoted_path(dirs[i]@))
}

fn quote_paths(dirs: &Vec<String>) -> (r: Vec<String>)
    ensures
        text::views(r@) == quoted_paths(dirs@),
{
    let mut out: Vec<String> = Vec::new();
    let mut i: usize = 0;
    while i < dirs.len()
        invariant
            i <= dirs@.len(),
            text::views(out@) == quoted_paths(dirs@).take(i as int),
        decreases dirs@.len() - i,
    {
        let shown = quote_path(dirs[i].as_str());
        proof {
            text::lemma_views_push(out@, shown);
            assert(quoted_paths(dirs@).take(i + 1) =~= quoted_paths(dirs@).take(i as int).push(
                shown@,
            ));
        }
        out.push(shown);
        i += 1;
    }
    proof {
        assert(quoted_paths(dirs@).take(i as int) =~= quoted_paths(dirs@));
    }
    out
}

/// Why a request is not admitted, in words: for an image `image`, under a policy
/// that allows the backends `allowed` and the directories that `dirs` shows.
pub open spec fn refusal_text(
    e: PolicyError,
    image: Seq<char>,
    allowed: Seq<BackendKind>,
    dirs: Seq<Seq<char>>,
) -> Seq<char> {
    match e {
        PolicyError::TooManyVcpus { vcpus, max_vcpus } => exceeds(
            "vcpus"@,
            vcpus as nat,
            "max_vcpus"@,
            max_vcpus as nat,
        ),
        PolicyError::TooMuchMemory { memory_mib, max } => exceeds(
            "memory_mib"@,
            memory_mib as nat,
            "max_memory_mib"@,
            max as nat,
        ),
        PolicyError::TooMuchDisk { disk_gib, max } => exceeds(
            "disk_size_gib"@,
            disk_gib as nat,
            "max_disk_gib"@,
            max as nat,
        ),
        PolicyError::TtlTooLong { ttl, max } => exceeds(
            "ttl_seconds"@,
            ttl as nat,
            "max_ttl_seconds"@,
            max as nat,
        ),
        PolicyError::TtlMissing { max } => {
            "policy requires ttl_seconds to be set (max_ttl_seconds="@ + text::dec(max as nat)
                + "); unbounded VMs are not allowed"@
        },
        PolicyError::BackendNotAllowed { backend } => {
            "backend "@ + kind_text(backend) + " is not permitted by policy allowed_backends "@
                + list_text(kind_texts(allowed))
        },
        PolicyError::ImageNotAllowed => {
            "image "@ + image + " is not under any policy allowed_image_dirs "@ + list_text(dirs)
        },
    }
}

/// A request asks for more of something than the policy allows.
pub open spec fn exceeds(asked: Seq<char>, n: nat, limit: Seq<char>, max: nat) -> Seq<char> {
    "request "@ + asked + " ("@ + text::dec(n) + ") exceeds policy "@ + limit + " ("@ + text::dec(
        max,
    ) + ")"@
}

fn exceeding(asked: &str, n: u64, limit: &str, max: u64) -> (r: String)
    ensures
        r@ == exceeds(asked@, n as nat, limit@, max as nat),
{
    let n = decimal(n);
    let max = decimal(max);
    let mut out = text::cat5("request ", asked, " (", n.as_str(), ") exceeds policy ");
    out.append(limit);
    out.append(" (");
    out.append(max.as_str());
    out.append(")");
    out
}

/// Why a request is not admitted, in words, the allowed directories being shown
/// as `dirs`.
pub fn refusal_with(
    e: PolicyError,
    image: &str,
    allowed: &Vec<BackendKind>,
    dirs: &Vec<String>,
) -> (r: String)
    ensures
        r@ == refusal_text(e, image@, allowed@, text::views(dirs@)),
{
    match e {
        PolicyError::TooManyVcpus { vcpus, max_vcpus } => exceeding(
            "vcpus",
            vcpus as u64,
            "max_vcpus",
            max_vcpus as u64,
        ),
        PolicyError::TooMuchMemory { memory_mib, max } => exceeding(
            "memory_mib",
            memory_mib,
            "max_memory_mib",
            max,
        ),
        PolicyError::TooMuchDisk { disk_gib, max } => exceeding(
            "disk_size_gib",
            disk_gib,
            "max_disk_gib",
            max,
        ),
        PolicyError::TtlTooLong { ttl, max } => exceeding(
            "ttl_seconds",
            ttl,
            "max_ttl_seconds",
            max,
        ),
        PolicyError::TtlMissing { max } => {
            let max = decimal(max);
            text::cat3(
                "policy requires ttl_seconds to be set (max_ttl_seconds=",
                max.as_str(),
                "); unbounded VMs are not allowed",
            )
        },
        PolicyError::BackendNotAllowed { backend } => {
            let names = kind_names(allowed);
            let list = list_of(&names);
            text::cat4(
                "backend ",
                kind_name(backend),
                " is not permitted by policy allowed_backends ",
                list.as_str(),
            )
        },
        PolicyError::ImageNotAllowed => {
            let list = list_of(dirs);
            text::cat4(
                "image ",
                image,
                " is not under any policy allowed_image_dirs ",
                list.as_str(),
            )
        },
    }
}

/// The backends that a policy lists.
pub open spec fn listed_backends(p: Policy) -> Seq<BackendKind> {
    match p.allowed_backends {
        Some(l) => l@,
        None => Seq::empty(),
    }
}

/// The directories that a policy lists, in quotation marks.
pub open spec fn listed_dirs(p: Policy) -> Seq<Seq<char>> {
    match p.allowed_image_dirs {
        Some(l) => quoted_paths(l@),
        None => Seq::empty(),
    }
}

/// Why a request with the image `image` is not admitted, in words.
pub open spec fn refusal_under(e: PolicyError, image: Seq<char>, p: Policy) -> Seq<char> {
    refusal_text(e, image, listed_backends(p), listed_dirs(p))
}

pub fn refusal(e: PolicyError, image: &str, p: &Policy) -> (r: String)
    ensures
        r@ == refusal_under(e, image@, *p),
{
    let dirs: Vec<String> = match &p.allowed_image_dirs {
        Some(l) => quote_paths(l),
        None => Vec::new(),
    };
    proof {
        assert(text::views(dirs@) =~= listed_dirs(*p));
    }
    match &p.allowed_backends {
        Some(l) => refusal_with(e, image, l, &dirs),
        None => {
            let nothing: Vec<BackendKind> = Vec::new();
            proof {
                assert(nothing@ =~= listed_backends(*p));
            }
            refusal_with(e, image, &nothing, &dirs)
        },
    }
}

// ------------------------------------------------------------------------ laws

/// A resolved backend is never `Auto`, and a request that names a backend
/// keeps it.
pub proof fn resolution_is_concrete(req: CreateVmRequestView, cfg: Config)
    ensures
        resolved_under(req, cfg) != BackendKind::Auto,
        req.backend != BackendKind::Auto ==> resolved_under(req, cfg) == req.backend,
{
}

/// Resolving a request that was resolved changes nothing, whatever the settings
/// are by then.
pub proof fn resolution_is_stable(req: CreateVmRequestView, cfg: Config, later: Config)
    ensures
        ({
            let once = CreateVmRequestView { backend: resolved_under(req, cfg), ..req };
            resolved_under(once, later) == once.backend
        }),
{
}

/// What `Auto` is resolved to has what it boots from: Firecracker a kernel,
/// Cloud Hypervisor a kernel or a firmware.
pub proof fn auto_picks_what_can_boot(req: CreateVmRequestView, cfg: Config)
    requires
        req.backend == BackendKind::Auto,
    ensures
        resolved_under(req, cfg) == BackendKind::Firecracker ==> firecracker::kernel_for(
            req,
            text::opt(cfg.firecracker_kernel),
        ) is Some,
        resolved_under(req, cfg) == BackendKind::CloudHypervisor ==> cloud_hypervisor::boot_args(
            req,
            text::opt(cfg.cloud_hypervisor_firmware),
        ) is Ok,
{
}

/// Without limits every request is admitted.
pub proof fn no_limits_admit_everything(req: CreateVmRequestView, p: Policy)
    requires
        p.unrestricted(),
    ensures
        violation(req, p) is None,
{
}

/// A request is admitted if and only if it keeps each limit that is set.
pub proof fn admitted_means_every_limit_is_kept(req: CreateVmRequestView, p: Policy)
    ensures
        violation(req, p) is None <==> {
            &&& p.max_vcpus is Some ==> req.vcpus <= p.max_vcpus->0
            &&& p.max_memory_mib is Some ==> req.memory_mib <= p.max_memory_mib->0
            &&& p.max_disk_gib is Some && req.disk_size_gib is Some ==> req.disk_size_gib->0
                <= p.max_disk_gib->0
            &&& p.max_ttl_seconds is Some ==> req.ttl_seconds is Some && req.ttl_seconds->0
                <= p.max_ttl_seconds->0
            &&& p.allowed_backends is Some ==> p.allowed_backends->0@.contains(req.backend)
            &&& p.allowed_image_dirs is Some ==> under_one_of(
                req.image,
                p.allowed_image_dirs->0@,
            )
        },
{
}

/// With a longest lifetime set, nothing that is admitted can run forever.
pub proof fn a_ttl_cap_bounds_every_lifetime(req: CreateVmRequestView, p: Policy)
    requires
        p.max_ttl_seconds is Some,
        violation(req, p) is None,
    ensures
        req.ttl_seconds is Some,
        req.ttl_seconds->0 <= p.max_ttl_seconds->0,
{
}

/// A limit on a number that allows at least what another one does.
pub open spec fn no_lower(limit: Option<u64>, other: Option<u64>) -> bool {
    limit is None || (other is Some && other->0 <= limit->0)
}

/// Each limit of `p` allows at least what that of `other` does: a number is no
/// lower, a list of backends has all the others, and every directory lies under
/// an allowed one.
pub open spec fn at_least_as_loose(p: Policy, other: Policy) -> bool {
    &&& p.max_vcpus is None || (other.max_vcpus is Some && other.max_vcpus->0 <= p.max_vcpus->0)
    &&& no_lower(p.max_memory_mib, other.max_memory_mib)
    &&& no_lower(p.max_disk_gib, other.max_disk_gib)
    &&& no_lower(p.max_ttl_seconds, other.max_ttl_seconds)
    &&& p.allowed_backends is None || (other.allowed_backends is Some && forall|k: BackendKind|
        other.allowed_backends->0@.contains(k) ==> #[trigger] p.allowed_backends->0@.contains(k))
    &&& p.allowed_image_dirs is None || (other.allowed_image_dirs is Some && forall|i: int|
        0 <= i < other.allowed_image_dirs->0@.len() ==> under_one_of(
            (#[trigger] other.allowed_image_dirs->0@[i])@,
            p.allowed_image_dirs->0@,
        ))
}

/// Loosening a policy never refuses a request that was admitted.
pub proof fn loosening_refuses_nothing(req: CreateVmRequestView, p: Policy, other: Policy)
    requires
        at_least_as_loose(p, other),
        violation(req, other) is None,
    ensures
        violation(req, p) is None,
{
    admitted_means_every_limit_is_kept(req, other);
    if p.allowed_image_dirs is Some {
        let dirs = other.allowed_image_dirs->0@;
        let wider = p.allowed_image_dirs->0@;
        let i = choose|i: int| 0 <= i < dirs.len() && paths::under(req.image, #[trigger] dirs[i]@);
        assert(under_one_of(dirs[i]@, wider));
        let j = choose|j: int| 0 <= j < wider.len() && paths::under(dirs[i]@, #[trigger] wider[j]@);
        paths::under_is_transitive(req.image, dirs[i]@, wider[j]@);
    }
    admitted_means_every_limit_is_kept(req, p);
}

/// A request that leaves the choice open runs under Firecracker if there is a
/// kernel for it, else under Cloud Hypervisor if there is a firmware for it, else
/// under QEMU; kernel and firmware may come from the request or from the settings.
pub proof fn auto_prefers_the_lightest_monitor(req: CreateVmRequestView, cfg: Config)
    requires
        req.backend == BackendKind::Auto,
    ensures
        ({
            let kernel = req.kernel is Some || cfg.firecracker_kernel is Some;
            let firmware = req.firmware is Some || cfg.cloud_hypervisor_firmware is Some;
            &&& resolved_under(req, cfg) == BackendKind::Firecracker <==> kernel
            &&& resolved_under(req, cfg) == BackendKind::CloudHypervisor <==> !kernel && firmware
            &&& resolved_under(req, cfg) == BackendKind::Qemu <==> !kernel && !firmware
        }),
{
}

/// A request is turned down for its image if and only if it keeps all other
/// limits, directories are listed, and the image lies under none of them.
pub proof fn images_come_from_listed_directories(req: CreateVmRequestView, p: Policy)
    requires
        p.allowed_image_dirs is Some,
    ensures
        violation(req, p) is None ==> exists|i: int|
            0 <= i < p.allowed_image_dirs->0@.len() && paths::under(
                req.image,
                (#[trigger] p.allowed_image_dirs->0@[i])@,
            ),
        violation(req, p) == Some(PolicyError::ImageNotAllowed) ==> forall|i: int|
            0 <= i < p.allowed_image_dirs->0@.len() ==> !paths::under(
                req.image,
                (#[trigger] p.allowed_image_dirs->0@[i])@,
            ),
{
}

/// What a request is turned down for is a limit that it breaks, told with what was
/// asked for and what is allowed; and of several it is the first in this order:
/// processors, memory, disk, lifetime, backend, image.
pub proof fn the_first_broken_limit_is_told(req: CreateVmRequestView, p: Policy)
    ensures
        ({
            let vcpus = p.max_vcpus is Some && req.vcpus > p.max_vcpus->0;
            let memory = p.max_memory_mib is Some && req.memory_mib > p.max_memory_mib->0;
            let disk = p.max_disk_gib is Some && req.disk_size_gib is Some && req.disk_size_gib->0
                > p.max_disk_gib->0;
            let unlimited = p.max_ttl_seconds is Some && req.ttl_seconds is None;
            let ttl = p.max_ttl_seconds is Some && req.ttl_seconds is Some && req.ttl_seconds->0
                > p.max_ttl_seconds->0;
            let backend = p.allowed_backends is Some && forall|i: int|
                0 <= i < p.allowed_backends->0@.len() ==> #[trigger] p.allowed_backends->0@[i]
                    != req.backend;
            let v = violation(req, p);
            &&& v is Some && v->0 is TooManyVcpus <==> vcpus
            &&& vcpus ==> v == Some(
                PolicyError::TooManyVcpus { vcpus: req.vcpus, max_vcpus: p.max_vcpus->0 },
            )
            &&& v is Some && v->0 is TooMuchMemory <==> !vcpus && memory
            &&& !vcpus && memory ==> v == Some(
                PolicyError::TooMuchMemory {
                    memory_mib: req.memory_mib,
                    max: p.max_memory_mib->0,
                },
            )
            &&& v is Some && v->0 is TooMuchDisk <==> !vcpus && !memory && disk
            &&& !vcpus && !memory && disk ==> v == Some(
                PolicyError::TooMuchDisk {
                    disk_gib: req.disk_size_gib->0,
                    max: p.max_disk_gib->0,
                },
            )
            &&& !vcpus && !memory && !disk && unlimited ==> v == Some(
                PolicyError::TtlMissing { max: p.max_ttl_seconds->0 },
            )
            &&& !vcpus && !memory && !disk && ttl ==> v == Some(
                PolicyError::TtlTooLong { ttl: req.ttl_seconds->0, max: p.max_ttl_seconds->0 },
            )
            &&& v is Some && (v->0 is TtlMissing || v->0 is TtlTooLong) <==> !vcpus && !memory
                && !disk && (unlimited || ttl)
            &&& v is Some && v->0 is BackendNotAllowed <==> !vcpus && !memory && !disk
                && !unlimited && !ttl && backend
            &&& v matches Some(PolicyError::BackendNotAllowed { backend: b }) ==> b == req.backend
            &&& v == Some(PolicyError::ImageNotAllowed) ==> p.allowed_image_dirs is Some
        }),
{
    if p.allowed_backends is Some {
        let allowed = p.allowed_backends->0@;
        if allowed.contains(req.backend) {
            let i = choose|i: int| 0 <= i < allowed.len() && allowed[i] == req.backend;
            assert(allowed[i] == req.backend);
        } else if exists|i: int| 0 <= i < allowed.len() && #[trigger] allowed[i] == req.backend {
            let i = choose|i: int| 0 <= i < allowed.len() && #[trigger] allowed[i] == req.backend;
            assert(allowed.contains(allowed[i]));
        }
    }
}

/// A machine is paused, resumed and asked to shut down by a call over the socket
/// of its own monitor: a command of QEMU, or a request to Firecracker. Cloud
/// Hypervisor is not asked.
pub proof fn every_monitor_is_called_in_its_own_way(workspace: Seq<char>, c: Control)
    ensures
        control_call(BackendKind::Qemu, workspace, c) == Some(
            ControlCallView::Qmp {
                socket: paths::joined(workspace, "qmp.sock"@),
                command: match c {
                    Control::Pause => "stop"@,
                    Control::Resume => "cont"@,
                    Control::Shutdown => "system_powerdown"@,
                },
            },
        ),
        control_call(BackendKind::Firecracker, workspace, c) == Some(
            ControlCallView::Http {
                socket: paths::joined(workspace, "firecracker.sock"@),
                method: match c {
                    Control::Shutdown => "PUT"@,
                    _ => "PATCH"@,
                },
                path: match c {
                    Control::Shutdown => "/actions"@,
                    _ => "/vm"@,
                },
                body: match c {
                    Control::Pause => "{\"state\":\"Paused\"}"@,
                    Control::Resume => "{\"state\":\"Resumed\"}"@,
                    Control::Shutdown => "{\"action_type\":\"SendCtrlAltDel\"}"@,
                },
            },
        ),
        control_call(BackendKind::CloudHypervisor, workspace, c) is None,
        control_call(BackendKind::Auto, workspace, c) is None,
{
    reveal_strlit("{");
    reveal_strlit("}");
    reveal_strlit(":");
    reveal_strlit("state");
    reveal_strlit("Paused");
    reveal_strlit("Resumed");
    reveal_strlit("action_type");
    reveal_strlit("SendCtrlAltDel");
    reveal_strlit("{\"state\":\"Paused\"}");
    reveal_strlit("{\"state\":\"Resumed\"}");
    reveal_strlit("{\"action_type\":\"SendCtrlAltDel\"}");
    json::plain_text_is_only_quoted("state"@);
    json::plain_text_is_only_quoted("Paused"@);
    json::plain_text_is_only_quoted("Resumed"@);
    json::plain_text_is_only_quoted("action_type"@);
    json::plain_text_is_only_quoted("SendCtrlAltDel"@);
    assert("{"@ + json::member_text("state"@, json::quoted("Paused"@)) + "}"@
        =~= "{\"state\":\"Paused\"}"@);
    assert("{"@ + json::member_text("state"@, json::quoted("Resumed"@)) + "}"@
        =~= "{\"state\":\"Resumed\"}"@);
    assert("{"@ + json::member_text("action_type"@, json::quoted("SendCtrlAltDel"@)) + "}"@
        =~= "{\"action_type\":\"SendCtrlAltDel\"}"@);
}

/// Who asks for too much is told how much was asked for and how much is allowed;
/// who asks for another backend or image is told which ones there are.
pub proof fn a_refusal_names_what_was_asked_for_and_what_is_allowed(
    image: Seq<char>,
    allowed: Seq<BackendKind>,
    dirs: Seq<Seq<char>>,
    n: u64,
    max: u64,
    vcpus: u8,
    max_vcpus: u8,
    kind: BackendKind,
)
    ensures
        refusal_text(PolicyError::TooManyVcpus { vcpus, max_vcpus }, image, allowed, dirs)
            == "request "@ + "vcpus"@ + " ("@ + text::dec(vcpus as nat) + ") exceeds policy "@
            + "max_vcpus"@ + " ("@ + text::dec(max_vcpus as nat) + ")"@,
        refusal_text(PolicyError::TooMuchMemory { memory_mib: n, max }, image, allowed, dirs)
            == "request "@ + "memory_mib"@ + " ("@ + text::dec(n as nat) + ") exceeds policy "@
            + "max_memory_mib"@ + " ("@ + text::dec(max as nat) + ")"@,
        refusal_text(PolicyError::TooMuchDisk { disk_gib: n, max }, image, allowed, dirs)
            == "request "@ + "disk_size_gib"@ + " ("@ + text::dec(n as nat) + ") exceeds policy "@
            + "max_disk_gib"@ + " ("@ + text::dec(max as nat) + ")"@,
        refusal_text(PolicyError::TtlTooLong { ttl: n, max }, image, allowed, dirs) == "request "@
            + "ttl_seconds"@ + " ("@ + text::dec(n as nat) + ") exceeds policy "@
            + "max_ttl_seconds"@ + " ("@ + text::dec(max as nat) + ")"@,
        text::holds(
            refusal_text(PolicyError::TtlMissing { max }, image, allowed, dirs),
            text::dec(max as nat),
        ),
        text::holds(
            refusal_text(PolicyError::BackendNotAllowed { backend: kind }, image, allowed, dirs),
            list_text(kind_texts(allowed)),
        ),
        text::holds(
            refusal_text(PolicyError::BackendNotAllowed { backend: kind }, image, allowed, dirs),
            kind_text(kind),
        ),
        text::holds(
            refusal_text(PolicyError::ImageNotAllowed, image, allowed, dirs),
            list_text(dirs),
        ),
        text::holds(refusal_text(PolicyError::ImageNotAllowed, image, allowed, dirs), image),
{
    let a = "backend "@ + kind_text(kind);
    let b = a + " is not permitted by policy allowed_backends "@;
    text::what_is_put_behind_hides_nothing("backend "@, kind_text(kind));
    text::what_is_put_behind_hides_nothing(a, " is not permitted by policy allowed_backends "@);
    text::what_is_put_behind_hides_nothing(b, list_text(kind_texts(allowed)));
    let c = "image "@ + image;
    let d = c + " is not under any policy allowed_image_dirs "@;
    text::what_is_put_behind_hides_nothing("image "@, image);
    text::what_is_put_behind_hides_nothing(c, " is not under any policy allowed_image_dirs "@);
    text::what_is_put_behind_hides_nothing(d, list_text(dirs));
    let e = "policy requires ttl_seconds to be set (max_ttl_seconds="@;
    text::what_is_put_behind_hides_nothing(e, text::dec(max as nat));
    text::what_is_put_behind_hides_nothing(
        e + text::dec(max as nat),
        "); unbounded VMs are not allowed"@,
    );
}

/// Lists are shown in brackets with commas, and backends by their names.
pub proof fn lists_are_shown_in_brackets(items: Seq<Seq<char>>, kinds: Seq<BackendKind>, i: int)
    ensures
        list_text(items) == "["@ + text::separated(items, ", "@) + "]"@,
        kind_texts(kinds).len() == kinds.len(),
        0 <= i < kinds.len() ==> kind_texts(kinds)[i] == match kinds[i] {
            BackendKind::Qemu => "Qemu"@,
            BackendKind::CloudHypervisor => "CloudHypervisor"@,
            BackendKind::Firecracker => "Firecracker"@,
            BackendKind::Auto => "Auto"@,
        },
{
}

/// A refusal under a policy shows the lists of that policy.
pub proof fn a_refusal_shows_the_lists_of_the_policy(
    e: PolicyError,
    image: Seq<char>,
    p: Policy,
    i: int,
)
    ensures
        refusal_under(e, image, p) == refusal_text(e, image, listed_backends(p), listed_dirs(p)),
        p.allowed_backends matches Some(l) ==> listed_backends(p) == l@,
        p.allowed_image_dirs matches Some(l) ==> {
            &&& listed_dirs(p).len() == l@.len()
            &&& 0 <= i < l@.len() ==> listed_dirs(p)[i] == quoted_path(l@[i]@)
        },
{
}

} // verus!
