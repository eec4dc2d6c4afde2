//! What callers ask for and what the control plane remembers: requests,
//! records of virtual machines, and warm pools. Paths are text.

use crate::clock::Timestamp;
use crate::text::{self, clone_text, clone_texts};
use vstd::prelude::*;

verus! {

// ------------------------------------------------------------------ backends

#[derive(Debug, Clone, Copy, PartialEq, Eq, Structural)]
pub enum BackendKind {
    Qemu,
    CloudHypervisor,
    Firecracker,
    /// Resolved to a concrete backend by `resolve_backend` as the very first
    /// step of creating a machine: never persisted and never dispatched on.
    Auto,
}

#[derive(Debug, Clone, Copy, PartialEq, Eq, Structural)]
pub enum VmStatus {
    Creating,
    Running,
    Paused,
    Stopped,
    Failed,
}

/// Where the disk of an instance lives.
#[derive(Debug, Clone, Copy, PartialEq, Eq, Structural)]
pub enum StorageBackend {
    /// A file in the workspace of the instance.
    Default,
    /// A block device that a `qemu-nbd` process of the instance exports.
    Nbd,
}

// ------------------------------------------------------------------- network

#[derive(Debug)]
pub struct PortForward {
    pub host_port: u16,
    pub guest_port: u16,
    pub protocol: String,
}

pub struct PortForwardView {
    pub host_port: u16,
    pub guest_port: u16,
    pub protocol: Seq<char>,
}

impl View for PortForward {
    type V = PortForwardView;

    open spec fn view(&self) -> PortForwardView {
        PortForwardView {
            host_port: self.host_port,
            guest_port: self.guest_port,
            protocol: self.protocol@,
        }
    }
}

impl Clone for PortForward {
    fn clone(&self) -> (r: Self)
        ensures
            r == *self,
    {
        PortForward {
            host_port: self.host_port,
            guest_port: self.guest_port,
            protocol: self.protocol.clone(),
        }
    }
}

/// The protocol of a forward that names none.
pub fn default_tcp() -> (r: String)
    ensures
        r@ == "tcp"@,
{
    "tcp".to_owned()
}

/// How a virtual machine is connected.
#[derive(Debug)]
pub enum NetworkSpec {
    /// No network at all.
    Unconnected,
    User { forwards: Vec<PortForward> },
    Tap { tap_name: Option<String>, bridge: Option<String>, mac: Option<String> },
    /// A macvtap device on `parent`, attached through an open file descriptor
    /// under QEMU and Cloud Hypervisor; Firecracker cannot take one.
    Macvtap { parent: String, macvtap_mode: Option<String>, mac: Option<String> },
}

pub enum NetworkSpecView {
    Unconnected,
    User { forwards: Seq<PortForwardView> },
    Tap { tap_name: Option<Seq<char>>, bridge: Option<Seq<char>>, mac: Option<Seq<char>> },
    Macvtap { parent: Seq<char>, macvtap_mode: Option<Seq<char>>, mac: Option<Seq<char>> },
}

impl View for NetworkSpec {
    type V = NetworkSpecView;

    open spec fn view(&self) -> NetworkSpecView {
        match *self {
            NetworkSpec::Unconnected => NetworkSpecView::Unconnected,
            NetworkSpec::User { forwards } => NetworkSpecView::User {
                forwards: text::views(forwards@),
            },
            NetworkSpec::Tap { tap_name, bridge, mac } => NetworkSpecView::Tap {
                tap_name: text::opt(tap_name),
                bridge: text::opt(bridge),
                mac: text::opt(mac),
            },
            NetworkSpec::Macvtap { parent, macvtap_mode, mac } => NetworkSpecView::Macvtap {
                parent: parent@,
                macvtap_mode: text::opt(macvtap_mode),
                mac: text::opt(mac),
            },
        }
    }
}

impl Clone for NetworkSpec {
    fn clone(&self) -> (r: Self)
        ensures
            r@ == self@,
    {
        match self {
            NetworkSpec::Unconnected => NetworkSpec::Unconnected,
            NetworkSpec::User { forwards } => {
                let copy = forwards.clone();
                proof {
                    assert(text::views(copy@) =~= text::views(forwards@));
                }
                NetworkSpec::User { forwards: copy }
            },
            NetworkSpec::Tap { tap_name, bridge, mac } => NetworkSpec::Tap {
                tap_name: clone_text(tap_name),
                bridge: clone_text(bridge),
                mac: clone_text(mac),
            },
            NetworkSpec::Macvtap { parent, macvtap_mode, mac } => NetworkSpec::Macvtap {
                parent: parent.clone(),
                macvtap_mode: clone_text(macvtap_mode),
                mac: clone_text(mac),
            },
        }
    }
}

impl Default for NetworkSpec {
    fn default() -> (r: Self)
        ensures
            r@ == (NetworkSpecView::User { forwards: Seq::empty() }),
    {
        let forwards: Vec<PortForward> = Vec::new();
        proof {
            assert(text::views(forwards@) =~= Seq::empty());
        }
        NetworkSpec::User { forwards }
    }
}

// --------------------------------------------------------------- guest agent

/// The agent inside the guest: whether it runs, the vsock port it listens on,
/// and the secret it asks for with every request.
#[derive(Debug)]
pub struct AgentSpec {
    pub enabled: bool,
    pub port: u32,
    pub token: Option<String>,
}

pub struct AgentSpecView {
    pub enabled: bool,
    pub port: u32,
    pub token: Option<Seq<char>>,
}

impl View for AgentSpec {
    type V = AgentSpecView;

    open spec fn view(&self) -> AgentSpecView {
        AgentSpecView { enabled: self.enabled, port: self.port, token: text::opt(self.token) }
    }
}

impl Clone for AgentSpec {
    fn clone(&self) -> (r: Self)
        ensures
            r == *self,
    {
        AgentSpec { enabled: self.enabled, port: self.port, token: clone_text(&self.token) }
    }
}

/// The vsock port of an agent whose specification names none.
pub fn default_agent_port() -> (r: u32)
    ensures
        r == 17777,
{
    17777
}

impl Default for AgentSpec {
    fn default() -> (r: Self)
        ensures
            r == (AgentSpec { enabled: false, port: 17777, token: None }),
    {
        AgentSpec { enabled: false, port: default_agent_port(), token: None }
    }
}

// ---------------------------------------------------------------- cloud-init

#[derive(Debug)]
pub struct CloudInitSpec {
    pub hostname: Option<String>,
    pub user: Option<String>,
    pub ssh_authorized_keys: Vec<String>,
    pub packages: Vec<String>,
    pub runcmd: Vec<String>,
}

pub struct CloudInitSpecView {
    pub hostname: Option<Seq<char>>,
    pub user: Option<Seq<char>>,
    pub ssh_authorized_keys: Seq<Seq<char>>,
    pub packages: Seq<Seq<char>>,
    pub runcmd: Seq<Seq<char>>,
}

impl View for CloudInitSpec {
    type V = CloudInitSpecView;

    open spec fn view(&self) -> CloudInitSpecView {
        CloudInitSpecView {
            hostname: text::opt(self.hostname),
            user: text::opt(self.user),
            ssh_authorized_keys: text::views(self.ssh_authorized_keys@),
            packages: text::views(self.packages@),
            runcmd: text::views(self.runcmd@),
        }
    }
}

impl Clone for CloudInitSpec {
    fn clone(&self) -> (r: Self)
        ensures
            r@ == self@,
    {
        CloudInitSpec {
            hostname: clone_text(&self.hostname),
            user: clone_text(&self.user),
            ssh_authorized_keys: clone_texts(&self.ssh_authorized_keys),
            packages: clone_texts(&self.packages),
            runcmd: clone_texts(&self.runcmd),
        }
    }
}

impl Default for CloudInitSpec {
    fn default() -> (r: Self)
        ensures
            r.hostname is None,
            r.user is None,
            r.ssh_authorized_keys@.len() == 0,
            r.packages@.len() == 0,
            r.runcmd@.len() == 0,
    {
        CloudInitSpec {
            hostname: None,
            user: None,
            ssh_authorized_keys: Vec::new(),
            packages: Vec::new(),
            runcmd: Vec::new(),
        }
    }
}

// ------------------------------------------------------------------ requests

/// A host directory that the guest sees through virtiofs.
#[derive(Debug)]
pub struct SharedFolder {
    pub host_path: String,
    pub read_only: bool,
}

pub struct SharedFolderView {
    pub host_path: Seq<char>,
    pub read_only: bool,
}

impl View for SharedFolder {
    type V = SharedFolderView;

    open spec fn view(&self) -> SharedFolderView {
        SharedFolderView { host_path: self.host_path@, read_only: self.read_only }
    }
}

impl Clone for SharedFolder {
    fn clone(&self) -> (r: Self)
        ensures
            r == *self,
    {
        SharedFolder { host_path: self.host_path.clone(), read_only: self.read_only }
    }
}

#[derive(Debug)]
pub struct CreateVmRequest {
    pub name: String,
    pub backend: BackendKind,
    pub image: String,
    pub vcpus: u8,
    pub memory_mib: u64,
    pub disk_size_gib: Option<u64>,
    pub kernel: Option<String>,
    pub initrd: Option<String>,
    pub firmware: Option<String>,
    pub kernel_args: Option<String>,
    pub network: NetworkSpec,
    pub cloud_init: Option<CloudInitSpec>,
    pub ttl_seconds: Option<u64>,
    pub extra_args: Vec<String>,
    pub agent: Option<AgentSpec>,
    pub storage: StorageBackend,
    pub shared_folders: Vec<SharedFolder>,
}

#[verifier::ext_equal]
pub struct CreateVmRequestView {
    pub name: Seq<char>,
    pub backend: BackendKind,
    pub image: Seq<char>,
    pub vcpus: u8,
    pub memory_mib: u64,
    pub disk_size_gib: Option<u64>,
    pub kernel: Option<Seq<char>>,
    pub initrd: Option<Seq<char>>,
    pub firmware: Option<Seq<char>>,
    pub kernel_args: Option<Seq<char>>,
    pub network: NetworkSpecView,
    pub cloud_init: Option<CloudInitSpecView>,
    pub ttl_seconds: Option<u64>,
    pub extra_args: Seq<Seq<char>>,
    pub agent: Option<AgentSpecView>,
    pub storage: StorageBackend,
    pub shared_folders: Seq<SharedFolderView>,
}

impl CreateVmRequestView {
    /// The request asks for the agent in the guest.
    pub open spec fn agent_enabled(self) -> bool {
        self.agent is Some && self.agent->0.enabled
    }
}

impl View for CreateVmRequest {
    type V = CreateVmRequestView;

    open spec fn view(&self) -> CreateVmRequestView {
        CreateVmRequestView {
            name: self.name@,
            backend: self.backend,
            image: self.image@,
            vcpus: self.vcpus,
            memory_mib: self.memory_mib,
            disk_size_gib: self.disk_size_gib,
            kernel: text::opt(self.kernel),
            initrd: text::opt(self.initrd),
            firmware: text::opt(self.firmware),
            kernel_args: text::opt(self.kernel_args),
            network: self.network@,
            cloud_init: text::opt(self.cloud_init),
            ttl_seconds: self.ttl_seconds,
            extra_args: text::views(self.extra_args@),
            agent: text::opt(self.agent),
            storage: self.storage,
            shared_folders: text::views(self.shared_folders@),
        }
    }
}

impl Clone for CreateVmRequest {
    fn clone(&self) -> (r: Self)
        ensures
            r@ == self@,
    {
        let cloud_init = match &self.cloud_init {
            Some(ci) => Some(ci.clone()),
            None => None,
        };
        let agent = match &self.agent {
            Some(a) => Some(a.clone()),
            None => None,
        };
        let shared_folders = self.shared_folders.clone();
        proof {
            assert(text::views(shared_folders@) =~= text::views(self.shared_folders@));
        }
        CreateVmRequest {
            name: self.name.clone(),
            backend: self.backend,
            image: self.image.clone(),
            vcpus: self.vcpus,
            memory_mib: self.memory_mib,
            disk_size_gib: self.disk_size_gib,
            kernel: clone_text(&self.kernel),
            initrd: clone_text(&self.initrd),
            firmware: clone_text(&self.firmware),
            kernel_args: clone_text(&self.kernel_args),
            network: self.network.clone(),
            cloud_init,
            ttl_seconds: self.ttl_seconds,
            extra_args: clone_texts(&self.extra_args),
            agent,
            storage: self.storage,
            shared_folders,
        }
    }
}

impl CreateVmRequest {
    pub fn agent_enabled(&self) -> (r: bool)
        ensures
            r == self@.agent_enabled(),
    {
        match &self.agent {
            Some(a) => a.enabled,
            None => false,
        }
    }
}

/// The number of processors of a request that names none.
pub fn default_vcpus() -> (r: u8)
    ensures
        r == 2,
{
    2
}

/// The memory of a request that names none, in MiB.
pub fn default_memory() -> (r: u64)
    ensures
        r == 2048,
{
    2048
}

// ------------------------------------------------------------------- records

#[derive(Debug)]
pub struct VmRecord {
    pub id: u128,
    pub name: String,
    pub backend: BackendKind,
    pub status: VmStatus,
    pub pid: Option<u32>,
    pub created_at: Timestamp,
    pub expires_at: Option<Timestamp>,
    pub workspace: String,
    pub disk: String,
    pub seed_disk: Option<String>,
    pub tap_name: Option<String>,
    pub control_socket: Option<String>,
    pub log_path: String,
    pub error: Option<String>,
    pub request: CreateVmRequest,
    /// The vsock address of the guest, unique on the host, when the request
    /// enables the agent.
    pub guest_cid: Option<u32>,
    pub jail_path: Option<String>,
    pub vsock_socket: Option<String>,
    pub cgroup_path: Option<String>,
    pub netns: Option<String>,
    pub lvm_lv: Option<String>,
    pub nbd_pid: Option<u32>,
}

#[verifier::ext_equal]
pub struct VmRecordView {
    pub id: u128,
    pub name: Seq<char>,
    pub backend: BackendKind,
    pub status: VmStatus,
    pub pid: Option<u32>,
    pub created_at: Timestamp,
    pub expires_at: Option<Timestamp>,
    pub workspace: Seq<char>,
    pub disk: Seq<char>,
    pub seed_disk: Option<Seq<char>>,
    pub tap_name: Option<Seq<char>>,
    pub control_socket: Option<Seq<char>>,
    pub log_path: Seq<char>,
    pub error: Option<Seq<char>>,
    pub request: CreateVmRequestView,
    pub guest_cid: Option<u32>,
    pub jail_path: Option<Seq<char>>,
    pub vsock_socket: Option<Seq<char>>,
    pub cgroup_path: Option<Seq<char>>,
    pub netns: Option<Seq<char>>,
    pub lvm_lv: Option<Seq<char>>,
    pub nbd_pid: Option<u32>,
}

impl View for VmRecord {
    type V = VmRecordView;

    open spec fn view(&self) -> VmRecordView {
        VmRecordView {
            id: self.id,
            name: self.name@,
            backend: self.backend,
            status: self.status,
            pid: self.pid,
            created_at: self.created_at,
            expires_at: self.expires_at,
            workspace: self.workspace@,
            disk: self.disk@,
            seed_disk: text::opt(self.seed_disk),
            tap_name: text::opt(self.tap_name),
            control_socket: text::opt(self.control_socket),
            log_path: self.log_path@,
            error: text::opt(self.error),
            request: self.request@,
            guest_cid: self.guest_cid,
            jail_path: text::opt(self.jail_path),
            vsock_socket: text::opt(self.vsock_socket),
            cgroup_path: text::opt(self.cgroup_path),
            netns: text::opt(self.netns),
            lvm_lv: text::opt(self.lvm_lv),
            nbd_pid: self.nbd_pid,
        }
    }
}

impl Clone for VmRecord {
    fn clone(&self) -> (r: Self)
        ensures
            r@ == self@,
    {
        VmRecord {
            id: self.id,
            name: self.name.clone(),
            backend: self.backend,
            status: self.status,
            pid: self.pid,
            created_at: self.created_at,
            expires_at: self.expires_at,
            workspace: self.workspace.clone(),
            disk: self.disk.clone(),
            seed_disk: clone_text(&self.seed_disk),
            tap_name: clone_text(&self.tap_name),
            control_socket: clone_text(&self.control_socket),
            log_path: self.log_path.clone(),
            error: clone_text(&self.error),
            request: self.request.clone(),
            guest_cid: self.guest_cid,
            jail_path: clone_text(&self.jail_path),
            vsock_socket: clone_text(&self.vsock_socket),
            cgroup_path: clone_text(&self.cgroup_path),
            netns: clone_text(&self.netns),
            lvm_lv: clone_text(&self.lvm_lv),
            nbd_pid: self.nbd_pid,
        }
    }
}

// --------------------------------------------------------------------- pools

/// A template for a warm pool: `size` machines that match `template` are kept
/// booted and paused, ready to be handed out. The name and the lifetime of the
/// template are not used for members.
#[derive(Debug)]
pub struct PoolSpec {
    pub name: String,
    pub size: usize,
    pub template: CreateVmRequest,
}

/// A warm pool with the identifiers of the machines that wait in it.
#[derive(Debug)]
pub struct PoolRecord {
    pub name: String,
    pub size: usize,
    pub template: CreateVmRequest,
    pub members: Vec<u128>,
}

#[verifier::ext_equal]
pub struct PoolRecordView {
    pub name: Seq<char>,
    pub size: usize,
    pub template: CreateVmRequestView,
    pub members: Seq<u128>,
}

impl View for PoolRecord {
    type V = PoolRecordView;

    open spec fn view(&self) -> PoolRecordView {
        PoolRecordView {
            name: self.name@,
            size: self.size,
            template: self.template@,
            members: self.members@,
        }
    }
}

impl Clone for PoolRecord {
    fn clone(&self) -> (r: Self)
        ensures
            r@ == self@,
    {
        let members = self.members.clone();
        proof {
            assert(members@ =~= self.members@);
        }
        PoolRecord {
            name: self.name.clone(),
            size: self.size,
            template: self.template.clone(),
            members,
        }
    }
}

/// What a claim from a pool puts in place of the name and the lifetime of the
/// template.
#[derive(Debug)]
pub struct ClaimOverrides {
    pub name: Option<String>,
    pub ttl_seconds: Option<u64>,
}

impl Default for ClaimOverrides {
    fn default() -> (r: Self)
        ensures
            r == (ClaimOverrides { name: None, ttl_seconds: None }),
    {
        ClaimOverrides { name: None, ttl_seconds: None }
    }
}

// ------------------------------------------------------------------------ laws

/// The view of a request shows everything that the request says.
pub proof fn a_request_is_shown_in_full(req: CreateVmRequest)
    ensures
        req@.name == req.name@,
        req@.backend == req.backend,
        req@.image == req.image@,
        req@.vcpus == req.vcpus,
        req@.memory_mib == req.memory_mib,
        req@.disk_size_gib == req.disk_size_gib,
        req@.kernel == text::opt(req.kernel),
        req@.initrd == text::opt(req.initrd),
        req@.firmware == text::opt(req.firmware),
        req@.kernel_args == text::opt(req.kernel_args),
        req@.network == req.network@,
        req@.cloud_init == text::opt(req.cloud_init),
        req@.ttl_seconds == req.ttl_seconds,
        req@.extra_args == text::views(req.extra_args@),
        req@.agent == text::opt(req.agent),
        req@.storage == req.storage,
        req@.shared_folders == text::views(req.shared_folders@),
        req@.agent_enabled() <==> req.agent is Some && req.agent->0.enabled,
{
}

/// The view of a record shows everything that the record says.
pub proof fn a_record_is_shown_in_full(vm: VmRecord)
    ensures
        vm@.id == vm.id,
        vm@.name == vm.name@,
        vm@.backend == vm.backend,
        vm@.status == vm.status,
        vm@.pid == vm.pid,
        vm@.created_at == vm.created_at,
        vm@.expires_at == vm.expires_at,
        vm@.workspace == vm.workspace@,
        vm@.disk == vm.disk@,
        vm@.seed_disk == text::opt(vm.seed_disk),
        vm@.tap_name == text::opt(vm.tap_name),
        vm@.control_socket == text::opt(vm.control_socket),
        vm@.log_path == vm.log_path@,
        vm@.error == text::opt(vm.error),
        vm@.request == vm.request@,
        vm@.guest_cid == vm.guest_cid,
        vm@.jail_path == text::opt(vm.jail_path),
        vm@.vsock_socket == text::opt(vm.vsock_socket),
        vm@.cgroup_path == text::opt(vm.cgroup_path),
        vm@.netns == text::opt(vm.netns),
        vm@.lvm_lv == text::opt(vm.lvm_lv),
        vm@.nbd_pid == vm.nbd_pid,
{
}

/// The views of the parts of a request, and of a pool, show all that they say.
pub proof fn parts_are_shown_in_full(
    n: NetworkSpec,
    f: PortForward,
    a: AgentSpec,
    ci: CloudInitSpec,
    s: SharedFolder,
    p: PoolRecord,
)
    ensures
        match n {
            NetworkSpec::Unconnected => n@ is Unconnected,
            NetworkSpec::User { forwards } => n@ == (NetworkSpecView::User {
                forwards: text::views(forwards@),
            }),
            NetworkSpec::Tap { tap_name, bridge, mac } => n@ == (NetworkSpecView::Tap {
                tap_name: text::opt(tap_name),
                bridge: text::opt(bridge),
                mac: text::opt(mac),
            }),
            NetworkSpec::Macvtap { parent, macvtap_mode, mac } => n@ == (
            NetworkSpecView::Macvtap {
                parent: parent@,
                macvtap_mode: text::opt(macvtap_mode),
                mac: text::opt(mac),
            }),
        },
        f@.host_port == f.host_port && f@.guest_port == f.guest_port && f@.protocol == f.protocol@,
        a@.enabled == a.enabled && a@.port == a.port && a@.token == text::opt(a.token),
        ci@.hostname == text::opt(ci.hostname) && ci@.user == text::opt(ci.user),
        ci@.ssh_authorized_keys == text::views(ci.ssh_authorized_keys@),
        ci@.packages == text::views(ci.packages@) && ci@.runcmd == text::views(ci.runcmd@),
        s@.host_path == s.host_path@ && s@.read_only == s.read_only,
        p@.name == p.name@ && p@.size == p.size && p@.template == p.template@ && p@.members
            == p.members@,
{
}

} // verus!
