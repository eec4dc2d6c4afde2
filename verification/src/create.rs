//! Bringing a virtual machine up: what is decided before anything is touched,
//! and what follows from how each piece of work ends.

use crate::backend::{LaunchContext, LaunchContextView, LaunchResult, PreparedNetwork,
    PreparedNetworkView};
use crate::clock::{self, expiry_after, expiry_in_range, now, Timestamp};
use crate::config::Config;
use crate::draw::{self, identifier, secret};
use crate::ids::{self, id_text};
use crate::model::{AgentSpecView, BackendKind, CloudInitSpec, CloudInitSpecView,
    CreateVmRequest, CreateVmRequestView, NetworkSpec, NetworkSpecView, VmRecord, VmRecordView,
    VmStatus};
use crate::paths::{self, join};
use crate::policy::{self, resolve_backend, validate_policy, PolicyError};
use crate::text::{self, clone_text};
use vstd::prelude::*;

verus! {

// ------------------------------------------------------------------- admission

/// The request with its backend resolved.
pub open spec fn with_backend(req: CreateVmRequestView, cfg: Config) -> CreateVmRequestView {
    CreateVmRequestView { backend: policy::resolved_under(req, cfg), ..req }
}

/// Why no machine is created.
#[derive(Debug, Clone, Copy, PartialEq, Eq, Structural)]
pub enum CreateError {
    /// The request does not keep the limits.
    Policy(PolicyError),
    /// There is no image to start from.
    ImageMissing,
}

/// Why no machine is created for a request: the limit that it breaks with its
/// backend resolved, or else that its image does not exist.
pub open spec fn create_error(
    req: CreateVmRequestView,
    cfg: Config,
    image_exists: bool,
) -> Option<CreateError> {
    match policy::violation(with_backend(req, cfg), cfg.policy) {
        Some(e) => Some(CreateError::Policy(e)),
        None => if image_exists {
            None
        } else {
            Some(CreateError::ImageMissing)
        },
    }
}

/// Resolves the backend of a request, then checks it against the limits, then
/// looks at whether its image exists.
pub fn accept(req: CreateVmRequest, cfg: &Config, image_exists: bool) -> (r: Result<
    CreateVmRequest,
    CreateError,
>)
    ensures
        match r {
            Ok(accepted) => create_error(req@, *cfg, image_exists) is None && accepted@
                == with_backend(req@, *cfg),
            Err(e) => create_error(req@, *cfg, image_exists) == Some(e),
        },
{
    let mut req = req;
    req.backend = resolve_backend(&req, cfg);
    match validate_policy(&req, cfg) {
        Ok(_) => if image_exists {
            Ok(req)
        } else {
            Err(CreateError::ImageMissing)
        },
        Err(e) => Err(CreateError::Policy(e)),
    }
}

/// Why no machine is created for the image `image`, in words.
pub open spec fn refusal_text(e: CreateError, image: Seq<char>, cfg: Config) -> Seq<char> {
    match e {
        CreateError::Policy(e) => policy::refusal_under(e, image, cfg.policy),
        CreateError::ImageMissing => "base image does not exist: "@ + image,
    }
}

pub fn refusal(e: CreateError, image: &str, cfg: &Config) -> (r: String)
    ensures
        r@ == refusal_text(e, image@, *cfg),
{
    match e {
        CreateError::Policy(e) => policy::refusal(e, image, &cfg.policy),
        CreateError::ImageMissing => text::cat2("base image does not exist: ", image),
    }
}

// ---------------------------------------------------------------- new instances

/// The lifetime of a request leads past the end of the calendar.
#[derive(Debug, Clone, Copy, PartialEq, Eq, Structural)]
pub struct ExpiryOutOfRange;

/// The directory of an instance.
pub open spec fn workspace_of(state_dir: Seq<char>, id: u128) -> Seq<char> {
    paths::joined(paths::joined(state_dir, "instances"@), ids::hyphenated_form(id))
}

/// The disk of an instance: a layer over the image for QEMU, a raw copy for
/// the others.
pub open spec fn disk_name(backend: BackendKind) -> Seq<char> {
    if backend == BackendKind::Qemu {
        "root.qcow2"@
    } else {
        "root.raw"@
    }
}

/// The request with a token for the agent, if it is enabled and has none.
pub open spec fn with_token(req: CreateVmRequestView, token: u128) -> CreateVmRequestView {
    if req.agent_enabled() && req.agent->0.token is None {
        CreateVmRequestView {
            agent: Some(
                AgentSpecView { token: Some(ids::hyphenated_form(token)), ..req.agent->0 },
            ),
            ..req
        }
    } else {
        req
    }
}

/// When a machine with the lifetime `ttl` expires that is made at `t`.
pub open spec fn expiry_of(ttl: Option<u64>, t: Timestamp) -> Option<Timestamp> {
    match ttl {
        Some(s) => Some(clock::expiry(t, s)),
        None => None,
    }
}

/// A lifetime that does not lead past the end of the calendar.
pub open spec fn lifetime_fits(ttl: Option<u64>, t: Timestamp) -> bool {
    ttl is Some ==> clock::expiry_fits(t, ttl->0)
}

/// The record of a machine before anything of it exists.
pub open spec fn placeholder(
    req: CreateVmRequestView,
    state_dir: Seq<char>,
    id: u128,
    expires_at: Option<Timestamp>,
    created_at: Timestamp,
) -> VmRecordView {
    let workspace = workspace_of(state_dir, id);
    VmRecordView {
        id,
        name: req.name,
        backend: req.backend,
        status: VmStatus::Creating,
        pid: None,
        created_at,
        expires_at,
        workspace,
        disk: paths::joined(workspace, disk_name(req.backend)),
        seed_disk: None,
        tap_name: None,
        control_socket: None,
        log_path: paths::joined(workspace, "console.log"@),
        error: None,
        request: req,
        guest_cid: None,
        jail_path: None,
        vsock_socket: None,
        cgroup_path: None,
        netns: None,
        lvm_lv: None,
        nbd_pid: None,
    }
}

/// The record of a new machine with the identifier `id`, a token made from
/// `token` where one is missing, a lifetime that starts at `started` and the
/// date of creation `created_at`.
pub fn instance(
    req: CreateVmRequest,
    cfg: &Config,
    id: u128,
    token: u128,
    started: Timestamp,
    created_at: Timestamp,
) -> (r: Result<VmRecord, ExpiryOutOfRange>)
    requires
        started.valid(),
    ensures
        match r {
            Ok(vm) => lifetime_fits(req@.ttl_seconds, started) && vm@ == placeholder(
                with_token(req@, token),
                cfg.state_dir@,
                id,
                expiry_of(req@.ttl_seconds, started),
                created_at,
            ),
            Err(_) => !lifetime_fits(req@.ttl_seconds, started),
        },
{
    let instances = join(cfg.state_dir.as_str(), "instances");
    let name = id_text(id);
    let workspace = join(instances.as_str(), name.as_str());
    let disk = if req.backend == BackendKind::Qemu {
        join(workspace.as_str(), "root.qcow2")
    } else {
        join(workspace.as_str(), "root.raw")
    };
    let log_path = join(workspace.as_str(), "console.log");
    let expires_at = match req.ttl_seconds {
        Some(s) => {
            if !expiry_in_range(started, s) {
                return Err(ExpiryOutOfRange);
            }
            Some(expiry_after(started, s))
        },
        None => None,
    };
    let ghost asked = req@;
    let mut req = req;
    if req.agent_enabled() {
        if let Some(mut agent) = req.agent {
            if agent.token.is_none() {
                agent.token = Some(id_text(token));
            }
            req.agent = Some(agent);
        }
    }
    proof {
        assert(req@ =~= with_token(asked, token));
    }
    Ok(
        VmRecord {
            id,
            name: req.name.clone(),
            backend: req.backend,
            status: VmStatus::Creating,
            pid: None,
            created_at,
            expires_at,
            workspace,
            disk,
            seed_disk: None,
            tap_name: None,
            control_socket: None,
            log_path,
            error: None,
            request: req,
            guest_cid: None,
            jail_path: None,
            vsock_socket: None,
            cgroup_path: None,
            netns: None,
            lvm_lv: None,
            nbd_pid: None,
        },
    )
}

/// The record of a new machine with an identifier and a token drawn at random,
/// made now.
pub fn new_instance(req: CreateVmRequest, cfg: &Config) -> (r: Result<VmRecord, ExpiryOutOfRange>)
    ensures
        match r {
            Ok(vm) => exists|token: u128, started: Timestamp|
                {
                    &&& ids::is_random_id(vm@.id)
                    &&& draw::is_identifier(vm@.id)
                    &&& ids::is_random_id(token)
                    &&& draw::is_secret(token)
                    &&& vm@.created_at.valid() && vm@.created_at.secs >= 0
                    &&& vm@.created_at.shown_by_clock()
                    &&& started.valid() && started.secs >= 0
                    &&& started.shown_by_clock()
                    &&& #[trigger] lifetime_fits(req@.ttl_seconds, started)
                    &&& vm@ == placeholder(
                        #[trigger] with_token(req@, token),
                        cfg.state_dir@,
                        vm@.id,
                        expiry_of(req@.ttl_seconds, started),
                        vm@.created_at,
                    )
                },
            Err(_) => exists|started: Timestamp|
                started.valid() && started.secs >= 0 && started.shown_by_clock()
                    && !#[trigger] lifetime_fits(req@.ttl_seconds, started),
        },
{
    let id: u128 = identifier();
    let token: u128 = secret();
    let started = now();
    let created_at = now();
    instance(req, cfg, id, token, started, created_at)
}

// -------------------------------------------------------------- bringing one up

/// What is being done for a machine that comes up.
#[derive(Debug, Clone, Copy, PartialEq, Eq, Structural)]
pub enum CreateStage {
    Cloning,
    InjectingToken,
    BuildingSeed,
    Networking,
    Launching,
    CleaningUp,
    Finished,
}

/// What to do next for a machine that comes up.
#[derive(Debug)]
pub enum CreateAction {
    CloneDisk { image: String, backend: BackendKind, disk: String, size_gib: Option<u64> },
    InjectToken { disk: String, token: String },
    BuildSeed { dir: String, cloud_init: CloudInitSpec },
    PrepareNetwork { id: u128, spec: NetworkSpec },
    Launch { ctx: LaunchContext },
    CleanUpNetwork { spec: NetworkSpec, tap: String },
    /// Keep the record as it is now. The machine runs, or there is an error.
    Finish { record: VmRecord, error: Option<String> },
}

pub enum CreateActionView {
    CloneDisk { image: Seq<char>, backend: BackendKind, disk: Seq<char>, size_gib: Option<u64> },
    InjectToken { disk: Seq<char>, token: Seq<char> },
    BuildSeed { dir: Seq<char>, cloud_init: CloudInitSpecView },
    PrepareNetwork { id: u128, spec: NetworkSpecView },
    Launch { ctx: LaunchContextView },
    CleanUpNetwork { spec: NetworkSpecView, tap: Seq<char> },
    Finish { record: VmRecordView, error: Option<Seq<char>> },
}

impl View for CreateAction {
    type V = CreateActionView;

    open spec fn view(&self) -> CreateActionView {
        match *self {
            CreateAction::CloneDisk { image, backend, disk, size_gib } => {
                CreateActionView::CloneDisk { image: image@, backend, disk: disk@, size_gib }
            },
            CreateAction::InjectToken { disk, token } => CreateActionView::InjectToken {
                disk: disk@,
                token: token@,
            },
            CreateAction::BuildSeed { dir, cloud_init } => CreateActionView::BuildSeed {
                dir: dir@,
                cloud_init: cloud_init@,
            },
            CreateAction::PrepareNetwork { id, spec } => CreateActionView::PrepareNetwork {
                id,
                spec: spec@,
            },
            CreateAction::Launch { ctx } => CreateActionView::Launch { ctx: ctx@ },
            CreateAction::CleanUpNetwork { spec, tap } => CreateActionView::CleanUpNetwork {
                spec: spec@,
                tap: tap@,
            },
            CreateAction::Finish { record, error } => CreateActionView::Finish {
                record: record@,
                error: text::opt(error),
            },
        }
    }
}

/// How the last piece of work ended.
#[derive(Debug)]
pub enum CreateEvent {
    /// It is done, and there is nothing to tell.
    Done,
    SeedBuilt { path: String },
    NetworkReady { network: PreparedNetwork },
    Launched { result: LaunchResult },
    Failed { error: String },
}

pub enum CreateEventView {
    Done,
    SeedBuilt { path: Seq<char> },
    NetworkReady { network: PreparedNetworkView },
    Launched { pid: u32, control_socket: Option<Seq<char>> },
    Failed { error: Seq<char> },
}

impl View for CreateEvent {
    type V = CreateEventView;

    open spec fn view(&self) -> CreateEventView {
        match *self {
            CreateEvent::Done => CreateEventView::Done,
            CreateEvent::SeedBuilt { path } => CreateEventView::SeedBuilt { path: path@ },
            CreateEvent::NetworkReady { network } => CreateEventView::NetworkReady {
                network: network@,
            },
            CreateEvent::Launched { result } => CreateEventView::Launched {
                pid: result.pid,
                control_socket: text::opt(result.control_socket),
            },
            CreateEvent::Failed { error } => CreateEventView::Failed { error: error@ },
        }
    }
}

/// The events that can end the work of a stage.
pub open spec fn expected(stage: CreateStage, e: CreateEventView) -> bool {
    match stage {
        CreateStage::Cloning => e is Done || e is Failed,
        CreateStage::InjectingToken => e is Done || e is Failed,
        CreateStage::BuildingSeed => e is SeedBuilt || e is Failed,
        CreateStage::Networking => e is NetworkReady || e is Failed,
        CreateStage::Launching => e is Launched || e is Failed,
        CreateStage::CleaningUp => e is Done || e is Failed,
        CreateStage::Finished => false,
    }
}

#[verifier::ext_equal]
pub struct CreationView {
    pub stage: CreateStage,
    pub record: VmRecordView,
    pub seed: Option<Seq<char>>,
}

/// A machine that comes up.
#[derive(Debug)]
pub struct Creation {
    stage: CreateStage,
    record: VmRecord,
    seed: Option<String>,
}

impl View for Creation {
    type V = CreationView;

    closed spec fn view(&self) -> CreationView {
        CreationView { stage: self.stage, record: self.record@, seed: text::opt(self.seed) }
    }
}

/// The disk is copied first.
pub open spec fn first_step(record: VmRecordView) -> (CreationView, CreateActionView) {
    (
        CreationView { stage: CreateStage::Cloning, record, seed: None },
        CreateActionView::CloneDisk {
            image: record.request.image,
            backend: record.request.backend,
            disk: record.disk,
            size_gib: record.request.disk_size_gib,
        },
    )
}

/// The token goes into the disk, if there is one.
pub open spec fn to_token(c: CreationView) -> (CreationView, CreateActionView) {
    match c.record.request.agent {
        Some(agent) => match agent.token {
            Some(token) => (
                CreationView { stage: CreateStage::InjectingToken, ..c },
                CreateActionView::InjectToken { disk: c.record.disk, token },
            ),
            None => to_seed(c),
        },
        None => to_seed(c),
    }
}

/// The seed disk is made, if the request describes one.
pub open spec fn to_seed(c: CreationView) -> (CreationView, CreateActionView) {
    match c.record.request.cloud_init {
        Some(cloud_init) => (
            CreationView { stage: CreateStage::BuildingSeed, ..c },
            CreateActionView::BuildSeed { dir: c.record.workspace, cloud_init },
        ),
        None => to_network(c),
    }
}

pub open spec fn to_network(c: CreationView) -> (CreationView, CreateActionView) {
    (
        CreationView { stage: CreateStage::Networking, ..c },
        CreateActionView::PrepareNetwork { id: c.record.id, spec: c.record.request.network },
    )
}

/// The socket that stands for the guest's vsock: none for QEMU, which has a
/// kernel device, and none without an address.
pub open spec fn vsock_socket_of(record: VmRecordView) -> Option<Seq<char>> {
    if record.guest_cid is Some && record.request.backend != BackendKind::Qemu {
        Some(paths::joined(record.workspace, "vsock.sock"@))
    } else {
        None
    }
}

/// The format of the disk of an instance.
pub open spec fn disk_format(backend: BackendKind) -> Seq<char> {
    if backend == BackendKind::Qemu {
        "qcow2"@
    } else {
        "raw"@
    }
}

pub open spec fn launch_context(c: CreationView, network: PreparedNetworkView) -> LaunchContextView {
    LaunchContextView {
        id: c.record.id,
        workspace: c.record.workspace,
        disk: c.record.disk,
        seed_disk: c.seed,
        log_path: c.record.log_path,
        network,
        guest_cid: c.record.guest_cid,
        vsock_socket: vsock_socket_of(c.record),
        disk_format: disk_format(c.record.request.backend),
        nbd_export: None,
    }
}

/// The machine is launched; its record has the network device and the seed.
pub open spec fn to_launch(c: CreationView, network: PreparedNetworkView) -> (
    CreationView,
    CreateActionView,
) {
    (
        CreationView {
            stage: CreateStage::Launching,
            record: VmRecordView { tap_name: network.tap_name, seed_disk: c.seed, ..c.record },
            seed: c.seed,
        },
        CreateActionView::Launch { ctx: launch_context(c, network) },
    )
}

pub open spec fn finish(c: CreationView, record: VmRecordView) -> (CreationView, CreateActionView) {
    (
        CreationView { stage: CreateStage::Finished, record, ..c },
        CreateActionView::Finish { record, error: record.error },
    )
}

/// The record of a machine that runs.
pub open spec fn running(
    record: VmRecordView,
    pid: u32,
    control_socket: Option<Seq<char>>,
) -> VmRecordView {
    VmRecordView { status: VmStatus::Running, pid: Some(pid), control_socket, ..record }
}

/// The record of a machine that did not come up.
pub open spec fn failed(record: VmRecordView, error: Seq<char>) -> VmRecordView {
    VmRecordView { status: VmStatus::Failed, error: Some(error), ..record }
}

/// Something went wrong: a network device is removed, if there is one.
pub open spec fn to_failure(c: CreationView, error: Seq<char>) -> (CreationView, CreateActionView) {
    match c.record.tap_name {
        Some(tap) => (
            CreationView { stage: CreateStage::CleaningUp, record: failed(c.record, error), ..c },
            CreateActionView::CleanUpNetwork { spec: c.record.request.network, tap },
        ),
        None => finish(c, failed(c.record, error)),
    }
}

/// What follows from how the last piece of work ended.
pub open spec fn next_step(c: CreationView, e: CreateEventView) -> (CreationView, CreateActionView) {
    if c.stage == CreateStage::CleaningUp {
        finish(c, c.record)
    } else {
        match e {
            CreateEventView::Failed { error } => to_failure(c, error),
            CreateEventView::Done => if c.stage == CreateStage::Cloning {
                to_token(c)
            } else {
                to_seed(c)
            },
            CreateEventView::SeedBuilt { path } => to_network(
                CreationView { seed: Some(path), ..c },
            ),
            CreateEventView::NetworkReady { network } => to_launch(c, network),
            CreateEventView::Launched { pid, control_socket } => finish(
                c,
                running(c.record, pid, control_socket),
            ),
        }
    }
}

impl Creation {
    /// Starts to bring up the machine of a record.
    pub fn start(record: VmRecord) -> (r: (Creation, CreateAction))
        ensures
            (r.0@, r.1@) == first_step(record@),
    {
        let action = CreateAction::CloneDisk {
            image: record.request.image.clone(),
            backend: record.request.backend,
            disk: record.disk.clone(),
            size_gib: record.request.disk_size_gib,
        };
        (Creation { stage: CreateStage::Cloning, record, seed: None }, action)
    }

    /// What is being done.
    pub fn stage(&self) -> (r: CreateStage)
        ensures
            r == self@.stage,
    {
        self.stage
    }

    fn after_clone(self) -> (r: (Creation, CreateAction))
        ensures
            (r.0@, r.1@) == to_token(self@),
    {
        if let Some(agent) = &self.record.request.agent {
            if let Some(token) = &agent.token {
                let action = CreateAction::InjectToken {
                    disk: self.record.disk.clone(),
                    token: token.clone(),
                };
                let c = Creation { stage: CreateStage::InjectingToken, ..self };
                return (c, action);
            }
        }
        self.after_token()
    }

    fn after_token(self) -> (r: (Creation, CreateAction))
        ensures
            (r.0@, r.1@) == to_seed(self@),
    {
        if let Some(cloud_init) = &self.record.request.cloud_init {
            let action = CreateAction::BuildSeed {
                dir: self.record.workspace.clone(),
                cloud_init: cloud_init.clone(),
            };
            let c = Creation { stage: CreateStage::BuildingSeed, ..self };
            return (c, action);
        }
        self.after_seed()
    }

    fn after_seed(self) -> (r: (Creation, CreateAction))
        ensures
            (r.0@, r.1@) == to_network(self@),
    {
        let action = CreateAction::PrepareNetwork {
            id: self.record.id,
            spec: self.record.request.network.clone(),
        };
        let c = Creation { stage: CreateStage::Networking, ..self };
        (c, action)
    }

    fn after_network(self, network: PreparedNetwork) -> (r: (Creation, CreateAction))
        ensures
            (r.0@, r.1@) == to_launch(self@, network@),
    {
        let mut c = self;
        let ghost before = c@;
        c.stage = CreateStage::Launching;
        c.record.tap_name = clone_text(&network.tap_name);
        c.record.seed_disk = clone_text(&c.seed);
        let vsock_socket = match c.record.guest_cid {
            Some(_) => {
                if c.record.request.backend == BackendKind::Qemu {
                    None
                } else {
                    Some(join(c.record.workspace.as_str(), "vsock.sock"))
                }
            },
            None => None,
        };
        let disk_format = if c.record.request.backend == BackendKind::Qemu {
            "qcow2".to_owned()
        } else {
            "raw".to_owned()
        };
        let ctx = LaunchContext {
            id: c.record.id,
            workspace: c.record.workspace.clone(),
            disk: c.record.disk.clone(),
            seed_disk: clone_text(&c.seed),
            log_path: c.record.log_path.clone(),
            network,
            guest_cid: c.record.guest_cid,
            vsock_socket,
            disk_format,
            nbd_export: None,
        };
        proof {
            assert(c@ =~= to_launch(before, network@).0);
            assert(ctx@ =~= launch_context(before, network@));
        }
        (c, CreateAction::Launch { ctx })
    }

    fn after_launch(self, result: LaunchResult) -> (r: (Creation, CreateAction))
        ensures
            (r.0@, r.1@) == finish(
                self@,
                running(self@.record, result.pid, text::opt(result.control_socket)),
            ),
    {
        let mut c = self;
        let ghost before = c@;
        c.record.pid = Some(result.pid);
        c.record.control_socket = result.control_socket;
        c.record.status = VmStatus::Running;
        proof {
            assert(c.record@ =~= running(
                before.record,
                result.pid,
                text::opt(result.control_socket),
            ));
        }
        c.finished()
    }

    fn after_failure(self, error: String) -> (r: (Creation, CreateAction))
        ensures
            (r.0@, r.1@) == to_failure(self@, error@),
    {
        let mut c = self;
        let ghost before = c@;
        c.record.status = VmStatus::Failed;
        c.record.error = Some(error);
        proof {
            assert(c.record@ =~= failed(before.record, error@));
        }
        if let Some(tap) = &c.record.tap_name {
            let action = CreateAction::CleanUpNetwork {
                spec: c.record.request.network.clone(),
                tap: tap.clone(),
            };
            c.stage = CreateStage::CleaningUp;
            return (c, action);
        }
        c.finished()
    }

    fn finished(self) -> (r: (Creation, CreateAction))
        ensures
            (r.0@, r.1@) == finish(self@, self@.record),
    {
        let mut c = self;
        c.stage = CreateStage::Finished;
        let action = CreateAction::Finish {
            record: c.record.clone(),
            error: clone_text(&c.record.error),
        };
        (c, action)
    }

    /// What to do after the last piece of work ended with `event`.
    pub fn on_event(self, event: CreateEvent) -> (r: (Creation, CreateAction))
        requires
            expected(self@.stage, event@),
        ensures
            (r.0@, r.1@) == next_step(self@, event@),
    {
        match self.stage {
            CreateStage::CleaningUp => self.finished(),
            _ => match event {
                CreateEvent::Failed { error } => self.after_failure(error),
                CreateEvent::Done => match self.stage {
                    CreateStage::Cloning => self.after_clone(),
                    _ => self.after_token(),
                },
                CreateEvent::SeedBuilt { path } => {
                    let mut c = self;
                    c.seed = Some(path);
                    c.after_seed()
                },
                CreateEvent::NetworkReady { network } => self.after_network(network),
                CreateEvent::Launched { result } => self.after_launch(result),
            },
        }
    }
}

// ------------------------------------------------------------------------ laws

/// What is accepted has a concrete backend, and is otherwise what was asked for.
pub proof fn accepted_requests_are_concrete(req: CreateVmRequestView, cfg: Config)
    ensures
        with_backend(req, cfg).backend != BackendKind::Auto,
        with_backend(req, cfg) == (CreateVmRequestView {
            backend: with_backend(req, cfg).backend,
            ..req
        }),
{
}

/// Every machine with an agent has a token for it. A token of the caller is
/// kept, and nothing else of the request changes.
pub proof fn every_agent_gets_a_token(req: CreateVmRequestView, token: u128)
    ensures
        req.agent_enabled() ==> with_token(req, token).agent_enabled() && with_token(
            req,
            token,
        ).agent->0.token is Some,
        req.agent is Some && req.agent->0.token is Some ==> with_token(req, token) == req,
        !req.agent_enabled() ==> with_token(req, token) == req,
        with_token(req, token) == (CreateVmRequestView {
            agent: with_token(req, token).agent,
            ..req
        }),
{
}

/// A new machine expires if and only if its request has a lifetime.
pub proof fn expires_with_a_lifetime_only(
    req: CreateVmRequestView,
    state_dir: Seq<char>,
    id: u128,
    started: Timestamp,
    created_at: Timestamp,
)
    ensures
        placeholder(
            req,
            state_dir,
            id,
            expiry_of(req.ttl_seconds, started),
            created_at,
        ).expires_at is Some <==> req.ttl_seconds is Some,
{
}

/// How far the work has come.
pub open spec fn rank(stage: CreateStage) -> int {
    match stage {
        CreateStage::Cloning => 0,
        CreateStage::InjectingToken => 1,
        CreateStage::BuildingSeed => 2,
        CreateStage::Networking => 3,
        CreateStage::Launching => 4,
        CreateStage::CleaningUp => 5,
        CreateStage::Finished => 6,
    }
}

/// Every event takes the work further, so it ends after six of them at most.
pub proof fn work_moves_on(c: CreationView, e: CreateEventView)
    requires
        expected(c.stage, e),
    ensures
        rank(next_step(c, e).0.stage) > rank(c.stage),
        next_step(c, e).0.stage == CreateStage::Finished <==> next_step(c, e).1 is Finish,
{
}

/// Nothing that was decided at the start changes while a machine comes up.
pub proof fn identity_is_kept(c: CreationView, e: CreateEventView)
    ensures
        ({
            let after = next_step(c, e).0.record;
            after == (VmRecordView {
                status: after.status,
                error: after.error,
                pid: after.pid,
                control_socket: after.control_socket,
                tap_name: after.tap_name,
                seed_disk: after.seed_disk,
                ..c.record
            })
        }),
{
}

/// A machine that comes up after a series of events.
pub open spec fn creation_after(record: VmRecordView, events: Seq<CreateEventView>) -> CreationView
    decreases events.len(),
{
    if events.len() == 0 {
        first_step(record).0
    } else {
        next_step(creation_after(record, events.drop_last()), events.last()).0
    }
}

proof fn lemma_creation_keeps_identity(record: VmRecordView, events: Seq<CreateEventView>)
    ensures
        ({
            let after = creation_after(record, events).record;
            &&& after.id == record.id
            &&& after.name == record.name
            &&& after.request == record.request
            &&& after.expires_at == record.expires_at
            &&& after.guest_cid == record.guest_cid
        }),
    decreases events.len(),
{
    if events.len() > 0 {
        lemma_creation_keeps_identity(record, events.drop_last());
        identity_is_kept(creation_after(record, events.drop_last()), events.last());
    }
}

/// A machine has the name and the lifetime of a request, and expires if and only
/// if that has one.
pub open spec fn is_machine_for(vm: VmRecordView, req: CreateVmRequestView) -> bool {
    &&& vm.name == req.name
    &&& vm.request.name == req.name
    &&& vm.request.ttl_seconds == req.ttl_seconds
    &&& vm.expires_at is Some <==> req.ttl_seconds is Some
}

/// However a machine comes up, it is one for the request that was accepted, under
/// the identifier and the address that it was registered with.
pub proof fn what_comes_up_is_what_was_asked_for(
    req: CreateVmRequestView,
    cfg: Config,
    id: u128,
    token: u128,
    started: Timestamp,
    created_at: Timestamp,
    cid: Option<u32>,
    events: Seq<CreateEventView>,
)
    ensures
        ({
            let made = placeholder(
                with_token(with_backend(req, cfg), token),
                cfg.state_dir@,
                id,
                expiry_of(req.ttl_seconds, started),
                created_at,
            );
            let vm = creation_after(VmRecordView { guest_cid: cid, ..made }, events).record;
            is_machine_for(vm, req) && vm.id == id && vm.guest_cid == cid
        }),
{
    let made = placeholder(
        with_token(with_backend(req, cfg), token),
        cfg.state_dir@,
        id,
        expiry_of(req.ttl_seconds, started),
        created_at,
    );
    lemma_creation_keeps_identity(VmRecordView { guest_cid: cid, ..made }, events);
}

/// As long as a machine comes up its record says so; once something went wrong
/// it says what.
pub open spec fn consistent(c: CreationView) -> bool {
    match c.stage {
        CreateStage::CleaningUp => c.record.status == VmStatus::Failed && c.record.error is Some
            && c.record.pid is None,
        CreateStage::Finished => {
            ||| c.record.status == VmStatus::Running && c.record.pid is Some && c.record.error is None
            ||| c.record.status == VmStatus::Failed && c.record.error is Some
                && c.record.pid is None
        },
        _ => c.record.status == VmStatus::Creating && c.record.error is None && c.record.pid is None,
    }
}

/// A machine that comes up ends as one that runs under a process, or as one
/// that failed with an error and no process.
pub proof fn ends_running_or_failed(c: CreationView, e: CreateEventView)
    requires
        consistent(c),
        expected(c.stage, e),
    ensures
        consistent(next_step(c, e).0),
        next_step(c, e).1 matches CreateActionView::Finish { record, error } ==> {
            &&& record == next_step(c, e).0.record
            &&& error == record.error
            &&& error is None <==> record.status == VmStatus::Running
        },
{
}

/// Whatever fails after the network was made ready, the device is removed.
pub proof fn a_failure_removes_the_device(c: CreationView, error: Seq<char>)
    requires
        c.stage != CreateStage::CleaningUp,
        c.stage != CreateStage::Finished,
        c.record.tap_name is Some,
    ensures
        next_step(c, CreateEventView::Failed { error }).1 == (CreateActionView::CleanUpNetwork {
            spec: c.record.request.network,
            tap: c.record.tap_name->0,
        }),
        next_step(c, CreateEventView::Failed { error }).0.record.error == Some(error),
{
}

/// A machine with an address is launched with it, and with a socket for it
/// unless QEMU runs it: an agent is never without the way to it.
pub proof fn an_address_is_launched_with(c: CreationView, network: PreparedNetworkView)
    requires
        c.stage == CreateStage::Networking,
        c.record.guest_cid is Some,
    ensures
        next_step(c, CreateEventView::NetworkReady { network }).1 matches CreateActionView::Launch {
            ctx,
        } && ctx.guest_cid == c.record.guest_cid && (c.record.request.backend != BackendKind::Qemu
            ==> ctx.vsock_socket is Some),
{
}

/// The token that goes into the disk is the one that the record keeps.
pub proof fn the_injected_token_is_the_kept_one(c: CreationView, e: CreateEventView)
    requires
        expected(c.stage, e),
    ensures
        next_step(c, e).1 matches CreateActionView::InjectToken { disk, token } ==> {
            &&& c.record.request.agent matches Some(agent)
            &&& agent.token == Some(token)
            &&& disk == c.record.disk
        },
        c.stage == CreateStage::Cloning && e is Done && c.record.request.agent_enabled()
            && c.record.request.agent->0.token is Some ==> next_step(c, e).1 is InjectToken,
{
}

/// A request is turned down for a limit that it breaks under the backend that it
/// gets, whether its image exists or not; and for a missing image if and only if
/// it keeps all limits.
pub proof fn limits_come_before_the_image(
    req: CreateVmRequestView,
    cfg: Config,
    image_exists: bool,
)
    ensures
        ({
            let concrete = CreateVmRequestView { backend: policy::resolved_under(req, cfg), ..req };
            let broken = policy::violation(concrete, cfg.policy);
            let e = create_error(req, cfg, image_exists);
            &&& broken matches Some(limit) ==> e == Some(CreateError::Policy(limit))
            &&& e == Some(CreateError::ImageMissing) <==> broken is None && !image_exists
            &&& e is None <==> broken is None && image_exists
        }),
{
}

/// A new machine is recorded as being created, under its identifier, with all that
/// its request says; it has a directory of its own under the state directory,
/// which holds its disk and its console log; nothing else of it exists so far.
pub proof fn a_new_machine_has_a_place_of_its_own(
    req: CreateVmRequestView,
    state_dir: Seq<char>,
    id: u128,
    expires_at: Option<Timestamp>,
    created_at: Timestamp,
)
    ensures
        ({
            let vm = placeholder(req, state_dir, id, expires_at, created_at);
            let home = paths::joined(
                paths::joined(state_dir, "instances"@),
                ids::hyphenated_form(id),
            );
            &&& vm.id == id
            &&& vm.name == req.name
            &&& vm.backend == req.backend
            &&& vm.request == req
            &&& vm.status == VmStatus::Creating
            &&& vm.created_at == created_at
            &&& vm.expires_at == expires_at
            &&& vm.workspace == home
            &&& req.backend == BackendKind::Qemu ==> vm.disk == paths::joined(home, "root.qcow2"@)
            &&& req.backend != BackendKind::Qemu ==> vm.disk == paths::joined(home, "root.raw"@)
            &&& vm.log_path == paths::joined(home, "console.log"@)
            &&& vm.pid is None
            &&& vm.seed_disk is None
            &&& vm.tap_name is None
            &&& vm.control_socket is None
            &&& vm.error is None
            &&& vm.guest_cid is None
            &&& vm.jail_path is None
            &&& vm.vsock_socket is None
            &&& vm.cgroup_path is None
            &&& vm.netns is None
            &&& vm.lvm_lv is None
            &&& vm.nbd_pid is None
        }),
{
}

/// A machine expires exactly so many seconds after it was started as its lifetime
/// says, and never without one. A lifetime that a signed number holds is refused
/// if and only if it leads past the end of the calendar.
pub proof fn a_lifetime_counts_from_the_start(ttl: u64, started: Timestamp)
    requires
        started.valid(),
        ttl <= 0x7fff_ffff_ffff_ffff,
    ensures
        expiry_of(None, started) is None,
        expiry_of(Some(ttl), started) == Some(clock::expiry(started, ttl)),
        lifetime_fits(None, started),
        lifetime_fits(Some(ttl), started) <==> started.secs + ttl <= 8_210_266_876_799,
        lifetime_fits(Some(ttl), started) ==> (expiry_of(Some(ttl), started) matches Some(end)
            && end.secs == started.secs + ttl && end.nanos == started.nanos),
{
}

/// A token that is missing is made from the number that was drawn for it.
pub proof fn a_missing_token_is_drawn(req: CreateVmRequestView, token: u128)
    requires
        req.agent_enabled(),
        req.agent->0.token is None,
    ensures
        with_token(req, token).agent->0.token == Some(ids::hyphenated_form(token)),
        with_token(req, token).agent->0.port == req.agent->0.port,
        with_token(req, token).agent_enabled(),
{
}

/// A machine comes up from its disk: the first thing to do is to copy its image to
/// its disk, for its backend and in the size that is asked for.
pub proof fn the_disk_is_copied_first(record: VmRecordView)
    ensures
        first_step(record).0 == (CreationView {
            stage: CreateStage::Cloning,
            record,
            seed: None,
        }),
        first_step(record).1 == (CreateActionView::CloneDisk {
            image: record.request.image,
            backend: record.request.backend,
            disk: record.disk,
            size_gib: record.request.disk_size_gib,
        }),
{
}

/// After the disk comes the token, if there is one; then the seed disk, if one is
/// described; then the network. Each is made with what the record says.
pub proof fn token_seed_and_network_follow(c: CreationView, e: CreateEventView)
    requires
        expected(c.stage, e),
        e is Done || e is SeedBuilt,
        c.stage != CreateStage::CleaningUp,
    ensures
        ({
            let next = next_step(c, e);
            let request = c.record.request;
            let has_token = request.agent is Some && request.agent->0.token is Some;
            &&& next.0.record == c.record
            &&& c.stage == CreateStage::Cloning && has_token ==> next.0.stage
                == CreateStage::InjectingToken && next.1 == (CreateActionView::InjectToken {
                disk: c.record.disk,
                token: request.agent->0.token->0,
            })
            &&& (c.stage == CreateStage::InjectingToken || (c.stage == CreateStage::Cloning
                && !has_token)) && request.cloud_init is Some ==> next.0.stage
                == CreateStage::BuildingSeed && next.1 == (CreateActionView::BuildSeed {
                dir: c.record.workspace,
                cloud_init: request.cloud_init->0,
            })
            &&& c.stage == CreateStage::BuildingSeed || (request.cloud_init is None && (c.stage
                == CreateStage::InjectingToken || !has_token)) ==> next.0.stage
                == CreateStage::Networking && next.1 == (CreateActionView::PrepareNetwork {
                id: c.record.id,
                spec: request.network,
            })
            &&& e matches CreateEventView::SeedBuilt { path } ==> next.0.seed == Some(path)
            &&& e is Done ==> next.0.seed == c.seed
        }),
{
}

/// A machine is launched on the network that was made ready, with its own disk,
/// log, workspace and address, and with the seed disk that was built; its record
/// keeps the device and the seed disk.
pub proof fn a_machine_is_launched_with_what_was_made(
    c: CreationView,
    network: PreparedNetworkView,
)
    requires
        c.stage == CreateStage::Networking,
    ensures
        ({
            let next = next_step(c, CreateEventView::NetworkReady { network });
            let qemu = c.record.request.backend == BackendKind::Qemu;
            &&& next.0.stage == CreateStage::Launching
            &&& next.0.record == (VmRecordView {
                tap_name: network.tap_name,
                seed_disk: c.seed,
                ..c.record
            })
            &&& next.1 matches CreateActionView::Launch { ctx }
            &&& ctx.id == c.record.id
            &&& ctx.workspace == c.record.workspace
            &&& ctx.disk == c.record.disk
            &&& ctx.seed_disk == c.seed
            &&& ctx.log_path == c.record.log_path
            &&& ctx.network == network
            &&& ctx.guest_cid == c.record.guest_cid
            &&& qemu || c.record.guest_cid is None ==> ctx.vsock_socket is None
            &&& !qemu && c.record.guest_cid is Some ==> ctx.vsock_socket == Some(
                paths::joined(c.record.workspace, "vsock.sock"@),
            )
            &&& qemu ==> ctx.disk_format == "qcow2"@
            &&& !qemu ==> ctx.disk_format == "raw"@
            &&& ctx.nbd_export is None
        }),
{
}

/// A machine that was launched runs under its process and is controlled through
/// its socket; the rest of its record is what it was.
pub proof fn a_launched_machine_runs(
    c: CreationView,
    pid: u32,
    control_socket: Option<Seq<char>>,
)
    requires
        c.stage == CreateStage::Launching,
    ensures
        ({
            let next = next_step(c, CreateEventView::Launched { pid, control_socket });
            &&& next.0.stage == CreateStage::Finished
            &&& next.1 matches CreateActionView::Finish { record, error }
            &&& record == (VmRecordView {
                status: VmStatus::Running,
                pid: Some(pid),
                control_socket,
                ..c.record
            })
            &&& next.0.record == record
            &&& error == c.record.error
        }),
{
}

/// Whatever fails while a machine comes up, it is recorded as failed with what
/// went wrong, and that is reported: at once if there is no device, and else after
/// the device was removed, whether that succeeds or not.
pub proof fn a_failure_is_recorded_and_reported(c: CreationView, error: Seq<char>, e: CreateEventView)
    requires
        c.stage != CreateStage::CleaningUp,
        c.stage != CreateStage::Finished,
    ensures
        ({
            let next = next_step(c, CreateEventView::Failed { error });
            let last = if next.1 is Finish {
                next
            } else {
                next_step(next.0, e)
            };
            &&& next.1 is Finish <==> c.record.tap_name is None
            &&& !(next.1 is Finish) ==> next.1 == (CreateActionView::CleanUpNetwork {
                spec: c.record.request.network,
                tap: c.record.tap_name->0,
            }) && next.0.stage == CreateStage::CleaningUp
            &&& last.0.stage == CreateStage::Finished
            &&& last.1 == (CreateActionView::Finish {
                record: VmRecordView {
                    status: VmStatus::Failed,
                    error: Some(error),
                    ..c.record
                },
                error: Some(error),
            })
        }),
{
}

/// A missing image is told by its path.
pub proof fn a_missing_image_is_named(image: Seq<char>, cfg: Config)
    ensures
        refusal_text(CreateError::ImageMissing, image, cfg) == "base image does not exist: "@
            + image,
{
}

/// The views of what to do and of how it ended show them in full.
pub proof fn what_to_do_is_shown_in_full(a: CreateAction, e: CreateEvent)
    ensures
        match a {
            CreateAction::CloneDisk { image, backend, disk, size_gib } => a@ == (
            CreateActionView::CloneDisk { image: image@, backend, disk: disk@, size_gib }),
            CreateAction::InjectToken { disk, token } => a@ == (CreateActionView::InjectToken {
                disk: disk@,
                token: token@,
            }),
            CreateAction::BuildSeed { dir, cloud_init } => a@ == (CreateActionView::BuildSeed {
                dir: dir@,
                cloud_init: cloud_init@,
            }),
            CreateAction::PrepareNetwork { id, spec } => a@ == (
            CreateActionView::PrepareNetwork { id, spec: spec@ }),
            CreateAction::Launch { ctx } => a@ == (CreateActionView::Launch { ctx: ctx@ }),
            CreateAction::CleanUpNetwork { spec, tap } => a@ == (
            CreateActionView::CleanUpNetwork { spec: spec@, tap: tap@ }),
            CreateAction::Finish { record, error } => a@ == (CreateActionView::Finish {
                record: record@,
                error: text::opt(error),
            }),
        },
        match e {
            CreateEvent::Done => e@ is Done,
            CreateEvent::SeedBuilt { path } => e@ == (CreateEventView::SeedBuilt { path: path@ }),
            CreateEvent::NetworkReady { network } => e@ == (CreateEventView::NetworkReady {
                network: network@,
            }),
            CreateEvent::Launched { result } => e@ == (CreateEventView::Launched {
                pid: result.pid,
                control_socket: text::opt(result.control_socket),
            }),
            CreateEvent::Failed { error } => e@ == (CreateEventView::Failed { error: error@ }),
        },
{
}

} // verus!
