//! The manager of all virtual machines and warm pools.

use crate::backend::{Control, ControlCall, ControlCallView};
use crate::clock::{self, expiry_after, expiry_in_range, now, Timestamp};
use crate::config::Config;
use crate::create::{self, accept, CreateError, Creation, CreateAction, ExpiryOutOfRange};
use crate::draw;
use crate::ids::{self, id_text};
use crate::model::{BackendKind, ClaimOverrides, CreateVmRequest, CreateVmRequestView,
    NetworkSpec, PoolRecord, PoolRecordView, PoolSpec, VmRecord, VmRecordView, VmStatus};
use crate::paths;
use crate::policy::{self, backend, UnresolvedBackend};
use crate::protocol::{AgentRequest, AgentRequestView, DEFAULT_EXEC_TIMEOUT_SECS};
use crate::stop::{self, Stopping, StopAction};
use crate::storage::{self, CidsExhausted, PoolStore, Store};
use crate::text;
use crate::warm::{self, Claim, FillAction, Filling};
use vstd::prelude::*;

verus! {

/// The first vsock address that a guest can have: the ones below it belong to
/// the hypervisor, the loopback and the host.
pub const FIRST_GUEST_CID: u32 = 3;

pub struct VmManager {
    pub cfg: Config,
    pub store: Store,
    pub pools: PoolStore,
}

/// There is no machine with that identifier.
#[derive(Debug, Clone, Copy, PartialEq, Eq, Structural)]
pub struct VmNotFound;

/// Why a machine cannot be asked for a change of state.
#[derive(Debug, Clone, Copy, PartialEq, Eq, Structural)]
pub enum ControlError {
    VmNotFound,
    UnresolvedBackend,
    /// The backend has no call for it.
    Unsupported,
}

/// Why there is no such pool to work with.
#[derive(Debug, Clone, Copy, PartialEq, Eq, Structural)]
pub enum PoolError {
    /// A pool has to have at least one member.
    SizeIsZero,
    AlreadyExists,
    NotFound,
    /// No member of the pool is ready.
    NoReadyMembers,
}

impl ControlError {
    pub open spec fn text(self) -> Seq<char> {
        match self {
            ControlError::VmNotFound => "VM not found"@,
            ControlError::UnresolvedBackend => policy::unresolved_text(),
            ControlError::Unsupported => "the backend of this VM does not support the operation"@,
        }
    }

    /// The error in words.
    pub fn message(self) -> (r: &'static str)
        ensures
            r@ == self.text(),
    {
        match self {
            ControlError::VmNotFound => "VM not found",
            ControlError::UnresolvedBackend => UnresolvedBackend.message(),
            ControlError::Unsupported => "the backend of this VM does not support the operation",
        }
    }
}

impl PoolError {
    pub open spec fn text(self, pool: Seq<char>) -> Seq<char> {
        match self {
            PoolError::SizeIsZero => "pool size must be at least 1"@,
            PoolError::AlreadyExists => "pool '"@ + pool + "' already exists"@,
            PoolError::NotFound => "pool not found"@,
            PoolError::NoReadyMembers => "pool '"@ + pool
                + "' has no ready members right now \u{2014} try again shortly, or increase its size"@,
        }
    }

    /// The error in words, `pool` being the name that was asked for.
    pub fn message(self, pool: &str) -> (r: String)
        ensures
            r@ == self.text(pool@),
    {
        match self {
            PoolError::SizeIsZero => "pool size must be at least 1".to_owned(),
            PoolError::AlreadyExists => text::cat3("pool '", pool, "' already exists"),
            PoolError::NotFound => "pool not found".to_owned(),
            PoolError::NoReadyMembers => text::cat3(
                "pool '",
                pool,
                "' has no ready members right now \u{2014} try again shortly, or increase its size",
            ),
        }
    }
}

/// Why no machine is created, and that in words.
#[derive(Debug)]
pub struct Refusal {
    pub error: CreateError,
    pub message: String,
}

/// The record with another status.
pub open spec fn with_status(vm: VmRecordView, status: VmStatus) -> VmRecordView {
    VmRecordView { status, ..vm }
}

// ---------------------------------------------------------------- housekeeping

/// A machine that is said to run under a process.
pub open spec fn said_to_run(vm: VmRecordView) -> bool {
    vm.status == VmStatus::Running && vm.pid is Some
}

/// The machines that are said to run under a process, in their order.
pub fn to_probe(list: Vec<VmRecord>) -> (r: Vec<VmRecord>)
    ensures
        text::views(r@) == text::views(list@).filter(|vm: VmRecordView| said_to_run(vm)),
{
    let ghost all = text::views(list@);
    let ghost p = |vm: VmRecordView| said_to_run(vm);
    let mut out: Vec<VmRecord> = Vec::new();
    proof {
        assert(all.take(0) =~= Seq::<VmRecordView>::empty());
        reveal_with_fuel(Seq::filter, 1);
        assert(text::views(out@) =~= all.take(0).filter(p));
    }
    for vm in it: list
        invariant
            text::views(it.seq()) == all,
            p == (|vm: VmRecordView| said_to_run(vm)),
            text::views(out@) == all.take(it.index()).filter(p),
    {
        let ghost n = it.index();
        proof {
            assert(text::views(it.seq())[n] == vm@);
            text::lemma_filter_step(all, n, p);
        }
        if vm.status == VmStatus::Running && vm.pid.is_some() {
            proof {
                text::lemma_views_push(out@, vm);
            }
            out.push(vm);
        }
    }
    proof {
        assert(all.take(all.len() as int) =~= all);
    }
    out
}

/// A machine whose time is up.
pub open spec fn expired(vm: VmRecordView, now: Timestamp) -> bool {
    vm.expires_at is Some && (vm.expires_at->0).at_or_before(now)
}

/// `due` holds the machines of `m` whose time is up at `now`, the one created
/// first at the front.
pub open spec fn are_due(
    due: Seq<VmRecordView>,
    m: Map<u128, VmRecordView>,
    now: Timestamp,
) -> bool {
    exists|all: Seq<VmRecordView>| #[trigger]
        storage::is_listing(all, m) && due == all.filter(|vm: VmRecordView| expired(vm, now))
}

/// The machines whose time is up, in their order.
pub fn to_reap(list: Vec<VmRecord>, now: Timestamp) -> (r: Vec<VmRecord>)
    ensures
        text::views(r@) == text::views(list@).filter(|vm: VmRecordView| expired(vm, now)),
{
    let ghost all = text::views(list@);
    let ghost p = |vm: VmRecordView| expired(vm, now);
    let mut out: Vec<VmRecord> = Vec::new();
    proof {
        assert(all.take(0) =~= Seq::<VmRecordView>::empty());
        reveal_with_fuel(Seq::filter, 1);
        assert(text::views(out@) =~= all.take(0).filter(p));
    }
    for vm in it: list
        invariant
            text::views(it.seq()) == all,
            p == (|vm: VmRecordView| expired(vm, now)),
            text::views(out@) == all.take(it.index()).filter(p),
    {
        let ghost n = it.index();
        proof {
            assert(text::views(it.seq())[n] == vm@);
            text::lemma_filter_step(all, n, p);
        }
        let over = match vm.expires_at {
            Some(t) => t.is_at_or_before(&now),
            None => false,
        };
        if over {
            proof {
                text::lemma_views_push(out@, vm);
            }
            out.push(vm);
        }
    }
    proof {
        assert(all.take(all.len() as int) =~= all);
    }
    out
}

/// How often to look for machines whose time is up, in seconds: as often as the
/// settings say, but not more than once a second.
pub fn reaper_period(cfg: &Config) -> (r: u64)
    ensures
        r == if cfg.reaper_interval_secs == 0 {
            1
        } else {
            cfg.reaper_interval_secs
        },
{
    if cfg.reaper_interval_secs == 0 {
        1
    } else {
        cfg.reaper_interval_secs
    }
}

/// How long to wait for the answer to a command, in seconds: as long as it may
/// run and five seconds more.
pub open spec fn exec_wait(timeout_seconds: Option<u64>) -> int {
    match timeout_seconds {
        Some(t) => t + 5,
        None => DEFAULT_EXEC_TIMEOUT_SECS + 5,
    }
}

// ----------------------------------------------------------------------- claims

/// The record that is handed out for a claim: with the new name, if there is
/// one, and with a lifetime that starts at `t`.
pub open spec fn claimed(vm: VmRecordView, o: ClaimOverrides, t: Timestamp) -> VmRecordView {
    let name = match o.name {
        Some(n) => n@,
        None => vm.name,
    };
    let request_name = match o.name {
        Some(n) => n@,
        None => vm.request.name,
    };
    VmRecordView {
        name,
        expires_at: create::expiry_of(o.ttl_seconds, t),
        request: CreateVmRequestView {
            name: request_name,
            ttl_seconds: o.ttl_seconds,
            ..vm.request
        },
        ..vm
    }
}

/// Gives a member of a pool the name and the lifetime of a claim made at `t`.
pub fn apply_claim(vm: VmRecord, o: ClaimOverrides, t: Timestamp) -> (r: Result<
    VmRecord,
    ExpiryOutOfRange,
>)
    requires
        t.valid(),
    ensures
        match r {
            Ok(handed) => create::lifetime_fits(o.ttl_seconds, t) && handed@ == claimed(vm@, o, t),
            Err(_) => !create::lifetime_fits(o.ttl_seconds, t),
        },
{
    let ghost before = vm@;
    let ghost asked = o;
    let mut vm = vm;
    let expires_at = match o.ttl_seconds {
        Some(s) => {
            if !expiry_in_range(t, s) {
                return Err(ExpiryOutOfRange);
            }
            Some(expiry_after(t, s))
        },
        None => None,
    };
    if let Some(name) = o.name {
        vm.request.name = name.clone();
        vm.name = name;
    }
    vm.request.ttl_seconds = o.ttl_seconds;
    vm.expires_at = expires_at;
    proof {
        assert(vm@ =~= claimed(before, asked, t));
    }
    Ok(vm)
}

/// The request for a member of a pool: the template under a name of its own,
/// and without a lifetime.
pub open spec fn member_of(template: CreateVmRequestView, pool: Seq<char>, id: u128) -> CreateVmRequestView {
    CreateVmRequestView {
        name: pool + "-pool-"@ + ids::hyphenated_form(id),
        ttl_seconds: None,
        ..template
    }
}

pub fn member_request(template: &CreateVmRequest, pool: &str, id: u128) -> (r: CreateVmRequest)
    ensures
        r@ == member_of(template@, pool@, id),
{
    let mut req = template.clone();
    let tail = id_text(id);
    req.name = text::cat3(pool, "-pool-", tail.as_str());
    req.ttl_seconds = None;
    proof {
        assert(req@ =~= member_of(template@, pool@, id));
    }
    req
}

impl VmManager {
    /// What the methods on pools need: no two pools share a name.
    pub open spec fn wf(&self) -> bool {
        self.pools.wf()
    }

    /// Every record stands under its own identifier, no two machines share an
    /// address, no two pools a name, and no machine is a member twice.
    pub open spec fn sound(&self) -> bool {
        &&& self.wf()
        &&& storage::keyed(self.store@)
        &&& storage::cids_distinct(self.store@)
        &&& storage::members_distinct(self.pools@)
    }

    /// A manager with the machines and pools that were kept. It is sound if they
    /// are.
    pub fn new(cfg: Config, vms: Vec<(u128, VmRecord)>, pools: Vec<PoolRecord>) -> (r: Self)
        ensures
            r.wf(),
            r.cfg == cfg,
            r.store.file() == paths::joined(cfg.state_dir@, "vms.json"@),
            r.store@ == storage::entries_map(vms@),
            r.pools@ == storage::loaded(text::views(pools@)),
            storage::keyed(storage::entries_map(vms@)) && storage::cids_distinct(
                storage::entries_map(vms@),
            ) && storage::members_distinct(storage::loaded(text::views(pools@))) ==> r.sound(),
    {
        let store = Store::load(cfg.state_dir.as_str(), vms);
        let pools = PoolStore::load(pools);
        VmManager { cfg, store, pools }
    }

    // ------------------------------------------------------------ one machine

    /// Decides whether a machine may be created and under which backend, its
    /// image existing or not. A request that is refused leaves nothing behind.
    pub fn create(&self, req: CreateVmRequest, image_exists: bool) -> (r: Result<
        CreateVmRequest,
        Refusal,
    >)
        ensures
            match r {
                Ok(accepted) => create::create_error(req@, self.cfg, image_exists) is None
                    && accepted@ == create::with_backend(req@, self.cfg),
                Err(refusal) => {
                    &&& create::create_error(req@, self.cfg, image_exists) == Some(refusal.error)
                    &&& refusal.message@ == create::refusal_text(
                        refusal.error,
                        req@.image,
                        self.cfg,
                    )
                },
            },
    {
        let image = req.image.clone();
        match accept(req, &self.cfg, image_exists) {
            Ok(accepted) => Ok(accepted),
            Err(error) => {
                let message = create::refusal(error, image.as_str(), &self.cfg);
                Err(Refusal { error, message })
            },
        }
    }

    /// Keeps the record of a new machine, with a vsock address if it has an
    /// agent, and starts to bring the machine up.
    pub fn register(&mut self, vm: VmRecord) -> (r: Result<(Creation, CreateAction), CidsExhausted>)
        ensures
            old(self).sound() ==> final(self).sound(),
            final(self).cfg == old(self).cfg,
            final(self).pools@ == old(self).pools@,
            final(self).store.file() == old(self).store.file(),
            match r {
                Ok(begun) => {
                    let kept = begun.0@.record;
                    &&& (begun.0@, begun.1@) == create::first_step(kept)
                    &&& kept == storage::with_cid(vm@, kept.guest_cid)
                    &&& final(self).store@ == old(self).store@.insert(kept.id, kept)
                    &&& if vm@.request.agent_enabled() {
                        kept.guest_cid is Some && storage::is_lowest_free(
                            old(self).store@,
                            FIRST_GUEST_CID,
                            kept.guest_cid->0,
                        )
                    } else {
                        kept.guest_cid is None
                    }
                },
                Err(_) => {
                    &&& vm@.request.agent_enabled()
                    &&& forall|c: u32|
                        FIRST_GUEST_CID <= c < u32::MAX ==> storage::cid_in_use(
                            old(self).store@,
                            c,
                        )
                    &&& final(self).store@ == old(self).store@
                },
            },
    {
        let needs_cid = vm.request.agent_enabled();
        let ghost before = self.store@;
        match self.store.insert_with_cid(vm, needs_cid, FIRST_GUEST_CID) {
            Ok(kept) => {
                proof {
                    if old(self).sound() {
                        storage::addresses_stay_distinct(before, kept@, FIRST_GUEST_CID);
                        storage::records_stay_keyed(before, kept@, kept@.id);
                    }
                }
                Ok(Creation::start(kept))
            },
            Err(e) => Err(e),
        }
    }

    /// Keeps a record as it is now.
    pub fn keep(&mut self, vm: VmRecord)
        ensures
            old(self).sound() && storage::keeps_address(old(self).store@, vm@)
                ==> final(self).sound(),
            final(self).cfg == old(self).cfg,
            final(self).pools@ == old(self).pools@,
            final(self).store.file() == old(self).store.file(),
            final(self).store@ == old(self).store@.insert(vm@.id, vm@),
    {
        let ghost before = self.store@;
        let ghost rec = vm@;
        self.store.update(vm);
        proof {
            if old(self).sound() && storage::keeps_address(before, rec) {
                lemma_kept(before, rec);
            }
        }
    }

    /// All machines, the one created first at the front.
    pub fn list(&self) -> (r: Vec<VmRecord>)
        ensures
            storage::is_listing(text::views(r@), self.store@),
    {
        self.store.list()
    }

    pub fn get(&self, id: u128) -> (r: Result<VmRecord, VmNotFound>)
        ensures
            match r {
                Ok(vm) => self.store@.contains_key(id) && vm@ == self.store@[id],
                Err(_) => !self.store@.contains_key(id),
            },
    {
        match self.store.get(id) {
            Some(vm) => Ok(vm),
            None => Err(VmNotFound),
        }
    }

    /// Starts to bring a machine down.
    pub fn stop(&self, id: u128) -> (r: Result<(Stopping, StopAction), VmNotFound>)
        ensures
            match r {
                Ok(begun) => self.store@.contains_key(id) && (begun.0@, begun.1@)
                    == stop::first_step(self.store@[id]),
                Err(_) => !self.store@.contains_key(id),
            },
    {
        match self.get(id) {
            Ok(vm) => Ok(Stopping::start(vm)),
            Err(e) => Err(e),
        }
    }

    /// The machine and the call that asks its monitor for a change of state.
    fn ask(&self, id: u128, c: Control) -> (r: Result<(VmRecord, ControlCall), ControlError>)
        ensures
            asks(r, self.store@, id, c),
    {
        match self.get(id) {
            Err(_) => Err(ControlError::VmNotFound),
            Ok(vm) => match backend(vm.backend) {
                Err(_) => Err(ControlError::UnresolvedBackend),
                Ok(b) => match b.control(&vm, c) {
                    Some(call) => Ok((vm, call)),
                    None => Err(ControlError::Unsupported),
                },
            },
        }
    }

    /// The call that pauses a machine.
    pub fn pause(&self, id: u128) -> (r: Result<(VmRecord, ControlCall), ControlError>)
        ensures
            asks(r, self.store@, id, Control::Pause),
    {
        self.ask(id, Control::Pause)
    }

    /// The call that lets a paused machine run on.
    pub fn resume(&self, id: u128) -> (r: Result<(VmRecord, ControlCall), ControlError>)
        ensures
            asks(r, self.store@, id, Control::Resume),
    {
        self.ask(id, Control::Resume)
    }

    /// The monitor has changed the state of a machine: keeps it with its new
    /// status.
    pub fn changed(&mut self, vm: VmRecord, status: VmStatus) -> (r: VmRecord)
        ensures
            old(self).sound() && storage::keeps_address(old(self).store@, vm@)
                ==> final(self).sound(),
            final(self).cfg == old(self).cfg,
            final(self).pools@ == old(self).pools@,
            final(self).store.file() == old(self).store.file(),
            r@ == with_status(vm@, status),
            final(self).store@ == old(self).store@.insert(vm@.id, r@),
    {
        let mut vm = vm;
        let ghost before = vm@;
        vm.status = status;
        proof {
            assert(vm@ =~= with_status(before, status));
            if old(self).sound() && storage::keeps_address(self.store@, before) {
                lemma_kept(self.store@, vm@);
            }
        }
        self.store.update(vm.clone());
        vm
    }

    /// A command for the agent of a machine, and how many seconds to wait for
    /// what comes of it.
    pub fn exec(&self, id: u128, command: String, timeout_seconds: Option<u64>) -> (r: Result<
        (VmRecord, AgentRequest, u64),
        VmNotFound,
    >)
        requires
            exec_wait(timeout_seconds) <= u64::MAX,
        ensures
            match r {
                Ok(call) => {
                    &&& self.store@.contains_key(id)
                    &&& call.0@ == self.store@[id]
                    &&& call.1@ == (AgentRequestView::Exec { command: command@, timeout_seconds })
                    &&& call.2 == exec_wait(timeout_seconds)
                },
                Err(_) => !self.store@.contains_key(id),
            },
    {
        match self.get(id) {
            Err(e) => Err(e),
            Ok(vm) => {
                let wait: u64 = match timeout_seconds {
                    Some(t) => t + 5,
                    None => DEFAULT_EXEC_TIMEOUT_SECS + 5,
                };
                Ok((vm, AgentRequest::Exec { command, timeout_seconds }, wait))
            },
        }
    }

    /// Whether a machine has to be stopped before it can be deleted.
    pub fn delete(&self, id: u128) -> (r: Result<bool, VmNotFound>)
        ensures
            match r {
                Ok(first_stop) => self.store@.contains_key(id) && first_stop == (
                self.store@[id].status == VmStatus::Running),
                Err(_) => !self.store@.contains_key(id),
            },
    {
        match self.get(id) {
            Ok(vm) => Ok(vm.status == VmStatus::Running),
            Err(e) => Err(e),
        }
    }

    /// Drops the record of a machine, and says which directory goes with it.
    pub fn deleted(&mut self, id: u128) -> (r: Result<String, VmNotFound>)
        ensures
            old(self).sound() ==> final(self).sound(),
            final(self).cfg == old(self).cfg,
            final(self).pools@ == old(self).pools@,
            final(self).store.file() == old(self).store.file(),
            final(self).store@ == old(self).store@.remove(id),
            match r {
                Ok(workspace) => old(self).store@.contains_key(id) && workspace@
                    == old(self).store@[id].workspace,
                Err(_) => !old(self).store@.contains_key(id),
            },
    {
        match self.store.remove(id) {
            Some(vm) => Ok(vm.workspace),
            None => Err(VmNotFound),
        }
    }

    // ------------------------------------------------------------ housekeeping

    /// The machines whose processes are to be looked at.
    pub fn reconcile(&self) -> (r: Vec<VmRecord>)
        ensures
            exists|all: Seq<VmRecordView>| #[trigger]
                storage::is_listing(all, self.store@) && text::views(r@) == all.filter(
                    |vm: VmRecordView| said_to_run(vm),
                ),
    {
        to_probe(self.store.list())
    }

    /// The process of a machine is gone: keeps the machine as stopped, and says
    /// which network device to remove.
    pub fn found_dead(&mut self, vm: VmRecord) -> (r: Option<(NetworkSpec, String)>)
        ensures
            old(self).sound() && storage::keeps_address(old(self).store@, vm@)
                ==> final(self).sound(),
            final(self).cfg == old(self).cfg,
            final(self).pools@ == old(self).pools@,
            final(self).store.file() == old(self).store.file(),
            final(self).store@ == old(self).store@.insert(vm@.id, stop::stopped(vm@)),
            match r {
                Some(device) => vm@.tap_name == Some(device.1@) && device.0@ == vm@.request.network,
                None => vm@.tap_name is None,
            },
    {
        let mut vm = vm;
        let ghost before = vm@;
        let device = match &vm.tap_name {
            Some(tap) => Some((vm.request.network.clone(), tap.clone())),
            None => None,
        };
        vm.status = VmStatus::Stopped;
        vm.pid = None;
        proof {
            assert(vm@ =~= stop::stopped(before));
            if old(self).sound() && storage::keeps_address(self.store@, before) {
                lemma_kept(self.store@, vm@);
            }
        }
        self.store.update(vm);
        device
    }

    /// The machines whose time was up at `now`.
    pub fn expired_at(&self, now: Timestamp) -> (r: Vec<VmRecord>)
        ensures
            are_due(text::views(r@), self.store@, now),
    {
        to_reap(self.store.list(), now)
    }

    /// The machines whose time is up: `now` is what the system clock shows during
    /// the call.
    pub fn expired_now(&self) -> (r: Vec<VmRecord>)
        ensures
            exists|now: Timestamp|
                now.valid() && now.secs >= 0 && now.shown_by_clock() && #[trigger] are_due(
                    text::views(r@),
                    self.store@,
                    now,
                ),
    {
        let t = now();
        self.expired_at(t)
    }

    // ------------------------------------------------------------------- pools

    /// Keeps a new pool, without members so far.
    pub fn create_pool(&mut self, spec: PoolSpec) -> (r: Result<PoolRecord, PoolError>)
        requires
            old(self).wf(),
        ensures
            final(self).wf(),
            old(self).sound() ==> final(self).sound(),
            final(self).cfg == old(self).cfg,
            final(self).store.file() == old(self).store.file(),
            final(self).store@ == old(self).store@,
            match r {
                Ok(pool) => {
                    &&& spec.size > 0
                    &&& storage::pool_named(old(self).pools@, spec.name@) is None
                    &&& pool@ == (PoolRecordView {
                        name: spec.name@,
                        size: spec.size,
                        template: spec.template@,
                        members: Seq::empty(),
                    })
                    &&& final(self).pools@ == old(self).pools@.push(pool@)
                },
                Err(e) => {
                    &&& final(self).pools@ == old(self).pools@
                    &&& if spec.size == 0 {
                        e == PoolError::SizeIsZero
                    } else {
                        storage::pool_named(old(self).pools@, spec.name@) is Some && e
                            == PoolError::AlreadyExists
                    }
                },
            },
    {
        if spec.size == 0 {
            return Err(PoolError::SizeIsZero);
        }
        if self.pools.get(spec.name.as_str()).is_some() {
            return Err(PoolError::AlreadyExists);
        }
        let members: Vec<u128> = Vec::new();
        let pool = PoolRecord {
            name: spec.name,
            size: spec.size,
            template: spec.template,
            members,
        };
        proof {
            assert(pool@.members =~= Seq::<u128>::empty());
            if old(self).sound() {
                storage::an_empty_pool_leaves_members_distinct(self.pools@, pool@);
            }
        }
        self.pools.insert(pool.clone());
        Ok(pool)
    }

    pub fn list_pools(&self) -> (r: Vec<PoolRecord>)
        ensures
            text::views(r@) == self.pools@,
    {
        self.pools.list()
    }

    pub fn get_pool(&self, name: &str) -> (r: Result<PoolRecord, PoolError>)
        ensures
            match r {
                Ok(pool) => storage::pool_named(self.pools@, name@) == Some(pool@),
                Err(e) => storage::pool_named(self.pools@, name@) is None && e
                    == PoolError::NotFound,
            },
    {
        match self.pools.get(name) {
            Some(pool) => Ok(pool),
            None => Err(PoolError::NotFound),
        }
    }

    /// Drops a pool, and says which machines go with it.
    pub fn delete_pool(&mut self, name: &str) -> (r: Result<Vec<u128>, PoolError>)
        requires
            old(self).wf(),
        ensures
            final(self).wf(),
            old(self).sound() ==> final(self).sound(),
            final(self).cfg == old(self).cfg,
            final(self).store.file() == old(self).store.file(),
            final(self).store@ == old(self).store@,
            final(self).pools@ == storage::without_pool(old(self).pools@, name@),
            match r {
                Ok(members) => storage::pool_named(old(self).pools@, name@) is Some && members@ == (
                storage::pool_named(old(self).pools@, name@)->0).members,
                Err(e) => storage::pool_named(old(self).pools@, name@) is None && e
                    == PoolError::NotFound,
            },
    {
        proof {
            if old(self).sound() {
                storage::a_dropped_pool_leaves_members_distinct(self.pools@, name@);
            }
        }
        match self.pools.remove(name) {
            Some(pool) => Ok(pool.members),
            None => Err(PoolError::NotFound),
        }
    }

    /// Takes a ready member out of a pool. It has to be resumed before it is
    /// handed out.
    pub fn claim_from_pool(&mut self, name: &str, overrides: ClaimOverrides) -> (r: Result<
        Claim,
        PoolError,
    >)
        requires
            old(self).wf(),
        ensures
            final(self).wf(),
            old(self).sound() ==> final(self).sound(),
            final(self).cfg == old(self).cfg,
            final(self).store.file() == old(self).store.file(),
            final(self).store@ == old(self).store@,
            match r {
                Ok(claim) => {
                    &&& storage::pool_named(old(self).pools@, name@) matches Some(p)
                    &&& p.members.len() > 0
                    &&& claim.id == p.members.last()
                    &&& claim.overrides == overrides
                    &&& claim.refill@ == name@
                    &&& final(self).pools@ == storage::with_pool(
                        old(self).pools@,
                        storage::with_members(p, p.members.drop_last()),
                    )
                },
                Err(e) => {
                    &&& e == PoolError::NoReadyMembers
                    &&& final(self).pools@ == old(self).pools@
                    &&& storage::pool_named(old(self).pools@, name@) matches Some(p)
                        ==> p.members.len() == 0
                },
            },
    {
        proof {
            if old(self).sound() && storage::pool_named(self.pools@, name@) is Some && (
            storage::pool_named(self.pools@, name@)->0).members.len() > 0 {
                storage::no_member_is_handed_out_twice(self.pools@, name@);
            }
        }
        match self.pools.pop_member(name) {
            Some(id) => Ok(Claim { id, overrides, refill: name.to_owned() }),
            None => Err(PoolError::NoReadyMembers),
        }
    }

    /// Hands out a member that was resumed, with a lifetime that starts at `t`.
    pub fn hand_out_at(&mut self, vm: VmRecord, overrides: ClaimOverrides, t: Timestamp) -> (r:
        Result<VmRecord, ExpiryOutOfRange>)
        requires
            t.valid(),
        ensures
            old(self).sound() && storage::keeps_address(old(self).store@, vm@)
                ==> final(self).sound(),
            final(self).cfg == old(self).cfg,
            final(self).pools@ == old(self).pools@,
            final(self).store.file() == old(self).store.file(),
            match r {
                Ok(handed) => {
                    &&& create::lifetime_fits(overrides.ttl_seconds, t)
                    &&& handed@ == claimed(vm@, overrides, t)
                    &&& final(self).store@ == old(self).store@.insert(vm@.id, handed@)
                },
                Err(_) => {
                    &&& !create::lifetime_fits(overrides.ttl_seconds, t)
                    &&& final(self).store@ == old(self).store@
                },
            },
    {
        match apply_claim(vm, overrides, t) {
            Ok(handed) => {
                proof {
                    if old(self).sound() && storage::keeps_address(self.store@, vm@) {
                        lemma_kept(self.store@, handed@);
                    }
                }
                self.store.update(handed.clone());
                Ok(handed)
            },
            Err(e) => Err(e),
        }
    }

    /// Hands out a member that was resumed, with a lifetime that starts now.
    pub fn hand_out(&mut self, vm: VmRecord, overrides: ClaimOverrides) -> (r: Result<
        VmRecord,
        ExpiryOutOfRange,
    >)
        ensures
            old(self).sound() && storage::keeps_address(old(self).store@, vm@)
                ==> final(self).sound(),
            final(self).cfg == old(self).cfg,
            final(self).pools@ == old(self).pools@,
            final(self).store.file() == old(self).store.file(),
            match r {
                Ok(handed) => {
                    &&& exists|t: Timestamp|
                        t.valid() && t.secs >= 0 && t.shown_by_clock() && create::lifetime_fits(
                            overrides.ttl_seconds,
                            t,
                        ) && handed@ == #[trigger] claimed(vm@, overrides, t)
                    &&& final(self).store@ == old(self).store@.insert(vm@.id, handed@)
                },
                Err(_) => {
                    &&& exists|t: Timestamp|
                        t.valid() && t.secs >= 0 && t.shown_by_clock()
                            && !#[trigger] create::lifetime_fits(overrides.ttl_seconds, t)
                    &&& final(self).store@ == old(self).store@
                },
            },
    {
        let t = now();
        self.hand_out_at(vm, overrides, t)
    }

    /// The request for the next member of a pool, under a name made from `id`;
    /// `None` if the pool is gone or full.
    pub fn next_member(&self, name: &str, id: u128) -> (r: Option<CreateVmRequest>)
        ensures
            text::opt(r) == match storage::pool_named(self.pools@, name@) {
                Some(p) => if p.members.len() >= p.size {
                    None
                } else {
                    Some(member_of(p.template, name@, id))
                },
                None => None,
            },
    {
        match self.pools.get(name) {
            Some(pool) => {
                if pool.members.len() >= pool.size {
                    None
                } else {
                    Some(member_request(&pool.template, name, id))
                }
            },
            None => None,
        }
    }

    /// Starts to fill a pool, its next member under a name drawn at random.
    pub fn backfill_pool(&self, name: &str) -> (r: (Filling, FillAction))
        ensures
            r.0.pool() == name@,
            exists|id: u128|
                ids::is_random_id(id) && draw::is_member_tag(id) && (r.0.at(), r.1@)
                    == #[trigger] warm::to_next_member(
                    self.pools@,
                    name@,
                    id,
                ),
    {
        Filling::start(name, self)
    }

    /// Puts a machine that is paused and ready into a pool. Says whether the
    /// pool is still there; if not, the machine is in nobody's hands.
    pub fn push_member(&mut self, name: &str, id: u128) -> (r: bool)
        requires
            old(self).wf(),
        ensures
            final(self).wf(),
            old(self).sound() && !storage::is_member(old(self).pools@, id) ==> final(self).sound(),
            final(self).cfg == old(self).cfg,
            final(self).store.file() == old(self).store.file(),
            final(self).store@ == old(self).store@,
            r == (storage::pool_named(old(self).pools@, name@) is Some),
            final(self).pools@ == match storage::pool_named(old(self).pools@, name@) {
                Some(p) => storage::with_pool(
                    old(self).pools@,
                    storage::with_members(p, p.members.push(id)),
                ),
                None => old(self).pools@,
            },
    {
        proof {
            if old(self).sound() && !storage::is_member(self.pools@, id) && storage::pool_named(
                self.pools@,
                name@,
            ) is Some {
                storage::a_new_member_is_a_member_once(self.pools@, name@, id);
            }
        }
        self.pools.push_member(name, id)
    }
}

/// A record that brings no new address keeps the store sound.
proof fn lemma_kept(m: Map<u128, VmRecordView>, vm: VmRecordView)
    requires
        storage::keyed(m),
        storage::cids_distinct(m),
        storage::keeps_address(m, vm),
    ensures
        storage::keyed(m.insert(vm.id, vm)),
        storage::cids_distinct(m.insert(vm.id, vm)),
{
    storage::records_stay_keyed(m, vm, vm.id);
    storage::updates_keep_addresses_distinct(m, vm, vm.id);
}

/// The machine and the call that asks its monitor for `c`, or why there is
/// none.
pub open spec fn asks(
    r: Result<(VmRecord, ControlCall), ControlError>,
    m: Map<u128, VmRecordView>,
    id: u128,
    c: Control,
) -> bool {
    match r {
        Ok(asked) => {
            &&& m.contains_key(id)
            &&& asked.0@ == m[id]
            &&& policy::control_call(m[id].backend, m[id].workspace, c) == Some(asked.1@)
        },
        Err(ControlError::VmNotFound) => !m.contains_key(id),
        Err(ControlError::UnresolvedBackend) => m.contains_key(id) && m[id].backend
            == BackendKind::Auto,
        Err(ControlError::Unsupported) => {
            &&& m.contains_key(id)
            &&& m[id].backend != BackendKind::Auto
            &&& policy::control_call(m[id].backend, m[id].workspace, c) is None
        },
    }
}

// ------------------------------------------------------------------------ laws

/// The machines that are reaped are exactly those that are kept and whose date of
/// expiry is the present or lies before it, to the nanosecond.
pub proof fn exactly_the_expired_are_due(
    due: Seq<VmRecordView>,
    m: Map<u128, VmRecordView>,
    now: Timestamp,
    id: u128,
)
    requires
        storage::keyed(m),
        are_due(due, m, now),
    ensures
        (exists|i: int| 0 <= i < due.len() && (#[trigger] due[i]).id == id) <==> m.contains_key(id)
            && (m[id].expires_at matches Some(t) && (t.secs < now.secs || (t.secs == now.secs
            && t.nanos <= now.nanos))),
{
    let all = choose|all: Seq<VmRecordView>| #[trigger]
        storage::is_listing(all, m) && due == all.filter(|vm: VmRecordView| expired(vm, now));
    let p = |vm: VmRecordView| expired(vm, now);
    storage::listing_has_each_record_once(all, m, id);
    if exists|i: int| 0 <= i < due.len() && (#[trigger] due[i]).id == id {
        let i = choose|i: int| 0 <= i < due.len() && (#[trigger] due[i]).id == id;
        all.lemma_filter_pred(p, i);
        assert(due.contains(due[i]));
        all.lemma_filter_contains_rev(p, due[i]);
        let j = choose|j: int| 0 <= j < all.len() && all[j] == due[i];
        assert(m[all[j].id] == all[j]);
    }
    if m.contains_key(id) && expired(m[id], now) {
        let j = choose|j: int| 0 <= j < all.len() && (#[trigger] all[j]).id == id;
        assert(m[all[j].id] == all[j]);
        all.lemma_filter_contains(p, j);
        let i = choose|i: int| 0 <= i < due.len() && due[i] == all[j];
        assert(due[i].id == id);
    }
}

/// A machine that is due stays due: time only goes on.
pub proof fn expiry_is_final(vm: VmRecordView, now: Timestamp, later: Timestamp)
    requires
        expired(vm, now),
        now.at_or_before(later),
    ensures
        expired(vm, later),
{
}

/// A machine that is created now with a lifetime of at least a second is not
/// due right away.
pub proof fn a_lifetime_is_granted(ttl: u64, t: Timestamp, vm: VmRecordView)
    requires
        t.valid(),
        1 <= ttl <= i64::MAX,
        clock::expiry_fits(t, ttl),
        vm.expires_at == create::expiry_of(Some(ttl), t),
    ensures
        !expired(vm, t),
        expired(vm, clock::expiry(t, ttl)),
{
}

/// A member of a pool never expires while it waits, whatever the template says,
/// and is otherwise made from the template.
pub proof fn members_never_expire(
    template: CreateVmRequestView,
    pool: Seq<char>,
    id: u128,
    started: Timestamp,
    vm: VmRecordView,
    now: Timestamp,
)
    requires
        vm.expires_at == create::expiry_of(member_of(template, pool, id).ttl_seconds, started),
    ensures
        !expired(vm, now),
        member_of(template, pool, id) == (CreateVmRequestView {
            name: member_of(template, pool, id).name,
            ttl_seconds: None,
            ..template
        }),
{
}

/// A claim changes the name and the lifetime of a member, and nothing else.
pub proof fn a_claim_renames_and_times(vm: VmRecordView, o: ClaimOverrides, t: Timestamp)
    ensures
        claimed(vm, o, t).request.ttl_seconds == o.ttl_seconds,
        claimed(vm, o, t).expires_at is Some <==> o.ttl_seconds is Some,
        o.name is None ==> claimed(vm, o, t).name == vm.name && claimed(vm, o, t).request.name
            == vm.request.name,
        o.name is Some ==> claimed(vm, o, t).name == o.name->0@ && claimed(vm, o, t).request.name
            == o.name->0@,
        claimed(vm, o, t) == (VmRecordView {
            name: claimed(vm, o, t).name,
            expires_at: claimed(vm, o, t).expires_at,
            request: claimed(vm, o, t).request,
            ..vm
        }),
{
}

/// A member that is only made while there is room never overfills a pool.
pub proof fn pools_are_never_overfilled(p: PoolRecordView, id: u128)
    requires
        p.members.len() < p.size,
    ensures
        storage::with_members(p, p.members.push(id)).members.len() <= p.size,
{
}

/// Every member of every pool is a machine that is kept and paused.
pub open spec fn members_are_ready(
    pools: Seq<PoolRecordView>,
    m: Map<u128, VmRecordView>,
) -> bool {
    forall|i: int, id: u128|
        0 <= i < pools.len() && #[trigger] pools[i].members.contains(id) ==> m.contains_key(id)
            && m[id].status == VmStatus::Paused
}

/// Members stay ready whatever is kept or dropped of machines that are in no
/// pool.
pub proof fn other_machines_leave_members_ready(
    pools: Seq<PoolRecordView>,
    m: Map<u128, VmRecordView>,
    vm: VmRecordView,
)
    requires
        members_are_ready(pools, m),
        !storage::is_member(pools, vm.id),
    ensures
        members_are_ready(pools, m.insert(vm.id, vm)),
        members_are_ready(pools, m.remove(vm.id)),
{
    assert forall|i: int, id: u128|
        0 <= i < pools.len() && #[trigger] pools[i].members.contains(id) implies id != vm.id by {}
}

/// Members stay ready when one is claimed, and when a paused machine joins.
pub proof fn claims_and_joins_leave_members_ready(
    pools: Seq<PoolRecordView>,
    m: Map<u128, VmRecordView>,
    name: Seq<char>,
    id: u128,
)
    requires
        members_are_ready(pools, m),
        storage::pool_named(pools, name) is Some,
        m.contains_key(id),
        m[id].status == VmStatus::Paused,
    ensures
        ({
            let p = storage::pool_named(pools, name)->0;
            &&& p.members.len() > 0 ==> members_are_ready(
                storage::with_pool(pools, storage::with_members(p, p.members.drop_last())),
                m,
            )
            &&& members_are_ready(
                storage::with_pool(pools, storage::with_members(p, p.members.push(id))),
                m,
            )
        }),
{
    storage::lemma_pool_index(pools, name);
    let k = storage::pool_index(pools, name);
    let p = pools[k];
    assert(p.name == name);
    if p.members.len() > 0 {
        let fewer = p.members.drop_last();
        let rest = storage::with_pool(pools, storage::with_members(p, fewer));
        assert forall|i: int, x: u128|
            0 <= i < rest.len() && #[trigger] rest[i].members.contains(x) implies m.contains_key(x)
            && m[x].status == VmStatus::Paused by {
            if i == k {
                let j = choose|j: int| 0 <= j < fewer.len() && fewer[j] == x;
                assert(p.members[j] == x);
            }
            assert(pools[i].members.contains(x));
        }
    }
    let grown = p.members.push(id);
    let more = storage::with_pool(pools, storage::with_members(p, grown));
    assert forall|i: int, x: u128|
        0 <= i < more.len() && #[trigger] more[i].members.contains(x) implies m.contains_key(x)
        && m[x].status == VmStatus::Paused by {
        if i == k {
            let j = choose|j: int| 0 <= j < grown.len() && grown[j] == x;
            if j < p.members.len() {
                assert(p.members[j] == x);
                assert(pools[i].members.contains(x));
            }
        } else {
            assert(pools[i].members.contains(x));
        }
    }
}

/// The addresses of guests are at least the first one and all distinct,
/// however many machines are registered.
pub proof fn guest_addresses_are_distinct(
    m: Map<u128, VmRecordView>,
    vm: VmRecordView,
)
    requires
        storage::cids_distinct(m),
        vm.guest_cid is Some,
        storage::is_lowest_free(m, FIRST_GUEST_CID, vm.guest_cid->0),
    ensures
        vm.guest_cid->0 >= 3,
        storage::cids_distinct(m.insert(vm.id, vm)),
{
    storage::addresses_stay_distinct(m, vm, FIRST_GUEST_CID);
}

/// A machine is looked at after a restart if and only if it is kept as running
/// under a process.
pub proof fn exactly_the_running_are_looked_at(
    found: Seq<VmRecordView>,
    all: Seq<VmRecordView>,
    m: Map<u128, VmRecordView>,
    id: u128,
)
    requires
        storage::keyed(m),
        storage::is_listing(all, m),
        found == all.filter(|vm: VmRecordView| said_to_run(vm)),
    ensures
        (exists|i: int| 0 <= i < found.len() && (#[trigger] found[i]).id == id)
            <==> m.contains_key(id) && m[id].status == VmStatus::Running && m[id].pid is Some,
{
    let p = |vm: VmRecordView| said_to_run(vm);
    storage::listing_has_each_record_once(all, m, id);
    if exists|i: int| 0 <= i < found.len() && (#[trigger] found[i]).id == id {
        let i = choose|i: int| 0 <= i < found.len() && (#[trigger] found[i]).id == id;
        all.lemma_filter_pred(p, i);
        assert(found.contains(found[i]));
        all.lemma_filter_contains_rev(p, found[i]);
        let j = choose|j: int| 0 <= j < all.len() && all[j] == found[i];
        assert(m[all[j].id] == all[j]);
    }
    if m.contains_key(id) && said_to_run(m[id]) {
        let j = choose|j: int| 0 <= j < all.len() && (#[trigger] all[j]).id == id;
        assert(m[all[j].id] == all[j]);
        all.lemma_filter_contains(p, j);
        let i = choose|i: int| 0 <= i < found.len() && found[i] == all[j];
        assert(found[i].id == id);
    }
}

/// A machine that is handed out with a lifetime expires exactly so many seconds
/// after it was handed out, and never without one.
pub proof fn a_claim_is_timed_from_when_it_is_made(
    vm: VmRecordView,
    o: ClaimOverrides,
    t: Timestamp,
)
    requires
        t.valid(),
        create::lifetime_fits(o.ttl_seconds, t),
    ensures
        o.ttl_seconds is None ==> claimed(vm, o, t).expires_at is None,
        o.ttl_seconds matches Some(ttl) ==> claimed(vm, o, t).expires_at == Some(
            clock::expiry(t, ttl),
        ),
        o.ttl_seconds matches Some(ttl) && ttl <= 0x7fff_ffff_ffff_ffff ==> {
            &&& claimed(vm, o, t).expires_at matches Some(end)
            &&& end.secs == t.secs + o.ttl_seconds->0
            &&& end.nanos == t.nanos
        },
{
}

/// What a claim leaves of a member: everything but the names and the lifetime,
/// that of its request too.
pub proof fn a_claim_keeps_the_machine(vm: VmRecordView, o: ClaimOverrides, t: Timestamp)
    ensures
        claimed(vm, o, t).id == vm.id,
        claimed(vm, o, t).status == vm.status,
        claimed(vm, o, t).pid == vm.pid,
        claimed(vm, o, t).request == (CreateVmRequestView {
            name: claimed(vm, o, t).request.name,
            ttl_seconds: o.ttl_seconds,
            ..vm.request
        }),
        o.name matches Some(n) ==> claimed(vm, o, t).name == n@ && claimed(vm, o, t).request.name
            == n@,
{
}

/// The name of a member says which pool it is for and is its own.
pub proof fn a_member_is_called_by_its_pool(
    template: CreateVmRequestView,
    pool: Seq<char>,
    id: u128,
)
    ensures
        member_of(template, pool, id).name == pool + "-pool-"@ + ids::hyphenated_form(id),
        member_of(template, pool, id).ttl_seconds is None,
        member_of(template, pool, id).image == template.image,
        member_of(template, pool, id).backend == template.backend,
        member_of(template, pool, id).vcpus == template.vcpus,
        member_of(template, pool, id).memory_mib == template.memory_mib,
{
}

/// A change of status is all that changes.
pub proof fn a_status_is_all_that_changes(vm: VmRecordView, status: VmStatus)
    ensures
        with_status(vm, status).status == status,
        with_status(vm, status) == (VmRecordView { status: with_status(vm, status).status, ..vm }),
{
}

/// A command is waited for five seconds longer than it may run, which is thirty
/// seconds if the request does not say.
pub proof fn a_command_has_time_to_answer(t: u64)
    ensures
        exec_wait(Some(t)) == t + 5,
        exec_wait(None) == 35,
{
}

/// A change of state is asked of the monitor of the machine that was meant: the
/// machine is the one that is kept under the identifier, and what goes out is a
/// call over the socket in its own workspace.
pub proof fn the_right_machine_is_asked(
    r: Result<(VmRecord, ControlCall), ControlError>,
    m: Map<u128, VmRecordView>,
    id: u128,
    c: Control,
)
    requires
        asks(r, m, id, c),
    ensures
        r matches Ok(asked) ==> {
            &&& m.contains_key(id)
            &&& asked.0@ == m[id]
            &&& match asked.1@ {
                ControlCallView::Qmp { socket, command } => {
                    &&& m[id].backend == BackendKind::Qemu
                    &&& socket == paths::joined(m[id].workspace, "qmp.sock"@)
                    &&& c == Control::Pause ==> command == "stop"@
                    &&& c == Control::Resume ==> command == "cont"@
                },
                ControlCallView::Http { socket, method, path, body } => {
                    &&& m[id].backend == BackendKind::Firecracker
                    &&& socket == paths::joined(m[id].workspace, "firecracker.sock"@)
                    &&& c != Control::Shutdown ==> method == "PATCH"@ && path == "/vm"@
                    &&& c == Control::Pause ==> body == "{\"state\":\"Paused\"}"@
                    &&& c == Control::Resume ==> body == "{\"state\":\"Resumed\"}"@
                },
            }
        },
        m.contains_key(id) && (m[id].backend == BackendKind::Qemu || m[id].backend
            == BackendKind::Firecracker) <==> r is Ok,
        r == Err::<(VmRecord, ControlCall), ControlError>(ControlError::VmNotFound)
            <==> !m.contains_key(id),
        r == Err::<(VmRecord, ControlCall), ControlError>(ControlError::Unsupported)
            <==> m.contains_key(id) && m[id].backend == BackendKind::CloudHypervisor,
{
    policy::every_monitor_is_called_in_its_own_way(m[id].workspace, c);
}

/// What is wrong with a pool is told by its name.
pub proof fn pool_errors_name_the_pool(pool: Seq<char>)
    ensures
        PoolError::AlreadyExists.text(pool) == "pool '"@ + pool + "' already exists"@,
        PoolError::NoReadyMembers.text(pool) == "pool '"@ + pool
            + "' has no ready members right now \u{2014} try again shortly, or increase its size"@,
        PoolError::NotFound.text(pool) == "pool not found"@,
        PoolError::SizeIsZero.text(pool) == "pool size must be at least 1"@,
        ControlError::VmNotFound.text() == "VM not found"@,
{
}

} // verus!
