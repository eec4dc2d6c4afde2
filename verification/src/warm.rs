//! Warm pools in motion: what becomes of a member that was claimed, and how a
//! pool is filled with members that are created, paused and only then put into
//! it.

use crate::create;
use crate::draw::{self, member_tag};
use crate::ids;
use crate::model::{ClaimOverrides, CreateVmRequest, CreateVmRequestView, PoolRecordView, VmRecord,
    VmRecordView, VmStatus};
use crate::scan;
use crate::scheduler::{self, VmManager};
use crate::storage;
use vstd::prelude::*;

verus! {

// ---------------------------------------------------------------------- claims

/// A member that was taken out of its pool, and what it is to be handed out
/// with.
#[derive(Debug)]
pub struct Claim {
    pub id: u128,
    pub overrides: ClaimOverrides,
    /// The pool that lacks a member now and has to be filled again.
    pub refill: String,
}

/// What to do with a member once it was tried to resume it.
#[derive(Debug)]
pub enum ClaimStep {
    HandOut { vm: VmRecord, overrides: ClaimOverrides },
    /// It is in no pool any more and cannot be used: delete it, then report the
    /// error.
    Discard { id: u128, error: String },
}

/// What to do after the member of a claim was resumed, or could not be.
pub fn after_resume(claim: Claim, outcome: Result<VmRecord, String>) -> (r: ClaimStep)
    ensures
        match outcome {
            Ok(vm) => r == (ClaimStep::HandOut { vm, overrides: claim.overrides }),
            Err(error) => r == (ClaimStep::Discard { id: claim.id, error }),
        },
{
    match outcome {
        Ok(vm) => ClaimStep::HandOut { vm, overrides: claim.overrides },
        Err(error) => ClaimStep::Discard { id: claim.id, error },
    }
}

// --------------------------------------------------------------------- filling

/// What is being done for a pool that is filled.
#[derive(Debug, Clone, Copy, PartialEq, Eq, Structural)]
pub enum FillStage {
    Creating,
    Pausing { member: u128 },
    Discarding,
    Over,
}

/// What to do next for a pool that is filled.
#[derive(Debug)]
pub enum FillAction {
    Create { req: CreateVmRequest },
    Pause { id: u128 },
    /// The pool is gone: delete the machine that was made for it.
    Discard { id: u128 },
    /// The pool is full or gone.
    Finish,
    GiveUp { error: String },
}

pub enum FillActionView {
    Create { req: CreateVmRequestView },
    Pause { id: u128 },
    Discard { id: u128 },
    Finish,
    GiveUp { error: Seq<char> },
}

impl View for FillAction {
    type V = FillActionView;

    open spec fn view(&self) -> FillActionView {
        match *self {
            FillAction::Create { req } => FillActionView::Create { req: req@ },
            FillAction::Pause { id } => FillActionView::Pause { id },
            FillAction::Discard { id } => FillActionView::Discard { id },
            FillAction::Finish => FillActionView::Finish,
            FillAction::GiveUp { error } => FillActionView::GiveUp { error: error@ },
        }
    }
}

/// How the last piece of work ended.
#[derive(Debug)]
pub enum FillEvent {
    Created { id: u128 },
    /// It is done, and there is nothing to tell.
    Done,
    Failed { error: String },
}

pub enum FillEventView {
    Created { id: u128 },
    Done,
    Failed { error: Seq<char> },
}

impl View for FillEvent {
    type V = FillEventView;

    open spec fn view(&self) -> FillEventView {
        match *self {
            FillEvent::Created { id } => FillEventView::Created { id },
            FillEvent::Done => FillEventView::Done,
            FillEvent::Failed { error } => FillEventView::Failed { error: error@ },
        }
    }
}

/// The events that can end the work of a stage.
pub open spec fn expected(stage: FillStage, e: FillEventView) -> bool {
    match stage {
        FillStage::Creating => e is Created || e is Failed,
        FillStage::Pausing { .. } => e is Done || e is Failed,
        FillStage::Discarding => e is Done || e is Failed,
        FillStage::Over => false,
    }
}

/// Another member is created under a name made from `id`, if the pool is there
/// and not full.
pub open spec fn to_next_member(pools: Seq<PoolRecordView>, name: Seq<char>, id: u128) -> (
    FillStage,
    FillActionView,
) {
    match storage::pool_named(pools, name) {
        Some(p) => if p.members.len() < p.size {
            (
                FillStage::Creating,
                FillActionView::Create { req: scheduler::member_of(p.template, name, id) },
            )
        } else {
            (FillStage::Over, FillActionView::Finish)
        },
        None => (FillStage::Over, FillActionView::Finish),
    }
}

/// The pools after a machine has joined the one called `name`, if it is there.
pub open spec fn joined(pools: Seq<PoolRecordView>, name: Seq<char>, member: u128) -> Seq<
    PoolRecordView,
> {
    match storage::pool_named(pools, name) {
        Some(p) => storage::with_pool(pools, storage::with_members(p, p.members.push(member))),
        None => pools,
    }
}

/// The pools after an event: a machine joins once it is paused.
pub open spec fn pools_after(
    pools: Seq<PoolRecordView>,
    name: Seq<char>,
    stage: FillStage,
    e: FillEventView,
) -> Seq<PoolRecordView> {
    match stage {
        FillStage::Pausing { member } => if e is Done {
            joined(pools, name, member)
        } else {
            pools
        },
        _ => pools,
    }
}

/// What follows from how the last piece of work ended. A machine that cannot be
/// paused stays what it is; one whose pool is gone is deleted.
pub open spec fn next_step(
    pools: Seq<PoolRecordView>,
    name: Seq<char>,
    stage: FillStage,
    e: FillEventView,
    id: u128,
) -> (FillStage, FillActionView) {
    if stage == FillStage::Discarding {
        (FillStage::Over, FillActionView::Finish)
    } else {
        match e {
            FillEventView::Failed { error } => (FillStage::Over, FillActionView::GiveUp { error }),
            FillEventView::Created { id: member } => (
                FillStage::Pausing { member },
                FillActionView::Pause { id: member },
            ),
            FillEventView::Done => {
                let member = stage->member;
                if storage::pool_named(pools, name) is Some {
                    to_next_member(joined(pools, name, member), name, id)
                } else {
                    (FillStage::Discarding, FillActionView::Discard { id: member })
                }
            },
        }
    }
}

/// The machine that is to join is a member already.
pub open spec fn joins_twice(pools: Seq<PoolRecordView>, stage: FillStage) -> bool {
    stage is Pausing && storage::is_member(pools, stage->member)
}

/// A pool that is filled.
#[derive(Debug)]
pub struct Filling {
    name: String,
    stage: FillStage,
}

impl Filling {
    /// The name of the pool.
    pub closed spec fn pool(&self) -> Seq<char> {
        self.name@
    }

    pub closed spec fn at(&self) -> FillStage {
        self.stage
    }

    fn next_member(name: String, m: &VmManager, id: u128) -> (r: (Filling, FillAction))
        ensures
            r.0.pool() == name@,
            (r.0.at(), r.1@) == to_next_member(m.pools@, name@, id),
    {
        match m.next_member(name.as_str(), id) {
            Some(req) => (
                Filling { name, stage: FillStage::Creating },
                FillAction::Create { req },
            ),
            None => (Filling { name, stage: FillStage::Over }, FillAction::Finish),
        }
    }

    /// Starts to fill a pool, its next member under a name made from `id`.
    pub fn start_with(name: &str, m: &VmManager, id: u128) -> (r: (Filling, FillAction))
        ensures
            r.0.pool() == name@,
            (r.0.at(), r.1@) == to_next_member(m.pools@, name@, id),
    {
        Filling::next_member(name.to_owned(), m, id)
    }

    /// Starts to fill a pool, its next member under a name drawn at random.
    pub fn start(name: &str, m: &VmManager) -> (r: (Filling, FillAction))
        ensures
            r.0.pool() == name@,
            exists|id: u128|
                ids::is_random_id(id) && draw::is_member_tag(id) && (r.0.at(), r.1@)
                    == #[trigger] to_next_member(
                    m.pools@,
                    name@,
                    id,
                ),
    {
        let id: u128 = member_tag();
        Filling::start_with(name, m, id)
    }

    /// What to do after the last piece of work ended with `event`, the next
    /// member being under a name made from `id`.
    pub fn on_event_with(self, m: &mut VmManager, event: FillEvent, id: u128) -> (r: (
        Filling,
        FillAction,
    ))
        requires
            old(m).wf(),
            expected(self.at(), event@),
        ensures
            final(m).wf(),
            old(m).sound() && !joins_twice(old(m).pools@, self.at()) ==> final(m).sound(),
            final(m).cfg == old(m).cfg,
            final(m).store.file() == old(m).store.file(),
            final(m).store@ == old(m).store@,
            final(m).pools@ == pools_after(old(m).pools@, self.pool(), self.at(), event@),
            r.0.pool() == self.pool(),
            (r.0.at(), r.1@) == next_step(old(m).pools@, self.pool(), self.at(), event@, id),
    {
        match self.stage {
            FillStage::Discarding => (
                Filling { name: self.name, stage: FillStage::Over },
                FillAction::Finish,
            ),
            _ => match event {
                FillEvent::Failed { error } => (
                    Filling { name: self.name, stage: FillStage::Over },
                    FillAction::GiveUp { error },
                ),
                FillEvent::Created { id: member } => (
                    Filling { name: self.name, stage: FillStage::Pausing { member } },
                    FillAction::Pause { id: member },
                ),
                FillEvent::Done => match self.stage {
                    FillStage::Pausing { member } => {
                        if m.push_member(self.name.as_str(), member) {
                            Filling::next_member(self.name, m, id)
                        } else {
                            (
                                Filling { name: self.name, stage: FillStage::Discarding },
                                FillAction::Discard { id: member },
                            )
                        }
                    },
                    _ => (Filling { name: self.name, stage: FillStage::Over }, FillAction::Finish),
                },
            },
        }
    }

    /// What to do after the last piece of work ended with `event`, the next
    /// member being under a name drawn at random.
    pub fn on_event(self, m: &mut VmManager, event: FillEvent) -> (r: (Filling, FillAction))
        requires
            old(m).wf(),
            expected(self.at(), event@),
        ensures
            final(m).wf(),
            old(m).sound() && !joins_twice(old(m).pools@, self.at()) ==> final(m).sound(),
            final(m).cfg == old(m).cfg,
            final(m).store.file() == old(m).store.file(),
            final(m).store@ == old(m).store@,
            final(m).pools@ == pools_after(old(m).pools@, self.pool(), self.at(), event@),
            r.0.pool() == self.pool(),
            exists|id: u128|
                ids::is_random_id(id) && draw::is_member_tag(id) && (r.0.at(), r.1@)
                    == #[trigger] next_step(
                    old(m).pools@,
                    self.pool(),
                    self.at(),
                    event@,
                    id,
                ),
    {
        let id: u128 = member_tag();
        self.on_event_with(m, event, id)
    }
}

// ------------------------------------------------------------------------ laws

/// Nothing but a machine that was just paused ever joins a pool, and it joins
/// the one that it was made for.
pub proof fn only_paused_machines_join(
    pools: Seq<PoolRecordView>,
    name: Seq<char>,
    stage: FillStage,
    e: FillEventView,
)
    requires
        expected(stage, e),
        pools_after(pools, name, stage, e) != pools,
    ensures
        e is Done,
        stage is Pausing,
        pools_after(pools, name, stage, e) == joined(pools, name, stage->member),
{
}

/// Filling a pool leaves all members ready, as long as the machine that joins is
/// kept as paused.
pub proof fn filling_leaves_members_ready(
    pools: Seq<PoolRecordView>,
    m: Map<u128, VmRecordView>,
    name: Seq<char>,
    stage: FillStage,
    e: FillEventView,
)
    requires
        scheduler::members_are_ready(pools, m),
        stage is Pausing && e is Done ==> m.contains_key(stage->member) && m[stage->member].status
            == VmStatus::Paused,
    ensures
        scheduler::members_are_ready(pools_after(pools, name, stage, e), m),
{
    if stage is Pausing && e is Done && storage::pool_named(pools, name) is Some {
        scheduler::claims_and_joins_leave_members_ready(pools, m, name, stage->member);
    }
}

/// A machine that was made and paused for a pool is in the pool or is deleted.
pub proof fn no_paused_machine_is_lost(
    pools: Seq<PoolRecordView>,
    name: Seq<char>,
    member: u128,
    id: u128,
)
    ensures
        ({
            let stage = FillStage::Pausing { member };
            let after = pools_after(pools, name, stage, FillEventView::Done);
            ||| storage::is_member(after, member)
            ||| next_step(pools, name, stage, FillEventView::Done, id).1
                == (FillActionView::Discard { id: member })
        }),
{
    if storage::pool_named(pools, name) is Some {
        storage::lemma_pool_index(pools, name);
        let k = storage::pool_index(pools, name);
        let p = pools[k];
        let after = joined(pools, name, member);
        assert(after[k].members == p.members.push(member));
        assert(after[k].members[p.members.len() as int] == member);
        assert(after[k].members.contains(member));
    }
}

/// A member is only made for a pool that has room for it.
pub proof fn members_are_made_where_there_is_room(
    pools: Seq<PoolRecordView>,
    name: Seq<char>,
    id: u128,
)
    ensures
        to_next_member(pools, name, id).1 is Create <==> (storage::pool_named(pools, name) matches Some(
            p,
        ) && p.members.len() < p.size),
{
}

/// A new pool wants members at once.
pub proof fn a_new_pool_wants_members(
    pools: Seq<PoolRecordView>,
    fresh: PoolRecordView,
    id: u128,
)
    requires
        storage::pool_named(pools, fresh.name) is None,
        fresh.size > 0,
        fresh.members.len() == 0,
    ensures
        to_next_member(pools.push(fresh), fresh.name, id).1 is Create,
{
    storage::lemma_pool_index(pools, fresh.name);
    storage::lemma_with_pool(pools, fresh, fresh.name);
}

/// A pool that a member was claimed from wants another in its place.
pub proof fn a_claimed_member_is_replaced(pools: Seq<PoolRecordView>, name: Seq<char>, id: u128)
    requires
        storage::pool_named(pools, name) matches Some(p) && 0 < p.members.len() <= p.size,
    ensures
        ({
            let p = storage::pool_named(pools, name)->0;
            let rest = storage::with_pool(
                pools,
                storage::with_members(p, p.members.drop_last()),
            );
            to_next_member(rest, name, id).1 is Create
        }),
{
    let p = storage::pool_named(pools, name)->0;
    storage::lemma_pool_index(pools, name);
    storage::lemma_with_pool(pools, storage::with_members(p, p.members.drop_last()), name);
}

/// Pools, machines and a filling in the course of time.
pub struct FillRun {
    pub pools: Seq<PoolRecordView>,
    pub machines: Map<u128, VmRecordView>,
    pub stage: FillStage,
    pub action: FillActionView,
}

/// A filling that was just begun.
pub open spec fn begun(
    pools: Seq<PoolRecordView>,
    machines: Map<u128, VmRecordView>,
    name: Seq<char>,
    id: u128,
) -> FillRun {
    let next = to_next_member(pools, name, id);
    FillRun { pools, machines, stage: next.0, action: next.1 }
}

/// A filling for which the machine `vm` was created and kept, and then paused
/// and kept as such.
pub open spec fn with_member(run: FillRun, name: Seq<char>, vm: VmRecordView, id: u128) -> FillRun {
    let created = next_step(run.pools, name, run.stage, FillEventView::Created { id: vm.id }, id);
    let paused = next_step(run.pools, name, created.0, FillEventView::Done, id);
    FillRun {
        pools: pools_after(run.pools, name, created.0, FillEventView::Done),
        machines: run.machines.insert(vm.id, vm).insert(
            vm.id,
            scheduler::with_status(vm, VmStatus::Paused),
        ),
        stage: paused.0,
        action: paused.1,
    }
}

/// A filling for which the machines `made` were created and paused one after
/// the other, with the names of members made from `ids`.
pub open spec fn filled(
    pools: Seq<PoolRecordView>,
    machines: Map<u128, VmRecordView>,
    name: Seq<char>,
    made: Seq<VmRecordView>,
    ids: Seq<u128>,
) -> FillRun
    decreases made.len(),
{
    if made.len() == 0 {
        begun(pools, machines, name, ids[0])
    } else {
        with_member(
            filled(pools, machines, name, made.drop_last(), ids),
            name,
            made.last(),
            ids[made.len() as int],
        )
    }
}

/// Each of the machines is one for the request that the filling asked for when it
/// was created.
pub open spec fn made_as_asked(
    pools: Seq<PoolRecordView>,
    machines: Map<u128, VmRecordView>,
    name: Seq<char>,
    made: Seq<VmRecordView>,
    ids: Seq<u128>,
) -> bool {
    forall|i: int|
        0 <= i < made.len() ==> (filled(
            pools,
            machines,
            name,
            #[trigger] made.take(i),
            ids,
        ).action matches FillActionView::Create { req } && create::is_machine_for(made[i], req))
}

/// The identifiers of machines, in their order.
pub open spec fn ids_of(made: Seq<VmRecordView>) -> Seq<u128> {
    Seq::new(made.len(), |i: int| made[i].id)
}

/// How many members a pool lacks.
pub open spec fn room(p: PoolRecordView) -> nat {
    if p.members.len() < p.size {
        (p.size - p.members.len()) as nat
    } else {
        0
    }
}

proof fn lemma_filled(
    pools: Seq<PoolRecordView>,
    machines: Map<u128, VmRecordView>,
    name: Seq<char>,
    made: Seq<VmRecordView>,
    ids: Seq<u128>,
    other: Seq<char>,
)
    requires
        storage::pool_named(pools, name) is Some,
        made.len() <= room(storage::pool_named(pools, name)->0),
    ensures
        ({
            let p = storage::pool_named(pools, name)->0;
            let run = filled(pools, machines, name, made, ids);
            &&& storage::pool_named(run.pools, name) == Some(
                storage::with_members(p, p.members + ids_of(made)),
            )
            &&& other != name ==> storage::pool_named(run.pools, other) == storage::pool_named(
                pools,
                other,
            )
            &&& (run.stage, run.action) == to_next_member(run.pools, name, ids[made.len() as int])
            &&& forall|id: u128|
                !ids_of(made).contains(id) ==> #[trigger] run.machines.contains_key(id)
                    == machines.contains_key(id) && run.machines[id] == machines[id]
        }),
    decreases made.len(),
{
    let p = storage::pool_named(pools, name)->0;
    storage::lemma_pool_index(pools, name);
    let run = filled(pools, machines, name, made, ids);
    if made.len() == 0 {
        assert(p.members + ids_of(made) =~= p.members);
        assert(storage::with_members(p, p.members) == p);
    } else {
        let rest = made.drop_last();
        let vm = made.last();
        let before = filled(pools, machines, name, rest, ids);
        lemma_filled(pools, machines, name, rest, ids, other);
        let q = storage::with_members(p, p.members + ids_of(rest));
        assert(before.stage is Creating);
        let grown = storage::with_members(q, q.members.push(vm.id));
        assert(run.pools == storage::with_pool(before.pools, grown));
        storage::lemma_with_pool(before.pools, grown, other);
        assert(grown.members =~= p.members + ids_of(made));
        assert forall|id: u128| !ids_of(made).contains(id) implies #[trigger] run.machines.contains_key(
            id,
        ) == machines.contains_key(id) && run.machines[id] == machines[id] by {
            assert(ids_of(made)[made.len() - 1] == vm.id);
            if ids_of(rest).contains(id) {
                let k = choose|k: int| 0 <= k < rest.len() && ids_of(rest)[k] == id;
                assert(ids_of(made)[k] == id);
            }
            assert(before.machines.contains_key(id) == machines.contains_key(id));
        }
    }
}

proof fn lemma_filled_machines(
    pools: Seq<PoolRecordView>,
    machines: Map<u128, VmRecordView>,
    name: Seq<char>,
    made: Seq<VmRecordView>,
    ids: Seq<u128>,
    i: int,
)
    requires
        ids_of(made).no_duplicates(),
        0 <= i < made.len(),
    ensures
        filled(pools, machines, name, made, ids).machines.contains_key(made[i].id),
        filled(pools, machines, name, made, ids).machines[made[i].id] == scheduler::with_status(
            made[i],
            VmStatus::Paused,
        ),
    decreases made.len(),
{
    let rest = made.drop_last();
    if i < rest.len() {
        assert(ids_of(made)[i] != ids_of(made)[made.len() - 1]);
        assert(ids_of(rest).no_duplicates()) by {
            assert forall|a: int, b: int| 0 <= a < rest.len() && 0 <= b < rest.len() && a != b
                implies ids_of(rest)[a] != ids_of(rest)[b] by {
                assert(ids_of(made)[a] != ids_of(made)[b]);
            }
        }
        lemma_filled_machines(pools, machines, name, rest, ids, i);
        assert(rest[i] == made[i]);
    }
}

/// A filling that nothing goes wrong with, and that nobody takes members from
/// meanwhile, ends after it has made as many members as the pool lacks, and not
/// before. The pool then has all its old members and the new ones, as many as its
/// size says or as it had before; at no time has it more. Each new one is a
/// machine that is kept and paused, never expires, and has a name that starts
/// with that of the pool. The other pools and machines stay as they were. What
/// holds of each new one and of the time before it is made is stated for the
/// `k`-th.
pub proof fn a_filling_fills_the_pool(
    pools: Seq<PoolRecordView>,
    machines: Map<u128, VmRecordView>,
    name: Seq<char>,
    made: Seq<VmRecordView>,
    ids: Seq<u128>,
    k: int,
    other: Seq<char>,
)
    requires
        storage::pool_named(pools, name) is Some,
        made.len() == room(storage::pool_named(pools, name)->0),
        ids_of(made).no_duplicates(),
        made_as_asked(pools, machines, name, made, ids),
        other != name,
    ensures
        ({
            let p = storage::pool_named(pools, name)->0;
            let part = filled(pools, machines, name, made.take(k), ids);
            let end = filled(pools, machines, name, made, ids);
            let full = storage::with_members(p, p.members + ids_of(made));
            &&& end.stage == FillStage::Over
            &&& end.action is Finish
            &&& storage::pool_named(end.pools, name) == Some(full)
            &&& full.members.len() == if p.members.len() < p.size {
                p.size as nat
            } else {
                p.members.len()
            }
            &&& 0 <= k < made.len() ==> {
                &&& part.action is Create
                &&& storage::pool_named(part.pools, name) matches Some(q) && q.members.len() < p.size
                &&& end.machines.contains_key(made[k].id)
                &&& is_waiting(end.machines[made[k].id], name)
            }
            &&& storage::pool_named(end.pools, other) == storage::pool_named(pools, other)
            &&& forall|id: u128|
                !ids_of(made).contains(id) ==> #[trigger] end.machines.contains_key(id)
                    == machines.contains_key(id) && end.machines[id] == machines[id]
        }),
{
    lemma_filled(pools, machines, name, made, ids, other);
    if 0 <= k < made.len() {
        lemma_filled(pools, machines, name, made.take(k), ids, other);
        lemma_filled_machines(pools, machines, name, made, ids, k);
        let vm = made[k];
        let tail = ids::hyphenated_form(ids[k]);
        assert(vm.name == name + "-pool-"@ + tail);
        assert(vm.name.take((name + "-pool-"@).len() as int) =~= name + "-pool-"@);
    }
}

/// Of two fillings that come one after the other, and of which nothing goes wrong
/// with the first, the second is over at once and changes nothing.
pub proof fn a_second_filling_changes_nothing(
    pools: Seq<PoolRecordView>,
    machines: Map<u128, VmRecordView>,
    name: Seq<char>,
    made: Seq<VmRecordView>,
    ids: Seq<u128>,
    id: u128,
)
    requires
        storage::pool_named(pools, name) is Some,
        made.len() == room(storage::pool_named(pools, name)->0),
        ids_of(made).no_duplicates(),
        made_as_asked(pools, machines, name, made, ids),
    ensures
        ({
            let first = filled(pools, machines, name, made, ids);
            let second = begun(first.pools, first.machines, name, id);
            &&& second.stage == FillStage::Over
            &&& second.action is Finish
            &&& second.pools == first.pools
            &&& second.machines == first.machines
        }),
{
    let other = name.push(' ');
    assert(other.len() != name.len());
    a_filling_fills_the_pool(pools, machines, name, made, ids, 0, other);
}

/// A machine that waits in a pool.
pub open spec fn is_waiting(vm: VmRecordView, pool: Seq<char>) -> bool {
    &&& vm.status == VmStatus::Paused
    &&& vm.expires_at is None
    &&& vm.request.ttl_seconds is None
    &&& scan::starts_with(vm.name, pool + "-pool-"@)
    &&& vm.request.name == vm.name
}

/// A member that was created is paused next; a member that was paused joins its
/// pool as the newest one; and the first failure ends the filling with what went
/// wrong.
pub proof fn a_member_is_created_paused_and_put_in(
    pools: Seq<PoolRecordView>,
    name: Seq<char>,
    member: u128,
    error: Seq<char>,
    id: u128,
)
    ensures
        next_step(
            pools,
            name,
            FillStage::Creating,
            FillEventView::Created { id: member },
            id,
        ) == (FillStage::Pausing { member }, FillActionView::Pause { id: member }),
        next_step(pools, name, FillStage::Creating, FillEventView::Failed { error }, id) == (
            FillStage::Over,
            FillActionView::GiveUp { error },
        ),
        next_step(
            pools,
            name,
            FillStage::Pausing { member },
            FillEventView::Failed { error },
            id,
        ) == (FillStage::Over, FillActionView::GiveUp { error }),
        storage::pool_named(pools, name) matches Some(p) ==> storage::pool_named(
            pools_after(pools, name, FillStage::Pausing { member }, FillEventView::Done),
            name,
        ) == Some(PoolRecordView { members: p.members.push(member), ..p }),
        storage::pool_named(pools, name) is None ==> pools_after(
            pools,
            name,
            FillStage::Pausing { member },
            FillEventView::Done,
        ) == pools,
{
    storage::lemma_pool_index(pools, name);
    if storage::pool_named(pools, name) is Some {
        let p = storage::pool_named(pools, name)->0;
        storage::lemma_with_pool(
            pools,
            storage::with_members(p, p.members.push(member)),
            name,
        );
    }
}

/// After a member has joined, another is made if there is still room, and else the
/// filling is over. A member whose pool is gone by then is deleted, and the filling
/// is over.
pub proof fn filling_goes_on_until_the_pool_is_full(
    pools: Seq<PoolRecordView>,
    name: Seq<char>,
    member: u128,
    id: u128,
)
    ensures
        ({
            let next = next_step(
                pools,
                name,
                FillStage::Pausing { member },
                FillEventView::Done,
                id,
            );
            match storage::pool_named(pools, name) {
                Some(p) => if p.members.len() + 1 < p.size {
                    next.0 == FillStage::Creating && next.1 == (FillActionView::Create {
                        req: CreateVmRequestView {
                            name: name + "-pool-"@ + ids::hyphenated_form(id),
                            ttl_seconds: None,
                            ..p.template
                        },
                    })
                } else {
                    next.0 == FillStage::Over && next.1 is Finish
                },
                None => next == (FillStage::Discarding, FillActionView::Discard { id: member }),
            }
        }),
        next_step(pools, name, FillStage::Discarding, FillEventView::Done, id).0
            == FillStage::Over,
        next_step(pools, name, FillStage::Discarding, FillEventView::Done, id).1 is Finish,
{
    storage::lemma_pool_index(pools, name);
    if storage::pool_named(pools, name) is Some {
        let p = storage::pool_named(pools, name)->0;
        let grown = storage::with_members(p, p.members.push(member));
        storage::lemma_with_pool(pools, grown, name);
    }
}

/// The member that is asked for is made from the template of the pool, under a
/// name of its own and without a lifetime.
pub proof fn members_are_made_from_the_template(
    pools: Seq<PoolRecordView>,
    name: Seq<char>,
    id: u128,
)
    ensures
        to_next_member(pools, name, id).1 matches FillActionView::Create { req } ==> {
            &&& storage::pool_named(pools, name) matches Some(p)
            &&& req == (CreateVmRequestView {
                name: name + "-pool-"@ + ids::hyphenated_form(id),
                ttl_seconds: None,
                ..p.template
            })
            &&& to_next_member(pools, name, id).0 == FillStage::Creating
        },
        !(to_next_member(pools, name, id).1 is Create) ==> to_next_member(pools, name, id).1 is Finish
            && to_next_member(pools, name, id).0 == FillStage::Over,
{
}

/// The views of what to do and of how it ended show them in full.
pub proof fn what_to_do_is_shown_in_full(a: FillAction, e: FillEvent)
    ensures
        match a {
            FillAction::Create { req } => a@ == (FillActionView::Create { req: req@ }),
            FillAction::Pause { id } => a@ == (FillActionView::Pause { id }),
            FillAction::Discard { id } => a@ == (FillActionView::Discard { id }),
            FillAction::Finish => a@ is Finish,
            FillAction::GiveUp { error } => a@ == (FillActionView::GiveUp { error: error@ }),
        },
        match e {
            FillEvent::Created { id } => e@ == (FillEventView::Created { id }),
            FillEvent::Done => e@ is Done,
            FillEvent::Failed { error } => e@ == (FillEventView::Failed { error: error@ }),
        },
{
}

} // verus!
