//! What the REST interface decides and renders: who may do what, the metrics,
//! listings and the tail of a console log.

use crate::config::{constant_time_eq, ApiToken, AuthConfig, Role};
use crate::model::{BackendKind, VmRecord, VmRecordView, VmStatus};
use crate::scan::{self, strip_prefix};
use crate::text::{self, decimal, same_text};
use std::collections::VecDeque;
use vstd::prelude::*;

verus! {

// --------------------------------------------------------------- authentication

/// What a request may do by what it shows.
#[derive(Debug, Clone, Copy, PartialEq, Eq, Structural)]
pub enum Access {
    /// The request needs no role.
    Open,
    As(Role),
    /// No valid token was shown.
    Unauthorized,
}

/// The role of the first token that is the one shown.
pub open spec fn role_of(tokens: Seq<ApiToken>, shown: Seq<char>) -> Option<Role>
    decreases tokens.len(),
{
    if tokens.len() == 0 {
        None
    } else if tokens[0].token@ == shown {
        Some(tokens[0].role)
    } else {
        role_of(tokens.skip(1), shown)
    }
}

/// The token in an `Authorization` header.
pub open spec fn bearer(header: Option<Seq<char>>) -> Option<Seq<char>> {
    match header {
        Some(h) => if scan::starts_with(h, "Bearer "@) {
            Some(h.skip("Bearer "@.len() as int))
        } else {
            None
        },
        None => None,
    }
}

/// The health check is open to all, and without tokens everyone is an
/// administrator. Else the role is that of the token that is shown.
pub open spec fn access(
    path: Seq<char>,
    header: Option<Seq<char>>,
    tokens: Seq<ApiToken>,
) -> Access {
    if path == "/healthz"@ {
        Access::Open
    } else if tokens.len() == 0 {
        Access::As(Role::Admin)
    } else {
        match bearer(header) {
            Some(shown) => match role_of(tokens, shown) {
                Some(role) => Access::As(role),
                None => Access::Unauthorized,
            },
            None => Access::Unauthorized,
        }
    }
}

fn find_role(tokens: &Vec<ApiToken>, shown: &str) -> (r: Option<Role>)
    ensures
        r == role_of(tokens@, shown@),
{
    let mut i: usize = 0;
    proof {
        assert(tokens@.skip(0) =~= tokens@);
    }
    while i < tokens.len()
        invariant
            i <= tokens@.len(),
            role_of(tokens@, shown@) == role_of(tokens@.skip(i as int), shown@),
        decreases tokens@.len() - i,
    {
        if constant_time_eq(tokens[i].token.as_str(), shown) {
            return Some(tokens[i].role);
        }
        proof {
            assert(tokens@.skip(i as int).skip(1) =~= tokens@.skip(i + 1));
        }
        i += 1;
    }
    None
}

/// What a request for `path` with an `Authorization` header may do.
pub fn authenticate(path: &str, header: &Option<String>, auth: &AuthConfig) -> (r: Access)
    ensures
        r == access(path@, text::opt(*header), auth.tokens@),
{
    if same_text(path, "/healthz") {
        return Access::Open;
    }
    if auth.tokens.len() == 0 {
        return Access::As(Role::Admin);
    }
    match header {
        Some(h) => match strip_prefix(h.as_str(), "Bearer ") {
            Some(shown) => {
                proof {
                    let n = "Bearer "@.len() as int;
                    assert(h@.take(n) =~= "Bearer "@);
                    assert(h@.skip(n) =~= shown@);
                }
                match find_role(&auth.tokens, shown.as_str()) {
                    Some(role) => Access::As(role),
                    None => Access::Unauthorized,
                }
            },
            None => Access::Unauthorized,
        },
        None => Access::Unauthorized,
    }
}

/// The request asks for more than its role allows.
#[derive(Debug, Clone, Copy, PartialEq, Eq, Structural)]
pub struct Forbidden;

pub fn require_admin(role: Role) -> (r: Result<(), Forbidden>)
    ensures
        r is Ok <==> role == Role::Admin,
{
    match role {
        Role::Admin => Ok(()),
        Role::ReadOnly => Err(Forbidden),
    }
}

/// What the interface offers.
#[derive(Debug, Clone, Copy, PartialEq, Eq, Structural)]
pub enum Endpoint {
    Health,
    Metrics,
    CreateVm,
    ListVms,
    GetVm,
    DeleteVm,
    StartVm,
    StopVm,
    PauseVm,
    ResumeVm,
    SetVmResources,
    FreezeVm,
    ThawVm,
    VmFrozen,
    VmStats,
    VmPressure,
    VmLogs,
    AgentExec,
    BuildImage,
    ListCatalog,
    AddCatalogEntry,
    RemoveCatalogEntry,
    RenameCatalogEntry,
    CloneCatalogEntry,
    ExportCatalogEntry,
    CreatePool,
    ListPools,
    GetPool,
    DeletePool,
    ClaimPool,
}

/// An endpoint that only reads.
pub open spec fn only_reads(e: Endpoint) -> bool {
    match e {
        Endpoint::Health | Endpoint::Metrics | Endpoint::ListVms | Endpoint::GetVm
        | Endpoint::VmFrozen | Endpoint::VmStats | Endpoint::VmPressure | Endpoint::VmLogs
        | Endpoint::ListCatalog | Endpoint::ListPools | Endpoint::GetPool => true,
        _ => false,
    }
}

/// The HTTP status of an answer: why the request was turned away, or how its
/// success is reported.
pub open spec fn status_of(e: Endpoint, a: Access) -> u16 {
    if a == Access::Unauthorized {
        401
    } else if a == Access::As(Role::ReadOnly) && !only_reads(e) {
        403
    } else {
        match e {
            Endpoint::CreateVm | Endpoint::AddCatalogEntry | Endpoint::CloneCatalogEntry
            | Endpoint::CreatePool => 201,
            Endpoint::DeleteVm | Endpoint::SetVmResources | Endpoint::FreezeVm | Endpoint::ThawVm
            | Endpoint::RemoveCatalogEntry | Endpoint::ExportCatalogEntry | Endpoint::DeletePool => 204,
            _ => 200,
        }
    }
}

/// Decides over a request to an endpoint: the status to turn it away with, or
/// the status of its success.
pub fn guard(e: Endpoint, a: Access) -> (r: Result<u16, u16>)
    ensures
        match r {
            Ok(status) => status == status_of(e, a) && status < 300,
            Err(status) => status == status_of(e, a) && status >= 400,
        },
{
    let reads = match e {
        Endpoint::Health | Endpoint::Metrics | Endpoint::ListVms | Endpoint::GetVm
        | Endpoint::VmFrozen | Endpoint::VmStats | Endpoint::VmPressure | Endpoint::VmLogs
        | Endpoint::ListCatalog | Endpoint::ListPools | Endpoint::GetPool => true,
        _ => false,
    };
    match a {
        Access::Unauthorized => {
            return Err(401);
        },
        Access::As(role) => {
            if !reads && require_admin(role).is_err() {
                return Err(403);
            }
        },
        Access::Open => {},
    }
    Ok(
        match e {
            Endpoint::CreateVm | Endpoint::AddCatalogEntry | Endpoint::CloneCatalogEntry
            | Endpoint::CreatePool => 201,
            Endpoint::DeleteVm | Endpoint::SetVmResources | Endpoint::FreezeVm | Endpoint::ThawVm
            | Endpoint::RemoveCatalogEntry | Endpoint::ExportCatalogEntry | Endpoint::DeletePool => 204,
            _ => 200,
        },
    )
}

/// The HTTP status of an answer: why the request was turned away, or else
/// whether what it asked for was done.
pub open spec fn answered(e: Endpoint, a: Access, done: bool) -> u16 {
    if status_of(e, a) >= 400 || done {
        status_of(e, a)
    } else {
        400
    }
}

/// The status that a request to an endpoint is answered with, if what it asks
/// for is done or is not. A request that is turned away has nothing done for it.
pub fn answer(e: Endpoint, a: Access, done: bool) -> (r: u16)
    ensures
        r == answered(e, a, done),
{
    match guard(e, a) {
        Ok(status) => if done {
            status
        } else {
            400
        },
        Err(status) => status,
    }
}

/// What a request is told that is turned away.
pub open spec fn denial_text(a: Access) -> Seq<char> {
    if a == Access::Unauthorized {
        "missing or invalid bearer token"@
    } else {
        "admin role required"@
    }
}

pub fn denial(a: Access) -> (r: &'static str)
    ensures
        r@ == denial_text(a),
{
    match a {
        Access::Unauthorized => "missing or invalid bearer token",
        _ => "admin role required",
    }
}

// --------------------------------------------------------------------- metrics

pub open spec fn status_text(s: VmStatus) -> Seq<char> {
    match s {
        VmStatus::Creating => "creating"@,
        VmStatus::Running => "running"@,
        VmStatus::Paused => "paused"@,
        VmStatus::Stopped => "stopped"@,
        VmStatus::Failed => "failed"@,
    }
}

pub fn status_label(s: VmStatus) -> (r: &'static str)
    ensures
        r@ == status_text(s),
{
    match s {
        VmStatus::Creating => "creating",
        VmStatus::Running => "running",
        VmStatus::Paused => "paused",
        VmStatus::Stopped => "stopped",
        VmStatus::Failed => "failed",
    }
}

pub open spec fn backend_text(b: BackendKind) -> Seq<char> {
    match b {
        BackendKind::Qemu => "qemu"@,
        BackendKind::CloudHypervisor => "cloud-hypervisor"@,
        BackendKind::Firecracker => "firecracker"@,
        BackendKind::Auto => "auto"@,
    }
}

pub fn backend_label(b: BackendKind) -> (r: &'static str)
    ensures
        r@ == backend_text(b),
{
    match b {
        BackendKind::Qemu => "qemu",
        BackendKind::CloudHypervisor => "cloud-hypervisor",
        BackendKind::Firecracker => "firecracker",
        BackendKind::Auto => "auto",
    }
}

/// What machines can be counted by.
#[derive(Debug, Clone, Copy, PartialEq, Eq, Structural)]
pub enum Feature {
    Status(VmStatus),
    Backend(BackendKind),
    AgentEnabled,
}

pub open spec fn has_feature(vm: VmRecordView, t: Feature) -> bool {
    match t {
        Feature::Status(s) => vm.status == s,
        Feature::Backend(b) => vm.backend == b,
        Feature::AgentEnabled => vm.request.agent_enabled(),
    }
}

/// How many machines have a feature.
pub open spec fn count(vms: Seq<VmRecordView>, t: Feature) -> nat
    decreases vms.len(),
{
    if vms.len() == 0 {
        0
    } else {
        count(vms.drop_last(), t) + if has_feature(vms.last(), t) {
            1nat
        } else {
            0nat
        }
    }
}

fn count_of(vms: &Vec<VmRecord>, t: Feature) -> (r: u64)
    ensures
        r == count(text::views(vms@), t),
{
    let ghost all = text::views(vms@);
    let mut n: u64 = 0;
    let mut i: usize = 0;
    proof {
        assert(all.take(0) =~= Seq::<VmRecordView>::empty());
    }
    while i < vms.len()
        invariant
            i <= vms@.len(),
            n <= i,
            all == text::views(vms@),
            n == count(all.take(i as int), t),
        decreases vms@.len() - i,
    {
        let vm = &vms[i];
        let yes = match t {
            Feature::Status(s) => vm.status == s,
            Feature::Backend(b) => vm.backend == b,
            Feature::AgentEnabled => vm.request.agent_enabled(),
        };
        proof {
            assert(all.take(i + 1).drop_last() =~= all.take(i as int));
            assert(all.take(i + 1).last() == vm@);
        }
        if yes {
            n += 1;
        }
        i += 1;
    }
    proof {
        assert(all.take(i as int) =~= all);
    }
    n
}

/// One line of the metrics.
pub open spec fn sample(name: Seq<char>, n: nat) -> Seq<char> {
    name + " "@ + text::dec(n) + "\n"@
}

pub open spec fn status_sample(vms: Seq<VmRecordView>, s: VmStatus) -> Seq<char> {
    sample(
        "ephemera_vms_total{status=\""@ + status_text(s) + "\"}"@,
        count(vms, Feature::Status(s)),
    )
}

pub open spec fn backend_sample(vms: Seq<VmRecordView>, b: BackendKind) -> Seq<char> {
    sample(
        "ephemera_vms_by_backend{backend=\""@ + backend_text(b) + "\"}"@,
        count(vms, Feature::Backend(b)),
    )
}

/// The metrics of a fleet: how many machines there are of each status and each
/// backend, and how many have an agent. What there is none of is listed too.
pub open spec fn metrics(vms: Seq<VmRecordView>) -> Seq<char> {
    "# HELP ephemera_vms_total Number of VMs known to this ephemera instance, by status.\n# TYPE ephemera_vms_total gauge\n"@
        + status_sample(vms, VmStatus::Creating) + status_sample(vms, VmStatus::Running)
        + status_sample(vms, VmStatus::Paused) + status_sample(vms, VmStatus::Stopped)
        + status_sample(vms, VmStatus::Failed)
        + "# HELP ephemera_vms_by_backend Number of VMs known to this ephemera instance, by backend.\n# TYPE ephemera_vms_by_backend gauge\n"@
        + backend_sample(vms, BackendKind::Qemu) + backend_sample(
        vms,
        BackendKind::CloudHypervisor,
    ) + backend_sample(vms, BackendKind::Firecracker)
        + "# HELP ephemera_vms_agent_enabled Number of VMs with the vsock guest agent enabled.\n# TYPE ephemera_vms_agent_enabled gauge\n"@
        + sample("ephemera_vms_agent_enabled"@, count(vms, Feature::AgentEnabled))
}

fn put_sample(out: &mut String, name: &str, n: u64)
    ensures
        final(out)@ == old(out)@ + sample(name@, n as nat),
{
    let ghost before = out@;
    let digits = decimal(n);
    out.append(name);
    out.append(" ");
    out.append(digits.as_str());
    out.append("\n");
    proof {
        assert(out@ =~= before + sample(name@, n as nat));
    }
}

fn put_status(out: &mut String, vms: &Vec<VmRecord>, s: VmStatus)
    ensures
        final(out)@ == old(out)@ + status_sample(text::views(vms@), s),
{
    let name = text::cat3("ephemera_vms_total{status=\"", status_label(s), "\"}");
    put_sample(out, name.as_str(), count_of(vms, Feature::Status(s)));
}

fn put_backend(out: &mut String, vms: &Vec<VmRecord>, b: BackendKind)
    ensures
        final(out)@ == old(out)@ + backend_sample(text::views(vms@), b),
{
    let name = text::cat3("ephemera_vms_by_backend{backend=\"", backend_label(b), "\"}");
    put_sample(out, name.as_str(), count_of(vms, Feature::Backend(b)));
}

pub fn render_metrics(vms: &Vec<VmRecord>) -> (r: String)
    ensures
        r@ == metrics(text::views(vms@)),
{
    let mut out =
        "# HELP ephemera_vms_total Number of VMs known to this ephemera instance, by status.\n# TYPE ephemera_vms_total gauge\n".to_owned();
    put_status(&mut out, vms, VmStatus::Creating);
    put_status(&mut out, vms, VmStatus::Running);
    put_status(&mut out, vms, VmStatus::Paused);
    put_status(&mut out, vms, VmStatus::Stopped);
    put_status(&mut out, vms, VmStatus::Failed);
    out.append(
        "# HELP ephemera_vms_by_backend Number of VMs known to this ephemera instance, by backend.\n# TYPE ephemera_vms_by_backend gauge\n",
    );
    put_backend(&mut out, vms, BackendKind::Qemu);
    put_backend(&mut out, vms, BackendKind::CloudHypervisor);
    put_backend(&mut out, vms, BackendKind::Firecracker);
    out.append(
        "# HELP ephemera_vms_agent_enabled Number of VMs with the vsock guest agent enabled.\n# TYPE ephemera_vms_agent_enabled gauge\n",
    );
    put_sample(&mut out, "ephemera_vms_agent_enabled", count_of(vms, Feature::AgentEnabled));
    out
}

// -------------------------------------------------------------------- listings

/// A machine that a listing by name shows: every one if no name is asked for.
pub open spec fn shown_for(vm: VmRecordView, name: Option<Seq<char>>) -> bool {
    name is Some ==> vm.name == name->0
}

/// The machines of a listing that have the name that is asked for, in their
/// order.
pub fn filter_by_name(items: Vec<VmRecord>, name: &Option<String>) -> (r: Vec<VmRecord>)
    ensures
        text::views(r@) == text::views(items@).filter(
            |vm: VmRecordView| shown_for(vm, text::opt(*name)),
        ),
{
    let ghost all = text::views(items@);
    let ghost p = |vm: VmRecordView| shown_for(vm, text::opt(*name));
    let mut out: Vec<VmRecord> = Vec::new();
    proof {
        assert(all.take(0) =~= Seq::<VmRecordView>::empty());
        reveal_with_fuel(Seq::filter, 1);
        assert(text::views(out@) =~= all.take(0).filter(p));
    }
    for vm in it: items
        invariant
            text::views(it.seq()) == all,
            p == (|vm: VmRecordView| shown_for(vm, text::opt(*name))),
            text::views(out@) == all.take(it.index()).filter(p),
    {
        let ghost n = it.index();
        proof {
            assert(text::views(it.seq())[n] == vm@);
            text::lemma_filter_step(all, n, p);
        }
        let yes = match name {
            Some(wanted) => same_text(vm.name.as_str(), wanted.as_str()),
            None => true,
        };
        if yes {
            proof {
                text::lemma_views_push(out@, vm);
            }
            out.push(vm);
        }
    }
    proof {
        assert(all.take(all.len() as int) =~= all);
    }
    out
}

// ------------------------------------------------------------------------ logs

/// The lines of a log that are sent if the request does not say.
pub fn default_log_lines() -> (r: usize)
    ensures
        r == 100,
{
    100
}

/// The last `n` items, or all if there are fewer.
pub open spec fn last_of<T>(s: Seq<T>, n: nat) -> Seq<T> {
    if s.len() <= n {
        s
    } else {
        s.skip(s.len() - n)
    }
}

/// The last lines of a log, as many as were asked for but at least one.
pub struct LogTail {
    limit: usize,
    lines: VecDeque<String>,
}

impl LogTail {
    pub closed spec fn limit(&self) -> nat {
        self.limit as nat
    }

    pub closed spec fn lines(&self) -> Seq<Seq<char>> {
        text::views(self.lines@)
    }

    pub open spec fn wf(&self) -> bool {
        self.limit() >= 1 && self.lines().len() <= self.limit()
    }

    pub fn new(lines: usize) -> (r: Self)
        ensures
            r.wf(),
            r.limit() == if lines == 0 {
                1
            } else {
                lines as nat
            },
            r.lines() == Seq::<Seq<char>>::empty(),
    {
        let limit: usize = if lines == 0 {
            1
        } else {
            lines
        };
        let r = LogTail { limit, lines: VecDeque::new() };
        proof {
            assert(r.lines() =~= Seq::<Seq<char>>::empty());
        }
        r
    }

    /// Takes the next line of the log; the first one goes if there are too
    /// many.
    pub fn push(&mut self, line: String)
        requires
            old(self).wf(),
        ensures
            final(self).wf(),
            final(self).limit() == old(self).limit(),
            final(self).lines() == last_of(old(self).lines().push(line@), old(self).limit()),
    {
        let ghost before = self.lines();
        if self.lines.len() == self.limit {
            let _ = self.lines.pop_front();
        }
        self.lines.push_back(line);
        proof {
            assert(self.lines() =~= last_of(before.push(line@), self.limit()));
        }
    }

    /// The lines, the oldest first.
    pub fn finish(self) -> (r: Vec<String>)
        requires
            self.wf(),
        ensures
            text::views(r@) == self.lines(),
    {
        let mut rest = self.lines;
        let ghost all = text::views(rest@);
        let mut out: Vec<String> = Vec::new();
        let ghost mut n: int = 0;
        proof {
            assert(text::views(out@) =~= all.take(0));
            assert(text::views(rest@) =~= all.skip(0));
        }
        while rest.len() > 0
            invariant
                0 <= n <= all.len(),
                text::views(rest@) == all.skip(n),
                text::views(out@) == all.take(n),
            decreases rest@.len(),
        {
            let ghost before = rest@;
            if let Some(line) = rest.pop_front() {
                proof {
                    assert(text::views(before).len() == all.skip(n).len());
                    assert(text::views(before)[0] == line@);
                    assert(all.skip(n)[0] == all[n]);
                    text::lemma_views_push(out@, line);
                    assert(all.take(n + 1) =~= all.take(n).push(line@));
                    assert(text::views(rest@) =~= text::views(before).skip(1));
                    assert(all.skip(n).skip(1) =~= all.skip(n + 1));
                    n = n + 1;
                }
                out.push(line);
            }
        }
        proof {
            assert(text::views(rest@).len() == 0);
            assert(all.take(n) =~= all);
        }
        out
    }
}

// ------------------------------------------------------------------------ laws

/// Without tokens every request is that of an administrator, and nothing is
/// turned away.
pub proof fn without_tokens_everyone_is_admin(
    e: Endpoint,
    path: Seq<char>,
    header: Option<Seq<char>>,
)
    ensures
        path != "/healthz"@ ==> access(path, header, Seq::empty()) == Access::As(Role::Admin),
        status_of(e, access(path, header, Seq::empty())) < 300,
{
}

/// With tokens set, a request that shows none of them is turned away, except
/// from the health check.
pub proof fn unknown_tokens_are_turned_away(
    e: Endpoint,
    path: Seq<char>,
    header: Option<Seq<char>>,
    tokens: Seq<ApiToken>,
)
    requires
        path != "/healthz"@,
        tokens.len() > 0,
        bearer(header) is None || forall|i: int|
            0 <= i < tokens.len() ==> (#[trigger] tokens[i]).token@ != bearer(header)->0,
    ensures
        access(path, header, tokens) == Access::Unauthorized,
        status_of(e, access(path, header, tokens)) == 401,
{
    if bearer(header) is Some {
        lemma_no_role(tokens, bearer(header)->0);
    }
}

proof fn lemma_no_role(tokens: Seq<ApiToken>, shown: Seq<char>)
    requires
        forall|i: int| 0 <= i < tokens.len() ==> (#[trigger] tokens[i]).token@ != shown,
    ensures
        role_of(tokens, shown) is None,
    decreases tokens.len(),
{
    if tokens.len() > 0 {
        let rest = tokens.skip(1);
        assert forall|i: int| 0 <= i < rest.len() implies (#[trigger] rest[i]).token@ != shown by {
            assert(rest[i] == tokens[i + 1]);
        }
        lemma_no_role(rest, shown);
    }
}

/// The health check answers whatever is shown.
pub proof fn the_health_check_is_open(header: Option<Seq<char>>, tokens: Seq<ApiToken>)
    ensures
        access("/healthz"@, header, tokens) == Access::Open,
        status_of(Endpoint::Health, Access::Open) == 200,
{
}

/// A role that only reads can read everything and change nothing.
pub proof fn read_only_changes_nothing(e: Endpoint)
    ensures
        status_of(e, Access::As(Role::ReadOnly)) < 300 <==> only_reads(e),
        !only_reads(e) ==> status_of(e, Access::As(Role::ReadOnly)) == 403,
        status_of(e, Access::As(Role::Admin)) < 300,
{
}

/// Whoever may ask for something is told 400 if it fails, and nobody else is:
/// a failure says nothing to those who are turned away.
pub proof fn failures_are_bad_requests(e: Endpoint, a: Access)
    ensures
        answered(e, a, false) == 400 <==> status_of(e, a) < 300,
        status_of(e, a) >= 400 ==> answered(e, a, false) == answered(e, a, true),
        answered(e, a, true) == status_of(e, a),
{
}

/// Every machine is counted under exactly one status, and under exactly one
/// backend if `Auto` is counted too.
pub proof fn counts_add_up(vms: Seq<VmRecordView>)
    ensures
        count(vms, Feature::Status(VmStatus::Creating)) + count(
            vms,
            Feature::Status(VmStatus::Running),
        ) + count(vms, Feature::Status(VmStatus::Paused)) + count(
            vms,
            Feature::Status(VmStatus::Stopped),
        ) + count(vms, Feature::Status(VmStatus::Failed)) == vms.len(),
        count(vms, Feature::Backend(BackendKind::Qemu)) + count(
            vms,
            Feature::Backend(BackendKind::CloudHypervisor),
        ) + count(vms, Feature::Backend(BackendKind::Firecracker)) + count(
            vms,
            Feature::Backend(BackendKind::Auto),
        ) == vms.len(),
        count(vms, Feature::AgentEnabled) <= vms.len(),
    decreases vms.len(),
{
    if vms.len() > 0 {
        counts_add_up(vms.drop_last());
    }
}

proof fn lemma_count_remove(vms: Seq<VmRecordView>, i: int, t: Feature)
    requires
        0 <= i < vms.len(),
    ensures
        count(vms, t) == count(vms.remove(i), t) + if has_feature(vms[i], t) {
            1nat
        } else {
            0nat
        },
    decreases vms.len(),
{
    let rest = vms.remove(i);
    if i == vms.len() - 1 {
        assert(rest =~= vms.drop_last());
    } else {
        lemma_count_remove(vms.drop_last(), i, t);
        assert(vms.drop_last().remove(i) =~= rest.drop_last());
        assert(rest.last() == vms.last());
    }
}

proof fn lemma_count_in_any_order(a: Seq<VmRecordView>, b: Seq<VmRecordView>, t: Feature)
    requires
        a.to_multiset() == b.to_multiset(),
    ensures
        count(a, t) == count(b, t),
    decreases a.len(),
{
    a.to_multiset_ensures();
    b.to_multiset_ensures();
    if a.len() > 0 {
        let x = a.last();
        assert(a[a.len() - 1] == x);
        assert(a.contains(x) <==> a.to_multiset().count(x) > 0);
        assert(b.contains(x) <==> b.to_multiset().count(x) > 0);
        let j = choose|j: int| 0 <= j < b.len() && b[j] == x;
        assert(a.drop_last() =~= a.remove(a.len() - 1));
        assert(a.remove(a.len() - 1).to_multiset() == b.remove(j).to_multiset());
        lemma_count_in_any_order(a.drop_last(), b.remove(j), t);
        lemma_count_remove(b, j, t);
    }
}

/// The metrics of a fleet do not depend on the order of its machines.
pub proof fn metrics_ignore_the_order(a: Seq<VmRecordView>, b: Seq<VmRecordView>)
    requires
        a.to_multiset() == b.to_multiset(),
    ensures
        metrics(a) == metrics(b),
{
    lemma_count_in_any_order(a, b, Feature::Status(VmStatus::Creating));
    lemma_count_in_any_order(a, b, Feature::Status(VmStatus::Running));
    lemma_count_in_any_order(a, b, Feature::Status(VmStatus::Paused));
    lemma_count_in_any_order(a, b, Feature::Status(VmStatus::Stopped));
    lemma_count_in_any_order(a, b, Feature::Status(VmStatus::Failed));
    lemma_count_in_any_order(a, b, Feature::Backend(BackendKind::Qemu));
    lemma_count_in_any_order(a, b, Feature::Backend(BackendKind::CloudHypervisor));
    lemma_count_in_any_order(a, b, Feature::Backend(BackendKind::Firecracker));
    lemma_count_in_any_order(a, b, Feature::AgentEnabled);
}

/// The lines that are left of a log after all of it was taken in.
pub open spec fn kept(log: Seq<Seq<char>>, limit: nat) -> Seq<Seq<char>>
    decreases log.len(),
{
    if log.len() == 0 {
        Seq::empty()
    } else {
        last_of(kept(log.drop_last(), limit).push(log.last()), limit)
    }
}

/// The tail of a log is its last lines.
pub proof fn the_tail_is_the_end_of_the_log(log: Seq<Seq<char>>, limit: nat)
    requires
        limit >= 1,
    ensures
        kept(log, limit) == last_of(log, limit),
    decreases log.len(),
{
    if log.len() > 0 {
        the_tail_is_the_end_of_the_log(log.drop_last(), limit);
        assert(kept(log, limit) =~= last_of(log, limit));
    }
}

/// A request that shows a token has the role of that token, the first one if it
/// is there twice; and whoever shows something else in its place has none.
pub proof fn a_token_has_its_role(
    path: Seq<char>,
    tokens: Seq<ApiToken>,
    i: int,
    header: Seq<char>,
)
    requires
        path != "/healthz"@,
        0 <= i < tokens.len(),
        forall|j: int| 0 <= j < i ==> (#[trigger] tokens[j]).token@ != tokens[i].token@,
    ensures
        access(path, Some("Bearer "@ + tokens[i].token@), tokens) == Access::As(tokens[i].role),
        access(path, None, tokens) == Access::Unauthorized,
        !scan::starts_with(header, "Bearer "@) ==> access(path, Some(header), tokens)
            == Access::Unauthorized,
{
    let shown = tokens[i].token@;
    let full = "Bearer "@ + shown;
    assert(full.take("Bearer "@.len() as int) =~= "Bearer "@);
    assert(full.skip("Bearer "@.len() as int) =~= shown);
    lemma_first_role(tokens, i);
}

proof fn lemma_first_role(tokens: Seq<ApiToken>, i: int)
    requires
        0 <= i < tokens.len(),
        forall|j: int| 0 <= j < i ==> (#[trigger] tokens[j]).token@ != tokens[i].token@,
    ensures
        role_of(tokens, tokens[i].token@) == Some(tokens[i].role),
    decreases i,
{
    if i > 0 {
        let rest = tokens.skip(1);
        assert(tokens[0].token@ != tokens[i].token@);
        assert(rest[i - 1] == tokens[i]);
        assert forall|j: int| 0 <= j < i - 1 implies (#[trigger] rest[j]).token@ != rest[i
            - 1].token@ by {
            assert(rest[j] == tokens[j + 1]);
        }
        lemma_first_role(rest, i - 1);
    }
}

/// Everything that changes a machine, an image, a catalogue or a pool, or runs
/// something in a guest, is for administrators; the rest is for every role.
pub proof fn what_changes_something_is_for_administrators(e: Endpoint)
    ensures
        ({
            let changes = match e {
                Endpoint::CreateVm => true,
                Endpoint::DeleteVm => true,
                Endpoint::StartVm => true,
                Endpoint::StopVm => true,
                Endpoint::PauseVm => true,
                Endpoint::ResumeVm => true,
                Endpoint::SetVmResources => true,
                Endpoint::FreezeVm => true,
                Endpoint::ThawVm => true,
                Endpoint::AgentExec => true,
                Endpoint::BuildImage => true,
                Endpoint::AddCatalogEntry => true,
                Endpoint::RemoveCatalogEntry => true,
                Endpoint::RenameCatalogEntry => true,
                Endpoint::CloneCatalogEntry => true,
                Endpoint::ExportCatalogEntry => true,
                Endpoint::CreatePool => true,
                Endpoint::DeletePool => true,
                Endpoint::ClaimPool => true,
                Endpoint::Health => false,
                Endpoint::Metrics => false,
                Endpoint::ListVms => false,
                Endpoint::GetVm => false,
                Endpoint::VmFrozen => false,
                Endpoint::VmStats => false,
                Endpoint::VmPressure => false,
                Endpoint::VmLogs => false,
                Endpoint::ListCatalog => false,
                Endpoint::ListPools => false,
                Endpoint::GetPool => false,
            };
            &&& changes <==> status_of(e, Access::As(Role::ReadOnly)) == 403
            &&& !changes <==> status_of(e, Access::As(Role::ReadOnly)) < 300
            &&& status_of(e, Access::Unauthorized) == 401
            &&& status_of(e, Access::As(Role::Admin)) < 300
        }),
{
}

/// What was made is reported as created, what was taken away or only set as done
/// without content, and everything else as done.
pub proof fn success_is_told_by_its_kind(e: Endpoint)
    ensures
        ({
            let made = e == Endpoint::CreateVm || e == Endpoint::AddCatalogEntry || e
                == Endpoint::CloneCatalogEntry || e == Endpoint::CreatePool;
            let silent = e == Endpoint::DeleteVm || e == Endpoint::SetVmResources || e
                == Endpoint::FreezeVm || e == Endpoint::ThawVm || e == Endpoint::RemoveCatalogEntry
                || e == Endpoint::ExportCatalogEntry || e == Endpoint::DeletePool;
            let status = answered(e, Access::As(Role::Admin), true);
            &&& made <==> status == 201
            &&& silent <==> status == 204
            &&& !made && !silent <==> status == 200
            &&& answered(e, Access::As(Role::Admin), false) == 400
        }),
{
}

/// Who is turned away is told why: for want of a valid token, or of the role.
pub proof fn a_denial_says_why()
    ensures
        denial_text(Access::Unauthorized) == "missing or invalid bearer token"@,
        denial_text(Access::As(Role::ReadOnly)) == "admin role required"@,
{
}

/// The number of machines with a feature is how many of them have it.
pub proof fn a_count_is_how_many_there_are(
    vms: Seq<VmRecordView>,
    status: VmStatus,
    backend: BackendKind,
)
    ensures
        count(vms, Feature::Status(status)) == vms.filter(
            |vm: VmRecordView| vm.status == status,
        ).len(),
        count(vms, Feature::Backend(backend)) == vms.filter(
            |vm: VmRecordView| vm.backend == backend,
        ).len(),
        count(vms, Feature::AgentEnabled) == vms.filter(
            |vm: VmRecordView| vm.request.agent is Some && vm.request.agent->0.enabled,
        ).len(),
    decreases vms.len(),
{
    reveal_with_fuel(Seq::filter, 1);
    if vms.len() > 0 {
        a_count_is_how_many_there_are(vms.drop_last(), status, backend);
    }
}

proof fn lemma_every_sample_is_told(vms: Seq<VmRecordView>)
    ensures
        text::holds(metrics(vms), status_sample(vms, VmStatus::Creating)),
        text::holds(metrics(vms), status_sample(vms, VmStatus::Running)),
        text::holds(metrics(vms), status_sample(vms, VmStatus::Paused)),
        text::holds(metrics(vms), status_sample(vms, VmStatus::Stopped)),
        text::holds(metrics(vms), status_sample(vms, VmStatus::Failed)),
        text::holds(metrics(vms), backend_sample(vms, BackendKind::Qemu)),
        text::holds(metrics(vms), backend_sample(vms, BackendKind::CloudHypervisor)),
        text::holds(metrics(vms), backend_sample(vms, BackendKind::Firecracker)),
        text::holds(
            metrics(vms),
            sample("ephemera_vms_agent_enabled"@, count(vms, Feature::AgentEnabled)),
        ),
{
    let m0 =
        "# HELP ephemera_vms_total Number of VMs known to this ephemera instance, by status.\n# TYPE ephemera_vms_total gauge\n"@;
    let s1 = status_sample(vms, VmStatus::Creating);
    text::what_is_put_behind_hides_nothing(m0, s1);
    let m1 = m0 + s1;
    let s2 = status_sample(vms, VmStatus::Running);
    text::what_is_put_behind_hides_nothing(m1, s2);
    let m2 = m1 + s2;
    let s3 = status_sample(vms, VmStatus::Paused);
    text::what_is_put_behind_hides_nothing(m2, s3);
    let m3 = m2 + s3;
    let s4 = status_sample(vms, VmStatus::Stopped);
    text::what_is_put_behind_hides_nothing(m3, s4);
    let m4 = m3 + s4;
    let s5 = status_sample(vms, VmStatus::Failed);
    text::what_is_put_behind_hides_nothing(m4, s5);
    let m5 = m4 + s5;
    let b =
        "# HELP ephemera_vms_by_backend Number of VMs known to this ephemera instance, by backend.\n# TYPE ephemera_vms_by_backend gauge\n"@;
    text::what_is_put_behind_hides_nothing(m5, b);
    let m6 = m5 + b;
    let b1 = backend_sample(vms, BackendKind::Qemu);
    text::what_is_put_behind_hides_nothing(m6, b1);
    let m7 = m6 + b1;
    let b2 = backend_sample(vms, BackendKind::CloudHypervisor);
    text::what_is_put_behind_hides_nothing(m7, b2);
    let m8 = m7 + b2;
    let b3 = backend_sample(vms, BackendKind::Firecracker);
    text::what_is_put_behind_hides_nothing(m8, b3);
    let m9 = m8 + b3;
    let c =
        "# HELP ephemera_vms_agent_enabled Number of VMs with the vsock guest agent enabled.\n# TYPE ephemera_vms_agent_enabled gauge\n"@;
    text::what_is_put_behind_hides_nothing(m9, c);
    let m10 = m9 + c;
    let a = sample("ephemera_vms_agent_enabled"@, count(vms, Feature::AgentEnabled));
    text::what_is_put_behind_hides_nothing(m10, a);
}

/// The metrics tell, on a line of its own, how many machines there are of each
/// status.
pub proof fn the_metrics_tell_every_status(vms: Seq<VmRecordView>)
    ensures
        text::holds(
            metrics(vms),
            "ephemera_vms_total{status=\""@ + "creating"@ + "\"}"@ + " "@ + text::dec(
                count(vms, Feature::Status(VmStatus::Creating)),
            ) + "\n"@,
        ),
        text::holds(
            metrics(vms),
            "ephemera_vms_total{status=\""@ + "running"@ + "\"}"@ + " "@ + text::dec(
                count(vms, Feature::Status(VmStatus::Running)),
            ) + "\n"@,
        ),
        text::holds(
            metrics(vms),
            "ephemera_vms_total{status=\""@ + "paused"@ + "\"}"@ + " "@ + text::dec(
                count(vms, Feature::Status(VmStatus::Paused)),
            ) + "\n"@,
        ),
        text::holds(
            metrics(vms),
            "ephemera_vms_total{status=\""@ + "stopped"@ + "\"}"@ + " "@ + text::dec(
                count(vms, Feature::Status(VmStatus::Stopped)),
            ) + "\n"@,
        ),
        text::holds(
            metrics(vms),
            "ephemera_vms_total{status=\""@ + "failed"@ + "\"}"@ + " "@ + text::dec(
                count(vms, Feature::Status(VmStatus::Failed)),
            ) + "\n"@,
        ),
{
    lemma_every_sample_is_told(vms);
}

/// The metrics tell, on a line of its own, how many machines there are under each
/// backend, and how many have an agent.
pub proof fn the_metrics_tell_every_backend(vms: Seq<VmRecordView>)
    ensures
        text::holds(
            metrics(vms),
            "ephemera_vms_by_backend{backend=\""@ + "qemu"@ + "\"}"@ + " "@ + text::dec(
                count(vms, Feature::Backend(BackendKind::Qemu)),
            ) + "\n"@,
        ),
        text::holds(
            metrics(vms),
            "ephemera_vms_by_backend{backend=\""@ + "cloud-hypervisor"@ + "\"}"@ + " "@ + text::dec(
                count(vms, Feature::Backend(BackendKind::CloudHypervisor)),
            ) + "\n"@,
        ),
        text::holds(
            metrics(vms),
            "ephemera_vms_by_backend{backend=\""@ + "firecracker"@ + "\"}"@ + " "@ + text::dec(
                count(vms, Feature::Backend(BackendKind::Firecracker)),
            ) + "\n"@,
        ),
        text::holds(
            metrics(vms),
            "ephemera_vms_agent_enabled"@ + " "@ + text::dec(count(vms, Feature::AgentEnabled))
                + "\n"@,
        ),
{
    lemma_every_sample_is_told(vms);
}

/// A listing by name shows exactly the machines of that name, and one without a
/// name shows all.
pub proof fn a_listing_shows_who_is_called_so(
    items: Seq<VmRecordView>,
    name: Option<Seq<char>>,
    vm: VmRecordView,
)
    ensures
        items.filter(|x: VmRecordView| shown_for(x, name)).contains(vm) <==> items.contains(vm) && (
        name is None || vm.name == name->0),
        name is None ==> items.filter(|x: VmRecordView| shown_for(x, name)) == items,
    decreases items.len(),
{
    let p = |x: VmRecordView| shown_for(x, name);
    let shown = items.filter(p);
    if shown.contains(vm) {
        let i = choose|i: int| 0 <= i < shown.len() && shown[i] == vm;
        items.lemma_filter_pred(p, i);
        items.lemma_filter_contains_rev(p, vm);
    }
    if items.contains(vm) && shown_for(vm, name) {
        let i = choose|i: int| 0 <= i < items.len() && items[i] == vm;
        items.lemma_filter_contains(p, i);
    }
    if name is None {
        reveal_with_fuel(Seq::filter, 1);
        if items.len() > 0 {
            a_listing_shows_who_is_called_so(items.drop_last(), name, vm);
            assert(items =~= items.drop_last().push(items.last()));
        } else {
            assert(shown =~= items);
        }
    }
}

/// The tail of a log has as many lines as are asked for, or all if there are fewer,
/// and they are those at the end, in their order.
pub proof fn a_tail_is_the_last_lines(log: Seq<Seq<char>>, n: nat)
    ensures
        last_of(log, n).len() == if log.len() < n {
            log.len()
        } else {
            n
        },
        forall|i: int|
            0 <= i < last_of(log, n).len() ==> #[trigger] last_of(log, n)[i] == log[log.len()
                - last_of(log, n).len() + i],
{
}

/// The metrics tell nothing else: they are three headings, a line for each status
/// and each backend, and one for agents.
pub proof fn the_metrics_tell_nothing_else(vms: Seq<VmRecordView>)
    ensures
        metrics(vms).len()
            == "# HELP ephemera_vms_total Number of VMs known to this ephemera instance, by status.\n# TYPE ephemera_vms_total gauge\n"@.len()
            + status_sample(vms, VmStatus::Creating).len() + status_sample(
            vms,
            VmStatus::Running,
        ).len() + status_sample(vms, VmStatus::Paused).len() + status_sample(
            vms,
            VmStatus::Stopped,
        ).len() + status_sample(vms, VmStatus::Failed).len()
            + "# HELP ephemera_vms_by_backend Number of VMs known to this ephemera instance, by backend.\n# TYPE ephemera_vms_by_backend gauge\n"@.len()
            + backend_sample(vms, BackendKind::Qemu).len() + backend_sample(
            vms,
            BackendKind::CloudHypervisor,
        ).len() + backend_sample(vms, BackendKind::Firecracker).len()
            + "# HELP ephemera_vms_agent_enabled Number of VMs with the vsock guest agent enabled.\n# TYPE ephemera_vms_agent_enabled gauge\n"@.len()
            + sample("ephemera_vms_agent_enabled"@, count(vms, Feature::AgentEnabled)).len(),
{
}

/// Statuses and backends are called by their names.
pub proof fn labels_are_names()
    ensures
        status_text(VmStatus::Creating) == "creating"@,
        status_text(VmStatus::Running) == "running"@,
        status_text(VmStatus::Paused) == "paused"@,
        status_text(VmStatus::Stopped) == "stopped"@,
        status_text(VmStatus::Failed) == "failed"@,
        backend_text(BackendKind::Qemu) == "qemu"@,
        backend_text(BackendKind::CloudHypervisor) == "cloud-hypervisor"@,
        backend_text(BackendKind::Firecracker) == "firecracker"@,
        backend_text(BackendKind::Auto) == "auto"@,
{
}

} // verus!
