//! Creating, stopping, claiming and reaping machines.

use ephemera::backend::{ControlCall, LaunchResult, PreparedNetwork};
use ephemera::clock::{expiry_after, expiry_in_range, Timestamp, LAST_SECOND};
use ephemera::config::Config;
use ephemera::create::{instance, new_instance, CreateAction, CreateEvent, CreateStage, Creation,
    ExpiryOutOfRange};
use ephemera::model::{AgentSpec, BackendKind, ClaimOverrides, CloudInitSpec, CreateVmRequest,
    NetworkSpec, PoolSpec, StorageBackend, VmRecord, VmStatus};
use ephemera::protocol::AgentRequest;
use ephemera::scheduler::{apply_claim, reaper_period, to_probe, to_reap, ControlError, PoolError,
    VmManager, VmNotFound, FIRST_GUEST_CID};
use ephemera::stop::{StopAction, StopStage, Stopping};
use ephemera::warm::{after_resume, ClaimStep, FillAction, FillEvent, Filling};

const T: Timestamp = Timestamp { secs: 1_000, nanos: 500 };

fn request(backend: BackendKind) -> CreateVmRequest {
    CreateVmRequest {
        name: "job".into(),
        backend,
        image: "/images/base.qcow2".into(),
        vcpus: 2,
        memory_mib: 2048,
        disk_size_gib: Some(20),
        kernel: None,
        initrd: None,
        firmware: None,
        kernel_args: None,
        network: NetworkSpec::Unconnected,
        cloud_init: None,
        ttl_seconds: None,
        extra_args: vec![],
        agent: None,
        storage: StorageBackend::Default,
        shared_folders: vec![],
    }
}

fn record(backend: BackendKind) -> VmRecord {
    instance(request(backend), &Config::default(), 0xabc, 0xdef, T, T).unwrap()
}

#[test]
fn a_new_record() {
    let mut req = request(BackendKind::Qemu);
    req.ttl_seconds = Some(900);
    req.agent = Some(AgentSpec { enabled: true, port: 17777, token: None });
    let vm = instance(req, &Config::default(), 0xabc, 0xdef, T, Timestamp { secs: 1_001, nanos: 0 }).unwrap();
    assert_eq!(vm.workspace, "/var/lib/ephemera/instances/00000000-0000-0000-0000-000000000abc");
    assert_eq!(vm.disk, format!("{}/root.qcow2", vm.workspace));
    assert_eq!(vm.log_path, format!("{}/console.log", vm.workspace));
    assert_eq!(vm.status, VmStatus::Creating);
    assert_eq!(vm.expires_at, Some(Timestamp { secs: 1_900, nanos: 500 }));
    assert_eq!(vm.created_at, Timestamp { secs: 1_001, nanos: 0 });
    assert_eq!(
        vm.request.agent.unwrap().token.as_deref(),
        Some("00000000-0000-0000-0000-000000000def")
    );
    assert_eq!(record(BackendKind::Firecracker).disk.rsplit('/').next(), Some("root.raw"));
}

#[test]
fn a_token_of_the_caller_is_kept() {
    let mut req = request(BackendKind::Qemu);
    req.agent = Some(AgentSpec { enabled: true, port: 1, token: Some("mine".into()) });
    let vm = new_instance(req, &Config::default()).unwrap();
    assert_eq!(vm.request.agent.unwrap().token.as_deref(), Some("mine"));
    let mut req = request(BackendKind::Qemu);
    req.agent = Some(AgentSpec { enabled: false, port: 1, token: None });
    let vm = new_instance(req, &Config::default()).unwrap();
    assert_eq!(vm.request.agent.unwrap().token, None);
}

#[test]
fn instances_are_drawn_at_random() {
    let mut req = request(BackendKind::Qemu);
    req.agent = Some(AgentSpec { enabled: true, port: 1, token: None });
    let a = new_instance(req.clone(), &Config::default()).unwrap();
    let b = new_instance(req, &Config::default()).unwrap();
    assert_ne!(a.id, b.id);
    assert_eq!(a.id >> 76 & 0xf, 4);
    assert_eq!(a.id >> 62 & 0x3, 2);
    let token = a.request.agent.unwrap().token.unwrap();
    assert_ne!(Some(token.clone()), b.request.agent.unwrap().token);
    assert_eq!(token.len(), 36);
    assert!(a.created_at.secs > 1_600_000_000);
    assert!(a.created_at.is_at_or_before(&b.created_at));
}

#[test]
fn a_lifetime_past_the_end_of_time() {
    let mut req = request(BackendKind::Qemu);
    req.ttl_seconds = Some(LAST_SECOND as u64);
    assert_eq!(
        instance(req, &Config::default(), 1, 2, T, T).err(),
        Some(ExpiryOutOfRange)
    );
    assert!(expiry_in_range(T, (LAST_SECOND - 1_000) as u64));
    assert!(!expiry_in_range(T, (LAST_SECOND - 999) as u64));
    assert!(!expiry_in_range(T, i64::MAX as u64));
    assert_eq!(expiry_after(T, 60), Timestamp { secs: 1_060, nanos: 500 });
    assert_eq!(expiry_after(T, u64::MAX), Timestamp { secs: 999, nanos: 500 });
}

fn network(tap: Option<&str>) -> PreparedNetwork {
    PreparedNetwork {
        spec: NetworkSpec::Unconnected,
        tap_name: tap.map(Into::into),
        macvtap_fd: None,
        netns: None,
    }
}

fn launch_result() -> LaunchResult {
    LaunchResult {
        pid: 77,
        control_socket: Some("/w/sock".into()),
        jail_path: None,
        vsock_socket: None,
        virtiofsd_pids: vec![],
    }
}

#[test]
fn a_machine_comes_up_with_everything() {
    let mut vm = record(BackendKind::Firecracker);
    vm.guest_cid = Some(5);
    vm.request.agent = Some(AgentSpec { enabled: true, port: 1, token: Some("t".into()) });
    vm.request.cloud_init = Some(CloudInitSpec::default());
    let disk = vm.disk.clone();
    let workspace = vm.workspace.clone();
    let (c, action) = Creation::start(vm);
    match action {
        CreateAction::CloneDisk { image, backend, disk: d, size_gib } => {
            assert_eq!((image.as_str(), backend, d, size_gib), ("/images/base.qcow2", BackendKind::Firecracker, disk.clone(), Some(20)));
        }
        other => panic!("{other:?}"),
    }
    let (c, action) = c.on_event(CreateEvent::Done);
    assert!(matches!(action, CreateAction::InjectToken { ref token, .. } if token == "t"));
    let (c, action) = c.on_event(CreateEvent::Done);
    assert!(matches!(action, CreateAction::BuildSeed { ref dir, .. } if *dir == workspace));
    let (c, action) = c.on_event(CreateEvent::SeedBuilt { path: "/w/seed.img".into() });
    assert!(matches!(action, CreateAction::PrepareNetwork { id: 0xabc, .. }));
    let (c, action) = c.on_event(CreateEvent::NetworkReady { network: network(Some("eph1")) });
    match action {
        CreateAction::Launch { ctx } => {
            assert_eq!(ctx.seed_disk.as_deref(), Some("/w/seed.img"));
            assert_eq!(ctx.guest_cid, Some(5));
            assert_eq!(ctx.vsock_socket, Some(format!("{workspace}/vsock.sock")));
            assert_eq!(ctx.disk_format, "raw");
        }
        other => panic!("{other:?}"),
    }
    assert_eq!(c.stage(), CreateStage::Launching);
    let (c, action) = c.on_event(CreateEvent::Launched { result: launch_result() });
    assert_eq!(c.stage(), CreateStage::Finished);
    match action {
        CreateAction::Finish { record, error } => {
            assert_eq!(error, None);
            assert_eq!(record.status, VmStatus::Running);
            assert_eq!(record.pid, Some(77));
            assert_eq!(record.control_socket.as_deref(), Some("/w/sock"));
            assert_eq!(record.tap_name.as_deref(), Some("eph1"));
            assert_eq!(record.seed_disk.as_deref(), Some("/w/seed.img"));
        }
        other => panic!("{other:?}"),
    }
}

#[test]
fn a_plain_machine_skips_what_it_does_not_need() {
    let mut vm = record(BackendKind::Qemu);
    vm.guest_cid = Some(5);
    let (c, _) = Creation::start(vm);
    let (c, action) = c.on_event(CreateEvent::Done);
    assert!(matches!(action, CreateAction::PrepareNetwork { .. }));
    let (_, action) = c.on_event(CreateEvent::NetworkReady { network: network(None) });
    match action {
        CreateAction::Launch { ctx } => {
            assert_eq!(ctx.vsock_socket, None);
            assert_eq!(ctx.disk_format, "qcow2");
        }
        other => panic!("{other:?}"),
    }
}

#[test]
fn a_failure_after_the_network_cleans_up() {
    let (c, _) = Creation::start(record(BackendKind::Qemu));
    let (c, _) = c.on_event(CreateEvent::Done);
    let (c, _) = c.on_event(CreateEvent::NetworkReady { network: network(Some("eph1")) });
    let (c, action) = c.on_event(CreateEvent::Failed { error: "no kvm".into() });
    assert!(matches!(action, CreateAction::CleanUpNetwork { ref tap, .. } if tap == "eph1"));
    let (_, action) = c.on_event(CreateEvent::Failed { error: "ignored".into() });
    match action {
        CreateAction::Finish { record, error } => {
            assert_eq!(error.as_deref(), Some("no kvm"));
            assert_eq!(record.error.as_deref(), Some("no kvm"));
            assert_eq!(record.status, VmStatus::Failed);
            assert_eq!(record.pid, None);
        }
        other => panic!("{other:?}"),
    }
}

#[test]
fn an_early_failure_has_nothing_to_clean_up() {
    let (c, _) = Creation::start(record(BackendKind::Qemu));
    let (_, action) = c.on_event(CreateEvent::Failed { error: "disk full".into() });
    assert!(matches!(action, CreateAction::Finish { error: Some(ref e), .. } if e == "disk full"));
}

fn running(backend: BackendKind) -> VmRecord {
    let mut vm = record(backend);
    vm.status = VmStatus::Running;
    vm.pid = Some(9);
    vm
}

fn stopped_record(action: StopAction) -> VmRecord {
    match action {
        StopAction::Finish { record } => record,
        other => panic!("{other:?}"),
    }
}

#[test]
fn a_machine_that_shuts_down_when_asked() {
    let mut vm = running(BackendKind::Qemu);
    vm.tap_name = Some("eph1".into());
    let qmp = format!("{}/qmp.sock", vm.workspace);
    let (s, action) = Stopping::start(vm);
    assert!(matches!(action, StopAction::Probe { pid: 9 }));
    let (s, action) = s.on_answer(true);
    match action {
        StopAction::Ask { call: ControlCall::Qmp { socket, command } } => {
            assert_eq!((socket, command.as_str()), (qmp, "system_powerdown"));
        }
        other => panic!("{other:?}"),
    }
    let (s, action) = s.on_answer(true);
    assert!(matches!(action, StopAction::WaitForExit { pid: 9, polls: 100 }));
    let (s, action) = s.on_answer(true);
    assert!(matches!(action, StopAction::CleanUpNetwork { ref tap, .. } if tap == "eph1"));
    let (s, action) = s.on_answer(false);
    assert_eq!(s.stage(), StopStage::Finished);
    let vm = stopped_record(action);
    assert_eq!((vm.status, vm.pid), (VmStatus::Stopped, None));
}

#[test]
fn a_machine_that_has_to_be_made_to_end() {
    let (s, _) = Stopping::start(running(BackendKind::CloudHypervisor));
    let (s, action) = s.on_answer(true);
    assert!(matches!(action, StopAction::Probe { pid: 9 }));
    assert_eq!(s.stage(), StopStage::ProbingAgain);
    let (s, action) = s.on_answer(true);
    assert!(matches!(action, StopAction::Terminate { pid: 9 }));
    let (s, action) = s.on_answer(false);
    assert!(matches!(action, StopAction::GiveUp { pid: 9 }));
    assert_eq!(s.stage(), StopStage::Stuck);
}

#[test]
fn a_machine_that_ignores_the_request() {
    let (s, _) = Stopping::start(running(BackendKind::Qemu));
    let (s, _) = s.on_answer(true);
    let (s, _) = s.on_answer(true);
    let (s, action) = s.on_answer(false);
    assert!(matches!(action, StopAction::Probe { pid: 9 }));
    let (s, _) = s.on_answer(true);
    let (_, action) = s.on_answer(true);
    assert_eq!(stopped_record(action).status, VmStatus::Stopped);
}

#[test]
fn machines_without_a_process_just_stop() {
    let (_, action) = Stopping::start(record(BackendKind::Qemu));
    assert_eq!(stopped_record(action).status, VmStatus::Stopped);
    let (s, _) = Stopping::start(running(BackendKind::Qemu));
    let (_, action) = s.on_answer(false);
    assert_eq!(stopped_record(action).pid, None);
}

fn manager() -> VmManager {
    VmManager::new(Config::default(), vec![], vec![])
}

#[test]
fn registering_gives_addresses_to_agents_only() {
    let mut m = manager();
    let mut with_agent = record(BackendKind::Qemu);
    with_agent.request.agent = Some(AgentSpec { enabled: true, port: 1, token: None });
    let mut second = with_agent.clone();
    second.id = 2;
    let mut plain = record(BackendKind::Qemu);
    plain.id = 3;
    for vm in [with_agent, second, plain] {
        assert!(matches!(m.register(vm), Ok((_, CreateAction::CloneDisk { .. }))));
    }
    assert_eq!(FIRST_GUEST_CID, 3);
    assert_eq!(m.get(0xabc).unwrap().guest_cid, Some(3));
    assert_eq!(m.get(2).unwrap().guest_cid, Some(4));
    assert_eq!(m.get(3).unwrap().guest_cid, None);
    assert_eq!(m.get(99).err(), Some(VmNotFound));
    assert_eq!(m.list().len(), 3);
}

#[test]
fn pausing_and_resuming() {
    let mut m = manager();
    m.keep(running(BackendKind::Firecracker));
    let (vm, call) = m.pause(0xabc).unwrap();
    match call {
        ControlCall::Http { socket, method, path, body } => {
            assert_eq!(socket, format!("{}/firecracker.sock", vm.workspace));
            assert_eq!((method.as_str(), path.as_str(), body.as_str()), ("PATCH", "/vm", "{\"state\":\"Paused\"}"));
        }
        other => panic!("{other:?}"),
    }
    assert_eq!(m.changed(vm, VmStatus::Paused).status, VmStatus::Paused);
    assert_eq!(m.get(0xabc).unwrap().status, VmStatus::Paused);
    let (_, call) = m.resume(0xabc).unwrap();
    assert!(matches!(call, ControlCall::Http { ref body, .. } if body == "{\"state\":\"Resumed\"}"));
    let mut ch = running(BackendKind::CloudHypervisor);
    ch.id = 1;
    m.keep(ch);
    let mut auto = running(BackendKind::Auto);
    auto.id = 2;
    m.keep(auto);
    assert_eq!(m.pause(1).err(), Some(ControlError::Unsupported));
    assert_eq!(m.pause(2).err(), Some(ControlError::UnresolvedBackend));
    assert_eq!(m.resume(3).err(), Some(ControlError::VmNotFound));
}

#[test]
fn commands_wait_a_little_longer_than_they_may_run() {
    let mut m = manager();
    m.keep(running(BackendKind::Qemu));
    let (vm, request, wait) = m.exec(0xabc, "ls".into(), None).unwrap();
    assert_eq!((vm.id, wait), (0xabc, 35));
    assert!(matches!(request, AgentRequest::Exec { ref command, timeout_seconds: None } if command == "ls"));
    assert_eq!(m.exec(0xabc, "ls".into(), Some(60)).unwrap().2, 65);
    assert!(m.exec(1, "ls".into(), None).is_err());
}

#[test]
fn stopping_through_the_manager() {
    let mut m = manager();
    m.keep(running(BackendKind::Qemu));
    assert!(matches!(m.stop(0xabc), Ok((_, StopAction::Probe { pid: 9 }))));
    assert!(m.stop(1).is_err());
}

#[test]
fn deleting() {
    let mut m = manager();
    m.keep(running(BackendKind::Qemu));
    assert_eq!(m.delete(0xabc), Ok(true));
    let mut paused = running(BackendKind::Qemu);
    paused.id = 1;
    paused.status = VmStatus::Paused;
    m.keep(paused);
    assert_eq!(m.delete(1), Ok(false));
    assert_eq!(m.delete(2), Err(VmNotFound));
    let workspace = m.get(0xabc).unwrap().workspace;
    assert_eq!(m.deleted(0xabc), Ok(workspace));
    assert_eq!(m.deleted(0xabc), Err(VmNotFound));
    assert_eq!(m.list().len(), 1);
}

#[test]
fn dead_processes_are_found() {
    let mut m = manager();
    let mut vm = running(BackendKind::Qemu);
    vm.tap_name = Some("eph1".into());
    m.keep(vm);
    let mut paused = running(BackendKind::Qemu);
    paused.id = 1;
    paused.status = VmStatus::Paused;
    m.keep(paused);
    let candidates = m.reconcile();
    assert_eq!(candidates.len(), 1);
    let (_, tap) = m.found_dead(candidates[0].clone()).unwrap();
    assert_eq!(tap, "eph1");
    let vm = m.get(0xabc).unwrap();
    assert_eq!((vm.status, vm.pid), (VmStatus::Stopped, None));
    assert!(m.reconcile().is_empty());
    assert!(to_probe(vec![record(BackendKind::Qemu)]).is_empty());
}

#[test]
fn exactly_the_expired_are_reaped() {
    let at = |secs| Timestamp { secs, nanos: 0 };
    let mut list = vec![];
    for (id, expires_at) in [(1, None), (2, Some(at(10))), (3, Some(at(11))), (4, Some(at(9)))] {
        let mut vm = record(BackendKind::Qemu);
        vm.id = id;
        vm.expires_at = expires_at;
        list.push(vm);
    }
    let due: Vec<u128> = to_reap(list.clone(), at(10)).into_iter().map(|v| v.id).collect();
    assert_eq!(due, vec![2, 4]);
    let mut m = manager();
    for vm in list {
        m.keep(vm);
    }
    assert_eq!(m.expired_at(at(8)).len(), 0);
    assert_eq!(m.expired_now().len(), 3);
}

#[test]
fn the_reaper_runs_once_a_second_at_most() {
    let mut cfg = Config::default();
    assert_eq!(reaper_period(&cfg), 5);
    cfg.reaper_interval_secs = 0;
    assert_eq!(reaper_period(&cfg), 1);
}

fn pool_spec(size: usize) -> PoolSpec {
    let mut template = request(BackendKind::Qemu);
    template.ttl_seconds = Some(60);
    PoolSpec { name: "warm".into(), size, template }
}

#[test]
fn pools_are_created_and_deleted() {
    let mut m = manager();
    assert_eq!(m.create_pool(pool_spec(0)).err(), Some(PoolError::SizeIsZero));
    assert_eq!(m.create_pool(pool_spec(2)).unwrap().members, Vec::<u128>::new());
    assert_eq!(m.create_pool(pool_spec(2)).err(), Some(PoolError::AlreadyExists));
    assert_eq!(m.list_pools().len(), 1);
    assert_eq!(m.get_pool("cold").err(), Some(PoolError::NotFound));
    assert!(m.push_member("warm", 5));
    assert_eq!(m.get_pool("warm").unwrap().members, vec![5]);
    assert_eq!(m.delete_pool("warm"), Ok(vec![5]));
    assert_eq!(m.delete_pool("warm"), Err(PoolError::NotFound));
    assert!(!m.push_member("warm", 6));
}

#[test]
fn pools_are_filled_up_to_their_size() {
    let mut m = manager();
    m.create_pool(pool_spec(2)).unwrap();
    let member = m.next_member("warm", 0xdef).unwrap();
    assert_eq!(member.name, "warm-pool-00000000-0000-0000-0000-000000000def");
    assert_eq!(member.ttl_seconds, None);
    assert_eq!(member.memory_mib, 2048);
    let name = |m: &VmManager| match m.backfill_pool("warm").1 {
        FillAction::Create { req } => req.name,
        other => panic!("{other:?}"),
    };
    assert_ne!(name(&m), name(&m));
    assert!(name(&m).starts_with("warm-pool-"));
    m.push_member("warm", 1);
    assert!(matches!(m.backfill_pool("warm").1, FillAction::Create { .. }));
    m.push_member("warm", 2);
    assert!(matches!(m.backfill_pool("warm").1, FillAction::Finish));
    assert!(matches!(m.backfill_pool("cold").1, FillAction::Finish));
}

#[test]
fn members_join_once_they_are_paused() {
    let mut m = manager();
    m.create_pool(pool_spec(1)).unwrap();
    let (f, action) = Filling::start_with("warm", &m, 1);
    assert!(matches!(action, FillAction::Create { .. }));
    let (f, action) = f.on_event(&mut m, FillEvent::Created { id: 7 });
    assert!(matches!(action, FillAction::Pause { id: 7 }));
    assert!(m.get_pool("warm").unwrap().members.is_empty());
    let (_, action) = f.on_event(&mut m, FillEvent::Done);
    assert!(matches!(action, FillAction::Finish));
    assert_eq!(m.get_pool("warm").unwrap().members, vec![7]);
}

#[test]
fn members_of_a_pool_that_is_gone_are_deleted() {
    let mut m = manager();
    m.create_pool(pool_spec(1)).unwrap();
    let (f, _) = Filling::start("warm", &m);
    let (f, _) = f.on_event(&mut m, FillEvent::Created { id: 7 });
    m.delete_pool("warm").unwrap();
    let (f, action) = f.on_event_with(&mut m, FillEvent::Done, 1);
    assert!(matches!(action, FillAction::Discard { id: 7 }));
    let (_, action) = f.on_event(&mut m, FillEvent::Failed { error: "busy".into() });
    assert!(matches!(action, FillAction::Finish));
}

#[test]
fn filling_ends_with_the_first_failure() {
    let mut m = manager();
    m.create_pool(pool_spec(1)).unwrap();
    let (f, _) = Filling::start("warm", &m);
    let (_, action) = f.on_event(&mut m, FillEvent::Failed { error: "no disk".into() });
    assert!(matches!(action, FillAction::GiveUp { error } if error == "no disk"));
    let (f, _) = Filling::start("warm", &m);
    let (f, _) = f.on_event(&mut m, FillEvent::Created { id: 7 });
    let (_, action) = f.on_event(&mut m, FillEvent::Failed { error: "no socket".into() });
    assert!(matches!(action, FillAction::GiveUp { error } if error == "no socket"));
    assert!(m.get_pool("warm").unwrap().members.is_empty());
}

#[test]
fn claims_hand_out_each_member_once() {
    let mut m = manager();
    m.create_pool(pool_spec(2)).unwrap();
    m.push_member("warm", 1);
    m.push_member("warm", 2);
    let mut claim = |name: &str| m.claim_from_pool(name, ClaimOverrides::default()).map(|c| c.id);
    assert_ne!(claim("warm"), claim("warm"));
    assert_eq!(claim("warm"), Err(PoolError::NoReadyMembers));
    assert_eq!(claim("cold"), Err(PoolError::NoReadyMembers));
}

#[test]
fn a_member_that_cannot_be_resumed_is_discarded() {
    let mut m = manager();
    m.create_pool(pool_spec(1)).unwrap();
    m.push_member("warm", 9);
    let o = ClaimOverrides { name: Some("mine".into()), ttl_seconds: None };
    let claim = m.claim_from_pool("warm", o).unwrap();
    assert_eq!(claim.refill, "warm");
    match after_resume(claim, Err("no monitor".into())) {
        ClaimStep::Discard { id, error } => assert_eq!((id, error.as_str()), (9, "no monitor")),
        other => panic!("{other:?}"),
    }
    m.push_member("warm", 0xabc);
    let claim = m.claim_from_pool("warm", ClaimOverrides::default()).unwrap();
    match after_resume(claim, Ok(running(BackendKind::Qemu))) {
        ClaimStep::HandOut { vm, overrides } => assert_eq!((vm.id, overrides.name), (0xabc, None)),
        other => panic!("{other:?}"),
    }
}

#[test]
fn a_claim_renames_and_limits() {
    let vm = running(BackendKind::Qemu);
    let o = ClaimOverrides { name: Some("mine".into()), ttl_seconds: Some(30) };
    let handed = apply_claim(vm.clone(), o, T).unwrap();
    assert_eq!((handed.name.as_str(), handed.request.name.as_str()), ("mine", "mine"));
    assert_eq!(handed.request.ttl_seconds, Some(30));
    assert_eq!(handed.expires_at, Some(Timestamp { secs: 1_030, nanos: 500 }));
    let kept = apply_claim(handed, ClaimOverrides::default(), T).unwrap();
    assert_eq!((kept.name.as_str(), kept.expires_at, kept.request.ttl_seconds), ("mine", None, None));
    let o = ClaimOverrides { name: None, ttl_seconds: Some(LAST_SECOND as u64) };
    assert_eq!(apply_claim(vm, o, T).err(), Some(ExpiryOutOfRange));
}

#[test]
fn a_claimed_machine_is_kept_with_its_new_name() {
    let mut m = manager();
    let vm = running(BackendKind::Qemu);
    let o = ClaimOverrides { name: Some("mine".into()), ttl_seconds: None };
    let handed = m.hand_out(vm.clone(), o).unwrap();
    assert_eq!(handed.name, "mine");
    assert_eq!(m.get(0xabc).unwrap().name, "mine");
    let o = ClaimOverrides { name: None, ttl_seconds: Some(1) };
    let timed = m.hand_out_at(vm, o, T).unwrap();
    assert_eq!(timed.expires_at, Some(Timestamp { secs: 1_001, nanos: 500 }));
}

#[test]
fn a_pool_is_filled_from_start_to_end() {
    let mut m = manager();
    m.create_pool(pool_spec(3)).unwrap();
    m.push_member("warm", 40);
    let (mut filling, mut action) = m.backfill_pool("warm");
    let mut next: u128 = 50;
    loop {
        let event = match action {
            FillAction::Create { req } => {
                next += 1;
                assert!(req.name.starts_with("warm-pool-"));
                let vm = instance(req, &Config::default(), next, 1, T, T).unwrap();
                assert_eq!((vm.expires_at, vm.request.ttl_seconds), (None, None));
                m.keep(vm);
                FillEvent::Created { id: next }
            }
            FillAction::Pause { id } => {
                let vm = m.get(id).unwrap();
                m.changed(vm, VmStatus::Paused);
                FillEvent::Done
            }
            FillAction::Finish => break,
            other => panic!("{other:?}"),
        };
        (filling, action) = filling.on_event(&mut m, event);
    }
    assert_eq!(m.get_pool("warm").unwrap().members, vec![40, 51, 52]);
    assert_eq!(m.get(51).unwrap().status, VmStatus::Paused);
    assert_eq!(m.get(52).unwrap().status, VmStatus::Paused);
    let (_, again) = m.backfill_pool("warm");
    assert!(matches!(again, FillAction::Finish));
}

#[test]
fn refused_control_and_pools_in_words() {
    assert_eq!(ControlError::VmNotFound.message(), "VM not found");
    assert!(ControlError::UnresolvedBackend.message().starts_with("VM has an unresolved BackendKind::Auto"));
    assert_eq!(
        ControlError::Unsupported.message(),
        "the backend of this VM does not support the operation"
    );
    assert_eq!(PoolError::SizeIsZero.message("p"), "pool size must be at least 1");
    assert_eq!(PoolError::AlreadyExists.message("p"), "pool 'p' already exists");
    assert_eq!(PoolError::NotFound.message("p"), "pool not found");
    assert_eq!(
        PoolError::NoReadyMembers.message("p"),
        "pool 'p' has no ready members right now \u{2014} try again shortly, or increase its size"
    );
}
