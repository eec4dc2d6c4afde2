//! Metrics, roles, listings and log tails.

use ephemera::api::{answer, authenticate, backend_label, default_log_lines, denial, filter_by_name,
    guard, render_metrics, require_admin, status_label, Access, Endpoint, Forbidden, LogTail};
use ephemera::clock::Timestamp;
use ephemera::config::{ApiToken, AuthConfig, Config, Role};
use ephemera::model::{AgentSpec, BackendKind, CreateVmRequest, NetworkSpec, StorageBackend,
    VmRecord, VmStatus};
use ephemera::scheduler::VmManager;

fn fixture(backend: BackendKind, status: VmStatus, agent_enabled: bool) -> VmRecord {
    VmRecord {
        id: 1,
        name: "fixture".into(),
        backend,
        status,
        pid: None,
        created_at: Timestamp { secs: 0, nanos: 0 },
        expires_at: None,
        workspace: "/tmp/x".into(),
        disk: "/tmp/x/root.qcow2".into(),
        seed_disk: None,
        tap_name: None,
        control_socket: None,
        log_path: "/tmp/x/console.log".into(),
        error: None,
        request: CreateVmRequest {
            name: "fixture".into(),
            backend,
            image: "/tmp/base.qcow2".into(),
            vcpus: 1,
            memory_mib: 512,
            disk_size_gib: None,
            kernel: None,
            initrd: None,
            firmware: None,
            kernel_args: None,
            network: NetworkSpec::Unconnected,
            cloud_init: None,
            ttl_seconds: None,
            extra_args: vec![],
            agent: if agent_enabled {
                Some(AgentSpec { enabled: true, port: 17777, token: None })
            } else {
                None
            },
            storage: StorageBackend::Default,
            shared_folders: vec![],
        },
        guest_cid: None,
        jail_path: None,
        vsock_socket: None,
        cgroup_path: None,
        netns: None,
        lvm_lv: None,
        nbd_pid: None,
    }
}

#[test]
fn counts_by_status_and_backend() {
    let vms = vec![
        fixture(BackendKind::Qemu, VmStatus::Running, true),
        fixture(BackendKind::Qemu, VmStatus::Paused, false),
        fixture(BackendKind::CloudHypervisor, VmStatus::Running, false),
        fixture(BackendKind::Firecracker, VmStatus::Failed, false),
    ];
    let out = render_metrics(&vms);

    assert!(out.contains("ephemera_vms_total{status=\"running\"} 2"));
    assert!(out.contains("ephemera_vms_total{status=\"paused\"} 1"));
    assert!(out.contains("ephemera_vms_total{status=\"stopped\"} 0"));
    assert!(out.contains("ephemera_vms_total{status=\"failed\"} 1"));

    assert!(out.contains("ephemera_vms_by_backend{backend=\"qemu\"} 2"));
    assert!(out.contains("ephemera_vms_by_backend{backend=\"cloud-hypervisor\"} 1"));
    assert!(out.contains("ephemera_vms_by_backend{backend=\"firecracker\"} 1"));

    assert!(out.contains("ephemera_vms_agent_enabled 1"));
}

#[test]
fn empty_fleet_still_renders_zeroed_gauges() {
    let out = render_metrics(&vec![]);
    assert!(out.contains("ephemera_vms_total{status=\"running\"} 0"));
    assert!(out.contains("ephemera_vms_agent_enabled 0"));
}

#[test]
fn the_whole_of_the_metrics() {
    let out = render_metrics(&vec![fixture(BackendKind::Firecracker, VmStatus::Creating, true)]);
    let expected = "# HELP ephemera_vms_total Number of VMs known to this ephemera instance, by status.\n\
        # TYPE ephemera_vms_total gauge\n\
        ephemera_vms_total{status=\"creating\"} 1\n\
        ephemera_vms_total{status=\"running\"} 0\n\
        ephemera_vms_total{status=\"paused\"} 0\n\
        ephemera_vms_total{status=\"stopped\"} 0\n\
        ephemera_vms_total{status=\"failed\"} 0\n\
        # HELP ephemera_vms_by_backend Number of VMs known to this ephemera instance, by backend.\n\
        # TYPE ephemera_vms_by_backend gauge\n\
        ephemera_vms_by_backend{backend=\"qemu\"} 0\n\
        ephemera_vms_by_backend{backend=\"cloud-hypervisor\"} 0\n\
        ephemera_vms_by_backend{backend=\"firecracker\"} 1\n\
        # HELP ephemera_vms_agent_enabled Number of VMs with the vsock guest agent enabled.\n\
        # TYPE ephemera_vms_agent_enabled gauge\n\
        ephemera_vms_agent_enabled 1\n";
    assert_eq!(out, expected);
}

#[test]
fn metrics_do_not_depend_on_the_order() {
    let a = fixture(BackendKind::Qemu, VmStatus::Running, true);
    let b = fixture(BackendKind::Firecracker, VmStatus::Paused, false);
    let c = fixture(BackendKind::Qemu, VmStatus::Failed, false);
    let one = render_metrics(&vec![a.clone(), b.clone(), c.clone()]);
    assert_eq!(one, render_metrics(&vec![c, a, b]));
}

#[test]
fn labels() {
    assert_eq!(status_label(VmStatus::Creating), "creating");
    assert_eq!(backend_label(BackendKind::CloudHypervisor), "cloud-hypervisor");
    assert_eq!(backend_label(BackendKind::Auto), "auto");
    assert_eq!(default_log_lines(), 100);
}

fn tokens(list: Vec<(&str, Role)>) -> AuthConfig {
    AuthConfig {
        tokens: list
            .into_iter()
            .map(|(token, role)| ApiToken { token: token.into(), role, name: None })
            .collect(),
    }
}

fn create_body() -> CreateVmRequest {
    let mut r = fixture(BackendKind::Qemu, VmStatus::Creating, false).request;
    r.name = "t".into();
    r.image = "/does/not/exist.qcow2".into();
    r
}

fn status_for(auth: AuthConfig, method: &str, uri: &str, bearer: Option<&str>) -> u16 {
    let endpoint = match (method, uri) {
        ("GET", "/healthz") => Endpoint::Health,
        ("GET", "/v1/vms") => Endpoint::ListVms,
        ("POST", "/v1/vms") => Endpoint::CreateVm,
        other => panic!("no such endpoint: {other:?}"),
    };
    let cfg = Config { auth, ..Config::default() };
    let header = bearer.map(|t| format!("Bearer {t}"));
    let access = authenticate(uri, &header, &cfg.auth);
    let done = guard(endpoint, access).is_ok() && match endpoint {
        Endpoint::CreateVm => {
            let body = create_body();
            let image_exists = std::path::Path::new(&body.image).exists();
            VmManager::new(cfg, vec![], vec![]).create(body, image_exists).is_ok()
        }
        _ => true,
    };
    answer(endpoint, access, done)
}

#[test]
fn auth_disabled_allows_unauthenticated_requests() {
    assert_eq!(status_for(AuthConfig::default(), "GET", "/v1/vms", None), 200);
}

#[test]
fn missing_token_is_rejected_when_auth_is_enabled() {
    let auth = tokens(vec![("secret", Role::Admin)]);
    assert_eq!(status_for(auth, "GET", "/v1/vms", None), 401);
}

#[test]
fn wrong_token_is_rejected() {
    let auth = tokens(vec![("secret", Role::Admin)]);
    assert_eq!(status_for(auth, "GET", "/v1/vms", Some("nope")), 401);
}

#[test]
fn healthz_is_reachable_without_a_token_even_when_auth_is_enabled() {
    let auth = tokens(vec![("secret", Role::Admin)]);
    assert_eq!(status_for(auth, "GET", "/healthz", None), 200);
}

#[test]
fn readonly_token_can_list_but_not_create() {
    let auth = || tokens(vec![("ro", Role::ReadOnly)]);
    assert_eq!(status_for(auth(), "GET", "/v1/vms", Some("ro")), 200);
    assert_eq!(status_for(auth(), "POST", "/v1/vms", Some("ro")), 403);
}

#[test]
fn admin_token_passes_auth_for_a_mutating_route() {
    let auth = tokens(vec![("admin", Role::Admin)]);
    assert_eq!(status_for(auth, "POST", "/v1/vms", Some("admin")), 400);
}

#[test]
fn the_first_matching_token_counts() {
    let auth = tokens(vec![("a", Role::ReadOnly), ("b", Role::Admin), ("a", Role::Admin)]);
    let shown = |t: &str| authenticate("/v1/vms", &Some(t.to_string()), &auth);
    assert_eq!(shown("Bearer a"), Access::As(Role::ReadOnly));
    assert_eq!(shown("Bearer b"), Access::As(Role::Admin));
    assert_eq!(shown("bearer b"), Access::Unauthorized);
    assert_eq!(shown("Bearer  b"), Access::Unauthorized);
    assert_eq!(shown("b"), Access::Unauthorized);
    assert_eq!(authenticate("/healthz", &None, &auth), Access::Open);
    assert_eq!(authenticate("/healthz/", &None, &auth), Access::Unauthorized);
}

#[test]
fn success_is_reported_by_endpoint() {
    let admin = Access::As(Role::Admin);
    assert_eq!(guard(Endpoint::CreateVm, admin), Ok(201));
    assert_eq!(guard(Endpoint::CloneCatalogEntry, admin), Ok(201));
    assert_eq!(guard(Endpoint::DeleteVm, admin), Ok(204));
    assert_eq!(guard(Endpoint::FreezeVm, admin), Ok(204));
    assert_eq!(guard(Endpoint::StopVm, admin), Ok(200));
    assert_eq!(guard(Endpoint::VmStats, Access::As(Role::ReadOnly)), Ok(200));
    assert_eq!(guard(Endpoint::StartVm, Access::As(Role::ReadOnly)), Err(403));
    assert_eq!(guard(Endpoint::ListVms, Access::Unauthorized), Err(401));
    assert_eq!(require_admin(Role::ReadOnly), Err(Forbidden));
    assert_eq!(require_admin(Role::Admin), Ok(()));
}

#[test]
fn listings_are_filtered_by_exact_name() {
    let mut a = fixture(BackendKind::Qemu, VmStatus::Running, false);
    let mut b = fixture(BackendKind::Qemu, VmStatus::Running, false);
    a.name = "web".into();
    b.name = "web-2".into();
    let names = |v: Vec<VmRecord>| v.into_iter().map(|r| r.name).collect::<Vec<_>>();
    let all = filter_by_name(vec![a.clone(), b.clone()], &None);
    assert_eq!(names(all), vec!["web", "web-2"]);
    let one = filter_by_name(vec![a, b], &Some("web".into()));
    assert_eq!(names(one), vec!["web"]);
}

#[test]
fn a_log_tail_keeps_the_last_lines() {
    let mut tail = LogTail::new(3);
    for i in 0..7 {
        tail.push(format!("line {i}\n"));
    }
    assert_eq!(tail.finish(), vec!["line 4\n", "line 5\n", "line 6\n"]);
    let mut short = LogTail::new(3);
    short.push("only\n".into());
    assert_eq!(short.finish(), vec!["only\n"]);
    let mut none = LogTail::new(0);
    none.push("a\n".into());
    none.push("b\n".into());
    assert_eq!(none.finish(), vec!["b\n"]);
}

#[test]
fn failures_are_answered_with_400() {
    let admin = Access::As(Role::Admin);
    let reader = Access::As(Role::ReadOnly);
    assert_eq!(answer(Endpoint::CreateVm, admin, true), 201);
    assert_eq!(answer(Endpoint::CreateVm, admin, false), 400);
    assert_eq!(answer(Endpoint::GetVm, reader, false), 400);
    assert_eq!(answer(Endpoint::CreateVm, reader, false), 403);
    assert_eq!(answer(Endpoint::GetVm, Access::Unauthorized, false), 401);
    assert_eq!(denial(reader), "admin role required");
    assert_eq!(denial(Access::Unauthorized), "missing or invalid bearer token");
}
