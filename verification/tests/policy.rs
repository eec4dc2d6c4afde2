//! Choice of a backend and admission limits.

use ephemera::config::Config;
use ephemera::create::{accept, CreateError};
use ephemera::model::{BackendKind, CreateVmRequest, NetworkSpec, StorageBackend};
use ephemera::policy::{backend, refusal, refusal_with, resolve_backend, validate_policy, PolicyError,
    UnresolvedBackend};
use ephemera::scheduler::VmManager;

fn req(backend: BackendKind, kernel: Option<&str>, firmware: Option<&str>) -> CreateVmRequest {
    CreateVmRequest {
        name: "fixture".into(),
        backend,
        image: "/tmp/base.qcow2".into(),
        vcpus: 1,
        memory_mib: 512,
        disk_size_gib: None,
        kernel: kernel.map(Into::into),
        initrd: None,
        firmware: firmware.map(Into::into),
        kernel_args: None,
        network: NetworkSpec::Unconnected,
        cloud_init: None,
        ttl_seconds: None,
        extra_args: vec![],
        agent: None,
        storage: StorageBackend::Default,
        shared_folders: vec![],
    }
}

#[test]
fn non_auto_backend_passes_through_unchanged() {
    let cfg = Config::default();
    for backend in [BackendKind::Qemu, BackendKind::CloudHypervisor, BackendKind::Firecracker] {
        let r = req(backend, None, None);
        assert_eq!(resolve_backend(&r, &cfg), backend);
    }
}

#[test]
fn auto_prefers_firecracker_when_request_supplies_a_kernel() {
    let cfg = Config::default();
    let r = req(BackendKind::Auto, Some("/boot/vmlinux"), None);
    assert_eq!(resolve_backend(&r, &cfg), BackendKind::Firecracker);
}

#[test]
fn auto_prefers_firecracker_when_config_has_a_default_kernel() {
    let mut cfg = Config::default();
    cfg.firecracker_kernel = Some("/boot/vmlinux".into());
    let r = req(BackendKind::Auto, None, None);
    assert_eq!(resolve_backend(&r, &cfg), BackendKind::Firecracker);
}

#[test]
fn auto_falls_back_to_cloud_hypervisor_when_only_firmware_is_available() {
    let cfg = Config::default();
    let r = req(BackendKind::Auto, None, Some("/usr/share/hypervisor-fw"));
    assert_eq!(resolve_backend(&r, &cfg), BackendKind::CloudHypervisor);
}

#[test]
fn auto_falls_back_to_cloud_hypervisor_when_config_has_default_firmware() {
    let mut cfg = Config::default();
    cfg.cloud_hypervisor_firmware = Some("/usr/share/hypervisor-fw".into());
    let r = req(BackendKind::Auto, None, None);
    assert_eq!(resolve_backend(&r, &cfg), BackendKind::CloudHypervisor);
}

#[test]
fn auto_falls_back_to_qemu_with_nothing_configured() {
    let cfg = Config::default();
    let r = req(BackendKind::Auto, None, None);
    assert_eq!(resolve_backend(&r, &cfg), BackendKind::Qemu);
}

#[test]
fn backend_rejects_unresolved_auto() {
    assert!(backend(BackendKind::Auto).is_err());
}

#[test]
fn backend_dispatches_on_the_kind() {
    for kind in [BackendKind::Qemu, BackendKind::CloudHypervisor, BackendKind::Firecracker] {
        assert_eq!(backend(kind).ok().map(|b| b.kind()), Some(kind));
    }
    assert_eq!(backend(BackendKind::Auto).err(), Some(UnresolvedBackend));
}

fn req_with(
    vcpus: u8,
    memory_mib: u64,
    disk_size_gib: Option<u64>,
    ttl_seconds: Option<u64>,
    backend: BackendKind,
    image: &str,
) -> CreateVmRequest {
    let mut r = req(backend, None, None);
    r.vcpus = vcpus;
    r.memory_mib = memory_mib;
    r.disk_size_gib = disk_size_gib;
    r.ttl_seconds = ttl_seconds;
    r.image = image.into();
    r
}

#[test]
fn empty_policy_allows_anything() {
    let cfg = Config::default();
    let r = req_with(64, 1_000_000, Some(9999), None, BackendKind::Qemu, "/anywhere/x.qcow2");
    assert!(validate_policy(&r, &cfg).is_ok());
}

#[test]
fn policy_rejects_over_vcpu_limit() {
    let mut cfg = Config::default();
    cfg.policy.max_vcpus = Some(4);
    let r = req_with(8, 512, None, None, BackendKind::Qemu, "/x.qcow2");
    assert!(validate_policy(&r, &cfg).is_err());
}

#[test]
fn policy_rejects_over_memory_limit() {
    let mut cfg = Config::default();
    cfg.policy.max_memory_mib = Some(2048);
    let r = req_with(1, 4096, None, None, BackendKind::Qemu, "/x.qcow2");
    assert!(validate_policy(&r, &cfg).is_err());
}

#[test]
fn policy_rejects_over_disk_limit_but_allows_unset_disk() {
    let mut cfg = Config::default();
    cfg.policy.max_disk_gib = Some(50);
    let over = req_with(1, 512, Some(100), None, BackendKind::Qemu, "/x.qcow2");
    assert!(validate_policy(&over, &cfg).is_err());
    let unset = req_with(1, 512, None, None, BackendKind::Qemu, "/x.qcow2");
    assert!(validate_policy(&unset, &cfg).is_ok());
}

#[test]
fn policy_with_ttl_cap_rejects_both_unbounded_and_over_cap() {
    let mut cfg = Config::default();
    cfg.policy.max_ttl_seconds = Some(3600);
    let unbounded = req_with(1, 512, None, None, BackendKind::Qemu, "/x.qcow2");
    assert!(validate_policy(&unbounded, &cfg).is_err());
    let too_long = req_with(1, 512, None, Some(7200), BackendKind::Qemu, "/x.qcow2");
    assert!(validate_policy(&too_long, &cfg).is_err());
    let ok = req_with(1, 512, None, Some(1800), BackendKind::Qemu, "/x.qcow2");
    assert!(validate_policy(&ok, &cfg).is_ok());
}

#[test]
fn policy_restricts_allowed_backends() {
    let mut cfg = Config::default();
    cfg.policy.allowed_backends = Some(vec![BackendKind::Firecracker]);
    let qemu = req_with(1, 512, None, None, BackendKind::Qemu, "/x.qcow2");
    assert!(validate_policy(&qemu, &cfg).is_err());
    let fc = req_with(1, 512, None, None, BackendKind::Firecracker, "/x.qcow2");
    assert!(validate_policy(&fc, &cfg).is_ok());
}

#[test]
fn policy_restricts_allowed_image_dirs() {
    let mut cfg = Config::default();
    cfg.policy.allowed_image_dirs = Some(vec!["/var/lib/ephemera/images".into()]);
    let outside = req_with(1, 512, None, None, BackendKind::Qemu, "/tmp/evil.qcow2");
    assert!(validate_policy(&outside, &cfg).is_err());
    let inside = req_with(1, 512, None, None, BackendKind::Qemu, "/var/lib/ephemera/images/base.qcow2");
    assert!(validate_policy(&inside, &cfg).is_ok());
}

#[test]
fn each_limit_has_its_own_error() {
    let mut cfg = Config::default();
    cfg.policy.max_vcpus = Some(4);
    cfg.policy.max_memory_mib = Some(2048);
    cfg.policy.max_disk_gib = Some(50);
    cfg.policy.max_ttl_seconds = Some(3600);
    cfg.policy.allowed_backends = Some(vec![BackendKind::Firecracker]);
    cfg.policy.allowed_image_dirs = Some(vec!["/images".into()]);
    let mut r = req_with(5, 4096, Some(51), Some(3601), BackendKind::Qemu, "/imagesx/a");
    assert_eq!(validate_policy(&r, &cfg), Err(PolicyError::TooManyVcpus { vcpus: 5, max_vcpus: 4 }));
    r.vcpus = 4;
    assert_eq!(validate_policy(&r, &cfg), Err(PolicyError::TooMuchMemory { memory_mib: 4096, max: 2048 }));
    r.memory_mib = 2048;
    assert_eq!(validate_policy(&r, &cfg), Err(PolicyError::TooMuchDisk { disk_gib: 51, max: 50 }));
    r.disk_size_gib = Some(50);
    assert_eq!(validate_policy(&r, &cfg), Err(PolicyError::TtlTooLong { ttl: 3601, max: 3600 }));
    r.ttl_seconds = None;
    assert_eq!(validate_policy(&r, &cfg), Err(PolicyError::TtlMissing { max: 3600 }));
    r.ttl_seconds = Some(3600);
    assert_eq!(
        validate_policy(&r, &cfg),
        Err(PolicyError::BackendNotAllowed { backend: BackendKind::Qemu })
    );
    r.backend = BackendKind::Firecracker;
    assert_eq!(validate_policy(&r, &cfg), Err(PolicyError::ImageNotAllowed));
    r.image = "/images/a".into();
    assert_eq!(validate_policy(&r, &cfg), Ok(()));
}

#[test]
fn the_backend_is_checked_after_it_was_resolved() {
    let mut cfg = Config::default();
    cfg.policy.allowed_backends = Some(vec![BackendKind::Firecracker]);
    let with_kernel = req(BackendKind::Auto, Some("/boot/vmlinux"), None);
    assert_eq!(accept(with_kernel, &cfg, true).unwrap().backend, BackendKind::Firecracker);
    let without = req(BackendKind::Auto, None, None);
    assert_eq!(
        accept(without, &cfg, true).err(),
        Some(CreateError::Policy(PolicyError::BackendNotAllowed { backend: BackendKind::Qemu }))
    );
}

#[test]
fn an_unnamed_list_of_backends_allows_none() {
    let mut cfg = Config::default();
    cfg.policy.allowed_backends = Some(vec![]);
    let r = req(BackendKind::Qemu, None, None);
    assert!(validate_policy(&r, &cfg).is_err());
}

#[test]
fn refusals_in_words() {
    let mut cfg = Config::default();
    let say = |cfg: &Config, e| refusal(e, "/tmp/evil.qcow2", &cfg.policy);
    assert_eq!(
        say(&cfg, PolicyError::TooManyVcpus { vcpus: 8, max_vcpus: 4 }),
        "request vcpus (8) exceeds policy max_vcpus (4)"
    );
    assert_eq!(
        say(&cfg, PolicyError::TooMuchMemory { memory_mib: 4096, max: 2048 }),
        "request memory_mib (4096) exceeds policy max_memory_mib (2048)"
    );
    assert_eq!(
        say(&cfg, PolicyError::TooMuchDisk { disk_gib: 100, max: 50 }),
        "request disk_size_gib (100) exceeds policy max_disk_gib (50)"
    );
    assert_eq!(
        say(&cfg, PolicyError::TtlTooLong { ttl: 7200, max: 3600 }),
        "request ttl_seconds (7200) exceeds policy max_ttl_seconds (3600)"
    );
    assert_eq!(
        say(&cfg, PolicyError::TtlMissing { max: 3600 }),
        "policy requires ttl_seconds to be set (max_ttl_seconds=3600); unbounded VMs are not allowed"
    );
    cfg.policy.allowed_backends = Some(vec![BackendKind::Firecracker, BackendKind::CloudHypervisor]);
    assert_eq!(
        say(&cfg, PolicyError::BackendNotAllowed { backend: BackendKind::Qemu }),
        "backend Qemu is not permitted by policy allowed_backends [Firecracker, CloudHypervisor]"
    );
    cfg.policy.allowed_image_dirs = Some(vec!["/a".into(), "/b\"c".into()]);
    assert_eq!(
        say(&cfg, PolicyError::ImageNotAllowed),
        format!(
            "image /tmp/evil.qcow2 is not under any policy allowed_image_dirs {:?}",
            vec![std::path::PathBuf::from("/a"), std::path::PathBuf::from("/b\"c")]
        )
    );
    assert_eq!(
        refusal_with(PolicyError::ImageNotAllowed, "/x", &vec![], &vec!["'a'".into(), "'b'".into()]),
        "image /x is not under any policy allowed_image_dirs ['a', 'b']"
    );
}

#[test]
fn auto_is_refused_as_what_it_resolves_to() {
    let mut cfg = Config::default();
    cfg.policy.allowed_backends = Some(vec![BackendKind::Auto]);
    let m = VmManager::new(cfg, vec![], vec![]);
    for image_exists in [true, false] {
        let r = m.create(req(BackendKind::Auto, None, None), image_exists).unwrap_err();
        assert_eq!(
            r.error,
            CreateError::Policy(PolicyError::BackendNotAllowed { backend: BackendKind::Qemu })
        );
        assert_eq!(r.message, "backend Qemu is not permitted by policy allowed_backends [Auto]");
    }
    assert!(m.list().is_empty());
}

#[test]
fn a_missing_image_is_refused_after_the_limits() {
    let mut cfg = Config::default();
    cfg.policy.max_vcpus = Some(4);
    let m = VmManager::new(cfg, vec![], vec![]);
    let fitting = || req_with(4, 512, None, None, BackendKind::Qemu, "/x.qcow2");
    let r = m.create(fitting(), false).unwrap_err();
    assert_eq!(r.error, CreateError::ImageMissing);
    assert_eq!(r.message, "base image does not exist: /x.qcow2");
    assert!(m.create(fitting(), true).is_ok());
    let r = m.create(req_with(5, 512, None, None, BackendKind::Qemu, "/x.qcow2"), false).unwrap_err();
    assert_eq!(r.message, "request vcpus (5) exceeds policy max_vcpus (4)");
    assert!(m.list().is_empty());
}

#[test]
fn a_looser_policy_still_admits() {
    let r = req_with(4, 2048, Some(50), Some(3600), BackendKind::Qemu, "/srv/images/base/x.qcow2");
    let mut cfg = Config::default();
    cfg.policy.max_vcpus = Some(4);
    cfg.policy.max_memory_mib = Some(2048);
    cfg.policy.max_disk_gib = Some(50);
    cfg.policy.max_ttl_seconds = Some(3600);
    cfg.policy.allowed_backends = Some(vec![BackendKind::Qemu]);
    cfg.policy.allowed_image_dirs = Some(vec!["/srv/images/base".into()]);
    assert!(validate_policy(&r, &cfg).is_ok());
    cfg.policy.max_vcpus = Some(8);
    cfg.policy.max_memory_mib = Some(4096);
    cfg.policy.max_disk_gib = Some(100);
    cfg.policy.max_ttl_seconds = Some(7200);
    cfg.policy.allowed_backends = Some(vec![BackendKind::Firecracker, BackendKind::Qemu]);
    cfg.policy.allowed_image_dirs = Some(vec!["/opt".into(), "/srv".into()]);
    assert!(validate_policy(&r, &cfg).is_ok());
    cfg.policy.max_ttl_seconds = None;
    cfg.policy.allowed_image_dirs = None;
    assert!(validate_policy(&r, &cfg).is_ok());
}

#[test]
fn a_resolved_backend_outlasts_the_settings() {
    let mut r = req(BackendKind::Auto, None, None);
    let mut cfg = Config::default();
    r.backend = resolve_backend(&r, &cfg);
    assert_eq!(r.backend, BackendKind::Qemu);
    cfg.firecracker_kernel = Some("/boot/vmlinux".into());
    assert_eq!(resolve_backend(&r, &cfg), BackendKind::Qemu);
}
