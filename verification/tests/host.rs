//! Images, seed disks, networks and the other two monitors.

use ephemera::backend::{LaunchContext, LaunchError, PreparedNetwork, VmBackend};
use ephemera::cloud_hypervisor::{self, CloudHypervisorBackend};
use ephemera::cloudinit::{build_seed, yaml_quote};
use ephemera::config::Config;
use ephemera::firecracker::{self, config_json, FirecrackerBackend};
use ephemera::image::{build_image, clone_for_vm, default_format, digest_matches, fetch_if_needed,
    CloneError,
    image_format, info_command, inject_files, inject_guest_agent_token, verify_sha256,
    BuildImageRequest, GuestOp, Source, OWNER_ONLY};
use ephemera::model::{AgentSpec, BackendKind, CloudInitSpec, CreateVmRequest, NetworkSpec,
    PortForward, StorageBackend};
use ephemera::netns;
use ephemera::network::{cleanup, cleanup_tap, prepare, NetworkError};
use ephemera::plan::{Action, CopyIn, Progress, Run, Step};
use ephemera::policy::resolve_backend;
use ephemera::protocol::token_file_path;

fn command(step: &Step) -> String {
    line(&step.action)
}

fn line(action: &Action) -> String {
    match action {
        Action::Run(c) => format!("{} {}", c.program, c.args.join(" ")),
        Action::WriteFile { path, .. } => format!("write {path}"),
        Action::RemoveFile { path } => format!("remove {path}"),
        Action::MakeParent { path } => format!("parent {path}"),
        Action::InjectFiles { image, .. } => format!("inject {image}"),
    }
}

fn commands(steps: &[Step]) -> Vec<String> {
    steps.iter().map(command).collect()
}

// ------------------------------------------------------------------------ plans

fn steps_for_a_bridge() -> Vec<Step> {
    let spec = NetworkSpec::Tap { tap_name: Some("eph0".into()), bridge: Some("br9".into()), mac: None };
    prepare(&Config::default(), 1, &spec).unwrap().0
}

#[test]
fn a_plan_runs_to_its_end() {
    let mut run = Run::start(steps_for_a_bridge());
    let mut seen = vec![];
    while let Some(action) = run.action().map(line) {
        seen.push(action);
        run.answered(true);
    }
    assert_eq!(seen.len(), 3);
    assert_eq!(run.state(), Progress::Done);
    assert_eq!(run.failure(), None);
}

#[test]
fn a_failed_step_is_undone() {
    let mut run = Run::start(steps_for_a_bridge());
    run.answered(true);
    run.answered(true);
    run.answered(false);
    assert_eq!(run.action().map(line).as_deref(), Some("ip link set dev eph0 down"));
    run.answered(false);
    assert_eq!(run.action().map(line).as_deref(), Some("ip tuntap del dev eph0 mode tap"));
    run.answered(true);
    assert!(run.action().is_none());
    assert_eq!(run.state(), Progress::Failed { i: 2 });
    assert_eq!(run.failure(), Some(""));
}

#[test]
fn a_failure_before_the_bridge_undoes_nothing() {
    let mut run = Run::start(steps_for_a_bridge());
    run.answered(false);
    assert_eq!(run.state(), Progress::Failed { i: 0 });
}

#[test]
fn optional_steps_and_conditions() {
    let mut run = Run::start(cleanup_tap("eph0"));
    run.answered(false);
    run.answered(false);
    assert_eq!(run.state(), Progress::Done);
    assert_eq!(Run::start(vec![]).state(), Progress::Done);

    let nat = || {
        let mut steps = netns::prepare(5, &None).0;
        steps.split_off(steps.len() - 1)
    };
    let mut present = Run::start(nat());
    assert!(present.action().map(line).unwrap().contains(" -C "));
    present.answered(true);
    assert_eq!(present.state(), Progress::Done);
    let mut absent = Run::start(nat());
    absent.answered(false);
    assert!(absent.action().map(line).unwrap().contains(" -A "));
    absent.answered(true);
    assert_eq!(absent.state(), Progress::Done);
}

// --------------------------------------------------------------------- networks

#[test]
fn tap_devices() {
    let mut cfg = Config::default();
    let id = 0x0123_4567_89ab_4def_8123_4567_89ab_cdefu128;
    let spec = NetworkSpec::Tap { tap_name: None, bridge: None, mac: Some("06:00".into()) };
    let (steps, ready) = prepare(&cfg, id, &spec).unwrap();
    assert_eq!(
        commands(&steps),
        vec![
            "ip tuntap add dev eph01234567 mode tap",
            "ip link set dev eph01234567 up",
            "ip link set eph01234567 master vmbr0",
        ]
    );
    assert_eq!(ready.tap_name.as_deref(), Some("eph01234567"));
    assert!(matches!(
        ready.spec,
        NetworkSpec::Tap { tap_name: Some(ref t), bridge: Some(ref b), mac: Some(ref m) }
            if t == "eph01234567" && b == "vmbr0" && m == "06:00"
    ));
    cfg.default_bridge = None;
    assert_eq!(prepare(&cfg, id, &spec).unwrap().0.len(), 2);
}

#[test]
fn device_names_have_a_limit() {
    let cfg = Config::default();
    let named = |n: &str| NetworkSpec::Tap { tap_name: Some(n.into()), bridge: None, mac: None };
    assert!(prepare(&cfg, 1, &named("abcdefghijklmno")).is_ok());
    assert_eq!(prepare(&cfg, 1, &named("abcdefghijklmnop")).err(), Some(NetworkError::NameTooLong));
    assert_eq!(prepare(&cfg, 1, &named("\u{e9}\u{e9}\u{e9}\u{e9}\u{e9}\u{e9}\u{e9}\u{e9}")).err(), Some(NetworkError::NameTooLong));
}

#[test]
fn networks_without_a_device() {
    let cfg = Config::default();
    for spec in [NetworkSpec::Unconnected, NetworkSpec::default()] {
        let (steps, ready) = prepare(&cfg, 1, &spec).unwrap();
        assert!(steps.is_empty());
        assert_eq!(ready.tap_name, None);
        assert!(cleanup(&spec, "eph0").is_empty());
    }
    let tap = NetworkSpec::Tap { tap_name: None, bridge: None, mac: None };
    assert_eq!(
        commands(&cleanup(&tap, "eph0")),
        vec!["ip link set dev eph0 down", "ip tuntap del dev eph0 mode tap"]
    );
}

#[test]
fn a_namespace_of_its_own() {
    let id = 0xabcd_ef01_0000_4000_8000_0000_0000_0005u128;
    assert_eq!(netns::subnet_octet(id), 20);
    assert_eq!(netns::subnet_octet(63), 252);
    let (steps, handle) = netns::prepare(id, &Some("06:00".into()));
    assert_eq!((handle.netns.as_str(), handle.tap_name.as_str()), ("eph-abcdef01", "tapabcdef01"));
    let lines = commands(&steps);
    assert_eq!(
        lines,
        vec![
            "ip netns add eph-abcdef01",
            "ip link add vhabcdef01 type veth peer name vnabcdef01",
            "ip link set vnabcdef01 netns eph-abcdef01",
            "ip addr add 169.254.20.1/30 dev vhabcdef01",
            "ip link set vhabcdef01 up",
            "ip netns exec eph-abcdef01 ip link set lo up",
            "ip netns exec eph-abcdef01 ip link add brabcdef01 type bridge",
            "ip netns exec eph-abcdef01 ip link set vnabcdef01 master brabcdef01",
            "ip netns exec eph-abcdef01 ip tuntap add dev tapabcdef01 mode tap",
            "ip netns exec eph-abcdef01 ip link set dev tapabcdef01 address 06:00",
            "ip netns exec eph-abcdef01 ip link set tapabcdef01 master brabcdef01",
            "ip netns exec eph-abcdef01 ip addr add 169.254.20.2/30 dev brabcdef01",
            "ip netns exec eph-abcdef01 ip link set vnabcdef01 up",
            "ip netns exec eph-abcdef01 ip link set tapabcdef01 up",
            "ip netns exec eph-abcdef01 ip link set brabcdef01 up",
            "ip netns exec eph-abcdef01 ip route add default via 169.254.20.1",
            "sysctl -w net.ipv4.ip_forward=1",
            "iptables -t nat -A POSTROUTING -s 169.254.20.0/30 -j MASQUERADE",
        ]
    );
    assert_eq!(steps[0].purpose, "creating network namespace");
    for step in &steps {
        assert_eq!(
            step.undo.iter().map(line).collect::<Vec<_>>(),
            vec![
                "iptables -t nat -D POSTROUTING -s 169.254.20.0/30 -j MASQUERADE",
                "ip netns del eph-abcdef01",
            ]
        );
    }
    assert_eq!(netns::prepare(id, &None).0.len(), 17);
    assert_eq!(commands(&netns::cleanup(id, "eph-x"))[1], "ip netns del eph-x");
}

// ------------------------------------------------------------------------ seeds

#[test]
fn quotation_for_yaml() {
    assert_eq!(yaml_quote("plain"), "'plain'");
    assert_eq!(yaml_quote("it's"), "'it''s'");
    assert_eq!(yaml_quote("''"), "''''''");
    assert_eq!(yaml_quote(""), "''");
}

fn contents(step: &Step) -> &str {
    match &step.action {
        Action::WriteFile { contents, .. } => contents,
        other => panic!("{other:?}"),
    }
}

#[test]
fn a_seed_disk() {
    let ci = CloudInitSpec {
        hostname: Some("job-123".into()),
        user: Some("zyvor".into()),
        ssh_authorized_keys: vec!["ssh-ed25519 AAAA".into()],
        packages: vec!["curl".into(), "jq".into()],
        runcmd: vec!["echo 'hi'".into()],
    };
    let (steps, seed) = build_seed(&Config::default(), "/w", &ci);
    assert_eq!(seed, "/w/seed.img");
    assert_eq!(
        commands(&steps),
        vec![
            "write /w/user-data",
            "write /w/meta-data",
            "cloud-localds --disk-format raw /w/seed.img /w/user-data /w/meta-data",
        ]
    );
    assert_eq!(
        contents(&steps[0]),
        "#cloud-config\nhostname: 'job-123'\nusers:\n  - default\n  - name: 'zyvor'\n    sudo: ALL=(ALL) NOPASSWD:ALL\n    shell: /bin/bash\n    ssh_authorized_keys:\n      - 'ssh-ed25519 AAAA'\npackage_update: true\npackages:\n  - 'curl'\n  - 'jq'\nruncmd:\n  - [ bash, -lc, 'echo ''hi''' ]\n"
    );
    assert_eq!(contents(&steps[1]), "instance-id: job-123\nlocal-hostname: job-123\n");
    let (steps, _) = build_seed(&Config::default(), "/w", &CloudInitSpec::default());
    assert_eq!(
        contents(&steps[0]),
        "#cloud-config\nhostname: 'ephemera-vm'\nusers:\n  - default\n  - name: 'cloud'\n    sudo: ALL=(ALL) NOPASSWD:ALL\n    shell: /bin/bash\n"
    );
}

// ----------------------------------------------------------------------- images

#[test]
fn sources() {
    let cfg = Config::default();
    assert!(matches!(fetch_if_needed(&cfg, "/a/b.img"), Source::Local { ref path } if path == "/a/b.img"));
    assert!(matches!(fetch_if_needed(&cfg, "ftp://x/y"), Source::Local { .. }));
    let dest = |url: &str| match fetch_if_needed(&cfg, url) {
        Source::Download { dest, .. } => dest,
        other => panic!("{other:?}"),
    };
    assert_eq!(dest("https://example.invalid/a/b.qcow2"), "/var/lib/ephemera/downloads/b.qcow2");
    assert_eq!(dest("http://example.invalid/"), "/var/lib/ephemera/downloads/base.img");
}

#[test]
fn digests() {
    let abc = b"abc".to_vec();
    let digest = "ba7816bf8f01cfea414140de5dae2223b00361a396177a9cb410ff61f20015ad";
    assert!(verify_sha256(&abc, digest).is_ok());
    assert!(verify_sha256(&abc, &digest.to_uppercase()).is_ok());
    assert_eq!(verify_sha256(&abc, "").unwrap_err().got, digest);
    assert_eq!(
        verify_sha256(&vec![], digest).unwrap_err().got,
        "e3b0c44298fc1c149afbf4c8996fb92427ae41e4649b934ca495991b7852b855"
    );
    assert!(digest_matches(&vec![0xab, 0x01], "AB01").is_ok());
    assert!(digest_matches(&vec![0xab, 0x01], "AB010").is_err());
}

fn build_request() -> BuildImageRequest {
    BuildImageRequest {
        source: "/src.img".into(),
        output: "/out/dev.qcow2".into(),
        format: default_format(),
        size_gib: None,
        sha256: None,
        hostname: None,
        packages: vec![],
        commands: vec![],
        ssh_key: None,
        copy_in: vec![],
        enable_services: vec![],
    }
}

#[test]
fn a_plain_image() {
    let (steps, result) = build_image(&Config::default(), &build_request(), "/src.img", &vec![]).unwrap();
    assert_eq!(
        commands(&steps),
        vec!["parent /out/dev.qcow2", "qemu-img convert -O qcow2 /src.img /out/dev.qcow2"]
    );
    assert_eq!((result.output.as_str(), result.format.as_str()), ("/out/dev.qcow2", "qcow2"));
}

#[test]
fn an_image_with_everything() {
    let mut req = build_request();
    req.size_gib = Some(20);
    req.hostname = Some("tmpl".into());
    req.packages = vec!["curl".into(), "jq".into()];
    req.commands = vec!["a".into(), "b".into()];
    req.ssh_key = Some("KEY".into());
    req.copy_in = vec![CopyIn { src: "/bin/x".into(), dest: "/usr/bin/x".into() }];
    req.enable_services = vec!["x.service".into()];
    let (steps, _) = build_image(&Config::default(), &req, "/src.img", &vec![]).unwrap();
    assert_eq!(
        commands(&steps),
        vec![
            "parent /out/dev.qcow2",
            "qemu-img convert -O qcow2 /src.img /out/dev.qcow2",
            "qemu-img resize /out/dev.qcow2 20G",
            "inject /out/dev.qcow2",
            "write /out/dev.builder.pub",
            "virt-customize -a /out/dev.qcow2 --hostname tmpl --install curl,jq --run-command a --run-command b --ssh-inject root:file:/out/dev.builder.pub",
            "remove /out/dev.builder.pub",
        ]
    );
    assert_eq!(contents(&steps[4]), "KEY");
    assert_eq!(steps[5].undo.iter().map(line).collect::<Vec<_>>(), vec!["remove /out/dev.builder.pub"]);
    assert!(steps[6].optional);
    let ops = inject_files(&req.copy_in, &req.enable_services);
    assert!(matches!(ops[0], GuestOp::Upload { ref src, ref dest } if src == "/bin/x" && dest == "/usr/bin/x"));
    assert!(matches!(ops[1], GuestOp::Command { ref argv } if *argv == ["systemctl", "enable", "x.service"]));
}

#[test]
fn formats_of_images() {
    let format = |s: &str| image_format(&Some(s.into()));
    assert_eq!(format("{\"format\": \"raw\", \"x\": 1}"), "raw");
    assert_eq!(format("{\"format\": 7}"), "qcow2");
    assert_eq!(format("[\"format\"]"), "qcow2");
    assert_eq!(format("garbage"), "qcow2");
    assert_eq!(image_format(&None), "qcow2");
    assert_eq!(info_command(&Config::default(), "/i").args, vec!["info", "--output=json", "/i"]);
}

#[test]
fn copies_for_instances() {
    let cfg = Config::default();
    let copy = |kind, format: &str, size| {
        clone_for_vm(&cfg, "base", "/abs/base", format, kind, "/w/root", size).map(|s| commands(&s))
    };
    assert_eq!(
        copy(BackendKind::Qemu, "raw", Some(5)),
        Ok(vec![
            "qemu-img create -f qcow2 -F raw -b /abs/base /w/root".to_string(),
            "qemu-img resize /w/root 5G".to_string(),
        ])
    );
    assert_eq!(
        copy(BackendKind::Firecracker, "raw", None),
        Ok(vec!["cp --reflink=auto --sparse=always base /w/root".to_string()])
    );
    assert_eq!(
        copy(BackendKind::CloudHypervisor, "qcow2", None),
        Ok(vec!["qemu-img convert -O raw base /w/root".to_string()])
    );
    let refused = copy(BackendKind::Auto, "raw", None).unwrap_err();
    assert_eq!(refused, CloneError::UnresolvedBackend);
    assert_eq!(
        refused.message(),
        "VM has an unresolved BackendKind::Auto \u{2014} this is a bug, backend selection must happen before cloning its disk"
    );
}

#[test]
fn the_secret_of_the_agent_goes_into_the_disk() {
    let ops = inject_guest_agent_token("t0ken");
    assert!(matches!(ops[0], GuestOp::Write { ref path, ref contents } if *path == token_file_path() && contents == "t0ken"));
    assert!(matches!(ops[1], GuestOp::Chmod { mode: OWNER_ONLY, ref path } if *path == token_file_path()));
    assert_eq!(OWNER_ONLY, 0o600);
}

// --------------------------------------------------------------------- monitors

fn req() -> CreateVmRequest {
    CreateVmRequest {
        name: "m".into(),
        backend: BackendKind::CloudHypervisor,
        image: "/i".into(),
        vcpus: 2,
        memory_mib: 1024,
        disk_size_gib: None,
        kernel: None,
        initrd: None,
        firmware: None,
        kernel_args: None,
        network: NetworkSpec::Unconnected,
        cloud_init: None,
        ttl_seconds: None,
        extra_args: vec!["--seccomp".into(), "log".into()],
        agent: None,
        storage: StorageBackend::Default,
        shared_folders: vec![],
    }
}

fn ctx(spec: NetworkSpec) -> LaunchContext {
    LaunchContext {
        id: 1,
        workspace: "/w".into(),
        disk: "/w/root.raw".into(),
        seed_disk: Some("/w/seed.img".into()),
        log_path: "/w/console.log".into(),
        network: PreparedNetwork { spec, tap_name: None, macvtap_fd: None, netns: None },
        guest_cid: None,
        vsock_socket: None,
        disk_format: "raw".into(),
        nbd_export: None,
    }
}

fn tap(name: Option<&str>, mac: Option<&str>) -> NetworkSpec {
    NetworkSpec::Tap { tap_name: name.map(Into::into), bridge: None, mac: mac.map(Into::into) }
}

#[test]
fn cloud_hypervisor_command_lines() {
    let cfg = Config::default();
    let mut r = req();
    r.kernel = Some("/k".into());
    r.initrd = Some("/rd".into());
    r.kernel_args = Some("quiet".into());
    let c = ctx(tap(Some("eph0"), Some("06:00")));
    let command = cloud_hypervisor::launch_command(&cfg, &r, &c).unwrap();
    assert_eq!(command.program, "cloud-hypervisor");
    assert_eq!(
        command.args,
        vec![
            "--api-socket", "/w/ch-api.sock", "--cpus", "boot=2", "--memory", "size=1024M",
            "--disk", "path=/w/root.raw", "--serial", "file=/w/console.log", "--console", "off",
            "--disk", "path=/w/seed.img,readonly=on", "--net", "tap=eph0,mac=06:00",
            "--kernel", "/k", "--initramfs", "/rd", "--cmdline", "quiet", "--seccomp", "log",
        ]
    );
    let result = cloud_hypervisor::launch_result(&c, 4);
    assert_eq!((result.pid, result.control_socket.as_deref()), (4, Some("/w/ch-api.sock")));
    assert_eq!(CloudHypervisorBackend.kind(), BackendKind::CloudHypervisor);
}

#[test]
fn cloud_hypervisor_boot_sources_and_errors() {
    let mut cfg = Config::default();
    let build = |cfg: &Config, r: &CreateVmRequest, spec| cloud_hypervisor::build_args(cfg, r, &ctx(spec));
    let mut r = req();
    assert_eq!(build(&cfg, &r, NetworkSpec::Unconnected).err(), Some(LaunchError::NothingToBoot));
    cfg.cloud_hypervisor_firmware = Some("/fw-default".into());
    assert!(build(&cfg, &r, NetworkSpec::Unconnected).unwrap().contains(&"/fw-default".to_string()));
    r.firmware = Some("/fw".into());
    assert!(build(&cfg, &r, NetworkSpec::Unconnected).unwrap().contains(&"/fw".to_string()));
    assert_eq!(build(&cfg, &r, tap(None, None)).err(), Some(LaunchError::TapNotPrepared));
    assert_eq!(
        build(&cfg, &r, NetworkSpec::User { forwards: vec![] }).err(),
        Some(LaunchError::UserNetworkUnsupported)
    );
    let mut c = ctx(NetworkSpec::Macvtap { parent: "e".into(), macvtap_mode: None, mac: None });
    assert_eq!(cloud_hypervisor::build_args(&cfg, &r, &c).err(), Some(LaunchError::MacvtapNotPrepared));
    c.network.macvtap_fd = Some(11);
    assert!(cloud_hypervisor::build_args(&cfg, &r, &c).unwrap().contains(&"fd=11".to_string()));
}

#[test]
fn firecracker_configuration() {
    let cfg = Config::default();
    let mut r = req();
    r.kernel = Some("/vmlinux".into());
    r.agent = Some(AgentSpec { enabled: true, port: 1, token: None });
    let mut c = ctx(tap(Some("eph0"), None));
    c.guest_cid = Some(9);
    c.vsock_socket = Some("/w/vsock.sock".into());
    let expected: serde_json::Value = serde_json::from_str(
        r#"{
            "boot-source": {
                "kernel_image_path": "/vmlinux",
                "boot_args": "console=ttyS0 reboot=k panic=1 pci=off root=/dev/vda rw"
            },
            "drives": [
                {"drive_id": "rootfs", "path_on_host": "/w/root.raw", "is_root_device": true, "is_read_only": false},
                {"drive_id": "seed", "path_on_host": "/w/seed.img", "is_root_device": false, "is_read_only": true}
            ],
            "machine-config": {"vcpu_count": 2, "mem_size_mib": 1024, "smt": false, "track_dirty_pages": false},
            "network-interfaces": [{"iface_id": "eth0", "guest_mac": "06:00:AC:10:00:02", "host_dev_name": "eph0"}],
            "vsock": {"guest_cid": 9, "uds_path": "/w/vsock.sock"}
        }"#,
    )
    .unwrap();
    assert_eq!(config_json(&cfg, &r, &c).unwrap(), expected);
    let plan = firecracker::launch_plan(&cfg, &r, &c).unwrap();
    assert_eq!(plan.config_path, "/w/firecracker.json");
    assert_eq!(serde_json::from_str::<serde_json::Value>(&plan.config).unwrap(), expected);
    assert!(plan.config.contains("\n  \"drives\": ["));
    assert_eq!(
        plan.command.args,
        vec!["--api-sock", "/w/firecracker.sock", "--config-file", "/w/firecracker.json"]
    );
    assert_eq!(firecracker::launch_result(&c, 3).control_socket.as_deref(), Some("/w/firecracker.sock"));
    assert_eq!(FirecrackerBackend.kind(), BackendKind::Firecracker);
}

#[test]
fn firecracker_errors() {
    let mut cfg = Config::default();
    let mut r = req();
    let error = |cfg: &Config, r: &CreateVmRequest, c: &LaunchContext| config_json(cfg, r, c).err();
    let plain = ctx(NetworkSpec::Unconnected);
    assert_eq!(error(&cfg, &r, &plain), Some(LaunchError::NoKernel));
    cfg.firecracker_kernel = Some("/default".into());
    assert_eq!(error(&cfg, &r, &plain), None);
    assert_eq!(error(&cfg, &r, &ctx(tap(None, None))), Some(LaunchError::TapNotPrepared));
    let user = NetworkSpec::User {
        forwards: vec![PortForward { host_port: 1, guest_port: 2, protocol: "tcp".into() }],
    };
    assert_eq!(error(&cfg, &r, &ctx(user)), Some(LaunchError::UserNetworkUnsupported));
    let macvtap = NetworkSpec::Macvtap { parent: "e".into(), macvtap_mode: None, mac: None };
    assert_eq!(error(&cfg, &r, &ctx(macvtap)), Some(LaunchError::MacvtapUnsupported));
    r.agent = Some(AgentSpec { enabled: true, port: 1, token: None });
    assert_eq!(error(&cfg, &r, &plain), Some(LaunchError::NoGuestCid));
    let mut with_cid = ctx(NetworkSpec::Unconnected);
    with_cid.guest_cid = Some(3);
    assert_eq!(error(&cfg, &r, &with_cid), Some(LaunchError::NoVsockSocket));
}

#[test]
fn what_auto_picks_can_boot() {
    let mut cfg = Config::default();
    let mut r = req();
    r.backend = BackendKind::Auto;
    assert_eq!(resolve_backend(&r, &cfg), BackendKind::Qemu);
    cfg.cloud_hypervisor_firmware = Some("/fw".into());
    assert_eq!(resolve_backend(&r, &cfg), BackendKind::CloudHypervisor);
    assert!(cloud_hypervisor::build_args(&cfg, &r, &ctx(NetworkSpec::Unconnected)).is_ok());
    cfg.firecracker_kernel = Some("/vmlinux".into());
    assert_eq!(resolve_backend(&r, &cfg), BackendKind::Firecracker);
    assert!(config_json(&cfg, &r, &ctx(NetworkSpec::Unconnected)).is_ok());
}

#[test]
fn a_pinned_source_is_used_only_with_its_digest() {
    let abc = "BA7816BF8F01CFEA414140DE5DAE2223B00361A396177A9CB410FF61F20015AD";
    let mut req = build_request();
    req.sha256 = Some(abc.into());
    let (steps, _) = build_image(&Config::default(), &req, "/src.img", &b"abc".to_vec()).unwrap();
    assert_eq!(steps.len(), 2);
    let m = build_image(&Config::default(), &req, "/src.img", &b"abd".to_vec()).err().unwrap();
    assert_eq!(m.got, "a52d159f262b2c6ddb724a61840befc36eb30c88877a4030b65cbe86298449c9");
    assert_eq!(m.message("00"), format!("sha256 mismatch: expected 00, got {}", m.got));
    req.sha256 = Some("00".into());
    assert!(build_image(&Config::default(), &req, "/src.img", &b"abc".to_vec()).is_err());
}

#[test]
fn launch_errors_in_words() {
    let say = |e: LaunchError, kind| e.message(kind);
    assert_eq!(
        say(LaunchError::UserNetworkUnsupported, BackendKind::Firecracker),
        "Firecracker backend requires network.mode=none or tap"
    );
    assert_eq!(
        say(LaunchError::UserNetworkUnsupported, BackendKind::CloudHypervisor),
        "Cloud Hypervisor backend requires network.mode=none or tap in this MVP"
    );
    assert_eq!(
        say(LaunchError::NoKernel, BackendKind::Firecracker),
        "Firecracker requires a Linux kernel via request.kernel or config.firecracker_kernel"
    );
    assert_eq!(
        say(LaunchError::NothingToBoot, BackendKind::CloudHypervisor),
        "Cloud Hypervisor needs req.kernel for direct boot or firmware/config cloud_hypervisor_firmware"
    );
    assert!(say(LaunchError::MacvtapUnsupported, BackendKind::Firecracker)
        .starts_with("Firecracker backend does not support macvtap: its API"));
    assert_eq!(say(LaunchError::MacvtapNotPrepared, BackendKind::Qemu), "macvtap network was not prepared");
    assert_eq!(say(LaunchError::TapNotPrepared, BackendKind::Qemu), "tap network was not prepared");
    assert_eq!(
        say(LaunchError::NoGuestCid, BackendKind::Firecracker),
        "agent enabled but no vsock CID was assigned"
    );
    assert_eq!(
        say(LaunchError::NoVsockSocket, BackendKind::Firecracker),
        "agent enabled but no vsock socket path was assigned"
    );
    assert_eq!(NetworkError::NameTooLong.message(), "tap interface name must be <= 15 characters");
}
