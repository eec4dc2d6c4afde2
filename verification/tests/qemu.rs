//! The command line of QEMU and the processes for its shared folders.

use ephemera::backend::{LaunchContext, LaunchError, PreparedNetwork};
use ephemera::config::Config;
use ephemera::model::{AgentSpec, BackendKind, CreateVmRequest, NetworkSpec, PortForward,
    SharedFolder, StorageBackend};
use ephemera::qemu::{build_args, launch_command, launched, virtiofsd_launch, Spawned,
    VirtiofsSocket, VirtiofsdSet};

fn req(memory_mib: u64) -> CreateVmRequest {
    CreateVmRequest {
        name: "fixture".into(),
        backend: BackendKind::Qemu,
        image: "/tmp/base.qcow2".into(),
        vcpus: 1,
        memory_mib,
        disk_size_gib: None,
        kernel: None,
        initrd: None,
        firmware: None,
        kernel_args: None,
        network: NetworkSpec::Unconnected,
        cloud_init: None,
        ttl_seconds: None,
        extra_args: vec![],
        agent: None,
        storage: StorageBackend::Default,
        shared_folders: vec![],
    }
}

fn ctx() -> LaunchContext {
    LaunchContext {
        id: 0,
        workspace: "/tmp/eph-fixture".into(),
        disk: "/tmp/eph-fixture/root.qcow2".into(),
        seed_disk: None,
        log_path: "/tmp/eph-fixture/console.log".into(),
        network: PreparedNetwork {
            spec: NetworkSpec::Unconnected,
            tap_name: None,
            macvtap_fd: None,
            netns: None,
        },
        guest_cid: None,
        vsock_socket: None,
        disk_format: "qcow2".into(),
        nbd_export: None,
    }
}

#[test]
fn no_shares_means_no_virtiofs_args() {
    let args = build_args(&req(2048), &ctx(), &vec![]).unwrap();
    assert!(!args.iter().any(|a| a.contains("memory-backend-memfd")));
    assert!(!args.iter().any(|a| a.contains("vhost-user-fs-pci")));
    assert!(args.iter().any(|a| a == "2048"));
}

#[test]
fn shares_add_shared_memory_backend_and_one_device_per_share() {
    let sockets: Vec<VirtiofsSocket> = vec![
        ("fs0".to_string(), "/tmp/eph-fixture/virtiofs-0.sock".into()),
        ("fs1".to_string(), "/tmp/eph-fixture/virtiofs-1.sock".into()),
    ];
    let args = build_args(&req(4096), &ctx(), &sockets).unwrap();
    let joined = args.join(" ");
    assert!(joined.contains("memory-backend-memfd,id=mem,size=4096M,share=on"));
    assert!(joined.contains("numa node,memdev=mem"));
    assert!(joined.contains("chardev=vfsock0,tag=fs0"));
    assert!(joined.contains("chardev=vfsock1,tag=fs1"));
    assert_eq!(
        args.iter()
            .filter(|a| a.as_str() == "vhost-user-fs-pci,queue-size=1024,chardev=vfsock0,tag=fs0")
            .count(),
        1
    );
}

#[test]
fn the_whole_command_line() {
    let mut r = req(512);
    r.vcpus = 3;
    r.kernel = Some("/boot/vmlinuz".into());
    r.initrd = Some("/boot/initrd".into());
    r.kernel_args = Some("quiet".into());
    r.extra_args = vec!["-snapshot".into()];
    r.agent = Some(AgentSpec { enabled: true, port: 17777, token: None });
    let mut c = ctx();
    c.seed_disk = Some("/tmp/eph-fixture/seed.img".into());
    c.guest_cid = Some(7);
    c.network.spec = NetworkSpec::User {
        forwards: vec![
            PortForward { host_port: 2222, guest_port: 22, protocol: "tcp".into() },
            PortForward { host_port: 53, guest_port: 53, protocol: "udp".into() },
        ],
    };
    let args = build_args(&r, &c, &vec![]).unwrap();
    assert_eq!(
        args,
        vec![
            "-enable-kvm", "-machine", "q35,accel=kvm", "-cpu", "host", "-smp", "3", "-m", "512",
            "-nodefaults", "-display", "none", "-vnc", "unix:/tmp/eph-fixture/vnc.sock",
            "-serial", "stdio", "-drive",
            "file=/tmp/eph-fixture/root.qcow2,if=virtio,format=qcow2,cache=none,aio=native",
            "-drive", "file=/tmp/eph-fixture/seed.img,if=virtio,format=raw,readonly=on",
            "-netdev",
            "user,id=net0,hostfwd=tcp:0.0.0.0:2222-:22,hostfwd=udp:0.0.0.0:53-:53",
            "-device", "virtio-net-pci,netdev=net0",
            "-device", "vhost-vsock-pci,guest-cid=7",
            "-kernel", "/boot/vmlinuz", "-initrd", "/boot/initrd", "-append", "quiet",
            "-qmp", "unix:/tmp/eph-fixture/qmp.sock,server=on,wait=off",
            "-snapshot",
        ]
    );
}

#[test]
fn an_nbd_export_takes_the_place_of_the_disk() {
    let mut c = ctx();
    c.nbd_export = Some("/run/x.sock".into());
    let args = build_args(&req(512), &c, &vec![]).unwrap();
    assert!(args.iter().any(|a| a == "file=nbd:unix:/run/x.sock,if=virtio,format=raw"));
    assert!(!args.iter().any(|a| a.contains("root.qcow2")));
}

#[test]
fn tap_and_macvtap_devices() {
    let mut c = ctx();
    c.network.spec = NetworkSpec::Tap { tap_name: Some("eph0".into()), bridge: None, mac: Some("06:00".into()) };
    let args = build_args(&req(512), &c, &vec![]).unwrap();
    assert!(args.iter().any(|a| a == "tap,id=net0,ifname=eph0,script=no,downscript=no"));
    assert!(args.iter().any(|a| a == "virtio-net-pci,netdev=net0,mac=06:00"));
    c.network.spec = NetworkSpec::Macvtap { parent: "eth0".into(), macvtap_mode: None, mac: None };
    assert_eq!(build_args(&req(512), &c, &vec![]).err(), Some(LaunchError::MacvtapNotPrepared));
    c.network.macvtap_fd = Some(9);
    let args = build_args(&req(512), &c, &vec![]).unwrap();
    assert!(args.iter().any(|a| a == "tap,id=net0,fd=9"));
}

#[test]
fn a_namespace_wraps_the_command() {
    let cfg = Config::default();
    let mut c = ctx();
    let plain = launch_command(&cfg, &req(512), &c, &vec![]).unwrap();
    assert_eq!(plain.program, "qemu-system-x86_64");
    assert_eq!(plain.args[0], "-enable-kvm");
    c.network.netns = Some("eph-1".into());
    let wrapped = launch_command(&cfg, &req(512), &c, &vec![]).unwrap();
    assert_eq!(wrapped.program, "ip");
    assert_eq!(&wrapped.args[..5], &["netns", "exec", "eph-1", "qemu-system-x86_64", "-enable-kvm"]);
    assert_eq!(&wrapped.args[4..], &plain.args[..]);
}

#[test]
fn shared_folders_start_in_order_and_stop_together() {
    let cfg = Config::default();
    let shares = [
        SharedFolder { host_path: "/srv/a".into(), read_only: true },
        SharedFolder { host_path: "/srv/b".into(), read_only: false },
    ];
    let first = virtiofsd_launch(&cfg, "/w", &shares[0], 0);
    assert_eq!(first.command.program, "virtiofsd");
    assert_eq!(
        first.command.args,
        vec!["--socket-path", "/w/virtiofs-0.sock", "--shared-dir", "/srv/a", "--readonly"]
    );
    assert_eq!(first.log, "/w/virtiofsd-0.log");
    let set = VirtiofsdSet::new().started(first, Spawned::Running(41)).ok().unwrap();
    let second = virtiofsd_launch(&cfg, "/w", &shares[1], 1);
    assert_eq!(second.command.args.len(), 4);
    let set = set.started(second, Spawned::Running(42)).ok().unwrap();
    assert_eq!(set.pids, vec![41, 42]);
    assert_eq!(
        set.sockets,
        vec![
            ("fs0".to_string(), "/w/virtiofs-0.sock".to_string()),
            ("fs1".to_string(), "/w/virtiofs-1.sock".to_string()),
        ]
    );
    let third = virtiofsd_launch(&cfg, "/w", &shares[1], 2);
    assert_eq!(set.started(third, Spawned::NotStarted).err(), Some(vec![41, 42]));
}

#[test]
fn a_launch_that_fails_leaves_no_virtiofsd() {
    let c = ctx();
    assert_eq!(launched(&c, Spawned::NotStarted, vec![1, 2]).err(), Some(vec![1, 2]));
    assert_eq!(launched(&c, Spawned::Gone, vec![3]).err(), Some(vec![3]));
    let ok = launched(&c, Spawned::Running(9), vec![1]).unwrap();
    assert_eq!(ok.pid, 9);
    assert_eq!(ok.control_socket.as_deref(), Some("/tmp/eph-fixture/qmp.sock"));
    assert_eq!(ok.virtiofsd_pids, vec![1]);
}
