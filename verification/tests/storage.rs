//! Records of machines and of pools.

use ephemera::clock::Timestamp;
use ephemera::model::{AgentSpec, BackendKind, CreateVmRequest, NetworkSpec, PoolRecord,
    StorageBackend, VmRecord, VmStatus};
use ephemera::storage::{CidsExhausted, PoolStore, Store};

fn request() -> CreateVmRequest {
    CreateVmRequest {
        name: "r".into(),
        backend: BackendKind::Qemu,
        image: "/i".into(),
        vcpus: 1,
        memory_mib: 512,
        disk_size_gib: None,
        kernel: None,
        initrd: None,
        firmware: None,
        kernel_args: None,
        network: NetworkSpec::Unconnected,
        cloud_init: None,
        ttl_seconds: None,
        extra_args: vec![],
        agent: Some(AgentSpec::default()),
        storage: StorageBackend::Default,
        shared_folders: vec![],
    }
}

fn vm(id: u128, secs: i64, nanos: u32) -> VmRecord {
    VmRecord {
        id,
        name: format!("vm-{id}"),
        backend: BackendKind::Qemu,
        status: VmStatus::Running,
        pid: None,
        created_at: Timestamp { secs, nanos },
        expires_at: None,
        workspace: "/w".into(),
        disk: "/w/root.qcow2".into(),
        seed_disk: None,
        tap_name: None,
        control_socket: None,
        log_path: "/w/console.log".into(),
        error: None,
        request: request(),
        guest_cid: None,
        jail_path: None,
        vsock_socket: None,
        cgroup_path: None,
        netns: None,
        lvm_lv: None,
        nbd_pid: None,
    }
}

fn ids(list: Vec<VmRecord>) -> Vec<u128> {
    list.into_iter().map(|v| v.id).collect()
}

#[test]
fn what_is_kept_is_found() {
    let mut s = Store::load("/var/lib/ephemera", vec![]);
    assert!(s.get(1).is_none());
    s.insert(vm(1, 5, 0));
    s.insert(vm(2, 6, 0));
    assert_eq!(s.get(1).unwrap().name, "vm-1");
    let mut changed = vm(1, 5, 0);
    changed.name = "other".into();
    s.update(changed);
    assert_eq!(s.get(1).unwrap().name, "other");
    assert_eq!(s.get(2).unwrap().name, "vm-2");
    assert_eq!(s.remove(1).unwrap().name, "other");
    assert!(s.remove(1).is_none());
    assert_eq!(ids(s.list()), vec![2]);
}

#[test]
fn listings_are_ordered_by_age() {
    let entries = vec![
        (3, vm(3, 30, 0)),
        (1, vm(1, 10, 999)),
        (4, vm(4, -1, 5)),
        (2, vm(2, 10, 1)),
        (5, vm(5, 30, 1)),
    ];
    let s = Store::load("/s", entries);
    assert_eq!(ids(s.list()), vec![4, 2, 1, 3, 5]);
}

#[test]
fn later_entries_of_a_file_count() {
    let mut second = vm(1, 0, 0);
    second.name = "second".into();
    let s = Store::load("/s", vec![(1, vm(1, 0, 0)), (1, second)]);
    assert_eq!(s.list().len(), 1);
    assert_eq!(s.get(1).unwrap().name, "second");
}

#[test]
fn the_file_and_its_temporary() {
    let s = Store::load("/var/lib/ephemera", vec![]);
    assert_eq!(s.path(), "/var/lib/ephemera/vms.json");
    assert_eq!(s.temporary_path(), "/var/lib/ephemera/vms.json.tmp");
}

#[test]
fn addresses_are_unique_and_reused() {
    let mut s = Store::load("/s", vec![]);
    let a = s.insert_with_cid(vm(1, 0, 0), true, 3).unwrap();
    let b = s.insert_with_cid(vm(2, 0, 0), true, 3).unwrap();
    let c = s.insert_with_cid(vm(3, 0, 0), false, 3).unwrap();
    assert_eq!((a.guest_cid, b.guest_cid, c.guest_cid), (Some(3), Some(4), None));
    s.remove(1);
    let d = s.insert_with_cid(vm(4, 0, 0), true, 3).unwrap();
    assert_eq!(d.guest_cid, Some(3));
    assert_eq!(s.get(4).unwrap().guest_cid, Some(3));
    assert_eq!(s.get(3).unwrap().guest_cid, None);
}

#[test]
fn addresses_run_out() {
    let mut s = Store::load("/s", vec![]);
    let last = s.insert_with_cid(vm(1, 0, 0), true, u32::MAX - 1).unwrap();
    assert_eq!(last.guest_cid, Some(u32::MAX - 1));
    let next = s.insert_with_cid(vm(2, 0, 0), true, u32::MAX - 1);
    assert_eq!(next.err(), Some(CidsExhausted));
    assert!(s.get(2).is_none());
}

fn pool(name: &str, members: Vec<u128>) -> PoolRecord {
    PoolRecord { name: name.into(), size: 3, template: request(), members }
}

#[test]
fn pools_by_name() {
    let mut p = PoolStore::load(vec![pool("a", vec![1]), pool("b", vec![]), pool("a", vec![7, 8])]);
    assert_eq!(p.list().len(), 2);
    assert_eq!(p.get("a").unwrap().members, vec![7, 8]);
    assert!(p.get("c").is_none());
    p.insert(pool("c", vec![9]));
    assert_eq!(p.list().len(), 3);
    assert_eq!(p.remove("b").unwrap().name, "b");
    assert!(p.remove("b").is_none());
    let names: Vec<String> = p.list().into_iter().map(|r| r.name).collect();
    assert_eq!(names, vec!["a", "c"]);
}

#[test]
fn members_come_and_go() {
    let mut p = PoolStore::load(vec![pool("a", vec![])]);
    assert_eq!(p.pop_member("a"), None);
    assert_eq!(p.pop_member("missing"), None);
    assert!(p.push_member("a", 1));
    assert!(p.push_member("a", 2));
    assert!(!p.push_member("missing", 3));
    assert_eq!(p.pop_member("a"), Some(2));
    assert_eq!(p.get("a").unwrap().members, vec![1]);
    assert_eq!(p.pop_member("a"), Some(1));
    assert_eq!(p.pop_member("a"), None);
}

#[test]
fn what_is_written_is_read_again() {
    let mut s = Store::load("/s", vec![]);
    assert!(s.entries().is_empty());
    s.insert(vm(1, 5, 0));
    s.insert(vm(2, 4, 0));
    s.insert(vm(3, 6, 0));
    s.remove(2);
    let again = Store::load("/s", s.entries());
    assert_eq!(ids(again.list()), vec![1, 3]);
    assert_eq!(again.get(3).unwrap().name, "vm-3");
    let listed: Vec<(u128, VmRecord)> = s.list().into_iter().map(|vm| (vm.id, vm)).collect();
    assert_eq!(ids(Store::load("/s", listed).list()), vec![1, 3]);
    let odd = Store::load("/s", vec![(9, vm(1, 0, 0))]);
    let (key, record) = odd.entries().pop().unwrap();
    assert_eq!((key, record.id), (9, 1));
}
