//! Settings of the control plane: paths, programs, admission limits and API
//! tokens.

use crate::model::BackendKind;
use vstd::prelude::*;
use vstd::utf8;

verus! {

#[derive(Debug)]
pub struct Config {
    pub listen: String,
    pub state_dir: String,
    pub run_dir: String,
    pub qemu_binary: String,
    pub qemu_img_binary: String,
    pub virtiofsd_binary: String,
    pub cloud_hypervisor_binary: String,
    pub ch_remote_binary: String,
    pub cloud_localds_binary: String,
    pub virt_customize_binary: String,
    pub firecracker_binary: String,
    pub firecracker_kernel: Option<String>,
    pub cloud_hypervisor_firmware: Option<String>,
    pub default_bridge: Option<String>,
    pub reaper_interval_secs: u64,
    pub policy: Policy,
    pub auth: AuthConfig,
}

/// Limits that a request has to keep. A limit that is not set restricts
/// nothing.
#[derive(Debug)]
pub struct Policy {
    pub max_vcpus: Option<u8>,
    pub max_memory_mib: Option<u64>,
    pub max_disk_gib: Option<u64>,
    /// If set, a request has to name a lifetime, and one at or below this.
    pub max_ttl_seconds: Option<u64>,
    /// If set, the only backends that may be used. The backend is checked
    /// after `Auto` has been resolved.
    pub allowed_backends: Option<Vec<BackendKind>>,
    /// If set, the image has to lie under one of these directories. This
    /// compares path components and does not follow links.
    pub allowed_image_dirs: Option<Vec<String>>,
}

/// What the holder of a token may do.
#[derive(Debug, Clone, Copy, PartialEq, Eq, Structural)]
pub enum Role {
    Admin,
    ReadOnly,
}

#[derive(Debug)]
pub struct ApiToken {
    pub token: String,
    pub role: Role,
    pub name: Option<String>,
}

/// The tokens that the API accepts. With none, the API asks for none.
#[derive(Debug)]
pub struct AuthConfig {
    pub tokens: Vec<ApiToken>,
}

impl Policy {
    /// No limit is set.
    pub open spec fn unrestricted(self) -> bool {
        &&& self.max_vcpus is None
        &&& self.max_memory_mib is None
        &&& self.max_disk_gib is None
        &&& self.max_ttl_seconds is None
        &&& self.allowed_backends is None
        &&& self.allowed_image_dirs is None
    }
}

impl Default for Policy {
    fn default() -> (r: Self)
        ensures
            r.unrestricted(),
    {
        Policy {
            max_vcpus: None,
            max_memory_mib: None,
            max_disk_gib: None,
            max_ttl_seconds: None,
            allowed_backends: None,
            allowed_image_dirs: None,
        }
    }
}

impl Default for AuthConfig {
    fn default() -> (r: Self)
        ensures
            r.tokens@.len() == 0,
    {
        AuthConfig { tokens: Vec::new() }
    }
}

impl Default for Config {
    fn default() -> (r: Self)
        ensures
            r.listen@ == "127.0.0.1:7788"@,
            r.state_dir@ == "/var/lib/ephemera"@,
            r.run_dir@ == "/run/ephemera"@,
            r.qemu_binary@ == "qemu-system-x86_64"@,
            r.qemu_img_binary@ == "qemu-img"@,
            r.virtiofsd_binary@ == "virtiofsd"@,
            r.cloud_hypervisor_binary@ == "cloud-hypervisor"@,
            r.ch_remote_binary@ == "ch-remote"@,
            r.cloud_localds_binary@ == "cloud-localds"@,
            r.virt_customize_binary@ == "virt-customize"@,
            r.firecracker_binary@ == "firecracker"@,
            r.firecracker_kernel is None,
            r.cloud_hypervisor_firmware is None,
            r.default_bridge is Some,
            r.default_bridge->0@ == "vmbr0"@,
            r.reaper_interval_secs == 5,
            r.policy.unrestricted(),
            r.auth.tokens@.len() == 0,
    {
        Config {
            listen: "127.0.0.1:7788".to_owned(),
            state_dir: "/var/lib/ephemera".to_owned(),
            run_dir: "/run/ephemera".to_owned(),
            qemu_binary: "qemu-system-x86_64".to_owned(),
            qemu_img_binary: "qemu-img".to_owned(),
            virtiofsd_binary: "virtiofsd".to_owned(),
            cloud_hypervisor_binary: "cloud-hypervisor".to_owned(),
            ch_remote_binary: "ch-remote".to_owned(),
            cloud_localds_binary: "cloud-localds".to_owned(),
            virt_customize_binary: "virt-customize".to_owned(),
            firecracker_binary: "firecracker".to_owned(),
            firecracker_kernel: None,
            cloud_hypervisor_firmware: None,
            default_bridge: Some("vmbr0".to_owned()),
            reaper_interval_secs: 5,
            policy: Policy::default(),
            auth: AuthConfig::default(),
        }
    }
}

/// Whether two secrets are the same, found out by looking at every byte of
/// them however early they differ.
pub fn constant_time_eq(a: &str, b: &str) -> (r: bool)
    ensures
        r == (a@ == b@),
{
    let x = a.as_bytes();
    let y = b.as_bytes();
    proof {
        utf8::encode_utf8_decode_utf8(a@);
        utf8::encode_utf8_decode_utf8(b@);
    }
    if x.len() != y.len() {
        return false;
    }
    let mut diff: u8 = 0;
    let mut i: usize = 0;
    while i < x.len()
        invariant
            i <= x@.len() == y@.len(),
            diff == 0 <==> forall|j: int| 0 <= j < i ==> x@[j] == y@[j],
        decreases x@.len() - i,
    {
        let p: u8 = x[i];
        let q: u8 = y[i];
        proof {
            assert((diff | (p ^ q)) == 0 <==> (diff == 0 && p == q)) by (bit_vector);
        }
        diff = diff | (p ^ q);
        i += 1;
    }
    proof {
        if diff == 0 {
            assert(x@ =~= y@);
        }
    }
    diff == 0
}

} // verus!
