//! Control plane of a disposable compute engine: short-lived virtual machines
//! under QEMU, Cloud Hypervisor and Firecracker.

pub mod api;
pub mod backend;
pub mod clock;
pub mod cloud_hypervisor;
pub mod cloudinit;
pub mod config;
pub mod create;
pub mod draw;
pub mod firecracker;
pub mod guest_agent;
pub mod http;
pub mod ids;
pub mod image;
pub mod json;
pub mod model;
pub mod netns;
pub mod network;
pub mod paths;
pub mod plan;
pub mod policy;
pub mod process;
pub mod protocol;
pub mod qemu;
pub mod qmp;
pub mod scan;
pub mod scheduler;
pub mod stop;
pub mod storage;
pub mod text;
pub mod vsock;
pub mod warm;
