//! Decision logic of a Firecracker-only Kata guest agent and of the host
//! libraries it shares, with machine-checked contracts.
pub mod agent_config;
pub mod annotations;
pub mod cgroups;
pub mod codegen;
pub mod container;
pub mod copy_file;
pub mod create;
pub mod cpu;
pub mod device;
pub mod device_policy;
pub mod guest_io;
pub mod hypervisor;
pub mod init_child;
pub mod k8s;
pub mod laws;
pub mod mount;
pub mod oci;
pub mod path;
pub mod process_setup;
pub mod rpc;
pub mod sandbox;
pub mod shared_mounts;
pub mod shim;
pub mod signal;
pub mod start;
pub mod storage;
pub mod strmap;
pub mod sync;
pub mod text;
pub mod trace;
pub mod volume;
