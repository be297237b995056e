//! The parts of an OCI runtime configuration that the agent's decisions read.
use vstd::prelude::*;

use crate::text::str_eq;

verus! {

/// A Linux namespace type.
#[derive(Clone, Copy, Debug, PartialEq, Eq, Structural)]
pub enum NamespaceType {
    Mount,
    Cgroup,
    Uts,
    Ipc,
    User,
    Pid,
    Network,
    Time,
}

/// The short name of a namespace type, as it appears under `/proc/<pid>/ns`.
pub open spec fn namespace_name_of(typ: NamespaceType) -> Seq<char> {
    match typ {
        NamespaceType::Mount => "mnt"@,
        NamespaceType::Cgroup => "cgroup"@,
        NamespaceType::Uts => "uts"@,
        NamespaceType::Ipc => "ipc"@,
        NamespaceType::User => "user"@,
        NamespaceType::Pid => "pid"@,
        NamespaceType::Network => "net"@,
        NamespaceType::Time => "time"@,
    }
}

/// `oci_spec::runtime::LinuxNamespaceType` writes itself as the short name of the
/// type: lower case, with `mnt` for the mount and `net` for the network type.
#[verifier::external_body]
pub(crate) fn namespace_name(typ: NamespaceType) -> (r: String)
    ensures
        r@ == namespace_name_of(typ),
{
    let outside = match typ {
        NamespaceType::Mount => oci_spec::runtime::LinuxNamespaceType::Mount,
        NamespaceType::Cgroup => oci_spec::runtime::LinuxNamespaceType::Cgroup,
        NamespaceType::Uts => oci_spec::runtime::LinuxNamespaceType::Uts,
        NamespaceType::Ipc => oci_spec::runtime::LinuxNamespaceType::Ipc,
        NamespaceType::User => oci_spec::runtime::LinuxNamespaceType::User,
        NamespaceType::Pid => oci_spec::runtime::LinuxNamespaceType::Pid,
        NamespaceType::Network => oci_spec::runtime::LinuxNamespaceType::Network,
        NamespaceType::Time => oci_spec::runtime::LinuxNamespaceType::Time,
    };
    outside.to_string()
}

/// A namespace that a container joins, or creates where it has no path.
#[derive(Debug)]
pub struct LinuxNamespace {
    pub typ: NamespaceType,
    pub path: Option<String>,
}

impl LinuxNamespace {
    /// Whether the namespace exists already and is joined by its path.
    pub open spec fn joins(self) -> bool {
        self.path is Some && self.path->0@.len() > 0
    }

    /// Tells whether the namespace is joined by its path.
    pub fn has_path(&self) -> (r: bool)
        ensures
            r == self.joins(),
    {
        match &self.path {
            Some(p) => !p.as_str().is_empty(),
            None => false,
        }
    }

    /// An equal value.
    pub fn copy(&self) -> (r: LinuxNamespace)
        ensures
            r == *self,
    {
        LinuxNamespace {
            typ: self.typ,
            path: match &self.path {
                Some(p) => Some(p.clone()),
                None => None,
            },
        }
    }
}

/// One line of a user or group id mapping.
#[derive(Clone, Copy, Debug, PartialEq, Eq, Structural)]
pub struct LinuxIdMapping {
    pub container_id: u32,
    pub host_id: u32,
    pub size: u32,
}

/// A device type of the configuration.
#[derive(Clone, Copy, Debug, PartialEq, Eq, Structural)]
pub enum DeviceType {
    /// All devices.
    A,
    /// Block device.
    B,
    /// Character device.
    C,
    /// Unbuffered character device.
    U,
    /// Named pipe.
    P,
}

/// A device node that the container gets.
#[derive(Debug)]
pub struct LinuxDevice {
    pub path: String,
    pub typ: DeviceType,
    pub major: i64,
    pub minor: i64,
    pub file_mode: Option<u32>,
    pub uid: Option<u32>,
    pub gid: Option<u32>,
}

/// A rule of the device controller.
#[derive(Debug)]
pub struct LinuxDeviceCgroup {
    pub allow: bool,
    pub typ: Option<DeviceType>,
    pub major: Option<i64>,
    pub minor: Option<i64>,
    pub access: Option<String>,
}

/// CPU limits.
#[derive(Debug)]
pub struct LinuxCpu {
    pub shares: Option<u64>,
    pub quota: Option<i64>,
    pub period: Option<u64>,
    pub realtime_runtime: Option<i64>,
    pub realtime_period: Option<u64>,
    pub cpus: Option<String>,
    pub mems: Option<String>,
}

/// Memory limits.
#[derive(Clone, Copy, Debug, PartialEq, Eq, Structural)]
pub struct LinuxMemory {
    pub limit: Option<i64>,
    pub reservation: Option<i64>,
    pub swap: Option<i64>,
    pub kernel: Option<i64>,
    pub kernel_tcp: Option<i64>,
    pub swappiness: Option<u64>,
    pub disable_oom_killer: Option<bool>,
}

/// Weights of one block device.
#[derive(Clone, Copy, Debug, PartialEq, Eq, Structural)]
pub struct LinuxWeightDevice {
    pub major: i64,
    pub minor: i64,
    pub weight: Option<u16>,
    pub leaf_weight: Option<u16>,
}

/// A rate limit of one block device.
#[derive(Clone, Copy, Debug, PartialEq, Eq, Structural)]
pub struct LinuxThrottleDevice {
    pub major: i64,
    pub minor: i64,
    pub rate: u64,
}

/// Block device limits.
#[derive(Debug)]
pub struct LinuxBlockIo {
    pub weight: Option<u16>,
    pub leaf_weight: Option<u16>,
    pub weight_device: Option<Vec<LinuxWeightDevice>>,
    pub throttle_read_bps_device: Option<Vec<LinuxThrottleDevice>>,
    pub throttle_write_bps_device: Option<Vec<LinuxThrottleDevice>>,
    pub throttle_read_iops_device: Option<Vec<LinuxThrottleDevice>>,
    pub throttle_write_iops_device: Option<Vec<LinuxThrottleDevice>>,
}

/// A limit on huge pages of one size.
#[derive(Debug)]
pub struct LinuxHugepageLimit {
    pub page_size: String,
    pub limit: i64,
}

/// A network priority of one interface.
#[derive(Debug)]
pub struct LinuxInterfacePriority {
    pub name: String,
    pub priority: u32,
}

/// Network limits.
#[derive(Debug)]
pub struct LinuxNetwork {
    pub class_id: Option<u32>,
    pub priorities: Option<Vec<LinuxInterfacePriority>>,
}

/// The resource limits of a container.
#[derive(Debug)]
pub struct LinuxResources {
    pub devices: Option<Vec<LinuxDeviceCgroup>>,
    pub memory: Option<LinuxMemory>,
    pub cpu: Option<LinuxCpu>,
    pub pids: Option<i64>,
    pub block_io: Option<LinuxBlockIo>,
    pub hugepage_limits: Option<Vec<LinuxHugepageLimit>>,
    pub network: Option<LinuxNetwork>,
}

impl LinuxResources {
    /// Resources without any limit.
    pub fn unlimited() -> (r: LinuxResources)
        ensures
            r.devices is None && r.memory is None && r.cpu is None && r.pids is None && r.block_io
                is None && r.hugepage_limits is None && r.network is None,
    {
        LinuxResources {
            devices: None,
            memory: None,
            cpu: None,
            pids: None,
            block_io: None,
            hugepage_limits: None,
            network: None,
        }
    }
}

/// The Linux section of a configuration.
#[derive(Debug)]
pub struct Linux {
    pub namespaces: Option<Vec<LinuxNamespace>>,
    pub uid_mappings: Option<Vec<LinuxIdMapping>>,
    pub gid_mappings: Option<Vec<LinuxIdMapping>>,
    pub devices: Option<Vec<LinuxDevice>>,
    pub resources: Option<LinuxResources>,
    pub cgroups_path: Option<String>,
    pub sysctl: Option<Vec<(String, String)>>,
    /// Whether a seccomp profile is configured.
    pub seccomp: bool,
}

impl Linux {
    /// An empty section.
    pub fn empty() -> (r: Linux)
        ensures
            r.namespaces is None && r.uid_mappings is None && r.gid_mappings is None && r.devices
                is None && r.resources is None && r.cgroups_path is None && r.sysctl is None
                && !r.seccomp,
    {
        Linux {
            namespaces: None,
            uid_mappings: None,
            gid_mappings: None,
            devices: None,
            resources: None,
            cgroups_path: None,
            sysctl: None,
            seccomp: false,
        }
    }

    /// The namespaces of the container; none where the list is absent.
    pub open spec fn namespace_list(self) -> Seq<LinuxNamespace> {
        match self.namespaces {
            Some(v) => v@,
            None => Seq::empty(),
        }
    }
}

/// The capability sets of a process: bit `n` of a set stands for capability `n`.
#[derive(Clone, Copy, Debug, PartialEq, Eq, Structural)]
pub struct Capabilities {
    pub bounding: u64,
    pub effective: u64,
    pub inheritable: u64,
    pub permitted: u64,
    pub ambient: u64,
}

/// A resource limit of a process.
#[derive(Debug)]
pub struct Rlimit {
    pub typ: String,
    pub soft: u64,
    pub hard: u64,
}

/// The user that a process runs as.
#[derive(Debug)]
pub struct User {
    pub uid: u32,
    pub gid: u32,
    pub additional_gids: Option<Vec<u32>>,
}

/// A process of the configuration.
#[derive(Debug)]
pub struct Process {
    pub terminal: Option<bool>,
    pub user: User,
    pub args: Option<Vec<String>>,
    pub env: Option<Vec<String>>,
    pub cwd: String,
    pub capabilities: Option<Capabilities>,
    pub rlimits: Option<Vec<Rlimit>>,
    pub no_new_privileges: Option<bool>,
    pub selinux_label: Option<String>,
    pub oom_score_adj: Option<i32>,
}

impl Process {
    /// Whether the process may not gain privileges.
    pub open spec fn locked(self) -> bool {
        self.no_new_privileges == Some(true)
    }

    /// Whether the process has a SELinux label.
    pub open spec fn labelled(self) -> bool {
        self.selinux_label is Some && self.selinux_label->0@.len() > 0
    }
}

/// The root filesystem of a container.
#[derive(Debug)]
pub struct Root {
    pub path: String,
    pub readonly: bool,
}

/// A mount of the configuration.
#[derive(Debug)]
pub struct OciMount {
    pub destination: String,
    pub typ: Option<String>,
    pub source: Option<String>,
    pub options: Option<Vec<String>>,
}

/// A container configuration.
#[derive(Debug)]
pub struct Spec {
    pub root: Option<Root>,
    pub mounts: Option<Vec<OciMount>>,
    pub process: Option<Process>,
    pub hostname: Option<String>,
    pub annotations: Option<Vec<(String, String)>>,
    pub linux: Option<Linux>,
}

impl Spec {
    /// An empty configuration.
    pub fn empty() -> (r: Spec)
        ensures
            r.root is None && r.mounts is None && r.process is None && r.hostname is None
                && r.annotations is None && r.linux is None,
    {
        Spec {
            root: None,
            mounts: None,
            process: None,
            hostname: None,
            annotations: None,
            linux: None,
        }
    }

    /// The value of an annotation.
    pub open spec fn annotation_of(self, key: Seq<char>) -> Option<Seq<char>> {
        match self.annotations {
            None => None,
            Some(v) => value_of(v@, key),
        }
    }

    /// The value of an annotation.
    pub fn annotation(&self, key: &str) -> (r: Option<&String>)
        ensures
            match r {
                Some(s) => self.annotation_of(key@) == Some(s@),
                None => self.annotation_of(key@) is None,
            },
    {
        match &self.annotations {
            None => None,
            Some(v) => {
                let mut i: usize = 0;
                proof {
                    assert(v@.skip(0) =~= v@);
                }
                while i < v.len()
                    invariant
                        i <= v.len(),
                        value_of(v@, key@) == value_of(v@.skip(i as int), key@),
                        self.annotation_of(key@) == value_of(v@, key@),
                    decreases v.len() - i,
                {
                    proof {
                        assert(v@.skip(i as int).skip(1) =~= v@.skip(i + 1));
                        assert(v@.skip(i as int)[0] == v@[i as int]);
                    }
                    if str_eq(v[i].0.as_str(), key) {
                        return Some(&v[i].1);
                    }
                    i += 1;
                }
                None
            },
        }
    }
}

/// The value of the first entry with a key.
pub open spec fn value_of(entries: Seq<(String, String)>, key: Seq<char>) -> Option<Seq<char>>
    decreases entries.len(),
{
    if entries.len() == 0 {
        None
    } else if entries[0].0@ == key {
        Some(entries[0].1@)
    } else {
        value_of(entries.skip(1), key)
    }
}

} // verus!
