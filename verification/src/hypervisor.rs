//! The configuration of the runtime and of its only hypervisor.
use vstd::prelude::*;

use crate::strmap::StrMap;
use crate::text::{decimal, push_u64, str_eq};

verus! {

/// The name of the only hypervisor.
pub const HYPERVISOR_NAME_FIRECRACKER: &'static str = "firecracker";

/// The driver of block devices on MMIO.
pub const VIRTIO_BLK_MMIO: &'static str = "virtio-blk-mmio";

pub const DEFAULT_AGENT_VSOCK_PORT: u32 = 1024;

pub const DEFAULT_AGENT_LOG_PORT: u32 = 1025;

pub const DEFAULT_PASSFD_LISTENER_PORT: u32 = 1027;

pub const DEFAULT_AGENT_DIAL_TIMEOUT_MS: u32 = 10;

pub const DEFAULT_INTERNETWORKING_MODEL: &'static str = "tcfilter";

pub const DEFAULT_BLOCK_DEVICE_TYPE: &'static str = "virtio-blk-mmio";

pub const DEFAULT_VHOST_USER_STORE_PATH: &'static str = "/var/run/vhost-user";

pub const DEFAULT_BLOCK_NVDIMM_MEM_OFFSET: u64 = 0;

pub const DEFAULT_BLOCK_DEVICE_AIO_THREADS: &'static str = "threads";

pub const DEFAULT_BLOCK_DEVICE_AIO_NATIVE: &'static str = "native";

pub const DEFAULT_BLOCK_DEVICE_AIO: &'static str = "io_uring";

pub const DEFAULT_BLOCK_DEVICE_NUM_QUEUES: u32 = 1;

pub const DEFAULT_BLOCK_DEVICE_QUEUE_SIZE: u32 = 128;

pub const DEFAULT_GUEST_DNS_FILE: &'static str = "/etc/resolv.conf";

pub const DEFAULT_GUEST_VCPUS: u32 = 1;

pub const DEFAULT_FIRECRACKER_ENTROPY_SOURCE: &'static str = "/dev/urandom";

pub const DEFAULT_FIRECRACKER_MEMORY_SIZE_MB: u32 = 128;

pub const DEFAULT_FIRECRACKER_GUEST_KERNEL_IMAGE: &'static str = "vmlinux";

pub const DEFAULT_FIRECRACKER_GUEST_KERNEL_PARAMS: &'static str = "";

pub const MAX_FIRECRACKER_VCPUS: u32 = 32;

pub const MIN_FIRECRACKER_MEMORY_SIZE_MB: u32 = 128;

/// A number of virtual CPUs: a single-precision number in its IEEE 754 bits.
#[derive(Clone, Copy, Debug, PartialEq, Eq, Structural)]
pub struct Vcpus {
    pub bits: u32,
}

/// The bits of the largest number that is allowed.
pub const VCPU_LIMIT_BITS: u32 = 0x4200_0000;

/// The bits of the first whole number beyond the largest that is allowed.
pub const VCPU_BEYOND_BITS: u32 = 0x4204_0000;

/// The bits of positive infinity; larger ones are no numbers or negative.
pub const VCPU_INFINITY_BITS: u32 = 0x7f80_0000;

/// Whether a number is larger than the limit. Positive numbers are ordered as their
/// bits.
pub open spec fn over_limit(v: Vcpus) -> bool {
    VCPU_LIMIT_BITS < v.bits <= VCPU_INFINITY_BITS
}

/// Whether the whole part of a number is larger than the limit.
pub open spec fn whole_over_limit(v: Vcpus) -> bool {
    VCPU_BEYOND_BITS <= v.bits <= VCPU_INFINITY_BITS
}

/// How the guest boots.
#[derive(Debug)]
pub struct BootInfo {
    pub kernel: String,
    pub kernel_params: String,
    pub image: String,
    pub vm_rootfs_driver: String,
}

/// What limits a hypervisor for the sake of security.
#[derive(Debug)]
pub struct SecurityInfo {
    pub confidential_guest: bool,
    pub initdata: String,
    /// Patterns for the options that annotations may set.
    pub enable_annotations: Vec<String>,
}

/// The configuration of a hypervisor.
#[derive(Debug)]
pub struct Hypervisor {
    pub path: String,
    pub boot_info: BootInfo,
    pub block_device_driver: String,
    pub default_vcpus: Vcpus,
    pub default_maxvcpus: u32,
    pub default_memory: u32,
    pub entropy_source: String,
    pub security_info: SecurityInfo,
}

impl Hypervisor {
    /// A hypervisor of which nothing is said.
    pub fn empty() -> (r: Hypervisor)
        ensures
            r.path@.len() == 0,
            r.boot_info.kernel@.len() == 0,
            r.boot_info.kernel_params@.len() == 0,
            r.boot_info.image@.len() == 0,
            r.boot_info.vm_rootfs_driver@.len() == 0,
            r.block_device_driver@.len() == 0,
            r.default_vcpus.bits == 0,
            r.default_maxvcpus == 0,
            r.default_memory == 0,
            r.entropy_source@.len() == 0,
            !r.security_info.confidential_guest,
            r.security_info.initdata@.len() == 0,
            r.security_info.enable_annotations@.len() == 0,
    {
        Hypervisor {
            path: String::new(),
            boot_info: BootInfo {
                kernel: String::new(),
                kernel_params: String::new(),
                image: String::new(),
                vm_rootfs_driver: String::new(),
            },
            block_device_driver: String::new(),
            default_vcpus: Vcpus { bits: 0 },
            default_maxvcpus: 0,
            default_memory: 0,
            entropy_source: String::new(),
            security_info: SecurityInfo {
                confidential_guest: false,
                initdata: String::new(),
                enable_annotations: Vec::new(),
            },
        }
    }
}

/// The configuration of the agent.
#[derive(Debug)]
pub struct Agent {
    pub enable_tracing: bool,
}

/// The configuration of the runtime itself.
#[derive(Debug)]
pub struct Runtime {
    pub name: String,
    pub hypervisor_name: String,
    pub agent_name: String,
    pub enable_tracing: bool,
}

/// The whole configuration.
#[derive(Debug)]
pub struct TomlConfig {
    pub hypervisor: StrMap<Hypervisor>,
    pub agent: StrMap<Agent>,
    pub runtime: Runtime,
}

/// Why a configuration is refused.
#[derive(Debug)]
pub enum HypervisorError {
    /// A hypervisor of this name is not supported.
    UnsupportedHypervisor(String),
    /// A confidential guest or data for its start.
    Confidential,
    EmptyPath,
    /// The path of the hypervisor is no good, for this reason.
    InvalidPath(String),
    EmptyKernel,
    EmptyImage,
    /// Too many virtual CPUs; the most that are configured.
    TooManyVcpus(u32),
    TooLittleMemory,
}

/// A `HypervisorError` over sequences.
pub enum HypervisorFault {
    UnsupportedHypervisor(Seq<char>),
    Confidential,
    EmptyPath,
    InvalidPath(Seq<char>),
    EmptyKernel,
    EmptyImage,
    TooManyVcpus(u32),
    TooLittleMemory,
}

impl View for HypervisorError {
    type V = HypervisorFault;

    open spec fn view(&self) -> HypervisorFault {
        match *self {
            HypervisorError::UnsupportedHypervisor(s) => HypervisorFault::UnsupportedHypervisor(
                s@,
            ),
            HypervisorError::Confidential => HypervisorFault::Confidential,
            HypervisorError::EmptyPath => HypervisorFault::EmptyPath,
            HypervisorError::InvalidPath(s) => HypervisorFault::InvalidPath(s@),
            HypervisorError::EmptyKernel => HypervisorFault::EmptyKernel,
            HypervisorError::EmptyImage => HypervisorFault::EmptyImage,
            HypervisorError::TooManyVcpus(n) => HypervisorFault::TooManyVcpus(n),
            HypervisorError::TooLittleMemory => HypervisorFault::TooLittleMemory,
        }
    }
}

impl HypervisorFault {
    /// The text of the error.
    pub open spec fn text(self) -> Seq<char> {
        match self {
            HypervisorFault::UnsupportedHypervisor(s) => "kata-fc: unsupported hypervisor "@ + s,
            HypervisorFault::Confidential =>
                "kata-fc: confidential guests and initdata are unsupported"@,
            HypervisorFault::EmptyPath => "Firecracker path is empty"@,
            HypervisorFault::InvalidPath(s) => s,
            HypervisorFault::EmptyKernel => "Guest kernel image for firecracker is empty"@,
            HypervisorFault::EmptyImage =>
                "Both guest boot image and initrd for firecracker are empty"@,
            HypervisorFault::TooManyVcpus(n) => "Firecracker hypervisor can not support "@ + decimal(
                n as nat,
            ) + " vCPUs"@,
            HypervisorFault::TooLittleMemory =>
                "Firecracker hypervisor has minimal memory limitation 128"@,
        }
    }
}

impl HypervisorError {
    /// The text of the error.
    pub fn message(&self) -> (r: String)
        ensures
            r@ == self@.text(),
    {
        match self {
            HypervisorError::UnsupportedHypervisor(s) => {
                let mut t = "kata-fc: unsupported hypervisor ".to_owned();
                t.append(s.as_str());
                t
            },
            HypervisorError::Confidential =>
                "kata-fc: confidential guests and initdata are unsupported".to_owned(),
            HypervisorError::EmptyPath => "Firecracker path is empty".to_owned(),
            HypervisorError::InvalidPath(s) => s.clone(),
            HypervisorError::EmptyKernel =>
                "Guest kernel image for firecracker is empty".to_owned(),
            HypervisorError::EmptyImage =>
                "Both guest boot image and initrd for firecracker are empty".to_owned(),
            HypervisorError::TooManyVcpus(n) => {
                let mut t = "Firecracker hypervisor can not support ".to_owned();
                push_u64(&mut t, *n as u64);
                t.append(" vCPUs");
                t
            },
            HypervisorError::TooLittleMemory =>
                "Firecracker hypervisor has minimal memory limitation 128".to_owned(),
        }
    }
}

/// Whether a hypervisor is asked for a confidential guest.
pub open spec fn is_confidential(h: Hypervisor) -> bool {
    h.security_info.confidential_guest || h.security_info.initdata@.len() > 0
}

fn reject_confidential_guest(h: &Hypervisor) -> (r: Result<(), HypervisorError>)
    ensures
        match r {
            Ok(_) => !is_confidential(*h),
            Err(e) => is_confidential(*h) && e@ == HypervisorFault::Confidential,
        },
{
    if h.security_info.confidential_guest || !h.security_info.initdata.as_str().is_empty() {
        return Err(HypervisorError::Confidential);
    }
    Ok(())
}

/// A text, or another where it is empty.
pub open spec fn default_text(s: Seq<char>, other: Seq<char>) -> Seq<char> {
    if s.len() == 0 {
        other
    } else {
        s
    }
}

fn or_default(s: &String, other: &str) -> (r: String)
    ensures
        r@ == default_text(s@, other@),
{
    if s.as_str().is_empty() {
        other.to_owned()
    } else {
        s.clone()
    }
}

/// Whether a hypervisor is another with defaults for what was not said: both disks are
/// on MMIO.
pub open spec fn is_adjusted(before: Hypervisor, after: Hypervisor) -> bool {
    &&& after.path == before.path
    &&& after.boot_info.image == before.boot_info.image
    &&& after.boot_info.kernel@ == default_text(
        before.boot_info.kernel@,
        DEFAULT_FIRECRACKER_GUEST_KERNEL_IMAGE@,
    )
    &&& after.boot_info.kernel_params@ == default_text(
        before.boot_info.kernel_params@,
        DEFAULT_FIRECRACKER_GUEST_KERNEL_PARAMS@,
    )
    &&& after.boot_info.vm_rootfs_driver@ == default_text(
        before.boot_info.vm_rootfs_driver@,
        VIRTIO_BLK_MMIO@,
    )
    &&& after.block_device_driver@ == default_text(before.block_device_driver@, VIRTIO_BLK_MMIO@)
    &&& after.entropy_source@ == default_text(
        before.entropy_source@,
        DEFAULT_FIRECRACKER_ENTROPY_SOURCE@,
    )
    &&& after.default_memory == if before.default_memory == 0 {
        DEFAULT_FIRECRACKER_MEMORY_SIZE_MB
    } else {
        before.default_memory
    }
    &&& after.default_vcpus == before.default_vcpus
    &&& after.default_maxvcpus == before.default_maxvcpus
    &&& after.security_info == before.security_info
}

/// What is wrong with a hypervisor, where something is. Its path was looked up.
pub open spec fn hypervisor_fault(h: Hypervisor, path: Result<(), String>) -> Option<
    HypervisorFault,
> {
    if is_confidential(h) {
        Some(HypervisorFault::Confidential)
    } else if h.path@.len() == 0 {
        Some(HypervisorFault::EmptyPath)
    } else if path is Err {
        Some(HypervisorFault::InvalidPath(path->Err_0@))
    } else if h.boot_info.kernel@.len() == 0 {
        Some(HypervisorFault::EmptyKernel)
    } else if h.boot_info.image@.len() == 0 {
        Some(HypervisorFault::EmptyImage)
    } else if whole_over_limit(h.default_vcpus) || h.default_maxvcpus > MAX_FIRECRACKER_VCPUS {
        Some(HypervisorFault::TooManyVcpus(h.default_maxvcpus))
    } else if h.default_memory < MIN_FIRECRACKER_MEMORY_SIZE_MB {
        Some(HypervisorFault::TooLittleMemory)
    } else {
        None
    }
}

/// The hypervisors that were registered.
#[derive(Clone, Copy, Debug, PartialEq, Eq, Structural)]
pub struct HypervisorPlugins {
    pub firecracker: Option<FirecrackerConfig>,
}

impl HypervisorPlugins {
    /// No hypervisors.
    pub fn none() -> (r: HypervisorPlugins)
        ensures
            r.firecracker is None,
    {
        HypervisorPlugins { firecracker: None }
    }

    /// Whether a hypervisor is registered.
    pub open spec fn has(self, name: Seq<char>) -> bool {
        name == HYPERVISOR_NAME_FIRECRACKER@ && self.firecracker is Some
    }

    /// The hypervisor of a name.
    pub fn get(&self, name: &str) -> (r: Option<FirecrackerConfig>)
        ensures
            r is Some <==> self.has(name@),
    {
        if str_eq(name, HYPERVISOR_NAME_FIRECRACKER) {
            self.firecracker
        } else {
            None
        }
    }
}

/// What the runtime knows of Firecracker.
#[derive(Clone, Copy, Debug, PartialEq, Eq, Structural)]
pub struct FirecrackerConfig;

impl FirecrackerConfig {
    /// What the runtime knows of Firecracker.
    pub fn new() -> (r: FirecrackerConfig)
        ensures
            r == FirecrackerConfig,
    {
        FirecrackerConfig
    }

    /// Registers Firecracker.
    pub fn register(self, plugins: &mut HypervisorPlugins)
        ensures
            final(plugins).firecracker == Some(self),
            final(plugins).has(HYPERVISOR_NAME_FIRECRACKER@),
    {
        plugins.firecracker = Some(self);
    }

    /// The most virtual CPUs.
    pub fn get_max_cpus(&self) -> (r: u32)
        ensures
            r == MAX_FIRECRACKER_VCPUS,
    {
        MAX_FIRECRACKER_VCPUS
    }

    /// The least memory in megabytes.
    pub fn get_min_memory(&self) -> (r: u32)
        ensures
            r == MIN_FIRECRACKER_MEMORY_SIZE_MB,
    {
        MIN_FIRECRACKER_MEMORY_SIZE_MB
    }

    /// The name.
    pub fn name(&self) -> (r: &'static str)
        ensures
            r@ == HYPERVISOR_NAME_FIRECRACKER@,
    {
        HYPERVISOR_NAME_FIRECRACKER
    }

    /// Fills in what a configuration does not say. A confidential guest is refused
    /// without a look at its data.
    pub fn adjust_config(&self, conf: &mut TomlConfig) -> (r: Result<(), HypervisorError>)
        ensures
            final(conf).agent == old(conf).agent,
            final(conf).runtime == old(conf).runtime,
            ({
                let name = HYPERVISOR_NAME_FIRECRACKER@;
                let before = old(conf).hypervisor@;
                let after = final(conf).hypervisor@;
                match r {
                    Err(e) => before.contains_key(name) && is_confidential(before[name]) && e@
                        == HypervisorFault::Confidential && after == before,
                    Ok(_) => if before.contains_key(name) {
                        &&& !is_confidential(before[name])
                        &&& is_adjusted(before[name], after[name])
                        &&& after == before.insert(name, after[name])
                    } else {
                        after == before
                    },
                }
            }),
    {
        let ghost before = conf.hypervisor@;
        match conf.hypervisor.get_mut(HYPERVISOR_NAME_FIRECRACKER) {
            None => {},
            Some(h) => {
                if let Err(e) = reject_confidential_guest(h) {
                    proof {
                        assert(before.insert(HYPERVISOR_NAME_FIRECRACKER@, *h) =~= before);
                    }
                    return Err(e);
                }
                h.boot_info.vm_rootfs_driver = or_default(
                    &h.boot_info.vm_rootfs_driver,
                    VIRTIO_BLK_MMIO,
                );
                h.block_device_driver = or_default(&h.block_device_driver, VIRTIO_BLK_MMIO);
                h.boot_info.kernel = or_default(
                    &h.boot_info.kernel,
                    DEFAULT_FIRECRACKER_GUEST_KERNEL_IMAGE,
                );
                h.boot_info.kernel_params = or_default(
                    &h.boot_info.kernel_params,
                    DEFAULT_FIRECRACKER_GUEST_KERNEL_PARAMS,
                );
                h.entropy_source = or_default(
                    &h.entropy_source,
                    DEFAULT_FIRECRACKER_ENTROPY_SOURCE,
                );
                if h.default_memory == 0 {
                    h.default_memory = DEFAULT_FIRECRACKER_MEMORY_SIZE_MB;
                }
            },
        }
        Ok(())
    }

    /// Checks a configuration. The path of the hypervisor was looked up.
    pub fn validate(&self, conf: &TomlConfig, path: Result<(), String>) -> (r: Result<
        (),
        HypervisorError,
    >)
        ensures
            ({
                let name = HYPERVISOR_NAME_FIRECRACKER@;
                let fault = if conf.hypervisor@.contains_key(name) {
                    hypervisor_fault(conf.hypervisor@[name], path)
                } else {
                    None
                };
                match r {
                    Ok(_) => fault is None,
                    Err(e) => fault == Some(e@),
                }
            }),
    {
        let h = match conf.hypervisor.get(HYPERVISOR_NAME_FIRECRACKER) {
            None => {
                return Ok(());
            },
            Some(h) => h,
        };
        if let Err(e) = reject_confidential_guest(h) {
            return Err(e);
        }
        if h.path.as_str().is_empty() {
            return Err(HypervisorError::EmptyPath);
        }
        if let Err(text) = path {
            return Err(HypervisorError::InvalidPath(text));
        }
        if h.boot_info.kernel.as_str().is_empty() {
            return Err(HypervisorError::EmptyKernel);
        }
        if h.boot_info.image.as_str().is_empty() {
            return Err(HypervisorError::EmptyImage);
        }
        let bits: u32 = h.default_vcpus.bits;
        if (VCPU_BEYOND_BITS <= bits && bits <= VCPU_INFINITY_BITS) || h.default_maxvcpus
            > MAX_FIRECRACKER_VCPUS {
            return Err(HypervisorError::TooManyVcpus(h.default_maxvcpus));
        }
        if h.default_memory < MIN_FIRECRACKER_MEMORY_SIZE_MB {
            return Err(HypervisorError::TooLittleMemory);
        }
        Ok(())
    }
}

/// The first hypervisor of a configuration that is not supported.
pub open spec fn first_foreign(entries: Seq<(String, Hypervisor)>) -> Option<Seq<char>>
    decreases entries.len(),
{
    if entries.len() == 0 {
        None
    } else if entries[0].0@ != HYPERVISOR_NAME_FIRECRACKER@ {
        Some(entries[0].0@)
    } else {
        first_foreign(entries.skip(1))
    }
}

/// The name of a hypervisor that a configuration asks for and that is not supported.
pub open spec fn foreign_hypervisor(conf: TomlConfig) -> Option<Seq<char>> {
    match first_foreign(conf.hypervisor.entries()) {
        Some(n) => Some(n),
        None => if conf.runtime.hypervisor_name@.len() > 0 && conf.runtime.hypervisor_name@
            != HYPERVISOR_NAME_FIRECRACKER@ {
            Some(conf.runtime.hypervisor_name@)
        } else {
            None
        },
    }
}

impl TomlConfig {
    /// Refuses other hypervisors than the supported one.
    pub fn check_hypervisors(&self) -> (r: Result<(), HypervisorError>)
        ensures
            match r {
                Ok(_) => foreign_hypervisor(*self) is None,
                Err(e) => foreign_hypervisor(*self) is Some && e@
                    == HypervisorFault::UnsupportedHypervisor(foreign_hypervisor(*self)->0),
            },
    {
        let n: usize = self.hypervisor.len();
        let ghost all = self.hypervisor.entries();
        let mut i: usize = 0;
        proof {
            assert(all.skip(0) =~= all);
        }
        while i < n
            invariant
                i <= n,
                n == all.len(),
                all == self.hypervisor.entries(),
                first_foreign(all) == first_foreign(all.skip(i as int)),
            decreases n - i,
        {
            proof {
                assert(all.skip(i as int).skip(1) =~= all.skip(i + 1));
                assert(all.skip(i as int)[0] == all[i as int]);
            }
            let (name, _h) = self.hypervisor.entry(i);
            if !str_eq(name.as_str(), HYPERVISOR_NAME_FIRECRACKER) {
                return Err(HypervisorError::UnsupportedHypervisor(name.clone()));
            }
            i += 1;
        }
        let name = &self.runtime.hypervisor_name;
        if !name.as_str().is_empty() && !str_eq(name.as_str(), HYPERVISOR_NAME_FIRECRACKER) {
            return Err(HypervisorError::UnsupportedHypervisor(name.clone()));
        }
        Ok(())
    }

    /// Fills in what a configuration does not say, where the hypervisor is registered.
    pub fn adjust_config(&mut self, plugins: &HypervisorPlugins) -> (r: Result<
        (),
        HypervisorError,
    >)
        ensures
            final(self).agent == old(self).agent,
            final(self).runtime == old(self).runtime,
            ({
                let name = HYPERVISOR_NAME_FIRECRACKER@;
                let before = old(self).hypervisor@;
                let after = final(self).hypervisor@;
                if plugins.firecracker is None || !before.contains_key(name) {
                    r is Ok && after == before
                } else if is_confidential(before[name]) {
                    (r matches Err(e) && e@ == HypervisorFault::Confidential) && after == before
                } else {
                    &&& r is Ok
                    &&& is_adjusted(before[name], after[name])
                    &&& after == before.insert(name, after[name])
                }
            }),
    {
        match &plugins.firecracker {
            Some(f) => f.adjust_config(self),
            None => Ok(()),
        }
    }

    /// Takes a configuration that was read: other hypervisors are refused before
    /// anything is looked up, and what is not said is filled in.
    pub fn load(read: TomlConfig, plugins: &HypervisorPlugins) -> (r: Result<
        TomlConfig,
        HypervisorError,
    >)
        ensures
            ({
                let name = HYPERVISOR_NAME_FIRECRACKER@;
                let before = read.hypervisor@;
                match foreign_hypervisor(read) {
                    Some(n) => r matches Err(e) && e@ == HypervisorFault::UnsupportedHypervisor(n),
                    None => if plugins.firecracker is None || !before.contains_key(name) {
                        r matches Ok(c) && c.hypervisor@ == before && c.agent == read.agent
                            && c.runtime == read.runtime
                    } else if is_confidential(before[name]) {
                        r matches Err(e) && e@ == HypervisorFault::Confidential
                    } else {
                        r matches Ok(c) && is_adjusted(before[name], c.hypervisor@[name])
                            && c.hypervisor@ == before.insert(name, c.hypervisor@[name]) && c.agent
                            == read.agent && c.runtime == read.runtime
                    },
                }
            }),
    {
        if let Err(e) = read.check_hypervisors() {
            return Err(e);
        }
        let mut conf = read;
        match conf.adjust_config(plugins) {
            Ok(_) => Ok(conf),
            Err(e) => Err(e),
        }
    }

    /// Checks a configuration. The path of the hypervisor was looked up.
    pub fn validate(&self, plugins: &HypervisorPlugins, path: Result<(), String>) -> (r: Result<
        (),
        HypervisorError,
    >)
        ensures
            ({
                let name = HYPERVISOR_NAME_FIRECRACKER@;
                let fault = if plugins.firecracker is Some && self.hypervisor@.contains_key(name) {
                    hypervisor_fault(self.hypervisor@[name], path)
                } else {
                    None
                };
                match r {
                    Ok(_) => fault is None,
                    Err(e) => fault == Some(e@),
                }
            }),
    {
        match &plugins.firecracker {
            Some(f) => f.validate(self, path),
            None => Ok(()),
        }
    }
}

/// Filling in defaults a second time changes nothing.
pub proof fn law_adjusting_twice_is_adjusting_once(a: Hypervisor, b: Hypervisor, c: Hypervisor)
    requires
        is_adjusted(a, b),
        is_adjusted(b, c),
    ensures
        c.boot_info.kernel@ == b.boot_info.kernel@,
        c.boot_info.kernel_params@ == b.boot_info.kernel_params@,
        c.boot_info.vm_rootfs_driver@ == b.boot_info.vm_rootfs_driver@,
        c.boot_info.image == b.boot_info.image,
        c.block_device_driver@ == b.block_device_driver@,
        c.entropy_source@ == b.entropy_source@,
        c.default_memory == b.default_memory,
        c.default_vcpus == b.default_vcpus,
        c.default_maxvcpus == b.default_maxvcpus,
        c.path == b.path,
        c.security_info == b.security_info,
{
}

/// An adjusted hypervisor has both of its disks on a driver that is named, a kernel, a
/// source of entropy and memory.
pub proof fn law_adjusted_hypervisor_lacks_nothing(a: Hypervisor, b: Hypervisor)
    requires
        is_adjusted(a, b),
    ensures
        b.boot_info.vm_rootfs_driver@.len() > 0,
        b.block_device_driver@.len() > 0,
        b.boot_info.kernel@.len() > 0,
        b.entropy_source@.len() > 0,
        b.default_memory > 0,
        a.boot_info.vm_rootfs_driver@.len() == 0 ==> b.boot_info.vm_rootfs_driver@
            == VIRTIO_BLK_MMIO@,
        a.block_device_driver@.len() == 0 ==> b.block_device_driver@ == VIRTIO_BLK_MMIO@,
{
    reveal_strlit("virtio-blk-mmio");
    reveal_strlit("vmlinux");
    reveal_strlit("/dev/urandom");
}

} // verus!
