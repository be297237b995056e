//! Resource limits of a container, and what they mean for version 2 of cgroups.
use vstd::prelude::*;

use super::devices::{device_rules, rules, set_devices_resources, DeviceResource, DeviceRule};
use crate::oci::{
    LinuxBlockIo, LinuxCpu, LinuxDeviceCgroup, LinuxHugepageLimit, LinuxMemory, LinuxResources,
    LinuxThrottleDevice, LinuxWeightDevice,
};
use crate::text::{push_i64, signed_decimal};

verus! {

/// Why resource limits are refused.
#[derive(Clone, Copy, Debug, PartialEq, Eq, Structural)]
pub enum CgroupError {
    /// The machine has no version 2 of cgroups.
    NotUnified,
    /// A network control of version 1.
    Network,
    /// A realtime control of version 1.
    Realtime,
    /// A memory control of version 1.
    Memory,
    /// A block leaf weight of version 1.
    LeafWeight,
    /// A swap limit without a memory limit.
    SwapWithoutMemory,
    /// A memory limit that is no limit.
    InvalidMemory(i64),
    /// A limit of memory and swap below that of memory.
    SwapBelowMemory,
}

impl CgroupError {
    /// The text of the error.
    pub open spec fn text(self) -> Seq<char> {
        match self {
            CgroupError::NotUnified => "kata-fc requires cgroup v2"@,
            CgroupError::Network => "kata-fc: cgroup v1 network controls are unsupported"@,
            CgroupError::Realtime => "kata-fc: cgroup v1 realtime CPU controls are unsupported"@,
            CgroupError::Memory => "kata-fc: cgroup v1 memory controls are unsupported"@,
            CgroupError::LeafWeight => "kata-fc: cgroup v1 block leaf weights are unsupported"@,
            CgroupError::SwapWithoutMemory => "unable to set swap limit without memory limit"@,
            CgroupError::InvalidMemory(n) => "invalid memory value: "@ + signed_decimal(n as int),
            CgroupError::SwapBelowMemory => "memory+swap limit should be >= memory limit"@,
        }
    }

    /// The text of the error.
    pub fn message(self) -> (r: String)
        ensures
            r@ == self.text(),
    {
        match self {
            CgroupError::NotUnified => "kata-fc requires cgroup v2".to_owned(),
            CgroupError::Network =>
                "kata-fc: cgroup v1 network controls are unsupported".to_owned(),
            CgroupError::Realtime =>
                "kata-fc: cgroup v1 realtime CPU controls are unsupported".to_owned(),
            CgroupError::Memory => "kata-fc: cgroup v1 memory controls are unsupported".to_owned(),
            CgroupError::LeafWeight =>
                "kata-fc: cgroup v1 block leaf weights are unsupported".to_owned(),
            CgroupError::SwapWithoutMemory =>
                "unable to set swap limit without memory limit".to_owned(),
            CgroupError::InvalidMemory(n) => {
                let mut s = "invalid memory value: ".to_owned();
                push_i64(&mut s, n);
                s
            },
            CgroupError::SwapBelowMemory =>
                "memory+swap limit should be >= memory limit".to_owned(),
        }
    }
}

/// The largest shares value whose weight can be computed.
pub const MAX_SHARES: u64 = 1844858893260283;

/// The weight for a shares value: 0 stays unset, and 2 up to 262144 are spread over
/// 1 up to 10000.
pub open spec fn weight_of(shares: int) -> int {
    if shares == 0 {
        0
    } else {
        1 + ((shares - 2) * 9999) / 262142
    }
}

/// Converts a shares value into a weight. The value 1 has no weight.
pub fn convert_shares_to_v2_value(shares: u64) -> (r: u64)
    requires
        shares != 1,
        shares <= MAX_SHARES,
    ensures
        r == weight_of(shares as int),
{
    if shares == 0 {
        return 0;
    }
    1 + ((shares - 2) * 9999) / 262142
}

/// The weights of the range that the kernel takes for shares fill the range that it
/// takes for weights, end to end, and a larger share never has a smaller weight.
pub proof fn law_weights_span_the_range(a: int, b: int)
    requires
        2 <= a <= b <= 262144,
    ensures
        weight_of(2) == 1,
        weight_of(262144) == 10000,
        1 <= weight_of(a) <= weight_of(b) <= 10000,
{
}

/// The swap limit of version 2 for a limit of memory and swap together. -1 is no
/// limit, and 0 is unset.
pub open spec fn swap_limit(memory_swap: int, memory: int) -> Result<int, CgroupError> {
    if memory == -1 && memory_swap == 0 {
        Ok(-1)
    } else if memory_swap == -1 || memory_swap == 0 {
        Ok(memory_swap)
    } else if memory == 0 || memory == -1 {
        Err(CgroupError::SwapWithoutMemory)
    } else if memory < 0 {
        Err(CgroupError::InvalidMemory(memory as i64))
    } else if memory_swap < memory {
        Err(CgroupError::SwapBelowMemory)
    } else {
        Ok(memory_swap - memory)
    }
}

/// Converts a limit of memory and swap together into a swap limit.
pub fn convert_memory_swap_to_v2_value(memory_swap: i64, memory: i64) -> (r: Result<
    i64,
    CgroupError,
>)
    ensures
        match r {
            Ok(n) => swap_limit(memory_swap as int, memory as int) == Ok::<int, CgroupError>(
                n as int,
            ),
            Err(e) => swap_limit(memory_swap as int, memory as int) == Err::<int, CgroupError>(e),
        },
{
    if memory == -1 && memory_swap == 0 {
        return Ok(-1);
    }
    if memory_swap == -1 || memory_swap == 0 {
        return Ok(memory_swap);
    }
    if memory == 0 || memory == -1 {
        return Err(CgroupError::SwapWithoutMemory);
    }
    if memory < 0 {
        return Err(CgroupError::InvalidMemory(memory));
    }
    if memory_swap < memory {
        return Err(CgroupError::SwapBelowMemory);
    }
    Ok(memory_swap - memory)
}

/// Memory and the swap limit together come to the limit of both, wherever a swap
/// limit is set at all.
pub proof fn law_memory_and_swap_add_up(memory_swap: int, memory: int)
    requires
        swap_limit(memory_swap, memory) is Ok,
        memory_swap != -1,
        memory_swap != 0,
    ensures
        memory + swap_limit(memory_swap, memory)->Ok_0 == memory_swap,
        swap_limit(memory_swap, memory)->Ok_0 >= 0,
        memory > 0,
{
}

/// Whether a number is present and not 0.
pub open spec fn set_i64(n: Option<i64>) -> bool {
    n is Some && n->0 != 0
}

/// Whether a number is present and not 0.
pub open spec fn set_u64(n: Option<u64>) -> bool {
    n is Some && n->0 != 0
}

fn is_set_i64(n: Option<i64>) -> (r: bool)
    ensures
        r == set_i64(n),
{
    match n {
        Some(v) => v != 0,
        None => false,
    }
}

fn is_set_u64(n: Option<u64>) -> (r: bool)
    ensures
        r == set_u64(n),
{
    match n {
        Some(v) => v != 0,
        None => false,
    }
}

/// Whether a network control of version 1 is asked for.
pub open spec fn has_network_controls(r: LinuxResources) -> bool {
    r.network matches Some(n) && ((n.class_id is Some && n.class_id->0 != 0) || (n.priorities
        is Some && n.priorities->0@.len() > 0))
}

/// Whether a realtime control of version 1 is asked for.
pub open spec fn has_realtime_controls(r: LinuxResources) -> bool {
    r.cpu matches Some(c) && (set_u64(c.realtime_period) || set_i64(c.realtime_runtime))
}

/// Whether a memory control of version 1 is asked for.
pub open spec fn has_memory_controls(m: LinuxMemory) -> bool {
    set_i64(m.kernel) || set_i64(m.kernel_tcp) || m.swappiness is Some || m.disable_oom_killer
        == Some(true)
}

/// Whether a weight is present and not 0.
pub open spec fn set_weight(n: Option<u16>) -> bool {
    n is Some && n->0 != 0
}

/// Whether a block leaf weight of version 1 is asked for.
pub open spec fn has_leaf_weights(b: LinuxBlockIo) -> bool {
    set_weight(b.leaf_weight) || (b.weight_device is Some && exists|i: int|
        0 <= i < b.weight_device->0@.len() && set_weight(
            (#[trigger] b.weight_device->0@[i]).leaf_weight,
        ))
}

/// The swap limit that memory limits ask for.
pub open spec fn memory_swap_limit(m: LinuxMemory) -> Result<int, CgroupError> {
    swap_limit(
        super::devices::or_zero(m.swap) as int,
        super::devices::or_zero(m.limit) as int,
    )
}

/// What is wrong with resource limits, where anything is: controls that version 2
/// does not have, and swap limits that mean nothing.
pub open spec fn resource_fault(r: LinuxResources) -> Option<CgroupError> {
    if has_network_controls(r) {
        Some(CgroupError::Network)
    } else if has_realtime_controls(r) {
        Some(CgroupError::Realtime)
    } else if r.memory is Some && has_memory_controls(r.memory->0) {
        Some(CgroupError::Memory)
    } else if r.memory is Some && memory_swap_limit(r.memory->0) is Err {
        Some(memory_swap_limit(r.memory->0)->Err_0)
    } else if r.block_io is Some && has_leaf_weights(r.block_io->0) {
        Some(CgroupError::LeafWeight)
    } else {
        None
    }
}

fn leaf_weighted(devices: &Vec<LinuxWeightDevice>) -> (r: bool)
    ensures
        r == exists|i: int|
            0 <= i < devices@.len() && set_weight((#[trigger] devices@[i]).leaf_weight),
{
    let mut i: usize = 0;
    while i < devices.len()
        invariant
            i <= devices.len(),
            forall|k: int| 0 <= k < i ==> !set_weight((#[trigger] devices@[k]).leaf_weight),
        decreases devices.len() - i,
    {
        if let Some(w) = devices[i].leaf_weight {
            if w != 0 {
                proof {
                    assert(set_weight(devices@[i as int].leaf_weight));
                }
                return true;
            }
        }
        i += 1;
    }
    false
}

/// Refuses controls that version 2 of cgroups does not have, before anything is
/// changed.
pub fn validate_resources(resources: &LinuxResources) -> (r: Result<(), CgroupError>)
    ensures
        match r {
            Ok(_) => resource_fault(*resources) is None,
            Err(e) => resource_fault(*resources) == Some(e),
        },
{
    if let Some(network) = &resources.network {
        let class = match network.class_id {
            Some(c) => c != 0,
            None => false,
        };
        let priorities = match &network.priorities {
            Some(p) => p.len() > 0,
            None => false,
        };
        if class || priorities {
            return Err(CgroupError::Network);
        }
    }
    if let Some(cpu) = &resources.cpu {
        if is_set_u64(cpu.realtime_period) || is_set_i64(cpu.realtime_runtime) {
            return Err(CgroupError::Realtime);
        }
    }
    if let Some(memory) = &resources.memory {
        let no_killer = match memory.disable_oom_killer {
            Some(b) => b,
            None => false,
        };
        if is_set_i64(memory.kernel) || is_set_i64(memory.kernel_tcp)
            || memory.swappiness.is_some() || no_killer {
            return Err(CgroupError::Memory);
        }
        let swap: i64 = match memory.swap {
            Some(n) => n,
            None => 0,
        };
        let limit: i64 = match memory.limit {
            Some(n) => n,
            None => 0,
        };
        if let Err(e) = convert_memory_swap_to_v2_value(swap, limit) {
            return Err(e);
        }
    }
    if let Some(block) = &resources.block_io {
        let own = match block.leaf_weight {
            Some(w) => w != 0,
            None => false,
        };
        let devices = match &block.weight_device {
            Some(v) => leaf_weighted(v),
            None => false,
        };
        if own || devices {
            return Err(CgroupError::LeafWeight);
        }
    }
    Ok(())
}

/// A value that is written to a controller of the cgroup.
#[derive(Clone, Copy, Debug, PartialEq, Eq, Structural)]
pub enum CgroupWrite {
    /// The processors of the configuration; a failure is passed over.
    Cpus,
    /// The memory nodes of the configuration.
    Mems,
    /// The weight.
    Shares(u64),
    /// The quota.
    Quota(i64),
    /// The period.
    Period(u64),
    /// The memory limit.
    MemoryLimit(i64),
    /// The swap limit.
    SwapLimit(i64),
    /// The soft memory limit.
    SoftLimit(i64),
    /// The number of processes, without a limit where it is absent.
    Pids(Option<i64>),
}

/// A write where a condition holds.
pub open spec fn write_when(cond: bool, w: CgroupWrite) -> Seq<CgroupWrite> {
    if cond {
        seq![w]
    } else {
        Seq::empty()
    }
}

fn push_write(out: &mut Vec<CgroupWrite>, cond: bool, w: CgroupWrite)
    ensures
        final(out)@ == old(out)@ + write_when(cond, w),
{
    if cond {
        out.push(w);
    }
    proof {
        assert(out@ =~= old(out)@ + write_when(cond, w));
    }
}

/// The writes for processor limits.
pub open spec fn cpu_writes(cpu: LinuxCpu) -> Seq<CgroupWrite> {
    write_when(cpu.cpus is Some, CgroupWrite::Cpus) + write_when(cpu.mems is Some, CgroupWrite::Mems)
        + write_when(
        set_u64(cpu.shares),
        CgroupWrite::Shares(weight_of(cpu.shares->0 as int) as u64),
    ) + write_when(set_i64(cpu.quota), CgroupWrite::Quota(cpu.quota->0)) + write_when(
        set_u64(cpu.period),
        CgroupWrite::Period(cpu.period->0),
    )
}

/// The writes for memory limits: the swap limit is written where it is one, or where
/// the configuration gives one.
pub open spec fn memory_writes(m: LinuxMemory) -> Seq<CgroupWrite> {
    let swap = memory_swap_limit(m)->Ok_0;
    write_when(set_i64(m.limit), CgroupWrite::MemoryLimit(m.limit->0)) + write_when(
        swap != 0 || super::devices::or_zero(m.swap) > 0,
        CgroupWrite::SwapLimit(swap as i64),
    ) + write_when(set_i64(m.reservation), CgroupWrite::SoftLimit(m.reservation->0))
}

/// The write for the number of processes.
pub open spec fn pid_writes(limit: i64) -> Seq<CgroupWrite> {
    seq![
        CgroupWrite::Pids(
            if limit > 0 {
                Some(limit)
            } else {
                None
            },
        ),
    ]
}

/// All writes to single controllers, in order.
pub open spec fn controller_writes(r: LinuxResources) -> Seq<CgroupWrite> {
    (match r.cpu {
        Some(c) => cpu_writes(c),
        None => Seq::empty(),
    }) + (match r.memory {
        Some(m) => memory_writes(m),
        None => Seq::empty(),
    }) + (match r.pids {
        Some(n) => pid_writes(n),
        None => Seq::empty(),
    })
}

/// A signed number as an unsigned one of the same bits.
pub open spec fn as_bits(n: int) -> int {
    if n >= 0 {
        n
    } else {
        n + 0x1_0000_0000_0000_0000
    }
}

fn to_bits(n: i64) -> (r: u64)
    ensures
        r == as_bits(n as int),
{
    if n >= 0 {
        n as u64
    } else {
        (n as i128 + 0x1_0000_0000_0000_0000) as u64
    }
}

/// A weight of one block device.
#[derive(Clone, Copy, Debug, PartialEq, Eq, Structural)]
pub struct BlkIoDeviceResource {
    pub major: u64,
    pub minor: u64,
    pub weight: Option<u16>,
    pub leaf_weight: Option<u16>,
}

/// A rate limit of one block device.
#[derive(Clone, Copy, Debug, PartialEq, Eq, Structural)]
pub struct BlkIoDeviceThrottleResource {
    pub major: u64,
    pub minor: u64,
    pub rate: u64,
}

/// Block limits in the kernel's form.
#[derive(Debug)]
pub struct BlkIoResources {
    pub weight: Option<u16>,
    pub weight_device: Vec<BlkIoDeviceResource>,
    pub throttle_read_bps_device: Vec<BlkIoDeviceThrottleResource>,
    pub throttle_write_bps_device: Vec<BlkIoDeviceThrottleResource>,
    pub throttle_read_iops_device: Vec<BlkIoDeviceThrottleResource>,
    pub throttle_write_iops_device: Vec<BlkIoDeviceThrottleResource>,
}

/// A rate limit in the kernel's form.
pub open spec fn throttle_of(d: LinuxThrottleDevice) -> BlkIoDeviceThrottleResource {
    BlkIoDeviceThrottleResource {
        major: as_bits(d.major as int) as u64,
        minor: as_bits(d.minor as int) as u64,
        rate: d.rate,
    }
}

/// Rate limits in the kernel's form.
pub open spec fn throttles_of(v: Option<Vec<LinuxThrottleDevice>>) -> Seq<
    BlkIoDeviceThrottleResource,
> {
    match v {
        Some(x) => x@.map_values(|d: LinuxThrottleDevice| throttle_of(d)),
        None => Seq::empty(),
    }
}

/// Converts rate limits.
pub fn build_blk_io_device_throttle_resource(input: &Option<Vec<LinuxThrottleDevice>>) -> (r: Vec<
    BlkIoDeviceThrottleResource,
>)
    ensures
        r@ == throttles_of(*input),
{
    let mut out: Vec<BlkIoDeviceThrottleResource> = Vec::new();
    if let Some(v) = input {
        let ghost all = throttles_of(*input);
        let mut i: usize = 0;
        while i < v.len()
            invariant
                i <= v.len(),
                all == v@.map_values(|d: LinuxThrottleDevice| throttle_of(d)),
                out@ == all.take(i as int),
            decreases v.len() - i,
        {
            let d = v[i];
            out.push(
                BlkIoDeviceThrottleResource {
                    major: to_bits(d.major),
                    minor: to_bits(d.minor),
                    rate: d.rate,
                },
            );
            i += 1;
            proof {
                assert(out@ =~= all.take(i as int));
            }
        }
        proof {
            assert(all.take(all.len() as int) =~= all);
        }
    }
    out
}

/// The weights of the devices of a configuration. Each gets the weight of the
/// container, and none has a leaf weight.
pub open spec fn weights_of(b: LinuxBlockIo) -> Seq<BlkIoDeviceResource> {
    match b.weight_device {
        Some(x) => x@.map_values(
            |d: LinuxWeightDevice|
                BlkIoDeviceResource {
                    major: as_bits(d.major as int) as u64,
                    minor: as_bits(d.minor as int) as u64,
                    weight: b.weight,
                    leaf_weight: None,
                },
        ),
        None => Seq::empty(),
    }
}

/// Whether block limits in the kernel's form are those of a configuration.
pub open spec fn is_block_io(r: BlkIoResources, b: LinuxBlockIo) -> bool {
    &&& r.weight == b.weight
    &&& r.weight_device@ == weights_of(b)
    &&& r.throttle_read_bps_device@ == throttles_of(b.throttle_read_bps_device)
    &&& r.throttle_write_bps_device@ == throttles_of(b.throttle_write_bps_device)
    &&& r.throttle_read_iops_device@ == throttles_of(b.throttle_read_iops_device)
    &&& r.throttle_write_iops_device@ == throttles_of(b.throttle_write_iops_device)
}

/// Converts block limits.
pub fn set_block_io_resources(b: &LinuxBlockIo) -> (r: BlkIoResources)
    ensures
        is_block_io(r, *b),
{
    let mut weights: Vec<BlkIoDeviceResource> = Vec::new();
    if let Some(v) = &b.weight_device {
        let ghost all = weights_of(*b);
        let mut i: usize = 0;
        while i < v.len()
            invariant
                i <= v.len(),
                all == weights_of(*b),
                b.weight_device == Some(*v),
                weights@ == all.take(i as int),
            decreases v.len() - i,
        {
            let d = v[i];
            weights.push(
                BlkIoDeviceResource {
                    major: to_bits(d.major),
                    minor: to_bits(d.minor),
                    weight: b.weight,
                    leaf_weight: None,
                },
            );
            i += 1;
            proof {
                assert(weights@ =~= all.take(i as int));
            }
        }
        proof {
            assert(all.take(all.len() as int) =~= all);
        }
    }
    BlkIoResources {
        weight: b.weight,
        weight_device: weights,
        throttle_read_bps_device: build_blk_io_device_throttle_resource(
            &b.throttle_read_bps_device,
        ),
        throttle_write_bps_device: build_blk_io_device_throttle_resource(
            &b.throttle_write_bps_device,
        ),
        throttle_read_iops_device: build_blk_io_device_throttle_resource(
            &b.throttle_read_iops_device,
        ),
        throttle_write_iops_device: build_blk_io_device_throttle_resource(
            &b.throttle_write_iops_device,
        ),
    }
}

/// A limit on huge pages in the kernel's form.
#[derive(Debug)]
pub struct HugePageResource {
    pub size: String,
    pub limit: u64,
}

/// The limits whose page size the machine supports, in order.
pub open spec fn huge_pages(limits: Seq<LinuxHugepageLimit>, supported: Seq<bool>) -> Seq<
    (Seq<char>, int),
>
    decreases limits.len(),
{
    if limits.len() == 0 {
        Seq::empty()
    } else {
        let before = huge_pages(limits.drop_last(), supported);
        if supported[limits.len() - 1] {
            before.push((limits.last().page_size@, as_bits(limits.last().limit as int)))
        } else {
            before
        }
    }
}

/// What a list of limits in the kernel's form holds.
pub open spec fn huge_page_views(v: Seq<HugePageResource>) -> Seq<(Seq<char>, int)> {
    v.map_values(|h: HugePageResource| (h.size@, h.limit as int))
}

/// Converts the limits on huge pages; those that the machine does not support are
/// dropped.
pub fn set_hugepages_resources(limits: &Vec<LinuxHugepageLimit>, supported: &Vec<bool>) -> (r: Vec<
    HugePageResource,
>)
    requires
        supported@.len() == limits@.len(),
    ensures
        huge_page_views(r@) == huge_pages(limits@, supported@),
{
    let mut out: Vec<HugePageResource> = Vec::new();
    let mut i: usize = 0;
    proof {
        assert(limits@.take(0) =~= Seq::<LinuxHugepageLimit>::empty());
        assert(huge_page_views(out@) =~= huge_pages(limits@.take(0), supported@));
    }
    while i < limits.len()
        invariant
            i <= limits.len(),
            supported@.len() == limits@.len(),
            huge_page_views(out@) == huge_pages(limits@.take(i as int), supported@),
        decreases limits.len() - i,
    {
        proof {
            assert(limits@.take(i + 1).drop_last() =~= limits@.take(i as int));
            assert(limits@.take(i + 1).last() == limits@[i as int]);
        }
        if supported[i] {
            let ghost was = huge_page_views(out@);
            let h = HugePageResource {
                size: limits[i].page_size.clone(),
                limit: to_bits(limits[i].limit),
            };
            out.push(h);
            proof {
                assert(huge_page_views(out@) =~= was.push((h.size@, h.limit as int)));
            }
        }
        i += 1;
    }
    proof {
        assert(limits@.take(limits@.len() as int) =~= limits@);
    }
    out
}

/// Everything that is written to the cgroups of a container for its limits. The
/// single controllers come first; block limits, huge pages and device rules are
/// applied together, device rules to the pod as well.
#[derive(Debug)]
pub struct CgroupUpdate {
    pub writes: Vec<CgroupWrite>,
    pub block_io: Option<BlkIoResources>,
    pub hugepages: Vec<HugePageResource>,
    pub devices: Vec<DeviceResource>,
}

/// The limits on huge pages of resource limits.
pub open spec fn hugepage_list(r: LinuxResources) -> Seq<LinuxHugepageLimit> {
    match r.hugepage_limits {
        Some(v) => v@,
        None => Seq::empty(),
    }
}

/// The device rules of resource limits.
pub open spec fn device_list(r: LinuxResources) -> Seq<LinuxDeviceCgroup> {
    match r.devices {
        Some(v) => v@,
        None => Seq::empty(),
    }
}

/// Whether the shares of resource limits have a weight.
pub open spec fn weighable(r: LinuxResources) -> bool {
    r.cpu matches Some(c) ==> (c.shares matches Some(s) ==> s != 1 && s <= MAX_SHARES)
}

fn cpu_write_list(cpu: &LinuxCpu) -> (out: Vec<CgroupWrite>)
    requires
        cpu.shares matches Some(s) ==> s != 1 && s <= MAX_SHARES,
    ensures
        out@ == cpu_writes(*cpu),
{
    let mut out: Vec<CgroupWrite> = Vec::new();
    push_write(&mut out, cpu.cpus.is_some(), CgroupWrite::Cpus);
    proof {
        assert(out@ =~= write_when(cpu.cpus is Some, CgroupWrite::Cpus));
    }
    push_write(&mut out, cpu.mems.is_some(), CgroupWrite::Mems);
    let shares: u64 = match cpu.shares {
        Some(s) => convert_shares_to_v2_value(s),
        None => 0,
    };
    let ghost head = out@;
    push_write(&mut out, shares != 0, CgroupWrite::Shares(shares));
    proof {
        assert(out@ == head + write_when(
            set_u64(cpu.shares),
            CgroupWrite::Shares(weight_of(cpu.shares->0 as int) as u64),
        ));
    }
    let quota: i64 = match cpu.quota {
        Some(n) => n,
        None => 0,
    };
    push_write(&mut out, quota != 0, CgroupWrite::Quota(quota));
    let period: u64 = match cpu.period {
        Some(n) => n,
        None => 0,
    };
    push_write(&mut out, period != 0, CgroupWrite::Period(period));
    out
}

fn push_memory_writes(out: &mut Vec<CgroupWrite>, m: &LinuxMemory)
    requires
        memory_swap_limit(*m) is Ok,
    ensures
        final(out)@ == old(out)@ + memory_writes(*m),
{
    let both: i64 = match m.swap {
        Some(n) => n,
        None => 0,
    };
    let limit: i64 = match m.limit {
        Some(n) => n,
        None => 0,
    };
    let swap: i64 = match convert_memory_swap_to_v2_value(both, limit) {
        Ok(n) => n,
        Err(_) => 0,
    };
    push_write(out, limit != 0, CgroupWrite::MemoryLimit(limit));
    push_write(out, swap != 0 || both > 0, CgroupWrite::SwapLimit(swap));
    let soft: i64 = match m.reservation {
        Some(n) => n,
        None => 0,
    };
    push_write(out, soft != 0, CgroupWrite::SoftLimit(soft));
    proof {
        assert(out@ =~= old(out)@ + memory_writes(*m));
    }
}

/// Plans what is written for resource limits. `supported` tells for each limit on
/// huge pages whether the machine has pages of that size. Where the cgroup allows
/// all devices, no device rules are written.
pub fn plan_resources(r: &LinuxResources, supported: &Vec<bool>, allowed_all: bool) -> (res: Result<
    CgroupUpdate,
    CgroupError,
>)
    requires
        resource_fault(*r) is None ==> weighable(*r),
        supported@.len() == hugepage_list(*r).len(),
    ensures
        match res {
            Err(e) => resource_fault(*r) == Some(e),
            Ok(u) => {
                &&& resource_fault(*r) is None
                &&& u.writes@ == controller_writes(*r)
                &&& match r.block_io {
                    Some(b) => u.block_io matches Some(x) && is_block_io(x, b),
                    None => u.block_io is None,
                }
                &&& huge_page_views(u.hugepages@) == huge_pages(hugepage_list(*r), supported@)
                &&& rules(u.devices@) == if allowed_all {
                    Seq::<DeviceRule>::empty()
                } else {
                    device_rules(device_list(*r))
                }
            },
        },
{
    if let Err(e) = validate_resources(r) {
        return Err(e);
    }
    let mut writes: Vec<CgroupWrite> = Vec::new();
    if let Some(cpu) = &r.cpu {
        writes = cpu_write_list(cpu);
    }
    if let Some(memory) = &r.memory {
        push_memory_writes(&mut writes, memory);
    }
    if let Some(limit) = r.pids {
        writes.push(
            CgroupWrite::Pids(
                if limit > 0 {
                    Some(limit)
                } else {
                    None
                },
            ),
        );
    }
    proof {
        assert(writes@ =~= controller_writes(*r));
    }
    let block_io = match &r.block_io {
        Some(b) => Some(set_block_io_resources(b)),
        None => None,
    };
    let hugepages = match &r.hugepage_limits {
        Some(v) => set_hugepages_resources(v, supported),
        None => {
            let none: Vec<HugePageResource> = Vec::new();
            proof {
                assert(huge_page_views(none@) =~= huge_pages(hugepage_list(*r), supported@));
            }
            none
        },
    };
    let devices = if allowed_all {
        let none: Vec<DeviceResource> = Vec::new();
        proof {
            assert(rules(none@) =~= Seq::<DeviceRule>::empty());
        }
        none
    } else {
        match &r.devices {
            Some(v) => set_devices_resources(v),
            None => {
                let none: Vec<DeviceResource> = Vec::new();
                proof {
                    assert(rules(none@) =~= device_rules(device_list(*r)));
                }
                none
            },
        }
    };
    Ok(CgroupUpdate { writes, block_io, hugepages, devices })
}

} // verus!
