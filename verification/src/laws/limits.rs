//! What resource limits come to, for every configuration.
use vstd::prelude::*;

use super::count::{before, lemma_staged_before, once, staged, times};
use crate::cgroups::resources::{
    controller_writes, cpu_writes, huge_pages, is_block_io, memory_writes, pid_writes,
    resource_fault, weight_of, weighable, write_when, BlkIoDeviceThrottleResource, BlkIoResources,
    CgroupError, CgroupWrite,
};
use crate::oci::{
    LinuxBlockIo, LinuxCpu, LinuxHugepageLimit, LinuxMemory, LinuxResources, LinuxThrottleDevice,
};

verus! {

/// What a number says: 0 where it is absent.
pub open spec fn said(n: Option<i64>) -> int {
    match n {
        Some(v) => v as int,
        None => 0,
    }
}

/// The limit on swap alone, where one is asked for: that of memory and swap together less
/// that of memory. Without a limit on both, swap is unlimited where memory is.
pub open spec fn swap_alone(m: LinuxMemory) -> Option<int> {
    let both = said(m.swap);
    let memory = said(m.limit);
    if both > 0 {
        Some(both - memory)
    } else if both == -1 || (both == 0 && memory == -1) {
        Some(-1)
    } else {
        None
    }
}

/// How often each value is written, for resources that are accepted: each limit that is
/// present and not 0 is written once, as it stands, and nothing else is.
pub proof fn law_each_limit_is_written_as_it_stands(r: LinuxResources)
    requires
        resource_fault(r) is None,
        weighable(r),
    ensures
        ({
            let w = controller_writes(r);
            &&& times(w, CgroupWrite::Cpus) == once(r.cpu matches Some(c) && c.cpus is Some)
            &&& times(w, CgroupWrite::Mems) == once(r.cpu matches Some(c) && c.mems is Some)
            &&& forall|n: u64|
                #[trigger] times(w, CgroupWrite::Shares(n)) == once(
                    r.cpu matches Some(c) && c.shares matches Some(s) && s != 0 && is_weight(
                        n as int,
                        s as int,
                    ),
                )
            &&& forall|n: i64|
                #[trigger] times(w, CgroupWrite::Quota(n)) == once(
                    n != 0 && (r.cpu matches Some(c) && c.quota == Some(n)),
                )
            &&& forall|n: u64|
                #[trigger] times(w, CgroupWrite::Period(n)) == once(
                    n != 0 && (r.cpu matches Some(c) && c.period == Some(n)),
                )
            &&& forall|n: i64|
                #[trigger] times(w, CgroupWrite::MemoryLimit(n)) == once(
                    n != 0 && (r.memory matches Some(m) && m.limit == Some(n)),
                )
            &&& forall|n: i64|
                #[trigger] times(w, CgroupWrite::SoftLimit(n)) == once(
                    n != 0 && (r.memory matches Some(m) && m.reservation == Some(n)),
                )
            &&& forall|n: i64|
                #[trigger] times(w, CgroupWrite::SwapLimit(n)) == once(
                    r.memory matches Some(m) && swap_alone(m) == Some(n as int),
                )
            &&& forall|n: i64|
                #[trigger] times(w, CgroupWrite::Pids(Some(n))) == once(n > 0 && r.pids == Some(n))
            &&& times(w, CgroupWrite::Pids(None)) == once(r.pids matches Some(n) && n <= 0)
        }),
{
    reveal(write_count);
    let w = controller_writes(r);
    assert forall|x: CgroupWrite| #[trigger] times(w, x) == write_count(r, x) by {
        lemma_write_count(r, x);
    }
}

/// Whether a weight is that of a shares value: 2 up to 262144 are spread evenly over 1 up to
/// 10000, rounded down.
pub open spec fn is_weight(weight: int, shares: int) -> bool {
    (weight - 1) * 262142 <= (shares - 2) * 9999 < weight * 262142
}

#[verifier::opaque]
spec fn write_count(r: LinuxResources, x: CgroupWrite) -> nat {
    match x {
        CgroupWrite::Cpus => once(r.cpu matches Some(c) && c.cpus is Some),
        CgroupWrite::Mems => once(r.cpu matches Some(c) && c.mems is Some),
        CgroupWrite::Shares(n) => once(
            r.cpu matches Some(c) && c.shares matches Some(s) && s != 0 && is_weight(
                n as int,
                s as int,
            ),
        ),
        CgroupWrite::Quota(n) => once(n != 0 && (r.cpu matches Some(c) && c.quota == Some(n))),
        CgroupWrite::Period(n) => once(n != 0 && (r.cpu matches Some(c) && c.period == Some(n))),
        CgroupWrite::MemoryLimit(n) => once(
            n != 0 && (r.memory matches Some(m) && m.limit == Some(n)),
        ),
        CgroupWrite::SoftLimit(n) => once(
            n != 0 && (r.memory matches Some(m) && m.reservation == Some(n)),
        ),
        CgroupWrite::SwapLimit(n) => once(
            r.memory matches Some(m) && swap_alone(m) == Some(n as int),
        ),
        CgroupWrite::Pids(Some(n)) => once(n > 0 && r.pids == Some(n)),
        CgroupWrite::Pids(None) => once(r.pids matches Some(n) && n <= 0),
    }
}

broadcast proof fn lemma_times_when(cond: bool, w: CgroupWrite, x: CgroupWrite)
    ensures
        #[trigger] times(write_when(cond, w), x) == once(cond && w == x),
{
    broadcast use super::count::group_times;

}

proof fn lemma_weight(weight: int, shares: int)
    requires
        2 <= shares,
    ensures
        is_weight(weight, shares) <==> weight == weight_of(shares),
{
}

#[verifier::opaque]
spec fn cpu_count(c: LinuxCpu, x: CgroupWrite) -> nat {
    match x {
        CgroupWrite::Cpus => once(c.cpus is Some),
        CgroupWrite::Mems => once(c.mems is Some),
        CgroupWrite::Shares(n) => once(
            c.shares matches Some(s) && s != 0 && is_weight(n as int, s as int),
        ),
        CgroupWrite::Quota(n) => once(n != 0 && c.quota == Some(n)),
        CgroupWrite::Period(n) => once(n != 0 && c.period == Some(n)),
        _ => 0,
    }
}

proof fn lemma_cpu_count(c: LinuxCpu, x: CgroupWrite)
    requires
        c.shares matches Some(s) ==> s != 1 && s <= crate::cgroups::resources::MAX_SHARES,
    ensures
        times(cpu_writes(c), x) == cpu_count(c, x),
{
    broadcast use super::count::group_times;
    broadcast use lemma_times_when;

    reveal(cpu_count);
    if let Some(s) = c.shares {
        if s != 0 {
            assert(0 <= weight_of(s as int) <= u64::MAX);
            if let CgroupWrite::Shares(n) = x {
                lemma_weight(n as int, s as int);
            }
        }
    }
}

#[verifier::opaque]
spec fn memory_count(m: LinuxMemory, x: CgroupWrite) -> nat {
    match x {
        CgroupWrite::MemoryLimit(n) => once(n != 0 && m.limit == Some(n)),
        CgroupWrite::SoftLimit(n) => once(n != 0 && m.reservation == Some(n)),
        CgroupWrite::SwapLimit(n) => once(swap_alone(m) == Some(n as int)),
        _ => 0,
    }
}

proof fn lemma_memory_count(m: LinuxMemory, x: CgroupWrite)
    requires
        crate::cgroups::resources::memory_swap_limit(m) is Ok,
    ensures
        times(memory_writes(m), x) == memory_count(m, x),
{
    broadcast use super::count::group_times;
    broadcast use lemma_times_when;

    reveal(memory_count);
}

#[verifier::opaque]
spec fn pid_count(limit: i64, x: CgroupWrite) -> nat {
    match x {
        CgroupWrite::Pids(Some(n)) => once(n > 0 && limit == n),
        CgroupWrite::Pids(None) => once(limit <= 0),
        _ => 0,
    }
}

proof fn lemma_pid_count(limit: i64, x: CgroupWrite)
    ensures
        times(pid_writes(limit), x) == pid_count(limit, x),
{
    broadcast use super::count::group_times;

    reveal(pid_count);
}

spec fn part_counts(r: LinuxResources, x: CgroupWrite) -> nat {
    (match r.cpu {
        Some(c) => cpu_count(c, x),
        None => 0,
    }) + (match r.memory {
        Some(m) => memory_count(m, x),
        None => 0,
    }) + (match r.pids {
        Some(n) => pid_count(n, x),
        None => 0,
    })
}

proof fn lemma_parts(r: LinuxResources, x: CgroupWrite)
    ensures
        part_counts(r, x) == write_count(r, x),
{
    reveal(cpu_count);
    reveal(memory_count);
    reveal(pid_count);
    reveal(write_count);
}

proof fn lemma_three(
    c: Seq<CgroupWrite>,
    m: Seq<CgroupWrite>,
    p: Seq<CgroupWrite>,
    x: CgroupWrite,
)
    ensures
        times(c + m + p, x) == times(c, x) + times(m, x) + times(p, x),
{
    broadcast use super::count::group_times;

}

proof fn lemma_write_count(r: LinuxResources, x: CgroupWrite)
    requires
        resource_fault(r) is None,
        weighable(r),
    ensures
        times(controller_writes(r), x) == write_count(r, x),
{
    let c = match r.cpu {
        Some(c) => cpu_writes(c),
        None => Seq::empty(),
    };
    let m = match r.memory {
        Some(m) => memory_writes(m),
        None => Seq::empty(),
    };
    let p = match r.pids {
        Some(n) => pid_writes(n),
        None => Seq::empty(),
    };
    lemma_three(c, m, p, x);
    super::count::lemma_times_empty(x);
    if let Some(cpu) = r.cpu {
        lemma_cpu_count(cpu, x);
    }
    if let Some(memory) = r.memory {
        lemma_memory_count(memory, x);
    }
    if let Some(n) = r.pids {
        lemma_pid_count(n, x);
    }
    lemma_parts(r, x);
}

/// The writes come in one order: those for processors, for memory and for the number of
/// processes; a quota comes before its period, and a memory limit before that of swap.
pub open spec fn stage_of(w: CgroupWrite) -> Option<int> {
    match w {
        CgroupWrite::Cpus => Some(0),
        CgroupWrite::Mems => Some(1),
        CgroupWrite::Shares(_) => Some(2),
        CgroupWrite::Quota(_) => Some(3),
        CgroupWrite::Period(_) => Some(4),
        CgroupWrite::MemoryLimit(_) => Some(5),
        CgroupWrite::SwapLimit(_) => Some(6),
        CgroupWrite::SoftLimit(_) => Some(7),
        CgroupWrite::Pids(_) => Some(8),
    }
}

/// The stages of the writes.
pub open spec fn stages() -> spec_fn(CgroupWrite) -> Option<int> {
    |w: CgroupWrite| stage_of(w)
}

proof fn lemma_cpu_staged(c: LinuxCpu)
    ensures
        staged(cpu_writes(c), stages(), 0, 5),
{
    let st = stages();
    let p0 = write_when(c.cpus is Some, CgroupWrite::Cpus);
    let p1 = write_when(c.mems is Some, CgroupWrite::Mems);
    let p2 = write_when(
        crate::cgroups::resources::set_u64(c.shares),
        CgroupWrite::Shares(weight_of(c.shares->0 as int) as u64),
    );
    let p3 = write_when(
        crate::cgroups::resources::set_i64(c.quota),
        CgroupWrite::Quota(c.quota->0),
    );
    let p4 = write_when(
        crate::cgroups::resources::set_u64(c.period),
        CgroupWrite::Period(c.period->0),
    );
    assert(staged(p0, st, 0, 1));
    assert(staged(p1, st, 1, 2));
    assert(staged(p2, st, 2, 3));
    assert(staged(p3, st, 3, 4));
    assert(staged(p4, st, 4, 5));
    super::count::lemma_staged_add(p0, p1, st, 0, 1, 2);
    super::count::lemma_staged_add(p0 + p1, p2, st, 0, 2, 3);
    super::count::lemma_staged_add(p0 + p1 + p2, p3, st, 0, 3, 4);
    super::count::lemma_staged_add(p0 + p1 + p2 + p3, p4, st, 0, 4, 5);
}

proof fn lemma_memory_staged(m: LinuxMemory)
    ensures
        staged(memory_writes(m), stages(), 5, 8),
{
    let st = stages();
    let swap = crate::cgroups::resources::memory_swap_limit(m)->Ok_0;
    let p0 = write_when(
        crate::cgroups::resources::set_i64(m.limit),
        CgroupWrite::MemoryLimit(m.limit->0),
    );
    let p1 = write_when(
        swap != 0 || crate::cgroups::devices::or_zero(m.swap) > 0,
        CgroupWrite::SwapLimit(swap as i64),
    );
    let p2 = write_when(
        crate::cgroups::resources::set_i64(m.reservation),
        CgroupWrite::SoftLimit(m.reservation->0),
    );
    assert(staged(p0, st, 5, 6));
    assert(staged(p1, st, 6, 7));
    assert(staged(p2, st, 7, 8));
    super::count::lemma_staged_add(p0, p1, st, 5, 6, 7);
    super::count::lemma_staged_add(p0 + p1, p2, st, 5, 7, 8);
}

/// The writes come in the order of their stages.
pub proof fn law_limits_are_written_in_order(r: LinuxResources, a: CgroupWrite, b: CgroupWrite)
    requires
        stage_of(a)->0 < stage_of(b)->0,
    ensures
        before(controller_writes(r), a, b),
{
    let st = stages();
    let c = match r.cpu {
        Some(c) => cpu_writes(c),
        None => Seq::empty(),
    };
    let m = match r.memory {
        Some(m) => memory_writes(m),
        None => Seq::empty(),
    };
    let p = match r.pids {
        Some(n) => pid_writes(n),
        None => Seq::empty(),
    };
    if let Some(cpu) = r.cpu {
        lemma_cpu_staged(cpu);
    }
    if let Some(memory) = r.memory {
        lemma_memory_staged(memory);
    }
    assert(staged(c, st, 0, 5));
    assert(staged(m, st, 5, 8));
    assert(staged(p, st, 8, 9));
    super::count::lemma_staged_add(c, m, st, 0, 5, 8);
    super::count::lemma_staged_add(c + m, p, st, 0, 8, 9);
    lemma_staged_before(controller_writes(r), st, 0, 9, a, b);
}

/// Whether a number is present and not 0.
pub open spec fn asked(n: Option<i64>) -> bool {
    n matches Some(v) && v != 0
}

/// Which resources are refused: those that ask for a control that only version 1 of cgroups
/// has, and a limit of memory and swap together without a limit on memory, or below it.
pub proof fn law_which_limits_are_refused(r: LinuxResources)
    ensures
        ({
            let network = r.network matches Some(n) && ((n.class_id matches Some(c) && c != 0) || (
            n.priorities matches Some(p) && p@.len() > 0));
            let realtime = r.cpu matches Some(c) && ((c.realtime_period matches Some(p) && p != 0)
                || asked(c.realtime_runtime));
            let old = r.memory matches Some(m) && (asked(m.kernel) || asked(m.kernel_tcp)
                || m.swappiness is Some || m.disable_oom_killer == Some(true));
            let both = match r.memory {
                Some(m) => said(m.swap),
                None => 0,
            };
            let memory = match r.memory {
                Some(m) => said(m.limit),
                None => 0,
            };
            let joint = both != 0 && both != -1;
            let leaf = r.block_io matches Some(b) && ((b.leaf_weight matches Some(w) && w != 0) || (
            b.weight_device matches Some(v) && exists|i: int|
                0 <= i < v@.len() && (#[trigger] v@[i]).leaf_weight is Some && v@[i].leaf_weight->0
                    != 0));
            resource_fault(r) == if network {
                Some(CgroupError::Network)
            } else if realtime {
                Some(CgroupError::Realtime)
            } else if old {
                Some(CgroupError::Memory)
            } else if joint && (memory == 0 || memory == -1) {
                Some(CgroupError::SwapWithoutMemory)
            } else if joint && memory < 0 {
                Some(CgroupError::InvalidMemory(memory as i64))
            } else if joint && both < memory {
                Some(CgroupError::SwapBelowMemory)
            } else if leaf {
                Some(CgroupError::LeafWeight)
            } else {
                None
            }
        }),
{
    if let Some(b) = r.block_io {
        if let Some(v) = b.weight_device {
            if exists|i: int|
                0 <= i < v@.len() && (#[trigger] v@[i]).leaf_weight is Some && v@[i].leaf_weight->0
                    != 0 {
                let i = choose|i: int|
                    0 <= i < v@.len() && (#[trigger] v@[i]).leaf_weight is Some
                        && v@[i].leaf_weight->0 != 0;
                assert(crate::cgroups::resources::set_weight(
                    b.weight_device->0@[i].leaf_weight,
                ));
            }
        }
    }
}

/// Whether rate limits are those of a configuration, one for one.
pub open spec fn same_rates(
    written: Seq<BlkIoDeviceThrottleResource>,
    asked: Option<Vec<LinuxThrottleDevice>>,
) -> bool {
    let list = match asked {
        Some(v) => v@,
        None => Seq::empty(),
    };
    &&& written.len() == list.len()
    &&& forall|i: int|
        0 <= i < list.len() ==> {
            &&& super::copying::same_wide_bits((#[trigger] written[i]).major, list[i].major)
            &&& super::copying::same_wide_bits(written[i].minor, list[i].minor)
            &&& written[i].rate == list[i].rate
        }
}

/// Block limits: reads are limited by the limits on reads and writes by those on writes,
/// bytes by those on bytes and operations by those on operations. Each device that is to have
/// a weight gets that of the container.
pub proof fn law_block_limits_are_those_of_the_configuration(x: BlkIoResources, b: LinuxBlockIo)
    requires
        is_block_io(x, b),
    ensures
        x.weight == b.weight,
        same_rates(x.throttle_read_bps_device@, b.throttle_read_bps_device),
        same_rates(x.throttle_write_bps_device@, b.throttle_write_bps_device),
        same_rates(x.throttle_read_iops_device@, b.throttle_read_iops_device),
        same_rates(x.throttle_write_iops_device@, b.throttle_write_iops_device),
        ({
            let list = match b.weight_device {
                Some(v) => v@,
                None => Seq::empty(),
            };
            &&& x.weight_device@.len() == list.len()
            &&& forall|i: int|
                0 <= i < list.len() ==> {
                    let d = #[trigger] x.weight_device@[i];
                    &&& super::copying::same_wide_bits(d.major, list[i].major)
                    &&& super::copying::same_wide_bits(d.minor, list[i].minor)
                    &&& d.weight == b.weight
                    &&& d.leaf_weight is None
                }
        }),
{
}

/// A limit on huge pages is set where the machine has pages of that size, with the number of
/// the configuration, and not elsewhere; the order is kept.
pub proof fn law_supported_huge_pages_are_limited(
    a: Seq<LinuxHugepageLimit>,
    supported: Seq<bool>,
    h: LinuxHugepageLimit,
    b: bool,
    bits: u64,
)
    requires
        supported.len() == a.len(),
        super::copying::same_wide_bits(bits, h.limit),
    ensures
        huge_pages(Seq::empty(), supported) == Seq::<(Seq<char>, int)>::empty(),
        huge_pages(a.push(h), supported.push(b)) == if b {
            huge_pages(a, supported).push((h.page_size@, bits as int))
        } else {
            huge_pages(a, supported)
        },
{
    assert(a.push(h).drop_last() =~= a);
    lemma_huge_pages_agree(a, supported, supported.push(b));
}

proof fn lemma_huge_pages_agree(a: Seq<LinuxHugepageLimit>, s: Seq<bool>, t: Seq<bool>)
    requires
        a.len() <= s.len(),
        a.len() <= t.len(),
        forall|i: int| 0 <= i < a.len() ==> s[i] == t[i],
    ensures
        huge_pages(a, s) == huge_pages(a, t),
    decreases a.len(),
{
    if a.len() > 0 {
        lemma_huge_pages_agree(a.drop_last(), s, t);
    }
}

/// The limits on huge pages and the device rules that count are those of the resources, and
/// none where there are none.
pub proof fn law_which_lists_of_resources_count(r: LinuxResources)
    ensures
        r.hugepage_limits is Some ==> crate::cgroups::resources::hugepage_list(r)
            == r.hugepage_limits->0@,
        r.hugepage_limits is None ==> crate::cgroups::resources::hugepage_list(r).len() == 0,
        r.devices is Some ==> crate::cgroups::resources::device_list(r) == r.devices->0@,
        r.devices is None ==> crate::cgroups::resources::device_list(r).len() == 0,
{
}

/// A configuration is refused for its resources where it has any that are refused.
pub proof fn law_which_resources_of_a_configuration_count(spec: crate::oci::Spec)
    ensures
        ({
            let there = spec.linux is Some && spec.linux->0.resources is Some;
            &&& there ==> crate::cgroups::manager::spec_fault(spec) == resource_fault(
                spec.linux->0.resources->0,
            )
            &&& !there ==> crate::cgroups::manager::spec_fault(spec) is None
            &&& there && spec.linux->0.resources->0.devices is Some
                ==> crate::cgroups::devices::spec_devices(spec)
                == spec.linux->0.resources->0.devices->0@
            &&& !there || spec.linux->0.resources->0.devices is None
                ==> crate::cgroups::devices::spec_devices(spec).len() == 0
        }),
{
}

/// A signed number and the unsigned one in its place have the same bits.
pub proof fn law_bits_are_kept(n: i64)
    ensures
        (crate::cgroups::resources::as_bits(n as int) - n) % 0x1_0000_0000_0000_0000 == 0,
        0 <= crate::cgroups::resources::as_bits(n as int) < 0x1_0000_0000_0000_0000,
{
}

} // verus!
