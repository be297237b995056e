//! What becomes of the devices that the host attaches.
use vstd::prelude::*;

use crate::device::{
    collides, collision_free, complete, device_key, is_rule_for, is_supported, is_updated,
    mapped_devices, mapped_rule, moved, moves, rule_added, rules_of, spaced, spec_updated, Device,
    DeviceError, DeviceInfo, HostKey,
};
use crate::oci::{DeviceType, Linux, LinuxDevice, LinuxDeviceCgroup, Spec};
use crate::text::views;

verus! {

/// Whether a device is the first of its path and the path has new numbers.
pub open spec fn is_first_of_path(
    devices: Seq<LinuxDevice>,
    updates: Map<Seq<char>, DeviceInfo>,
    i: int,
) -> bool {
    &&& 0 <= i < devices.len()
    &&& updates.contains_key(devices[i].path@)
    &&& forall|j: int| 0 <= j < i ==> (#[trigger] devices[j]).path@ != devices[i].path@
}

/// The first device of a path gets the numbers that the path has in the guest; every other
/// device stays as it is, and so does all else of it.
pub proof fn law_a_device_gets_the_numbers_of_its_path(
    devices: Seq<LinuxDevice>,
    updates: Map<Seq<char>, DeviceInfo>,
    i: int,
)
    requires
        0 <= i < devices.len(),
    ensures
        ({
            let n = devices.len() as int;
            let d = mapped_devices(devices, updates, n)[i];
            &&& mapped_devices(devices, updates, n).len() == n
            &&& is_first_of_path(devices, updates, i) ==> d.major
                == updates[devices[i].path@].guest_major && d.minor
                == updates[devices[i].path@].guest_minor && d.path == devices[i].path && d.typ
                == devices[i].typ && d.file_mode == devices[i].file_mode && d.uid == devices[i].uid
                && d.gid == devices[i].gid
            &&& !is_first_of_path(devices, updates, i) ==> d == devices[i]
        }),
{
    assert(is_updated(devices, updates, i) == is_first_of_path(devices, updates, i));
}

/// Whether a rule speaks of a device: it has its kind and its two numbers.
pub open spec fn speaks_of(rule: LinuxDeviceCgroup, d: LinuxDevice) -> bool {
    &&& rule.major == Some(d.major)
    &&& rule.minor == Some(d.minor)
    &&& rule.typ == Some(d.typ) || (rule.typ is None && d.typ == DeviceType::A)
}

/// Whether two devices that both get new numbers had the same ones.
pub open spec fn clash(
    devices: Seq<LinuxDevice>,
    updates: Map<Seq<char>, DeviceInfo>,
    i: int,
    j: int,
) -> bool {
    &&& i < j
    &&& is_first_of_path(devices, updates, i)
    &&& is_first_of_path(devices, updates, j)
    &&& devices[i].typ == devices[j].typ && devices[i].major == devices[j].major
        && devices[i].minor == devices[j].minor
}

proof fn lemma_moved_some(
    devices: Seq<LinuxDevice>,
    updates: Map<Seq<char>, DeviceInfo>,
    n: int,
    key: HostKey,
)
    requires
        0 <= n <= devices.len(),
    ensures
        moved(moves(devices, updates, n), key) is Some <==> exists|i: int|
            0 <= i < n && #[trigger] is_first_of_path(devices, updates, i) && device_key(devices[i])
                == key,
        forall|i: int|
            0 <= i < n && #[trigger] is_first_of_path(devices, updates, i) && device_key(devices[i])
                == key && (forall|j: int|
                i < j < n && #[trigger] is_first_of_path(devices, updates, j) ==> device_key(
                    devices[j],
                ) != key) ==> moved(moves(devices, updates, n), key) == Some(
                updates[devices[i].path@],
            ),
    decreases n,
{
    if n > 0 {
        lemma_moved_some(devices, updates, n - 1, key);
        let last = n - 1;
        assert(is_updated(devices, updates, last) == is_first_of_path(devices, updates, last));
        let m = moves(devices, updates, n);
        if is_updated(devices, updates, last) {
            assert(m.drop_last() =~= moves(devices, updates, n - 1));
            if device_key(devices[last]) == key {
                assert(is_first_of_path(devices, updates, last));
            }
        }
    }
}

/// An update of devices is refused exactly where two of the devices that get new numbers had
/// the same ones.
pub proof fn law_which_devices_collide(
    devices: Seq<LinuxDevice>,
    updates: Map<Seq<char>, DeviceInfo>,
)
    ensures
        collision_free(devices, updates, devices.len() as int) <==> forall|i: int, j: int|
            !(#[trigger] clash(devices, updates, i, j)),
{
    let n = devices.len() as int;
    if collision_free(devices, updates, n) {
        assert forall|i: int, j: int| !(#[trigger] clash(devices, updates, i, j)) by {
            if clash(devices, updates, i, j) {
                lemma_moved_some(devices, updates, j, device_key(devices[j]));
                assert(is_first_of_path(devices, updates, i));
                assert(is_updated(devices, updates, j));
                assert(collides(devices, updates, j));
            }
        }
    }
    if forall|i: int, j: int| !(#[trigger] clash(devices, updates, i, j)) {
        assert forall|j: int| 0 <= j < n implies !#[trigger] collides(devices, updates, j) by {
            if collides(devices, updates, j) {
                lemma_moved_some(devices, updates, j, device_key(devices[j]));
                let i = choose|i: int|
                    0 <= i < j && #[trigger] is_first_of_path(devices, updates, i) && device_key(
                        devices[i],
                    ) == device_key(devices[j]);
                assert(is_first_of_path(devices, updates, j));
                assert(clash(devices, updates, i, j));
            }
        }
    }
}

/// A rule that speaks of a device with new numbers gets them, and keeps all else.
pub proof fn law_a_rule_gets_the_numbers_of_its_device(
    devices: Seq<LinuxDevice>,
    updates: Map<Seq<char>, DeviceInfo>,
    rule: LinuxDeviceCgroup,
    i: int,
)
    requires
        forall|a: int, b: int| !(#[trigger] clash(devices, updates, a, b)),
        is_first_of_path(devices, updates, i),
        speaks_of(rule, devices[i]),
    ensures
        ({
            let after = mapped_rule(rule, moves(devices, updates, devices.len() as int));
            &&& after.major == Some(updates[devices[i].path@].guest_major)
            &&& after.minor == Some(updates[devices[i].path@].guest_minor)
            &&& after.allow == rule.allow
            &&& after.typ == rule.typ
            &&& after.access == rule.access
        }),
{
    let n = devices.len() as int;
    let key = device_key(devices[i]);
    lemma_moved_some(devices, updates, n, key);
    assert forall|j: int|
        i < j < n && #[trigger] is_first_of_path(devices, updates, j) implies device_key(devices[j])
        != key by {
        assert(!clash(devices, updates, i, j));
    }
    assert(moved(moves(devices, updates, n), key) == Some(updates[devices[i].path@]));
}

/// A rule that speaks of no device with new numbers stays, and so does one without numbers of
/// its own.
pub proof fn law_a_rule_of_no_device_stays(
    devices: Seq<LinuxDevice>,
    updates: Map<Seq<char>, DeviceInfo>,
    rule: LinuxDeviceCgroup,
)
    requires
        forall|i: int| #[trigger]
            is_first_of_path(devices, updates, i) ==> !speaks_of(rule, devices[i]),
    ensures
        mapped_rule(rule, moves(devices, updates, devices.len() as int)) == rule,
{
    let n = devices.len() as int;
    if rule.major is Some && rule.minor is Some {
        let key = HostKey {
            typ: match rule.typ {
                Some(t) => t,
                None => DeviceType::A,
            },
            major: rule.major->0,
            minor: rule.minor->0,
        };
        lemma_moved_some(devices, updates, n, key);
        if moved(moves(devices, updates, n), key) is Some {
            let i = choose|i: int|
                0 <= i < n && #[trigger] is_first_of_path(devices, updates, i) && device_key(
                    devices[i],
                ) == key;
            assert(speaks_of(rule, devices[i]));
        }
    }
}

/// Every update must find a device: the set of updates is complete exactly where each path of
/// it is that of some device.
pub proof fn law_every_update_finds_a_device(
    devices: Seq<LinuxDevice>,
    updates: Map<Seq<char>, DeviceInfo>,
    path: Seq<char>,
)
    requires
        complete(devices, updates),
        updates.contains_key(path),
    ensures
        exists|i: int| 0 <= i < devices.len() && (#[trigger] devices[i]).path@ == path,
{
}

/// The rule of a device allows to read it, to write it and to make its node, and is about that
/// block device alone.
pub proof fn law_the_rule_of_a_device_is_about_it_alone(
    before: Linux,
    after: Linux,
    info: DeviceInfo,
)
    requires
        rule_added(before, after, info),
    ensures
        rules_of(after).len() == rules_of(before).len() + 1,
        forall|i: int|
            0 <= i < rules_of(before).len() ==> #[trigger] rules_of(after)[i] == rules_of(
                before,
            )[i],
        ({
            let r = rules_of(after).last();
            &&& r.allow
            &&& r.typ == Some(DeviceType::B)
            &&& r.major == Some(info.guest_major)
            &&& r.minor == Some(info.guest_minor)
            &&& r.access is Some && r.access->0@ == "rwm"@
        }),
{
    let a = rules_of(after);
    let b = rules_of(before);
    assert(a.len() == b.push(a.last()).len());
    assert forall|i: int| 0 <= i < b.len() implies #[trigger] a[i] == b[i] by {
        assert(b.push(a.last())[i] == b[i]);
    }
    assert(is_rule_for(a.last(), info));
}

/// Only block devices on MMIO with both paths and without options are supported.
pub proof fn law_which_devices_are_supported(d: Device)
    ensures
        is_supported(d) <==> d.typ@ == "mmioblk"@ && d.options@.len() == 0 && d.vm_path@.len() > 0
            && d.container_path@.len() > 0,
{
}

/// Texts are written with a space between each two.
pub proof fn law_texts_are_joined_by_spaces(
    a: Seq<Seq<char>>,
    b: Seq<Seq<char>>,
    part: Seq<char>,
)
    requires
        a.len() > 0,
        b.len() > 0,
    ensures
        spaced(Seq::empty()) == Seq::<char>::empty(),
        spaced(seq![part]) == part,
        spaced(a + b) == spaced(a) + seq![' '] + spaced(b),
    decreases b.len(),
{
    let all = a + b;
    assert(all.drop_last() =~= a + b.drop_last());
    assert(all.last() == b.last());
    if b.len() == 1 {
        assert(a + b.drop_last() =~= a);
        assert(spaced(a).push(' ') + b[0] =~= spaced(a) + seq![' '] + spaced(b));
    } else {
        law_texts_are_joined_by_spaces(a, b.drop_last(), part);
        assert((spaced(a) + seq![' '] + spaced(b.drop_last())).push(' ') + b.last() =~= spaced(a)
            + seq![' '] + (spaced(b.drop_last()).push(' ') + b.last()));
    }
}

/// The device nodes of a configuration.
pub open spec fn nodes(spec: Spec) -> Seq<LinuxDevice> {
    if spec.linux is Some && spec.linux->0.devices is Some {
        spec.linux->0.devices->0@
    } else {
        Seq::empty()
    }
}

/// The device rules of a configuration.
pub open spec fn node_rules(spec: Spec) -> Seq<LinuxDeviceCgroup> {
    if spec.linux is Some && spec.linux->0.resources is Some
        && spec.linux->0.resources->0.devices is Some {
        spec.linux->0.resources->0.devices->0@
    } else {
        Seq::empty()
    }
}

/// What a configuration keeps whatever comes of an update of its devices.
pub open spec fn keeps_the_rest(a: Linux, b: Linux) -> bool {
    &&& b.namespaces == a.namespaces
    &&& b.uid_mappings == a.uid_mappings
    &&& b.gid_mappings == a.gid_mappings
    &&& b.cgroups_path == a.cgroups_path
    &&& b.sysctl == a.sysctl
    &&& b.seccomp == a.seccomp
    &&& b.resources is Some == a.resources is Some
    &&& a.resources is Some ==> {
        let r = a.resources->0;
        let t = b.resources->0;
        &&& t.memory == r.memory
        &&& t.cpu == r.cpu
        &&& t.pids == r.pids
        &&& t.block_io == r.block_io
        &&& t.hugepage_limits == r.hugepage_limits
        &&& t.network == r.network
    }
}

/// An update of devices that succeeds gives each device and each rule its numbers, finds a
/// device for every update, and changes nothing else.
pub proof fn law_what_an_update_of_devices_changes(
    a: Spec,
    b: Spec,
    updates: Map<Seq<char>, DeviceInfo>,
    i: int,
    j: int,
    path: Seq<char>,
)
    requires
        spec_updated(a, b, updates, Ok(())),
    ensures
        a.linux is Some && b.linux is Some,
        keeps_the_rest(a.linux->0, b.linux->0),
        nodes(b).len() == nodes(a).len(),
        node_rules(b).len() == node_rules(a).len(),
        is_first_of_path(nodes(a), updates, i) ==> nodes(b)[i].major
            == updates[nodes(a)[i].path@].guest_major && nodes(b)[i].minor
            == updates[nodes(a)[i].path@].guest_minor && nodes(b)[i].path == nodes(a)[i].path,
        0 <= i < nodes(a).len() && !is_first_of_path(nodes(a), updates, i) ==> nodes(b)[i]
            == nodes(a)[i],
        is_first_of_path(nodes(a), updates, i) && 0 <= j < node_rules(a).len() && speaks_of(
            node_rules(a)[j],
            nodes(a)[i],
        ) ==> node_rules(b)[j].major == Some(updates[nodes(a)[i].path@].guest_major)
            && node_rules(b)[j].minor == Some(updates[nodes(a)[i].path@].guest_minor),
        0 <= j < node_rules(a).len() && (forall|k: int| #[trigger]
            is_first_of_path(nodes(a), updates, k) ==> !speaks_of(
                node_rules(a)[j],
                nodes(a)[k],
            )) ==> node_rules(b)[j] == node_rules(a)[j],
        updates.contains_key(path) ==> exists|k: int|
            0 <= k < nodes(a).len() && (#[trigger] nodes(a)[k]).path@ == path,
{
    let devices = nodes(a);
    let n = devices.len() as int;
    assert(crate::device::devices_of(a.linux->0) == devices);
    assert(crate::device::devices_of(b.linux->0) == nodes(b));
    assert(rules_of(a.linux->0) == node_rules(a));
    assert(rules_of(b.linux->0) == node_rules(b));
    assert(crate::device::limits_of(a.linux->0) == crate::device::limits_of(b.linux->0));
    law_which_devices_collide(devices, updates);
    if 0 <= i < n {
        law_a_device_gets_the_numbers_of_its_path(devices, updates, i);
    }
    if 0 <= j < node_rules(a).len() {
        let rule = node_rules(a)[j];
        assert(node_rules(b)[j] == mapped_rule(rule, moves(devices, updates, n)));
        if is_first_of_path(devices, updates, i) && speaks_of(rule, devices[i]) {
            law_a_rule_gets_the_numbers_of_its_device(devices, updates, rule, i);
        }
        if forall|k: int| #[trigger]
            is_first_of_path(devices, updates, k) ==> !speaks_of(rule, devices[k]) {
            law_a_rule_of_no_device_stays(devices, updates, rule);
        }
    }
}

/// Why an update of devices fails: the configuration has no Linux section, and stays as it is;
/// two devices with new numbers had the same ones, which are told; or updates found no device,
/// each of which is told once. In all of these cases no rule changes.
pub proof fn law_why_an_update_of_devices_fails(
    a: Spec,
    b: Spec,
    updates: Map<Seq<char>, DeviceInfo>,
    e: DeviceError,
    path: Seq<char>,
)
    requires
        spec_updated(a, b, updates, Err(e)),
    ensures
        a.linux is None ==> e is NoLinux && b == a,
        a.linux is Some ==> b.linux is Some && b.linux->0.resources == a.linux->0.resources
            && keeps_the_rest(a.linux->0, b.linux->0),
        a.linux is Some ==> e is ConflictingNumbers || e is Missing,
        e matches DeviceError::ConflictingNumbers(major, minor) ==> exists|i: int, j: int|
            #[trigger] clash(nodes(a), updates, i, j) && nodes(a)[j].major == major
                && nodes(a)[j].minor == minor,
        e matches DeviceError::Missing(paths) ==> {
            &&& views(paths@).no_duplicates()
            &&& views(paths@).contains(path) <==> updates.contains_key(path) && forall|k: int|
                0 <= k < nodes(a).len() ==> (#[trigger] nodes(a)[k]).path@ != path
        },
{
    if a.linux is Some {
        let devices = nodes(a);
        assert(crate::device::devices_of(a.linux->0) == devices);
        assert(crate::device::limits_of(a.linux->0) == crate::device::limits_of(b.linux->0));
        if let DeviceError::ConflictingNumbers(major, minor) = e {
            assert(crate::device::stopped_at(a.linux->0, b.linux->0, updates, major, minor));
            let j = choose|j: int|
                {
                    &&& 0 <= j < devices.len()
                    &&& #[trigger] collides(devices, updates, j)
                    &&& collision_free(devices, updates, j)
                    &&& major == devices[j].major && minor == devices[j].minor
                    &&& crate::device::devices_mapped(a.linux->0, b.linux->0, updates, j + 1)
                    &&& b.linux->0.resources == a.linux->0.resources
                };
            lemma_moved_some(devices, updates, j, device_key(devices[j]));
            let i = choose|i: int|
                0 <= i < j && #[trigger] is_first_of_path(devices, updates, i) && device_key(
                    devices[i],
                ) == device_key(devices[j]);
            assert(is_updated(devices, updates, j));
            assert(clash(devices, updates, i, j));
        }
        if let DeviceError::Missing(paths) = e {
            if updates.contains_key(path) {
                assert(views(paths@).contains(path) <==> !crate::device::has_path(devices, path));
            } else {
                assert(!views(paths@).contains(path));
            }
        }
    }
}

/// The numbers of a device are those that its id was made of.
pub proof fn law_an_id_holds_its_numbers(major: u32, minor: u32)
    ensures
        ({
            let a = major as u64;
            let b = minor as u64;
            let id = ((a & 0xffff_f000u64) << 32u64) | ((a & 0xfffu64) << 8u64) | ((b
                & 0xffff_ff00u64) << 12u64) | (b & 0xffu64);
            crate::device::major_of(id) == major && crate::device::minor_of(id) == minor
        }),
{
    let a = major as u64;
    let b = minor as u64;
    let id = ((a & 0xffff_f000u64) << 32u64) | ((a & 0xfffu64) << 8u64) | ((b & 0xffff_ff00u64)
        << 12u64) | (b & 0xffu64);
    assert(((id >> 32u64) & 0xffff_f000u64) | ((id >> 8u64) & 0xfffu64) == a && ((id >> 12u64)
        & 0xffff_ff00u64) | (id & 0xffu64) == b) by (bit_vector)
        requires
            a <= 0xffff_ffffu64,
            b <= 0xffff_ffffu64,
            id == ((a & 0xffff_f000u64) << 32u64) | ((a & 0xfffu64) << 8u64) | ((b
                & 0xffff_ff00u64) << 12u64) | (b & 0xffu64),
    ;
}

} // verus!
