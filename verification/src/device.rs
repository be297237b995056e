//! Block devices that the host attaches: what they are called in the guest, and how a
//! container configuration is adapted to them.
use vstd::prelude::*;

use crate::device_policy::DRIVER_BLK_MMIO_TYPE;
use crate::oci::{DeviceType, Linux, LinuxDevice, LinuxDeviceCgroup, LinuxResources, Spec};
use crate::strmap::{distinct_keys, StrMap};
use crate::text::{push_i64, signed_decimal, str_eq, views};

verus! {

/// The kind of block devices.
pub const BLOCK: &'static str = "block";

/// The numbers of a device within the guest.
#[derive(Clone, Copy, Debug, PartialEq, Eq, Structural)]
pub struct DeviceInfo {
    pub guest_major: i64,
    pub guest_minor: i64,
}

/// The major number within a device id.
pub open spec fn major_of(dev: u64) -> u64 {
    ((dev >> 32u64) & 0xffff_f000u64) | ((dev >> 8u64) & 0xfffu64)
}

/// The minor number within a device id.
pub open spec fn minor_of(dev: u64) -> u64 {
    ((dev >> 12u64) & 0xffff_ff00u64) | (dev & 0xffu64)
}

/// `nix::sys::stat::major` takes the major number out of a device id: the bits from 44 up
/// and the twelve bits from 8 up.
#[verifier::external_body]
fn device_major(dev: u64) -> (r: u64)
    ensures
        r == major_of(dev),
{
    nix::sys::stat::major(dev)
}

/// `nix::sys::stat::minor` takes the minor number out of a device id: the bits from 20 to
/// 43 and the eight lowest bits.
#[verifier::external_body]
fn device_minor(dev: u64) -> (r: u64)
    ensures
        r == minor_of(dev),
{
    nix::sys::stat::minor(dev)
}

/// A file that is no block device.
#[derive(Clone, Copy, Debug, PartialEq, Eq, Structural)]
pub struct NotBlockDevice;

impl NotBlockDevice {
    /// The text of the error.
    pub fn message(self) -> (r: String)
        ensures
            r@ == "MMIO mapping requires a block device"@,
    {
        "MMIO mapping requires a block device".to_owned()
    }
}

impl DeviceInfo {
    /// The numbers of a file with the given device id, which must be a block device.
    pub fn new(is_block: bool, devid: u64) -> (r: Result<DeviceInfo, NotBlockDevice>)
        ensures
            match r {
                Ok(info) => is_block && info.guest_major == major_of(devid) && info.guest_minor
                    == minor_of(devid),
                Err(_) => !is_block,
            },
    {
        if !is_block {
            return Err(NotBlockDevice);
        }
        let major: u64 = device_major(devid);
        let minor: u64 = device_minor(devid);
        proof {
            assert(((devid >> 32u64) & 0xffff_f000u64) | ((devid >> 8u64) & 0xfffu64)
                <= 0xffff_ffffu64) by (bit_vector);
            assert(((devid >> 12u64) & 0xffff_ff00u64) | (devid & 0xffu64) <= 0xffff_ffffu64)
                by (bit_vector);
        }
        Ok(DeviceInfo { guest_major: major as i64, guest_minor: minor as i64 })
    }
}

/// A device that the host attaches.
#[derive(Debug)]
pub struct Device {
    pub typ: String,
    pub options: Vec<String>,
    pub vm_path: String,
    pub container_path: String,
}

/// The text in quotes, with its special characters escaped, as `Debug` of `str` writes it.
pub uninterp spec fn quoted(text: Seq<char>) -> Seq<char>;

/// `Debug` of `str` writes a text in quotes and escapes special characters in it. What it
/// writes depends on the text alone; which characters are escaped is not stated.
#[verifier::external_body]
fn quote(text: &str) -> (r: String)
    ensures
        r@ == quoted(text@),
{
    format!("{:?}", text)
}

/// Texts with spaces between them.
pub open spec fn spaced(parts: Seq<Seq<char>>) -> Seq<char>
    decreases parts.len(),
{
    if parts.len() == 0 {
        Seq::empty()
    } else if parts.len() == 1 {
        parts[0]
    } else {
        spaced(parts.drop_last()).push(' ') + parts.last()
    }
}

/// Puts spaces between texts.
pub fn with_spaces(parts: &Vec<String>) -> (r: String)
    ensures
        r@ == spaced(views(parts@)),
{
    let ghost all = views(parts@);
    let mut s = String::new();
    let mut i: usize = 0;
    proof {
        assert(s@ =~= spaced(all.take(0)));
    }
    while i < parts.len()
        invariant
            i <= parts.len(),
            all == views(parts@),
            s@ == spaced(all.take(i as int)),
        decreases parts.len() - i,
    {
        let ghost was = s@;
        if i > 0 {
            s.push(' ');
        }
        s.append(parts[i].as_str());
        proof {
            let longer = all.take(i + 1);
            assert(longer.drop_last() =~= all.take(i as int));
            assert(longer.last() == parts@[i as int]@);
            if i == 0 {
                assert(was =~= Seq::<char>::empty());
                assert(s@ =~= longer[0]);
            }
            assert(s@ =~= spaced(longer));
        }
        i += 1;
    }
    proof {
        assert(all.take(all.len() as int) =~= all);
    }
    s
}

fn quote_all(paths: &Vec<String>) -> (r: Vec<String>)
    ensures
        views(r@) == views(paths@).map_values(|p: Seq<char>| quoted(p)),
{
    let mut out: Vec<String> = Vec::new();
    let mut i: usize = 0;
    while i < paths.len()
        invariant
            i <= paths.len(),
            out@.len() == i,
            forall|k: int| 0 <= k < i ==> (#[trigger] out@[k])@ == quoted(paths@[k]@),
        decreases paths.len() - i,
    {
        out.push(quote(paths[i].as_str()));
        i += 1;
    }
    proof {
        assert(views(out@) =~= views(paths@).map_values(|p: Seq<char>| quoted(p)));
    }
    out
}

/// Why devices cannot be added.
#[derive(Debug)]
pub enum DeviceError {
    /// The device is of a kind that is not supported.
    Unsupported,
    /// Two devices have this path in the container.
    ConflictingPath(String),
    /// The configuration has no Linux section, whose devices are to be updated.
    NoLinux,
    /// The configuration has no Linux section, which is to get a rule.
    NoLinuxForRule,
    /// Two devices of the configuration have these numbers.
    ConflictingNumbers(i64, i64),
    /// The configuration has no devices at these paths.
    Missing(Vec<String>),
}

impl DeviceError {
    /// The text of the error. Missing devices are named by their paths, in quotes with
    /// spaces between them, and the list is in quotes again.
    pub fn message(&self) -> (r: String)
        ensures
            match *self {
                DeviceError::Unsupported => r@
                    == "kata-fc: only MMIO block devices with guest/container paths and no driver options are supported"@,
                DeviceError::ConflictingPath(p) => r@ == "Conflicting device updates for "@ + p@,
                DeviceError::NoLinux => r@ == "Spec didn't contain linux field"@,
                DeviceError::ConflictingNumbers(a, b) => r@
                    == "Conflicting resource updates for host_major="@ + signed_decimal(a as int)
                    + " host_minor="@ + signed_decimal(b as int),
                DeviceError::NoLinuxForRule => r@ == "Spec didn't container linux field"@,
                DeviceError::Missing(paths) => r@ == "Missing devices in OCI spec: "@ + quoted(
                    spaced(views(paths@).map_values(|p: Seq<char>| quoted(p))),
                ),
            },
    {
        match self {
            DeviceError::Unsupported =>
                "kata-fc: only MMIO block devices with guest/container paths and no driver options are supported".to_owned(),
            DeviceError::ConflictingPath(p) => {
                let mut s = "Conflicting device updates for ".to_owned();
                s.append(p.as_str());
                s
            },
            DeviceError::NoLinux => "Spec didn't contain linux field".to_owned(),
            DeviceError::ConflictingNumbers(a, b) => {
                let mut s = "Conflicting resource updates for host_major=".to_owned();
                push_i64(&mut s, *a);
                s.append(" host_minor=");
                push_i64(&mut s, *b);
                s
            },
            DeviceError::NoLinuxForRule => "Spec didn't container linux field".to_owned(),
            DeviceError::Missing(paths) => {
                let list = with_spaces(&quote_all(paths));
                let mut s = "Missing devices in OCI spec: ".to_owned();
                s.append(quote(list.as_str()).as_str());
                s
            },
        }
    }
}

/// Whether a device is one that is supported: a block device on MMIO, with a path in the
/// guest and one in the container, and without options.
pub open spec fn is_supported(d: Device) -> bool {
    d.typ@ == DRIVER_BLK_MMIO_TYPE@ && d.options@.len() == 0 && d.vm_path@.len() > 0
        && d.container_path@.len() > 0
}

/// Checks a device before it is waited for.
pub fn check_device(d: &Device) -> (r: Result<(), DeviceError>)
    ensures
        match r {
            Ok(_) => is_supported(*d),
            Err(e) => !is_supported(*d) && e is Unsupported,
        },
{
    if str_eq(d.typ.as_str(), DRIVER_BLK_MMIO_TYPE) && d.options.len() == 0
        && !d.vm_path.as_str().is_empty() && !d.container_path.as_str().is_empty() {
        Ok(())
    } else {
        Err(DeviceError::Unsupported)
    }
}

/// The rule that allows a container everything with a device.
pub open spec fn is_rule_for(rule: LinuxDeviceCgroup, info: DeviceInfo) -> bool {
    &&& rule.allow
    &&& rule.typ == Some(DeviceType::B)
    &&& rule.major == Some(info.guest_major)
    &&& rule.minor == Some(info.guest_minor)
    &&& rule.access is Some && rule.access->0@ == "rwm"@
}

/// The rules of a configuration.
pub open spec fn rules_of(linux: Linux) -> Seq<LinuxDeviceCgroup> {
    match linux.resources {
        Some(r) => match r.devices {
            Some(d) => d@,
            None => Seq::empty(),
        },
        None => Seq::empty(),
    }
}

/// The limits of a configuration besides its rules; there are none where it has no
/// resources.
pub open spec fn limits_of(linux: Linux) -> LinuxResources {
    match linux.resources {
        Some(r) => LinuxResources { devices: None, ..r },
        None => LinuxResources {
            devices: None,
            memory: None,
            cpu: None,
            pids: None,
            block_io: None,
            hugepage_limits: None,
            network: None,
        },
    }
}

/// Whether two Linux sections differ in their devices and in their rules alone.
pub open spec fn same_but_devices(a: Linux, b: Linux) -> bool {
    &&& a.namespaces == b.namespaces
    &&& a.uid_mappings == b.uid_mappings
    &&& a.gid_mappings == b.gid_mappings
    &&& a.cgroups_path == b.cgroups_path
    &&& a.sysctl == b.sysctl
    &&& a.seccomp == b.seccomp
    &&& limits_of(a) == limits_of(b)
}

/// Whether a Linux section has one rule more, at the end, which allows the use of a
/// device, and is else the same.
pub open spec fn rule_added(before: Linux, after: Linux, info: DeviceInfo) -> bool {
    &&& same_but_devices(after, before)
    &&& after.devices == before.devices
    &&& after.resources is Some
    &&& rules_of(after) == rules_of(before).push(rules_of(after).last())
    &&& is_rule_for(rules_of(after).last(), info)
}

/// Allows a container the use of a device: a rule is added. Resources are made where the
/// configuration has none.
pub fn insert_devices_cgroup_rule(spec: &mut Spec, info: &DeviceInfo) -> (r: Result<
    (),
    DeviceError,
>)
    ensures
        match r {
            Err(e) => old(spec).linux is None && e is NoLinuxForRule && *final(spec) == *old(spec),
            Ok(_) => {
                &&& old(spec).linux is Some && final(spec).linux is Some
                &&& *final(spec) == (Spec { linux: final(spec).linux, ..*old(spec) })
                &&& rule_added(old(spec).linux->0, final(spec).linux->0, *info)
            },
        },
{
    let mut taken: Option<Linux> = None;
    core::mem::swap(&mut taken, &mut spec.linux);
    let mut linux = match taken {
        None => {
            return Err(DeviceError::NoLinuxForRule);
        },
        Some(l) => l,
    };
    let ghost before = linux;
    let mut resources: Option<LinuxResources> = None;
    core::mem::swap(&mut resources, &mut linux.resources);
    let mut res = match resources {
        Some(r) => r,
        None => LinuxResources::unlimited(),
    };
    let rule = LinuxDeviceCgroup {
        allow: true,
        typ: Some(DeviceType::B),
        major: Some(info.guest_major),
        minor: Some(info.guest_minor),
        access: Some("rwm".to_owned()),
    };
    let mut list: Option<Vec<LinuxDeviceCgroup>> = None;
    core::mem::swap(&mut list, &mut res.devices);
    let mut rules = match list {
        Some(v) => v,
        None => Vec::new(),
    };
    rules.push(rule);
    proof {
        assert(rules@ =~= rules_of(before).push(rules@.last()));
    }
    res.devices = Some(rules);
    linux.resources = Some(res);
    spec.linux = Some(linux);
    Ok(())
}

/// Adds a device that was found: its path is noted with its numbers, and a rule allows
/// its use. A path that was noted before is refused.
pub fn add_device(
    spec: &mut Spec,
    updates: &mut StrMap<DeviceInfo>,
    container_path: &str,
    info: DeviceInfo,
) -> (r: Result<(), DeviceError>)
    ensures
        final(updates)@ == old(updates)@.insert(container_path@, info),
        match r {
            Err(e) => if old(updates)@.contains_key(container_path@) {
                (e matches DeviceError::ConflictingPath(p) && p@ == container_path@)
                    && *final(spec) == *old(spec)
            } else {
                old(spec).linux is None && e is NoLinuxForRule && *final(spec) == *old(spec)
            },
            Ok(_) => {
                &&& !old(updates)@.contains_key(container_path@)
                &&& old(spec).linux is Some && final(spec).linux is Some
                &&& *final(spec) == (Spec { linux: final(spec).linux, ..*old(spec) })
                &&& rule_added(old(spec).linux->0, final(spec).linux->0, info)
            },
        },
{
    if updates.insert(container_path.to_owned(), info).is_some() {
        return Err(DeviceError::ConflictingPath(container_path.to_owned()));
    }
    insert_devices_cgroup_rule(spec, &info)
}

/// What a device of the configuration is found by in the rules.
pub struct HostKey {
    pub typ: DeviceType,
    pub major: i64,
    pub minor: i64,
}

/// The key of a device.
pub open spec fn device_key(d: LinuxDevice) -> HostKey {
    HostKey { typ: d.typ, major: d.major, minor: d.minor }
}

/// The key of a rule, where it speaks of one device. A rule without a type is for all
/// types.
pub open spec fn rule_key(d: LinuxDeviceCgroup) -> Option<HostKey> {
    match (d.major, d.minor) {
        (Some(major), Some(minor)) => Some(
            HostKey {
                typ: match d.typ {
                    Some(t) => t,
                    None => DeviceType::A,
                },
                major,
                minor,
            },
        ),
        _ => None,
    }
}

/// Whether the device at a position is updated: the first one of its path is.
pub open spec fn is_updated(
    devices: Seq<LinuxDevice>,
    updates: Map<Seq<char>, DeviceInfo>,
    i: int,
) -> bool {
    updates.contains_key(devices[i].path@) && forall|j: int|
        0 <= j < i ==> (#[trigger] devices[j]).path@ != devices[i].path@
}

/// The devices after the first `n` of them were updated.
pub open spec fn mapped_devices(
    devices: Seq<LinuxDevice>,
    updates: Map<Seq<char>, DeviceInfo>,
    n: int,
) -> Seq<LinuxDevice> {
    Seq::new(
        devices.len(),
        |i: int|
            if i < n && is_updated(devices, updates, i) {
                LinuxDevice {
                    major: updates[devices[i].path@].guest_major,
                    minor: updates[devices[i].path@].guest_minor,
                    ..devices[i]
                }
            } else {
                devices[i]
            },
    )
}

/// The numbers that the first `n` devices had, with what they become.
pub open spec fn moves(
    devices: Seq<LinuxDevice>,
    updates: Map<Seq<char>, DeviceInfo>,
    n: int,
) -> Seq<(HostKey, DeviceInfo)>
    decreases n,
{
    if n <= 0 {
        Seq::empty()
    } else {
        let before = moves(devices, updates, n - 1);
        if is_updated(devices, updates, n - 1) {
            before.push((device_key(devices[n - 1]), updates[devices[n - 1].path@]))
        } else {
            before
        }
    }
}

/// What a key becomes.
pub open spec fn moved(moves: Seq<(HostKey, DeviceInfo)>, key: HostKey) -> Option<DeviceInfo>
    decreases moves.len(),
{
    if moves.len() == 0 {
        None
    } else if moves.last().0 == key {
        Some(moves.last().1)
    } else {
        moved(moves.drop_last(), key)
    }
}

/// Whether the device at a position has the numbers of another one before it, and both
/// are updated.
pub open spec fn collides(
    devices: Seq<LinuxDevice>,
    updates: Map<Seq<char>, DeviceInfo>,
    i: int,
) -> bool {
    is_updated(devices, updates, i) && moved(
        moves(devices, updates, i),
        device_key(devices[i]),
    ) is Some
}

/// Whether no two of the first `n` devices collide.
pub open spec fn collision_free(
    devices: Seq<LinuxDevice>,
    updates: Map<Seq<char>, DeviceInfo>,
    n: int,
) -> bool {
    forall|i: int| 0 <= i < n ==> !#[trigger] collides(devices, updates, i)
}

/// Whether a path is that of a device.
pub open spec fn has_path(devices: Seq<LinuxDevice>, path: Seq<char>) -> bool {
    exists|i: int| 0 <= i < devices.len() && (#[trigger] devices[i]).path@ == path
}

/// Whether every update is for a device.
pub open spec fn complete(devices: Seq<LinuxDevice>, updates: Map<Seq<char>, DeviceInfo>) -> bool {
    forall|p: Seq<char>| #[trigger] updates.contains_key(p) ==> has_path(devices, p)
}

/// A rule after the update: it follows the device whose numbers it had.
pub open spec fn mapped_rule(
    d: LinuxDeviceCgroup,
    moves: Seq<(HostKey, DeviceInfo)>,
) -> LinuxDeviceCgroup {
    match rule_key(d) {
        None => d,
        Some(key) => match moved(moves, key) {
            None => d,
            Some(info) => LinuxDeviceCgroup {
                major: Some(info.guest_major),
                minor: Some(info.guest_minor),
                ..d
            },
        },
    }
}

/// The devices of a configuration.
pub open spec fn devices_of(linux: Linux) -> Seq<LinuxDevice> {
    match linux.devices {
        Some(d) => d@,
        None => Seq::empty(),
    }
}

struct Move {
    typ: DeviceType,
    major: i64,
    minor: i64,
    info: DeviceInfo,
}

spec fn move_pairs(v: Seq<Move>) -> Seq<(HostKey, DeviceInfo)> {
    v.map_values(
        |m: Move| (HostKey { typ: m.typ, major: m.major, minor: m.minor }, m.info),
    )
}

fn find_move(v: &Vec<Move>, typ: DeviceType, major: i64, minor: i64) -> (r: Option<DeviceInfo>)
    ensures
        r == moved(move_pairs(v@), (HostKey { typ, major, minor })),
{
    let ghost key = HostKey { typ, major, minor };
    let ghost all = move_pairs(v@);
    let mut n: usize = v.len();
    proof {
        assert(all.take(n as int) =~= all);
    }
    while n > 0
        invariant
            n <= v.len(),
            all == move_pairs(v@),
            key == (HostKey { typ, major, minor }),
            moved(all, key) == moved(all.take(n as int), key),
        decreases n,
    {
        proof {
            assert(all.take(n as int).drop_last() =~= all.take(n - 1));
            assert(all.take(n as int).last() == all[n - 1]);
        }
        let m = &v[n - 1];
        if m.typ == typ && m.major == major && m.minor == minor {
            return Some(m.info);
        }
        n -= 1;
    }
    None
}

fn map_rules(rules: &mut Vec<LinuxDeviceCgroup>, list: &Vec<Move>)
    ensures
        final(rules)@.len() == old(rules)@.len(),
        forall|i: int|
            0 <= i < old(rules)@.len() ==> #[trigger] final(rules)@[i] == mapped_rule(
                old(rules)@[i],
                move_pairs(list@),
            ),
{
    let ghost before = rules@;
    let n: usize = rules.len();
    let mut i: usize = 0;
    while i < n
        invariant
            i <= n,
            n == before.len(),
            before == old(rules)@,
            rules@.len() == n,
            forall|k: int|
                0 <= k < i ==> #[trigger] rules@[k] == mapped_rule(before[k], move_pairs(list@)),
            forall|k: int| i <= k < n ==> #[trigger] rules@[k] == before[k],
        decreases n - i,
    {
        let typ = match rules[i].typ {
            Some(t) => t,
            None => DeviceType::A,
        };
        let target = match (rules[i].major, rules[i].minor) {
            (Some(major), Some(minor)) => find_move(list, typ, major, minor),
            _ => None,
        };
        if let Some(info) = target {
            let access = match &rules[i].access {
                Some(a) => Some(a.clone()),
                None => None,
            };
            let rule = LinuxDeviceCgroup {
                allow: rules[i].allow,
                typ: rules[i].typ,
                major: Some(info.guest_major),
                minor: Some(info.guest_minor),
                access,
            };
            rules.set(i, rule);
        }
        i += 1;
    }
}

/// Whether the devices of a configuration were mapped up to a position and nothing else
/// changed.
pub open spec fn devices_mapped(
    before: Linux,
    after: Linux,
    updates: Map<Seq<char>, DeviceInfo>,
    n: int,
) -> bool {
    &&& same_but_devices(after, before)
    &&& after.resources is Some == before.resources is Some
    &&& after.devices is Some == before.devices is Some
    &&& devices_of(after) == mapped_devices(devices_of(before), updates, n)
}

/// What is left of the updates once the first `n` devices were updated.
spec fn leftover(
    left: Map<Seq<char>, DeviceInfo>,
    devices: Seq<LinuxDevice>,
    updates: Map<Seq<char>, DeviceInfo>,
    n: int,
) -> bool {
    forall|p: Seq<char>|
        (#[trigger] left.contains_key(p) <==> updates.contains_key(p) && forall|j: int|
            0 <= j < n ==> (#[trigger] devices[j]).path@ != p) && (left.contains_key(p) ==> left[p]
            == updates[p])
}

fn map_devices(devices: &mut Vec<LinuxDevice>, left: &mut StrMap<DeviceInfo>, list: &mut Vec<Move>)
    -> (r: Result<(), (usize, i64, i64)>)
    requires
        old(list)@.len() == 0,
    ensures
        match r {
            Ok(_) => {
                &&& collision_free(old(devices)@, old(left)@, old(devices)@.len() as int)
                &&& final(devices)@ == mapped_devices(
                    old(devices)@,
                    old(left)@,
                    old(devices)@.len() as int,
                )
                &&& move_pairs(final(list)@) == moves(
                    old(devices)@,
                    old(left)@,
                    old(devices)@.len() as int,
                )
                &&& leftover(final(left)@, old(devices)@, old(left)@, old(devices)@.len() as int)
            },
            Err((i, major, minor)) => {
                &&& 0 <= i < old(devices)@.len()
                &&& collision_free(old(devices)@, old(left)@, i as int)
                &&& collides(old(devices)@, old(left)@, i as int)
                &&& major == old(devices)@[i as int].major
                &&& minor == old(devices)@[i as int].minor
                &&& final(devices)@ == mapped_devices(old(devices)@, old(left)@, i + 1)
            },
        },
{
    let ghost before = devices@;
    let ghost updates = left@;
    let n: usize = devices.len();
    let mut i: usize = 0;
    proof {
        assert(devices@ =~= mapped_devices(before, updates, 0));
        assert(move_pairs(list@) =~= moves(before, updates, 0));
    }
    while i < n
        invariant
            i <= n,
            n == before.len(),
            before == old(devices)@,
            updates == old(left)@,
            collision_free(before, updates, i as int),
            devices@ == mapped_devices(before, updates, i as int),
            move_pairs(list@) == moves(before, updates, i as int),
            leftover(left@, before, updates, i as int),
        decreases n - i,
    {
        let ghost held = left@;
        proof {
            assert(devices@[i as int] == before[i as int]);
        }
        let taken = left.remove(devices[i].path.as_str());
        proof {
            let path = before[i as int].path@;
            assert(held.contains_key(path) <==> is_updated(before, updates, i as int)) by {
                if held.contains_key(path) {
                    assert(updates.contains_key(path));
                }
            }
            assert forall|p: Seq<char>|
                (#[trigger] left@.contains_key(p) <==> updates.contains_key(p) && forall|j: int|
                    0 <= j < i + 1 ==> (#[trigger] before[j]).path@ != p) && (left@.contains_key(p)
                    ==> left@[p] == updates[p]) by {
                assert(held.contains_key(p) <==> updates.contains_key(p) && forall|j: int|
                    0 <= j < i ==> (#[trigger] before[j]).path@ != p);
                if left@.contains_key(p) {
                    assert(held.contains_key(p));
                    assert(p != path);
                }
                if updates.contains_key(p) && forall|j: int|
                    0 <= j < i + 1 ==> (#[trigger] before[j]).path@ != p {
                    assert(before[i as int].path@ != p);
                    assert(held.contains_key(p));
                }
            }
        }
        match taken {
            None => {
                proof {
                    assert(devices@ =~= mapped_devices(before, updates, i + 1));
                }
            },
            Some(info) => {
                let major: i64 = devices[i].major;
                let minor: i64 = devices[i].minor;
                let typ = devices[i].typ;
                let known = find_move(list, typ, major, minor);
                let d = LinuxDevice {
                    path: devices[i].path.clone(),
                    typ,
                    major: info.guest_major,
                    minor: info.guest_minor,
                    file_mode: devices[i].file_mode,
                    uid: devices[i].uid,
                    gid: devices[i].gid,
                };
                devices.set(i, d);
                proof {
                    assert(updates[before[i as int].path@] == info);
                    assert(devices@ =~= mapped_devices(before, updates, i + 1));
                    assert(device_key(before[i as int]) == (HostKey { typ, major, minor }));
                }
                if known.is_some() {
                    proof {
                        assert(collides(before, updates, i as int));
                    }
                    return Err((i, major, minor));
                }
                let ghost was = move_pairs(list@);
                list.push(Move { typ, major, minor, info });
                proof {
                    assert(move_pairs(list@) =~= was.push(
                        (device_key(before[i as int]), updates[before[i as int].path@]),
                    ));
                }
            },
        }
        i += 1;
    }
    Ok(())
}

fn left_paths(left: &StrMap<DeviceInfo>) -> (r: Vec<String>)
    ensures
        views(r@).no_duplicates(),
        forall|p: Seq<char>| views(r@).contains(p) <==> #[trigger] left@.contains_key(p),
{
    let n: usize = left.len();
    let mut out: Vec<String> = Vec::new();
    let mut i: usize = 0;
    while i < n
        invariant
            i <= n,
            n == left.entries().len(),
            distinct_keys(left.entries()),
            out@.len() == i,
            forall|k: int| 0 <= k < i ==> (#[trigger] out@[k])@ == left.entries()[k].0@,
            forall|k: int| 0 <= k < i ==> left@.contains_key((#[trigger] out@[k])@),
        decreases n - i,
    {
        let (k, _v) = left.entry(i);
        out.push(k.clone());
        i += 1;
    }
    proof {
        left.lemma_keys();
        assert forall|i: int, j: int|
            0 <= i < views(out@).len() && 0 <= j < views(out@).len() && i != j implies views(
            out@,
        )[i] != views(out@)[j] by {
            assert(out@[i]@ == left.entries()[i].0@);
            assert(out@[j]@ == left.entries()[j].0@);
        }
        assert forall|p: Seq<char>| views(out@).contains(p) <==> #[trigger] left@.contains_key(
            p,
        ) by {
            if left@.contains_key(p) {
                let j = left.position(p);
                assert(out@[j]@ == p);
                assert(views(out@)[j] == p);
            }
            if views(out@).contains(p) {
                let j = choose|j: int| 0 <= j < views(out@).len() && views(out@)[j] == p;
                assert(out@[j]@ == p);
            }
        }
    }
    out
}

/// What comes of an update. Every update must find its device, and no two updated devices
/// may have had the same numbers. Where one of this fails, the devices before it have their
/// new numbers, and no rule has changed.
pub open spec fn spec_updated(
    old_spec: Spec,
    new_spec: Spec,
    updates: Map<Seq<char>, DeviceInfo>,
    r: Result<(), DeviceError>,
) -> bool {
    if old_spec.linux is None {
        (r matches Err(e) && e is NoLinux) && new_spec == old_spec
    } else {
        let before = old_spec.linux->0;
        let after = new_spec.linux->0;
        let devices = devices_of(before);
        let n = devices.len() as int;
        &&& new_spec.linux is Some
        &&& match r {
            Ok(_) => {
                &&& collision_free(devices, updates, n) && complete(devices, updates)
                &&& devices_mapped(before, after, updates, n)
                &&& rules_of(after).len() == rules_of(before).len()
                &&& forall|i: int|
                    0 <= i < rules_of(before).len() ==> #[trigger] rules_of(after)[i]
                        == mapped_rule(rules_of(before)[i], moves(devices, updates, n))
            },
            Err(DeviceError::ConflictingNumbers(major, minor)) => stopped_at(
                before,
                after,
                updates,
                major,
                minor,
            ),
            Err(DeviceError::Missing(paths)) => {
                &&& collision_free(devices, updates, n) && !complete(devices, updates)
                &&& views(paths@).no_duplicates()
                &&& forall|p: Seq<char>|
                    views(paths@).contains(p) <==> #[trigger] updates.contains_key(p) && !has_path(
                        devices,
                        p,
                    )
                &&& devices_mapped(before, after, updates, n)
                &&& after.resources == before.resources
            },
            Err(_) => false,
        }
    }
}

/// Whether an update stopped at the first device whose numbers, the given ones, another
/// updated device had before it.
pub open spec fn stopped_at(
    before: Linux,
    after: Linux,
    updates: Map<Seq<char>, DeviceInfo>,
    major: i64,
    minor: i64,
) -> bool {
    let devices = devices_of(before);
    exists|i: int|
        {
            &&& 0 <= i < devices.len()
            &&& #[trigger] collides(devices, updates, i)
            &&& collision_free(devices, updates, i)
            &&& major == devices[i].major && minor == devices[i].minor
            &&& devices_mapped(before, after, updates, i + 1)
            &&& after.resources == before.resources
        }
}

/// Adapts a configuration to the guest: devices get the numbers that they have there,
/// and the rules that had the numbers of the host follow them. Every update must find its
/// device, and no two updated devices may have had the same numbers.
pub fn update_spec_devices(spec: &mut Spec, updates: StrMap<DeviceInfo>) -> (r: Result<
    (),
    DeviceError,
>)
    ensures
        *final(spec) == (Spec { linux: final(spec).linux, ..*old(spec) }),
        spec_updated(*old(spec), *final(spec), updates@, r),
{
    let mut taken: Option<Linux> = None;
    core::mem::swap(&mut taken, &mut spec.linux);
    let mut linux = match taken {
        None => {
            return Err(DeviceError::NoLinux);
        },
        Some(l) => l,
    };
    let ghost before = linux;
    let ghost all = devices_of(before);
    let ghost given = updates@;
    let mut left = updates;
    let mut list: Vec<Move> = Vec::new();
    let mut held: Option<Vec<LinuxDevice>> = None;
    core::mem::swap(&mut held, &mut linux.devices);
    let had = held.is_some();
    let mut devices = match held {
        Some(v) => v,
        None => Vec::new(),
    };
    proof {
        assert(devices@ =~= all);
    }
    let done = map_devices(&mut devices, &mut left, &mut list);
    if had {
        linux.devices = Some(devices);
    }
    if let Err((i, major, minor)) = done {
        proof {
            assert(collides(all, given, i as int));
            assert(devices_of(linux) == mapped_devices(all, given, i + 1));
        }
        spec.linux = Some(linux);
        return Err(DeviceError::ConflictingNumbers(major, minor));
    }
    proof {
        assert(mapped_devices(all, given, all.len() as int).len() == all.len());
        if !had {
            assert(devices_of(linux) =~= mapped_devices(all, given, all.len() as int));
        }
        assert forall|p: Seq<char>|
            #[trigger] left@.contains_key(p) <==> given.contains_key(p) && !has_path(all, p) by {
            if left@.contains_key(p) && has_path(all, p) {
                let j = choose|j: int| 0 <= j < all.len() && (#[trigger] all[j]).path@ == p;
                assert(all[j].path@ != p);
            }
            if given.contains_key(p) && !has_path(all, p) {
                assert forall|j: int| 0 <= j < all.len() implies (#[trigger] all[j]).path@ != p by {
                    if all[j].path@ == p {
                        assert(has_path(all, p));
                    }
                }
            }
        }
    }
    if left.len() > 0 {
        let paths = left_paths(&left);
        proof {
            left.lemma_keys();
            assert(exists|p: Seq<char>| left@.contains_key(p)) by {
                if !(exists|p: Seq<char>| left@.contains_key(p)) {
                    assert(left@ =~= Map::<Seq<char>, DeviceInfo>::empty());
                }
            }
            let p = choose|p: Seq<char>| left@.contains_key(p);
            assert(given.contains_key(p) && !has_path(all, p));
            assert forall|q: Seq<char>|
                views(paths@).contains(q) <==> #[trigger] given.contains_key(q) && !has_path(
                    all,
                    q,
                ) by {
                assert(left@.contains_key(q) <==> given.contains_key(q) && !has_path(all, q));
            }
        }
        spec.linux = Some(linux);
        return Err(DeviceError::Missing(paths));
    }
    proof {
        assert forall|p: Seq<char>| #[trigger] given.contains_key(p) implies has_path(all, p) by {
            assert(!left@.contains_key(p));
        }
    }
    let mut resources: Option<LinuxResources> = None;
    core::mem::swap(&mut resources, &mut linux.resources);
    if let Some(mut res) = resources {
        let mut rules: Option<Vec<LinuxDeviceCgroup>> = None;
        core::mem::swap(&mut rules, &mut res.devices);
        if let Some(mut v) = rules {
            map_rules(&mut v, &list);
            res.devices = Some(v);
        }
        linux.resources = Some(res);
    }
    spec.linux = Some(linux);
    Ok(())
}

proof fn lemma_moved(
    devices: Seq<LinuxDevice>,
    updates: Map<Seq<char>, DeviceInfo>,
    n: int,
    i: int,
)
    requires
        0 <= i < n <= devices.len(),
        collision_free(devices, updates, n),
        is_updated(devices, updates, i),
    ensures
        moved(moves(devices, updates, n), device_key(devices[i])) == Some(
            updates[devices[i].path@],
        ),
    decreases n,
{
    let all = moves(devices, updates, n);
    if is_updated(devices, updates, n - 1) {
        assert(all.drop_last() =~= moves(devices, updates, n - 1));
    }
    if i < n - 1 {
        lemma_moved(devices, updates, n - 1, i);
        if is_updated(devices, updates, n - 1) && device_key(devices[n - 1]) == device_key(
            devices[i],
        ) {
            assert(collides(devices, updates, n - 1));
        }
    }
}

proof fn lemma_not_moved(
    devices: Seq<LinuxDevice>,
    updates: Map<Seq<char>, DeviceInfo>,
    n: int,
    key: HostKey,
)
    requires
        0 <= n <= devices.len(),
        forall|i: int|
            0 <= i < n && #[trigger] is_updated(devices, updates, i) ==> device_key(devices[i])
                != key,
    ensures
        moved(moves(devices, updates, n), key) is None,
    decreases n,
{
    if n > 0 {
        lemma_not_moved(devices, updates, n - 1, key);
        if is_updated(devices, updates, n - 1) {
            assert(moves(devices, updates, n).drop_last() =~= moves(devices, updates, n - 1));
        }
    }
}

/// A rule that had the numbers of an updated device has the device's new numbers, once:
/// that the new numbers of one device are the old ones of another changes nothing.
pub proof fn law_rules_follow_their_devices(
    devices: Seq<LinuxDevice>,
    updates: Map<Seq<char>, DeviceInfo>,
    i: int,
    rule: LinuxDeviceCgroup,
)
    requires
        collision_free(devices, updates, devices.len() as int),
        0 <= i < devices.len(),
        is_updated(devices, updates, i),
        rule_key(rule) == Some(device_key(devices[i])),
    ensures
        ({
            let n = devices.len() as int;
            let after = mapped_rule(rule, moves(devices, updates, n));
            let device = mapped_devices(devices, updates, n)[i];
            &&& after.major == Some(device.major) && after.minor == Some(device.minor)
            &&& after.allow == rule.allow && after.typ == rule.typ && after.access == rule.access
        }),
{
    lemma_moved(devices, updates, devices.len() as int, i);
}

/// A rule that speaks of no updated device stays as it is.
pub proof fn law_other_rules_stay(
    devices: Seq<LinuxDevice>,
    updates: Map<Seq<char>, DeviceInfo>,
    rule: LinuxDeviceCgroup,
)
    requires
        forall|i: int|
            0 <= i < devices.len() && #[trigger] is_updated(devices, updates, i) ==> rule_key(rule)
                != Some(device_key(devices[i])),
    ensures
        mapped_rule(rule, moves(devices, updates, devices.len() as int)) == rule,
{
    if let Some(key) = rule_key(rule) {
        lemma_not_moved(devices, updates, devices.len() as int, key);
    }
}

/// A device keeps its path, its type and its owner; only its numbers may change.
pub proof fn law_devices_keep_their_paths(
    devices: Seq<LinuxDevice>,
    updates: Map<Seq<char>, DeviceInfo>,
    i: int,
)
    requires
        0 <= i < devices.len(),
    ensures
        ({
            let d = mapped_devices(devices, updates, devices.len() as int)[i];
            d == (LinuxDevice { major: d.major, minor: d.minor, ..devices[i] })
        }),
{
}

/// Whether a path is that of one of the first `n` devices.
pub open spec fn is_path_of(devices: Seq<Device>, n: int, path: Seq<char>) -> bool {
    exists|j: int| 0 <= j < n && (#[trigger] devices[j]).container_path@ == path
}

/// The devices of a container while they are added, one after the other.
#[derive(Debug)]
pub struct DeviceRun {
    /// The numbers of the devices that were found, by their path in the container.
    pub updates: StrMap<DeviceInfo>,
    /// The position of the device that comes next.
    pub at: usize,
}

impl DeviceRun {
    /// Whether the numbers are those of the devices that were passed.
    pub open spec fn wf(self, devices: Seq<Device>) -> bool {
        &&& self.at <= devices.len()
        &&& forall|p: Seq<char>| #[trigger]
            self.updates@.contains_key(p) <==> is_path_of(devices, self.at as int, p)
    }

    /// Before the first device.
    pub fn new() -> (r: DeviceRun)
        ensures
            r.at == 0,
            r.updates@ == Map::<Seq<char>, DeviceInfo>::empty(),
            forall|devices: Seq<Device>| #[trigger] r.wf(devices),
    {
        DeviceRun { updates: StrMap::new(), at: 0 }
    }

    /// The device to look for, once it is checked; nothing where all were found.
    pub fn next(&self, devices: &Vec<Device>) -> (r: Result<Option<usize>, DeviceError>)
        requires
            self.wf(devices@),
        ensures
            match r {
                Ok(None) => self.at == devices@.len(),
                Ok(Some(i)) => i == self.at < devices@.len() && is_supported(devices@[i as int]),
                Err(e) => self.at < devices@.len() && !is_supported(devices@[self.at as int])
                    && e is Unsupported,
            },
    {
        if self.at == devices.len() {
            return Ok(None);
        }
        match check_device(&devices[self.at]) {
            Ok(_) => Ok(Some(self.at)),
            Err(e) => Err(e),
        }
    }

    /// Takes the numbers of the device that was found. No two devices may have the same
    /// path in the container.
    pub fn found(&mut self, devices: &Vec<Device>, spec: &mut Spec, info: DeviceInfo) -> (r: Result<
        (),
        DeviceError,
    >)
        requires
            old(self).wf(devices@),
            old(self).at < devices@.len(),
        ensures
            final(self).wf(devices@),
            final(self).at == old(self).at + 1,
            ({
                let path = devices@[old(self).at as int].container_path@;
                let twice = is_path_of(devices@, old(self).at as int, path);
                &&& final(self).updates@ == old(self).updates@.insert(path, info)
                &&& match r {
                    Err(e) => {
                        &&& *final(spec) == *old(spec)
                        &&& if twice {
                            e matches DeviceError::ConflictingPath(p) && p@ == path
                        } else {
                            old(spec).linux is None && e is NoLinuxForRule
                        }
                    },
                    Ok(_) => {
                        &&& !twice
                        &&& old(spec).linux is Some && final(spec).linux is Some
                        &&& *final(spec) == (Spec { linux: final(spec).linux, ..*old(spec) })
                        &&& rule_added(old(spec).linux->0, final(spec).linux->0, info)
                    },
                }
            }),
    {
        let ghost n = self.at as int;
        let ghost path = devices@[n].container_path@;
        let ghost held = self.updates@;
        let i: usize = self.at;
        assert(i < devices.len());
        let r = add_device(spec, &mut self.updates, devices[i].container_path.as_str(), info);
        self.at = i + 1;
        proof {
            assert forall|p: Seq<char>| #[trigger]
                self.updates@.contains_key(p) <==> is_path_of(devices@, n + 1, p) by {
                assert(held.contains_key(p) <==> is_path_of(devices@, n, p));
                if is_path_of(devices@, n, p) {
                    let j = choose|j: int|
                        0 <= j < n && (#[trigger] devices@[j]).container_path@ == p;
                    assert(devices@[j].container_path@ == p);
                }
                if is_path_of(devices@, n + 1, p) && p != path {
                    let j = choose|j: int|
                        0 <= j < n + 1 && (#[trigger] devices@[j]).container_path@ == p;
                    assert(j < n);
                }
                assert(devices@[n].container_path@ == path);
            }
        }
        r
    }

    /// Adapts the configuration, once every device was found.
    pub fn finish(self, devices: &Vec<Device>, spec: &mut Spec) -> (r: Result<(), DeviceError>)
        requires
            self.wf(devices@),
            self.at == devices@.len(),
        ensures
            *final(spec) == (Spec { linux: final(spec).linux, ..*old(spec) }),
            spec_updated(*old(spec), *final(spec), self.updates@, r),
    {
        update_spec_devices(spec, self.updates)
    }
}

/// The driver types that the handler of block devices on MMIO serves.
pub fn driver_types() -> (r: Vec<String>)
    ensures
        views(r@) == seq![DRIVER_BLK_MMIO_TYPE@],
{
    let mut v: Vec<String> = Vec::new();
    v.push(DRIVER_BLK_MMIO_TYPE.to_owned());
    proof {
        assert(views(v@) =~= seq![DRIVER_BLK_MMIO_TYPE@]);
    }
    v
}

/// A block device without a path in the guest.
#[derive(Clone, Copy, Debug, PartialEq, Eq, Structural)]
pub struct NoDevicePath;

impl NoDevicePath {
    /// The text of the error.
    pub fn message(self) -> (r: String)
        ensures
            r@ == "Invalid path for virtio mmio blk device"@,
    {
        "Invalid path for virtio mmio blk device".to_owned()
    }
}

/// What handles a device whose driver is that of block devices on MMIO.
#[derive(Clone, Copy, Debug, PartialEq, Eq, Structural)]
pub enum HandlerStep {
    /// Read what the device is.
    Inspect,
    /// Wait until the device is there, then read what it is.
    WaitAndInspect,
}

/// Handles block devices on MMIO.
#[derive(Clone, Copy, Debug, PartialEq, Eq, Structural)]
pub struct VirtioBlkMmioDeviceHandler;

impl VirtioBlkMmioDeviceHandler {
    /// Decides how a device is handled: one that is not there yet is waited for.
    pub fn device_handler(&self, device: &Device, exists: bool) -> (r: Result<
        HandlerStep,
        NoDevicePath,
    >)
        ensures
            match r {
                Err(_) => device.vm_path@.len() == 0,
                Ok(s) => device.vm_path@.len() > 0 && s == if exists {
                    HandlerStep::Inspect
                } else {
                    HandlerStep::WaitAndInspect
                },
            },
    {
        if device.vm_path.as_str().is_empty() {
            return Err(NoDevicePath);
        }
        if exists {
            Ok(HandlerStep::Inspect)
        } else {
            Ok(HandlerStep::WaitAndInspect)
        }
    }
}

} // verus!
