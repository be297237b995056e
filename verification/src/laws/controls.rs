//! Which devices a container may use, and how its cgroups are made and watched.
use vstd::prelude::*;

use super::count::{before, once, times};
use crate::cgroups::devices::{
    converted_rule, default_allowed, device_rules, every_device, first_all_rule,
    is_rule_for_all, permissions_of, CgroupDeviceType, DevicePermissions,
    DeviceRule, DevicesCgroupInfo,
};
use crate::cgroups::manager::{info_after, manager_steps, pod_path, ManagerStep};
use crate::cgroups::notifier::{value_in, watched, BadValue, CgroupEvent, WatchStep};
use crate::container::default_device_table;
use crate::device_policy::{
    device_fault, env_fault, excluded_path, spec_fault, variable_fault, DeviceFault,
};
use crate::oci::{DeviceType, LinuxDevice, LinuxDeviceCgroup, Spec};
use crate::path::{is_under, parent_of};
use crate::text::{int_of, lines_of, split_on, Sep};

verus! {

/// The letters of permissions count one by one: `r` reads, `w` writes and `m` makes nodes, and
/// other letters stand for nothing. The order is kept.
pub proof fn law_each_letter_is_a_permission(a: Seq<char>, c: char)
    ensures
        permissions_of(Seq::empty()) == Seq::<DevicePermissions>::empty(),
        permissions_of(a.push('r')) == permissions_of(a).push(DevicePermissions::Read),
        permissions_of(a.push('w')) == permissions_of(a).push(DevicePermissions::Write),
        permissions_of(a.push('m')) == permissions_of(a).push(DevicePermissions::MkNod),
        c != 'r' && c != 'w' && c != 'm' ==> permissions_of(a.push(c)) == permissions_of(a),
{
    assert(a.push('r').drop_last() =~= a);
    assert(a.push('w').drop_last() =~= a);
    assert(a.push('m').drop_last() =~= a);
    assert(a.push(c).drop_last() =~= a);
}

/// What a rule is about and what it grants is what its text says: the kind of device, its
/// numbers, 0 where they are absent, and whether it allows or denies. Rules on pipes and on
/// unbuffered devices have no counterpart.
pub proof fn law_a_rule_says_what_it_said(d: LinuxDeviceCgroup)
    ensures
        converted_rule(d) is None <==> d.typ == Some(DeviceType::U) || d.typ == Some(
            DeviceType::P,
        ),
        converted_rule(d) matches Some(x) ==> {
            &&& x.allow == d.allow
            &&& x.devtype == CgroupDeviceType::Block <==> d.typ == Some(DeviceType::B)
            &&& x.devtype == CgroupDeviceType::Char <==> d.typ == Some(DeviceType::C)
            &&& x.devtype == CgroupDeviceType::All <==> d.typ is None || d.typ == Some(
                DeviceType::A,
            )
            &&& d.major is Some ==> x.major == d.major->0
            &&& d.major is None ==> x.major == 0
            &&& d.minor is Some ==> x.minor == d.minor->0
            &&& d.minor is None ==> x.minor == 0
            &&& d.access is Some ==> x.access == permissions_of(d.access->0@)
            &&& d.access is None ==> x.access == Seq::<DevicePermissions>::empty()
        },
{
}

/// A rule is about all devices where it has no numbers of its own, no kind of its own, and all
/// three permissions.
pub proof fn law_which_rules_are_about_all_devices(d: LinuxDeviceCgroup)
    ensures
        is_rule_for_all(d) <==> {
            &&& d.major is None || d.major == Some(0i64)
            &&& d.minor is None || d.minor == Some(0i64)
            &&& d.typ is None || d.typ == Some(DeviceType::A)
            &&& d.access is Some
            &&& d.access->0@.contains('r') && d.access->0@.contains('w') && d.access->0@.contains(
                'm',
            )
        },
{
    assert(!Seq::<char>::empty().contains('r'));
}

/// The rules of a list are those of its parts, one behind the other. A rule about all devices
/// and one without a counterpart have none; any other is converted.
pub proof fn law_each_rule_is_converted(
    a: Seq<LinuxDeviceCgroup>,
    b: Seq<LinuxDeviceCgroup>,
    d: LinuxDeviceCgroup,
)
    ensures
        device_rules(a + b) == device_rules(a) + device_rules(b),
        is_rule_for_all(d) || converted_rule(d) is None ==> device_rules(seq![d]) == Seq::<
            DeviceRule,
        >::empty(),
        !is_rule_for_all(d) && converted_rule(d) is Some ==> device_rules(seq![d]) == seq![
            converted_rule(d)->0,
        ],
    decreases b.len(),
{
    assert(seq![d].drop_last() =~= Seq::empty());
    assert(device_rules(seq![d].drop_last()) =~= Seq::<DeviceRule>::empty());
    if b.len() == 0 {
        assert(a + b =~= a);
        assert(device_rules(a) =~= device_rules(a) + device_rules(b));
    } else {
        law_each_rule_is_converted(a, b.drop_last(), d);
        assert((a + b).drop_last() =~= a + b.drop_last());
        assert((a + b).last() == b.last());
        assert(device_rules(a + b) =~= device_rules(a) + device_rules(b));
    }
}

/// What the first rule about all devices says decides; without one, not all are allowed.
pub proof fn law_the_first_rule_about_all_devices_decides(
    devices: Seq<LinuxDeviceCgroup>,
    i: int,
)
    requires
        0 <= i <= devices.len(),
        forall|k: int| 0 <= k < i ==> !is_rule_for_all(#[trigger] devices[k]),
        i < devices.len() ==> is_rule_for_all(devices[i]),
    ensures
        first_all_rule(devices) == (i < devices.len() && devices[i].allow),
    decreases devices.len(),
{
    if i > 0 {
        let rest = devices.skip(1);
        assert(!is_rule_for_all(devices[0]));
        assert forall|k: int| 0 <= k < i - 1 implies !is_rule_for_all(#[trigger] rest[k]) by {
            assert(rest[k] == devices[k + 1]);
        }
        law_the_first_rule_about_all_devices_decides(rest, i - 1);
    }
}

/// Whether a rule reads, writes and makes nodes.
pub open spec fn grants_all(r: DeviceRule) -> bool {
    r.access == seq![DevicePermissions::Read, DevicePermissions::Write, DevicePermissions::MkNod]
}

/// What every container has: its device nodes, the console, the pseudo terminals and the tun
/// device with all permissions, and the making of any other node with no more than that.
pub proof fn law_what_every_container_may_use(i: int)
    ensures
        default_allowed().len() == 12,
        0 <= i < 12 ==> default_allowed()[i].allow,
        0 <= i < 6 ==> {
            &&& default_allowed()[i].devtype == CgroupDeviceType::Char
            &&& default_allowed()[i].major == default_device_table()[i].1
            &&& default_allowed()[i].minor == default_device_table()[i].2
            &&& grants_all(default_allowed()[i])
        },
        default_allowed()[6].devtype == CgroupDeviceType::Char,
        default_allowed()[7].devtype == CgroupDeviceType::Block,
        i == 6 || i == 7 ==> default_allowed()[i].major == -1 && default_allowed()[i].minor == -1
            && default_allowed()[i].access == seq![DevicePermissions::MkNod],
        8 <= i < 12 ==> default_allowed()[i].devtype == CgroupDeviceType::Char && grants_all(
            default_allowed()[i],
        ),
        default_allowed()[8].major == 5 && default_allowed()[8].minor == 1,
        default_allowed()[9].major == 136 && default_allowed()[9].minor == -1,
        default_allowed()[10].major == 5 && default_allowed()[10].minor == 2,
        default_allowed()[11].major == 10 && default_allowed()[11].minor == 200,
{
}

/// A rule on every device of a kind has no numbers and all permissions.
pub proof fn law_a_rule_on_every_device_has_no_limits(allow: bool, t: CgroupDeviceType)
    ensures
        every_device(allow, t).allow == allow,
        every_device(allow, t).devtype == t,
        every_device(allow, t).major == -1,
        every_device(allow, t).minor == -1,
        grants_all(every_device(allow, t)),
{
}

/// How often each step of making the cgroups is taken. The cgroup of the pod is made once,
/// with the first container; it is opened for all devices by the first container that asks
/// for them. A container is reset unless all devices are allowed in its pod.
pub proof fn law_the_pod_is_made_once(pod: bool, info: DevicesCgroupInfo, all: bool)
    ensures
        ({
            let s = manager_steps(pod, Some(info), all);
            let opened = info.allowed_all || (pod && all);
            &&& times(s, ManagerStep::CreatePod) == once(pod && !info.inited)
            &&& times(s, ManagerStep::MarkInited) == once(pod && !info.inited)
            &&& times(s, ManagerStep::PodWhitelist) == once(pod && !info.inited && !all)
            &&& times(s, ManagerStep::PodAllowAll) == once(
                pod && all && !(info.inited && info.allowed_all),
            )
            &&& times(s, ManagerStep::MarkAllowedAll) == once(
                pod && all && !(info.inited && info.allowed_all),
            )
            &&& times(s, ManagerStep::CreateContainer) == 1
            &&& times(s, ManagerStep::ContainerWhitelist) == once(!opened)
            &&& before(s, ManagerStep::CreatePod, ManagerStep::PodWhitelist)
            &&& before(s, ManagerStep::CreatePod, ManagerStep::PodAllowAll)
            &&& before(s, ManagerStep::PodAllowAll, ManagerStep::MarkAllowedAll)
            &&& before(s, ManagerStep::PodAllowAll, ManagerStep::MarkInited)
            &&& before(s, ManagerStep::PodWhitelist, ManagerStep::MarkInited)
            &&& before(s, ManagerStep::PodAllowAll, ManagerStep::CreateContainer)
            &&& before(s, ManagerStep::CreatePod, ManagerStep::CreateContainer)
            &&& before(s, ManagerStep::CreateContainer, ManagerStep::ContainerWhitelist)
            &&& info_after(pod, info, all).allowed_all == opened
            &&& info_after(pod, info, all).inited == (info.inited || pod)
        }),
        manager_steps(pod, None, all) == seq![ManagerStep::CreateContainer],
{
    let s = manager_steps(pod, Some(info), all);
    assert forall|x: ManagerStep| #[trigger] times(s, x) == manager_count(pod, info, all, x) by {
        lemma_manager_count(pod, info, all, x);
    }
}

spec fn manager_count(pod: bool, info: DevicesCgroupInfo, all: bool, x: ManagerStep) -> nat {
    match x {
        ManagerStep::CreatePod => once(pod && !info.inited),
        ManagerStep::MarkInited => once(pod && !info.inited),
        ManagerStep::PodWhitelist => once(pod && !info.inited && !all),
        ManagerStep::PodAllowAll => once(pod && all && !(info.inited && info.allowed_all)),
        ManagerStep::MarkAllowedAll => once(pod && all && !(info.inited && info.allowed_all)),
        ManagerStep::CreateContainer => 1,
        ManagerStep::ContainerWhitelist => once(!(info.allowed_all || (pod && all))),
    }
}

proof fn lemma_manager_count(pod: bool, info: DevicesCgroupInfo, all: bool, x: ManagerStep)
    ensures
        times(manager_steps(pod, Some(info), all), x) == manager_count(pod, info, all, x),
{
    broadcast use super::count::group_times;

    super::count::lemma_times_two(ManagerStep::PodAllowAll, ManagerStep::MarkAllowedAll, x);
    super::count::lemma_times_four(
        ManagerStep::CreatePod,
        ManagerStep::PodAllowAll,
        ManagerStep::MarkAllowedAll,
        ManagerStep::MarkInited,
        x,
    );
    super::count::lemma_times_three(
        ManagerStep::CreatePod,
        ManagerStep::PodWhitelist,
        ManagerStep::MarkInited,
        x,
    );
}

/// The cgroup of a pod is the parent of that of the container, where that is not the root.
pub proof fn law_the_pod_is_the_parent(cpath: Seq<char>)
    ensures
        parent_of(cpath) is None ==> pod_path(cpath) is None,
        parent_of(cpath) == Some("/"@) ==> pod_path(cpath) is None,
        parent_of(cpath) is Some && parent_of(cpath)->0 != "/"@ ==> pod_path(cpath) == parent_of(
            cpath,
        ),
{
}

/// Whether a line gives a key a value.
pub open spec fn is_of(line: Seq<char>, key: Seq<char>) -> bool {
    let f = split_on(line, Sep::Char(' '));
    f.len() == 2 && f[0] == key
}

/// The value of a key is the number of the first line of that key; it is 0 where there is no
/// such line, and an error where that line holds no number.
pub proof fn law_the_first_line_of_a_key_counts(lines: Seq<Seq<char>>, key: Seq<char>, i: int)
    requires
        0 <= i <= lines.len(),
        forall|k: int| 0 <= k < i ==> !is_of(#[trigger] lines[k], key),
        i < lines.len() ==> is_of(lines[i], key),
    ensures
        value_in(lines, key) == if i == lines.len() {
            Ok::<int, BadValue>(0)
        } else {
            match int_of(
                split_on(lines[i], Sep::Char(' '))[1],
                -0x8000_0000_0000_0000,
                0x7fff_ffff_ffff_ffff,
            ) {
                Some(n) => Ok::<int, BadValue>(n),
                None => Err::<int, BadValue>(BadValue),
            }
        },
    decreases lines.len(),
{
    if i > 0 {
        let rest = lines.skip(1);
        assert(!is_of(lines[0], key));
        assert forall|k: int| 0 <= k < i - 1 implies !is_of(#[trigger] rest[k], key) by {
            assert(rest[k] == lines[k + 1]);
        }
        law_the_first_line_of_a_key_counts(rest, key, i - 1);
    }
}

/// When a watch ends, and when it tells of a kill: a count of kills above 0 in the file of
/// memory events; no process left in the file of the cgroup; or the cgroup gone. A file that
/// could not be read says nothing.
pub proof fn law_when_a_watch_ends(event: CgroupEvent, c: Seq<char>, n: int, there: bool)
    ensures
        event == CgroupEvent::Memory && value_in(lines_of(c), "oom_kill"@) == Ok::<int, BadValue>(n)
            && n > 0 ==> watched(event, Some(c), there) == WatchStep::NotifyAndStop,
        event == CgroupEvent::Memory && value_in(lines_of(c), "oom_kill"@) == Ok::<int, BadValue>(n)
            && n <= 0 ==> watched(event, Some(c), there) == if there {
            WatchStep::Wait
        } else {
            WatchStep::Stop
        },
        event == CgroupEvent::Memory && value_in(lines_of(c), "oom_kill"@) is Err ==> watched(
            event,
            Some(c),
            there,
        ) == if there {
            WatchStep::Wait
        } else {
            WatchStep::Stop
        },
        event == CgroupEvent::Cgroup && value_in(lines_of(c), "populated"@) == Ok::<int, BadValue>(
            n,
        ) ==> watched(event, Some(c), there) == if n == 0 || !there {
            WatchStep::Stop
        } else {
            WatchStep::Wait
        },
        event == CgroupEvent::Cgroup && value_in(lines_of(c), "populated"@) is Err ==> watched(
            event,
            Some(c),
            there,
        ) == if there {
            WatchStep::Wait
        } else {
            WatchStep::Stop
        },
        event == CgroupEvent::Other ==> watched(event, Some(c), there) == if there {
            WatchStep::Wait
        } else {
            WatchStep::Stop
        },
        watched(event, None, there) == if there {
            WatchStep::Wait
        } else {
            WatchStep::Stop
        },
{
}

/// A list of devices is refused for the first one that is not supported, by its path, and
/// accepted where all are.
pub proof fn law_the_first_excluded_device_is_named(devices: Seq<LinuxDevice>, i: int)
    requires
        0 <= i <= devices.len(),
        forall|k: int| 0 <= k < i ==> !excluded_path((#[trigger] devices[k]).path@),
        i < devices.len() ==> excluded_path(devices[i].path@),
    ensures
        device_fault(devices) == if i < devices.len() {
            Some(DeviceFault::DevicePath(devices[i].path@))
        } else {
            None
        },
    decreases devices.len(),
{
    if i > 0 {
        let rest = devices.skip(1);
        assert(!excluded_path(devices[0].path@));
        assert forall|k: int| 0 <= k < i - 1 implies !excluded_path(
            (#[trigger] rest[k]).path@,
        ) by {
            assert(rest[k] == devices[k + 1]);
        }
        law_the_first_excluded_device_is_named(rest, i - 1);
    }
}

/// A list of variables is refused for the first one that is not supported.
pub proof fn law_the_first_refused_variable_decides(env: Seq<String>, i: int)
    requires
        0 <= i <= env.len(),
        forall|k: int| 0 <= k < i ==> variable_fault((#[trigger] env[k])@) is None,
        i < env.len() ==> variable_fault(env[i]@) is Some,
    ensures
        env_fault(env) == if i < env.len() {
            variable_fault(env[i]@)
        } else {
            None
        },
    decreases env.len(),
{
    if i > 0 {
        let rest = env.skip(1);
        assert(variable_fault(env[0]@) is None);
        assert forall|k: int| 0 <= k < i - 1 implies variable_fault(
            (#[trigger] rest[k])@,
        ) is None by {
            assert(rest[k] == env[k + 1]);
        }
        law_the_first_refused_variable_decides(rest, i - 1);
    }
}

/// Whatever is beneath one of five directories is excluded, and so is every path that begins
/// with the name of one vendor's devices; nothing else is.
pub proof fn law_which_device_paths_are_excluded(p: Seq<char>)
    ensures
        excluded_path(p) <==> is_under(p, "/dev/vfio"@) || is_under(p, "/dev/dri"@) || is_under(
            p,
            "/dev/infiniband"@,
        ) || is_under(p, "/dev/iommu"@) || is_under(p, "/dev/trusted_store"@) || (p.len() >= 11
            && p.take(11) == "/dev/nvidia"@),
{
    reveal_strlit("/dev/nvidia");
    if "/dev/nvidia"@.is_prefix_of(p) {
        assert(p.take(11) =~= "/dev/nvidia"@);
    }
    if p.len() >= 11 && p.take(11) == "/dev/nvidia"@ {
        assert(p.subrange(0, 11) =~= p.take(11));
        assert("/dev/nvidia"@.is_prefix_of(p));
    }
}

/// A variable whose value begins with `sealed.` is refused, whatever its name is.
pub proof fn law_sealed_values_are_refused(name: Seq<char>, rest: Seq<char>)
    requires
        !name.contains('='),
    ensures
        variable_fault(name + "="@ + "sealed."@ + rest) == Some(DeviceFault::SealedSecret),
{
    reveal_strlit("=");
    reveal_strlit("sealed.");
    let entry = name + "="@ + "sealed."@ + rest;
    let value = "sealed."@ + rest;
    assert(entry =~= name.push('=') + value);
    super::words::lemma_split_once(name, value, '=');
    assert("sealed."@ =~= value.take(7));
    assert("sealed."@.is_prefix_of(value));
}

/// What a configuration is refused for: its annotations come first, then its variables, then
/// its device nodes; it is accepted where none of them is refused.
pub proof fn law_what_a_configuration_is_refused_for(spec: Spec)
    ensures
        ({
            let cdi = spec.annotations is Some && exists|i: int|
                0 <= i < spec.annotations->0@.len() && "cdi.k8s.io/"@.is_prefix_of(
                    (#[trigger] spec.annotations->0@[i]).0@,
                );
            let env = if spec.process is Some && spec.process->0.env is Some {
                env_fault(spec.process->0.env->0@)
            } else {
                None
            };
            let nodes = if spec.linux is Some && spec.linux->0.devices is Some {
                device_fault(spec.linux->0.devices->0@)
            } else {
                None
            };
            spec_fault(spec) == if cdi {
                Some(DeviceFault::CdiAnnotation)
            } else if env is Some {
                env
            } else {
                nodes
            }
        }),
{
}

/// A variable that asks for devices by name is refused, unless it asks for none: its value is
/// empty, `none` or `void`, white space aside.
pub proof fn law_which_device_requests_are_refused(value: Seq<char>)
    ensures
        ({
            let entry = "VISIBLE_CDI_DEVICES="@ + value;
            let t = crate::text::trimmed(value);
            let sealed = value.len() >= 7 && value.take(7) == "sealed."@;
            &&& sealed ==> variable_fault(entry) == Some(DeviceFault::SealedSecret)
            &&& !sealed && (t == ""@ || t == "none"@ || t == "void"@) ==> variable_fault(
                entry,
            ) is None
            &&& !sealed && t != ""@ && t != "none"@ && t != "void"@ ==> variable_fault(entry)
                == Some(DeviceFault::VisibleCdiDevices)
        }),
{
    reveal_strlit("VISIBLE_CDI_DEVICES=");
    reveal_strlit("VISIBLE_CDI_DEVICES");
    reveal_strlit("sealed.");
    let entry = "VISIBLE_CDI_DEVICES="@ + value;
    let name = "VISIBLE_CDI_DEVICES"@;
    assert(entry =~= name.push('=') + value);
    assert(!name.contains('='));
    super::words::lemma_split_once(name, value, '=');
    assert(entry.skip(20) =~= value);
    assert(entry.subrange(0, 20) =~= "VISIBLE_CDI_DEVICES="@);
    assert("VISIBLE_CDI_DEVICES="@.is_prefix_of(entry));
    if "sealed."@.is_prefix_of(value) {
        assert(value.take(7) =~= "sealed."@);
    }
    if value.len() >= 7 && value.take(7) == "sealed."@ {
        assert(value.subrange(0, 7) =~= value.take(7));
        assert("sealed."@.is_prefix_of(value));
    }
}

/// Any other variable without a sealed value is accepted.
pub proof fn law_other_variables_are_accepted(name: Seq<char>, value: Seq<char>)
    requires
        !name.contains('='),
        name != "VISIBLE_CDI_DEVICES"@,
        !"sealed."@.is_prefix_of(value),
    ensures
        variable_fault(name.push('=') + value) is None,
{
    reveal_strlit("VISIBLE_CDI_DEVICES=");
    reveal_strlit("VISIBLE_CDI_DEVICES");
    let entry = name.push('=') + value;
    super::words::lemma_split_once(name, value, '=');
    if "VISIBLE_CDI_DEVICES="@.is_prefix_of(entry) {
        assert(entry.subrange(0, 20) =~= "VISIBLE_CDI_DEVICES="@);
        assert(entry[19] == entry.subrange(0, 20)[19]);
        if name.len() < 19 {
            assert(entry[name.len() as int] == '=');
            assert(entry.subrange(0, 20)[name.len() as int] == '=');
            assert("VISIBLE_CDI_DEVICES="@[name.len() as int] != '=');
        } else if name.len() > 19 {
            assert(name[19] == '=');
            assert(name.contains('='));
        } else {
            assert forall|i: int| 0 <= i < 19 implies #[trigger] name[i]
                == "VISIBLE_CDI_DEVICES"@[i] by {
                assert(entry[i] == entry.subrange(0, 20)[i]);
            }
            assert(name =~= "VISIBLE_CDI_DEVICES"@);
        }
    }
}

/// The letter of a device type that groups have is read back as that type.
pub proof fn law_letters_stand_for_device_types()
    ensures
        crate::cgroups::devices::letter_type(
            Some(crate::cgroups::devices::type_letter(DeviceType::A)[0]),
        ) == Some(CgroupDeviceType::All),
        crate::cgroups::devices::letter_type(
            Some(crate::cgroups::devices::type_letter(DeviceType::C)[0]),
        ) == Some(CgroupDeviceType::Char),
        crate::cgroups::devices::letter_type(
            Some(crate::cgroups::devices::type_letter(DeviceType::B)[0]),
        ) == Some(CgroupDeviceType::Block),
        crate::cgroups::devices::letter_type(
            Some(crate::cgroups::devices::type_letter(DeviceType::U)[0]),
        ) is None,
        crate::cgroups::devices::letter_type(
            Some(crate::cgroups::devices::type_letter(DeviceType::P)[0]),
        ) is None,
        crate::cgroups::devices::letter_type(None) is None,
{
    reveal_strlit("a");
    reveal_strlit("b");
    reveal_strlit("c");
    reveal_strlit("u");
    reveal_strlit("p");
}

} // verus!
