//! The rules of the device controller.
use vstd::prelude::*;

use crate::container::{default_device_table, default_devices};
use crate::oci::{DeviceType, LinuxDevice, LinuxDeviceCgroup, Spec};
use crate::text::chars_of;

verus! {

/// Any major or minor number.
pub const WILDCARD: i64 = -1;

/// What is known of the device cgroup of the pod.
#[derive(Clone, Copy, Debug, PartialEq, Eq, Structural)]
pub struct DevicesCgroupInfo {
    /// Whether the pod cgroup is initialised.
    pub inited: bool,
    /// Whether all devices are allowed, which one container that asks for it
    /// brings about.
    pub allowed_all: bool,
}

impl Default for DevicesCgroupInfo {
    fn default() -> (r: Self)
        ensures
            !r.inited,
            !r.allowed_all,
    {
        DevicesCgroupInfo { inited: false, allowed_all: false }
    }
}

/// The kind of device that a rule is about.
#[derive(Clone, Copy, Debug, PartialEq, Eq, Structural)]
pub enum CgroupDeviceType {
    All,
    Char,
    Block,
}

/// What a rule allows or denies.
#[derive(Clone, Copy, Debug, PartialEq, Eq, Structural)]
pub enum DevicePermissions {
    Read,
    Write,
    MkNod,
}

/// A rule of the device controller.
#[derive(Debug)]
pub struct DeviceResource {
    pub allow: bool,
    pub devtype: CgroupDeviceType,
    pub major: i64,
    pub minor: i64,
    pub access: Vec<DevicePermissions>,
}

/// A rule over sequences.
#[verifier::ext_equal]
pub struct DeviceRule {
    pub allow: bool,
    pub devtype: CgroupDeviceType,
    pub major: i64,
    pub minor: i64,
    pub access: Seq<DevicePermissions>,
}

impl View for DeviceResource {
    type V = DeviceRule;

    open spec fn view(&self) -> DeviceRule {
        DeviceRule {
            allow: self.allow,
            devtype: self.devtype,
            major: self.major,
            minor: self.minor,
            access: self.access@,
        }
    }
}

/// The rules of a list.
pub open spec fn rules(v: Seq<DeviceResource>) -> Seq<DeviceRule> {
    v.map_values(|d: DeviceResource| d@)
}

/// The letter of a device type.
pub open spec fn type_letter(typ: DeviceType) -> Seq<char> {
    match typ {
        DeviceType::A => "a"@,
        DeviceType::B => "b"@,
        DeviceType::C => "c"@,
        DeviceType::U => "u"@,
        DeviceType::P => "p"@,
    }
}

/// `oci_spec::runtime::LinuxDeviceType::as_str` gives the lower-case letter of the
/// type.
#[verifier::external_body]
pub(crate) fn device_type_str(typ: DeviceType) -> (r: String)
    ensures
        r@ == type_letter(typ),
{
    let outside = match typ {
        DeviceType::A => oci_spec::runtime::LinuxDeviceType::A,
        DeviceType::B => oci_spec::runtime::LinuxDeviceType::B,
        DeviceType::C => oci_spec::runtime::LinuxDeviceType::C,
        DeviceType::U => oci_spec::runtime::LinuxDeviceType::U,
        DeviceType::P => oci_spec::runtime::LinuxDeviceType::P,
    };
    outside.as_str().to_string()
}

/// The device type that a letter stands for in the kernel's rules.
pub open spec fn letter_type(c: Option<char>) -> Option<CgroupDeviceType> {
    match c {
        Some('a') => Some(CgroupDeviceType::All),
        Some('c') => Some(CgroupDeviceType::Char),
        Some('b') => Some(CgroupDeviceType::Block),
        _ => None,
    }
}

/// `cgroups_rs::devices::DeviceType::from_char` takes `a`, `c` and `b` for all,
/// character and block devices, and nothing else.
#[verifier::external_body]
pub(crate) fn device_type_from_char(c: Option<char>) -> (r: Option<CgroupDeviceType>)
    ensures
        r == letter_type(c),
{
    cgroups_rs::devices::DeviceType::from_char(c).map(
        |t| match t {
            cgroups_rs::devices::DeviceType::All => CgroupDeviceType::All,
            cgroups_rs::devices::DeviceType::Char => CgroupDeviceType::Char,
            cgroups_rs::devices::DeviceType::Block => CgroupDeviceType::Block,
        },
    )
}

/// The device type of the kernel's rules for a type of the configuration. Pipes and
/// unbuffered devices have none.
pub open spec fn rule_type(typ: DeviceType) -> Option<CgroupDeviceType> {
    match typ {
        DeviceType::A => Some(CgroupDeviceType::All),
        DeviceType::B => Some(CgroupDeviceType::Block),
        DeviceType::C => Some(CgroupDeviceType::Char),
        DeviceType::U => None,
        DeviceType::P => None,
    }
}

fn rule_type_of(typ: DeviceType) -> (r: Option<CgroupDeviceType>)
    ensures
        r == rule_type(typ),
{
    proof {
        reveal_strlit("a");
        reveal_strlit("b");
        reveal_strlit("c");
        reveal_strlit("u");
        reveal_strlit("p");
    }
    let s = device_type_str(typ);
    let c = chars_of(s.as_str());
    let first: Option<char> = if c.len() > 0 {
        Some(c[0])
    } else {
        None
    };
    device_type_from_char(first)
}

/// The permission that a letter stands for.
pub open spec fn permission_of(c: char) -> Option<DevicePermissions> {
    if c == 'r' {
        Some(DevicePermissions::Read)
    } else if c == 'w' {
        Some(DevicePermissions::Write)
    } else if c == 'm' {
        Some(DevicePermissions::MkNod)
    } else {
        None
    }
}

/// The permissions that a text lists, in its order; other letters are passed over.
pub open spec fn permissions_of(s: Seq<char>) -> Seq<DevicePermissions>
    decreases s.len(),
{
    if s.len() == 0 {
        Seq::empty()
    } else {
        match permission_of(s.last()) {
            Some(p) => permissions_of(s.drop_last()).push(p),
            None => permissions_of(s.drop_last()),
        }
    }
}

fn read_permissions(s: &str) -> (r: Vec<DevicePermissions>)
    ensures
        r@ == permissions_of(s@),
{
    let c = chars_of(s);
    let mut out: Vec<DevicePermissions> = Vec::new();
    let mut i: usize = 0;
    proof {
        assert(s@.take(0) =~= Seq::<char>::empty());
    }
    while i < c.len()
        invariant
            i <= c.len(),
            c@ == s@,
            out@ == permissions_of(s@.take(i as int)),
        decreases c.len() - i,
    {
        proof {
            assert(s@.take(i + 1).drop_last() =~= s@.take(i as int));
            assert(s@.take(i + 1).last() == c@[i as int]);
        }
        match c[i] {
            'r' => {
                out.push(DevicePermissions::Read);
            },
            'w' => {
                out.push(DevicePermissions::Write);
            },
            'm' => {
                out.push(DevicePermissions::MkNod);
            },
            _ => {},
        }
        i += 1;
    }
    proof {
        assert(s@.take(s@.len() as int) =~= s@);
    }
    out
}

/// The access text of a rule.
pub open spec fn access_text(d: LinuxDeviceCgroup) -> Seq<char> {
    match d.access {
        Some(s) => s@,
        None => Seq::empty(),
    }
}

/// A number, or 0 where it is absent.
pub open spec fn or_zero(n: Option<i64>) -> i64 {
    match n {
        Some(v) => v,
        None => 0,
    }
}

/// The device type of a rule, all devices where it is absent.
pub open spec fn type_or_all(t: Option<DeviceType>) -> DeviceType {
    match t {
        Some(v) => v,
        None => DeviceType::A,
    }
}

/// Whether a rule of a configuration is about all devices: type `a`, no numbers,
/// and all three permissions.
pub open spec fn is_rule_for_all(d: LinuxDeviceCgroup) -> bool {
    &&& or_zero(d.major) == 0
    &&& or_zero(d.minor) == 0
    &&& type_or_all(d.typ) == DeviceType::A
    &&& access_text(d).contains('r')
    &&& access_text(d).contains('w')
    &&& access_text(d).contains('m')
}

fn has_char(c: &Vec<char>, x: char) -> (r: bool)
    ensures
        r == c@.contains(x),
{
    let mut i: usize = 0;
    while i < c.len()
        invariant
            i <= c.len(),
            forall|k: int| 0 <= k < i ==> c@[k] != x,
        decreases c.len() - i,
    {
        if c[i] == x {
            return true;
        }
        i += 1;
    }
    false
}

/// Tells whether a rule of a configuration is about all devices.
pub fn rule_for_all_devices(d: &LinuxDeviceCgroup) -> (r: bool)
    ensures
        r == is_rule_for_all(*d),
{
    let access = match &d.access {
        Some(s) => chars_of(s.as_str()),
        None => Vec::new(),
    };
    proof {
        assert(access@ =~= access_text(*d));
    }
    let major: i64 = match d.major {
        Some(n) => n,
        None => 0,
    };
    let minor: i64 = match d.minor {
        Some(n) => n,
        None => 0,
    };
    let typ = match d.typ {
        Some(t) => t,
        None => DeviceType::A,
    };
    major == 0 && minor == 0 && typ == DeviceType::A && has_char(&access, 'r') && has_char(
        &access,
        'w',
    ) && has_char(&access, 'm')
}

/// The kernel's rule for a rule of a configuration.
pub open spec fn converted_rule(d: LinuxDeviceCgroup) -> Option<DeviceRule> {
    match rule_type(type_or_all(d.typ)) {
        Some(t) => Some(
            DeviceRule {
                allow: d.allow,
                devtype: t,
                major: or_zero(d.major),
                minor: or_zero(d.minor),
                access: permissions_of(access_text(d)),
            },
        ),
        None => None,
    }
}

/// Converts a rule of a configuration into the kernel's form.
pub fn linux_device_cgroup_to_device_resource(d: &LinuxDeviceCgroup) -> (r: Option<DeviceResource>)
    ensures
        match r {
            Some(x) => converted_rule(*d) == Some(x@),
            None => converted_rule(*d) is None,
        },
{
    let typ = match d.typ {
        Some(t) => t,
        None => DeviceType::A,
    };
    let devtype = match rule_type_of(typ) {
        Some(t) => t,
        None => {
            return None;
        },
    };
    let access = match &d.access {
        Some(s) => read_permissions(s.as_str()),
        None => Vec::new(),
    };
    proof {
        assert(access@ =~= permissions_of(access_text(*d)));
    }
    let major: i64 = match d.major {
        Some(n) => n,
        None => 0,
    };
    let minor: i64 = match d.minor {
        Some(n) => n,
        None => 0,
    };
    Some(DeviceResource { allow: d.allow, devtype, major, minor, access })
}

/// All three permissions.
pub open spec fn full_access() -> Seq<DevicePermissions> {
    seq![DevicePermissions::Read, DevicePermissions::Write, DevicePermissions::MkNod]
}

fn full_access_vec() -> (r: Vec<DevicePermissions>)
    ensures
        r@ == full_access(),
{
    let mut v: Vec<DevicePermissions> = Vec::new();
    v.push(DevicePermissions::Read);
    v.push(DevicePermissions::Write);
    v.push(DevicePermissions::MkNod);
    proof {
        assert(v@ =~= full_access());
    }
    v
}

/// Converts a device node into a rule that allows everything on it.
pub fn linux_device_to_device_resource(d: &LinuxDevice) -> (r: Option<DeviceResource>)
    ensures
        match r {
            Some(x) => rule_type(d.typ) == Some(x.devtype) && x.allow && x.major == d.major
                && x.minor == d.minor && x.access@ == full_access(),
            None => rule_type(d.typ) is None,
        },
{
    match rule_type_of(d.typ) {
        Some(devtype) => Some(
            DeviceResource {
                allow: true,
                devtype,
                major: d.major,
                minor: d.minor,
                access: full_access_vec(),
            },
        ),
        None => None,
    }
}

/// The rules of a list that are not about all devices, in the kernel's form.
pub open spec fn device_rules(devices: Seq<LinuxDeviceCgroup>) -> Seq<DeviceRule>
    decreases devices.len(),
{
    if devices.len() == 0 {
        Seq::empty()
    } else {
        let before = device_rules(devices.drop_last());
        let d = devices.last();
        if is_rule_for_all(d) {
            before
        } else {
            match converted_rule(d) {
                Some(x) => before.push(x),
                None => before,
            }
        }
    }
}

/// Converts the rules of a container. Rules about all devices are settled when its
/// cgroup is made and are passed over here.
pub fn set_devices_resources(devices: &Vec<LinuxDeviceCgroup>) -> (r: Vec<DeviceResource>)
    ensures
        rules(r@) == device_rules(devices@),
{
    let mut out: Vec<DeviceResource> = Vec::new();
    let mut i: usize = 0;
    proof {
        assert(devices@.take(0) =~= Seq::<LinuxDeviceCgroup>::empty());
        assert(rules(out@) =~= device_rules(devices@.take(0)));
    }
    while i < devices.len()
        invariant
            i <= devices.len(),
            rules(out@) == device_rules(devices@.take(i as int)),
        decreases devices.len() - i,
    {
        proof {
            assert(devices@.take(i + 1).drop_last() =~= devices@.take(i as int));
            assert(devices@.take(i + 1).last() == devices@[i as int]);
        }
        if !rule_for_all_devices(&devices[i]) {
            if let Some(x) = linux_device_cgroup_to_device_resource(&devices[i]) {
                let ghost was = rules(out@);
                out.push(x);
                proof {
                    assert(rules(out@) =~= was.push(x@));
                }
            }
        }
        i += 1;
    }
    proof {
        assert(devices@.take(devices@.len() as int) =~= devices@);
    }
    out
}

/// The rules that every container has besides those of its default devices: making
/// nodes, and the console, the pseudo terminals and the tun device.
pub open spec fn default_rule_table() -> Seq<DeviceRule> {
    let m = seq![DevicePermissions::MkNod];
    let c = CgroupDeviceType::Char;
    seq![
        DeviceRule { allow: true, devtype: c, major: WILDCARD, minor: WILDCARD, access: m },
        DeviceRule {
            allow: true,
            devtype: CgroupDeviceType::Block,
            major: WILDCARD,
            minor: WILDCARD,
            access: m,
        },
        DeviceRule { allow: true, devtype: c, major: 5, minor: 1, access: full_access() },
        DeviceRule { allow: true, devtype: c, major: 136, minor: WILDCARD, access: full_access() },
        DeviceRule { allow: true, devtype: c, major: 5, minor: 2, access: full_access() },
        DeviceRule { allow: true, devtype: c, major: 10, minor: 200, access: full_access() },
    ]
}

/// Type, numbers and permissions of those rules, as a configuration would write them.
pub open spec fn written_rule_table() -> Seq<(DeviceType, i64, i64, Seq<char>)> {
    seq![
        (DeviceType::C, WILDCARD, WILDCARD, "m"@),
        (DeviceType::B, WILDCARD, WILDCARD, "m"@),
        (DeviceType::C, 5, 1, "rwm"@),
        (DeviceType::C, 136, WILDCARD, "rwm"@),
        (DeviceType::C, 5, 2, "rwm"@),
        (DeviceType::C, 10, 200, "rwm"@),
    ]
}

/// Whether a rule allows what an entry of the table says.
pub open spec fn is_written_rule(d: LinuxDeviceCgroup, e: (DeviceType, i64, i64, Seq<char>)) -> bool {
    &&& d.allow
    &&& d.typ == Some(e.0)
    &&& d.major == Some(e.1)
    &&& d.minor == Some(e.2)
    &&& d.access is Some && d.access->0@ == e.3
}

fn oci_rule(typ: DeviceType, major: i64, minor: i64, access: &str) -> (r: LinuxDeviceCgroup)
    ensures
        is_written_rule(r, (typ, major, minor, access@)),
{
    LinuxDeviceCgroup {
        allow: true,
        typ: Some(typ),
        major: Some(major),
        minor: Some(minor),
        access: Some(access.to_owned()),
    }
}

/// The rules that every container has, as a configuration would write them.
pub fn default_allowed_rules() -> (r: Vec<LinuxDeviceCgroup>)
    ensures
        r@.len() == default_rule_table().len(),
        forall|i: int|
            0 <= i < r@.len() ==> is_written_rule(#[trigger] r@[i], written_rule_table()[i])
                && converted_rule(r@[i]) == Some(default_rule_table()[i]),
{
    let mut v: Vec<LinuxDeviceCgroup> = Vec::new();
    v.push(oci_rule(DeviceType::C, WILDCARD, WILDCARD, "m"));
    v.push(oci_rule(DeviceType::B, WILDCARD, WILDCARD, "m"));
    v.push(oci_rule(DeviceType::C, 5, 1, "rwm"));
    v.push(oci_rule(DeviceType::C, 136, WILDCARD, "rwm"));
    v.push(oci_rule(DeviceType::C, 5, 2, "rwm"));
    v.push(oci_rule(DeviceType::C, 10, 200, "rwm"));
    proof {
        lemma_access_texts();
        assert forall|i: int| 0 <= i < v@.len() implies converted_rule(#[trigger] v@[i]) == Some(
            default_rule_table()[i],
        ) by {
            assert(converted_rule(v@[i])->0 =~= default_rule_table()[i]);
        }
    }
    v
}

proof fn lemma_access_texts()
    ensures
        permissions_of("m"@) == seq![DevicePermissions::MkNod],
        permissions_of("rwm"@) == full_access(),
{
    reveal_strlit("m");
    reveal_strlit("rwm");
    let s = "rwm"@;
    assert(permissions_of(s.take(0)) =~= Seq::empty());
    assert(s.take(1).drop_last() =~= s.take(0));
    assert(permissions_of(s.take(1)) =~= seq![DevicePermissions::Read]);
    assert(s.take(2).drop_last() =~= s.take(1));
    assert(permissions_of(s.take(2)) =~= seq![DevicePermissions::Read, DevicePermissions::Write]);
    assert(s.drop_last() =~= s.take(2));
    assert(permissions_of(s) =~= full_access());
    let m = "m"@;
    assert(m.drop_last() =~= Seq::empty());
    assert(permissions_of(m.drop_last()) =~= Seq::empty());
    assert(permissions_of(m) =~= seq![DevicePermissions::MkNod]);
}

/// The rule of a default device.
pub open spec fn default_device_rule(e: (Seq<char>, i64, i64)) -> DeviceRule {
    DeviceRule {
        allow: true,
        devtype: CgroupDeviceType::Char,
        major: e.1,
        minor: e.2,
        access: full_access(),
    }
}

/// The rules that every container has: its default devices first, then the others.
pub open spec fn default_allowed() -> Seq<DeviceRule> {
    default_device_table().map_values(|e: (Seq<char>, i64, i64)| default_device_rule(e))
        + default_rule_table()
}

/// The rules that every container has, in the kernel's form.
pub fn default_allowed_devices() -> (r: Vec<DeviceResource>)
    ensures
        rules(r@) == default_allowed(),
{
    let mut out: Vec<DeviceResource> = Vec::new();
    let nodes = default_devices();
    let others = default_allowed_rules();
    let ghost first = default_device_table().map_values(
        |e: (Seq<char>, i64, i64)| default_device_rule(e),
    );
    let mut i: usize = 0;
    proof {
        assert(rules(out@) =~= first.take(0));
    }
    while i < nodes.len()
        invariant
            i <= nodes.len(),
            nodes@.len() == default_device_table().len(),
            forall|k: int|
                0 <= k < nodes@.len() ==> crate::container::is_default_device(
                    #[trigger] nodes@[k],
                    default_device_table()[k],
                ),
            first == default_device_table().map_values(
                |e: (Seq<char>, i64, i64)| default_device_rule(e),
            ),
            rules(out@) == first.take(i as int),
        decreases nodes.len() - i,
    {
        let ghost was = rules(out@);
        proof {
            assert(crate::container::is_default_device(
                nodes@[i as int],
                default_device_table()[i as int],
            ));
        }
        if let Some(x) = linux_device_to_device_resource(&nodes[i]) {
            out.push(x);
            proof {
                assert(x@ =~= first[i as int]);
                assert(rules(out@) =~= was.push(x@));
                assert(rules(out@) =~= first.take(i + 1));
            }
        }
        i += 1;
    }
    let ghost table = default_rule_table();
    let mut k: usize = 0;
    proof {
        assert(first.take(first.len() as int) =~= first);
        assert(rules(out@) =~= first + table.take(0));
    }
    while k < others.len()
        invariant
            k <= others.len(),
            table == default_rule_table(),
            others@.len() == table.len(),
            forall|j: int|
                0 <= j < others@.len() ==> converted_rule(#[trigger] others@[j]) == Some(table[j]),
            rules(out@) == first + table.take(k as int),
        decreases others.len() - k,
    {
        let ghost was = rules(out@);
        proof {
            assert(converted_rule(others@[k as int]) == Some(table[k as int]));
        }
        if let Some(x) = linux_device_cgroup_to_device_resource(&others[k]) {
            out.push(x);
            proof {
                assert(rules(out@) =~= was.push(x@));
                assert(rules(out@) =~= first + table.take(k + 1));
            }
        }
        k += 1;
    }
    proof {
        assert(table.take(table.len() as int) =~= table);
    }
    out
}

/// A rule about every device of a kind.
pub open spec fn every_device(allow: bool, devtype: CgroupDeviceType) -> DeviceRule {
    DeviceRule { allow, devtype, major: WILDCARD, minor: WILDCARD, access: full_access() }
}

/// The rules of a cgroup that allows all devices.
pub fn setup_allowed_all_mode() -> (r: Vec<DeviceResource>)
    ensures
        rules(r@) == seq![
            every_device(true, CgroupDeviceType::Block),
            every_device(true, CgroupDeviceType::Char),
        ],
{
    let mut v: Vec<DeviceResource> = Vec::new();
    v.push(
        DeviceResource {
            allow: true,
            devtype: CgroupDeviceType::Block,
            major: WILDCARD,
            minor: WILDCARD,
            access: full_access_vec(),
        },
    );
    v.push(
        DeviceResource {
            allow: true,
            devtype: CgroupDeviceType::Char,
            major: WILDCARD,
            minor: WILDCARD,
            access: full_access_vec(),
        },
    );
    proof {
        assert(rules(v@) =~= seq![
            every_device(true, CgroupDeviceType::Block),
            every_device(true, CgroupDeviceType::Char),
        ]);
    }
    v
}

/// The rules of a cgroup that allows what every container has: everything is denied
/// first.
pub fn setup_devcg_whitelist() -> (r: Vec<DeviceResource>)
    ensures
        rules(r@) == seq![every_device(false, CgroupDeviceType::All)] + default_allowed(),
{
    let mut v: Vec<DeviceResource> = Vec::new();
    v.push(
        DeviceResource {
            allow: false,
            devtype: CgroupDeviceType::All,
            major: WILDCARD,
            minor: WILDCARD,
            access: full_access_vec(),
        },
    );
    let ghost head = rules(v@);
    let mut rest = default_allowed_devices();
    let ghost tail = rules(rest@);
    v.append(&mut rest);
    proof {
        assert(head =~= seq![every_device(false, CgroupDeviceType::All)]);
        assert(rules(v@) =~= head + tail);
    }
    v
}

/// What the first rule about all devices says, and no where there is none.
pub open spec fn first_all_rule(devices: Seq<LinuxDeviceCgroup>) -> bool
    decreases devices.len(),
{
    if devices.len() == 0 {
        false
    } else if is_rule_for_all(devices[0]) {
        devices[0].allow
    } else {
        first_all_rule(devices.skip(1))
    }
}

/// The device rules of a configuration.
pub open spec fn spec_devices(spec: Spec) -> Seq<LinuxDeviceCgroup> {
    match spec.linux {
        Some(linux) => match linux.resources {
            Some(res) => match res.devices {
                Some(v) => v@,
                None => Seq::empty(),
            },
            None => Seq::empty(),
        },
        None => Seq::empty(),
    }
}

/// Tells whether a configuration allows all devices.
pub fn has_allowed_all_devices_rule(spec: &Spec) -> (r: bool)
    ensures
        r == first_all_rule(spec_devices(*spec)),
{
    let linux = match &spec.linux {
        Some(l) => l,
        None => {
            return false;
        },
    };
    let resources = match &linux.resources {
        Some(x) => x,
        None => {
            return false;
        },
    };
    match &resources.devices {
        Some(v) => {
            let mut i: usize = 0;
            proof {
                assert(v@.skip(0) =~= v@);
            }
            while i < v.len()
                invariant
                    i <= v.len(),
                    v@ == spec_devices(*spec),
                    first_all_rule(v@) == first_all_rule(v@.skip(i as int)),
                decreases v.len() - i,
            {
                proof {
                    assert(v@.skip(i as int).skip(1) =~= v@.skip(i + 1));
                    assert(v@.skip(i as int)[0] == v@[i as int]);
                }
                if rule_for_all_devices(&v[i]) {
                    return v[i].allow;
                }
                i += 1;
            }
            false
        },
        None => false,
    }
}

} // verus!
