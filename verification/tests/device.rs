//! Devices of containers.
use kata_fc::device::{
    add_device, check_device, driver_types, insert_devices_cgroup_rule, update_spec_devices,
    with_spaces, Device, DeviceError, DeviceInfo, DeviceRun, HandlerStep, NotBlockDevice,
    VirtioBlkMmioDeviceHandler,
};
use kata_fc::device_policy::{
    validate_device_path, validate_linux_device_features, validate_spec_device_features,
};
use kata_fc::oci::{
    DeviceType, Linux, LinuxDevice, LinuxDeviceCgroup, LinuxResources, Process, Spec, User,
};
use kata_fc::strmap::StrMap;

fn info(major: i64, minor: i64) -> DeviceInfo {
    DeviceInfo {
        guest_major: major,
        guest_minor: minor,
    }
}

fn device(path: &str, typ: DeviceType, major: i64, minor: i64) -> LinuxDevice {
    LinuxDevice {
        path: path.to_string(),
        typ,
        major,
        minor,
        file_mode: None,
        uid: None,
        gid: None,
    }
}

fn spec(devices: &[(&str, DeviceType, i64, i64)]) -> Spec {
    let mut resources = LinuxResources::unlimited();
    resources.devices = Some(
        devices
            .iter()
            .map(|(_, typ, major, minor)| LinuxDeviceCgroup {
                allow: true,
                typ: Some(*typ),
                major: Some(*major),
                minor: Some(*minor),
                access: Some("rw".to_string()),
            })
            .collect(),
    );
    let mut linux = Linux::empty();
    linux.devices = Some(
        devices
            .iter()
            .map(|(path, typ, major, minor)| device(path, *typ, *major, *minor))
            .collect(),
    );
    linux.resources = Some(resources);
    let mut spec = Spec::empty();
    spec.linux = Some(linux);
    spec
}

fn updates(list: &[(&str, DeviceInfo)]) -> StrMap<DeviceInfo> {
    let mut m = StrMap::new();
    for (path, i) in list {
        m.insert(path.to_string(), *i);
    }
    m
}

fn rules(spec: &Spec) -> &Vec<LinuxDeviceCgroup> {
    spec.linux
        .as_ref()
        .unwrap()
        .resources
        .as_ref()
        .unwrap()
        .devices
        .as_ref()
        .unwrap()
}

fn process(env: &str) -> Process {
    Process {
        terminal: None,
        user: User {
            uid: 0,
            gid: 0,
            additional_gids: None,
        },
        args: None,
        env: Some(vec![env.to_string()]),
        cwd: "/".to_string(),
        capabilities: None,
        rlimits: None,
        no_new_privileges: None,
        selinux_label: None,
        oom_score_adj: None,
    }
}

#[test]
fn mmio_metadata_rejects_character_devices_and_regular_files() {
    let file = tempfile::NamedTempFile::new().unwrap();
    for path in [
        "/dev/null",
        "/",
        "",
        "/nonexistent/device",
        file.path().to_str().unwrap(),
    ] {
        let found = nix::sys::stat::stat(path)
            .map_err(|e| e.to_string())
            .and_then(|s| {
                let kind = nix::sys::stat::SFlag::from_bits_truncate(s.st_mode)
                    & nix::sys::stat::SFlag::S_IFMT;
                DeviceInfo::new(kind == nix::sys::stat::SFlag::S_IFBLK, s.st_rdev)
                    .map_err(|e| e.message())
            });
        assert!(found.is_err(), "{}", path);
    }
}

#[test]
fn numbers_are_taken_apart() {
    let dev = nix::sys::stat::makedev(252, 3);
    assert_eq!(DeviceInfo::new(true, dev).unwrap(), info(252, 3));
    let dev = nix::sys::stat::makedev(0x1234, 0x98765);
    assert_eq!(DeviceInfo::new(true, dev).unwrap(), info(0x1234, 0x98765));
    assert_eq!(DeviceInfo::new(false, dev), Err(NotBlockDevice));
}

#[test]
fn block_mapping_preserves_paths_and_character_rules() {
    let mut spec = spec(&[
        ("/dev/block", DeviceType::B, 8, 0),
        ("/dev/char", DeviceType::C, 8, 0),
    ]);
    update_spec_devices(&mut spec, updates(&[("/dev/block", info(252, 3))])).unwrap();
    let devices = spec.linux.as_ref().unwrap().devices.as_ref().unwrap();
    assert_eq!(devices[0].path, "/dev/block");
    assert_eq!((devices[0].major, devices[0].minor), (252, 3));
    assert_eq!((devices[1].major, devices[1].minor), (8, 0));
    let rules = rules(&spec);
    assert_eq!((rules[0].major, rules[0].minor), (Some(252), Some(3)));
    assert_eq!((rules[1].major, rules[1].minor), (Some(8), Some(0)));
}

#[test]
fn overlapping_host_guest_numbers_are_remapped_once() {
    let mut spec = spec(&[
        ("/dev/a", DeviceType::B, 8, 0),
        ("/dev/b", DeviceType::B, 8, 1),
    ]);
    update_spec_devices(
        &mut spec,
        updates(&[("/dev/a", info(8, 1)), ("/dev/b", info(8, 2))]),
    )
    .unwrap();
    let rules = rules(&spec);
    assert_eq!(rules[0].minor, Some(1));
    assert_eq!(rules[1].minor, Some(2));
}

#[test]
fn missing_and_conflicting_spec_mappings_are_errors() {
    assert!(matches!(
        update_spec_devices(&mut Spec::empty(), updates(&[("/dev/a", info(252, 1))])),
        Err(DeviceError::NoLinux)
    ));
    let mut missing = spec(&[]);
    match update_spec_devices(&mut missing, updates(&[("/dev/a", info(252, 1))])) {
        Err(DeviceError::Missing(paths)) => assert_eq!(paths, vec!["/dev/a".to_string()]),
        other => panic!("unexpected {:?}", other),
    }
    let mut duplicate = spec(&[
        ("/dev/a", DeviceType::B, 8, 0),
        ("/dev/b", DeviceType::B, 8, 0),
    ]);
    assert!(matches!(
        update_spec_devices(
            &mut duplicate,
            updates(&[("/dev/a", info(252, 1)), ("/dev/b", info(252, 2))])
        ),
        Err(DeviceError::ConflictingNumbers(8, 0))
    ));
}

#[test]
fn added_rule_is_read_write_mmio_block() {
    let mut spec = spec(&[]);
    insert_devices_cgroup_rule(&mut spec, &info(252, 3)).unwrap();
    let rules = rules(&spec);
    assert_eq!(rules.len(), 1);
    assert!(rules[0].allow);
    assert_eq!(rules[0].typ, Some(DeviceType::B));
    assert_eq!(rules[0].access.as_deref(), Some("rwm"));
    assert_eq!((rules[0].major, rules[0].minor), (Some(252), Some(3)));
}

#[test]
fn a_rule_is_added_where_there_are_no_resources() {
    let mut spec = Spec::empty();
    spec.linux = Some(Linux::empty());
    insert_devices_cgroup_rule(&mut spec, &info(252, 3)).unwrap();
    let found = rules(&spec);
    assert_eq!(found.len(), 1);
    assert_eq!((found[0].major, found[0].minor), (Some(252), Some(3)));
    assert!(found[0].allow);
    insert_devices_cgroup_rule(&mut spec, &info(252, 4)).unwrap();
    let found = rules(&spec);
    assert_eq!(found.len(), 2);
    assert_eq!((found[1].major, found[1].minor), (Some(252), Some(4)));
    let limits = spec.linux.as_ref().unwrap().resources.as_ref().unwrap();
    assert!(limits.memory.is_none() && limits.cpu.is_none() && limits.pids.is_none());
}

#[test]
fn missing_devices_are_named() {
    let error = DeviceError::Missing(vec!["/dev/a".to_string(), "/dev/b\n".to_string()]);
    assert_eq!(
        error.message(),
        "Missing devices in OCI spec: \"\\\"/dev/a\\\" \\\"/dev/b\\\\n\\\"\""
    );
    assert_eq!(with_spaces(&vec![]), "");
    assert_eq!(with_spaces(&vec!["a".to_string(), "b".to_string(), "".to_string()]), "a b ");
    let r = update_spec_devices(&mut spec(&[]), updates(&[("/dev/x", info(252, 1))]));
    assert_eq!(
        r.unwrap_err().message(),
        "Missing devices in OCI spec: \"\\\"/dev/x\\\"\""
    );
}

#[test]
fn rules_need_a_place() {
    assert!(matches!(
        insert_devices_cgroup_rule(&mut Spec::empty(), &info(1, 2)),
        Err(DeviceError::NoLinuxForRule)
    ));
}

#[test]
fn a_path_is_added_once() {
    let mut spec = spec(&[]);
    let mut list = StrMap::new();
    add_device(&mut spec, &mut list, "/dev/a", info(252, 1)).unwrap();
    assert_eq!(list.get("/dev/a"), Some(&info(252, 1)));
    assert_eq!(rules(&spec).len(), 1);
    assert!(matches!(
        add_device(&mut spec, &mut list, "/dev/a", info(252, 2)),
        Err(DeviceError::ConflictingPath(ref p)) if p == "/dev/a"
    ));
}

fn attached(vm_path: &str, container_path: &str) -> Device {
    Device {
        typ: "mmioblk".to_string(),
        options: vec![],
        vm_path: vm_path.to_string(),
        container_path: container_path.to_string(),
    }
}

#[test]
fn devices_are_added_one_after_the_other() {
    let devices = vec![attached("/dev/vda", "/dev/a"), attached("/dev/vdb", "/dev/b")];
    let mut spec = spec(&[
        ("/dev/a", DeviceType::B, 8, 0),
        ("/dev/b", DeviceType::B, 8, 1),
    ]);
    let mut run = DeviceRun::new();
    while let Some(i) = run.next(&devices).unwrap() {
        run.found(&devices, &mut spec, info(254, i as i64 * 16))
            .unwrap();
    }
    run.finish(&devices, &mut spec).unwrap();
    let rules: Vec<(Option<i64>, Option<i64>)> =
        rules(&spec).iter().map(|r| (r.major, r.minor)).collect();
    assert_eq!(
        rules,
        vec![
            (Some(254), Some(0)),
            (Some(254), Some(16)),
            (Some(254), Some(0)),
            (Some(254), Some(16)),
        ]
    );
}

#[test]
fn a_device_is_checked_before_it_is_looked_for() {
    let mut devices = vec![attached("/dev/vda", "/dev/a"), attached("/dev/vdb", "/dev/a")];
    let mut spec = spec(&[("/dev/a", DeviceType::B, 8, 0)]);
    let mut run = DeviceRun::new();
    assert_eq!(run.next(&devices).unwrap(), Some(0));
    run.found(&devices, &mut spec, info(254, 0)).unwrap();
    assert!(matches!(
        run.found(&devices, &mut spec, info(254, 16)),
        Err(DeviceError::ConflictingPath(_))
    ));
    devices[0].typ = "nvdimm".to_string();
    assert!(matches!(
        DeviceRun::new().next(&devices),
        Err(DeviceError::Unsupported)
    ));
}

#[test]
fn only_one_driver_is_known() {
    let mut d = Device {
        typ: "mmioblk".to_string(),
        options: vec![],
        vm_path: "/dev/vdb".to_string(),
        container_path: "/dev/b".to_string(),
    };
    check_device(&d).unwrap();
    assert_eq!(driver_types(), vec!["mmioblk".to_string()]);
    let handler = VirtioBlkMmioDeviceHandler;
    assert_eq!(
        handler.device_handler(&d, true).unwrap(),
        HandlerStep::Inspect
    );
    assert_eq!(
        handler.device_handler(&d, false).unwrap(),
        HandlerStep::WaitAndInspect
    );
    d.options = vec!["x".to_string()];
    assert!(matches!(check_device(&d), Err(DeviceError::Unsupported)));
    d.options = vec![];
    d.typ = "scsi".to_string();
    assert!(check_device(&d).is_err());
    d.vm_path = String::new();
    assert!(handler.device_handler(&d, true).is_err());
}

#[test]
fn raw_block_and_character_devices_retained() {
    let mut linux = Linux::empty();
    linux.devices = Some(vec![device("/dev/arbitrary-name", DeviceType::B, 8, 0)]);
    validate_linux_device_features(&linux).unwrap();
    linux.devices = Some(vec![device("/dev/null", DeviceType::C, 1, 3)]);
    validate_linux_device_features(&linux).unwrap();
}

#[test]
fn minimal_device_contract() {
    let mut spec = Spec::empty();
    validate_spec_device_features(&spec).unwrap();
    spec.annotations = Some(vec![(
        "cdi.k8s.io/gpu".to_string(),
        "nvidia.com/gpu=all".to_string(),
    )]);
    assert!(validate_spec_device_features(&spec).is_err());
    spec.annotations = Some(vec![(
        "io.kubernetes.cri.container-name".to_string(),
        "worker".to_string(),
    )]);
    for value in ["nvidia.com/gpu=all", "intel.com/gpu=0", "malformed"] {
        spec.process = Some(process(&format!("VISIBLE_CDI_DEVICES={}", value)));
        assert!(validate_spec_device_features(&spec).is_err());
    }
    spec.process = Some(process("TOKEN=sealed.invalid"));
    assert!(validate_spec_device_features(&spec).is_err());
    for value in ["", "none", "void"] {
        spec.process = Some(process(&format!("VISIBLE_CDI_DEVICES={}", value)));
        validate_spec_device_features(&spec).unwrap();
    }
    for path in [
        "/dev/vfio/1",
        "/dev/vfio/devices/vfio0",
        "/dev/nvidia0",
        "/dev/dri/renderD128",
        "/dev/infiniband/uverbs0",
        "/dev/iommu",
        "/dev/trusted_store",
    ] {
        let mut linux = Linux::empty();
        linux.devices = Some(vec![device(path, DeviceType::A, 0, 0)]);
        spec.linux = Some(linux);
        assert!(validate_spec_device_features(&spec).is_err(), "{}", path);
    }
    for path in ["/dev/null", "/dev/random", "/dev/fuse", "/dev/vdb"] {
        validate_device_path(path).unwrap();
    }
}
