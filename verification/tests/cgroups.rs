//! Control groups.
use kata_fc::cgroups::devices::{
    default_allowed_devices, default_allowed_rules, has_allowed_all_devices_rule,
    linux_device_cgroup_to_device_resource, rule_for_all_devices, setup_allowed_all_mode,
    CgroupDeviceType, DevicePermissions, DevicesCgroupInfo, WILDCARD,
};
use kata_fc::cgroups::manager::{
    cgroup_path_under_root, freeze_request, mark, FreezerState, Manager, ManagerStep,
};
use kata_fc::cgroups::notifier::{get_value_from_cgroup, notify_oom, CgroupEvent, WatchStep};
use kata_fc::cgroups::resources::{
    convert_memory_swap_to_v2_value, convert_shares_to_v2_value, plan_resources,
    validate_resources, CgroupError, CgroupWrite,
};
use kata_fc::cgroups::stats::{
    build_blkio_stats_entry, get_cpu_stats, get_cpu_usage_stats, get_hugetlb_stats,
    get_memory_stats, get_pids_stats, lines_to_map, HugetlbReading, MaxValue, MemoryReading,
};
use kata_fc::container::default_devices;
use kata_fc::oci::{
    DeviceType, Linux, LinuxBlockIo, LinuxCpu, LinuxDeviceCgroup, LinuxHugepageLimit,
    LinuxInterfacePriority, LinuxMemory, LinuxNetwork, LinuxResources, LinuxWeightDevice, Spec,
};

fn cpu() -> LinuxCpu {
    LinuxCpu {
        shares: None,
        quota: None,
        period: None,
        realtime_runtime: None,
        realtime_period: None,
        cpus: None,
        mems: None,
    }
}

fn memory() -> LinuxMemory {
    LinuxMemory {
        limit: None,
        reservation: None,
        swap: None,
        kernel: None,
        kernel_tcp: None,
        swappiness: None,
        disable_oom_killer: None,
    }
}

fn block_io() -> LinuxBlockIo {
    LinuxBlockIo {
        weight: None,
        leaf_weight: None,
        weight_device: None,
        throttle_read_bps_device: None,
        throttle_write_bps_device: None,
        throttle_read_iops_device: None,
        throttle_write_iops_device: None,
    }
}

#[test]
fn test_cgroup_path_under_root_trims_absolute_cpath() {
    assert_eq!(
        cgroup_path_under_root(
            "/sys/fs/cgroup",
            "/docker.slice/docker-containers.slice/container"
        ),
        "/sys/fs/cgroup/docker.slice/docker-containers.slice/container"
    );
}

#[test]
fn test_cgroup_path_with_subcgroup_preserves_absolute_cpath() {
    let manager = Manager {
        cpath: "/docker.slice/docker-containers.slice/container".to_string(),
        pod_cpath: None,
        devcg_allowed_all: false,
    };
    assert_eq!(
        manager.cgroup_path_with_subcgroup("/init/"),
        "/docker.slice/docker-containers.slice/container/init"
    );
    assert_eq!(
        manager.cgroup_path_with_subcgroup("/"),
        "/docker.slice/docker-containers.slice/container"
    );
}

#[test]
fn test_lines_to_map() {
    let hm1: Vec<(&str, u64)> = vec![("a", 1), ("b", 2), ("c", 3), ("e", 5)];
    let hm2: Vec<(&str, u64)> = vec![("a", 1)];
    let test_cases = vec![
        ("a 1\nb 2\nc 3\nd X\ne 5\n", hm1),
        ("a 1", hm2),
        ("a c", vec![]),
    ];
    for (input, expected) in test_cases {
        let result = lines_to_map(input);
        assert_eq!(result.len(), expected.len(), "input {}", input);
        for (k, v) in expected {
            assert_eq!(result.get(k), Some(&v), "key {} of input {}", k, input);
        }
    }
}

#[test]
fn test_reject_cgroup_v1_resources() {
    let mut requests = Vec::new();
    for network in [
        LinuxNetwork {
            class_id: Some(1),
            priorities: None,
        },
        LinuxNetwork {
            class_id: None,
            priorities: Some(vec![LinuxInterfacePriority {
                name: "eth0".to_string(),
                priority: 1,
            }]),
        },
    ] {
        let mut r = LinuxResources::unlimited();
        r.network = Some(network);
        requests.push(r);
    }
    for c in [
        LinuxCpu {
            realtime_period: Some(1),
            ..cpu()
        },
        LinuxCpu {
            realtime_runtime: Some(1),
            ..cpu()
        },
    ] {
        let mut r = LinuxResources::unlimited();
        r.cpu = Some(c);
        requests.push(r);
    }
    for m in [
        LinuxMemory {
            kernel: Some(1),
            ..memory()
        },
        LinuxMemory {
            kernel_tcp: Some(1),
            ..memory()
        },
        LinuxMemory {
            swappiness: Some(0),
            ..memory()
        },
        LinuxMemory {
            disable_oom_killer: Some(true),
            ..memory()
        },
    ] {
        let mut r = LinuxResources::unlimited();
        r.memory = Some(m);
        requests.push(r);
    }
    for b in [
        LinuxBlockIo {
            leaf_weight: Some(1),
            ..block_io()
        },
        LinuxBlockIo {
            weight_device: Some(vec![LinuxWeightDevice {
                major: 8,
                minor: 0,
                weight: None,
                leaf_weight: Some(1),
            }]),
            ..block_io()
        },
    ] {
        let mut r = LinuxResources::unlimited();
        r.block_io = Some(b);
        requests.push(r);
    }
    assert_eq!(requests.len(), 10);
    for request in &requests {
        assert!(
            validate_resources(request).is_err(),
            "accepted {:?}",
            request
        );
    }
    let mut resources = LinuxResources::unlimited();
    resources.cpu = Some(LinuxCpu {
        period: Some(100000),
        quota: Some(100000),
        shares: Some(1024),
        ..cpu()
    });
    resources.memory = Some(LinuxMemory {
        limit: Some(536870912),
        swap: Some(536870912),
        disable_oom_killer: Some(false),
        ..memory()
    });
    resources.pids = Some(256);
    resources.hugepage_limits = Some(vec![LinuxHugepageLimit {
        page_size: "2MB".to_string(),
        limit: 2097152,
    }]);
    validate_resources(&resources).unwrap();
}

#[test]
fn test_memory_swap_v2_limit() {
    for (combined, memory, expected) in [
        (0, 0, 0),
        (0, -1, -1),
        (-1, 512, -1),
        (512, 512, 0),
        (1024, 512, 512),
    ] {
        assert_eq!(
            convert_memory_swap_to_v2_value(combined, memory).unwrap(),
            expected
        );
    }
    for (combined, memory) in [(100, 0), (100, -1), (100, 200), (100, -2)] {
        assert!(convert_memory_swap_to_v2_value(combined, memory).is_err());
    }
}

#[test]
fn test_default_allowed_devices() {
    let allowed_devices = default_allowed_devices();
    assert_eq!(
        allowed_devices.len(),
        default_devices().len() + default_allowed_rules().len()
    );
    let allowed_permissions = [
        DevicePermissions::Read,
        DevicePermissions::Write,
        DevicePermissions::MkNod,
    ];
    let default_devices_0 = &allowed_devices[0];
    assert!(default_devices_0.allow);
    assert_eq!(default_devices_0.devtype, CgroupDeviceType::Char);
    assert_eq!(default_devices_0.major, 1);
    assert_eq!(default_devices_0.minor, 3);
    assert!(default_devices_0
        .access
        .iter()
        .all(|p| allowed_permissions.contains(p)));
    let default_allowed_devices_0 = &allowed_devices[default_devices().len()];
    assert!(default_allowed_devices_0.allow);
    assert_eq!(default_allowed_devices_0.devtype, CgroupDeviceType::Char);
    assert_eq!(default_allowed_devices_0.major, WILDCARD);
    assert_eq!(default_allowed_devices_0.minor, WILDCARD);
    assert_eq!(
        default_allowed_devices_0.access,
        vec![DevicePermissions::MkNod]
    );
}

#[test]
fn swap_errors_say_what_is_wrong() {
    assert_eq!(
        convert_memory_swap_to_v2_value(100, 0),
        Err(CgroupError::SwapWithoutMemory)
    );
    assert_eq!(
        convert_memory_swap_to_v2_value(100, -2),
        Err(CgroupError::InvalidMemory(-2))
    );
    assert_eq!(
        convert_memory_swap_to_v2_value(100, 200),
        Err(CgroupError::SwapBelowMemory)
    );
}

#[test]
fn weights_span_the_range() {
    assert_eq!(convert_shares_to_v2_value(0), 0);
    assert_eq!(convert_shares_to_v2_value(2), 1);
    assert_eq!(convert_shares_to_v2_value(1024), 39);
    assert_eq!(convert_shares_to_v2_value(262144), 10000);
}

#[test]
fn limits_become_writes() {
    let mut r = LinuxResources::unlimited();
    r.memory = Some(LinuxMemory {
        limit: Some(512),
        swap: Some(1024),
        ..memory()
    });
    r.pids = Some(0);
    let plan = plan_resources(&r, &vec![], false).unwrap();
    assert!(plan.writes.contains(&CgroupWrite::MemoryLimit(512)));
    assert!(plan.writes.contains(&CgroupWrite::SwapLimit(512)));
    assert!(plan.writes.contains(&CgroupWrite::Pids(None)));
}

#[test]
fn a_rule_for_all_devices_is_told_apart() {
    let all = LinuxDeviceCgroup {
        allow: true,
        typ: Some(DeviceType::A),
        major: Some(0),
        minor: Some(0),
        access: Some("rwm".to_string()),
    };
    assert!(rule_for_all_devices(&all));
    let one = LinuxDeviceCgroup {
        allow: true,
        typ: Some(DeviceType::B),
        major: Some(8),
        minor: Some(1),
        access: Some("rw".to_string()),
    };
    assert!(!rule_for_all_devices(&one));
    let resource = linux_device_cgroup_to_device_resource(&one).unwrap();
    assert_eq!(resource.devtype, CgroupDeviceType::Block);
    assert_eq!(
        resource.access,
        vec![DevicePermissions::Read, DevicePermissions::Write]
    );
    let pipe = LinuxDeviceCgroup {
        typ: Some(DeviceType::P),
        ..one
    };
    assert!(linux_device_cgroup_to_device_resource(&pipe).is_none());
    let all: Vec<CgroupDeviceType> = setup_allowed_all_mode()
        .iter()
        .map(|r| r.devtype)
        .collect();
    assert_eq!(all, vec![CgroupDeviceType::Block, CgroupDeviceType::Char]);
}

#[test]
fn the_pod_learns_of_a_container_that_may_use_all_devices() {
    let mut linux = Linux::empty();
    let mut resources = LinuxResources::unlimited();
    resources.devices = Some(vec![LinuxDeviceCgroup {
        allow: true,
        typ: Some(DeviceType::A),
        major: Some(0),
        minor: Some(0),
        access: Some("rwm".to_string()),
    }]);
    linux.resources = Some(resources);
    let mut spec = Spec::empty();
    spec.linux = Some(linux);
    assert!(has_allowed_all_devices_rule(&spec));
    let fresh = DevicesCgroupInfo {
        inited: false,
        allowed_all: false,
    };
    let (manager, steps) = Manager::new("/pod/ctr", &spec, Some(fresh), true).unwrap();
    assert!(manager.devcg_allowed_all);
    let mut info = DevicesCgroupInfo {
        inited: false,
        allowed_all: false,
    };
    for step in &steps {
        mark(*step, &mut info);
    }
    assert!(info.inited && info.allowed_all);
    assert!(!steps.contains(&ManagerStep::ContainerWhitelist));

    let plain = Spec::empty();
    let (other, steps) = Manager::new("/pod/other", &plain, Some(info), true).unwrap();
    assert!(other.devcg_allowed_all || steps.contains(&ManagerStep::ContainerWhitelist));

    assert!(matches!(
        Manager::new("/pod/ctr", &plain, None, false),
        Err(CgroupError::NotUnified)
    ));
}

#[test]
fn only_two_states_can_be_asked_of_a_freezer() {
    assert_eq!(freeze_request(FreezerState::Frozen), Some(true));
    assert_eq!(freeze_request(FreezerState::Thawed), Some(false));
}

#[test]
fn out_of_memory_kills_are_noticed() {
    assert_eq!(
        get_value_from_cgroup("low 0\noom_kill 2\n", "oom_kill").unwrap(),
        2
    );
    assert_eq!(get_value_from_cgroup("low 0\n", "oom_kill").unwrap(), 0);
    assert!(get_value_from_cgroup("oom_kill x\n", "oom_kill").is_err());
    assert_eq!(
        notify_oom(
            CgroupEvent::Memory,
            &Some("oom_kill 1\n".to_string()),
            true
        ),
        WatchStep::NotifyAndStop
    );
    assert_eq!(
        notify_oom(
            CgroupEvent::Cgroup,
            &Some("populated 0\n".to_string()),
            true
        ),
        WatchStep::Stop
    );
    assert_eq!(
        notify_oom(
            CgroupEvent::Cgroup,
            &Some("populated 1\n".to_string()),
            true
        ),
        WatchStep::Wait
    );
}

#[test]
fn statistics_keep_what_the_host_reads() {
    let usage = get_cpu_usage_stats("usage_usec 3\nuser_usec 2\nsystem_usec 1\n");
    assert_eq!(usage.total_usage, 3000);
    let throttling = get_cpu_stats("nr_periods 4\nnr_throttled 2\nthrottled_usec 7\n");
    assert_eq!(throttling.periods, 4);
    assert_eq!(throttling.throttled_periods, 2);
    let pids = get_pids_stats(Some(5), Some(MaxValue::Max));
    assert_eq!((pids.current, pids.limit), (5, 0));
    let reading = MemoryReading {
        usage: 10,
        max_usage: 20,
        failcnt: 1,
        limit: -1,
    };
    let memory = get_memory_stats(
        3,
        reading,
        reading,
        &vec![
            ("inactive_file".to_string(), 7),
            ("slab".to_string(), 9),
        ],
    );
    assert_eq!(memory.usage.limit, u64::MAX);
    assert_eq!(memory.stats, vec![("inactive_file".to_string(), 7)]);
    let huge = get_hugetlb_stats(&vec![HugetlbReading {
        size: "2MB".to_string(),
        usage: Some(4),
        max_usage: None,
        failcnt: Some(1),
    }]);
    let two = huge.get("2MB").unwrap();
    assert_eq!((two.usage, two.max_usage, two.failcnt), (4, 0, 1));
    let entry = build_blkio_stats_entry(8, 1, "read", 6);
    assert_eq!((entry.major, entry.minor, entry.value), (8, 1, 6));
    assert_eq!(entry.op, "read");
}
