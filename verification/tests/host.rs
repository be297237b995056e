//! The configuration of the host side: hypervisors, annotations, volumes, processors.
use kata_fc::annotations::{
    convert_to_megabytes, megabytes_of, validate_config_annotations, EnabledOptions,
    Annotation, AnnotationError, KATA_ANNO_CFG_AGENT_TRACE,
    KATA_ANNO_CFG_HYPERVISOR_DEFAULT_MEMORY, KATA_ANNO_CFG_HYPERVISOR_DEFAULT_VCPUS,
    KATA_ANNO_CFG_HYPERVISOR_INIT_DATA, KATA_ANNO_CFG_HYPERVISOR_KERNEL_PATH,
    SANDBOX_CPU_PERIOD_KEY, SANDBOX_CPU_QUOTA_KEY, SANDBOX_MEM_KEY,
};
use kata_fc::cpu::{CpuError, LinuxContainerCpuResources, VcpuCount};
use kata_fc::hypervisor::{
    Agent, FirecrackerConfig, Hypervisor, HypervisorError, HypervisorPlugins, Runtime, TomlConfig,
    Vcpus, VIRTIO_BLK_MMIO,
};
use kata_fc::k8s::{
    container_type, container_type_with_id, is_configmap, is_downward_api, is_empty_dir,
    is_projected, is_secret, ContainerType, CONTAINER, CONTAINERD_CONTAINER_TYPE_LABEL_KEY,
    CONTAINERD_SANDBOX_ID_LABEL_KEY, CRIO_CONTAINER_TYPE_LABEL_KEY, CRIO_SANDBOX_ID_LABEL_KEY,
    DOCKERSHIM_CONTAINER_TYPE_LABEL_KEY, DOCKERSHIM_SANDBOX_ID_LABEL_KEY, PODSANDBOX,
    POD_CONTAINER, POD_SANDBOX, SANDBOX,
};
use kata_fc::oci::{LinuxCpu, Spec};
use kata_fc::shim::sb_storage_path;
use kata_fc::strmap::StrMap;
use kata_fc::volume::{
    is_kata_ephemeral_volume, is_kata_guest_mount_volume, is_kata_special_volume,
    is_volume_mounted, join_path, kata_direct_volume_root_path, kata_guest_sandbox_dir,
    mount_info_file, volume_info_file, DEFAULT_KATA_GUEST_SANDBOX_DIR,
};

const EPSILON: f64 = 0.0001;

fn vcpus(n: f32) -> Vcpus {
    Vcpus { bits: n.to_bits() }
}

fn plugins() -> HypervisorPlugins {
    let mut p = HypervisorPlugins::none();
    FirecrackerConfig::new().register(&mut p);
    p
}

fn text_of(t: &toml::Table, key: &str) -> String {
    t.get(key)
        .and_then(|v| v.as_str())
        .unwrap_or("")
        .to_string()
}

fn number_of(t: &toml::Table, key: &str) -> u32 {
    t.get(key).and_then(|v| v.as_integer()).unwrap_or(0) as u32
}

fn flag_of(t: &toml::Table, key: &str) -> bool {
    t.get(key).and_then(|v| v.as_bool()).unwrap_or(false)
}

fn hypervisor_of(t: &toml::Table) -> Hypervisor {
    let mut h = Hypervisor::empty();
    h.path = text_of(t, "path");
    h.boot_info.kernel = text_of(t, "kernel");
    h.boot_info.image = text_of(t, "image");
    h.default_vcpus = vcpus(number_of(t, "default_vcpus") as f32);
    h.default_maxvcpus = number_of(t, "default_maxvcpus");
    h.default_memory = number_of(t, "default_memory");
    h.security_info.confidential_guest = flag_of(t, "confidential_guest");
    h.security_info.initdata = text_of(t, "initdata");
    if let Some(names) = t.get("enable_annotations").and_then(|v| v.as_array()) {
        for n in names {
            h.security_info
                .enable_annotations
                .push(n.as_str().unwrap().to_string());
        }
    }
    h
}

fn empty_config() -> TomlConfig {
    TomlConfig {
        hypervisor: StrMap::new(),
        agent: StrMap::new(),
        runtime: Runtime {
            name: String::new(),
            hypervisor_name: String::new(),
            agent_name: String::new(),
            enable_tracing: false,
        },
    }
}

fn load(content: &str) -> Result<TomlConfig, HypervisorError> {
    let table: toml::Table = content.parse().unwrap();
    let mut conf = empty_config();
    if let Some(t) = table.get("hypervisor").and_then(|v| v.as_table()) {
        for (name, h) in t {
            conf.hypervisor
                .insert(name.clone(), hypervisor_of(h.as_table().unwrap()));
        }
    }
    if let Some(t) = table.get("agent").and_then(|v| v.as_table()) {
        for (name, a) in t {
            conf.agent.insert(
                name.clone(),
                Agent {
                    enable_tracing: flag_of(a.as_table().unwrap(), "enable_tracing"),
                },
            );
        }
    }
    if let Some(t) = table.get("runtime").and_then(|v| v.as_table()) {
        conf.runtime.name = text_of(t, "name");
        conf.runtime.hypervisor_name = text_of(t, "hypervisor_name");
        conf.runtime.agent_name = text_of(t, "agent_name");
        conf.runtime.enable_tracing = flag_of(t, "enable_tracing");
    }
    TomlConfig::load(conf, &plugins())
}

fn annotation(list: &[(&str, &str)]) -> Annotation {
    let mut m = StrMap::new();
    for (k, v) in list {
        m.insert(k.to_string(), v.to_string());
    }
    Annotation::new(m)
}

fn enabled_options(conf: &TomlConfig) -> EnabledOptions {
    let enabled = |name: &str| match conf.hypervisor.get(&conf.runtime.hypervisor_name) {
        Some(h) => h
            .security_info
            .enable_annotations
            .iter()
            .any(|p| p == ".*" || p == name),
        None => false,
    };
    EnabledOptions {
        vcpus: enabled("default_vcpus"),
        memory: enabled("default_memory"),
        kernel: enabled("kernel"),
    }
}

fn written_vcpus(a: &Annotation) -> Option<Vcpus> {
    a.get(KATA_ANNO_CFG_HYPERVISOR_DEFAULT_VCPUS)
        .and_then(|t| t.parse::<f32>().ok())
        .map(vcpus)
}

/// Applies the annotations, with the number of processors read from them.
fn update(a: &Annotation, conf: &mut TomlConfig) -> Result<(), AnnotationError> {
    let enabled = enabled_options(conf);
    a.update_config_by_annotation(conf, &plugins(), enabled, written_vcpus(a))
}

fn config() -> TomlConfig {
    load(
        r#"
        [hypervisor.firecracker]
        path = "/dev/null"
        kernel = "/dev/null"
        image = "/dev/null"
        default_vcpus = 1
        default_memory = 128
        enable_annotations = ["default_vcpus", "default_memory"]
        [agent.kata]
        [runtime]
        name = "virt-container"
        hypervisor_name = "firecracker"
        agent_name = "kata"
        sandbox_cgroup_only = true
        "#,
    )
    .unwrap()
}

#[test]
fn boot_image_and_container_disks_default_to_mmio() {
    let mut conf = empty_config();
    conf.hypervisor
        .insert("firecracker".to_string(), Hypervisor::empty());
    FirecrackerConfig::new().adjust_config(&mut conf).unwrap();
    let h = conf.hypervisor.get_mut("firecracker").unwrap();
    assert_eq!(h.boot_info.vm_rootfs_driver, VIRTIO_BLK_MMIO);
    assert_eq!(h.block_device_driver, VIRTIO_BLK_MMIO);
}

#[test]
fn firecracker_configuration_and_annotations_remain_usable() {
    let content = r#"
[hypervisor.firecracker]
path = "/dev/null"
jailer_path = "/dev/null"
kernel = "/dev/null"
image = "/dev/null"
rootfs_type = "ext4"
shared_fs = "none"
default_vcpus = 1
default_maxvcpus = 2
default_memory = 256
memory_slots = 1
enable_annotations = ["default_memory", "default_vcpus", "kernel"]
[agent.kata]
[runtime]
name = "virt_container"
hypervisor_name = "firecracker"
agent_name = "kata"
static_sandbox_resource_mgmt = true
sandbox_cgroup_only = true
disable_guest_seccomp = true
"#;
    let mut conf = load(content).unwrap();
    conf.validate(&plugins(), Ok(())).unwrap();
    let annotations = annotation(&[
        (KATA_ANNO_CFG_HYPERVISOR_DEFAULT_MEMORY, "512MiB"),
        (KATA_ANNO_CFG_HYPERVISOR_DEFAULT_VCPUS, "2"),
        (KATA_ANNO_CFG_HYPERVISOR_KERNEL_PATH, "/dev/null"),
    ]);
    update(&annotations, &mut conf).unwrap();
    conf.validate(&plugins(), Ok(())).unwrap();
    let fc = conf.hypervisor.get("firecracker").unwrap();
    assert_eq!(fc.default_memory, 512);
    assert_eq!(fc.default_vcpus, vcpus(2.0));
    assert_eq!(fc.boot_info.vm_rootfs_driver, "virtio-blk-mmio");
}

#[test]
fn unsupported_backends_fail_before_path_operations() {
    for name in ["qemu", "clh", "dragonball", "openvmm", "remote", "unknown"] {
        for content in [
            format!("[hypervisor.{}]\npath='/nonexistent/hypervisor'", name),
            format!("[runtime]\nhypervisor_name='{}'", name),
        ] {
            let err = load(&content).unwrap_err().message();
            assert!(err.contains("unsupported hypervisor"), "{}", err);
        }
    }
}

#[test]
fn confidential_config_rejected_without_decoding() {
    for option in [
        "confidential_guest = true",
        "initdata = 'not-base64-or-toml'",
    ] {
        let err = load(&format!("[hypervisor.firecracker]\n{}", option)).unwrap_err();
        assert!(err
            .message()
            .contains("confidential guests and initdata are unsupported"));
    }
    for value in ["", "invalid_base64!!", "H4sIAAAAAAAA"] {
        let annotations = annotation(&[(KATA_ANNO_CFG_HYPERVISOR_INIT_DATA, value)]);
        let err = update(&annotations, &mut empty_config()).unwrap_err();
        assert!(err.message("").contains("initdata is unsupported"));
    }
}

#[test]
fn an_invalid_firecracker_is_refused() {
    let fc = FirecrackerConfig::new();
    assert_eq!((fc.get_max_cpus(), fc.get_min_memory()), (32, 128));
    assert_eq!(fc.name(), "firecracker");
    let set = |change: fn(&mut Hypervisor)| {
        let mut conf = config();
        change(conf.hypervisor.get_mut("firecracker").unwrap());
        fc.validate(&conf, Ok(()))
    };
    assert!(set(|_| {}).is_ok());
    assert!(matches!(
        set(|h| h.path = String::new()),
        Err(HypervisorError::EmptyPath)
    ));
    assert!(matches!(
        set(|h| h.boot_info.kernel = String::new()),
        Err(HypervisorError::EmptyKernel)
    ));
    assert!(matches!(
        set(|h| h.boot_info.image = String::new()),
        Err(HypervisorError::EmptyImage)
    ));
    assert!(matches!(
        set(|h| h.default_maxvcpus = 33),
        Err(HypervisorError::TooManyVcpus(33))
    ));
    assert!(matches!(
        set(|h| h.default_vcpus = Vcpus {
            bits: 33.0f32.to_bits()
        }),
        Err(HypervisorError::TooManyVcpus(_))
    ));
    assert!(set(|h| h.default_vcpus = Vcpus {
        bits: 32.5f32.to_bits()
    })
    .is_ok());
    assert!(set(|h| h.default_vcpus = Vcpus {
        bits: (-5.0f32).to_bits()
    })
    .is_ok());
    assert!(matches!(
        set(|h| h.default_memory = 127),
        Err(HypervisorError::TooLittleMemory)
    ));
    assert!(matches!(
        fc.validate(&config(), Err("gone".to_string())),
        Err(HypervisorError::InvalidPath(_))
    ));
    assert!(matches!(
        load("[hypervisor.firecracker]\nconfidential_guest = true"),
        Err(HypervisorError::Confidential)
    ));
}

#[test]
fn adjusting_twice_is_adjusting_once() {
    let mut conf = empty_config();
    conf.hypervisor
        .insert("firecracker".to_string(), Hypervisor::empty());
    conf.adjust_config(&plugins()).unwrap();
    let once = format!("{:?}", conf);
    conf.adjust_config(&plugins()).unwrap();
    assert_eq!(format!("{:?}", conf), once);
    let h = conf.hypervisor.get("firecracker").unwrap();
    assert_eq!(h.entropy_source, "/dev/urandom");
    assert_eq!(h.default_memory, 128);
    assert_eq!(h.boot_info.kernel, "vmlinux");
}

#[test]
fn sizing_and_tracing_annotations() {
    let mut cfg = config();
    update(
        &annotation(&[
            (KATA_ANNO_CFG_HYPERVISOR_DEFAULT_VCPUS, "2"),
            (KATA_ANNO_CFG_HYPERVISOR_DEFAULT_MEMORY, "256MiB"),
            (KATA_ANNO_CFG_AGENT_TRACE, "true"),
            ("io.katacontainers.config.runtime.enable_tracing", "true"),
        ]),
        &mut cfg,
    )
    .unwrap();
    let h = cfg.hypervisor.get("firecracker").unwrap();
    assert_eq!(h.default_vcpus, vcpus(2.0));
    assert_eq!(h.default_memory, 256);
    assert!(cfg.agent.get("kata").unwrap().enable_tracing);
    assert!(cfg.runtime.enable_tracing);
}

#[test]
fn disabled_sizing_annotations_are_ignored() {
    let mut cfg = config();
    cfg.hypervisor
        .get_mut("firecracker")
        .unwrap()
        .security_info
        .enable_annotations
        .clear();
    update(
        &annotation(&[
            (KATA_ANNO_CFG_HYPERVISOR_DEFAULT_VCPUS, "invalid"),
            (KATA_ANNO_CFG_HYPERVISOR_DEFAULT_MEMORY, "10"),
        ]),
        &mut cfg,
    )
    .unwrap();
    let h = cfg.hypervisor.get("firecracker").unwrap();
    assert_eq!(h.default_vcpus, vcpus(1.0));
    assert_eq!(h.default_memory, 128);
}

#[test]
fn invalid_sizing_and_tracing_annotations_fail() {
    for (key, value) in [
        (KATA_ANNO_CFG_HYPERVISOR_DEFAULT_MEMORY, "10"),
        (KATA_ANNO_CFG_HYPERVISOR_DEFAULT_VCPUS, "400"),
        (KATA_ANNO_CFG_HYPERVISOR_DEFAULT_VCPUS, "invalid"),
        (KATA_ANNO_CFG_AGENT_TRACE, "invalid"),
        ("io.katacontainers.config.runtime.enable_tracing", "invalid"),
    ] {
        assert!(
            update(&annotation(&[(key, value)]), &mut config()).is_err(),
            "{}",
            key
        );
    }
}

#[test]
fn unsupported_overrides_fail_even_when_enabled() {
    for key in [
        "io.katacontainers.config.hypervisor.path",
        "io.katacontainers.config.hypervisor.jailer_path",
        "io.katacontainers.config.hypervisor.kernel_params",
        "io.katacontainers.config.hypervisor.virtio_fs_daemon",
        "io.katacontainers.config.hypervisor.cc_init_data",
        "io.katacontainers.config.hypervisor.blk_logical_sector_size",
        "io.katacontainers.config.agent.kernel_modules",
        "io.katacontainers.config.runtime.disable_guest_seccomp",
        "io.katacontainers.config.runtime.name",
        "io.katacontainers.config.runtime.shared_mounts",
    ] {
        let mut cfg = config();
        cfg.hypervisor
            .get_mut("firecracker")
            .unwrap()
            .security_info
            .enable_annotations = vec![".*".to_string()];
        assert!(
            update(&annotation(&[(key, "true")]), &mut cfg).is_err(),
            "{}",
            key
        );
    }
}

#[test]
fn unrelated_kubernetes_annotations_are_ignored() {
    update(
        &annotation(&[("io.kubernetes.cri.container-type", "sandbox")]),
        &mut config(),
    )
    .unwrap();
}

#[test]
fn annotation_faults_are_told_apart() {
    let fails = |list: &[(&str, &str)]| update(&annotation(list), &mut config()).unwrap_err();
    assert!(matches!(
        fails(&[(KATA_ANNO_CFG_HYPERVISOR_DEFAULT_VCPUS, "x")]),
        AnnotationError::ParseVcpus
    ));
    assert!(matches!(
        fails(&[(KATA_ANNO_CFG_HYPERVISOR_DEFAULT_VCPUS, "400")]),
        AnnotationError::TooManyVcpus(_)
    ));
    assert!(matches!(
        fails(&[(KATA_ANNO_CFG_HYPERVISOR_DEFAULT_MEMORY, "10")]),
        AnnotationError::TooLittleMemory(_)
    ));
    assert!(matches!(
        fails(&[(KATA_ANNO_CFG_AGENT_TRACE, "yes")]),
        AnnotationError::ParseBool
    ));
    let unknown = annotation(&[("io.katacontainers.config.x", "")]);
    assert!(matches!(
        validate_config_annotations(&unknown.annotations),
        Err(AnnotationError::Unsupported(_))
    ));
    let a = annotation(&[]);
    let mut conf = config();
    conf.runtime.hypervisor_name = "other".to_string();
    assert!(matches!(
        update(&a, &mut conf),
        Err(AnnotationError::InvalidHypervisor(_))
    ));
    let mut conf = config();
    conf.runtime.agent_name = "other".to_string();
    assert!(matches!(
        update(&a, &mut conf),
        Err(AnnotationError::InvalidAgent(_))
    ));
    let mut conf = config();
    conf.runtime.agent_name = String::new();
    assert!(matches!(
        update(&a, &mut conf),
        Err(AnnotationError::NameMissing(_))
    ));
}

#[test]
fn each_option_is_enabled_by_itself() {
    let a = annotation(&[
        (KATA_ANNO_CFG_HYPERVISOR_DEFAULT_VCPUS, "2"),
        (KATA_ANNO_CFG_HYPERVISOR_DEFAULT_MEMORY, "256MiB"),
        (KATA_ANNO_CFG_HYPERVISOR_KERNEL_PATH, "/other"),
    ]);
    for (v, m, k) in [(true, false, false), (false, true, false), (false, false, true)] {
        let mut conf = config();
        let enabled = EnabledOptions {
            vcpus: v,
            memory: m,
            kernel: k,
        };
        a.update_config_by_annotation(&mut conf, &plugins(), enabled, written_vcpus(&a))
            .unwrap();
        let h = conf.hypervisor.get("firecracker").unwrap();
        assert_eq!(h.default_vcpus, vcpus(if v { 2.0 } else { 1.0 }));
        assert_eq!(h.default_memory, if m { 256 } else { 128 });
        assert_eq!(h.boot_info.kernel, if k { "/other" } else { "/dev/null" });
    }
}

#[test]
fn sizes_need_a_registered_hypervisor() {
    let none = HypervisorPlugins::none();
    let enabled = EnabledOptions {
        vcpus: true,
        memory: true,
        kernel: true,
    };
    for (key, value, needed) in [
        (KATA_ANNO_CFG_HYPERVISOR_DEFAULT_VCPUS, "2", true),
        (KATA_ANNO_CFG_HYPERVISOR_DEFAULT_VCPUS, "two", false),
        (KATA_ANNO_CFG_HYPERVISOR_DEFAULT_MEMORY, "256MiB", true),
        (KATA_ANNO_CFG_HYPERVISOR_DEFAULT_MEMORY, "much", false),
        (KATA_ANNO_CFG_HYPERVISOR_KERNEL_PATH, "/other", false),
    ] {
        let a = annotation(&[(key, value)]);
        let mut conf = config();
        let before = format!("{:?}", conf);
        let r = a.update_config_if_registered(&mut conf, &none, enabled, written_vcpus(&a));
        assert_eq!(r.is_none(), needed, "{} {}", key, value);
        if needed {
            assert_eq!(format!("{:?}", conf), before);
        }
        let r = a.update_config_if_registered(
            &mut config(),
            &plugins(),
            enabled,
            written_vcpus(&a),
        );
        assert!(r.is_some());
    }
    let unreadable = annotation(&[(KATA_ANNO_CFG_HYPERVISOR_DEFAULT_VCPUS, "two")]);
    assert!(matches!(
        unreadable.update_config_if_registered(&mut config(), &none, enabled, None),
        Some(Err(AnnotationError::ParseVcpus))
    ));
}

#[test]
fn resources_of_a_pod_are_read() {
    let a = annotation(&[
        (SANDBOX_CPU_QUOTA_KEY, "5000"),
        (SANDBOX_CPU_PERIOD_KEY, "100"),
        (SANDBOX_MEM_KEY, "-7"),
        ("wrong", "x"),
        ("old", "{}"),
    ]);
    assert_eq!(a.get_sandbox_cpu_quota(), 5000);
    assert_eq!(a.get_sandbox_cpu_period(), 100);
    assert_eq!(a.get_sandbox_mem(), -7);
    assert_eq!(annotation(&[]).get_sandbox_cpu_quota(), 0);
    assert_eq!(a.get_value::<u64>("missing"), Ok(None));
    assert!(a.get_value::<u64>("wrong").is_err());
    assert_eq!(
        a.get_crio_pod_linux_resources("new", "old").as_deref(),
        Some("{}")
    );
    assert_eq!(
        a.get_crio_pod_linux_resources("wrong", "old").as_deref(),
        Some("x")
    );
    assert!(a.get_crio_pod_linux_resources("a", "b").is_none());
}

#[test]
fn parse_memory_no_unit() {
    let result = convert_to_megabytes("2048");
    assert!(result.is_ok());
    assert_eq!(result.unwrap(), Some(2048));
}

#[test]
fn parse_memory_with_units() {
    let result = convert_to_megabytes("2 GiB");
    assert!(result.is_ok());
    assert_eq!(result.unwrap(), Some(2048));
}

#[test]
fn parse_memory_parse_error() {
    let result = convert_to_megabytes("2048r");
    assert!(result.is_ok());
    assert_eq!(result.unwrap(), None);
}

#[test]
fn sizes_are_counted_in_mebibytes() {
    assert_eq!(convert_to_megabytes("1").unwrap(), Some(1));
    assert_eq!(convert_to_megabytes("1536 KiB").unwrap(), Some(1));
    assert_eq!(convert_to_megabytes("512MiB").unwrap(), Some(512));
    assert!(matches!(
        convert_to_megabytes("18446744073709551615"),
        Err(AnnotationError::MemoryTooLarge(_))
    ));
    assert_eq!(megabytes_of("7", Some(7)).unwrap(), Some(7));
    assert_eq!(megabytes_of("x", None).unwrap(), None);
}

#[test]
fn test_is_empty_dir() {
    assert!(is_empty_dir("/volumes/kubernetes.io~empty-dir/shm"));
    assert!(is_empty_dir("/volumes/kubernetes.io~empty-dir//shm"));
    assert!(!is_empty_dir("/volumes/kubernetes.io~empty-dir-test/shm"));
    assert!(!is_empty_dir("/volumes/kubernetes.io~empty-dir"));
    assert!(!is_empty_dir("kubernetes.io~empty-dir"));
    assert!(is_empty_dir("/kubernetes.io~empty-dir/shm"));
}

#[test]
fn test_is_configmap() {
    assert!(is_configmap("/volumes/kubernetes.io~configmap/cm"));
    assert!(is_configmap("/volumes/kubernetes.io~configmap//cm"));
    assert!(!is_configmap("/volumes/kubernetes.io~configmap-test/cm"));
    assert!(!is_configmap("/volumes/kubernetes.io~configmap"));
}

#[test]
fn test_is_secret() {
    assert!(is_secret("/volumes/kubernetes.io~secret/test-serect"));
    assert!(is_secret("/volumes/kubernetes.io~secret//test-serect"));
    assert!(!is_secret("/volumes/kubernetes.io~secret-test/test-serect"));
    assert!(!is_secret("/volumes/kubernetes.io~secret"));
}

#[test]
fn test_is_projected() {
    assert!(is_projected("/volumes/kubernetes.io~projected/foo"));
    assert!(is_projected("/volumes/kubernetes.io~projected//foo"));
    assert!(!is_projected("/volumes/kubernetes.io~projected-test/foo"));
    assert!(!is_projected("/volumes/kubernetes.io~projected"));
}

#[test]
fn test_is_downward_api() {
    assert!(is_downward_api("/volumes/kubernetes.io~downward-api/foo"));
    assert!(is_downward_api("/volumes/kubernetes.io~downward-api//foo"));
    assert!(!is_downward_api("/volumes/kubernetes.io~downward-api-test/foo"));
    assert!(!is_downward_api("/volumes/kubernetes.io~downward-api"));
}

#[test]
fn test_container_type() {
    let sid = "sid".to_string();
    let mut spec = Spec::empty();
    let annotated = |list: &[(&str, &str)]| {
        Some(
            list.iter()
                .map(|(k, v)| (k.to_string(), v.to_string()))
                .collect::<Vec<_>>(),
        )
    };

    // default
    assert_eq!(
        container_type_with_id(&spec),
        (ContainerType::SingleContainer, None)
    );

    // crio sandbox, cri containerd sandbox, docker shim sandbox
    for name in [SANDBOX, POD_SANDBOX, PODSANDBOX] {
        spec.annotations = annotated(&[(CRIO_CONTAINER_TYPE_LABEL_KEY, name)]);
        assert_eq!(
            container_type_with_id(&spec),
            (ContainerType::PodSandbox, None)
        );
    }

    // crio container
    spec.annotations = annotated(&[
        (CRIO_CONTAINER_TYPE_LABEL_KEY, CONTAINER),
        (CRIO_SANDBOX_ID_LABEL_KEY, "sid"),
    ]);
    assert_eq!(
        container_type_with_id(&spec),
        (ContainerType::PodContainer, Some(sid.clone()))
    );

    // cri containerd container
    spec.annotations = annotated(&[
        (CONTAINERD_CONTAINER_TYPE_LABEL_KEY, POD_CONTAINER),
        (CONTAINERD_SANDBOX_ID_LABEL_KEY, "sid"),
    ]);
    assert_eq!(
        container_type_with_id(&spec),
        (ContainerType::PodContainer, Some(sid.clone()))
    );

    // docker shim container
    spec.annotations = annotated(&[
        (DOCKERSHIM_CONTAINER_TYPE_LABEL_KEY, CONTAINER),
        (DOCKERSHIM_SANDBOX_ID_LABEL_KEY, "sid"),
    ]);
    assert_eq!(
        container_type_with_id(&spec),
        (ContainerType::PodContainer, Some(sid))
    );
    assert_eq!(container_type(&spec), ContainerType::PodContainer);
}

#[test]
fn test_kata_guest_sandbox_dir() {
    assert_eq!(kata_guest_sandbox_dir(), DEFAULT_KATA_GUEST_SANDBOX_DIR);
}

#[test]
fn test_is_kata_special_volume() {
    assert!(is_kata_special_volume("kata:guest-mount:nfs"));
    assert!(!is_kata_special_volume("kata:"));
}

#[test]
fn test_is_kata_guest_mount_volume() {
    assert!(is_kata_guest_mount_volume("kata:guest-mount:nfs"));
    assert!(!is_kata_guest_mount_volume("kata:guest-mount"));
    assert!(!is_kata_guest_mount_volume("kata:guest-moun"));
    assert!(!is_kata_guest_mount_volume("Kata:guest-mount:nfs"));
}

#[test]
fn volumes_have_directories_of_their_own() {
    assert_eq!(
        kata_direct_volume_root_path(),
        "/run/kata-containers/shared/direct-volumes"
    );
    let dir = join_path("/root", "/a/b?c").unwrap();
    assert_eq!(dir.root, "/root");
    assert_eq!(dir.name, "L2EvYj9j");
    assert_eq!(join_path("/root", "~~>").unwrap().name, "fn4-");
    assert_eq!(join_path("/root", "/ab").unwrap().name, "L2Fi");
    assert_eq!(join_path("/root", "/a").unwrap().name, "L2E=");
    assert!(join_path("/root", "").is_err());
    assert_eq!(mount_info_file("/root/x"), "/root/x/mountInfo.json");
    assert!(is_kata_ephemeral_volume("ephemeral"));
    assert!(!is_kata_ephemeral_volume("local"));
    let file = volume_info_file(&kata_direct_volume_root_path(), "/a/b?c").unwrap();
    assert_eq!(
        file,
        "/run/kata-containers/shared/direct-volumes/L2EvYj9j/mountInfo.json"
    );
    assert!(volume_info_file("/root", "").is_err());
    let there = vec!["/other".to_string(), file];
    assert!(is_volume_mounted("/a/b?c", &there));
    assert!(!is_volume_mounted("/a/b", &there));
    assert!(!is_volume_mounted("/a/b?c", &vec![]));
    assert!(!is_volume_mounted("", &there));
    assert_eq!(sb_storage_path(), "/run/kata");
}

fn cpu() -> LinuxCpu {
    LinuxCpu {
        shares: None,
        quota: None,
        period: None,
        realtime_runtime: None,
        realtime_period: None,
        cpus: None,
        mems: None,
    }
}

fn count(v: VcpuCount) -> f64 {
    match v {
        VcpuCount::Share(quota, period) => quota as f64 / period as f64,
        VcpuCount::Whole(n) => n as f64,
    }
}

#[test]
fn test_linux_container_cpu_resources() {
    let resources = LinuxContainerCpuResources::unlimited();
    assert!(resources.get_vcpus().is_none());

    let linux_cpu = LinuxCpu {
        shares: Some(2048),
        quota: Some(1001),
        period: Some(100),
        cpus: Some("1,2,3".to_string()),
        mems: Some("1".to_string()),
        ..cpu()
    };
    let resources = LinuxContainerCpuResources::try_from(&linux_cpu, Ok(3), Ok(())).unwrap();
    // Expected fractional vCPUs = quota / period
    let expected_vcpus = 1001.0 / 100.0;
    assert!((count(resources.get_vcpus().unwrap()) - expected_vcpus).abs() < EPSILON);

    // Test cpuset-only path (no quota)
    let linux_cpu = LinuxCpu {
        shares: Some(2048),
        cpus: Some("1".to_string()),
        mems: Some("1-2".to_string()),
        ..cpu()
    };
    let resources = LinuxContainerCpuResources::try_from(&linux_cpu, Ok(1), Ok(())).unwrap();
    assert!((count(resources.get_vcpus().unwrap()) - 1.0).abs() < EPSILON);
}

#[test]
fn invalid_cpu_and_numa_sets_fail() {
    let bad = || "invalid".to_string();
    for (cpus, mems) in [("invalid", ""), ("", "invalid")] {
        let cpu = LinuxCpu {
            cpus: Some(cpus.to_string()),
            mems: Some(mems.to_string()),
            ..cpu()
        };
        let read_cpus = if cpus == "invalid" { Err(bad()) } else { Ok(0) };
        let read_mems = if mems == "invalid" { Err(bad()) } else { Ok(()) };
        let e = LinuxContainerCpuResources::try_from(&cpu, read_cpus, read_mems).unwrap_err();
        match e {
            CpuError::InvalidCpuSet(_) => assert_eq!(cpus, "invalid"),
            CpuError::InvalidNodeSet(_) => assert_eq!(mems, "invalid"),
        }
    }
}
