//! Requests to the agent.
use kata_fc::container::{ContainerProcess, CreateOpts, LinuxContainer};
use kata_fc::create::{
    build_container, check_create, do_create_container, do_exec_process, do_remove_container,
    do_start_container, named_container, prepare_container, reap_process, register_container,
    remove_container_resources, required, termination_log_path, termination_message, tty_of,
    wait_target,
    CreateState, CreateStep, Destroyed, Reaped, StartAction, MAX_TERMINATION_MSG,
    TERMINATION_PATH_KEY,
};
use kata_fc::oci::{
    DeviceType, Linux, LinuxDevice, LinuxNamespace, NamespaceType, OciMount, Process, Root, Spec,
    User,
};
use kata_fc::rpc::{
    begin_sandbox, do_read_stream, get_agent_details, get_guest_details, read_stream, do_write_stream, get_volume_capacity_stats,
    get_volume_inode_stats, have_seccomp, map_ttrpc_err, same, sandbox_err_to_ttrpc,
    setup_bundle, ttrpc_error, update_container_namespaces, validate_container_device_features,
    validate_guest_details, validate_interface, validate_log_type, validate_passfd,
    validate_sandbox_features, validate_storage_features, AgentError, CreateContainerRequest,
    CreateSandboxRequest, InputStep, NamespaceError, RpcCode, ReadNews, ReadStep, RpcError, StreamType,
    VolumeUsage,
};
use kata_fc::sandbox::{Sandbox, SandboxError, StorageDevice};
use kata_fc::signal::{
    cgroup_container, do_signal_process, is_signal_handled, SignalEvent, SignalPhase, SignalStep,
    SIGKILL, SIGTERM,
};

fn create_request() -> CreateContainerRequest {
    CreateContainerRequest {
        container_id: String::new(),
        stdin_port: 0,
        stdout_port: 0,
        stderr_port: 0,
        devices: 0,
        shared_mounts: 0,
        sandbox_pidns: false,
        oci: None,
    }
}

fn sandbox_request() -> CreateSandboxRequest {
    CreateSandboxRequest {
        hostname: String::new(),
        sandbox_id: String::new(),
        kernel_modules: 0,
        guest_hook_path: String::new(),
    }
}

fn create(req: &CreateContainerRequest) -> Result<(), RpcError> {
    map_ttrpc_err(check_create(req, Ok(()), Ok(())).map(|_| ()))
}

fn user() -> User {
    User {
        uid: 0,
        gid: 0,
        additional_gids: None,
    }
}

fn oci_process() -> Process {
    Process {
        terminal: None,
        user: user(),
        args: None,
        env: None,
        cwd: "/".to_string(),
        capabilities: None,
        rlimits: None,
        no_new_privileges: None,
        selinux_label: None,
        oom_score_adj: None,
    }
}

fn process(exec_id: &str, init: bool, pid: i32) -> ContainerProcess {
    ContainerProcess {
        exec_id: exec_id.to_string(),
        pid,
        init,
        tty: false,
        capabilities: None,
        exit_code: 0,
        term_master: None,
        parent_stdin: None,
        parent_stdout: None,
        parent_stderr: None,
    }
}

fn container(id: &str) -> LinuxContainer {
    let mut spec = Spec::empty();
    spec.linux = Some(Linux::empty());
    LinuxContainer::new(
        id.to_string(),
        "/run",
        CreateOpts {
            no_pivot_root: false,
            container_name: String::new(),
            spec: Some(spec),
        },
    )
}

fn namespace(typ: NamespaceType, path: Option<&str>) -> LinuxNamespace {
    LinuxNamespace {
        typ,
        path: path.map(|p| p.to_string()),
    }
}

#[test]
fn minimal_device_rejections_precede_side_effects() {
    let mut requests = Vec::new();
    for _driver in [
        "mmioblk",
        "blk",
        "blk-ccw",
        "scsi",
        "nvdimm",
        "vfio-pci",
        "vfio-pci-gk",
        "vfio-ap",
        "unknown",
    ] {
        // No request may start waiting for a raw device, including MMIO.
        requests.push(CreateContainerRequest {
            container_id: "device-rejection-test".to_string(),
            devices: 2,
            ..create_request()
        });
    }
    requests.push(CreateContainerRequest {
        devices: 1,
        ..create_request()
    });
    requests.push(CreateContainerRequest {
        shared_mounts: 1,
        ..create_request()
    });
    let mut linux = Linux::empty();
    linux.devices = Some(vec![LinuxDevice {
        path: "/dev/raw-disk".to_string(),
        typ: DeviceType::B,
        major: 8,
        minor: 0,
        file_mode: None,
        uid: None,
        gid: None,
    }]);
    let mut raw_spec = Spec::empty();
    raw_spec.linux = Some(linux);
    requests.push(CreateContainerRequest {
        oci: Some(raw_spec),
        ..create_request()
    });
    let mut spec = Spec::empty();
    spec.annotations = Some(vec![(
        "cdi.k8s.io/gpu".to_string(),
        "nvidia.com/gpu=all".to_string(),
    )]);
    requests.push(CreateContainerRequest {
        oci: Some(spec),
        ..create_request()
    });
    let mut spec = Spec::empty();
    let mut process = oci_process();
    process.env = Some(vec!["VISIBLE_CDI_DEVICES=nvidia.com/gpu=all".to_string()]);
    spec.process = Some(process);
    requests.push(CreateContainerRequest {
        oci: Some(spec),
        ..create_request()
    });
    for req in &requests {
        assert_eq!(create(req).unwrap_err().code, RpcCode::InvalidArgument);
    }
    let e = validate_interface(&Some("00/01".to_string())).unwrap_err();
    assert_eq!(e.code, RpcCode::InvalidArgument);
    validate_container_device_features(&create_request()).unwrap();
}

#[test]
fn minimal_sandbox_rejects_extensions_before_side_effects() {
    let sandbox = Sandbox::new("ext4");
    for req in [
        CreateSandboxRequest {
            kernel_modules: 1,
            ..sandbox_request()
        },
        CreateSandboxRequest {
            guest_hook_path: "/hooks".to_string(),
            ..sandbox_request()
        },
    ] {
        let e = validate_sandbox_features(&req, Ok(())).unwrap_err();
        assert_eq!(e.code, RpcCode::InvalidArgument);
        assert!(!sandbox.running);
    }
    validate_sandbox_features(&sandbox_request(), Ok(())).unwrap();
}

#[test]
fn minimal_services_reject_removed_io_and_storage_before_locking() {
    let sandbox = Sandbox::new("ext4");
    for ports in [(1, 0, 0), (0, 1026, 0), (0, 0, 1)] {
        let req = CreateContainerRequest {
            stdin_port: ports.0,
            stdout_port: ports.1,
            stderr_port: ports.2,
            ..create_request()
        };
        for result in [
            create(&req),
            map_ttrpc_err(do_exec_process(&sandbox, "", ports, false)),
        ] {
            assert_eq!(result.unwrap_err().code, RpcCode::InvalidArgument);
        }
    }
    for storage in ["image_guest_pull", "encryption_key=ephemeral", "unknown=true"] {
        let refused = || Err(format!("unsupported storage {}", storage));
        for result in [
            map_ttrpc_err(check_create(&create_request(), refused(), Ok(())).map(|_| ())),
            validate_sandbox_features(&sandbox_request(), refused()),
        ] {
            assert_eq!(result.unwrap_err().code, RpcCode::InvalidArgument);
        }
    }
    validate_storage_features(Ok(())).unwrap();
    validate_passfd(0, 0, 0).unwrap();
}

#[test]
fn guest_details_refuse_hotplug() {
    for (block, probe) in [(true, false), (false, true), (true, true)] {
        let e = validate_guest_details(block, probe).unwrap_err();
        assert_eq!(e.code, RpcCode::InvalidArgument);
    }
    validate_guest_details(false, false).unwrap();
    assert!(have_seccomp());
}

#[test]
fn test_update_interface() {
    let result: Result<(), RpcError> = required(None, "empty update interface request");
    assert!(result.is_err(), "expected update interface to fail");
    assert!(validate_interface(&None).is_err());
    validate_interface(&Some(String::new())).unwrap();
}

#[test]
fn test_update_routes() {
    let result: Result<Vec<u8>, RpcError> = required(None, "empty update routes request");
    assert!(result.is_err(), "expected update routes to fail");
}

#[test]
fn test_add_arp_neighbors() {
    let result: Result<Vec<u8>, RpcError> = required(None, "empty add arp neighbours request");
    assert!(result.is_err(), "expected add arp neighbors to fail");
    assert_eq!(required(Some(5), "unused").unwrap(), 5);
}

#[test]
fn input_goes_to_the_terminal_or_to_standard_input() {
    for (tty, container_id, data, expected) in [
        (true, "1", 3, Ok((InputStep::Write(StreamType::TermMaster), 3))),
        (false, "1", 3, Ok((InputStep::Write(StreamType::ParentStdin), 3))),
        (true, "8181", 3, Err(SandboxError::InvalidContainerId)),
        (true, "1", 0, Ok((InputStep::CloseStdin, 0))),
    ] {
        let mut sandbox = Sandbox::new("ext4");
        let mut c = container("1");
        let mut p = process("2", false, 5);
        if tty {
            p.term_master = Some(9);
        } else {
            p.parent_stdin = Some(9);
        }
        c.processes.insert("2".to_string(), p);
        sandbox.add_container(c);
        let result = sandbox
            .find_container_process(container_id, "2")
            .map(|p| do_write_stream(p, data));
        assert_eq!(result, expected);
    }
    let empty = Sandbox::new("ext4");
    assert!(empty.find_container_process("1", "2").is_err());
}

#[test]
fn output_comes_from_what_is_open() {
    let mut p = process("2", false, 5);
    assert!(do_read_stream(&p, true).is_err());
    p.parent_stdout = Some(3);
    assert_eq!(do_read_stream(&p, true).unwrap(), StreamType::ParentStdout);
    p.parent_stderr = Some(4);
    assert_eq!(do_read_stream(&p, false).unwrap(), StreamType::ParentStderr);
    p.term_master = Some(5);
    assert_eq!(do_read_stream(&p, true).unwrap(), StreamType::TermMaster);
}

#[test]
fn test_update_container_namespaces() {
    let usual = || {
        vec![
            namespace(NamespaceType::Ipc, Some("ipcpath")),
            namespace(NamespaceType::Uts, Some("utspath")),
        ]
    };
    let tests = vec![
        (
            true,
            usual(),
            false,
            true,
            vec![
                (NamespaceType::Ipc, None),
                (NamespaceType::Uts, None),
                (NamespaceType::Pid, None),
            ],
        ),
        (
            true,
            usual(),
            true,
            true,
            vec![
                (NamespaceType::Ipc, None),
                (NamespaceType::Uts, None),
                (NamespaceType::Pid, Some("sharedpidns")),
            ],
        ),
        (
            true,
            vec![],
            true,
            true,
            vec![(NamespaceType::Pid, Some("sharedpidns"))],
        ),
        (true, vec![], false, true, vec![(NamespaceType::Pid, None)]),
        (false, usual(), false, false, vec![]),
    ];
    for (has_linux_in_spec, namespaces, use_sandbox_pidns, ok, expected) in tests {
        let mut sandbox = Sandbox::new("ext4");
        sandbox.sandbox_pidns = Some("sharedpidns".to_string());
        let mut oci = Spec::empty();
        if has_linux_in_spec {
            let mut linux = Linux::empty();
            linux.namespaces = Some(namespaces);
            oci.linux = Some(linux);
        }
        let result = update_container_namespaces(&sandbox, &mut oci, use_sandbox_pidns);
        if ok {
            result.unwrap();
        } else {
            let e = result.unwrap_err();
            assert_eq!(e, NamespaceError::NoLinux);
            assert_eq!(e.message(), "Spec does not contain linux field");
        }
        if let Some(linux) = oci.linux {
            let found: Vec<(NamespaceType, Option<String>)> = linux
                .namespaces
                .unwrap()
                .into_iter()
                .map(|n| (n.typ, n.path))
                .collect();
            let expected: Vec<(NamespaceType, Option<String>)> = expected
                .into_iter()
                .map(|(t, p)| (t, p.map(|p| p.to_string())))
                .collect();
            assert_eq!(found, expected);
        }
    }
}

#[test]
fn a_pid_path_of_the_host_is_ignored() {
    let tests = vec![(true, Some("sharedpidns")), (false, None)];
    for (shared, expected) in tests {
        let mut sandbox = Sandbox::new("ext4");
        sandbox.sandbox_pidns = Some("sharedpidns".to_string());
        sandbox.shared_ipcns = "/sandbox/ipc".to_string();
        let mut oci = Spec::empty();
        let mut linux = Linux::empty();
        linux.namespaces = Some(vec![
            namespace(NamespaceType::Pid, Some("/host/pid")),
            namespace(NamespaceType::Mount, Some("/host/mnt")),
            namespace(NamespaceType::Pid, None),
            namespace(NamespaceType::Ipc, Some("/host/ipc")),
        ]);
        oci.linux = Some(linux);
        update_container_namespaces(&sandbox, &mut oci, shared).unwrap();
        let found: Vec<(NamespaceType, Option<String>)> = oci
            .linux
            .unwrap()
            .namespaces
            .unwrap()
            .into_iter()
            .map(|n| (n.typ, n.path))
            .collect();
        assert_eq!(
            found,
            vec![
                (NamespaceType::Mount, Some("/host/mnt".to_string())),
                (NamespaceType::Ipc, Some("/sandbox/ipc".to_string())),
                (NamespaceType::Pid, expected.map(|p: &str| p.to_string())),
            ]
        );
    }
}

#[test]
fn a_shared_pid_namespace_must_exist() {
    let mut sandbox = Sandbox::new("ext4");
    let mut oci = Spec::empty();
    let mut linux = Linux::empty();
    linux.namespaces = Some(vec![]);
    oci.linux = Some(linux);
    // The first container makes the namespace that the others share.
    update_container_namespaces(&sandbox, &mut oci, true).unwrap();
    sandbox.add_container(container("first"));
    assert_eq!(
        update_container_namespaces(&sandbox, &mut oci, true),
        Err(NamespaceError::NoSandboxPidns)
    );
}

#[test]
fn test_is_signal_handled() {
    let tests: Vec<(Option<&str>, u32, bool)> = vec![
        (
            Some(
                r#"
SigBlk:0000000000010000
SigCgt:0000000000000001
OtherField:other
                "#,
            ),
            1,
            true,
        ),
        (Some("SigCgt:000000004b813efb"), 4, true),
        (Some("SigCgt:\t000000004b813efb"), 4, true),
        (Some("SigCgt: 000000004b813efb"), 4, true),
        (Some("SigCgt:000000004b813efb "), 4, true),
        (Some("SigCgt:\t000000004b813efb "), 4, true),
        (Some("SigCgt:000000004b813efb"), 3, false),
        (Some("SigCgt:000000004b813efb"), 65, false),
        (Some("SigCgt:000000004b813efb"), 0, true),
        (Some("SigCgt:ZZZZZZZZ"), 1, false),
        (Some("SigCgt:-1"), 1, false),
        (Some("SigCgt"), 1, false),
        (Some("any data"), 0, true),
        (Some("SigBlk:0000000000000001"), 1, true),
        (Some("SigIgn:0000000000000001"), 1, true),
        (None, 1, false),
        (None, 0, false),
    ];
    for (i, (status_file_data, signum, result)) in tests.into_iter().enumerate() {
        let lines: Option<Vec<String>> =
            status_file_data.map(|t| t.lines().map(|l| l.to_string()).collect());
        assert_eq!(is_signal_handled(&lines, signum), result, "test[{}]", i);
    }
}

fn sandbox_with_processes() -> Sandbox {
    let mut sandbox = Sandbox::new("ext4");
    let mut c = container("1");
    c.init_process_pid = 10;
    c.processes.insert("1".to_string(), process("1", true, 10));
    c.processes.insert("2".to_string(), process("2", false, 11));
    sandbox.add_container(c);
    sandbox
}

#[test]
fn a_single_process_is_signalled() {
    let s = sandbox_with_processes();
    let mut run = do_signal_process(&s, "1", "2", 2).unwrap();
    assert_eq!(run.step(), Some(SignalStep::Kill(11, 2)));
    run.report(SignalEvent::Errno(3));
    assert_eq!(run.phase, SignalPhase::Done);
    assert_eq!(run.step(), None);
    let mut run = do_signal_process(&s, "1", "2", 2).unwrap();
    run.report(SignalEvent::Errno(1));
    assert_eq!(run.phase, SignalPhase::Failed);
}

#[test]
fn an_init_process_that_does_not_handle_a_termination_is_killed() {
    let s = sandbox_with_processes();
    let mut run = do_signal_process(&s, "1", "1", SIGTERM as u32).unwrap();
    assert_eq!(run.step(), Some(SignalStep::ReadStatus(10)));
    run.report(SignalEvent::Status(Some(vec![
        "SigCgt:0000000000000001".to_string()
    ])));
    assert_eq!(run.step(), Some(SignalStep::Kill(10, SIGKILL)));
    let mut run = do_signal_process(&s, "1", "1", SIGTERM as u32).unwrap();
    run.report(SignalEvent::Status(Some(vec![
        "SigCgt:0000000000004000".to_string()
    ])));
    assert_eq!(run.step(), Some(SignalStep::Kill(10, SIGTERM)));
}

#[test]
fn a_kill_without_a_process_reaches_them_all() {
    let s = sandbox_with_processes();
    let mut run = do_signal_process(&s, "1", "", SIGKILL as u32).unwrap();
    let mut steps = vec![];
    while let Some(step) = run.step() {
        steps.push(step);
        run.report(match step {
            SignalStep::ListPids => SignalEvent::Pids(vec![10, 11, 12]),
            SignalStep::Kill(11, _) => SignalEvent::Errno(3),
            _ => SignalEvent::Done,
        });
    }
    assert_eq!(
        steps,
        vec![
            SignalStep::Freeze,
            SignalStep::ListPids,
            SignalStep::Kill(10, SIGKILL),
            SignalStep::Kill(11, SIGKILL),
            SignalStep::Kill(12, SIGKILL),
            SignalStep::Thaw,
        ]
    );
    assert_eq!(cgroup_container(&s, "1").unwrap().id, "1");
    assert!(cgroup_container(&s, "2").is_err());
}

#[test]
fn signals_to_nobody_are_answered() {
    let s = sandbox_with_processes();
    let e = do_signal_process(&s, "9", "2", 2).unwrap_err();
    assert_eq!(e.code, sandbox_err_to_ttrpc(SandboxError::InvalidContainerId).code);
    let e = do_signal_process(&s, "1", "9", 2).unwrap_err();
    assert_eq!(e.code, sandbox_err_to_ttrpc(SandboxError::InvalidExecId).code);
}

#[test]
fn lookup_errors_have_codes() {
    assert_eq!(
        sandbox_err_to_ttrpc(SandboxError::InvalidContainerId).code,
        RpcCode::InvalidArgument
    );
    assert_eq!(
        sandbox_err_to_ttrpc(SandboxError::InvalidExecId).code,
        RpcCode::NotFound
    );
    assert_eq!(
        sandbox_err_to_ttrpc(SandboxError::InitProcessNotFound).code,
        RpcCode::NotFound
    );
}

#[test]
fn usage_is_what_is_not_free() {
    assert_eq!(
        get_volume_capacity_stats(100, 40, 4096),
        VolumeUsage {
            total: 409600,
            available: 163840,
            used: 245760,
        }
    );
    assert_eq!(
        get_volume_inode_stats(10, 7),
        VolumeUsage {
            total: 10,
            available: 7,
            used: 3,
        }
    );
}

#[test]
fn test_map_ttrpc_err_preserves_not_found() {
    let not_found = ttrpc_error(RpcCode::NotFound, "process not found");
    let result: Result<(), RpcError> = map_ttrpc_err(Err(same(AgentError::Rpc(not_found))));
    assert_eq!(result.unwrap_err().code, RpcCode::NotFound);
}

#[test]
fn test_map_ttrpc_err_wraps_non_ttrpc_as_internal() {
    let plain: Result<(), AgentError> =
        Err(AgentError::Other("something went wrong".to_string()));
    let e = map_ttrpc_err(plain).unwrap_err();
    assert_eq!(e.code, RpcCode::Internal);
    assert_eq!(e.detail, "something went wrong");
}

#[test]
fn logs_of_unknown_kinds_are_refused() {
    let e = validate_log_type("nothing").unwrap_err();
    assert_eq!(e.code, RpcCode::InvalidArgument);
}

#[test]
fn a_sandbox_begins_once_with_its_names() {
    let mut s = Sandbox::new("ext4");
    let mut req = sandbox_request();
    req.hostname = "host".to_string();
    req.sandbox_id = "sid".to_string();
    begin_sandbox(&mut s, &req);
    assert!(s.running);
    assert_eq!((s.hostname.as_str(), s.id.as_str()), ("host", "sid"));
}

#[test]
fn a_bundle_takes_over_the_root() {
    let mut spec = Spec::empty();
    assert!(setup_bundle("c1", &mut spec).is_err());
    spec.root = Some(Root {
        path: "/images/one".to_string(),
        readonly: true,
    });
    let bundle = setup_bundle("c1", &mut spec).unwrap();
    assert_eq!(bundle.path, "/run/kata-containers/c1");
    assert_eq!(bundle.config, "/run/kata-containers/c1/config.json");
    assert_eq!(bundle.rootfs, "/run/kata-containers/c1/rootfs");
    assert_eq!(bundle.source, "/images/one");
    let root = spec.root.unwrap();
    assert_eq!(root.path, "/run/kata-containers/c1/rootfs");
    assert!(root.readonly);
}

#[test]
fn a_creation_is_checked_before_anything_else() {
    let mut req = create_request();
    let e = check_create(&req, Ok(()), Err("bad id".to_string())).unwrap_err();
    assert!(matches!(e, AgentError::Other(ref t) if t == "bad id"));
    let e = check_create(&req, Ok(()), Ok(())).unwrap_err();
    assert!(matches!(e, AgentError::Other(ref t) if t == "EINVAL: Invalid argument"));
    req.oci = Some(Spec::empty());
    let first = check_create(&req, Ok(()), Ok(())).unwrap();
    assert_eq!(first, CreateStep::AddStorages);
}

#[test]
fn a_creation_that_fails_is_undone() {
    let mut step = CreateStep::AddStorages;
    let mut seen = vec![step];
    while let CreateState::Due(next) = do_create_container(step, true) {
        step = next;
        seen.push(step);
    }
    assert_eq!(do_create_container(step, true), CreateState::Created);
    assert_eq!(
        seen,
        vec![
            CreateStep::AddStorages,
            CreateStep::Prepare,
            CreateStep::WriteBundle,
            CreateStep::Build,
            CreateStep::Start,
            CreateStep::Register,
        ]
    );
    assert_eq!(
        do_create_container(CreateStep::Start, false),
        CreateState::Due(CreateStep::Destroy)
    );
    assert_eq!(
        do_create_container(CreateStep::Destroy, true),
        CreateState::Due(CreateStep::RemoveResources)
    );
    assert_eq!(
        do_create_container(CreateStep::RemoveResources, true),
        CreateState::Failed
    );
}

fn prepared(s: &mut Sandbox, cid: &str, mounts: Vec<String>) -> Spec {
    let mut spec = Spec::empty();
    spec.linux = Some(Linux::empty());
    spec.process = Some(oci_process());
    spec.root = Some(Root {
        path: "/images/one".to_string(),
        readonly: false,
    });
    prepare_container(s, cid, &mut spec, mounts, false).unwrap();
    spec
}

#[test]
fn a_container_lives_and_goes() {
    let mut s = Sandbox::new("ext4");
    s.add_sandbox_storage("/data", false);
    s.add_sandbox_storage("/data", false);
    s.add_sandbox_storage("/own", false);
    s.update_sandbox_storage(
        "/own",
        StorageDevice {
            path: Some("/own".to_string()),
        },
    )
    .unwrap();
    let spec = prepared(
        &mut s,
        "c1",
        vec!["/data".to_string(), "/own".to_string()],
    );
    let mut c = build_container(&s, "c1", spec, "worker".to_string()).unwrap();
    assert_eq!(c.id, "c1");
    c.init_process_pid = 12;
    let mut first = process("c1", true, 12);
    first.exit_code = 3;
    first.parent_stdin = Some(7);
    first.parent_stderr = Some(9);
    c.processes.insert("c1".to_string(), first);
    register_container(&mut s, c).unwrap();
    assert_eq!(do_start_container(&s, "c1").unwrap(), StartAction::WatchAndExec);
    assert_eq!(wait_target(&s, "c1", "").unwrap(), 12);
    assert_eq!(
        wait_target(&s, "c1", "c9").unwrap_err().code,
        RpcCode::NotFound
    );
    assert!(do_start_container(&s, "c2").is_err());
    do_exec_process(&s, "c1", (0, 0, 0), true).unwrap();
    assert!(do_exec_process(&s, "c1", (0, 0, 0), false).is_err());
    assert!(do_exec_process(&s, "c2", (0, 0, 0), true).is_err());
    assert_eq!(named_container(&mut s, "c1").unwrap().id, "c1");
    assert!(named_container(&mut s, "c2").is_err());
    assert!(tty_of(&s, "c1", "c1").is_err());
    assert!(matches!(reap_process(&mut s, "c1", 99), Ok(Reaped::Lost)));
    match reap_process(&mut s, "c1", 12).unwrap() {
        Reaped::Exited(eid, code, fds) => {
            assert_eq!((eid.as_str(), code), ("c1", 3));
            assert_eq!(fds, vec![7, 9]);
        }
        Reaped::Lost => panic!("lost"),
    }
    assert!(reap_process(&mut s, "c2", 12).is_err());
    assert!(do_remove_container(&mut s, "c1", Destroyed::TimedOut).is_err());
    assert!(do_remove_container(&mut s, "c1", Destroyed::Failed("x".to_string())).is_err());
    assert!(s.containers.contains_key("c1"));
    let left = do_remove_container(&mut s, "c1", Destroyed::Done).unwrap();
    assert_eq!(left.len(), 1);
    assert_eq!(left[0].path.as_deref(), Some("/own"));
    assert!(!s.containers.contains_key("c1"));
    assert_eq!(s.storages.get("/data").unwrap().ref_count(), 1);
    assert!(!s.storages.contains_key("/own"));
    assert!(remove_container_resources(&mut s, "c1").is_empty());
}

#[test]
fn shared_storages_outlive_containers() {
    let mut s = Sandbox::new("ext4");
    s.add_sandbox_storage("/shared", true);
    for id in ["c1", "c2"] {
        let mounts = vec!["/shared".to_string(), "/shared".to_string()];
        s.container_mounts.insert(id.to_string(), mounts);
        assert!(remove_container_resources(&mut s, id).is_empty());
    }
    let state = s.storages.get("/shared").unwrap();
    assert!(state.is_shared());
    assert_eq!(state.ref_count(), 1);
}

#[test]
fn a_prepared_container_has_its_namespaces() {
    let mut s = Sandbox::new("ext4");
    s.shared_ipcns = "/run/ipc".to_string();
    let mut spec = Spec::empty();
    let mut linux = Linux::empty();
    linux.namespaces = Some(vec![namespace(NamespaceType::Ipc, None)]);
    spec.linux = Some(linux);
    spec.root = Some(Root {
        path: "/images/one".to_string(),
        readonly: true,
    });
    let bundle = prepare_container(&mut s, "c1", &mut spec, vec![], true).unwrap();
    assert_eq!(bundle.source, "/images/one");
    assert_eq!(spec.root.as_ref().unwrap().path, bundle.rootfs);
    let list = spec.linux.unwrap().namespaces.unwrap();
    assert_eq!(list.len(), 2);
    assert_eq!(list[0].path.as_deref(), Some("/run/ipc"));
    assert!(list[1].typ == NamespaceType::Pid && list[1].path.is_none());
}

#[test]
fn a_container_is_built_once() {
    let mut s = Sandbox::new("ext4");
    let mut lacking = prepared(&mut s, "c1", vec![]);
    lacking.process = None;
    assert!(build_container(&s, "c1", lacking, String::new()).is_err());
    let spec = prepared(&mut s, "c1", vec![]);
    let c = build_container(&s, "c1", spec, String::new()).unwrap();
    assert_eq!(c.root, "/run/kata-containers/c1");
    assert_eq!(c.cpath, "/c1");
    assert!(register_container(&mut s, c).is_err());
}

#[test]
fn a_terminal_is_asked_for_by_its_process() {
    let mut s = sandbox_with_processes();
    s.get_container("1")
        .unwrap()
        .processes
        .get_mut("2")
        .unwrap()
        .term_master = Some(33);
    assert_eq!(tty_of(&s, "1", "2").unwrap(), 33);
    assert!(tty_of(&s, "1", "7").is_err());
}

#[test]
fn a_last_message_is_found_and_cut() {
    let mut s = Sandbox::new("ext4");
    assert!(termination_log_path(&s, "c").is_err());
    let mut c = container("c");
    c.config.spec = None;
    s.add_container(c);
    assert!(termination_log_path(&s, "c").is_err());
    let mut c = container("c");
    let spec = c.config.spec.as_mut().unwrap();
    spec.annotations = Some(vec![(
        TERMINATION_PATH_KEY.to_string(),
        "/dev/termination-log".to_string(),
    )]);
    s.add_container(c);
    assert!(termination_log_path(&s, "c").is_err());
    let spec = s.get_container("c").unwrap().config.spec.as_mut().unwrap();
    spec.mounts = Some(vec![OciMount {
        destination: "/dev/termination-log/".to_string(),
        typ: Some("bind".to_string()),
        source: Some("/shared/log".to_string()),
        options: None,
    }]);
    assert_eq!(termination_log_path(&s, "c").unwrap(), "/shared/log");

    assert_eq!(termination_message(None), "");
    assert_eq!(termination_message(Some(b"bye".to_vec())), "bye");
    assert_eq!(termination_message(Some(vec![98, 255])), "b\u{fffd}");
    let long = vec![b'a'; MAX_TERMINATION_MSG + 10];
    assert_eq!(termination_message(Some(long)).len(), MAX_TERMINATION_MSG);
}

#[test]
fn output_survives_the_process() {
    let read = |news| read_stream(news);
    assert!(matches!(read(ReadNews::Exited), ReadStep::Drain(500)));
    match read(ReadNews::Data(vec![1, 2])) {
        ReadStep::Answer(d) => assert_eq!(d, vec![1, 2]),
        other => panic!("{:?}", other),
    }
    match read(ReadNews::TimedOut) {
        ReadStep::Answer(d) => assert!(d.is_empty()),
        other => panic!("{:?}", other),
    }
    assert!(matches!(read(ReadNews::Failed), ReadStep::Fail));
}

#[test]
fn minimal_guest_details_reject_hotplug_and_keep_agent_metadata() {
    let details = || {
        let handlers = kata_fc::device::driver_types();
        get_agent_details("1.2.3".to_string(), 1, handlers, Vec::new())
    };
    for (block, probe) in [(true, false), (false, true), (true, true)] {
        let e = get_guest_details(block, probe, details()).unwrap_err();
        assert_eq!(e.code, RpcCode::InvalidArgument);
    }
    let response = get_guest_details(false, false, details()).unwrap();
    assert_eq!(response.mem_block_size_bytes, 0);
    assert!(!response.support_mem_hotplug_probe);
    let told = response.agent_details;
    assert_eq!(told.version, "1.2.3");
    assert!(told.init_daemon && told.supports_seccomp);
    assert!(told.device_handlers.is_empty());
    assert!(told
        .storage_handlers
        .iter()
        .any(|driver| driver == "mmioblk"));
    assert!(!get_agent_details(String::new(), 2, vec![], vec![]).init_daemon);
}
