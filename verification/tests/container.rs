//! Containers, their start and their processes.
use kata_fc::container::{
    get_pid_namespace, mapping_text, namespace_file, namespaces, sysctl_path, type_to_name, update_namespaces,
    BaseContainer, Container, ContainerError, ContainerProcess, ContainerState, ContainerStatus,
    CreateOpts, LinuxContainer,
};
use kata_fc::init_child::{
    child_environment, init_plan, init_variables, read_descriptor, read_setup, Directive,
    InitFault, InitReject, InitRun, InitSetup, InitStep, InitVariable, InitVariables, Outcome,
    Verdict,
};
use kata_fc::oci::{
    Capabilities, DeviceType, Linux, LinuxDeviceCgroup, LinuxIdMapping, LinuxNamespace,
    LinuxResources, NamespaceType, Process, Root, Spec, User,
};
use kata_fc::start::{
    cleanup_plan, destroy_goes_on, destroy_plan, join_plan, pid_error, start_error, start_plan, DestroyStep, JoinStep,
    StartOutcome, StartReject, StartRun, StartStep, StartVerdict,
};

fn process(exec_id: &str, init: bool) -> ContainerProcess {
    ContainerProcess {
        exec_id: exec_id.to_string(),
        pid: -1,
        init,
        tty: false,
        capabilities: None,
        exit_code: 0,
        term_master: None,
        parent_stdin: None,
        parent_stdout: None,
        parent_stderr: None,
    }
}

fn oci_process() -> Process {
    Process {
        terminal: None,
        user: User {
            uid: 0,
            gid: 0,
            additional_gids: None,
        },
        args: None,
        env: None,
        cwd: "/".to_string(),
        capabilities: None,
        rlimits: None,
        no_new_privileges: None,
        selinux_label: None,
        oom_score_adj: None,
    }
}

fn no_capabilities() -> Capabilities {
    Capabilities {
        bounding: 0,
        effective: 0,
        inheritable: 0,
        permitted: 0,
        ambient: 0,
    }
}

fn namespace(typ: NamespaceType, path: Option<&str>) -> LinuxNamespace {
    LinuxNamespace {
        typ,
        path: path.map(|p| p.to_string()),
    }
}

fn dummy_opts() -> CreateOpts {
    let mut resources = LinuxResources::unlimited();
    resources.devices = Some(vec![LinuxDeviceCgroup {
        allow: true,
        typ: Some(DeviceType::C),
        major: None,
        minor: None,
        access: Some("rwm".to_string()),
    }]);
    let mut linux = Linux::empty();
    linux.cgroups_path = Some("/kata.agent.test.k8s.io/dummycontainer1".to_string());
    linux.resources = Some(resources);
    let mut spec = Spec::empty();
    spec.linux = Some(linux);
    spec.root = Some(Root {
        path: "/tmp".to_string(),
        readonly: false,
    });
    CreateOpts {
        no_pivot_root: false,
        container_name: String::new(),
        spec: Some(spec),
    }
}

fn new_linux_container() -> LinuxContainer {
    LinuxContainer::new("some_id".to_string(), "/tmp/rootfs", dummy_opts())
}

#[test]
fn test_status_transtition() {
    let mut status = ContainerStatus::new();
    let status_table: [ContainerState; 4] = [
        ContainerState::Created,
        ContainerState::Running,
        ContainerState::Paused,
        ContainerState::Stopped,
    ];
    for s in status_table.iter() {
        status.transition(*s);
        assert_eq!(status.status(), *s);
    }
}

#[test]
fn test_namespaces() {
    let table = namespaces();
    assert_eq!(table.len(), 7);
    for name in ["user", "ipc", "pid", "net", "mnt", "uts", "cgroup"] {
        assert!(table.iter().any(|e| e.0 == name), "{}", name);
    }
}

#[test]
fn test_typetoname() {
    let types = [
        NamespaceType::User,
        NamespaceType::Ipc,
        NamespaceType::Pid,
        NamespaceType::Network,
        NamespaceType::Mount,
        NamespaceType::Uts,
        NamespaceType::Cgroup,
    ];
    assert_eq!(types.len(), 7);
    for t in types {
        assert!(type_to_name(t).is_some());
    }
    assert!(type_to_name(NamespaceType::Time).is_none());
    assert_eq!(type_to_name(NamespaceType::Network).unwrap(), "net");
}

#[test]
fn test_update_namespaces_pins_namespace_fds() {
    let mut linux = Linux::empty();
    linux.namespaces = Some(vec![namespace(NamespaceType::Mount, None)]);
    let agent_pid = nix::unistd::getpid().as_raw();
    let fd = nix::fcntl::open(
        namespace_file(agent_pid, NamespaceType::Mount).as_str(),
        nix::fcntl::OFlag::O_RDONLY | nix::fcntl::OFlag::O_CLOEXEC,
        nix::sys::stat::Mode::empty(),
    )
    .unwrap();
    update_namespaces(&mut linux, agent_pid, agent_pid as u32, &vec![Some(fd)]).unwrap();
    let pinned = linux.namespaces.unwrap();
    let pinned_path = pinned[0].path.as_ref().unwrap();
    assert!(pinned_path.starts_with(&format!("/proc/{}/fd", agent_pid)));
    assert_eq!(
        nix::sys::stat::stat(pinned_path.as_str()).unwrap().st_ino,
        nix::sys::stat::stat("/proc/self/ns/mnt").unwrap().st_ino
    );
}

#[test]
fn a_namespace_that_cannot_be_opened_is_not_pinned() {
    let mut linux = Linux::empty();
    linux.namespaces = Some(vec![namespace(NamespaceType::Uts, None)]);
    let err = update_namespaces(&mut linux, 10, 20, &vec![None]).unwrap_err();
    assert!(matches!(err, ContainerError::PinFailed(ref p) if p == "/proc/10/ns/uts"));
    assert!(linux.namespaces.unwrap()[0].path.is_none());
}

#[test]
fn test_pid_namespace_is_required_and_may_be_created_or_joined() {
    let mut linux = Linux::empty();
    assert!(get_pid_namespace(&linux).is_err());
    linux.namespaces = Some(vec![namespace(NamespaceType::Pid, None)]);
    assert_eq!(get_pid_namespace(&linux).unwrap(), None);
    linux.namespaces = Some(vec![namespace(
        NamespaceType::Pid,
        Some("/proc/self/ns/pid"),
    )]);
    let i = get_pid_namespace(&linux).unwrap().unwrap();
    let path = linux.namespaces.as_ref().unwrap()[i].path.as_ref().unwrap();
    assert_eq!(
        nix::sys::stat::stat(path.as_str()).unwrap().st_ino,
        nix::sys::stat::stat("/proc/self/ns/pid").unwrap().st_ino
    );
}

#[test]
fn test_linuxcontainer_pause_bad_status() {
    let mut c = new_linux_container();
    // Change state to pause, c.pause() should fail
    c.status.transition(ContainerState::Paused);
    let ret = c.pause(Ok(()));
    assert!(ret.is_err(), "Expecting error, Got {:?}", ret);
    assert!(ret
        .unwrap_err()
        .message()
        .contains("failed to pause container"));
}

#[test]
fn test_linuxcontainer_resume_bad_status() {
    let mut c = new_linux_container();
    // Change state to created, c.resume() should fail
    c.status.transition(ContainerState::Created);
    let ret = c.resume(Ok(()));
    assert!(ret.is_err(), "Expecting error, Got {:?}", ret);
    assert!(ret.unwrap_err().message().contains("not paused"));
}

#[test]
fn pausing_follows_the_freezer() {
    let mut c = new_linux_container();
    c.may_pause().unwrap();
    assert!(c.may_resume().is_err());
    let e = c.pause(Err("cannot freeze".to_string())).unwrap_err();
    assert!(matches!(e, ContainerError::Cgroup(_)));
    assert_eq!(e.message(), "cannot freeze");
    assert_eq!(BaseContainer::status(&c), ContainerState::Created);
    let mut limits = LinuxResources::unlimited();
    limits.pids = Some(3);
    let before = format!("{:?}", c.config);
    let e = c.set(limits, Err("cannot set".to_string())).unwrap_err();
    assert_eq!(e.message(), "cannot set");
    assert_eq!(format!("{:?}", c.config), before);
    c.pause(Ok(())).unwrap();
    assert_eq!(BaseContainer::status(&c), ContainerState::Paused);
    c.resume(Ok(())).unwrap();
    assert_eq!(BaseContainer::status(&c), ContainerState::Running);
}

#[test]
fn test_linuxcontainer_get_process_not_found() {
    let c = new_linux_container();
    let p = c.get_process("123");
    assert!(p.is_err(), "Expecting Err, Got {:?}", p);
}

#[test]
fn test_linuxcontainer_get_process() {
    let mut c = new_linux_container();
    c.processes.insert("123".to_string(), process("123", true));
    let p = c.get_process("123");
    assert!(p.is_ok(), "Expecting Ok, Got {:?}", p);
}

#[test]
fn test_linuxcontainer_set() {
    let mut c = new_linux_container();
    let ret = c.set(LinuxResources::unlimited(), Ok(()));
    assert!(ret.is_ok(), "Expecting Ok, Got {:?}", ret);
    assert!(c.config.spec.unwrap().linux.unwrap().resources.is_some());
}

#[test]
fn test_linuxcontainer_start() {
    let c = new_linux_container();
    let p = process("123", true);
    let steps = start_plan(&c, &p);
    assert_eq!(
        steps.last(),
        Some(&StartStep::Reject(StartReject::NoProcess))
    );
    let err = start_error(StartReject::NoProcess, &p);
    assert!(err.message().contains("no process config"));
}

#[test]
fn test_linuxcontainer_destroy() {
    let c = new_linux_container();
    let steps = destroy_plan(&c);
    assert!(steps.contains(&DestroyStep::MarkStopped));
    assert!(!steps.iter().any(|s| matches!(s, DestroyStep::Kill(_))));
    // A process that is gone already does not matter.
    assert!(destroy_goes_on(DestroyStep::Kill(5), 3));
    assert!(!destroy_goes_on(DestroyStep::Kill(5), 1));
}

#[test]
fn an_id_is_used_once() {
    let mut c = new_linux_container();
    c.processes.insert("123".to_string(), process("123", false));
    let steps = start_plan(&c, &process("123", false));
    assert_eq!(steps, vec![StartStep::Reject(StartReject::ExecIdExists)]);
    let err = start_error(StartReject::ExecIdExists, &process("123", false));
    assert!(matches!(err, ContainerError::ExecIdExists(ref id) if id == "123"));
}

/// Performs every step of a start, each with success.
fn start(c: &mut LinuxContainer, p: ContainerProcess, pid: &str) {
    let mut run = StartRun::new(c, p);
    while let Some(step) = run.current() {
        let outcome = match step {
            StartStep::Reject(r) => panic!("rejected: {:?}", r),
            StartStep::StatFifo => StartOutcome::Exists(false),
            StartStep::ReadPid => StartOutcome::Pid(pid.as_bytes().to_vec()),
            _ => StartOutcome::Done,
        };
        assert_eq!(run.report(c, outcome), StartVerdict::Next);
    }
    run.finish(c);
}

fn startable() -> LinuxContainer {
    let mut c = new_linux_container();
    let linux = c.config.spec.as_mut().unwrap().linux.as_mut().unwrap();
    linux.namespaces = Some(vec![namespace(NamespaceType::Pid, None)]);
    c
}

#[test]
fn a_start_keeps_the_other_processes() {
    let mut c = startable();
    let mut init = process("a", true);
    init.capabilities = Some(no_capabilities());
    start(&mut c, init, "42");
    assert_eq!(c.init_process_pid, 42);
    let mut exec = process("b", false);
    exec.capabilities = Some(no_capabilities());
    start(&mut c, exec, "43");
    assert_eq!(c.init_process_pid, 42);
    assert_eq!(c.processes.get("a").unwrap().pid, 42);
    assert_eq!(c.processes.get("b").unwrap().pid, 43);
}

#[test]
fn a_start_that_fails_late_kills_the_process() {
    let mut c = startable();
    let mut p = process("a", true);
    p.capabilities = Some(no_capabilities());
    let mut run = StartRun::new(&c, p);
    while let Some(step) = run.current() {
        let outcome = match step {
            StartStep::StatFifo => StartOutcome::Exists(false),
            StartStep::ReadPid => StartOutcome::Pid(b"42".to_vec()),
            StartStep::Join(_) => break,
            _ => StartOutcome::Done,
        };
        assert_eq!(run.report(&mut c, outcome), StartVerdict::Next);
    }
    assert_eq!(
        run.report(&mut c, StartOutcome::Failed(5)),
        StartVerdict::KillAndAbort(42)
    );
}

#[test]
fn a_fifo_or_a_pid_can_be_wrong() {
    let mut c = startable();
    let mut p = process("a", true);
    p.capabilities = Some(no_capabilities());
    let mut run = StartRun::new(&c, p);
    assert_eq!(run.current(), Some(StartStep::StatFifo));
    assert_eq!(
        run.report(&mut c, StartOutcome::Exists(true)),
        StartVerdict::FifoExists
    );
    while run.current() != Some(StartStep::ReadPid) {
        run.report(&mut c, StartOutcome::Done);
    }
    assert_eq!(
        run.report(&mut c, StartOutcome::Pid(b"no pid".to_vec())),
        StartVerdict::BadPid
    );
    assert_eq!(
        run.report(&mut c, StartOutcome::Pid(vec![255])),
        StartVerdict::BadPid
    );
    for (message, expected) in [
        (
            b"no pid".to_vec(),
            "failed to get container process's pid: ParseIntError { kind: InvalidDigit }",
        ),
        (
            b"99999999999".to_vec(),
            "failed to get container process's pid: ParseIntError { kind: PosOverflow }",
        ),
        (
            b"".to_vec(),
            "failed to get container process's pid: ParseIntError { kind: Empty }",
        ),
        (vec![255], "get pid string"),
    ] {
        assert_eq!(pid_error(message).unwrap().message(), expected);
    }
    assert!(pid_error(b"-17".to_vec()).is_none());
    assert_eq!(
        run.report(&mut c, StartOutcome::Failed(5)),
        StartVerdict::Abort
    );
}

#[test]
fn a_process_inherits_capabilities_or_is_refused() {
    let mut c = startable();
    let steps = start_plan(&c, &process("a", false));
    assert_eq!(steps, vec![StartStep::Reject(StartReject::NoProcess)]);
    c.config.spec.as_mut().unwrap().process = Some(oci_process());
    let steps = start_plan(&c, &process("a", false));
    assert_eq!(
        steps,
        vec![StartStep::Reject(StartReject::MissingCapabilities)]
    );
    c.config
        .spec
        .as_mut()
        .unwrap()
        .process
        .as_mut()
        .unwrap()
        .capabilities = Some(no_capabilities());
    let run = StartRun::new(&c, process("a", false));
    assert_eq!(run.process.capabilities, Some(no_capabilities()));
    c.config
        .spec
        .as_mut()
        .unwrap()
        .linux
        .as_mut()
        .unwrap()
        .namespaces = None;
    let steps = start_plan(&c, &process("a", false));
    assert_eq!(
        steps.last(),
        Some(&StartStep::Reject(StartReject::NoPidNamespace))
    );
    c.config.spec.as_mut().unwrap().linux = None;
    let steps = start_plan(&c, &process("a", false));
    assert_eq!(steps, vec![StartStep::Reject(StartReject::NoLinux)]);
    c.config.spec = None;
    let steps = start_plan(&c, &process("a", false));
    assert_eq!(steps, vec![StartStep::Reject(StartReject::NoSpec)]);
}

#[test]
fn handing_over_maps_users_before_the_cgroup() {
    let mut linux = Linux::empty();
    linux.namespaces = Some(vec![namespace(NamespaceType::User, None)]);
    linux.resources = Some(LinuxResources::unlimited());
    let steps = join_plan(&linux, true);
    let map = steps.iter().position(|s| *s == JoinStep::WriteUidMap);
    let apply = steps.iter().position(|s| *s == JoinStep::ApplyCgroup);
    assert!(map.unwrap() < apply.unwrap());
    assert_eq!(steps.last(), Some(&JoinStep::AwaitChild));
}

#[test]
fn a_plan_of_the_child_ends_in_exec_or_reject() {
    let mut spec = Spec::empty();
    let process = oci_process();
    assert_eq!(
        init_plan(&spec, &process, true, false).last(),
        Some(&InitStep::Reject(InitReject::MissingProcess))
    );
    spec.process = Some(oci_process());
    assert_eq!(
        init_plan(&spec, &process, true, false).last(),
        Some(&InitStep::Reject(InitReject::MissingLinux))
    );
    let mut linux = Linux::empty();
    linux.seccomp = true;
    linux.namespaces = Some(vec![namespace(NamespaceType::Pid, None)]);
    spec.linux = Some(linux);
    let steps = init_plan(&spec, &process, true, false);
    assert_eq!(steps.last(), Some(&InitStep::Exec));
    let seccomp = steps
        .iter()
        .filter(|s| **s == InitStep::InstallSeccomp)
        .count();
    assert_eq!(seccomp, 1);
    assert!(!steps
        .iter()
        .any(|s| matches!(s, InitStep::JoinNamespace(_, NamespaceType::Pid))));
    assert_eq!(
        InitReject::MissingLinux.message().is_empty(),
        false
    );
}

#[test]
fn a_label_needs_selinux() {
    let mut run = InitRun::new(vec![InitStep::QuerySelinux, InitStep::SetSelinuxLabel]);
    assert_eq!(run.current(), Directive::Perform(InitStep::QuerySelinux));
    assert_eq!(run.report(Outcome::Selinux(false)), Verdict::Next);
    assert_eq!(run.current(), Directive::Stop(InitReject::SelinuxDisabled));
    let mut run = InitRun::new(vec![InitStep::QuerySelinux, InitStep::SetSelinuxLabel]);
    run.report(Outcome::Selinux(true));
    assert_eq!(run.current(), Directive::Perform(InitStep::SetSelinuxLabel));
    assert_eq!(run.report(Outcome::Failed(1)), Verdict::Abort(false));
}

#[test]
fn joining_the_own_user_namespace_goes_on() {
    let step = InitStep::JoinNamespace(0, NamespaceType::User);
    let mut run = InitRun::new(vec![step]);
    assert_eq!(run.report(Outcome::Failed(22)), Verdict::Next);
    assert_eq!(run.current(), Directive::Finished);
    let mut run = InitRun::new(vec![InitStep::JoinNamespace(0, NamespaceType::Uts)]);
    assert_eq!(run.report(Outcome::Failed(22)), Verdict::Abort(true));
}

#[test]
fn the_environment_gets_a_home() {
    let entries = vec![
        Some(("PATH".to_string(), "/bin".to_string())),
        None,
        Some(("PATH".to_string(), "/usr/bin".to_string())),
    ];
    let env = child_environment(&entries, &Some("/root".to_string()));
    assert_eq!(env.get("PATH").unwrap(), "/usr/bin");
    assert_eq!(env.get("HOME").unwrap(), "/root");
    let set = vec![Some(("HOME".to_string(), "/h".to_string()))];
    let env = child_environment(&set, &Some("/root".to_string()));
    assert_eq!(env.get("HOME").unwrap(), "/h");
}

#[test]
fn mappings_and_parameters_are_written_as_the_kernel_reads_them() {
    let maps = vec![
        LinuxIdMapping {
            container_id: 0,
            host_id: 1000,
            size: 10,
        },
        LinuxIdMapping {
            container_id: 5,
            host_id: 6,
            size: 0,
        },
    ];
    assert_eq!(mapping_text(&maps), "0 1000 10\n");
    assert_eq!(sysctl_path("net.ipv4.ip_forward"), "/proc/sys/net/ipv4/ip_forward");
}

#[test]
fn a_new_container_finds_its_cgroup() {
    let c = new_linux_container();
    assert_eq!(c.root, "/tmp/rootfs/some_id");
    assert_eq!(c.cpath, "/kata.agent.test.k8s.io/dummycontainer1");
    assert_eq!(c.init_process_pid, -1);
    assert_eq!(c.fifo_path(), "/tmp/rootfs/some_id/exec.fifo");
}

#[test]
fn processes_are_killed_before_files_go() {
    let mut c = new_linux_container();
    let mut p = process("one", true);
    p.pid = 41;
    c.processes.insert("one".to_string(), p);
    let mut steps = destroy_plan(&c);
    steps.extend(cleanup_plan(&vec![42, 43]));
    assert_eq!(
        steps,
        vec![
            DestroyStep::Kill(41),
            DestroyStep::MarkStopped,
            DestroyStep::ListCgroup,
            DestroyStep::KillLeftover(42),
            DestroyStep::KillLeftover(43),
            DestroyStep::RemoveCgroup,
            DestroyStep::Unmount,
            DestroyStep::RemoveRoot,
        ]
    );
    assert!(destroy_goes_on(DestroyStep::KillLeftover(42), 1));
    assert!(destroy_goes_on(DestroyStep::Unmount, 22));
    assert!(!destroy_goes_on(DestroyStep::Unmount, 1));
    assert!(!destroy_goes_on(DestroyStep::RemoveRoot, 22));
}

fn no_variables() -> InitVariables {
    InitVariables {
        init: None,
        no_pivot: None,
        read: None,
        write: None,
        log: None,
        fifo: None,
        pidns: None,
    }
}

#[test]
fn test_linuxcontainer_do_init_child() {
    // Nothing was handed over.
    let ret = read_setup(&no_variables());
    assert!(ret.is_err(), "Expecting Err, Got {:?}", ret);
}

#[test]
fn a_child_reads_what_it_is_handed() {
    for (init, pidns) in [(true, Some(9)), (false, None)] {
        let setup = InitSetup {
            init,
            no_pivot: !init,
            read: 3,
            log: 2147483647,
            pidns,
        };
        let v = init_variables(&setup, 5, -1);
        assert_eq!(v.init.as_deref(), Some(if init { "true" } else { "false" }));
        assert_eq!(v.log.as_deref(), Some("2147483647"));
        let read = read_setup(&v).unwrap();
        assert_eq!((read.init, read.no_pivot), (init, !init));
        assert_eq!((read.read, read.log, read.pidns), (3, 2147483647, pidns));
        assert_eq!(read_descriptor(InitVariable::Write, &v.write), Ok(5));
        let fifo = read_descriptor(InitVariable::Fifo, &v.fifo);
        if init {
            assert_eq!(fifo, Ok(-1));
        } else {
            assert_eq!(fifo, Err(InitFault::Missing(InitVariable::Fifo)));
        }
    }
}

#[test]
fn each_variable_can_be_wrong() {
    let good = || {
        let setup = InitSetup {
            init: true,
            no_pivot: true,
            read: 3,
            log: 4,
            pidns: None,
        };
        init_variables(&setup, 5, 6)
    };
    let mut v = good();
    v.init = None;
    v.read = Some("x".to_string());
    let e = read_setup(&v).unwrap_err();
    assert_eq!(e, InitFault::Missing(InitVariable::Init));
    let mut v = good();
    v.no_pivot = None;
    let e = read_setup(&v).unwrap_err();
    assert_eq!(e, InitFault::Missing(InitVariable::NoPivot));
    let mut v = good();
    v.read = Some("x".to_string());
    let e = read_setup(&v).unwrap_err();
    assert_eq!(e, InitFault::NoDescriptor(InitVariable::Read));
    let mut v = good();
    v.log = None;
    let e = read_setup(&v).unwrap_err();
    assert_eq!(e, InitFault::Missing(InitVariable::Log));
    let mut v = good();
    v.pidns = Some("2147483648".to_string());
    let e = read_setup(&v).unwrap_err();
    assert_eq!(e, InitFault::NoPidNamespace);
    assert_eq!(e.message(), "get parent pidns fd");
    assert_eq!(
        InitFault::Missing(InitVariable::Init).message(),
        "environment variable not found"
    );
    assert_eq!(
        InitFault::NoDescriptor(InitVariable::Read).message(),
        "CRFD_FD holds no descriptor"
    );
    let mut v = good();
    v.init = Some("True".to_string());
    assert!(!read_setup(&v).unwrap().init);
}

#[test]
fn a_process_lists_its_descriptors() {
    let mut p = process("a", false);
    assert!(p.descriptors().is_empty());
    p.parent_stderr = Some(8);
    p.parent_stdout = Some(7);
    p.parent_stdin = Some(6);
    p.term_master = Some(5);
    assert_eq!(p.descriptors(), vec![5, 6, 7, 8]);
}
