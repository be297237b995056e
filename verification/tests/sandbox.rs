//! The sandbox and what it shares among its containers.
use kata_fc::container::{ContainerProcess, CreateOpts, LinuxContainer};
use kata_fc::oci::{Linux, LinuxDeviceCgroup, LinuxResources, Root, Spec};
use kata_fc::sandbox::{
    Sandbox, SandboxError, StorageDevice, StorageRemoval, TYPE_ROOTFS,
};
use kata_fc::shared_mounts::{
    is_mounted, mount_table_path, MountEvent, MountPhase, SharedMount, READY_TIMEOUT_MS,
};

fn device(path: &str) -> StorageDevice {
    StorageDevice {
        path: Some(path.to_string()),
    }
}

fn create_linuxcontainer() -> LinuxContainer {
    let mut resources = LinuxResources::unlimited();
    resources.devices = Some(vec![LinuxDeviceCgroup {
        allow: true,
        typ: None,
        major: None,
        minor: None,
        access: Some("rwm".to_string()),
    }]);
    let mut linux = Linux::empty();
    linux.cgroups_path = Some("/kata.agent.test.k8s.io/dummycontainer7".to_string());
    linux.resources = Some(resources);
    let mut spec = Spec::empty();
    spec.linux = Some(linux);
    spec.root = Some(Root {
        path: "/".to_string(),
        readonly: false,
    });
    LinuxContainer::new(
        "some_id".to_string(),
        "/tmp/rootfs",
        CreateOpts {
            no_pivot_root: false,
            container_name: "".to_string(),
            spec: Some(spec),
        },
    )
}

fn process(exec_id: &str, init: bool, pid: i32) -> ContainerProcess {
    ContainerProcess {
        exec_id: exec_id.to_string(),
        pid,
        init,
        tty: false,
        capabilities: None,
        exit_code: 0,
        term_master: None,
        parent_stdin: None,
        parent_stdout: None,
        parent_stderr: None,
    }
}

#[test]
fn set_sandbox_storage() {
    let mut s = Sandbox::new("ext4");
    let tmpdir_path = "/tmp/set_sandbox_storage";
    // Add a new sandbox storage
    let new_storage = s.add_sandbox_storage(tmpdir_path, false);
    assert_eq!(new_storage.ref_count(), 1);
    // Use the existing sandbox storage
    let new_storage = s.add_sandbox_storage(tmpdir_path, false);
    // Since we are using existing storage, the reference counter
    // should be 2 by now.
    assert_eq!(new_storage.ref_count(), 2);
}

#[test]
fn unset_and_remove_sandbox_storage() {
    let mut s = Sandbox::new("ext4");
    assert!(
        s.remove_sandbox_storage("/tmp/testEphePath").is_err(),
        "Should fail because sandbox storage doesn't exist"
    );
    let destdir_path = "/tmp/dest";
    s.add_sandbox_storage(destdir_path, false);
    assert!(s
        .update_sandbox_storage(destdir_path, device(destdir_path))
        .is_ok());
    match s.remove_sandbox_storage(destdir_path).unwrap() {
        StorageRemoval::Removed(d) => assert_eq!(d.path.unwrap(), destdir_path),
        StorageRemoval::Kept => panic!("still there"),
    }
    let other_dir_str = "/tmp/dir";
    s.add_sandbox_storage(other_dir_str, false);
    assert!(s
        .update_sandbox_storage(other_dir_str, device(other_dir_str))
        .is_ok());
    assert!(s.remove_sandbox_storage(other_dir_str).is_ok());
}

#[test]
fn unset_sandbox_storage() {
    let mut s = Sandbox::new("ext4");
    let storage_path = "/tmp/testEphe";
    // Add a new sandbox storage
    s.add_sandbox_storage(storage_path, false);
    // Use the existing sandbox storage
    let state = s.add_sandbox_storage(storage_path, false);
    assert!(
        state.ref_count() > 1,
        "Expects false as the storage is not new."
    );
    assert!(
        !s.remove_sandbox_storage(storage_path).unwrap().removed(),
        "Expects false as there is still a storage."
    );
    // Reference counter should decrement to 1.
    let refcount = s.storages.get(storage_path).unwrap().ref_count();
    assert_eq!(refcount, 1);
    assert!(
        s.remove_sandbox_storage(storage_path).unwrap().removed(),
        "Expects true as there is still a storage."
    );
    // Since no container is using this sandbox storage anymore
    // there should not be any reference in sandbox struct
    // for the given storage
    assert!(!s.storages.contains_key(storage_path));
    // If no container is using the sandbox storage, the reference
    // counter for it should not exist.
    assert!(s.remove_sandbox_storage(storage_path).is_err());
}

#[test]
fn a_storage_that_is_not_there_is_named() {
    let mut s = Sandbox::new("ext4");
    let e = s.remove_sandbox_storage("/gone").unwrap_err();
    assert_eq!(e.path, "/gone");
    assert!(e.message().contains("/gone"));
    assert!(s.update_sandbox_storage("/gone", device("/x")).is_err());
}

#[test]
fn the_first_use_decides_whether_a_storage_is_shared() {
    let mut s = Sandbox::new("ext4");
    assert!(s.add_sandbox_storage("/a", true).is_shared());
    let again = s.add_sandbox_storage("/a", false);
    assert!(again.is_shared());
    assert!(again.path().is_none());
}

#[test]
fn get_container_entry_exist() {
    let mut s = Sandbox::new("ext4");
    s.containers
        .insert("testContainerID".to_string(), create_linuxcontainer());
    assert!(s.get_container("testContainerID").is_some());
}

#[test]
fn get_container_no_entry() {
    let mut s = Sandbox::new("ext4");
    assert!(s.get_container("testContainerID").is_none());
}

#[test]
fn add_and_get_container() {
    let mut s = Sandbox::new("ext4");
    s.add_container(create_linuxcontainer());
    assert!(s.get_container("some_id").is_some());
}

#[test]
fn update_shared_pidns() {
    let mut s = Sandbox::new("ext4");
    let test_pid = 9999;
    let mut linux_container = create_linuxcontainer();
    linux_container.init_process_pid = test_pid;
    s.update_shared_pidns(&linux_container).unwrap();
    assert!(s.sandbox_pidns.is_some());
    let ns_path = format!("/proc/{}/ns/pid", test_pid);
    assert_eq!(s.sandbox_pidns.unwrap(), ns_path);
}

#[test]
fn a_container_without_init_shares_no_pid_namespace() {
    let mut s = Sandbox::new("ext4");
    let c = create_linuxcontainer();
    assert_eq!(c.init_process_pid, -1);
    let e = s.update_shared_pidns(&c).unwrap_err();
    assert!(!e.message().is_empty());
    assert!(s.sandbox_pidns.is_none());
}

#[test]
fn test_find_container_process() {
    let mut s = Sandbox::new("ext4");
    let cid = "container-123";
    let mut linux_container = create_linuxcontainer();
    linux_container.init_process_pid = 1;
    linux_container.id = cid.to_string();
    // add init process
    linux_container
        .processes
        .insert("1".to_string(), process("1", true, 1));
    // add exec process
    linux_container
        .processes
        .insert("exec-123".to_string(), process("exec-123", false, 123));
    s.add_container(linux_container);

    // empty exec-id will return init process
    let p = s.find_container_process(cid, "").unwrap();
    assert_eq!("1", p.exec_id, "exec_id should be 1");
    assert!(p.init, "init flag should be true");

    // get exist exec-id will return the exec process
    let p = s.find_container_process(cid, "exec-123").unwrap();
    assert_eq!("exec-123", p.exec_id, "exec_id should be exec-123");
    assert!(!p.init, "init flag should be false");

    // get not exist exec-id will return error
    let p = s.find_container_process(cid, "exec-456");
    assert!(matches!(p, Err(SandboxError::InvalidExecId)));

    // container does not exist
    let p = s.find_container_process("not-exist-cid", "");
    assert!(matches!(p, Err(SandboxError::InvalidContainerId)));
}

#[test]
fn a_container_may_lack_its_init_process() {
    let mut s = Sandbox::new("ext4");
    s.add_container(create_linuxcontainer());
    let p = s.find_container_process("some_id", "");
    assert!(matches!(p, Err(SandboxError::InitProcessNotFound)));
}

#[test]
fn test_find_process() {
    for test_pid in [i32::MIN, -1, 0, 1, i32::MAX] {
        let mut s = Sandbox::new("ext4");
        let mut linux_container = create_linuxcontainer();
        let test_process = process("this_is_a_test_process", true, test_pid);
        let test_exec_id = test_process.exec_id.clone();
        linux_container.processes.insert(test_exec_id, test_process);
        s.add_container(linux_container);
        let find_result = s.find_process(test_pid);
        // test first if it finds anything
        assert!(find_result.is_some(), "Should be able to find a process");
        // then test if it founds the correct process
        assert_eq!(find_result.unwrap().pid, test_pid);
    }
    // to test for nonexistent pids, any pid that isn't the one set
    // above should work, as linuxcontainer starts with no processes
    let s = Sandbox::new("ext4");
    assert!(s.find_process(1234).is_none());
}

#[test]
fn a_root_file_system_in_memory_forbids_pivoting() {
    assert!(Sandbox::new(TYPE_ROOTFS).no_pivot_root);
    assert!(!Sandbox::new("ext4").no_pivot_root);
}

#[test]
fn containers_are_found_by_their_name() {
    let mut s = Sandbox::new("ext4");
    let mut c = create_linuxcontainer();
    c.config.container_name = "worker".to_string();
    s.add_container(c);
    assert_eq!(s.find_container_by_name("worker").unwrap().id, "some_id");
    assert!(s.find_container_by_name("other").is_none());
}

fn shared(src: &str, dst: &str) -> SharedMount {
    SharedMount {
        name: "data".to_string(),
        src_ctr: src.to_string(),
        src_path: "/src".to_string(),
        dst_ctr: dst.to_string(),
        dst_path: "/dst".to_string(),
    }
}

fn sandbox_with_source() -> Sandbox {
    let mut s = Sandbox::new("ext4");
    let mut c = create_linuxcontainer();
    c.config.container_name = "source".to_string();
    c.init_process_pid = 77;
    s.add_container(c);
    s
}

#[test]
fn the_table_of_mounts_is_read_by_its_second_field() {
    let table = "tmpfs /src tmpfs rw,relatime 0 0\n";
    assert!(is_mounted(table, "/src"));
    assert!(!is_mounted(table, "/sr"));
    assert!(!is_mounted("", "/src"));
    assert_eq!(mount_table_path(77), "/proc/77/mounts");
}

#[test]
fn a_shared_mount_waits_for_its_source() {
    let s = sandbox_with_source();
    let mounts = vec![shared("source", "dest")];
    let mut run = s.setup_shared_mounts(&mounts);
    assert_eq!(run.todo, vec![(0, 77)]);
    let mut polls = 0;
    let mut seen = vec![];
    while run.phase != MountPhase::Finished && run.phase != MountPhase::Failed {
        seen.push(run.phase);
        let event = match run.phase {
            MountPhase::ReadTable => {
                polls += 1;
                if polls == 1 {
                    MountEvent::Table(String::new(), 0)
                } else {
                    MountEvent::Table("tmpfs /src tmpfs rw 0 0\n".to_string(), 100)
                }
            }
            _ => MountEvent::Done,
        };
        run.step(&mounts, event);
    }
    assert_eq!(run.phase, MountPhase::Finished);
    assert_eq!(polls, 2);
    let entered = seen.iter().position(|p| *p == MountPhase::EnterSource);
    let slept = seen.iter().position(|p| *p == MountPhase::Sleep);
    assert!(slept.unwrap() < entered.unwrap());
}

#[test]
fn a_source_that_never_appears_is_passed_over() {
    let s = sandbox_with_source();
    let mounts = vec![shared("source", "dest")];
    let mut run = s.setup_shared_mounts(&mounts);
    while run.phase != MountPhase::ReadTable {
        run.step(&mounts, MountEvent::Done);
    }
    run.step(
        &mounts,
        MountEvent::Table(String::new(), READY_TIMEOUT_MS),
    );
    assert_eq!(run.phase, MountPhase::Finished);
}

#[test]
fn a_failed_action_ends_the_sharing() {
    let s = sandbox_with_source();
    let mounts = vec![shared("source", "dest")];
    let mut run = s.setup_shared_mounts(&mounts);
    run.step(&mounts, MountEvent::Failed);
    assert_eq!(run.phase, MountPhase::Failed);
}

#[test]
fn mounts_without_a_source_are_left_alone() {
    let s = sandbox_with_source();
    let mounts = vec![shared("nobody", "dest")];
    let run = s.setup_shared_mounts(&mounts);
    assert!(run.todo.is_empty());
    assert_eq!(run.phase, MountPhase::Finished);
}
