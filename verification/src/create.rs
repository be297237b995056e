//! Creating, starting and removing containers.
use vstd::prelude::*;
use vstd::utf8::{decode_utf8, valid_utf8};

use crate::container::{ContainerProcess, CreateOpts, LinuxContainer};
use crate::oci::Spec;
use crate::path::{components, components_of, is_absolute};
use crate::rpc::{
    device_refusal, is_refusal, sandbox_err_to_ttrpc, setup_bundle, ttrpc_error,
    update_container_namespaces, validate_container_device_features, validate_passfd,
    validate_storage_features, AgentError, Bundle, CreateContainerRequest, Refusal, RpcCode,
    RpcError, CONTAINER_BASE,
};
use crate::sandbox::{
    after_remove, lacks_pid, process_by_pid, runs, NoInitPid, Sandbox, StorageDevice,
    StorageRemoval, StorageState,
};
use crate::text::{chars_eq, chars_of, fields, str_eq, views};

verus! {

/// The annotation that names the termination log of a container.
pub const TERMINATION_PATH_KEY: &'static str = "io.kubernetes.container.terminationMessagePath";

/// The longest termination message.
pub const MAX_TERMINATION_MSG: usize = 4096;

/// The text of the error number for an invalid argument.
pub const EINVAL_TEXT: &'static str = "EINVAL: Invalid argument";

/// The text of the error number for an expired timer.
pub const ETIME_TEXT: &'static str = "ETIME: Timer expired";

fn other<T>(text: &str) -> (r: Result<T, AgentError>)
    ensures
        r matches Err(e) && e.says(text@),
{
    Err(AgentError::Other(text.to_owned()))
}

/// Why a request for a container is refused before anything is done, in the order of
/// the checks. The storages were checked by their handlers, and the id by its rules.
pub open spec fn refused(
    req: CreateContainerRequest,
    storages: Result<(), String>,
    id: Result<(), String>,
    e: AgentError,
) -> bool {
    if req.stdin_port != 0 || req.stdout_port != 0 || req.stderr_port != 0 {
        e matches AgentError::Rpc(r) && is_refusal(r, Refusal::PassFd.text())
    } else if storages is Err {
        e matches AgentError::Rpc(r) && is_refusal(r, storages->Err_0@)
    } else if device_refusal(req) is Some {
        e matches AgentError::Rpc(r) && is_refusal(r, device_refusal(req)->0)
    } else if id is Err {
        e.says(id->Err_0@)
    } else {
        req.oci is None && e.says(EINVAL_TEXT@)
    }
}

/// Whether a request for a container is accepted.
pub open spec fn acceptable(
    req: CreateContainerRequest,
    storages: Result<(), String>,
    id: Result<(), String>,
) -> bool {
    &&& req.stdin_port == 0 && req.stdout_port == 0 && req.stderr_port == 0
    &&& storages is Ok
    &&& device_refusal(req) is None
    &&& id is Ok
    &&& req.oci is Some
}

/// A step of the creation of a container.
#[derive(Clone, Copy, Debug, PartialEq, Eq, Structural)]
pub enum CreateStep {
    /// Mount the storages of the container.
    AddStorages,
    /// Note the mounts, set the namespaces and plan the bundle.
    Prepare,
    /// Mount the root filesystem and write the configuration.
    WriteBundle,
    /// Make the container.
    Build,
    /// Start its process.
    Start,
    /// Add the container to the sandbox.
    Register,
    /// Undo a start: destroy what was started.
    Destroy,
    /// Undo a start: give the storages up.
    RemoveResources,
}

/// Where the creation of a container stands.
#[derive(Clone, Copy, Debug, PartialEq, Eq, Structural)]
pub enum CreateState {
    /// A step is due.
    Due(CreateStep),
    Created,
    /// The creation failed, with the error of the step that failed first.
    Failed,
}

/// What follows a step. Only a failed start is undone, and what becomes of undoing it
/// changes nothing.
pub open spec fn create_after(step: CreateStep, ok: bool) -> CreateState {
    match step {
        CreateStep::Destroy => CreateState::Due(CreateStep::RemoveResources),
        CreateStep::RemoveResources => CreateState::Failed,
        CreateStep::Start => if ok {
            CreateState::Due(CreateStep::Register)
        } else {
            CreateState::Due(CreateStep::Destroy)
        },
        _ => if !ok {
            CreateState::Failed
        } else {
            match step {
                CreateStep::AddStorages => CreateState::Due(CreateStep::Prepare),
                CreateStep::Prepare => CreateState::Due(CreateStep::WriteBundle),
                CreateStep::WriteBundle => CreateState::Due(CreateStep::Build),
                CreateStep::Build => CreateState::Due(CreateStep::Start),
                _ => CreateState::Created,
            }
        },
    }
}

/// Tells what follows a step of the creation of a container.
pub fn do_create_container(step: CreateStep, ok: bool) -> (r: CreateState)
    ensures
        r == create_after(step, ok),
{
    match step {
        CreateStep::Destroy => CreateState::Due(CreateStep::RemoveResources),
        CreateStep::RemoveResources => CreateState::Failed,
        CreateStep::Start => {
            if ok {
                CreateState::Due(CreateStep::Register)
            } else {
                CreateState::Due(CreateStep::Destroy)
            }
        },
        _ => {
            if !ok {
                CreateState::Failed
            } else {
                match step {
                    CreateStep::AddStorages => CreateState::Due(CreateStep::Prepare),
                    CreateStep::Prepare => CreateState::Due(CreateStep::WriteBundle),
                    CreateStep::WriteBundle => CreateState::Due(CreateStep::Build),
                    CreateStep::Build => CreateState::Due(CreateStep::Start),
                    _ => CreateState::Created,
                }
            }
        },
    }
}

/// The state after several outcomes.
pub open spec fn create_run(outcomes: Seq<bool>) -> CreateState
    decreases outcomes.len(),
{
    if outcomes.len() == 0 {
        CreateState::Due(CreateStep::AddStorages)
    } else {
        match create_run(outcomes.drop_last()) {
            CreateState::Due(step) => create_after(step, outcomes.last()),
            done => done,
        }
    }
}

/// Where the creation of a container that is asked for stands after several outcomes.
pub open spec fn creation(
    req: CreateContainerRequest,
    storages: Result<(), String>,
    id: Result<(), String>,
    outcomes: Seq<bool>,
) -> CreateState {
    if acceptable(req, storages, id) {
        create_run(outcomes)
    } else {
        CreateState::Failed
    }
}

/// Checks a request for a container before anything is done, and gives the step that is due
/// first. Of a request that is not acceptable no step is ever due.
pub fn check_create(
    req: &CreateContainerRequest,
    storages: Result<(), String>,
    id: Result<(), String>,
) -> (r: Result<CreateStep, AgentError>)
    ensures
        match r {
            Ok(step) => {
                &&& acceptable(*req, storages, id)
                &&& creation(*req, storages, id, Seq::empty()) == CreateState::Due(step)
            },
            Err(e) => !acceptable(*req, storages, id) && refused(*req, storages, id, e),
        },
{
    if let Err(e) = validate_passfd(req.stdin_port, req.stdout_port, req.stderr_port) {
        return Err(AgentError::Rpc(e));
    }
    if let Err(e) = validate_storage_features(storages) {
        return Err(AgentError::Rpc(e));
    }
    if let Err(e) = validate_container_device_features(req) {
        return Err(AgentError::Rpc(e));
    }
    if let Err(text) = id {
        return Err(AgentError::Other(text));
    }
    if req.oci.is_none() {
        return other(EINVAL_TEXT);
    }
    Ok(CreateStep::AddStorages)
}

/// A request that is refused has no effect: nothing is ever due of it, and it creates
/// nothing. In particular the storages are mounted only for a request that is acceptable.
pub proof fn law_refused_requests_have_no_effect(
    req: CreateContainerRequest,
    storages: Result<(), String>,
    id: Result<(), String>,
    outcomes: Seq<bool>,
)
    ensures
        !acceptable(req, storages, id) ==> creation(req, storages, id, outcomes)
            == CreateState::Failed,
        creation(req, storages, id, outcomes) is Due || creation(req, storages, id, outcomes)
            is Created ==> acceptable(req, storages, id),
{
}

/// Resources are given up exactly where a process was to be started and was not, and a
/// creation whose start failed never succeeds.
pub proof fn law_failed_start_is_undone(outcomes: Seq<bool>)
    ensures
        ({
            let state = create_run(outcomes);
            let n = outcomes.len() as int;
            let started = n >= 5 && forall|i: int| 0 <= i < 4 ==> #[trigger] outcomes[i];
            &&& state == CreateState::Created ==> started && outcomes[4]
            &&& started && !outcomes[4] && n == 5 ==> state == CreateState::Due(CreateStep::Destroy)
            &&& started && !outcomes[4] && n == 6 ==> state == CreateState::Due(
                CreateStep::RemoveResources,
            )
            &&& started && !outcomes[4] && n >= 7 ==> state == CreateState::Failed
            &&& state == CreateState::Due(CreateStep::Destroy) || state == CreateState::Due(
                CreateStep::RemoveResources,
            ) ==> started && !outcomes[4]
        }),
{
    lemma_create_trace(outcomes);
}

/// Where a creation stands after some outcomes, step by step.
spec fn traced(outcomes: Seq<bool>) -> CreateState {
    let n = outcomes.len() as int;
    if n > 0 && !outcomes[0] {
        CreateState::Failed
    } else if n > 1 && !outcomes[1] {
        CreateState::Failed
    } else if n > 2 && !outcomes[2] {
        CreateState::Failed
    } else if n > 3 && !outcomes[3] {
        CreateState::Failed
    } else if n > 4 && !outcomes[4] {
        if n == 5 {
            CreateState::Due(CreateStep::Destroy)
        } else if n == 6 {
            CreateState::Due(CreateStep::RemoveResources)
        } else {
            CreateState::Failed
        }
    } else if n > 5 && !outcomes[5] {
        CreateState::Failed
    } else if n == 0 {
        CreateState::Due(CreateStep::AddStorages)
    } else if n == 1 {
        CreateState::Due(CreateStep::Prepare)
    } else if n == 2 {
        CreateState::Due(CreateStep::WriteBundle)
    } else if n == 3 {
        CreateState::Due(CreateStep::Build)
    } else if n == 4 {
        CreateState::Due(CreateStep::Start)
    } else if n == 5 {
        CreateState::Due(CreateStep::Register)
    } else {
        CreateState::Created
    }
}

proof fn lemma_create_trace(outcomes: Seq<bool>)
    ensures
        create_run(outcomes) == traced(outcomes),
    decreases outcomes.len(),
{
    if outcomes.len() > 0 {
        lemma_create_trace(outcomes.drop_last());
    }
}

/// Prepares a container: notes its mounts, sets its namespaces and plans its bundle. The
/// mounts stay noted where the rest fails.
pub fn prepare_container(
    s: &mut Sandbox,
    cid: &str,
    spec: &mut Spec,
    mounts: Vec<String>,
    shared_pidns: bool,
) -> (r: Result<Bundle, AgentError>)
    ensures
        final(s).container_mounts@ == old(s).container_mounts@.insert(cid@, mounts),
        *final(s) == (Sandbox { container_mounts: final(s).container_mounts, ..*old(s) }),
        match r {
            Ok(b) => {
                &&& old(spec).linux is Some && old(spec).root is Some
                &&& old(spec).linux->0.namespaces is Some ==> !crate::rpc::pidns_missing(
                    *old(s),
                    shared_pidns,
                )
                &&& final(spec).linux is Some
                &&& b.path@ == crate::path::joined(CONTAINER_BASE@, cid@)
                &&& b.rootfs@ == crate::path::joined(b.path@, "rootfs"@)
                &&& b.config@ == crate::path::joined(b.path@, "config.json"@)
                &&& b.source@ == old(spec).root->0.path@
                &&& final(spec).root is Some && final(spec).root->0.path@ == b.rootfs@
                &&& final(spec).root->0.readonly == old(spec).root->0.readonly
                &&& final(spec).process == old(spec).process
                &&& final(spec).mounts == old(spec).mounts
                &&& final(spec).annotations == old(spec).annotations
                &&& final(spec).hostname == old(spec).hostname
                &&& crate::rpc::namespaces_shared(
                    old(spec).linux->0,
                    final(spec).linux->0,
                    *old(s),
                    shared_pidns,
                )
            },
            Err(e) => if old(spec).linux is None {
                e.says("Spec does not contain linux field"@)
            } else if old(spec).linux->0.namespaces is Some && crate::rpc::pidns_missing(
                *old(s),
                shared_pidns,
            ) {
                e.says("Sandbox does not have sandbox_pidns"@)
            } else {
                old(spec).root is None && e.says(EINVAL_TEXT@)
            },
        },
{
    s.container_mounts.insert(cid.to_owned(), mounts);
    if let Err(e) = update_container_namespaces(s, spec, shared_pidns) {
        return Err(AgentError::Other(e.message()));
    }
    match setup_bundle(cid, spec) {
        Ok(b) => Ok(b),
        Err(_) => other(EINVAL_TEXT),
    }
}

/// Makes the container of a request. A configuration without a process is refused once
/// the container was made; it is dropped and nothing else is undone.
pub fn build_container(s: &Sandbox, cid: &str, spec: Spec, name: String) -> (r: Result<
    LinuxContainer,
    AgentError,
>)
    requires
        spec.linux is Some,
    ensures
        match r {
            Ok(c) => {
                &&& spec.process is Some
                &&& c.id@ == cid@
                &&& c.root@ == CONTAINER_BASE@ + "/"@ + cid@
                &&& c.cpath@ == crate::container::cgroup_path_of(
                    match spec.linux->0.cgroups_path {
                        Some(p) => Some(p@),
                        None => None,
                    },
                    cid@,
                )
                &&& c.status.cur_status == crate::container::ContainerState::Created
                &&& c.config.spec == Some(spec)
                &&& c.config.no_pivot_root == s.no_pivot_root
                &&& c.config.container_name == name
                &&& c.init_process_pid == -1
                &&& c.processes@ == Map::<Seq<char>, ContainerProcess>::empty()
            },
            Err(e) => spec.process is None && e.says(EINVAL_TEXT@),
        },
{
    let has_process = spec.process.is_some();
    let opts = CreateOpts {
        no_pivot_root: s.no_pivot_root,
        container_name: name,
        spec: Some(spec),
    };
    let c = LinuxContainer::new(cid.to_owned(), CONTAINER_BASE, opts);
    if !has_process {
        return other(EINVAL_TEXT);
    }
    Ok(c)
}

/// Adds a started container to the sandbox. The first one gives its pid namespace to the
/// sandbox; where it has none, it is not added.
pub fn register_container(s: &mut Sandbox, c: LinuxContainer) -> (r: Result<(), NoInitPid>)
    ensures
        ({
            let first = old(s).sandbox_pidns is None && old(s).containers@ == Map::<
                Seq<char>,
                LinuxContainer,
            >::empty();
            match r {
                Err(_) => first && c.init_process_pid == -1 && *final(s) == *old(s),
                Ok(_) => {
                    &&& first ==> c.init_process_pid != -1
                    &&& final(s).containers@ == old(s).containers@.insert(c.id@, c)
                    &&& if first {
                        final(s).sandbox_pidns is Some && final(s).sandbox_pidns->0@ == "/proc/"@
                            + crate::text::signed_decimal(c.init_process_pid as int) + "/ns/pid"@
                    } else {
                        final(s).sandbox_pidns == old(s).sandbox_pidns
                    }
                    &&& *final(s) == (Sandbox {
                        containers: final(s).containers,
                        sandbox_pidns: final(s).sandbox_pidns,
                        ..*old(s)
                    })
                },
            }
        }),
{
    if let Err(e) = s.update_shared_pidns(&c) {
        return Err(e);
    }
    s.add_container(c);
    Ok(())
}

/// The storages after a container gave up what it used, in order.
pub open spec fn after_removes(
    storages: Map<Seq<char>, StorageState>,
    paths: Seq<Seq<char>>,
) -> Map<Seq<char>, StorageState>
    decreases paths.len(),
{
    if paths.len() == 0 {
        storages
    } else {
        after_remove(after_removes(storages, paths.drop_last()), paths.last())
    }
}

/// Whether giving a storage up takes it along.
pub open spec fn is_last_use(storages: Map<Seq<char>, StorageState>, path: Seq<char>) -> bool {
    storages.contains_key(path) && storages[path].count == 1 && !storages[path].shared
}

/// The devices that a container leaves to be cleaned up, in order.
pub open spec fn left_devices(
    storages: Map<Seq<char>, StorageState>,
    paths: Seq<Seq<char>>,
) -> Seq<StorageDevice>
    decreases paths.len(),
{
    if paths.len() == 0 {
        Seq::empty()
    } else {
        let now = after_removes(storages, paths.drop_last());
        let before = left_devices(storages, paths.drop_last());
        if is_last_use(now, paths.last()) {
            before.push(now[paths.last()].device)
        } else {
            before
        }
    }
}

/// The mounts that are noted for a container.
pub open spec fn noted_mounts(s: Sandbox, cid: Seq<char>) -> Seq<Seq<char>> {
    if s.container_mounts@.contains_key(cid) {
        views(s.container_mounts@[cid]@)
    } else {
        Seq::empty()
    }
}

/// Gives up what a container used and forgets the container. The result are the devices
/// to be cleaned up; storages that others use stay.
pub fn remove_container_resources(s: &mut Sandbox, cid: &str) -> (r: Vec<StorageDevice>)
    ensures
        final(s).storages@ == after_removes(old(s).storages@, noted_mounts(*old(s), cid@)),
        r@ == left_devices(old(s).storages@, noted_mounts(*old(s), cid@)),
        final(s).container_mounts@ == old(s).container_mounts@.remove(cid@),
        final(s).containers@ == old(s).containers@.remove(cid@),
        *final(s) == (Sandbox {
            storages: final(s).storages,
            container_mounts: final(s).container_mounts,
            containers: final(s).containers,
            ..*old(s)
        }),
{
    let ghost before = s.storages@;
    let ghost paths = noted_mounts(*s, cid@);
    let mut devices: Vec<StorageDevice> = Vec::new();
    let taken = s.container_mounts.remove(cid);
    let ghost held = *s;
    if let Some(mounts) = taken {
        let mut i: usize = 0;
        proof {
            assert(paths == views(mounts@));
            assert(paths.take(0) =~= Seq::<Seq<char>>::empty());
        }
        while i < mounts.len()
            invariant
                i <= mounts.len(),
                paths == views(mounts@),
                s.storages@ == after_removes(before, paths.take(i as int)),
                devices@ == left_devices(before, paths.take(i as int)),
                *s == (Sandbox { storages: s.storages, ..held }),
            decreases mounts.len() - i,
        {
            proof {
                assert(paths.take(i + 1).drop_last() =~= paths.take(i as int));
                assert(paths.take(i + 1).last() == mounts@[i as int]@);
            }
            match s.remove_sandbox_storage(mounts[i].as_str()) {
                Ok(StorageRemoval::Removed(d)) => {
                    devices.push(d);
                },
                _ => {},
            }
            i += 1;
        }
        proof {
            assert(paths.take(paths.len() as int) =~= paths);
        }
    } else {
        proof {
            assert(s.container_mounts@ =~= old(s).container_mounts@);
        }
    }
    let _c = s.containers.remove(cid);
    devices
}

/// What is done to start a container.
#[derive(Clone, Copy, Debug, PartialEq, Eq, Structural)]
pub enum StartAction {
    /// Watch its memory first, then release its process.
    WatchAndExec,
    /// Release its process.
    Exec,
}

/// Decides how a container is started: the memory of every container but the one of the
/// sandbox itself is watched.
pub fn do_start_container(s: &Sandbox, cid: &str) -> (r: Result<StartAction, AgentError>)
    ensures
        match r {
            Ok(a) => s.containers@.contains_key(cid@) && a == if s.id@ == cid@ {
                StartAction::Exec
            } else {
                StartAction::WatchAndExec
            },
            Err(e) => !s.containers@.contains_key(cid@) && e.says("Invalid container id"@),
        },
{
    if !s.containers.contains_key(cid) {
        return other("Invalid container id");
    }
    if str_eq(s.id.as_str(), cid) {
        Ok(StartAction::Exec)
    } else {
        Ok(StartAction::WatchAndExec)
    }
}

/// How destroying a container went.
#[derive(Debug)]
pub enum Destroyed {
    Done,
    Failed(String),
    /// It took longer than the request allows.
    TimedOut,
}

/// Ends the removal of a container that was to be destroyed: its resources are given up
/// only once it is destroyed.
pub fn do_remove_container(s: &mut Sandbox, cid: &str, destroyed: Destroyed) -> (r: Result<
    Vec<StorageDevice>,
    AgentError,
>)
    ensures
        match destroyed {
            Destroyed::Done => {
                &&& r is Ok
                &&& r->Ok_0@ == left_devices(old(s).storages@, noted_mounts(*old(s), cid@))
                &&& final(s).storages@ == after_removes(
                    old(s).storages@,
                    noted_mounts(*old(s), cid@),
                )
                &&& final(s).container_mounts@ == old(s).container_mounts@.remove(cid@)
                &&& final(s).containers@ == old(s).containers@.remove(cid@)
                &&& *final(s) == (Sandbox {
                    storages: final(s).storages,
                    container_mounts: final(s).container_mounts,
                    containers: final(s).containers,
                    ..*old(s)
                })
            },
            Destroyed::Failed(text) => r matches Err(e) && e.says(text@) && *final(s) == *old(s),
            Destroyed::TimedOut => r matches Err(e) && e.says(ETIME_TEXT@) && *final(s) == *old(s),
        },
{
    match destroyed {
        Destroyed::Done => Ok(remove_container_resources(s, cid)),
        Destroyed::Failed(text) => Err(AgentError::Other(text)),
        Destroyed::TimedOut => other(ETIME_TEXT),
    }
}

/// Checks a request for another process in a container.
pub fn do_exec_process(
    s: &Sandbox,
    cid: &str,
    ports: (u32, u32, u32),
    has_process: bool,
) -> (r: Result<(), AgentError>)
    ensures
        match r {
            Ok(_) => ports.0 == 0 && ports.1 == 0 && ports.2 == 0 && has_process
                && s.containers@.contains_key(cid@),
            Err(e) => if ports.0 != 0 || ports.1 != 0 || ports.2 != 0 {
                e matches AgentError::Rpc(x) && is_refusal(x, Refusal::PassFd.text())
            } else if !has_process {
                e.says("Unable to parse process from ExecProcessRequest"@)
            } else {
                !s.containers@.contains_key(cid@) && e.says("Invalid container id"@)
            },
        },
{
    if let Err(e) = validate_passfd(ports.0, ports.1, ports.2) {
        return Err(AgentError::Rpc(e));
    }
    if !has_process {
        return other("Unable to parse process from ExecProcessRequest");
    }
    if !s.containers.contains_key(cid) {
        return other("Invalid container id");
    }
    Ok(())
}

/// What waiting for a process comes to.
#[derive(Debug)]
pub enum Reaped {
    /// The process with this id ended with this code, and is forgotten. These descriptors
    /// were its own, and are to be closed.
    Exited(String, i32, Vec<i32>),
    /// Another waiter was first; the exit code comes from it.
    Lost,
}

/// The pid of the process whose end is waited for.
pub fn wait_target(s: &Sandbox, cid: &str, eid: &str) -> (r: Result<i32, RpcError>)
    ensures
        match r {
            Ok(pid) => exists|p: ContainerProcess| #[trigger]
                s.is_process(cid@, eid@, p) && p.pid == pid,
            Err(e) => {
                let why = s.lookup_error(cid@, eid@);
                &&& !s.has_process(cid@, eid@)
                &&& e.code == crate::rpc::lookup_code(why) && e.detail@ == why.name() && !e.quoted
            },
        },
{
    match s.find_container_process(cid, eid) {
        Ok(p) => Ok(p.pid),
        Err(e) => Err(sandbox_err_to_ttrpc(e)),
    }
}

/// Ends a wait: the process with the pid gives its exit code and its descriptors, and its id
/// is taken out of the container. Where it is gone already, another waiter was first.
pub fn reap_process(s: &mut Sandbox, cid: &str, pid: i32) -> (r: Result<Reaped, AgentError>)
    ensures
        *final(s) == (Sandbox { containers: final(s).containers, ..*old(s) }),
        match r {
            Err(e) => !old(s).containers@.contains_key(cid@) && e.says("Invalid container id"@)
                && final(s).containers@ == old(s).containers@,
            Ok(Reaped::Lost) => old(s).containers@.contains_key(cid@) && lacks_pid(
                old(s).containers@[cid@],
                pid,
            ) && final(s).containers@ == old(s).containers@,
            Ok(Reaped::Exited(eid, code, fds)) => {
                let c = old(s).containers@[cid@];
                &&& old(s).containers@.contains_key(cid@)
                &&& exists|p: ContainerProcess| #[trigger]
                    runs(c, p, pid) && p.exec_id@ == eid@ && p.exit_code == code && fds@
                        == p.open_descriptors()
                &&& final(s).containers@.contains_key(cid@)
                &&& final(s).containers@[cid@].processes@ == c.processes@.remove(eid@)
                &&& final(s).containers@ == old(s).containers@.insert(
                    cid@,
                    (LinuxContainer { processes: final(s).containers@[cid@].processes, ..c }),
                )
            },
        },
{
    let ghost before = s.containers@;
    let c = match s.get_container(cid) {
        None => {
            return other("Invalid container id");
        },
        Some(c) => c,
    };
    let ghost was = *c;
    let (eid, code, fds) = match process_by_pid(c, pid) {
        None => {
            proof {
                assert(before.insert(cid@, was) =~= before);
            }
            return Ok(Reaped::Lost);
        },
        Some(p) => (p.exec_id.clone(), p.exit_code, p.descriptors()),
    };
    let _p = c.processes.remove(eid.as_str());
    Ok(Reaped::Exited(eid, code, fds))
}

/// Whether two paths have the same components.
pub open spec fn same_path(a: Seq<char>, b: Seq<char>) -> bool {
    is_absolute(a) == is_absolute(b) && components(a) == components(b)
}

fn paths_equal(a: &str, b: &str) -> (r: bool)
    ensures
        r == same_path(a@, b@),
{
    let x = chars_of(a);
    let y = chars_of(b);
    let rooted = x.len() > 0 && x[0] == '/';
    if rooted != (y.len() > 0 && y[0] == '/') {
        return false;
    }
    let p = components_of(x.as_slice());
    let q = components_of(y.as_slice());
    let ghost cp = fields(p@);
    let ghost cq = fields(q@);
    if p.len() != q.len() {
        proof {
            assert(cp.len() != cq.len());
        }
        return false;
    }
    let mut i: usize = 0;
    while i < p.len()
        invariant
            i <= p.len(),
            p.len() == q.len(),
            cp == fields(p@),
            cq == fields(q@),
            cp == components(a@),
            cq == components(b@),
            forall|k: int| 0 <= k < i ==> cp[k] == cq[k],
        decreases p.len() - i,
    {
        if !chars_eq(p[i].as_slice(), q[i].as_slice()) {
            proof {
                assert(cp[i as int] != cq[i as int]);
            }
            return false;
        }
        i += 1;
    }
    proof {
        assert(cp =~= cq);
    }
    true
}

/// The source of the first mount at a path that has one.
pub open spec fn mount_source(mounts: Seq<crate::oci::OciMount>, path: Seq<char>) -> Option<
    Seq<char>,
>
    decreases mounts.len(),
{
    if mounts.len() == 0 {
        None
    } else if same_path(mounts[0].destination@, path) && mounts[0].source is Some {
        Some(mounts[0].source->0@)
    } else {
        mount_source(mounts.skip(1), path)
    }
}

fn find_mount_source(mounts: &Vec<crate::oci::OciMount>, path: &str) -> (r: Option<String>)
    ensures
        match r {
            Some(s) => mount_source(mounts@, path@) == Some(s@),
            None => mount_source(mounts@, path@) is None,
        },
{
    let mut i: usize = 0;
    proof {
        assert(mounts@.skip(0) =~= mounts@);
    }
    while i < mounts.len()
        invariant
            i <= mounts.len(),
            mount_source(mounts@, path@) == mount_source(mounts@.skip(i as int), path@),
        decreases mounts.len() - i,
    {
        proof {
            assert(mounts@.skip(i as int).skip(1) =~= mounts@.skip(i + 1));
            assert(mounts@.skip(i as int)[0] == mounts@[i as int]);
        }
        if paths_equal(mounts[i].destination.as_str(), path) {
            if let Some(s) = &mounts[i].source {
                return Some(s.clone());
            }
        }
        i += 1;
    }
    None
}

/// Where the termination log of a container stands in the guest: the annotation gives
/// the path within the container, and the mount at that path gives the file.
pub open spec fn termination_file(spec: Spec) -> Option<Seq<char>> {
    match spec.annotation_of(TERMINATION_PATH_KEY@) {
        None => None,
        Some(path) => match spec.mounts {
            None => None,
            Some(m) => mount_source(m@, path),
        },
    }
}

/// Finds the file with the termination log of a container.
pub fn termination_log_path(s: &Sandbox, cid: &str) -> (r: Result<String, AgentError>)
    ensures
        match r {
            Ok(path) => s.containers@.contains_key(cid@) && s.containers@[cid@].config.spec is Some
                && termination_file(s.containers@[cid@].config.spec->0) == Some(path@),
            Err(e) => if !s.containers@.contains_key(cid@) {
                e.says("Invalid container id: "@ + cid@)
            } else {
                match s.containers@[cid@].config.spec {
                    None => e.says("No OCI spec for container "@ + cid@),
                    Some(spec) => termination_file(spec) is None && match spec.annotation_of(
                        TERMINATION_PATH_KEY@,
                    ) {
                        None => e.says("No terminationMessagePath annotation"@),
                        Some(path) => e.says("termination message mount not found for "@ + path),
                    },
                }
            },
        },
{
    let c = match s.containers.get(cid) {
        Some(c) => c,
        None => {
            let mut text = "Invalid container id: ".to_owned();
            text.append(cid);
            return Err(AgentError::Other(text));
        },
    };
    let spec = match &c.config.spec {
        Some(spec) => spec,
        None => {
            let mut text = "No OCI spec for container ".to_owned();
            text.append(cid);
            return Err(AgentError::Other(text));
        },
    };
    let path = match spec.annotation(TERMINATION_PATH_KEY) {
        Some(p) => p,
        None => {
            return other("No terminationMessagePath annotation");
        },
    };
    let found = match &spec.mounts {
        Some(m) => find_mount_source(m, path.as_str()),
        None => None,
    };
    match found {
        Some(f) => Ok(f),
        None => {
            let mut text = "termination message mount not found for ".to_owned();
            text.append(path.as_str());
            Err(AgentError::Other(text))
        },
    }
}

/// The text that `String::from_utf8_lossy` makes of bytes.
pub uninterp spec fn lossy(bytes: Seq<u8>) -> Seq<char>;

/// `String::from_utf8_lossy` gives a text that depends on the bytes alone. Bytes that are
/// valid UTF-8 give the characters that they encode; which characters take the place of
/// invalid bytes is not stated.
#[verifier::external_body]
fn lossy_text(bytes: &Vec<u8>) -> (r: String)
    ensures
        r@ == lossy(bytes@),
        valid_utf8(bytes@) ==> r@ == decode_utf8(bytes@),
{
    String::from_utf8_lossy(bytes).into_owned()
}

/// The message in the bytes of a termination log: at most the given length of it counts,
/// and a log that is not there is empty.
pub fn termination_message(log: Option<Vec<u8>>) -> (r: String)
    ensures
        r@ == match log {
            None => Seq::empty(),
            Some(b) => lossy(
                if b@.len() > MAX_TERMINATION_MSG {
                    b@.take(MAX_TERMINATION_MSG as int)
                } else {
                    b@
                },
            ),
        },
        log matches Some(b) ==> b@.len() <= MAX_TERMINATION_MSG && valid_utf8(b@) ==> r@
            == decode_utf8(b@),
{
    match log {
        None => String::new(),
        Some(mut b) => {
            let ghost all = b@;
            if b.len() > MAX_TERMINATION_MSG {
                b.truncate(MAX_TERMINATION_MSG);
                proof {
                    assert(b@ =~= all.take(MAX_TERMINATION_MSG as int));
                }
            }
            lossy_text(&b)
        },
    }
}

/// The container that a request names.
pub fn named_container<'a>(s: &'a mut Sandbox, cid: &str) -> (r: Result<
    &'a mut LinuxContainer,
    RpcError,
>)
    ensures
        match r {
            Ok(c) => old(s).containers@.contains_key(cid@) && *c == old(s).containers@[cid@]
                && final(s).containers@ == old(s).containers@.insert(cid@, *final(c)),
            Err(e) => !old(s).containers@.contains_key(cid@) && is_refusal(
                e,
                "invalid container id"@,
            ) && final(s).containers@ == old(s).containers@,
        },
        *final(s) == (Sandbox { containers: final(s).containers, ..*old(s) }),
{
    match s.get_container(cid) {
        Some(c) => Ok(c),
        None => Err(ttrpc_error(RpcCode::InvalidArgument, "invalid container id")),
    }
}

/// The terminal whose window is to change its size.
pub fn tty_of(s: &Sandbox, cid: &str, eid: &str) -> (r: Result<i32, RpcError>)
    ensures
        match r {
            Ok(fd) => s.has_process(cid@, eid@) && exists|p: ContainerProcess| #[trigger]
                s.is_process(cid@, eid@, p) && p.term_master == Some(fd),
            Err(e) => if s.has_process(cid@, eid@) {
                &&& exists|p: ContainerProcess| #[trigger]
                    s.is_process(cid@, eid@, p) && p.term_master is None
                &&& e.code == RpcCode::Unavailable && e.detail@ == "no tty"@ && e.quoted
            } else {
                &&& e.code == crate::rpc::lookup_code(s.lookup_error(cid@, eid@))
                &&& e.detail@ == s.lookup_error(cid@, eid@).name() && !e.quoted
            },
        },
{
    match s.find_container_process(cid, eid) {
        Err(e) => Err(sandbox_err_to_ttrpc(e)),
        Ok(p) => match p.term_master {
            Some(fd) => Ok(fd),
            None => Err(ttrpc_error(RpcCode::Unavailable, "no tty")),
        },
    }
}

/// A part of a request that must be there.
pub fn required<T>(part: Option<T>, message: &str) -> (r: Result<T, RpcError>)
    ensures
        match part {
            Some(v) => r == Ok::<T, RpcError>(v),
            None => r matches Err(e) && is_refusal(e, message@),
        },
{
    match part {
        Some(v) => Ok(v),
        None => Err(ttrpc_error(RpcCode::InvalidArgument, message)),
    }
}

/// A storage that no noted mount of a container names is left alone when the container
/// goes.
pub proof fn law_removal_spares_other_storages(
    storages: Map<Seq<char>, StorageState>,
    paths: Seq<Seq<char>>,
    path: Seq<char>,
)
    requires
        storages.contains_key(path),
        !paths.contains(path),
    ensures
        after_removes(storages, paths).contains_key(path),
        after_removes(storages, paths)[path] == storages[path],
    decreases paths.len(),
{
    if paths.len() > 0 {
        assert(paths.last() != path) by {
            assert(paths[paths.len() - 1] == paths.last());
        }
        assert(!paths.drop_last().contains(path)) by {
            if paths.drop_last().contains(path) {
                let i = choose|i: int| 0 <= i < paths.drop_last().len() && paths.drop_last()[i] == path;
                assert(paths[i] == path);
            }
        }
        law_removal_spares_other_storages(storages, paths.drop_last(), path);
    }
}

/// A shared storage stays, with the same device, whatever containers give up.
pub proof fn law_shared_storages_stay(
    storages: Map<Seq<char>, StorageState>,
    paths: Seq<Seq<char>>,
    path: Seq<char>,
)
    requires
        storages.contains_key(path),
        storages[path].shared && storages[path].count >= 1,
    ensures
        ({
            let after = after_removes(storages, paths);
            &&& after.contains_key(path)
            &&& after[path].shared && after[path].count >= 1
            &&& after[path].device == storages[path].device
        }),
    decreases paths.len(),
{
    if paths.len() > 0 {
        law_shared_storages_stay(storages, paths.drop_last(), path);
    }
}

/// A container that took one storage into use and goes leaves the storages as they were.
pub proof fn law_one_use_and_removal_cancel(
    storages: Map<Seq<char>, StorageState>,
    path: Seq<char>,
    fresh: StorageState,
)
    requires
        fresh.count == 1 && !fresh.shared,
        storages.contains_key(path) ==> 0 < storages[path].count < u32::MAX,
    ensures
        after_removes(crate::sandbox::after_add(storages, path, fresh), seq![path]) == storages,
{
    let added = crate::sandbox::after_add(storages, path, fresh);
    crate::sandbox::law_remove_undoes_add(storages, path, fresh);
    assert(seq![path].drop_last() =~= Seq::<Seq<char>>::empty());
    assert(after_removes(added, seq![path].drop_last()) == added);
    assert(seq![path].last() == path);
}

} // verus!
