//! What requests of the host come to.
use vstd::prelude::*;

use crate::container::ContainerProcess;
use crate::cpu::{vcpus_of, VcpuCount};
use crate::create::{
    acceptable, after_removes, create_run, is_last_use, left_devices, mount_source, refused,
    same_path, CreateState, CreateStep,
};
use crate::device_policy::spec_fault;
use crate::oci::{DeviceType, LinuxCpu, LinuxNamespace, NamespaceType, OciMount};
use crate::process_setup::{candidates, id_steps, IdStep};
use crate::rpc::{
    after_read, device_refusal, lookup_code, pid_path, read_source, shared_as,
    AgentError, CreateContainerRequest, ReadNews, ReadStepView, RpcCode, StreamType,
};
use crate::sandbox::{Sandbox, SandboxError, StorageDevice, StorageState};
use crate::text::{split_on, Sep};

verus! {

/// A creation takes its steps in order, and is done behind the last one.
pub proof fn law_a_creation_takes_its_steps_in_order(outcomes: Seq<bool>)
    requires
        forall|i: int| 0 <= i < outcomes.len() ==> #[trigger] outcomes[i],
    ensures
        create_run(outcomes) == if outcomes.len() == 0 {
            CreateState::Due(CreateStep::AddStorages)
        } else if outcomes.len() == 1 {
            CreateState::Due(CreateStep::Prepare)
        } else if outcomes.len() == 2 {
            CreateState::Due(CreateStep::WriteBundle)
        } else if outcomes.len() == 3 {
            CreateState::Due(CreateStep::Build)
        } else if outcomes.len() == 4 {
            CreateState::Due(CreateStep::Start)
        } else if outcomes.len() == 5 {
            CreateState::Due(CreateStep::Register)
        } else {
            CreateState::Created
        },
    decreases outcomes.len(),
{
    if outcomes.len() > 0 {
        let front = outcomes.drop_last();
        assert forall|i: int| 0 <= i < front.len() implies #[trigger] front[i] by {
            assert(front[i] == outcomes[i]);
        }
        law_a_creation_takes_its_steps_in_order(front);
        assert(outcomes[outcomes.len() - 1]);
    }
}

/// A creation whose step fails is over, but for a failed start, which is undone first: what
/// was started is destroyed, then the storages are given up.
pub proof fn law_a_creation_ends_at_its_first_failure(outcomes: Seq<bool>, k: int)
    requires
        0 <= k < outcomes.len(),
        k < 6,
        forall|i: int| 0 <= i < k ==> #[trigger] outcomes[i],
        !outcomes[k],
    ensures
        create_run(outcomes) == if k == 4 && outcomes.len() == 5 {
            CreateState::Due(CreateStep::Destroy)
        } else if k == 4 && outcomes.len() == 6 {
            CreateState::Due(CreateStep::RemoveResources)
        } else {
            CreateState::Failed
        },
    decreases outcomes.len(),
{
    let front = outcomes.drop_last();
    assert forall|i: int| 0 <= i < k implies #[trigger] front[i] by {
        assert(front[i] == outcomes[i]);
    }
    if k == outcomes.len() - 1 {
        law_a_creation_takes_its_steps_in_order(front);
    } else {
        assert(!front[k]);
        law_a_creation_ends_at_its_first_failure(front, k);
    }
}

/// Which requests for a container are accepted, and with what the others are refused: streams
/// that are passed by descriptor first, then storages, then devices, then the id, and last a
/// missing configuration.
pub proof fn law_which_creations_are_refused(
    req: CreateContainerRequest,
    storages: Result<(), String>,
    id: Result<(), String>,
    e: AgentError,
)
    ensures
        ({
            let passed = req.stdin_port != 0 || req.stdout_port != 0 || req.stderr_port != 0;
            &&& acceptable(req, storages, id) <==> !passed && storages is Ok && device_refusal(req)
                is None && id is Ok && req.oci is Some
            &&& refused(req, storages, id, e) && passed ==> (e matches AgentError::Rpc(r) && r.code
                == RpcCode::InvalidArgument && r.detail@ == "kata-fc: pass-fd IO is unsupported"@)
            &&& refused(req, storages, id, e) && !passed && storages is Err ==> (
            e matches AgentError::Rpc(r) && r.code == RpcCode::InvalidArgument && r.detail@
                == storages->Err_0@)
            &&& refused(req, storages, id, e) && !passed && storages is Ok && device_refusal(req)
                is Some ==> (e matches AgentError::Rpc(r) && r.code == RpcCode::InvalidArgument
                && r.detail@ == device_refusal(req)->0)
            &&& refused(req, storages, id, e) && !passed && storages is Ok && device_refusal(req)
                is None && id is Err ==> (e matches AgentError::Other(s) && s@ == id->Err_0@)
            &&& refused(req, storages, id, e) && !passed && storages is Ok && device_refusal(req)
                is None && id is Ok ==> req.oci is None && (e matches AgentError::Other(s) && s@
                == "EINVAL: Invalid argument"@)
        }),
{
}

/// Devices, shared mounts and block devices of the configuration are refused with one text,
/// and every other fault of the configuration with its own.
pub proof fn law_which_devices_of_a_request_are_refused(req: CreateContainerRequest)
    ensures
        ({
            let raw =
                "kata-fc: raw device passthrough and cross-container shared mounts are unsupported"@;
            let block = req.oci is Some && req.oci->0.linux is Some && req.oci->0.linux->0.devices
                is Some && exists|i: int|
                0 <= i < req.oci->0.linux->0.devices->0@.len() && (
                #[trigger] req.oci->0.linux->0.devices->0@[i]).typ == DeviceType::B;
            device_refusal(req) == if req.devices > 0 || req.shared_mounts > 0 || block {
                Some(raw)
            } else if req.oci is Some && spec_fault(req.oci->0) is Some {
                Some(spec_fault(req.oci->0)->0.text())
            } else {
                None
            }
        }),
{
}

/// A process that is not there is not found, and a container that is not there is a wrong
/// argument.
pub proof fn law_how_a_failed_lookup_is_answered(e: SandboxError)
    ensures
        lookup_code(e) == RpcCode::InvalidArgument <==> e is InvalidContainerId,
        lookup_code(e) == RpcCode::NotFound <==> e is InvalidExecId || e is InitProcessNotFound,
{
}

/// Which stream the host reads: the terminal where there is one; else standard error where it
/// is asked for, and standard output, where that is there.
pub proof fn law_which_stream_is_read(p: ContainerProcess, stdout: bool)
    ensures
        p.term_master is Some ==> read_source(p, stdout) == Some(StreamType::TermMaster),
        p.term_master is None && !stdout ==> read_source(p, stdout) == Some(
            StreamType::ParentStderr,
        ),
        p.term_master is None && stdout && p.parent_stdout is Some ==> read_source(p, stdout)
            == Some(StreamType::ParentStdout),
        p.term_master is None && stdout && p.parent_stdout is None ==> read_source(p, stdout)
            is None,
{
}

/// What is read is answered; a failed read fails; the end of the process leaves half a second
/// for the rest, behind which the answer is empty.
pub proof fn law_what_follows_a_read(news: ReadNews)
    ensures
        after_read(news) == match news {
            ReadNews::Data(d) => ReadStepView::Answer(d@),
            ReadNews::Failed => ReadStepView::Fail,
            ReadNews::Exited => ReadStepView::Drain(500),
            ReadNews::TimedOut => ReadStepView::Answer(Seq::empty()),
        },
{
}

/// A container shares the IPC and the UTS namespace of its sandbox, each its own, and makes a
/// new one where the sandbox has none; its other namespaces stay.
pub proof fn law_which_namespaces_are_shared(a: LinuxNamespace, b: LinuxNamespace, s: Sandbox)
    requires
        shared_as(a, b, s),
    ensures
        b.typ == a.typ,
        a.typ == NamespaceType::Ipc && s.shared_ipcns@.len() > 0 ==> b.path is Some && b.path->0@
            == s.shared_ipcns@,
        a.typ == NamespaceType::Ipc && s.shared_ipcns@.len() == 0 ==> b.path is None,
        a.typ == NamespaceType::Uts && s.shared_utsns@.len() > 0 ==> b.path is Some && b.path->0@
            == s.shared_utsns@,
        a.typ == NamespaceType::Uts && s.shared_utsns@.len() == 0 ==> b.path is None,
        a.typ != NamespaceType::Ipc && a.typ != NamespaceType::Uts ==> b.path == a.path,
{
}

/// A container that shares the pid namespace of its sandbox gets its path; one that does not
/// gets a new one.
pub proof fn law_which_pid_namespace_a_container_gets(s: Sandbox, shared: bool)
    ensures
        !shared ==> pid_path(s, shared) is None,
        shared && s.sandbox_pidns is Some && s.sandbox_pidns->0@.len() > 0 ==> pid_path(s, shared)
            == Some(s.sandbox_pidns->0@),
        shared && s.sandbox_pidns is Some && s.sandbox_pidns->0@.len() == 0 ==> pid_path(s, shared)
            is None,
        shared && s.sandbox_pidns is None ==> pid_path(s, shared) is None,
{
}

/// What is given up adds up: giving up two lists of paths is giving up one behind the other,
/// and the devices that are left are those of the first and then those of the second. One path
/// leaves its device where it was used once and is not shared.
pub proof fn law_what_a_container_leaves_adds_up(
    storages: Map<Seq<char>, StorageState>,
    a: Seq<Seq<char>>,
    b: Seq<Seq<char>>,
    path: Seq<char>,
)
    ensures
        after_removes(storages, a + b) == after_removes(after_removes(storages, a), b),
        left_devices(storages, a + b) == left_devices(storages, a) + left_devices(
            after_removes(storages, a),
            b,
        ),
        left_devices(storages, seq![path]) == if storages.contains_key(path)
            && storages[path].count == 1 && !storages[path].shared {
            seq![storages[path].device]
        } else {
            Seq::<StorageDevice>::empty()
        },
    decreases b.len(),
{
    let one = seq![path];
    assert(one.drop_last() =~= Seq::empty());
    assert(one.last() == path);
    assert(after_removes(storages, one.drop_last()) == storages);
    assert(left_devices(storages, one.drop_last()) =~= Seq::<StorageDevice>::empty());
    if is_last_use(storages, path) {
        assert(left_devices(storages, one) =~= seq![storages[path].device]);
    }
    let mid = after_removes(storages, a);
    if b.len() == 0 {
        assert(a + b =~= a);
        assert(left_devices(storages, a) + left_devices(mid, b) =~= left_devices(storages, a));
    } else {
        let front = b.drop_last();
        law_what_a_container_leaves_adds_up(storages, a, front, path);
        assert((a + b).drop_last() =~= a + front);
        assert((a + b).last() == b.last());
        assert(left_devices(storages, a + b) =~= left_devices(storages, a) + left_devices(mid, b));
    }
}

/// The source of a path is that of the first mount there that has one.
pub proof fn law_the_first_mount_with_a_source_counts(
    mounts: Seq<OciMount>,
    path: Seq<char>,
    i: int,
)
    requires
        0 <= i <= mounts.len(),
        forall|k: int|
            0 <= k < i ==> !(same_path((#[trigger] mounts[k]).destination@, path)
                && mounts[k].source is Some),
        i < mounts.len() ==> same_path(mounts[i].destination@, path) && mounts[i].source is Some,
    ensures
        mount_source(mounts, path) == if i < mounts.len() {
            Some(mounts[i].source->0@)
        } else {
            None
        },
    decreases mounts.len(),
{
    if i > 0 {
        let rest = mounts.skip(1);
        assert(!(same_path(mounts[0].destination@, path) && mounts[0].source is Some));
        assert forall|k: int| 0 <= k < i - 1 implies !(same_path(
            (#[trigger] rest[k]).destination@,
            path,
        ) && rest[k].source is Some) by {
            assert(rest[k] == mounts[k + 1]);
        }
        law_the_first_mount_with_a_source_counts(rest, path, i - 1);
    }
}

/// A change of user keeps the capabilities, sets the group, then the user, restores what the
/// user would lose unless it is the superuser, and keeps them no longer.
pub proof fn law_how_a_user_is_changed(uid: u32, gid: u32)
    ensures
        ({
            let s = id_steps(uid, gid);
            &&& s[0] == IdStep::KeepCapabilities(true)
            &&& s[1] == IdStep::SetGroup(gid)
            &&& s[2] == IdStep::SetUser(uid)
            &&& uid != 0 ==> s.len() == 5 && s[3] == IdStep::ResetEffective
            &&& uid == 0 ==> s.len() == 4
            &&& s.last() == IdStep::KeepCapabilities(false)
        }),
{
}

/// A program is looked for in each directory of the search path, in order.
pub proof fn law_where_a_program_is_looked_for(path: Seq<char>, name: Seq<char>, i: int)
    requires
        0 <= i < split_on(path, Sep::Char(':')).len(),
    ensures
        candidates(path, name).len() == split_on(path, Sep::Char(':')).len(),
        candidates(path, name)[i] == crate::path::joined(
            split_on(path, Sep::Char(':'))[i],
            name,
        ),
{
}

/// How many CPUs limits come to: the ratio of a quota that is not negative and a period that
/// is not 0; else the CPUs of the list; and no number where nothing limits.
pub proof fn law_how_many_cpus_limits_come_to(cpu: LinuxCpu, listed: nat)
    requires
        listed <= usize::MAX,
    ensures
        ({
            let both = cpu.quota is Some && cpu.quota->0 >= 0 && cpu.period is Some
                && cpu.period->0 > 0;
            &&& both ==> vcpus_of(cpu, listed) == Some(
                VcpuCount::Share(cpu.quota->0 as u64, cpu.period->0),
            )
            &&& !both && listed > 0 ==> vcpus_of(cpu, listed) == Some(
                VcpuCount::Whole(listed as usize),
            )
            &&& !both && listed == 0 ==> vcpus_of(cpu, listed) is None
        }),
{
}

/// An answer that refuses a request is about its argument, and quotes the text.
pub proof fn law_what_a_refusal_is(e: crate::rpc::RpcError, text: Seq<char>)
    ensures
        crate::rpc::is_refusal(e, text) <==> e.code == RpcCode::InvalidArgument && e.detail@ == text
            && e.quoted,
{
}

/// A sandbox asks for extensions where it names a kernel module or a hook.
pub proof fn law_which_sandboxes_ask_for_extensions(req: crate::rpc::CreateSandboxRequest)
    ensures
        crate::rpc::asks_for_extensions(req) <==> req.kernel_modules != 0
            || req.guest_hook_path@.len() != 0,
{
}

/// The pid namespace of the sandbox is missing where it is asked for, is not there, and the
/// sandbox has a container already.
pub proof fn law_when_the_pid_namespace_is_missing(s: Sandbox, shared: bool, id: Seq<char>)
    ensures
        !shared || s.sandbox_pidns is Some ==> !crate::rpc::pidns_missing(s, shared),
        shared && s.sandbox_pidns is None && s.containers@.contains_key(id)
            ==> crate::rpc::pidns_missing(s, shared),
        shared && s.sandbox_pidns is None && s.containers@ == Map::<
            Seq<char>,
            crate::container::LinuxContainer,
        >::empty() ==> !crate::rpc::pidns_missing(s, shared),
{
}

/// The namespaces that a container gets: all of the configuration but those for pids, in their
/// order, and one for pids at the end.
pub proof fn law_which_namespaces_a_container_gets(
    a: crate::oci::Linux,
    b: crate::oci::Linux,
    s: Sandbox,
    shared: bool,
    list: Seq<LinuxNamespace>,
    i: int,
)
    requires
        crate::rpc::namespaces_shared(a, b, s, shared),
        a.namespaces is Some,
        !crate::rpc::pidns_missing(s, shared),
        list == a.namespaces->0@,
        forall|k: int| 0 <= k < list.len() ==> (#[trigger] list[k]).typ != NamespaceType::Pid,
        0 <= i < list.len(),
    ensures
        b.namespaces is Some,
        b.namespaces->0@.len() == list.len() + 1,
        shared_as(list[i], b.namespaces->0@[i], s),
        b.namespaces->0@.last().typ == NamespaceType::Pid,
{
    lemma_none_left_out(list);
    assert(crate::rpc::without_pid(list)[i] == list[i]);
    assert(shared_as(crate::rpc::without_pid(list)[i], b.namespaces->0@[i], s));
}

proof fn lemma_none_left_out(list: Seq<LinuxNamespace>)
    requires
        forall|k: int| 0 <= k < list.len() ==> (#[trigger] list[k]).typ != NamespaceType::Pid,
    ensures
        crate::rpc::without_pid(list) == list,
    decreases list.len(),
{
    reveal(Seq::filter);
    if list.len() > 0 {
        let front = list.drop_last();
        assert forall|k: int| 0 <= k < front.len() implies (#[trigger] front[k]).typ
            != NamespaceType::Pid by {
            assert(front[k] == list[k]);
        }
        lemma_none_left_out(front);
        assert(list[list.len() - 1].typ != NamespaceType::Pid);
        assert(front.push(list.last()) =~= list);
    }
}

/// The mounts of a container are those that were noted under its id.
pub proof fn law_which_mounts_are_noted(s: Sandbox, cid: Seq<char>)
    ensures
        s.container_mounts@.contains_key(cid) ==> crate::create::noted_mounts(s, cid)
            == crate::text::views(s.container_mounts@[cid]@),
        !s.container_mounts@.contains_key(cid) ==> crate::create::noted_mounts(s, cid).len() == 0,
{
}

/// The termination log is the source of the mount at the path of the annotation.
pub proof fn law_where_the_termination_log_is(spec: crate::oci::Spec)
    ensures
        ({
            let path = spec.annotation_of("io.kubernetes.container.terminationMessagePath"@);
            &&& path is None || spec.mounts is None ==> crate::create::termination_file(
                spec,
            ) is None
            &&& path is Some && spec.mounts is Some ==> crate::create::termination_file(spec)
                == mount_source(spec.mounts->0@, path->0)
        }),
{
}

/// Two paths are the same where both are absolute or both are not, and their components are
/// the same.
pub proof fn law_which_paths_are_the_same(a: Seq<char>, b: Seq<char>)
    ensures
        same_path(a, b) <==> (a.len() > 0 && a[0] == '/') == (b.len() > 0 && b[0] == '/')
            && crate::path::components(a) == crate::path::components(b),
{
}

/// A filesystem is made where one of the options asks for it, by name.
pub proof fn law_which_storages_get_a_filesystem(options: Seq<String>, i: int)
    ensures
        0 <= i < options.len() && options[i]@ == "create_filesystem"@
            ==> crate::storage::wants_filesystem(options),
        (forall|k: int| 0 <= k < options.len() ==> (#[trigger] options[k])@ != "create_filesystem"@)
            ==> !crate::storage::wants_filesystem(options),
{
}

/// A filesystem is made over what is there, without a journal, without reserved blocks, with
/// few and small inodes, and on the source, which comes last.
pub proof fn law_how_a_filesystem_is_made(source: Seq<char>)
    ensures
        ({
            let a = crate::storage::mkfs_arguments(source);
            &&& a.len() == 10
            &&& a[0] == "-F"@
            &&& a[1] == "-O"@ && a[2] == "^has_journal"@
            &&& a[3] == "-m"@ && a[4] == "0"@
            &&& a[5] == "-i"@ && a[6] == "163840"@
            &&& a[7] == "-I"@ && a[8] == "128"@
            &&& a[9] == source
        }),
{
}

/// An acceptable request goes through the steps of a creation, and any other through none.
pub proof fn law_acceptable_requests_are_carried_out(
    req: crate::rpc::CreateContainerRequest,
    storages: Result<(), String>,
    id: Result<(), String>,
    outcomes: Seq<bool>,
)
    ensures
        crate::create::acceptable(req, storages, id) ==> crate::create::creation(
            req,
            storages,
            id,
            outcomes,
        ) == crate::create::create_run(outcomes),
        !crate::create::acceptable(req, storages, id) ==> crate::create::creation(
            req,
            storages,
            id,
            outcomes,
        ) is Failed,
{
}

} // verus!
