//! What the init process of a container does, whatever its configuration says.
use vstd::prelude::*;

use super::count::{
    before, followed, led, lemma_followed_add, lemma_led_add, lemma_staged_add,
    lemma_staged_before, once, staged, times,
};
use crate::init_child::{
    accepted_steps, assigned, binds_devices, change_root, created, creates, environment, identity_phase, init_steps,
    join_one, join_steps, judged, known_prefix, launch_phase, limit_phase, mount_join,
    namespace_phase, open_steps, prelude_steps, privilege_phase, rlimit_steps, rootfs_phase,
    user_phase, InitReject, InitStep, NamespaceSet, Outcome, Verdict,
};
use crate::oci::{LinuxNamespace, NamespaceType, Process, Spec};

verus! {

/// The namespaces that a configuration lists.
pub open spec fn listed(spec: Spec) -> Seq<LinuxNamespace> {
    match spec.linux {
        Some(l) => match l.namespaces {
            Some(v) => v@,
            None => Seq::empty(),
        },
        None => Seq::empty(),
    }
}

/// Whether a namespace is there already: it has a path that is not empty.
pub open spec fn is_there(ns: LinuxNamespace) -> bool {
    ns.path matches Some(p) && p@.len() > 0
}

/// Whether a namespace of a type is to be made.
pub open spec fn is_made(list: Seq<LinuxNamespace>, typ: NamespaceType) -> bool {
    exists|k: int| 0 <= k < list.len() && (#[trigger] list[k]).typ == typ && !is_there(list[k])
}

/// Whether a process can be started: the configuration has a process and a Linux section,
/// and no namespace of a type that containers cannot have.
pub open spec fn startable(spec: Spec) -> bool {
    &&& spec.process is Some
    &&& spec.linux is Some
    &&& forall|k: int|
        0 <= k < listed(spec).len() ==> (#[trigger] listed(spec)[k]).typ != NamespaceType::Time
}

proof fn lemma_all_known(list: Seq<LinuxNamespace>)
    ensures
        known_prefix(list) <= list.len(),
        known_prefix(list) == list.len() <==> forall|k: int|
            0 <= k < list.len() ==> (#[trigger] list[k]).typ != NamespaceType::Time,
    decreases list.len(),
{
    if list.len() > 0 {
        let front = list.drop_last();
        lemma_all_known(front);
        if forall|k: int| 0 <= k < list.len() ==> (#[trigger] list[k]).typ != NamespaceType::Time {
            assert forall|k: int| 0 <= k < front.len() implies (#[trigger] front[k]).typ
                != NamespaceType::Time by {
                assert(list[k].typ != NamespaceType::Time);
            }
        }
        if known_prefix(list) == list.len() {
            assert forall|k: int| 0 <= k < list.len() implies (#[trigger] list[k]).typ
                != NamespaceType::Time by {
                if k < front.len() {
                    assert(front[k].typ != NamespaceType::Time);
                }
            }
        }
    }
}

/// The plan of a process that can be started, phase by phase.
proof fn lemma_plan(spec: Spec, process: Process, init: bool, no_pivot: bool)
    requires
        startable(spec),
    ensures
        init_steps(spec, process, init, no_pivot) == accepted_steps(
            spec.process->0,
            listed(spec),
            spec.linux->0.seccomp,
            process,
            init,
            no_pivot,
        ),
        listed(spec).len() <= usize::MAX,
{
    lemma_all_known(listed(spec));
    if let Some(v) = spec.linux->0.namespaces {
        assert(v.len() == v@.len());
    }
}

broadcast proof fn lemma_times_when(cond: bool, step: InitStep, x: InitStep)
    ensures
        #[trigger] times(crate::init_child::when(cond, step), x) == once(cond && step == x),
{
    broadcast use super::count::group_times;

}

#[verifier::opaque]
spec fn open_count(list: Seq<LinuxNamespace>, x: InitStep) -> nat {
    match x {
        InitStep::OpenNamespace(i) => once(i < list.len() && is_there(list[i as int])),
        _ => 0,
    }
}

#[verifier::opaque]
spec fn limit_count(p: Process, list: Seq<LinuxNamespace>, x: InitStep) -> nat {
    match x {
        InitStep::WriteOomScore => once(p.oom_score_adj is Some),
        InitStep::SetRlimit(i) => once(
            i < match p.rlimits {
                Some(v) => v@.len(),
                None => 0,
            },
        ),
        InitStep::SetNonDumpable => once(list.len() > 0),
        _ => 0,
    }
}

#[verifier::opaque]
spec fn user_count(list: Seq<LinuxNamespace>, x: InitStep) -> nat {
    match x {
        InitStep::UnshareUser | InitStep::BecomeRoot => once(
            is_made(list, NamespaceType::User),
        ),
        InitStep::NotifyParent | InitStep::WaitParent => 1,
        _ => 0,
    }
}

#[verifier::opaque]
spec fn join_count(list: Seq<LinuxNamespace>, x: InitStep) -> nat {
    match x {
        InitStep::JoinNamespace(i, t) => once(
            i < list.len() && is_joined(list[i as int]) && list[i as int].typ == t,
        ),
        InitStep::CloseNamespace(i) => once(i < list.len() && is_joined(list[i as int])),
        InitStep::BecomeRoot => joined_users(list),
        _ => 0,
    }
}

#[verifier::opaque]
spec fn namespace_count(list: Seq<LinuxNamespace>, x: InitStep) -> nat {
    match x {
        InitStep::Unshare(set) => once(
            is_left(set, list),
        ),
        InitStep::QuerySelinux | InitStep::UnshareCgroup => 1,
        _ => join_count(list, x),
    }
}

#[verifier::opaque]
spec fn rootfs_count(list: Seq<LinuxNamespace>, no_pivot: bool, x: InitStep) -> nat {
    match x {
        InitStep::SetHostname => once(is_made(list, NamespaceType::Uts)),
        InitStep::ResolveRootfs => 1,
        InitStep::InitRootfs(bind) => once(
            is_made(list, NamespaceType::Mount) && bind == exists|k: int|
                0 <= k < list.len() && (#[trigger] list[k]).typ == NamespaceType::User,
        ),
        InitStep::JoinMountNamespace(i) => once(is_mount_to_join(list, i as int)),
        InitStep::MoveRoot => once(is_made(list, NamespaceType::Mount) && no_pivot),
        InitStep::PivotRoot => once(is_made(list, NamespaceType::Mount) && !no_pivot),
        InitStep::SetSysctls | InitStep::ChdirRoot | InitStep::FinishRootfs => once(
            is_made(list, NamespaceType::Mount),
        ),
        _ => 0,
    }
}

#[verifier::opaque]
spec fn identity_count(process: Process, x: InitStep) -> nat {
    match x {
        InitStep::Chdir => once(process.cwd@.len() > 0),
        InitStep::VerifyCwd | InitStep::NewSession | InitStep::SetUser => 1,
        InitStep::FixStdioOwner => once(process.user.uid != 0),
        InitStep::SetGroups => once(process.user.additional_gids is Some),
        _ => 0,
    }
}

#[verifier::opaque]
spec fn last_count(process: Process, seccomp: bool, init: bool, x: InitStep) -> nat {
    match x {
        InitStep::SetNoNewPrivileges => once(process.no_new_privileges == Some(true)),
        InitStep::SetSelinuxLabel => once(
            process.selinux_label matches Some(l) && l@.len() > 0,
        ),
        InitStep::RestrictBounding | InitStep::DropCapabilities => once(
            process.capabilities is Some,
        ),
        InitStep::InstallSeccomp => once(seccomp),
        InitStep::TakeFifo | InitStep::WaitExecFifo => once(init),
        InitStep::ControlTerminal => once(process.terminal == Some(true)),
        InitStep::ResetEnvironment
        | InitStep::SetEnvironment
        | InitStep::FindProgram
        | InitStep::NotifyParent
        | InitStep::ClosePipes
        | InitStep::Exec => 1,
        _ => 0,
    }
}

proof fn lemma_open_times(list: Seq<LinuxNamespace>, x: InitStep)
    requires
        list.len() <= usize::MAX,
    ensures
        times(open_steps(list), x) == open_count(list, x),
    decreases list.len(),
{
    reveal(open_count);
    broadcast use super::count::group_times;
    broadcast use lemma_times_when;

    if list.len() > 0 {
        lemma_open_times(list.drop_last(), x);
    }
}

proof fn lemma_rlimit_times(n: nat, x: InitStep)
    requires
        n <= usize::MAX,
    ensures
        times(rlimit_steps(n), x) == match x {
            InitStep::SetRlimit(i) => once(i < n),
            _ => 0,
        },
    decreases n,
{
    broadcast use super::count::group_times;

    if n > 0 {
        lemma_rlimit_times((n - 1) as nat, x);
        assert(rlimit_steps(n) =~= rlimit_steps((n - 1) as nat).push(
            InitStep::SetRlimit((n - 1) as usize),
        ));
    } else {
        assert(rlimit_steps(n) =~= Seq::<InitStep>::empty());
    }
}

/// Whether the child itself joins a namespace in its turn.
pub open spec fn is_joined(ns: LinuxNamespace) -> bool {
    is_there(ns) && ns.typ != NamespaceType::Pid && ns.typ != NamespaceType::Mount
}

/// How many user namespaces are joined.
pub open spec fn joined_users(list: Seq<LinuxNamespace>) -> nat
    decreases list.len(),
{
    if list.len() == 0 {
        0
    } else {
        joined_users(list.drop_last()) + once(
            list.last().typ == NamespaceType::User && is_there(list.last()),
        )
    }
}

proof fn lemma_join_times(list: Seq<LinuxNamespace>, x: InitStep)
    requires
        list.len() <= usize::MAX,
    ensures
        times(join_steps(list), x) == join_count(list, x),
    decreases list.len(),
{
    reveal(join_count);
    broadcast use super::count::group_times;
    broadcast use lemma_times_when;

    if list.len() > 0 {
        lemma_join_times(list.drop_last(), x);
        let i = (list.len() - 1) as usize;
        super::count::lemma_times_two(
            InitStep::JoinNamespace(i, list.last().typ),
            InitStep::CloseNamespace(i),
            x,
        );
    }
}

/// Whether a set holds just the types of the namespaces to make, but for the user type,
/// which comes earlier, and the pid type, which the parent has seen to.
pub open spec fn is_left(set: NamespaceSet, list: Seq<LinuxNamespace>) -> bool {
    forall|t: NamespaceType| #[trigger]
        set.contains(t) <==> (t != NamespaceType::User && t != NamespaceType::Pid && t
            != NamespaceType::Time && is_made(list, t))
}

proof fn lemma_set(set: NamespaceSet, list: Seq<LinuxNamespace>)
    ensures
        set == created(list).minus_user() <==> is_left(set, list),
{
    let made = created(list).minus_user();
    assert forall|t: NamespaceType| #[trigger] is_made(list, t) == creates(list, t) by {
        if is_made(list, t) {
            let k = choose|k: int|
                0 <= k < list.len() && (#[trigger] list[k]).typ == t && !is_there(list[k]);
            assert(list[k].typ == t && !list[k].joins());
        }
        if creates(list, t) {
            let k = choose|k: int|
                0 <= k < list.len() && (#[trigger] list[k]).typ == t && !list[k].joins();
            assert(list[k].typ == t && !is_there(list[k]));
        }
    }
    assert forall|t: NamespaceType| #[trigger] made.contains(t) <==> (t != NamespaceType::User && t
        != NamespaceType::Pid && t != NamespaceType::Time && is_made(list, t)) by {
        assert(is_made(list, t) == creates(list, t));
    }
    if is_left(set, list) {
        assert(set.contains(NamespaceType::Mount) == made.contains(NamespaceType::Mount));
        assert(set.contains(NamespaceType::Cgroup) == made.contains(NamespaceType::Cgroup));
        assert(set.contains(NamespaceType::Uts) == made.contains(NamespaceType::Uts));
        assert(set.contains(NamespaceType::Ipc) == made.contains(NamespaceType::Ipc));
        assert(set.contains(NamespaceType::User) == made.contains(NamespaceType::User));
        assert(set.contains(NamespaceType::Network) == made.contains(NamespaceType::Network));
    }
}

proof fn lemma_made(list: Seq<LinuxNamespace>, t: NamespaceType)
    ensures
        creates(list, t) == is_made(list, t),
{
    if is_made(list, t) {
        let k = choose|k: int|
            0 <= k < list.len() && (#[trigger] list[k]).typ == t && !is_there(list[k]);
        assert(list[k].typ == t && !list[k].joins());
    }
    if creates(list, t) {
        let k = choose|k: int|
            0 <= k < list.len() && (#[trigger] list[k]).typ == t && !list[k].joins();
        assert(list[k].typ == t && !is_there(list[k]));
    }
}

/// Whether a namespace is the mount namespace to join: the last one that is there.
pub open spec fn is_mount_to_join(list: Seq<LinuxNamespace>, i: int) -> bool {
    &&& 0 <= i < list.len()
    &&& list[i].typ == NamespaceType::Mount && is_there(list[i])
    &&& forall|k: int|
        i < k < list.len() ==> !((#[trigger] list[k]).typ == NamespaceType::Mount && is_there(
            list[k],
        ))
}

proof fn lemma_mount_join(list: Seq<LinuxNamespace>)
    requires
        list.len() <= usize::MAX,
    ensures
        forall|i: usize| #![auto] mount_join(list) == Some(i) <==> is_mount_to_join(list, i as int),
    decreases list.len(),
{
    if list.len() > 0 {
        let front = list.drop_last();
        lemma_mount_join(front);
        assert forall|i: usize| #![auto]
            mount_join(list) == Some(i) <==> is_mount_to_join(list, i as int) by {
            assert(mount_join(front) == Some(i) <==> is_mount_to_join(front, i as int));
            if list.last().typ == NamespaceType::Mount && is_there(list.last()) {
                if is_mount_to_join(list, i as int) {
                    assert(list[list.len() - 1] == list.last());
                }
            } else {
                if is_mount_to_join(front, i as int) {
                    assert forall|k: int| i < k < list.len() implies !((#[trigger] list[k]).typ
                        == NamespaceType::Mount && is_there(list[k])) by {
                        if k < front.len() {
                            assert(list[k] == front[k]);
                        }
                    }
                }
                if is_mount_to_join(list, i as int) {
                    assert(i < front.len());
                    assert(list[i as int] == front[i as int]);
                    assert forall|k: int| i < k < front.len() implies !((#[trigger] front[k]).typ
                        == NamespaceType::Mount && is_there(front[k])) by {
                        assert(list[k] == front[k]);
                    }
                }
            }
        }
    }
}

/// How often each step of a plan is taken, for every configuration that can be started and
/// every process: what is asked for is done, once, and nothing else is.
pub proof fn law_each_step_is_taken_when_it_is_asked_for(
    spec: Spec,
    process: Process,
    init: bool,
    no_pivot: bool,
)
    requires
        startable(spec),
    ensures
        ({
            let s = init_steps(spec, process, init, no_pivot);
            let list = listed(spec);
            let p = spec.process->0;
            let limits = match p.rlimits {
                Some(v) => v@.len(),
                None => 0,
            };
            let locked = process.no_new_privileges == Some(true);
            let mount = is_made(list, NamespaceType::Mount);
            let user = is_made(list, NamespaceType::User);
            &&& forall|i: usize|
                #[trigger] times(s, InitStep::OpenNamespace(i)) == once(
                    i < list.len() && is_there(list[i as int]),
                )
            &&& times(s, InitStep::WriteOomScore) == once(p.oom_score_adj is Some)
            &&& forall|i: usize| #[trigger] times(s, InitStep::SetRlimit(i)) == once(i < limits)
            &&& times(s, InitStep::SetNonDumpable) == once(list.len() > 0)
            &&& times(s, InitStep::UnshareUser) == once(user)
            &&& times(s, InitStep::NotifyParent) == 2
            &&& times(s, InitStep::WaitParent) == 1
            &&& times(s, InitStep::BecomeRoot) == once(user) + joined_users(list)
            &&& forall|i: usize, t: NamespaceType|
                #[trigger] times(s, InitStep::JoinNamespace(i, t)) == once(
                    i < list.len() && is_joined(list[i as int]) && list[i as int].typ == t,
                )
            &&& forall|i: usize|
                #[trigger] times(s, InitStep::CloseNamespace(i)) == once(
                    i < list.len() && is_joined(list[i as int]),
                )
            &&& times(s, InitStep::QuerySelinux) == 1
            &&& forall|set: NamespaceSet|
                #[trigger] times(s, InitStep::Unshare(set)) == once(
                    is_left(set, list),
                )
            &&& times(s, InitStep::UnshareCgroup) == 1
            &&& times(s, InitStep::SetHostname) == once(is_made(list, NamespaceType::Uts))
            &&& times(s, InitStep::ResolveRootfs) == 1
            &&& forall|bind: bool|
                #[trigger] times(s, InitStep::InitRootfs(bind)) == once(
                    mount && bind == exists|k: int|
                        0 <= k < list.len() && (#[trigger] list[k]).typ == NamespaceType::User,
                )
            &&& forall|i: usize|
                #[trigger] times(s, InitStep::JoinMountNamespace(i)) == once(
                    is_mount_to_join(list, i as int),
                )
            &&& times(s, InitStep::MoveRoot) == once(mount && no_pivot)
            &&& times(s, InitStep::PivotRoot) == once(mount && !no_pivot)
            &&& times(s, InitStep::SetSysctls) == once(mount)
            &&& times(s, InitStep::ChdirRoot) == once(mount)
            &&& times(s, InitStep::FinishRootfs) == once(mount)
            &&& times(s, InitStep::Chdir) == once(process.cwd@.len() > 0)
            &&& times(s, InitStep::VerifyCwd) == 1
            &&& times(s, InitStep::NewSession) == 1
            &&& times(s, InitStep::FixStdioOwner) == once(process.user.uid != 0)
            &&& times(s, InitStep::SetUser) == 1
            &&& times(s, InitStep::SetGroups) == once(process.user.additional_gids is Some)
            &&& times(s, InitStep::SetNoNewPrivileges) == once(locked)
            &&& times(s, InitStep::SetSelinuxLabel) == once(
                process.selinux_label matches Some(l) && l@.len() > 0,
            )
            &&& times(s, InitStep::RestrictBounding) == once(process.capabilities is Some)
            &&& times(s, InitStep::InstallSeccomp) == once(spec.linux->0.seccomp)
            &&& times(s, InitStep::DropCapabilities) == once(process.capabilities is Some)
            &&& times(s, InitStep::TakeFifo) == once(init)
            &&& times(s, InitStep::ResetEnvironment) == 1
            &&& times(s, InitStep::SetEnvironment) == 1
            &&& times(s, InitStep::FindProgram) == 1
            &&& times(s, InitStep::ClosePipes) == 1
            &&& times(s, InitStep::ControlTerminal) == once(process.terminal == Some(true))
            &&& times(s, InitStep::WaitExecFifo) == once(init)
            &&& times(s, InitStep::Exec) == 1
            &&& times(s, InitStep::JoinPidNamespace) == 0
            &&& times(s, InitStep::CreatePidNamespace) == 0
            &&& times(s, InitStep::Fork) == 0
            &&& times(s, InitStep::ReadSpec) == 0
            &&& times(s, InitStep::ReadProcess) == 0
            &&& forall|r: InitReject|
                #[trigger] times(s, InitStep::Reject(r)) == 0
        }),
{
    reveal(step_count);
    lemma_plan(spec, process, init, no_pivot);
    let s = init_steps(spec, process, init, no_pivot);
    assert forall|x: InitStep| #[trigger]
        times(s, x) == step_count(
            spec.process->0,
            listed(spec),
            spec.linux->0.seccomp,
            process,
            init,
            no_pivot,
            x,
        ) by {
        lemma_step_count(
            spec.process->0,
            listed(spec),
            spec.linux->0.seccomp,
            process,
            init,
            no_pivot,
            x,
        );
    }
}

/// How often a step is taken.
#[verifier::opaque]
spec fn step_count(
    p: Process,
    list: Seq<LinuxNamespace>,
    seccomp: bool,
    process: Process,
    init: bool,
    no_pivot: bool,
    x: InitStep,
) -> nat {
    let mount = is_made(list, NamespaceType::Mount);
    let user = is_made(list, NamespaceType::User);
    match x {
        InitStep::OpenNamespace(i) => once(i < list.len() && is_there(list[i as int])),
        InitStep::WriteOomScore => once(p.oom_score_adj is Some),
        InitStep::SetRlimit(i) => once(
            i < match p.rlimits {
                Some(v) => v@.len(),
                None => 0,
            },
        ),
        InitStep::SetNonDumpable => once(list.len() > 0),
        InitStep::UnshareUser => once(user),
        InitStep::NotifyParent => 2,
        InitStep::BecomeRoot => once(user) + joined_users(list),
        InitStep::JoinNamespace(i, t) => once(
            i < list.len() && is_joined(list[i as int]) && list[i as int].typ == t,
        ),
        InitStep::CloseNamespace(i) => once(i < list.len() && is_joined(list[i as int])),
        InitStep::Unshare(set) => once(
            is_left(set, list),
        ),
        InitStep::SetHostname => once(is_made(list, NamespaceType::Uts)),
        InitStep::InitRootfs(bind) => once(
            mount && bind == exists|k: int|
                0 <= k < list.len() && (#[trigger] list[k]).typ == NamespaceType::User,
        ),
        InitStep::JoinMountNamespace(i) => once(is_mount_to_join(list, i as int)),
        InitStep::MoveRoot => once(mount && no_pivot),
        InitStep::PivotRoot => once(mount && !no_pivot),
        InitStep::SetSysctls | InitStep::ChdirRoot | InitStep::FinishRootfs => once(mount),
        InitStep::Chdir => once(process.cwd@.len() > 0),
        InitStep::FixStdioOwner => once(process.user.uid != 0),
        InitStep::SetGroups => once(process.user.additional_gids is Some),
        InitStep::SetNoNewPrivileges => once(process.no_new_privileges == Some(true)),
        InitStep::SetSelinuxLabel => once(process.selinux_label matches Some(l) && l@.len() > 0),
        InitStep::RestrictBounding | InitStep::DropCapabilities => once(
            process.capabilities is Some,
        ),
        InitStep::InstallSeccomp => once(seccomp),
        InitStep::TakeFifo | InitStep::WaitExecFifo => once(init),
        InitStep::ControlTerminal => once(process.terminal == Some(true)),
        InitStep::WaitParent
        | InitStep::QuerySelinux
        | InitStep::UnshareCgroup
        | InitStep::ResolveRootfs
        | InitStep::VerifyCwd
        | InitStep::NewSession
        | InitStep::SetUser
        | InitStep::ResetEnvironment
        | InitStep::SetEnvironment
        | InitStep::FindProgram
        | InitStep::ClosePipes
        | InitStep::Exec => 1,
        InitStep::JoinPidNamespace
        | InitStep::CreatePidNamespace
        | InitStep::Fork
        | InitStep::ReadSpec
        | InitStep::ReadProcess
        | InitStep::Reject(_) => 0,
    }
}

proof fn lemma_early_count(p: Process, list: Seq<LinuxNamespace>, x: InitStep)
    requires
        list.len() <= usize::MAX,
    ensures
        times(limit_phase(p, list.len()), x) == limit_count(p, list, x),
        times(user_phase(created(list).user), x) == user_count(list, x),
{
    reveal(limit_count);
    reveal(user_count);
    broadcast use super::count::group_times;
    broadcast use lemma_times_when;

    let n = crate::init_child::rlimit_count(p);
    if let Some(v) = p.rlimits {
        assert(v.len() == v@.len());
    }
    lemma_rlimit_times(n, x);
    lemma_made(list, NamespaceType::User);
    super::count::lemma_times_two(InitStep::NotifyParent, InitStep::WaitParent, x);
}

proof fn lemma_middle_count(list: Seq<LinuxNamespace>, no_pivot: bool, x: InitStep)
    requires
        list.len() <= usize::MAX,
    ensures
        times(namespace_phase(list), x) == namespace_count(list, x),
        times(rootfs_phase(list, no_pivot), x) == rootfs_count(list, no_pivot, x),
{
    reveal(namespace_count);
    reveal(join_count);
    reveal(rootfs_count);
    broadcast use super::count::group_times;
    broadcast use lemma_times_when;

    lemma_join_times(list, x);
    super::count::lemma_times_three(
        InitStep::QuerySelinux,
        InitStep::Unshare(created(list).minus_user()),
        InitStep::UnshareCgroup,
        x,
    );
    super::count::lemma_times_four(
        if no_pivot {
            InitStep::MoveRoot
        } else {
            InitStep::PivotRoot
        },
        InitStep::SetSysctls,
        InitStep::ChdirRoot,
        InitStep::FinishRootfs,
        x,
    );
    lemma_made(list, NamespaceType::Uts);
    lemma_made(list, NamespaceType::Mount);
    lemma_mount_join(list);
    if let InitStep::Unshare(set) = x {
        lemma_set(set, list);
    }
    if let InitStep::JoinMountNamespace(i) = x {
        assert(mount_join(list) == Some(i) <==> is_mount_to_join(list, i as int));
    }
}

proof fn lemma_late_count(process: Process, seccomp: bool, init: bool, x: InitStep)
    ensures
        times(identity_phase(process), x) == identity_count(process, x),
        times(privilege_phase(process, seccomp), x) + times(
            launch_phase(process, seccomp, init),
            x,
        ) == last_count(process, seccomp, init, x),
{
    reveal(identity_count);
    reveal(last_count);
    broadcast use super::count::group_times;
    broadcast use lemma_times_when;

    super::count::lemma_times_two(InitStep::VerifyCwd, InitStep::NewSession, x);
    super::count::lemma_times_five(
        InitStep::ResetEnvironment,
        InitStep::SetEnvironment,
        InitStep::FindProgram,
        InitStep::NotifyParent,
        InitStep::ClosePipes,
        x,
    );
}

proof fn lemma_counts_add_up(
    p: Process,
    list: Seq<LinuxNamespace>,
    seccomp: bool,
    process: Process,
    init: bool,
    no_pivot: bool,
    x: InitStep,
)
    ensures
        open_count(list, x) + limit_count(p, list, x) + user_count(list, x) + namespace_count(
            list,
            x,
        ) + rootfs_count(list, no_pivot, x) + identity_count(process, x) + last_count(
            process,
            seccomp,
            init,
            x,
        ) == step_count(p, list, seccomp, process, init, no_pivot, x),
{
    reveal(open_count);
    reveal(limit_count);
    reveal(user_count);
    reveal(join_count);
    reveal(namespace_count);
    reveal(rootfs_count);
    reveal(identity_count);
    reveal(last_count);
    reveal(step_count);
}

proof fn lemma_step_count(
    p: Process,
    list: Seq<LinuxNamespace>,
    seccomp: bool,
    process: Process,
    init: bool,
    no_pivot: bool,
    x: InitStep,
)
    requires
        list.len() <= usize::MAX,
    ensures
        times(accepted_steps(p, list, seccomp, process, init, no_pivot), x) == step_count(
            p,
            list,
            seccomp,
            process,
            init,
            no_pivot,
            x,
        ),
{
    lemma_open_times(list, x);
    lemma_early_count(p, list, x);
    lemma_join_times(list, x);
    lemma_middle_count(list, no_pivot, x);
    lemma_counts_add_up(p, list, seccomp, process, init, no_pivot, x);
    lemma_late_count(process, seccomp, init, x);
    lemma_eight(
        open_steps(list),
        limit_phase(p, list.len()),
        user_phase(created(list).user),
        namespace_phase(list),
        rootfs_phase(list, no_pivot),
        identity_phase(process),
        privilege_phase(process, seccomp),
        launch_phase(process, seccomp, init),
        x,
    );
}

proof fn lemma_eight(
    a: Seq<InitStep>,
    b: Seq<InitStep>,
    c: Seq<InitStep>,
    d: Seq<InitStep>,
    e: Seq<InitStep>,
    f: Seq<InitStep>,
    g: Seq<InitStep>,
    h: Seq<InitStep>,
    x: InitStep,
)
    ensures
        times(a + b + c + d + e + f + g + h, x) == times(a, x) + times(b, x) + times(c, x) + times(
            d,
            x,
        ) + times(e, x) + times(f, x) + times(g, x) + times(h, x),
{
    broadcast use super::count::group_times;

}

/// A place in the order of the steps: a stage, and a number within it.
pub open spec fn at(stage: int, i: int) -> int {
    stage * 0x1_0000_0000_0000_0000 + i
}

/// The stage of a step. The filter goes in last where no new privileges can be had, and in
/// front of the loss of the capabilities elsewhere. The messages to the parent and the steps
/// to user 0 have no stage of their own.
pub open spec fn stage_of(step: InitStep, locked: bool) -> Option<int> {
    match step {
        InitStep::OpenNamespace(i) => Some(at(0, i as int)),
        InitStep::SetRlimit(i) => Some(at(2, i as int)),
        InitStep::JoinNamespace(i, _) => Some(at(6, i as int)),
        InitStep::CloseNamespace(i) => Some(at(6, i as int)),
        InitStep::WriteOomScore => Some(at(1, 0)),
        InitStep::SetNonDumpable => Some(at(3, 0)),
        InitStep::UnshareUser => Some(at(4, 0)),
        InitStep::WaitParent => Some(at(5, 0)),
        InitStep::QuerySelinux => Some(at(7, 0)),
        InitStep::Unshare(_) => Some(at(8, 0)),
        InitStep::UnshareCgroup => Some(at(9, 0)),
        InitStep::SetHostname => Some(at(10, 0)),
        InitStep::ResolveRootfs => Some(at(11, 0)),
        InitStep::InitRootfs(_) => Some(at(12, 0)),
        InitStep::JoinMountNamespace(_) => Some(at(13, 0)),
        InitStep::MoveRoot => Some(at(14, 0)),
        InitStep::PivotRoot => Some(at(14, 0)),
        InitStep::SetSysctls => Some(at(15, 0)),
        InitStep::ChdirRoot => Some(at(16, 0)),
        InitStep::FinishRootfs => Some(at(17, 0)),
        InitStep::Chdir => Some(at(18, 0)),
        InitStep::VerifyCwd => Some(at(19, 0)),
        InitStep::NewSession => Some(at(20, 0)),
        InitStep::FixStdioOwner => Some(at(21, 0)),
        InitStep::SetUser => Some(at(22, 0)),
        InitStep::SetGroups => Some(at(23, 0)),
        InitStep::SetNoNewPrivileges => Some(at(24, 0)),
        InitStep::SetSelinuxLabel => Some(at(25, 0)),
        InitStep::RestrictBounding => Some(at(26, 0)),
        InitStep::DropCapabilities => Some(at(28, 0)),
        InitStep::TakeFifo => Some(at(29, 0)),
        InitStep::ResetEnvironment => Some(at(30, 0)),
        InitStep::SetEnvironment => Some(at(31, 0)),
        InitStep::FindProgram => Some(at(32, 0)),
        InitStep::ClosePipes => Some(at(33, 0)),
        InitStep::ControlTerminal => Some(at(34, 0)),
        InitStep::WaitExecFifo => Some(at(35, 0)),
        InitStep::Exec => Some(at(37, 0)),
        InitStep::InstallSeccomp => Some(
            at(
                if locked {
                    36
                } else {
                    27
                },
                0,
            ),
        ),
        _ => None,
    }
}

/// The stages, for a process.
pub open spec fn stages(locked: bool) -> spec_fn(InitStep) -> Option<int> {
    |step: InitStep| stage_of(step, locked)
}

proof fn lemma_staged_when(cond: bool, step: InitStep, locked: bool, lo: int, hi: int)
    requires
        stage_of(step, locked) matches Some(k) ==> lo <= k < hi,
    ensures
        staged(crate::init_child::when(cond, step), stages(locked), lo, hi),
{
}

proof fn lemma_open_staged(list: Seq<LinuxNamespace>, locked: bool)
    requires
        list.len() <= usize::MAX,
    ensures
        staged(open_steps(list), stages(locked), 0, list.len() as int),
    decreases list.len(),
{
    if list.len() > 0 {
        lemma_open_staged(list.drop_last(), locked);
        let step = InitStep::OpenNamespace((list.len() - 1) as usize);
        lemma_staged_when(list.last().joins(), step, locked, list.len() - 1, list.len() as int);
        lemma_staged_add(
            open_steps(list.drop_last()),
            crate::init_child::when(list.last().joins(), step),
            stages(locked),
            0,
            list.len() - 1,
            list.len() as int,
        );
    }
}

proof fn lemma_join_staged(list: Seq<LinuxNamespace>, locked: bool)
    requires
        list.len() <= usize::MAX,
    ensures
        staged(join_steps(list), stages(locked), at(6, 0), at(6, list.len() as int)),
    decreases list.len(),
{
    if list.len() > 0 {
        lemma_join_staged(list.drop_last(), locked);
        lemma_staged_add(
            join_steps(list.drop_last()),
            join_one(list.len() - 1, list.last()),
            stages(locked),
            at(6, 0),
            at(6, list.len() - 1),
            at(6, list.len() as int),
        );
    }
}

proof fn lemma_limit_staged(p: Process, n: nat, locked: bool)
    ensures
        staged(limit_phase(p, n), stages(locked), at(1, 0), at(4, 0)),
{
    if let Some(v) = p.rlimits {
        assert(v.len() == v@.len());
    }
    let st = stages(locked);
    let p0 = crate::init_child::when(p.oom_score_adj is Some, InitStep::WriteOomScore);
    let p1 = rlimit_steps(crate::init_child::rlimit_count(p));
    let p2 = crate::init_child::when(n > 0, InitStep::SetNonDumpable);
    assert(staged(p0, st, at(1, 0), at(2, 0)));
    assert(staged(p1, st, at(2, 0), at(3, 0)));
    assert(staged(p2, st, at(3, 0), at(4, 0)));
    lemma_staged_add(p0, p1, st, at(1, 0), at(2, 0), at(3, 0));
    lemma_staged_add(p0 + p1, p2, st, at(1, 0), at(3, 0), at(4, 0));
}

proof fn lemma_user_staged(user: bool, locked: bool)
    ensures
        staged(user_phase(user), stages(locked), at(4, 0), at(6, 0)),
{
    let st = stages(locked);
    let p0 = crate::init_child::when(user, InitStep::UnshareUser);
    let p1 = seq![InitStep::NotifyParent, InitStep::WaitParent];
    let p2 = crate::init_child::when(user, InitStep::BecomeRoot);
    assert(staged(p0, st, at(4, 0), at(5, 0)));
    assert(staged(p1, st, at(5, 0), at(6, 0)));
    assert(staged(p2, st, at(6, 0), at(6, 0)));
    lemma_staged_add(p0, p1, st, at(4, 0), at(5, 0), at(6, 0));
    lemma_staged_add(p0 + p1, p2, st, at(4, 0), at(6, 0), at(6, 0));
}

proof fn lemma_namespace_staged(list: Seq<LinuxNamespace>, locked: bool)
    requires
        list.len() <= usize::MAX,
    ensures
        staged(namespace_phase(list), stages(locked), at(6, 0), at(10, 0)),
{
    lemma_join_staged(list, locked);
    let st = stages(locked);
    let p0 = join_steps(list);
    let p1 = seq![
        InitStep::QuerySelinux,
        InitStep::Unshare(created(list).minus_user()),
        InitStep::UnshareCgroup,
    ];
    assert(staged(p0, st, at(6, 0), at(7, 0)));
    assert(staged(p1, st, at(7, 0), at(10, 0)));
    lemma_staged_add(p0, p1, st, at(6, 0), at(7, 0), at(10, 0));
}

proof fn lemma_rootfs_staged(list: Seq<LinuxNamespace>, no_pivot: bool, locked: bool)
    ensures
        staged(rootfs_phase(list, no_pivot), stages(locked), at(10, 0), at(18, 0)),
{
    let st = stages(locked);
    let p0 = crate::init_child::when(created(list).uts, InitStep::SetHostname);
    let p1 = seq![InitStep::ResolveRootfs];
    let p2 = crate::init_child::when(
        created(list).mount,
        InitStep::InitRootfs(binds_devices(list)),
    );
    let p3 = match mount_join(list) {
        Some(i) => seq![InitStep::JoinMountNamespace(i)],
        None => Seq::empty(),
    };
    let p4 = if created(list).mount {
        change_root(no_pivot)
    } else {
        Seq::empty()
    };
    assert(staged(p0, st, at(10, 0), at(11, 0)));
    assert(staged(p1, st, at(11, 0), at(12, 0)));
    assert(staged(p2, st, at(12, 0), at(13, 0)));
    assert(staged(p3, st, at(13, 0), at(14, 0)));
    assert(staged(p4, st, at(14, 0), at(18, 0)));
    lemma_staged_add(p0, p1, st, at(10, 0), at(11, 0), at(12, 0));
    lemma_staged_add(p0 + p1, p2, st, at(10, 0), at(12, 0), at(13, 0));
    lemma_staged_add(p0 + p1 + p2, p3, st, at(10, 0), at(13, 0), at(14, 0));
    lemma_staged_add(p0 + p1 + p2 + p3, p4, st, at(10, 0), at(14, 0), at(18, 0));
}

proof fn lemma_identity_staged(process: Process, locked: bool)
    ensures
        staged(identity_phase(process), stages(locked), at(18, 0), at(24, 0)),
{
    let st = stages(locked);
    let p0 = crate::init_child::when(process.cwd@.len() > 0, InitStep::Chdir);
    let p1 = seq![InitStep::VerifyCwd, InitStep::NewSession];
    let p2 = crate::init_child::when(process.user.uid != 0, InitStep::FixStdioOwner);
    let p3 = seq![InitStep::SetUser];
    let p4 = crate::init_child::when(process.user.additional_gids is Some, InitStep::SetGroups);
    assert(staged(p0, st, at(18, 0), at(19, 0)));
    assert(staged(p1, st, at(19, 0), at(21, 0)));
    assert(staged(p2, st, at(21, 0), at(22, 0)));
    assert(staged(p3, st, at(22, 0), at(23, 0)));
    assert(staged(p4, st, at(23, 0), at(24, 0)));
    lemma_staged_add(p0, p1, st, at(18, 0), at(19, 0), at(21, 0));
    lemma_staged_add(p0 + p1, p2, st, at(18, 0), at(21, 0), at(22, 0));
    lemma_staged_add(p0 + p1 + p2, p3, st, at(18, 0), at(22, 0), at(23, 0));
    lemma_staged_add(p0 + p1 + p2 + p3, p4, st, at(18, 0), at(23, 0), at(24, 0));
}

proof fn lemma_privilege_staged(process: Process, seccomp: bool, locked: bool)
    requires
        locked == (process.no_new_privileges == Some(true)),
    ensures
        staged(privilege_phase(process, seccomp), stages(locked), at(24, 0), at(29, 0)),
{
    let st = stages(locked);
    let p0 = crate::init_child::when(process.locked(), InitStep::SetNoNewPrivileges);
    let p1 = crate::init_child::when(process.labelled(), InitStep::SetSelinuxLabel);
    let p2 = crate::init_child::when(process.capabilities is Some, InitStep::RestrictBounding);
    let p3 = crate::init_child::when(!process.locked() && seccomp, InitStep::InstallSeccomp);
    let p4 = crate::init_child::when(process.capabilities is Some, InitStep::DropCapabilities);
    assert(staged(p0, st, at(24, 0), at(25, 0)));
    assert(staged(p1, st, at(25, 0), at(26, 0)));
    assert(staged(p2, st, at(26, 0), at(27, 0)));
    assert(staged(p3, st, at(27, 0), at(28, 0)));
    assert(staged(p4, st, at(28, 0), at(29, 0)));
    lemma_staged_add(p0, p1, st, at(24, 0), at(25, 0), at(26, 0));
    lemma_staged_add(p0 + p1, p2, st, at(24, 0), at(26, 0), at(27, 0));
    lemma_staged_add(p0 + p1 + p2, p3, st, at(24, 0), at(27, 0), at(28, 0));
    lemma_staged_add(p0 + p1 + p2 + p3, p4, st, at(24, 0), at(28, 0), at(29, 0));
}

proof fn lemma_launch_staged(process: Process, seccomp: bool, init: bool, locked: bool)
    requires
        locked == (process.no_new_privileges == Some(true)),
    ensures
        staged(launch_phase(process, seccomp, init), stages(locked), at(29, 0), at(38, 0)),
{
    let st = stages(locked);
    let p0 = crate::init_child::when(init, InitStep::TakeFifo);
    let p1 = seq![
        InitStep::ResetEnvironment,
        InitStep::SetEnvironment,
        InitStep::FindProgram,
        InitStep::NotifyParent,
        InitStep::ClosePipes,
    ];
    let p2 = crate::init_child::when(process.terminal == Some(true), InitStep::ControlTerminal);
    let p3 = crate::init_child::when(init, InitStep::WaitExecFifo);
    let p4 = crate::init_child::when(process.locked() && seccomp, InitStep::InstallSeccomp);
    let p5 = seq![InitStep::Exec];
    assert(staged(p0, st, at(29, 0), at(30, 0)));
    assert(staged(p1, st, at(30, 0), at(34, 0)));
    assert(staged(p2, st, at(34, 0), at(35, 0)));
    assert(staged(p3, st, at(35, 0), at(36, 0)));
    assert(staged(p4, st, at(36, 0), at(37, 0)));
    assert(staged(p5, st, at(37, 0), at(38, 0)));
    lemma_staged_add(p0, p1, st, at(29, 0), at(30, 0), at(34, 0));
    lemma_staged_add(p0 + p1, p2, st, at(29, 0), at(34, 0), at(35, 0));
    lemma_staged_add(p0 + p1 + p2, p3, st, at(29, 0), at(35, 0), at(36, 0));
    lemma_staged_add(p0 + p1 + p2 + p3, p4, st, at(29, 0), at(36, 0), at(37, 0));
    lemma_staged_add(p0 + p1 + p2 + p3 + p4, p5, st, at(29, 0), at(37, 0), at(38, 0));
}

proof fn lemma_plan_staged(spec: Spec, process: Process, init: bool, no_pivot: bool)
    requires
        startable(spec),
    ensures
        staged(
            init_steps(spec, process, init, no_pivot),
            stages(process.no_new_privileges == Some(true)),
            at(0, 0),
            at(38, 0),
        ),
{
    lemma_plan(spec, process, init, no_pivot);
    let locked = process.no_new_privileges == Some(true);
    let st = stages(locked);
    let list = listed(spec);
    let p = spec.process->0;
    let seccomp = spec.linux->0.seccomp;
    let a = open_steps(list);
    let b = limit_phase(p, list.len());
    let c = user_phase(created(list).user);
    let d = namespace_phase(list);
    let e = rootfs_phase(list, no_pivot);
    let f = identity_phase(process);
    let g = privilege_phase(process, seccomp);
    let h = launch_phase(process, seccomp, init);
    lemma_open_staged(list, locked);
    assert(staged(a, st, at(0, 0), at(1, 0)));
    lemma_limit_staged(p, list.len(), locked);
    lemma_user_staged(created(list).user, locked);
    lemma_namespace_staged(list, locked);
    lemma_rootfs_staged(list, no_pivot, locked);
    lemma_identity_staged(process, locked);
    lemma_privilege_staged(process, seccomp, locked);
    lemma_launch_staged(process, seccomp, init, locked);
    lemma_staged_add(a, b, st, at(0, 0), at(1, 0), at(4, 0));
    lemma_staged_add(a + b, c, st, at(0, 0), at(4, 0), at(6, 0));
    lemma_staged_add(a + b + c, d, st, at(0, 0), at(6, 0), at(10, 0));
    lemma_staged_add(a + b + c + d, e, st, at(0, 0), at(10, 0), at(18, 0));
    lemma_staged_add(a + b + c + d + e, f, st, at(0, 0), at(18, 0), at(24, 0));
    lemma_staged_add(a + b + c + d + e + f, g, st, at(0, 0), at(24, 0), at(29, 0));
    lemma_staged_add(a + b + c + d + e + f + g, h, st, at(0, 0), at(29, 0), at(38, 0));
}

/// The steps of a plan come in the order of their stages: of two steps with different
/// stages, the one with the lower stage is taken first.
pub proof fn law_steps_come_in_the_order_of_their_stages(
    spec: Spec,
    process: Process,
    init: bool,
    no_pivot: bool,
    a: InitStep,
    b: InitStep,
)
    requires
        startable(spec),
        stage_of(a, process.no_new_privileges == Some(true)) is Some,
        stage_of(b, process.no_new_privileges == Some(true)) is Some,
        stage_of(a, process.no_new_privileges == Some(true))->0 < stage_of(
            b,
            process.no_new_privileges == Some(true),
        )->0,
    ensures
        before(init_steps(spec, process, init, no_pivot), a, b),
{
    lemma_plan_staged(spec, process, init, no_pivot);
    lemma_staged_before(
        init_steps(spec, process, init, no_pivot),
        stages(process.no_new_privileges == Some(true)),
        at(0, 0),
        at(38, 0),
        a,
        b,
    );
}

/// A process with a working directory enters it once, behind every step that changes the
/// root and in front of the check of the directory and of the program; one without a working
/// directory never does.
pub proof fn law_the_working_directory_is_entered_behind_the_root(
    spec: Spec,
    process: Process,
    init: bool,
    no_pivot: bool,
)
    requires
        startable(spec),
    ensures
        ({
            let s = init_steps(spec, process, init, no_pivot);
            &&& process.cwd@.len() > 0 ==> times(s, InitStep::Chdir) == 1
            &&& process.cwd@.len() == 0 ==> !s.contains(InitStep::Chdir)
            &&& before(s, InitStep::PivotRoot, InitStep::Chdir)
            &&& before(s, InitStep::MoveRoot, InitStep::Chdir)
            &&& before(s, InitStep::ChdirRoot, InitStep::Chdir)
            &&& forall|i: usize| #[trigger]
                before(s, InitStep::JoinMountNamespace(i), InitStep::Chdir)
            &&& before(s, InitStep::Chdir, InitStep::VerifyCwd)
            &&& before(s, InitStep::Chdir, InitStep::Exec)
            &&& s.contains(InitStep::VerifyCwd)
            &&& s.contains(InitStep::Exec)
        }),
{
    let s = init_steps(spec, process, init, no_pivot);
    let chdir = InitStep::Chdir;
    law_each_step_is_taken_when_it_is_asked_for(spec, process, init, no_pivot);
    super::count::lemma_times_contains(s, chdir);
    super::count::lemma_times_contains(s, InitStep::VerifyCwd);
    super::count::lemma_times_contains(s, InitStep::Exec);
    law_steps_come_in_the_order_of_their_stages(
        spec,
        process,
        init,
        no_pivot,
        InitStep::PivotRoot,
        chdir,
    );
    law_steps_come_in_the_order_of_their_stages(
        spec,
        process,
        init,
        no_pivot,
        InitStep::MoveRoot,
        chdir,
    );
    law_steps_come_in_the_order_of_their_stages(
        spec,
        process,
        init,
        no_pivot,
        InitStep::ChdirRoot,
        chdir,
    );
    assert forall|i: usize| #[trigger] before(s, InitStep::JoinMountNamespace(i), chdir) by {
        law_steps_come_in_the_order_of_their_stages(
            spec,
            process,
            init,
            no_pivot,
            InitStep::JoinMountNamespace(i),
            chdir,
        );
    }
    law_steps_come_in_the_order_of_their_stages(
        spec,
        process,
        init,
        no_pivot,
        chdir,
        InitStep::VerifyCwd,
    );
    law_steps_come_in_the_order_of_their_stages(
        spec,
        process,
        init,
        no_pivot,
        chdir,
        InitStep::Exec,
    );
}

proof fn lemma_followed_eight(
    a: Seq<InitStep>,
    b: Seq<InitStep>,
    c: Seq<InitStep>,
    d: Seq<InitStep>,
    e: Seq<InitStep>,
    f: Seq<InitStep>,
    g: Seq<InitStep>,
    h: Seq<InitStep>,
    x: InitStep,
    y: InitStep,
)
    requires
        followed(a, x, y),
        followed(b, x, y),
        followed(c, x, y),
        followed(d, x, y),
        followed(e, x, y),
        followed(f, x, y),
        followed(g, x, y),
        followed(h, x, y),
    ensures
        followed(a + b + c + d + e + f + g + h, x, y),
{
    lemma_followed_add(a, b, x, y);
    lemma_followed_add(a + b, c, x, y);
    lemma_followed_add(a + b + c, d, x, y);
    lemma_followed_add(a + b + c + d, e, x, y);
    lemma_followed_add(a + b + c + d + e, f, x, y);
    lemma_followed_add(a + b + c + d + e + f, g, x, y);
    lemma_followed_add(a + b + c + d + e + f + g, h, x, y);
}

proof fn lemma_led_eight(
    a: Seq<InitStep>,
    b: Seq<InitStep>,
    c: Seq<InitStep>,
    d: Seq<InitStep>,
    e: Seq<InitStep>,
    f: Seq<InitStep>,
    g: Seq<InitStep>,
    h: Seq<InitStep>,
    x: InitStep,
    y: InitStep,
)
    requires
        led(a, x, y),
        led(b, x, y),
        led(c, x, y),
        led(d, x, y),
        led(e, x, y),
        led(f, x, y),
        led(g, x, y),
        led(h, x, y),
    ensures
        led(a + b + c + d + e + f + g + h, x, y),
{
    lemma_led_add(a, b, x, y);
    lemma_led_add(a + b, c, x, y);
    lemma_led_add(a + b + c, d, x, y);
    lemma_led_add(a + b + c + d, e, x, y);
    lemma_led_add(a + b + c + d + e, f, x, y);
    lemma_led_add(a + b + c + d + e + f, g, x, y);
    lemma_led_add(a + b + c + d + e + f + g, h, x, y);
}

proof fn lemma_joins_paired(list: Seq<LinuxNamespace>, i: usize)
    requires
        i < list.len() <= usize::MAX,
        is_joined(list[i as int]),
    ensures
        ({
            let typ = list[i as int].typ;
            let steps = join_steps(list);
            &&& followed(steps, InitStep::JoinNamespace(i, typ), InitStep::CloseNamespace(i))
            &&& typ == NamespaceType::User ==> followed(
                steps,
                InitStep::CloseNamespace(i),
                InitStep::BecomeRoot,
            )
        }),
    decreases list.len(),
{
    reveal(join_count);
    let front = list.drop_last();
    let typ = list[i as int].typ;
    let join = InitStep::JoinNamespace(i, typ);
    let close = InitStep::CloseNamespace(i);
    let last = join_one(list.len() - 1, list.last());
    if i < front.len() {
        lemma_joins_paired(front, i);
        assert(followed(last, join, close));
        assert(followed(last, close, InitStep::BecomeRoot));
    } else {
        lemma_join_times(front, join);
        lemma_join_times(front, close);
        super::count::lemma_absent(join_steps(front), join, close);
        super::count::lemma_absent(join_steps(front), close, InitStep::BecomeRoot);
        assert(followed(last, join, close));
        if typ == NamespaceType::User {
            assert(followed(last, close, InitStep::BecomeRoot));
        }
    }
    lemma_followed_add(join_steps(front), last, join, close);
    if typ == NamespaceType::User {
        lemma_followed_add(join_steps(front), last, close, InitStep::BecomeRoot);
    }
}

proof fn lemma_user_neighbours(
    spec: Spec,
    process: Process,
    init: bool,
    no_pivot: bool,
)
    requires
        startable(spec),
    ensures
        ({
            let s = init_steps(spec, process, init, no_pivot);
            &&& led(s, InitStep::NotifyParent, InitStep::WaitParent)
            &&& is_made(listed(spec), NamespaceType::User) ==> followed(
                s,
                InitStep::WaitParent,
                InitStep::BecomeRoot,
            )
        }),
{
    reveal(open_count);
    reveal(limit_count);
    reveal(user_count);
    reveal(join_count);
    reveal(namespace_count);
    reveal(rootfs_count);
    reveal(identity_count);
    reveal(last_count);
    lemma_plan(spec, process, init, no_pivot);
    let list = listed(spec);
    let p = spec.process->0;
    let seccomp = spec.linux->0.seccomp;
    let a = open_steps(list);
    let b = limit_phase(p, list.len());
    let c = user_phase(created(list).user);
    let d = namespace_phase(list);
    let e = rootfs_phase(list, no_pivot);
    let f = identity_phase(process);
    let g = privilege_phase(process, seccomp);
    let h = launch_phase(process, seccomp, init);
    let x = InitStep::WaitParent;
    lemma_open_times(list, x);
    lemma_early_count(p, list, x);
    lemma_join_times(list, x);
    lemma_middle_count(list, no_pivot, x);
    lemma_late_count(process, seccomp, init, x);
    super::count::lemma_absent(a, x, InitStep::BecomeRoot);
    super::count::lemma_absent(b, x, InitStep::BecomeRoot);
    super::count::lemma_absent(d, x, InitStep::BecomeRoot);
    super::count::lemma_absent(e, x, InitStep::BecomeRoot);
    super::count::lemma_absent(f, x, InitStep::BecomeRoot);
    super::count::lemma_absent(g, x, InitStep::BecomeRoot);
    super::count::lemma_absent(a, x, InitStep::NotifyParent);
    super::count::lemma_absent(b, x, InitStep::NotifyParent);
    super::count::lemma_absent(d, x, InitStep::NotifyParent);
    super::count::lemma_absent(e, x, InitStep::NotifyParent);
    super::count::lemma_absent(f, x, InitStep::NotifyParent);
    super::count::lemma_absent(g, x, InitStep::NotifyParent);
    super::count::lemma_absent(h, x, InitStep::BecomeRoot);
    super::count::lemma_absent(h, x, InitStep::NotifyParent);
    lemma_made(list, NamespaceType::User);
    assert(led(c, InitStep::NotifyParent, x));
    lemma_led_eight(a, b, c, d, e, f, g, h, InitStep::NotifyParent, x);
    if is_made(list, NamespaceType::User) {
        assert(followed(c, x, InitStep::BecomeRoot));
        lemma_followed_eight(a, b, c, d, e, f, g, h, x, InitStep::BecomeRoot);
    }
}

proof fn lemma_launch_neighbours(
    spec: Spec,
    process: Process,
    init: bool,
    no_pivot: bool,
)
    requires
        startable(spec),
    ensures
        ({
            let s = init_steps(spec, process, init, no_pivot);
            &&& led(s, InitStep::NotifyParent, InitStep::ClosePipes)
            &&& followed(s, InitStep::FindProgram, InitStep::NotifyParent)
        }),
{
    reveal(open_count);
    reveal(limit_count);
    reveal(user_count);
    reveal(join_count);
    reveal(namespace_count);
    reveal(rootfs_count);
    reveal(identity_count);
    reveal(last_count);
    lemma_plan(spec, process, init, no_pivot);
    let list = listed(spec);
    let p = spec.process->0;
    let seccomp = spec.linux->0.seccomp;
    let a = open_steps(list);
    let b = limit_phase(p, list.len());
    let c = user_phase(created(list).user);
    let d = namespace_phase(list);
    let e = rootfs_phase(list, no_pivot);
    let f = identity_phase(process);
    let g = privilege_phase(process, seccomp);
    let h = launch_phase(process, seccomp, init);
    let x = InitStep::ClosePipes;
    let y = InitStep::FindProgram;
    lemma_open_times(list, x);
    lemma_early_count(p, list, x);
    lemma_join_times(list, x);
    lemma_middle_count(list, no_pivot, x);
    lemma_late_count(process, seccomp, init, x);
    lemma_open_times(list, y);
    lemma_early_count(p, list, y);
    lemma_join_times(list, y);
    lemma_middle_count(list, no_pivot, y);
    lemma_late_count(process, seccomp, init, y);
    super::count::lemma_absent(a, x, InitStep::NotifyParent);
    super::count::lemma_absent(b, x, InitStep::NotifyParent);
    super::count::lemma_absent(c, x, InitStep::NotifyParent);
    super::count::lemma_absent(d, x, InitStep::NotifyParent);
    super::count::lemma_absent(e, x, InitStep::NotifyParent);
    super::count::lemma_absent(f, x, InitStep::NotifyParent);
    assert(times(g, x) == 0 && times(g, y) == 0) by {
        broadcast use super::count::group_times;
        broadcast use lemma_times_when;

    }
    super::count::lemma_absent(g, x, InitStep::NotifyParent);
    super::count::lemma_absent(a, y, InitStep::NotifyParent);
    super::count::lemma_absent(b, y, InitStep::NotifyParent);
    super::count::lemma_absent(c, y, InitStep::NotifyParent);
    super::count::lemma_absent(d, y, InitStep::NotifyParent);
    super::count::lemma_absent(e, y, InitStep::NotifyParent);
    super::count::lemma_absent(f, y, InitStep::NotifyParent);
    super::count::lemma_absent(g, y, InitStep::NotifyParent);
    assert(led(h, InitStep::NotifyParent, x));
    assert(followed(h, y, InitStep::NotifyParent));
    lemma_led_eight(a, b, c, d, e, f, g, h, InitStep::NotifyParent, x);
    lemma_followed_eight(a, b, c, d, e, f, g, h, y, InitStep::NotifyParent);
}

proof fn lemma_join_neighbours(
    spec: Spec,
    process: Process,
    init: bool,
    no_pivot: bool,
    i: usize,
)
    requires
        startable(spec),
        i < listed(spec).len(),
        is_joined(listed(spec)[i as int]),
    ensures
        ({
            let s = init_steps(spec, process, init, no_pivot);
            let typ = listed(spec)[i as int].typ;
            &&& followed(s, InitStep::JoinNamespace(i, typ), InitStep::CloseNamespace(i))
            &&& typ == NamespaceType::User ==> followed(
                s,
                InitStep::CloseNamespace(i),
                InitStep::BecomeRoot,
            )
        }),
{
    reveal(open_count);
    reveal(limit_count);
    reveal(user_count);
    reveal(join_count);
    reveal(namespace_count);
    reveal(rootfs_count);
    reveal(identity_count);
    reveal(last_count);
    lemma_plan(spec, process, init, no_pivot);
    let list = listed(spec);
    let p = spec.process->0;
    let seccomp = spec.linux->0.seccomp;
    let a = open_steps(list);
    let b = limit_phase(p, list.len());
    let c = user_phase(created(list).user);
    let d = namespace_phase(list);
    let e = rootfs_phase(list, no_pivot);
    let f = identity_phase(process);
    let g = privilege_phase(process, seccomp);
    let h = launch_phase(process, seccomp, init);
    let typ = list[i as int].typ;
    let x = InitStep::JoinNamespace(i, typ);
    let y = InitStep::CloseNamespace(i);
    let z = InitStep::BecomeRoot;
    lemma_open_times(list, x);
    lemma_early_count(p, list, x);
    lemma_join_times(list, x);
    lemma_middle_count(list, no_pivot, x);
    lemma_late_count(process, seccomp, init, x);
    lemma_open_times(list, y);
    lemma_early_count(p, list, y);
    lemma_join_times(list, y);
    lemma_middle_count(list, no_pivot, y);
    lemma_late_count(process, seccomp, init, y);
    super::count::lemma_absent(a, x, y);
    super::count::lemma_absent(b, x, y);
    super::count::lemma_absent(c, x, y);
    super::count::lemma_absent(e, x, y);
    super::count::lemma_absent(f, x, y);
    super::count::lemma_absent(g, x, y);
    super::count::lemma_absent(h, x, y);
    super::count::lemma_absent(a, y, z);
    super::count::lemma_absent(b, y, z);
    super::count::lemma_absent(c, y, z);
    super::count::lemma_absent(e, y, z);
    super::count::lemma_absent(f, y, z);
    super::count::lemma_absent(g, y, z);
    super::count::lemma_absent(h, y, z);
    lemma_joins_paired(list, i);
    let rest = seq![
        InitStep::QuerySelinux,
        InitStep::Unshare(created(list).minus_user()),
        InitStep::UnshareCgroup,
    ];
    assert(followed(rest, x, y));
    assert(followed(rest, y, z));
    lemma_followed_add(join_steps(list), rest, x, y);
    lemma_followed_eight(a, b, c, d, e, f, g, h, x, y);
    if typ == NamespaceType::User {
        lemma_followed_add(join_steps(list), rest, y, z);
        lemma_followed_eight(a, b, c, d, e, f, g, h, y, z);
    }
}

/// What is said and done in one breath: the parent is told before it is waited for, and
/// once the program is found, right before the pipes are closed; each namespace that is
/// joined is closed at once; and the process becomes user 0 right behind its entry into a
/// user namespace, be it new or joined.
pub proof fn law_steps_that_belong_together_follow_each_other(
    spec: Spec,
    process: Process,
    init: bool,
    no_pivot: bool,
)
    requires
        startable(spec),
    ensures
        ({
            let s = init_steps(spec, process, init, no_pivot);
            let list = listed(spec);
            &&& led(s, InitStep::NotifyParent, InitStep::WaitParent)
            &&& is_made(list, NamespaceType::User) ==> followed(
                s,
                InitStep::WaitParent,
                InitStep::BecomeRoot,
            )
            &&& followed(s, InitStep::FindProgram, InitStep::NotifyParent)
            &&& led(s, InitStep::NotifyParent, InitStep::ClosePipes)
            &&& forall|i: usize|
                i < list.len() && is_joined(#[trigger] list[i as int]) ==> {
                    &&& followed(
                        s,
                        InitStep::JoinNamespace(i, list[i as int].typ),
                        InitStep::CloseNamespace(i),
                    )
                    &&& list[i as int].typ == NamespaceType::User ==> followed(
                        s,
                        InitStep::CloseNamespace(i),
                        InitStep::BecomeRoot,
                    )
                }
        }),
{
    let s = init_steps(spec, process, init, no_pivot);
    let list = listed(spec);
    lemma_user_neighbours(spec, process, init, no_pivot);
    lemma_launch_neighbours(spec, process, init, no_pivot);
    assert forall|i: usize| i < list.len() && is_joined(#[trigger] list[i as int]) implies {
        &&& followed(
            s,
            InitStep::JoinNamespace(i, list[i as int].typ),
            InitStep::CloseNamespace(i),
        )
        &&& list[i as int].typ == NamespaceType::User ==> followed(
            s,
            InitStep::CloseNamespace(i),
            InitStep::BecomeRoot,
        )
    } by {
        lemma_join_neighbours(spec, process, init, no_pivot, i);
    }
}

/// A configuration without a process, without a Linux section or with a namespace of a type
/// that containers cannot have is given up; the files of the namespaces in front of that one
/// are opened before.
pub proof fn law_what_cannot_be_started_is_given_up(
    spec: Spec,
    process: Process,
    init: bool,
    no_pivot: bool,
)
    requires
        !startable(spec),
    ensures
        ({
            let s = init_steps(spec, process, init, no_pivot);
            let list = listed(spec);
            if spec.process is None {
                s == seq![InitStep::Reject(InitReject::MissingProcess)]
            } else if spec.linux is None {
                s == seq![InitStep::Reject(InitReject::MissingLinux)]
            } else {
                &&& s.len() > 0
                &&& s.last() == InitStep::Reject(InitReject::InvalidNamespace)
                &&& forall|i: usize|
                    #[trigger] times(s, InitStep::OpenNamespace(i)) == once(
                        i < list.len() && is_there(list[i as int]) && forall|k: int|
                            0 <= k <= i ==> (#[trigger] list[k]).typ != NamespaceType::Time,
                    )
                &&& forall|i: int| 0 <= i < s.len() - 1 ==> #[trigger] s[i] is OpenNamespace
            }
        }),
{
    broadcast use super::count::group_times;

    let s = init_steps(spec, process, init, no_pivot);
    let list = listed(spec);
    if spec.process is Some && spec.linux is Some {
        reveal(open_count);
        if let Some(v) = spec.linux->0.namespaces {
            assert(v.len() == v@.len());
        }
        lemma_all_known(list);
        lemma_prefix(list);
        let known = known_prefix(list);
        let front = list.take(known as int);
        lemma_only_opens(front);
        assert forall|i: usize| #[trigger] times(s, InitStep::OpenNamespace(i)) == once(
            i < list.len() && is_there(list[i as int]) && forall|k: int|
                0 <= k <= i ==> (#[trigger] list[k]).typ != NamespaceType::Time,
        ) by {
            lemma_open_times(front, InitStep::OpenNamespace(i));
            if i < known {
                assert(front[i as int] == list[i as int]);
            }
        }
    }
}

proof fn lemma_prefix(list: Seq<LinuxNamespace>)
    ensures
        known_prefix(list) <= list.len(),
        forall|k: int|
            0 <= k < known_prefix(list) ==> (#[trigger] list[k]).typ != NamespaceType::Time,
        known_prefix(list) < list.len() ==> list[known_prefix(list) as int].typ
            == NamespaceType::Time,
    decreases list.len(),
{
    if list.len() > 0 {
        let front = list.drop_last();
        lemma_prefix(front);
        assert forall|k: int| 0 <= k < known_prefix(list) implies (#[trigger] list[k]).typ
            != NamespaceType::Time by {
            if k < front.len() {
                assert(front[k] == list[k]);
            }
        }
    }
}

proof fn lemma_only_opens(list: Seq<LinuxNamespace>)
    ensures
        forall|i: int|
            0 <= i < open_steps(list).len() ==> #[trigger] open_steps(list)[i] is OpenNamespace,
    decreases list.len(),
{
    if list.len() > 0 {
        lemma_only_opens(list.drop_last());
    }
}

/// Which failures a run survives: only that of closing the pipes, that of the terminal, and
/// the refusal to enter the user namespace that the process is in (error 22). Of the others
/// the parent is told at once where a namespace cannot be joined or the groups cannot be set.
/// The helper of a fork reports the pid of its child; any other outcome lets the run go on.
pub proof fn law_few_failures_are_survived(step: InitStep, errno: i32, pid: i32, on: bool)
    ensures
        judged(step, Outcome::Failed(errno)) == Verdict::Next <==> (step == InitStep::ClosePipes
            || step == InitStep::ControlTerminal || (errno == 22 && (step matches InitStep::JoinNamespace(
            _,
            typ,
        ) && typ == NamespaceType::User))),
        judged(step, Outcome::Failed(errno)) != Verdict::Next ==> judged(
            step,
            Outcome::Failed(errno),
        ) == Verdict::Abort(step is JoinNamespace || step is SetGroups),
        judged(step, Outcome::Done) == Verdict::Next,
        judged(step, Outcome::Selinux(on)) == Verdict::Next,
        judged(InitStep::Fork, Outcome::Helper(pid)) == Verdict::ReportPid(pid),
{
}

/// Until the configuration is known a process settles in its pid namespace, the one that it
/// was handed or a new one, forks there, and answers each of the two things that it reads.
pub proof fn law_a_child_settles_before_it_reads(pidns: bool)
    ensures
        ({
            let s = prelude_steps(pidns);
            &&& s.len() == 6
            &&& s[0] == InitStep::JoinPidNamespace <==> pidns
            &&& s[0] == InitStep::CreatePidNamespace <==> !pidns
            &&& s[1] == InitStep::Fork
            &&& s[2] == InitStep::ReadSpec
            &&& s[4] == InitStep::ReadProcess
            &&& s[3] == InitStep::NotifyParent && s[5] == InitStep::NotifyParent
        }),
{
}

/// What the last assignment to a name says is what a process finds; a name that nothing
/// assigns is not there, but for the home directory, which is that of the user or `/`.
pub proof fn law_the_last_assignment_holds(
    entries: Seq<Option<(String, String)>>,
    home: Option<Seq<char>>,
    i: int,
)
    requires
        0 <= i < entries.len(),
        entries[i] is Some,
        forall|j: int|
            i < j < entries.len() ==> (#[trigger] entries[j] matches Some(kv) ==> kv.0@
                != (entries[i]->0).0@),
    ensures
        environment(entries, home).contains_key((entries[i]->0).0@),
        environment(entries, home)[(entries[i]->0).0@] == (entries[i]->0).1@,
{
    lemma_assigned_last(entries, i);
}

proof fn lemma_assigned_last(entries: Seq<Option<(String, String)>>, i: int)
    requires
        0 <= i < entries.len(),
        entries[i] is Some,
        forall|j: int|
            i < j < entries.len() ==> (#[trigger] entries[j] matches Some(kv) ==> kv.0@
                != (entries[i]->0).0@),
    ensures
        assigned(entries).contains_key((entries[i]->0).0@),
        assigned(entries)[(entries[i]->0).0@] == (entries[i]->0).1@,
    decreases entries.len(),
{
    if i < entries.len() - 1 {
        let front = entries.drop_last();
        assert forall|j: int| i < j < front.len() implies (#[trigger] front[j] matches Some(kv)
            ==> kv.0@ != (front[i]->0).0@) by {
            assert(entries[j] == front[j]);
        }
        lemma_assigned_last(front, i);
        assert(entries.last() == entries[entries.len() - 1]);
    }
}

/// A name that nothing assigns is not there, but for the home directory, which is that of
/// the user or `/`.
pub proof fn law_nothing_else_is_in_the_environment(
    entries: Seq<Option<(String, String)>>,
    home: Option<Seq<char>>,
    name: Seq<char>,
)
    requires
        forall|j: int|
            0 <= j < entries.len() ==> (#[trigger] entries[j] matches Some(kv) ==> kv.0@ != name),
    ensures
        environment(entries, home).contains_key(name) <==> name == "HOME"@,
        name == "HOME"@ && home is Some ==> environment(entries, home)[name] == home->0,
        name == "HOME"@ && home is None ==> environment(entries, home)[name] == "/"@,
{
    lemma_assigned_only(entries, name);
}

proof fn lemma_assigned_only(entries: Seq<Option<(String, String)>>, name: Seq<char>)
    requires
        forall|j: int|
            0 <= j < entries.len() ==> (#[trigger] entries[j] matches Some(kv) ==> kv.0@ != name),
    ensures
        !assigned(entries).contains_key(name),
    decreases entries.len(),
{
    if entries.len() > 0 {
        let front = entries.drop_last();
        assert forall|j: int| 0 <= j < front.len() implies (#[trigger] front[j] matches Some(kv)
            ==> kv.0@ != name) by {
            assert(entries[j] == front[j]);
        }
        lemma_assigned_only(front, name);
        assert(entries.last() == entries[entries.len() - 1]);
    }
}

/// What a run does next: it stops at a step that gives up, with its reason; at a label where
/// SELinux is off; and at its end. Otherwise it performs the step.
pub proof fn law_what_a_run_does_next(run: crate::init_child::InitRun)
    requires
        run.at <= run.steps@.len(),
    ensures
        ({
            let d = run.directive();
            let step = run.steps@[run.at as int];
            &&& run.at == run.steps@.len() <==> d is Finished
            &&& run.at < run.steps@.len() && step is SetSelinuxLabel && !run.selinux ==> d
                == crate::init_child::Directive::Stop(InitReject::SelinuxDisabled)
            &&& run.at < run.steps@.len() && step is SetSelinuxLabel && run.selinux ==> d
                == crate::init_child::Directive::Perform(step)
            &&& run.at < run.steps@.len() && (step matches InitStep::Reject(r) && true) ==> d
                == crate::init_child::Directive::Stop(step->Reject_0)
            &&& run.at < run.steps@.len() && !(step is SetSelinuxLabel) && !(step is Reject) ==> d
                == crate::init_child::Directive::Perform(step)
        }),
{
}

/// The number that a text writes, in 32 bits with a sign.
pub open spec fn number_in(text: Option<String>) -> Option<int> {
    match text {
        Some(t) => crate::text::int_of(t@, -0x8000_0000, 0x7fff_ffff),
        None => None,
    }
}

/// What a new process reads in its variables: each flag is set by `true` alone, and each
/// descriptor is the number that its variable writes. A variable that is needed and is not
/// there is told, and so is one that writes no number.
pub proof fn law_what_a_child_reads_in_its_variables(v: crate::init_child::InitVariables)
    ensures
        ({
            let r = crate::init_child::setup_of(v);
            let whole = v.init is Some && v.no_pivot is Some && number_in(v.read) is Some
                && number_in(v.log) is Some && (v.pidns is Some ==> number_in(v.pidns) is Some);
            &&& r is Ok <==> whole
            &&& whole ==> {
                let s = r->Ok_0;
                &&& s.init <==> v.init->0@ == "true"@
                &&& s.no_pivot <==> v.no_pivot->0@ == "true"@
                &&& s.read == number_in(v.read)->0
                &&& s.log == number_in(v.log)->0
                &&& s.pidns is Some <==> v.pidns is Some
                &&& v.pidns is Some ==> s.pidns->0 == number_in(v.pidns)->0
            }
            &&& (r matches Err(crate::init_child::InitFault::Missing(name)) ==> match name {
                crate::init_child::InitVariable::Init => v.init is None,
                crate::init_child::InitVariable::NoPivot => v.no_pivot is None,
                crate::init_child::InitVariable::Read => v.read is None,
                crate::init_child::InitVariable::Log => v.log is None,
                _ => false,
            })
            &&& (r matches Err(crate::init_child::InitFault::NoDescriptor(name)) ==> match name {
                crate::init_child::InitVariable::Read => v.read is Some && number_in(v.read)
                    is None,
                crate::init_child::InitVariable::Log => v.log is Some && number_in(v.log) is None,
                _ => false,
            })
            &&& (r matches Err(crate::init_child::InitFault::NoPidNamespace) ==> v.pidns is Some
                && number_in(v.pidns) is None)
        }),
{
    assert(i32::MIN as int == -0x8000_0000 && i32::MAX as int == 0x7fff_ffff);
}

} // verus!
