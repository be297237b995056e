//! How a container is started and destroyed, whatever its configuration says.
use vstd::prelude::*;

use super::count::{before, lemma_staged_add, lemma_staged_before, once, staged, times};
use super::init::{is_there, listed};
use crate::container::{first_pid_namespace, ContainerProcess};
use crate::oci::{Linux, LinuxNamespace, NamespaceType, Spec};
use crate::start::{
    cleanup_steps, destroy_steps, fifo_steps, join_steps, pid_of, pin_steps, spawn_steps,
    start_judged, start_steps, stdio_steps, step_when, DestroyStep, JoinStep, StartOutcome,
    StartReject, StartStep, StartVerdict,
};
use crate::text::signed_decimal;

verus! {

/// The namespaces of a Linux section.
pub open spec fn spaces(linux: Linux) -> Seq<LinuxNamespace> {
    match linux.namespaces {
        Some(v) => v@,
        None => Seq::empty(),
    }
}

/// Whether users are mapped: a user namespace is listed without a path.
pub open spec fn has_own_users(linux: Linux) -> bool {
    exists|i: int|
        0 <= i < spaces(linux).len() && (#[trigger] spaces(linux)[i]).typ == NamespaceType::User
            && spaces(linux)[i].path is None
}

/// How often each step of the handing over is taken.
pub proof fn law_a_configuration_is_handed_over_once(linux: Linux, init: bool)
    ensures
        ({
            let s = join_steps(linux, init);
            &&& times(s, JoinStep::SendSpec) == 1
            &&& times(s, JoinStep::SendProcess) == 1
            &&& times(s, JoinStep::SendContinue) == 1
            &&& times(s, JoinStep::AwaitChild) == 4
            &&& times(s, JoinStep::WriteUidMap) == once(has_own_users(linux))
            &&& times(s, JoinStep::WriteGidMap) == once(has_own_users(linux))
            &&& times(s, JoinStep::ApplyCgroup) == once(linux.resources is Some)
            &&& times(s, JoinStep::SetCgroup) == once(linux.resources is Some && init)
        }),
{
    let s = join_steps(linux, init);
    assert forall|x: JoinStep| #[trigger] times(s, x) == join_count(linux, init, x) by {
        lemma_join_count(linux, init, x);
    }
}

spec fn join_count(linux: Linux, init: bool, x: JoinStep) -> nat {
    match x {
        JoinStep::SendSpec | JoinStep::SendProcess | JoinStep::SendContinue => 1,
        JoinStep::AwaitChild => 4,
        JoinStep::WriteUidMap | JoinStep::WriteGidMap => once(has_own_users(linux)),
        JoinStep::ApplyCgroup => once(linux.resources is Some),
        JoinStep::SetCgroup => once(linux.resources is Some && init),
    }
}

proof fn lemma_join_count(linux: Linux, init: bool, x: JoinStep)
    ensures
        times(join_steps(linux, init), x) == join_count(linux, init, x),
{
    broadcast use super::count::group_times;

    super::count::lemma_times_five(
        JoinStep::SendSpec,
        JoinStep::AwaitChild,
        JoinStep::SendProcess,
        JoinStep::AwaitChild,
        JoinStep::AwaitChild,
        x,
    );
    super::count::lemma_times_two(JoinStep::WriteUidMap, JoinStep::WriteGidMap, x);
    super::count::lemma_times_two(JoinStep::SendContinue, JoinStep::AwaitChild, x);
}

/// The handing over starts with the configuration and the process, each of which the child
/// answers, and with the news of its user namespace; then users are mapped, then comes the
/// cgroup and its limits, and only then the child is let on and waited for.
pub proof fn law_a_configuration_is_handed_over_in_order(linux: Linux, init: bool)
    ensures
        ({
            let s = join_steps(linux, init);
            &&& s.len() >= 7
            &&& s[0] == JoinStep::SendSpec && s[1] == JoinStep::AwaitChild
            &&& s[2] == JoinStep::SendProcess && s[3] == JoinStep::AwaitChild
            &&& s[4] == JoinStep::AwaitChild
            &&& s[s.len() - 2] == JoinStep::SendContinue && s.last() == JoinStep::AwaitChild
            &&& before(s, JoinStep::WriteUidMap, JoinStep::WriteGidMap)
            &&& before(s, JoinStep::WriteGidMap, JoinStep::ApplyCgroup)
            &&& before(s, JoinStep::ApplyCgroup, JoinStep::SetCgroup)
        }),
{
}

/// Whether a configuration can be started for a process: it has a Linux section, capabilities
/// are given, and a pid namespace is listed.
pub open spec fn can_start(spec: Option<Spec>, p: ContainerProcess) -> bool {
    &&& spec is Some
    &&& spec->0.linux is Some
    &&& has_capabilities(spec->0, p)
    &&& has_pid_namespace(spec->0)
}

/// Whether a process has capabilities, or the container process has.
pub open spec fn has_capabilities(spec: Spec, p: ContainerProcess) -> bool {
    p.capabilities is Some || (spec.process is Some && spec.process->0.capabilities is Some)
}

/// Whether a pid namespace is listed.
pub open spec fn has_pid_namespace(spec: Spec) -> bool {
    exists|i: int|
        0 <= i < listed(spec).len() && (#[trigger] listed(spec)[i]).typ == NamespaceType::Pid
}

/// Whether a namespace is the first pid namespace of a list.
pub open spec fn is_first_pid(list: Seq<LinuxNamespace>, i: int) -> bool {
    &&& 0 <= i < list.len()
    &&& list[i].typ == NamespaceType::Pid
    &&& forall|k: int| 0 <= k < i ==> (#[trigger] list[k]).typ != NamespaceType::Pid
}

proof fn lemma_first_pid(list: Seq<LinuxNamespace>)
    ensures
        forall|i: int| #![auto] first_pid_namespace(list) == Some(i) <==> is_first_pid(list, i),
        first_pid_namespace(list) is Some <==> exists|i: int|
            0 <= i < list.len() && (#[trigger] list[i]).typ == NamespaceType::Pid,
    decreases list.len(),
{
    if list.len() > 0 {
        let front = list.drop_last();
        lemma_first_pid(front);
        assert forall|i: int| #![auto]
            first_pid_namespace(list) == Some(i) <==> is_first_pid(list, i) by {
            assert(first_pid_namespace(front) == Some(i) <==> is_first_pid(front, i));
            if first_pid_namespace(front) is None {
                assert forall|k: int| 0 <= k < front.len() implies (#[trigger] list[k]).typ
                    != NamespaceType::Pid by {
                    assert(front[k] == list[k]);
                }
                assert(list[list.len() - 1] == list.last());
            }
            if is_first_pid(front, i) {
                assert(front[i] == list[i]);
                assert forall|k: int| 0 <= k < i implies (#[trigger] list[k]).typ
                    != NamespaceType::Pid by {
                    assert(front[k] == list[k]);
                }
            }
            if is_first_pid(list, i) {
                if i < front.len() {
                    assert(front[i] == list[i]);
                    assert forall|k: int| 0 <= k < i implies (#[trigger] front[k]).typ
                        != NamespaceType::Pid by {
                        assert(front[k] == list[k]);
                    }
                } else if first_pid_namespace(front) is Some {
                    let k = choose|k: int|
                        0 <= k < front.len() && (#[trigger] front[k]).typ == NamespaceType::Pid;
                    assert(list[k] == front[k]);
                }
            }
        }
        if first_pid_namespace(front) is Some {
            let k = choose|k: int|
                0 <= k < front.len() && (#[trigger] front[k]).typ == NamespaceType::Pid;
            assert(list[k] == front[k]);
        }
        if exists|i: int| 0 <= i < list.len() && (#[trigger] list[i]).typ == NamespaceType::Pid {
            let k = choose|k: int|
                0 <= k < list.len() && (#[trigger] list[k]).typ == NamespaceType::Pid;
            if k < front.len() {
                assert(front[k] == list[k]);
            }
        }
        if list.last().typ == NamespaceType::Pid {
            assert(list[list.len() - 1].typ == NamespaceType::Pid);
        }
    }
}

/// The pid namespace of a container is the first that its configuration lists.
pub proof fn law_the_first_pid_namespace_counts(list: Seq<LinuxNamespace>, i: int)
    ensures
        first_pid_namespace(list) == Some(i) <==> is_first_pid(list, i),
        first_pid_namespace(list) is None <==> forall|k: int|
            0 <= k < list.len() ==> (#[trigger] list[k]).typ != NamespaceType::Pid,
{
    lemma_first_pid(list);
}

/// What is refused, and when: an id that is in use before anything is done; a configuration
/// that lacks something once the exec FIFO of an init process is there; and one without a pid
/// namespace once the streams are open, too.
pub proof fn law_which_starts_are_refused(in_use: bool, spec: Option<Spec>, p: ContainerProcess)
    ensures
        ({
            let s = start_steps(in_use, spec, p);
            let reject = if in_use {
                Some(StartReject::ExecIdExists)
            } else if spec is None {
                Some(StartReject::NoSpec)
            } else if spec->0.linux is None {
                Some(StartReject::NoLinux)
            } else if p.capabilities is None && spec->0.process is None {
                Some(StartReject::NoProcess)
            } else if !has_capabilities(spec->0, p) {
                Some(StartReject::MissingCapabilities)
            } else if !has_pid_namespace(spec->0) {
                Some(StartReject::NoPidNamespace)
            } else {
                None
            };
            &&& reject is Some ==> s.len() > 0 && s.last() == StartStep::Reject(reject->0)
            &&& reject is None <==> !in_use && can_start(spec, p)
            &&& in_use ==> s.len() == 1
            &&& reject is Some ==> !s.contains(StartStep::Spawn)
        }),
{
    if spec is Some && spec->0.linux is Some {
        lemma_first_pid(listed(spec->0));
    }
}

broadcast proof fn lemma_times_when(cond: bool, step: StartStep, x: StartStep)
    ensures
        #[trigger] times(step_when(cond, step), x) == once(cond && step == x),
{
    broadcast use super::count::group_times;

}

/// Whether a namespace was made with the container and has to be kept.
pub open spec fn is_kept(ns: LinuxNamespace) -> bool {
    ns.typ != NamespaceType::Time && !is_there(ns)
}

proof fn lemma_pin_times(list: Seq<LinuxNamespace>, x: StartStep)
    requires
        list.len() <= usize::MAX,
    ensures
        times(pin_steps(list), x) == match x {
            StartStep::PinNamespace(i) => once(i < list.len() && is_kept(list[i as int])),
            _ => 0,
        },
    decreases list.len(),
{
    broadcast use super::count::group_times;
    broadcast use lemma_times_when;

    if list.len() > 0 {
        lemma_pin_times(list.drop_last(), x);
    }
}

#[verifier::opaque]
spec fn head_count(p: ContainerProcess, x: StartStep) -> nat {
    match x {
        StartStep::StatFifo | StartStep::MakeFifo | StartStep::OpenFifo => once(p.init),
        StartStep::OpenPipes => 1,
        StartStep::OpenPty => once(p.tty),
        StartStep::UseStdio => once(!p.tty),
        _ => 0,
    }
}

proof fn lemma_head_count(p: ContainerProcess, x: StartStep)
    ensures
        times(fifo_steps(p.init) + stdio_steps(p.tty), x) == head_count(p, x),
{
    broadcast use super::count::group_times;

    reveal(head_count);
    super::count::lemma_times_three(
        StartStep::StatFifo,
        StartStep::MakeFifo,
        StartStep::OpenFifo,
        x,
    );
    super::count::lemma_times_two(
        StartStep::OpenPipes,
        if p.tty {
            StartStep::OpenPty
        } else {
            StartStep::UseStdio
        },
        x,
    );
}

#[verifier::opaque]
spec fn spawn_count(linux: Linux, init: bool, x: StartStep) -> nat {
    match x {
        StartStep::Spawn | StartStep::ReadPid => 1,
        StartStep::CloseFifo => once(init),
        StartStep::Join(j) => times(join_steps(linux, init), j),
        StartStep::PinNamespace(i) => once(
            init && i < spaces(linux).len() && is_kept(spaces(linux)[i as int]),
        ),
        _ => 0,
    }
}

proof fn lemma_spawn_count(linux: Linux, init: bool, x: StartStep)
    ensures
        times(spawn_steps(linux, init), x) == spawn_count(linux, init, x),
{
    reveal(spawn_count);
    let list = spaces(linux);
    if let Some(v) = linux.namespaces {
        assert(v.len() == v@.len());
    }
    let f = |j: JoinStep| StartStep::Join(j);
    let a = seq![StartStep::Spawn, StartStep::ReadPid];
    let b = step_when(init, StartStep::CloseFifo);
    let c = join_steps(linux, init).map_values(f);
    let d = if init {
        pin_steps(list)
    } else {
        Seq::empty()
    };
    super::count::lemma_times_two(StartStep::Spawn, StartStep::ReadPid, x);
    lemma_times_when(init, StartStep::CloseFifo, x);
    if let StartStep::Join(j) = x {
        super::count::lemma_times_map(join_steps(linux, init), f, j);
    } else {
        super::count::lemma_times_map_other(join_steps(linux, init), f, x);
    }
    lemma_pin_times(list, x);
    super::count::lemma_times_empty(x);
    super::count::lemma_times_add(a, b, x);
    super::count::lemma_times_add(a + b, c, x);
    super::count::lemma_times_add(a + b + c, d, x);
    assert(spawn_steps(linux, init) == a + b + c + d);
}

/// How often each step of a start is taken, for every configuration that can be started.
pub proof fn law_each_step_of_a_start_is_taken_when_it_is_asked_for(
    spec: Spec,
    p: ContainerProcess,
)
    requires
        can_start(Some(spec), p),
    ensures
        ({
            let s = start_steps(false, Some(spec), p);
            let list = listed(spec);
            let linux = spec.linux->0;
            &&& times(s, StartStep::StatFifo) == once(p.init)
            &&& times(s, StartStep::MakeFifo) == once(p.init)
            &&& times(s, StartStep::OpenFifo) == once(p.init)
            &&& times(s, StartStep::OpenPipes) == 1
            &&& times(s, StartStep::OpenPty) == once(p.tty)
            &&& times(s, StartStep::UseStdio) == once(!p.tty)
            &&& forall|i: usize|
                #[trigger] times(s, StartStep::OpenPidNamespace(i)) == once(
                    is_first_pid(list, i as int) && list[i as int].path is Some,
                )
            &&& times(s, StartStep::Spawn) == 1
            &&& times(s, StartStep::ReadPid) == 1
            &&& times(s, StartStep::CloseFifo) == once(p.init)
            &&& forall|j: JoinStep|
                #[trigger] times(s, StartStep::Join(j)) == times(join_steps(linux, p.init), j)
            &&& forall|i: usize|
                #[trigger] times(s, StartStep::PinNamespace(i)) == once(
                    p.init && i < list.len() && is_kept(list[i as int]),
                )
            &&& forall|r: StartReject| #[trigger] times(s, StartStep::Reject(r)) == 0
        }),
{
    let s = start_steps(false, Some(spec), p);
    assert forall|x: StartStep| #[trigger] times(s, x) == start_count(spec, p, x) by {
        lemma_start_count(spec, p, x);
    }
    reveal(start_count);
}

#[verifier::opaque]
spec fn start_count(spec: Spec, p: ContainerProcess, x: StartStep) -> nat {
    let list = listed(spec);
    let linux = spec.linux->0;
    match x {
        StartStep::StatFifo
        | StartStep::MakeFifo
        | StartStep::OpenFifo
        | StartStep::CloseFifo => once(p.init),
        StartStep::OpenPipes | StartStep::Spawn | StartStep::ReadPid => 1,
        StartStep::OpenPty => once(p.tty),
        StartStep::UseStdio => once(!p.tty),
        StartStep::OpenPidNamespace(i) => once(
            is_first_pid(list, i as int) && list[i as int].path is Some,
        ),
        StartStep::Join(j) => times(join_steps(linux, p.init), j),
        StartStep::PinNamespace(i) => once(p.init && i < list.len() && is_kept(list[i as int])),
        StartStep::Reject(_) => 0,
    }
}

proof fn lemma_start_count(spec: Spec, p: ContainerProcess, x: StartStep)
    requires
        can_start(Some(spec), p),
    ensures
        times(start_steps(false, Some(spec), p), x) == start_count(spec, p, x),
{
    let list = listed(spec);
    let linux = spec.linux->0;
    if let Some(v) = linux.namespaces {
        assert(v.len() == v@.len());
    }
    lemma_first_pid(list);
    let first = first_pid_namespace(list)->0;
    assert(is_first_pid(list, first));
    let head = fifo_steps(p.init) + stdio_steps(p.tty);
    let open = step_when(list[first].path is Some, StartStep::OpenPidNamespace(first as usize));
    let tail = spawn_steps(linux, p.init);
    lemma_head_count(p, x);
    lemma_times_when(list[first].path is Some, StartStep::OpenPidNamespace(first as usize), x);
    lemma_spawn_count(linux, p.init, x);
    super::count::lemma_times_add(head, open, x);
    super::count::lemma_times_add(head + open, tail, x);
    assert(start_steps(false, Some(spec), p) == head + open + tail);
    reveal(head_count);
    reveal(spawn_count);
    reveal(start_count);
    if let StartStep::OpenPidNamespace(i) = x {
        assert(first_pid_namespace(list) == Some(i as int) <==> is_first_pid(list, i as int));
    }
}

/// The stage of a step of a start.
pub open spec fn stage_of(step: StartStep) -> Option<int> {
    match step {
        StartStep::StatFifo => Some(0),
        StartStep::MakeFifo => Some(1),
        StartStep::OpenFifo => Some(2),
        StartStep::OpenPipes => Some(3),
        StartStep::OpenPty => Some(4),
        StartStep::UseStdio => Some(4),
        StartStep::OpenPidNamespace(_) => Some(5),
        StartStep::Spawn => Some(6),
        StartStep::ReadPid => Some(7),
        StartStep::CloseFifo => Some(8),
        StartStep::Join(_) => Some(9),
        StartStep::PinNamespace(i) => Some(10 + i),
        StartStep::Reject(_) => None,
    }
}

/// The stages of the steps of a start.
pub open spec fn stages() -> spec_fn(StartStep) -> Option<int> {
    |step: StartStep| stage_of(step)
}

proof fn lemma_pin_staged(list: Seq<LinuxNamespace>)
    requires
        list.len() <= usize::MAX,
    ensures
        staged(pin_steps(list), stages(), 10, 10 + list.len() as int),
    decreases list.len(),
{
    if list.len() > 0 {
        lemma_pin_staged(list.drop_last());
        let last = step_when(
            crate::container::to_pin(list.last()),
            StartStep::PinNamespace((list.len() - 1) as usize),
        );
        assert(staged(last, stages(), 9 + list.len() as int, 10 + list.len() as int));
        lemma_staged_add(
            pin_steps(list.drop_last()),
            last,
            stages(),
            10,
            9 + list.len() as int,
            10 + list.len() as int,
        );
    }
}

/// The steps of a start come in the order of their stages.
pub proof fn law_steps_of_a_start_come_in_order(
    spec: Spec,
    p: ContainerProcess,
    a: StartStep,
    b: StartStep,
)
    requires
        can_start(Some(spec), p),
        stage_of(a) is Some && stage_of(b) is Some,
        stage_of(a)->0 < stage_of(b)->0,
    ensures
        before(start_steps(false, Some(spec), p), a, b),
{
    let list = listed(spec);
    let linux = spec.linux->0;
    if let Some(v) = linux.namespaces {
        assert(v.len() == v@.len());
    }
    let st = stages();
    lemma_first_pid(list);
    let first = first_pid_namespace(list)->0;
    assert(is_first_pid(list, first));
    let fifo = fifo_steps(p.init);
    let stdio = stdio_steps(p.tty);
    let open = step_when(list[first].path is Some, StartStep::OpenPidNamespace(first as usize));
    let s0 = seq![StartStep::Spawn, StartStep::ReadPid];
    let s1 = step_when(p.init, StartStep::CloseFifo);
    let s2 = join_steps(linux, p.init).map_values(|j: JoinStep| StartStep::Join(j));
    let s3 = if p.init {
        pin_steps(list)
    } else {
        Seq::empty()
    };
    let top = 10 + list.len() as int;
    lemma_pin_staged(list);
    assert(staged(fifo, st, 0, 3));
    assert(staged(stdio, st, 3, 5));
    assert(staged(open, st, 5, 6));
    assert(staged(s0, st, 6, 8));
    assert(staged(s1, st, 8, 9));
    assert(staged(s2, st, 9, 10));
    assert(staged(s3, st, 10, top));
    lemma_staged_add(s0, s1, st, 6, 8, 9);
    lemma_staged_add(s0 + s1, s2, st, 6, 9, 10);
    lemma_staged_add(s0 + s1 + s2, s3, st, 6, 10, top);
    lemma_staged_add(fifo, stdio, st, 0, 3, 5);
    lemma_staged_add(fifo + stdio, open, st, 0, 5, 6);
    lemma_staged_add(fifo + stdio + open, spawn_steps(linux, p.init), st, 0, 6, top);
    lemma_staged_before(start_steps(false, Some(spec), p), st, 0, top, a, b);
}

/// Which failures a start survives: only that of closing the exec FIFO. Once the pid of the
/// init process is known, a failure kills that process. A FIFO that is there already and a
/// message that holds no pid end the start.
pub proof fn law_a_failed_start_leaves_no_process(
    step: StartStep,
    errno: i32,
    pid: i32,
    there: bool,
    m: Vec<u8>,
)
    ensures
        start_judged(step, StartOutcome::Done, pid) == StartVerdict::Next,
        start_judged(step, StartOutcome::Failed(errno), pid) == StartVerdict::Next <==> step
            is CloseFifo,
        start_judged(step, StartOutcome::Failed(errno), pid) == StartVerdict::KillAndAbort(pid)
            <==> step is Join || step is PinNamespace,
        !(step is CloseFifo || step is Join || step is PinNamespace) ==> start_judged(
            step,
            StartOutcome::Failed(errno),
            pid,
        ) == StartVerdict::Abort,
        start_judged(StartStep::StatFifo, StartOutcome::Exists(there), pid) == if there {
            StartVerdict::FifoExists
        } else {
            StartVerdict::Next
        },
        start_judged(StartStep::ReadPid, StartOutcome::Pid(m), pid) == if pid_of(m@) is Some {
            StartVerdict::Next
        } else {
            StartVerdict::BadPid
        },
{
}

/// The pid is the number that the message writes in decimal; a message that is no text has
/// none.
pub proof fn law_the_pid_is_the_number_of_the_message(m: Seq<u8>, n: i32)
    ensures
        !vstd::utf8::valid_utf8(m) ==> pid_of(m) is None,
        vstd::utf8::valid_utf8(m) && vstd::utf8::decode_utf8(m) == signed_decimal(n as int)
            ==> pid_of(m) == Some(n as int),
{
    crate::text::law_signed_decimals_are_read_back(n as int, i32::MIN as int, i32::MAX as int);
}

/// A destruction kills each process of the container, in order, notes that the container has
/// stopped, and then asks the cgroup what is left; it kills each of those, and then removes
/// the cgroup, unmounts the root filesystem and removes the directory, in this order.
pub proof fn law_a_destruction_leaves_nothing(
    processes: Seq<ContainerProcess>,
    pids: Seq<i32>,
    i: int,
)
    ensures
        ({
            let s = destroy_steps(processes);
            let n = processes.len() as int;
            &&& s.len() == n + 2
            &&& 0 <= i < n ==> s[i] == DestroyStep::Kill(processes[i].pid)
            &&& s[n] == DestroyStep::MarkStopped
            &&& s[n + 1] == DestroyStep::ListCgroup
        }),
        ({
            let s = cleanup_steps(pids);
            let n = pids.len() as int;
            &&& s.len() == n + 3
            &&& 0 <= i < n ==> s[i] == DestroyStep::KillLeftover(pids[i])
            &&& s[n] == DestroyStep::RemoveCgroup
            &&& s[n + 1] == DestroyStep::Unmount
            &&& s[n + 2] == DestroyStep::RemoveRoot
        }),
{
}

/// A process starts with its own capabilities, or with those of the container process where it
/// has none.
pub proof fn law_which_capabilities_a_process_starts_with(p: ContainerProcess, spec: Spec)
    ensures
        p.capabilities is Some ==> crate::start::start_capabilities(p, spec) == p.capabilities,
        p.capabilities is None && spec.process is Some ==> crate::start::start_capabilities(p, spec)
            == spec.process->0.capabilities,
        p.capabilities is None && spec.process is None ==> crate::start::start_capabilities(
            p,
            spec,
        ) is None,
{
}

} // verus!
