//! Starting and destroying a container, as the agent does it.
//!
//! A start is a list of steps. The caller performs one after the other and reports
//! how each went; the run then says whether to go on, and what to clean up if not.
use vstd::prelude::*;

use crate::container::{
    first_pid_namespace, get_pid_namespace, is_userns_enabled, maps_users, to_pin, ContainerError,
    ContainerErrorView, ContainerProcess, ContainerState, LinuxContainer,
};
use crate::init_child::{accepted, init_steps, prelude_steps, InitStep, EINVAL};
use crate::oci::{Capabilities, Linux, LinuxNamespace, Process, Spec};
use crate::sync::utf8_text;
use crate::text::{chars_of, int_of, parse_i32};

verus! {

/// `ESRCH`.
pub const ESRCH: i32 = 3;

/// One step of handing a configuration to the init process.
#[derive(Clone, Copy, Debug, PartialEq, Eq, Structural)]
pub enum JoinStep {
    /// Send the configuration.
    SendSpec,
    /// Send the process.
    SendProcess,
    /// Send an acknowledgement.
    SendContinue,
    /// Wait for a message of the child.
    AwaitChild,
    /// Map the users.
    WriteUidMap,
    /// Map the groups.
    WriteGidMap,
    /// Put the process into its cgroup.
    ApplyCgroup,
    /// Set the limits of the cgroup.
    SetCgroup,
}

/// One step of a start.
#[derive(Clone, Copy, Debug, PartialEq, Eq, Structural)]
pub enum StartStep {
    /// Refuse.
    Reject(StartReject),
    /// See whether the exec FIFO is there.
    StatFifo,
    /// Make the exec FIFO.
    MakeFifo,
    /// Open the exec FIFO.
    OpenFifo,
    /// Open the log pipe and the two message pipes.
    OpenPipes,
    /// Open a terminal for the process.
    OpenPty,
    /// Take the standard streams of the process.
    UseStdio,
    /// Open the pid namespace to join.
    OpenPidNamespace(usize),
    /// Start the init process.
    Spawn,
    /// Receive the pid of the init process.
    ReadPid,
    /// Close the exec FIFO.
    CloseFifo,
    /// Hand the configuration over.
    Join(JoinStep),
    /// Open the file of a namespace and pin it.
    PinNamespace(usize),
}

/// Why a start is refused.
#[derive(Clone, Copy, Debug, PartialEq, Eq, Structural)]
pub enum StartReject {
    ExecIdExists,
    NoSpec,
    NoLinux,
    NoProcess,
    MissingCapabilities,
    NoPidNamespace,
}

/// A step where a condition holds, no step where it does not.
pub open spec fn step_when(cond: bool, step: StartStep) -> Seq<StartStep> {
    if cond {
        seq![step]
    } else {
        Seq::empty()
    }
}

fn push_step_when(steps: &mut Vec<StartStep>, cond: bool, step: StartStep)
    ensures
        final(steps)@ == old(steps)@ + step_when(cond, step),
{
    if cond {
        steps.push(step);
    }
    proof {
        assert(steps@ =~= old(steps)@ + step_when(cond, step));
    }
}

/// The steps of handing a configuration over. The child waits for its user mapping
/// and for its cgroup before it goes on.
pub open spec fn join_steps(linux: Linux, init: bool) -> Seq<JoinStep> {
    seq![
        JoinStep::SendSpec,
        JoinStep::AwaitChild,
        JoinStep::SendProcess,
        JoinStep::AwaitChild,
        JoinStep::AwaitChild,
    ] + (if maps_users(linux) {
        seq![JoinStep::WriteUidMap, JoinStep::WriteGidMap]
    } else {
        Seq::empty()
    }) + (if linux.resources is Some {
        seq![JoinStep::ApplyCgroup]
    } else {
        Seq::empty()
    }) + (if linux.resources is Some && init {
        seq![JoinStep::SetCgroup]
    } else {
        Seq::empty()
    }) + seq![JoinStep::SendContinue, JoinStep::AwaitChild]
}

/// Plans how a configuration is handed to the init process.
pub fn join_plan(linux: &Linux, init: bool) -> (r: Vec<JoinStep>)
    ensures
        r@ == join_steps(*linux, init),
{
    let mut steps: Vec<JoinStep> = Vec::new();
    steps.push(JoinStep::SendSpec);
    steps.push(JoinStep::AwaitChild);
    steps.push(JoinStep::SendProcess);
    steps.push(JoinStep::AwaitChild);
    steps.push(JoinStep::AwaitChild);
    if is_userns_enabled(linux) {
        steps.push(JoinStep::WriteUidMap);
        steps.push(JoinStep::WriteGidMap);
    }
    if linux.resources.is_some() {
        steps.push(JoinStep::ApplyCgroup);
        if init {
            steps.push(JoinStep::SetCgroup);
        }
    }
    steps.push(JoinStep::SendContinue);
    steps.push(JoinStep::AwaitChild);
    proof {
        assert(steps@ =~= join_steps(*linux, init));
    }
    steps
}

/// The capabilities that a process starts with: its own, else those of the
/// container process.
pub open spec fn start_capabilities(p: ContainerProcess, spec: Spec) -> Option<Capabilities> {
    match p.capabilities {
        Some(c) => Some(c),
        None => match spec.process {
            Some(q) => q.capabilities,
            None => None,
        },
    }
}

/// Why a configuration cannot be started, where it cannot.
pub open spec fn config_reject(spec: Option<Spec>, p: ContainerProcess) -> Option<StartReject> {
    match spec {
        None => Some(StartReject::NoSpec),
        Some(s) => if s.linux is None {
            Some(StartReject::NoLinux)
        } else if p.capabilities is Some {
            None
        } else if s.process is None {
            Some(StartReject::NoProcess)
        } else if s.process->0.capabilities is None {
            Some(StartReject::MissingCapabilities)
        } else {
            None
        },
    }
}

/// The pinning of the namespaces that were created with the container.
pub open spec fn pin_steps(nses: Seq<LinuxNamespace>) -> Seq<StartStep>
    decreases nses.len(),
{
    if nses.len() == 0 {
        Seq::empty()
    } else {
        pin_steps(nses.drop_last()) + step_when(
            to_pin(nses.last()),
            StartStep::PinNamespace((nses.len() - 1) as usize),
        )
    }
}

/// The exec FIFO, which only an init process has.
pub open spec fn fifo_steps(init: bool) -> Seq<StartStep> {
    if init {
        seq![StartStep::StatFifo, StartStep::MakeFifo, StartStep::OpenFifo]
    } else {
        Seq::empty()
    }
}

/// Pipes and standard streams.
pub open spec fn stdio_steps(tty: bool) -> Seq<StartStep> {
    seq![
        StartStep::OpenPipes,
        if tty {
            StartStep::OpenPty
        } else {
            StartStep::UseStdio
        },
    ]
}

/// The steps once the pid namespace is settled.
pub open spec fn spawn_steps(linux: Linux, init: bool) -> Seq<StartStep> {
    seq![StartStep::Spawn, StartStep::ReadPid] + step_when(init, StartStep::CloseFifo)
        + join_steps(linux, init).map_values(|j: JoinStep| StartStep::Join(j)) + (if init {
        pin_steps(linux.namespace_list())
    } else {
        Seq::empty()
    })
}

/// The steps of a start of process `p` in a container with the given processes and
/// configuration.
pub open spec fn start_steps(in_use: bool, spec: Option<Spec>, p: ContainerProcess) -> Seq<
    StartStep,
> {
    if in_use {
        seq![StartStep::Reject(StartReject::ExecIdExists)]
    } else {
        match config_reject(spec, p) {
            Some(r) => fifo_steps(p.init).push(StartStep::Reject(r)),
            None => {
                let linux = spec->0.linux->0;
                let nses = linux.namespace_list();
                let head = fifo_steps(p.init) + stdio_steps(p.tty);
                match first_pid_namespace(nses) {
                    None => head.push(StartStep::Reject(StartReject::NoPidNamespace)),
                    Some(i) => head + step_when(
                        nses[i].path is Some,
                        StartStep::OpenPidNamespace(i as usize),
                    ) + spawn_steps(linux, p.init),
                }
            },
        }
    }
}

fn push_spawn(steps: &mut Vec<StartStep>, linux: &Linux, init: bool)
    ensures
        final(steps)@ == old(steps)@ + spawn_steps(*linux, init),
{
    steps.push(StartStep::Spawn);
    steps.push(StartStep::ReadPid);
    push_step_when(steps, init, StartStep::CloseFifo);
    let ghost head = steps@;
    let joins = join_plan(linux, init);
    let ghost wrap = |j: JoinStep| StartStep::Join(j);
    let mut i: usize = 0;
    proof {
        assert(joins@.take(0).map_values(wrap) =~= Seq::<StartStep>::empty());
        assert(steps@ =~= head + joins@.take(0).map_values(wrap));
    }
    while i < joins.len()
        invariant
            i <= joins.len(),
            wrap == (|j: JoinStep| StartStep::Join(j)),
            steps@ == head + joins@.take(i as int).map_values(wrap),
        decreases joins.len() - i,
    {
        steps.push(StartStep::Join(joins[i]));
        i += 1;
        proof {
            assert(steps@ =~= head + joins@.take(i as int).map_values(wrap));
        }
    }
    proof {
        assert(joins@.take(joins@.len() as int) =~= joins@);
    }
    let ghost joined = steps@;
    if init {
        if let Some(v) = &linux.namespaces {
            let mut k: usize = 0;
            proof {
                assert(v@.take(0) =~= Seq::<LinuxNamespace>::empty());
                assert(steps@ =~= joined + pin_steps(v@.take(0)));
            }
            while k < v.len()
                invariant
                    k <= v.len(),
                    steps@ == joined + pin_steps(v@.take(k as int)),
                decreases v.len() - k,
            {
                proof {
                    assert(v@.take(k + 1).drop_last() =~= v@.take(k as int));
                    assert(v@.take(k + 1).last() == v@[k as int]);
                }
                let pin = v[k].typ != crate::oci::NamespaceType::Time && !v[k].has_path();
                let ghost now = steps@;
                push_step_when(steps, pin, StartStep::PinNamespace(k));
                proof {
                    assert(steps@ =~= joined + pin_steps(v@.take(k + 1)));
                }
                k += 1;
            }
            proof {
                assert(v@.take(v@.len() as int) =~= v@);
            }
        }
    }
    proof {
        assert(steps@ =~= old(steps)@ + spawn_steps(*linux, init));
    }
}

/// Plans a start: an id is used once, the exec FIFO must be new, and the
/// configuration must name what the process needs.
pub fn start_plan(c: &LinuxContainer, p: &ContainerProcess) -> (r: Vec<StartStep>)
    ensures
        r@ == start_steps(c.processes@.contains_key(p.exec_id@), c.config.spec, *p),
{
    let mut steps: Vec<StartStep> = Vec::new();
    if c.processes.contains_key(p.exec_id.as_str()) {
        steps.push(StartStep::Reject(StartReject::ExecIdExists));
        return steps;
    }
    if p.init {
        steps.push(StartStep::StatFifo);
        steps.push(StartStep::MakeFifo);
        steps.push(StartStep::OpenFifo);
    }
    proof {
        assert(steps@ =~= fifo_steps(p.init));
    }
    let spec = match &c.config.spec {
        Some(s) => s,
        None => {
            steps.push(StartStep::Reject(StartReject::NoSpec));
            return steps;
        },
    };
    let linux = match &spec.linux {
        Some(l) => l,
        None => {
            steps.push(StartStep::Reject(StartReject::NoLinux));
            return steps;
        },
    };
    if p.capabilities.is_none() {
        match &spec.process {
            None => {
                steps.push(StartStep::Reject(StartReject::NoProcess));
                return steps;
            },
            Some(q) => {
                if q.capabilities.is_none() {
                    steps.push(StartStep::Reject(StartReject::MissingCapabilities));
                    return steps;
                }
            },
        }
    }
    steps.push(StartStep::OpenPipes);
    if p.tty {
        steps.push(StartStep::OpenPty);
    } else {
        steps.push(StartStep::UseStdio);
    }
    let ghost head = fifo_steps(p.init) + stdio_steps(p.tty);
    proof {
        assert(steps@ =~= head);
    }
    match get_pid_namespace(linux) {
        Err(_) => {
            steps.push(StartStep::Reject(StartReject::NoPidNamespace));
            return steps;
        },
        Ok(Some(i)) => {
            steps.push(StartStep::OpenPidNamespace(i));
            proof {
                assert(steps@ =~= head + step_when(true, StartStep::OpenPidNamespace(i)));
            }
        },
        Ok(None) => {
            proof {
                assert(steps@ =~= head + Seq::<StartStep>::empty());
            }
        },
    }
    push_spawn(&mut steps, linux, p.init);
    steps
}

/// How a step of a start went.
#[derive(Debug)]
pub enum StartOutcome {
    /// It was done.
    Done,
    /// It failed with an error number.
    Failed(i32),
    /// Whether the exec FIFO is there.
    Exists(bool),
    /// The message with the pid of the init process.
    Pid(Vec<u8>),
}

/// What follows from the outcome of a step of a start.
#[derive(Clone, Copy, Debug, PartialEq, Eq, Structural)]
pub enum StartVerdict {
    /// Go on with the next step.
    Next,
    /// Leave with the error of the step.
    Abort,
    /// Kill the process with this pid and leave with the error of the step.
    KillAndAbort(i32),
    /// Leave: the exec FIFO was there.
    FifoExists,
    /// Leave: the message holds no pid.
    BadPid,
}

/// The pid that a message writes in decimal.
pub open spec fn pid_of(message: Seq<u8>) -> Option<int> {
    if vstd::utf8::valid_utf8(message) {
        int_of(vstd::utf8::decode_utf8(message), i32::MIN as int, i32::MAX as int)
    } else {
        None
    }
}

fn read_pid(message: Vec<u8>) -> (r: Option<i32>)
    ensures
        match r {
            Some(n) => pid_of(message@) == Some(n as int),
            None => pid_of(message@) is None,
        },
{
    match utf8_text(message) {
        Some(s) => {
            let c = chars_of(s.as_str());
            parse_i32(c.as_slice())
        },
        None => None,
    }
}

/// What `Debug` shows of the error with which `str::parse` refuses a text that writes no
/// number of 32 bits.
pub uninterp spec fn number_fault(text: Seq<char>) -> Seq<char>;

/// `str::parse` reads a number of 32 bits with a sign, and refuses every other text with an
/// error that depends on the text alone. How `Debug` shows the error is not stated.
#[verifier::external_body]
fn number_refusal(text: &str) -> (r: Option<String>)
    ensures
        match r {
            None => int_of(text@, i32::MIN as int, i32::MAX as int) is Some,
            Some(fault) => int_of(text@, i32::MIN as int, i32::MAX as int) is None && fault@
                == number_fault(text@),
        },
{
    match text.parse::<i32>() {
        Ok(_) => None,
        Err(e) => Some(format!("{:?}", e)),
    }
}

/// Why a message holds no pid; nothing where it holds one.
pub fn pid_error(message: Vec<u8>) -> (r: Option<ContainerError>)
    ensures
        match r {
            None => pid_of(message@) is Some,
            Some(e) => {
                &&& pid_of(message@) is None
                &&& e@ == if vstd::utf8::valid_utf8(message@) {
                    ContainerErrorView::BadPid(number_fault(vstd::utf8::decode_utf8(message@)))
                } else {
                    ContainerErrorView::PidNotText
                }
            },
        },
{
    match utf8_text(message) {
        Some(text) => match number_refusal(text.as_str()) {
            Some(fault) => Some(ContainerError::BadPid(fault)),
            None => None,
        },
        None => Some(ContainerError::PidNotText),
    }
}

/// What follows from the outcome of a step. Once the init process has told its pid,
/// a failure kills it: it is not known to the container yet, and would wait for ever.
pub open spec fn start_judged(step: StartStep, outcome: StartOutcome, pid: i32) -> StartVerdict {
    match outcome {
        StartOutcome::Done => StartVerdict::Next,
        StartOutcome::Exists(there) => if step == StartStep::StatFifo && there {
            StartVerdict::FifoExists
        } else {
            StartVerdict::Next
        },
        StartOutcome::Pid(m) => if step == StartStep::ReadPid && pid_of(m@) is None {
            StartVerdict::BadPid
        } else {
            StartVerdict::Next
        },
        StartOutcome::Failed(_) => match step {
            StartStep::CloseFifo => StartVerdict::Next,
            StartStep::Join(_) => StartVerdict::KillAndAbort(pid),
            StartStep::PinNamespace(_) => StartVerdict::KillAndAbort(pid),
            _ => StartVerdict::Abort,
        },
    }
}

/// A start in progress.
#[derive(Debug)]
pub struct StartRun {
    pub steps: Vec<StartStep>,
    pub at: usize,
    pub process: ContainerProcess,
}

impl StartRun {
    /// Whether the position lies in the plan or right behind it.
    pub open spec fn wf(self) -> bool {
        self.at <= self.steps@.len()
    }

    /// A start before its first step. A process without capabilities inherits those
    /// of the container process.
    pub fn new(c: &LinuxContainer, process: ContainerProcess) -> (r: StartRun)
        ensures
            r.wf(),
            r.at == 0,
            r.steps@ == start_steps(
                c.processes@.contains_key(process.exec_id@),
                c.config.spec,
                process,
            ),
            r.process == (ContainerProcess {
                capabilities: match c.config.spec {
                    Some(s) => start_capabilities(process, s),
                    None => process.capabilities,
                },
                ..process
            }),
    {
        let steps = start_plan(c, &process);
        let capabilities = match process.capabilities {
            Some(v) => Some(v),
            None => match &c.config.spec {
                Some(s) => match &s.process {
                    Some(q) => q.capabilities,
                    None => None,
                },
                None => None,
            },
        };
        StartRun {
            steps,
            at: 0,
            process: ContainerProcess { capabilities, ..process },
        }
    }

    /// The step to perform.
    pub fn current(&self) -> (r: Option<StartStep>)
        requires
            self.wf(),
        ensures
            r == if self.at < self.steps@.len() {
                Some(self.steps@[self.at as int])
            } else {
                None
            },
    {
        if self.at < self.steps.len() {
            Some(self.steps[self.at])
        } else {
            None
        }
    }

    /// Takes the outcome of the current step. The pid of an init process is noted in
    /// the container as soon as it is known.
    pub fn report(&mut self, c: &mut LinuxContainer, outcome: StartOutcome) -> (r: StartVerdict)
        requires
            old(self).wf(),
            old(self).at < old(self).steps@.len(),
            old(self).steps@[old(self).at as int] !is Reject,
        ensures
            ({
                let step = old(self).steps@[old(self).at as int];
                let pid = match outcome {
                    StartOutcome::Pid(m) => if step == StartStep::ReadPid {
                        pid_of(m@)
                    } else {
                        None
                    },
                    _ => None,
                };
                &&& r == start_judged(step, outcome, old(self).process.pid)
                &&& final(self).wf()
                &&& final(self).steps@ == old(self).steps@
                &&& final(self).at == if r == StartVerdict::Next {
                    old(self).at + 1
                } else {
                    old(self).at as int
                }
                &&& final(self).process == (ContainerProcess {
                    pid: match pid {
                        Some(n) => n as i32,
                        None => old(self).process.pid,
                    },
                    ..old(self).process
                })
                &&& *final(c) == (LinuxContainer {
                    init_process_pid: if pid is Some && old(self).process.init {
                        pid->0 as i32
                    } else {
                        old(c).init_process_pid
                    },
                    ..*old(c)
                })
            }),
    {
        assert(self.at < self.steps.len());
        let step = self.steps[self.at];
        let verdict = match outcome {
            StartOutcome::Done => StartVerdict::Next,
            StartOutcome::Exists(there) => {
                if step == StartStep::StatFifo && there {
                    StartVerdict::FifoExists
                } else {
                    StartVerdict::Next
                }
            },
            StartOutcome::Pid(m) => {
                if step == StartStep::ReadPid {
                    match read_pid(m) {
                        Some(pid) => {
                            self.process.pid = pid;
                            if self.process.init {
                                c.init_process_pid = pid;
                            }
                            StartVerdict::Next
                        },
                        None => StartVerdict::BadPid,
                    }
                } else {
                    StartVerdict::Next
                }
            },
            StartOutcome::Failed(_) => match step {
                StartStep::CloseFifo => StartVerdict::Next,
                StartStep::Join(_) => StartVerdict::KillAndAbort(self.process.pid),
                StartStep::PinNamespace(_) => StartVerdict::KillAndAbort(self.process.pid),
                _ => StartVerdict::Abort,
            },
        };
        if verdict == StartVerdict::Next {
            self.at = self.at + 1;
        }
        verdict
    }

    /// Makes the process known to its container, once every step was performed.
    pub fn finish(self, c: &mut LinuxContainer)
        requires
            self.wf(),
            self.at == self.steps@.len(),
        ensures
            final(c).processes@ == old(c).processes@.insert(self.process.exec_id@, self.process),
            final(c).id == old(c).id,
            final(c).root == old(c).root,
            final(c).cpath == old(c).cpath,
            final(c).config == old(c).config,
            final(c).init_process_pid == old(c).init_process_pid,
            final(c).status == old(c).status,
    {
        let key = self.process.exec_id.clone();
        c.processes.insert(key, self.process);
    }
}

/// A start that is not refused at once never displaces a process of the container:
/// when it is done, all the processes are there with the new one.
pub proof fn law_start_displaces_no_process(
    before: Map<Seq<char>, ContainerProcess>,
    spec: Option<Spec>,
    p: ContainerProcess,
    started: ContainerProcess,
)
    requires
        start_steps(before.contains_key(p.exec_id@), spec, p).last() !is Reject,
    ensures
        !before.contains_key(p.exec_id@),
        forall|k: Seq<char>| #[trigger]
            before.contains_key(k) ==> before.insert(p.exec_id@, started).contains_key(k)
                && before.insert(p.exec_id@, started)[k] == before[k],
{
}

/// Who speaks, as one side sees it.
#[derive(Clone, Copy, Debug, PartialEq, Eq, Structural)]
pub enum Talk {
    /// This side sends a message.
    Say,
    /// This side waits for a message.
    Hear,
}

/// What the other side does meanwhile.
pub open spec fn answer(t: Talk) -> Talk {
    match t {
        Talk::Say => Talk::Hear,
        Talk::Hear => Talk::Say,
    }
}

/// What the child says and hears in its steps.
pub open spec fn child_talk(steps: Seq<InitStep>) -> Seq<Talk>
    decreases steps.len(),
{
    if steps.len() == 0 {
        Seq::empty()
    } else {
        let before = child_talk(steps.drop_last());
        match steps.last() {
            InitStep::ReadSpec => before.push(Talk::Hear),
            InitStep::ReadProcess => before.push(Talk::Hear),
            InitStep::WaitParent => before.push(Talk::Hear),
            InitStep::NotifyParent => before.push(Talk::Say),
            _ => before,
        }
    }
}

/// What the parent says and hears in its steps.
pub open spec fn parent_talk(steps: Seq<JoinStep>) -> Seq<Talk>
    decreases steps.len(),
{
    if steps.len() == 0 {
        Seq::empty()
    } else {
        let before = parent_talk(steps.drop_last());
        match steps.last() {
            JoinStep::SendSpec => before.push(Talk::Say),
            JoinStep::SendProcess => before.push(Talk::Say),
            JoinStep::SendContinue => before.push(Talk::Say),
            JoinStep::AwaitChild => before.push(Talk::Hear),
            _ => before,
        }
    }
}

proof fn lemma_child_talk_add(a: Seq<InitStep>, b: Seq<InitStep>)
    ensures
        child_talk(a + b) == child_talk(a) + child_talk(b),
    decreases b.len(),
{
    if b.len() == 0 {
        assert(a + b =~= a);
        assert(child_talk(a) + child_talk(b) =~= child_talk(a));
    } else {
        lemma_child_talk_add(a, b.drop_last());
        assert((a + b).drop_last() =~= a + b.drop_last());
        assert((a + b).last() == b.last());
        assert(child_talk(a + b) =~= child_talk(a) + child_talk(b));
    }
}

spec fn silent(step: InitStep) -> bool {
    step != InitStep::ReadSpec && step != InitStep::ReadProcess && step != InitStep::WaitParent
        && step != InitStep::NotifyParent
}

proof fn lemma_silent(steps: Seq<InitStep>)
    requires
        forall|i: int| 0 <= i < steps.len() ==> silent(#[trigger] steps[i]),
    ensures
        child_talk(steps) == Seq::<Talk>::empty(),
    decreases steps.len(),
{
    if steps.len() > 0 {
        assert(silent(steps[steps.len() - 1]));
        assert forall|i: int| 0 <= i < steps.drop_last().len() implies silent(
            #[trigger] steps.drop_last()[i],
        ) by {
            assert(silent(steps[i]));
        }
        lemma_silent(steps.drop_last());
    }
}

proof fn lemma_opens_silent(nses: Seq<LinuxNamespace>)
    ensures
        forall|i: int|
            0 <= i < crate::init_child::open_steps(nses).len() ==> silent(
                #[trigger] crate::init_child::open_steps(nses)[i],
            ),
        forall|i: int|
            0 <= i < crate::init_child::join_steps(nses).len() ==> silent(
                #[trigger] crate::init_child::join_steps(nses)[i],
            ),
    decreases nses.len(),
{
    if nses.len() > 0 {
        lemma_opens_silent(nses.drop_last());
        let a = crate::init_child::open_steps(nses);
        let a0 = crate::init_child::open_steps(nses.drop_last());
        assert forall|i: int| 0 <= i < a.len() implies silent(#[trigger] a[i]) by {
            if i < a0.len() {
                assert(a[i] == a0[i]);
            }
        }
        let b = crate::init_child::join_steps(nses);
        let b0 = crate::init_child::join_steps(nses.drop_last());
        let one = crate::init_child::join_one(nses.len() - 1, nses.last());
        assert forall|i: int| 0 <= i < b.len() implies silent(#[trigger] b[i]) by {
            if i < b0.len() {
                assert(b[i] == b0[i]);
            } else {
                assert(b[i] == one[i - b0.len()]);
            }
        }
    }
}

/// The child's side of the exchange once the configuration is known: it tells that
/// its user namespace is there, waits, and tells that it is ready.
proof fn lemma_plan_talk(spec: Spec, process: Process, init: bool, no_pivot: bool)
    requires
        accepted(spec),
    ensures
        child_talk(init_steps(spec, process, init, no_pivot)) == seq![
            Talk::Say,
            Talk::Hear,
            Talk::Say,
        ],
{
    let nses = spec.linux->0.namespace_list();
    let sec = spec.linux->0.seccomp;
    let p = spec.process->0;
    let user = crate::init_child::created(nses).user;
    let a = crate::init_child::open_steps(nses);
    let b = crate::init_child::limit_phase(p, nses.len());
    let c = crate::init_child::user_phase(user);
    let d = crate::init_child::namespace_phase(nses);
    let e = crate::init_child::rootfs_phase(nses, no_pivot);
    let f = crate::init_child::identity_phase(process);
    let g = crate::init_child::privilege_phase(process, sec);
    let h = crate::init_child::launch_phase(process, sec, init);
    lemma_quiet_phases(p, nses, process, sec, no_pivot);
    lemma_user_talk(user);
    lemma_launch_talk(process, sec, init);
    lemma_talk_of_phases(a, b, c, d, e, f, g, h);
}

proof fn lemma_talk_of_phases(
    a: Seq<InitStep>,
    b: Seq<InitStep>,
    c: Seq<InitStep>,
    d: Seq<InitStep>,
    e: Seq<InitStep>,
    f: Seq<InitStep>,
    g: Seq<InitStep>,
    h: Seq<InitStep>,
)
    requires
        child_talk(a) == Seq::<Talk>::empty(),
        child_talk(b) == Seq::<Talk>::empty(),
        child_talk(c) == seq![Talk::Say, Talk::Hear],
        child_talk(d) == Seq::<Talk>::empty(),
        child_talk(e) == Seq::<Talk>::empty(),
        child_talk(f) == Seq::<Talk>::empty(),
        child_talk(g) == Seq::<Talk>::empty(),
        child_talk(h) == seq![Talk::Say],
    ensures
        child_talk(a + b + c + d + e + f + g + h) == seq![Talk::Say, Talk::Hear, Talk::Say],
{
    lemma_child_talk_add(a + b + c + d + e + f + g, h);
    lemma_child_talk_add(a + b + c + d + e + f, g);
    lemma_child_talk_add(a + b + c + d + e, f);
    lemma_child_talk_add(a + b + c + d, e);
    lemma_child_talk_add(a + b + c, d);
    lemma_child_talk_add(a + b, c);
    lemma_child_talk_add(a, b);
    assert(child_talk(a + b + c) =~= seq![Talk::Say, Talk::Hear]);
    assert(child_talk(a + b + c + d + e + f + g) =~= seq![Talk::Say, Talk::Hear]);
    assert(child_talk(a + b + c + d + e + f + g + h) =~= seq![Talk::Say, Talk::Hear, Talk::Say]);
}

proof fn lemma_quiet_phases(
    p: Process,
    nses: Seq<LinuxNamespace>,
    process: Process,
    seccomp: bool,
    no_pivot: bool,
)
    ensures
        child_talk(crate::init_child::open_steps(nses)) == Seq::<Talk>::empty(),
        child_talk(crate::init_child::limit_phase(p, nses.len())) == Seq::<Talk>::empty(),
        child_talk(crate::init_child::namespace_phase(nses)) == Seq::<Talk>::empty(),
        child_talk(crate::init_child::rootfs_phase(nses, no_pivot)) == Seq::<Talk>::empty(),
        child_talk(crate::init_child::identity_phase(process)) == Seq::<Talk>::empty(),
        child_talk(crate::init_child::privilege_phase(process, seccomp)) == Seq::<Talk>::empty(),
{
    lemma_opens_silent(nses);
    lemma_silent(crate::init_child::open_steps(nses));
    assert(child_talk(crate::init_child::limit_phase(p, nses.len())) == Seq::<Talk>::empty()) by {
        lemma_silent(crate::init_child::limit_phase(p, nses.len()));
    }
    assert(child_talk(crate::init_child::namespace_phase(nses)) == Seq::<Talk>::empty()) by {
        lemma_silent(crate::init_child::namespace_phase(nses));
    }
    assert(child_talk(crate::init_child::rootfs_phase(nses, no_pivot)) == Seq::<Talk>::empty()) by {
        let root = crate::init_child::change_root(no_pivot);
        assert forall|i: int| 0 <= i < root.len() implies silent(#[trigger] root[i]) by {}
        lemma_silent(crate::init_child::rootfs_phase(nses, no_pivot));
    }
    assert(child_talk(crate::init_child::identity_phase(process)) == Seq::<Talk>::empty()) by {
        lemma_silent(crate::init_child::identity_phase(process));
    }
    assert(child_talk(crate::init_child::privilege_phase(process, seccomp))
        == Seq::<Talk>::empty()) by {
        lemma_silent(crate::init_child::privilege_phase(process, seccomp));
    }
}

proof fn lemma_user_talk(user: bool)
    ensures
        child_talk(crate::init_child::user_phase(user)) == seq![Talk::Say, Talk::Hear],
{
    let x = crate::init_child::when(user, InitStep::UnshareUser);
    let y = seq![InitStep::NotifyParent, InitStep::WaitParent];
    let z = crate::init_child::when(user, InitStep::BecomeRoot);
    lemma_child_talk_add(x + y, z);
    lemma_child_talk_add(x, y);
    lemma_silent(x);
    lemma_silent(z);
    assert(y.drop_last().last() == InitStep::NotifyParent);
    assert(child_talk(y.drop_last().drop_last()) =~= Seq::<Talk>::empty());
    assert(child_talk(y.drop_last()) =~= seq![Talk::Say]);
    assert(child_talk(y) =~= seq![Talk::Say, Talk::Hear]);
    assert(child_talk(x + y + z) =~= seq![Talk::Say, Talk::Hear]);
}

proof fn lemma_launch_talk(process: Process, seccomp: bool, init: bool)
    ensures
        child_talk(crate::init_child::launch_phase(process, seccomp, init)) == seq![Talk::Say],
{
    let all = crate::init_child::launch_phase(process, seccomp, init);
    let n = crate::init_child::when(init, InitStep::TakeFifo).len() + 3;
    let x = all.take(n as int);
    let y = seq![InitStep::NotifyParent];
    let z = all.skip(n as int + 1);
    assert(all[n as int] == InitStep::NotifyParent);
    assert(all =~= x + y + z);
    lemma_child_talk_add(x + y, z);
    lemma_child_talk_add(x, y);
    assert forall|i: int| 0 <= i < x.len() implies silent(#[trigger] x[i]) by {
        assert(x[i] == all[i]);
    }
    assert forall|i: int| 0 <= i < z.len() implies silent(#[trigger] z[i]) by {
        assert(z[i] == all[i + n + 1]);
    }
    lemma_silent(x);
    lemma_silent(z);
    assert(child_talk(y.drop_last()) =~= Seq::<Talk>::empty());
    assert(child_talk(y) =~= seq![Talk::Say]);
    assert(child_talk(x + y + z) =~= seq![Talk::Say]);
}

proof fn lemma_parent_talk_add(a: Seq<JoinStep>, b: Seq<JoinStep>)
    ensures
        parent_talk(a + b) == parent_talk(a) + parent_talk(b),
    decreases b.len(),
{
    if b.len() == 0 {
        assert(a + b =~= a);
        assert(parent_talk(a) + parent_talk(b) =~= parent_talk(a));
    } else {
        lemma_parent_talk_add(a, b.drop_last());
        assert((a + b).drop_last() =~= a + b.drop_last());
        assert((a + b).last() == b.last());
        assert(parent_talk(a + b) =~= parent_talk(a) + parent_talk(b));
    }
}

proof fn lemma_join_talk(linux: Linux, init: bool)
    ensures
        parent_talk(join_steps(linux, init)) == seq![
            Talk::Say,
            Talk::Hear,
            Talk::Say,
            Talk::Hear,
            Talk::Hear,
            Talk::Say,
            Talk::Hear,
        ],
{
    let a = seq![
        JoinStep::SendSpec,
        JoinStep::AwaitChild,
        JoinStep::SendProcess,
        JoinStep::AwaitChild,
        JoinStep::AwaitChild,
    ];
    let b: Seq<JoinStep> = if maps_users(linux) {
        seq![JoinStep::WriteUidMap, JoinStep::WriteGidMap]
    } else {
        Seq::empty()
    };
    let c: Seq<JoinStep> = if linux.resources is Some {
        seq![JoinStep::ApplyCgroup]
    } else {
        Seq::empty()
    };
    let d: Seq<JoinStep> = if linux.resources is Some && init {
        seq![JoinStep::SetCgroup]
    } else {
        Seq::empty()
    };
    let e = seq![JoinStep::SendContinue, JoinStep::AwaitChild];
    lemma_parent_talk_add(a + b + c + d, e);
    lemma_parent_talk_add(a + b + c, d);
    lemma_parent_talk_add(a + b, c);
    lemma_parent_talk_add(a, b);
    assert(parent_talk(a) == seq![Talk::Say, Talk::Hear, Talk::Say, Talk::Hear, Talk::Hear]) by {
        let a4 = a.drop_last();
        let a3 = a4.drop_last();
        let a2 = a3.drop_last();
        let a1 = a2.drop_last();
        assert(a4.last() == a[3]);
        assert(a3.last() == a[2]);
        assert(a2.last() == a[1]);
        assert(a1.last() == a[0]);
        assert(parent_talk(a1.drop_last()) =~= Seq::<Talk>::empty());
        assert(parent_talk(a1) =~= seq![Talk::Say]);
        assert(parent_talk(a2) =~= seq![Talk::Say, Talk::Hear]);
        assert(parent_talk(a3) =~= seq![Talk::Say, Talk::Hear, Talk::Say]);
        assert(parent_talk(a4) =~= seq![Talk::Say, Talk::Hear, Talk::Say, Talk::Hear]);
    }
    assert(parent_talk(b) == Seq::<Talk>::empty()) by {
        if b.len() > 0 {
            assert(b.drop_last().last() == JoinStep::WriteUidMap);
            assert(parent_talk(b.drop_last().drop_last()) =~= Seq::<Talk>::empty());
            assert(parent_talk(b.drop_last()) =~= Seq::<Talk>::empty());
        }
    }
    assert(parent_talk(c) == Seq::<Talk>::empty()) by {
        if c.len() > 0 {
            assert(parent_talk(c.drop_last()) =~= Seq::<Talk>::empty());
        }
    }
    assert(parent_talk(d) == Seq::<Talk>::empty()) by {
        if d.len() > 0 {
            assert(parent_talk(d.drop_last()) =~= Seq::<Talk>::empty());
        }
    }
    assert(parent_talk(e) == seq![Talk::Say, Talk::Hear]) by {
        assert(e.drop_last().last() == JoinStep::SendContinue);
        assert(parent_talk(e.drop_last().drop_last()) =~= Seq::<Talk>::empty());
        assert(parent_talk(e.drop_last()) =~= seq![Talk::Say]);
    }
    assert(parent_talk(a + b + c + d) =~= parent_talk(a));
    assert(parent_talk(a) + parent_talk(e) =~= seq![
        Talk::Say,
        Talk::Hear,
        Talk::Say,
        Talk::Hear,
        Talk::Hear,
        Talk::Say,
        Talk::Hear,
    ]);
}

/// Parent and child of an accepted configuration agree on who speaks: whenever one
/// sends, the other waits, up to the message with which the child is ready.
pub proof fn law_handshake_agrees(
    spec: Spec,
    process: Process,
    init: bool,
    no_pivot: bool,
    pidns: bool,
)
    requires
        accepted(spec),
    ensures
        child_talk(prelude_steps(pidns) + init_steps(spec, process, init, no_pivot)) == parent_talk(
            join_steps(spec.linux->0, init),
        ).map_values(|t: Talk| answer(t)),
{
    let pre = prelude_steps(pidns);
    let plan = init_steps(spec, process, init, no_pivot);
    lemma_child_talk_add(pre, plan);
    lemma_plan_talk(spec, process, init, no_pivot);
    lemma_join_talk(spec.linux->0, init);
    lemma_prelude_talk(pidns);
    assert(child_talk(pre) + child_talk(plan) =~= parent_talk(
        join_steps(spec.linux->0, init),
    ).map_values(|t: Talk| answer(t)));
}

proof fn lemma_prelude_talk(pidns: bool)
    ensures
        child_talk(prelude_steps(pidns)) == seq![Talk::Hear, Talk::Say, Talk::Hear, Talk::Say],
{
    let s6 = prelude_steps(pidns);
    let s5 = s6.drop_last();
    let s4 = s5.drop_last();
    let s3 = s4.drop_last();
    let s2 = s3.drop_last();
    assert forall|i: int| 0 <= i < s2.len() implies silent(#[trigger] s2[i]) by {
        assert(s2[i] == s6[i]);
    }
    lemma_silent(s2);
    assert(s3.last() == s6[2]);
    assert(s4.last() == s6[3]);
    assert(s5.last() == s6[4]);
    assert(child_talk(s3) =~= seq![Talk::Hear]);
    assert(child_talk(s4) =~= seq![Talk::Hear, Talk::Say]);
    assert(child_talk(s5) =~= seq![Talk::Hear, Talk::Say, Talk::Hear]);
    assert(child_talk(s6) =~= seq![Talk::Hear, Talk::Say, Talk::Hear, Talk::Say]);
}

/// One step of destroying a container.
#[derive(Clone, Copy, Debug, PartialEq, Eq, Structural)]
pub enum DestroyStep {
    /// Kill a process of the container.
    Kill(i32),
    /// Note that the container has stopped.
    MarkStopped,
    /// Ask the cgroup for the processes that are left.
    ListCgroup,
    /// Kill a process that the cgroup still holds.
    KillLeftover(i32),
    /// Remove the cgroup.
    RemoveCgroup,
    /// Unmount the root filesystem.
    Unmount,
    /// Remove the directory of the container.
    RemoveRoot,
}

/// The first half of a destruction: kill what the container knows of.
pub open spec fn destroy_steps(processes: Seq<ContainerProcess>) -> Seq<DestroyStep> {
    processes.map_values(|p: ContainerProcess| DestroyStep::Kill(p.pid)) + seq![
        DestroyStep::MarkStopped,
        DestroyStep::ListCgroup,
    ]
}

/// The second half: kill what the cgroup still holds, and clean up.
pub open spec fn cleanup_steps(pids: Seq<i32>) -> Seq<DestroyStep> {
    pids.map_values(|p: i32| DestroyStep::KillLeftover(p)) + seq![
        DestroyStep::RemoveCgroup,
        DestroyStep::Unmount,
        DestroyStep::RemoveRoot,
    ]
}

/// Plans the first half of a destruction.
pub fn destroy_plan(c: &LinuxContainer) -> (r: Vec<DestroyStep>)
    ensures
        r@ == destroy_steps(c.processes.values()),
{
    let mut steps: Vec<DestroyStep> = Vec::new();
    let ghost kill = |p: ContainerProcess| DestroyStep::Kill(p.pid);
    let ghost all = c.processes.values();
    let mut i: usize = 0;
    proof {
        assert(steps@ =~= all.take(0).map_values(kill));
    }
    while i < c.processes.len()
        invariant
            i <= all.len(),
            all == c.processes.values(),
            all.len() == c.processes.entries().len(),
            kill == (|p: ContainerProcess| DestroyStep::Kill(p.pid)),
            steps@ == all.take(i as int).map_values(kill),
        decreases all.len() - i,
    {
        let (_key, p) = c.processes.entry(i);
        steps.push(DestroyStep::Kill(p.pid));
        i += 1;
        proof {
            assert(steps@ =~= all.take(i as int).map_values(kill));
        }
    }
    proof {
        assert(all.take(all.len() as int) =~= all);
    }
    steps.push(DestroyStep::MarkStopped);
    steps.push(DestroyStep::ListCgroup);
    proof {
        assert(steps@ =~= destroy_steps(all));
    }
    steps
}

/// Plans the second half of a destruction, for the processes that the cgroup holds.
pub fn cleanup_plan(pids: &Vec<i32>) -> (r: Vec<DestroyStep>)
    ensures
        r@ == cleanup_steps(pids@),
{
    let mut steps: Vec<DestroyStep> = Vec::new();
    let ghost kill = |p: i32| DestroyStep::KillLeftover(p);
    let mut i: usize = 0;
    proof {
        assert(steps@ =~= pids@.take(0).map_values(kill));
    }
    while i < pids.len()
        invariant
            i <= pids.len(),
            kill == (|p: i32| DestroyStep::KillLeftover(p)),
            steps@ == pids@.take(i as int).map_values(kill),
        decreases pids.len() - i,
    {
        steps.push(DestroyStep::KillLeftover(pids[i]));
        i += 1;
        proof {
            assert(steps@ =~= pids@.take(i as int).map_values(kill));
        }
    }
    proof {
        assert(pids@.take(pids@.len() as int) =~= pids@);
    }
    steps.push(DestroyStep::RemoveCgroup);
    steps.push(DestroyStep::Unmount);
    steps.push(DestroyStep::RemoveRoot);
    proof {
        assert(steps@ =~= cleanup_steps(pids@));
    }
    steps
}

/// Whether a destruction goes on after a step failed with an error number: a
/// process may be gone, what the cgroup holds is killed as far as it goes, and the
/// root filesystem may not be mounted.
pub fn destroy_goes_on(step: DestroyStep, errno: i32) -> (r: bool)
    ensures
        r == match step {
            DestroyStep::Kill(_) => errno == ESRCH,
            DestroyStep::KillLeftover(_) => true,
            DestroyStep::Unmount => errno == EINVAL,
            _ => false,
        },
{
    match step {
        DestroyStep::Kill(_) => errno == ESRCH,
        DestroyStep::KillLeftover(_) => true,
        DestroyStep::Unmount => errno == EINVAL,
        _ => false,
    }
}

/// All processes of a container, and all that its cgroup still holds, are killed before
/// its files are touched, so that a failure there leaves none of them behind.
pub proof fn law_processes_are_killed_before_files_go(
    processes: Seq<ContainerProcess>,
    pids: Seq<i32>,
    i: int,
    j: int,
)
    requires
        ({
            let steps = destroy_steps(processes) + cleanup_steps(pids);
            &&& 0 <= i < steps.len() && 0 <= j < steps.len()
            &&& steps[i] is Kill || steps[i] is KillLeftover
            &&& steps[j] is Unmount || steps[j] is RemoveRoot
        }),
    ensures
        i < j,
        forall|p: ContainerProcess| #[trigger]
            processes.contains(p) ==> destroy_steps(processes).contains(DestroyStep::Kill(p.pid)),
        forall|pid: i32| #[trigger]
            pids.contains(pid) ==> cleanup_steps(pids).contains(DestroyStep::KillLeftover(pid)),
{
    assert forall|p: ContainerProcess| #[trigger] processes.contains(p) implies destroy_steps(
        processes,
    ).contains(DestroyStep::Kill(p.pid)) by {
        let k = choose|k: int| 0 <= k < processes.len() && processes[k] == p;
        assert(destroy_steps(processes)[k] == DestroyStep::Kill(p.pid));
    }
    assert forall|pid: i32| #[trigger] pids.contains(pid) implies cleanup_steps(pids).contains(
        DestroyStep::KillLeftover(pid),
    ) by {
        let k = choose|k: int| 0 <= k < pids.len() && pids[k] == pid;
        assert(cleanup_steps(pids)[k] == DestroyStep::KillLeftover(pid));
    }
}

impl LinuxContainer {
    /// Notes that the container has stopped.
    pub fn mark_stopped(&mut self)
        ensures
            *final(self) == (LinuxContainer { status: final(self).status, ..*old(self) }),
            final(self).status.cur_status == ContainerState::Stopped,
    {
        self.status.transition(ContainerState::Stopped);
    }
}

/// The text of a refused start.
pub fn start_error(reject: StartReject, p: &ContainerProcess) -> (r: ContainerError)
    ensures
        r@ == match reject {
            StartReject::ExecIdExists => ContainerErrorView::ExecIdExists(p.exec_id@),
            StartReject::NoSpec => ContainerErrorView::NoSpec,
            StartReject::NoLinux => ContainerErrorView::NoLinux,
            StartReject::NoProcess => ContainerErrorView::NoProcess,
            StartReject::MissingCapabilities => ContainerErrorView::MissingCapabilities,
            StartReject::NoPidNamespace => ContainerErrorView::NoPidNamespace,
        },
{
    match reject {
        StartReject::ExecIdExists => ContainerError::ExecIdExists(p.exec_id.clone()),
        StartReject::NoSpec => ContainerError::NoSpec,
        StartReject::NoLinux => ContainerError::NoLinux,
        StartReject::NoProcess => ContainerError::NoProcess,
        StartReject::MissingCapabilities => ContainerError::MissingCapabilities,
        StartReject::NoPidNamespace => ContainerError::NoPidNamespace,
    }
}

} // verus!
