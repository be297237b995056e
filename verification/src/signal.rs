//! Signals to the processes of a container.
use vstd::prelude::*;

use crate::container::{ContainerProcess, LinuxContainer};
use crate::rpc::{sandbox_err_to_ttrpc, AgentError, RpcError};
use crate::sandbox::Sandbox;
use crate::start::ESRCH;
use crate::text::{
    chars_of, fields, parse_u64, split, split_on, starts_with, trim, trimmed, uint_of, views, Sep,
};

verus! {

/// The signal that ends a process at once.
pub const SIGKILL: i32 = 9;

/// The signal that asks a process to end.
pub const SIGTERM: i32 = 15;

/// The signal mask that a line of a process status gives.
pub open spec fn mask_of(line: Seq<char>) -> Option<nat> {
    let parts = split_on(line, Sep::Char(':'));
    if !("SigBlk:"@.is_prefix_of(line) || "SigIgn:"@.is_prefix_of(line) || "SigCgt:"@.is_prefix_of(
        line,
    )) {
        None
    } else if parts.len() != 2 {
        None
    } else {
        uint_of(trimmed(parts[1]), 16, u64::MAX as nat)
    }
}

/// Whether a mask names a signal.
pub open spec fn names_signal(mask: u64, signum: u32) -> bool {
    mask & (1u64 << ((signum - 1) as u64)) == (1u64 << ((signum - 1) as u64))
}

/// Whether a line of a process status names a signal.
pub open spec fn line_names(line: Seq<char>, signum: u32) -> bool {
    match mask_of(line) {
        Some(m) => names_signal(m as u64, signum),
        None => false,
    }
}

/// Whether some line of a process status names a signal.
pub open spec fn some_line_names(lines: Seq<Seq<char>>, signum: u32) -> bool {
    exists|i: int| 0 <= i < lines.len() && line_names(#[trigger] lines[i], signum)
}

/// Whether a process blocks, ignores or handles a signal, by the lines of its status;
/// a process that is gone has none. Signal 0 only asks for the process.
pub open spec fn signal_handled(status: Option<Seq<Seq<char>>>, signum: u32) -> bool {
    match status {
        None => false,
        Some(lines) => if signum == 0 {
            true
        } else if signum > 64 {
            false
        } else {
            some_line_names(lines, signum)
        },
    }
}

fn mask_in(line: &str) -> (r: Option<u64>)
    ensures
        match r {
            Some(m) => mask_of(line@) == Some(m as nat),
            None => mask_of(line@) is None,
        },
{
    let c = chars_of(line);
    let blocked = chars_of("SigBlk:");
    let ignored = chars_of("SigIgn:");
    let caught = chars_of("SigCgt:");
    if !starts_with(c.as_slice(), blocked.as_slice()) && !starts_with(
        c.as_slice(),
        ignored.as_slice(),
    ) && !starts_with(c.as_slice(), caught.as_slice()) {
        return None;
    }
    let parts = split(c.as_slice(), Sep::Char(':'));
    let ghost all = split_on(line@, Sep::Char(':'));
    proof {
        assert(all == fields(parts@));
        assert(all.len() == parts@.len());
    }
    if parts.len() != 2 {
        return None;
    }
    let mask = trim(parts[1].as_slice());
    proof {
        assert(all[1] == parts@[1]@);
    }
    parse_u64(mask.as_slice(), 16)
}

/// The status lines of a process over sequences.
pub open spec fn status_view(status: Option<Vec<String>>) -> Option<Seq<Seq<char>>> {
    match status {
        Some(v) => Some(views(v@)),
        None => None,
    }
}

/// Tells whether a process blocks, ignores or handles a signal.
pub fn is_signal_handled(status: &Option<Vec<String>>, signum: u32) -> (r: bool)
    ensures
        r == signal_handled(status_view(*status), signum),
{
    let lines = match status {
        None => {
            return false;
        },
        Some(v) => v,
    };
    if signum == 0 {
        return true;
    }
    if signum > 64 {
        return false;
    }
    let shift: u64 = (signum - 1) as u64;
    let bit: u64 = 1u64 << shift;
    let ghost all = views(lines@);
    let mut i: usize = 0;
    while i < lines.len()
        invariant
            i <= lines.len(),
            all == views(lines@),
            status_view(*status) == Some(all),
            1 <= signum <= 64,
            shift == signum - 1,
            bit == 1u64 << ((signum - 1) as u64),
            forall|k: int| 0 <= k < i ==> !line_names(#[trigger] all[k], signum),
        decreases lines.len() - i,
    {
        proof {
            assert(all[i as int] == lines@[i as int]@);
        }
        if let Some(m) = mask_in(lines[i].as_str()) {
            if m & bit == bit {
                proof {
                    assert(line_names(all[i as int], signum));
                }
                return true;
            }
        }
        i += 1;
    }
    false
}

/// A signal number as the kernel takes it: numbers beyond its range wrap around.
pub open spec fn kernel_signal(n: u32) -> int {
    if n <= i32::MAX {
        n as int
    } else {
        n - 0x1_0000_0000
    }
}

fn to_kernel(n: u32) -> (r: i32)
    ensures
        r == kernel_signal(n),
{
    let r: i32 = n as i32;
    proof {
        assert(n <= 0x7fff_ffff ==> n as i32 == n) by (bit_vector);
        assert(n > 0x7fff_ffff ==> n as i32 == n - 0x1_0000_0000) by (bit_vector);
    }
    r
}

/// Whether a request is for all processes of a container: one without a process that
/// asks for the signal that cannot be refused.
pub open spec fn for_all(eid: Seq<char>, sig: int) -> bool {
    eid.len() == 0 && sig == SIGKILL
}

/// The signal that a process gets: an init process that does not care for a request to
/// end would drop it, and is ended at once.
pub open spec fn effective_signal(init: bool, sig: int, handled: bool) -> int {
    if init && sig == SIGTERM && !handled {
        SIGKILL as int
    } else {
        sig
    }
}

/// What the agent does next.
#[derive(Clone, Copy, Debug, PartialEq, Eq, Structural)]
pub enum SignalStep {
    /// Read the status of a process.
    ReadStatus(i32),
    /// Send a signal to a process.
    Kill(i32, i32),
    /// Freeze the cgroup.
    Freeze,
    /// List the processes of the cgroup.
    ListPids,
    /// Thaw the cgroup.
    Thaw,
}

/// How far signalling has come.
#[derive(Clone, Copy, Debug, PartialEq, Eq, Structural)]
pub enum SignalPhase {
    /// The init process is to be asked what it handles.
    Asking(i32),
    /// One process is to be signalled.
    One(i32),
    Freezing,
    Listing,
    /// The process at this position of the list is to be signalled.
    Killing(usize),
    Thawing,
    Done,
    /// The request failed.
    Failed,
}

/// What came of a step.
#[derive(Debug)]
pub enum SignalEvent {
    Done,
    /// The step failed, with an error number.
    Errno(i32),
    /// The lines of the status of a process, where it is there.
    Status(Option<Vec<String>>),
    /// The processes of the cgroup.
    Pids(Vec<i32>),
}

/// A request to signal, as far as it has come.
#[derive(Debug)]
pub struct SignalRun {
    pub phase: SignalPhase,
    pub sig: i32,
    pub pids: Vec<i32>,
}

/// The state of a request to signal.
pub struct SignalState {
    pub phase: SignalPhase,
    pub sig: int,
    pub pids: Seq<i32>,
}

/// What came of a step, over sequences.
pub enum SignalNews {
    Done,
    Errno(i32),
    Status(Option<Seq<Seq<char>>>),
    Pids(Seq<i32>),
}

impl View for SignalEvent {
    type V = SignalNews;

    open spec fn view(&self) -> SignalNews {
        match self {
            SignalEvent::Done => SignalNews::Done,
            SignalEvent::Errno(e) => SignalNews::Errno(*e),
            SignalEvent::Status(s) => SignalNews::Status(status_view(*s)),
            SignalEvent::Pids(p) => SignalNews::Pids(p@),
        }
    }
}

impl View for SignalRun {
    type V = SignalState;

    open spec fn view(&self) -> SignalState {
        SignalState { phase: self.phase, sig: self.sig as int, pids: self.pids@ }
    }
}

impl SignalState {
    /// The step that is due.
    pub open spec fn step(self) -> Option<SignalStep> {
        match self.phase {
            SignalPhase::Asking(pid) => Some(SignalStep::ReadStatus(pid)),
            SignalPhase::One(pid) => Some(SignalStep::Kill(pid, self.sig as i32)),
            SignalPhase::Freezing => Some(SignalStep::Freeze),
            SignalPhase::Listing => Some(SignalStep::ListPids),
            SignalPhase::Killing(i) => Some(
                SignalStep::Kill(self.pids[i as int], self.sig as i32),
            ),
            SignalPhase::Thawing => Some(SignalStep::Thaw),
            SignalPhase::Done => None,
            SignalPhase::Failed => None,
        }
    }

    /// Whether a position in the list of processes is within it.
    pub open spec fn wf(self) -> bool {
        self.phase matches SignalPhase::Killing(i) ==> i < self.pids.len()
    }

    /// The state once the process at position `i` is to be signalled, where there is one.
    pub open spec fn killing(self, i: int) -> SignalState {
        SignalState {
            phase: if i < self.pids.len() {
                SignalPhase::Killing(i as usize)
            } else {
                SignalPhase::Thawing
            },
            ..self
        }
    }

    /// The state after a step. A process that is gone already counts as signalled. When
    /// all processes are signalled, only the list of them is needed: freezing, thawing and
    /// single signals may fail.
    pub open spec fn after(self, news: SignalNews) -> SignalState {
        match self.phase {
            SignalPhase::Asking(pid) => {
                let handled = match news {
                    SignalNews::Status(s) => signal_handled(s, self.sig as u32),
                    _ => false,
                };
                SignalState {
                    phase: SignalPhase::One(pid),
                    sig: effective_signal(true, self.sig, handled),
                    ..self
                }
            },
            SignalPhase::One(_) => SignalState {
                phase: match news {
                    SignalNews::Errno(e) => if e == ESRCH {
                        SignalPhase::Done
                    } else {
                        SignalPhase::Failed
                    },
                    _ => SignalPhase::Done,
                },
                ..self
            },
            SignalPhase::Freezing => SignalState { phase: SignalPhase::Listing, ..self },
            SignalPhase::Listing => match news {
                SignalNews::Pids(p) => (SignalState { pids: p, ..self }).killing(0),
                _ => SignalState { phase: SignalPhase::Failed, ..self },
            },
            SignalPhase::Killing(i) => self.killing(i + 1),
            SignalPhase::Thawing => SignalState { phase: SignalPhase::Done, ..self },
            SignalPhase::Done => self,
            SignalPhase::Failed => self,
        }
    }
}

/// The state in which a request for one process starts.
pub open spec fn one_start(p: ContainerProcess, sig: int) -> SignalState {
    SignalState {
        phase: if p.init && sig == SIGTERM {
            SignalPhase::Asking(p.pid)
        } else {
            SignalPhase::One(p.pid)
        },
        sig,
        pids: Seq::empty(),
    }
}

/// The state in which a request for all processes starts.
pub open spec fn all_start() -> SignalState {
    SignalState { phase: SignalPhase::Freezing, sig: SIGKILL as int, pids: Seq::empty() }
}

/// Begins a request to signal. One for all processes needs no process to be found.
pub fn do_signal_process(s: &Sandbox, cid: &str, eid: &str, signal: u32) -> (r: Result<
    SignalRun,
    RpcError,
>)
    ensures
        r matches Ok(run) ==> run@.wf(),
        if for_all(eid@, kernel_signal(signal)) {
            r matches Ok(run) && run@ == all_start()
        } else if s.has_process(cid@, eid@) {
            r matches Ok(run) && exists|p: ContainerProcess|
                s.is_process(cid@, eid@, p) && run@ == #[trigger] one_start(
                    p,
                    kernel_signal(signal),
                )
        } else {
            r matches Err(e) && e.code == crate::rpc::lookup_code(s.lookup_error(cid@, eid@))
                && e.detail@ == s.lookup_error(cid@, eid@).name() && !e.quoted
        },
{
    let sig: i32 = to_kernel(signal);
    if eid.is_empty() && sig == SIGKILL {
        let run = SignalRun { phase: SignalPhase::Freezing, sig, pids: Vec::new() };
        return Ok(run);
    }
    match s.find_container_process(cid, eid) {
        Err(e) => Err(sandbox_err_to_ttrpc(e)),
        Ok(p) => {
            let phase = if p.init && sig == SIGTERM {
                SignalPhase::Asking(p.pid)
            } else {
                SignalPhase::One(p.pid)
            };
            let run = SignalRun { phase, sig, pids: Vec::new() };
            proof {
                assert(run@.pids =~= one_start(*p, kernel_signal(signal)).pids);
                assert(run@ == one_start(*p, kernel_signal(signal)));
            }
            Ok(run)
        },
    }
}

impl SignalRun {
    /// The step that is due; none once the request is served or failed.
    pub fn step(&self) -> (r: Option<SignalStep>)
        requires
            self@.wf(),
        ensures
            r == self@.step(),
    {
        match self.phase {
            SignalPhase::Asking(pid) => Some(SignalStep::ReadStatus(pid)),
            SignalPhase::One(pid) => Some(SignalStep::Kill(pid, self.sig)),
            SignalPhase::Freezing => Some(SignalStep::Freeze),
            SignalPhase::Listing => Some(SignalStep::ListPids),
            SignalPhase::Killing(i) => Some(SignalStep::Kill(self.pids[i], self.sig)),
            SignalPhase::Thawing => Some(SignalStep::Thaw),
            SignalPhase::Done => None,
            SignalPhase::Failed => None,
        }
    }

    fn kill_at(&mut self, i: usize)
        ensures
            final(self)@ == old(self)@.killing(i as int),
            final(self)@.wf(),
    {
        if i < self.pids.len() {
            self.phase = SignalPhase::Killing(i);
        } else {
            self.phase = SignalPhase::Thawing;
        }
    }

    /// Takes what came of the step that was due.
    pub fn report(&mut self, event: SignalEvent)
        requires
            old(self)@.wf(),
        ensures
            final(self)@ == old(self)@.after(event@),
            final(self)@.wf(),
    {
        match self.phase {
            SignalPhase::Asking(pid) => {
                let handled = match &event {
                    SignalEvent::Status(s) => is_signal_handled(s, self.sig as u32),
                    _ => false,
                };
                if self.sig == SIGTERM && !handled {
                    self.sig = SIGKILL;
                }
                self.phase = SignalPhase::One(pid);
            },
            SignalPhase::One(_) => {
                self.phase = match event {
                    SignalEvent::Errno(e) => {
                        if e == ESRCH {
                            SignalPhase::Done
                        } else {
                            SignalPhase::Failed
                        }
                    },
                    _ => SignalPhase::Done,
                };
            },
            SignalPhase::Freezing => {
                self.phase = SignalPhase::Listing;
            },
            SignalPhase::Listing => {
                match event {
                    SignalEvent::Pids(p) => {
                        self.pids = p;
                        self.kill_at(0);
                    },
                    _ => {
                        self.phase = SignalPhase::Failed;
                    },
                }
            },
            SignalPhase::Killing(i) => {
                assert(i < self.pids.len());
                self.kill_at(i + 1);
            },
            SignalPhase::Thawing => {
                self.phase = SignalPhase::Done;
            },
            SignalPhase::Done => {},
            SignalPhase::Failed => {},
        }
    }
}

/// The container whose cgroup is frozen, listed or thawed.
pub fn cgroup_container<'a>(s: &'a Sandbox, cid: &str) -> (r: Result<&'a LinuxContainer, AgentError>)
    ensures
        match r {
            Ok(c) => s.containers@.contains_key(cid@) && *c == s.containers@[cid@],
            Err(e) => !s.containers@.contains_key(cid@) && e.says("Invalid container id "@ + cid@),
        },
{
    match s.containers.get(cid) {
        Some(c) => Ok(c),
        None => {
            let mut text = "Invalid container id ".to_owned();
            text.append(cid);
            Err(AgentError::Other(text))
        },
    }
}

/// The state after several steps.
pub open spec fn after_all(s: SignalState, news: Seq<SignalNews>) -> SignalState
    decreases news.len(),
{
    if news.len() == 0 {
        s
    } else {
        after_all(s, news.drop_last()).after(news.last())
    }
}

/// Whatever becomes of the single signals, every process of the list gets the signal, in
/// the order of the list, and the cgroup is thawed in the end.
pub proof fn law_every_listed_process_is_signalled(
    s: SignalState,
    pids: Seq<i32>,
    news: Seq<SignalNews>,
)
    requires
        s.phase == SignalPhase::Listing,
        pids.len() <= usize::MAX,
        news.len() <= pids.len(),
    ensures
        ({
            let t = after_all(s.after(SignalNews::Pids(pids)), news);
            &&& news.len() < pids.len() ==> t.step() == Some(
                SignalStep::Kill(pids[news.len() as int], s.sig as i32),
            )
            &&& news.len() == pids.len() ==> t.step() == Some(SignalStep::Thaw)
            &&& t.pids == pids && t.sig == s.sig
            &&& t == (SignalState { pids, ..s }).killing(news.len() as int)
        }),
    decreases news.len(),
{
    let begun = s.after(SignalNews::Pids(pids));
    if news.len() > 0 {
        law_every_listed_process_is_signalled(s, pids, news.drop_last());
        let before = after_all(begun, news.drop_last());
        assert(before.phase == SignalPhase::Killing((news.len() - 1) as usize));
        assert(after_all(begun, news) == before.after(news.last()));
    }
}

/// A request for one process that is answered comes to nothing but a signal to that
/// process, which an init process that does not care for a request to end gets in its
/// strongest form.
pub proof fn law_unhandled_term_ends_init(
    p: ContainerProcess,
    status: Option<Seq<Seq<char>>>,
    sig: int,
)
    requires
        p.init,
        sig == SIGTERM,
    ensures
        ({
            let begun = one_start(p, sig);
            let t = begun.after(SignalNews::Status(status));
            &&& begun.step() == Some(SignalStep::ReadStatus(p.pid))
            &&& t.step() == Some(
                SignalStep::Kill(
                    p.pid,
                    if signal_handled(status, SIGTERM as u32) {
                        SIGTERM
                    } else {
                        SIGKILL
                    },
                ),
            )
        }),
{
}

} // verus!
