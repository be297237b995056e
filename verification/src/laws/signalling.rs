//! How signals reach the processes of a container, and shared mounts their destinations.
use vstd::prelude::*;

use crate::container::{ContainerProcess, LinuxContainer};
use crate::sandbox::by_name;
use crate::shared_mounts::{
    mount_step, shared_todo, table_mounts, MountEvent, MountPhase, SharedMount,
};
use crate::signal::{
    all_start, effective_signal, for_all, kernel_signal, mask_of, names_signal, one_start,
    signal_handled, SignalNews, SignalPhase, SignalState, SignalStep,
};
use crate::text::{split_on, trimmed, uint_of, words_on, Sep};

verus! {

/// Whether a line lists blocked, ignored or caught signals.
pub open spec fn lists_signals(line: Seq<char>) -> bool {
    "SigBlk:"@.is_prefix_of(line) || "SigIgn:"@.is_prefix_of(line) || "SigCgt:"@.is_prefix_of(line)
}

/// The mask of a line is the hexadecimal number behind its only colon, where it lists signals;
/// any other line has none.
pub proof fn law_which_mask_a_line_has(name: Seq<char>, value: Seq<char>)
    requires
        !name.contains(':'),
        !value.contains(':'),
    ensures
        lists_signals(name.push(':') + value) ==> mask_of(name.push(':') + value) == uint_of(
            trimmed(value),
            16,
            0xffff_ffff_ffff_ffff,
        ),
        !lists_signals(name.push(':') + value) ==> mask_of(name.push(':') + value) is None,
{
    let sep = Sep::Char(':');
    assert forall|i: int| 0 <= i < name.len() implies !sep.hits(#[trigger] name[i]) by {
        assert(name.contains(name[i]));
    }
    assert forall|i: int| 0 <= i < value.len() implies !sep.hits(#[trigger] value[i]) by {
        assert(value.contains(value[i]));
    }
    super::words::law_separators_part_the_pieces(name, ':', value, sep);
    super::words::law_separators_part_the_pieces(value, ':', value, sep);
    assert(split_on(name.push(':') + value, sep) =~= seq![name, value]);
}

proof fn lemma_bit(mask: u64, k: u64)
    by (bit_vector)
    requires
        k < 64,
    ensures
        mask & (1u64 << k) == (1u64 << k) <==> (mask >> k) & 1 == 1,
{
}

/// A signal stands for the bit of a mask that is one below its number.
pub proof fn law_which_bit_a_signal_is(mask: u64, signum: u32)
    requires
        1 <= signum <= 64,
    ensures
        names_signal(mask, signum) <==> (mask >> ((signum - 1) as u64)) & 1 == 1,
{
    lemma_bit(mask, (signum - 1) as u64);
}

/// Whether a line says that a process cares for a signal.
pub open spec fn cares(line: Seq<char>, signum: u32) -> bool {
    mask_of(line) is Some && names_signal(mask_of(line)->0 as u64, signum)
}

/// Whether a process handles a signal: a process that is gone handles none; signal 0 is
/// handled by every other; a number beyond 64 by none; and else some line must say so.
pub proof fn law_which_signals_are_handled(lines: Seq<Seq<char>>, signum: u32, i: int)
    ensures
        !signal_handled(None, signum),
        signum == 0 ==> signal_handled(Some(lines), signum),
        signum > 64 ==> !signal_handled(Some(lines), signum),
        1 <= signum <= 64 && 0 <= i < lines.len() && cares(lines[i], signum) ==> signal_handled(
            Some(lines),
            signum,
        ),
        1 <= signum <= 64 && (forall|k: int|
            0 <= k < lines.len() ==> !cares(#[trigger] lines[k], signum)) ==> !signal_handled(
            Some(lines),
            signum,
        ),
{
    if 0 <= i < lines.len() && cares(lines[i], signum) {
        assert(crate::signal::line_names(lines[i], signum));
    }
    if forall|k: int| 0 <= k < lines.len() ==> !cares(#[trigger] lines[k], signum) {
        assert forall|k: int| 0 <= k < lines.len() implies !crate::signal::line_names(
            #[trigger] lines[k],
            signum,
        ) by {
            assert(!cares(lines[k], signum));
        }
    }
}

/// A signal number keeps its bits; a request is for all processes where it names none and the
/// signal is 9; and only an init process that does not handle signal 15 gets 9 in its place.
pub proof fn law_which_signal_is_sent(
    n: u32,
    eid: Seq<char>,
    init: bool,
    sig: int,
    handled: bool,
)
    ensures
        (kernel_signal(n) - n) % 0x1_0000_0000 == 0 && -0x8000_0000 <= kernel_signal(n)
            < 0x8000_0000,
        for_all(eid, sig) <==> eid.len() == 0 && sig == 9,
        effective_signal(init, sig, handled) == if init && sig == 15 && !handled {
            9
        } else {
            sig
        },
{
}

/// A request for one process: an init process that is asked to end is looked at first; then
/// the process gets the signal. A process that is gone (error 3) counts as signalled, and any
/// other error fails the request.
pub proof fn law_how_one_process_is_signalled(
    p: ContainerProcess,
    sig: i32,
    status: Option<Seq<Seq<char>>>,
    errno: i32,
)
    ensures
        ({
            let s = one_start(p, sig as int);
            let asked = p.init && sig == 15;
            let t = if asked {
                s.after(SignalNews::Status(status))
            } else {
                s
            };
            let sent: i32 = if asked && !signal_handled(status, 15) {
                9
            } else {
                sig
            };
            &&& asked ==> s.step() == Some(SignalStep::ReadStatus(p.pid))
            &&& t.step() == Some(SignalStep::Kill(p.pid, sent))
            &&& t.after(SignalNews::Done).phase == SignalPhase::Done
            &&& t.after(SignalNews::Errno(errno)).phase == if errno == 3 {
                SignalPhase::Done
            } else {
                SignalPhase::Failed
            }
        }),
{
}

/// A request for all processes: the cgroup is frozen, its processes are listed, each gets the
/// signal 9, and the cgroup is thawed, which ends the request. Only a list that cannot be had
/// fails it.
pub proof fn law_how_all_processes_are_signalled(
    frozen: SignalNews,
    pids: Seq<i32>,
    i: usize,
    news: SignalNews,
    errno: i32,
)
    ensures
        ({
            let s = all_start();
            let listing = s.after(frozen);
            let listed = listing.after(SignalNews::Pids(pids));
            let killing = SignalState { phase: SignalPhase::Killing(i), ..listed };
            let thawing = SignalState { phase: SignalPhase::Thawing, ..listed };
            &&& s.step() == Some(SignalStep::Freeze)
            &&& listing.step() == Some(SignalStep::ListPids)
            &&& listing.after(SignalNews::Errno(errno)).phase == SignalPhase::Failed
            &&& pids.len() > 0 ==> listed.step() == Some(SignalStep::Kill(pids[0], 9))
            &&& pids.len() == 0 ==> listed.step() == Some(SignalStep::Thaw)
            &&& killing.step() == Some(SignalStep::Kill(pids[i as int], 9))
            &&& i + 1 < pids.len() <= usize::MAX ==> killing.after(news).step() == Some(
                SignalStep::Kill(pids[i + 1], 9),
            )
            &&& i + 1 >= pids.len() ==> killing.after(news).step() == Some(SignalStep::Thaw)
            &&& thawing.step() == Some(SignalStep::Thaw)
            &&& thawing.after(news).phase == SignalPhase::Done
            &&& thawing.after(news).step() is None
        }),
{
}

/// The shared mounts to work on are those whose source container is there, in order, each with
/// the pid of the init process of that container.
pub proof fn law_which_shared_mounts_are_worked_on(
    mounts: Seq<SharedMount>,
    containers: Seq<(String, LinuxContainer)>,
    m: SharedMount,
)
    requires
        mounts.len() < usize::MAX,
    ensures
        shared_todo(Seq::empty(), containers) == Seq::<(usize, i32)>::empty(),
        shared_todo(mounts.push(m), containers) == match by_name(containers, m.src_ctr@) {
            Some(c) => shared_todo(mounts, containers).push(
                (mounts.len() as usize, c.init_process_pid),
            ),
            None => shared_todo(mounts, containers),
        },
{
    assert(mounts.push(m).drop_last() =~= mounts);
}

/// Whether some line of a table has the path in its second field.
pub open spec fn shows(table: Seq<char>, path: Seq<char>) -> bool {
    exists|i: int|
        {
            &&& 0 <= i < split_on(table, Sep::Char('\n')).len()
            &&& words_on(#[trigger] split_on(table, Sep::Char('\n'))[i], Sep::White).len() >= 2
            &&& words_on(split_on(table, Sep::Char('\n'))[i], Sep::White)[1] == path
        }
}

/// A mount is there where the second field of some line of the table is its mount point.
pub proof fn law_which_mounts_are_there(table: Seq<char>, path: Seq<char>)
    ensures
        table_mounts(table, path) <==> shows(table, path),
{
    let lines = split_on(table, Sep::Char('\n'));
    if table_mounts(table, path) {
        let i = choose|i: int|
            0 <= i < lines.len() && crate::shared_mounts::line_mounts(#[trigger] lines[i], path);
        assert(words_on(lines[i], Sep::White).len() >= 2);
    }
    if shows(table, path) {
        let i = choose|i: int|
            {
                &&& 0 <= i < split_on(table, Sep::Char('\n')).len()
                &&& words_on(
                    #[trigger] split_on(table, Sep::Char('\n'))[i],
                    Sep::White,
                ).len() >= 2
                &&& words_on(split_on(table, Sep::Char('\n'))[i], Sep::White)[1] == path
            };
        assert(crate::shared_mounts::line_mounts(lines[i], path));
    }
}

/// How one shared mount is made: the table of the source is looked at from the agent until the
/// mount is there, ten seconds at most; then the tree is copied in the source and attached in
/// the destination, behind which the next mount has its turn.
pub proof fn law_how_a_shared_mount_is_made(
    table: String,
    waited: u64,
    path: Seq<char>,
    at: int,
    n: int,
    event: MountEvent,
)
    ensures
        ({
            let next = if at + 1 < n {
                MountPhase::EnterAgent
            } else {
                MountPhase::Finished
            };
            let done = MountEvent::Done;
            let look = MountEvent::Table(table, waited);
            &&& mount_step(MountPhase::Prepare, done, path, at, n) == (MountPhase::EnterAgent, false)
            &&& mount_step(MountPhase::EnterAgent, done, path, at, n) == (
                MountPhase::ReadTable,
                false,
            )
            &&& mount_step(MountPhase::ReadTable, look, path, at, n) == if table_mounts(
                table@,
                path,
            ) {
                (MountPhase::EnterSource, false)
            } else if waited >= 10000 {
                (next, true)
            } else {
                (MountPhase::Sleep, false)
            }
            &&& mount_step(MountPhase::Sleep, event, path, at, n) == (MountPhase::ReadTable, false)
            &&& mount_step(MountPhase::EnterSource, done, path, at, n) == (
                MountPhase::CloneTree,
                false,
            )
            &&& mount_step(MountPhase::CloneTree, done, path, at, n) == (
                MountPhase::EnterDestination,
                false,
            )
            &&& mount_step(MountPhase::EnterDestination, done, path, at, n) == (
                MountPhase::MakeDirectory,
                false,
            )
            &&& mount_step(MountPhase::MakeDirectory, done, path, at, n) == (
                MountPhase::Attach,
                false,
            )
            &&& mount_step(MountPhase::Attach, event, path, at, n) == (next, true)
        }),
{
}

} // verus!
