//! Mounts that one container makes and another gets to see.
//!
//! The caller performs the action that the run asks for and reports what came of it.
use vstd::prelude::*;

use crate::container::LinuxContainer;
use crate::sandbox::{by_name, Sandbox};
use crate::text::{
    chars_eq, chars_of, fields, push_i64, signed_decimal, split, split_on, words, words_on, Sep,
};

verus! {

/// How long a shared mount is waited for, in milliseconds.
pub const READY_TIMEOUT_MS: u64 = 10000;

/// How long to sleep between two looks, in milliseconds.
pub const READY_POLL_MS: u64 = 100;

/// A mount of one container that another gets to see.
#[derive(Debug)]
pub struct SharedMount {
    /// The name of the pair of mount points.
    pub name: String,
    /// The name of the source container.
    pub src_ctr: String,
    /// The mount point in the source container.
    pub src_path: String,
    /// The name of the destination container.
    pub dst_ctr: String,
    /// The mount point in the destination container.
    pub dst_path: String,
}

/// The shared mounts whose source container is there, with the pid of its init
/// process, in the order of the list.
pub open spec fn shared_todo(
    mounts: Seq<SharedMount>,
    containers: Seq<(String, LinuxContainer)>,
) -> Seq<(usize, i32)>
    decreases mounts.len(),
{
    if mounts.len() == 0 {
        Seq::empty()
    } else {
        let before = shared_todo(mounts.drop_last(), containers);
        match by_name(containers, mounts.last().src_ctr@) {
            Some(c) => before.push(((mounts.len() - 1) as usize, c.init_process_pid)),
            None => before,
        }
    }
}

/// Whether a line of a mount table is about a mount point.
pub open spec fn line_mounts(line: Seq<char>, path: Seq<char>) -> bool {
    let w = words_on(line, Sep::White);
    w.len() >= 2 && w[1] == path
}

/// Whether a mount table has a mount point.
pub open spec fn table_mounts(table: Seq<char>, path: Seq<char>) -> bool {
    let lines = split_on(table, Sep::Char('\n'));
    exists|i: int| 0 <= i < lines.len() && line_mounts(#[trigger] lines[i], path)
}

/// Tells whether a mount table has a mount point.
pub fn is_mounted(table: &str, path: &str) -> (r: bool)
    ensures
        r == table_mounts(table@, path@),
{
    let text = chars_of(table);
    let p = chars_of(path);
    let lines = split(text.as_slice(), Sep::Char('\n'));
    let ghost ls = fields(lines@);
    let mut i: usize = 0;
    while i < lines.len()
        invariant
            i <= lines.len(),
            p@ == path@,
            ls == fields(lines@),
            ls == split_on(table@, Sep::Char('\n')),
            forall|k: int| 0 <= k < i ==> !line_mounts(#[trigger] ls[k], path@),
        decreases lines.len() - i,
    {
        let w = words(lines[i].as_slice(), Sep::White);
        let ghost ws = words_on(lines@[i as int]@, Sep::White);
        proof {
            assert(ls[i as int] == lines@[i as int]@);
        }
        if w.len() >= 2 {
            proof {
                assert(ws[1] == w@[1]@);
            }
            if chars_eq(w[1].as_slice(), p.as_slice()) {
                proof {
                    assert(line_mounts(ls[i as int], path@));
                }
                return true;
            }
        }
        i += 1;
    }
    false
}

/// Where the work on one shared mount stands.
#[derive(Clone, Copy, Debug, PartialEq, Eq, Structural)]
pub enum MountPhase {
    /// Open the mount namespaces of the agent and of the destination, and leave for
    /// a mount namespace of its own.
    Prepare,
    /// Enter the mount namespace of the agent.
    EnterAgent,
    /// Read the mount table of the source container.
    ReadTable,
    /// Sleep before the next look.
    Sleep,
    /// Open and enter the mount namespace of the source container.
    EnterSource,
    /// Take a copy of the mounted tree.
    CloneTree,
    /// Enter the mount namespace of the destination container.
    EnterDestination,
    /// Make the mount point.
    MakeDirectory,
    /// Attach the copy.
    Attach,
    /// Everything is done.
    Finished,
    /// An action failed.
    Failed,
}

/// What came of an action.
#[derive(Debug)]
pub enum MountEvent {
    /// It was done.
    Done,
    /// It failed.
    Failed,
    /// The mount table that was read, and how long this mount is waited for.
    Table(String, u64),
}

/// The work on the shared mounts of a container.
#[derive(Debug)]
pub struct SharedMountRun {
    pub todo: Vec<(usize, i32)>,
    pub at: usize,
    pub phase: MountPhase,
}

/// The phase with which the next mount starts.
pub open spec fn next_mount(at: int, n: int) -> MountPhase {
    if at + 1 < n {
        MountPhase::EnterAgent
    } else {
        MountPhase::Finished
    }
}

/// What follows an event: the phase, and whether the work on this mount is over. A
/// mount that is not ready in time is passed over, and so is one that cannot be
/// attached in the end.
pub open spec fn mount_step(
    phase: MountPhase,
    event: MountEvent,
    src_path: Seq<char>,
    at: int,
    n: int,
) -> (MountPhase, bool) {
    match phase {
        MountPhase::ReadTable => match event {
            MountEvent::Table(table, waited) => if table_mounts(table@, src_path) {
                (MountPhase::EnterSource, false)
            } else if waited >= READY_TIMEOUT_MS {
                (next_mount(at, n), true)
            } else {
                (MountPhase::Sleep, false)
            },
            _ => (MountPhase::Failed, false),
        },
        MountPhase::Attach => (next_mount(at, n), true),
        MountPhase::Sleep => (MountPhase::ReadTable, false),
        _ => match event {
            MountEvent::Failed => (MountPhase::Failed, false),
            _ => (
                match phase {
                    MountPhase::Prepare => MountPhase::EnterAgent,
                    MountPhase::EnterAgent => MountPhase::ReadTable,
                    MountPhase::EnterSource => MountPhase::CloneTree,
                    MountPhase::CloneTree => MountPhase::EnterDestination,
                    MountPhase::EnterDestination => MountPhase::MakeDirectory,
                    MountPhase::MakeDirectory => MountPhase::Attach,
                    other => other,
                },
                false,
            ),
        },
    }
}

impl SharedMountRun {
    /// Whether there is a mount to work on, or nothing is left.
    pub open spec fn wf(self) -> bool {
        self.at < self.todo@.len() || self.phase == MountPhase::Finished
    }

    /// Whether the work has ended, well or not.
    pub open spec fn over(self) -> bool {
        self.phase == MountPhase::Finished || self.phase == MountPhase::Failed
    }

    /// Takes the outcome of the action of the current phase.
    pub fn step(&mut self, mounts: &Vec<SharedMount>, event: MountEvent)
        requires
            old(self).wf(),
            !old(self).over(),
            old(self).todo@[old(self).at as int].0 < mounts@.len(),
        ensures
            final(self).wf(),
            final(self).todo@ == old(self).todo@,
            ({
                let s = mount_step(
                    old(self).phase,
                    event,
                    mounts@[old(self).todo@[old(self).at as int].0 as int].src_path@,
                    old(self).at as int,
                    old(self).todo@.len() as int,
                );
                &&& final(self).phase == s.0
                &&& final(self).at == if s.1 {
                    old(self).at + 1
                } else {
                    old(self).at as int
                }
            }),
    {
        assert(self.at < self.todo.len());
        let n: usize = self.todo.len();
        let (index, _pid) = self.todo[self.at];
        let following = if self.at + 1 < n {
            MountPhase::EnterAgent
        } else {
            MountPhase::Finished
        };
        match self.phase {
            MountPhase::ReadTable => match event {
                MountEvent::Table(table, waited) => {
                    if is_mounted(table.as_str(), mounts[index].src_path.as_str()) {
                        self.phase = MountPhase::EnterSource;
                    } else if waited >= READY_TIMEOUT_MS {
                        self.phase = following;
                        self.at = self.at + 1;
                    } else {
                        self.phase = MountPhase::Sleep;
                    }
                },
                _ => {
                    self.phase = MountPhase::Failed;
                },
            },
            MountPhase::Attach => {
                self.phase = following;
                self.at = self.at + 1;
            },
            MountPhase::Sleep => {
                self.phase = MountPhase::ReadTable;
            },
            _ => match event {
                MountEvent::Failed => {
                    self.phase = MountPhase::Failed;
                },
                _ => {
                    self.phase = match self.phase {
                        MountPhase::Prepare => MountPhase::EnterAgent,
                        MountPhase::EnterAgent => MountPhase::ReadTable,
                        MountPhase::EnterSource => MountPhase::CloneTree,
                        MountPhase::CloneTree => MountPhase::EnterDestination,
                        MountPhase::EnterDestination => MountPhase::MakeDirectory,
                        MountPhase::MakeDirectory => MountPhase::Attach,
                        other => other,
                    };
                },
            },
        }
    }
}

impl Sandbox {
    /// Plans the shared mounts of a container. Where no source container is there,
    /// nothing is to be done.
    pub fn setup_shared_mounts(&self, mounts: &Vec<SharedMount>) -> (r: SharedMountRun)
        ensures
            r.wf(),
            r.at == 0,
            r.todo@ == shared_todo(mounts@, self.containers.entries()),
            r.phase == if r.todo@.len() == 0 {
                MountPhase::Finished
            } else {
                MountPhase::Prepare
            },
            forall|i: int| 0 <= i < r.todo@.len() ==> (#[trigger] r.todo@[i]).0 < mounts@.len(),
    {
        let ghost all = self.containers.entries();
        let mut todo: Vec<(usize, i32)> = Vec::new();
        let mut i: usize = 0;
        proof {
            assert(mounts@.take(0) =~= Seq::<SharedMount>::empty());
        }
        while i < mounts.len()
            invariant
                i <= mounts.len(),
                all == self.containers.entries(),
                todo@ == shared_todo(mounts@.take(i as int), all),
                forall|k: int| 0 <= k < todo@.len() ==> (#[trigger] todo@[k]).0 < i,
            decreases mounts.len() - i,
        {
            proof {
                assert(mounts@.take(i + 1).drop_last() =~= mounts@.take(i as int));
                assert(mounts@.take(i + 1).last() == mounts@[i as int]);
            }
            if let Some(c) = self.find_container_by_name(mounts[i].src_ctr.as_str()) {
                todo.push((i, c.init_process_pid));
            }
            i += 1;
        }
        proof {
            assert(mounts@.take(mounts@.len() as int) =~= mounts@);
        }
        let phase = if todo.len() == 0 {
            MountPhase::Finished
        } else {
            MountPhase::Prepare
        };
        SharedMountRun { todo, at: 0, phase }
    }
}

/// The mount table of a process.
pub fn mount_table_path(pid: i32) -> (r: String)
    ensures
        r@ == "/proc/"@ + signed_decimal(pid as int) + "/mounts"@,
{
    let mut s = "/proc/".to_owned();
    push_i64(&mut s, pid as i64);
    s.append("/mounts");
    s
}

/// Nothing of a source container is entered before its mount table shows the mount,
/// and a failed action ends the work for good.
pub proof fn law_source_is_entered_only_when_ready(
    phase: MountPhase,
    event: MountEvent,
    src_path: Seq<char>,
    at: int,
    n: int,
)
    ensures
        mount_step(phase, event, src_path, at, n).0 == MountPhase::EnterSource && phase
            != MountPhase::EnterSource ==> phase == MountPhase::ReadTable && event is Table
            && table_mounts(event->Table_0@, src_path),
        event is Failed && phase != MountPhase::Attach && phase != MountPhase::Sleep ==> mount_step(
            phase,
            event,
            src_path,
            at,
            n,
        ).0 == MountPhase::Failed,
{
}

} // verus!
