//! How mounts are found, made and bound.
use vstd::prelude::*;

use crate::mount::{
    bind_steps, destination_after, destination_run, mount_type, mount_type_in, remount_flags,
    BindStep, DestinationEvent, DestinationState, DestinationStep, MakeFailure, MountFault,
};
use crate::oci::OciMount;
use crate::text::{split_on, Sep};

verus! {

/// The fields of a line of the table of mounts.
pub open spec fn columns(line: Seq<char>) -> Seq<Seq<char>> {
    split_on(line, Sep::Char(' '))
}

/// Whether a line of the table of mounts is of another mount point.
pub open spec fn is_elsewhere(line: Seq<char>, point: Seq<char>) -> bool {
    columns(line).len() == 6 && columns(line)[1] != point
}

/// The type at a mount point is the third field of the first line whose second field is the
/// mount point; a line of another number of fields in front of it is an error, and so is a
/// table without such a line.
pub proof fn law_the_first_line_of_a_mount_point_counts(
    lines: Seq<Seq<char>>,
    point: Seq<char>,
    cut: bool,
    i: int,
)
    requires
        0 <= i <= lines.len(),
        forall|k: int| 0 <= k < i ==> is_elsewhere(#[trigger] lines[k], point),
        i < lines.len() ==> !is_elsewhere(lines[i], point),
    ensures
        mount_type_in(lines, point, cut) == if i == lines.len() {
            if cut {
                Err::<Seq<char>, MountFault>(MountFault::Io)
            } else {
                Err::<Seq<char>, MountFault>(MountFault::NoMountEntry(point))
            }
        } else if columns(lines[i]).len() != 6 {
            Err::<Seq<char>, MountFault>(
                MountFault::InvalidMountEntry(6, columns(lines[i]).len() as usize, lines[i]),
            )
        } else {
            Ok::<Seq<char>, MountFault>(columns(lines[i])[2])
        },
    decreases lines.len(),
{
    if i > 0 {
        let rest = lines.skip(1);
        assert(is_elsewhere(lines[0], point));
        assert forall|k: int| 0 <= k < i - 1 implies is_elsewhere(#[trigger] rest[k], point) by {
            assert(rest[k] == lines[k + 1]);
        }
        law_the_first_line_of_a_mount_point_counts(rest, point, cut, i - 1);
    }
}

/// A mount is a bind mount where it has no type, or where its type is `none` and one of its
/// options asks for it; otherwise it is of its own type.
pub proof fn law_which_mounts_are_bind_mounts(m: OciMount, i: int)
    ensures
        m.typ is None ==> mount_type(m) == "bind"@,
        m.typ is Some && m.typ->0@ != "none"@ ==> mount_type(m) == m.typ->0@,
        m.typ is Some && m.typ->0@ == "none"@ && m.options is Some && 0 <= i
            < m.options->0@.len() && (m.options->0@[i]@ == "bind"@ || m.options->0@[i]@
            == "rbind"@) ==> mount_type(m) == "bind"@,
        m.typ is Some && m.typ->0@ == "none"@ && (m.options is None || forall|k: int|
            0 <= k < m.options->0@.len() ==> (#[trigger] m.options->0@[k])@ != "bind"@
                && m.options->0@[k]@ != "rbind"@) ==> mount_type(m) == "none"@,
{
    if m.options is Some && 0 <= i < m.options->0@.len() && (m.options->0@[i]@ == "bind"@
        || m.options->0@[i]@ == "rbind"@) {
        assert(crate::mount::some_bind(m.options->0@));
    }
}

/// A bind mount resolves its source, makes its mount point and binds it; only the propagations
/// shared and slave are taken, and they are set before a read-only mount is mounted again.
pub proof fn law_a_bind_mount_is_bound_before_it_is_locked(readonly: bool, propagation: u64)
    ensures
        ({
            let s = bind_steps(readonly, propagation);
            let taken = propagation == 0x10_0000 || propagation == 0x8_0000;
            &&& s.len() >= 4
            &&& s[0] == BindStep::Resolve
            &&& s[1] == BindStep::MakeDestination
            &&& s[2] == BindStep::Bind
            &&& taken ==> s[3] == BindStep::Propagate(propagation)
            &&& !taken ==> s[3] == BindStep::RefusePropagation && s.len() == 4
            &&& taken && readonly ==> s.len() == 5 && s[4] == BindStep::Remount(4129)
            &&& taken && !readonly ==> s.len() == 4
        }),
        remount_flags(true) == 4129,
        remount_flags(false) == 4128,
{
    assert(4096u64 | 32u64 | 1u64 == 4129u64 && 4096u64 | 32u64 == 4128u64) by (bit_vector);
}

/// What stands behind the parent directory of a mount point: for a bind mount the question of
/// what the source is, else the directory itself.
pub open spec fn next_up(bind: bool) -> DestinationState {
    DestinationState::Due(
        if bind {
            DestinationStep::AskSource
        } else {
            DestinationStep::MakeDirectory
        },
    )
}

/// How a mount point is made: its parents first, where what is there already is good if it is
/// a directory; a source that is a directory gets a directory, and any other source a file,
/// which must be new; a directory that is there or cannot be made is good if it is one.
pub proof fn law_how_a_mount_point_is_made(bind: bool, f: MakeFailure, yes: bool)
    ensures
        destination_run(bind, Seq::empty()) == DestinationState::Due(DestinationStep::MakeParent),
        destination_after(DestinationStep::MakeParent, DestinationEvent::Done, bind) == next_up(
            bind,
        ),
        destination_after(DestinationStep::MakeParent, DestinationEvent::Failed(f), bind) == if f
            == MakeFailure::Other {
            DestinationState::IoFailed
        } else {
            DestinationState::Due(DestinationStep::AskParent)
        },
        destination_after(DestinationStep::AskParent, DestinationEvent::Answer(yes), bind)
            == if yes {
            next_up(bind)
        } else {
            DestinationState::IoFailed
        },
        destination_after(DestinationStep::AskSource, DestinationEvent::Answer(yes), bind)
            == DestinationState::Due(
            if yes {
                DestinationStep::MakeDirectory
            } else {
                DestinationStep::MakeFile
            },
        ),
        destination_after(DestinationStep::MakeFile, DestinationEvent::Done, bind)
            == DestinationState::Ready,
        destination_after(DestinationStep::MakeFile, DestinationEvent::Failed(f), bind)
            == DestinationState::IoFailed,
        destination_after(DestinationStep::MakeDirectory, DestinationEvent::Done, bind)
            == DestinationState::Due(DestinationStep::AskDirectory),
        destination_after(DestinationStep::MakeDirectory, DestinationEvent::Failed(f), bind)
            == if f == MakeFailure::Other {
            DestinationState::IoFailed
        } else {
            DestinationState::Due(DestinationStep::AskDirectory)
        },
        destination_after(DestinationStep::AskDirectory, DestinationEvent::Answer(yes), bind)
            == if yes {
            DestinationState::Ready
        } else {
            DestinationState::NotDirectory
        },
{
}

} // verus!
