//! What a container is made of.
use vstd::prelude::*;

use super::count::{once, times};
use super::starting::is_kept;
use crate::container::{
    cgroup_path_of, default_device_table, fd_path, first_unopened, mapping_lines, namespace_table,
    ns_file, pinned, replaced, ContainerProcess,
};
use crate::oci::{namespace_name_of, LinuxIdMapping, LinuxNamespace, NamespaceType};
use crate::text::{decimal, signed_decimal};

verus! {

/// The clone flag of a namespace type.
pub open spec fn clone_flag(typ: NamespaceType) -> u32 {
    match typ {
        NamespaceType::User => 0x1000_0000,
        NamespaceType::Ipc => 0x0800_0000,
        NamespaceType::Pid => 0x2000_0000,
        NamespaceType::Network => 0x4000_0000,
        NamespaceType::Mount => 0x0002_0000,
        NamespaceType::Uts => 0x0400_0000,
        NamespaceType::Cgroup => 0x0200_0000,
        NamespaceType::Time => 0x80,
    }
}

/// The table of namespaces has each type that a container can have once, under its short name
/// and with its clone flag, and no other.
pub proof fn law_each_namespace_type_has_its_flag(typ: NamespaceType)
    ensures
        namespace_table().contains((namespace_name_of(typ), clone_flag(typ))) <==> typ
            != NamespaceType::Time,
        namespace_table().len() == 7,
{
    let t = namespace_table();
    assert(t[0].1 == 0x1000_0000 && t[1].1 == 0x0800_0000 && t[2].1 == 0x2000_0000 && t[3].1
        == 0x4000_0000 && t[4].1 == 0x0002_0000 && t[5].1 == 0x0400_0000 && t[6].1 == 0x0200_0000);
    assert(t[0] == (namespace_name_of(NamespaceType::User), 0x1000_0000u32));
    assert(t[1] == (namespace_name_of(NamespaceType::Ipc), 0x0800_0000u32));
    assert(t[2] == (namespace_name_of(NamespaceType::Pid), 0x2000_0000u32));
    assert(t[3] == (namespace_name_of(NamespaceType::Network), 0x4000_0000u32));
    assert(t[4] == (namespace_name_of(NamespaceType::Mount), 0x0002_0000u32));
    assert(t[5] == (namespace_name_of(NamespaceType::Uts), 0x0400_0000u32));
    assert(t[6] == (namespace_name_of(NamespaceType::Cgroup), 0x0200_0000u32));
}

/// The device nodes that every container has are these six.
pub proof fn law_which_device_nodes_every_container_has()
    ensures
        default_device_table().len() == 6,
        default_device_table().contains(("/dev/null"@, 1i64, 3i64)),
        default_device_table().contains(("/dev/zero"@, 1i64, 5i64)),
        default_device_table().contains(("/dev/full"@, 1i64, 7i64)),
        default_device_table().contains(("/dev/tty"@, 5i64, 0i64)),
        default_device_table().contains(("/dev/urandom"@, 1i64, 9i64)),
        default_device_table().contains(("/dev/random"@, 1i64, 8i64)),
{
    let t = default_device_table();
    assert(t[0] == ("/dev/null"@, 1i64, 3i64));
    assert(t[1] == ("/dev/zero"@, 1i64, 5i64));
    assert(t[2] == ("/dev/full"@, 1i64, 7i64));
    assert(t[3] == ("/dev/tty"@, 5i64, 0i64));
    assert(t[4] == ("/dev/urandom"@, 1i64, 9i64));
    assert(t[5] == ("/dev/random"@, 1i64, 8i64));
}

/// Where the namespaces and the open files of a process are found.
pub proof fn law_where_the_files_of_a_process_are(pid: int, typ: NamespaceType, fd: int)
    ensures
        ns_file(pid, typ) == "/proc/"@ + signed_decimal(pid) + "/ns/"@ + namespace_name_of(typ),
        fd_path(pid, fd) == "/proc/"@ + signed_decimal(pid) + "/fd/"@ + signed_decimal(fd),
{
}

/// A replacement keeps every character but one, which is gone where another takes its place.
pub proof fn law_one_character_is_replaced(s: Seq<char>, from: char, to: char)
    ensures
        replaced(s, from, to).len() == s.len(),
        forall|i: int|
            0 <= i < s.len() ==> #[trigger] replaced(s, from, to)[i] == if s[i] == from {
                to
            } else {
                s[i]
            },
        from != to ==> !replaced(s, from, to).contains(from),
{
}

/// The cgroup path of a container: without a configured one, its id below the root; else the
/// configured one, in which slashes stand for the colons.
pub proof fn law_the_cgroup_path_has_no_colon(configured: Option<Seq<char>>, id: Seq<char>)
    ensures
        ({
            let r = cgroup_path_of(configured, id);
            &&& configured is None || configured->0.len() == 0 ==> r == seq!['/'] + id
            &&& configured is Some && configured->0.len() > 0 ==> {
                &&& !r.contains(':')
                &&& r.len() == configured->0.len()
                &&& forall|i: int|
                    0 <= i < r.len() ==> #[trigger] r[i] == if configured->0[i] == ':' {
                        '/'
                    } else {
                        configured->0[i]
                    }
            }
        }),
{
    reveal_strlit("/");
    assert("/"@ =~= seq!['/']);
}

/// The lines of two mappings stand one behind the other. A mapping of an empty range has no
/// line; any other has one: the first id in the container, the first on the host, and how
/// many there are.
pub proof fn law_each_mapping_has_a_line(
    a: Seq<LinuxIdMapping>,
    b: Seq<LinuxIdMapping>,
    m: LinuxIdMapping,
)
    ensures
        mapping_lines(a + b) == mapping_lines(a) + mapping_lines(b),
        mapping_lines(seq![m]) == if m.size == 0 {
            Seq::empty()
        } else {
            decimal(m.container_id as nat) + " "@ + decimal(m.host_id as nat) + " "@ + decimal(
                m.size as nat,
            ) + "\n"@
        },
    decreases b.len(),
{
    let one = seq![m];
    assert(one.drop_last() =~= Seq::empty());
    assert(mapping_lines(one.drop_last()) =~= Seq::<char>::empty());
    assert(one.last() == m);
    if m.size != 0 {
        assert(mapping_lines(one) =~= decimal(m.container_id as nat) + " "@ + decimal(
            m.host_id as nat,
        ) + " "@ + decimal(m.size as nat) + "\n"@);
    }
    if b.len() == 0 {
        assert(a + b =~= a);
        assert(mapping_lines(a) =~= mapping_lines(a) + mapping_lines(b));
    } else {
        law_each_mapping_has_a_line(a, b.drop_last(), m);
        assert((a + b).drop_last() =~= a + b.drop_last());
        assert((a + b).last() == b.last());
        let front = mapping_lines(a);
        let mid = mapping_lines(b.drop_last());
        let l = b.last();
        if l.size != 0 {
            let c = decimal(l.container_id as nat);
            let h = decimal(l.host_id as nat);
            let n = decimal(l.size as nat);
            assert((front + mid) + c + " "@ + h + " "@ + n + "\n"@ =~= front + (mid + c + " "@ + h
                + " "@ + n + "\n"@));
        }
    }
}

/// Pinning stops at the first namespace that is to be kept and whose file could not be
/// opened, and comes to the end where there is none.
pub proof fn law_pinning_stops_at_the_first_that_fails(
    list: Seq<LinuxNamespace>,
    fds: Seq<Option<i32>>,
    i: int,
)
    requires
        fds.len() == list.len(),
        0 <= i <= list.len(),
        forall|k: int| 0 <= k < i ==> !(is_kept(#[trigger] list[k]) && fds[k] is None),
        i < list.len() ==> is_kept(list[i]) && fds[i] is None,
    ensures
        first_unopened(list, fds) == i,
{
    lemma_unopened(list, fds, i);
}

proof fn lemma_unopened(list: Seq<LinuxNamespace>, fds: Seq<Option<i32>>, i: int)
    requires
        fds.len() >= list.len(),
        0 <= i <= list.len(),
        forall|k: int| 0 <= k < i ==> !(is_kept(#[trigger] list[k]) && fds[k] is None),
        i < list.len() ==> is_kept(list[i]) && fds[i] is None,
    ensures
        first_unopened(list, fds) == i,
    decreases list.len(),
{
    if list.len() > 0 {
        let front = list.drop_last();
        if i < list.len() {
            if i == front.len() {
                assert forall|k: int| 0 <= k < i implies !(is_kept(#[trigger] front[k]) && fds[k]
                    is None) by {
                    assert(front[k] == list[k]);
                }
                lemma_unopened(front, fds, i);
            } else {
                assert forall|k: int| 0 <= k < i implies !(is_kept(#[trigger] front[k]) && fds[k]
                    is None) by {
                    assert(front[k] == list[k]);
                }
                lemma_unopened(front, fds, i);
            }
        } else {
            assert forall|k: int| 0 <= k < i - 1 implies !(is_kept(#[trigger] front[k]) && fds[k]
                is None) by {
                assert(front[k] == list[k]);
            }
            lemma_unopened(front, fds, i - 1);
            assert(!(is_kept(list[i - 1]) && fds[i - 1] is None));
        }
    }
}

/// A pinned namespace is found at the open file of the agent; one that need not be kept, and
/// every one behind the first failure, stays as it was.
pub proof fn law_pinned_namespaces_are_open_files(
    list: Seq<LinuxNamespace>,
    after: Seq<LinuxNamespace>,
    n: int,
    agent: int,
    fds: Seq<Option<i32>>,
    i: int,
)
    requires
        pinned(list, after, n, agent, fds),
        0 <= i < list.len(),
    ensures
        after.len() == list.len(),
        after[i].typ == list[i].typ,
        i < n && is_kept(list[i]) ==> after[i].path is Some && after[i].path->0@ == "/proc/"@
            + signed_decimal(agent) + "/fd/"@ + signed_decimal(fds[i]->0 as int),
        i >= n || !is_kept(list[i]) ==> after[i].path == list[i].path,
{
    assert(after[i].typ == list[i].typ);
}

/// The agent closes each descriptor that it holds of a process: the terminal and its three
/// ends of the standard streams, and no other.
pub proof fn law_each_descriptor_of_a_process_is_listed(p: ContainerProcess, fd: i32)
    ensures
        times(p.open_descriptors(), fd) == once(p.term_master == Some(fd)) + once(
            p.parent_stdin == Some(fd),
        ) + once(p.parent_stdout == Some(fd)) + once(p.parent_stderr == Some(fd)),
{
    broadcast use super::count::group_times;

}

/// A device node that every container has is a character device that all may read and write,
/// without an owner of its own.
pub proof fn law_what_a_default_device_node_is(
    d: crate::oci::LinuxDevice,
    e: (Seq<char>, i64, i64),
)
    requires
        crate::container::is_default_device(d, e),
    ensures
        d.path@ == e.0 && d.major == e.1 && d.minor == e.2,
        d.typ == crate::oci::DeviceType::C,
        d.file_mode == Some(0o666u32),
        d.uid == Some(0xffff_ffffu32) && d.gid == Some(0xffff_ffffu32),
{
}

/// What stays of a Linux section whose namespaces change, and of the options of a container
/// whose limits change: all else.
pub proof fn law_what_stays_of_a_configuration(
    a: crate::oci::Linux,
    b: crate::oci::Linux,
    x: crate::container::CreateOpts,
    y: crate::container::CreateOpts,
)
    ensures
        crate::container::same_but_namespaces(a, b) ==> a == (crate::oci::Linux {
            namespaces: a.namespaces,
            ..b
        }),
        crate::container::only_limits_differ(x, y) ==> {
            &&& x.no_pivot_root == y.no_pivot_root
            &&& x.container_name == y.container_name
            &&& x.spec is Some == y.spec is Some
            &&& y.spec is Some ==> {
                &&& x.spec->0.root == y.spec->0.root
                &&& x.spec->0.mounts == y.spec->0.mounts
                &&& x.spec->0.process == y.spec->0.process
                &&& x.spec->0.hostname == y.spec->0.hostname
                &&& x.spec->0.annotations == y.spec->0.annotations
                &&& x.spec->0.linux is Some == y.spec->0.linux is Some
                &&& y.spec->0.linux is Some ==> {
                    let m = x.spec->0.linux->0;
                    let n = y.spec->0.linux->0;
                    &&& m.namespaces == n.namespaces
                    &&& m.uid_mappings == n.uid_mappings
                    &&& m.gid_mappings == n.gid_mappings
                    &&& m.devices == n.devices
                    &&& m.cgroups_path == n.cgroups_path
                    &&& m.sysctl == n.sysctl
                    &&& m.seccomp == n.seccomp
                }
            }
        },
{
}

/// Each state of a container has a name of its own.
pub proof fn law_states_are_told_by_name(state: crate::container::ContainerState)
    ensures
        ({
            let name = crate::container::state_name(state);
            &&& name == "Created"@ <==> state == crate::container::ContainerState::Created
            &&& name == "Running"@ <==> state == crate::container::ContainerState::Running
            &&& name == "Stopped"@ <==> state == crate::container::ContainerState::Stopped
            &&& name == "Paused"@ <==> state == crate::container::ContainerState::Paused
        }),
{
    reveal_strlit("Created");
    reveal_strlit("Running");
    reveal_strlit("Stopped");
    reveal_strlit("Paused");
    assert("Created"@[0] == 'C' && "Running"@[0] == 'R' && "Stopped"@[0] == 'S' && "Paused"@[0]
        == 'P');
}

} // verus!
