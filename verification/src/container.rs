//! Containers: their state, their namespaces, and what is allowed when.
use vstd::prelude::*;

use crate::oci::{
    namespace_name, namespace_name_of, Capabilities, DeviceType, Linux, LinuxDevice,
    LinuxIdMapping, LinuxNamespace, LinuxResources, NamespaceType, Spec,
};
use crate::strmap::StrMap;
use crate::text::{chars_of, decimal, push_i64, push_u64, signed_decimal, string_of};

verus! {

/// The name of the FIFO on which an init process waits.
pub const EXEC_FIFO_FILENAME: &'static str = "exec.fifo";

/// The life of a container.
#[derive(Clone, Copy, Debug, PartialEq, Eq, Structural)]
pub enum ContainerState {
    Created,
    Running,
    Stopped,
    Paused,
}

/// The name of a state.
pub open spec fn state_name(state: ContainerState) -> Seq<char> {
    match state {
        ContainerState::Created => "Created"@,
        ContainerState::Running => "Running"@,
        ContainerState::Stopped => "Stopped"@,
        ContainerState::Paused => "Paused"@,
    }
}

fn name_of_state(state: ContainerState) -> (r: String)
    ensures
        r@ == state_name(state),
{
    match state {
        ContainerState::Created => "Created".to_owned(),
        ContainerState::Running => "Running".to_owned(),
        ContainerState::Stopped => "Stopped".to_owned(),
        ContainerState::Paused => "Paused".to_owned(),
    }
}

/// The state that a container is in.
#[derive(Debug)]
pub struct ContainerStatus {
    pub cur_status: ContainerState,
}

impl ContainerStatus {
    /// The state of a new container.
    pub fn new() -> (r: Self)
        ensures
            r.cur_status == ContainerState::Created,
    {
        ContainerStatus { cur_status: ContainerState::Created }
    }

    /// The current state.
    pub fn status(&self) -> (r: ContainerState)
        ensures
            r == self.cur_status,
    {
        self.cur_status
    }

    /// Enters a state.
    pub fn transition(&mut self, to: ContainerState)
        ensures
            final(self).cur_status == to,
    {
        self.cur_status = to;
    }
}

impl Default for ContainerStatus {
    fn default() -> (r: Self)
        ensures
            r.cur_status == ContainerState::Created,
    {
        ContainerStatus::new()
    }
}

/// Why a container refuses.
#[derive(Debug)]
pub enum ContainerError {
    /// It cannot be paused in its state.
    CannotPause(ContainerState),
    /// It is not paused.
    NotPaused(ContainerState),
    /// It has no process with this id.
    InvalidEid(String),
    /// It has a process with this id already.
    ExecIdExists(String),
    /// The exec FIFO is there already.
    FifoExists,
    /// It has no configuration.
    NoSpec,
    /// Its configuration has no Linux section.
    NoLinux,
    /// Its configuration has no process.
    NoProcess,
    /// Its process has no capabilities.
    MissingCapabilities,
    /// Its configuration has no pid namespace.
    NoPidNamespace,
    /// The configuration has no Linux section to work on.
    SpecWithoutLinux,
    /// A namespace could not be opened at this path.
    PinFailed(String),
    /// The init process sent a text that is no pid, for this reason.
    BadPid(String),
    /// The init process sent something that is no text.
    PidNotText,
    /// The cgroups failed with this error.
    Cgroup(String),
}

/// A `ContainerError` over sequences.
pub enum ContainerErrorView {
    CannotPause(ContainerState),
    NotPaused(ContainerState),
    InvalidEid(Seq<char>),
    ExecIdExists(Seq<char>),
    FifoExists,
    NoSpec,
    NoLinux,
    NoProcess,
    MissingCapabilities,
    NoPidNamespace,
    SpecWithoutLinux,
    PinFailed(Seq<char>),
    BadPid(Seq<char>),
    PidNotText,
    Cgroup(Seq<char>),
}

impl View for ContainerError {
    type V = ContainerErrorView;

    open spec fn view(&self) -> ContainerErrorView {
        match *self {
            ContainerError::CannotPause(s) => ContainerErrorView::CannotPause(s),
            ContainerError::NotPaused(s) => ContainerErrorView::NotPaused(s),
            ContainerError::InvalidEid(s) => ContainerErrorView::InvalidEid(s@),
            ContainerError::ExecIdExists(s) => ContainerErrorView::ExecIdExists(s@),
            ContainerError::FifoExists => ContainerErrorView::FifoExists,
            ContainerError::NoSpec => ContainerErrorView::NoSpec,
            ContainerError::NoLinux => ContainerErrorView::NoLinux,
            ContainerError::NoProcess => ContainerErrorView::NoProcess,
            ContainerError::MissingCapabilities => ContainerErrorView::MissingCapabilities,
            ContainerError::NoPidNamespace => ContainerErrorView::NoPidNamespace,
            ContainerError::SpecWithoutLinux => ContainerErrorView::SpecWithoutLinux,
            ContainerError::PinFailed(s) => ContainerErrorView::PinFailed(s@),
            ContainerError::BadPid(s) => ContainerErrorView::BadPid(s@),
            ContainerError::PidNotText => ContainerErrorView::PidNotText,
            ContainerError::Cgroup(s) => ContainerErrorView::Cgroup(s@),
        }
    }
}

impl ContainerErrorView {
    /// The text of the error.
    pub open spec fn text(self) -> Seq<char> {
        match self {
            ContainerErrorView::CannotPause(s) =>
                "failed to pause container: current status is: "@ + state_name(s),
            ContainerErrorView::NotPaused(s) => "container status is: "@ + state_name(s)
                + ", not paused"@,
            ContainerErrorView::InvalidEid(s) => "invalid eid "@ + s,
            ContainerErrorView::ExecIdExists(s) => "exec_id '"@ + s + "' already exists"@,
            ContainerErrorView::FifoExists => "exec fifo exists"@,
            ContainerErrorView::NoSpec => "no spec"@,
            ContainerErrorView::NoLinux => "no linux config"@,
            ContainerErrorView::NoProcess => "no process config"@,
            ContainerErrorView::MissingCapabilities => "missing process capabilities"@,
            ContainerErrorView::NoPidNamespace => "cannot find the pid ns"@,
            ContainerErrorView::SpecWithoutLinux => "Spec didn't contain linux field"@,
            ContainerErrorView::PinFailed(s) => "failed to pin namespace "@ + s,
            ContainerErrorView::BadPid(s) => "failed to get container process's pid: "@ + s,
            ContainerErrorView::PidNotText => "get pid string"@,
            ContainerErrorView::Cgroup(s) => s,
        }
    }
}

impl ContainerError {
    /// The text of the error.
    pub fn message(&self) -> (r: String)
        ensures
            r@ == self@.text(),
    {
        match self {
            ContainerError::CannotPause(s) => {
                let mut t = "failed to pause container: current status is: ".to_owned();
                t.append(name_of_state(*s).as_str());
                t
            },
            ContainerError::NotPaused(s) => {
                let mut t = "container status is: ".to_owned();
                t.append(name_of_state(*s).as_str());
                t.append(", not paused");
                t
            },
            ContainerError::InvalidEid(s) => {
                let mut t = "invalid eid ".to_owned();
                t.append(s.as_str());
                t
            },
            ContainerError::ExecIdExists(s) => {
                let mut t = "exec_id '".to_owned();
                t.append(s.as_str());
                t.append("' already exists");
                t
            },
            ContainerError::FifoExists => "exec fifo exists".to_owned(),
            ContainerError::NoSpec => "no spec".to_owned(),
            ContainerError::NoLinux => "no linux config".to_owned(),
            ContainerError::NoProcess => "no process config".to_owned(),
            ContainerError::MissingCapabilities => "missing process capabilities".to_owned(),
            ContainerError::NoPidNamespace => "cannot find the pid ns".to_owned(),
            ContainerError::SpecWithoutLinux => "Spec didn't contain linux field".to_owned(),
            ContainerError::PinFailed(s) => {
                let mut t = "failed to pin namespace ".to_owned();
                t.append(s.as_str());
                t
            },
            ContainerError::BadPid(s) => {
                let mut t = "failed to get container process's pid: ".to_owned();
                t.append(s.as_str());
                t
            },
            ContainerError::PidNotText => "get pid string".to_owned(),
            ContainerError::Cgroup(s) => s.clone(),
        }
    }
}

/// The namespaces that a container can have: short name and clone flag.
pub open spec fn namespace_table() -> Seq<(Seq<char>, u32)> {
    seq![
        ("user"@, 0x1000_0000u32),
        ("ipc"@, 0x0800_0000u32),
        ("pid"@, 0x2000_0000u32),
        ("net"@, 0x4000_0000u32),
        ("mnt"@, 0x0002_0000u32),
        ("uts"@, 0x0400_0000u32),
        ("cgroup"@, 0x0200_0000u32),
    ]
}

/// The namespaces that a container can have.
pub fn namespaces() -> (r: Vec<(String, u32)>)
    ensures
        r@.map_values(|e: (String, u32)| (e.0@, e.1)) == namespace_table(),
{
    let mut v: Vec<(String, u32)> = Vec::new();
    v.push(("user".to_owned(), 0x1000_0000));
    v.push(("ipc".to_owned(), 0x0800_0000));
    v.push(("pid".to_owned(), 0x2000_0000));
    v.push(("net".to_owned(), 0x4000_0000));
    v.push(("mnt".to_owned(), 0x0002_0000));
    v.push(("uts".to_owned(), 0x0400_0000));
    v.push(("cgroup".to_owned(), 0x0200_0000));
    proof {
        assert(v@.map_values(|e: (String, u32)| (e.0@, e.1)) =~= namespace_table());
    }
    v
}

/// The short name of a namespace type that a container can have.
pub fn type_to_name(typ: NamespaceType) -> (r: Option<String>)
    ensures
        match r {
            Some(s) => typ != NamespaceType::Time && s@ == namespace_name_of(typ),
            None => typ == NamespaceType::Time,
        },
{
    if typ == NamespaceType::Time {
        None
    } else {
        Some(namespace_name(typ))
    }
}

/// Path and numbers of the device nodes that every container has.
pub open spec fn default_device_table() -> Seq<(Seq<char>, i64, i64)> {
    seq![
        ("/dev/null"@, 1i64, 3i64),
        ("/dev/zero"@, 1i64, 5i64),
        ("/dev/full"@, 1i64, 7i64),
        ("/dev/tty"@, 5i64, 0i64),
        ("/dev/urandom"@, 1i64, 9i64),
        ("/dev/random"@, 1i64, 8i64),
    ]
}

/// Whether a device is the character device that the table says, readable and
/// writable by all, with no owner of its own.
pub open spec fn is_default_device(d: LinuxDevice, e: (Seq<char>, i64, i64)) -> bool {
    d.path@ == e.0 && d.major == e.1 && d.minor == e.2 && d.typ == DeviceType::C && d.file_mode
        == Some(0o666u32) && d.uid == Some(0xffff_ffffu32) && d.gid == Some(0xffff_ffffu32)
}

fn default_device(path: &str, major: i64, minor: i64) -> (r: LinuxDevice)
    ensures
        is_default_device(r, (path@, major, minor)),
{
    LinuxDevice {
        path: path.to_owned(),
        typ: DeviceType::C,
        major,
        minor,
        file_mode: Some(0o666),
        uid: Some(0xffff_ffff),
        gid: Some(0xffff_ffff),
    }
}

/// The device nodes that every container has.
pub fn default_devices() -> (r: Vec<LinuxDevice>)
    ensures
        r@.len() == default_device_table().len(),
        forall|i: int|
            0 <= i < r@.len() ==> is_default_device(#[trigger] r@[i], default_device_table()[i]),
{
    let mut v: Vec<LinuxDevice> = Vec::new();
    v.push(default_device("/dev/null", 1, 3));
    v.push(default_device("/dev/zero", 1, 5));
    v.push(default_device("/dev/full", 1, 7));
    v.push(default_device("/dev/tty", 5, 0));
    v.push(default_device("/dev/urandom", 1, 9));
    v.push(default_device("/dev/random", 1, 8));
    v
}

/// The namespaces of a configuration.
pub fn get_namespaces(linux: &Linux) -> (r: Vec<LinuxNamespace>)
    ensures
        r@ == linux.namespace_list(),
{
    let mut out: Vec<LinuxNamespace> = Vec::new();
    match &linux.namespaces {
        Some(v) => {
            let mut i: usize = 0;
            while i < v.len()
                invariant
                    i <= v.len(),
                    out@ == v@.take(i as int),
                decreases v.len() - i,
            {
                out.push(v[i].copy());
                i += 1;
            }
            proof {
                assert(v@.take(v@.len() as int) =~= v@);
            }
        },
        None => {},
    }
    out
}

/// Whether a container gets a user namespace of its own, whose ids the parent maps.
pub open spec fn maps_users(linux: Linux) -> bool {
    let l = linux.namespace_list();
    exists|i: int|
        0 <= i < l.len() && (#[trigger] l[i]).typ == NamespaceType::User && l[i].path is None
}

/// Tells whether a container gets a user namespace of its own.
pub fn is_userns_enabled(linux: &Linux) -> (r: bool)
    ensures
        r == maps_users(*linux),
{
    match &linux.namespaces {
        Some(v) => {
            let mut i: usize = 0;
            while i < v.len()
                invariant
                    i <= v.len(),
                    linux.namespace_list() == v@,
                    forall|k: int|
                        0 <= k < i ==> !((#[trigger] v@[k]).typ == NamespaceType::User && v@[k].path
                            is None),
                decreases v.len() - i,
            {
                if v[i].typ == NamespaceType::User && v[i].path.is_none() {
                    proof {
                        assert(linux.namespace_list()[i as int] == v@[i as int]);
                    }
                    return true;
                }
                i += 1;
            }
            false
        },
        None => false,
    }
}

/// The first pid namespace of a list.
pub open spec fn first_pid_namespace(nses: Seq<LinuxNamespace>) -> Option<int>
    decreases nses.len(),
{
    if nses.len() == 0 {
        None
    } else {
        match first_pid_namespace(nses.drop_last()) {
            Some(i) => Some(i),
            None => if nses.last().typ == NamespaceType::Pid {
                Some(nses.len() - 1)
            } else {
                None
            },
        }
    }
}

proof fn lemma_first_pid(nses: Seq<LinuxNamespace>, i: int)
    requires
        0 <= i <= nses.len(),
        first_pid_namespace(nses.take(i)) is Some,
    ensures
        first_pid_namespace(nses) == first_pid_namespace(nses.take(i)),
    decreases nses.len() - i,
{
    if i < nses.len() {
        assert(nses.take(i + 1).drop_last() =~= nses.take(i));
        lemma_first_pid(nses, i + 1);
    } else {
        assert(nses.take(i) =~= nses);
    }
}

/// The pid namespace of a container: the one to open, none where it is created,
/// and an error where the configuration has none.
pub fn get_pid_namespace(linux: &Linux) -> (r: Result<Option<usize>, ContainerError>)
    ensures
        match first_pid_namespace(linux.namespace_list()) {
            Some(i) => {
                &&& 0 <= i < linux.namespace_list().len()
                &&& linux.namespace_list()[i].path is None ==> (r matches Ok(None))
                &&& linux.namespace_list()[i].path is Some ==> (r matches Ok(Some(k)) && k == i)
            },
            None => r matches Err(e) && e@ == ContainerErrorView::NoPidNamespace,
        },
{
    match &linux.namespaces {
        Some(v) => {
            let mut i: usize = 0;
            proof {
                assert(v@.take(0) =~= Seq::<LinuxNamespace>::empty());
            }
            while i < v.len()
                invariant
                    i <= v.len(),
                    linux.namespace_list() == v@,
                    first_pid_namespace(v@.take(i as int)) is None,
                decreases v.len() - i,
            {
                proof {
                    assert(v@.take(i + 1).drop_last() =~= v@.take(i as int));
                    assert(v@.take(i + 1).last() == v@[i as int]);
                }
                if v[i].typ == NamespaceType::Pid {
                    proof {
                        lemma_first_pid(v@, i + 1);
                    }
                    return if v[i].path.is_none() {
                        Ok(None)
                    } else {
                        Ok(Some(i))
                    };
                }
                i += 1;
            }
            proof {
                assert(v@.take(v@.len() as int) =~= v@);
            }
            Err(ContainerError::NoPidNamespace)
        },
        None => Err(ContainerError::NoPidNamespace),
    }
}

/// Whether a namespace of a started container has to be pinned: it was created
/// with the container and is of a type that has a file.
pub open spec fn to_pin(ns: LinuxNamespace) -> bool {
    ns.typ != NamespaceType::Time && !ns.joins()
}

/// The file of a namespace of a process.
pub open spec fn ns_file(pid: int, typ: NamespaceType) -> Seq<char> {
    "/proc/"@ + signed_decimal(pid) + "/ns/"@ + namespace_name_of(typ)
}

/// The file of a namespace of a process.
pub fn namespace_file(pid: i32, typ: NamespaceType) -> (r: String)
    ensures
        r@ == ns_file(pid as int, typ),
{
    let mut s = "/proc/".to_owned();
    push_i64(&mut s, pid as i64);
    s.append("/ns/");
    s.append(namespace_name(typ).as_str());
    s
}

/// The path of an open file of a process.
pub open spec fn fd_path(pid: int, fd: int) -> Seq<char> {
    "/proc/"@ + signed_decimal(pid) + "/fd/"@ + signed_decimal(fd)
}

/// The namespaces after pinning the first `n` of them: each that had to be pinned
/// is joined by the open file of the agent.
pub open spec fn pinned(
    before: Seq<LinuxNamespace>,
    after: Seq<LinuxNamespace>,
    n: int,
    agent_pid: int,
    fds: Seq<Option<i32>>,
) -> bool {
    &&& after.len() == before.len()
    &&& forall|i: int|
        0 <= i < before.len() ==> {
            &&& (#[trigger] after[i]).typ == before[i].typ
            &&& if i < n && to_pin(before[i]) {
                after[i].path is Some && after[i].path->0@ == fd_path(
                    agent_pid,
                    fds[i]->0 as int,
                )
            } else {
                after[i].path == before[i].path
            }
        }
}

/// The first namespace that has to be pinned and could not be opened, or the
/// number of namespaces.
pub open spec fn first_unopened(nses: Seq<LinuxNamespace>, fds: Seq<Option<i32>>) -> int
    decreases nses.len(),
{
    if nses.len() == 0 {
        0
    } else {
        let before = first_unopened(nses.drop_last(), fds);
        if before < nses.len() - 1 {
            before
        } else if to_pin(nses.last()) && fds[nses.len() - 1] is None {
            nses.len() - 1
        } else {
            nses.len() as int
        }
    }
}

proof fn lemma_unopened(nses: Seq<LinuxNamespace>, fds: Seq<Option<i32>>, i: int)
    requires
        0 <= i <= nses.len(),
        first_unopened(nses.take(i), fds) < i,
    ensures
        first_unopened(nses, fds) == first_unopened(nses.take(i), fds),
    decreases nses.len() - i,
{
    if i < nses.len() {
        assert(nses.take(i + 1).drop_last() =~= nses.take(i));
        lemma_unopened(nses, fds, i + 1);
    } else {
        assert(nses.take(i) =~= nses);
    }
}

/// Replaces the path of one namespace.
fn set_namespace_path(linux: &mut Linux, i: usize, path: String)
    requires
        old(linux).namespaces is Some,
        i < old(linux).namespace_list().len(),
    ensures
        final(linux).namespaces is Some,
        final(linux).namespace_list() == old(linux).namespace_list().update(
            i as int,
            (LinuxNamespace { typ: old(linux).namespace_list()[i as int].typ, path: Some(path) }),
        ),
        final(linux).uid_mappings == old(linux).uid_mappings,
        final(linux).gid_mappings == old(linux).gid_mappings,
        final(linux).devices == old(linux).devices,
        final(linux).resources == old(linux).resources,
        final(linux).cgroups_path == old(linux).cgroups_path,
        final(linux).sysctl == old(linux).sysctl,
        final(linux).seccomp == old(linux).seccomp,
{
    let mut list: Option<Vec<LinuxNamespace>> = None;
    core::mem::swap(&mut list, &mut linux.namespaces);
    match list {
        Some(mut v) => {
            let ghost before = v@;
            let typ = v[i].typ;
            v.set(i, LinuxNamespace { typ, path: Some(path) });
            linux.namespaces = Some(v);
        },
        None => {},
    }
}

/// Whether two Linux sections agree in everything but the namespaces.
pub open spec fn same_but_namespaces(a: Linux, b: Linux) -> bool {
    &&& a.uid_mappings == b.uid_mappings
    &&& a.gid_mappings == b.gid_mappings
    &&& a.devices == b.devices
    &&& a.resources == b.resources
    &&& a.cgroups_path == b.cgroups_path
    &&& a.sysctl == b.sysctl
    &&& a.seccomp == b.seccomp
}

/// Pins the namespaces that a container was created with, so that later processes
/// join them by files that the agent keeps open. `fds` holds for each namespace the
/// descriptor of its opened file, or nothing where the opening failed; the first
/// failure ends the work. The file to open for a namespace is `namespace_file` of
/// the init process.
pub fn update_namespaces(linux: &mut Linux, init_pid: i32, agent_pid: u32, fds: &Vec<Option<i32>>)
    -> (r: Result<(), ContainerError>)
    requires
        fds@.len() == old(linux).namespace_list().len(),
    ensures
        ({
            let before = old(linux).namespace_list();
            let after = final(linux).namespace_list();
            let n = first_unopened(before, fds@);
            &&& pinned(before, after, n, agent_pid as int, fds@)
            &&& final(linux).namespaces is Some == old(linux).namespaces is Some
            &&& same_but_namespaces(*final(linux), *old(linux))
            &&& match r {
                Ok(_) => n == before.len(),
                Err(e) => n < before.len() && e@ == ContainerErrorView::PinFailed(
                    ns_file(init_pid as int, before[n].typ),
                ),
            }
        }),
{
    let ghost before = linux.namespace_list();
    if linux.namespaces.is_none() {
        return Ok(());
    }
    let n: usize = match &linux.namespaces {
        Some(v) => v.len(),
        None => 0,
    };
    let mut i: usize = 0;
    proof {
        assert(before.take(0) =~= Seq::<LinuxNamespace>::empty());
    }
    while i < n
        invariant
            n == before.len(),
            fds@.len() == n,
            i <= n,
            linux.namespaces is Some,
            same_but_namespaces(*linux, *old(linux)),
            old(linux).namespaces is Some,
            before == old(linux).namespace_list(),
            first_unopened(before.take(i as int), fds@) == i,
            pinned(before, linux.namespace_list(), i as int, agent_pid as int, fds@),
        decreases n - i,
    {
        let ghost now = linux.namespace_list();
        proof {
            assert(before.take(i + 1).drop_last() =~= before.take(i as int));
            assert(before.take(i + 1).last() == before[i as int]);
            assert(now[i as int].typ == before[i as int].typ);
            assert(now[i as int].path == before[i as int].path);
        }
        let (typ, pin) = match &linux.namespaces {
            Some(v) => (v[i].typ, v[i].typ != NamespaceType::Time && !v[i].has_path()),
            None => (NamespaceType::Time, false),
        };
        if pin {
            match fds[i] {
                None => {
                    proof {
                        lemma_unopened(before, fds@, i + 1);
                    }
                    return Err(ContainerError::PinFailed(namespace_file(init_pid, typ)));
                },
                Some(fd) => {
                    let mut path = "/proc/".to_owned();
                    push_i64(&mut path, agent_pid as i64);
                    path.append("/fd/");
                    push_i64(&mut path, fd as i64);
                    set_namespace_path(linux, i, path);
                },
            }
        }
        i += 1;
    }
    proof {
        assert(before.take(n as int) =~= before);
    }
    Ok(())
}

/// After a successful pinning every namespace with a file is joined by a path, so a
/// later process joins what the init process lives in, and nothing is left to pin.
pub proof fn law_pinned_namespaces_are_joined(
    before: Seq<LinuxNamespace>,
    after: Seq<LinuxNamespace>,
    agent_pid: int,
    fds: Seq<Option<i32>>,
)
    requires
        pinned(before, after, before.len() as int, agent_pid, fds),
    ensures
        forall|i: int|
            0 <= i < after.len() ==> (#[trigger] after[i]).typ == NamespaceType::Time
                || after[i].joins(),
        forall|i: int| 0 <= i < after.len() ==> !to_pin(#[trigger] after[i]),
{
    reveal_strlit("/proc/");
    assert forall|i: int| 0 <= i < after.len() implies (#[trigger] after[i]).typ
        == NamespaceType::Time || after[i].joins() by {
        if to_pin(before[i]) {
            assert(after[i].path->0@ == fd_path(agent_pid, fds[i]->0 as int));
            assert(fd_path(agent_pid, fds[i]->0 as int).len() >= "/proc/"@.len());
        }
    }
}

/// The lines of an id mapping; empty ranges are left out.
pub open spec fn mapping_lines(maps: Seq<LinuxIdMapping>) -> Seq<char>
    decreases maps.len(),
{
    if maps.len() == 0 {
        Seq::empty()
    } else {
        let m = maps.last();
        let before = mapping_lines(maps.drop_last());
        if m.size == 0 {
            before
        } else {
            before + decimal(m.container_id as nat) + " "@ + decimal(m.host_id as nat) + " "@
                + decimal(m.size as nat) + "\n"@
        }
    }
}

/// Writes the lines of an id mapping. Where there are none, nothing is to be
/// written to the kernel.
pub fn mapping_text(maps: &Vec<LinuxIdMapping>) -> (r: String)
    ensures
        r@ == mapping_lines(maps@),
{
    let mut s = String::new();
    let mut i: usize = 0;
    proof {
        assert(maps@.take(0) =~= Seq::<LinuxIdMapping>::empty());
    }
    while i < maps.len()
        invariant
            i <= maps.len(),
            s@ == mapping_lines(maps@.take(i as int)),
        decreases maps.len() - i,
    {
        proof {
            assert(maps@.take(i + 1).drop_last() =~= maps@.take(i as int));
            assert(maps@.take(i + 1).last() == maps@[i as int]);
        }
        let m = maps[i];
        if m.size != 0 {
            push_u64(&mut s, m.container_id as u64);
            s.append(" ");
            push_u64(&mut s, m.host_id as u64);
            s.append(" ");
            push_u64(&mut s, m.size as u64);
            s.append("\n");
        }
        i += 1;
    }
    proof {
        assert(maps@.take(maps@.len() as int) =~= maps@);
    }
    s
}

/// `s` with one character in place of another.
pub open spec fn replaced(s: Seq<char>, from: char, to: char) -> Seq<char> {
    s.map_values(
        |c: char|
            if c == from {
                to
            } else {
                c
            },
    )
}

/// Puts one character in place of another.
pub fn replace_char(s: &str, from: char, to: char) -> (r: String)
    ensures
        r@ == replaced(s@, from, to),
{
    let c = chars_of(s);
    let mut out: Vec<char> = Vec::new();
    let mut i: usize = 0;
    while i < c.len()
        invariant
            i <= c.len(),
            c@ == s@,
            out@ == replaced(s@, from, to).take(i as int),
        decreases c.len() - i,
    {
        out.push(
            if c[i] == from {
                to
            } else {
                c[i]
            },
        );
        i += 1;
    }
    proof {
        let m = replaced(s@, from, to);
        assert(m.take(m.len() as int) =~= m);
    }
    string_of(out.as_slice())
}

/// The file of a kernel parameter.
pub fn sysctl_path(key: &str) -> (r: String)
    ensures
        r@ == "/proc/sys/"@ + replaced(key@, '.', '/'),
{
    let mut s = "/proc/sys/".to_owned();
    s.append(replace_char(key, '.', '/').as_str());
    s
}

/// The cgroup path of a container: that of its configuration with slashes for
/// colons, or the id at the root.
pub open spec fn cgroup_path_of(configured: Option<Seq<char>>, id: Seq<char>) -> Seq<char> {
    match configured {
        Some(p) => if p.len() == 0 {
            "/"@ + id
        } else {
            replaced(p, ':', '/')
        },
        None => "/"@ + id,
    }
}

/// Options of a new container.
#[derive(Debug)]
pub struct CreateOpts {
    pub no_pivot_root: bool,
    pub container_name: String,
    pub spec: Option<Spec>,
}

/// A process of a container.
#[derive(Debug)]
pub struct ContainerProcess {
    pub exec_id: String,
    pub pid: i32,
    pub init: bool,
    pub tty: bool,
    pub capabilities: Option<Capabilities>,
    pub exit_code: i32,
    /// The terminal of the process.
    pub term_master: Option<i32>,
    /// The agent's ends of the standard streams of a process without a terminal.
    pub parent_stdin: Option<i32>,
    pub parent_stdout: Option<i32>,
    pub parent_stderr: Option<i32>,
}

/// A descriptor that may be there.
pub open spec fn descriptor_list(fd: Option<i32>) -> Seq<i32> {
    match fd {
        Some(n) => seq![n],
        None => Seq::empty(),
    }
}

impl ContainerProcess {
    /// The descriptors that the agent holds of a process: its terminal, and its own ends of
    /// the standard streams.
    pub open spec fn open_descriptors(self) -> Seq<i32> {
        descriptor_list(self.term_master) + descriptor_list(self.parent_stdin) + descriptor_list(
            self.parent_stdout,
        ) + descriptor_list(self.parent_stderr)
    }

    /// Lists the descriptors that the agent holds of a process.
    pub fn descriptors(&self) -> (r: Vec<i32>)
        ensures
            r@ == self.open_descriptors(),
    {
        let mut out: Vec<i32> = Vec::new();
        push_descriptor(&mut out, self.term_master);
        push_descriptor(&mut out, self.parent_stdin);
        push_descriptor(&mut out, self.parent_stdout);
        push_descriptor(&mut out, self.parent_stderr);
        out
    }
}

fn push_descriptor(out: &mut Vec<i32>, fd: Option<i32>)
    ensures
        final(out)@ == old(out)@ + descriptor_list(fd),
{
    if let Some(n) = fd {
        out.push(n);
    }
    proof {
        assert(out@ =~= old(out)@ + descriptor_list(fd));
    }
}

/// A container.
#[derive(Debug)]
pub struct LinuxContainer {
    pub id: String,
    pub root: String,
    pub cpath: String,
    pub config: CreateOpts,
    pub init_process_pid: i32,
    pub processes: StrMap<ContainerProcess>,
    pub status: ContainerStatus,
}

impl LinuxContainer {
    /// A container that was created under a base directory and has no process yet.
    pub fn new(id: String, base: &str, config: CreateOpts) -> (r: LinuxContainer)
        requires
            config.spec is Some,
            config.spec->0.linux is Some,
        ensures
            r.id@ == id@,
            r.root@ == base@ + "/"@ + id@,
            r.cpath@ == cgroup_path_of(
                match config.spec->0.linux->0.cgroups_path {
                    Some(p) => Some(p@),
                    None => None,
                },
                id@,
            ),
            r.config == config,
            r.init_process_pid == -1,
            r.processes@ == Map::<Seq<char>, ContainerProcess>::empty(),
            r.status.cur_status == ContainerState::Created,
    {
        let mut root = base.to_owned();
        root.append("/");
        root.append(id.as_str());
        let mut plain = "/".to_owned();
        plain.append(id.as_str());
        let cpath = match &config.spec {
            Some(spec) => match &spec.linux {
                Some(linux) => match &linux.cgroups_path {
                    Some(p) => {
                        if p.as_str().is_empty() {
                            plain
                        } else {
                            replace_char(p.as_str(), ':', '/')
                        }
                    },
                    None => plain,
                },
                None => plain,
            },
            None => plain,
        };
        LinuxContainer {
            id,
            root,
            cpath,
            config,
            init_process_pid: -1,
            processes: StrMap::new(),
            status: ContainerStatus::new(),
        }
    }

    /// The path of the FIFO on which the init process waits.
    pub fn fifo_path(&self) -> (r: String)
        ensures
            r@ == self.root@ + "/"@ + EXEC_FIFO_FILENAME@,
    {
        let mut s = self.root.clone();
        s.append("/");
        s.append(EXEC_FIFO_FILENAME);
        s
    }

    /// Tells whether the container can be paused, before the freezer is asked to.
    pub fn may_pause(&self) -> (r: Result<(), ContainerError>)
        ensures
            match r {
                Ok(_) => self.status.cur_status == ContainerState::Running
                    || self.status.cur_status == ContainerState::Created,
                Err(e) => self.status.cur_status != ContainerState::Running
                    && self.status.cur_status != ContainerState::Created && e@
                    == ContainerErrorView::CannotPause(self.status.cur_status),
            },
    {
        let status = self.status.status();
        if status != ContainerState::Running && status != ContainerState::Created {
            return Err(ContainerError::CannotPause(status));
        }
        Ok(())
    }

    /// Tells whether the container can be resumed, before the freezer is asked to.
    pub fn may_resume(&self) -> (r: Result<(), ContainerError>)
        ensures
            match r {
                Ok(_) => self.status.cur_status == ContainerState::Paused,
                Err(e) => self.status.cur_status != ContainerState::Paused && e@
                    == ContainerErrorView::NotPaused(self.status.cur_status),
            },
    {
        let status = self.status.status();
        if status != ContainerState::Paused {
            return Err(ContainerError::NotPaused(status));
        }
        Ok(())
    }

    /// Notes that the init process was released to run its program.
    pub fn exec(&mut self)
        ensures
            final(self).status.cur_status == ContainerState::Running,
            final(self).id == old(self).id,
            final(self).root == old(self).root,
            final(self).cpath == old(self).cpath,
            final(self).config == old(self).config,
            final(self).init_process_pid == old(self).init_process_pid,
            final(self).processes == old(self).processes,
    {
        self.status.transition(ContainerState::Running);
    }
}

/// What every container offers.
pub trait BaseContainer {
    /// The state of the container.
    spec fn state(&self) -> ContainerState;

    /// The processes of the container by id.
    spec fn process_map(&self) -> Map<Seq<char>, ContainerProcess>;

    /// The resource limits of the configuration, where it has a Linux section.
    spec fn limits(&self) -> Option<Option<LinuxResources>>;

    /// Whether the container has a configuration.
    spec fn configured(&self) -> bool;

    /// The state of the container.
    fn status(&self) -> (r: ContainerState)
        ensures
            r == self.state(),
    ;

    /// The process with the given id.
    fn get_process(&self, eid: &str) -> (r: Result<&ContainerProcess, ContainerError>)
        ensures
            match r {
                Ok(p) => self.process_map().contains_key(eid@) && *p == self.process_map()[eid@],
                Err(e) => !self.process_map().contains_key(eid@) && e@
                    == ContainerErrorView::InvalidEid(eid@),
            },
    ;

    /// Takes new resource limits, which the cgroups were asked to apply. They enter
    /// the configuration where the cgroups took them; else the error of the cgroups is
    /// handed on.
    fn set(&mut self, limits: LinuxResources, applied: Result<(), String>) -> (r: Result<
        (),
        ContainerError,
    >)
        requires
            old(self).configured(),
        ensures
            final(self).state() == old(self).state(),
            final(self).process_map() == old(self).process_map(),
            final(self).configured(),
            match applied {
                Ok(_) => r is Ok && final(self).limits() == match old(self).limits() {
                    Some(_) => Some(Some(limits)),
                    None => None,
                },
                Err(e) => r matches Err(x) && x@ == ContainerErrorView::Cgroup(e@)
                    && final(self).limits() == old(self).limits(),
            },
    ;
}

/// A container that can be paused.
pub trait Container: BaseContainer {
    /// Pauses the container, which the freezer was asked to freeze where its state
    /// allows it. Only a created or a running container can be paused.
    fn pause(&mut self, frozen: Result<(), String>) -> (r: Result<(), ContainerError>)
        ensures
            final(self).process_map() == old(self).process_map(),
            final(self).limits() == old(self).limits(),
            if old(self).state() != ContainerState::Running && old(self).state()
                != ContainerState::Created {
                r matches Err(e) && e@ == ContainerErrorView::CannotPause(old(self).state())
                    && final(self).state() == old(self).state()
            } else {
                match frozen {
                    Ok(_) => r is Ok && final(self).state() == ContainerState::Paused,
                    Err(n) => r matches Err(e) && e@ == ContainerErrorView::Cgroup(n@)
                        && final(self).state() == old(self).state(),
                }
            },
    ;

    /// Resumes the container, which the freezer was asked to thaw where its state
    /// allows it. Only a paused container can be resumed.
    fn resume(&mut self, thawed: Result<(), String>) -> (r: Result<(), ContainerError>)
        ensures
            final(self).process_map() == old(self).process_map(),
            final(self).limits() == old(self).limits(),
            if old(self).state() != ContainerState::Paused {
                r matches Err(e) && e@ == ContainerErrorView::NotPaused(old(self).state())
                    && final(self).state() == old(self).state()
            } else {
                match thawed {
                    Ok(_) => r is Ok && final(self).state() == ContainerState::Running,
                    Err(n) => r matches Err(e) && e@ == ContainerErrorView::Cgroup(n@)
                        && final(self).state() == old(self).state(),
                }
            },
    ;
}

/// Whether two sets of options agree in everything but the resource limits.
pub open spec fn only_limits_differ(a: CreateOpts, b: CreateOpts) -> bool {
    &&& a == (CreateOpts { spec: a.spec, ..b })
    &&& match b.spec {
        None => a.spec is None,
        Some(t) => {
            &&& a.spec is Some
            &&& a.spec->0 == (Spec { linux: a.spec->0.linux, ..t })
            &&& match t.linux {
                None => a.spec->0.linux is None,
                Some(l) => a.spec->0.linux is Some && a.spec->0.linux->0 == (Linux {
                    resources: a.spec->0.linux->0.resources,
                    ..l
                }),
            }
        },
    }
}

impl BaseContainer for LinuxContainer {
    open spec fn state(&self) -> ContainerState {
        self.status.cur_status
    }

    open spec fn process_map(&self) -> Map<Seq<char>, ContainerProcess> {
        self.processes@
    }

    open spec fn limits(&self) -> Option<Option<LinuxResources>> {
        match self.config.spec {
            Some(spec) => match spec.linux {
                Some(linux) => Some(linux.resources),
                None => None,
            },
            None => None,
        }
    }

    open spec fn configured(&self) -> bool {
        self.config.spec is Some
    }

    fn status(&self) -> (r: ContainerState) {
        self.status.status()
    }

    fn get_process(&self, eid: &str) -> (r: Result<&ContainerProcess, ContainerError>) {
        match self.processes.get(eid) {
            Some(p) => Ok(p),
            None => Err(ContainerError::InvalidEid(eid.to_owned())),
        }
    }

    fn set(&mut self, limits: LinuxResources, applied: Result<(), String>) -> (r: Result<
        (),
        ContainerError,
    >)
        ensures
            *final(self) == (LinuxContainer { config: final(self).config, ..*old(self) }),
            only_limits_differ(final(self).config, old(self).config),
    {
        match applied {
            Err(e) => Err(ContainerError::Cgroup(e)),
            Ok(_) => {
                let mut spec: Option<Spec> = None;
                core::mem::swap(&mut spec, &mut self.config.spec);
                match spec {
                    Some(mut s) => {
                        let mut linux: Option<Linux> = None;
                        core::mem::swap(&mut linux, &mut s.linux);
                        match linux {
                            Some(mut l) => {
                                l.resources = Some(limits);
                                s.linux = Some(l);
                            },
                            None => {},
                        }
                        self.config.spec = Some(s);
                    },
                    None => {},
                }
                Ok(())
            },
        }
    }
}

impl Container for LinuxContainer {
    fn pause(&mut self, frozen: Result<(), String>) -> (r: Result<(), ContainerError>)
        ensures
            *final(self) == (LinuxContainer { status: final(self).status, ..*old(self) }),
    {
        if let Err(e) = self.may_pause() {
            return Err(e);
        }
        match frozen {
            Ok(_) => {
                self.status.transition(ContainerState::Paused);
                Ok(())
            },
            Err(e) => Err(ContainerError::Cgroup(e)),
        }
    }

    fn resume(&mut self, thawed: Result<(), String>) -> (r: Result<(), ContainerError>)
        ensures
            *final(self) == (LinuxContainer { status: final(self).status, ..*old(self) }),
    {
        if let Err(e) = self.may_resume() {
            return Err(e);
        }
        match thawed {
            Ok(_) => {
                self.status.transition(ContainerState::Running);
                Ok(())
            },
            Err(e) => Err(ContainerError::Cgroup(e)),
        }
    }
}

} // verus!
