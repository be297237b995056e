//! What the init process of a container does between its birth and `exec`.
//!
//! The plan is a list of steps computed from the configuration. The caller
//! performs one step after the other and reports how each went.
use vstd::prelude::*;

use crate::oci::{LinuxNamespace, NamespaceType, Process, Spec};
use crate::strmap::StrMap;
use crate::text::{
    chars_of, int_of, law_signed_decimals_are_read_back, parse_i32, push_i64, signed_decimal,
    str_eq,
};

verus! {

/// `EINVAL`.
pub const EINVAL: i32 = 22;

/// A set of namespace types that a process can leave or create.
#[derive(Clone, Copy, Debug, PartialEq, Eq, Structural)]
pub struct NamespaceSet {
    pub mount: bool,
    pub cgroup: bool,
    pub uts: bool,
    pub ipc: bool,
    pub user: bool,
    pub network: bool,
}

impl NamespaceSet {
    /// Whether a type is in the set. The pid and the time type never are.
    pub open spec fn contains(self, typ: NamespaceType) -> bool {
        match typ {
            NamespaceType::Mount => self.mount,
            NamespaceType::Cgroup => self.cgroup,
            NamespaceType::Uts => self.uts,
            NamespaceType::Ipc => self.ipc,
            NamespaceType::User => self.user,
            NamespaceType::Network => self.network,
            NamespaceType::Pid => false,
            NamespaceType::Time => false,
        }
    }

    /// The empty set.
    pub fn none() -> (r: NamespaceSet)
        ensures
            forall|t: NamespaceType| !r.contains(t),
    {
        NamespaceSet {
            mount: false,
            cgroup: false,
            uts: false,
            ipc: false,
            user: false,
            network: false,
        }
    }

    /// The set with one more type; the pid and the time type are left out.
    pub fn with(self, typ: NamespaceType) -> (r: NamespaceSet)
        ensures
            forall|t: NamespaceType|
                #![trigger r.contains(t)]
                r.contains(t) <==> (self.contains(t) || (t == typ && t != NamespaceType::Pid && t
                    != NamespaceType::Time)),
    {
        let mut r = self;
        match typ {
            NamespaceType::Mount => {
                r.mount = true;
            },
            NamespaceType::Cgroup => {
                r.cgroup = true;
            },
            NamespaceType::Uts => {
                r.uts = true;
            },
            NamespaceType::Ipc => {
                r.ipc = true;
            },
            NamespaceType::User => {
                r.user = true;
            },
            NamespaceType::Network => {
                r.network = true;
            },
            NamespaceType::Pid => {},
            NamespaceType::Time => {},
        }
        r
    }

    /// The set without the user type.
    pub open spec fn minus_user(self) -> NamespaceSet {
        NamespaceSet { user: false, ..self }
    }
}

/// Why a configuration cannot be started.
#[derive(Clone, Copy, Debug, PartialEq, Eq, Structural)]
pub enum InitReject {
    /// The configuration has no process.
    MissingProcess,
    /// The configuration has no Linux section.
    MissingLinux,
    /// A namespace has a type that containers cannot have.
    InvalidNamespace,
    /// The process has a SELinux label and SELinux is off.
    SelinuxDisabled,
}

impl InitReject {
    /// The text of the error.
    pub open spec fn text(self) -> Seq<char> {
        match self {
            InitReject::MissingProcess => "didn't find process in Spec"@,
            InitReject::MissingLinux => "no linux config"@,
            InitReject::InvalidNamespace => "invalid namespace type"@,
            InitReject::SelinuxDisabled =>
                "SELinux label for the process is provided but SELinux is not enabled on the running kernel"@,
        }
    }

    /// The text of the error.
    pub fn message(self) -> (r: String)
        ensures
            r@ == self.text(),
    {
        match self {
            InitReject::MissingProcess => "didn't find process in Spec".to_owned(),
            InitReject::MissingLinux => "no linux config".to_owned(),
            InitReject::InvalidNamespace => "invalid namespace type".to_owned(),
            InitReject::SelinuxDisabled =>
                "SELinux label for the process is provided but SELinux is not enabled on the running kernel".to_owned(),
        }
    }
}

/// One step of the init process.
#[derive(Clone, Copy, Debug, PartialEq, Eq, Structural)]
pub enum InitStep {
    /// Give up.
    Reject(InitReject),
    /// Join the pid namespace that the parent handed over.
    JoinPidNamespace,
    /// Leave for a new pid namespace.
    CreatePidNamespace,
    /// Split into a helper that reports the pid and a child that goes on.
    Fork,
    /// Receive the configuration.
    ReadSpec,
    /// Receive the process.
    ReadProcess,
    /// Send a success message to the parent.
    NotifyParent,
    /// Wait for a message of the parent.
    WaitParent,
    /// Open the file of a namespace.
    OpenNamespace(usize),
    /// Write the OOM score.
    WriteOomScore,
    /// Set one resource limit.
    SetRlimit(usize),
    /// Make the process non-dumpable.
    SetNonDumpable,
    /// Enter a new user namespace.
    UnshareUser,
    /// Become user 0 and group 0.
    BecomeRoot,
    /// Join the namespace whose file was opened.
    JoinNamespace(usize, NamespaceType),
    /// Close the file of a namespace.
    CloseNamespace(usize),
    /// Ask whether SELinux is on.
    QuerySelinux,
    /// Leave for new namespaces.
    Unshare(NamespaceSet),
    /// Leave for a new cgroup namespace.
    UnshareCgroup,
    /// Set the host name.
    SetHostname,
    /// Resolve the path of the root filesystem.
    ResolveRootfs,
    /// Set up the mounts; device nodes are bind mounted where the flag is set.
    InitRootfs(bool),
    /// Join the mount namespace whose file was opened.
    JoinMountNamespace(usize),
    /// Move the root filesystem to `/`.
    MoveRoot,
    /// Pivot into the root filesystem.
    PivotRoot,
    /// Write the kernel parameters.
    SetSysctls,
    /// Change to `/`.
    ChdirRoot,
    /// Finish the mounts.
    FinishRootfs,
    /// Change to the working directory of the process.
    Chdir,
    /// Check that the working directory lies under the root.
    VerifyCwd,
    /// Start a session.
    NewSession,
    /// Hand standard input and output to the user.
    FixStdioOwner,
    /// Become the user of the process.
    SetUser,
    /// Set the additional groups.
    SetGroups,
    /// Forbid new privileges.
    SetNoNewPrivileges,
    /// Set the SELinux label.
    SetSelinuxLabel,
    /// Restrict the bounding capability set.
    RestrictBounding,
    /// Install the seccomp filter.
    InstallSeccomp,
    /// Drop the remaining capabilities.
    DropCapabilities,
    /// Read the number of the exec FIFO from the environment.
    TakeFifo,
    /// Remove the inherited environment.
    ResetEnvironment,
    /// Set the environment of the process.
    SetEnvironment,
    /// Look the program up.
    FindProgram,
    /// Close the log and the two message pipes.
    ClosePipes,
    /// Make the terminal the controlling one.
    ControlTerminal,
    /// Wait on the exec FIFO.
    WaitExecFifo,
    /// Run the program.
    Exec,
}

/// A step where a condition holds, no step where it does not.
pub open spec fn when(cond: bool, step: InitStep) -> Seq<InitStep> {
    if cond {
        seq![step]
    } else {
        Seq::empty()
    }
}

fn push_when(steps: &mut Vec<InitStep>, cond: bool, step: InitStep)
    ensures
        final(steps)@ == old(steps)@ + when(cond, step),
{
    if cond {
        steps.push(step);
    }
    proof {
        assert(steps@ =~= old(steps)@ + when(cond, step));
    }
}

/// The steps up to the point where the configuration is known.
pub open spec fn prelude_steps(pidns: bool) -> Seq<InitStep> {
    seq![
        if pidns {
            InitStep::JoinPidNamespace
        } else {
            InitStep::CreatePidNamespace
        },
        InitStep::Fork,
        InitStep::ReadSpec,
        InitStep::NotifyParent,
        InitStep::ReadProcess,
        InitStep::NotifyParent,
    ]
}

/// Plans the steps up to the point where the configuration is known: a pid
/// namespace is joined where the parent handed one over, and created otherwise.
pub fn init_prelude(pidns: bool) -> (r: Vec<InitStep>)
    ensures
        r@ == prelude_steps(pidns),
{
    let mut steps: Vec<InitStep> = Vec::new();
    if pidns {
        steps.push(InitStep::JoinPidNamespace);
    } else {
        steps.push(InitStep::CreatePidNamespace);
    }
    steps.push(InitStep::Fork);
    steps.push(InitStep::ReadSpec);
    steps.push(InitStep::NotifyParent);
    steps.push(InitStep::ReadProcess);
    steps.push(InitStep::NotifyParent);
    proof {
        assert(steps@ =~= prelude_steps(pidns));
    }
    steps
}

/// The variable that tells whether the process is the init process.
pub const INIT: &'static str = "INIT";

/// The variable that tells whether the root is moved and not pivoted.
pub const NO_PIVOT: &'static str = "NO_PIVOT";

/// The variable with the descriptor to read from.
pub const CRFD_FD: &'static str = "CRFD_FD";

/// The variable with the descriptor to write to.
pub const CWFD_FD: &'static str = "CWFD_FD";

/// The variable with the descriptor to log to.
pub const CLOG_FD: &'static str = "CLOG_FD";

/// The variable with the descriptor of the exec FIFO.
pub const FIFO_FD: &'static str = "FIFO_FD";

/// The variable with the descriptor of the pid namespace to join.
pub const PIDNS_FD: &'static str = "PIDNS_FD";

/// A variable that tells a new process what it needs.
#[derive(Clone, Copy, Debug, PartialEq, Eq, Structural)]
pub enum InitVariable {
    Init,
    NoPivot,
    Read,
    Write,
    Log,
    Fifo,
}

/// What the variables hold, where they are there.
#[derive(Debug)]
pub struct InitVariables {
    pub init: Option<String>,
    pub no_pivot: Option<String>,
    pub read: Option<String>,
    pub write: Option<String>,
    pub log: Option<String>,
    pub fifo: Option<String>,
    pub pidns: Option<String>,
}

/// What a new process starts with.
#[derive(Clone, Copy, Debug)]
pub struct InitSetup {
    /// Whether it is the init process.
    pub init: bool,
    /// Whether the root is moved and not pivoted.
    pub no_pivot: bool,
    /// The descriptor to read from.
    pub read: i32,
    /// The descriptor to log to.
    pub log: i32,
    /// The descriptor of the pid namespace to join, where there is one.
    pub pidns: Option<i32>,
}

/// Why a new process cannot start.
#[derive(Clone, Copy, Debug, PartialEq, Eq, Structural)]
pub enum InitFault {
    /// A variable is not there.
    Missing(InitVariable),
    /// A variable that the process cannot do without holds no descriptor.
    NoDescriptor(InitVariable),
    /// The variable with the pid namespace holds no descriptor.
    NoPidNamespace,
}

impl InitVariable {
    /// The name of the variable.
    pub open spec fn spelled(self) -> Seq<char> {
        match self {
            InitVariable::Init => INIT@,
            InitVariable::NoPivot => NO_PIVOT@,
            InitVariable::Read => CRFD_FD@,
            InitVariable::Write => CWFD_FD@,
            InitVariable::Log => CLOG_FD@,
            InitVariable::Fifo => FIFO_FD@,
        }
    }

    /// The name of the variable.
    pub fn name(self) -> (r: &'static str)
        ensures
            r@ == self.spelled(),
    {
        match self {
            InitVariable::Init => INIT,
            InitVariable::NoPivot => NO_PIVOT,
            InitVariable::Read => CRFD_FD,
            InitVariable::Write => CWFD_FD,
            InitVariable::Log => CLOG_FD,
            InitVariable::Fifo => FIFO_FD,
        }
    }
}

impl InitFault {
    /// The text of the error.
    pub open spec fn text(self) -> Seq<char> {
        match self {
            InitFault::Missing(_) => "environment variable not found"@,
            InitFault::NoDescriptor(v) => v.spelled() + " holds no descriptor"@,
            InitFault::NoPidNamespace => "get parent pidns fd"@,
        }
    }

    /// The text of the error.
    pub fn message(self) -> (r: String)
        ensures
            r@ == self.text(),
    {
        match self {
            InitFault::Missing(_) => "environment variable not found".to_owned(),
            InitFault::NoDescriptor(v) => {
                let mut s = v.name().to_owned();
                s.append(" holds no descriptor");
                s
            },
            InitFault::NoPidNamespace => "get parent pidns fd".to_owned(),
        }
    }
}

/// The descriptor in a variable.
pub open spec fn descriptor_of(name: InitVariable, text: Option<String>) -> Result<i32, InitFault> {
    match text {
        None => Err(InitFault::Missing(name)),
        Some(t) => match int_of(t@, i32::MIN as int, i32::MAX as int) {
            Some(n) => Ok(n as i32),
            None => Err(InitFault::NoDescriptor(name)),
        },
    }
}

/// What variables give a new process, in the order in which they are read.
pub open spec fn setup_of(v: InitVariables) -> Result<InitSetup, InitFault> {
    let read = descriptor_of(InitVariable::Read, v.read);
    let log = descriptor_of(InitVariable::Log, v.log);
    if v.init is None {
        Err(InitFault::Missing(InitVariable::Init))
    } else if v.no_pivot is None {
        Err(InitFault::Missing(InitVariable::NoPivot))
    } else if read is Err {
        Err(read->Err_0)
    } else if log is Err {
        Err(log->Err_0)
    } else if v.pidns matches Some(t) && int_of(t@, i32::MIN as int, i32::MAX as int) is None {
        Err(InitFault::NoPidNamespace)
    } else {
        Ok(
            InitSetup {
                init: v.init->0@ == "true"@,
                no_pivot: v.no_pivot->0@ == "true"@,
                read: read->Ok_0,
                log: log->Ok_0,
                pidns: match v.pidns {
                    Some(t) => Some(int_of(t@, i32::MIN as int, i32::MAX as int)->0 as i32),
                    None => None,
                },
            },
        )
    }
}

fn number_of(text: &String) -> (r: Option<i32>)
    ensures
        match r {
            Some(n) => int_of(text@, i32::MIN as int, i32::MAX as int) == Some(n as int),
            None => int_of(text@, i32::MIN as int, i32::MAX as int) is None,
        },
{
    let c = chars_of(text.as_str());
    parse_i32(c.as_slice())
}

/// Reads the descriptor in a variable.
pub fn read_descriptor(name: InitVariable, text: &Option<String>) -> (r: Result<i32, InitFault>)
    ensures
        r == descriptor_of(name, *text),
{
    match text {
        None => Err(InitFault::Missing(name)),
        Some(t) => match number_of(t) {
            Some(n) => Ok(n),
            None => Err(InitFault::NoDescriptor(name)),
        },
    }
}

/// Reads what variables give a new process.
pub fn read_setup(v: &InitVariables) -> (r: Result<InitSetup, InitFault>)
    ensures
        r == setup_of(*v),
{
    let init = match &v.init {
        Some(t) => str_eq(t.as_str(), "true"),
        None => {
            return Err(InitFault::Missing(InitVariable::Init));
        },
    };
    let no_pivot = match &v.no_pivot {
        Some(t) => str_eq(t.as_str(), "true"),
        None => {
            return Err(InitFault::Missing(InitVariable::NoPivot));
        },
    };
    let read: i32 = match read_descriptor(InitVariable::Read, &v.read) {
        Ok(n) => n,
        Err(e) => {
            return Err(e);
        },
    };
    let log: i32 = match read_descriptor(InitVariable::Log, &v.log) {
        Ok(n) => n,
        Err(e) => {
            return Err(e);
        },
    };
    let pidns: Option<i32> = match &v.pidns {
        Some(t) => match number_of(t) {
            Some(n) => Some(n),
            None => {
                return Err(InitFault::NoPidNamespace);
            },
        },
        None => None,
    };
    Ok(InitSetup { init, no_pivot, read, log, pidns })
}

/// Whether a variable holds a number in decimal.
pub open spec fn holds_number(text: Option<String>, n: i32) -> bool {
    text matches Some(t) && t@ == signed_decimal(n as int)
}

/// Whether a variable holds an answer.
pub open spec fn holds_flag(text: Option<String>, on: bool) -> bool {
    text matches Some(t) && t@ == if on {
        "true"@
    } else {
        "false"@
    }
}

/// Whether variables hand over what a new process needs. Only the init process gets the
/// exec FIFO.
pub open spec fn hands_over(v: InitVariables, setup: InitSetup, write: i32, fifo: i32) -> bool {
    &&& holds_flag(v.init, setup.init)
    &&& holds_flag(v.no_pivot, setup.no_pivot)
    &&& holds_number(v.read, setup.read)
    &&& holds_number(v.write, write)
    &&& holds_number(v.log, setup.log)
    &&& if setup.init {
        holds_number(v.fifo, fifo)
    } else {
        v.fifo is None
    }
    &&& match setup.pidns {
        Some(n) => holds_number(v.pidns, n),
        None => v.pidns is None,
    }
}

fn flag_text(on: bool) -> (r: String)
    ensures
        holds_flag(Some(r), on),
{
    if on {
        "true".to_owned()
    } else {
        "false".to_owned()
    }
}

fn number_text(n: i32) -> (r: String)
    ensures
        holds_number(Some(r), n),
{
    let mut s = String::new();
    push_i64(&mut s, n as i64);
    proof {
        assert(s@ =~= signed_decimal(n as int));
    }
    s
}

/// The variables for a new process.
pub fn init_variables(setup: &InitSetup, write: i32, fifo: i32) -> (r: InitVariables)
    ensures
        hands_over(r, *setup, write, fifo),
{
    InitVariables {
        init: Some(flag_text(setup.init)),
        no_pivot: Some(flag_text(setup.no_pivot)),
        read: Some(number_text(setup.read)),
        write: Some(number_text(write)),
        log: Some(number_text(setup.log)),
        fifo: if setup.init {
            Some(number_text(fifo))
        } else {
            None
        },
        pidns: match setup.pidns {
            Some(n) => Some(number_text(n)),
            None => None,
        },
    }
}

/// A new process reads from its variables what was handed over to it.
pub proof fn law_a_child_reads_what_it_is_handed(
    v: InitVariables,
    setup: InitSetup,
    write: i32,
    fifo: i32,
)
    requires
        hands_over(v, setup, write, fifo),
    ensures
        setup_of(v) == Ok::<InitSetup, InitFault>(setup),
        descriptor_of(InitVariable::Write, v.write) == Ok::<i32, InitFault>(write),
        setup.init ==> descriptor_of(InitVariable::Fifo, v.fifo) == Ok::<i32, InitFault>(fifo),
{
    reveal_strlit("true");
    reveal_strlit("false");
    assert("true"@.len() != "false"@.len());
    let min = i32::MIN as int;
    let max = i32::MAX as int;
    law_signed_decimals_are_read_back(setup.read as int, min, max);
    law_signed_decimals_are_read_back(setup.log as int, min, max);
    law_signed_decimals_are_read_back(write as int, min, max);
    law_signed_decimals_are_read_back(fifo as int, min, max);
    if let Some(n) = setup.pidns {
        law_signed_decimals_are_read_back(n as int, min, max);
    }
}

/// How many namespaces in front have a type that containers can have.
pub open spec fn known_prefix(nses: Seq<LinuxNamespace>) -> nat
    decreases nses.len(),
{
    if nses.len() == 0 {
        0
    } else if known_prefix(nses.drop_last()) < nses.len() - 1 {
        known_prefix(nses.drop_last())
    } else if nses.last().typ == NamespaceType::Time {
        (nses.len() - 1) as nat
    } else {
        nses.len()
    }
}

/// The openings of the namespaces that are joined, in the order of the list.
pub open spec fn open_steps(nses: Seq<LinuxNamespace>) -> Seq<InitStep>
    decreases nses.len(),
{
    if nses.len() == 0 {
        Seq::empty()
    } else {
        open_steps(nses.drop_last()) + when(
            nses.last().joins(),
            InitStep::OpenNamespace((nses.len() - 1) as usize),
        )
    }
}

/// What joining one namespace takes. The pid namespace was joined by the parent,
/// and the mount namespace comes later.
pub open spec fn join_one(i: int, ns: LinuxNamespace) -> Seq<InitStep> {
    if !ns.joins() || ns.typ == NamespaceType::Pid || ns.typ == NamespaceType::Mount {
        Seq::empty()
    } else {
        seq![InitStep::JoinNamespace(i as usize, ns.typ), InitStep::CloseNamespace(i as usize)]
            + when(ns.typ == NamespaceType::User, InitStep::BecomeRoot)
    }
}

/// The joins, in the order of the list.
pub open spec fn join_steps(nses: Seq<LinuxNamespace>) -> Seq<InitStep>
    decreases nses.len(),
{
    if nses.len() == 0 {
        Seq::empty()
    } else {
        join_steps(nses.drop_last()) + join_one(nses.len() - 1, nses.last())
    }
}

/// Whether a namespace of the type is created.
pub open spec fn creates(nses: Seq<LinuxNamespace>, typ: NamespaceType) -> bool {
    exists|i: int| 0 <= i < nses.len() && (#[trigger] nses[i]).typ == typ && !nses[i].joins()
}

/// The types that the child itself creates. The pid namespace was created by the
/// parent.
pub open spec fn created(nses: Seq<LinuxNamespace>) -> NamespaceSet {
    NamespaceSet {
        mount: creates(nses, NamespaceType::Mount),
        cgroup: creates(nses, NamespaceType::Cgroup),
        uts: creates(nses, NamespaceType::Uts),
        ipc: creates(nses, NamespaceType::Ipc),
        user: creates(nses, NamespaceType::User),
        network: creates(nses, NamespaceType::Network),
    }
}

/// Whether the container lives in a user namespace, new or joined. Device nodes
/// cannot be made there and are bind mounted.
pub open spec fn binds_devices(nses: Seq<LinuxNamespace>) -> bool {
    exists|i: int| 0 <= i < nses.len() && (#[trigger] nses[i]).typ == NamespaceType::User
}

/// The last mount namespace that is joined.
pub open spec fn mount_join(nses: Seq<LinuxNamespace>) -> Option<usize>
    decreases nses.len(),
{
    if nses.len() == 0 {
        None
    } else if nses.last().typ == NamespaceType::Mount && nses.last().joins() {
        Some((nses.len() - 1) as usize)
    } else {
        mount_join(nses.drop_last())
    }
}

/// One step for each of `n` resource limits.
pub open spec fn rlimit_steps(n: nat) -> Seq<InitStep> {
    Seq::new(n, |i: int| InitStep::SetRlimit(i as usize))
}

/// The number of resource limits of a process.
pub open spec fn rlimit_count(p: Process) -> nat {
    match p.rlimits {
        Some(v) => v@.len(),
        None => 0,
    }
}

/// Limits of the container process. Where no namespace is joined or created, the
/// process stays dumpable.
pub open spec fn limit_phase(p: Process, namespaces: nat) -> Seq<InitStep> {
    when(p.oom_score_adj is Some, InitStep::WriteOomScore) + rlimit_steps(rlimit_count(p)) + when(
        namespaces > 0,
        InitStep::SetNonDumpable,
    )
}

/// The user namespace, with the parent's id mapping in between.
pub open spec fn user_phase(user: bool) -> Seq<InitStep> {
    when(user, InitStep::UnshareUser) + seq![InitStep::NotifyParent, InitStep::WaitParent] + when(
        user,
        InitStep::BecomeRoot,
    )
}

/// The other namespaces.
pub open spec fn namespace_phase(nses: Seq<LinuxNamespace>) -> Seq<InitStep> {
    join_steps(nses) + seq![
        InitStep::QuerySelinux,
        InitStep::Unshare(created(nses).minus_user()),
        InitStep::UnshareCgroup,
    ]
}

/// The change of root, which a new mount namespace brings.
pub open spec fn change_root(no_pivot: bool) -> Seq<InitStep> {
    seq![
        if no_pivot {
            InitStep::MoveRoot
        } else {
            InitStep::PivotRoot
        },
        InitStep::SetSysctls,
        InitStep::ChdirRoot,
        InitStep::FinishRootfs,
    ]
}

/// Host name and root filesystem.
pub open spec fn rootfs_phase(nses: Seq<LinuxNamespace>, no_pivot: bool) -> Seq<InitStep> {
    let set = created(nses);
    when(set.uts, InitStep::SetHostname) + seq![InitStep::ResolveRootfs] + when(
        set.mount,
        InitStep::InitRootfs(binds_devices(nses)),
    ) + (match mount_join(nses) {
        Some(i) => seq![InitStep::JoinMountNamespace(i)],
        None => Seq::empty(),
    }) + (if set.mount {
        change_root(no_pivot)
    } else {
        Seq::empty()
    })
}

/// Working directory, session and user.
pub open spec fn identity_phase(process: Process) -> Seq<InitStep> {
    when(process.cwd@.len() > 0, InitStep::Chdir) + seq![InitStep::VerifyCwd, InitStep::NewSession]
        + when(process.user.uid != 0, InitStep::FixStdioOwner) + seq![InitStep::SetUser] + when(
        process.user.additional_gids is Some,
        InitStep::SetGroups,
    )
}

/// Privileges. Without the no-new-privileges flag the filter goes in while the
/// thread still has its capabilities; the bounding set is restricted before.
pub open spec fn privilege_phase(process: Process, seccomp: bool) -> Seq<InitStep> {
    when(process.locked(), InitStep::SetNoNewPrivileges) + when(
        process.labelled(),
        InitStep::SetSelinuxLabel,
    ) + when(process.capabilities is Some, InitStep::RestrictBounding) + when(
        !process.locked() && seccomp,
        InitStep::InstallSeccomp,
    ) + when(process.capabilities is Some, InitStep::DropCapabilities)
}

/// Environment and program. With the no-new-privileges flag the filter goes in last.
pub open spec fn launch_phase(process: Process, seccomp: bool, init: bool) -> Seq<InitStep> {
    when(init, InitStep::TakeFifo) + seq![
        InitStep::ResetEnvironment,
        InitStep::SetEnvironment,
        InitStep::FindProgram,
        InitStep::NotifyParent,
        InitStep::ClosePipes,
    ] + when(process.terminal == Some(true), InitStep::ControlTerminal) + when(
        init,
        InitStep::WaitExecFifo,
    ) + when(process.locked() && seccomp, InitStep::InstallSeccomp) + seq![InitStep::Exec]
}

/// The steps of a configuration whose namespaces all have known types.
pub open spec fn accepted_steps(
    p: Process,
    nses: Seq<LinuxNamespace>,
    seccomp: bool,
    process: Process,
    init: bool,
    no_pivot: bool,
) -> Seq<InitStep> {
    open_steps(nses) + limit_phase(p, nses.len()) + user_phase(created(nses).user)
        + namespace_phase(nses) + rootfs_phase(nses, no_pivot) + identity_phase(process)
        + privilege_phase(process, seccomp) + launch_phase(process, seccomp, init)
}

/// The steps once configuration and process are known.
pub open spec fn init_steps(spec: Spec, process: Process, init: bool, no_pivot: bool) -> Seq<
    InitStep,
> {
    if spec.process is None {
        seq![InitStep::Reject(InitReject::MissingProcess)]
    } else if spec.linux is None {
        seq![InitStep::Reject(InitReject::MissingLinux)]
    } else {
        let linux = spec.linux->0;
        let nses = linux.namespace_list();
        let known = known_prefix(nses);
        if known < nses.len() {
            open_steps(nses.take(known as int)).push(InitStep::Reject(InitReject::InvalidNamespace))
        } else {
            accepted_steps(spec.process->0, nses, linux.seccomp, process, init, no_pivot)
        }
    }
}

fn push_rlimits(steps: &mut Vec<InitStep>, n: usize)
    ensures
        final(steps)@ == old(steps)@ + rlimit_steps(n as nat),
{
    let ghost before = steps@;
    let mut i: usize = 0;
    while i < n
        invariant
            i <= n,
            steps@ == before + rlimit_steps(i as nat),
        decreases n - i,
    {
        steps.push(InitStep::SetRlimit(i));
        i += 1;
        proof {
            assert(steps@ =~= before + rlimit_steps(i as nat));
        }
    }
    proof {
        assert(steps@ =~= before + rlimit_steps(n as nat));
    }
}

fn push_limit_phase(steps: &mut Vec<InitStep>, p: &Process, namespaces: usize)
    ensures
        final(steps)@ == old(steps)@ + limit_phase(*p, namespaces as nat),
{
    push_when(steps, p.oom_score_adj.is_some(), InitStep::WriteOomScore);
    let n: usize = match &p.rlimits {
        Some(v) => v.len(),
        None => 0,
    };
    push_rlimits(steps, n);
    push_when(steps, namespaces > 0, InitStep::SetNonDumpable);
    proof {
        assert(steps@ =~= old(steps)@ + limit_phase(*p, namespaces as nat));
    }
}

fn push_user_phase(steps: &mut Vec<InitStep>, user: bool)
    ensures
        final(steps)@ == old(steps)@ + user_phase(user),
{
    push_when(steps, user, InitStep::UnshareUser);
    steps.push(InitStep::NotifyParent);
    steps.push(InitStep::WaitParent);
    push_when(steps, user, InitStep::BecomeRoot);
    proof {
        assert(steps@ =~= old(steps)@ + user_phase(user));
    }
}

fn push_joins(steps: &mut Vec<InitStep>, nses: &Vec<LinuxNamespace>)
    ensures
        final(steps)@ == old(steps)@ + join_steps(nses@),
{
    let ghost before = steps@;
    let mut i: usize = 0;
    proof {
        assert(nses@.take(0) =~= Seq::<LinuxNamespace>::empty());
        assert(steps@ =~= before + join_steps(nses@.take(0)));
    }
    while i < nses.len()
        invariant
            i <= nses.len(),
            steps@ == before + join_steps(nses@.take(i as int)),
        decreases nses.len() - i,
    {
        let ns = &nses[i];
        let ghost now = steps@;
        if ns.has_path() && ns.typ != NamespaceType::Pid && ns.typ != NamespaceType::Mount {
            steps.push(InitStep::JoinNamespace(i, ns.typ));
            steps.push(InitStep::CloseNamespace(i));
            push_when(steps, ns.typ == NamespaceType::User, InitStep::BecomeRoot);
        }
        proof {
            assert(nses@.take(i + 1).drop_last() =~= nses@.take(i as int));
            assert(nses@.take(i + 1).last() == *ns);
            assert(steps@ =~= now + join_one(i as int, *ns));
            assert(steps@ =~= before + join_steps(nses@.take(i + 1)));
        }
        i += 1;
    }
    proof {
        assert(nses@.take(nses@.len() as int) =~= nses@);
    }
}

fn created_set(nses: &Vec<LinuxNamespace>) -> (r: NamespaceSet)
    ensures
        r == created(nses@),
{
    let mut set = NamespaceSet::none();
    let mut i: usize = 0;
    while i < nses.len()
        invariant
            i <= nses.len(),
            forall|t: NamespaceType|
                #![trigger set.contains(t)]
                set.contains(t) <==> (t != NamespaceType::Pid && t != NamespaceType::Time
                    && creates(nses@.take(i as int), t)),
        decreases nses.len() - i,
    {
        let ns = &nses[i];
        let ghost was = set;
        if !ns.has_path() {
            set = set.with(ns.typ);
        }
        proof {
            let a = nses@.take(i as int);
            let b = nses@.take(i + 1);
            assert forall|t: NamespaceType| #![trigger set.contains(t)] set.contains(t) <==> (t
                != NamespaceType::Pid && t != NamespaceType::Time && creates(b, t)) by {
                assert(was.contains(t) <==> (t != NamespaceType::Pid && t != NamespaceType::Time
                    && creates(a, t)));
                if creates(a, t) {
                    let k = choose|k: int|
                        0 <= k < a.len() && (#[trigger] a[k]).typ == t && !a[k].joins();
                    assert(b[k].typ == t && !b[k].joins());
                }
                if creates(b, t) {
                    let k = choose|k: int|
                        0 <= k < b.len() && (#[trigger] b[k]).typ == t && !b[k].joins();
                    if k < i {
                        assert(a[k].typ == t && !a[k].joins());
                    }
                }
                if ns.typ == t && !ns.joins() {
                    assert(b[i as int].typ == t && !b[i as int].joins());
                }
            }
        }
        i += 1;
    }
    proof {
        assert(nses@.take(nses@.len() as int) =~= nses@);
        assert(set.contains(NamespaceType::Mount) == creates(nses@, NamespaceType::Mount));
        assert(set.contains(NamespaceType::Cgroup) == creates(nses@, NamespaceType::Cgroup));
        assert(set.contains(NamespaceType::Uts) == creates(nses@, NamespaceType::Uts));
        assert(set.contains(NamespaceType::Ipc) == creates(nses@, NamespaceType::Ipc));
        assert(set.contains(NamespaceType::User) == creates(nses@, NamespaceType::User));
        assert(set.contains(NamespaceType::Network) == creates(nses@, NamespaceType::Network));
    }
    set
}

fn has_user_namespace(nses: &Vec<LinuxNamespace>) -> (r: bool)
    ensures
        r == binds_devices(nses@),
{
    let mut i: usize = 0;
    while i < nses.len()
        invariant
            i <= nses.len(),
            forall|k: int| 0 <= k < i ==> (#[trigger] nses@[k]).typ != NamespaceType::User,
        decreases nses.len() - i,
    {
        if nses[i].typ == NamespaceType::User {
            return true;
        }
        i += 1;
    }
    false
}

fn find_mount_join(nses: &Vec<LinuxNamespace>) -> (r: Option<usize>)
    ensures
        r == mount_join(nses@),
{
    let mut i: usize = nses.len();
    proof {
        assert(nses@.take(i as int) =~= nses@);
    }
    while i > 0
        invariant
            i <= nses.len(),
            mount_join(nses@) == mount_join(nses@.take(i as int)),
        decreases i,
    {
        let ns = &nses[i - 1];
        proof {
            assert(nses@.take(i as int).last() == *ns);
            assert(nses@.take(i as int).drop_last() =~= nses@.take(i - 1));
        }
        if ns.typ == NamespaceType::Mount && ns.has_path() {
            return Some(i - 1);
        }
        i -= 1;
    }
    None
}

fn push_rootfs_phase(
    steps: &mut Vec<InitStep>,
    nses: &Vec<LinuxNamespace>,
    set: NamespaceSet,
    no_pivot: bool,
)
    requires
        set == created(nses@),
    ensures
        final(steps)@ == old(steps)@ + rootfs_phase(nses@, no_pivot),
{
    let bind = has_user_namespace(nses);
    push_when(steps, set.uts, InitStep::SetHostname);
    steps.push(InitStep::ResolveRootfs);
    push_when(steps, set.mount, InitStep::InitRootfs(bind));
    let ghost head = steps@;
    match find_mount_join(nses) {
        Some(i) => {
            steps.push(InitStep::JoinMountNamespace(i));
        },
        None => {},
    }
    let ghost joined = steps@;
    if set.mount {
        if no_pivot {
            steps.push(InitStep::MoveRoot);
        } else {
            steps.push(InitStep::PivotRoot);
        }
        steps.push(InitStep::SetSysctls);
        steps.push(InitStep::ChdirRoot);
        steps.push(InitStep::FinishRootfs);
        proof {
            assert(steps@ =~= joined + change_root(no_pivot));
        }
    }
    proof {
        assert(steps@ =~= old(steps)@ + rootfs_phase(nses@, no_pivot));
    }
}

fn push_identity_phase(steps: &mut Vec<InitStep>, process: &Process)
    ensures
        final(steps)@ == old(steps)@ + identity_phase(*process),
{
    push_when(steps, !process.cwd.as_str().is_empty(), InitStep::Chdir);
    steps.push(InitStep::VerifyCwd);
    steps.push(InitStep::NewSession);
    push_when(steps, process.user.uid != 0, InitStep::FixStdioOwner);
    steps.push(InitStep::SetUser);
    push_when(steps, process.user.additional_gids.is_some(), InitStep::SetGroups);
    proof {
        assert(steps@ =~= old(steps)@ + identity_phase(*process));
    }
}

fn push_privilege_phase(steps: &mut Vec<InitStep>, process: &Process, seccomp: bool)
    ensures
        final(steps)@ == old(steps)@ + privilege_phase(*process, seccomp),
{
    let locked = match process.no_new_privileges {
        Some(b) => b,
        None => false,
    };
    let labelled = match &process.selinux_label {
        Some(l) => !l.as_str().is_empty(),
        None => false,
    };
    push_when(steps, locked, InitStep::SetNoNewPrivileges);
    push_when(steps, labelled, InitStep::SetSelinuxLabel);
    push_when(steps, process.capabilities.is_some(), InitStep::RestrictBounding);
    push_when(steps, !locked && seccomp, InitStep::InstallSeccomp);
    push_when(steps, process.capabilities.is_some(), InitStep::DropCapabilities);
    proof {
        assert(steps@ =~= old(steps)@ + privilege_phase(*process, seccomp));
    }
}

fn push_launch_phase(steps: &mut Vec<InitStep>, process: &Process, seccomp: bool, init: bool)
    ensures
        final(steps)@ == old(steps)@ + launch_phase(*process, seccomp, init),
{
    let locked = match process.no_new_privileges {
        Some(b) => b,
        None => false,
    };
    let terminal = match process.terminal {
        Some(b) => b,
        None => false,
    };
    push_when(steps, init, InitStep::TakeFifo);
    steps.push(InitStep::ResetEnvironment);
    steps.push(InitStep::SetEnvironment);
    steps.push(InitStep::FindProgram);
    steps.push(InitStep::NotifyParent);
    steps.push(InitStep::ClosePipes);
    push_when(steps, terminal, InitStep::ControlTerminal);
    push_when(steps, init, InitStep::WaitExecFifo);
    push_when(steps, locked && seccomp, InitStep::InstallSeccomp);
    steps.push(InitStep::Exec);
    proof {
        assert(steps@ =~= old(steps)@ + launch_phase(*process, seccomp, init));
    }
}

/// A plan that ran into an unknown type keeps its length.
proof fn lemma_known_prefix(nses: Seq<LinuxNamespace>, i: int)
    requires
        0 <= i <= nses.len(),
        known_prefix(nses.take(i)) < i,
    ensures
        known_prefix(nses) == known_prefix(nses.take(i)),
    decreases nses.len() - i,
{
    if i < nses.len() {
        assert(nses.take(i + 1).drop_last() =~= nses.take(i));
        lemma_known_prefix(nses, i + 1);
    } else {
        assert(nses.take(i) =~= nses);
    }
}

/// Plans what the child does once configuration and process are known: the
/// checks, the namespaces, the root filesystem, the identity, and the program.
pub fn init_plan(spec: &Spec, process: &Process, init: bool, no_pivot: bool) -> (r: Vec<InitStep>)
    ensures
        r@ == init_steps(*spec, *process, init, no_pivot),
{
    let mut steps: Vec<InitStep> = Vec::new();
    let p = match &spec.process {
        Some(p) => p,
        None => {
            steps.push(InitStep::Reject(InitReject::MissingProcess));
            return steps;
        },
    };
    let linux = match &spec.linux {
        Some(l) => l,
        None => {
            steps.push(InitStep::Reject(InitReject::MissingLinux));
            return steps;
        },
    };
    let empty: Vec<LinuxNamespace> = Vec::new();
    let nses: &Vec<LinuxNamespace> = match &linux.namespaces {
        Some(v) => v,
        None => &empty,
    };
    proof {
        assert(nses@ =~= linux.namespace_list());
        assert(nses@.take(0) =~= Seq::<LinuxNamespace>::empty());
    }
    let mut i: usize = 0;
    while i < nses.len()
        invariant
            i <= nses.len(),
            nses@ == linux.namespace_list(),
            spec.process is Some,
            spec.linux == Some(*linux),
            known_prefix(nses@.take(i as int)) == i,
            steps@ == open_steps(nses@.take(i as int)),
        decreases nses.len() - i,
    {
        let ns = &nses[i];
        proof {
            assert(nses@.take(i + 1).drop_last() =~= nses@.take(i as int));
            assert(nses@.take(i + 1).last() == *ns);
        }
        if ns.typ == NamespaceType::Time {
            proof {
                lemma_known_prefix(nses@, i + 1);
            }
            steps.push(InitStep::Reject(InitReject::InvalidNamespace));
            return steps;
        }
        push_when(&mut steps, ns.has_path(), InitStep::OpenNamespace(i));
        i += 1;
    }
    proof {
        assert(nses@.take(nses@.len() as int) =~= nses@);
    }
    let set = created_set(nses);
    push_limit_phase(&mut steps, p, nses.len());
    push_user_phase(&mut steps, set.user);
    push_joins(&mut steps, nses);
    steps.push(InitStep::QuerySelinux);
    let others = NamespaceSet { user: false, ..set };
    steps.push(InitStep::Unshare(others));
    steps.push(InitStep::UnshareCgroup);
    proof {
        assert(steps@ =~= open_steps(nses@) + limit_phase(*p, nses@.len()) + user_phase(set.user)
            + namespace_phase(nses@));
    }
    push_rootfs_phase(&mut steps, nses, set, no_pivot);
    push_identity_phase(&mut steps, process);
    push_privilege_phase(&mut steps, process, linux.seccomp);
    push_launch_phase(&mut steps, process, linux.seccomp, init);
    steps
}

/// How a step went.
#[derive(Clone, Copy, Debug, PartialEq, Eq, Structural)]
pub enum Outcome {
    /// It was done.
    Done,
    /// It failed with an error number.
    Failed(i32),
    /// The answer to the question whether SELinux is on.
    Selinux(bool),
    /// The process is the helper of a fork, whose child has the given pid.
    Helper(i32),
}

/// What follows from an outcome.
#[derive(Clone, Copy, Debug, PartialEq, Eq, Structural)]
pub enum Verdict {
    /// Go on with the next step.
    Next,
    /// Send the pid to the parent and leave successfully.
    ReportPid(i32),
    /// Leave with the error of the step, after a failure message to the parent
    /// where the flag is set.
    Abort(bool),
}

/// What follows from the outcome of a step. Joining a user namespace that the
/// process lives in already is refused by the kernel with `EINVAL` and goes on.
/// The closing of the pipes and the terminal are attempts. A failing join and a
/// failing group change are reported at once.
pub open spec fn judged(step: InitStep, outcome: Outcome) -> Verdict {
    match outcome {
        Outcome::Failed(e) => match step {
            InitStep::JoinNamespace(_, typ) => if typ == NamespaceType::User && e == EINVAL {
                Verdict::Next
            } else {
                Verdict::Abort(true)
            },
            InitStep::SetGroups => Verdict::Abort(true),
            InitStep::ClosePipes => Verdict::Next,
            InitStep::ControlTerminal => Verdict::Next,
            _ => Verdict::Abort(false),
        },
        Outcome::Helper(pid) => if step == InitStep::Fork {
            Verdict::ReportPid(pid)
        } else {
            Verdict::Next
        },
        _ => Verdict::Next,
    }
}

/// What the caller does next.
#[derive(Clone, Copy, Debug, PartialEq, Eq, Structural)]
pub enum Directive {
    /// Perform a step and report its outcome.
    Perform(InitStep),
    /// Leave with an error.
    Stop(InitReject),
    /// All steps were performed.
    Finished,
}

/// A plan in progress.
#[derive(Debug)]
pub struct InitRun {
    pub steps: Vec<InitStep>,
    pub at: usize,
    pub selinux: bool,
}

impl InitRun {
    /// Whether the position lies in the plan or right behind it.
    pub open spec fn wf(self) -> bool {
        self.at <= self.steps@.len()
    }

    /// A plan before its first step.
    pub fn new(steps: Vec<InitStep>) -> (r: InitRun)
        ensures
            r.wf(),
            r.steps == steps,
            r.at == 0,
            !r.selinux,
    {
        InitRun { steps, at: 0, selinux: false }
    }

    /// What a run does next: a label is refused where SELinux is off.
    pub open spec fn directive(self) -> Directive {
        if self.at == self.steps@.len() {
            Directive::Finished
        } else {
            match self.steps@[self.at as int] {
                InitStep::Reject(r) => Directive::Stop(r),
                InitStep::SetSelinuxLabel => if self.selinux {
                    Directive::Perform(InitStep::SetSelinuxLabel)
                } else {
                    Directive::Stop(InitReject::SelinuxDisabled)
                },
                step => Directive::Perform(step),
            }
        }
    }

    /// Tells what to do next.
    pub fn current(&self) -> (r: Directive)
        requires
            self.wf(),
        ensures
            r == self.directive(),
    {
        if self.at == self.steps.len() {
            Directive::Finished
        } else {
            match self.steps[self.at] {
                InitStep::Reject(r) => Directive::Stop(r),
                InitStep::SetSelinuxLabel => {
                    if self.selinux {
                        Directive::Perform(InitStep::SetSelinuxLabel)
                    } else {
                        Directive::Stop(InitReject::SelinuxDisabled)
                    }
                },
                step => Directive::Perform(step),
            }
        }
    }

    /// Takes the outcome of the step that was performed, and moves on where the
    /// verdict says so. The answer of the SELinux question is kept.
    pub fn report(&mut self, outcome: Outcome) -> (r: Verdict)
        requires
            old(self).wf(),
            old(self).directive() is Perform,
        ensures
            final(self).wf(),
            r == judged(old(self).directive()->Perform_0, outcome),
            final(self).steps@ == old(self).steps@,
            final(self).at == if r == Verdict::Next {
                old(self).at + 1
            } else {
                old(self).at as int
            },
            final(self).selinux == match outcome {
                Outcome::Selinux(b) => b,
                _ => old(self).selinux,
            },
    {
        let step = self.steps[self.at];
        assert(self.at < self.steps.len());
        if let Outcome::Selinux(b) = outcome {
            self.selinux = b;
        }
        let verdict = match outcome {
            Outcome::Failed(e) => match step {
                InitStep::JoinNamespace(_, typ) => {
                    if typ == NamespaceType::User && e == EINVAL {
                        Verdict::Next
                    } else {
                        Verdict::Abort(true)
                    }
                },
                InitStep::SetGroups => Verdict::Abort(true),
                InitStep::ClosePipes => Verdict::Next,
                InitStep::ControlTerminal => Verdict::Next,
                _ => Verdict::Abort(false),
            },
            Outcome::Helper(pid) => {
                if step == InitStep::Fork {
                    Verdict::ReportPid(pid)
                } else {
                    Verdict::Next
                }
            },
            _ => Verdict::Next,
        };
        if verdict == Verdict::Next {
            self.at = self.at + 1;
        }
        verdict
    }
}

/// The variables that a list of entries sets, later ones over earlier ones.
/// Entries that are no assignment count for nothing.
pub open spec fn assigned(entries: Seq<Option<(String, String)>>) -> Map<Seq<char>, Seq<char>>
    decreases entries.len(),
{
    if entries.len() == 0 {
        Map::empty()
    } else {
        match entries.last() {
            Some(kv) => assigned(entries.drop_last()).insert(kv.0@, kv.1@),
            None => assigned(entries.drop_last()),
        }
    }
}

/// The environment of a process: what its entries set, and a home directory, which
/// is that of the user database or `/` where no entry sets it.
pub open spec fn environment(
    entries: Seq<Option<(String, String)>>,
    home: Option<Seq<char>>,
) -> Map<Seq<char>, Seq<char>> {
    let env = assigned(entries);
    if env.contains_key("HOME"@) {
        env
    } else {
        env.insert(
            "HOME"@,
            match home {
                Some(h) => h,
                None => "/"@,
            },
        )
    }
}

/// The texts of a map of strings.
pub open spec fn texts(m: Map<Seq<char>, String>) -> Map<Seq<char>, Seq<char>> {
    m.map_values(|s: String| s@)
}

/// Computes the environment of a process from its parsed entries and the home
/// directory that the user database gives.
pub fn child_environment(entries: &Vec<Option<(String, String)>>, home: &Option<String>) -> (r:
    StrMap<String>)
    ensures
        texts(r@) == environment(
            entries@,
            match home {
                Some(h) => Some(h@),
                None => None,
            },
        ),
{
    let mut env: StrMap<String> = StrMap::new();
    let mut i: usize = 0;
    proof {
        assert(entries@.take(0) =~= Seq::<Option<(String, String)>>::empty());
        assert(texts(env@) =~= assigned(entries@.take(0)));
    }
    while i < entries.len()
        invariant
            i <= entries.len(),
            texts(env@) == assigned(entries@.take(i as int)),
        decreases entries.len() - i,
    {
        let ghost was = env@;
        proof {
            assert(entries@.take(i + 1).drop_last() =~= entries@.take(i as int));
            assert(entries@.take(i + 1).last() == entries@[i as int]);
        }
        match &entries[i] {
            Some(kv) => {
                let value = kv.1.clone();
                env.insert(kv.0.clone(), value);
                proof {
                    assert(texts(env@) =~= texts(was).insert(kv.0@, kv.1@));
                }
            },
            None => {},
        }
        i += 1;
    }
    proof {
        assert(entries@.take(entries@.len() as int) =~= entries@);
    }
    if !env.contains_key("HOME") {
        let value = match home {
            Some(h) => h.clone(),
            None => "/".to_owned(),
        };
        let ghost was = env@;
        env.insert("HOME".to_owned(), value);
        proof {
            assert(texts(env@) =~= texts(was).insert("HOME"@, value@));
        }
    }
    env
}

/// Whether a configuration passes every check that needs no outside work.
pub open spec fn accepted(spec: Spec) -> bool {
    spec.process is Some && spec.linux is Some && known_prefix(spec.linux->0.namespace_list())
        == spec.linux->0.namespace_list().len()
}

spec fn lacks(steps: Seq<InitStep>, step: InitStep) -> bool {
    forall|i: int| 0 <= i < steps.len() ==> steps[i] != step
}

proof fn lemma_lacks_add(a: Seq<InitStep>, b: Seq<InitStep>, step: InitStep)
    requires
        lacks(a, step),
        lacks(b, step),
    ensures
        lacks(a + b, step),
{
}

proof fn lemma_opens_lack(nses: Seq<LinuxNamespace>, step: InitStep)
    requires
        step !is OpenNamespace,
    ensures
        lacks(open_steps(nses), step),
    decreases nses.len(),
{
    if nses.len() > 0 {
        lemma_opens_lack(nses.drop_last(), step);
    }
}

proof fn lemma_joins_lack(nses: Seq<LinuxNamespace>, step: InitStep)
    requires
        step !is JoinNamespace,
        step !is CloseNamespace,
        step !is BecomeRoot,
    ensures
        lacks(join_steps(nses), step),
    decreases nses.len(),
{
    if nses.len() > 0 {
        lemma_joins_lack(nses.drop_last(), step);
        assert(lacks(join_one(nses.len() - 1, nses.last()), step));
    }
}

proof fn lemma_setup_lacks(p: Process, nses: Seq<LinuxNamespace>, step: InitStep)
    requires
        step == InitStep::Exec || step == InitStep::InstallSeccomp,
    ensures
        lacks(limit_phase(p, nses.len()), step),
        lacks(user_phase(created(nses).user), step),
{
}

proof fn lemma_namespaces_lack(nses: Seq<LinuxNamespace>, step: InitStep)
    requires
        step == InitStep::Exec || step == InitStep::InstallSeccomp,
    ensures
        lacks(namespace_phase(nses), step),
{
    lemma_joins_lack(nses, step);
    lemma_lacks_add(
        join_steps(nses),
        seq![
            InitStep::QuerySelinux,
            InitStep::Unshare(created(nses).minus_user()),
            InitStep::UnshareCgroup,
        ],
        step,
    );
}

proof fn lemma_rootfs_lacks(nses: Seq<LinuxNamespace>, no_pivot: bool, step: InitStep)
    requires
        step == InitStep::Exec || step == InitStep::InstallSeccomp,
    ensures
        lacks(rootfs_phase(nses, no_pivot), step),
{
    assert(lacks(change_root(no_pivot), step));
}

proof fn lemma_identity_lacks(process: Process, step: InitStep)
    requires
        step == InitStep::Exec || step == InitStep::InstallSeccomp,
    ensures
        lacks(identity_phase(process), step),
{
}

proof fn lemma_six_lack(
    a: Seq<InitStep>,
    b: Seq<InitStep>,
    c: Seq<InitStep>,
    d: Seq<InitStep>,
    e: Seq<InitStep>,
    f: Seq<InitStep>,
    step: InitStep,
)
    requires
        lacks(a, step),
        lacks(b, step),
        lacks(c, step),
        lacks(d, step),
        lacks(e, step),
        lacks(f, step),
    ensures
        lacks(a + b + c + d + e + f, step),
{
    lemma_lacks_add(a, b, step);
    lemma_lacks_add(a + b, c, step);
    lemma_lacks_add(a + b + c, d, step);
    lemma_lacks_add(a + b + c + d, e, step);
    lemma_lacks_add(a + b + c + d + e, f, step);
}

/// Everything before the privileges lacks the last steps of a plan.
proof fn lemma_head_lacks(
    p: Process,
    nses: Seq<LinuxNamespace>,
    process: Process,
    no_pivot: bool,
    step: InitStep,
)
    requires
        step == InitStep::Exec || step == InitStep::InstallSeccomp,
    ensures
        lacks(head_steps(p, nses, process, no_pivot), step),
{
    lemma_opens_lack(nses, step);
    lemma_setup_lacks(p, nses, step);
    lemma_namespaces_lack(nses, step);
    lemma_rootfs_lacks(nses, no_pivot, step);
    lemma_identity_lacks(process, step);
    lemma_six_lack(
        open_steps(nses),
        limit_phase(p, nses.len()),
        user_phase(created(nses).user),
        namespace_phase(nses),
        rootfs_phase(nses, no_pivot),
        identity_phase(process),
        step,
    );
}

spec fn head_steps(
    p: Process,
    nses: Seq<LinuxNamespace>,
    process: Process,
    no_pivot: bool,
) -> Seq<InitStep> {
    open_steps(nses) + limit_phase(p, nses.len()) + user_phase(created(nses).user)
        + namespace_phase(nses) + rootfs_phase(nses, no_pivot) + identity_phase(process)
}

/// The last phases run the program in their last step and nowhere else.
proof fn lemma_launch_ends_in_exec(process: Process, seccomp: bool, init: bool)
    ensures
        lacks(privilege_phase(process, seccomp), InitStep::Exec),
        launch_phase(process, seccomp, init).len() > 0,
        launch_phase(process, seccomp, init).last() == InitStep::Exec,
        lacks(launch_phase(process, seccomp, init).drop_last(), InitStep::Exec),
{
}

/// Steps that lack the program in front of a launch run it in their last step only.
proof fn lemma_exec_comes_last(front: Seq<InitStep>, launch: Seq<InitStep>)
    requires
        lacks(front, InitStep::Exec),
        launch.len() > 0,
        launch.last() == InitStep::Exec,
        lacks(launch.drop_last(), InitStep::Exec),
    ensures
        ({
            let s = front + launch;
            &&& s.len() > 0
            &&& s.last() == InitStep::Exec
            &&& forall|i: int| 0 <= i < s.len() - 1 ==> #[trigger] s[i] != InitStep::Exec
        }),
{
    let s = front + launch;
    assert(s.drop_last() =~= front + launch.drop_last());
    lemma_lacks_add(front, launch.drop_last(), InitStep::Exec);
    assert forall|i: int| 0 <= i < s.len() - 1 implies #[trigger] s[i] != InitStep::Exec by {
        assert(s.drop_last()[i] == s[i]);
    }
}

/// A plan runs the program in its last step and nowhere else, or gives up in its
/// last step. It runs the program exactly where the configuration is accepted.
pub proof fn law_plan_ends_in_exec_or_reject(
    spec: Spec,
    process: Process,
    init: bool,
    no_pivot: bool,
)
    ensures
        ({
            let s = init_steps(spec, process, init, no_pivot);
            &&& s.len() > 0
            &&& accepted(spec) <==> s.last() == InitStep::Exec
            &&& !accepted(spec) <==> s.last() is Reject
            &&& forall|i: int| 0 <= i < s.len() - 1 ==> #[trigger] s[i] != InitStep::Exec
        }),
{
    if spec.process is Some && spec.linux is Some {
        let nses = spec.linux->0.namespace_list();
        lemma_known_bounded(nses);
        if accepted(spec) {
            let p = spec.process->0;
            let head = head_steps(p, nses, process, no_pivot);
            let privileges = privilege_phase(process, spec.linux->0.seccomp);
            let launch = launch_phase(process, spec.linux->0.seccomp, init);
            lemma_head_lacks(p, nses, process, no_pivot, InitStep::Exec);
            lemma_launch_ends_in_exec(process, spec.linux->0.seccomp, init);
            lemma_lacks_add(head, privileges, InitStep::Exec);
            assert(init_steps(spec, process, init, no_pivot) == head + privileges + launch);
            lemma_exec_comes_last(head + privileges, launch);
        } else {
            lemma_opens_lack(nses.take(known_prefix(nses) as int), InitStep::Exec);
        }
    }
}

proof fn lemma_known_bounded(nses: Seq<LinuxNamespace>)
    ensures
        known_prefix(nses) <= nses.len(),
    decreases nses.len(),
{
    if nses.len() > 0 {
        lemma_known_bounded(nses.drop_last());
    }
}

/// A configured filter is installed exactly once. With the no-new-privileges flag
/// that is right before the program runs. Without it, it is right after the
/// bounding set was restricted and right before the capabilities are dropped.
pub proof fn law_seccomp_installed_once(spec: Spec, process: Process, init: bool, no_pivot: bool)
    requires
        accepted(spec),
        spec.linux->0.seccomp,
    ensures
        ({
            let s = init_steps(spec, process, init, no_pivot);
            exists|i: int|
                {
                    &&& 0 <= i < s.len()
                    &&& #[trigger] s[i] == InitStep::InstallSeccomp
                    &&& forall|j: int|
                        0 <= j < s.len() && j != i ==> #[trigger] s[j] != InitStep::InstallSeccomp
                    &&& process.locked() ==> i == s.len() - 2 && s[i + 1] == InitStep::Exec
                    &&& !process.locked() && process.capabilities is Some ==> 0 < i && s[i - 1]
                        == InitStep::RestrictBounding && s[i + 1] == InitStep::DropCapabilities
                }
        }),
{
    let nses = spec.linux->0.namespace_list();
    let p = spec.process->0;
    let head = head_steps(p, nses, process, no_pivot);
    let privileges = privilege_phase(process, true);
    let launch = launch_phase(process, true, init);
    let s = init_steps(spec, process, init, no_pivot);
    let step = InitStep::InstallSeccomp;
    lemma_head_lacks(p, nses, process, no_pivot, step);
    assert(s == head + privileges + launch);
    if process.locked() {
        assert(lacks(privileges, step));
        lemma_lacks_add(head, privileges, step);
        let n = launch.len();
        assert(launch[n - 2] == step);
        assert(lacks(launch.take(n - 2), step));
        let i = s.len() - 2;
        assert(s[i] == launch[n - 2]);
        assert forall|j: int| 0 <= j < s.len() && j != i implies #[trigger] s[j] != step by {
            let h = (head + privileges).len();
            if j < h {
                assert(s[j] == (head + privileges)[j]);
            } else {
                assert(s[j] == launch[j - h]);
                if j - h < n - 2 {
                    assert(launch.take(n - 2)[j - h] == launch[j - h]);
                }
            }
        }
    } else {
        assert(lacks(launch, step));
        let n = when(process.labelled(), InitStep::SetSelinuxLabel).len() + when(
            process.capabilities is Some,
            InitStep::RestrictBounding,
        ).len();
        assert(privileges[n as int] == step);
        let i = head.len() + n;
        assert(s[i as int] == privileges[n as int]);
        assert forall|j: int| 0 <= j < s.len() && j != i implies #[trigger] s[j] != step by {
            let h = (head + privileges).len();
            if j < head.len() {
                assert(s[j] == head[j]);
            } else if j < h {
                assert(s[j] == privileges[j - head.len()]);
            } else {
                assert(s[j] == launch[j - h]);
            }
        }
        if process.capabilities is Some {
            assert(s[i - 1] == privileges[n - 1]);
            assert(s[i as int + 1] == privileges[n as int + 1]);
        }
    }
}

/// The child never creates or joins a pid namespace itself once the configuration
/// is known.
pub proof fn law_pid_namespace_is_left_alone(
    spec: Spec,
    process: Process,
    init: bool,
    no_pivot: bool,
)
    ensures
        forall|i: int|
            0 <= i < init_steps(spec, process, init, no_pivot).len() ==> match #[trigger] init_steps(
                spec,
                process,
                init,
                no_pivot,
            )[i] {
                InitStep::JoinNamespace(_, typ) => typ != NamespaceType::Pid,
                InitStep::Unshare(set) => !set.contains(NamespaceType::Pid),
                InitStep::JoinPidNamespace => false,
                InitStep::CreatePidNamespace => false,
                _ => true,
            },
{
    if spec.process is Some && spec.linux is Some {
        let nses = spec.linux->0.namespace_list();
        lemma_opens_no_pid(nses.take(known_prefix(nses) as int));
        lemma_opens_no_pid(nses);
        if accepted(spec) {
            let p = spec.process->0;
            let sec = spec.linux->0.seccomp;
            lemma_phases_no_pid(p, nses, process, sec, init, no_pivot);
            let a = open_steps(nses) + limit_phase(p, nses.len());
            lemma_no_pid_add(open_steps(nses), limit_phase(p, nses.len()));
            let b = a + user_phase(created(nses).user);
            lemma_no_pid_add(a, user_phase(created(nses).user));
            let c = b + namespace_phase(nses);
            lemma_no_pid_add(b, namespace_phase(nses));
            let d = c + rootfs_phase(nses, no_pivot);
            lemma_no_pid_add(c, rootfs_phase(nses, no_pivot));
            let e = d + identity_phase(process);
            lemma_no_pid_add(d, identity_phase(process));
            let f = e + privilege_phase(process, sec);
            lemma_no_pid_add(e, privilege_phase(process, sec));
            lemma_no_pid_add(f, launch_phase(process, sec, init));
        }
    }
}

proof fn lemma_no_pid_add(a: Seq<InitStep>, b: Seq<InitStep>)
    requires
        no_pid(a),
        no_pid(b),
    ensures
        no_pid(a + b),
{
}

proof fn lemma_phases_no_pid(
    p: Process,
    nses: Seq<LinuxNamespace>,
    process: Process,
    seccomp: bool,
    init: bool,
    no_pivot: bool,
)
    ensures
        no_pid(limit_phase(p, nses.len())),
        no_pid(user_phase(created(nses).user)),
        no_pid(namespace_phase(nses)),
        no_pid(rootfs_phase(nses, no_pivot)),
        no_pid(identity_phase(process)),
        no_pid(privilege_phase(process, seccomp)),
        no_pid(launch_phase(process, seccomp, init)),
{
    lemma_limit_no_pid(p, nses.len());
    lemma_user_no_pid(created(nses).user);
    lemma_namespaces_no_pid(nses);
    lemma_rootfs_no_pid(nses, no_pivot);
    lemma_identity_no_pid(process);
    lemma_privilege_no_pid(process, seccomp);
    lemma_launch_no_pid(process, seccomp, init);
}

proof fn lemma_limit_no_pid(p: Process, namespaces: nat)
    ensures
        no_pid(limit_phase(p, namespaces)),
{
}

proof fn lemma_user_no_pid(user: bool)
    ensures
        no_pid(user_phase(user)),
{
}

proof fn lemma_namespaces_no_pid(nses: Seq<LinuxNamespace>)
    ensures
        no_pid(namespace_phase(nses)),
{
    lemma_joins_no_pid(nses);
    let tail = seq![
        InitStep::QuerySelinux,
        InitStep::Unshare(created(nses).minus_user()),
        InitStep::UnshareCgroup,
    ];
    assert(no_pid(tail));
    lemma_no_pid_add(join_steps(nses), tail);
}

proof fn lemma_rootfs_no_pid(nses: Seq<LinuxNamespace>, no_pivot: bool)
    ensures
        no_pid(rootfs_phase(nses, no_pivot)),
{
    assert(no_pid(change_root(no_pivot)));
}

proof fn lemma_identity_no_pid(process: Process)
    ensures
        no_pid(identity_phase(process)),
{
}

proof fn lemma_privilege_no_pid(process: Process, seccomp: bool)
    ensures
        no_pid(privilege_phase(process, seccomp)),
{
}

proof fn lemma_launch_no_pid(process: Process, seccomp: bool, init: bool)
    ensures
        no_pid(launch_phase(process, seccomp, init)),
{
}

spec fn no_pid(s: Seq<InitStep>) -> bool {
    forall|i: int|
        0 <= i < s.len() ==> match #[trigger] s[i] {
            InitStep::JoinNamespace(_, typ) => typ != NamespaceType::Pid,
            InitStep::Unshare(set) => !set.contains(NamespaceType::Pid),
            InitStep::JoinPidNamespace => false,
            InitStep::CreatePidNamespace => false,
            _ => true,
        }
}

proof fn lemma_opens_no_pid(nses: Seq<LinuxNamespace>)
    ensures
        no_pid(open_steps(nses)),
    decreases nses.len(),
{
    if nses.len() > 0 {
        lemma_opens_no_pid(nses.drop_last());
    }
}

proof fn lemma_joins_no_pid(nses: Seq<LinuxNamespace>)
    ensures
        no_pid(join_steps(nses)),
    decreases nses.len(),
{
    if nses.len() > 0 {
        lemma_joins_no_pid(nses.drop_last());
        assert(no_pid(join_one(nses.len() - 1, nses.last())));
    }
}

} // verus!
