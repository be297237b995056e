//! Requests of the host: what is refused, and how errors are answered.
use vstd::prelude::*;

use crate::container::ContainerProcess;
use crate::device_policy::{spec_fault, validate_spec_device_features};
use crate::oci::{DeviceType, LinuxDevice, LinuxNamespace, NamespaceType, Root, Spec};
use crate::path::{join, joined};
use crate::sandbox::{Sandbox, SandboxError};
use crate::text::str_eq;

verus! {

/// The directory of the containers.
pub const CONTAINER_BASE: &'static str = "/run/kata-containers";

/// The directory that holds what the host copies into the guest.
pub const KATA_GUEST_SHARE_DIR: &'static str = "/run/kata-containers/shared/containers/";

/// Whether the agent can install seccomp filters.
pub const SECCOMP: bool = true;

/// The kind of an error answer.
#[derive(Clone, Copy, Debug, PartialEq, Eq, Structural)]
pub enum RpcCode {
    InvalidArgument,
    NotFound,
    Internal,
    Unavailable,
}

/// An error answer.
#[derive(Debug)]
pub struct RpcError {
    pub code: RpcCode,
    pub detail: String,
    /// Whether the detail is a text, which is quoted on the wire, or a value written out.
    pub quoted: bool,
}

/// Makes an error answer with a text.
pub fn ttrpc_error(code: RpcCode, detail: &str) -> (r: RpcError)
    ensures
        r.code == code,
        r.detail@ == detail@,
        r.quoted,
{
    RpcError { code, detail: detail.to_owned(), quoted: true }
}

/// The kind of answer for a process that cannot be found: a missing process is told
/// apart from a wrong request.
pub open spec fn lookup_code(e: SandboxError) -> RpcCode {
    match e {
        SandboxError::InitProcessNotFound => RpcCode::NotFound,
        SandboxError::InvalidExecId => RpcCode::NotFound,
        SandboxError::InvalidContainerId => RpcCode::InvalidArgument,
    }
}

/// The answer for a process that cannot be found.
pub fn sandbox_err_to_ttrpc(e: SandboxError) -> (r: RpcError)
    ensures
        r.code == lookup_code(e),
        r.detail@ == e.name(),
        !r.quoted,
{
    let code = match e {
        SandboxError::InitProcessNotFound => RpcCode::NotFound,
        SandboxError::InvalidExecId => RpcCode::NotFound,
        SandboxError::InvalidContainerId => RpcCode::InvalidArgument,
    };
    RpcError { code, detail: e.label(), quoted: false }
}

/// Hands a value through.
pub fn same<E>(e: E) -> (r: E)
    ensures
        r == e,
{
    e
}

/// An error within the agent.
#[derive(Debug)]
pub enum AgentError {
    /// One that is an answer already.
    Rpc(RpcError),
    /// Any other, written out.
    Other(String),
}

impl AgentError {
    /// Whether this is an error of the agent with the given text.
    pub open spec fn says(self, text: Seq<char>) -> bool {
        self matches AgentError::Other(s) && s@ == text
    }
}

/// Turns an error within the agent into an answer: one that is an answer already
/// stays as it is, and any other is an internal error.
pub fn map_ttrpc_err<T>(result: Result<T, AgentError>) -> (r: Result<T, RpcError>)
    ensures
        match result {
            Ok(v) => r == Ok::<T, RpcError>(v),
            Err(AgentError::Rpc(e)) => r == Err::<T, RpcError>(e),
            Err(AgentError::Other(s)) => r matches Err(e) && e.code == RpcCode::Internal
                && e.detail@ == s@ && !e.quoted,
        },
{
    match result {
        Ok(v) => Ok(v),
        Err(AgentError::Rpc(e)) => Err(e),
        Err(AgentError::Other(s)) => Err(
            RpcError { code: RpcCode::Internal, detail: s, quoted: false },
        ),
    }
}

/// What is refused with an invalid-argument answer, and its text.
#[derive(Clone, Copy, Debug, PartialEq, Eq, Structural)]
pub enum Refusal {
    ModulesAndHooks,
    PassFd,
    RawDevices,
    NetworkDevicePath,
    MemoryHotplug,
}

impl Refusal {
    /// The text of the refusal.
    pub open spec fn text(self) -> Seq<char> {
        match self {
            Refusal::ModulesAndHooks =>
                "kata-fc: guest kernel modules and guest hooks are unsupported"@,
            Refusal::PassFd => "kata-fc: pass-fd IO is unsupported"@,
            Refusal::RawDevices =>
                "kata-fc: raw device passthrough and cross-container shared mounts are unsupported"@,
            Refusal::NetworkDevicePath => "kata-fc: PCI/CCW network device paths are unsupported"@,
            Refusal::MemoryHotplug => "kata-fc: guest memory hotplug information is unsupported"@,
        }
    }

    fn answer(self) -> (r: RpcError)
        ensures
            is_refusal(r, self.text()),
    {
        let code = RpcCode::InvalidArgument;
        match self {
            Refusal::ModulesAndHooks => ttrpc_error(
                code,
                "kata-fc: guest kernel modules and guest hooks are unsupported",
            ),
            Refusal::PassFd => ttrpc_error(code, "kata-fc: pass-fd IO is unsupported"),
            Refusal::RawDevices => ttrpc_error(
                code,
                "kata-fc: raw device passthrough and cross-container shared mounts are unsupported",
            ),
            Refusal::NetworkDevicePath => ttrpc_error(
                code,
                "kata-fc: PCI/CCW network device paths are unsupported",
            ),
            Refusal::MemoryHotplug => ttrpc_error(
                code,
                "kata-fc: guest memory hotplug information is unsupported",
            ),
        }
    }
}

/// Whether an answer refuses a request with the given text.
pub open spec fn is_refusal(e: RpcError, text: Seq<char>) -> bool {
    e.code == RpcCode::InvalidArgument && e.detail@ == text && e.quoted
}

/// Refuses storages for which the storage handlers gave a reason.
pub fn validate_storage_features(checked: Result<(), String>) -> (r: Result<(), RpcError>)
    ensures
        match checked {
            Ok(_) => r is Ok,
            Err(s) => r matches Err(e) && is_refusal(e, s@),
        },
{
    match checked {
        Ok(_) => Ok(()),
        Err(s) => Err(RpcError { code: RpcCode::InvalidArgument, detail: s, quoted: true }),
    }
}

/// What a request for a sandbox asks for beyond its storages.
#[derive(Debug)]
pub struct CreateSandboxRequest {
    pub hostname: String,
    pub sandbox_id: String,
    pub kernel_modules: usize,
    pub guest_hook_path: String,
}

/// Whether a request for a sandbox asks for something that is not supported.
pub open spec fn asks_for_extensions(req: CreateSandboxRequest) -> bool {
    req.kernel_modules > 0 || req.guest_hook_path@.len() > 0
}

/// Refuses a sandbox with extensions that are not supported, before any state
/// changes. The storages were checked by their handlers.
pub fn validate_sandbox_features(req: &CreateSandboxRequest, storages: Result<(), String>) -> (r:
    Result<(), RpcError>)
    ensures
        match storages {
            Err(s) => r matches Err(e) && is_refusal(e, s@),
            Ok(_) => if asks_for_extensions(*req) {
                r matches Err(e) && is_refusal(e, Refusal::ModulesAndHooks.text())
            } else {
                r is Ok
            },
        },
{
    if let Err(e) = validate_storage_features(storages) {
        return Err(e);
    }
    if req.kernel_modules > 0 || !req.guest_hook_path.as_str().is_empty() {
        return Err(Refusal::ModulesAndHooks.answer());
    }
    Ok(())
}

/// Refuses streams that are passed by descriptor; port 0 stands for none.
pub fn validate_passfd(stdin: u32, stdout: u32, stderr: u32) -> (r: Result<(), RpcError>)
    ensures
        if stdin != 0 || stdout != 0 || stderr != 0 {
            r matches Err(e) && is_refusal(e, Refusal::PassFd.text())
        } else {
            r is Ok
        },
{
    if stdin != 0 || stdout != 0 || stderr != 0 {
        return Err(Refusal::PassFd.answer());
    }
    Ok(())
}

/// What a request for a container asks for.
#[derive(Debug)]
pub struct CreateContainerRequest {
    pub container_id: String,
    pub stdin_port: u32,
    pub stdout_port: u32,
    pub stderr_port: u32,
    pub devices: usize,
    pub shared_mounts: usize,
    pub sandbox_pidns: bool,
    pub oci: Option<Spec>,
}

/// Whether a list of devices holds a block device.
pub open spec fn some_block(devices: Seq<LinuxDevice>) -> bool {
    exists|i: int| 0 <= i < devices.len() && (#[trigger] devices[i]).typ == DeviceType::B
}

/// Whether a configuration asks for a block device of the host.
pub open spec fn asks_for_block(spec: Spec) -> bool {
    match spec.linux {
        Some(linux) => match linux.devices {
            Some(d) => some_block(d@),
            None => false,
        },
        None => false,
    }
}

fn has_block(spec: &Spec) -> (r: bool)
    ensures
        r == asks_for_block(*spec),
{
    if let Some(linux) = &spec.linux {
        if let Some(devices) = &linux.devices {
            let mut i: usize = 0;
            while i < devices.len()
                invariant
                    i <= devices.len(),
                    asks_for_block(*spec) == some_block(devices@),
                    forall|k: int|
                        0 <= k < i ==> (#[trigger] devices@[k]).typ != DeviceType::B,
                decreases devices.len() - i,
            {
                if devices[i].typ == DeviceType::B {
                    return true;
                }
                i += 1;
            }
        }
    }
    false
}

/// Why a request for a container is refused for its devices. A block device of the
/// configuration has nothing that stands for it in the guest.
pub open spec fn device_refusal(req: CreateContainerRequest) -> Option<Seq<char>> {
    if req.devices > 0 || req.shared_mounts > 0 {
        Some(Refusal::RawDevices.text())
    } else {
        match req.oci {
            Some(spec) => if asks_for_block(spec) {
                Some(Refusal::RawDevices.text())
            } else {
                match spec_fault(spec) {
                    Some(f) => Some(f.text()),
                    None => None,
                }
            },
            None => None,
        }
    }
}

/// Refuses devices that are not supported, before any of them is waited for.
pub fn validate_container_device_features(req: &CreateContainerRequest) -> (r: Result<
    (),
    RpcError,
>)
    ensures
        match r {
            Ok(_) => device_refusal(*req) is None,
            Err(e) => device_refusal(*req) is Some && is_refusal(e, device_refusal(*req)->0),
        },
{
    if req.devices > 0 || req.shared_mounts > 0 {
        return Err(Refusal::RawDevices.answer());
    }
    if let Some(spec) = &req.oci {
        if has_block(spec) {
            return Err(Refusal::RawDevices.answer());
        }
        if let Err(e) = validate_spec_device_features(spec) {
            let text = e.message();
            return Err(ttrpc_error(RpcCode::InvalidArgument, text.as_str()));
        }
    }
    Ok(())
}

/// Refuses a network interface without a description or with a device path.
pub fn validate_interface(device_path: &Option<String>) -> (r: Result<(), RpcError>)
    ensures
        match device_path {
            None => r matches Err(e) && is_refusal(e, "empty update interface request"@),
            Some(p) => if p@.len() > 0 {
                r matches Err(e) && is_refusal(e, Refusal::NetworkDevicePath.text())
            } else {
                r is Ok
            },
        },
{
    match device_path {
        None => Err(ttrpc_error(RpcCode::InvalidArgument, "empty update interface request")),
        Some(p) => {
            if !p.as_str().is_empty() {
                return Err(Refusal::NetworkDevicePath.answer());
            }
            Ok(())
        },
    }
}

/// Refuses questions about memory hotplug.
pub fn validate_guest_details(mem_block_size: bool, mem_hotplug_probe: bool) -> (r: Result<
    (),
    RpcError,
>)
    ensures
        if mem_block_size || mem_hotplug_probe {
            r matches Err(e) && is_refusal(e, Refusal::MemoryHotplug.text())
        } else {
            r is Ok
        },
{
    if mem_block_size || mem_hotplug_probe {
        return Err(Refusal::MemoryHotplug.answer());
    }
    Ok(())
}

/// What the agent tells of itself.
#[derive(Debug)]
pub struct AgentDetails {
    pub version: String,
    pub supports_seccomp: bool,
    /// Whether the agent is the first process of the guest.
    pub init_daemon: bool,
    pub device_handlers: Vec<String>,
    pub storage_handlers: Vec<String>,
    pub extra_features: Vec<String>,
}

/// Tells what the agent is, which runs with the given pid. It has no device handlers to
/// tell of.
pub fn get_agent_details(
    version: String,
    pid: i32,
    storage_handlers: Vec<String>,
    extra_features: Vec<String>,
) -> (r: AgentDetails)
    ensures
        r.version == version,
        r.supports_seccomp == SECCOMP,
        r.init_daemon == (pid == 1),
        r.device_handlers@ == Seq::<String>::empty(),
        r.storage_handlers == storage_handlers,
        r.extra_features == extra_features,
{
    AgentDetails {
        version,
        supports_seccomp: have_seccomp(),
        init_daemon: pid == 1,
        device_handlers: Vec::new(),
        storage_handlers,
        extra_features,
    }
}

/// What the host is told of the guest.
#[derive(Debug)]
pub struct GuestDetails {
    pub mem_block_size_bytes: u64,
    pub support_mem_hotplug_probe: bool,
    pub agent_details: AgentDetails,
}

/// Answers a question about the guest. Memory hotplug may not be asked about, and nothing
/// is told of it.
pub fn get_guest_details(mem_block_size: bool, mem_hotplug_probe: bool, agent: AgentDetails) -> (r:
    Result<GuestDetails, RpcError>)
    ensures
        if mem_block_size || mem_hotplug_probe {
            r matches Err(e) && is_refusal(e, Refusal::MemoryHotplug.text())
        } else {
            r matches Ok(d) && d.mem_block_size_bytes == 0 && !d.support_mem_hotplug_probe
                && d.agent_details == agent
        },
{
    if let Err(e) = validate_guest_details(mem_block_size, mem_hotplug_probe) {
        return Err(e);
    }
    Ok(
        GuestDetails {
            mem_block_size_bytes: 0,
            support_mem_hotplug_probe: false,
            agent_details: agent,
        },
    )
}

/// Refuses diagnostic data other than the termination log.
pub fn validate_log_type(log_type: &str) -> (r: Result<(), RpcError>)
    ensures
        if log_type@ == "termination_log"@ {
            r is Ok
        } else {
            r matches Err(e) && is_refusal(e, "unsupported diagnostic log_type: "@ + log_type@)
        },
{
    if str_eq(log_type, "termination_log") {
        return Ok(());
    }
    let mut s = "unsupported diagnostic log_type: ".to_owned();
    s.append(log_type);
    Err(RpcError { code: RpcCode::InvalidArgument, detail: s, quoted: true })
}

/// Whether the agent can install seccomp filters.
pub fn have_seccomp() -> (r: bool)
    ensures
        r == SECCOMP,
{
    SECCOMP
}

/// A sandbox that serves the request of the host: its host name, and its id where the
/// request gives one.
pub fn begin_sandbox(sandbox: &mut Sandbox, req: &CreateSandboxRequest)
    ensures
        *final(sandbox) == (Sandbox {
            hostname: req.hostname,
            running: true,
            id: if req.sandbox_id@.len() > 0 {
                req.sandbox_id
            } else {
                old(sandbox).id
            },
            ..*old(sandbox)
        }),
{
    sandbox.hostname = req.hostname.clone();
    sandbox.running = true;
    if !req.sandbox_id.as_str().is_empty() {
        sandbox.id = req.sandbox_id.clone();
    }
}

/// Bytes or inodes of a volume.
#[derive(Clone, Copy, Debug, PartialEq, Eq, Structural)]
pub struct VolumeUsage {
    pub total: u64,
    pub available: u64,
    pub used: u64,
}

/// The bytes of a filesystem with the given blocks.
pub fn get_volume_capacity_stats(blocks: u64, free: u64, block_size: u64) -> (r: VolumeUsage)
    requires
        free <= blocks,
        blocks * block_size <= u64::MAX,
    ensures
        r.total == blocks * block_size,
        r.available == free * block_size,
        r.used == (blocks - free) * block_size,
        r.used + r.available == r.total,
{
    proof {
        assert(free * block_size <= blocks * block_size) by (nonlinear_arith)
            requires
                free <= blocks,
        ;
        assert((blocks - free) * block_size == blocks * block_size - free * block_size)
            by (nonlinear_arith);
    }
    let total: u64 = blocks * block_size;
    let available: u64 = free * block_size;
    VolumeUsage { total, available, used: total - available }
}

/// The inodes of a filesystem.
pub fn get_volume_inode_stats(files: u64, free: u64) -> (r: VolumeUsage)
    requires
        free <= files,
    ensures
        r.total == files,
        r.available == free,
        r.used == files - free,
{
    VolumeUsage { total: files, available: free, used: files - free }
}

/// A stream of a process.
#[derive(Clone, Copy, Debug, PartialEq, Eq, Structural)]
pub enum StreamType {
    TermMaster,
    ParentStdin,
    ParentStdout,
    ParentStderr,
}

/// What is done with input for a process.
#[derive(Clone, Copy, Debug, PartialEq, Eq, Structural)]
pub enum InputStep {
    /// Close its standard input.
    CloseStdin,
    /// Write to a stream.
    Write(StreamType),
}

/// Decides what is done with input for a process: none at all ends its input, and a
/// terminal takes the place of standard input. The number is what the host is told.
pub fn do_write_stream(p: &ContainerProcess, len: usize) -> (r: (InputStep, u32))
    ensures
        r.0 == if len == 0 {
            InputStep::CloseStdin
        } else if p.term_master is Some {
            InputStep::Write(StreamType::TermMaster)
        } else {
            InputStep::Write(StreamType::ParentStdin)
        },
        r.1 == (len as nat) % 0x1_0000_0000,
{
    let told: u32 = (len as u64 % 0x1_0000_0000) as u32;
    if len == 0 {
        (InputStep::CloseStdin, told)
    } else if p.term_master.is_some() {
        (InputStep::Write(StreamType::TermMaster), told)
    } else {
        (InputStep::Write(StreamType::ParentStdin), told)
    }
}

/// The stream that the host reads: the terminal where there is one, else standard
/// output where it is there, or standard error.
pub open spec fn read_source(p: ContainerProcess, stdout: bool) -> Option<StreamType> {
    if p.term_master is Some {
        Some(StreamType::TermMaster)
    } else if !stdout {
        Some(StreamType::ParentStderr)
    } else if p.parent_stdout is Some {
        Some(StreamType::ParentStdout)
    } else {
        None
    }
}

/// Chooses the stream that the host reads.
pub fn do_read_stream(p: &ContainerProcess, stdout: bool) -> (r: Result<StreamType, AgentError>)
    ensures
        match r {
            Ok(s) => read_source(*p, stdout) == Some(s),
            Err(e) => read_source(*p, stdout) is None && e.says("cannot get stream reader"@),
        },
{
    if p.term_master.is_some() {
        Ok(StreamType::TermMaster)
    } else if stdout {
        if p.parent_stdout.is_some() {
            Ok(StreamType::ParentStdout)
        } else {
            Err(AgentError::Other("cannot get stream reader".to_owned()))
        }
    } else {
        Ok(StreamType::ParentStderr)
    }
}

/// How long output is still waited for once a process has ended, in milliseconds.
pub const DRAIN_DEADLINE_MS: u64 = 500;

/// What came of waiting for the output of a process.
#[derive(Debug)]
pub enum ReadNews {
    /// Output was read, or the end of it.
    Data(Vec<u8>),
    /// The read failed.
    Failed,
    /// The process has ended, and nothing was read yet.
    Exited,
    /// Nothing was read in time after the process had ended.
    TimedOut,
}

/// What follows.
#[derive(Debug)]
pub enum ReadStep {
    /// Answer with the output.
    Answer(Vec<u8>),
    /// Fail with the error of the read.
    Fail,
    /// Go on with the same read, for so many milliseconds at most.
    Drain(u64),
}

/// A `ReadStep` over sequences.
pub enum ReadStepView {
    Answer(Seq<u8>),
    Fail,
    Drain(u64),
}

impl View for ReadStep {
    type V = ReadStepView;

    open spec fn view(&self) -> ReadStepView {
        match *self {
            ReadStep::Answer(d) => ReadStepView::Answer(d@),
            ReadStep::Fail => ReadStepView::Fail,
            ReadStep::Drain(ms) => ReadStepView::Drain(ms),
        }
    }
}

/// What follows news of a read: output is handed on whether the process has ended or not,
/// and the end of the process alone ends nothing until the time for the rest is over.
pub open spec fn after_read(news: ReadNews) -> ReadStepView {
    match news {
        ReadNews::Data(d) => ReadStepView::Answer(d@),
        ReadNews::Failed => ReadStepView::Fail,
        ReadNews::Exited => ReadStepView::Drain(DRAIN_DEADLINE_MS),
        ReadNews::TimedOut => ReadStepView::Answer(Seq::empty()),
    }
}

/// Tells what follows news of a read.
pub fn read_stream(news: ReadNews) -> (r: ReadStep)
    ensures
        r@ == after_read(news),
{
    match news {
        ReadNews::Data(d) => ReadStep::Answer(d),
        ReadNews::Failed => ReadStep::Fail,
        ReadNews::Exited => ReadStep::Drain(DRAIN_DEADLINE_MS),
        ReadNews::TimedOut => ReadStep::Answer(Vec::new()),
    }
}

/// No output is lost to the end of a process: what is read before the deadline is the
/// answer, and an answer without output comes from a stream at its end or from the deadline.
pub proof fn law_output_survives_the_process(news: ReadNews)
    ensures
        news matches ReadNews::Data(d) ==> after_read(news) == ReadStepView::Answer(d@),
        after_read(news) == ReadStepView::Answer(Seq::empty()) ==> news is TimedOut || (
        news matches ReadNews::Data(d) && d@.len() == 0),
        news is Exited ==> after_read(news) == ReadStepView::Drain(DRAIN_DEADLINE_MS),
{
}

/// Why namespaces cannot be set.
#[derive(Clone, Copy, Debug, PartialEq, Eq, Structural)]
pub enum NamespaceError {
    /// The configuration has no Linux section.
    NoLinux,
    /// The sandbox has no pid namespace to share.
    NoSandboxPidns,
}

impl NamespaceError {
    /// The text of the error.
    pub fn message(self) -> (r: String)
        ensures
            r@ == match self {
                NamespaceError::NoLinux => "Spec does not contain linux field"@,
                NamespaceError::NoSandboxPidns => "Sandbox does not have sandbox_pidns"@,
            },
    {
        match self {
            NamespaceError::NoLinux => "Spec does not contain linux field".to_owned(),
            NamespaceError::NoSandboxPidns => "Sandbox does not have sandbox_pidns".to_owned(),
        }
    }
}

/// A path, or none where it is empty.
pub open spec fn path_or_none(p: Seq<char>) -> Option<Seq<char>> {
    if p.len() > 0 {
        Some(p)
    } else {
        None
    }
}

/// The path of a namespace over sequences.
pub open spec fn ns_path(ns: LinuxNamespace) -> Option<Seq<char>> {
    match ns.path {
        Some(p) => Some(p@),
        None => None,
    }
}

/// Whether a namespace of a container is what the sandbox makes of it: the IPC and the
/// UTS namespace are those of the sandbox, whatever the host wrote, and others stay.
pub open spec fn shared_as(before: LinuxNamespace, after: LinuxNamespace, s: Sandbox) -> bool {
    &&& after.typ == before.typ
    &&& match before.typ {
        NamespaceType::Ipc => ns_path(after) == path_or_none(s.shared_ipcns@),
        NamespaceType::Uts => ns_path(after) == path_or_none(s.shared_utsns@),
        _ => after.path == before.path,
    }
}

/// The path of the pid namespace that a container gets: that of the sandbox where it
/// is to be shared, and a new one otherwise.
pub open spec fn pid_path(s: Sandbox, shared: bool) -> Option<Seq<char>> {
    if shared && s.sandbox_pidns is Some {
        path_or_none(s.sandbox_pidns->0@)
    } else {
        None
    }
}

/// Whether the pid namespace of the sandbox is asked for and missing: only the first
/// container may come without it.
pub open spec fn pidns_missing(s: Sandbox, shared: bool) -> bool {
    shared && s.sandbox_pidns is None && s.containers@ != Map::<
        Seq<char>,
        crate::container::LinuxContainer,
    >::empty()
}

/// The namespaces of a list that are no pid namespaces, in their order.
pub open spec fn without_pid(list: Seq<LinuxNamespace>) -> Seq<LinuxNamespace> {
    list.filter(|ns: LinuxNamespace| ns.typ != NamespaceType::Pid)
}

/// Whether the namespaces of a container are what the sandbox makes of them: the pid
/// namespaces that the host asks for are left out, each other one is what the sandbox makes
/// of it, and one pid namespace is added at the end, but where that of the sandbox is
/// missing.
pub open spec fn namespaces_shared(
    before: crate::oci::Linux,
    after: crate::oci::Linux,
    s: Sandbox,
    shared: bool,
) -> bool {
    &&& after.namespaces is Some == before.namespaces is Some
    &&& before.namespaces is Some ==> {
        let b = without_pid(before.namespaces->0@);
        let a = after.namespaces->0@;
        &&& forall|i: int| 0 <= i < b.len() ==> shared_as(b[i], #[trigger] a[i], s)
        &&& if pidns_missing(s, shared) {
            a.len() == b.len()
        } else {
            &&& a.len() == b.len() + 1
            &&& a.last().typ == NamespaceType::Pid
            &&& ns_path(a.last()) == pid_path(s, shared)
        }
    }
    &&& crate::container::same_but_namespaces(after, before)
}

/// A container runs in the pid namespace that the sandbox gives it, whatever pid
/// namespaces the host asks for: its list has one pid namespace, with the path that the
/// sandbox sets, and that is the one it enters.
pub proof fn law_pid_paths_of_the_host_are_ignored(
    before: crate::oci::Linux,
    after: crate::oci::Linux,
    s: Sandbox,
    shared: bool,
)
    requires
        before.namespaces is Some,
        namespaces_shared(before, after, s, shared),
        !pidns_missing(s, shared),
    ensures
        ({
            let a = after.namespaces->0@;
            &&& a.len() > 0
            &&& forall|i: int|
                0 <= i < a.len() ==> ((#[trigger] a[i]).typ == NamespaceType::Pid <==> i == a.len()
                    - 1)
            &&& crate::container::first_pid_namespace(a) == Some(a.len() - 1)
            &&& ns_path(a[a.len() - 1]) == pid_path(s, shared)
        }),
{
    let list = before.namespaces->0@;
    let b = without_pid(list);
    let a = after.namespaces->0@;
    assert forall|i: int| 0 <= i < b.len() implies (#[trigger] a[i]).typ != NamespaceType::Pid by {
        list.lemma_filter_pred(|ns: LinuxNamespace| ns.typ != NamespaceType::Pid, i);
        assert(shared_as(b[i], a[i], s));
    }
    lemma_no_pid_namespace(a.drop_last());
}

proof fn lemma_no_pid_namespace(list: Seq<LinuxNamespace>)
    requires
        forall|i: int| 0 <= i < list.len() ==> (#[trigger] list[i]).typ != NamespaceType::Pid,
    ensures
        crate::container::first_pid_namespace(list) is None,
    decreases list.len(),
{
    if list.len() > 0 {
        lemma_no_pid_namespace(list.drop_last());
    }
}

fn optional_path(p: &String) -> (r: Option<String>)
    ensures
        match r {
            Some(s) => path_or_none(p@) == Some(s@),
            None => path_or_none(p@) is None,
        },
{
    if p.as_str().is_empty() {
        None
    } else {
        Some(p.clone())
    }
}

/// Sets the namespaces of a container: those that the sandbox shares, and a pid
/// namespace at the end of the list. The path of a pid namespace that the host asks for
/// is never used: it means nothing inside the guest. A configuration without a list of
/// namespaces stays as it is.
pub fn update_container_namespaces(s: &Sandbox, spec: &mut Spec, shared: bool) -> (r: Result<
    (),
    NamespaceError,
>)
    ensures
        match r {
            Err(NamespaceError::NoLinux) => old(spec).linux is None,
            Err(NamespaceError::NoSandboxPidns) => old(spec).linux is Some
                && old(spec).linux->0.namespaces is Some && pidns_missing(*s, shared),
            Ok(_) => old(spec).linux is Some && (old(spec).linux->0.namespaces is Some
                ==> !pidns_missing(*s, shared)),
        },
        old(spec).linux is Some ==> final(spec).linux is Some && namespaces_shared(
            old(spec).linux->0,
            final(spec).linux->0,
            *s,
            shared,
        ),
        old(spec).linux is None ==> final(spec).linux is None,
        *final(spec) == (Spec { linux: final(spec).linux, ..*old(spec) }),
{
    let mut taken: Option<crate::oci::Linux> = None;
    core::mem::swap(&mut taken, &mut spec.linux);
    let mut linux = match taken {
        None => {
            return Err(NamespaceError::NoLinux);
        },
        Some(l) => l,
    };
    let mut list: Option<Vec<LinuxNamespace>> = None;
    core::mem::swap(&mut list, &mut linux.namespaces);
    let mut result: Result<(), NamespaceError> = Ok(());
    match list {
        None => {},
        Some(mut v) => {
            let ghost before = v@;
            let ghost mut seen: int = 0;
            let mut i: usize = 0;
            while i < v.len()
                invariant
                    0 <= seen <= before.len(),
                    i <= v@.len(),
                    v@.len() - i == before.len() - seen,
                    without_pid(before.take(seen)).len() == i,
                    forall|k: int|
                        0 <= k < i ==> shared_as(
                            without_pid(before.take(seen))[k],
                            #[trigger] v@[k],
                            *s,
                        ),
                    forall|k: int|
                        i <= k < v@.len() ==> #[trigger] v@[k] == before[seen + (k - i)],
                decreases v@.len() - i,
            {
                proof {
                    reveal(Seq::filter);
                    assert(before.take(seen + 1).drop_last() =~= before.take(seen));
                    assert(before.take(seen + 1).last() == v@[i as int]);
                }
                let typ = v[i].typ;
                if typ == NamespaceType::Pid {
                    v.remove(i);
                } else {
                    if typ == NamespaceType::Ipc {
                        let path = optional_path(&s.shared_ipcns);
                        v.set(i, LinuxNamespace { typ, path });
                    } else if typ == NamespaceType::Uts {
                        let path = optional_path(&s.shared_utsns);
                        v.set(i, LinuxNamespace { typ, path });
                    }
                    i += 1;
                }
                proof {
                    seen = seen + 1;
                }
            }
            assert(before.take(seen) =~= before);
            let mut path: Option<String> = None;
            if shared {
                match &s.sandbox_pidns {
                    Some(p) => {
                        path = optional_path(p);
                    },
                    None => {
                        if s.containers.len() > 0 {
                            result = Err(NamespaceError::NoSandboxPidns);
                        }
                    },
                }
            }
            if result.is_ok() {
                v.push(LinuxNamespace { typ: NamespaceType::Pid, path });
            }
            linux.namespaces = Some(v);
        },
    }
    spec.linux = Some(linux);
    result
}

/// The bundle of a container.
#[derive(Debug)]
pub struct Bundle {
    /// The directory of the bundle.
    pub path: String,
    /// The configuration file.
    pub config: String,
    /// The mount point of the root filesystem.
    pub rootfs: String,
    /// What is mounted there.
    pub source: String,
}

/// The configuration has no root filesystem.
#[derive(Clone, Copy, Debug, PartialEq, Eq, Structural)]
pub struct NoRoot;

/// Plans the bundle of a container, and points its configuration to the root
/// filesystem in the bundle.
pub fn setup_bundle(cid: &str, spec: &mut Spec) -> (r: Result<Bundle, NoRoot>)
    ensures
        match r {
            Err(_) => old(spec).root is None && *final(spec) == *old(spec),
            Ok(b) => {
                let dir = joined(CONTAINER_BASE@, cid@);
                &&& old(spec).root is Some
                &&& b.path@ == dir
                &&& b.config@ == joined(dir, "config.json"@)
                &&& b.rootfs@ == joined(dir, "rootfs"@)
                &&& b.source@ == old(spec).root->0.path@
                &&& final(spec).root is Some
                &&& final(spec).root->0.path@ == b.rootfs@
                &&& final(spec).root->0.readonly == old(spec).root->0.readonly
                &&& *final(spec) == (Spec { root: final(spec).root, ..*old(spec) })
            },
        },
{
    let (source, readonly) = match &spec.root {
        Some(root) => (root.path.clone(), root.readonly),
        None => {
            return Err(NoRoot);
        },
    };
    let path = join(CONTAINER_BASE, cid);
    let config = join(path.as_str(), "config.json");
    let rootfs = join(path.as_str(), "rootfs");
    spec.root = Some(Root { path: rootfs.clone(), readonly });
    Ok(Bundle { path, config, rootfs, source })
}

} // verus!
