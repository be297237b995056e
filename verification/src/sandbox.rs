//! The sandbox: its containers, its storages and what they share.
use vstd::prelude::*;

use crate::cgroups::devices::DevicesCgroupInfo;
use crate::container::{BaseContainer, ContainerProcess, LinuxContainer};
use crate::strmap::StrMap;
use crate::text::{push_i64, signed_decimal, str_eq};

verus! {

/// The type of the filesystem that the kernel unpacks at boot.
pub const TYPE_ROOTFS: &'static str = "rootfs";

/// Why a process cannot be found.
#[derive(Clone, Copy, Debug, PartialEq, Eq, Structural)]
pub enum SandboxError {
    /// There is no such container.
    InvalidContainerId,
    /// The container has no init process.
    InitProcessNotFound,
    /// The container has no such process.
    InvalidExecId,
}

impl SandboxError {
    /// The text of the error.
    pub open spec fn text(self) -> Seq<char> {
        match self {
            SandboxError::InvalidContainerId => "Invalid container id"@,
            SandboxError::InitProcessNotFound => "Process not found: init process missing"@,
            SandboxError::InvalidExecId => "Process not found: invalid exec id"@,
        }
    }

    /// The name of the error.
    pub open spec fn name(self) -> Seq<char> {
        match self {
            SandboxError::InvalidContainerId => "InvalidContainerId"@,
            SandboxError::InitProcessNotFound => "InitProcessNotFound"@,
            SandboxError::InvalidExecId => "InvalidExecId"@,
        }
    }

    /// The name of the error.
    pub fn label(self) -> (r: String)
        ensures
            r@ == self.name(),
    {
        match self {
            SandboxError::InvalidContainerId => "InvalidContainerId".to_owned(),
            SandboxError::InitProcessNotFound => "InitProcessNotFound".to_owned(),
            SandboxError::InvalidExecId => "InvalidExecId".to_owned(),
        }
    }

    /// The text of the error.
    pub fn message(self) -> (r: String)
        ensures
            r@ == self.text(),
    {
        match self {
            SandboxError::InvalidContainerId => "Invalid container id".to_owned(),
            SandboxError::InitProcessNotFound =>
                "Process not found: init process missing".to_owned(),
            SandboxError::InvalidExecId => "Process not found: invalid exec id".to_owned(),
        }
    }
}

/// A device behind a storage. A storage whose device is not set up yet has one
/// without a path.
#[derive(Debug)]
pub struct StorageDevice {
    pub path: Option<String>,
}

impl StorageDevice {
    /// An equal value.
    pub fn copy(&self) -> (r: StorageDevice)
        ensures
            r == *self,
    {
        StorageDevice {
            path: match &self.path {
                Some(p) => Some(p.clone()),
                None => None,
            },
        }
    }
}

/// A storage that containers use.
#[derive(Debug)]
pub struct StorageState {
    pub count: u32,
    pub device: StorageDevice,
    /// Whether the storage outlives the containers that use it.
    pub shared: bool,
}

impl StorageState {
    /// A storage with its first user.
    pub fn new(shared: bool) -> (r: StorageState)
        ensures
            r.count == 1,
            r.device.path is None,
            r.shared == shared,
    {
        StorageState { count: 1, device: StorageDevice { path: None }, shared }
    }

    /// The path of the device.
    pub fn path(&self) -> (r: Option<&str>)
        ensures
            match r {
                Some(s) => self.device.path is Some && s@ == self.device.path->0@,
                None => self.device.path is None,
            },
    {
        match &self.device.path {
            Some(p) => Some(p.as_str()),
            None => None,
        }
    }

    /// Whether the storage outlives the containers that use it.
    pub fn is_shared(&self) -> (r: bool)
        ensures
            r == self.shared,
    {
        self.shared
    }

    /// How many containers use the storage.
    pub fn ref_count(&self) -> (r: u32)
        ensures
            r == self.count,
    {
        self.count
    }

    fn copy(&self) -> (r: StorageState)
        ensures
            r == *self,
    {
        StorageState { count: self.count, device: self.device.copy(), shared: self.shared }
    }
}

/// The next number of users; the counter wraps around.
pub open spec fn one_more(n: u32) -> u32 {
    if n == u32::MAX {
        0
    } else {
        (n + 1) as u32
    }
}

/// The previous number of users; the counter wraps around.
pub open spec fn one_less(n: u32) -> u32 {
    if n == 0 {
        u32::MAX
    } else {
        (n - 1) as u32
    }
}

/// What came of giving a storage up.
#[derive(Debug)]
pub enum StorageRemoval {
    /// The storage stays.
    Kept,
    /// The storage is gone, and its device is to be cleaned up.
    Removed(StorageDevice),
}

impl StorageRemoval {
    /// Whether the storage is gone.
    pub fn removed(&self) -> (r: bool)
        ensures
            r == (self is Removed),
    {
        match self {
            StorageRemoval::Kept => false,
            StorageRemoval::Removed(_) => true,
        }
    }
}

/// A storage that is not there.
#[derive(Debug)]
pub struct StorageNotFound {
    pub path: String,
}

impl StorageNotFound {
    /// The text of the error.
    pub fn message(&self) -> (r: String)
        ensures
            r@ == "Sandbox storage with path "@ + self.path@ + " not found"@,
    {
        let mut s = "Sandbox storage with path ".to_owned();
        s.append(self.path.as_str());
        s.append(" not found");
        s
    }
}

/// The first container of a name, in the order in which the containers came.
pub open spec fn by_name(entries: Seq<(String, LinuxContainer)>, name: Seq<char>) -> Option<
    LinuxContainer,
>
    decreases entries.len(),
{
    if entries.len() == 0 {
        None
    } else if entries[0].1.config.container_name@ == name {
        Some(entries[0].1)
    } else {
        by_name(entries.skip(1), name)
    }
}

/// Whether a process has a pid and is one of a container.
pub open spec fn runs(c: LinuxContainer, p: ContainerProcess, pid: i32) -> bool {
    p.pid == pid && exists|k: Seq<char>| #[trigger]
        c.processes@.contains_key(k) && c.processes@[k] == p
}

/// Whether no process of a container has a pid.
pub open spec fn lacks_pid(c: LinuxContainer, pid: i32) -> bool {
    forall|k: Seq<char>| #[trigger] c.processes@.contains_key(k) ==> c.processes@[k].pid != pid
}

/// A process of a container with the given pid.
pub fn process_by_pid(c: &LinuxContainer, pid: i32) -> (r: Option<&ContainerProcess>)
    ensures
        match r {
            Some(p) => runs(*c, *p, pid),
            None => lacks_pid(*c, pid),
        },
{
    let mut i: usize = 0;
    let n: usize = c.processes.len();
    while i < n
        invariant
            i <= n,
            n == c.processes.entries().len(),
            forall|k: int|
                0 <= k < i ==> (#[trigger] c.processes.entries()[k]).1.pid != pid,
        decreases n - i,
    {
        let (_k, p) = c.processes.entry(i);
        if p.pid == pid {
            return Some(p);
        }
        i += 1;
    }
    proof {
        c.processes.lemma_keys();
        assert forall|k: Seq<char>| #[trigger]
            c.processes@.contains_key(k) implies c.processes@[k].pid != pid by {
            let j = c.processes.position(k);
            assert(c.processes.entries()[j].1.pid != pid);
        }
    }
    None
}

/// A sandbox.
#[derive(Debug)]
pub struct Sandbox {
    pub id: String,
    pub hostname: String,
    pub containers: StrMap<LinuxContainer>,
    pub mounts: Vec<String>,
    pub container_mounts: StrMap<Vec<String>>,
    pub shared_utsns: String,
    pub shared_ipcns: String,
    pub sandbox_pidns: Option<String>,
    pub storages: StrMap<StorageState>,
    pub running: bool,
    pub no_pivot_root: bool,
    pub devcg_info: DevicesCgroupInfo,
}

/// The first container has no init process whose pid namespace could be shared.
#[derive(Clone, Copy, Debug, PartialEq, Eq, Structural)]
pub struct NoInitPid;

impl NoInitPid {
    /// The text of the error.
    pub fn message(self) -> (r: String)
        ensures
            r@ == "Failed to setup pid namespace: init container pid is -1"@,
    {
        "Failed to setup pid namespace: init container pid is -1".to_owned()
    }
}

impl Sandbox {
    /// A sandbox before its creation request, on a root filesystem of the given type.
    pub fn new(fs_type: &str) -> (r: Sandbox)
        ensures
            r.id@ == Seq::<char>::empty(),
            r.hostname@ == Seq::<char>::empty(),
            r.containers@ == Map::<Seq<char>, LinuxContainer>::empty(),
            r.mounts@ == Seq::<String>::empty(),
            r.container_mounts@ == Map::<Seq<char>, Vec<String>>::empty(),
            r.shared_utsns@ == Seq::<char>::empty(),
            r.shared_ipcns@ == Seq::<char>::empty(),
            r.sandbox_pidns is None,
            r.storages@ == Map::<Seq<char>, StorageState>::empty(),
            !r.running,
            r.no_pivot_root == (fs_type@ == TYPE_ROOTFS@),
            !r.devcg_info.inited && !r.devcg_info.allowed_all,
    {
        Sandbox {
            id: String::new(),
            hostname: String::new(),
            containers: StrMap::new(),
            mounts: Vec::new(),
            container_mounts: StrMap::new(),
            shared_utsns: String::new(),
            shared_ipcns: String::new(),
            sandbox_pidns: None,
            storages: StrMap::new(),
            running: false,
            no_pivot_root: str_eq(fs_type, TYPE_ROOTFS),
            devcg_info: DevicesCgroupInfo { inited: false, allowed_all: false },
        }
    }

    /// The sandbox with other storages.
    pub open spec fn with_storages(self, storages: StrMap<StorageState>) -> Sandbox {
        Sandbox { storages, ..self }
    }

    /// Takes a storage into use: a new one has its first user, and one that is there
    /// already has one more. The result is the storage as it is now.
    pub fn add_sandbox_storage(&mut self, path: &str, shared: bool) -> (r: StorageState)
        ensures
            final(self).storages@ == after_add(old(self).storages@, path@, r),
            ({
                let before = old(self).storages@;
                &&& final(self).storages@ == before.insert(path@, r)
                &&& if before.contains_key(path@) {
                    r == (StorageState {
                        count: one_more(before[path@].count),
                        ..before[path@]
                    })
                } else {
                    r.count == 1 && r.device.path is None && r.shared == shared
                }
            }),
            *final(self) == old(self).with_storages(final(self).storages),
    {
        let state = match self.storages.get(path) {
            Some(s) => StorageState {
                count: s.count.wrapping_add(1),
                device: s.device.copy(),
                shared: s.shared,
            },
            None => StorageState::new(shared),
        };
        let out = state.copy();
        self.storages.insert(path.to_owned(), state);
        out
    }

    /// Sets the device of a storage, whose users and whose kind stay. The result is the
    /// device that it had, or the new one where there is no such storage.
    pub fn update_sandbox_storage(&mut self, path: &str, device: StorageDevice) -> (r: Result<
        StorageDevice,
        StorageDevice,
    >)
        ensures
            ({
                let before = old(self).storages@;
                match r {
                    Ok(d) => before.contains_key(path@) && d == before[path@].device
                        && final(self).storages@ == before.insert(
                        path@,
                        (StorageState { device, ..before[path@] }),
                    ),
                    Err(d) => !before.contains_key(path@) && d == device && final(self).storages@
                        == before,
                }
            }),
            *final(self) == old(self).with_storages(final(self).storages),
    {
        match self.storages.remove(path) {
            None => {
                proof {
                    assert(self.storages@ =~= old(self).storages@);
                }
                Err(device)
            },
            Some(s) => {
                let state = StorageState { count: s.count, device, shared: s.shared };
                self.storages.insert(path.to_owned(), state);
                proof {
                    assert(self.storages@ =~= old(self).storages@.insert(path@, state));
                }
                Ok(s.device)
            },
        }
    }

    /// Gives a storage up. The last user of a storage that is not shared takes it
    /// along; a shared storage stays, ready for its next user, until the sandbox goes.
    pub fn remove_sandbox_storage(&mut self, path: &str) -> (r: Result<
        StorageRemoval,
        StorageNotFound,
    >)
        ensures
            final(self).storages@ == after_remove(old(self).storages@, path@),
            ({
                let before = old(self).storages@;
                let after = final(self).storages@;
                match r {
                    Err(e) => !before.contains_key(path@) && e.path@ == path@ && after == before,
                    Ok(x) => {
                        &&& before.contains_key(path@)
                        &&& if before[path@].count != 1 {
                            x is Kept && after == before.insert(
                                path@,
                                (StorageState {
                                    count: one_less(before[path@].count),
                                    ..before[path@]
                                }),
                            )
                        } else if before[path@].shared {
                            x is Kept && after == before
                        } else {
                            x == StorageRemoval::Removed(before[path@].device) && after
                                == before.remove(path@)
                        }
                    },
                }
            }),
            *final(self) == old(self).with_storages(final(self).storages),
    {
        match self.storages.remove(path) {
            None => {
                proof {
                    assert(self.storages@ =~= old(self).storages@);
                }
                Err(StorageNotFound { path: path.to_owned() })
            },
            Some(s) => {
                if s.count == 1 {
                    if s.shared {
                        self.storages.insert(path.to_owned(), s);
                        proof {
                            assert(self.storages@ =~= old(self).storages@);
                        }
                        Ok(StorageRemoval::Kept)
                    } else {
                        Ok(StorageRemoval::Removed(s.device))
                    }
                } else {
                    let state = StorageState {
                        count: s.count.wrapping_sub(1),
                        device: s.device,
                        shared: s.shared,
                    };
                    self.storages.insert(path.to_owned(), state);
                    proof {
                        assert(self.storages@ =~= old(self).storages@.insert(path@, state));
                    }
                    Ok(StorageRemoval::Kept)
                }
            },
        }
    }

    /// Takes the pid namespace of the first container for the shared one, unless the
    /// sandbox has one already.
    pub fn update_shared_pidns(&mut self, c: &LinuxContainer) -> (r: Result<(), NoInitPid>)
        ensures
            if old(self).sandbox_pidns is None && old(self).containers@ == Map::<
                Seq<char>,
                LinuxContainer,
            >::empty() {
                if c.init_process_pid == -1 {
                    r is Err && *final(self) == *old(self)
                } else {
                    &&& r is Ok
                    &&& final(self).sandbox_pidns is Some
                    &&& final(self).sandbox_pidns->0@ == "/proc/"@ + signed_decimal(
                        c.init_process_pid as int,
                    ) + "/ns/pid"@
                    &&& *final(self) == (Sandbox {
                        sandbox_pidns: final(self).sandbox_pidns,
                        ..*old(self)
                    })
                }
            } else {
                r is Ok && *final(self) == *old(self)
            },
    {
        if self.sandbox_pidns.is_none() && self.containers.len() == 0 {
            if c.init_process_pid == -1 {
                return Err(NoInitPid);
            }
            let mut path = "/proc/".to_owned();
            push_i64(&mut path, c.init_process_pid as i64);
            path.append("/ns/pid");
            self.sandbox_pidns = Some(path);
        }
        Ok(())
    }

    /// Adds a container under its id.
    pub fn add_container(&mut self, c: LinuxContainer)
        ensures
            final(self).containers@ == old(self).containers@.insert(c.id@, c),
            *final(self) == (Sandbox { containers: final(self).containers, ..*old(self) }),
    {
        let key = c.id.clone();
        self.containers.insert(key, c);
    }

    /// The container with the given id.
    pub fn get_container(&mut self, id: &str) -> (r: Option<&mut LinuxContainer>)
        ensures
            match r {
                Some(c) => old(self).containers@.contains_key(id@) && *c
                    == old(self).containers@[id@] && final(self).containers@
                    == old(self).containers@.insert(id@, *final(c)),
                None => !old(self).containers@.contains_key(id@) && final(self).containers@
                    == old(self).containers@,
            },
            *final(self) == (Sandbox { containers: final(self).containers, ..*old(self) }),
    {
        self.containers.get_mut(id)
    }

    /// The first container of a name.
    pub fn find_container_by_name(&self, name: &str) -> (r: Option<&LinuxContainer>)
        ensures
            match r {
                Some(c) => by_name(self.containers.entries(), name@) == Some(*c),
                None => by_name(self.containers.entries(), name@) is None,
            },
    {
        let ghost all = self.containers.entries();
        let n: usize = self.containers.len();
        let mut i: usize = 0;
        proof {
            assert(all.skip(0) =~= all);
        }
        while i < n
            invariant
                i <= n,
                n == all.len(),
                all == self.containers.entries(),
                by_name(all, name@) == by_name(all.skip(i as int), name@),
            decreases n - i,
        {
            let (_k, c) = self.containers.entry(i);
            proof {
                assert(all.skip(i as int).skip(1) =~= all.skip(i + 1));
                assert(all.skip(i as int)[0] == all[i as int]);
            }
            if str_eq(c.config.container_name.as_str(), name) {
                return Some(c);
            }
            i += 1;
        }
        None
    }

    /// The process with the given pid, of any container.
    pub fn find_process(&self, pid: i32) -> (r: Option<&ContainerProcess>)
        ensures
            match r {
                Some(p) => exists|id: Seq<char>| #[trigger]
                    self.containers@.contains_key(id) && runs(self.containers@[id], *p, pid),
                None => forall|id: Seq<char>| #[trigger]
                    self.containers@.contains_key(id) ==> lacks_pid(self.containers@[id], pid),
            },
    {
        let n: usize = self.containers.len();
        let mut i: usize = 0;
        while i < n
            invariant
                i <= n,
                n == self.containers.entries().len(),
                forall|k: int|
                    0 <= k < i ==> lacks_pid((#[trigger] self.containers.entries()[k]).1, pid),
            decreases n - i,
        {
            let (_k, c) = self.containers.entry(i);
            if let Some(p) = process_by_pid(c, pid) {
                return Some(p);
            }
            i += 1;
        }
        proof {
            self.containers.lemma_keys();
            assert forall|id: Seq<char>| #[trigger]
                self.containers@.contains_key(id) implies lacks_pid(
                self.containers@[id],
                pid,
            ) by {
                let j = self.containers.position(id);
                assert(lacks_pid(self.containers.entries()[j].1, pid));
            }
        }
        None
    }

    /// Whether a process is the one of a container with the given id, or an init process
    /// where the id is empty.
    pub open spec fn is_process(self, cid: Seq<char>, eid: Seq<char>, p: ContainerProcess) -> bool {
        let c = self.containers@[cid];
        self.containers@.contains_key(cid) && if eid.len() == 0 {
            runs(c, p, c.init_process_pid)
        } else {
            c.processes@.contains_key(eid) && p == c.processes@[eid]
        }
    }

    /// Whether there is such a process.
    pub open spec fn has_process(self, cid: Seq<char>, eid: Seq<char>) -> bool {
        let c = self.containers@[cid];
        self.containers@.contains_key(cid) && if eid.len() == 0 {
            !lacks_pid(c, c.init_process_pid)
        } else {
            c.processes@.contains_key(eid)
        }
    }

    /// Why there is no such process.
    pub open spec fn lookup_error(self, cid: Seq<char>, eid: Seq<char>) -> SandboxError {
        if !self.containers@.contains_key(cid) {
            SandboxError::InvalidContainerId
        } else if eid.len() == 0 {
            SandboxError::InitProcessNotFound
        } else {
            SandboxError::InvalidExecId
        }
    }

    /// A process of a container: the one with the given id, or the init process where
    /// the id is empty.
    pub fn find_container_process(&self, cid: &str, eid: &str) -> (r: Result<
        &ContainerProcess,
        SandboxError,
    >)
        ensures
            match r {
                Ok(p) => self.has_process(cid@, eid@) && self.is_process(cid@, eid@, *p),
                Err(e) => !self.has_process(cid@, eid@) && e == self.lookup_error(cid@, eid@),
            },
    {
        let c = match self.containers.get(cid) {
            Some(c) => c,
            None => {
                return Err(SandboxError::InvalidContainerId);
            },
        };
        if eid.is_empty() {
            return match process_by_pid(c, c.init_process_pid) {
                Some(p) => Ok(p),
                None => Err(SandboxError::InitProcessNotFound),
            };
        }
        match c.get_process(eid) {
            Ok(p) => Ok(p),
            Err(_) => Err(SandboxError::InvalidExecId),
        }
    }
}

/// The users of a storage, and none where it is not there.
pub open spec fn users(storages: Map<Seq<char>, StorageState>, path: Seq<char>) -> int {
    if storages.contains_key(path) {
        storages[path].count as int
    } else {
        0
    }
}

/// The storages after one more user of `path`.
pub open spec fn after_add(
    storages: Map<Seq<char>, StorageState>,
    path: Seq<char>,
    fresh: StorageState,
) -> Map<Seq<char>, StorageState> {
    if storages.contains_key(path) {
        storages.insert(
            path,
            StorageState {
                count: one_more(storages[path].count),
                ..storages[path]
            },
        )
    } else {
        storages.insert(path, fresh)
    }
}

/// The storages after one user of `path` less.
pub open spec fn after_remove(storages: Map<Seq<char>, StorageState>, path: Seq<char>) -> Map<
    Seq<char>,
    StorageState,
> {
    if !storages.contains_key(path) {
        storages
    } else if storages[path].count != 1 {
        storages.insert(
            path,
            StorageState {
                count: one_less(storages[path].count),
                ..storages[path]
            },
        )
    } else if storages[path].shared {
        storages
    } else {
        storages.remove(path)
    }
}

/// Giving up what was just taken into use leaves the storages as they were, unless
/// the storage is shared and new: that one stays.
pub proof fn law_remove_undoes_add(
    storages: Map<Seq<char>, StorageState>,
    path: Seq<char>,
    fresh: StorageState,
)
    requires
        fresh.count == 1,
        storages.contains_key(path) ==> 0 < storages[path].count < u32::MAX,
    ensures
        storages.contains_key(path) || !fresh.shared ==> after_remove(
            after_add(storages, path, fresh),
            path,
        ) == storages,
        !storages.contains_key(path) && fresh.shared ==> after_remove(
            after_add(storages, path, fresh),
            path,
        ) == storages.insert(path, fresh),
{
    let added = after_add(storages, path, fresh);
    if storages.contains_key(path) {
        assert(after_remove(added, path) =~= storages);
    } else if !fresh.shared {
        assert(after_remove(added, path) =~= storages);
    }
}

/// A storage that is not shared is gone exactly when its last user gives it up; a
/// shared one is never gone. Other storages are left alone.
pub proof fn law_storage_goes_with_its_last_user(
    storages: Map<Seq<char>, StorageState>,
    path: Seq<char>,
    other: Seq<char>,
)
    requires
        storages.contains_key(path),
        storages[path].count >= 1,
    ensures
        after_remove(storages, path).contains_key(path) <==> (storages[path].shared
            || storages[path].count > 1),
        storages[path].count > 1 ==> users(after_remove(storages, path), path) == users(
            storages,
            path,
        ) - 1,
        storages[path].shared ==> after_remove(storages, path)[path].count >= 1,
        other != path ==> after_remove(storages, path).contains_key(other)
            == storages.contains_key(other) && (storages.contains_key(other) ==> after_remove(
            storages,
            path,
        )[other] == storages[other]),
{
}

} // verus!
