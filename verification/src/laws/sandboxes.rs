//! What a sandbox holds, and how it is found there.
use vstd::prelude::*;

use crate::container::{ContainerProcess, LinuxContainer};
use crate::oci::value_of;
use crate::sandbox::{
    after_add, after_remove, by_name, lacks_pid, one_less, one_more, runs, Sandbox, SandboxError,
    StorageState,
};

verus! {

/// The container of a name is the first that has it.
pub proof fn law_the_first_container_of_a_name_is_found(
    entries: Seq<(String, LinuxContainer)>,
    name: Seq<char>,
    i: int,
)
    requires
        0 <= i <= entries.len(),
        forall|k: int|
            0 <= k < i ==> (#[trigger] entries[k]).1.config.container_name@ != name,
        i < entries.len() ==> entries[i].1.config.container_name@ == name,
    ensures
        by_name(entries, name) == if i < entries.len() {
            Some(entries[i].1)
        } else {
            None
        },
    decreases entries.len(),
{
    if i > 0 {
        let rest = entries.skip(1);
        assert(entries[0].1.config.container_name@ != name);
        assert forall|k: int| 0 <= k < i - 1 implies (
        #[trigger] rest[k]).1.config.container_name@ != name by {
            assert(rest[k] == entries[k + 1]);
        }
        law_the_first_container_of_a_name_is_found(rest, name, i - 1);
    }
}

/// The value of an annotation is that of the first entry of its key.
pub proof fn law_the_first_entry_of_a_key_counts(
    entries: Seq<(String, String)>,
    key: Seq<char>,
    i: int,
)
    requires
        0 <= i <= entries.len(),
        forall|k: int| 0 <= k < i ==> (#[trigger] entries[k]).0@ != key,
        i < entries.len() ==> entries[i].0@ == key,
    ensures
        value_of(entries, key) == if i < entries.len() {
            Some(entries[i].1@)
        } else {
            None
        },
    decreases entries.len(),
{
    if i > 0 {
        let rest = entries.skip(1);
        assert(entries[0].0@ != key);
        assert forall|k: int| 0 <= k < i - 1 implies (#[trigger] rest[k]).0@ != key by {
            assert(rest[k] == entries[k + 1]);
        }
        law_the_first_entry_of_a_key_counts(rest, key, i - 1);
    }
}

/// Which process is found: under an id that is not empty, the one of that id; under an empty
/// one, the one with the pid of the init process. What is missing is told.
pub proof fn law_which_process_is_found(
    s: Sandbox,
    cid: Seq<char>,
    eid: Seq<char>,
    p: ContainerProcess,
    k: Seq<char>,
)
    ensures
        ({
            let there = s.containers@.contains_key(cid);
            let c = s.containers@[cid];
            &&& there && eid.len() > 0 ==> (s.has_process(cid, eid) <==> c.processes@.contains_key(
                eid,
            ))
            &&& there && eid.len() > 0 && c.processes@.contains_key(eid) ==> (s.is_process(
                cid,
                eid,
                p,
            ) <==> p == c.processes@[eid])
            &&& there && eid.len() == 0 && c.processes@.contains_key(k) && c.processes@[k].pid
                == c.init_process_pid ==> s.has_process(cid, eid) && s.is_process(
                cid,
                eid,
                c.processes@[k],
            )
            &&& there && eid.len() == 0 && s.is_process(cid, eid, p) ==> p.pid
                == c.init_process_pid
            &&& !there ==> !s.has_process(cid, eid) && !s.is_process(cid, eid, p)
            &&& s.lookup_error(cid, eid) == if !there {
                SandboxError::InvalidContainerId
            } else if eid.len() == 0 {
                SandboxError::InitProcessNotFound
            } else {
                SandboxError::InvalidExecId
            }
        }),
{
    let c = s.containers@[cid];
    if c.processes@.contains_key(k) && c.processes@[k].pid == c.init_process_pid {
        assert(!lacks_pid(c, c.init_process_pid));
        assert(runs(c, c.processes@[k], c.init_process_pid));
    }
}

/// A new user of a storage makes it one more; a storage that is not there comes as it is
/// given. All else of it stays, and so does every other storage.
pub proof fn law_a_new_user_counts(
    storages: Map<Seq<char>, StorageState>,
    path: Seq<char>,
    fresh: StorageState,
    other: Seq<char>,
)
    ensures
        ({
            let after = after_add(storages, path, fresh);
            &&& after.contains_key(path)
            &&& !storages.contains_key(path) ==> after[path] == fresh
            &&& storages.contains_key(path) && storages[path].count < 0xffff_ffff
                ==> after[path].count == storages[path].count + 1
            &&& storages.contains_key(path) && storages[path].count == 0xffff_ffff
                ==> after[path].count == 0
            &&& storages.contains_key(path) ==> after[path].device == storages[path].device
                && after[path].shared == storages[path].shared
            &&& other != path ==> after.contains_key(other) == storages.contains_key(other)
                && after[other] == storages[other]
        }),
{
}

/// A user that goes makes it one less, and the last one takes the storage along, unless it is
/// shared, which stays as it is.
pub proof fn law_a_user_that_goes_counts(
    storages: Map<Seq<char>, StorageState>,
    path: Seq<char>,
    other: Seq<char>,
)
    ensures
        ({
            let after = after_remove(storages, path);
            let s = storages[path];
            &&& !storages.contains_key(path) ==> after == storages
            &&& storages.contains_key(path) && s.count > 1 ==> after.contains_key(path)
                && after[path].count == s.count - 1 && after[path].device == s.device
                && after[path].shared == s.shared
            &&& storages.contains_key(path) && s.count == 0 ==> after.contains_key(path)
                && after[path].count == 0xffff_ffff && after[path].device == s.device
                && after[path].shared == s.shared
            &&& storages.contains_key(path) && s.count == 1 && s.shared ==> after == storages
            &&& storages.contains_key(path) && s.count == 1 && !s.shared ==> !after.contains_key(
                path,
            )
            &&& other != path ==> after.contains_key(other) == storages.contains_key(other) && (
            storages.contains_key(other) ==> after[other] == storages[other])
        }),
{
}

/// Counting up and down undo each other, over the wrap as well.
pub proof fn law_counts_go_up_and_down(n: u32)
    ensures
        one_less(one_more(n)) == n,
        one_more(one_less(n)) == n,
        (one_more(n) - n - 1) % 0x1_0000_0000 == 0,
{
}

/// A process runs in a container under a pid where it is one of its processes and has that
/// pid; a container lacks a pid where none of them has it.
pub proof fn law_which_processes_run(c: LinuxContainer, p: ContainerProcess, pid: i32, k: Seq<char>)
    ensures
        c.processes@.contains_key(k) && c.processes@[k] == p && p.pid == pid ==> runs(c, p, pid),
        runs(c, p, pid) ==> p.pid == pid && exists|j: Seq<char>| #[trigger]
            c.processes@.contains_key(j) && c.processes@[j] == p,
        lacks_pid(c, pid) && c.processes@.contains_key(k) ==> c.processes@[k].pid != pid,
{
}

} // verus!
