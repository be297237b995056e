//! Small decisions while a process is set up.
use vstd::prelude::*;

use crate::container::{replaced, sysctl_path};
use crate::copy_file::ENOENT;
use crate::path::{join, joined};
use crate::text::{chars_of, fields, split, split_on, string_of, views, Sep};

verus! {

/// Why a working directory is refused.
#[derive(Clone, Copy, Debug, PartialEq, Eq, Structural)]
pub enum CwdError {
    /// It cannot be reached from the root of the container.
    Outside,
    /// It cannot be told, for the reason with this error number.
    Unknown(i32),
}

impl CwdError {
    /// The text of the error. `reason` is the text of the error number.
    pub fn message(self, reason: &str) -> (r: String)
        ensures
            r@ == match self {
                CwdError::Outside =>
                    "current working directory is outside the container mount namespace root"@,
                CwdError::Unknown(_) => "failed to verify current working directory: "@ + reason@,
            },
    {
        match self {
            CwdError::Outside =>
                "current working directory is outside the container mount namespace root".to_owned(),
            CwdError::Unknown(_) => {
                let mut t = "failed to verify current working directory: ".to_owned();
                t.append(reason);
                t
            },
        }
    }
}

/// Judges the working directory by what asking for it came to: the kernel knows no path
/// for one that lies outside of the container.
pub fn verify_cwd(asked: Result<(), i32>) -> (r: Result<(), CwdError>)
    ensures
        r == match asked {
            Ok(_) => Ok::<(), CwdError>(()),
            Err(e) => if e == ENOENT {
                Err(CwdError::Outside)
            } else {
                Err(CwdError::Unknown(e))
            },
        },
{
    match asked {
        Ok(_) => Ok(()),
        Err(e) => {
            if e == ENOENT {
                Err(CwdError::Outside)
            } else {
                Err(CwdError::Unknown(e))
            }
        },
    }
}

/// Tells whether a standard stream is to be given to the user: one that is the null
/// device stays.
pub fn owns_stream(stream_device: u64, null_device: u64) -> (r: bool)
    ensures
        r == (stream_device != null_device),
{
    stream_device != null_device
}

/// A step of a change of user and group.
#[derive(Clone, Copy, Debug, PartialEq, Eq, Structural)]
pub enum IdStep {
    KeepCapabilities(bool),
    SetGroup(u32),
    SetUser(u32),
    /// Restore the effective capabilities.
    ResetEffective,
}

/// The steps of a change of user and group: the group comes first, while it may still be
/// changed, and only a user other than the superuser loses its effective capabilities.
pub open spec fn id_steps(uid: u32, gid: u32) -> Seq<IdStep> {
    seq![IdStep::KeepCapabilities(true), IdStep::SetGroup(gid), IdStep::SetUser(uid)] + (if uid
        != 0 {
        seq![IdStep::ResetEffective]
    } else {
        Seq::empty()
    }) + seq![IdStep::KeepCapabilities(false)]
}

/// Plans a change of user and group.
pub fn setid(uid: u32, gid: u32) -> (r: Vec<IdStep>)
    ensures
        r@ == id_steps(uid, gid),
{
    let mut steps: Vec<IdStep> = Vec::new();
    steps.push(IdStep::KeepCapabilities(true));
    steps.push(IdStep::SetGroup(gid));
    steps.push(IdStep::SetUser(uid));
    if uid != 0 {
        steps.push(IdStep::ResetEffective);
    }
    steps.push(IdStep::KeepCapabilities(false));
    proof {
        assert(steps@ =~= id_steps(uid, gid));
    }
    steps
}

/// The group is changed before the user, and the last step gives up what was kept.
pub proof fn law_group_changes_before_user(uid: u32, gid: u32, i: int, j: int)
    requires
        0 <= i < id_steps(uid, gid).len(),
        0 <= j < id_steps(uid, gid).len(),
        id_steps(uid, gid)[i] is SetGroup,
        id_steps(uid, gid)[j] is SetUser,
    ensures
        i < j,
        id_steps(uid, gid).last() == IdStep::KeepCapabilities(false),
{
}

/// The paths at which a program may be found, in the order of the search path.
pub open spec fn candidates(path: Seq<char>, name: Seq<char>) -> Seq<Seq<char>> {
    split_on(path, Sep::Char(':')).map_values(|dir: Seq<char>| joined(dir, name))
}

/// Lists the paths at which a program may be found; the first one that is a file is it.
pub fn find_file(path: &str, name: &str) -> (r: Vec<String>)
    ensures
        views(r@) == candidates(path@, name@),
{
    let c = chars_of(path);
    let dirs = split(c.as_slice(), Sep::Char(':'));
    let ghost all = split_on(path@, Sep::Char(':'));
    let mut out: Vec<String> = Vec::new();
    let mut i: usize = 0;
    while i < dirs.len()
        invariant
            i <= dirs.len(),
            all == fields(dirs@),
            out@.len() == i,
            forall|k: int| 0 <= k < i ==> (#[trigger] out@[k])@ == joined(all[k], name@),
        decreases dirs.len() - i,
    {
        let dir = string_of(dirs[i].as_slice());
        proof {
            assert(all[i as int] == dirs@[i as int]@);
        }
        out.push(join(dir.as_str(), name));
        i += 1;
    }
    proof {
        assert(all.len() == dirs@.len());
        assert(views(out@) =~= candidates(path@, name@));
    }
    out
}

/// What follows the opening of the file of a kernel parameter.
#[derive(Clone, Copy, Debug, PartialEq, Eq, Structural)]
pub enum SysctlStep {
    /// Write the value.
    Write,
    /// The kernel has no such parameter, and it is passed over.
    Skip,
    Fail,
}

/// Judges the opening of the file of a kernel parameter.
pub fn judge_sysctl(opened: Result<(), i32>) -> (r: SysctlStep)
    ensures
        r == match opened {
            Ok(_) => SysctlStep::Write,
            Err(e) => if e == ENOENT {
                SysctlStep::Skip
            } else {
                SysctlStep::Fail
            },
        },
{
    match opened {
        Ok(_) => SysctlStep::Write,
        Err(e) => {
            if e == ENOENT {
                SysctlStep::Skip
            } else {
                SysctlStep::Fail
            }
        },
    }
}

/// Lists the files of kernel parameters with the values to be written.
pub fn set_sysctls(sysctls: &Vec<(String, String)>) -> (r: Vec<(String, String)>)
    ensures
        r@.len() == sysctls@.len(),
        forall|i: int|
            0 <= i < r@.len() ==> (#[trigger] r@[i]).0@ == "/proc/sys/"@ + replaced(
                sysctls@[i].0@,
                '.',
                '/',
            ) && r@[i].1@ == sysctls@[i].1@,
{
    let mut out: Vec<(String, String)> = Vec::new();
    let mut i: usize = 0;
    while i < sysctls.len()
        invariant
            i <= sysctls.len(),
            out@.len() == i,
            forall|k: int|
                0 <= k < i ==> (#[trigger] out@[k]).0@ == "/proc/sys/"@ + replaced(
                    sysctls@[k].0@,
                    '.',
                    '/',
                ) && out@[k].1@ == sysctls@[k].1@,
        decreases sysctls.len() - i,
    {
        let file = sysctl_path(sysctls[i].0.as_str());
        out.push((file, sysctls[i].1.clone()));
        i += 1;
    }
    out
}

/// The code with which a process ends whose program could not be run: the error number,
/// or -2 where there is none.
pub fn exec_exit_code(errno: Option<i32>) -> (r: i32)
    ensures
        r == match errno {
            Some(e) => e,
            None => -2i32,
        },
{
    match errno {
        Some(e) => e,
        None => -2,
    }
}

} // verus!
