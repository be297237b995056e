//! Watching a cgroup for an out-of-memory kill.
use vstd::prelude::*;

use crate::text::{
    chars_eq, chars_of, fields, int_of, lines, lines_of, parse_i64, split, split_on, Sep,
};

verus! {

/// A value of a flat keyed file that is no number.
#[derive(Clone, Copy, Debug, PartialEq, Eq, Structural)]
pub struct BadValue;

/// What the lines of a flat keyed file say of a key: the number of the first line of
/// two fields that starts with it, and 0 where there is none.
pub open spec fn value_in(lines: Seq<Seq<char>>, key: Seq<char>) -> Result<int, BadValue>
    decreases lines.len(),
{
    if lines.len() == 0 {
        Ok(0)
    } else {
        let f = split_on(lines[0], Sep::Char(' '));
        if f.len() == 2 && f[0] == key {
            match int_of(f[1], i64::MIN as int, i64::MAX as int) {
                Some(n) => Ok(n),
                None => Err(BadValue),
            }
        } else {
            value_in(lines.skip(1), key)
        }
    }
}

/// Reads the value of a key from a flat keyed file.
pub fn get_value_from_cgroup(content: &str, key: &str) -> (r: Result<i64, BadValue>)
    ensures
        match r {
            Ok(n) => value_in(lines_of(content@), key@) == Ok::<int, BadValue>(n as int),
            Err(e) => value_in(lines_of(content@), key@) == Err::<int, BadValue>(e),
        },
{
    let text = chars_of(content);
    let k = chars_of(key);
    let all = lines(text.as_slice());
    let ghost ls = fields(all@);
    let mut i: usize = 0;
    proof {
        assert(ls.skip(0) =~= ls);
    }
    while i < all.len()
        invariant
            i <= all.len(),
            k@ == key@,
            ls == fields(all@),
            ls == lines_of(content@),
            value_in(ls, key@) == value_in(ls.skip(i as int), key@),
        decreases all.len() - i,
    {
        proof {
            assert(ls.skip(i as int).skip(1) =~= ls.skip(i + 1));
            assert(ls.skip(i as int)[0] == all@[i as int]@);
        }
        let f = split(all[i].as_slice(), Sep::Char(' '));
        let ghost fs = split_on(all@[i as int]@, Sep::Char(' '));
        if f.len() == 2 {
            proof {
                assert(fs[0] == f@[0]@);
                assert(fs[1] == f@[1]@);
            }
            if chars_eq(f[0].as_slice(), k.as_slice()) {
                return match parse_i64(f[1].as_slice()) {
                    Some(n) => Ok(n),
                    None => Err(BadValue),
                };
            }
        }
        i += 1;
    }
    Ok(0)
}

/// What changed in a watched cgroup.
#[derive(Clone, Copy, Debug, PartialEq, Eq, Structural)]
pub enum CgroupEvent {
    /// `memory.events`.
    Memory,
    /// `cgroup.events`.
    Cgroup,
    /// Something else.
    Other,
}

/// What a watch does next.
#[derive(Clone, Copy, Debug, PartialEq, Eq, Structural)]
pub enum WatchStep {
    /// Tell of an out-of-memory kill and end.
    NotifyAndStop,
    /// End.
    Stop,
    /// Wait for the next change.
    Wait,
}

/// The number that a file gives for a key, or a default where the file could not be
/// read or holds no number there.
pub open spec fn value_or(content: Option<Seq<char>>, key: Seq<char>, default: int) -> int {
    match content {
        Some(c) => match value_in(lines_of(c), key) {
            Ok(n) => n,
            Err(_) => default,
        },
        None => default,
    }
}

/// What a watch does after a change: it tells of the first out-of-memory kill, and
/// ends when the last process is gone or the cgroup is.
pub open spec fn watched(event: CgroupEvent, content: Option<Seq<char>>, exists: bool) -> WatchStep {
    if event == CgroupEvent::Memory && value_or(content, "oom_kill"@, 0) > 0 {
        WatchStep::NotifyAndStop
    } else if event == CgroupEvent::Cgroup && value_or(content, "populated"@, -1) == 0 {
        WatchStep::Stop
    } else if !exists {
        WatchStep::Stop
    } else {
        WatchStep::Wait
    }
}

/// Decides what a watch does after a change. `content` is the file that changed, where
/// it could be read, and `exists` tells whether `memory.events` is still there.
pub fn notify_oom(event: CgroupEvent, content: &Option<String>, exists: bool) -> (r: WatchStep)
    ensures
        r == watched(
            event,
            match content {
                Some(c) => Some(c@),
                None => None,
            },
            exists,
        ),
{
    match event {
        CgroupEvent::Memory => {
            let kills: i64 = match content {
                Some(c) => match get_value_from_cgroup(c.as_str(), "oom_kill") {
                    Ok(n) => n,
                    Err(_) => 0,
                },
                None => 0,
            };
            if kills > 0 {
                return WatchStep::NotifyAndStop;
            }
        },
        CgroupEvent::Cgroup => {
            let populated: i64 = match content {
                Some(c) => match get_value_from_cgroup(c.as_str(), "populated") {
                    Ok(n) => n,
                    Err(_) => -1,
                },
                None => -1,
            };
            if populated == 0 {
                return WatchStep::Stop;
            }
        },
        CgroupEvent::Other => {},
    }
    if !exists {
        return WatchStep::Stop;
    }
    WatchStep::Wait
}

} // verus!
