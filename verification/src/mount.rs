//! Mounts: options, the table of mounts, and the making of mount points.
use vstd::prelude::*;

use crate::oci::OciMount;
use crate::path::{parent, parent_of};
use crate::text::{
    chars_of, decimal, fields, push_u64, split, split_on, str_eq, string_of, views, Sep,
};

verus! {

/// The table of mounts of a process.
pub const PROC_MOUNTS_FILE: &'static str = "/proc/mounts";

/// The fields of a line of the table.
pub const PROC_FIELDS_PER_LINE: usize = 6;

/// The permissions of directories that are made for a mount point.
pub const MOUNT_DIR_PERM: u32 = 0o755;

/// The permissions of files that are made for a mount point.
pub const MOUNT_FILE_PERM: u32 = 0o644;

pub const MS_RDONLY: u64 = 1;

pub const MS_NOSUID: u64 = 2;

pub const MS_NODEV: u64 = 4;

pub const MS_NOEXEC: u64 = 8;

pub const MS_SYNCHRONOUS: u64 = 16;

pub const MS_REMOUNT: u64 = 32;

pub const MS_MANDLOCK: u64 = 64;

pub const MS_DIRSYNC: u64 = 128;

pub const MS_NOATIME: u64 = 1024;

pub const MS_NODIRATIME: u64 = 2048;

pub const MS_BIND: u64 = 4096;

pub const MS_REC: u64 = 16384;

pub const MS_SILENT: u64 = 32768;

pub const MS_UNBINDABLE: u64 = 0x2_0000;

pub const MS_PRIVATE: u64 = 0x4_0000;

pub const MS_SLAVE: u64 = 0x8_0000;

pub const MS_SHARED: u64 = 0x10_0000;

pub const MS_RELATIME: u64 = 0x20_0000;

pub const MS_I_VERSION: u64 = 0x80_0000;

pub const MS_STRICTATIME: u64 = 0x100_0000;

/// Why a mount is refused or failed.
#[derive(Debug)]
pub enum MountError {
    /// A bind mount of a source at a destination failed, with an error number.
    BindMount(String, String, i32),
    /// Input or output failed.
    Io,
    /// A line of the table of mounts has another number of fields than it must have.
    InvalidMountEntry(usize, usize, String),
    InvalidMountOption(String),
    InvalidPath(String),
    /// A mount at a destination failed, with an error number.
    Mount(String, i32),
    MountOptionTooBig,
    NullMountPointPath,
    InvalidPgMountFlag,
    /// A remount failed, with an error number.
    Remount(String, i32),
    NoMountEntry(String),
}

/// A `MountError` over sequences.
pub enum MountFault {
    BindMount(Seq<char>, Seq<char>, i32),
    Io,
    InvalidMountEntry(usize, usize, Seq<char>),
    InvalidMountOption(Seq<char>),
    InvalidPath(Seq<char>),
    Mount(Seq<char>, i32),
    MountOptionTooBig,
    NullMountPointPath,
    InvalidPgMountFlag,
    Remount(Seq<char>, i32),
    NoMountEntry(Seq<char>),
}

impl View for MountError {
    type V = MountFault;

    open spec fn view(&self) -> MountFault {
        match *self {
            MountError::BindMount(a, b, e) => MountFault::BindMount(a@, b@, e),
            MountError::Io => MountFault::Io,
            MountError::InvalidMountEntry(a, b, s) => MountFault::InvalidMountEntry(a, b, s@),
            MountError::InvalidMountOption(s) => MountFault::InvalidMountOption(s@),
            MountError::InvalidPath(s) => MountFault::InvalidPath(s@),
            MountError::Mount(s, e) => MountFault::Mount(s@, e),
            MountError::MountOptionTooBig => MountFault::MountOptionTooBig,
            MountError::NullMountPointPath => MountFault::NullMountPointPath,
            MountError::InvalidPgMountFlag => MountFault::InvalidPgMountFlag,
            MountError::Remount(s, e) => MountFault::Remount(s@, e),
            MountError::NoMountEntry(s) => MountFault::NoMountEntry(s@),
        }
    }
}

impl MountFault {
    /// The text of the error. `reason` is the text of the error that caused it, where
    /// there is one.
    pub open spec fn text(self, reason: Seq<char>) -> Seq<char> {
        match self {
            MountFault::BindMount(a, b, _) => "Can not bind mount "@ + a + " to "@ + b + ": "@
                + reason,
            MountFault::Io => reason,
            MountFault::InvalidMountEntry(a, b, s) =>
                "Invalid mountpoint entry (expected "@ + decimal(a as nat) + " fields, got "@
                + decimal(b as nat) + ") fields: "@ + s,
            MountFault::InvalidMountOption(s) => "Invalid mount option: "@ + s,
            MountFault::InvalidPath(s) => "Invalid path: "@ + s,
            MountFault::Mount(s, _) => "Can not mount  to "@ + s + ": "@ + reason,
            MountFault::MountOptionTooBig => "Mount option exceeds 4K size"@,
            MountFault::NullMountPointPath => "Path for mountpoint is null"@,
            MountFault::InvalidPgMountFlag => "Invalid Propagation type Flag"@,
            MountFault::Remount(s, _) => "Can not remount "@ + s + ": "@ + reason,
            MountFault::NoMountEntry(s) => "Can not find mountpoint for "@ + s,
        }
    }
}

impl MountError {
    /// The text of the error. `reason` is the text of the error that caused it, where
    /// there is one.
    pub fn message(&self, reason: &str) -> (r: String)
        ensures
            r@ == self@.text(reason@),
    {
        let mut t = String::new();
        match self {
            MountError::BindMount(a, b, _) => {
                t = "Can not bind mount ".to_owned();
                t.append(a.as_str());
                t.append(" to ");
                t.append(b.as_str());
                t.append(": ");
                t.append(reason);
            },
            MountError::Io => {
                t = reason.to_owned();
            },
            MountError::InvalidMountEntry(a, b, s) => {
                t = "Invalid mountpoint entry (expected ".to_owned();
                push_u64(&mut t, *a as u64);
                t.append(" fields, got ");
                push_u64(&mut t, *b as u64);
                t.append(") fields: ");
                t.append(s.as_str());
            },
            MountError::InvalidMountOption(s) => {
                t = "Invalid mount option: ".to_owned();
                t.append(s.as_str());
            },
            MountError::InvalidPath(s) => {
                t = "Invalid path: ".to_owned();
                t.append(s.as_str());
            },
            MountError::Mount(s, _) => {
                t = "Can not mount  to ".to_owned();
                t.append(s.as_str());
                t.append(": ");
                t.append(reason);
            },
            MountError::MountOptionTooBig => {
                t = "Mount option exceeds 4K size".to_owned();
            },
            MountError::NullMountPointPath => {
                t = "Path for mountpoint is null".to_owned();
            },
            MountError::InvalidPgMountFlag => {
                t = "Invalid Propagation type Flag".to_owned();
            },
            MountError::Remount(s, _) => {
                t = "Can not remount ".to_owned();
                t.append(s.as_str());
                t.append(": ");
                t.append(reason);
            },
            MountError::NoMountEntry(s) => {
                t = "Can not find mountpoint for ".to_owned();
                t.append(s.as_str());
            },
        }
        t
    }
}

/// What is known of a mount.
#[derive(Debug)]
pub struct LinuxMountInfo {
    pub fs_type: String,
}

/// What the lines of the table of mounts say of a mount point: the type of the first
/// mount there. A line without the right number of fields in front of it is an error.
pub open spec fn mount_type_in(lines: Seq<Seq<char>>, point: Seq<char>, cut: bool) -> Result<
    Seq<char>,
    MountFault,
>
    decreases lines.len(),
{
    if lines.len() == 0 {
        if cut {
            Err(MountFault::Io)
        } else {
            Err(MountFault::NoMountEntry(point))
        }
    } else {
        let parts = split_on(lines[0], Sep::Char(' '));
        if parts.len() != PROC_FIELDS_PER_LINE {
            Err(
                MountFault::InvalidMountEntry(
                    PROC_FIELDS_PER_LINE,
                    parts.len() as usize,
                    lines[0],
                ),
            )
        } else if parts[1] == point {
            Ok(parts[2])
        } else {
            mount_type_in(lines.skip(1), point, cut)
        }
    }
}

/// Finds the type of the filesystem at a mount point in the lines of the table of mounts.
/// `cut` tells that the reading of the table failed behind these lines.
pub fn get_linux_mount_info(lines: &Vec<String>, mount_point: &str, cut: bool) -> (r: Result<
    LinuxMountInfo,
    MountError,
>)
    ensures
        match r {
            Ok(info) => mount_type_in(views(lines@), mount_point@, cut) == Ok::<
                Seq<char>,
                MountFault,
            >(info.fs_type@),
            Err(e) => mount_type_in(views(lines@), mount_point@, cut) == Err::<
                Seq<char>,
                MountFault,
            >(e@),
        },
{
    let ghost all = views(lines@);
    let mut i: usize = 0;
    proof {
        assert(all.skip(0) =~= all);
    }
    while i < lines.len()
        invariant
            i <= lines.len(),
            all == views(lines@),
            mount_type_in(all, mount_point@, cut) == mount_type_in(
                all.skip(i as int),
                mount_point@,
                cut,
            ),
        decreases lines.len() - i,
    {
        let line = lines[i].as_str();
        let c = chars_of(line);
        let parts = split(c.as_slice(), Sep::Char(' '));
        let ghost pieces = split_on(line@, Sep::Char(' '));
        proof {
            assert(all.skip(i as int)[0] == lines@[i as int]@);
            assert(all.skip(i as int).skip(1) =~= all.skip(i + 1));
            assert(pieces == fields(parts@));
            assert(pieces.len() == parts@.len());
        }
        if parts.len() != PROC_FIELDS_PER_LINE {
            return Err(
                MountError::InvalidMountEntry(PROC_FIELDS_PER_LINE, parts.len(), lines[i].clone()),
            );
        }
        proof {
            assert(pieces[1] == parts@[1]@);
            assert(pieces[2] == parts@[2]@);
        }
        let at = string_of(parts[1].as_slice());
        if str_eq(at.as_str(), mount_point) {
            return Ok(LinuxMountInfo { fs_type: string_of(parts[2].as_slice()) });
        }
        i += 1;
    }
    proof {
        assert(all.skip(all.len() as int).len() == 0);
    }
    if cut {
        return Err(MountError::Io);
    }
    Err(MountError::NoMountEntry(mount_point.to_owned()))
}

/// What an option does to the flags: the bits that it clears and the bits that it sets.
pub struct FlagChange {
    pub clear: u64,
    pub set: u64,
}

/// An option that clears bits.
pub open spec fn clears(bits: u64) -> Option<FlagChange> {
    Some(FlagChange { clear: bits, set: 0 })
}

/// An option that sets bits.
pub open spec fn sets(bits: u64) -> Option<FlagChange> {
    Some(FlagChange { clear: 0, set: bits })
}

/// The table of options that stand for flags.
pub open spec fn flag_change(opt: Seq<char>) -> Option<FlagChange> {
    if opt == "defaults"@ {
        clears(0)
    } else if opt == "async"@ {
        clears(MS_SYNCHRONOUS)
    } else if opt == "atime"@ {
        clears(MS_NOATIME)
    } else if opt == "dev"@ {
        clears(MS_NODEV)
    } else if opt == "diratime"@ {
        clears(MS_NODIRATIME)
    } else if opt == "exec"@ {
        clears(MS_NOEXEC)
    } else if opt == "loud"@ {
        clears(MS_SILENT)
    } else if opt == "noiversion"@ {
        clears(MS_I_VERSION)
    } else if opt == "nomand"@ {
        clears(MS_MANDLOCK)
    } else if opt == "norelatime"@ {
        clears(MS_RELATIME)
    } else if opt == "nostrictatime"@ {
        clears(MS_STRICTATIME)
    } else if opt == "rw"@ {
        clears(MS_RDONLY)
    } else if opt == "suid"@ {
        clears(MS_NOSUID)
    } else {
        set_change(opt)
    }
}

/// The table of options that set flags.
pub open spec fn set_change(opt: Seq<char>) -> Option<FlagChange> {
    if opt == "bind"@ {
        sets(MS_BIND)
    } else if opt == "dirsync"@ {
        sets(MS_DIRSYNC)
    } else if opt == "iversion"@ {
        sets(MS_I_VERSION)
    } else if opt == "mand"@ {
        sets(MS_MANDLOCK)
    } else if opt == "noatime"@ {
        sets(MS_NOATIME)
    } else if opt == "nodev"@ {
        sets(MS_NODEV)
    } else if opt == "nodiratime"@ {
        sets(MS_NODIRATIME)
    } else if opt == "noexec"@ {
        sets(MS_NOEXEC)
    } else if opt == "nosuid"@ {
        sets(MS_NOSUID)
    } else if opt == "rbind"@ {
        sets(MS_BIND | MS_REC)
    } else if opt == "unbindable"@ {
        sets(MS_UNBINDABLE)
    } else if opt == "runbindable"@ {
        sets(MS_UNBINDABLE | MS_REC)
    } else if opt == "private"@ {
        sets(MS_PRIVATE)
    } else if opt == "rprivate"@ {
        sets(MS_PRIVATE | MS_REC)
    } else if opt == "shared"@ {
        sets(MS_SHARED)
    } else if opt == "rshared"@ {
        sets(MS_SHARED | MS_REC)
    } else if opt == "slave"@ {
        sets(MS_SLAVE)
    } else if opt == "rslave"@ {
        sets(MS_SLAVE | MS_REC)
    } else if opt == "relatime"@ {
        sets(MS_RELATIME)
    } else if opt == "remount"@ {
        sets(MS_REMOUNT)
    } else if opt == "ro"@ {
        sets(MS_RDONLY)
    } else if opt == "silent"@ {
        sets(MS_SILENT)
    } else if opt == "strictatime"@ {
        sets(MS_STRICTATIME)
    } else if opt == "sync"@ {
        sets(MS_SYNCHRONOUS)
    } else {
        None
    }
}

/// Flags after a change.
pub open spec fn changed(flags: u64, c: FlagChange) -> u64 {
    (flags & !c.clear) | c.set
}

fn change_for(opt: &str) -> (r: Option<FlagChange>)
    ensures
        r == flag_change(opt@),
{
    if str_eq(opt, "defaults") {
        Some(FlagChange { clear: 0, set: 0 })
    } else if str_eq(opt, "async") {
        Some(FlagChange { clear: MS_SYNCHRONOUS, set: 0 })
    } else if str_eq(opt, "atime") {
        Some(FlagChange { clear: MS_NOATIME, set: 0 })
    } else if str_eq(opt, "dev") {
        Some(FlagChange { clear: MS_NODEV, set: 0 })
    } else if str_eq(opt, "diratime") {
        Some(FlagChange { clear: MS_NODIRATIME, set: 0 })
    } else if str_eq(opt, "exec") {
        Some(FlagChange { clear: MS_NOEXEC, set: 0 })
    } else if str_eq(opt, "loud") {
        Some(FlagChange { clear: MS_SILENT, set: 0 })
    } else if str_eq(opt, "noiversion") {
        Some(FlagChange { clear: MS_I_VERSION, set: 0 })
    } else if str_eq(opt, "nomand") {
        Some(FlagChange { clear: MS_MANDLOCK, set: 0 })
    } else if str_eq(opt, "norelatime") {
        Some(FlagChange { clear: MS_RELATIME, set: 0 })
    } else if str_eq(opt, "nostrictatime") {
        Some(FlagChange { clear: MS_STRICTATIME, set: 0 })
    } else if str_eq(opt, "rw") {
        Some(FlagChange { clear: MS_RDONLY, set: 0 })
    } else if str_eq(opt, "suid") {
        Some(FlagChange { clear: MS_NOSUID, set: 0 })
    } else {
        set_for(opt)
    }
}

fn set_for(opt: &str) -> (r: Option<FlagChange>)
    ensures
        r == set_change(opt@),
{
    let set: u64 = if str_eq(opt, "bind") {
        MS_BIND
    } else if str_eq(opt, "dirsync") {
        MS_DIRSYNC
    } else if str_eq(opt, "iversion") {
        MS_I_VERSION
    } else if str_eq(opt, "mand") {
        MS_MANDLOCK
    } else if str_eq(opt, "noatime") {
        MS_NOATIME
    } else if str_eq(opt, "nodev") {
        MS_NODEV
    } else if str_eq(opt, "nodiratime") {
        MS_NODIRATIME
    } else if str_eq(opt, "noexec") {
        MS_NOEXEC
    } else if str_eq(opt, "nosuid") {
        MS_NOSUID
    } else if str_eq(opt, "rbind") {
        MS_BIND | MS_REC
    } else if str_eq(opt, "unbindable") {
        MS_UNBINDABLE
    } else if str_eq(opt, "runbindable") {
        MS_UNBINDABLE | MS_REC
    } else if str_eq(opt, "private") {
        MS_PRIVATE
    } else if str_eq(opt, "rprivate") {
        MS_PRIVATE | MS_REC
    } else if str_eq(opt, "shared") {
        MS_SHARED
    } else if str_eq(opt, "rshared") {
        MS_SHARED | MS_REC
    } else if str_eq(opt, "slave") {
        MS_SLAVE
    } else if str_eq(opt, "rslave") {
        MS_SLAVE | MS_REC
    } else if str_eq(opt, "relatime") {
        MS_RELATIME
    } else if str_eq(opt, "remount") {
        MS_REMOUNT
    } else if str_eq(opt, "ro") {
        MS_RDONLY
    } else if str_eq(opt, "silent") {
        MS_SILENT
    } else if str_eq(opt, "strictatime") {
        MS_STRICTATIME
    } else if str_eq(opt, "sync") {
        MS_SYNCHRONOUS
    } else {
        return None;
    };
    Some(FlagChange { clear: 0, set })
}

/// Applies one option to flags. An option that stands for no flag gives nothing.
pub fn parse_mount_flags(flags: u64, flag_str: &str) -> (r: Option<u64>)
    ensures
        r == match flag_change(flag_str@) {
            Some(c) => Some(changed(flags, c)),
            None => None,
        },
{
    match change_for(flag_str) {
        Some(c) => Some((flags & !c.clear) | c.set),
        None => None,
    }
}

/// What options come to: flags, and the options that stand for none.
pub struct ParsedOptions {
    pub flags: u64,
    pub data: Seq<Seq<char>>,
}

/// What options come to, in order. A loop device cannot be asked for.
pub open spec fn options_parsed(options: Seq<Seq<char>>) -> Option<ParsedOptions>
    decreases options.len(),
{
    if options.len() == 0 {
        Some(ParsedOptions { flags: 0, data: Seq::empty() })
    } else {
        match options_parsed(options.drop_last()) {
            None => None,
            Some(p) => if options.last() == "loop"@ {
                None
            } else {
                match flag_change(options.last()) {
                    Some(c) => Some(ParsedOptions { flags: changed(p.flags, c), ..p }),
                    None => Some(ParsedOptions { data: p.data.push(options.last()), ..p }),
                }
            },
        }
    }
}

/// Texts with commas between them.
pub open spec fn comma_joined(parts: Seq<Seq<char>>) -> Seq<char>
    decreases parts.len(),
{
    if parts.len() == 0 {
        Seq::empty()
    } else if parts.len() == 1 {
        parts[0]
    } else {
        comma_joined(parts.drop_last()).push(',') + parts.last()
    }
}

/// The bytes of a text in UTF-8.
pub open spec fn byte_len(s: Seq<char>) -> nat {
    vstd::utf8::encode_utf8(s).len()
}

proof fn lemma_failure_stays(options: Seq<Seq<char>>, n: int)
    requires
        0 <= n <= options.len(),
        options_parsed(options.take(n)) is None,
    ensures
        options_parsed(options) is None,
    decreases options.len(),
{
    if n < options.len() {
        assert(options.drop_last().take(n) =~= options.take(n));
        lemma_failure_stays(options.drop_last(), n);
    } else {
        assert(options.take(n) =~= options);
    }
}

/// Parses the options of a mount into flags and data. The data may not be longer than
/// the given size, which is that of a page.
pub fn parse_mount_options(options: &Vec<String>, max_size: usize) -> (r: Result<
    (u64, String),
    MountError,
>)
    ensures
        match options_parsed(views(options@)) {
            None => r matches Err(e) && e@ == MountFault::InvalidMountOption("loop"@),
            Some(p) => if byte_len(comma_joined(p.data)) > max_size {
                r matches Err(e) && e@ == MountFault::MountOptionTooBig
            } else {
                r matches Ok(x) && x.0 == p.flags && x.1@ == comma_joined(p.data)
            },
        },
{
    let ghost all = views(options@);
    let mut flags: u64 = 0;
    let mut data = String::new();
    let mut count: usize = 0;
    let mut i: usize = 0;
    let ghost mut rest: Seq<Seq<char>> = Seq::empty();
    proof {
        assert(all.take(0) =~= Seq::<Seq<char>>::empty());
        assert(data@ =~= comma_joined(rest));
    }
    while i < options.len()
        invariant
            i <= options.len(),
            all == views(options@),
            count == rest.len(),
            count <= i,
            data@ == comma_joined(rest),
            options_parsed(all.take(i as int)) == Some(ParsedOptions { flags, data: rest }),
        decreases options.len() - i,
    {
        let opt = options[i].as_str();
        proof {
            assert(all.take(i + 1).drop_last() =~= all.take(i as int));
            assert(all.take(i + 1).last() == opt@);
        }
        if str_eq(opt, "loop") {
            proof {
                lemma_failure_stays(all, i + 1);
            }
            return Err(MountError::InvalidMountOption("loop".to_owned()));
        }
        match parse_mount_flags(flags, opt) {
            Some(n) => {
                flags = n;
            },
            None => {
                if count > 0 {
                    data.push(',');
                }
                data.append(opt);
                proof {
                    let longer = rest.push(opt@);
                    assert(longer.drop_last() =~= rest);
                    if count == 0 {
                        assert(data@ =~= opt@);
                    }
                    assert(data@ =~= comma_joined(longer));
                    rest = longer;
                }
                count += 1;
            },
        }
        i += 1;
    }
    proof {
        assert(all.take(all.len() as int) =~= all);
    }
    let bytes: usize = data.as_str().as_bytes().len();
    if bytes > max_size {
        return Err(MountError::MountOptionTooBig);
    }
    Ok((flags, data))
}

proof fn lemma_one_more(options: Seq<Seq<char>>, opt: Seq<char>, before: ParsedOptions)
    requires
        options_parsed(options) == Some(before),
        opt != "loop"@,
        flag_change(opt) is Some,
    ensures
        options_parsed(options.push(opt)) == Some(
            ParsedOptions { flags: changed(before.flags, flag_change(opt)->0), ..before },
        ),
{
    assert(options.push(opt).drop_last() =~= options);
    assert(options.push(opt).last() == opt);
}

/// A later option wins over an earlier one of the same flag: options that set and clear
/// the same bits leave them as the last of them says.
pub proof fn law_last_option_wins(
    options: Seq<Seq<char>>,
    before: ParsedOptions,
    set: Seq<char>,
    clear: Seq<char>,
)
    requires
        options_parsed(options) == Some(before),
        flag_change(set) is Some && flag_change(set)->0.clear == 0,
        flag_change(clear) is Some && flag_change(clear)->0.set == 0,
        flag_change(set)->0.set == flag_change(clear)->0.clear,
        set != "loop"@ && clear != "loop"@,
    ensures
        options_parsed(options.push(clear).push(set)) is Some,
        options_parsed(options.push(set).push(clear)) is Some,
        options_parsed(options.push(clear).push(set))->0.flags & flag_change(set)->0.set
            == flag_change(set)->0.set,
        options_parsed(options.push(set).push(clear))->0.flags & flag_change(set)->0.set == 0,
{
    let bits = flag_change(set)->0.set;
    let flags = before.flags;
    let c = flag_change(clear)->0;
    let d = flag_change(set)->0;
    lemma_one_more(options, clear, before);
    lemma_one_more(options, set, before);
    lemma_one_more(
        options.push(clear),
        set,
        ParsedOptions { flags: changed(flags, c), ..before },
    );
    lemma_one_more(
        options.push(set),
        clear,
        ParsedOptions { flags: changed(flags, d), ..before },
    );
    assert(((((flags & !bits) | 0) & !0u64) | bits) & bits == bits) by (bit_vector);
    assert(((((flags & !0u64) | bits) & !bits) | 0) & bits == 0) by (bit_vector);
}

/// The path of a mount, and none where it has none.
pub fn get_mount_path(p: &Option<String>) -> (r: String)
    ensures
        r@ == match p {
            Some(s) => s@,
            None => Seq::empty(),
        },
{
    match p {
        Some(s) => s.clone(),
        None => String::new(),
    }
}

/// The options of a mount.
pub fn get_mount_options(options: &Option<Vec<String>>) -> (r: Vec<String>)
    ensures
        views(r@) == match options {
            Some(v) => views(v@),
            None => Seq::empty(),
        },
{
    let mut out: Vec<String> = Vec::new();
    if let Some(v) = options {
        let mut i: usize = 0;
        while i < v.len()
            invariant
                i <= v.len(),
                out@.len() == i,
                forall|k: int| 0 <= k < i ==> (#[trigger] out@[k])@ == v@[k]@,
            decreases v.len() - i,
        {
            out.push(v[i].clone());
            i += 1;
        }
        proof {
            assert(views(out@) =~= views(v@));
        }
    } else {
        proof {
            assert(views(out@) =~= Seq::<Seq<char>>::empty());
        }
    }
    out
}

/// Whether an option asks for a bind mount.
pub open spec fn some_bind(options: Seq<String>) -> bool {
    exists|i: int|
        0 <= i < options.len() && ((#[trigger] options[i])@ == "bind"@ || options[i]@ == "rbind"@)
}

/// Whether there are options and one asks for a bind mount.
pub open spec fn asks_for_bind(options: Option<Vec<String>>) -> bool {
    match options {
        Some(v) => some_bind(v@),
        None => false,
    }
}

/// The type of a mount: one without a type is a bind mount, and so is one of no type with
/// an option that asks for it.
pub open spec fn mount_type(m: OciMount) -> Seq<char> {
    match m.typ {
        None => "bind"@,
        Some(t) => if t@ == "none"@ && asks_for_bind(m.options) {
            "bind"@
        } else {
            t@
        },
    }
}

/// Tells the type of a mount.
pub fn get_mount_type(m: &OciMount) -> (r: String)
    ensures
        r@ == mount_type(*m),
{
    let typ = match &m.typ {
        None => {
            return "bind".to_owned();
        },
        Some(t) => t,
    };
    if str_eq(typ.as_str(), "none") {
        if let Some(opts) = &m.options {
            let mut i: usize = 0;
            while i < opts.len()
                invariant
                    i <= opts.len(),
                    m.options == Some(*opts),
                    m.typ == Some(*typ),
                    typ@ == "none"@,
                    forall|k: int|
                        0 <= k < i ==> (#[trigger] opts@[k])@ != "bind"@ && opts@[k]@ != "rbind"@,
                decreases opts.len() - i,
            {
                if str_eq(opts[i].as_str(), "bind") || str_eq(opts[i].as_str(), "rbind") {
                    proof {
                        assert(some_bind(opts@));
                    }
                    return "bind".to_owned();
                }
                i += 1;
            }
        }
    }
    typ.clone()
}

/// How a step of making a mount point failed.
#[derive(Clone, Copy, Debug, PartialEq, Eq, Structural)]
pub enum MakeFailure {
    /// There is something already.
    AlreadyExists,
    /// The filesystem cannot make directories.
    NotImplemented,
    Other,
}

/// What is done next to make a mount point.
#[derive(Clone, Copy, Debug, PartialEq, Eq, Structural)]
pub enum DestinationStep {
    /// Make the parent directory and those above it.
    MakeParent,
    /// Ask whether the parent directory is there.
    AskParent,
    /// Ask whether the source is a directory.
    AskSource,
    /// Make a file.
    MakeFile,
    /// Make a directory and those above it.
    MakeDirectory,
    /// Ask whether the mount point is a directory.
    AskDirectory,
}

/// What came of a step.
#[derive(Clone, Copy, Debug, PartialEq, Eq, Structural)]
pub enum DestinationEvent {
    Done,
    Failed(MakeFailure),
    Answer(bool),
}

/// Where the making of a mount point stands.
#[derive(Clone, Copy, Debug, PartialEq, Eq, Structural)]
pub enum DestinationState {
    Due(DestinationStep),
    Ready,
    /// The failure of the step that failed.
    IoFailed,
    /// The mount point is no directory.
    NotDirectory,
}

/// The step behind the parent directory: the mount point of a bind mount is of the same
/// kind as its source.
pub open spec fn behind_parent(bind: bool) -> DestinationState {
    if bind {
        DestinationState::Due(DestinationStep::AskSource)
    } else {
        DestinationState::Due(DestinationStep::MakeDirectory)
    }
}

/// What follows a step. A directory that cannot be made is good where it is there.
pub open spec fn destination_after(
    step: DestinationStep,
    event: DestinationEvent,
    bind: bool,
) -> DestinationState {
    match step {
        DestinationStep::MakeParent => match event {
            DestinationEvent::Failed(f) => if f == MakeFailure::Other {
                DestinationState::IoFailed
            } else {
                DestinationState::Due(DestinationStep::AskParent)
            },
            _ => behind_parent(bind),
        },
        DestinationStep::AskParent => if event == DestinationEvent::Answer(true) {
            behind_parent(bind)
        } else {
            DestinationState::IoFailed
        },
        DestinationStep::AskSource => if event == DestinationEvent::Answer(true) {
            DestinationState::Due(DestinationStep::MakeDirectory)
        } else {
            DestinationState::Due(DestinationStep::MakeFile)
        },
        DestinationStep::MakeFile => if event is Failed {
            DestinationState::IoFailed
        } else {
            DestinationState::Ready
        },
        DestinationStep::MakeDirectory => if event == DestinationEvent::Failed(
            MakeFailure::Other,
        ) {
            DestinationState::IoFailed
        } else {
            DestinationState::Due(DestinationStep::AskDirectory)
        },
        DestinationStep::AskDirectory => if event == DestinationEvent::Answer(true) {
            DestinationState::Ready
        } else {
            DestinationState::NotDirectory
        },
    }
}

/// Tells what follows a step of making a mount point.
pub fn next_destination_step(step: DestinationStep, event: DestinationEvent, bind: bool) -> (r:
    DestinationState)
    ensures
        r == destination_after(step, event, bind),
{
    let behind = if bind {
        DestinationState::Due(DestinationStep::AskSource)
    } else {
        DestinationState::Due(DestinationStep::MakeDirectory)
    };
    let yes = event == DestinationEvent::Answer(true);
    match step {
        DestinationStep::MakeParent => match event {
            DestinationEvent::Failed(f) => {
                if f == MakeFailure::Other {
                    DestinationState::IoFailed
                } else {
                    DestinationState::Due(DestinationStep::AskParent)
                }
            },
            _ => behind,
        },
        DestinationStep::AskParent => {
            if yes {
                behind
            } else {
                DestinationState::IoFailed
            }
        },
        DestinationStep::AskSource => {
            if yes {
                DestinationState::Due(DestinationStep::MakeDirectory)
            } else {
                DestinationState::Due(DestinationStep::MakeFile)
            }
        },
        DestinationStep::MakeFile => match event {
            DestinationEvent::Failed(_) => DestinationState::IoFailed,
            _ => DestinationState::Ready,
        },
        DestinationStep::MakeDirectory => {
            if event == DestinationEvent::Failed(MakeFailure::Other) {
                DestinationState::IoFailed
            } else {
                DestinationState::Due(DestinationStep::AskDirectory)
            }
        },
        DestinationStep::AskDirectory => {
            if yes {
                DestinationState::Ready
            } else {
                DestinationState::NotDirectory
            }
        },
    }
}

/// A mount point to be made.
#[derive(Debug)]
pub struct Destination {
    /// The directory that it stands in.
    pub parent: String,
    /// Whether it is for a bind mount.
    pub bind: bool,
}

/// Begins to make a mount point. The root is none.
pub fn create_mount_destination(dst: &str, fs_type: &str) -> (r: Result<Destination, MountError>)
    ensures
        match r {
            Ok(d) => parent_of(dst@) == Some(d.parent@) && d.bind == (fs_type@ == "bind"@),
            Err(e) => parent_of(dst@) is None && e@ == MountFault::InvalidPath(dst@),
        },
{
    match parent(dst) {
        Some(p) => Ok(Destination { parent: p, bind: str_eq(fs_type, "bind") }),
        None => Err(MountError::InvalidPath(dst.to_owned())),
    }
}

/// The error with which the making of a mount point ends, where it failed: what stands there
/// is no directory, or a step failed and its own error counts.
pub fn destination_error(state: DestinationState, dst: &str) -> (r: Option<MountError>)
    ensures
        match state {
            DestinationState::IoFailed => r matches Some(e) && e@ == MountFault::Io,
            DestinationState::NotDirectory => r matches Some(e) && e@ == MountFault::InvalidPath(
                dst@,
            ),
            DestinationState::Ready | DestinationState::Due(_) => r is None,
        },
{
    match state {
        DestinationState::IoFailed => Some(MountError::Io),
        DestinationState::NotDirectory => Some(MountError::InvalidPath(dst.to_owned())),
        DestinationState::Ready | DestinationState::Due(_) => None,
    }
}

/// The state after several steps.
pub open spec fn destination_run(bind: bool, events: Seq<DestinationEvent>) -> DestinationState
    decreases events.len(),
{
    if events.len() == 0 {
        DestinationState::Due(DestinationStep::MakeParent)
    } else {
        match destination_run(bind, events.drop_last()) {
            DestinationState::Due(step) => destination_after(step, events.last(), bind),
            done => done,
        }
    }
}

/// Whether an event was the answer that the mount point is a directory.
pub open spec fn saw_directory(bind: bool, events: Seq<DestinationEvent>, i: int) -> bool {
    &&& 0 <= i < events.len()
    &&& destination_run(bind, events.take(i)) == DestinationState::Due(
        DestinationStep::AskDirectory,
    )
    &&& events[i] == DestinationEvent::Answer(true)
}

/// The mount point of an ordinary mount is never a file that was made for it, and it is
/// ready only once it was seen to be a directory.
pub proof fn law_ordinary_mount_points_are_directories(events: Seq<DestinationEvent>)
    ensures
        destination_run(false, events) != DestinationState::Due(DestinationStep::AskSource),
        destination_run(false, events) != DestinationState::Due(DestinationStep::MakeFile),
        destination_run(false, events) == DestinationState::Ready ==> exists|i: int| #[trigger]
            saw_directory(false, events, i),
    decreases events.len(),
{
    if events.len() > 0 {
        let before = events.drop_last();
        law_ordinary_mount_points_are_directories(before);
        if destination_run(false, events) == DestinationState::Ready {
            if destination_run(false, before) == DestinationState::Ready {
                let i = choose|i: int| #[trigger] saw_directory(false, before, i);
                assert(events.take(i) =~= before.take(i));
                assert(saw_directory(false, events, i));
            } else {
                assert(events.take(events.len() - 1) =~= before);
                assert(saw_directory(false, events, events.len() - 1));
            }
        }
    }
}

/// A step of a bind mount.
#[derive(Clone, Copy, Debug, PartialEq, Eq, Structural)]
pub enum BindStep {
    /// Resolve the path of the source.
    Resolve,
    /// Make the mount point.
    MakeDestination,
    /// Bind the source to the mount point.
    Bind,
    /// Refuse a propagation that is not supported.
    RefusePropagation,
    /// Set the propagation of the mount.
    Propagate(u64),
    /// Mount again with the given flags.
    Remount(u64),
}

/// The flags of a remount.
pub open spec fn remount_flags(readonly: bool) -> u64 {
    if readonly {
        MS_BIND | MS_REMOUNT | MS_RDONLY
    } else {
        MS_BIND | MS_REMOUNT
    }
}

/// The steps of a bind mount. The propagation is looked at once the mount is there.
pub open spec fn bind_steps(readonly: bool, propagation: u64) -> Seq<BindStep> {
    let head = seq![BindStep::Resolve, BindStep::MakeDestination, BindStep::Bind];
    if propagation != MS_SHARED && propagation != MS_SLAVE {
        head.push(BindStep::RefusePropagation)
    } else if readonly {
        head.push(BindStep::Propagate(propagation)).push(BindStep::Remount(remount_flags(true)))
    } else {
        head.push(BindStep::Propagate(propagation))
    }
}

/// Plans a bind mount.
pub fn bind_mount_unchecked(src: &str, dst: &str, readonly: bool, propagation: u64) -> (r: Result<
    Vec<BindStep>,
    MountError,
>)
    ensures
        match r {
            Ok(v) => src@.len() > 0 && dst@.len() > 0 && v@ == bind_steps(readonly, propagation),
            Err(e) => (src@.len() == 0 || dst@.len() == 0) && e@ == MountFault::NullMountPointPath,
        },
{
    if src.is_empty() || dst.is_empty() {
        return Err(MountError::NullMountPointPath);
    }
    let mut steps: Vec<BindStep> = Vec::new();
    steps.push(BindStep::Resolve);
    steps.push(BindStep::MakeDestination);
    steps.push(BindStep::Bind);
    if propagation != MS_SHARED && propagation != MS_SLAVE {
        steps.push(BindStep::RefusePropagation);
    } else {
        steps.push(BindStep::Propagate(propagation));
        if readonly {
            steps.push(BindStep::Remount(MS_BIND | MS_REMOUNT | MS_RDONLY));
        }
    }
    proof {
        assert(steps@ =~= bind_steps(readonly, propagation));
    }
    Ok(steps)
}

/// Plans a remount of a bind mount.
pub fn bind_remount(dst: &str, readonly: bool) -> (r: Result<Vec<BindStep>, MountError>)
    ensures
        match r {
            Ok(v) => dst@.len() > 0 && v@ == seq![
                BindStep::Resolve,
                BindStep::Remount(remount_flags(readonly)),
            ],
            Err(e) => dst@.len() == 0 && e@ == MountFault::NullMountPointPath,
        },
{
    if dst.is_empty() {
        return Err(MountError::NullMountPointPath);
    }
    let flags: u64 = if readonly {
        MS_BIND | MS_REMOUNT | MS_RDONLY
    } else {
        MS_BIND | MS_REMOUNT
    };
    let mut steps: Vec<BindStep> = Vec::new();
    steps.push(BindStep::Resolve);
    steps.push(BindStep::Remount(flags));
    proof {
        assert(steps@ =~= seq![BindStep::Resolve, BindStep::Remount(remount_flags(readonly))]);
    }
    Ok(steps)
}

/// The error of a step that failed, with the number of its error. `target` is the path that
/// was to be resolved or mounted on, and `source` the resolved source. The making of the
/// mount point has errors of its own, which `destination_error` gives.
pub fn bind_error(step: BindStep, source: &str, target: &str, errno: i32) -> (r: Option<MountError>)
    ensures
        match r {
            None => step == BindStep::MakeDestination,
            Some(e) => match step {
                BindStep::Resolve => e@ == MountFault::InvalidPath(target@),
                BindStep::MakeDestination => false,
                BindStep::Bind => e@ == MountFault::BindMount(source@, target@, errno),
                BindStep::RefusePropagation => e@ == MountFault::InvalidPgMountFlag,
                BindStep::Propagate(_) => e@ == MountFault::Mount(target@, errno),
                BindStep::Remount(_) => e@ == MountFault::Remount(target@, errno),
            },
        },
{
    match step {
        BindStep::Resolve => Some(MountError::InvalidPath(target.to_owned())),
        BindStep::MakeDestination => None,
        BindStep::Bind => Some(
            MountError::BindMount(source.to_owned(), target.to_owned(), errno),
        ),
        BindStep::RefusePropagation => Some(MountError::InvalidPgMountFlag),
        BindStep::Propagate(_) => Some(MountError::Mount(target.to_owned(), errno)),
        BindStep::Remount(_) => Some(MountError::Remount(target.to_owned(), errno)),
    }
}

/// A plan of a read-only bind mount ends in a remount that makes it read-only.
pub proof fn law_readonly_bind_ends_readonly(propagation: u64)
    requires
        propagation == MS_SHARED || propagation == MS_SLAVE,
    ensures
        ({
            let steps = bind_steps(true, propagation);
            &&& steps.last() == BindStep::Remount(remount_flags(true))
            &&& remount_flags(true) & MS_RDONLY == MS_RDONLY
            &&& remount_flags(false) & MS_RDONLY == 0
        }),
{
    assert((4096u64 | 32 | 1) & 1 == 1) by (bit_vector);
    assert((4096u64 | 32) & 1 == 0) by (bit_vector);
}

} // verus!
