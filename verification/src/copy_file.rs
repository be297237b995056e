//! Copying files, directories and links from the host into a shared directory.
use vstd::prelude::*;

use crate::path::{components, components_of, is_under, under};
use crate::text::{chars_eq, chars_of, copy_chars, fields, string_of, sub_chars};

verus! {

/// Permission bits that a copy may set: the permissions and the set-user, set-group and
/// sticky bits.
pub const FILE_PERMISSION_MASK: u32 = 0o7777;

/// The file type bits of a directory.
pub const S_IFDIR: u32 = 0o040000;

/// The file type bits of a symbolic link.
pub const S_IFLNK: u32 = 0o120000;

/// No such file or directory.
pub const ENOENT: i32 = 2;

/// The file exists.
pub const EEXIST: i32 = 17;

/// The file is a directory.
pub const EISDIR: i32 = 21;

/// A request to copy: a directory, a link whose target is the data, or a piece of a
/// regular file.
#[derive(Debug)]
pub struct CopyFileRequest {
    pub path: String,
    pub file_size: i64,
    pub file_mode: u32,
    pub uid: i32,
    pub gid: i32,
    pub offset: i64,
    pub data: Vec<u8>,
}

/// What a copy is of.
#[derive(Clone, Copy, Debug, PartialEq, Eq, Structural)]
pub enum CopyKind {
    Directory,
    Link,
    File,
}

/// The kind that the type bits of a mode ask for.
pub open spec fn kind_of(mode: u32) -> CopyKind {
    if mode & S_IFDIR == S_IFDIR {
        CopyKind::Directory
    } else if mode & S_IFLNK == S_IFLNK {
        CopyKind::Link
    } else {
        CopyKind::File
    }
}

/// A step of a copy. Each resolves the directory of its path within the shared directory,
/// links included, and acts on the entry of that name in it.
#[derive(Clone, Copy, Debug, PartialEq, Eq, Structural)]
pub enum CopyStep {
    /// Remove a file at the target.
    RemoveFile,
    /// Make the directory, with the given permissions, and no parent of it.
    MakeDirectory(u32),
    /// Open the directory.
    OpenDirectory,
    /// Remove whatever stands at the target.
    RemoveAll,
    /// Make the link.
    MakeLink,
    /// Set the owner and the group of the link itself.
    OwnLink(u32, u32),
    /// Open the temporary file, empty where the flag is set, with the given permissions.
    OpenTemp(bool, u32),
    /// Write the data at the given offset of the temporary file.
    WriteAt(u64),
    /// Ask for the size of the temporary file.
    CheckSize,
    /// Set the permissions of what was opened.
    SetMode(u32),
    /// Set the owner and the group of what was opened.
    Own(u32, u32),
    /// Rename the temporary file to the target.
    Rename,
}

/// A signed number of a request as the unsigned one that the kernel takes.
pub open spec fn unsigned32(n: i32) -> int {
    if n < 0 {
        n + 0x1_0000_0000
    } else {
        n as int
    }
}

/// A signed number of a request as the unsigned one that the kernel takes.
pub open spec fn unsigned64(n: i64) -> int {
    if n < 0 {
        n + 0x1_0000_0000_0000_0000
    } else {
        n as int
    }
}

fn to_u32(n: i32) -> (r: u32)
    ensures
        r == unsigned32(n),
{
    proof {
        assert(n < 0 ==> n as u32 == n + 0x1_0000_0000) by (bit_vector);
        assert(n >= 0 ==> n as u32 == n) by (bit_vector);
    }
    n as u32
}

fn to_u64(n: i64) -> (r: u64)
    ensures
        r == unsigned64(n),
{
    proof {
        assert(n < 0 ==> n as u64 == n + 0x1_0000_0000_0000_0000) by (bit_vector);
        assert(n >= 0 ==> n as u64 == n) by (bit_vector);
    }
    n as u64
}

/// The steps of a copy. A directory that is there already is kept. Only the first piece
/// of a file removes what stands at the target, and only a complete file takes its place.
pub open spec fn copy_steps(req: CopyFileRequest) -> Seq<CopyStep> {
    let perm = req.file_mode & FILE_PERMISSION_MASK;
    let uid = unsigned32(req.uid) as u32;
    let gid = unsigned32(req.gid) as u32;
    let clear = if req.offset == 0 {
        seq![CopyStep::RemoveAll]
    } else {
        Seq::empty()
    };
    match kind_of(req.file_mode) {
        CopyKind::Directory => seq![
            CopyStep::RemoveFile,
            CopyStep::MakeDirectory(perm),
            CopyStep::OpenDirectory,
            CopyStep::SetMode(perm),
            CopyStep::Own(uid, gid),
        ],
        CopyKind::Link => clear + seq![CopyStep::MakeLink, CopyStep::OwnLink(uid, gid)],
        CopyKind::File => clear + seq![
            CopyStep::OpenTemp(req.offset == 0, perm),
            CopyStep::WriteAt(unsigned64(req.offset) as u64),
            CopyStep::CheckSize,
            CopyStep::SetMode(perm),
            CopyStep::Own(uid, gid),
            CopyStep::Rename,
        ],
    }
}

/// The components of a target beneath a directory.
pub open spec fn target_of(path: Seq<char>, dir: Seq<char>) -> Seq<Seq<char>> {
    components(path).skip(components(dir).len() as int)
}

/// A file name without its extension. A dot in front starts no extension.
pub open spec fn stem_of(name: Seq<char>) -> Seq<char> {
    let i = last_dot(name);
    if i <= 0 {
        name
    } else {
        name.take(i)
    }
}

/// The position of the last dot, or -1.
pub open spec fn last_dot(name: Seq<char>) -> int
    decreases name.len(),
{
    if name.len() == 0 {
        -1
    } else if name.last() == '.' {
        name.len() - 1
    } else {
        last_dot(name.drop_last())
    }
}

/// The components of the temporary file for a target: the last one gets another
/// extension. A target that ends in no file name stands for itself.
pub open spec fn temporary(target: Seq<Seq<char>>) -> Seq<Seq<char>> {
    if target.len() == 0 || target.last() == seq!['.', '.'] {
        target
    } else {
        target.drop_last().push(stem_of(target.last()) + seq!['.', 't', 'm', 'p'])
    }
}

/// A copy that was accepted.
#[derive(Debug)]
pub struct CopyPlan {
    /// The components of the target beneath the shared directory.
    pub target: Vec<Vec<char>>,
    /// The components of the temporary file beneath the shared directory.
    pub temporary: Vec<Vec<char>>,
    pub steps: Vec<CopyStep>,
}

/// Why a copy is refused.
#[derive(Clone, Copy, Debug, PartialEq, Eq, Structural)]
pub enum CopyRefusal {
    /// The path does not lie beneath the shared directory.
    NotBeneath,
    /// The path steps up out of the shared directory.
    StepsOut,
    /// The path ends in no name.
    NoName,
}

/// How much deeper a component leads.
pub open spec fn descent(part: Seq<char>) -> int {
    if part == seq!['.', '.'] {
        -1
    } else if part == seq!['.'] {
        0
    } else {
        1
    }
}

/// How deep components lead.
pub open spec fn depth(parts: Seq<Seq<char>>) -> int
    decreases parts.len(),
{
    if parts.len() == 0 {
        0
    } else {
        depth(parts.drop_last()) + descent(parts.last())
    }
}

/// Whether components step up out of where they start, at any point.
pub open spec fn steps_out(parts: Seq<Seq<char>>) -> bool
    decreases parts.len(),
{
    parts.len() > 0 && (depth(parts) < 0 || steps_out(parts.drop_last()))
}

/// Whether components end in the name of an entry.
pub open spec fn ends_in_name(parts: Seq<Seq<char>>) -> bool {
    parts.len() > 0 && descent(parts.last()) == 1
}

/// Why a copy to a path is refused, if it is.
pub open spec fn refusal_of(path: Seq<char>, dir: Seq<char>) -> Option<CopyRefusal> {
    if !is_under(path, dir) {
        Some(CopyRefusal::NotBeneath)
    } else if steps_out(target_of(path, dir)) {
        Some(CopyRefusal::StepsOut)
    } else if !ends_in_name(target_of(path, dir)) {
        Some(CopyRefusal::NoName)
    } else {
        None
    }
}

proof fn lemma_steps_out(parts: Seq<Seq<char>>, i: int)
    requires
        0 <= i <= parts.len(),
        steps_out(parts.take(i)),
    ensures
        steps_out(parts),
    decreases parts.len() - i,
{
    if i < parts.len() {
        assert(parts.take(i + 1).drop_last() =~= parts.take(i));
        lemma_steps_out(parts, i + 1);
    } else {
        assert(parts.take(i) =~= parts);
    }
}

fn leads_out(parts: &Vec<Vec<char>>) -> (r: bool)
    ensures
        r == steps_out(fields(parts@)),
{
    let ghost all = fields(parts@);
    let up: Vec<char> = vec!['.', '.'];
    let dot: Vec<char> = vec!['.'];
    let mut level: usize = 0;
    let mut i: usize = 0;
    proof {
        assert(up@ =~= seq!['.', '.']);
        assert(dot@ =~= seq!['.']);
    }
    while i < parts.len()
        invariant
            i <= parts.len(),
            level <= i,
            all == fields(parts@),
            up@ == seq!['.', '.'],
            dot@ == seq!['.'],
            level == depth(all.take(i as int)),
            !steps_out(all.take(i as int)),
        decreases parts.len() - i,
    {
        proof {
            assert(all.take(i + 1).drop_last() =~= all.take(i as int));
            assert(all.take(i + 1).last() == parts@[i as int]@);
        }
        if chars_eq(parts[i].as_slice(), up.as_slice()) {
            if level == 0 {
                proof {
                    lemma_steps_out(all, i + 1);
                }
                return true;
            }
            level -= 1;
        } else if !chars_eq(parts[i].as_slice(), dot.as_slice()) {
            level += 1;
        }
        i += 1;
    }
    proof {
        assert(all.take(all.len() as int) =~= all);
    }
    false
}

fn has_name(parts: &Vec<Vec<char>>) -> (r: bool)
    ensures
        r == ends_in_name(fields(parts@)),
{
    let n: usize = parts.len();
    if n == 0 {
        return false;
    }
    let up: Vec<char> = vec!['.', '.'];
    let dot: Vec<char> = vec!['.'];
    proof {
        assert(up@ =~= seq!['.', '.']);
        assert(dot@ =~= seq!['.']);
        assert(fields(parts@).last() == parts@[n - 1]@);
    }
    !chars_eq(parts[n - 1].as_slice(), up.as_slice()) && !chars_eq(
        parts[n - 1].as_slice(),
        dot.as_slice(),
    )
}

fn find_last_dot(name: &[char]) -> (r: Option<usize>)
    ensures
        match r {
            Some(i) => last_dot(name@) == i && i < name.len(),
            None => last_dot(name@) == -1,
        },
{
    let mut n: usize = name.len();
    proof {
        assert(name@.take(name@.len() as int) =~= name@);
    }
    while n > 0
        invariant
            n <= name.len(),
            last_dot(name@) == last_dot(name@.take(n as int)),
        decreases n,
    {
        proof {
            assert(name@.take(n as int).drop_last() =~= name@.take(n - 1));
            assert(name@.take(n as int).last() == name@[n - 1]);
        }
        if name[n - 1] == '.' {
            return Some(n - 1);
        }
        n -= 1;
    }
    None
}

fn temp_name(name: &[char]) -> (r: Vec<char>)
    ensures
        r@ == stem_of(name@) + seq!['.', 't', 'm', 'p'],
{
    let end: usize = match find_last_dot(name) {
        Some(i) => {
            if i > 0 {
                i
            } else {
                name.len()
            }
        },
        None => name.len(),
    };
    let mut out = sub_chars(name, 0, end);
    proof {
        assert(out@ =~= stem_of(name@));
    }
    out.push('.');
    out.push('t');
    out.push('m');
    out.push('p');
    proof {
        assert(out@ =~= stem_of(name@) + seq!['.', 't', 'm', 'p']);
    }
    out
}

fn temporary_for(target: &Vec<Vec<char>>) -> (r: Vec<Vec<char>>)
    ensures
        fields(r@) == temporary(fields(target@)),
{
    let n: usize = target.len();
    let ghost all = fields(target@);
    let mut out: Vec<Vec<char>> = Vec::new();
    let mut i: usize = 0;
    let up: Vec<char> = vec!['.', '.'];
    proof {
        assert(up@ =~= seq!['.', '.']);
    }
    while i < n
        invariant
            i <= n,
            n == target.len(),
            all == fields(target@),
            out@.len() == i,
            fields(out@) == all.take(i as int),
        decreases n - i,
    {
        let piece = copy_chars(target[i].as_slice());
        let ghost was = fields(out@);
        out.push(piece);
        proof {
            assert(fields(out@) =~= was.push(piece@));
            assert(all.take(i + 1) =~= all.take(i as int).push(all[i as int]));
        }
        i += 1;
    }
    proof {
        assert(all.take(n as int) =~= all);
    }
    if n == 0 {
        return out;
    }
    proof {
        assert(all.last() == target@[n - 1]@);
    }
    if chars_eq(target[n - 1].as_slice(), up.as_slice()) {
        return out;
    }
    let name = temp_name(target[n - 1].as_slice());
    out.set(n - 1, name);
    proof {
        assert(fields(out@) =~= temporary(all));
    }
    out
}

fn plan_steps(req: &CopyFileRequest) -> (r: Vec<CopyStep>)
    ensures
        r@ == copy_steps(*req),
{
    let perm: u32 = req.file_mode & FILE_PERMISSION_MASK;
    let uid: u32 = to_u32(req.uid);
    let gid: u32 = to_u32(req.gid);
    let mut steps: Vec<CopyStep> = Vec::new();
    if req.file_mode & S_IFDIR == S_IFDIR {
        steps.push(CopyStep::RemoveFile);
        steps.push(CopyStep::MakeDirectory(perm));
        steps.push(CopyStep::OpenDirectory);
        steps.push(CopyStep::SetMode(perm));
        steps.push(CopyStep::Own(uid, gid));
        proof {
            assert(steps@ =~= copy_steps(*req));
        }
        return steps;
    }
    if req.offset == 0 {
        steps.push(CopyStep::RemoveAll);
    }
    if req.file_mode & S_IFLNK == S_IFLNK {
        steps.push(CopyStep::MakeLink);
        steps.push(CopyStep::OwnLink(uid, gid));
        proof {
            assert(steps@ =~= copy_steps(*req));
        }
        return steps;
    }
    let offset: u64 = to_u64(req.offset);
    steps.push(CopyStep::OpenTemp(req.offset == 0, perm));
    steps.push(CopyStep::WriteAt(offset));
    steps.push(CopyStep::CheckSize);
    steps.push(CopyStep::SetMode(perm));
    steps.push(CopyStep::Own(uid, gid));
    steps.push(CopyStep::Rename);
    proof {
        assert(steps@ =~= copy_steps(*req));
    }
    steps
}

/// Plans a copy beneath a shared directory. A path that is not beneath it, that steps up
/// out of it or that ends in no name is refused before anything is touched.
pub fn do_copy_file(req: &CopyFileRequest, shared_dir: &str) -> (r: Result<CopyPlan, CopyRefusal>)
    ensures
        match r {
            Err(e) => refusal_of(req.path@, shared_dir@) == Some(e),
            Ok(plan) => {
                let target = target_of(req.path@, shared_dir@);
                &&& refusal_of(req.path@, shared_dir@) is None
                &&& fields(plan.target@) == target
                &&& fields(plan.temporary@) == temporary(target)
                &&& plan.steps@ == copy_steps(*req)
            },
        },
{
    if !under(req.path.as_str(), shared_dir) {
        return Err(CopyRefusal::NotBeneath);
    }
    let p = chars_of(req.path.as_str());
    let d = chars_of(shared_dir);
    let all = components_of(p.as_slice());
    let head = components_of(d.as_slice());
    let ghost whole = fields(all@);
    let ghost lead = fields(head@);
    let mut target: Vec<Vec<char>> = Vec::new();
    let mut i: usize = head.len();
    proof {
        assert(lead.len() <= whole.len());
        assert(fields(target@) =~= whole.subrange(i as int, i as int));
    }
    while i < all.len()
        invariant
            head.len() <= i <= all.len(),
            whole == fields(all@),
            fields(target@) == whole.subrange(head@.len() as int, i as int),
        decreases all.len() - i,
    {
        let piece = copy_chars(all[i].as_slice());
        let ghost was = fields(target@);
        target.push(piece);
        proof {
            assert(fields(target@) =~= was.push(piece@));
            assert(whole.subrange(head@.len() as int, i + 1) =~= whole.subrange(
                head@.len() as int,
                i as int,
            ).push(whole[i as int]));
        }
        i += 1;
    }
    proof {
        assert(lead.len() == head@.len());
        assert(fields(target@) =~= target_of(req.path@, shared_dir@));
    }
    if leads_out(&target) {
        return Err(CopyRefusal::StepsOut);
    }
    if !has_name(&target) {
        return Err(CopyRefusal::NoName);
    }
    let temporary = temporary_for(&target);
    let steps = plan_steps(req);
    Ok(CopyPlan { target, temporary, steps })
}

/// The components as a path.
pub open spec fn slashed(parts: Seq<Seq<char>>) -> Seq<char>
    decreases parts.len(),
{
    if parts.len() == 0 {
        Seq::empty()
    } else if parts.len() == 1 {
        parts[0]
    } else {
        slashed(parts.drop_last()).push('/') + parts.last()
    }
}

/// Writes components as a path.
pub fn to_path(parts: &Vec<Vec<char>>) -> (r: String)
    ensures
        r@ == slashed(fields(parts@)),
{
    let ghost all = fields(parts@);
    let mut out: Vec<char> = Vec::new();
    let mut i: usize = 0;
    proof {
        assert(out@ =~= slashed(all.take(0)));
    }
    while i < parts.len()
        invariant
            i <= parts.len(),
            all == fields(parts@),
            out@ == slashed(all.take(i as int)),
        decreases parts.len() - i,
    {
        let ghost was = out@;
        if i > 0 {
            out.push('/');
        }
        let mut j: usize = 0;
        let ghost head = out@;
        proof {
            assert(head =~= head + parts@[i as int]@.take(0));
        }
        while j < parts[i].len()
            invariant
                i < parts.len(),
                j <= parts@[i as int]@.len(),
                out@ == head + parts@[i as int]@.take(j as int),
            decreases parts@[i as int]@.len() - j,
        {
            let c = parts[i][j];
            out.push(c);
            j += 1;
            proof {
                assert(out@ =~= head + parts@[i as int]@.take(j as int));
            }
        }
        proof {
            assert(parts@[i as int]@.take(j as int) =~= all[i as int]);
            assert(all.take(i + 1).drop_last() =~= all.take(i as int));
            assert(all.take(i + 1).last() == all[i as int]);
            if i == 0 {
                assert(was =~= Seq::<char>::empty());
                assert(out@ =~= all.take(1)[0]);
            }
        }
        i += 1;
    }
    proof {
        assert(all.take(all.len() as int) =~= all);
    }
    string_of(out.as_slice())
}

/// How a step went.
#[derive(Clone, Copy, Debug, PartialEq, Eq, Structural)]
pub enum CopyOutcome {
    Done,
    /// It failed, with an error number where the operating system gave one.
    Failed(Option<i32>),
    /// The size of the temporary file.
    Size(i64),
}

/// What follows from an outcome.
#[derive(Clone, Copy, Debug, PartialEq, Eq, Structural)]
pub enum CopyVerdict {
    /// Go on with the next step.
    Next,
    /// The piece is stored, and more is to come.
    Wait,
    /// The copy failed.
    Abort,
}

/// What follows from the outcome of a step. What is not there need not be removed, and
/// a directory that is there need not be made.
pub open spec fn copy_judged(step: CopyStep, outcome: CopyOutcome, size: i64) -> CopyVerdict {
    match outcome {
        CopyOutcome::Done => CopyVerdict::Next,
        CopyOutcome::Size(n) => if step == CopyStep::CheckSize && n != size {
            CopyVerdict::Wait
        } else {
            CopyVerdict::Next
        },
        CopyOutcome::Failed(None) => CopyVerdict::Abort,
        CopyOutcome::Failed(Some(e)) => match step {
            CopyStep::RemoveFile => if e == ENOENT || e == EISDIR {
                CopyVerdict::Next
            } else {
                CopyVerdict::Abort
            },
            CopyStep::MakeDirectory(_) => if e == EEXIST {
                CopyVerdict::Next
            } else {
                CopyVerdict::Abort
            },
            CopyStep::RemoveAll => if e == ENOENT {
                CopyVerdict::Next
            } else {
                CopyVerdict::Abort
            },
            _ => CopyVerdict::Abort,
        },
    }
}

/// Tells what follows from the outcome of a step.
pub fn judge_copy(step: CopyStep, outcome: CopyOutcome, size: i64) -> (r: CopyVerdict)
    ensures
        r == copy_judged(step, outcome, size),
{
    match outcome {
        CopyOutcome::Done => CopyVerdict::Next,
        CopyOutcome::Size(n) => {
            if step == CopyStep::CheckSize && n != size {
                CopyVerdict::Wait
            } else {
                CopyVerdict::Next
            }
        },
        CopyOutcome::Failed(None) => CopyVerdict::Abort,
        CopyOutcome::Failed(Some(e)) => {
            let harmless = match step {
                CopyStep::RemoveFile => e == ENOENT || e == EISDIR,
                CopyStep::MakeDirectory(_) => e == EEXIST,
                CopyStep::RemoveAll => e == ENOENT,
                _ => false,
            };
            if harmless {
                CopyVerdict::Next
            } else {
                CopyVerdict::Abort
            }
        },
    }
}

/// Whether the step at a position is reached: every step before it went well. The size
/// is only ever the answer to its own question.
pub open spec fn reached(req: CopyFileRequest, outcomes: Seq<CopyOutcome>, at: int) -> bool {
    let steps = copy_steps(req);
    &&& 0 <= at < steps.len()
    &&& at <= outcomes.len()
    &&& forall|i: int|
        0 <= i < at ==> #[trigger] copy_judged(steps[i], outcomes[i], req.file_size)
            == CopyVerdict::Next && (steps[i] == CopyStep::CheckSize <==> outcomes[i] is Size)
}

/// A file takes the place of its target only when it is complete: what was written
/// before has the size that the request announces.
pub proof fn law_only_complete_files_are_published(
    req: CopyFileRequest,
    outcomes: Seq<CopyOutcome>,
    at: int,
)
    requires
        reached(req, outcomes, at),
        copy_steps(req)[at] == CopyStep::Rename,
    ensures
        exists|i: int|
            0 <= i < at && copy_steps(req)[i] == CopyStep::CheckSize && #[trigger] outcomes[i]
                == CopyOutcome::Size(req.file_size),
{
    let steps = copy_steps(req);
    let check: int = if req.offset == 0 {
        3
    } else {
        2
    };
    assert(kind_of(req.file_mode) == CopyKind::File);
    assert(at == check + 3);
    assert(steps[check] == CopyStep::CheckSize);
    assert(copy_judged(steps[check], outcomes[check], req.file_size) == CopyVerdict::Next);
}

/// A later piece of a file removes nothing, and its temporary file keeps the pieces
/// before it.
pub proof fn law_later_pieces_remove_nothing(req: CopyFileRequest, i: int)
    requires
        kind_of(req.file_mode) == CopyKind::File,
        req.offset != 0,
        0 <= i < copy_steps(req).len(),
    ensures
        copy_steps(req)[i] != CopyStep::RemoveAll,
        copy_steps(req)[i] != CopyStep::RemoveFile,
        copy_steps(req)[i] matches CopyStep::OpenTemp(truncate, _) ==> !truncate,
{
}

/// A target that is accepted lies beneath the shared directory at every point of its way;
/// one that at any point leads above it is refused.
pub proof fn law_targets_never_lead_above(path: Seq<char>, dir: Seq<char>, i: int)
    requires
        is_under(path, dir),
        0 <= i <= target_of(path, dir).len(),
    ensures
        refusal_of(path, dir) is None ==> depth(target_of(path, dir).take(i)) >= 0,
        depth(target_of(path, dir).take(i)) < 0 ==> refusal_of(path, dir) == Some(
            CopyRefusal::StepsOut,
        ),
{
    let target = target_of(path, dir);
    if depth(target.take(i)) < 0 {
        lemma_steps_out(target, i);
    }
}

/// The temporary file of a target stands beside it: beneath the same directory, with
/// the same parents. It steps out of the directory no more than its target does, and has a
/// name as that has.
pub proof fn law_temporary_stands_beside_target(target: Seq<Seq<char>>)
    requires
        ends_in_name(target),
    ensures
        temporary(target).len() == target.len(),
        temporary(target).drop_last() == target.drop_last(),
        ends_in_name(temporary(target)),
        steps_out(temporary(target)) == steps_out(target),
{
    let name = temporary(target).last();
    assert(temporary(target).drop_last() =~= target.drop_last());
    assert(name.len() >= 4);
    assert(name != seq!['.', '.']);
    assert(name != seq!['.']);
}

/// The entry of a path: its last name, in the directory to which its parents resolve.
pub open spec fn entry_of(
    parts: Seq<Seq<char>>,
    resolve: spec_fn(Seq<Seq<char>>) -> Seq<Seq<char>>,
) -> Seq<Seq<char>> {
    resolve(parts.drop_last()).push(parts.last())
}

/// Whether a step may change what stands at a place, whether it succeeds or fails.
/// `resolve` gives the place to which components lead from the shared directory.
pub open spec fn may_change(
    step: CopyStep,
    kind: CopyKind,
    target: Seq<Seq<char>>,
    resolve: spec_fn(Seq<Seq<char>>) -> Seq<Seq<char>>,
    place: Seq<Seq<char>>,
) -> bool {
    let temp = temporary(target);
    match step {
        CopyStep::RemoveFile | CopyStep::MakeDirectory(_) | CopyStep::MakeLink | CopyStep::OwnLink(
            _,
            _,
        ) => place == entry_of(target, resolve),
        CopyStep::RemoveAll => entry_of(target, resolve).is_prefix_of(place),
        CopyStep::OpenDirectory | CopyStep::CheckSize => false,
        CopyStep::OpenTemp(_, _) | CopyStep::WriteAt(_) => place == entry_of(temp, resolve)
            || place == resolve(temp),
        CopyStep::SetMode(_) | CopyStep::Own(_, _) => if kind == CopyKind::Directory {
            place == resolve(target)
        } else {
            place == entry_of(temp, resolve) || place == resolve(temp)
        },
        CopyStep::Rename => place == entry_of(temp, resolve) || place == entry_of(target, resolve),
    }
}

/// Whether the same stands at a place.
pub open spec fn same_at<N>(
    a: Map<Seq<Seq<char>>, N>,
    b: Map<Seq<Seq<char>>, N>,
    place: Seq<Seq<char>>,
) -> bool {
    a.contains_key(place) == b.contains_key(place) && (a.contains_key(place) ==> a[place]
        == b[place])
}

/// Whether a run of a copy leads through these file systems: from each to the next, one step
/// changes no more than it may.
pub open spec fn is_copy_run<N>(
    req: CopyFileRequest,
    target: Seq<Seq<char>>,
    resolve: spec_fn(Seq<Seq<char>>) -> Seq<Seq<char>>,
    run: Seq<Map<Seq<Seq<char>>, N>>,
) -> bool {
    let steps = copy_steps(req);
    &&& 0 < run.len() <= steps.len() + 1
    &&& forall|i: int, place: Seq<Seq<char>>|
        #![trigger same_at(run[i], run[i + 1], place)]
        0 <= i < run.len() - 1 && !may_change(
            steps[i],
            kind_of(req.file_mode),
            target,
            resolve,
            place,
        ) ==> same_at(run[i], run[i + 1], place)
}

/// A copy changes nothing outside the shared directory, whether it is completed or fails at
/// any of its steps, and wherever links lead: what matters is that components resolve within
/// the directory.
pub proof fn law_nothing_outside_is_changed<N>(
    req: CopyFileRequest,
    shared: Seq<Seq<char>>,
    target: Seq<Seq<char>>,
    resolve: spec_fn(Seq<Seq<char>>) -> Seq<Seq<char>>,
    run: Seq<Map<Seq<Seq<char>>, N>>,
    place: Seq<Seq<char>>,
)
    requires
        forall|parts: Seq<Seq<char>>| shared.is_prefix_of(#[trigger] resolve(parts)),
        is_copy_run(req, target, resolve, run),
        !shared.is_prefix_of(place),
    ensures
        same_at(run[0], run.last(), place),
    decreases run.len(),
{
    if run.len() > 1 {
        let shorter = run.drop_last();
        let i = run.len() - 2;
        assert forall|k: int, p: Seq<Seq<char>>|
            #![trigger same_at(shorter[k], shorter[k + 1], p)]
            0 <= k < shorter.len() - 1 && !may_change(
                copy_steps(req)[k],
                kind_of(req.file_mode),
                target,
                resolve,
                p,
            ) implies same_at(shorter[k], shorter[k + 1], p) by {
            assert(same_at(run[k], run[k + 1], p));
        }
        law_nothing_outside_is_changed(req, shared, target, resolve, shorter, place);
        let temp = temporary(target);
        assert(shared.is_prefix_of(resolve(target)));
        assert(shared.is_prefix_of(resolve(temp)));
        lemma_entry_is_beneath(shared, resolve(target.drop_last()), target.last());
        lemma_entry_is_beneath(shared, resolve(temp.drop_last()), temp.last());
        if entry_of(target, resolve).is_prefix_of(place) {
            assert(place.take(shared.len() as int) =~= entry_of(target, resolve).take(
                shared.len() as int,
            ));
            assert(shared =~= place.take(shared.len() as int));
        }
        assert(same_at(run[i], run[i + 1], place));
    }
}

proof fn lemma_entry_is_beneath(shared: Seq<Seq<char>>, dir: Seq<Seq<char>>, name: Seq<char>)
    requires
        shared.is_prefix_of(dir),
    ensures
        shared.is_prefix_of(dir.push(name)),
        shared.len() < dir.push(name).len(),
        dir.push(name).take(shared.len() as int) == shared,
{
    assert(dir.push(name).take(shared.len() as int) =~= dir.take(shared.len() as int));
    assert(shared =~= dir.take(shared.len() as int));
}

} // verus!
