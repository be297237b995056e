//! What a copy leaves behind, for every request.
use vstd::prelude::*;

use super::count::{before, lemma_staged_before, once, staged, times};
use crate::copy_file::{
    copy_judged, copy_steps, depth, last_dot, refusal_of, slashed, steps_out, target_of, temporary, CopyFileRequest, CopyOutcome, CopyRefusal, CopyStep,
    CopyVerdict,
};
use crate::path::is_under;

verus! {

/// Whether a request is for a directory.
pub open spec fn is_directory(req: CopyFileRequest) -> bool {
    req.file_mode & 0o040000u32 == 0o040000u32
}

/// Whether a request is for a link.
pub open spec fn is_link(req: CopyFileRequest) -> bool {
    !is_directory(req) && req.file_mode & 0o120000u32 == 0o120000u32
}

/// Whether a request is for a file.
pub open spec fn is_file(req: CopyFileRequest) -> bool {
    !is_directory(req) && !is_link(req)
}

/// Whether an unsigned number has the bits of a signed one.
pub open spec fn same_bits(n: u32, signed: i32) -> bool {
    (n - signed) % 0x1_0000_0000 == 0
}

/// Whether an unsigned number has the bits of a signed one.
pub open spec fn same_wide_bits(n: u64, signed: i64) -> bool {
    (n - signed) % 0x1_0000_0000_0000_0000 == 0
}

/// How often each step of a copy is taken. Whatever is copied gets the owner and the group
/// of the request, once, and directories and files get its permissions.
pub proof fn law_a_copy_takes_the_steps_of_its_kind(req: CopyFileRequest, uid: u32, gid: u32)
    requires
        same_bits(uid, req.uid),
        same_bits(gid, req.gid),
    ensures
        ({
            let s = copy_steps(req);
            let perm = req.file_mode & 0o7777u32;
            let dir = is_directory(req);
            let link = is_link(req);
            let file = is_file(req);
            &&& times(s, CopyStep::RemoveFile) == once(dir)
            &&& forall|m: u32|
                #[trigger] times(s, CopyStep::MakeDirectory(m)) == once(dir && m == perm)
            &&& times(s, CopyStep::OpenDirectory) == once(dir)
            &&& times(s, CopyStep::RemoveAll) == once(!dir && req.offset == 0)
            &&& times(s, CopyStep::MakeLink) == once(link)
            &&& forall|u: u32, g: u32|
                #[trigger] times(s, CopyStep::OwnLink(u, g)) == once(link && u == uid && g == gid)
            &&& forall|truncate: bool, m: u32|
                #[trigger] times(s, CopyStep::OpenTemp(truncate, m)) == once(
                    file && truncate == (req.offset == 0) && m == perm,
                )
            &&& forall|n: u64|
                #[trigger] times(s, CopyStep::WriteAt(n)) == once(
                    file && same_wide_bits(n, req.offset),
                )
            &&& times(s, CopyStep::CheckSize) == once(file)
            &&& forall|m: u32|
                #[trigger] times(s, CopyStep::SetMode(m)) == once((dir || file) && m == perm)
            &&& forall|u: u32, g: u32|
                #[trigger] times(s, CopyStep::Own(u, g)) == once(
                    (dir || file) && u == uid && g == gid,
                )
            &&& times(s, CopyStep::Rename) == once(file)
        }),
{
    let s = copy_steps(req);
    assert forall|x: CopyStep| #[trigger]
        times(s, x) == step_count(req, uid, gid, x) by {
        lemma_step_count(req, uid, gid, x);
    }
}

spec fn step_count(req: CopyFileRequest, uid: u32, gid: u32, x: CopyStep) -> nat {
    let perm = req.file_mode & 0o7777u32;
    let dir = is_directory(req);
    let link = is_link(req);
    let file = is_file(req);
    match x {
        CopyStep::RemoveFile => once(dir),
        CopyStep::MakeDirectory(m) => once(dir && m == perm),
        CopyStep::OpenDirectory => once(dir),
        CopyStep::RemoveAll => once(!dir && req.offset == 0),
        CopyStep::MakeLink => once(link),
        CopyStep::OwnLink(u, g) => once(link && u == uid && g == gid),
        CopyStep::OpenTemp(truncate, m) => once(
            file && truncate == (req.offset == 0) && m == perm,
        ),
        CopyStep::WriteAt(n) => once(file && same_wide_bits(n, req.offset)),
        CopyStep::CheckSize => once(file),
        CopyStep::SetMode(m) => once((dir || file) && m == perm),
        CopyStep::Own(u, g) => once((dir || file) && u == uid && g == gid),
        CopyStep::Rename => once(file),
    }
}

proof fn lemma_step_count(req: CopyFileRequest, uid: u32, gid: u32, x: CopyStep)
    requires
        same_bits(uid, req.uid),
        same_bits(gid, req.gid),
    ensures
        times(copy_steps(req), x) == step_count(req, uid, gid, x),
{
    broadcast use super::count::group_times;

    let perm = req.file_mode & 0o7777u32;
    let offset = crate::copy_file::unsigned64(req.offset) as u64;
    assert(same_wide_bits(offset, req.offset));
    if let CopyStep::WriteAt(n) = x {
        assert(same_wide_bits(n, req.offset) ==> n == offset);
    }
    super::count::lemma_times_five(
        CopyStep::RemoveFile,
        CopyStep::MakeDirectory(perm),
        CopyStep::OpenDirectory,
        CopyStep::SetMode(perm),
        CopyStep::Own(uid, gid),
        x,
    );
    super::count::lemma_times_two(CopyStep::MakeLink, CopyStep::OwnLink(uid, gid), x);
    super::count::lemma_times_six(
        CopyStep::OpenTemp(req.offset == 0, perm),
        CopyStep::WriteAt(offset),
        CopyStep::CheckSize,
        CopyStep::SetMode(perm),
        CopyStep::Own(uid, gid),
        CopyStep::Rename,
        x,
    );
}

/// The stage of a step: what is in the way is removed, then the new thing is made, filled
/// and checked; then come its permissions, its owner, and last its name.
pub open spec fn stage_of(step: CopyStep) -> Option<int> {
    match step {
        CopyStep::RemoveFile => Some(0),
        CopyStep::RemoveAll => Some(0),
        CopyStep::MakeDirectory(_) => Some(1),
        CopyStep::MakeLink => Some(1),
        CopyStep::OpenTemp(_, _) => Some(1),
        CopyStep::OpenDirectory => Some(2),
        CopyStep::WriteAt(_) => Some(2),
        CopyStep::CheckSize => Some(3),
        CopyStep::SetMode(_) => Some(4),
        CopyStep::OwnLink(_, _) => Some(5),
        CopyStep::Own(_, _) => Some(5),
        CopyStep::Rename => Some(6),
    }
}

/// The steps of a copy come in the order of their stages.
pub proof fn law_copy_steps_come_in_order(req: CopyFileRequest, a: CopyStep, b: CopyStep)
    requires
        stage_of(a)->0 < stage_of(b)->0,
    ensures
        before(copy_steps(req), a, b),
{
    let st = |step: CopyStep| stage_of(step);
    let s = copy_steps(req);
    assert(staged(s, st, 0, 7));
    lemma_staged_before(s, st, 0, 7, a, b);
}

/// The owner that a run of steps leaves behind, where it sets one.
pub open spec fn owner_after(steps: Seq<CopyStep>) -> Option<(u32, u32)>
    decreases steps.len(),
{
    if steps.len() == 0 {
        None
    } else {
        match steps.last() {
            CopyStep::Own(u, g) => Some((u, g)),
            CopyStep::OwnLink(u, g) => Some((u, g)),
            _ => owner_after(steps.drop_last()),
        }
    }
}

proof fn lemma_owner(steps: Seq<CopyStep>, i: int)
    requires
        0 <= i < steps.len(),
        steps[i] is Own || steps[i] is OwnLink,
        forall|j: int|
            i < j < steps.len() ==> !(#[trigger] steps[j] is Own) && !(steps[j] is OwnLink),
    ensures
        owner_after(steps) == match steps[i] {
            CopyStep::Own(u, g) => Some((u, g)),
            CopyStep::OwnLink(u, g) => Some((u, g)),
            _ => None,
        },
    decreases steps.len(),
{
    if i < steps.len() - 1 {
        let front = steps.drop_last();
        assert forall|j: int| i < j < front.len() implies !(#[trigger] front[j] is Own) && !(
        front[j] is OwnLink) by {
            assert(front[j] == steps[j]);
        }
        lemma_owner(front, i);
        assert(!(steps[steps.len() - 1] is Own) && !(steps[steps.len() - 1] is OwnLink));
    }
}

/// A copy in which every step succeeds leaves its target with the owner and the group of the
/// request, be it a directory, a link or a file.
pub proof fn law_a_complete_copy_has_the_owner_of_its_request(
    req: CopyFileRequest,
    uid: u32,
    gid: u32,
)
    requires
        same_bits(uid, req.uid),
        same_bits(gid, req.gid),
    ensures
        owner_after(copy_steps(req)) == Some((uid, gid)),
{
    let s = copy_steps(req);
    let more: int = if req.offset == 0 {
        1
    } else {
        0
    };
    if is_directory(req) {
        lemma_owner(s, 4);
    } else if is_link(req) {
        lemma_owner(s, more + 1);
    } else {
        lemma_owner(s, more + 4);
    }
}

/// Which outcomes a copy survives: a success; a size other than the announced one only lets it
/// wait; and what was to be removed may be missing (error 2) or, where a directory is to come,
/// be one already (error 21 at the removal, error 17 at the making).
pub proof fn law_few_failures_of_a_copy_are_survived(step: CopyStep, errno: i32, n: i64, size: i64)
    ensures
        copy_judged(step, CopyOutcome::Done, size) == CopyVerdict::Next,
        copy_judged(CopyStep::CheckSize, CopyOutcome::Size(n), size) == if n == size {
            CopyVerdict::Next
        } else {
            CopyVerdict::Wait
        },
        copy_judged(step, CopyOutcome::Failed(None), size) == CopyVerdict::Abort,
        copy_judged(step, CopyOutcome::Failed(Some(errno)), size) == if (errno == 2 && (
        step is RemoveFile || step is RemoveAll)) || (errno == 21 && step is RemoveFile) || (errno
            == 17 && step is MakeDirectory) {
            CopyVerdict::Next
        } else {
            CopyVerdict::Abort
        },
{
}

/// The temporary name of `stem.extension` is `stem.tmp`, where the stem is not empty and the
/// extension has no dot.
pub proof fn law_the_extension_is_replaced(
    parents: Seq<Seq<char>>,
    stem: Seq<char>,
    extension: Seq<char>,
)
    requires
        stem.len() > 0,
        !extension.contains('.'),
        stem != seq!['.'] || extension.len() > 0,
    ensures
        temporary(parents.push(stem.push('.') + extension)) == parents.push(
            stem + seq!['.', 't', 'm', 'p'],
        ),
{
    let name = stem.push('.') + extension;
    lemma_last_dot(name, stem.len() as int);
    assert(name.take(stem.len() as int) =~= stem);
    assert(parents.push(name).drop_last() =~= parents);
    if name == seq!['.', '.'] {
        assert(stem =~= seq!['.']);
        assert(extension =~= Seq::empty());
    }
}

/// A name without a dot behind its first letter gets `.tmp` behind it.
pub proof fn law_a_bare_name_is_extended(parents: Seq<Seq<char>>, name: Seq<char>)
    requires
        name != seq!['.', '.'],
        forall|i: int| 0 < i < name.len() ==> #[trigger] name[i] != '.',
    ensures
        temporary(parents.push(name)) == parents.push(name + seq!['.', 't', 'm', 'p']),
{
    assert(parents.push(name).drop_last() =~= parents);
    lemma_no_dot(name);
}

proof fn lemma_last_dot(name: Seq<char>, i: int)
    requires
        0 <= i < name.len(),
        name[i] == '.',
        forall|j: int| i < j < name.len() ==> #[trigger] name[j] != '.',
    ensures
        last_dot(name) == i,
    decreases name.len(),
{
    if i < name.len() - 1 {
        assert(name[name.len() - 1] != '.');
        lemma_last_dot(name.drop_last(), i);
    }
}

proof fn lemma_no_dot(name: Seq<char>)
    requires
        forall|i: int| 0 < i < name.len() ==> #[trigger] name[i] != '.',
    ensures
        last_dot(name) <= 0,
    decreases name.len(),
{
    if name.len() > 0 {
        lemma_no_dot(name.drop_last());
        if name.len() > 1 {
            assert(name[name.len() - 1] != '.');
        }
    }
}

/// How many names the first components of a path have more than steps up.
pub open spec fn rise(parts: Seq<Seq<char>>) -> int {
    parts.len() - times(parts, seq!['.']) - 2 * times(parts, seq!['.', '.'])
}

proof fn lemma_depth(parts: Seq<Seq<char>>)
    ensures
        depth(parts) == rise(parts),
    decreases parts.len(),
{
    broadcast use super::count::group_times;

    if parts.len() > 0 {
        lemma_depth(parts.drop_last());
        assert(parts =~= parts.drop_last().push(parts.last()));
        assert(seq!['.'].len() != seq!['.', '.'].len());
    } else {
        assert(parts =~= Seq::<Seq<char>>::empty());
    }
}

proof fn lemma_out(parts: Seq<Seq<char>>)
    ensures
        steps_out(parts) <==> exists|i: int|
            0 <= i <= parts.len() && rise(#[trigger] parts.take(i)) < 0,
    decreases parts.len(),
{
    lemma_depth(parts);
    assert(parts.take(parts.len() as int) =~= parts);
    if parts.len() > 0 {
        let front = parts.drop_last();
        lemma_out(front);
        if steps_out(front) {
            let i = choose|i: int| 0 <= i <= front.len() && rise(#[trigger] front.take(i)) < 0;
            assert(front.take(i) =~= parts.take(i));
            assert(rise(parts.take(i)) < 0);
        }
        if exists|i: int| 0 <= i <= parts.len() && rise(#[trigger] parts.take(i)) < 0 {
            let i = choose|i: int| 0 <= i <= parts.len() && rise(#[trigger] parts.take(i)) < 0;
            if i < parts.len() {
                assert(front.take(i) =~= parts.take(i));
                assert(rise(front.take(i)) < 0);
            }
        }
        if depth(parts) < 0 {
            assert(rise(parts.take(parts.len() as int)) < 0);
        }
    } else {
        broadcast use super::count::group_times;

        assert(parts =~= Seq::<Seq<char>>::empty());
        if exists|i: int| 0 <= i <= parts.len() && rise(#[trigger] parts.take(i)) < 0 {
            let i = choose|i: int| 0 <= i <= parts.len() && rise(#[trigger] parts.take(i)) < 0;
            assert(parts.take(i) =~= Seq::<Seq<char>>::empty());
        }
    }
}

/// Which paths are refused: those that are not beneath the shared directory, those that have
/// more steps up than names at any point, and those that do not end in a name. All others
/// are accepted.
pub proof fn law_which_paths_are_refused(path: Seq<char>, dir: Seq<char>)
    ensures
        ({
            let t = target_of(path, dir);
            let out = exists|i: int| 0 <= i <= t.len() && rise(#[trigger] t.take(i)) < 0;
            let nameless = t.len() == 0 || t.last() == seq!['.', '.'] || t.last() == seq!['.'];
            refusal_of(path, dir) == if !is_under(path, dir) {
                Some(CopyRefusal::NotBeneath)
            } else if out {
                Some(CopyRefusal::StepsOut)
            } else if nameless {
                Some(CopyRefusal::NoName)
            } else {
                None
            }
        }),
{
    lemma_out(target_of(path, dir));
}

/// Components are written with a slash between each two.
pub proof fn law_components_are_joined_by_slashes(
    a: Seq<Seq<char>>,
    b: Seq<Seq<char>>,
    part: Seq<char>,
)
    requires
        a.len() > 0,
        b.len() > 0,
    ensures
        slashed(seq![part]) == part,
        slashed(a + b) == slashed(a) + seq!['/'] + slashed(b),
    decreases b.len(),
{
    let all = a + b;
    assert(all.drop_last() =~= a + b.drop_last());
    assert(all.last() == b.last());
    if b.len() == 1 {
        assert(a + b.drop_last() =~= a);
        assert(slashed(a).push('/') + b[0] =~= slashed(a) + seq!['/'] + slashed(b));
    } else {
        law_components_are_joined_by_slashes(a, b.drop_last(), part);
        assert((slashed(a) + seq!['/'] + slashed(b.drop_last())).push('/') + b.last() =~= slashed(a)
            + seq!['/'] + (slashed(b.drop_last()).push('/') + b.last()));
    }
}

} // verus!
