//! Edits of generated sources: clients that nobody uses are cut out, and texts replaced.
use vstd::prelude::*;

use crate::text::{chars_of, string_of};

verus! {

/// The first position at or behind `i` at which a pattern stands.
pub open spec fn found_from(s: Seq<char>, pattern: Seq<char>, i: int) -> Option<int>
    decreases s.len() - i + 1,
{
    if i < 0 || i + pattern.len() > s.len() {
        None
    } else if s.subrange(i, i + pattern.len()) == pattern {
        Some(i)
    } else {
        found_from(s, pattern, i + 1)
    }
}

fn find_from(s: &[char], pattern: &[char], from: usize) -> (r: Option<usize>)
    requires
        from <= s.len(),
    ensures
        match r {
            Some(i) => found_from(s@, pattern@, from as int) == Some(i as int) && from <= i && i
                + pattern.len() <= s.len(),
            None => found_from(s@, pattern@, from as int) is None,
        },
{
    let mut i: usize = from;
    while s.len() - i >= pattern.len()
        invariant
            from <= i <= s.len(),
            found_from(s@, pattern@, from as int) == found_from(s@, pattern@, i as int),
        decreases s.len() - i,
    {
        let mut j: usize = 0;
        while j < pattern.len() && s[i + j] == pattern[j]
            invariant
                i + pattern.len() <= s.len(),
                j <= pattern.len(),
                forall|k: int| 0 <= k < j ==> s@[i + k] == #[trigger] pattern@[k],
            decreases pattern.len() - j,
        {
            j += 1;
        }
        let ghost window = s@.subrange(i as int, i + pattern@.len());
        if j == pattern.len() {
            proof {
                assert(window =~= pattern@);
            }
            return Some(i);
        }
        proof {
            assert(window[j as int] != pattern@[j as int]);
        }
        if i == s.len() {
            return None;
        }
        i += 1;
    }
    None
}

/// Why a client cannot be cut out of a generated source.
#[derive(Clone, Copy, Debug, PartialEq, Eq, Structural)]
pub enum CutError {
    /// The client is not declared as expected.
    NoClient,
    /// What follows the client is not as expected.
    NoBoundary,
    /// The client is still mentioned.
    StillMentioned,
}

impl CutError {
    /// The text of the error.
    pub fn message(self) -> (r: String)
        ensures
            r@ == match self {
                CutError::NoClient => "generated client declaration changed"@,
                CutError::NoBoundary => "generated server boundary changed"@,
                CutError::StillMentioned => "unexpected generated client reference"@,
            },
    {
        match self {
            CutError::NoClient => "generated client declaration changed".to_owned(),
            CutError::NoBoundary => "generated server boundary changed".to_owned(),
            CutError::StillMentioned => "unexpected generated client reference".to_owned(),
        }
    }
}

/// A source without what stands from the declaration of a client up to the first handler
/// behind it. Nothing may mention the client any more.
pub open spec fn without_client(
    source: Seq<char>,
    client: Seq<char>,
    first_handler: Seq<char>,
) -> Result<Seq<char>, CutError> {
    let marker = "#[derive(Clone)]\npub struct "@ + client + " {"@;
    let boundary = "\nstruct "@ + first_handler + " {"@;
    match found_from(source, marker, 0) {
        None => Err(CutError::NoClient),
        Some(start) => match found_from(source, boundary, start) {
            None => Err(CutError::NoBoundary),
            Some(end) => {
                let rest = source.take(start) + source.skip(end);
                if found_from(rest, client, 0) is Some {
                    Err(CutError::StillMentioned)
                } else {
                    Ok(rest)
                }
            },
        },
    }
}

/// Cuts a client out of a generated source.
pub fn remove_generated_client(source: &str, client: &str, first_handler: &str) -> (r: Result<
    String,
    CutError,
>)
    ensures
        match r {
            Ok(s) => without_client(source@, client@, first_handler@) == Ok::<
                Seq<char>,
                CutError,
            >(s@),
            Err(e) => without_client(source@, client@, first_handler@) == Err::<
                Seq<char>,
                CutError,
            >(e),
        },
{
    let mut marker = "#[derive(Clone)]\npub struct ".to_owned();
    marker.append(client);
    marker.append(" {");
    let mut boundary = "\nstruct ".to_owned();
    boundary.append(first_handler);
    boundary.append(" {");
    let s = chars_of(source);
    let m = chars_of(marker.as_str());
    let b = chars_of(boundary.as_str());
    let c = chars_of(client);
    let start: usize = match find_from(s.as_slice(), m.as_slice(), 0) {
        Some(i) => i,
        None => {
            return Err(CutError::NoClient);
        },
    };
    let end: usize = match find_from(s.as_slice(), b.as_slice(), start) {
        Some(i) => i,
        None => {
            return Err(CutError::NoBoundary);
        },
    };
    let mut rest = crate::text::sub_chars(s.as_slice(), 0, start);
    let mut tail = crate::text::sub_chars(s.as_slice(), end, s.len());
    proof {
        assert(rest@ =~= source@.take(start as int));
        assert(tail@ =~= source@.skip(end as int));
    }
    rest.append(&mut tail);
    if find_from(rest.as_slice(), c.as_slice(), 0).is_some() {
        return Err(CutError::StillMentioned);
    }
    Ok(string_of(rest.as_slice()))
}

/// A text with every occurrence of a pattern replaced, from left to right. The empty pattern
/// occurs in front of every character and at the end.
pub open spec fn all_replaced(s: Seq<char>, from: Seq<char>, to: Seq<char>) -> Seq<char>
    decreases s.len(),
{
    if from.len() == 0 {
        if s.len() == 0 {
            to
        } else {
            to + seq![s[0]] + all_replaced(s.skip(1), from, to)
        }
    } else {
        match found_from(s, from, 0) {
            None => s,
            Some(i) => if 0 <= i && i + from.len() <= s.len() {
                s.take(i) + to + all_replaced(s.skip(i + from.len()), from, to)
            } else {
                s
            },
        }
    }
}

proof fn lemma_found_shift(s: Seq<char>, pattern: Seq<char>, at: int, i: int)
    requires
        0 <= at <= s.len(),
        0 <= i,
    ensures
        found_from(s.skip(at), pattern, i) == match found_from(s, pattern, at + i) {
            Some(k) => Some(k - at),
            None => None,
        },
    decreases s.len() - i + 1,
{
    let t = s.skip(at);
    if i + pattern.len() <= t.len() {
        assert(t.subrange(i, i + pattern.len()) =~= s.subrange(at + i, at + i + pattern.len()));
        lemma_found_shift(s, pattern, at, i + 1);
    }
}

/// Puts a text in front of every character and at the end.
fn interleave(s: &Vec<char>, t: &Vec<char>) -> (r: Vec<char>)
    ensures
        r@ == all_replaced(s@, Seq::empty(), t@),
{
    let ghost none: Seq<char> = Seq::empty();
    let mut out: Vec<char> = Vec::new();
    let mut at: usize = 0;
    proof {
        assert(s@.skip(0) =~= s@);
        assert(out@ + all_replaced(s@, none, t@) =~= all_replaced(s@, none, t@));
    }
    while at < s.len()
        invariant
            at <= s.len(),
            none.len() == 0,
            all_replaced(s@, none, t@) == out@ + all_replaced(s@.skip(at as int), none, t@),
        decreases s.len() - at,
    {
        let ghost before = out@;
        let mut put = crate::text::copy_chars(t.as_slice());
        out.append(&mut put);
        out.push(s[at]);
        proof {
            let rest = s@.skip(at as int);
            assert(rest.skip(1) =~= s@.skip(at + 1));
            assert(before + (t@ + seq![rest[0]] + all_replaced(rest.skip(1), none, t@)) =~= out@
                + all_replaced(s@.skip(at + 1), none, t@));
        }
        at += 1;
    }
    let mut put = crate::text::copy_chars(t.as_slice());
    proof {
        assert(s@.skip(at as int) =~= Seq::<char>::empty());
    }
    out.append(&mut put);
    out
}

/// Replaces every occurrence of a pattern.
pub fn replace_text(contents: &str, from: &str, to: &str) -> (r: String)
    ensures
        r@ == all_replaced(contents@, from@, to@),
{
    let s = chars_of(contents);
    let p = chars_of(from);
    let t = chars_of(to);
    if p.len() == 0 {
        proof {
            assert(from@ =~= Seq::<char>::empty());
        }
        return string_of(interleave(&s, &t).as_slice());
    }
    let mut out: Vec<char> = Vec::new();
    let mut at: usize = 0;
    proof {
        assert(s@.skip(0) =~= s@);
        assert(out@ + all_replaced(s@, p@, t@) =~= all_replaced(s@, p@, t@));
    }
    loop
        invariant
            at <= s.len(),
            s@ == contents@,
            p@ == from@,
            t@ == to@,
            p@.len() > 0,
            all_replaced(contents@, from@, to@) == out@ + all_replaced(
                s@.skip(at as int),
                p@,
                t@,
            ),
        decreases s.len() - at,
    {
        let ghost rest = s@.skip(at as int);
        proof {
            lemma_found_shift(s@, p@, at as int, 0);
        }
        match find_from(s.as_slice(), p.as_slice(), at) {
            None => {
                let mut tail = crate::text::sub_chars(s.as_slice(), at, s.len());
                proof {
                    assert(tail@ =~= rest);
                }
                out.append(&mut tail);
                return string_of(out.as_slice());
            },
            Some(i) => {
                let ghost before = out@;
                let mut head = crate::text::sub_chars(s.as_slice(), at, i);
                let mut put = crate::text::copy_chars(t.as_slice());
                proof {
                    assert(head@ =~= rest.take(i - at));
                    assert(rest.skip(i - at + p@.len()) =~= s@.skip(i + p@.len()));
                    assert(before + (head@ + t@ + all_replaced(s@.skip(i + p@.len()), p@, t@))
                        =~= before + head@ + t@ + all_replaced(s@.skip(i + p@.len()), p@, t@));
                }
                out.append(&mut head);
                out.append(&mut put);
                at = i + p.len();
            },
        }
    }
}

/// A source out of which a client was cut does not mention it.
pub proof fn law_cut_clients_are_gone(
    source: Seq<char>,
    client: Seq<char>,
    first_handler: Seq<char>,
)
    requires
        without_client(source, client, first_handler) is Ok,
    ensures
        found_from(without_client(source, client, first_handler)->Ok_0, client, 0) is None,
{
}

} // verus!
