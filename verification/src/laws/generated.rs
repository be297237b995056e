//! How generated sources are edited.
use vstd::prelude::*;

use crate::codegen::{all_replaced, found_from, without_client, CutError};

verus! {

/// Whether a pattern stands at a position.
pub open spec fn stands_at(s: Seq<char>, pattern: Seq<char>, i: int) -> bool {
    0 <= i && i + pattern.len() <= s.len() && s.subrange(i, i + pattern.len()) == pattern
}

/// A pattern is found at the first position behind the start at which it stands, and not at
/// all where it stands nowhere there.
pub proof fn law_the_first_occurrence_is_found(s: Seq<char>, pattern: Seq<char>, from: int, k: int)
    requires
        from >= 0,
    ensures
        found_from(s, pattern, from) == Some(k) <==> {
            &&& from <= k
            &&& stands_at(s, pattern, k)
            &&& forall|j: int| from <= j < k ==> !(#[trigger] stands_at(s, pattern, j))
        },
        found_from(s, pattern, from) is None <==> forall|j: int|
            from <= j ==> !(#[trigger] stands_at(s, pattern, j)),
    decreases s.len() - from + 1,
{
    if from + pattern.len() > s.len() {
    } else if stands_at(s, pattern, from) {
        if k > from {
            assert(stands_at(s, pattern, from));
        }
    } else {
        law_the_first_occurrence_is_found(s, pattern, from + 1, k);
    }
}

/// Where a pattern occurs first, it is replaced, what stands in front of it stays, and what is
/// behind it is treated in the same way; a text without the pattern stays.
pub proof fn law_every_occurrence_is_replaced(
    s: Seq<char>,
    from: Seq<char>,
    to: Seq<char>,
    i: int,
)
    requires
        from.len() > 0,
    ensures
        (forall|j: int| !(#[trigger] stands_at(s, from, j))) ==> all_replaced(s, from, to) == s,
        stands_at(s, from, i) && (forall|j: int|
            0 <= j < i ==> !(#[trigger] stands_at(s, from, j))) ==> all_replaced(s, from, to)
            == s.take(i) + to + all_replaced(s.skip(i + from.len()), from, to),
{
    law_the_first_occurrence_is_found(s, from, 0, i);
}

/// A client is cut out from its declaration up to the first handler behind it: what stands in
/// front of the one and from the other on stays. A source without the declaration, without the
/// handler or with a mention that is left is refused.
pub proof fn law_what_is_cut_out(
    source: Seq<char>,
    client: Seq<char>,
    handler: Seq<char>,
    start: int,
    end: int,
)
    requires
        ({
            let marker = "#[derive(Clone)]\npub struct "@ + client + " {"@;
            let boundary = "\nstruct "@ + handler + " {"@;
            &&& stands_at(source, marker, start)
            &&& forall|j: int| 0 <= j < start ==> !(#[trigger] stands_at(source, marker, j))
            &&& start <= end
            &&& stands_at(source, boundary, end)
            &&& forall|j: int| start <= j < end ==> !(#[trigger] stands_at(source, boundary, j))
        }),
    ensures
        ({
            let rest = source.take(start) + source.skip(end);
            &&& (forall|j: int| !(#[trigger] stands_at(rest, client, j))) ==> without_client(
                source,
                client,
                handler,
            ) == Ok::<Seq<char>, CutError>(rest)
            &&& (exists|j: int| #[trigger] stands_at(rest, client, j)) ==> without_client(
                source,
                client,
                handler,
            ) == Err::<Seq<char>, CutError>(CutError::StillMentioned)
        }),
{
    let marker = "#[derive(Clone)]\npub struct "@ + client + " {"@;
    let boundary = "\nstruct "@ + handler + " {"@;
    let rest = source.take(start) + source.skip(end);
    law_the_first_occurrence_is_found(source, marker, 0, start);
    law_the_first_occurrence_is_found(source, boundary, start, end);
    law_the_first_occurrence_is_found(rest, client, 0, 0);
}

/// A source without the declaration of the client is refused, and one without the handler
/// behind it.
pub proof fn law_which_sources_are_refused(
    source: Seq<char>,
    client: Seq<char>,
    handler: Seq<char>,
    start: int,
)
    ensures
        ({
            let marker = "#[derive(Clone)]\npub struct "@ + client + " {"@;
            let boundary = "\nstruct "@ + handler + " {"@;
            &&& (forall|j: int| !(#[trigger] stands_at(source, marker, j))) ==> without_client(
                source,
                client,
                handler,
            ) == Err::<Seq<char>, CutError>(CutError::NoClient)
            &&& stands_at(source, marker, start) && (forall|j: int|
                0 <= j < start ==> !(#[trigger] stands_at(source, marker, j))) && (forall|j: int|
                start <= j ==> !(#[trigger] stands_at(source, boundary, j))) ==> without_client(
                source,
                client,
                handler,
            ) == Err::<Seq<char>, CutError>(CutError::NoBoundary)
        }),
{
    let marker = "#[derive(Clone)]\npub struct "@ + client + " {"@;
    let boundary = "\nstruct "@ + handler + " {"@;
    law_the_first_occurrence_is_found(source, marker, 0, start);
    if start >= 0 {
        law_the_first_occurrence_is_found(source, boundary, start, start);
    }
}

/// The empty pattern stands in front of every character and at the end.
pub proof fn law_what_the_empty_pattern_replaces(c: char, s: Seq<char>, to: Seq<char>)
    ensures
        all_replaced(Seq::empty(), Seq::empty(), to) == to,
        all_replaced(seq![c] + s, Seq::empty(), to) == to + seq![c] + all_replaced(
            s,
            Seq::empty(),
            to,
        ),
{
    assert((seq![c] + s).skip(1) =~= s);
}

} // verus!
