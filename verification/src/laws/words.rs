//! How texts and paths are taken apart and put together.
use vstd::prelude::*;

use crate::path::{
    components, is_named, is_under, joined, parent_of, trim_tail, without_root, without_trail,
};
use crate::text::{
    digit_of, lines_of, split_on, split_once_of, trim_back, trim_front, trimmed, without_cr,
    words_on, Sep,
};

verus! {

/// A text without a separator is one piece, and a separator parts the pieces in front of it
/// from those behind it.
pub proof fn law_separators_part_the_pieces(a: Seq<char>, c: char, b: Seq<char>, sep: Sep)
    requires
        sep.hits(c),
    ensures
        split_on(a.push(c) + b, sep) == split_on(a, sep) + split_on(b, sep),
        (forall|i: int| 0 <= i < a.len() ==> !sep.hits(#[trigger] a[i])) ==> split_on(a, sep)
            == seq![a],
    decreases a.len() + b.len(),
{
    if forall|i: int| 0 <= i < a.len() ==> !sep.hits(#[trigger] a[i]) {
        lemma_one_piece(a, sep);
    }
    crate::text::lemma_split_nonempty(b, sep);
    let s = a.push(c) + b;
    if b.len() == 0 {
        assert(s =~= a.push(c));
        assert(s.drop_last() =~= a);
        assert(split_on(s, sep) =~= split_on(a, sep) + split_on(b, sep));
    } else {
        let front = b.drop_last();
        crate::text::lemma_split_nonempty(front, sep);
        law_separators_part_the_pieces(a, c, front, sep);
        assert(s.drop_last() =~= a.push(c) + front);
        assert(s.last() == b.last());
        assert(split_on(s, sep) =~= split_on(a, sep) + split_on(b, sep));
    }
}

proof fn lemma_one_piece(a: Seq<char>, sep: Sep)
    requires
        forall|i: int| 0 <= i < a.len() ==> !sep.hits(#[trigger] a[i]),
    ensures
        split_on(a, sep) == seq![a],
    decreases a.len(),
{
    if a.len() > 0 {
        lemma_one_piece(a.drop_last(), sep);
        assert(!sep.hits(a[a.len() - 1]));
        assert(a.drop_last().push(a.last()) =~= a);
        assert(split_on(a, sep) =~= seq![a]);
    } else {
        assert(a =~= Seq::empty());
    }
}

/// The words of a text are those in front of a separator and those behind it; a text without
/// a separator is one word, or none where it is empty.
pub proof fn law_separators_part_the_words(a: Seq<char>, c: char, b: Seq<char>, sep: Sep)
    requires
        sep.hits(c),
    ensures
        words_on(a.push(c) + b, sep) == words_on(a, sep) + words_on(b, sep),
        (forall|i: int| 0 <= i < a.len() ==> !sep.hits(#[trigger] a[i])) ==> words_on(a, sep)
            == if a.len() > 0 {
            seq![a]
        } else {
            Seq::empty()
        },
{
    law_separators_part_the_pieces(a, c, b, sep);
    let keep = |p: Seq<char>| p.len() > 0;
    lemma_filter_add(split_on(a, sep), split_on(b, sep), keep);
    lemma_filter_one(a, keep);
}

proof fn lemma_filter_add(a: Seq<Seq<char>>, b: Seq<Seq<char>>, keep: spec_fn(Seq<char>) -> bool)
    ensures
        (a + b).filter(keep) == a.filter(keep) + b.filter(keep),
    decreases b.len(),
{
    reveal(Seq::filter);
    if b.len() == 0 {
        assert(a + b =~= a);
        assert(a.filter(keep) + b.filter(keep) =~= a.filter(keep));
    } else {
        lemma_filter_add(a, b.drop_last(), keep);
        assert((a + b).drop_last() =~= a + b.drop_last());
        assert((a + b).last() == b.last());
        assert((a + b).filter(keep) =~= a.filter(keep) + b.filter(keep));
    }
}

proof fn lemma_filter_one(p: Seq<char>, keep: spec_fn(Seq<char>) -> bool)
    ensures
        seq![p].filter(keep) == if keep(p) {
            seq![p]
        } else {
            Seq::empty()
        },
{
    reveal(Seq::filter);
    assert(seq![p].drop_last() =~= Seq::<Seq<char>>::empty());
    assert(seq![p].last() == p);
    assert(seq![p].drop_last().filter(keep) =~= Seq::empty());
    if keep(p) {
        assert(seq![p].filter(keep) =~= seq![p]);
    }
}

/// The first line of a text ends at its first line feed, without a carriage return in front of
/// it; a text without a line feed is one line, or none where it is empty.
pub proof fn law_line_feeds_end_lines(line: Seq<char>, rest: Seq<char>)
    requires
        !line.contains('\n'),
    ensures
        lines_of(line.push('\n') + rest) == seq![
            if line.len() > 0 && line.last() == '\r' {
                line.drop_last()
            } else {
                line
            },
        ] + lines_of(rest),
        lines_of(line) == if line.len() > 0 {
            seq![line]
        } else {
            Seq::empty()
        },
{
    let sep = Sep::Char('\n');
    let f = |p: Seq<char>| without_cr(p);
    assert forall|i: int| 0 <= i < line.len() implies !sep.hits(#[trigger] line[i]) by {
        assert(line.contains(line[i]));
    }
    law_separators_part_the_pieces(line, '\n', rest, sep);
    crate::text::lemma_split_nonempty(rest, sep);
    let pieces = split_on(rest, sep);
    let all = split_on(line.push('\n') + rest, sep);
    assert(all == seq![line] + pieces);
    assert(all.last() == pieces.last());
    assert(all.drop_last() =~= seq![line] + pieces.drop_last());
    assert(all.drop_last().map_values(f) =~= seq![without_cr(line)] + pieces.drop_last().map_values(
        f,
    ));
    assert(lines_of(line.push('\n') + rest) =~= seq![without_cr(line)] + lines_of(rest));
    assert(seq![line].drop_last() =~= Seq::<Seq<char>>::empty());
    assert(seq![line].drop_last().map_values(f) =~= Seq::<Seq<char>>::empty());
    assert(lines_of(line) =~= if line.len() > 0 {
        seq![line]
    } else {
        Seq::empty()
    });
}

/// A text is parted at its first separator, and not at all where it has none.
pub proof fn law_a_text_is_parted_at_its_first_separator(
    a: Seq<char>,
    b: Seq<char>,
    sep: char,
)
    requires
        !a.contains(sep),
    ensures
        split_once_of(a.push(sep) + b, sep) == Some((a, b)),
        split_once_of(a, sep) is None,
{
    lemma_split_once(a, b, sep);
    lemma_split_never(a, sep);
}

pub(crate) proof fn lemma_split_once(a: Seq<char>, b: Seq<char>, sep: char)
    requires
        !a.contains(sep),
    ensures
        split_once_of(a.push(sep) + b, sep) == Some((a, b)),
    decreases a.len(),
{
    let s = a.push(sep) + b;
    if a.len() == 0 {
        assert(s.skip(1) =~= b);
        assert(a =~= Seq::empty());
    } else {
        let t = a.skip(1);
        assert(a.contains(a[0]));
        assert(!t.contains(sep)) by {
            if t.contains(sep) {
                let i = t.index_of(sep);
                assert(a[i + 1] == sep);
            }
        }
        lemma_split_once(t, b, sep);
        assert(s.skip(1) =~= t.push(sep) + b);
        assert(seq![a[0]] + t =~= a);
    }
}

proof fn lemma_split_never(a: Seq<char>, sep: char)
    requires
        !a.contains(sep),
    ensures
        split_once_of(a, sep) is None,
    decreases a.len(),
{
    if a.len() > 0 {
        let t = a.skip(1);
        assert(a.contains(a[0]));
        assert(!t.contains(sep)) by {
            if t.contains(sep) {
                let i = t.index_of(sep);
                assert(a[i + 1] == sep);
            }
        }
        lemma_split_never(t, sep);
    }
}

/// Trimming takes the white space around a text and nothing more.
pub proof fn law_white_space_around_a_text_goes(
    front: Seq<char>,
    s: Seq<char>,
    back: Seq<char>,
)
    requires
        forall|i: int| 0 <= i < front.len() ==> crate::text::is_white(#[trigger] front[i]),
        forall|i: int| 0 <= i < back.len() ==> crate::text::is_white(#[trigger] back[i]),
        s.len() > 0 && !crate::text::is_white(s[0]) && !crate::text::is_white(s.last()),
    ensures
        trimmed(front + s + back) == s,
{
    lemma_trim_front(front, s + back);
    assert(front + s + back =~= front + (s + back));
    lemma_trim_back(s, back);
}

proof fn lemma_trim_front(front: Seq<char>, s: Seq<char>)
    requires
        forall|i: int| 0 <= i < front.len() ==> crate::text::is_white(#[trigger] front[i]),
        s.len() > 0 && !crate::text::is_white(s[0]),
    ensures
        trim_front(front + s) == s,
    decreases front.len(),
{
    if front.len() == 0 {
        assert(front + s =~= s);
    } else {
        assert(crate::text::is_white(front[0]));
        assert((front + s).skip(1) =~= front.skip(1) + s);
        lemma_trim_front(front.skip(1), s);
    }
}

proof fn lemma_trim_back(s: Seq<char>, back: Seq<char>)
    requires
        forall|i: int| 0 <= i < back.len() ==> crate::text::is_white(#[trigger] back[i]),
        s.len() > 0 && !crate::text::is_white(s.last()),
    ensures
        trim_back(s + back) == s,
    decreases back.len(),
{
    if back.len() == 0 {
        assert(s + back =~= s);
    } else {
        assert(crate::text::is_white(back[back.len() - 1]));
        assert((s + back).last() == back.last());
        assert((s + back).drop_last() =~= s + back.drop_last());
        lemma_trim_back(s, back.drop_last());
    }
}

/// The digits are the ten decimal ones, and behind them the letters, small or large, as far as
/// the radix goes; no other character is one.
pub proof fn law_what_digits_are_worth(k: nat, radix: nat)
    requires
        2 <= radix <= 36,
        k < radix,
    ensures
        k < 10 ==> digit_of((48 + k) as char, radix) == k,
        k >= 10 ==> digit_of((87 + k) as char, radix) == k && digit_of((55 + k) as char, radix)
            == k,
        digit_of('/', radix) == radix && digit_of(':', radix) == radix && digit_of('@', radix)
            == radix && digit_of('[', radix) == radix && digit_of('`', radix) == radix && digit_of(
            '{',
            radix,
        ) == radix && digit_of('_', radix) == radix && digit_of('.', radix) == radix,
{
}

/// A name behind a slash is one more component; a slash alone and a dot behind it are none.
pub proof fn law_a_name_behind_a_slash_is_a_component(base: Seq<char>, name: Seq<char>)
    requires
        !name.contains('/'),
    ensures
        name.len() > 0 && name != seq!['.'] ==> components(base.push('/') + name) == components(
            base,
        ).push(name),
        name.len() == 0 || name == seq!['.'] ==> components(base.push('/') + name) == components(
            base,
        ),
{
    let sep = Sep::Char('/');
    let keep = |c: Seq<char>| is_named(c);
    assert forall|i: int| 0 <= i < name.len() implies !sep.hits(#[trigger] name[i]) by {
        assert(name.contains(name[i]));
    }
    lemma_one_piece(name, sep);
    law_separators_part_the_pieces(base, '/', name, sep);
    crate::text::lemma_split_nonempty(base, sep);
    let a = split_on(base, sep);
    lemma_filter_add(a, seq![name], keep);
    lemma_filter_one(name, keep);
    let all = split_on(base.push('/') + name, sep);
    assert(all == a + seq![name]);
    assert(all[0] == a[0]);
    let lead = if a[0] == seq!['.'] {
        seq![seq!['.']]
    } else {
        Seq::empty()
    };
    if is_named(name) {
        assert(lead + (a.filter(keep) + seq![name]) =~= (lead + a.filter(keep)).push(name));
    } else {
        assert(a.filter(keep) + Seq::<Seq<char>>::empty() =~= a.filter(keep));
    }
}

/// What is behind a slash behind a path is beneath it, and a path is beneath itself.
pub proof fn law_what_is_behind_a_path_is_beneath_it(base: Seq<char>, name: Seq<char>)
    requires
        base.len() > 0,
        !name.contains('/'),
    ensures
        is_under(base, base),
        is_under(base.push('/') + name, base),
{
    law_a_name_behind_a_slash_is_a_component(base, name);
    let p = base.push('/') + name;
    assert(p[0] == base[0]);
    let a = components(base);
    assert(a.is_prefix_of(a));
    if name.len() > 0 && name != seq!['.'] {
        assert(a =~= a.push(name).subrange(0, a.len() as int));
        assert(a.is_prefix_of(a.push(name)));
    }
}

/// The parent of a name behind a path is that path; the root and the empty path have none.
pub proof fn law_the_parent_is_what_a_name_is_behind(base: Seq<char>, name: Seq<char>)
    requires
        !name.contains('/'),
        name.len() > 0 && name != seq!['.'],
        base.len() > 0 && base.last() != '/',
        !(base.len() > 1 && base.last() == '.' && base[base.len() - 2] == '/'),
    ensures
        parent_of(base.push('/') + name) == Some(base),
        parent_of(seq!['/'] + name) == Some(seq!['/']),
        parent_of(seq!['/']) is None,
        parent_of(Seq::empty()) is None,
{
    let p = base.push('/') + name;
    assert(name.contains(name.last()));
    lemma_tail_stays(base, name);
    lemma_to_slash(base.push('/'), name);
    assert(trim_tail(base.push('/')) == base) by {
        assert(base.push('/').drop_last() =~= base);
        assert(trim_tail(base) == base);
    }
    assert(p != seq!['/']);
    let q = seq!['/'] + name;
    lemma_tail_stays(Seq::empty(), name);
    assert(Seq::<char>::empty().push('/') + name =~= q);
    lemma_to_slash(Seq::<char>::empty().push('/'), name);
    assert(Seq::<char>::empty().push('/') =~= seq!['/']);
    assert(q.len() > 1);
    assert(trim_tail(seq!['/']) == seq!['/']);
}

proof fn lemma_tail_stays(base: Seq<char>, name: Seq<char>)
    requires
        !name.contains('/'),
        name.len() > 0 && name != seq!['.'],
    ensures
        trim_tail(base.push('/') + name) == base.push('/') + name,
{
    let p = base.push('/') + name;
    assert(p.last() == name.last());
    assert(name.contains(name.last()));
    if name.last() == '.' && p[p.len() - 2] == '/' {
        if name.len() == 1 {
            assert(name =~= seq!['.']);
        } else {
            assert(name.contains(name[name.len() - 2]));
        }
    }
}

proof fn lemma_to_slash(head: Seq<char>, name: Seq<char>)
    requires
        head.len() > 0 && head.last() == '/',
        !name.contains('/'),
    ensures
        crate::path::to_last_slash(head + name) == head,
    decreases name.len(),
{
    if name.len() == 0 {
        assert(head + name =~= head);
    } else {
        assert(name.contains(name.last()));
        let front = name.drop_last();
        assert(!front.contains('/')) by {
            if front.contains('/') {
                let i = front.index_of('/');
                assert(name[i] == '/');
            }
        }
        assert((head + name).drop_last() =~= head + front);
        lemma_to_slash(head, front);
    }
}

/// A path is joined to a base with one slash in between, where the base does not end in one;
/// an absolute path stands for itself.
pub proof fn law_paths_are_joined_by_one_slash(base: Seq<char>, p: Seq<char>)
    ensures
        p.len() > 0 && p[0] == '/' ==> joined(base, p) == p,
        (p.len() == 0 || p[0] != '/') && base.len() > 0 && base.last() != '/' ==> joined(base, p)
            == base + seq!['/'] + p,
        (p.len() == 0 || p[0] != '/') && (base.len() == 0 || base.last() == '/') ==> joined(base, p)
            == base + p,
{
    assert(base.push('/') + p =~= base + seq!['/'] + p);
}

/// The slashes in front of a path go, however many there are, and nothing else.
pub proof fn law_leading_slashes_go(slashes: Seq<char>, p: Seq<char>)
    requires
        forall|i: int| 0 <= i < slashes.len() ==> #[trigger] slashes[i] == '/',
        p.len() == 0 || p[0] != '/',
    ensures
        without_root(slashes + p) == p,
    decreases slashes.len(),
{
    if slashes.len() == 0 {
        assert(slashes + p =~= p);
    } else {
        assert(slashes[0] == '/');
        assert((slashes + p).skip(1) =~= slashes.skip(1) + p);
        law_leading_slashes_go(slashes.skip(1), p);
    }
}

/// The slashes at the end of a path go, however many there are, and nothing else.
pub proof fn law_trailing_slashes_go(p: Seq<char>, slashes: Seq<char>)
    requires
        forall|i: int| 0 <= i < slashes.len() ==> #[trigger] slashes[i] == '/',
        p.len() == 0 || p.last() != '/',
    ensures
        without_trail(p + slashes) == p,
    decreases slashes.len(),
{
    if slashes.len() == 0 {
        assert(p + slashes =~= p);
    } else {
        assert(slashes[slashes.len() - 1] == '/');
        assert((p + slashes).drop_last() =~= p + slashes.drop_last());
        law_trailing_slashes_go(p, slashes.drop_last());
    }
}

/// A path of one piece: a name is one component, a dot alone is one as well, and the empty
/// path has none; a leading slash is none.
pub proof fn law_what_one_piece_is(name: Seq<char>)
    requires
        !name.contains('/'),
    ensures
        components(name) == if name.len() == 0 {
            Seq::<Seq<char>>::empty()
        } else {
            seq![name]
        },
        components(seq!['/']) == Seq::<Seq<char>>::empty(),
{
    let sep = Sep::Char('/');
    let keep = |c: Seq<char>| is_named(c);
    assert forall|i: int| 0 <= i < name.len() implies !sep.hits(#[trigger] name[i]) by {
        assert(name.contains(name[i]));
    }
    lemma_one_piece(name, sep);
    lemma_filter_one(name, keep);
    if name == seq!['.'] {
        assert(seq![seq!['.']] + Seq::<Seq<char>>::empty() =~= seq![name]);
    } else {
        assert(Seq::<Seq<char>>::empty() + seq![name] =~= seq![name]);
        assert(Seq::<Seq<char>>::empty() + Seq::<Seq<char>>::empty() =~= Seq::<Seq<char>>::empty());
    }
    let none = Seq::<char>::empty();
    lemma_one_piece(none, sep);
    lemma_filter_one(none, keep);
    law_separators_part_the_pieces(none, '/', none, sep);
    assert(none.push('/') + none =~= seq!['/']);
    lemma_filter_add(seq![none], seq![none], keep);
    assert(split_on(seq!['/'], sep)[0] == none);
    assert(components(seq!['/']) =~= Seq::<Seq<char>>::empty());
}

/// A number is written with its last digit last, behind what is left of it.
pub proof fn law_how_numbers_are_written(a: nat, d: nat)
    requires
        d < 10,
    ensures
        crate::text::decimal(d) == seq![(48 + d) as char],
        a > 0 ==> crate::text::decimal(10 * a + d) == crate::text::decimal(a).push(
            (48 + d) as char,
        ),
        a > 0 ==> crate::text::signed_decimal(-(a as int)) == seq!['-'] + crate::text::decimal(a),
        crate::text::signed_decimal(a as int) == crate::text::decimal(a),
{
    assert((10 * a + d) / 10 == a && (10 * a + d) % 10 == d);
}

} // verus!
