//! Unix paths as text: joining, components, prefixes.
use vstd::prelude::*;

use crate::text::{
    chars_eq, chars_of, copy_chars, fields, split, split_on, string_of, Sep,
};

verus! {

/// Whether a path starts at the root.
pub open spec fn is_absolute(p: Seq<char>) -> bool {
    p.len() > 0 && p[0] == '/'
}

/// A path behind a base: the path itself where it is absolute, else the base, a
/// slash where the base needs one, and the path.
pub open spec fn joined(base: Seq<char>, p: Seq<char>) -> Seq<char> {
    if is_absolute(p) {
        p
    } else if base.len() > 0 && base.last() != '/' {
        base.push('/') + p
    } else {
        base + p
    }
}

/// Joins a path to a base.
pub fn join(base: &str, p: &str) -> (r: String)
    ensures
        r@ == joined(base@, p@),
{
    let b = chars_of(base);
    let t = chars_of(p);
    if t.len() > 0 && t[0] == '/' {
        return p.to_owned();
    }
    let mut s = base.to_owned();
    if b.len() > 0 && b[b.len() - 1] != '/' {
        s.push('/');
    }
    s.append(p);
    proof {
        assert(s@ =~= joined(base@, p@));
    }
    s
}

/// The path without the slashes in front.
pub open spec fn without_root(p: Seq<char>) -> Seq<char>
    decreases p.len(),
{
    if p.len() > 0 && p[0] == '/' {
        without_root(p.skip(1))
    } else {
        p
    }
}

/// The path without the slashes at the end.
pub open spec fn without_trail(p: Seq<char>) -> Seq<char>
    decreases p.len(),
{
    if p.len() > 0 && p.last() == '/' {
        without_trail(p.drop_last())
    } else {
        p
    }
}

/// Removes the slashes in front of a path.
pub fn strip_root(p: &str) -> (r: String)
    ensures
        r@ == without_root(p@),
{
    let c = chars_of(p);
    let mut i: usize = 0;
    proof {
        assert(p@.skip(0) =~= p@);
    }
    while i < c.len() && c[i] == '/'
        invariant
            i <= c.len(),
            c@ == p@,
            without_root(p@) == without_root(p@.skip(i as int)),
        decreases c.len() - i,
    {
        proof {
            assert(p@.skip(i as int).skip(1) =~= p@.skip(i + 1));
        }
        i += 1;
    }
    let rest = crate::text::sub_chars(c.as_slice(), i, c.len());
    proof {
        assert(rest@ =~= p@.skip(i as int));
    }
    string_of(rest.as_slice())
}

/// Removes the slashes in front of a path and at its end.
pub fn strip_slashes(p: &str) -> (r: String)
    ensures
        r@ == without_trail(without_root(p@)),
{
    let s = strip_root(p);
    let c = chars_of(s.as_str());
    let mut j: usize = c.len();
    proof {
        assert(s@.take(j as int) =~= s@);
    }
    while j > 0 && c[j - 1] == '/'
        invariant
            j <= c.len(),
            c@ == s@,
            without_trail(s@) == without_trail(s@.take(j as int)),
        decreases j,
    {
        proof {
            assert(s@.take(j as int).drop_last() =~= s@.take(j - 1));
            assert(s@.take(j as int).last() == c@[j - 1]);
        }
        j -= 1;
    }
    let rest = crate::text::sub_chars(c.as_slice(), 0, j);
    proof {
        assert(rest@ =~= s@.take(j as int));
        if j > 0 {
            assert(s@.take(j as int).last() == c@[j - 1]);
        }
    }
    string_of(rest.as_slice())
}

/// Whether a piece between slashes names something.
pub open spec fn is_named(p: Seq<char>) -> bool {
    p.len() > 0 && p != seq!['.']
}

/// The components of a path: the pieces between slashes, without empty ones and
/// without `.`, which counts only at the start of a relative path.
pub open spec fn components(p: Seq<char>) -> Seq<Seq<char>> {
    let pieces = split_on(p, Sep::Char('/'));
    (if pieces[0] == seq!['.'] {
        seq![seq!['.']]
    } else {
        Seq::empty()
    }) + pieces.filter(|c: Seq<char>| is_named(c))
}

/// Splits a path into its components.
pub fn components_of(p: &[char]) -> (r: Vec<Vec<char>>)
    ensures
        fields(r@) == components(p@),
{
    let pieces = split(p, Sep::Char('/'));
    let ghost all = split_on(p@, Sep::Char('/'));
    let ghost named = |c: Seq<char>| is_named(c);
    let mut out: Vec<Vec<char>> = Vec::new();
    let dot: Vec<char> = vec!['.'];
    proof {
        assert(dot@ =~= seq!['.']);
        assert(all[0] == pieces@[0]@);
    }
    let ghost lead: Seq<Seq<char>> = if all[0] == seq!['.'] {
        seq![seq!['.']]
    } else {
        Seq::empty()
    };
    if chars_eq(pieces[0].as_slice(), dot.as_slice()) {
        out.push(copy_chars(dot.as_slice()));
    }
    let mut i: usize = 0;
    reveal(Seq::filter);
    proof {
        assert(fields(out@) =~= lead);
        assert(all.take(0).filter(named) =~= Seq::empty());
        assert(fields(out@) =~= lead + all.take(0).filter(named));
    }
    while i < pieces.len()
        invariant
            i <= pieces.len(),
            all == fields(pieces@),
            dot@ == seq!['.'],
            named == (|c: Seq<char>| is_named(c)),
            fields(out@) == lead + all.take(i as int).filter(named),
        decreases pieces.len() - i,
    {
        reveal(Seq::filter);
        proof {
            assert(all.take(i + 1).drop_last() =~= all.take(i as int));
            assert(all.take(i + 1).last() == pieces@[i as int]@);
        }
        if pieces[i].len() > 0 && !chars_eq(pieces[i].as_slice(), dot.as_slice()) {
            let ghost was = fields(out@);
            let piece = copy_chars(pieces[i].as_slice());
            out.push(piece);
            proof {
                assert(fields(out@) =~= was.push(piece@));
                assert(fields(out@) =~= lead + all.take(i + 1).filter(named));
            }
        }
        i += 1;
    }
    proof {
        assert(all.take(all.len() as int) =~= all);
    }
    out
}

/// Whether the components of a path begin with those of a prefix.
pub open spec fn is_under(p: Seq<char>, prefix: Seq<char>) -> bool {
    is_absolute(p) == is_absolute(prefix) && components(prefix).is_prefix_of(components(p))
}

/// Tells whether the components of a path begin with those of a prefix.
pub fn under(p: &str, prefix: &str) -> (r: bool)
    ensures
        r == is_under(p@, prefix@),
{
    let a = chars_of(p);
    let b = chars_of(prefix);
    let rooted = a.len() > 0 && a[0] == '/';
    if rooted != (b.len() > 0 && b[0] == '/') {
        return false;
    }
    let x = components_of(a.as_slice());
    let y = components_of(b.as_slice());
    let ghost cx = fields(x@);
    let ghost cy = fields(y@);
    if x.len() < y.len() {
        return false;
    }
    let mut i: usize = 0;
    while i < y.len()
        invariant
            i <= y.len() <= x.len(),
            cx == fields(x@),
            cy == fields(y@),
            cx == components(p@),
            cy == components(prefix@),
            forall|k: int| 0 <= k < i ==> cx[k] == cy[k],
        decreases y.len() - i,
    {
        if !chars_eq(x[i].as_slice(), y[i].as_slice()) {
            proof {
                assert(cx[i as int] != cy[i as int]);
                assert(cx.subrange(0, cy.len() as int)[i as int] == cx[i as int]);
            }
            return false;
        }
        i += 1;
    }
    proof {
        assert(cx.subrange(0, cy.len() as int) =~= cy);
    }
    true
}

/// A path without the slashes and the `.` components at its end. The root stays.
pub open spec fn trim_tail(p: Seq<char>) -> Seq<char>
    decreases p.len(),
{
    let n = p.len() as int;
    if n > 1 && p[n - 1] == '/' {
        trim_tail(p.drop_last())
    } else if n > 1 && p[n - 1] == '.' && p[n - 2] == '/' {
        trim_tail(p.drop_last())
    } else {
        p
    }
}

/// A path up to its last slash.
pub open spec fn to_last_slash(p: Seq<char>) -> Seq<char>
    decreases p.len(),
{
    if p.len() > 0 && p.last() != '/' {
        to_last_slash(p.drop_last())
    } else {
        p
    }
}

/// The path without its last component, where it has one.
pub open spec fn parent_of(p: Seq<char>) -> Option<Seq<char>> {
    let q = trim_tail(p);
    if q.len() == 0 || q == seq!['/'] {
        None
    } else {
        Some(trim_tail(to_last_slash(q)))
    }
}

fn tail_end(c: &[char], from: usize) -> (r: usize)
    requires
        from <= c.len(),
    ensures
        r <= from,
        c@.take(r as int) == trim_tail(c@.take(from as int)),
{
    let mut n: usize = from;
    while n > 1 && (c[n - 1] == '/' || (c[n - 1] == '.' && c[n - 2] == '/'))
        invariant
            n <= from <= c.len(),
            trim_tail(c@.take(n as int)) == trim_tail(c@.take(from as int)),
        decreases n,
    {
        proof {
            assert(c@.take(n as int).drop_last() =~= c@.take(n - 1));
            assert(c@.take(n as int)[n - 1] == c@[n - 1]);
            assert(c@.take(n as int)[n - 2] == c@[n - 2]);
        }
        n -= 1;
    }
    proof {
        if n > 1 {
            assert(c@.take(n as int)[n - 1] == c@[n - 1]);
            assert(c@.take(n as int)[n - 2] == c@[n - 2]);
        }
    }
    n
}

/// The path without its last component.
pub fn parent(p: &str) -> (r: Option<String>)
    ensures
        match r {
            Some(s) => parent_of(p@) == Some(s@),
            None => parent_of(p@) is None,
        },
{
    let c = chars_of(p);
    proof {
        assert(c@.take(c@.len() as int) =~= p@);
    }
    let n: usize = tail_end(c.as_slice(), c.len());
    let ghost q = trim_tail(p@);
    proof {
        assert(q == c@.take(n as int));
        if q == seq!['/'] {
            assert(q.len() == 1);
            assert(c@[0] == q[0]);
        }
    }
    if n == 0 || (n == 1 && c[0] == '/') {
        proof {
            if n == 1 {
                assert(q =~= seq!['/']);
            }
        }
        return None;
    }
    let mut m: usize = n;
    while m > 0 && c[m - 1] != '/'
        invariant
            m <= n <= c.len(),
            to_last_slash(c@.take(n as int)) == to_last_slash(c@.take(m as int)),
        decreases m,
    {
        proof {
            assert(c@.take(m as int).drop_last() =~= c@.take(m - 1));
            assert(c@.take(m as int).last() == c@[m - 1]);
        }
        m -= 1;
    }
    proof {
        if m > 0 {
            assert(c@.take(m as int).last() == c@[m - 1]);
        }
    }
    let k: usize = tail_end(c.as_slice(), m);
    let s = crate::text::sub_chars(c.as_slice(), 0, k);
    proof {
        assert(s@ =~= c@.take(k as int));
    }
    Some(string_of(s.as_slice()))
}

} // verus!
