//! Text primitives over `Seq<char>`: comparison, splitting, trimming, integers.
use vstd::prelude::*;

verus! {

/// `String::push` appends one character and leaves the rest as it was.
pub assume_specification[ String::push ](s: &mut String, c: char)
    ensures
        final(s)@ == old(s)@.push(c),
;

/// The character sequences that a list of strings holds.
pub open spec fn views(v: Seq<String>) -> Seq<Seq<char>> {
    v.map_values(|s: String| s@)
}

/// Whether two strings hold the same characters.
pub fn str_eq(a: &str, b: &str) -> (r: bool)
    ensures
        r == (a@ == b@),
{
    a.to_owned() == b.to_owned()
}

/// The characters of a string, in order.
pub fn chars_of(s: &str) -> (r: Vec<char>)
    ensures
        r@ == s@,
{
    let mut v: Vec<char> = Vec::new();
    for c in it: s.chars()
        invariant
            v@ == s@.take(it.index()),
            it.seq() == s@,
    {
        v.push(c);
    }
    proof {
        assert(s@.take(s@.len() as int) == s@);
    }
    v
}

/// The string that holds the given characters.
pub fn string_of(v: &[char]) -> (r: String)
    ensures
        r@ == v@,
{
    let mut s = String::new();
    let mut i: usize = 0;
    while i < v.len()
        invariant
            i <= v.len(),
            s@ == v@.take(i as int),
        decreases v.len() - i,
    {
        s.push(v[i]);
        i += 1;
    }
    proof {
        assert(v@.take(v@.len() as int) == v@);
    }
    s
}

/// What separates the fields of a text.
#[derive(Clone, Copy)]
pub enum Sep {
    /// One given character.
    Char(char),
    /// Any character with the Unicode `White_Space` property.
    White,
    /// Space, tab, line feed, form feed or carriage return.
    AsciiWhite,
}

/// The characters with the Unicode `White_Space` property.
pub open spec fn is_white(c: char) -> bool {
    let n = c as u32;
    9 <= n <= 13 || n == 0x20 || n == 0x85 || n == 0xa0 || n == 0x1680 || 0x2000 <= n <= 0x200a || n
        == 0x2028 || n == 0x2029 || n == 0x202f || n == 0x205f || n == 0x3000
}

/// Tells whether a character is white space.
pub fn white(c: char) -> (r: bool)
    ensures
        r == is_white(c),
{
    let n: u32 = c as u32;
    (9 <= n && n <= 13) || n == 0x20 || n == 0x85 || n == 0xa0 || n == 0x1680 || (0x2000 <= n && n
        <= 0x200a) || n == 0x2028 || n == 0x2029 || n == 0x202f || n == 0x205f || n == 0x3000
}

impl Sep {
    /// Whether `c` is a separator.
    pub open spec fn hits(self, c: char) -> bool {
        match self {
            Sep::Char(d) => c == d,
            Sep::White => is_white(c),
            Sep::AsciiWhite => c == ' ' || c == '\t' || c == '\n' || c == '\x0c' || c == '\r',
        }
    }

    /// Tells whether `c` is a separator.
    pub fn is_hit(self, c: char) -> (r: bool)
        ensures
            r == self.hits(c),
    {
        match self {
            Sep::Char(d) => c == d,
            Sep::White => white(c),
            Sep::AsciiWhite => c == ' ' || c == '\t' || c == '\n' || c == '\x0c' || c == '\r',
        }
    }
}

/// The character sequences that a list of character vectors holds.
pub open spec fn fields(v: Seq<Vec<char>>) -> Seq<Seq<char>> {
    v.map_values(|s: Vec<char>| s@)
}

/// The pieces of `s` between separators, empty ones among them. There is always
/// one more piece than there are separators.
pub open spec fn split_on(s: Seq<char>, sep: Sep) -> Seq<Seq<char>>
    decreases s.len(),
{
    if s.len() == 0 {
        seq![Seq::empty()]
    } else {
        let before = split_on(s.drop_last(), sep);
        if sep.hits(s.last()) {
            before.push(Seq::empty())
        } else {
            before.drop_last().push(before.last().push(s.last()))
        }
    }
}

/// A split yields at least one piece.
pub proof fn lemma_split_nonempty(s: Seq<char>, sep: Sep)
    ensures
        split_on(s, sep).len() >= 1,
    decreases s.len(),
{
    if s.len() > 0 {
        lemma_split_nonempty(s.drop_last(), sep);
    }
}

/// Splits a text at every separator.
pub fn split(s: &[char], sep: Sep) -> (r: Vec<Vec<char>>)
    ensures
        fields(r@) == split_on(s@, sep),
        r@.len() >= 1,
{
    let mut done: Vec<Vec<char>> = Vec::new();
    let mut cur: Vec<char> = Vec::new();
    let mut i: usize = 0;
    proof {
        assert(fields(done@).push(cur@) =~= split_on(s@.take(0), sep));
    }
    while i < s.len()
        invariant
            i <= s.len(),
            fields(done@).push(cur@) == split_on(s@.take(i as int), sep),
        decreases s.len() - i,
    {
        let c = s[i];
        let ghost before = split_on(s@.take(i as int), sep);
        proof {
            assert(s@.take(i + 1).drop_last() =~= s@.take(i as int));
            assert(s@.take(i + 1).last() == c);
            assert(before.drop_last() =~= fields(done@));
        }
        if sep.is_hit(c) {
            let ghost was = fields(done@);
            let ghost piece = cur@;
            done.push(cur);
            cur = Vec::new();
            proof {
                assert(fields(done@) =~= was.push(piece));
            }
        } else {
            cur.push(c);
        }
        i += 1;
    }
    proof {
        assert(s@.take(s@.len() as int) =~= s@);
    }
    let ghost was = fields(done@);
    let ghost piece = cur@;
    done.push(cur);
    proof {
        assert(fields(done@) =~= was.push(piece));
    }
    done
}

/// The non-empty pieces of `s` between separators.
pub open spec fn words_on(s: Seq<char>, sep: Sep) -> Seq<Seq<char>> {
    split_on(s, sep).filter(|p: Seq<char>| p.len() > 0)
}

/// Splits a text at every separator and drops the empty pieces.
pub fn words(s: &[char], sep: Sep) -> (r: Vec<Vec<char>>)
    ensures
        fields(r@) == words_on(s@, sep),
{
    let pieces = split(s, sep);
    let ghost all = fields(pieces@);
    let ghost keep = |p: Seq<char>| p.len() > 0;
    let mut out: Vec<Vec<char>> = Vec::new();
    let mut i: usize = 0;
    reveal(Seq::filter);
    proof {
        assert(fields(out@) =~= all.take(0).filter(keep));
    }
    while i < pieces.len()
        invariant
            i <= pieces.len(),
            all == fields(pieces@),
            keep == (|p: Seq<char>| p.len() > 0),
            fields(out@) == all.take(i as int).filter(keep),
        decreases pieces.len() - i,
    {
        reveal(Seq::filter);
        proof {
            assert(all.take(i + 1).drop_last() =~= all.take(i as int));
            assert(all.take(i + 1).last() == pieces@[i as int]@);
        }
        if pieces[i].len() > 0 {
            let ghost was = fields(out@);
            let piece = copy_chars(&pieces[i]);
            out.push(piece);
            proof {
                assert(fields(out@) =~= was.push(piece@));
            }
        }
        i += 1;
    }
    proof {
        assert(all.take(all.len() as int) =~= all);
    }
    out
}

/// A vector with the same characters.
pub fn copy_chars(s: &[char]) -> (r: Vec<char>)
    ensures
        r@ == s@,
{
    let mut v: Vec<char> = Vec::new();
    let mut i: usize = 0;
    while i < s.len()
        invariant
            i <= s.len(),
            v@ == s@.take(i as int),
        decreases s.len() - i,
    {
        v.push(s[i]);
        i += 1;
    }
    proof {
        assert(s@.take(s@.len() as int) == s@);
    }
    v
}

/// The characters from `from` up to `to`.
pub fn sub_chars(s: &[char], from: usize, to: usize) -> (r: Vec<char>)
    requires
        from <= to <= s.len(),
    ensures
        r@ == s@.subrange(from as int, to as int),
{
    let mut v: Vec<char> = Vec::new();
    let mut i: usize = from;
    while i < to
        invariant
            from <= i <= to <= s.len(),
            v@ == s@.subrange(from as int, i as int),
        decreases to - i,
    {
        v.push(s[i]);
        i += 1;
    }
    v
}

/// Whether two character vectors hold the same characters.
pub fn chars_eq(a: &[char], b: &[char]) -> (r: bool)
    ensures
        r == (a@ == b@),
{
    if a.len() != b.len() {
        return false;
    }
    let mut i: usize = 0;
    while i < a.len()
        invariant
            a.len() == b.len(),
            i <= a.len(),
            forall|k: int| 0 <= k < i ==> a@[k] == b@[k],
        decreases a.len() - i,
    {
        if a[i] != b[i] {
            return false;
        }
        i += 1;
    }
    proof {
        assert(a@ =~= b@);
    }
    true
}

/// Whether a text starts with a prefix.
pub fn starts_with(s: &[char], p: &[char]) -> (r: bool)
    ensures
        r == p@.is_prefix_of(s@),
{
    if s.len() < p.len() {
        return false;
    }
    let mut i: usize = 0;
    while i < p.len()
        invariant
            p.len() <= s.len(),
            i <= p.len(),
            forall|k: int| 0 <= k < i ==> s@[k] == p@[k],
        decreases p.len() - i,
    {
        if s[i] != p[i] {
            proof {
                assert(s@.subrange(0, p@.len() as int)[i as int] != p@[i as int]);
            }
            return false;
        }
        i += 1;
    }
    proof {
        assert(s@.subrange(0, p@.len() as int) =~= p@);
    }
    true
}

/// `s` without the white space in front.
pub open spec fn trim_front(s: Seq<char>) -> Seq<char>
    decreases s.len(),
{
    if s.len() > 0 && is_white(s[0]) {
        trim_front(s.skip(1))
    } else {
        s
    }
}

/// `s` without the white space at the end.
pub open spec fn trim_back(s: Seq<char>) -> Seq<char>
    decreases s.len(),
{
    if s.len() > 0 && is_white(s.last()) {
        trim_back(s.drop_last())
    } else {
        s
    }
}

/// `s` without the white space around it.
pub open spec fn trimmed(s: Seq<char>) -> Seq<char> {
    trim_back(trim_front(s))
}

/// Removes the white space around a text.
pub fn trim(s: &[char]) -> (r: Vec<char>)
    ensures
        r@ == trimmed(s@),
{
    let mut i: usize = 0;
    proof {
        assert(s@.skip(0) =~= s@);
    }
    while i < s.len() && white(s[i])
        invariant
            i <= s.len(),
            trim_front(s@) == trim_front(s@.skip(i as int)),
        decreases s.len() - i,
    {
        proof {
            assert(s@.skip(i as int).skip(1) =~= s@.skip(i + 1));
        }
        i += 1;
    }
    let ghost rest = s@.skip(i as int);
    let mut j: usize = s.len();
    proof {
        assert(s@.subrange(i as int, j as int) =~= rest);
    }
    while j > i && white(s[j - 1])
        invariant
            i <= j <= s.len(),
            trim_back(rest) == trim_back(s@.subrange(i as int, j as int)),
        decreases j,
    {
        proof {
            assert(s@.subrange(i as int, j as int).drop_last() =~= s@.subrange(i as int, j - 1));
        }
        j -= 1;
    }
    sub_chars(s, i, j)
}

/// The value of a digit, or `radix` where `c` is none. Letters count from 10.
pub open spec fn digit_of(c: char, radix: nat) -> nat {
    let n = c as nat;
    let d = if 48 <= n <= 57 {
        (n - 48) as nat
    } else if 97 <= n <= 122 {
        (n - 87) as nat
    } else if 65 <= n <= 90 {
        (n - 55) as nat
    } else {
        radix
    };
    if d < radix {
        d
    } else {
        radix
    }
}

/// Whether a text is a non-empty run of digits.
pub open spec fn all_digits(s: Seq<char>, radix: nat) -> bool {
    s.len() > 0 && forall|i: int| 0 <= i < s.len() ==> digit_of(#[trigger] s[i], radix) < radix
}

/// The number that a run of digits writes.
pub open spec fn digits_value(s: Seq<char>, radix: nat) -> nat
    decreases s.len(),
{
    if s.len() == 0 {
        0
    } else {
        digits_value(s.drop_last(), radix) * radix + digit_of(s.last(), radix)
    }
}

/// The unsigned number that a text writes: digits, with an optional plus sign in
/// front, and no more than `max`.
pub open spec fn uint_of(s: Seq<char>, radix: nat, max: nat) -> Option<nat> {
    let d = if s.len() > 0 && s[0] == '+' {
        s.skip(1)
    } else {
        s
    };
    if all_digits(d, radix) && digits_value(d, radix) <= max {
        Some(digits_value(d, radix))
    } else {
        None
    }
}

/// The signed number that a text writes in decimal, from `min` up to `max`.
pub open spec fn int_of(s: Seq<char>, min: int, max: int) -> Option<int> {
    if s.len() > 0 && s[0] == '-' {
        let d = s.skip(1);
        if all_digits(d, 10) && -digits_value(d, 10) >= min {
            Some(-digits_value(d, 10))
        } else {
            None
        }
    } else {
        match uint_of(s, 10, max as nat) {
            Some(n) => Some(n as int),
            None => None,
        }
    }
}

proof fn lemma_digits_value_grows(s: Seq<char>, i: int, radix: nat)
    requires
        0 <= i <= s.len(),
        radix >= 1,
    ensures
        digits_value(s.take(i), radix) <= digits_value(s, radix),
    decreases s.len() - i,
{
    if i < s.len() {
        lemma_digits_value_grows(s, i + 1, radix);
        assert(s.take(i + 1).drop_last() =~= s.take(i));
        let v = digits_value(s.take(i), radix);
        assert(v * radix >= v) by (nonlinear_arith)
            requires
                radix >= 1,
        ;
    } else {
        assert(s.take(i) =~= s);
    }
}

fn digit(c: char, radix: u32) -> (r: u32)
    requires
        radix <= 36,
    ensures
        r == digit_of(c, radix as nat),
{
    let n: u32 = c as u32;
    let d: u32 = if 48 <= n && n <= 57 {
        n - 48
    } else if 97 <= n && n <= 122 {
        n - 87
    } else if 65 <= n && n <= 90 {
        n - 55
    } else {
        radix
    };
    if d < radix {
        d
    } else {
        radix
    }
}

fn parse_digits(s: &[char], from: usize, radix: u32) -> (r: Option<u64>)
    requires
        from <= s.len(),
        2 <= radix <= 36,
    ensures
        r is Some <==> (all_digits(s@.skip(from as int), radix as nat) && digits_value(
            s@.skip(from as int),
            radix as nat,
        ) <= u64::MAX),
        r matches Some(n) ==> n == digits_value(s@.skip(from as int), radix as nat),
{
    let ghost d = s@.skip(from as int);
    if from == s.len() {
        return None;
    }
    let mut value: u64 = 0;
    let mut i: usize = from;
    while i < s.len()
        invariant
            from <= i <= s.len(),
            d == s@.skip(from as int),
            2 <= radix <= 36,
            forall|k: int| 0 <= k < i - from ==> digit_of(#[trigger] d[k], radix as nat) < radix,
            value == digits_value(d.take(i - from), radix as nat),
        decreases s.len() - i,
    {
        let v: u32 = digit(s[i], radix);
        proof {
            assert(d[i - from] == s@[i as int]);
            assert(d.take(i - from + 1).drop_last() =~= d.take(i - from));
            lemma_digits_value_grows(d, i - from + 1, radix as nat);
        }
        if v >= radix {
            return None;
        }
        match value.checked_mul(radix as u64) {
            None => {
                return None;
            },
            Some(m) => match m.checked_add(v as u64) {
                None => {
                    return None;
                },
                Some(n) => {
                    value = n;
                },
            },
        }
        i += 1;
    }
    proof {
        assert(d.take(d.len() as int) =~= d);
    }
    Some(value)
}

/// Reads an unsigned 64-bit number.
pub fn parse_u64(s: &[char], radix: u32) -> (r: Option<u64>)
    requires
        2 <= radix <= 36,
    ensures
        match r {
            Some(n) => uint_of(s@, radix as nat, u64::MAX as nat) == Some(n as nat),
            None => uint_of(s@, radix as nat, u64::MAX as nat) is None,
        },
{
    if s.len() > 0 && s[0] == '+' {
        parse_digits(s, 1, radix)
    } else {
        proof {
            assert(s@.skip(0) =~= s@);
        }
        parse_digits(s, 0, radix)
    }
}

/// Reads a signed 64-bit number.
pub fn parse_i64(s: &[char]) -> (r: Option<i64>)
    ensures
        match r {
            Some(n) => int_of(s@, i64::MIN as int, i64::MAX as int) == Some(n as int),
            None => int_of(s@, i64::MIN as int, i64::MAX as int) is None,
        },
{
    if s.len() > 0 && s[0] == '-' {
        match parse_digits(s, 1, 10) {
            Some(n) => {
                if n < 0x8000_0000_0000_0000 {
                    Some(-(n as i64))
                } else if n == 0x8000_0000_0000_0000 {
                    Some(i64::MIN)
                } else {
                    None
                }
            },
            None => None,
        }
    } else {
        match parse_u64(s, 10) {
            Some(n) => {
                if n <= 0x7fff_ffff_ffff_ffff {
                    Some(n as i64)
                } else {
                    None
                }
            },
            None => None,
        }
    }
}

/// Reads a signed 32-bit number.
pub fn parse_i32(s: &[char]) -> (r: Option<i32>)
    ensures
        match r {
            Some(n) => int_of(s@, i32::MIN as int, i32::MAX as int) == Some(n as int),
            None => int_of(s@, i32::MIN as int, i32::MAX as int) is None,
        },
{
    match parse_i64(s) {
        Some(n) => {
            if -0x8000_0000 <= n && n <= 0x7fff_ffff {
                Some(n as i32)
            } else {
                None
            }
        },
        None => None,
    }
}

/// A number in decimal, without leading zeros.
pub open spec fn decimal(n: nat) -> Seq<char>
    decreases n,
{
    if n < 10 {
        seq![(48 + n) as char]
    } else {
        decimal(n / 10).push((48 + n % 10) as char)
    }
}

/// A signed number in decimal.
pub open spec fn signed_decimal(n: int) -> Seq<char> {
    if n < 0 {
        seq!['-'] + decimal((-n) as nat)
    } else {
        decimal(n as nat)
    }
}

/// A number that was written in decimal is read back.
pub proof fn law_decimals_are_read_back(n: nat)
    ensures
        all_digits(decimal(n), 10),
        digits_value(decimal(n), 10) == n,
        decimal(n)[0] != '-' && decimal(n)[0] != '+',
    decreases n,
{
    let d = decimal(n);
    let c = (48 + n % 10) as char;
    assert(c as u32 == 48 + n % 10);
    assert(digit_of(c, 10) == n % 10);
    if n < 10 {
        assert(d.drop_last() =~= Seq::<char>::empty());
        assert(digits_value(d.drop_last(), 10) == 0);
    } else {
        law_decimals_are_read_back(n / 10);
        assert(d.drop_last() =~= decimal(n / 10));
        assert forall|i: int| 0 <= i < d.len() implies digit_of(#[trigger] d[i], 10) < 10 by {
            if i < d.len() - 1 {
                assert(d[i] == decimal(n / 10)[i]);
            }
        }
        assert(d[0] == decimal(n / 10)[0]);
    }
}

/// A signed number that was written in decimal is read back, where it lies within limits.
pub proof fn law_signed_decimals_are_read_back(n: int, min: int, max: int)
    requires
        min <= n <= max,
        max >= 0,
    ensures
        int_of(signed_decimal(n), min, max) == Some(n),
{
    if n < 0 {
        law_decimals_are_read_back((-n) as nat);
        assert(signed_decimal(n).skip(1) =~= decimal((-n) as nat));
    } else {
        law_decimals_are_read_back(n as nat);
    }
}

/// Writes a number in decimal behind a text.
pub fn push_u64(s: &mut String, n: u64)
    ensures
        final(s)@ == old(s)@ + decimal(n as nat),
    decreases n,
{
    let d: u8 = (n % 10) as u8;
    if n >= 10 {
        push_u64(s, n / 10);
    }
    s.push((48 + d) as char);
}

/// Writes a signed number in decimal behind a text.
pub fn push_i64(s: &mut String, n: i64)
    ensures
        final(s)@ == old(s)@ + signed_decimal(n as int),
{
    if n < 0 {
        s.push('-');
        if n == i64::MIN {
            push_u64(s, 0x8000_0000_0000_0000);
        } else {
            push_u64(s, (-n) as u64);
        }
    } else {
        push_u64(s, n as u64);
    }
}

/// A line without the carriage return at its end.
pub open spec fn without_cr(s: Seq<char>) -> Seq<char> {
    if s.len() > 0 && s.last() == '\r' {
        s.drop_last()
    } else {
        s
    }
}

/// The lines of a text: a line ends with a line feed or a carriage return and a line
/// feed, and the last line may have no end.
pub open spec fn lines_of(s: Seq<char>) -> Seq<Seq<char>> {
    let pieces = split_on(s, Sep::Char('\n'));
    let ended = pieces.drop_last().map_values(|p: Seq<char>| without_cr(p));
    if pieces.last().len() == 0 {
        ended
    } else {
        ended.push(pieces.last())
    }
}

/// Splits a text into its lines.
pub fn lines(s: &[char]) -> (r: Vec<Vec<char>>)
    ensures
        fields(r@) == lines_of(s@),
{
    let pieces = split(s, Sep::Char('\n'));
    let ghost all = split_on(s@, Sep::Char('\n'));
    let ghost ended = all.drop_last().map_values(|p: Seq<char>| without_cr(p));
    let n: usize = pieces.len() - 1;
    let mut out: Vec<Vec<char>> = Vec::new();
    let mut i: usize = 0;
    proof {
        assert(fields(out@) =~= ended.take(0));
    }
    while i < n
        invariant
            i <= n,
            n == pieces.len() - 1,
            all == fields(pieces@),
            ended == all.drop_last().map_values(|p: Seq<char>| without_cr(p)),
            fields(out@) == ended.take(i as int),
        decreases n - i,
    {
        let ghost was = fields(out@);
        let p = &pieces[i];
        let len: usize = p.len();
        let line = if len > 0 && p[len - 1] == '\r' {
            sub_chars(p.as_slice(), 0, len - 1)
        } else {
            copy_chars(p.as_slice())
        };
        proof {
            assert(line@ =~= without_cr(p@));
            assert(ended[i as int] == without_cr(p@));
        }
        out.push(line);
        proof {
            assert(fields(out@) =~= was.push(line@));
            assert(fields(out@) =~= ended.take(i + 1));
        }
        i += 1;
    }
    proof {
        assert(ended.take(n as int) =~= ended);
        assert(all.last() == pieces@[n as int]@);
    }
    if pieces[n].len() > 0 {
        let ghost was = fields(out@);
        let line = copy_chars(pieces[n].as_slice());
        out.push(line);
        proof {
            assert(fields(out@) =~= was.push(line@));
        }
    }
    out
}

/// What stands before the first separator and what stands behind it.
pub open spec fn split_once_of(s: Seq<char>, sep: char) -> Option<(Seq<char>, Seq<char>)>
    decreases s.len(),
{
    if s.len() == 0 {
        None
    } else if s[0] == sep {
        Some((Seq::empty(), s.skip(1)))
    } else {
        match split_once_of(s.skip(1), sep) {
            Some(ab) => Some((seq![s[0]] + ab.0, ab.1)),
            None => None,
        }
    }
}

/// Splits a text at the first separator.
pub fn split_once(s: &[char], sep: char) -> (r: Option<(Vec<char>, Vec<char>)>)
    ensures
        match r {
            Some(ab) => split_once_of(s@, sep) == Some((ab.0@, ab.1@)),
            None => split_once_of(s@, sep) is None,
        },
{
    let mut i: usize = 0;
    proof {
        assert(s@.skip(0) =~= s@);
        match split_once_of(s@, sep) {
            Some(ab) => {
                assert(s@.take(0) + ab.0 =~= ab.0);
            },
            None => {},
        }
    }
    while i < s.len()
        invariant
            i <= s.len(),
            match split_once_of(s@.skip(i as int), sep) {
                Some(ab) => split_once_of(s@, sep) == Some((s@.take(i as int) + ab.0, ab.1)),
                None => split_once_of(s@, sep) is None,
            },
        decreases s.len() - i,
    {
        proof {
            assert(s@.skip(i as int).skip(1) =~= s@.skip(i + 1));
        }
        if s[i] == sep {
            let a = sub_chars(s, 0, i);
            let b = sub_chars(s, i + 1, s.len());
            proof {
                assert(a@ =~= s@.take(i as int) + Seq::<char>::empty());
                assert(b@ =~= s@.skip(i as int).skip(1));
            }
            return Some((a, b));
        }
        proof {
            match split_once_of(s@.skip(i + 1), sep) {
                Some(ab) => {
                    assert(s@.take(i as int) + (seq![s@[i as int]] + ab.0) =~= s@.take(i + 1)
                        + ab.0);
                },
                None => {},
            }
        }
        i += 1;
    }
    None
}

} // verus!
