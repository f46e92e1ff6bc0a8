//! Cutting a text at a character: the pieces between the occurrences of a
//! separator, and a text without the white space around it.

use vstd::prelude::*;

verus! {

/// The index of the first `c` in `s`, or the length of `s` where it has
/// none.
pub open spec fn index_of(s: Seq<char>, c: char) -> int
    decreases s.len(),
{
    if s.len() == 0 || s[0] == c {
        0
    } else {
        1 + index_of(s.skip(1), c)
    }
}

/// The pieces of `s` between the occurrences of `sep`: one piece more than
/// `s` has separators, each without a separator in it.
pub open spec fn split(s: Seq<char>, sep: char) -> Seq<Seq<char>>
    decreases s.len(),
{
    let i = index_of(s, sep);
    if 0 <= i < s.len() {
        seq![s.take(i)] + split(s.skip(i + 1), sep)
    } else {
        seq![s]
    }
}

/// Whether `c` is white space, as Unicode defines it.
pub open spec fn is_space(c: char) -> bool {
    let n = c as u32;
    ||| 0x9 <= n <= 0xd
    ||| n == 0x20
    ||| n == 0x85
    ||| n == 0xa0
    ||| n == 0x1680
    ||| 0x2000 <= n <= 0x200a
    ||| n == 0x2028
    ||| n == 0x2029
    ||| n == 0x202f
    ||| n == 0x205f
    ||| n == 0x3000
}

/// The number of white-space characters with which `s` begins.
pub open spec fn leading_space(s: Seq<char>) -> int
    decreases s.len(),
{
    if s.len() > 0 && is_space(s[0]) {
        1 + leading_space(s.skip(1))
    } else {
        0
    }
}

/// The number of white-space characters with which `s` ends.
pub open spec fn trailing_space(s: Seq<char>) -> int
    decreases s.len(),
{
    if s.len() > 0 && is_space(s.last()) {
        1 + trailing_space(s.drop_last())
    } else {
        0
    }
}

/// `s` without the white space at its beginning and at its end.
pub open spec fn trimmed(s: Seq<char>) -> Seq<char> {
    let rest = s.skip(leading_space(s));
    rest.take(rest.len() - trailing_space(rest))
}

/// `index_of` is the first place where `c` stands.
pub proof fn lemma_index_of(s: Seq<char>, c: char, i: int)
    requires
        0 <= i <= s.len(),
        forall|k: int| 0 <= k < i ==> s[k] != c,
        i < s.len() ==> s[i] == c,
    ensures
        index_of(s, c) == i,
    decreases s.len(),
{
    if s.len() > 0 && s[0] != c {
        assert forall|k: int| 0 <= k < i - 1 implies s.skip(1)[k] != c by {
            assert(s.skip(1)[k] == s[k + 1]);
        }
        lemma_index_of(s.skip(1), c, i - 1);
    }
}

/// `leading_space` counts the white space up to the first character that
/// is none.
pub proof fn lemma_leading_space(s: Seq<char>, i: int)
    requires
        0 <= i <= s.len(),
        forall|k: int| 0 <= k < i ==> is_space(s[k]),
        i < s.len() ==> !is_space(s[i]),
    ensures
        leading_space(s) == i,
    decreases s.len(),
{
    if i > 0 {
        assert(is_space(s[0]));
        assert forall|k: int| 0 <= k < i - 1 implies is_space(s.skip(1)[k]) by {
            assert(s.skip(1)[k] == s[k + 1]);
        }
        lemma_leading_space(s.skip(1), i - 1);
    }
}

/// `trailing_space` counts the white space back to the last character that
/// is none.
pub proof fn lemma_trailing_space(s: Seq<char>, n: int)
    requires
        0 <= n <= s.len(),
        forall|k: int| s.len() - n <= k < s.len() ==> is_space(s[k]),
        n < s.len() ==> !is_space(s[s.len() - n - 1]),
    ensures
        trailing_space(s) == n,
    decreases s.len(),
{
    if n > 0 {
        assert(is_space(s[s.len() - 1]));
        lemma_trailing_space(s.drop_last(), n - 1);
    }
}

/// Whether `c` is white space.
pub fn is_whitespace(c: char) -> (space: bool)
    ensures
        space == is_space(c),
{
    let n: u32 = c as u32;
    (0x9 <= n && n <= 0xd) || n == 0x20 || n == 0x85 || n == 0xa0 || n == 0x1680 || (0x2000 <= n
        && n <= 0x200a) || n == 0x2028 || n == 0x2029 || n == 0x202f || n == 0x205f || n == 0x3000
}

/// The place of the first `c` in `chars` from `from` up to `to`, or `to`
/// where there is none.
pub fn find(chars: &Vec<char>, from: usize, to: usize, c: char) -> (at: usize)
    requires
        from <= to <= chars.len(),
    ensures
        from <= at <= to,
        at - from == index_of(chars@.subrange(from as int, to as int), c),
{
    let ghost s = chars@.subrange(from as int, to as int);
    let mut at: usize = from;
    while at < to && chars[at] != c
        invariant
            from <= at <= to <= chars.len(),
            s == chars@.subrange(from as int, to as int),
            forall|k: int| 0 <= k < at - from ==> s[k] != c,
        decreases to - at,
    {
        at += 1;
    }
    proof {
        lemma_index_of(s, c, at - from);
    }
    at
}

/// The bounds of `chars` from `from` up to `to` without the white space at
/// its beginning and at its end.
pub fn trim(chars: &Vec<char>, from: usize, to: usize) -> (bounds: (usize, usize))
    requires
        from <= to <= chars.len(),
    ensures
        from <= bounds.0 <= bounds.1 <= to,
        chars@.subrange(bounds.0 as int, bounds.1 as int) == trimmed(
            chars@.subrange(from as int, to as int),
        ),
{
    let ghost s = chars@.subrange(from as int, to as int);
    let mut start: usize = from;
    while start < to && is_whitespace(chars[start])
        invariant
            from <= start <= to <= chars.len(),
            s == chars@.subrange(from as int, to as int),
            forall|k: int| 0 <= k < start - from ==> is_space(s[k]),
        decreases to - start,
    {
        start += 1;
    }
    let ghost rest = chars@.subrange(start as int, to as int);
    let mut end: usize = to;
    while end > start && is_whitespace(chars[end - 1])
        invariant
            start <= end <= to <= chars.len(),
            rest == chars@.subrange(start as int, to as int),
            forall|k: int| end - start <= k < rest.len() ==> is_space(rest[k]),
        decreases end,
    {
        end -= 1;
    }
    proof {
        lemma_leading_space(s, start - from);
        assert(s.skip(start - from) =~= rest);
        lemma_trailing_space(rest, to - end);
        assert(rest.take(rest.len() - (to - end)) =~= chars@.subrange(start as int, end as int));
    }
    (start, end)
}

/// The bounds of the pieces of `chars` from `from` up to `to` between the
/// occurrences of `sep`.
pub fn split_at(chars: &Vec<char>, from: usize, to: usize, sep: char) -> (pieces: Vec<
    (usize, usize),
>)
    requires
        from <= to <= chars.len(),
    ensures
        pieces@.len() == split(chars@.subrange(from as int, to as int), sep).len(),
        forall|k: int|
            0 <= k < pieces@.len() ==> from <= (#[trigger] pieces@[k]).0 <= pieces@[k].1 <= to,
        forall|k: int|
            0 <= k < pieces@.len() ==> chars@.subrange(
                (#[trigger] pieces@[k]).0 as int,
                pieces@[k].1 as int,
            ) == split(chars@.subrange(from as int, to as int), sep)[k],
{
    let ghost whole = chars@.subrange(from as int, to as int);
    let mut pieces: Vec<(usize, usize)> = Vec::new();
    let mut start: usize = from;
    loop
        invariant_except_break
            split(whole, sep) == Seq::new(
                pieces@.len(),
                |k: int| chars@.subrange(pieces@[k].0 as int, pieces@[k].1 as int),
            ) + split(chars@.subrange(start as int, to as int), sep),
        invariant
            from <= start <= to <= chars.len(),
            whole == chars@.subrange(from as int, to as int),
            forall|k: int|
                0 <= k < pieces@.len() ==> from <= (#[trigger] pieces@[k]).0 <= pieces@[k].1 <= to,
        ensures
            split(whole, sep) == Seq::new(
                pieces@.len(),
                |k: int| chars@.subrange(pieces@[k].0 as int, pieces@[k].1 as int),
            ),
        decreases to - start,
    {
        let at = find(chars, start, to, sep);
        let ghost rest = chars@.subrange(start as int, to as int);
        let ghost done = Seq::new(
            pieces@.len(),
            |k: int| chars@.subrange(pieces@[k].0 as int, pieces@[k].1 as int),
        );
        pieces.push((start, at));
        let ghost now = Seq::new(
            pieces@.len(),
            |k: int| chars@.subrange(pieces@[k].0 as int, pieces@[k].1 as int),
        );
        if at == to {
            proof {
                assert(chars@.subrange(start as int, at as int) =~= rest);
                assert(now =~= done + seq![rest]);
            }
            break ;
        }
        proof {
            assert(rest.take(at - start) =~= chars@.subrange(start as int, at as int));
            assert(rest.skip(at - start + 1) =~= chars@.subrange(at + 1, to as int));
            assert(now =~= done + seq![rest.take(at - start)]);
            assert(split(whole, sep) =~= now + split(chars@.subrange(at + 1, to as int), sep));
        }
        start = at + 1;
    }
    proof {
        let all = split(whole, sep);
        assert forall|k: int| 0 <= k < pieces@.len() implies chars@.subrange(
            (#[trigger] pieces@[k]).0 as int,
            pieces@[k].1 as int,
        ) == all[k] by {}
    }
    pieces
}

} // verus!
