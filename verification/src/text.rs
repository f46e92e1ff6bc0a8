//! Texts as sequences of characters.

use vstd::prelude::*;
use vstd::string::*;
use std::fmt::Debug;

verus! {

/// `String::push`, which appends the character to the end of the string.
pub assume_specification[ String::push ](s: &mut String, c: char)
    ensures
        final(s)@ == old(s)@.push(c),
;

/// `format!("{:?}", value)`: the text that the `Debug` impl of `T` writes
/// for `value`. The contract claims nothing of the text.
#[verifier::external_body]
pub(crate) fn debug_text<T: Debug>(value: &T) -> (text: String) {
    format!("{:?}", value)
}

/// The characters of `s`.
pub fn chars_of(s: &str) -> (chars: Vec<char>)
    ensures
        chars@ == s@,
{
    let mut chars: Vec<char> = Vec::new();
    for c in it: s.chars()
        invariant
            it.seq() == s@,
            chars@ == s@.take(it.index() as int),
    {
        chars.push(c);
    }
    chars
}

/// Appends the characters of `word` to `out`.
pub fn push_word(out: &mut Vec<char>, word: &str)
    ensures
        final(out)@ == old(out)@ + word@,
{
    let letters = chars_of(word);
    let mut i: usize = 0;
    while i < letters.len()
        invariant
            i <= letters.len(),
            letters@ == word@,
            out@ == old(out)@ + letters@.take(i as int),
        decreases letters.len() - i,
    {
        out.push(letters[i]);
        assert(letters@.take(i + 1) =~= letters@.take(i as int).push(letters@[i as int]));
        i += 1;
    }
    assert(letters@.take(i as int) =~= letters@);
}

/// The text that `chars` spells.
pub fn string_of(chars: &Vec<char>) -> (s: String)
    ensures
        s@ == chars@,
{
    let mut s = String::new();
    push_chars(&mut s, chars, 0, chars.len());
    assert(chars@.subrange(0, chars.len() as int) =~= chars@);
    s
}

/// Appends the characters of `chars` from `from` up to `to` to `s`.
pub fn push_chars(s: &mut String, chars: &Vec<char>, from: usize, to: usize)
    requires
        from <= to <= chars.len(),
    ensures
        final(s)@ == old(s)@ + chars@.subrange(from as int, to as int),
{
    let mut i: usize = from;
    while i < to
        invariant
            from <= i <= to <= chars.len(),
            s@ == old(s)@ + chars@.subrange(from as int, i as int),
        decreases to - i,
    {
        s.push(chars[i]);
        i += 1;
    }
}

/// Whether `chars`, from `from` up to `to`, spells `word`.
pub fn spells(chars: &Vec<char>, from: usize, to: usize, word: &str) -> (same: bool)
    requires
        from <= to <= chars.len(),
    ensures
        same == (chars@.subrange(from as int, to as int) == word@),
{
    let letters = chars_of(word);
    if letters.len() != to - from {
        return false;
    }
    let ghost part = chars@.subrange(from as int, to as int);
    let mut i: usize = 0;
    while i < letters.len()
        invariant
            from <= to <= chars.len(),
            letters.len() == to - from,
            i <= letters.len(),
            letters@ == word@,
            part == chars@.subrange(from as int, to as int),
            part.take(i as int) == letters@.take(i as int),
        decreases letters.len() - i,
    {
        if chars[from + i] != letters[i] {
            assert(part[i as int] != letters@[i as int]);
            return false;
        }
        assert(part.take(i + 1) =~= part.take(i as int).push(part[i as int]));
        assert(letters@.take(i + 1) =~= letters@.take(i as int).push(letters@[i as int]));
        i += 1;
    }
    assert(part.take(i as int) =~= part);
    assert(letters@.take(i as int) =~= letters@);
    true
}

/// Whether `chars` begins with `word`.
pub fn begins_with(chars: &Vec<char>, word: &str) -> (begins: bool)
    ensures
        begins == (word@.len() <= chars@.len() && chars@.take(word@.len() as int) == word@),
{
    let n = word.unicode_len();
    if n > chars.len() {
        return false;
    }
    let same = spells(chars, 0, n, word);
    assert(chars@.subrange(0, n as int) =~= chars@.take(n as int));
    same
}

} // verus!
