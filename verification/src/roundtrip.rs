//! What is written to the file of persisted failures is read back from it.

use vstd::prelude::*;
use crate::decimal::{decimal, digit_value, lemma_decimal_reads_back};
use crate::persist::{
    fields_of, file_header, line_content, lines_of, noted_in, on_one_line, record_line, seeds_in,
    LineContent, NotedLine,
};
use crate::scan::{
    index_of, is_space, lemma_index_of, lemma_leading_space, lemma_trailing_space, split, trimmed,
};

verus! {

/// A text without the separator is one piece.
pub proof fn lemma_split_whole(a: Seq<char>, sep: char)
    requires
        forall|k: int| 0 <= k < a.len() ==> a[k] != sep,
    ensures
        split(a, sep) == seq![a],
{
    lemma_index_of(a, sep, a.len() as int);
}

/// A text that begins with a piece without the separator, and then the
/// separator, is cut there.
pub proof fn lemma_split_head(a: Seq<char>, b: Seq<char>, sep: char)
    requires
        forall|k: int| 0 <= k < a.len() ==> a[k] != sep,
    ensures
        split(a + seq![sep] + b, sep) == seq![a] + split(b, sep),
{
    let s = a + seq![sep] + b;
    assert forall|k: int| 0 <= k < a.len() implies s[k] != sep by {
        assert(s[k] == a[k]);
    }
    assert(s[a.len() as int] == sep);
    lemma_index_of(s, sep, a.len() as int);
    assert(s.take(a.len() as int) =~= a);
    assert(s.skip(a.len() as int + 1) =~= b);
}

/// Whether `c` is a decimal digit, a space, or one of the letters of the
/// tag `xs`.
pub open spec fn in_seed_part(c: char) -> bool {
    digit_value(c) is Some || c == ' ' || c == 'x' || c == 's'
}

/// The digits of a number are digits, and a digit is no white space.
pub proof fn lemma_decimal_is_plain(n: nat)
    ensures
        decimal(n).len() > 0,
        forall|k: int|
            0 <= k < decimal(n).len() ==> {
                &&& digit_value(#[trigger] decimal(n)[k]) is Some
                &&& decimal(n)[k] != ' '
                &&& !is_space(decimal(n)[k])
            },
{
    lemma_decimal_reads_back(n);
    assert forall|k: int| 0 <= k < decimal(n).len() implies {
        &&& digit_value(#[trigger] decimal(n)[k]) is Some
        &&& decimal(n)[k] != ' '
        &&& !is_space(decimal(n)[k])
    } by {
        let c = decimal(n)[k];
        assert(digit_value(c) is Some);
    }
}

/// The part of a record that holds the seed: the tag and the four words.
pub open spec fn seed_part(seed: Seq<u32>) -> Seq<char> {
    "xs "@ + decimal(seed[0] as nat) + " "@ + decimal(seed[1] as nat) + " "@ + decimal(
        seed[2] as nat,
    ) + " "@ + decimal(seed[3] as nat)
}

/// The part of a record that holds the seed is cut into the tag and the
/// digits of the four words, it is made of digits, spaces and the letters of
/// the tag, and it begins and ends with none of the spaces.
pub proof fn lemma_seed_part(seed: Seq<u32>)
    requires
        seed.len() == 4,
    ensures
        split(seed_part(seed), ' ') == seq![
            "xs"@,
            decimal(seed[0] as nat),
            decimal(seed[1] as nat),
            decimal(seed[2] as nat),
            decimal(seed[3] as nat),
        ],
        forall|k: int| 0 <= k < seed_part(seed).len() ==> in_seed_part(#[trigger] seed_part(seed)[k]),
        seed_part(seed).len() > 0,
        !is_space(seed_part(seed)[0]),
        !is_space(seed_part(seed).last()),
{
    reveal_strlit("xs ");
    reveal_strlit("xs");
    reveal_strlit(" ");
    let tag = "xs"@;
    let d0 = decimal(seed[0] as nat);
    let d1 = decimal(seed[1] as nat);
    let d2 = decimal(seed[2] as nat);
    let d3 = decimal(seed[3] as nat);
    lemma_decimal_is_plain(seed[0] as nat);
    lemma_decimal_is_plain(seed[1] as nat);
    lemma_decimal_is_plain(seed[2] as nat);
    lemma_decimal_is_plain(seed[3] as nat);
    let sp = seq![' '];
    let t3 = d3;
    let t2 = d2 + sp + t3;
    let t1 = d1 + sp + t2;
    let t0 = d0 + sp + t1;
    let whole = tag + sp + t0;
    assert("xs "@ =~= tag + sp);
    assert(" "@ =~= sp);
    assert(seed_part(seed) =~= whole);
    lemma_split_whole(t3, ' ');
    lemma_split_head(d2, t3, ' ');
    lemma_split_head(d1, t2, ' ');
    lemma_split_head(d0, t1, ' ');
    lemma_split_head(tag, t0, ' ');
    assert(split(whole, ' ') =~= seq![tag, d0, d1, d2, d3]);
    assert forall|k: int| 0 <= k < whole.len() implies in_seed_part(#[trigger] whole[k]) by {
        if k < tag.len() {
        } else if k < tag.len() + 1 {
        } else if k < tag.len() + 1 + d0.len() {
            assert(whole[k] == d0[k - tag.len() - 1]);
        } else if k < tag.len() + 1 + d0.len() + 1 {
        } else if k < tag.len() + 1 + d0.len() + 1 + d1.len() {
            assert(whole[k] == d1[k - tag.len() - 1 - d0.len() - 1]);
        } else if k < tag.len() + 1 + d0.len() + 1 + d1.len() + 1 {
        } else if k < tag.len() + 1 + d0.len() + 1 + d1.len() + 1 + d2.len() {
            assert(whole[k] == d2[k - tag.len() - 1 - d0.len() - 1 - d1.len() - 1]);
        } else if k < tag.len() + 1 + d0.len() + 1 + d1.len() + 1 + d2.len() + 1 {
        } else {
            assert(whole[k] == d3[k - tag.len() - 1 - d0.len() - 1 - d1.len() - 1 - d2.len() - 1]);
        }
    }
    assert(whole[0] == 'x');
    assert(whole.last() == d3[d3.len() - 1]);
}

/// The line of a record holds the seed of the record, whatever the
/// rendering of the failing input is.
pub proof fn lemma_record_holds_its_seed(seed: Seq<u32>, rendered: Seq<char>)
    requires
        seed.len() == 4,
    ensures
        record_line(seed, rendered).len() > 0,
        record_line(seed, rendered).last() == '\n',
        index_of(record_line(seed, rendered), '\n') == record_line(seed, rendered).len() - 1,
        line_content(record_line(seed, rendered).drop_last()) == LineContent::Case(seed),
{
    reveal_strlit(" # shrinks to ");
    lemma_seed_part(seed);
    let part = seed_part(seed);
    let raw = part + " # shrinks to "@ + rendered;
    let line = on_one_line(raw);
    assert(record_line(seed, rendered) == line.push('\n'));
    assert(line.push('\n').drop_last() =~= line);
    assert forall|k: int| 0 <= k < line.len() implies line[k] != '\n' by {}
    lemma_index_of(line.push('\n'), '\n', line.len() as int);

    // What stands before the comment is the seed part and one space.
    let n = part.len() as int;
    assert forall|k: int| 0 <= k < n + 1 implies line[k] != '#' by {
        if k < n {
            assert(raw[k] == part[k]);
            assert(in_seed_part(part[k]));
        } else {
            assert(raw[k] == " # shrinks to "@[0]);
        }
    }
    assert(raw[n + 1] == " # shrinks to "@[1]);
    assert(line[n + 1] == '#');
    lemma_index_of(line, '#', n + 1);
    let head = line.take(n + 1);
    assert(head =~= part.push(' ')) by {
        assert forall|k: int| 0 <= k < n + 1 implies head[k] == part.push(' ')[k] by {
            if k < n {
                assert(raw[k] == part[k]);
                assert(in_seed_part(part[k]));
            } else {
                assert(raw[k] == " # shrinks to "@[0]);
            }
        }
    }

    // Without the space at its end, it is the seed part.
    lemma_leading_space(head, 0);
    assert(head.skip(0) =~= head);
    assert(is_space(' '));
    lemma_trailing_space(head, 1);
    assert(head.take(head.len() - 1) =~= part);
    assert(trimmed(head) == part);
    assert(fields_of(line) == split(part, ' '));

    // Its fields are the tag and the four words.
    lemma_decimal_reads_back(seed[0] as nat);
    lemma_decimal_reads_back(seed[1] as nat);
    lemma_decimal_reads_back(seed[2] as nat);
    lemma_decimal_reads_back(seed[3] as nat);
    assert(seq![seed[0], seed[1], seed[2], seed[3]] =~= seed);
}

/// A record that is written alone is read back: the text holds the seed of
/// the record and nothing else, and no line of it is passed over.
pub proof fn lemma_record_reads_back(seed: Seq<u32>, rendered: Seq<char>)
    requires
        seed.len() == 4,
    ensures
        seeds_in(lines_of(record_line(seed, rendered))) == seq![seed],
        noted_in(lines_of(record_line(seed, rendered))) == Seq::<NotedLine>::empty(),
{
    lemma_record_holds_its_seed(seed, rendered);
    let text = record_line(seed, rendered);
    let line = text.drop_last();
    let none = Seq::<char>::empty();
    assert(text.take(text.len() - 1) =~= line);
    assert(text.skip(text.len() as int) =~= none);
    lemma_split_whole(none, '\n');
    let lines = lines_of(text);
    assert(lines =~= seq![line, none]);
    lemma_empty_line_holds_nothing();
    assert(lines.drop_last() =~= seq![line]);
    let one = seq![line];
    let no_lines = Seq::<Seq<char>>::empty();
    assert(one.drop_last() =~= no_lines);
    assert(one.last() == line);
    assert(lines.last() == none);
    assert(seeds_in(no_lines) =~= Seq::<Seq<u32>>::empty());
    assert(noted_in(no_lines) =~= Seq::<NotedLine>::empty());
    assert(seeds_in(one) =~= seq![seed]);
    assert(noted_in(one) =~= Seq::<NotedLine>::empty());
}

/// An empty line holds nothing.
pub proof fn lemma_empty_line_holds_nothing()
    ensures
        line_content(Seq::<char>::empty()) == LineContent::Nothing,
{
    let none = Seq::<char>::empty();
    assert(none.take(index_of(none, '#')) =~= none);
    assert(trimmed(none) =~= none);
    lemma_split_whole(none, ' ');
}

/// Where the first separator of a text stands.
pub proof fn lemma_index_of_bounds(s: Seq<char>, c: char)
    ensures
        0 <= index_of(s, c) <= s.len(),
        forall|k: int| 0 <= k < index_of(s, c) ==> s[k] != c,
        index_of(s, c) < s.len() ==> s[index_of(s, c)] == c,
    decreases s.len(),
{
    if s.len() > 0 && s[0] != c {
        let rest = s.skip(1);
        lemma_index_of_bounds(rest, c);
        assert forall|k: int| 0 <= k < index_of(s, c) implies s[k] != c by {
            if k > 0 {
                assert(rest[k - 1] == s[k]);
            }
        }
        if index_of(s, c) < s.len() {
            assert(rest[index_of(rest, c)] == s[index_of(s, c)]);
        }
    }
}

/// A text has at least one piece, and the last piece of a text that is
/// empty or ends with the separator is empty.
pub proof fn lemma_split_last(a: Seq<char>, sep: char)
    ensures
        split(a, sep).len() >= 1,
        a.len() == 0 || a.last() == sep ==> split(a, sep).last() == Seq::<char>::empty(),
    decreases a.len(),
{
    lemma_index_of_bounds(a, sep);
    let i = index_of(a, sep);
    if i < a.len() {
        let rest = a.skip(i + 1);
        lemma_split_last(rest, sep);
        if rest.len() > 0 {
            assert(rest.last() == a.last());
        }
        assert(split(a, sep).last() == split(rest, sep).last());
    } else if a.len() == 0 {
        assert(split(a, sep).last() =~= Seq::<char>::empty());
    }
}

/// After a text that is empty or ends with the separator, the pieces of
/// what follows come in place of its last, empty piece.
pub proof fn lemma_split_append(a: Seq<char>, b: Seq<char>, sep: char)
    requires
        a.len() == 0 || a.last() == sep,
    ensures
        split(a + b, sep) == split(a, sep).drop_last() + split(b, sep),
    decreases a.len(),
{
    if a.len() == 0 {
        assert(a + b =~= b);
        lemma_index_of(a, sep, 0);
        assert(split(a, sep).drop_last() =~= Seq::<Seq<char>>::empty());
        assert(split(a, sep).drop_last() + split(b, sep) =~= split(b, sep));
    } else {
        lemma_index_of_bounds(a, sep);
        let i = index_of(a, sep);
        assert(i < a.len()) by {
            if i >= a.len() {
                assert(a[a.len() - 1] != sep);
            }
        }
        let whole = a + b;
        assert forall|k: int| 0 <= k < i implies whole[k] != sep by {
            assert(whole[k] == a[k]);
        }
        assert(whole[i] == a[i]);
        lemma_index_of(whole, sep, i);
        let rest = a.skip(i + 1);
        assert(whole.take(i) =~= a.take(i));
        assert(whole.skip(i + 1) =~= rest + b);
        if rest.len() > 0 {
            assert(rest.last() == a.last());
        }
        lemma_split_append(rest, b, sep);
        lemma_split_last(rest, sep);
        assert(split(a, sep).drop_last() =~= seq![a.take(i)] + split(rest, sep).drop_last());
        assert(split(whole, sep) =~= split(a, sep).drop_last() + split(b, sep));
    }
}

/// The seeds of a list of lines followed by another are the seeds of the
/// one followed by the seeds of the other.
pub proof fn lemma_seeds_in_both(x: Seq<Seq<char>>, y: Seq<Seq<char>>)
    ensures
        seeds_in(x + y) == seeds_in(x) + seeds_in(y),
    decreases y.len(),
{
    if y.len() == 0 {
        assert(x + y =~= x);
        assert(seeds_in(x) + seeds_in(y) =~= seeds_in(x));
    } else {
        lemma_seeds_in_both(x, y.drop_last());
        assert((x + y).drop_last() =~= x + y.drop_last());
        assert((x + y).last() == y.last());
        match line_content(y.last()) {
            LineContent::Case(seed) => {
                assert(seeds_in(x + y) =~= seeds_in(x) + seeds_in(y));
            },
            _ => {},
        }
    }
}

/// A line that holds no seed takes nothing from what the lines around it
/// hold: the seeds of a list of lines with such a line in it are the seeds of
/// the lines before it, and then the seeds of the lines after it.
pub proof fn lemma_malformed_line_is_passed_over(
    first: Seq<Seq<char>>,
    line: Seq<char>,
    rest: Seq<Seq<char>>,
)
    requires
        !(line_content(line) is Case),
    ensures
        seeds_in(first + seq![line] + rest) == seeds_in(first) + seeds_in(rest),
{
    let one = seq![line];
    lemma_seeds_in_both(first + one, rest);
    lemma_seeds_in_both(first, one);
    assert(one.drop_last() =~= Seq::<Seq<char>>::empty());
    assert(one.last() == line);
    assert(seeds_in(one.drop_last()) =~= Seq::<Seq<u32>>::empty());
    assert(seeds_in(one) =~= Seq::<Seq<u32>>::empty());
    assert(seeds_in(first) + seeds_in(one) =~= seeds_in(first));
}

/// A file of one line that holds a seed and one malformed line after it
/// gives that seed and nothing else, and one note, on the second line:
/// whatever the malformed line holds, it is passed over, and the line before
/// it is read as it stands.
pub proof fn lemma_malformed_line_is_noted(good: Seq<char>, bad: Seq<char>, seed: Seq<u32>)
    requires
        forall|k: int| 0 <= k < good.len() ==> good[k] != '\n',
        forall|k: int| 0 <= k < bad.len() ==> bad[k] != '\n',
        line_content(good) == LineContent::Case(seed),
        line_content(bad) is Unparsable || line_content(bad) is UnknownType,
    ensures
        lines_of(good + seq!['\n'] + bad + seq!['\n']) == seq![good, bad, Seq::<char>::empty()],
        seeds_in(lines_of(good + seq!['\n'] + bad + seq!['\n'])) == seq![seed],
        noted_in(lines_of(good + seq!['\n'] + bad + seq!['\n'])) == seq![
            NotedLine { number: 2, content: line_content(bad) },
        ],
{
    let none = Seq::<char>::empty();
    let text = good + seq!['\n'] + bad + seq!['\n'];
    let tail = bad + seq!['\n'] + none;
    assert(tail =~= bad + seq!['\n']);
    assert(text =~= good + seq!['\n'] + tail);
    lemma_split_whole(none, '\n');
    lemma_split_head(bad, none, '\n');
    lemma_split_head(good, tail, '\n');
    let lines = lines_of(text);
    assert(lines =~= seq![good, bad, none]);
    lemma_empty_line_holds_nothing();
    let two = seq![good, bad];
    let one = seq![good];
    let zero = Seq::<Seq<char>>::empty();
    assert(lines.drop_last() =~= two);
    assert(lines.last() == none);
    assert(two.drop_last() =~= one);
    assert(two.last() == bad);
    assert(one.drop_last() =~= zero);
    assert(one.last() == good);
    assert(seeds_in(zero) =~= Seq::<Seq<u32>>::empty());
    assert(noted_in(zero) =~= Seq::<NotedLine>::empty());
    assert(seeds_in(one) =~= seq![seed]);
    assert(noted_in(one) =~= Seq::<NotedLine>::empty());
    assert(seeds_in(two) =~= seq![seed]);
    assert(noted_in(two) =~= seq![NotedLine { number: 2, content: line_content(bad) }]);
    assert(seeds_in(lines) =~= seq![seed]);
    assert(noted_in(lines) =~= seq![NotedLine { number: 2, content: line_content(bad) }]);
}

/// A record that is appended to the file is read back after what the file
/// held: where the text of the file is empty or ends with a line feed, the
/// seeds of the text with the record appended are the seeds of the text,
/// and then the seed of the record.
pub proof fn lemma_appended_record_is_read(text: Seq<char>, seed: Seq<u32>, rendered: Seq<char>)
    requires
        seed.len() == 4,
        text.len() == 0 || text.last() == '\n',
    ensures
        seeds_in(lines_of(text + record_line(seed, rendered))) == seeds_in(lines_of(text)).push(
            seed,
        ),
{
    let record = record_line(seed, rendered);
    let before = lines_of(text);
    lemma_split_append(text, record, '\n');
    lemma_split_last(text, '\n');
    lemma_record_reads_back(seed, rendered);
    lemma_seeds_in_both(before.drop_last(), lines_of(record));
    lemma_empty_line_holds_nothing();
    assert(seeds_in(before) == seeds_in(before.drop_last()));
    assert(seeds_in(before.drop_last()) + seq![seed] =~= seeds_in(before).push(seed));
}

/// Whether each line of a text is empty or begins a comment at once.
pub open spec fn comments_only(text: Seq<char>) -> bool {
    forall|i: int|
        0 <= i < text.len() && (i == 0 || text[i - 1] == '\n') ==> #[trigger] text[i] == '#'
            || text[i] == '\n'
}

/// The comment that begins a new file is made of comments only, and ends
/// with a line feed.
pub proof fn lemma_header_is_comments()
    ensures
        comments_only(file_header()),
        file_header().len() > 0,
        file_header().last() == '\n',
{
    reveal_strlit(
        "# Seeds for failure cases proptest has generated in the past. It is\n# automatically read and these particular cases re-run before any\n# novel cases are generated.\n#\n# It is recommended to check this file in to source control so that\n# everyone who runs the test benefits from these saved cases.\n",
    );
}

/// A line that is empty or begins with a comment holds nothing.
pub proof fn lemma_comment_line_holds_nothing(line: Seq<char>)
    requires
        line.len() == 0 || line[0] == '#',
    ensures
        line_content(line) == LineContent::Nothing,
{
    let none = Seq::<char>::empty();
    lemma_index_of(line, '#', 0);
    assert(line.take(0) =~= none);
    assert(trimmed(none) =~= none);
    lemma_split_whole(none, ' ');
}

/// The lines of a text of comments only hold nothing.
pub proof fn lemma_comment_lines_hold_nothing(text: Seq<char>)
    requires
        comments_only(text),
    ensures
        forall|k: int|
            0 <= k < lines_of(text).len() ==> line_content(#[trigger] lines_of(text)[k])
                == LineContent::Nothing,
    decreases text.len(),
{
    lemma_index_of_bounds(text, '\n');
    let i = index_of(text, '\n');
    if i < text.len() {
        let first = text.take(i);
        let rest = text.skip(i + 1);
        assert(comments_only(rest)) by {
            assert forall|j: int|
                0 <= j < rest.len() && (j == 0 || rest[j - 1] == '\n') implies #[trigger] rest[j]
                == '#' || rest[j] == '\n' by {
                assert(rest[j] == text[i + 1 + j]);
                if j > 0 {
                    assert(rest[j - 1] == text[i + j]);
                }
            }
        }
        lemma_comment_lines_hold_nothing(rest);
        if first.len() > 0 {
            assert(first[0] == text[0]);
        }
        lemma_comment_line_holds_nothing(first);
        assert forall|k: int| 0 <= k < lines_of(text).len() implies line_content(
            #[trigger] lines_of(text)[k],
        ) == LineContent::Nothing by {
            if k > 0 {
                assert(lines_of(text)[k] == lines_of(rest)[k - 1]);
            }
        }
    } else {
        if text.len() > 0 {
            assert(text[0] == '#');
        }
        lemma_comment_line_holds_nothing(text);
    }
}

/// Lines that hold nothing give no seed and no note.
pub proof fn lemma_nothing_in_lines(lines: Seq<Seq<char>>)
    requires
        forall|k: int| 0 <= k < lines.len() ==> line_content(#[trigger] lines[k]) == LineContent::Nothing,
    ensures
        seeds_in(lines) == Seq::<Seq<u32>>::empty(),
        noted_in(lines) == Seq::<NotedLine>::empty(),
    decreases lines.len(),
{
    if lines.len() > 0 {
        assert(line_content(lines[lines.len() - 1]) == LineContent::Nothing);
        assert forall|k: int| 0 <= k < lines.drop_last().len() implies line_content(
            #[trigger] lines.drop_last()[k],
        ) == LineContent::Nothing by {
            assert(lines.drop_last()[k] == lines[k]);
        }
        lemma_nothing_in_lines(lines.drop_last());
    }
}

/// The first record of a new file is read back: the text that is written
/// to a new file, the comment that begins it and then the line of the
/// record, holds the seed of the record and nothing else.
pub proof fn lemma_new_file_is_read(seed: Seq<u32>, rendered: Seq<char>)
    requires
        seed.len() == 4,
    ensures
        seeds_in(lines_of(file_header())) == Seq::<Seq<u32>>::empty(),
        noted_in(lines_of(file_header())) == Seq::<NotedLine>::empty(),
        seeds_in(lines_of(file_header() + record_line(seed, rendered))) == seq![seed],
{
    lemma_header_is_comments();
    lemma_comment_lines_hold_nothing(file_header());
    lemma_nothing_in_lines(lines_of(file_header()));
    lemma_appended_record_is_read(file_header(), seed, rendered);
    assert(Seq::<Seq<u32>>::empty().push(seed) =~= seq![seed]);
}

} // verus!
