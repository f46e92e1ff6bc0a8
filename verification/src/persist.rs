//! The file that persists failing cases: its lines, and what is read from
//! them.
//!
//! The file is a text of lines. A `#` starts a comment that runs to the end
//! of its line. What is left of a line, without the white space around it,
//! is cut at each space into fields. A line of exactly five fields whose
//! first is `xs` holds a seed: the other four fields are its words, as
//! unsigned 32-bit numbers in decimal. A line of one field, which an empty
//! line is too, holds nothing. Every other line is noted and passed over.

use vstd::prelude::*;
use vstd::string::*;
use crate::decimal::{decimal, parse_u32, parsed_u32, push_decimal};
use crate::model::words_of;
use crate::rng::Seed;
use crate::runner::FailureRecord;
use crate::scan::{find, index_of, split, split_at, trim, trimmed};
use crate::text::{chars_of, push_chars, push_word, spells};

verus! {

/// What one line of the file holds.
pub enum LineContent {
    /// Nothing: the line is empty, or a comment, or a single field.
    Nothing,
    /// The words of a seed.
    Case(Seq<u32>),
    /// The line has the form of a seed, but a word of it is no number.
    Unparsable,
    /// The line has several fields and is no seed; its first field is kept.
    UnknownType(Seq<char>),
}

/// The fields of a line: what stands before its comment, without the white
/// space around it, cut at each space.
pub open spec fn fields_of(line: Seq<char>) -> Seq<Seq<char>> {
    split(trimmed(line.take(index_of(line, '#'))), ' ')
}

/// What the line `line` holds.
pub open spec fn line_content(line: Seq<char>) -> LineContent {
    let fields = fields_of(line);
    if fields.len() == 5 && fields[0] == "xs"@ {
        match (
            parsed_u32(fields[1]),
            parsed_u32(fields[2]),
            parsed_u32(fields[3]),
            parsed_u32(fields[4]),
        ) {
            (Some(a), Some(b), Some(c), Some(d)) => LineContent::Case(seq![a, b, c, d]),
            _ => LineContent::Unparsable,
        }
    } else if fields.len() > 1 {
        LineContent::UnknownType(fields[0])
    } else {
        LineContent::Nothing
    }
}

/// The lines of a text: the pieces between its line feeds.
pub open spec fn lines_of(text: Seq<char>) -> Seq<Seq<char>> {
    split(text, '\n')
}

/// The seeds that a list of lines holds, in the order of the lines.
pub open spec fn seeds_in(lines: Seq<Seq<char>>) -> Seq<Seq<u32>>
    decreases lines.len(),
{
    if lines.len() == 0 {
        Seq::empty()
    } else {
        match line_content(lines.last()) {
            LineContent::Case(seed) => seeds_in(lines.drop_last()).push(seed),
            _ => seeds_in(lines.drop_last()),
        }
    }
}

/// A line that was passed over, with its number, counted from one.
pub struct NotedLine {
    /// The number of the line in the file, counted from one.
    pub number: nat,
    /// What the line held: `Unparsable` or `UnknownType`.
    pub content: LineContent,
}

/// The lines of a list that are passed over with a note, in their order.
pub open spec fn noted_in(lines: Seq<Seq<char>>) -> Seq<NotedLine>
    decreases lines.len(),
{
    if lines.len() == 0 {
        Seq::empty()
    } else {
        match line_content(lines.last()) {
            LineContent::Unparsable => noted_in(lines.drop_last()).push(
                NotedLine { number: lines.len(), content: LineContent::Unparsable },
            ),
            LineContent::UnknownType(first) => noted_in(lines.drop_last()).push(
                NotedLine { number: lines.len(), content: LineContent::UnknownType(first) },
            ),
            _ => noted_in(lines.drop_last()),
        }
    }
}

/// Why a line of the file was passed over.
#[derive(Clone, Debug, PartialEq, Eq)]
pub enum LineNote {
    /// The line has the form of a seed, but a word of it is no number.
    Unparsable {
        /// The number of the line, counted from one.
        line: usize,
    },
    /// The line has several fields and is no seed: the file is corrupt, or
    /// of a form that is not known here.
    UnknownType {
        /// The number of the line, counted from one.
        line: usize,
        /// The first field of the line.
        token: String,
    },
}

impl View for LineNote {
    type V = NotedLine;

    open spec fn view(&self) -> NotedLine {
        match *self {
            LineNote::Unparsable { line } => NotedLine {
                number: line as nat,
                content: LineContent::Unparsable,
            },
            LineNote::UnknownType { line, token } => NotedLine {
                number: line as nat,
                content: LineContent::UnknownType(token@),
            },
        }
    }
}

/// What was read from one line.
pub enum ReadLine {
    /// Nothing.
    Nothing,
    /// A seed.
    Case(Seed),
    /// A line in the form of a seed with a word that is no number.
    Unparsable,
    /// A line of several fields that is no seed, with its first field.
    UnknownType(String),
}

impl View for ReadLine {
    type V = LineContent;

    open spec fn view(&self) -> LineContent {
        match *self {
            ReadLine::Nothing => LineContent::Nothing,
            ReadLine::Case(seed) => LineContent::Case(seed@),
            ReadLine::Unparsable => LineContent::Unparsable,
            ReadLine::UnknownType(token) => LineContent::UnknownType(token@),
        }
    }
}

/// Reads the line that `chars` holds from `from` up to `to`.
pub fn read_line(chars: &Vec<char>, from: usize, to: usize) -> (read: ReadLine)
    requires
        from <= to <= chars.len(),
    ensures
        read@ == line_content(chars@.subrange(from as int, to as int)),
{
    let ghost line = chars@.subrange(from as int, to as int);
    let comment = find(chars, from, to, '#');
    assert(chars@.subrange(from as int, comment as int) =~= line.take(index_of(line, '#')));
    let (start, end) = trim(chars, from, comment);
    let fields = split_at(chars, start, end, ' ');
    let ghost texts = fields_of(line);
    assert(fields@.len() == texts.len());
    if fields.len() == 5 && spells(chars, fields[0].0, fields[0].1, "xs") {
        let a = parse_u32(chars, fields[1].0, fields[1].1);
        let b = parse_u32(chars, fields[2].0, fields[2].1);
        let c = parse_u32(chars, fields[3].0, fields[3].1);
        let d = parse_u32(chars, fields[4].0, fields[4].1);
        match (a, b, c, d) {
            (Some(a), Some(b), Some(c), Some(d)) => {
                let seed: Seed = [a, b, c, d];
                assert(seed@ =~= seq![a, b, c, d]);
                ReadLine::Case(seed)
            },
            _ => ReadLine::Unparsable,
        }
    } else if fields.len() > 1 {
        let mut token = String::new();
        push_chars(&mut token, chars, fields[0].0, fields[0].1);
        ReadLine::UnknownType(token)
    } else {
        ReadLine::Nothing
    }
}

/// What was read from a file of persisted failures.
#[derive(Debug)]
pub struct PersistedFailures {
    /// The seeds of the failing cases, in the order of the file.
    pub seeds: Vec<Seed>,
    /// The lines that were passed over.
    pub notes: Vec<LineNote>,
}

/// What stands for each note.
pub open spec fn views_of(notes: Seq<LineNote>) -> Seq<NotedLine> {
    Seq::new(notes.len(), |i: int| notes[i]@)
}

/// Reads the text of a file of persisted failures.
///
/// Each line that holds a seed gives that seed, in the order of the file. A
/// malformed line is passed over with a note and does not keep the lines
/// after it from being read.
pub fn load_persisted_failures(text: &str) -> (read: PersistedFailures)
    ensures
        words_of(read.seeds@) == seeds_in(lines_of(text@)),
        views_of(read.notes@) == noted_in(lines_of(text@)),
{
    let chars = chars_of(text);
    assert(chars@.subrange(0, chars.len() as int) =~= text@);
    let lines = split_at(&chars, 0, chars.len(), '\n');
    let ghost all = lines_of(text@);
    let mut seeds: Vec<Seed> = Vec::new();
    let mut notes: Vec<LineNote> = Vec::new();
    let mut i: usize = 0;
    assert(all.take(0) =~= Seq::<Seq<char>>::empty());
    while i < lines.len()
        invariant
            i <= lines.len(),
            lines@.len() == all.len(),
            forall|k: int|
                0 <= k < lines@.len() ==> 0 <= (#[trigger] lines@[k]).0 <= lines@[k].1
                    <= chars.len(),
            forall|k: int|
                0 <= k < lines@.len() ==> chars@.subrange(
                    (#[trigger] lines@[k]).0 as int,
                    lines@[k].1 as int,
                ) == all[k],
            words_of(seeds@) == seeds_in(all.take(i as int)),
            views_of(notes@) == noted_in(all.take(i as int)),
        decreases lines.len() - i,
    {
        let ghost seen = all.take(i as int);
        let ghost next = all.take(i + 1);
        let ghost seeds_before = seeds@;
        let ghost notes_before = notes@;
        proof {
            assert(next.drop_last() =~= seen);
            assert(next.last() == all[i as int]);
        }
        match read_line(&chars, lines[i].0, lines[i].1) {
            ReadLine::Nothing => {},
            ReadLine::Case(seed) => {
                seeds.push(seed);
                assert(words_of(seeds@) =~= words_of(seeds_before).push(seed@));
            },
            ReadLine::Unparsable => {
                let note = LineNote::Unparsable { line: i + 1 };
                notes.push(note);
                assert(views_of(notes@) =~= views_of(notes_before).push(note@));
            },
            ReadLine::UnknownType(token) => {
                let note = LineNote::UnknownType { line: i + 1, token };
                notes.push(note);
                assert(views_of(notes@) =~= views_of(notes_before).push(note@));
            },
        }
        i += 1;
    }
    assert(all.take(i as int) =~= all);
    PersistedFailures { seeds, notes }
}

/// `s` with each line feed and each carriage return replaced by a space.
pub open spec fn on_one_line(s: Seq<char>) -> Seq<char> {
    Seq::new(
        s.len(),
        |i: int|
            if s[i] == '\n' || s[i] == '\r' {
                ' '
            } else {
                s[i]
            },
    )
}

/// The line that persists the seed `seed` of a case whose minimal failing
/// input is rendered as `rendered`, with the line feed that ends it.
pub open spec fn record_line(seed: Seq<u32>, rendered: Seq<char>) -> Seq<char> {
    on_one_line(
        "xs "@ + decimal(seed[0] as nat) + " "@ + decimal(seed[1] as nat) + " "@ + decimal(
            seed[2] as nat,
        ) + " "@ + decimal(seed[3] as nat) + " # shrinks to "@ + rendered,
    ).push('\n')
}

/// The comment with which a new file begins.
pub open spec fn file_header() -> Seq<char> {
    "# Seeds for failure cases proptest has generated in the past. It is\n# automatically read and these particular cases re-run before any\n# novel cases are generated.\n#\n# It is recommended to check this file in to source control so that\n# everyone who runs the test benefits from these saved cases.\n"@
}

/// The text to append to the file so as to persist `record`: the line of the
/// record, after the comment that begins the file where the file is new.
///
/// Whatever the rendering holds, the record takes one line: each line feed
/// and carriage return in it is written as a space.
pub fn save_persisted_failure(is_new: bool, record: &FailureRecord) -> (text: String)
    ensures
        text@ == (if is_new {
            file_header()
        } else {
            Seq::<char>::empty()
        }) + record_line(record.seed@, record.rendered@),
{
    let mut line: Vec<char> = Vec::new();
    push_word(&mut line, "xs ");
    push_decimal(&mut line, record.seed[0]);
    push_word(&mut line, " ");
    push_decimal(&mut line, record.seed[1]);
    push_word(&mut line, " ");
    push_decimal(&mut line, record.seed[2]);
    push_word(&mut line, " ");
    push_decimal(&mut line, record.seed[3]);
    push_word(&mut line, " # shrinks to ");
    push_word(&mut line, record.rendered.as_str());
    let ghost raw = line@;
    let mut i: usize = 0;
    while i < line.len()
        invariant
            i <= line.len(),
            line@.len() == raw.len(),
            forall|k: int| 0 <= k < i ==> line@[k] == on_one_line(raw)[k],
            forall|k: int| i <= k < raw.len() ==> line@[k] == raw[k],
        decreases line.len() - i,
    {
        if line[i] == '\n' || line[i] == '\r' {
            line.set(i, ' ');
        }
        i += 1;
    }
    assert(line@ =~= on_one_line(raw));
    line.push('\n');
    let mut text = if is_new {
        String::from_str(
            "# Seeds for failure cases proptest has generated in the past. It is\n# automatically read and these particular cases re-run before any\n# novel cases are generated.\n#\n# It is recommended to check this file in to source control so that\n# everyone who runs the test benefits from these saved cases.\n",
        )
    } else {
        String::new()
    };
    push_chars(&mut text, &line, 0, line.len());
    assert(line@.subrange(0, line.len() as int) =~= line@);
    text
}

} // verus!
