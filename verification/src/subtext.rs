//! Notes: a block of headers, a blank line, and the text that follows.
//!
//! A header is a line with a key before its first colon and a value after
//! it. The first line that holds nothing but whitespace ends the headers,
//! and everything after that line is the content of the note.

use crate::text::characters;
use vstd::prelude::*;
use vstd::string::*;

verus! {

/// A note: the name of its file, its headers in order, and its content.
#[derive(Debug)]
pub struct Subtext {
    pub name: String,
    pub headers: Vec<(String, String)>,
    pub content: String,
}

/// The mathematical content of a `Subtext`.
pub struct SubtextView {
    pub name: Seq<char>,
    pub headers: Seq<(Seq<char>, Seq<char>)>,
    pub content: Seq<char>,
}

/// The keys and values that a sequence of headers holds.
pub open spec fn header_texts(headers: Seq<(String, String)>) -> Seq<(Seq<char>, Seq<char>)> {
    headers.map_values(|h: (String, String)| (h.0@, h.1@))
}

impl View for Subtext {
    type V = SubtextView;

    open spec fn view(&self) -> SubtextView {
        SubtextView {
            name: self.name@,
            headers: header_texts(self.headers@),
            content: self.content@,
        }
    }
}

/// Whether `c` is white space, as the standard library tells it of a
/// character.
pub uninterp spec fn whitespace(c: char) -> bool;

/// Tells whether `c` is white space.
///
/// Calls `char::is_whitespace`, which depends on the character alone; the
/// contract gives its result the name `whitespace`.
#[verifier::external_body]
fn is_whitespace(c: char) -> (b: bool)
    ensures
        b == whitespace(c),
{
    c.is_whitespace()
}

/// The position just after the line that starts at `from`: after its
/// line feed, or the end of the text where no line feed follows.
pub open spec fn line_end(text: Seq<char>, from: int) -> int
    decreases text.len() - from,
{
    if from >= text.len() {
        text.len() as int
    } else if text[from] == '\n' {
        from + 1
    } else {
        line_end(text, from + 1)
    }
}

/// The position of the first colon in `[from, to)`, or `to` where there
/// is none.
pub open spec fn colon_position(text: Seq<char>, from: int, to: int) -> int
    decreases to - from,
{
    if from >= to {
        to
    } else if text[from] == ':' {
        from
    } else {
        colon_position(text, from + 1, to)
    }
}

/// The position of the first character in `[from, to)` that is not white
/// space, or `to` where there is none.
pub open spec fn skip_blanks(text: Seq<char>, from: int, to: int) -> int
    decreases to - from,
{
    if from >= to {
        to
    } else if !whitespace(text[from]) {
        from
    } else {
        skip_blanks(text, from + 1, to)
    }
}

/// The position just after the last character in `[from, to)` that is
/// not white space, or `from` where there is none.
pub open spec fn drop_blanks(text: Seq<char>, from: int, to: int) -> int
    decreases to - from,
{
    if to <= from {
        from
    } else if !whitespace(text[to - 1]) {
        to
    } else {
        drop_blanks(text, from, to - 1)
    }
}

/// The characters of `[from, to)` without the white space before the
/// first and after the last character that is none.
pub open spec fn trimmed(text: Seq<char>, from: int, to: int) -> Seq<char> {
    let start = skip_blanks(text, from, to);
    text.subrange(start, drop_blanks(text, start, to))
}

/// The header that the line `[from, to)` holds: the trimmed text before
/// its first colon and the trimmed text after it, which is empty where
/// the line has no colon.
pub open spec fn header_at(text: Seq<char>, from: int, to: int) -> (Seq<char>, Seq<char>) {
    let colon = colon_position(text, from, to);
    (
        trimmed(text, from, colon),
        if colon < to {
            trimmed(text, colon + 1, to)
        } else {
            Seq::empty()
        },
    )
}

/// The headers and the content of a note.
pub struct Parsed {
    pub headers: Seq<(Seq<char>, Seq<char>)>,
    pub content: Seq<char>,
}

/// What the lines from position `from` on hold, read as headers up to
/// the first blank line and as content after it.
pub open spec fn parsed_from(text: Seq<char>, from: int) -> Parsed
    decreases text.len() - from,
    via parsed_from_terminates
{
    if from < 0 || from >= text.len() {
        Parsed { headers: Seq::empty(), content: Seq::empty() }
    } else {
        let end = line_end(text, from);
        if skip_blanks(text, from, end) == end {
            Parsed { headers: Seq::empty(), content: text.subrange(end, text.len() as int) }
        } else {
            let rest = parsed_from(text, end);
            Parsed {
                headers: seq![header_at(text, from, end)] + rest.headers,
                content: rest.content,
            }
        }
    }
}

#[via_fn]
proof fn parsed_from_terminates(text: Seq<char>, from: int) {
    if 0 <= from < text.len() {
        lemma_line_end_bounds(text, from);
    }
}

/// What a text holds when it is read as a note.
pub open spec fn parsed(text: Seq<char>) -> Parsed {
    parsed_from(text, 0)
}

/// A line ends after its start and within the text.
pub proof fn lemma_line_end_bounds(text: Seq<char>, from: int)
    requires
        0 <= from < text.len(),
    ensures
        from < line_end(text, from) <= text.len(),
    decreases text.len() - from,
{
    if text[from] != '\n' {
        if from + 1 < text.len() {
            lemma_line_end_bounds(text, from + 1);
        } else {
            assert(line_end(text, from + 1) == text.len());
        }
    }
}

/// A line reaches up to its first line feed, which it includes, or up to
/// the end of the text where it has none.
pub proof fn lemma_line_ends_at_first_line_feed(text: Seq<char>, from: int)
    requires
        0 <= from < text.len(),
    ensures
        forall|i: int| from <= i < line_end(text, from) - 1 ==> text[i] != '\n',
        text[line_end(text, from) - 1] == '\n' || line_end(text, from) == text.len(),
    decreases text.len() - from,
{
    lemma_line_end_bounds(text, from);
    if text[from] != '\n' {
        if from + 1 < text.len() {
            lemma_line_ends_at_first_line_feed(text, from + 1);
        } else {
            assert(line_end(text, from + 1) == text.len());
        }
    }
}

/// The colon position is that of the first colon of the range.
pub proof fn lemma_colon_position_is_first(text: Seq<char>, from: int, to: int)
    requires
        0 <= from <= to <= text.len(),
    ensures
        from <= colon_position(text, from, to) <= to,
        forall|i: int| from <= i < colon_position(text, from, to) ==> text[i] != ':',
        colon_position(text, from, to) < to ==> text[colon_position(text, from, to)] == ':',
    decreases to - from,
{
    if from < to && text[from] != ':' {
        lemma_colon_position_is_first(text, from + 1, to);
    }
}

/// Skipping blanks passes over white space only and stops at the first
/// character that is none.
pub proof fn lemma_skip_blanks(text: Seq<char>, from: int, to: int)
    requires
        0 <= from <= to <= text.len(),
    ensures
        from <= skip_blanks(text, from, to) <= to,
        forall|i: int| from <= i < skip_blanks(text, from, to) ==> whitespace(text[i]),
        skip_blanks(text, from, to) < to ==> !whitespace(text[skip_blanks(text, from, to)]),
    decreases to - from,
{
    if from < to && whitespace(text[from]) {
        lemma_skip_blanks(text, from + 1, to);
    }
}

/// Dropping blanks passes over white space only and stops after the last
/// character that is none.
pub proof fn lemma_drop_blanks(text: Seq<char>, from: int, to: int)
    requires
        0 <= from <= to <= text.len(),
    ensures
        from <= drop_blanks(text, from, to) <= to,
        forall|i: int| drop_blanks(text, from, to) <= i < to ==> whitespace(text[i]),
        from < drop_blanks(text, from, to) ==> !whitespace(text[drop_blanks(text, from, to) - 1]),
    decreases to - from,
{
    if from < to && whitespace(text[to - 1]) {
        lemma_drop_blanks(text, from, to - 1);
    }
}

/// A trimmed text neither starts nor ends with white space, and it is
/// empty exactly when its range holds white space only.
pub proof fn lemma_trimmed_is_tight(text: Seq<char>, from: int, to: int)
    requires
        0 <= from <= to <= text.len(),
    ensures
        trimmed(text, from, to).len() > 0 ==> !whitespace(trimmed(text, from, to).first())
            && !whitespace(trimmed(text, from, to).last()),
        trimmed(text, from, to).len() == 0 <==> forall|i: int|
            from <= i < to ==> whitespace(text[i]),
{
    let start = skip_blanks(text, from, to);
    lemma_skip_blanks(text, from, to);
    lemma_drop_blanks(text, start, to);
    let stop = drop_blanks(text, start, to);
    if start < to {
        assert(!whitespace(text[start]));
        assert(start < stop);
    }
}

/// The content of a note is the end of its text.
pub proof fn lemma_content_is_end_of_text(text: Seq<char>, from: int)
    requires
        0 <= from <= text.len(),
    ensures
        exists|start: int|
            from <= start <= text.len() && parsed_from(text, from).content == text.subrange(
                start,
                text.len() as int,
            ),
    decreases text.len() - from,
{
    let n = text.len() as int;
    if from >= n {
        assert(parsed_from(text, from).content == text.subrange(n, n));
    } else {
        let end = line_end(text, from);
        lemma_line_end_bounds(text, from);
        if skip_blanks(text, from, end) == end {
            assert(parsed_from(text, from).content == text.subrange(end, n));
        } else {
            lemma_content_is_end_of_text(text, end);
            let start = choose|start: int|
                end <= start <= n && parsed_from(text, end).content == text.subrange(start, n);
            assert(parsed_from(text, from).content == text.subrange(start, n));
        }
    }
}

/// Finds the end of the line that starts at `from`.
fn find_line_end(chars: &Vec<char>, from: usize) -> (end: usize)
    requires
        from < chars@.len(),
    ensures
        end == line_end(chars@, from as int),
        from < end <= chars@.len(),
{
    proof {
        lemma_line_end_bounds(chars@, from as int);
    }
    let n: usize = chars.len();
    let mut i: usize = from;
    while i < n && chars[i] != '\n'
        invariant
            from <= i <= n,
            n == chars@.len(),
            line_end(chars@, from as int) == line_end(chars@, i as int),
        decreases n - i,
    {
        i += 1;
    }
    if i < n {
        i + 1
    } else {
        n
    }
}

/// Finds the first colon in `[from, to)`.
fn find_colon(chars: &Vec<char>, from: usize, to: usize) -> (colon: usize)
    requires
        from <= to <= chars@.len(),
    ensures
        colon == colon_position(chars@, from as int, to as int),
        from <= colon <= to,
{
    let mut i: usize = from;
    while i < to && chars[i] != ':'
        invariant
            from <= i <= to,
            to <= chars@.len(),
            colon_position(chars@, from as int, to as int) == colon_position(
                chars@,
                i as int,
                to as int,
            ),
        decreases to - i,
    {
        i += 1;
    }
    i
}

/// Finds the first character in `[from, to)` that is not white space.
fn find_start(chars: &Vec<char>, from: usize, to: usize) -> (start: usize)
    requires
        from <= to <= chars@.len(),
    ensures
        start == skip_blanks(chars@, from as int, to as int),
        from <= start <= to,
{
    let mut i: usize = from;
    while i < to && is_whitespace(chars[i])
        invariant
            from <= i <= to,
            to <= chars@.len(),
            skip_blanks(chars@, from as int, to as int) == skip_blanks(
                chars@,
                i as int,
                to as int,
            ),
        decreases to - i,
    {
        i += 1;
    }
    i
}

/// Finds the position after the last character in `[from, to)` that is
/// not white space.
fn find_stop(chars: &Vec<char>, from: usize, to: usize) -> (stop: usize)
    requires
        from <= to <= chars@.len(),
    ensures
        stop == drop_blanks(chars@, from as int, to as int),
        from <= stop <= to,
{
    let mut i: usize = to;
    while i > from && is_whitespace(chars[i - 1])
        invariant
            from <= i <= to,
            to <= chars@.len(),
            drop_blanks(chars@, from as int, to as int) == drop_blanks(
                chars@,
                from as int,
                i as int,
            ),
        decreases i - from,
    {
        i -= 1;
    }
    i
}

/// The trimmed text of `[from, to)`.
fn trim(text: &str, chars: &Vec<char>, from: usize, to: usize) -> (part: String)
    requires
        chars@ == text@,
        from <= to <= chars@.len(),
    ensures
        part@ == trimmed(text@, from as int, to as int),
{
    let start: usize = find_start(chars, from, to);
    let stop: usize = find_stop(chars, start, to);
    String::from_str(text.substring_char(start, stop))
}

impl Subtext {
    /// The note of the file called `name`, whose text is `text`.
    pub fn from_file(name: String, text: &str) -> (note: Subtext)
        ensures
            note@ == (SubtextView {
                name: name@,
                headers: parsed(text@).headers,
                content: parsed(text@).content,
            }),
    {
        let chars = characters(text);
        let n: usize = chars.len();
        let mut headers: Vec<(String, String)> = Vec::new();
        let mut position: usize = 0;
        let mut in_headers: bool = true;
        while in_headers && position < n
            invariant
                position <= n,
                n == chars@.len(),
                chars@ == text@,
                in_headers ==> parsed(text@).headers == header_texts(headers@) + parsed_from(
                    text@,
                    position as int,
                ).headers,
                in_headers ==> parsed(text@).content == parsed_from(
                    text@,
                    position as int,
                ).content,
                !in_headers ==> parsed(text@).headers == header_texts(headers@),
                !in_headers ==> parsed(text@).content == text@.subrange(
                    position as int,
                    n as int,
                ),
            decreases n - position,
        {
            let end: usize = find_line_end(&chars, position);
            if find_start(&chars, position, end) == end {
                in_headers = false;
                assert(header_texts(headers@) + Seq::empty() == header_texts(headers@));
            } else {
                let colon: usize = find_colon(&chars, position, end);
                let key = trim(text, &chars, position, colon);
                let value = if colon < end {
                    trim(text, &chars, colon + 1, end)
                } else {
                    String::new()
                };
                let ghost before = header_texts(headers@);
                headers.push((key, value));
                proof {
                    let header = header_at(text@, position as int, end as int);
                    assert(header_texts(headers@) == before.push(header));
                    assert(before.push(header) + parsed_from(text@, end as int).headers == before
                        + (seq![header] + parsed_from(text@, end as int).headers));
                }
            }
            position = end;
        }
        let content = String::from_str(text.substring_char(position, n));
        proof {
            if in_headers {
                assert(header_texts(headers@) + Seq::empty() == header_texts(headers@));
                assert(text@.subrange(n as int, n as int) == Seq::<char>::empty());
            }
        }
        Subtext { name, headers, content }
    }
}

} // verus!
