//! Texts: their characters, and joining them.

use vstd::prelude::*;
use vstd::string::*;

verus! {

/// The characters of `text`, in order.
pub fn characters(text: &str) -> (chars: Vec<char>)
    ensures
        chars@ == text@,
{
    let mut chars: Vec<char> = Vec::new();
    let iterator = text.chars();
    for c in it: iterator
        invariant
            it.seq() == text@,
            chars@ == it.seq().take(it.index()),
    {
        chars.push(c);
        assert(it.seq().take(it.index() + 1) == it.seq().take(it.index()).push(c));
    }
    assert(chars@ == text@);
    chars
}

/// The texts that a sequence of strings holds.
pub open spec fn texts(strings: Seq<String>) -> Seq<Seq<char>> {
    strings.map_values(|s: String| s@)
}

/// The text that an optional string holds.
pub open spec fn optional_text(string: Option<String>) -> Option<Seq<char>> {
    match string {
        Some(s) => Some(s@),
        None => None,
    }
}

/// The entries joined into one text, with `separator` between
/// neighbours.
pub open spec fn join(entries: Seq<Seq<char>>, separator: Seq<char>) -> Seq<char>
    decreases entries.len(),
{
    if entries.len() == 0 {
        Seq::empty()
    } else if entries.len() == 1 {
        entries[0]
    } else {
        join(entries.drop_last(), separator) + separator + entries.last()
    }
}

/// Joins `entries` with `separator` between neighbours.
pub fn join_strings(entries: &Vec<String>, separator: &str) -> (text: String)
    ensures
        text@ == join(texts(entries@), separator@),
{
    let n: usize = entries.len();
    let ghost all = texts(entries@);
    if n == 0 {
        return String::new();
    }
    let mut text = entries[0].clone();
    assert(all.take(1) == seq![all[0]]);
    let mut i: usize = 1;
    while i < n
        invariant
            1 <= i <= n,
            n == entries@.len(),
            all == texts(entries@),
            text@ == join(all.take(i as int), separator@),
        decreases n - i,
    {
        text.append(separator);
        text.append(entries[i].as_str());
        proof {
            let grown = all.take(i + 1);
            assert(grown.drop_last() == all.take(i as int));
            assert(grown.last() == entries@[i as int]@);
        }
        i += 1;
    }
    assert(all.take(n as int) == all);
    text
}

} // verus!
