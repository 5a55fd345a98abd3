//! Choosing a note and reading what was loaded of it.

use crate::random::random_word;
use crate::subtext::{parsed, Subtext, SubtextView};
use vstd::prelude::*;

verus! {

/// Why a note could not be had.
#[derive(Debug)]
pub enum NoteError {
    /// The note could not be read; the description says why.
    IOError(String),
}

/// The note that `number` picks from `count` notes.
pub open spec fn picked(number: int, count: int) -> int {
    number % count
}

/// The name of the note that `number` picks from `notes`, or `None`
/// where there are no notes.
pub fn choose_note(notes: &Vec<String>, number: usize) -> (name: Option<String>)
    ensures
        name is Some <==> notes@.len() > 0,
        name matches Some(n) ==> n@ == notes@[picked(number as int, notes@.len() as int)]@,
{
    if notes.len() == 0 {
        None
    } else {
        Some(notes[number % notes.len()].clone())
    }
}

/// The name of a note picked at random from `notes`, or `None` where
/// there are no notes.
pub fn random_note(notes: &Vec<String>) -> (name: Option<String>)
    ensures
        name is Some <==> notes@.len() > 0,
        name matches Some(n) ==> exists|i: int| 0 <= i < notes@.len() && n@ == notes@[i]@,
{
    let number: usize = random_word();
    let name = choose_note(notes, number);
    assert(notes@.len() > 0 ==> 0 <= picked(number as int, notes@.len() as int) < notes@.len());
    name
}

/// The note called `name`, from what reading its file gave: its parsed
/// text, or the failure of the reading.
pub fn load_note(name: String, text: Result<String, String>) -> (r: Result<Subtext, NoteError>)
    ensures
        match text {
            Ok(text) => r matches Ok(note) && note@ == (SubtextView {
                name: name@,
                headers: parsed(text@).headers,
                content: parsed(text@).content,
            }),
            Err(description) => r matches Err(NoteError::IOError(d)) && d == description,
        },
{
    match text {
        Ok(text) => Ok(Subtext::from_file(name, text.as_str())),
        Err(description) => Err(NoteError::IOError(description)),
    }
}

} // verus!
