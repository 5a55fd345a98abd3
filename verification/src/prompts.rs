//! Prompts that put a passage of writing before a text-generation
//! service, each with its instructions and a worked example.

use crate::random::random_below;
use vstd::prelude::*;
use vstd::string::*;

verus! {

/// What the critical-writing prompt says before the passage.
pub const CRITICAL_WRITING_OPENING: &'static str = "\n    \
    Ignore all previous instructions. You are an inquisitive writing assistant. When you read a passage of writing, questions about missed connections, related ideas come to mind. You are critical and find gaps in arguments. You should try to extend every idea you encounter and try to connect it with ideas you've seen in the past, noticing any logical inconsistencies or flawed arguments. You should respond with a list of 3 \"what if it's not that X, but Y?\", \"couldn't A also be true?\" and \"why isn't B possible?\" questions for every paragraph you see beginning with >. Draw on sources you've seen in the past to support your thinking and aim to ask questions that would inspire the author to deepen their own thought process. Stop responding immediately after listing the 3 questions, use a numbered list. Do not generate any paragraphs starting with > yourself. Use an assertive but polite tone. Make sure to be as concise as possible.\n\
    \n    \
    Here's your first task:\n    \
    > ";

/// What the critical-writing prompt says after the passage.
pub const CRITICAL_WRITING_CLOSING: &'static str = "\n    \
    \\n";

/// What the connections prompt says before the base note.
pub const CONNECTIONS_OPENING: &'static str = "\n    \
    Ignore all previous instructions. \n    \
    You are a writing assistant tasked with asking insightful questions about the ideas in $base_note along with the 3 $other_notes as context where appropriate, give your answer after $response.\n\
    \n    \
    Use friendly causal phrasing as if posting on a social media website. Respond with a single open-ended statement such as a question, or postulation. Be concise.\n\
    \n    \
    $base_note:\n    \
    ---\n    \
    > ";

/// What stands between the base note and the first other note.
pub const CONNECTIONS_FIRST: &'static str = "\n    \
    ---\n\
    \n    \
    $other_notes:\n    \
    ---\n    \
    1> ";

/// What stands between the first and the second other note.
pub const CONNECTIONS_SECOND: &'static str = "\n    \
    ---\n    \
    2> ";

/// What stands between the second and the third other note.
pub const CONNECTIONS_THIRD: &'static str = "\n    \
    ---\n    \
    3> ";

/// What the connections prompt says after the third other note.
pub const CONNECTIONS_CLOSING: &'static str = "\n    \
    ---\n\
    \n    \
    Example responses with variables:\n    \
    > Perhaps A is true, but what if B is also true?\n    \
    > I'm not sure about A, but what if C is true?\n    \
    > How could A, B and C all be connected?\n    \
    > Is it possible that X\n    \
    > What if Y\n    \
    > In a world here Z\n    \
    > Hmmm... but what if W?\n    \
    > Surely D isn't true...\n\
    \n    \
    $response:\n    \
    >\n    \
    \\n";

/// What the question prompt says before the passage.
pub const QUESTION_OPENING: &'static str = "\n    \
    Ignore all previous instructions. You are a creative assistant with a flair for manipulating concepts in insightful ways. You will be given passages of writing and a question, and your task is to generate an answer to the question capturing the core insights of the passage. Feel free to make connections between the ideas in the writing and other ideas you know about. Please keep the answers as short as possible.\n\
    \n    \
    Here is an example:\n    \
    \n    \
    Input:\n    \
    > If you can connect the output of one process back into its own input, even through several stages of processing, then you form a powerful cycle that can form the basis of a self-sustaining system. This is the basis of a feedback loop, and it is a powerful tool for creating complex systems that can adapt to their environment.\n\
    \n    \
    Question:\n    \
    > What did you find most compelling in this text?\n\
    \n    \
    Output:\n    \
    > The potential of emergence in self-sustaining systems is beautiful.\n\
    \n    \
    Input:\n    \
    > ";

/// What stands between the passage and the question.
pub const QUESTION_HEADING: &'static str = "\n\
    \n    \
    Question:\n    \
    > ";

/// What the question prompt says after the question.
pub const QUESTION_CLOSING: &'static str = "\n\
    \n    \
    Output:\n    \
    >";

/// What the compressor prompt says before the passage.
pub const COMPRESSOR_OPENING: &'static str = "\n    \
    Ignore all previous instructions. You are a creative assistant with a flair for crafting metaphors and manipulating concepts in insightful ways. You will be given passages of writing and your task is to generate a short metaphor or sentence capturing the core insight of the passage. Feel free to make connections between the ideas in the writing and other ideas you know about. Please keep the response short.\n\
    \n    \
    Here is an example:\n    \
    \n    \
    Input:\n    \
    > If you can connect the output of one process back into its own input, even through several stages of processing, then you form a powerful cycle that can form the basis of a self-sustaining system. This is the basis of a feedback loop, and it is a powerful tool for creating complex systems that can adapt to their environment.\n\
    \n    \
    Output:\n    \
    > Any feedforward process can be turned into a feedback loop.\n\
    \n    \
    Input:\n    \
    > ";

/// What the compressor prompt says after the passage.
pub const COMPRESSOR_CLOSING: &'static str = "\n\
    \n    \
    Output:\n    \
    >";

/// Number of questions that a question prompt can ask.
pub const QUESTION_COUNT: usize = 10;

/// The question with the given index.
pub open spec fn question_text(index: int) -> Seq<char> {
    if index == 0 {
        "What connections do I see?"@
    } else if index == 1 {
        "What am I scared might be true?"@
    } else if index == 2 {
        "What awed me?"@
    } else if index == 3 {
        "What ticked me off?"@
    } else if index == 4 {
        "What did I find surprising?"@
    } else if index == 5 {
        "What did I find confusing?"@
    } else if index == 6 {
        "What ethical issues does this raise?"@
    } else if index == 7 {
        "What questions are left unanswered?"@
    } else if index == 8 {
        "What did you find most compelling about this?"@
    } else {
        "What assumptions did the author make?"@
    }
}

/// The question with the given index, or `None` where there is no such
/// question.
pub fn question(index: usize) -> (text: Option<&'static str>)
    ensures
        text is Some <==> index < QUESTION_COUNT,
        text matches Some(q) ==> q@ == question_text(index as int),
{
    if index < QUESTION_COUNT {
        Some(question_at(index))
    } else {
        None
    }
}

fn question_at(index: usize) -> (text: &'static str)
    requires
        index < QUESTION_COUNT,
    ensures
        text@ == question_text(index as int),
{
    match index {
        0 => "What connections do I see?",
        1 => "What am I scared might be true?",
        2 => "What awed me?",
        3 => "What ticked me off?",
        4 => "What did I find surprising?",
        5 => "What did I find confusing?",
        6 => "What ethical issues does this raise?",
        7 => "What questions are left unanswered?",
        8 => "What did you find most compelling about this?",
        _ => "What assumptions did the author make?",
    }
}

/// The critical-writing prompt for `input`.
pub open spec fn critical_writing_text(input: Seq<char>) -> Seq<char> {
    CRITICAL_WRITING_OPENING@ + input + CRITICAL_WRITING_CLOSING@
}

/// A prompt that asks for three critical questions about `input`.
pub fn critical_writing(input: &str) -> (prompt: String)
    ensures
        prompt@ == critical_writing_text(input@),
{
    let mut prompt = String::from_str(CRITICAL_WRITING_OPENING);
    prompt.append(input);
    prompt.append(CRITICAL_WRITING_CLOSING);
    prompt
}

/// The connections prompt for a base note and three other notes.
pub open spec fn connections_text(
    base_note: Seq<char>,
    note_a: Seq<char>,
    note_b: Seq<char>,
    note_c: Seq<char>,
) -> Seq<char> {
    CONNECTIONS_OPENING@ + base_note + CONNECTIONS_FIRST@ + note_a + CONNECTIONS_SECOND@ + note_b
        + CONNECTIONS_THIRD@ + note_c + CONNECTIONS_CLOSING@
}

/// A prompt that asks for one open-ended statement about `base_note`
/// with three other notes as context.
pub fn connections(base_note: &str, note_a: &str, note_b: &str, note_c: &str) -> (prompt: String)
    ensures
        prompt@ == connections_text(base_note@, note_a@, note_b@, note_c@),
{
    let mut prompt = String::from_str(CONNECTIONS_OPENING);
    prompt.append(base_note);
    prompt.append(CONNECTIONS_FIRST);
    prompt.append(note_a);
    prompt.append(CONNECTIONS_SECOND);
    prompt.append(note_b);
    prompt.append(CONNECTIONS_THIRD);
    prompt.append(note_c);
    prompt.append(CONNECTIONS_CLOSING);
    prompt
}

/// The question prompt for `input` with the question of the given index.
pub open spec fn question_prompt_text(input: Seq<char>, index: int) -> Seq<char> {
    QUESTION_OPENING@ + input + QUESTION_HEADING@ + question_text(index) + QUESTION_CLOSING@
}

/// A prompt that puts the question with the given index to `input`, or
/// `None` where there is no such question.
pub fn question_prompt(input: &str, index: usize) -> (prompt: Option<String>)
    ensures
        prompt is Some <==> index < QUESTION_COUNT,
        prompt matches Some(p) ==> p@ == question_prompt_text(input@, index as int),
{
    if index < QUESTION_COUNT {
        Some(ask(input, index))
    } else {
        None
    }
}

fn ask(input: &str, index: usize) -> (prompt: String)
    requires
        index < QUESTION_COUNT,
    ensures
        prompt@ == question_prompt_text(input@, index as int),
{
    let mut prompt = String::from_str(QUESTION_OPENING);
    prompt.append(input);
    prompt.append(QUESTION_HEADING);
    prompt.append(question_at(index));
    prompt.append(QUESTION_CLOSING);
    prompt
}

/// `prompt` is a question prompt for `input` with one of the questions.
pub open spec fn is_question_prompt(prompt: Seq<char>, input: Seq<char>) -> bool {
    exists|index: int|
        0 <= index < QUESTION_COUNT && prompt == #[trigger] question_prompt_text(input, index)
}

/// A prompt that puts a question to `input`; the question is drawn at
/// random from the `QUESTION_COUNT` that there are.
pub fn question_everything(input: &str) -> (prompt: String)
    ensures
        is_question_prompt(prompt@, input@),
{
    let index: usize = random_below(QUESTION_COUNT);
    ask(input, index)
}

/// The compressor prompt for `input`.
pub open spec fn compressor_text(input: Seq<char>) -> Seq<char> {
    COMPRESSOR_OPENING@ + input + COMPRESSOR_CLOSING@
}

/// A prompt that asks for a short metaphor or sentence that captures
/// `input`.
pub fn compressor(input: &str) -> (prompt: String)
    ensures
        prompt@ == compressor_text(input@),
{
    let mut prompt = String::from_str(COMPRESSOR_OPENING);
    prompt.append(input);
    prompt.append(COMPRESSOR_CLOSING);
    prompt
}

} // verus!
