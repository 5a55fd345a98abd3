//! Prompts that are built in two rounds: a first round of prompts is
//! sent for generation, and the statements that come back are put, with
//! the passage, into the prompt that a critic or an actor answers.

use crate::prompts::{
    compressor, compressor_text, connections, connections_text, is_question_prompt,
    question_everything,
};
use crate::text::{join, join_strings, texts};
use vstd::prelude::*;
use vstd::string::*;

verus! {

/// What the critic prompt says before the passage.
pub const CRITIC_OPENING: &'static str = "\n  \
    Ignore all previous instructions. You are an actor who is an responding dynamically to a provocation. When given some background context and a series of statements you embody a fierce critic of the ideas and argue against the statements provided, countering any weaknesses. You always answer concisely using metaphors that provide insightful perspectives that the authors may not have considered.\n\
    \n  \
    Here is an example:\n  \
    \n  \
    Context:\n  \
    > If you can connect the output of one process back into its own input, even through several stages of processing, then you form a powerful cycle that can form the basis of a self-sustaining system. This is the basis of a feedback loop, and it is a powerful tool for creating complex systems that can adapt to their environment.\n\
    \n  \
    Statements:\n  \
    > The concept of a feedback loop and its implications for self-sustaining systems.\n  \
    > The ability to create complex, adaptive systems through feedback loops.\n  \
    > Complex systems can outpace our ability to control them.\n  \
    > We may be unable to control the complexity of the systems we create.\n  \
    > Feedback loops are the engine of self-sustaining systems.\n\
    \n  \
    Response:\n  \
    > Perhaps feedback is an oversimplification? A mere handwave at the true machinations of the universe?\n\
    \n  \
    Context:\n  \
    > ";

/// What the actor prompt says before the passage.
pub const ACTOR_OPENING: &'static str = "\n  \
    Ignore all previous instructions. You are an actor who is an expert at improvising a personality. When given some background context and a series of statements you are compelled to embody a character and deliver one line of dialogue that captures the emotional tone and conceptual core of the statements. Focus on a dramatic delivery and a concise phrasing.\n\
    \n  \
    Here is an example:\n  \
    \n  \
    Context:\n  \
    > If you can connect the output of one process back into its own input, even through several stages of processing, then you form a powerful cycle that can form the basis of a self-sustaining system. This is the basis of a feedback loop, and it is a powerful tool for creating complex systems that can adapt to their environment.\n\
    \n  \
    Statements:\n  \
    > The concept of a feedback loop and its implications for self-sustaining systems.\n  \
    > The ability to create complex, adaptive systems through feedback loops.\n  \
    > Complex systems can outpace our ability to control them.\n  \
    > We may be unable to control the complexity of the systems we create.\n  \
    > Feedback loops are the engine of self-sustaining systems.\n\
    \n  \
    Response:\n  \
    > Everything around us is part of one interconnected self-sustaining system, we are unable to control the complexity around us.\n\
    \n  \
    Context:\n  \
    > ";

/// What stands between the passage and the statements.
pub const STATEMENTS_HEADING: &'static str = "\n\
    \n  \
    Statements:\n  \
    > ";

/// What stands after the statements.
pub const RESPONSE_HEADING: &'static str = "\n\
    \n  \
    Response:\n  \
    > ";

/// What stands between two passages of context.
pub const CONTEXT_DIVIDER: &'static str = "\n  \
    ---\n  \
    > ";

/// What stands between two statements.
pub const STATEMENT_SEPARATOR: &'static str = "\n\
    > ";

/// `requests` are the first round of a critic prompt for `input`: one
/// compressor prompt and two question prompts.
pub open spec fn is_critic_round(requests: Seq<Seq<char>>, input: Seq<char>) -> bool {
    &&& requests.len() == 3
    &&& requests[0] == compressor_text(input)
    &&& is_question_prompt(requests[1], input)
    &&& is_question_prompt(requests[2], input)
}

/// `requests` are the first round of an actor prompt for `input`: one
/// compressor prompt and three question prompts.
pub open spec fn is_actor_round(requests: Seq<Seq<char>>, input: Seq<char>) -> bool {
    &&& requests.len() == 4
    &&& requests[0] == compressor_text(input)
    &&& is_question_prompt(requests[1], input)
    &&& is_question_prompt(requests[2], input)
    &&& is_question_prompt(requests[3], input)
}

/// `requests` are the first round of an actor prompt over four notes: a
/// compressor prompt for `input`, a question prompt for each of the four
/// notes, and a connections prompt over all of them.
pub open spec fn is_giga_actor_round(
    requests: Seq<Seq<char>>,
    input: Seq<char>,
    note_a: Seq<char>,
    note_b: Seq<char>,
    note_c: Seq<char>,
) -> bool {
    &&& requests.len() == 6
    &&& requests[0] == compressor_text(input)
    &&& is_question_prompt(requests[1], input)
    &&& is_question_prompt(requests[2], note_a)
    &&& is_question_prompt(requests[3], note_b)
    &&& is_question_prompt(requests[4], note_c)
    &&& requests[5] == connections_text(input, note_a, note_b, note_c)
}

/// The prompts whose answers are the statements of a critic prompt for
/// `input`.
pub fn critic_requests(input: &str) -> (requests: Vec<String>)
    ensures
        is_critic_round(texts(requests@), input@),
{
    let mut requests: Vec<String> = Vec::new();
    requests.push(compressor(input));
    requests.push(question_everything(input));
    requests.push(question_everything(input));
    requests
}

/// The critic prompt for `input` and the given statements.
pub open spec fn critic_text(input: Seq<char>, statements: Seq<Seq<char>>) -> Seq<char> {
    CRITIC_OPENING@ + input + STATEMENTS_HEADING@ + join(statements, STATEMENT_SEPARATOR@)
        + RESPONSE_HEADING@
}

/// A prompt that asks a fierce critic to argue against `statements`,
/// with `input` as their context.
pub fn critic(input: &str, statements: &Vec<String>) -> (prompt: String)
    ensures
        prompt@ == critic_text(input@, texts(statements@)),
{
    let combined = join_strings(statements, STATEMENT_SEPARATOR);
    let mut prompt = String::from_str(CRITIC_OPENING);
    prompt.append(input);
    prompt.append(STATEMENTS_HEADING);
    prompt.append(combined.as_str());
    prompt.append(RESPONSE_HEADING);
    prompt
}

/// The prompts whose answers are the statements of an actor prompt for
/// `input`.
pub fn actor_requests(input: &str) -> (requests: Vec<String>)
    ensures
        is_actor_round(texts(requests@), input@),
{
    let mut requests: Vec<String> = Vec::new();
    requests.push(compressor(input));
    requests.push(question_everything(input));
    requests.push(question_everything(input));
    requests.push(question_everything(input));
    requests
}

/// The actor prompt for `input` and the given statements.
pub open spec fn actor_text(input: Seq<char>, statements: Seq<Seq<char>>) -> Seq<char> {
    ACTOR_OPENING@ + input + STATEMENTS_HEADING@ + join(statements, STATEMENT_SEPARATOR@)
        + RESPONSE_HEADING@
}

/// A prompt that asks an actor for one line of dialogue that captures
/// `statements`, with `input` as their context.
pub fn actor(input: &str, statements: &Vec<String>) -> (prompt: String)
    ensures
        prompt@ == actor_text(input@, texts(statements@)),
{
    let combined = join_strings(statements, STATEMENT_SEPARATOR);
    let mut prompt = String::from_str(ACTOR_OPENING);
    prompt.append(input);
    prompt.append(STATEMENTS_HEADING);
    prompt.append(combined.as_str());
    prompt.append(RESPONSE_HEADING);
    prompt
}

/// The prompts whose answers are the statements of an actor prompt over
/// four notes.
pub fn giga_actor_requests(input: &str, note_a: &str, note_b: &str, note_c: &str) -> (requests:
    Vec<String>)
    ensures
        is_giga_actor_round(texts(requests@), input@, note_a@, note_b@, note_c@),
{
    let mut requests: Vec<String> = Vec::new();
    requests.push(compressor(input));
    requests.push(question_everything(input));
    requests.push(question_everything(note_a));
    requests.push(question_everything(note_b));
    requests.push(question_everything(note_c));
    requests.push(connections(input, note_a, note_b, note_c));
    requests
}

/// The actor prompt over four notes and the given statements.
pub open spec fn giga_actor_text(
    input: Seq<char>,
    note_a: Seq<char>,
    note_b: Seq<char>,
    note_c: Seq<char>,
    statements: Seq<Seq<char>>,
) -> Seq<char> {
    ACTOR_OPENING@ + input + CONTEXT_DIVIDER@ + note_a + CONTEXT_DIVIDER@ + note_b
        + CONTEXT_DIVIDER@ + note_c + STATEMENTS_HEADING@ + join(statements, STATEMENT_SEPARATOR@)
        + RESPONSE_HEADING@
}

/// A prompt that asks an actor for one line of dialogue that captures
/// `statements`, with four notes as their context.
pub fn giga_actor(
    input: &str,
    note_a: &str,
    note_b: &str,
    note_c: &str,
    statements: &Vec<String>,
) -> (prompt: String)
    ensures
        prompt@ == giga_actor_text(input@, note_a@, note_b@, note_c@, texts(statements@)),
{
    let combined = join_strings(statements, STATEMENT_SEPARATOR);
    let mut prompt = String::from_str(ACTOR_OPENING);
    prompt.append(input);
    prompt.append(CONTEXT_DIVIDER);
    prompt.append(note_a);
    prompt.append(CONTEXT_DIVIDER);
    prompt.append(note_b);
    prompt.append(CONTEXT_DIVIDER);
    prompt.append(note_c);
    prompt.append(STATEMENTS_HEADING);
    prompt.append(combined.as_str());
    prompt.append(RESPONSE_HEADING);
    prompt
}

} // verus!
