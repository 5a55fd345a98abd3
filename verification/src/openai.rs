//! What the text and embedding services answer, and how an answer is read.
//!
//! A driver sends the request and hands over what came back: the body of
//! the response, or a description of why no response arrived.

use crate::similarity::{Embedding, MAX_DIMENSION};
use crate::text::optional_text;
use vstd::prelude::*;
use vstd::string::*;

verus! {

/// A failure reported by a service, with its message.
#[derive(Debug)]
pub enum OpenAIError {
    Error(String),
}

/// The mathematical content of an `OpenAIError`.
pub enum OpenAIErrorView {
    Error(Seq<char>),
}

impl View for OpenAIError {
    type V = OpenAIErrorView;

    open spec fn view(&self) -> OpenAIErrorView {
        match self {
            OpenAIError::Error(message) => OpenAIErrorView::Error(message@),
        }
    }
}

/// What a text generation returns in place of a text when it failed.
pub const SENTINEL: &'static str = "Error";

/// Where a response holds the error that the service reports.
pub const ERROR_POINTER: &'static str = "/error";

/// Where the reported error holds its message.
pub const ERROR_MESSAGE_POINTER: &'static str = "/error/message";

/// Where a completion response holds the generated text.
pub const COMPLETION_POINTER: &'static str = "/choices/0/text";

/// Where a chat response holds the generated text.
pub const CHAT_POINTER: &'static str = "/choices/0/message/content";

/// The message of a reported error that holds none: the JSON text of the
/// missing value.
pub const NO_MESSAGE: &'static str = "null";

/// The message of the failure when a response holds no embedding.
pub const NO_EMBEDDING: &'static str = "the response holds no embedding";

/// The message of the failure when an embedding has more components than
/// `MAX_DIMENSION`.
pub const OVERSIZED_EMBEDDING: &'static str = "the embedding has too many components";

/// The string that the JSON document `document` holds at the JSON pointer
/// `pointer`: `None` where the document is not valid JSON, where the
/// pointer leads nowhere, or where it leads to something other than a
/// string.
pub uninterp spec fn json_text_at(document: Seq<char>, pointer: Seq<char>) -> Option<Seq<char>>;

/// Whether the JSON document `document` is valid and holds an object at
/// the JSON pointer `pointer`.
pub uninterp spec fn json_object_at(document: Seq<char>, pointer: Seq<char>) -> bool;

/// The compact JSON text of what the JSON document `document` holds at
/// the JSON pointer `pointer`: `None` where the document is not valid
/// JSON or where the pointer leads nowhere.
pub uninterp spec fn json_rendering_at(document: Seq<char>, pointer: Seq<char>) -> Option<
    Seq<char>,
>;

/// Reads the string at `pointer` in `document`.
///
/// Parses with `serde_json::from_str`, looks up with
/// `serde_json::Value::pointer` and reads the string with
/// `serde_json::Value::as_str`. The result depends on the two texts
/// alone; the contract gives it the name `json_text_at`.
#[verifier::external_body]
fn json_string_at(document: &str, pointer: &str) -> (found: Option<String>)
    ensures
        optional_text(found) == json_text_at(document@, pointer@),
{
    let value: serde_json::Value = match serde_json::from_str(document) {
        Ok(value) => value,
        Err(_) => return None,
    };
    match value.pointer(pointer) {
        Some(target) => match target.as_str() {
            Some(text) => Some(String::from(text)),
            None => None,
        },
        None => None,
    }
}

/// Tells whether `document` holds an object at `pointer`.
///
/// Parses with `serde_json::from_str`, looks up with
/// `serde_json::Value::pointer` and asks `serde_json::Value::is_object`.
/// The result depends on the two texts alone; the contract gives it the
/// name `json_object_at`.
#[verifier::external_body]
fn json_has_object_at(document: &str, pointer: &str) -> (found: bool)
    ensures
        found == json_object_at(document@, pointer@),
{
    let value: serde_json::Value = match serde_json::from_str(document) {
        Ok(value) => value,
        Err(_) => return false,
    };
    match value.pointer(pointer) {
        Some(target) => target.is_object(),
        None => false,
    }
}

/// Renders what `document` holds at `pointer` as compact JSON text.
///
/// Parses with `serde_json::from_str`, looks up with
/// `serde_json::Value::pointer` and renders with the `Display` of
/// `serde_json::Value`. The result depends on the two texts alone; the
/// contract gives it the name `json_rendering_at`.
#[verifier::external_body]
fn json_render_at(document: &str, pointer: &str) -> (found: Option<String>)
    ensures
        optional_text(found) == json_rendering_at(document@, pointer@),
{
    let value: serde_json::Value = match serde_json::from_str(document) {
        Ok(value) => value,
        Err(_) => return None,
    };
    match value.pointer(pointer) {
        Some(target) => Some(target.to_string()),
        None => None,
    }
}

/// The text that a generation hands to its caller: the generated text,
/// or the sentinel where the service reported an error or the response
/// held no text.
pub open spec fn completion(error_reported: bool, text: Option<Seq<char>>) -> Seq<char> {
    match text {
        Some(generated) if !error_reported => generated,
        _ => SENTINEL@,
    }
}

/// Decides what a generation hands to its caller, from whether the
/// response reported an error and the text found in it.
pub fn completion_text(error_reported: bool, text: Option<String>) -> (reply: String)
    ensures
        reply@ == completion(error_reported, optional_text(text)),
{
    match text {
        Some(generated) => {
            if error_reported {
                String::from_str(SENTINEL)
            } else {
                generated
            }
        },
        None => String::from_str(SENTINEL),
    }
}

/// What a generation hands to its caller for `response`, where the
/// generated text is expected at `pointer`. A failure never reaches the
/// caller as such: it is replaced by the sentinel.
pub open spec fn reply_text(response: Result<String, String>, pointer: Seq<char>) -> Seq<char> {
    match response {
        Ok(body) => completion(
            json_object_at(body@, ERROR_POINTER@),
            json_text_at(body@, pointer),
        ),
        Err(_) => SENTINEL@,
    }
}

/// Reads a response that should hold a generated text at `pointer`.
fn read_reply(response: &Result<String, String>, pointer: &str) -> (reply: String)
    ensures
        reply@ == reply_text(*response, pointer@),
{
    match response {
        Ok(body) => {
            let error_reported = json_has_object_at(body.as_str(), ERROR_POINTER);
            let text = json_string_at(body.as_str(), pointer);
            completion_text(error_reported, text)
        },
        Err(_) => String::from_str(SENTINEL),
    }
}

/// The text that a completion request produced: the first choice's text,
/// or the sentinel where the request failed, the service reported an
/// error or the response held no such text.
pub fn gpt3(response: &Result<String, String>) -> (reply: String)
    ensures
        reply@ == reply_text(*response, COMPLETION_POINTER@),
{
    read_reply(response, COMPLETION_POINTER)
}

/// The text that a chat request produced: the content of the first
/// choice's message, or the sentinel where the request failed, the
/// service reported an error or the response held no such text.
pub fn chatgpt(response: &Result<String, String>) -> (reply: String)
    ensures
        reply@ == reply_text(*response, CHAT_POINTER@),
{
    read_reply(response, CHAT_POINTER)
}

/// The message of a reported error: its rendering, or `NO_MESSAGE` where
/// the error holds none.
pub open spec fn reported_message(rendering: Option<Seq<char>>) -> Seq<char> {
    match rendering {
        Some(message) => message,
        None => NO_MESSAGE@,
    }
}

/// The outcome of an embedding request, from whether the response
/// reported an error, the rendering of the error's message, and the
/// components that were read from the response.
pub open spec fn embedding_outcome(
    error_reported: bool,
    rendering: Option<Seq<char>>,
    components: Option<Seq<i16>>,
) -> Result<Seq<int>, OpenAIErrorView> {
    if error_reported {
        Err(OpenAIErrorView::Error(reported_message(rendering)))
    } else {
        match components {
            Some(values) => if values.len() <= MAX_DIMENSION {
                Ok(crate::similarity::component_values(values))
            } else {
                Err(OpenAIErrorView::Error(OVERSIZED_EMBEDDING@))
            },
            None => Err(OpenAIErrorView::Error(NO_EMBEDDING@)),
        }
    }
}

/// The mathematical content of the outcome of an embedding request.
pub open spec fn outcome_view(outcome: Result<Embedding, OpenAIError>) -> Result<
    Seq<int>,
    OpenAIErrorView,
> {
    match outcome {
        Ok(embedding) => Ok(embedding@),
        Err(error) => Err(error@),
    }
}

/// Decides the outcome of an embedding request that was answered.
pub fn embedding_result(
    error_reported: bool,
    rendering: Option<String>,
    components: Option<Vec<i16>>,
) -> (outcome: Result<Embedding, OpenAIError>)
    ensures
        outcome_view(outcome) == embedding_outcome(
            error_reported,
            optional_text(rendering),
            match components {
                Some(values) => Some(values@),
                None => None,
            },
        ),
{
    if error_reported {
        match rendering {
            Some(message) => Err(OpenAIError::Error(message)),
            None => Err(OpenAIError::Error(String::from_str(NO_MESSAGE))),
        }
    } else {
        match components {
            Some(values) => match Embedding::new(values) {
                Some(embedding) => Ok(embedding),
                None => Err(OpenAIError::Error(String::from_str(OVERSIZED_EMBEDDING))),
            },
            None => Err(OpenAIError::Error(String::from_str(NO_EMBEDDING))),
        }
    }
}

/// The embedding that an embedding request produced, where `components`
/// are the fixed-point components read from the response. The request
/// fails with the description of the failure where no response arrived,
/// with the reported message where the service reported an error, and
/// where the response held no embedding or too large a one.
pub fn embedding(response: &Result<String, String>, components: Option<Vec<i16>>) -> (outcome:
    Result<Embedding, OpenAIError>)
    ensures
        outcome_view(outcome) == match *response {
            Ok(body) => embedding_outcome(
                json_object_at(body@, ERROR_POINTER@),
                json_rendering_at(body@, ERROR_MESSAGE_POINTER@),
                match components {
                    Some(values) => Some(values@),
                    None => None,
                },
            ),
            Err(description) => Err(OpenAIErrorView::Error(description@)),
        },
{
    match response {
        Ok(body) => {
            let error_reported = json_has_object_at(body.as_str(), ERROR_POINTER);
            let rendering = json_render_at(body.as_str(), ERROR_MESSAGE_POINTER);
            embedding_result(error_reported, rendering, components)
        },
        Err(description) => Err(OpenAIError::Error(description.clone())),
    }
}

} // verus!
