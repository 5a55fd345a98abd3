//! A conversational agent with a semantic memory.
//!
//! The agent remembers texts with their embeddings, recalls the memory
//! that is most similar to what it is told, and puts it into the prompt
//! that it composes. A conversation loop keeps a bounded working set of
//! recent outputs and picks a generation strategy for each turn.

pub mod agent;
pub mod conversation;
pub mod env;
pub mod menu;
pub mod metaprompts;
pub mod notes;
pub mod openai;
pub mod prompts;
mod random;
pub mod similarity;
pub mod subtext;
pub mod text;
