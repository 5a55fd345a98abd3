//! An agent with a persona prompt and a bank of memories that it recalls
//! by similarity.

use crate::openai::OpenAIError;
use crate::similarity::{cosine, cosine_similarity, Cosine, Embedding, Similarity};
use crate::similarity::{
    lemma_cosine_magnitudes_positive, lemma_exceeds_asymmetric, lemma_exceeds_transitive,
};
use vstd::prelude::*;
use vstd::string::*;

verus! {

/// Something remembered: a label, a body and the embedding of the body.
#[derive(Debug)]
pub struct Memory {
    pub subject: String,
    pub content: String,
    pub embedding: Embedding,
}

/// The mathematical content of a `Memory`.
pub struct MemoryView {
    pub subject: Seq<char>,
    pub content: Seq<char>,
    pub embedding: Seq<int>,
}

impl View for Memory {
    type V = MemoryView;

    open spec fn view(&self) -> MemoryView {
        MemoryView {
            subject: self.subject@,
            content: self.content@,
            embedding: self.embedding@,
        }
    }
}

/// An agent: its persona prompt and its memories in insertion order.
#[derive(Debug)]
pub struct Agent {
    pub base_prompt: String,
    pub memory_bank: Vec<Memory>,
}

/// The mathematical content of an `Agent`.
pub struct AgentView {
    pub base_prompt: Seq<char>,
    pub memory_bank: Seq<MemoryView>,
}

impl View for Agent {
    type V = AgentView;

    open spec fn view(&self) -> AgentView {
        AgentView {
            base_prompt: self.base_prompt@,
            memory_bank: self.memory_bank@.map_values(|m: Memory| m@),
        }
    }
}

/// Why an operation of an agent failed.
#[derive(Debug)]
pub enum AgentError {
    OpenAIError(OpenAIError),
}

impl From<OpenAIError> for AgentError {
    fn from(openai_error: OpenAIError) -> (r: Self) {
        AgentError::OpenAIError(openai_error)
    }
}

impl vstd::std_specs::convert::FromSpecImpl<OpenAIError> for AgentError {
    open spec fn obeys_from_spec() -> bool {
        true
    }

    open spec fn from_spec(v: OpenAIError) -> Self {
        AgentError::OpenAIError(v)
    }
}

/// Memory `i` of `bank` can be recalled for `query`: its similarity to
/// the query is defined and positive.
pub open spec fn qualifies(bank: Seq<MemoryView>, query: Seq<int>, i: int) -> bool {
    &&& 0 <= i < bank.len()
    &&& cosine(bank[i].embedding, query) matches Some(c)
    &&& c.is_positive()
}

/// The similarity of memory `i` to `query`, where it is defined.
pub open spec fn similarity_at(bank: Seq<MemoryView>, query: Seq<int>, i: int) -> Cosine {
    cosine(bank[i].embedding, query)->0
}

/// Memory `j` is the best match among the first `n` memories: it
/// qualifies, it is strictly more similar to the query than every
/// qualifying memory before it, and no qualifying memory after it is more
/// similar than it.
pub open spec fn is_best_of_prefix(
    bank: Seq<MemoryView>,
    query: Seq<int>,
    j: int,
    n: int,
) -> bool {
    &&& j < n <= bank.len()
    &&& qualifies(bank, query, j)
    &&& forall|i: int|
        0 <= i < j && #[trigger] qualifies(bank, query, i) ==> similarity_at(
            bank,
            query,
            j,
        ).exceeds(similarity_at(bank, query, i))
    &&& forall|i: int|
        j < i < n && #[trigger] qualifies(bank, query, i) ==> !similarity_at(
            bank,
            query,
            i,
        ).exceeds(similarity_at(bank, query, j))
}

/// Memory `j` is the one that `query` recalls from `bank`.
pub open spec fn is_recalled(bank: Seq<MemoryView>, query: Seq<int>, j: int) -> bool {
    is_best_of_prefix(bank, query, j, bank.len() as int)
}

/// The content that `query` recalls from `bank`, if it recalls any.
pub open spec fn recalled_content(bank: Seq<MemoryView>, query: Seq<int>) -> Option<Seq<char>> {
    if exists|j: int| is_recalled(bank, query, j) {
        Some(bank[choose|j: int| is_recalled(bank, query, j)].content)
    } else {
        None
    }
}

/// A query recalls at most one memory.
pub proof fn lemma_recalled_is_unique(bank: Seq<MemoryView>, query: Seq<int>, j: int, k: int)
    requires
        is_recalled(bank, query, j),
        is_recalled(bank, query, k),
    ensures
        j == k,
{
    if j < k {
        lemma_exceeds_asymmetric(similarity_at(bank, query, k), similarity_at(bank, query, j));
    } else if k < j {
        lemma_exceeds_asymmetric(similarity_at(bank, query, j), similarity_at(bank, query, k));
    }
}

/// How the best match changes when one more memory is taken into
/// account: a memory that does not qualify changes nothing, one that is
/// strictly more similar than the best so far takes its place, and any
/// other leaves it where it is.
pub proof fn lemma_best_of_longer_prefix(bank: Seq<MemoryView>, query: Seq<int>, j: int, k: int)
    requires
        0 <= k < bank.len(),
        is_best_of_prefix(bank, query, j, k),
    ensures
        is_best_of_prefix(
            bank,
            query,
            if qualifies(bank, query, k) && similarity_at(bank, query, k).exceeds(
                similarity_at(bank, query, j),
            ) {
                k
            } else {
                j
            },
            k + 1,
        ),
{
    let high = similarity_at(bank, query, k);
    let mid = similarity_at(bank, query, j);
    if qualifies(bank, query, k) && high.exceeds(mid) {
        lemma_cosine_magnitudes_positive(bank[j].embedding, query);
        lemma_cosine_magnitudes_positive(bank[k].embedding, query);
        assert forall|i: int| 0 <= i < k && #[trigger] qualifies(bank, query, i) implies high.exceeds(
            similarity_at(bank, query, i),
        ) by {
            let low = similarity_at(bank, query, i);
            lemma_cosine_magnitudes_positive(bank[i].embedding, query);
            lemma_exceeds_asymmetric(mid, low);
            if i != j {
                lemma_exceeds_transitive(low, mid, high);
            }
        }
    }
}

/// Among the first `n` memories there is a best match as soon as one of
/// them qualifies.
pub proof fn lemma_best_of_prefix_exists(bank: Seq<MemoryView>, query: Seq<int>, n: int)
    requires
        0 <= n <= bank.len(),
    ensures
        (exists|i: int| 0 <= i < n && qualifies(bank, query, i)) ==> exists|j: int|
            is_best_of_prefix(bank, query, j, n),
    decreases n,
{
    if n > 0 {
        let k = n - 1;
        lemma_best_of_prefix_exists(bank, query, k);
        if exists|i: int| 0 <= i < k && qualifies(bank, query, i) {
            let j = choose|j: int| is_best_of_prefix(bank, query, j, k);
            lemma_best_of_longer_prefix(bank, query, j, k);
        } else if qualifies(bank, query, k) {
            assert(is_best_of_prefix(bank, query, k, n));
        }
    }
}

/// A query recalls a memory exactly when some memory qualifies for it.
pub proof fn lemma_recalls_when_any_qualifies(bank: Seq<MemoryView>, query: Seq<int>)
    ensures
        recalled_content(bank, query) is Some <==> exists|i: int| qualifies(bank, query, i),
{
    lemma_best_of_prefix_exists(bank, query, bank.len() as int);
    if exists|i: int| qualifies(bank, query, i) {
        let i = choose|i: int| qualifies(bank, query, i);
        assert(0 <= i < bank.len() && qualifies(bank, query, i));
        let j = choose|j: int| is_best_of_prefix(bank, query, j, bank.len() as int);
        assert(is_recalled(bank, query, j));
    }
    if recalled_content(bank, query) is Some {
        let j = choose|j: int| is_recalled(bank, query, j);
        assert(qualifies(bank, query, j));
    }
}

/// Text that introduces the input when a memory follows it.
pub const MESSAGE_HEADING: &'static str = "\n\n          Message:\n          ";

/// Text that introduces the recalled memory.
pub const RECALL_HEADING: &'static str = "\n          \n          Reminding me of:\n          ";

/// Text that introduces the input when nothing was recalled.
pub const PLAIN_HEADING: &'static str = "\n          \n          Message:\n          ";

/// Text that closes the prompt when nothing was recalled.
pub const PLAIN_CLOSING: &'static str = "\n          ";

/// The block that is appended to a persona prompt: the input, and the
/// recalled memory under its own heading where there is one.
pub open spec fn message_text(input: Seq<char>, recalled: Option<Seq<char>>) -> Seq<char> {
    match recalled {
        Some(memory) => MESSAGE_HEADING@ + input + RECALL_HEADING@ + memory,
        None => PLAIN_HEADING@ + input + PLAIN_CLOSING@,
    }
}

/// The persona prompt followed by the message block.
pub open spec fn prompt_text(
    base_prompt: Seq<char>,
    input: Seq<char>,
    recalled: Option<Seq<char>>,
) -> Seq<char> {
    base_prompt + message_text(input, recalled)
}

/// `needle` occurs in `text` at offset `at`.
pub open spec fn occurs_at(text: Seq<char>, needle: Seq<char>, at: int) -> bool {
    0 <= at && at + needle.len() <= text.len() && text.subrange(at, at + needle.len()) == needle
}

/// `needle` occurs somewhere in `text`.
pub open spec fn occurs_in(text: Seq<char>, needle: Seq<char>) -> bool {
    exists|at: int| occurs_at(text, needle, at)
}

/// A composed prompt starts with the persona prompt and holds the input
/// verbatim, and the recalled memory too where there is one.
pub proof fn lemma_prompt_holds_its_parts(
    base_prompt: Seq<char>,
    input: Seq<char>,
    recalled: Option<Seq<char>>,
)
    ensures
        occurs_at(prompt_text(base_prompt, input, recalled), base_prompt, 0),
        occurs_in(prompt_text(base_prompt, input, recalled), input),
        recalled matches Some(memory) ==> occurs_in(
            prompt_text(base_prompt, input, recalled),
            memory,
        ),
{
    let text = prompt_text(base_prompt, input, recalled);
    assert(text.subrange(0, base_prompt.len() as int) == base_prompt);
    match recalled {
        Some(memory) => {
            let at = (base_prompt.len() + MESSAGE_HEADING@.len()) as int;
            assert(text.subrange(at, at + input.len()) == input);
            assert(occurs_at(text, input, at));
            let at_memory: int = at + input.len() + RECALL_HEADING@.len();
            assert(text.subrange(at_memory, at_memory + memory.len()) == memory);
            assert(occurs_at(text, memory, at_memory));
        },
        None => {
            let at = (base_prompt.len() + PLAIN_HEADING@.len()) as int;
            assert(text.subrange(at, at + input.len()) == input);
            assert(occurs_at(text, input, at));
        },
    }
}

/// The words that head the section of a recalled memory.
pub const RECALL_LABEL: &'static str = "Reminding me of:";

/// The section of a recalled memory is headed by `RECALL_LABEL`, and
/// what is put around the input when nothing was recalled does not hold
/// that label.
pub proof fn lemma_recall_label()
    ensures
        occurs_in(RECALL_HEADING@, RECALL_LABEL@),
        !occurs_in(PLAIN_HEADING@, RECALL_LABEL@),
        !occurs_in(PLAIN_CLOSING@, RECALL_LABEL@),
{
    reveal_strlit("Reminding me of:");
    reveal_strlit("\n          \n          Reminding me of:\n          ");
    reveal_strlit("\n          \n          Message:\n          ");
    reveal_strlit("\n          ");
    let label = RECALL_LABEL@;
    assert(RECALL_HEADING@.subrange(22, 38) == label);
    assert(occurs_at(RECALL_HEADING@, label, 22));
    assert forall|at: int| !occurs_at(PLAIN_HEADING@, label, at) by {
        if occurs_at(PLAIN_HEADING@, label, at) {
            assert(PLAIN_HEADING@.subrange(at, at + label.len())[0] == label[0]);
            assert(PLAIN_HEADING@[at] == 'R');
        }
    }
    assert forall|at: int| !occurs_at(PLAIN_CLOSING@, label, at) by {}
}

/// A prompt that was composed without a recalled memory holds no recall
/// section: `RECALL_LABEL` occurs in it nowhere, unless the persona
/// prompt or the input holds it.
pub proof fn lemma_plain_prompt_holds_no_recall_label(base_prompt: Seq<char>, input: Seq<char>)
    requires
        !occurs_in(base_prompt, RECALL_LABEL@),
        !occurs_in(input, RECALL_LABEL@),
    ensures
        !occurs_in(prompt_text(base_prompt, input, None), RECALL_LABEL@),
{
    reveal_strlit("Reminding me of:");
    reveal_strlit("\n          \n          Message:\n          ");
    reveal_strlit("\n          ");
    let label = RECALL_LABEL@;
    let text = prompt_text(base_prompt, input, None);
    let heading = base_prompt.len() as int;
    let body = heading + PLAIN_HEADING@.len();
    let closing = body + input.len();
    assert forall|at: int| !occurs_at(text, label, at) by {
        if occurs_at(text, label, at) {
            let found = text.subrange(at, at + 16);
            assert(found == label);
            assert(forall|k: int| 0 <= k < 16 ==> text[at + k] == #[trigger] found[k]);
            if at + 16 <= heading {
                assert(base_prompt.subrange(at, at + 16) == found);
                assert(occurs_at(base_prompt, label, at));
            } else if at < heading {
                assert(text[heading] == found[heading - at]);
            } else if at < body {
                assert(text[at] == found[0]);
                assert(text[at] == PLAIN_HEADING@[at - heading]);
            } else if at + 16 <= closing {
                assert(input.subrange(at - body, at - body + 16) == found);
                assert(occurs_at(input, label, at - body));
            } else if at < closing {
                assert(text[closing] == found[closing - at]);
            } else {
                assert(text[at] == found[0]);
                assert(text[at] == PLAIN_CLOSING@[at - closing]);
            }
        }
    }
}

/// Composes the prompt for one input: a copy of the persona prompt with
/// the message block appended.
pub fn compose_prompt(base_prompt: &str, input: &str, recalled: Option<&str>) -> (prompt: String)
    ensures
        prompt@ == prompt_text(
            base_prompt@,
            input@,
            match recalled {
                Some(memory) => Some(memory@),
                None => None,
            },
        ),
{
    let mut prompt = String::from_str(base_prompt);
    match recalled {
        Some(memory) => {
            prompt.append(MESSAGE_HEADING);
            prompt.append(input);
            prompt.append(RECALL_HEADING);
            prompt.append(memory);
            assert(prompt@ == base_prompt@ + (MESSAGE_HEADING@ + input@ + RECALL_HEADING@
                + memory@));
        },
        None => {
            prompt.append(PLAIN_HEADING);
            prompt.append(input);
            prompt.append(PLAIN_CLOSING);
            assert(prompt@ == base_prompt@ + (PLAIN_HEADING@ + input@ + PLAIN_CLOSING@));
        },
    }
    prompt
}

impl Agent {
    /// An agent with the given persona and no memories.
    pub fn new(base_prompt: String) -> (agent: Agent)
        ensures
            agent@.base_prompt == base_prompt@,
            agent@.memory_bank.len() == 0,
    {
        Agent { base_prompt, memory_bank: Vec::new() }
    }

    /// Stores a memory once the embedding of its content has been
    /// requested: on a failed request the bank stays as it was and the
    /// failure is handed on, otherwise the memory is appended.
    pub fn memorize(
        &mut self,
        subject: String,
        content: String,
        embedding: Result<Embedding, OpenAIError>,
    ) -> (r: Result<(), AgentError>)
        ensures
            final(self)@.base_prompt == old(self)@.base_prompt,
            old(self)@.memory_bank.is_prefix_of(final(self)@.memory_bank),
            match embedding {
                Ok(e) => r is Ok && final(self)@.memory_bank == old(self)@.memory_bank.push(
                    MemoryView { subject: subject@, content: content@, embedding: e@ },
                ),
                Err(error) => r == Err::<(), AgentError>(AgentError::OpenAIError(error))
                    && final(self)@.memory_bank == old(self)@.memory_bank,
            },
    {
        match embedding {
            Ok(embedding) => {
                self.memory_bank.push(Memory { subject, content, embedding });
                assert(final(self)@.memory_bank == old(self)@.memory_bank.push(
                    MemoryView { subject: subject@, content: content@, embedding: embedding@ },
                ));
                Ok(())
            },
            Err(error) => Err(AgentError::OpenAIError(error)),
        }
    }

    /// The content of the memory most similar to `embedding`, if any
    /// memory has a positive similarity to it. Memories whose similarity
    /// is undefined are passed over, and of equally similar memories the
    /// earliest wins.
    pub fn recall(&self, embedding: &Embedding) -> (r: Option<String>)
        ensures
            match r {
                Some(content) => recalled_content(self@.memory_bank, embedding@) == Some(
                    content@,
                ),
                None => recalled_content(self@.memory_bank, embedding@) is None,
            },
            r matches Some(content) ==> exists|j: int|
                is_recalled(self@.memory_bank, embedding@, j) && content@
                    == self@.memory_bank[j].content,
            r is None <==> forall|i: int| !qualifies(self@.memory_bank, embedding@, i),
            self@.memory_bank.len() == 0 ==> r is None,
    {
        let ghost bank = self@.memory_bank;
        let ghost query = embedding@;
        let n: usize = self.memory_bank.len();
        let mut best: Option<(usize, Similarity)> = None;
        let mut k: usize = 0;
        while k < n
            invariant
                k <= n,
                n == self.memory_bank@.len(),
                bank == self@.memory_bank,
                bank.len() == n,
                query == embedding@,
                match best {
                    Some((j, s)) => is_best_of_prefix(bank, query, j as int, k as int) && s@
                        == similarity_at(bank, query, j as int),
                    None => forall|i: int| 0 <= i < k ==> !qualifies(bank, query, i),
                },
            decreases n - k,
        {
            let candidate = cosine_similarity(&self.memory_bank[k].embedding, embedding);
            assert(bank[k as int].embedding == self.memory_bank@[k as int].embedding@);
            match candidate {
                Some(t) => {
                    if t.dot > 0 {
                        assert(qualifies(bank, query, k as int));
                        match best {
                            Some((j, s)) => {
                                proof {
                                    lemma_best_of_longer_prefix(bank, query, j as int, k as int);
                                }
                                if t.exceeds(&s) {
                                    best = Some((k, t));
                                }
                            },
                            None => {
                                best = Some((k, t));
                            },
                        }
                    }
                },
                None => {},
            }
            k += 1;
        }
        match best {
            Some((j, _)) => {
                let content = self.memory_bank[j].content.clone();
                proof {
                    assert(is_recalled(bank, query, j as int));
                    let chosen = choose|i: int| is_recalled(bank, query, i);
                    lemma_recalled_is_unique(bank, query, chosen, j as int);
                    assert(qualifies(bank, query, j as int));
                }
                Some(content)
            },
            None => {
                assert forall|i: int| !qualifies(bank, query, i) by {}
                None
            },
        }
    }

    /// The prompt for one input: the persona prompt, the input and what
    /// the embedding of the input recalls. The agent stays as it is.
    pub fn prompt(&self, input: &str, embedding: &Embedding) -> (prompt: String)
        ensures
            prompt@ == prompt_text(
                self@.base_prompt,
                input@,
                recalled_content(self@.memory_bank, embedding@),
            ),
    {
        match self.recall(embedding) {
            Some(memory) => compose_prompt(self.base_prompt.as_str(), input, Some(memory.as_str())),
            None => compose_prompt(self.base_prompt.as_str(), input, None),
        }
    }

    /// Prepares a reply to `input` once the embedding of the input has
    /// been requested: on a failed request the failure is handed on and
    /// nothing is to be generated, otherwise the result is the prompt to
    /// send for generation.
    pub fn speak(&self, input: &str, embedding: Result<Embedding, OpenAIError>) -> (r: Result<
        String,
        AgentError,
    >)
        ensures
            match embedding {
                Ok(e) => r matches Ok(prompt) && prompt@ == prompt_text(
                    self@.base_prompt,
                    input@,
                    recalled_content(self@.memory_bank, e@),
                ),
                Err(error) => r == Err::<String, AgentError>(AgentError::OpenAIError(error)),
            },
    {
        match embedding {
            Ok(e) => Ok(self.prompt(input, &e)),
            Err(error) => Err(AgentError::OpenAIError(error)),
        }
    }
}

} // verus!
