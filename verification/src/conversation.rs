//! The conversation loop: a bounded working set of recent outputs, the
//! weighted choice of a generation strategy for each turn, and the state
//! machine that a driver steps through turn by turn.

use crate::metaprompts::{
    actor, actor_requests, actor_text, critic, critic_requests, critic_text, is_actor_round,
    is_critic_round,
};
use crate::prompts::{compressor, compressor_text};
use crate::random::random_below;
use crate::text::{join, join_strings, texts};
use vstd::prelude::*;
use vstd::string::*;

verus! {

/// One of the ways a turn's prompt is built from the working set.
#[derive(Clone, Copy, Debug, PartialEq, Eq, Structural)]
pub enum Strategy {
    Chatter,
    Critic,
    Actor,
    Compress,
}

/// Number of equally likely outcomes of a strategy draw.
pub const DRAW_RANGE: usize = 7;

/// Most entries that the working set holds between turns.
pub const WORKING_SET_LIMIT: usize = 3;

/// What stands between two entries of the working set when they are
/// joined into the input of a turn.
pub const SEPARATOR: &'static str = "\n";

/// The strategy that a draw stands for: one outcome each for the critic,
/// the actor and the compressor, and every other outcome for chatter.
pub open spec fn strategy_of(draw: int) -> Strategy {
    if draw == 1 {
        Strategy::Critic
    } else if draw == 2 {
        Strategy::Actor
    } else if draw == 3 {
        Strategy::Compress
    } else {
        Strategy::Chatter
    }
}

/// How many of the draws below `n` stand for `strategy`.
pub open spec fn draws_for(strategy: Strategy, n: nat) -> nat
    decreases n,
{
    if n == 0 {
        0
    } else {
        draws_for(strategy, (n - 1) as nat) + if strategy_of(n - 1) == strategy {
            1nat
        } else {
            0nat
        }
    }
}

/// Of the seven outcomes of a draw, four stand for chatter and one each
/// for the critic, the actor and the compressor.
pub proof fn lemma_strategy_weights()
    ensures
        draws_for(Strategy::Chatter, DRAW_RANGE as nat) == 4,
        draws_for(Strategy::Critic, DRAW_RANGE as nat) == 1,
        draws_for(Strategy::Actor, DRAW_RANGE as nat) == 1,
        draws_for(Strategy::Compress, DRAW_RANGE as nat) == 1,
{
    reveal_with_fuel(draws_for, 8);
}

/// Maps a draw to its strategy.
pub fn strategy_for(draw: usize) -> (s: Strategy)
    ensures
        s == strategy_of(draw as int),
{
    match draw {
        1 => Strategy::Critic,
        2 => Strategy::Actor,
        3 => Strategy::Compress,
        _ => Strategy::Chatter,
    }
}

/// Draws the strategy of a turn.
pub fn select_strategy() -> (s: Strategy)
    ensures
        exists|draw: int| 0 <= draw < DRAW_RANGE && s == strategy_of(draw),
{
    let draw: usize = random_below(DRAW_RANGE);
    strategy_for(draw)
}

/// The service that generates a text from a prompt.
#[derive(Clone, Copy, Debug, PartialEq, Eq, Structural)]
pub enum Service {
    /// The service that completes a prompt.
    Completion,
    /// The service that answers a message.
    Chat,
}

/// The service that the prompt of a strategy is sent to: the compressor
/// asks for a completion, the others for an answer to a message.
pub fn service_for(strategy: Strategy) -> (service: Service)
    ensures
        service == if strategy == Strategy::Compress {
            Service::Completion
        } else {
            Service::Chat
        },
{
    match strategy {
        Strategy::Compress => Service::Completion,
        _ => Service::Chat,
    }
}

/// `requests` are the first round of `strategy` for `input`: the prompts
/// of the critic's or the actor's first round, and none for the other
/// strategies.
pub open spec fn is_first_round(
    strategy: Strategy,
    requests: Seq<Seq<char>>,
    input: Seq<char>,
) -> bool {
    match strategy {
        Strategy::Critic => is_critic_round(requests, input),
        Strategy::Actor => is_actor_round(requests, input),
        _ => requests.len() == 0,
    }
}

/// The prompts that `strategy` sends for completion before it builds its
/// prompt; their answers are the statements of that prompt.
pub fn strategy_requests(strategy: Strategy, input: &str) -> (requests: Vec<String>)
    ensures
        is_first_round(strategy, texts(requests@), input@),
{
    match strategy {
        Strategy::Critic => critic_requests(input),
        Strategy::Actor => actor_requests(input),
        _ => Vec::new(),
    }
}

/// The prompt of `strategy` for `input` and the statements of its first
/// round: chatter sends the input as it stands, the compressor its
/// compressor prompt, the critic and the actor their prompts with the
/// statements.
pub open spec fn strategy_text(
    strategy: Strategy,
    input: Seq<char>,
    statements: Seq<Seq<char>>,
) -> Seq<char> {
    match strategy {
        Strategy::Chatter => input,
        Strategy::Critic => critic_text(input, statements),
        Strategy::Actor => actor_text(input, statements),
        Strategy::Compress => compressor_text(input),
    }
}

/// Builds the prompt of `strategy` for `input`.
pub fn strategy_prompt(strategy: Strategy, input: &str, statements: &Vec<String>) -> (prompt:
    String)
    ensures
        prompt@ == strategy_text(strategy, input@, texts(statements@)),
{
    match strategy {
        Strategy::Chatter => String::from_str(input),
        Strategy::Critic => critic(input, statements),
        Strategy::Actor => actor(input, statements),
        Strategy::Compress => compressor(input),
    }
}

/// The working set after `output` was appended and, if that made it
/// longer than the limit, its oldest entry was dropped.
pub open spec fn recorded(entries: Seq<Seq<char>>, output: Seq<char>) -> Seq<Seq<char>> {
    let grown = entries.push(output);
    if grown.len() > WORKING_SET_LIMIT {
        grown.drop_first()
    } else {
        grown
    }
}

/// The working set after one turn for each of `outputs`, in order.
pub open spec fn after_turns(entries: Seq<Seq<char>>, outputs: Seq<Seq<char>>) -> Seq<Seq<char>>
    decreases outputs.len(),
{
    if outputs.len() == 0 {
        entries
    } else {
        recorded(after_turns(entries, outputs.drop_last()), outputs.last())
    }
}

/// The last `WORKING_SET_LIMIT` elements of `entries`, or all of them
/// where there are fewer.
pub open spec fn most_recent(entries: Seq<Seq<char>>) -> Seq<Seq<char>> {
    if entries.len() > WORKING_SET_LIMIT {
        entries.skip(entries.len() - WORKING_SET_LIMIT)
    } else {
        entries
    }
}

/// After any number of turns the working set holds at most
/// `WORKING_SET_LIMIT` entries: the most recent of the entries it started
/// with and the outputs of the turns.
pub proof fn lemma_turns_keep_bound(entries: Seq<Seq<char>>, outputs: Seq<Seq<char>>)
    requires
        entries.len() <= WORKING_SET_LIMIT,
    ensures
        after_turns(entries, outputs).len() <= WORKING_SET_LIMIT,
        after_turns(entries, outputs) == most_recent(entries + outputs),
        entries.len() >= 1 ==> after_turns(entries, outputs).len() >= 1,
    decreases outputs.len(),
{
    if outputs.len() == 0 {
        assert(entries + outputs == entries);
    } else {
        let earlier = outputs.drop_last();
        lemma_turns_keep_bound(entries, earlier);
        assert((entries + earlier).push(outputs.last()) == entries + outputs);
        assert(after_turns(entries, outputs) == most_recent(entries + outputs));
    }
}

/// The outputs of the most recent turns, oldest first.
#[derive(Debug)]
pub struct WorkingSet {
    entries: Vec<String>,
}

impl View for WorkingSet {
    type V = Seq<Seq<char>>;

    closed spec fn view(&self) -> Seq<Seq<char>> {
        texts(self.entries@)
    }
}

impl WorkingSet {
    #[verifier::type_invariant]
    closed spec fn bounded(self) -> bool {
        1 <= self.entries@.len() <= WORKING_SET_LIMIT
    }

    /// A working set that holds only `seed`.
    pub fn new(seed: String) -> (set: WorkingSet)
        ensures
            set@ == seq![seed@],
    {
        let mut entries: Vec<String> = Vec::new();
        entries.push(seed);
        let set = WorkingSet { entries };
        assert(set@ == seq![seed@]);
        set
    }

    /// Number of entries, between one and `WORKING_SET_LIMIT`.
    pub fn len(&self) -> (n: usize)
        ensures
            n == self@.len(),
            1 <= n <= WORKING_SET_LIMIT,
    {
        proof {
            use_type_invariant(self);
        }
        self.entries.len()
    }

    /// A copy of the entries, oldest first.
    pub fn entries(&self) -> (r: Vec<String>)
        ensures
            texts(r@) == self@,
    {
        let n: usize = self.entries.len();
        let mut entries: Vec<String> = Vec::new();
        let mut i: usize = 0;
        while i < n
            invariant
                i <= n,
                n == self.entries@.len(),
                texts(entries@) == self@.take(i as int),
            decreases n - i,
        {
            let ghost before = texts(entries@);
            entries.push(self.entries[i].clone());
            assert(texts(entries@) == before.push(self.entries@[i as int]@));
            assert(self@.take(i + 1) == self@.take(i as int).push(self@[i as int]));
            i += 1;
        }
        assert(self@.take(n as int) == self@);
        entries
    }

    /// The entries joined by `SEPARATOR`: the input of the next turn.
    pub fn joined(&self) -> (text: String)
        ensures
            text@ == join(self@, SEPARATOR@),
    {
        join_strings(&self.entries, SEPARATOR)
    }

    /// The working set after a turn: `output` is appended, and the oldest
    /// entry is dropped if the set has grown past `WORKING_SET_LIMIT`.
    pub fn record(self, output: String) -> (set: WorkingSet)
        ensures
            set@ == recorded(self@, output@),
            1 <= set@.len() <= WORKING_SET_LIMIT,
    {
        proof {
            use_type_invariant(&self);
        }
        let ghost before = self@;
        let mut entries = self.entries;
        entries.push(output);
        if entries.len() > WORKING_SET_LIMIT {
            entries.remove(0);
        }
        let set = WorkingSet { entries };
        assert(set@ == recorded(before, output@));
        set
    }
}

/// Where a conversation stands: about to start a turn, waiting for the
/// text that the chosen strategy generates, or waiting for the signal to
/// go on to the next turn.
#[derive(Clone, Copy, Debug, PartialEq, Eq, Structural)]
pub enum Phase {
    SelectStrategy,
    Generate(Strategy),
    AwaitAdvance,
}

/// What the driver reports to the conversation.
#[derive(Debug)]
pub enum Event {
    /// The loop is being started.
    Start,
    /// The generation that was asked for has returned this text.
    Generated(String),
    /// The signal to start the next turn has arrived.
    Advance,
}

/// The mathematical content of an `Event`.
pub enum EventView {
    Start,
    Generated(Seq<char>),
    Advance,
}

impl View for Event {
    type V = EventView;

    open spec fn view(&self) -> EventView {
        match self {
            Event::Start => EventView::Start,
            Event::Generated(text) => EventView::Generated(text@),
            Event::Advance => EventView::Advance,
        }
    }
}

/// What the driver is to do next.
#[derive(Debug)]
pub enum Action {
    /// Build a prompt from `input` with `strategy` and have it generated.
    Generate { strategy: Strategy, input: String },
    /// Wait for the signal to start the next turn.
    AwaitAdvance,
}

/// The mathematical content of an `Action`.
pub enum ActionView {
    Generate { strategy: Strategy, input: Seq<char> },
    AwaitAdvance,
}

impl View for Action {
    type V = ActionView;

    open spec fn view(&self) -> ActionView {
        match self {
            Action::Generate { strategy, input } => ActionView::Generate {
                strategy: *strategy,
                input: input@,
            },
            Action::AwaitAdvance => ActionView::AwaitAdvance,
        }
    }
}

/// A conversation: its working set and where it stands.
#[derive(Debug)]
pub struct Conversation {
    pub working_set: WorkingSet,
    pub phase: Phase,
}

/// The mathematical content of a `Conversation`.
pub struct ConversationView {
    pub working_set: Seq<Seq<char>>,
    pub phase: Phase,
}

impl View for Conversation {
    type V = ConversationView;

    open spec fn view(&self) -> ConversationView {
        ConversationView { working_set: self.working_set@, phase: self.phase }
    }
}

/// The event starts a turn in this phase.
pub open spec fn starts_turn(phase: Phase, event: EventView) -> bool {
    ||| phase == Phase::SelectStrategy && event == EventView::Start
    ||| phase == Phase::AwaitAdvance && event == EventView::Advance
}

/// The state and the action that follow `event`, given the outcome
/// `draw` of the strategy draw, or `None` where the event does not fit
/// the phase. Starting a turn selects a strategy and asks for a
/// generation from the joined working set; a generated text is recorded
/// in the working set, and the conversation then waits to be advanced.
pub open spec fn transition(state: ConversationView, event: EventView, draw: int) -> Option<
    (ConversationView, ActionView),
> {
    if starts_turn(state.phase, event) {
        Some(
            (
                ConversationView {
                    working_set: state.working_set,
                    phase: Phase::Generate(strategy_of(draw)),
                },
                ActionView::Generate {
                    strategy: strategy_of(draw),
                    input: join(state.working_set, SEPARATOR@),
                },
            ),
        )
    } else {
        match (state.phase, event) {
            (Phase::Generate(_), EventView::Generated(text)) => Some(
                (
                    ConversationView {
                        working_set: recorded(state.working_set, text),
                        phase: Phase::AwaitAdvance,
                    },
                    ActionView::AwaitAdvance,
                ),
            ),
            _ => None,
        }
    }
}

/// Whatever the draws, a conversation that starts with at most
/// `WORKING_SET_LIMIT` entries never holds more after a step.
pub proof fn lemma_transition_keeps_bound(state: ConversationView, event: EventView, draw: int)
    requires
        1 <= state.working_set.len() <= WORKING_SET_LIMIT,
    ensures
        transition(state, event, draw) matches Some((next, _)) ==> 1 <= next.working_set.len()
            <= WORKING_SET_LIMIT,
{
}

impl Conversation {
    /// A conversation that is about to start its first turn, with `seed`
    /// as the only entry of its working set.
    pub fn new(seed: String) -> (conversation: Conversation)
        ensures
            conversation@ == (ConversationView {
                working_set: seq![seed@],
                phase: Phase::SelectStrategy,
            }),
    {
        Conversation { working_set: WorkingSet::new(seed), phase: Phase::SelectStrategy }
    }

    /// Whether `event` starts a turn where the conversation stands.
    pub fn begins_turn(&self, event: &Event) -> (b: bool)
        ensures
            b == starts_turn(self@.phase, event@),
    {
        match (self.phase, event) {
            (Phase::SelectStrategy, Event::Start) => true,
            (Phase::AwaitAdvance, Event::Advance) => true,
            _ => false,
        }
    }

    /// One step of the conversation with a given outcome of the strategy
    /// draw: the next state, and the action to perform or `None` where
    /// `event` does not fit the phase, in which case the state is kept.
    pub fn step_with(self, event: Event, draw: usize) -> (r: (Conversation, Option<Action>))
        ensures
            match transition(self@, event@, draw as int) {
                Some((next, action)) => r.1 matches Some(a) && a@ == action && r.0@ == next,
                None => r.0@ == self@ && r.1 is None,
            },
            1 <= r.0@.working_set.len() <= WORKING_SET_LIMIT,
    {
        let working_set = self.working_set;
        proof {
            use_type_invariant(&working_set);
        }
        match (self.phase, event) {
            (Phase::SelectStrategy, Event::Start) | (Phase::AwaitAdvance, Event::Advance) => {
                let strategy = strategy_for(draw);
                let input = working_set.joined();
                (
                    Conversation { working_set, phase: Phase::Generate(strategy) },
                    Some(Action::Generate { strategy, input }),
                )
            },
            (Phase::Generate(_), Event::Generated(text)) => {
                let working_set = working_set.record(text);
                (
                    Conversation { working_set, phase: Phase::AwaitAdvance },
                    Some(Action::AwaitAdvance),
                )
            },
            (phase, _) => (Conversation { working_set, phase }, None),
        }
    }

    /// One step of the conversation, with the strategy drawn at random
    /// where a turn starts: the result is that of `step_with` for some
    /// outcome of the draw.
    pub fn step(self, event: Event) -> (r: (Conversation, Option<Action>))
        ensures
            exists|draw: int|
                0 <= draw < DRAW_RANGE && match #[trigger] transition(self@, event@, draw) {
                    Some((next, action)) => r.1 matches Some(a) && a@ == action && r.0@ == next,
                    None => r.0@ == self@ && r.1 is None,
                },
            1 <= r.0@.working_set.len() <= WORKING_SET_LIMIT,
    {
        let draw: usize = if self.begins_turn(&event) {
            random_below(DRAW_RANGE)
        } else {
            0
        };
        self.step_with(event, draw)
    }
}

} // verus!
