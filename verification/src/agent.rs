//! The agent loop: the bounded cycle of thought, action and observation.
//!
//! The loop itself waits on the model and on the page, so it runs outside
//! this library. What it decides is here: an [`AgentSession`] takes each
//! thing that happened, the model's reply or the tool's outcome, and says
//! what is to be done next.
//!
//! ```text
//! start ──► Query ──reply──► Dispatch ──outcome──► Query ──► … ──► Finish
//! ```
//!
//! A session ends when a reply holds `Final Answer:`, or when
//! [`ITERATION_BUDGET`] replies have been dealt with, whichever comes
//! first. It never fails: a reply that asks for a tool in the wrong form is
//! answered with a hint, and a tool that times out with the news of it.
//! What does fail is the call to the model: then there is no reply to take
//! in, and the caller gives the session up and reports the failure.

use crate::action::{extract_action, parse_action, Action, ActionModel, ACTION_MARKER};
use crate::dispatch::{timeout_text, DispatchError};
use crate::text::{contains, contains_text, join, join_strings, views};
use crate::transcript::{is_transcript, seeded, MessageModel, Role, Transcript};
use vstd::prelude::*;
use vstd::string::*;

verus! {

/// The number of replies after which a session ends at the latest.
pub const ITERATION_BUDGET: u32 = 5;

/// What marks a reply as the last.
pub const FINAL_MARKER: &'static str = "Final Answer:";

/// What opens an observation.
pub const OBSERVATION_PREFIX: &'static str = "Observation: ";

/// What the model is told when it asks for a tool in the wrong form.
pub const FORMAT_HINT: &'static str =
    "Error: Please use the correct action format: Action: tool_name or Action: tool_name(argument)";

/// What separates the parts of the output.
pub const PART_SEPARATOR: &'static str = "\n\n";

/// What a tool run came to: its result, or why there is none.
pub type Outcome = Result<Seq<char>, DispatchError>;

/// Where a session stands.
pub enum PhaseModel {
    /// It waits for the model's reply.
    Querying,
    /// It waits for the outcome of the tool that the last reply asked for.
    Acting(ActionModel),
    /// It is over.
    Terminated,
}

/// What an [`AgentSession`] holds.
pub struct SessionModel {
    /// The conversation so far.
    pub transcript: Seq<MessageModel>,
    /// The replies and observations so far, in the order they came.
    pub parts: Seq<Seq<char>>,
    /// The number of replies dealt with.
    pub iterations: nat,
    /// The number of tool runs asked of the caller.
    pub dispatches: nat,
    pub phase: PhaseModel,
}

/// What the caller is to do next.
pub enum DirectiveModel {
    Query,
    Dispatch(ActionModel),
    Finish,
}

/// The session at its start.
pub open spec fn started(prompt: Seq<char>, url: Seq<char>) -> SessionModel {
    SessionModel {
        transcript: seeded(prompt, url),
        parts: Seq::empty(),
        iterations: 0,
        dispatches: 0,
        phase: PhaseModel::Querying,
    }
}

/// The observation that reports `text`.
pub open spec fn observation(text: Seq<char>) -> Seq<char> {
    OBSERVATION_PREFIX@ + text
}

/// The session with the observation of `text` appended: to the transcript,
/// as a message of the user, and to the parts.
pub open spec fn observed(s: SessionModel, text: Seq<char>) -> SessionModel {
    SessionModel {
        transcript: s.transcript.push(
            MessageModel { role: Role::User, content: observation(text) },
        ),
        parts: s.parts.push(observation(text)),
        ..s
    }
}

/// Where a session goes on after an iteration: to the next query, unless
/// the budget is spent.
pub open spec fn next_phase(iterations: nat) -> PhaseModel {
    if iterations >= ITERATION_BUDGET {
        PhaseModel::Terminated
    } else {
        PhaseModel::Querying
    }
}

/// The session after the model has replied.
///
/// The reply joins the transcript and the parts, and an iteration is
/// counted. Then, in this order: a reply that holds the final marker ends
/// the session; one that asks for a tool sends the session to wait for it;
/// one that holds the action marker and no well-formed action is answered
/// with the format hint; any other is let pass. A session that is not
/// waiting for a reply stays as it is.
pub open spec fn after_reply(s: SessionModel, reply: Seq<char>) -> SessionModel {
    if !(s.phase is Querying) {
        s
    } else {
        let heard = SessionModel {
            transcript: s.transcript.push(MessageModel { role: Role::Assistant, content: reply }),
            parts: s.parts.push(reply),
            iterations: s.iterations + 1,
            ..s
        };
        if contains_text(reply, FINAL_MARKER@) {
            SessionModel { phase: PhaseModel::Terminated, ..heard }
        } else {
            match parse_action(reply) {
                Some(action) => SessionModel {
                    phase: PhaseModel::Acting(action),
                    dispatches: heard.dispatches + 1,
                    ..heard
                },
                None => {
                    let noted = if contains_text(reply, ACTION_MARKER@) {
                        observed(heard, FORMAT_HINT@)
                    } else {
                        heard
                    };
                    SessionModel { phase: next_phase(noted.iterations), ..noted }
                },
            }
        }
    }
}

/// What a tool's outcome reads as: its result, or the news of the timeout.
pub open spec fn outcome_text(outcome: Outcome) -> Seq<char> {
    match outcome {
        Ok(result) => result,
        Err(_) => timeout_text(),
    }
}

/// The session after the tool has come back: the outcome is observed, and
/// the session goes on. A session that is not waiting for a tool stays as
/// it is.
pub open spec fn after_observation(s: SessionModel, outcome: Outcome) -> SessionModel {
    if !(s.phase is Acting) {
        s
    } else {
        let noted = observed(s, outcome_text(outcome));
        SessionModel { phase: next_phase(noted.iterations), ..noted }
    }
}

/// What the caller is to do in a phase.
pub open spec fn directive_of(phase: PhaseModel) -> DirectiveModel {
    match phase {
        PhaseModel::Querying => DirectiveModel::Query,
        PhaseModel::Acting(action) => DirectiveModel::Dispatch(action),
        PhaseModel::Terminated => DirectiveModel::Finish,
    }
}

/// What the session hands back: its parts, separated by blank lines.
pub open spec fn output_of(s: SessionModel) -> Seq<char> {
    join(s.parts, PART_SEPARATOR@)
}

/// What holds of every session: the transcript starts with the system
/// instruction and the request, and has since grown by exactly the parts;
/// the budget is kept; no tool was run without a reply that asked for it;
/// and a session that waits for a reply has budget left for it.
pub open spec fn well_formed(s: SessionModel) -> bool {
    &&& is_transcript(s.transcript)
    &&& s.transcript.len() == 2 + s.parts.len()
    &&& forall|i: int| 0 <= i < s.parts.len() ==> s.transcript[i + 2].content == #[trigger] s.parts[i]
    &&& s.parts.len() <= 2 * s.iterations
    &&& s.iterations <= ITERATION_BUDGET
    &&& s.dispatches <= s.iterations
    &&& s.phase is Querying ==> s.iterations < ITERATION_BUDGET
    &&& s.phase is Acting ==> s.dispatches >= 1 && s.parts.len() < 2 * s.iterations
}

/// What the text of an outcome holds.
pub open spec fn outcome_model(outcome: Result<String, DispatchError>) -> Outcome {
    match outcome {
        Ok(s) => Ok(s@),
        Err(e) => Err(e),
    }
}

/// Where a session stands.
enum Phase {
    /// It waits for the model's reply.
    Querying,
    /// It waits for the outcome of the tool that the last reply asked for.
    Acting(Action),
    /// It is over.
    Terminated,
}

impl View for Phase {
    type V = PhaseModel;

    closed spec fn view(&self) -> PhaseModel {
        match self {
            Phase::Querying => PhaseModel::Querying,
            Phase::Acting(action) => PhaseModel::Acting(action@),
            Phase::Terminated => PhaseModel::Terminated,
        }
    }
}

/// What the caller is to do next.
#[derive(Debug, PartialEq, Eq)]
pub enum Directive {
    /// Send the transcript to the model and hand its reply to
    /// [`AgentSession::on_reply`].
    Query,
    /// Run the tool and hand its outcome to
    /// [`AgentSession::on_observation`].
    Dispatch(Action),
    /// Stop: the session is over and [`AgentSession::output`] is its result.
    Finish,
}

impl View for Directive {
    type V = DirectiveModel;

    open spec fn view(&self) -> DirectiveModel {
        match self {
            Directive::Query => DirectiveModel::Query,
            Directive::Dispatch(action) => DirectiveModel::Dispatch(action@),
            Directive::Finish => DirectiveModel::Finish,
        }
    }
}

/// One invocation of the agent: its transcript, what it has to show so
/// far, and where it stands.
pub struct AgentSession {
    transcript: Transcript,
    parts: Vec<String>,
    iterations: u32,
    dispatches: u32,
    phase: Phase,
}

impl View for AgentSession {
    type V = SessionModel;

    closed spec fn view(&self) -> SessionModel {
        SessionModel {
            transcript: self.transcript@,
            parts: views(self.parts@),
            iterations: self.iterations as nat,
            dispatches: self.dispatches as nat,
            phase: self.phase@,
        }
    }
}

/// Appends the observation of `text` to a session's transcript and parts.
fn observe(transcript: &mut Transcript, parts: &mut Vec<String>, text: &str)
    requires
        old(transcript)@.len() < usize::MAX,
    ensures
        final(transcript)@ == old(transcript)@.push(
            MessageModel { role: Role::User, content: observation(text@) },
        ),
        views(final(parts)@) == views(old(parts)@).push(observation(text@)),
{
    let note = String::from_str(OBSERVATION_PREFIX).concat(text);
    parts.push(note.clone());
    proof {
        assert(views(parts@) =~= views(old(parts)@).push(note@));
    }
    transcript.push(Role::User, note);
}

/// The phase in which a session goes on after an iteration.
fn phase_after(iterations: u32) -> (phase: Phase)
    ensures
        phase@ == next_phase(iterations as nat),
{
    if iterations >= ITERATION_BUDGET {
        Phase::Terminated
    } else {
        Phase::Querying
    }
}

/// What the caller is to do in `phase`.
fn directive_for(phase: &Phase) -> (d: Directive)
    ensures
        d@ == directive_of(phase@),
{
    match phase {
        Phase::Querying => Directive::Query,
        Phase::Acting(action) => Directive::Dispatch(action.clone()),
        Phase::Terminated => Directive::Finish,
    }
}

impl AgentSession {
    #[verifier::type_invariant]
    spec fn inv(self) -> bool {
        well_formed(self@)
    }

    /// Starts a session for the user's request `prompt` on the page at
    /// `url`. The first thing to do is to query the model.
    pub fn start(prompt: &str, url: &str) -> (r: (AgentSession, Directive))
        ensures
            r.0@ == started(prompt@, url@),
            r.1@ == DirectiveModel::Query,
            well_formed(r.0@),
    {
        let session = AgentSession {
            transcript: Transcript::seed(prompt, url),
            parts: Vec::new(),
            iterations: 0,
            dispatches: 0,
            phase: Phase::Querying,
        };
        proof {
            assert(views(session.parts@) =~= Seq::<Seq<char>>::empty());
        }
        (session, Directive::Query)
    }

    /// Takes in the model's reply and says what to do next.
    pub fn on_reply(self, reply: String) -> (r: (AgentSession, Directive))
        ensures
            r.0@ == after_reply(self@, reply@),
            r.1@ == directive_of(r.0@.phase),
            well_formed(r.0@),
    {
        proof {
            use_type_invariant(&self);
        }
        let AgentSession { mut transcript, mut parts, iterations, dispatches, phase } = self;
        match phase {
            Phase::Querying => {
                let ghost parts_before = parts@;
                let last = contains(reply.as_str(), FINAL_MARKER);
                let asked = if last {
                    None
                } else {
                    extract_action(reply.as_str())
                };
                let hint = !last && asked.is_none() && contains(reply.as_str(), ACTION_MARKER);
                parts.push(reply.clone());
                proof {
                    assert(views(parts@) =~= views(parts_before).push(reply@));
                }
                transcript.push(Role::Assistant, reply);
                let iterations = iterations + 1;
                if last {
                    (
                        AgentSession {
                            transcript,
                            parts,
                            iterations,
                            dispatches,
                            phase: Phase::Terminated,
                        },
                        Directive::Finish,
                    )
                } else {
                    match asked {
                        Some(pair) => {
                            let action = Action::from_pair(pair);
                            let order = Directive::Dispatch(action.clone());
                            (
                                AgentSession {
                                    transcript,
                                    parts,
                                    iterations,
                                    dispatches: dispatches + 1,
                                    phase: Phase::Acting(action),
                                },
                                order,
                            )
                        },
                        None => {
                            if hint {
                                observe(&mut transcript, &mut parts, FORMAT_HINT);
                            }
                            let phase = phase_after(iterations);
                            let order = directive_for(&phase);
                            (
                                AgentSession { transcript, parts, iterations, dispatches, phase },
                                order,
                            )
                        },
                    }
                }
            },
            other => {
                let order = directive_for(&other);
                (AgentSession { transcript, parts, iterations, dispatches, phase: other }, order)
            },
        }
    }

    /// Takes in the outcome of the tool that was asked for and says what
    /// to do next. A timeout does not end the session: the model is told of
    /// it like of any result.
    pub fn on_observation(self, outcome: Result<String, DispatchError>) -> (r: (
        AgentSession,
        Directive,
    ))
        ensures
            r.0@ == after_observation(self@, outcome_model(outcome)),
            r.1@ == directive_of(r.0@.phase),
            well_formed(r.0@),
    {
        proof {
            use_type_invariant(&self);
        }
        let AgentSession { mut transcript, mut parts, iterations, dispatches, phase } = self;
        match phase {
            Phase::Acting(_) => {
                let text = match outcome {
                    Ok(result) => result,
                    Err(e) => e.message(),
                };
                observe(&mut transcript, &mut parts, text.as_str());
                let phase = phase_after(iterations);
                let order = directive_for(&phase);
                (AgentSession { transcript, parts, iterations, dispatches, phase }, order)
            },
            other => {
                let order = directive_for(&other);
                (AgentSession { transcript, parts, iterations, dispatches, phase: other }, order)
            },
        }
    }

    /// What is to be done next.
    pub fn directive(&self) -> (d: Directive)
        ensures
            d@ == directive_of(self@.phase),
    {
        directive_for(&self.phase)
    }

    /// Whether the session is over.
    pub fn is_terminated(&self) -> (r: bool)
        ensures
            r == (self@.phase is Terminated),
    {
        match self.phase {
            Phase::Terminated => true,
            _ => false,
        }
    }

    /// The number of replies dealt with.
    pub fn iterations(&self) -> (n: u32)
        ensures
            n == self@.iterations,
            n <= ITERATION_BUDGET,
    {
        proof {
            use_type_invariant(self);
        }
        self.iterations
    }

    /// The number of tool runs asked of the caller.
    pub fn dispatches(&self) -> (n: u32)
        ensures
            n == self@.dispatches,
            n <= self@.iterations,
    {
        proof {
            use_type_invariant(self);
        }
        self.dispatches
    }

    /// The conversation so far: what the next query sends to the model.
    pub fn transcript(&self) -> (t: &Transcript)
        ensures
            t@ == self@.transcript,
    {
        &self.transcript
    }

    /// The result of the invocation: every reply and every observation, in
    /// the order they came, separated by blank lines. It can be asked for
    /// at any time; once the session is over it is final.
    pub fn output(&self) -> (r: String)
        ensures
            r@ == output_of(self@),
    {
        join_strings(&self.parts, PART_SEPARATOR)
    }
}


/// The session after it was driven from `s` by a scripted model and
/// scripted tools: each query is answered by the next of `replies`, each
/// tool run by the next of `outcomes`, until the session is over or the
/// script has nothing left for what it waits for.
pub open spec fn run(s: SessionModel, replies: Seq<Seq<char>>, outcomes: Seq<Outcome>) -> SessionModel
    decreases replies.len() + outcomes.len(),
{
    match s.phase {
        PhaseModel::Terminated => s,
        PhaseModel::Querying => if replies.len() == 0 {
            s
        } else {
            run(after_reply(s, replies[0]), replies.drop_first(), outcomes)
        },
        PhaseModel::Acting(_) => if outcomes.len() == 0 {
            s
        } else {
            run(after_observation(s, outcomes[0]), replies, outcomes.drop_first())
        },
    }
}

/// Every step leaves a session well formed.
pub proof fn lemma_steps_keep_well_formed(s: SessionModel, reply: Seq<char>, outcome: Outcome)
    requires
        well_formed(s),
    ensures
        well_formed(after_reply(s, reply)),
        well_formed(after_observation(s, outcome)),
{
}

/// However a session is driven, it stays well formed: it never deals with
/// more replies than the budget allows, and never runs more tools than it
/// has dealt with replies.
pub proof fn lemma_run_keeps_well_formed(
    s: SessionModel,
    replies: Seq<Seq<char>>,
    outcomes: Seq<Outcome>,
)
    requires
        well_formed(s),
    ensures
        well_formed(run(s, replies, outcomes)),
        run(s, replies, outcomes).iterations <= ITERATION_BUDGET,
        run(s, replies, outcomes).dispatches <= run(s, replies, outcomes).iterations,
    decreases replies.len() + outcomes.len(),
{
    match s.phase {
        PhaseModel::Terminated => {},
        PhaseModel::Querying => {
            if replies.len() > 0 {
                lemma_steps_keep_well_formed(s, replies[0], Ok(Seq::empty()));
                lemma_run_keeps_well_formed(
                    after_reply(s, replies[0]),
                    replies.drop_first(),
                    outcomes,
                );
            }
        },
        PhaseModel::Acting(_) => {
            if outcomes.len() > 0 {
                lemma_steps_keep_well_formed(s, Seq::empty(), outcomes[0]);
                lemma_run_keeps_well_formed(
                    after_observation(s, outcomes[0]),
                    replies,
                    outcomes.drop_first(),
                );
            }
        },
    }
}

/// A session only ever grows: whatever happens, the transcript and the
/// parts keep what they held, in its place.
pub proof fn lemma_steps_only_append(s: SessionModel, reply: Seq<char>, outcome: Outcome)
    ensures
        s.transcript.is_prefix_of(after_reply(s, reply).transcript),
        s.parts.is_prefix_of(after_reply(s, reply).parts),
        s.transcript.is_prefix_of(after_observation(s, outcome).transcript),
        s.parts.is_prefix_of(after_observation(s, outcome).parts),
{
}

/// However a session is driven, its transcript and its parts at the end
/// start with what they held at the beginning.
pub proof fn lemma_run_only_appends(
    s: SessionModel,
    replies: Seq<Seq<char>>,
    outcomes: Seq<Outcome>,
)
    ensures
        s.transcript.is_prefix_of(run(s, replies, outcomes).transcript),
        s.parts.is_prefix_of(run(s, replies, outcomes).parts),
    decreases replies.len() + outcomes.len(),
{
    match s.phase {
        PhaseModel::Terminated => {},
        PhaseModel::Querying => {
            if replies.len() > 0 {
                let next = after_reply(s, replies[0]);
                lemma_steps_only_append(s, replies[0], Ok(Seq::empty()));
                lemma_run_only_appends(next, replies.drop_first(), outcomes);
            }
        },
        PhaseModel::Acting(_) => {
            if outcomes.len() > 0 {
                let next = after_observation(s, outcomes[0]);
                lemma_steps_only_append(s, Seq::empty(), outcomes[0]);
                lemma_run_only_appends(next, replies, outcomes.drop_first());
            }
        },
    }
}

/// A session that waits for a reply, and whose model gives the final
/// answer in its `k`-th reply from here and in none before, is over after
/// exactly `k` more iterations and at most `k - 1` more tool runs, provided
/// the budget reaches that far.
pub proof fn lemma_final_answer_ends_run(
    s: SessionModel,
    replies: Seq<Seq<char>>,
    outcomes: Seq<Outcome>,
    k: nat,
)
    requires
        well_formed(s),
        s.phase is Querying,
        1 <= k,
        s.iterations + k <= ITERATION_BUDGET,
        replies.len() >= k,
        outcomes.len() >= k - 1,
        contains_text(replies[k - 1], FINAL_MARKER@),
        forall|j: int| 0 <= j < k - 1 ==> !contains_text(#[trigger] replies[j], FINAL_MARKER@),
    ensures
        run(s, replies, outcomes).phase is Terminated,
        run(s, replies, outcomes).iterations == s.iterations + k,
        run(s, replies, outcomes).dispatches <= s.dispatches + k - 1,
    decreases k,
{
    let heard = after_reply(s, replies[0]);
    let later = replies.drop_first();
    if k == 1 {
        assert(run(heard, later, outcomes) == heard);
    } else {
        assert(!contains_text(replies[0], FINAL_MARKER@));
        assert(later[k - 2] == replies[k - 1]);
        assert forall|j: int| 0 <= j < k - 2 implies !contains_text(
            #[trigger] later[j],
            FINAL_MARKER@,
        ) by {
            assert(later[j] == replies[j + 1]);
        }
        if heard.phase is Acting {
            let seen = after_observation(heard, outcomes[0]);
            assert(run(heard, later, outcomes) == run(seen, later, outcomes.drop_first()));
            lemma_final_answer_ends_run(seen, later, outcomes.drop_first(), (k - 1) as nat);
        } else {
            lemma_final_answer_ends_run(heard, later, outcomes, (k - 1) as nat);
        }
    }
}

/// A session that waits for a reply, and whose model never gives the final
/// answer, is over when the budget is spent: after exactly
/// [`ITERATION_BUDGET`] iterations in all.
pub proof fn lemma_budget_ends_run(
    s: SessionModel,
    replies: Seq<Seq<char>>,
    outcomes: Seq<Outcome>,
)
    requires
        well_formed(s),
        s.phase is Querying,
        replies.len() >= ITERATION_BUDGET - s.iterations,
        outcomes.len() >= ITERATION_BUDGET - s.iterations,
        forall|j: int|
            0 <= j < ITERATION_BUDGET - s.iterations ==> !contains_text(
                #[trigger] replies[j],
                FINAL_MARKER@,
            ),
    ensures
        run(s, replies, outcomes).phase is Terminated,
        run(s, replies, outcomes).iterations == ITERATION_BUDGET,
    decreases ITERATION_BUDGET - s.iterations,
{
    let heard = after_reply(s, replies[0]);
    let later = replies.drop_first();
    assert(!contains_text(replies[0], FINAL_MARKER@));
    assert forall|j: int| 0 <= j < ITERATION_BUDGET - heard.iterations implies !contains_text(
        #[trigger] later[j],
        FINAL_MARKER@,
    ) by {
        assert(later[j] == replies[j + 1]);
    }
    if heard.phase is Acting {
        let seen = after_observation(heard, outcomes[0]);
        assert(run(heard, later, outcomes) == run(seen, later, outcomes.drop_first()));
        if seen.phase is Querying {
            lemma_budget_ends_run(seen, later, outcomes.drop_first());
        } else {
            assert(run(seen, later, outcomes.drop_first()) == seen);
        }
    } else if heard.phase is Querying {
        lemma_budget_ends_run(heard, later, outcomes);
    } else {
        assert(run(heard, later, outcomes) == heard);
    }
}

/// A model that gives the final answer in its `k`-th reply, with `k`
/// within the budget, ends a fresh session at iteration `k`, after at most
/// `k - 1` tool runs.
pub proof fn lemma_session_ends_at_final_answer(
    prompt: Seq<char>,
    url: Seq<char>,
    replies: Seq<Seq<char>>,
    outcomes: Seq<Outcome>,
    k: nat,
)
    requires
        1 <= k <= ITERATION_BUDGET,
        replies.len() >= k,
        outcomes.len() >= k - 1,
        contains_text(replies[k - 1], FINAL_MARKER@),
        forall|j: int| 0 <= j < k - 1 ==> !contains_text(#[trigger] replies[j], FINAL_MARKER@),
    ensures
        run(started(prompt, url), replies, outcomes).phase is Terminated,
        run(started(prompt, url), replies, outcomes).iterations == k,
        run(started(prompt, url), replies, outcomes).dispatches <= k - 1,
{
    lemma_final_answer_ends_run(started(prompt, url), replies, outcomes, k);
}

/// A model that never gives the final answer ends a fresh session after
/// exactly [`ITERATION_BUDGET`] iterations.
pub proof fn lemma_session_ends_with_budget(
    prompt: Seq<char>,
    url: Seq<char>,
    replies: Seq<Seq<char>>,
    outcomes: Seq<Outcome>,
)
    requires
        replies.len() >= ITERATION_BUDGET,
        outcomes.len() >= ITERATION_BUDGET,
        forall|j: int|
            0 <= j < ITERATION_BUDGET ==> !contains_text(#[trigger] replies[j], FINAL_MARKER@),
    ensures
        run(started(prompt, url), replies, outcomes).phase is Terminated,
        run(started(prompt, url), replies, outcomes).iterations == ITERATION_BUDGET,
{
    lemma_budget_ends_run(started(prompt, url), replies, outcomes);
}

} // verus!
