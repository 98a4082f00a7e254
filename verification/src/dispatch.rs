//! The tool dispatcher: one request to the page, and the bounded wait for
//! its answer.
//!
//! The dispatcher cannot call the page. It opens a request in the store
//! under a fresh correlation id, the caller sends the event that carries
//! that id, and the page answers through the store whenever it is done. The
//! caller then sleeps for [`POLL_INTERVAL_MS`] and polls, again and again,
//! until [`PendingRequest::poll`] says that the wait is over: with the
//! answer, or because [`MAX_POLLS`] polls found none.

use crate::store::{answer, submitted, StoreModel, ToolStore};
use crate::text::opt_text;
use vstd::prelude::*;

verus! {

/// The pause before each poll, in milliseconds.
pub const POLL_INTERVAL_MS: u64 = 100;

/// The number of polls after which a request expires.
pub const MAX_POLLS: u32 = 50;

/// Why a dispatch came back without an answer.
#[derive(Clone, Copy, Debug, PartialEq, Eq, Structural)]
pub enum DispatchError {
    /// The page did not answer within the poll ceiling.
    Timeout,
}

/// A request that waits for the page's answer.
#[derive(Debug, PartialEq, Eq)]
pub struct PendingRequest {
    /// The correlation id under which the page answers.
    pub request_id: String,
    /// The tool that the page is to run.
    pub tool: String,
    /// The tool's argument, if it takes one.
    pub arg: Option<String>,
    /// The polls made so far.
    pub polls: u32,
}

/// What a [`PendingRequest`] holds.
pub struct RequestModel {
    pub request_id: Seq<char>,
    pub tool: Seq<char>,
    pub arg: Option<Seq<char>>,
    pub polls: nat,
}

impl View for PendingRequest {
    type V = RequestModel;

    open spec fn view(&self) -> RequestModel {
        RequestModel {
            request_id: self.request_id@,
            tool: self.tool@,
            arg: opt_text(self.arg),
            polls: self.polls as nat,
        }
    }
}

/// How a poll found the request.
#[derive(Debug, PartialEq, Eq)]
pub enum PollOutcome {
    /// The page has answered; the answer is consumed.
    Resolved(String),
    /// No answer yet: sleep and poll again.
    Pending,
    /// The poll ceiling is reached; the request is closed.
    Expired,
}

/// What a [`PollOutcome`] holds.
pub enum OutcomeModel {
    Resolved(Seq<char>),
    Pending,
    Expired,
}

impl View for PollOutcome {
    type V = OutcomeModel;

    open spec fn view(&self) -> OutcomeModel {
        match self {
            PollOutcome::Resolved(s) => OutcomeModel::Resolved(s@),
            PollOutcome::Pending => OutcomeModel::Pending,
            PollOutcome::Expired => OutcomeModel::Expired,
        }
    }
}

/// The text that an optional string slice holds.
pub open spec fn opt_str_text(o: Option<&str>) -> Option<Seq<char>> {
    match o {
        Some(s) => Some(s@),
        None => None,
    }
}

/// A digit of lower-case hexadecimal notation.
pub open spec fn is_hex_digit(c: char) -> bool {
    let n = c as u32;
    0x30 <= n <= 0x39 || 0x61 <= n <= 0x66
}

/// The form of a correlation id: a random UUID in hyphenated lower-case
/// notation, `hhhhhhhh-hhhh-4hhh-Nhhh-hhhhhhhhhhhh` with `N` one of `8`,
/// `9`, `a`, `b`.
pub open spec fn is_request_id(s: Seq<char>) -> bool {
    &&& s.len() == 36
    &&& forall|i: int|
        0 <= i < 36 ==> if i == 8 || i == 13 || i == 18 || i == 23 {
            s[i] == '-'
        } else {
            is_hex_digit(#[trigger] s[i])
        }
    &&& s[14] == '4'
    &&& (s[19] == '8' || s[19] == '9' || s[19] == 'a' || s[19] == 'b')
}

/// What a timeout is reported with.
pub const TIMEOUT_MESSAGE: &'static str = "Tool execution timeout";

/// The text that reports a timeout.
pub open spec fn timeout_text() -> Seq<char> {
    TIMEOUT_MESSAGE@
}

/// The state after one poll: the store, the request and what the poll
/// found. A request that is open and has polls left takes the answer that
/// waits for it and is then closed; without an answer it stays open unless
/// this poll was its last. A request that has no polls left, or is not
/// open any more, has expired.
pub open spec fn poll_step(m: StoreModel, req: RequestModel) -> (
    StoreModel,
    RequestModel,
    OutcomeModel,
) {
    if req.polls >= MAX_POLLS || !m.dom().contains(req.request_id) {
        (m.remove(req.request_id), req, OutcomeModel::Expired)
    } else {
        let polled = RequestModel { polls: req.polls + 1, ..req };
        match answer(m, req.request_id) {
            Some(result) => (m.remove(req.request_id), polled, OutcomeModel::Resolved(result)),
            None => if polled.polls >= MAX_POLLS {
                (m.remove(req.request_id), polled, OutcomeModel::Expired)
            } else {
                (m, polled, OutcomeModel::Pending)
            },
        }
    }
}

/// A fresh correlation id: `uuid::Uuid::new_v4`, written out with
/// `to_string`.
///
/// The id is random, so the contract states its form only: 32 lower-case
/// hexadecimal digits in groups of 8, 4, 4, 4 and 12 with hyphens between
/// them, the version digit `4` and a variant digit from `8` to `b`. That
/// two calls give different ids is as good as certain, and not promised.
/// The call aborts where the operating system can supply no random bytes.
#[verifier::external_body]
fn fresh_request_id() -> (id: String)
    ensures
        is_request_id(id@),
{
    uuid::Uuid::new_v4().to_string()
}

/// The string that an optional slice holds, owned.
fn owned_arg(arg: Option<&str>) -> (r: Option<String>)
    ensures
        opt_text(r) == opt_str_text(arg),
{
    match arg {
        Some(s) => Some(s.to_owned()),
        None => None,
    }
}

/// Opens the request for `tool_name` under the correlation id `request_id`.
///
/// Returns the request, with no poll made yet, unless a request is open
/// under that id already: then nothing is opened.
pub fn open_request(
    request_id: String,
    tool_name: &str,
    arg: Option<&str>,
    tool_store: &mut ToolStore,
) -> (r: Option<PendingRequest>)
    ensures
        r is Some <==> !old(tool_store)@.dom().contains(request_id@),
        match r {
            Some(req) => {
                &&& req@ == RequestModel {
                    request_id: request_id@,
                    tool: tool_name@,
                    arg: opt_str_text(arg),
                    polls: 0,
                }
                &&& final(tool_store)@ == old(tool_store)@.insert(request_id@, None)
            },
            None => final(tool_store)@ == old(tool_store)@,
        },
{
    if tool_store.open(request_id.as_str()) {
        Some(
            PendingRequest { request_id, tool: tool_name.to_owned(), arg: owned_arg(arg), polls: 0 },
        )
    } else {
        None
    }
}

/// Starts a dispatch: draws a fresh correlation id and opens the request
/// for `tool_name` under it. The caller sends it to the page, then polls.
///
/// The result is `None`, and nothing is opened, in the one case that the id
/// drawn is that of a request which is open already; so a store that holds
/// no id of that form, an empty one for instance, always gets its request.
/// Drawing the id aborts where the system can supply no random bytes.
pub fn begin_dispatch(tool_name: &str, arg: Option<&str>, tool_store: &mut ToolStore) -> (r: Option<
    PendingRequest,
>)
    ensures
        match r {
            Some(req) => {
                &&& is_request_id(req.request_id@)
                &&& !old(tool_store)@.dom().contains(req.request_id@)
                &&& req@ == RequestModel {
                    request_id: req.request_id@,
                    tool: tool_name@,
                    arg: opt_str_text(arg),
                    polls: 0,
                }
                &&& final(tool_store)@ == old(tool_store)@.insert(req.request_id@, None)
            },
            None => {
                &&& holds_request_id(old(tool_store)@)
                &&& final(tool_store)@ == old(tool_store)@
            },
        },
{
    let request_id = fresh_request_id();
    let ghost drawn = request_id@;
    let r = open_request(request_id, tool_name, arg, tool_store);
    proof {
        if r is None {
            assert(old(tool_store)@.dom().contains(drawn) && is_request_id(drawn));
        }
    }
    r
}

/// Some open request has an id of the form that drawn ids have: the only
/// kind of store in which a drawn id can be in use already.
pub open spec fn holds_request_id(m: StoreModel) -> bool {
    exists|id: Seq<char>| #[trigger] m.dom().contains(id) && is_request_id(id)
}

impl PendingRequest {
    /// Polls the store once for this request's answer.
    ///
    /// On [`PollOutcome::Pending`] the caller sleeps for
    /// [`POLL_INTERVAL_MS`] and polls again. The other outcomes end the
    /// wait, and the request is closed in the store: an answer that comes
    /// later is dropped.
    pub fn poll(&mut self, tool_store: &mut ToolStore) -> (outcome: PollOutcome)
        ensures
            (final(tool_store)@, final(self)@, outcome@) == poll_step(
                old(tool_store)@,
                old(self)@,
            ),
    {
        if self.polls >= MAX_POLLS || !tool_store.is_open(self.request_id.as_str()) {
            tool_store.close(self.request_id.as_str());
            return PollOutcome::Expired;
        }
        self.polls = self.polls + 1;
        match tool_store.take(self.request_id.as_str()) {
            Some(result) => {
                PollOutcome::Resolved(result)
            },
            None => {
                if self.polls >= MAX_POLLS {
                    tool_store.close(self.request_id.as_str());
                    PollOutcome::Expired
                } else {
                    PollOutcome::Pending
                }
            },
        }
    }
}

impl DispatchError {
    /// The text that reports the error.
    pub fn message(&self) -> (r: String)
        ensures
            r@ == timeout_text(),
    {
        TIMEOUT_MESSAGE.to_owned()
    }
}


/// What may reach the store between two polls: nothing, or the page's
/// answer for some correlation id.
pub type Arrival = Option<(Seq<char>, Seq<char>)>;

/// The store after `a` has reached it.
pub open spec fn arrive(m: StoreModel, a: Arrival) -> StoreModel {
    match a {
        Some((id, result)) => submitted(m, id, result),
        None => m,
    }
}

/// Whether `a` is an answer for the correlation id `id`.
pub open spec fn concerns(a: Arrival, id: Seq<char>) -> bool {
    match a {
        Some((to, _)) => to == id,
        None => false,
    }
}

/// How the wait for `req` ends when one of `arrivals` reaches the store
/// before each poll, in their order. [`OutcomeModel::Pending`] where the
/// arrivals run out before the wait is over.
pub open spec fn await_outcome(m: StoreModel, req: RequestModel, arrivals: Seq<Arrival>) -> OutcomeModel
    decreases arrivals.len(),
{
    if arrivals.len() == 0 {
        OutcomeModel::Pending
    } else {
        let step = poll_step(arrive(m, arrivals[0]), req);
        if step.2 is Pending {
            await_outcome(step.0, step.1, arrivals.drop_first())
        } else {
            step.2
        }
    }
}

/// An answer that is submitted before the poll ceiling is what the wait
/// returns: where the request is open and the first answer for its id
/// arrives while it has a poll left, the wait ends with exactly that answer.
pub proof fn lemma_answer_in_time_is_returned(
    m: StoreModel,
    req: RequestModel,
    arrivals: Seq<Arrival>,
    t: int,
    result: Seq<char>,
)
    requires
        m.dom().contains(req.request_id),
        answer(m, req.request_id) is None,
        0 <= t < arrivals.len(),
        req.polls + t < MAX_POLLS,
        arrivals[t] == Some((req.request_id, result)),
        forall|j: int| 0 <= j < t ==> !concerns(#[trigger] arrivals[j], req.request_id),
    ensures
        await_outcome(m, req, arrivals) == OutcomeModel::Resolved(result),
    decreases t,
{
    if t > 0 {
        assert(!concerns(arrivals[0], req.request_id));
        let step = poll_step(arrive(m, arrivals[0]), req);
        let rest = arrivals.drop_first();
        assert(rest[t - 1] == arrivals[t]);
        assert forall|j: int| 0 <= j < t - 1 implies !concerns(
            #[trigger] rest[j],
            req.request_id,
        ) by {
            assert(rest[j] == arrivals[j + 1]);
        }
        lemma_answer_in_time_is_returned(step.0, step.1, rest, t - 1, result);
    }
}

/// Without an answer the wait ends in a timeout, and an answer for another
/// correlation id is no answer: where none of the arrivals up to the poll
/// ceiling is for the request's id, the request expires.
pub proof fn lemma_silence_expires(m: StoreModel, req: RequestModel, arrivals: Seq<Arrival>)
    requires
        answer(m, req.request_id) is None,
        arrivals.len() >= 1,
        req.polls + arrivals.len() >= MAX_POLLS,
        forall|j: int|
            0 <= j < arrivals.len() ==> !concerns(#[trigger] arrivals[j], req.request_id),
    ensures
        await_outcome(m, req, arrivals) == OutcomeModel::Expired,
    decreases arrivals.len(),
{
    assert(!concerns(arrivals[0], req.request_id));
    let step = poll_step(arrive(m, arrivals[0]), req);
    if step.2 is Pending {
        let rest = arrivals.drop_first();
        assert forall|j: int| 0 <= j < rest.len() implies !concerns(
            #[trigger] rest[j],
            req.request_id,
        ) by {
            assert(rest[j] == arrivals[j + 1]);
        }
        lemma_silence_expires(step.0, step.1, rest);
    }
}

/// An answer for one correlation id never resolves the request of another:
/// a poll finds the same, and leaves the request the same, whether or not
/// the other answer has arrived.
pub proof fn lemma_unrelated_answer_is_ignored(
    m: StoreModel,
    req: RequestModel,
    other: Seq<char>,
    result: Seq<char>,
)
    requires
        other != req.request_id,
    ensures
        poll_step(submitted(m, other, result), req).2 == poll_step(m, req).2,
        poll_step(submitted(m, other, result), req).1 == poll_step(m, req).1,
        poll_step(submitted(m, other, result), req).0 == submitted(
            poll_step(m, req).0,
            other,
            result,
        ),
{
    let id = req.request_id;
    assert(submitted(m, other, result).remove(id) =~= submitted(m.remove(id), other, result));
}

/// Once the wait for a request is over, an answer for its correlation id
/// has no effect on the store, whether it comes late or a second time.
pub proof fn lemma_answer_after_the_wait_is_dropped(
    m: StoreModel,
    req: RequestModel,
    result: Seq<char>,
)
    requires
        !(poll_step(m, req).2 is Pending),
    ensures
        submitted(poll_step(m, req).0, req.request_id, result) == poll_step(m, req).0,
{
}

/// The poll ceiling is five seconds.
pub proof fn lemma_poll_ceiling()
    ensures
        MAX_POLLS * POLL_INTERVAL_MS == 5000,
{
}

} // verus!
