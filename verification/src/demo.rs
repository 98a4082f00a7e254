//! The demo fallback: what stands in for the model where no credential is
//! configured.
//!
//! The fallback picks one tool by the words of the request, has it run
//! once, and wraps a fixed train of thought around what came back. It
//! never loops and never asks the model.

use crate::action::{
    is_writable, lemma_written_action_parses_back, parse_action, written, Action, ActionModel,
    ACTION_PREFIX,
};
use crate::agent::{observation, outcome_model, outcome_text, OBSERVATION_PREFIX, PART_SEPARATOR};
use crate::dispatch::DispatchError;
use crate::text::{contains, contains_text, join, join_strings, views};
use vstd::prelude::*;
use vstd::string::*;

verus! {

/// The key that stands for "no credential".
pub const DEMO_KEY: &'static str = "demo_key";

/// The tool that extracts prices.
pub const TOOL_EXTRACT_PRICES: &'static str = "extract_prices";

/// The tool that scrapes a table.
pub const TOOL_SCRAPE_TABLE: &'static str = "scrape_table";

/// The tool that searches the page.
pub const TOOL_SEARCH_DOM: &'static str = "search_dom";

/// What the page is searched for on a request to search or find.
pub const SEARCH_CONTENT: &'static str = "content";

/// What the page is searched for on any other request.
pub const SEARCH_HTML: &'static str = "html";

/// How the demo opens.
pub const DEMO_OPENING: &'static str =
    "Thought: I need to analyze this webpage to answer the user's question.";

/// How the demo goes on after the observation.
pub const DEMO_CLOSING: &'static str =
    "Thought: Based on the information I gathered, I can now provide a helpful answer.";

/// The demo's answer after prices were extracted.
pub const ANSWER_PRICES: &'static str =
    "Final Answer: I've extracted the pricing information from the page. The results show the available prices and their context.";

/// The demo's answer after a table was scraped.
pub const ANSWER_TABLE: &'static str =
    "Final Answer: I've extracted the table data from the page, showing the structured information in a readable format.";

/// The demo's answer after a search.
pub const ANSWER_SEARCH: &'static str =
    "Final Answer: I've analyzed the page content and found relevant information to answer your question.";

/// The lower-case form of a text, as `str::to_lowercase` gives it.
pub uninterp spec fn lowercase(s: Seq<char>) -> Seq<char>;

/// The tool for a request whose lower-case form is `lowered`. The keywords
/// are looked for in this order, and the first that occurs decides:
/// `price`, `table`, then `search` or `find`.
pub open spec fn demo_choice(lowered: Seq<char>) -> ActionModel {
    if contains_text(lowered, "price"@) {
        ActionModel { tool: TOOL_EXTRACT_PRICES@, arg: None }
    } else if contains_text(lowered, "table"@) {
        ActionModel { tool: TOOL_SCRAPE_TABLE@, arg: None }
    } else if contains_text(lowered, "search"@) || contains_text(lowered, "find"@) {
        ActionModel { tool: TOOL_SEARCH_DOM@, arg: Some(SEARCH_CONTENT@) }
    } else {
        ActionModel { tool: TOOL_SEARCH_DOM@, arg: Some(SEARCH_HTML@) }
    }
}

/// The demo's answer after `tool` has run.
pub open spec fn demo_answer(tool: Seq<char>) -> Seq<char> {
    if tool == TOOL_EXTRACT_PRICES@ {
        ANSWER_PRICES@
    } else if tool == TOOL_SCRAPE_TABLE@ {
        ANSWER_TABLE@
    } else {
        ANSWER_SEARCH@
    }
}

/// The parts of the demo's output: thought, action, observation, thought,
/// final answer.
pub open spec fn demo_parts(action: ActionModel, observed: Seq<char>) -> Seq<Seq<char>> {
    seq![
        DEMO_OPENING@,
        written(action),
        observation(observed),
        DEMO_CLOSING@,
        demo_answer(action.tool),
    ]
}

/// The demo's output: its parts, separated by blank lines.
pub open spec fn demo_output(action: ActionModel, observed: Seq<char>) -> Seq<char> {
    join(demo_parts(action, observed), PART_SEPARATOR@)
}

/// `str::to_lowercase`: the lower-case form of `s`.
///
/// What that form is, character by character, is the standard library's
/// and Unicode's to say; the contract gives it a name and claims only that
/// the same text always has the same lower-case form.
#[verifier::external_body]
fn to_lowercase(s: &str) -> (r: String)
    ensures
        r@ == lowercase(s@),
{
    s.to_lowercase()
}

/// Whether two texts are the same.
fn same_text(a: &str, b: &str) -> (r: bool)
    ensures
        r == (a@ == b@),
{
    let left = a.to_owned();
    let right = b.to_owned();
    left == right
}

/// Whether `api_key` stands for "no credential": the demo is used then.
pub fn is_demo_key(api_key: &str) -> (r: bool)
    ensures
        r == (api_key@ == DEMO_KEY@),
{
    same_text(api_key, DEMO_KEY)
}

/// Picks the tool for a request that is in lower case already.
pub fn choose_tool(lowered: &str) -> (action: Action)
    ensures
        action@ == demo_choice(lowered@),
{
    if contains(lowered, "price") {
        Action { tool: String::from_str(TOOL_EXTRACT_PRICES), arg: None }
    } else if contains(lowered, "table") {
        Action { tool: String::from_str(TOOL_SCRAPE_TABLE), arg: None }
    } else if contains(lowered, "search") || contains(lowered, "find") {
        Action {
            tool: String::from_str(TOOL_SEARCH_DOM),
            arg: Some(String::from_str(SEARCH_CONTENT)),
        }
    } else {
        Action { tool: String::from_str(TOOL_SEARCH_DOM), arg: Some(String::from_str(SEARCH_HTML)) }
    }
}

/// Picks the tool for the user's request: by the keywords that occur in
/// it, whatever their case.
pub fn demo_action(prompt: &str) -> (action: Action)
    ensures
        action@ == demo_choice(lowercase(prompt@)),
{
    let lowered = to_lowercase(prompt);
    choose_tool(lowered.as_str())
}

/// Writes the demo's output around the outcome of the one tool run. A
/// timeout is reported in the observation like a result.
pub fn demo_transcript(action: &Action, outcome: Result<String, DispatchError>) -> (r: String)
    ensures
        r@ == demo_output(action@, outcome_text(outcome_model(outcome))),
{
    let observed = match outcome {
        Ok(result) => result,
        Err(e) => e.message(),
    };
    let answer = if same_text(action.tool.as_str(), TOOL_EXTRACT_PRICES) {
        ANSWER_PRICES
    } else if same_text(action.tool.as_str(), TOOL_SCRAPE_TABLE) {
        ANSWER_TABLE
    } else {
        ANSWER_SEARCH
    };
    let mut parts: Vec<String> = Vec::new();
    parts.push(String::from_str(DEMO_OPENING));
    parts.push(String::from_str(ACTION_PREFIX).concat(action.render().as_str()));
    parts.push(String::from_str(OBSERVATION_PREFIX).concat(observed.as_str()));
    parts.push(String::from_str(DEMO_CLOSING));
    parts.push(String::from_str(answer));
    proof {
        assert(views(parts@) =~= demo_parts(action@, observed@));
    }
    join_strings(&parts, PART_SEPARATOR)
}

/// The demo speaks the agent's own grammar: whatever the request, the line
/// on which the demo asks for its tool reads back as that tool and that
/// argument.
pub proof fn lemma_demo_action_reads_back(lowered: Seq<char>)
    ensures
        is_writable(demo_choice(lowered)),
        parse_action(written(demo_choice(lowered))) == Some(demo_choice(lowered)),
{
    reveal_strlit("extract_prices");
    reveal_strlit("scrape_table");
    reveal_strlit("search_dom");
    reveal_strlit("content");
    reveal_strlit("html");
    lemma_written_action_parses_back(demo_choice(lowered));
}

} // verus!
