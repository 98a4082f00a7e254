//! The model's answer as it comes over the wire: a JSON document, of which
//! the reply is one string.
//!
//! The document is a `serde_json::Value`. The library does not look into
//! it; it asks `serde_json` for the member of an object, the element of an
//! array and the text of a string, and reasons about what those give.

use crate::text::opt_text;
use vstd::prelude::*;

verus! {

/// `serde_json::Value`: a JSON document. Nothing inside it is visible here.
#[verifier::external_type_specification]
#[verifier::external_body]
pub struct ExValue(serde_json::Value);

/// A step into a JSON document: to the member of an object, or to the
/// element of an array.
pub enum Step {
    Member(Seq<char>),
    Element(nat),
}

/// The strings found in a document, each under the path that leads to it.
pub type Strings = Map<Seq<Step>, Seq<char>>;

/// The strings that a JSON document holds, each under the path that leads
/// to it from the top: the empty path where the document is itself a
/// string. A step that cannot be taken (into what is no object or no array,
/// to a member or an element that is not there) leads to `null`, which
/// holds no string.
pub uninterp spec fn json_strings(doc: serde_json::Value) -> Map<Seq<Step>, Seq<char>>;

/// The strings that stand below `step`, each under what is left of its path.
pub open spec fn below(strings: Strings, step: Step) -> Strings {
    Map::new(
        |path: Seq<Step>| strings.dom().contains(seq![step] + path),
        |path: Seq<Step>| strings[seq![step] + path],
    )
}

/// The string under `path`, if there is one.
pub open spec fn string_at(strings: Strings, path: Seq<Step>) -> Option<Seq<char>> {
    if strings.dom().contains(path) {
        Some(strings[path])
    } else {
        None
    }
}

/// Where the model's answer holds the reply:
/// `choices[0].message.content`.
pub open spec fn reply_path() -> Seq<Step> {
    seq![
        Step::Member("choices"@),
        Step::Element(0),
        Step::Member("message"@),
        Step::Member("content"@),
    ]
}

/// The index operator of `serde_json::Value` with a string: the member
/// `key` of `doc`, and `null` where `doc` is no object or has no such
/// member. So what the result holds is what `doc` holds below that member.
#[verifier::external_body]
fn member<'a>(doc: &'a serde_json::Value, key: &str) -> (r: &'a serde_json::Value)
    ensures
        json_strings(*r) == below(json_strings(*doc), Step::Member(key@)),
{
    &doc[key]
}

/// The index operator of `serde_json::Value` with a number: the element
/// `index` of `doc`, and `null` where `doc` is no array or is too short. So
/// what the result holds is what `doc` holds below that element.
#[verifier::external_body]
fn element<'a>(doc: &'a serde_json::Value, index: usize) -> (r: &'a serde_json::Value)
    ensures
        json_strings(*r) == below(json_strings(*doc), Step::Element(index as nat)),
{
    &doc[index]
}

/// `serde_json::Value::as_str`: the text of `doc` where `doc` is a string,
/// and `None` where it is anything else.
#[verifier::external_body]
fn text_of(doc: &serde_json::Value) -> (r: Option<String>)
    ensures
        opt_text(r) == string_at(json_strings(*doc), Seq::empty()),
{
    doc.as_str().map(|s| s.to_owned())
}

/// Two steps down are one step down and then another.
proof fn lemma_below_below(strings: Strings, first: Step, path: Seq<Step>)
    ensures
        string_at(below(strings, first), path) == string_at(strings, seq![first] + path),
{
}

/// The reply that the model's answer holds: the string at
/// `choices[0].message.content`, if there is one.
pub fn reply_content(body: &serde_json::Value) -> (r: Option<String>)
    ensures
        opt_text(r) == string_at(json_strings(*body), reply_path()),
{
    let choices = member(body, "choices");
    let first = element(choices, 0);
    let message = member(first, "message");
    let content = member(message, "content");
    let text = text_of(content);
    proof {
        let top = json_strings(*body);
        let a = Step::Member("choices"@);
        let b = Step::Element(0);
        let c = Step::Member("message"@);
        let d = Step::Member("content"@);
        lemma_below_below(below(below(below(top, a), b), c), d, Seq::empty());
        lemma_below_below(below(below(top, a), b), c, seq![d] + Seq::empty());
        lemma_below_below(below(top, a), b, seq![c] + (seq![d] + Seq::empty()));
        lemma_below_below(top, a, seq![b] + (seq![c] + (seq![d] + Seq::empty())));
        assert(seq![a] + (seq![b] + (seq![c] + (seq![d] + Seq::empty()))) =~= reply_path());
    }
    text
}

} // verus!
