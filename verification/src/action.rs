//! The action grammar: how a tool invocation is read out of a model reply.
//!
//! A reply asks for a tool on a line of its own:
//!
//! ```text
//! Action: tool_name
//! Action: tool_name(argument)
//! ```
//!
//! The first such line counts. White space around the line, the name and
//! the argument is not part of them, and an empty argument is no argument.

use crate::text::{
    chars_of, contains_text, find_char, first_index, free_of, is_space, lemma_first_index,
    lemma_first_index_is, lemma_trim_bounds, lemma_trim_is, lemma_trim_of_trimmed, occurs_at,
    opt_text, starts_with_at, trim, trim_range,
};
use vstd::prelude::*;
use vstd::string::*;

verus! {

/// A tool invocation: the tool's name and, where one was given, its single
/// argument.
#[derive(Debug, PartialEq, Eq)]
pub struct Action {
    pub tool: String,
    pub arg: Option<String>,
}

/// What an [`Action`] holds, as text.
pub struct ActionModel {
    pub tool: Seq<char>,
    pub arg: Option<Seq<char>>,
}

impl View for Action {
    type V = ActionModel;

    open spec fn view(&self) -> ActionModel {
        ActionModel { tool: self.tool@, arg: opt_text(self.arg) }
    }
}

/// The marker that opens an action line.
pub const ACTION_MARKER: &'static str = "Action:";

/// How a line that asks for a tool is written: the marker and a space,
/// then the invocation.
pub const ACTION_PREFIX: &'static str = "Action: ";

/// The marker that opens an action line, as text.
pub open spec fn marker() -> Seq<char> {
    ACTION_MARKER@
}

/// A line asks for a tool where its trimmed content starts with the marker.
pub open spec fn is_action_line(line: Seq<char>) -> bool {
    marker().is_prefix_of(trim(line))
}

/// The first action line of `text`. A line ends at a line feed; a carriage
/// return before it is white space like any other.
pub open spec fn action_line(text: Seq<char>) -> Option<Seq<char>>
    decreases text.len(),
{
    let n = first_index(text, '\n');
    if is_action_line(text.take(n)) {
        Some(text.take(n))
    } else if 0 <= n < text.len() {
        action_line(text.skip(n + 1))
    } else {
        None
    }
}

/// Reads `name` or `name(argument)`. Without an opening parenthesis all of
/// `rest` is the name. With one, the name stands before it and the argument
/// between it and the first closing parenthesis after it; where none
/// closes, `rest` is malformed.
pub open spec fn parse_invocation(rest: Seq<char>) -> Option<ActionModel> {
    let open = first_index(rest, '(');
    if open >= rest.len() {
        Some(ActionModel { tool: rest, arg: None })
    } else {
        let inner = rest.skip(open + 1);
        let close = first_index(inner, ')');
        if close >= inner.len() {
            None
        } else {
            let arg = trim(inner.take(close));
            Some(
                ActionModel {
                    tool: trim(rest.take(open)),
                    arg: if arg.len() == 0 {
                        None
                    } else {
                        Some(arg)
                    },
                },
            )
        }
    }
}

/// Reads an action line: what follows the marker, trimmed, is the invocation.
pub open spec fn parse_line(line: Seq<char>) -> Option<ActionModel> {
    parse_invocation(trim(trim(line).skip(marker().len() as int)))
}

/// The action that `text` asks for: that of its first action line. `None`
/// both where no line is an action line and where the first one is malformed.
pub open spec fn parse_action(text: Seq<char>) -> Option<ActionModel> {
    match action_line(text) {
        Some(line) => parse_line(line),
        None => None,
    }
}

/// The invocation as a reply writes it: `name`, or `name(argument)`.
pub open spec fn render(a: ActionModel) -> Seq<char> {
    match a.arg {
        Some(arg) => a.tool + "("@ + arg + ")"@,
        None => a.tool,
    }
}

/// The line that asks for the action `a`.
pub open spec fn written(a: ActionModel) -> Seq<char> {
    ACTION_PREFIX@ + render(a)
}

/// An action that can be written on a line and read back: its name is not
/// empty, the name and the argument start and end with a character that is
/// no white space, neither holds a line feed, the name holds no opening and
/// the argument no closing parenthesis, and the argument, where there is
/// one, is not empty.
pub open spec fn is_writable(a: ActionModel) -> bool {
    &&& a.tool.len() > 0
    &&& !is_space(a.tool[0]) && !is_space(a.tool.last())
    &&& free_of(a.tool, '(') && free_of(a.tool, '\n')
    &&& match a.arg {
        Some(arg) => {
            &&& arg.len() > 0
            &&& !is_space(arg[0]) && !is_space(arg.last())
            &&& free_of(arg, ')') && free_of(arg, '\n')
        },
        None => true,
    }
}

/// The action as a pair of name and argument.
pub open spec fn pair_model(p: (String, Option<String>)) -> ActionModel {
    ActionModel { tool: p.0@, arg: opt_text(p.1) }
}

/// The characters `lo..hi` of `text` as a string of their own.
fn slice_string(text: &str, lo: usize, hi: usize) -> (r: String)
    requires
        lo <= hi <= text@.len(),
    ensures
        r@ == text@.subrange(lo as int, hi as int),
{
    String::from_str(text.substring_char(lo, hi))
}

/// Reads the invocation that stands in `chars[lo..hi]`, which is trimmed.
fn read_invocation(text: &str, chars: &Vec<char>, lo: usize, hi: usize) -> (r: Option<
    (String, Option<String>),
>)
    requires
        chars@ == text@,
        lo <= hi <= chars.len(),
    ensures
        match r {
            Some(p) => parse_invocation(chars@.subrange(lo as int, hi as int)) == Some(
                pair_model(p),
            ),
            None => parse_invocation(chars@.subrange(lo as int, hi as int)) is None,
        },
{
    let ghost rest = chars@.subrange(lo as int, hi as int);
    let open = find_char(chars, lo, hi, '(');
    if open == hi {
        let tool = slice_string(text, lo, hi);
        return Some((tool, None));
    }
    let close = find_char(chars, open + 1, hi, ')');
    proof {
        assert(rest.skip(open - lo + 1) =~= chars@.subrange(open + 1, hi as int));
        assert(rest.take(open - lo) =~= chars@.subrange(lo as int, open as int));
    }
    if close == hi {
        return None;
    }
    proof {
        assert(chars@.subrange(open + 1, hi as int).take(close - open - 1) =~= chars@.subrange(
            open + 1,
            close as int,
        ));
    }
    let (name_lo, name_hi) = trim_range(chars, lo, open);
    let (arg_lo, arg_hi) = trim_range(chars, open + 1, close);
    let tool = slice_string(text, name_lo, name_hi);
    let arg = if arg_lo == arg_hi {
        None
    } else {
        Some(slice_string(text, arg_lo, arg_hi))
    };
    Some((tool, arg))
}

/// Reads the tool invocation out of a model reply.
///
/// The first line whose trimmed content starts with `Action:` decides.
/// The result is `None` where there is no such line, and also where that
/// line opens a parenthesis that it does not close; a caller that must tell
/// the two apart looks for the marker in the reply.
pub fn extract_action(text: &str) -> (r: Option<(String, Option<String>)>)
    ensures
        match r {
            Some(p) => parse_action(text@) == Some(pair_model(p)),
            None => parse_action(text@) is None,
        },
{
    let chars = chars_of(text);
    let mark = chars_of(ACTION_MARKER);
    let n: usize = chars.len();
    let mut start: usize = 0;
    proof {
        assert(chars@.skip(0) =~= text@);
    }
    loop
        invariant
            chars@ == text@,
            mark@ == marker(),
            n == chars.len(),
            start <= n,
            parse_action(text@) == parse_action(chars@.skip(start as int)),
        decreases n - start,
    {
        let ghost tail = chars@.skip(start as int);
        let end = find_char(&chars, start, n, '\n');
        let (lo, hi) = trim_range(&chars, start, end);
        proof {
            assert(tail =~= chars@.subrange(start as int, n as int));
            assert(tail.take(end - start) =~= chars@.subrange(start as int, end as int));
        }
        if starts_with_at(&chars, lo, hi, &mark) {
            let (rest_lo, rest_hi) = trim_range(&chars, lo + mark.len(), hi);
            proof {
                assert(chars@.subrange(lo as int, hi as int).skip(mark.len() as int)
                    =~= chars@.subrange(lo + mark.len(), hi as int));
            }
            return read_invocation(text, &chars, rest_lo, rest_hi);
        }
        if end == n {
            return None;
        }
        proof {
            assert(tail.skip(end - start + 1) =~= chars@.skip(end + 1));
        }
        start = end + 1;
    }
}

impl Clone for Action {
    fn clone(&self) -> (a: Action)
        ensures
            a == *self,
    {
        let arg = match &self.arg {
            Some(s) => Some(s.clone()),
            None => None,
        };
        Action { tool: self.tool.clone(), arg }
    }
}

impl Action {
    /// The action that a pair of name and argument stands for.
    pub fn from_pair(pair: (String, Option<String>)) -> (a: Action)
        ensures
            a@ == pair_model(pair),
    {
        Action { tool: pair.0, arg: pair.1 }
    }

    /// The invocation as a reply writes it: `name`, or `name(argument)`.
    pub fn render(&self) -> (r: String)
        ensures
            r@ == render(self@),
    {
        let mut out = self.tool.clone();
        match &self.arg {
            Some(arg) => {
                out.append("(");
                out.append(arg.as_str());
                out.append(")");
            },
            None => {},
        }
        out
    }
}

/// A remainder without an opening parenthesis is a name, whole, and has no
/// argument.
pub proof fn lemma_bare_name(name: Seq<char>)
    requires
        free_of(name, '('),
    ensures
        parse_invocation(name) == Some(ActionModel { tool: name, arg: None }),
{
    lemma_first_index_is(name, '(', name.len() as int);
}

/// A remainder of the form `name(arg)`, with or without more behind it,
/// gives the name and the argument, both trimmed; an argument that is empty
/// then is none.
pub proof fn lemma_name_with_argument(name: Seq<char>, arg: Seq<char>, tail: Seq<char>)
    requires
        free_of(name, '('),
        free_of(arg, ')'),
    ensures
        parse_invocation(name + seq!['('] + arg + seq![')'] + tail) == Some(
            ActionModel {
                tool: trim(name),
                arg: if trim(arg).len() == 0 {
                    None
                } else {
                    Some(trim(arg))
                },
            },
        ),
{
    let rest = name + seq!['('] + arg + seq![')'] + tail;
    let open = name.len() as int;
    lemma_first_index_is(rest, '(', open);
    let inner = rest.skip(open + 1);
    assert(inner =~= arg + seq![')'] + tail);
    let close = arg.len() as int;
    lemma_first_index_is(inner, ')', close);
    assert(rest.take(open) =~= name);
    assert(inner.take(close) =~= arg);
}

/// A remainder that opens a parenthesis and never closes it is malformed.
pub proof fn lemma_unclosed_argument(name: Seq<char>, rest: Seq<char>)
    requires
        free_of(name, '('),
        free_of(rest, ')'),
    ensures
        parse_invocation(name + seq!['('] + rest) is None,
{
    let whole = name + seq!['('] + rest;
    let open = name.len() as int;
    lemma_first_index_is(whole, '(', open);
    let inner = whole.skip(open + 1);
    assert(inner =~= rest);
    lemma_first_index_is(inner, ')', inner.len() as int);
}

/// An action line holds the marker, so a text with an action line does.
pub proof fn lemma_action_line_holds_marker(text: Seq<char>)
    ensures
        action_line(text) is Some ==> contains_text(text, marker()),
    decreases text.len(),
{
    let n = first_index(text, '\n');
    lemma_first_index(text, '\n');
    let line = text.take(n);
    let len = marker().len() as int;
    if is_action_line(line) {
        let r = lemma_trim_bounds(line);
        assert(text.subrange(r.0, r.0 + len) =~= line.subrange(r.0, r.1).subrange(0, len));
        assert(occurs_at(text, marker(), r.0));
    } else if 0 <= n < text.len() {
        let rest = text.skip(n + 1);
        lemma_action_line_holds_marker(rest);
        if action_line(rest) is Some {
            let i = choose|i: int| occurs_at(rest, marker(), i);
            assert(text.subrange(i + n + 1, i + n + 1 + len) =~= rest.subrange(i, i + len));
            assert(occurs_at(text, marker(), i + n + 1));
        }
    }
}

/// A text that does not hold the marker asks for no action.
pub proof fn lemma_no_marker_no_action(text: Seq<char>)
    requires
        !contains_text(text, marker()),
    ensures
        parse_action(text) is None,
{
    lemma_action_line_holds_marker(text);
}

/// Lines that are no action lines do not count: where `before` is made of
/// whole lines none of which is an action line, the text that follows it
/// decides.
pub proof fn lemma_lines_before_are_skipped(before: Seq<char>, rest: Seq<char>)
    requires
        action_line(before) is None,
        before.len() > 0 ==> before.last() == '\n',
    ensures
        action_line(before + rest) == action_line(rest),
        parse_action(before + rest) == parse_action(rest),
    decreases before.len(),
{
    if before.len() == 0 {
        assert(before + rest =~= rest);
    } else {
        let text = before + rest;
        let n = first_index(before, '\n');
        lemma_first_index(before, '\n');
        assert(n < before.len()) by {
            if n >= before.len() {
                assert(before[before.len() - 1] != '\n');
            }
        }
        assert forall|j: int| 0 <= j < n implies text[j] != '\n' by {
            assert(text[j] == before[j]);
        }
        assert(text[n] == before[n]);
        lemma_first_index_is(text, '\n', n);
        assert(text.take(n) =~= before.take(n));
        let left = before.skip(n + 1);
        assert(text.skip(n + 1) =~= left + rest);
        if left.len() > 0 {
            assert(left.last() == before.last());
        }
        lemma_lines_before_are_skipped(left, rest);
    }
}

/// The first action line decides: what stands on later lines does not
/// count.
pub proof fn lemma_lines_after_are_ignored(line: Seq<char>, after: Seq<char>)
    requires
        free_of(line, '\n'),
        is_action_line(line),
    ensures
        action_line(line) == Some(line),
        action_line(line + seq!['\n'] + after) == Some(line),
{
    lemma_first_index_is(line, '\n', line.len() as int);
    assert(line.take(line.len() as int) =~= line);
    let text = line + seq!['\n'] + after;
    lemma_first_index_is(text, '\n', line.len() as int);
    assert(text.take(line.len() as int) =~= line);
}

/// The first action line decides alone: whatever lines that are no action
/// lines stand before it, and whatever stands after it, the text asks for
/// what that line asks for.
pub proof fn lemma_first_action_line_decides(
    before: Seq<char>,
    line: Seq<char>,
    after: Seq<char>,
)
    requires
        action_line(before) is None,
        before.len() > 0 ==> before.last() == '\n',
        free_of(line, '\n'),
        is_action_line(line),
    ensures
        parse_action(before + line) == parse_line(line),
        parse_action(before + line + seq!['\n'] + after) == parse_line(line),
{
    lemma_lines_after_are_ignored(line, after);
    lemma_lines_before_are_skipped(before, line);
    lemma_lines_before_are_skipped(before, line + seq!['\n'] + after);
    assert(before + line + seq!['\n'] + after =~= before + (line + seq!['\n'] + after));
}

/// What is written is what is read: the line that asks for a writable
/// action parses back to that action.
pub proof fn lemma_written_action_parses_back(a: ActionModel)
    requires
        is_writable(a),
    ensures
        is_action_line(written(a)),
        parse_line(written(a)) == Some(a),
        parse_action(written(a)) == Some(a),
{
    reveal_strlit("Action:");
    reveal_strlit("Action: ");
    reveal_strlit("(");
    reveal_strlit(")");
    let line = written(a);
    let call = render(a);
    let len = marker().len() as int;
    assert(ACTION_PREFIX@ =~= marker() + seq![' ']);
    assert(call.len() > 0 && !is_space(call[0]) && !is_space(call.last()) && free_of(call, '\n'))
        by {
        match a.arg {
            Some(arg) => {
                assert(call =~= a.tool + seq!['('] + arg + seq![')']);
            },
            None => {},
        }
    }
    assert(!is_space(line[0]) && !is_space(line.last())) by {
        assert(line.last() == call.last());
    }
    lemma_trim_of_trimmed(line);
    assert(marker() =~= line.subrange(0, len));
    assert(free_of(line, '\n')) by {
        assert forall|j: int| 0 <= j < line.len() implies line[j] != '\n' by {
            if j >= len + 1 {
                assert(line[j] == call[j - len - 1]);
            }
        }
    }
    lemma_lines_after_are_ignored(line, Seq::empty());
    let tail = line.skip(len);
    assert(tail =~= seq![' '] + call);
    lemma_trim_is(tail, 1, tail.len() as int);
    assert(tail.subrange(1, tail.len() as int) =~= call);
    match a.arg {
        Some(arg) => {
            assert(call =~= a.tool + seq!['('] + arg + seq![')'] + Seq::<char>::empty());
            lemma_name_with_argument(a.tool, arg, Seq::empty());
            lemma_trim_of_trimmed(a.tool);
            lemma_trim_of_trimmed(arg);
        },
        None => {
            lemma_bare_name(a.tool);
        },
    }
}

} // verus!
