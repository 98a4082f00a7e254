use browser_agent::action::{extract_action, Action};

fn parsed(text: &str) -> Option<(String, Option<String>)> {
    extract_action(text)
}

fn some(tool: &str, arg: Option<&str>) -> Option<(String, Option<String>)> {
    Some((tool.to_string(), arg.map(|a| a.to_string())))
}

#[test]
fn action_with_argument() {
    assert_eq!(parsed("Action: foo(bar)"), some("foo", Some("bar")));
}

#[test]
fn action_with_empty_parentheses_has_no_argument() {
    assert_eq!(parsed("Action: foo()"), some("foo", None));
}

#[test]
fn action_without_parentheses_has_no_argument() {
    assert_eq!(parsed("Action: foo"), some("foo", None));
}

#[test]
fn unclosed_parenthesis_is_no_action() {
    assert_eq!(parsed("Action: foo(bar"), None);
}

#[test]
fn text_without_action_line_is_no_action() {
    assert_eq!(parsed("Thought: nothing to do here\nFinal Answer: done"), None);
    assert_eq!(parsed(""), None);
}

#[test]
fn action_line_among_other_lines() {
    let text = "Thought: I should look\nAction: search_dom(shipping cost)\nObservation: pending";
    assert_eq!(parsed(text), some("search_dom", Some("shipping cost")));
}

#[test]
fn first_action_line_decides() {
    assert_eq!(parsed("Action: first(a)\nAction: second(b)"), some("first", Some("a")));
    assert_eq!(parsed("Action: broken(\nAction: second(b)"), None);
}

#[test]
fn marker_inside_a_line_is_no_action_line() {
    assert_eq!(parsed("Next Action: foo(bar)"), None);
    assert_eq!(parsed("action: foo"), None);
}

#[test]
fn white_space_is_trimmed_everywhere() {
    assert_eq!(parsed("   Action:   foo  (  bar baz  )  "), some("foo", Some("bar baz")));
    assert_eq!(parsed("\tAction:foo\t"), some("foo", None));
    assert_eq!(parsed("Action: foo(   )"), some("foo", None));
    assert_eq!(parsed("\u{2003}Action:\u{a0}foo(\u{3000}x\u{3000})"), some("foo", Some("x")));
}

#[test]
fn carriage_return_ends_a_line_like_white_space() {
    assert_eq!(parsed("Thought: x\r\nAction: foo(bar)\r\nmore"), some("foo", Some("bar")));
    assert_eq!(parsed("Action: foo\r"), some("foo", None));
}

#[test]
fn argument_ends_at_first_closing_parenthesis() {
    assert_eq!(parsed("Action: f(a)b)"), some("f", Some("a")));
    assert_eq!(parsed("Action: f(a(b)c)"), some("f", Some("a(b")));
    assert_eq!(parsed("Action: f)x("), None);
}

#[test]
fn name_may_be_empty() {
    assert_eq!(parsed("Action:"), some("", None));
    assert_eq!(parsed("Action: (x)"), some("", Some("x")));
}

#[test]
fn non_ascii_text_is_cut_at_characters() {
    assert_eq!(parsed("Überlegung: …\nAction: navigate_to(https://例え.jp/価格)"),
        some("navigate_to", Some("https://例え.jp/価格")));
}

#[test]
fn recognized_tools_parse() {
    assert_eq!(parsed("Action: extract_prices"), some("extract_prices", None));
    assert_eq!(parsed("Action: search_dom(keyword)"), some("search_dom", Some("keyword")));
    assert_eq!(parsed("Action: click_button(#buy)"), some("click_button", Some("#buy")));
    assert_eq!(parsed("Action: click_button"), some("click_button", None));
    assert_eq!(parsed("Action: scrape_table"), some("scrape_table", None));
    assert_eq!(parsed("Action: navigate_to(https://example.com)"),
        some("navigate_to", Some("https://example.com")));
}

#[test]
fn rendered_action_parses_back() {
    let action = Action { tool: "search_dom".to_string(), arg: Some("content".to_string()) };
    assert_eq!(action.render(), "search_dom(content)");
    let line = format!("Action: {}", action.render());
    assert_eq!(parsed(&line), some("search_dom", Some("content")));
    let bare = Action { tool: "scrape_table".to_string(), arg: None };
    assert_eq!(bare.render(), "scrape_table");
    assert_eq!(parsed(&format!("Action: {}", bare.render())), some("scrape_table", None));
}

#[test]
fn clone_and_from_pair_keep_the_fields() {
    let action = Action::from_pair(("t".to_string(), Some("a".to_string())));
    let copy = action.clone();
    assert_eq!(copy.tool, "t");
    assert_eq!(copy.arg.as_deref(), Some("a"));
    assert_eq!(action.tool, "t");
}
