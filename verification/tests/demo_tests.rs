use browser_agent::action::Action;
use browser_agent::demo::{choose_tool, demo_action, demo_transcript, is_demo_key};
use browser_agent::dispatch::{begin_dispatch, DispatchError, PollOutcome};
use browser_agent::store::{tool_response, ToolStore};

fn action(tool: &str, arg: Option<&str>) -> Action {
    Action { tool: tool.to_string(), arg: arg.map(|a| a.to_string()) }
}

#[test]
fn price_is_checked_before_find() {
    assert_eq!(demo_action("find the cheapest price"), action("extract_prices", None));
}

#[test]
fn table_selects_scrape_table() {
    assert_eq!(demo_action("show me the table"), action("scrape_table", None));
}

#[test]
fn find_selects_a_search_for_content() {
    assert_eq!(demo_action("find this text"), action("search_dom", Some("content")));
    assert_eq!(demo_action("search the page"), action("search_dom", Some("content")));
}

#[test]
fn anything_else_selects_a_search_for_html() {
    assert_eq!(demo_action("hello"), action("search_dom", Some("html")));
    assert_eq!(demo_action(""), action("search_dom", Some("html")));
}

#[test]
fn keywords_are_found_whatever_their_case() {
    assert_eq!(demo_action("What is the PRICE?"), action("extract_prices", None));
    assert_eq!(demo_action("Show The TaBlE"), action("scrape_table", None));
    assert_eq!(demo_action("FIND it"), action("search_dom", Some("content")));
    assert_eq!(demo_action("SEARCH"), action("search_dom", Some("content")));
}

#[test]
fn keywords_count_inside_words() {
    assert_eq!(demo_action("how pricey is it"), action("extract_prices", None));
    assert_eq!(demo_action("a comfortable chair"), action("scrape_table", None));
    assert_eq!(demo_action("research"), action("search_dom", Some("content")));
}

#[test]
fn table_is_checked_before_search() {
    assert_eq!(demo_action("search the table"), action("scrape_table", None));
    assert_eq!(demo_action("table of prices"), action("extract_prices", None));
}

#[test]
fn choose_tool_expects_lower_case() {
    assert_eq!(choose_tool("the price"), action("extract_prices", None));
    assert_eq!(choose_tool("the PRICE"), action("search_dom", Some("html")));
}

#[test]
fn only_the_demo_key_is_the_demo_key() {
    assert!(is_demo_key("demo_key"));
    assert!(!is_demo_key(""));
    assert!(!is_demo_key("demo_key "));
    assert!(!is_demo_key("DEMO_KEY"));
    assert!(!is_demo_key("another key"));
}

#[test]
fn the_demo_output_for_prices() {
    let out = demo_transcript(&action("extract_prices", None), Ok("Found 2 prices: $19.99, $5".to_string()));
    assert_eq!(
        out,
        "Thought: I need to analyze this webpage to answer the user's question.\n\n\
Action: extract_prices\n\n\
Observation: Found 2 prices: $19.99, $5\n\n\
Thought: Based on the information I gathered, I can now provide a helpful answer.\n\n\
Final Answer: I've extracted the pricing information from the page. The results show the available prices and their context."
    );
}

#[test]
fn the_demo_output_for_a_table() {
    let out = demo_transcript(&action("scrape_table", None), Ok("a | b".to_string()));
    assert_eq!(
        out,
        "Thought: I need to analyze this webpage to answer the user's question.\n\n\
Action: scrape_table\n\n\
Observation: a | b\n\n\
Thought: Based on the information I gathered, I can now provide a helpful answer.\n\n\
Final Answer: I've extracted the table data from the page, showing the structured information in a readable format."
    );
}

#[test]
fn the_demo_output_for_a_search() {
    let out = demo_transcript(&action("search_dom", Some("content")), Ok("…found…".to_string()));
    assert_eq!(
        out,
        "Thought: I need to analyze this webpage to answer the user's question.\n\n\
Action: search_dom(content)\n\n\
Observation: …found…\n\n\
Thought: Based on the information I gathered, I can now provide a helpful answer.\n\n\
Final Answer: I've analyzed the page content and found relevant information to answer your question."
    );
}

#[test]
fn a_timeout_is_reported_in_the_demo_observation() {
    let out = demo_transcript(&action("search_dom", Some("html")), Err(DispatchError::Timeout));
    let parts: Vec<&str> = out.split("\n\n").collect();
    assert_eq!(parts.len(), 5);
    assert_eq!(parts[1], "Action: search_dom(html)");
    assert_eq!(parts[2], "Observation: Tool execution timeout");
    assert!(parts[4].starts_with("Final Answer: "));
}

#[test]
fn end_to_end_without_credential() {
    let price_text = "Found 3 prices: $19.99, $24.50, $5.00";
    assert!(is_demo_key("demo_key"));
    let mut store = ToolStore::new();
    let chosen = demo_action("what is the price?");
    let mut request =
        begin_dispatch(&chosen.tool, chosen.arg.as_deref(), &mut store).expect("a fresh id");
    assert_eq!(request.poll(&mut store), PollOutcome::Pending);
    tool_response(request.request_id.clone(), price_text.to_string(), &mut store).unwrap();
    let outcome = match request.poll(&mut store) {
        PollOutcome::Resolved(result) => Ok(result),
        PollOutcome::Expired => Err(DispatchError::Timeout),
        PollOutcome::Pending => panic!("the answer was there"),
    };
    let out = demo_transcript(&chosen, outcome);

    let lines: Vec<&str> = out.lines().collect();
    let thought = lines.iter().position(|l| l.starts_with("Thought:")).expect("a thought");
    let act = lines.iter().position(|l| *l == "Action: extract_prices").expect("the action");
    let seen = lines
        .iter()
        .position(|l| l.starts_with("Observation:") && l.contains(price_text))
        .expect("the observation");
    let answer = lines.iter().position(|l| l.starts_with("Final Answer:")).expect("the answer");
    assert!(thought < act && act < seen && seen < answer);
    assert_eq!(store.len(), 0);
}
