use browser_agent::transcript::{Message, Role, Transcript, SYSTEM_HEAD, SYSTEM_TAIL};

#[test]
fn role_names() {
    assert_eq!(Role::System.name(), "system");
    assert_eq!(Role::User.name(), "user");
    assert_eq!(Role::Assistant.name(), "assistant");
}

#[test]
fn a_seeded_transcript_holds_the_instruction_and_the_request() {
    let t = Transcript::seed("what is the price?", "https://shop.example/item");
    assert_eq!(t.len(), 2);
    let system = t.get(0).unwrap();
    assert_eq!(system.role, Role::System);
    assert_eq!(
        system.content,
        "You are an intelligent browser assistant. Current URL: https://shop.example/item\n\n\
AVAILABLE TOOLS:\n\
- extract_prices: Extract all prices from the current page\n\
- search_dom(keyword): Find text matching a keyword and return context  \n\
- click_button(selector): Click a button or element (optional CSS selector)\n\
- scrape_table: Extract and return table data\n\
- navigate_to(url): Navigate to a different URL\n\
\n\
RESPONSE FORMAT:\n\
Always use this exact format:\n\
Thought: [your reasoning]\n\
Action: [tool_name] OR Action: [tool_name](argument)\n\
Observation: [wait for tool result]\n\
Thought: [reasoning based on observation]\n\
Final Answer: [conclusive answer]\n\
\n\
Continue this pattern until you have enough information to provide a Final Answer."
    );
    assert_eq!(
        t.get(1),
        Some(&Message { role: Role::User, content: "what is the price?".to_string() })
    );
    assert_eq!(t.get(2), None);
}

#[test]
fn the_instruction_is_head_address_tail() {
    let t = Transcript::seed("p", "URL");
    assert_eq!(t.get(0).unwrap().content, format!("{}URL{}", SYSTEM_HEAD, SYSTEM_TAIL));
    let empty = Transcript::seed("", "");
    assert_eq!(empty.get(0).unwrap().content, format!("{}{}", SYSTEM_HEAD, SYSTEM_TAIL));
    assert_eq!(empty.get(1).unwrap().content, "");
}

#[test]
fn push_appends_and_changes_nothing_else() {
    let mut t = Transcript::new("be brief".to_string());
    assert_eq!(t.len(), 1);
    t.push(Role::User, "hello".to_string());
    t.push(Role::Assistant, "hi".to_string());
    t.push(Role::User, "bye".to_string());
    assert_eq!(t.len(), 4);
    assert_eq!(t.get(0), Some(&Message { role: Role::System, content: "be brief".to_string() }));
    assert_eq!(t.get(1), Some(&Message { role: Role::User, content: "hello".to_string() }));
    assert_eq!(t.get(2), Some(&Message { role: Role::Assistant, content: "hi".to_string() }));
    assert_eq!(t.get(3), Some(&Message { role: Role::User, content: "bye".to_string() }));
    assert_eq!(t.get(4), None);
    assert_eq!(t.get(usize::MAX), None);
}

#[test]
fn the_first_message_is_always_the_system_instruction() {
    let mut t = Transcript::new(String::new());
    for i in 0..10 {
        t.push(if i % 2 == 0 { Role::Assistant } else { Role::User }, format!("m{}", i));
        assert_eq!(t.get(0).unwrap().role, Role::System);
    }
    assert_eq!(t.len(), 11);
}
