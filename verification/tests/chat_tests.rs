use browser_agent::action::Action;
use browser_agent::agent::{AgentSession, Directive};
use browser_agent::chat::{demo_response, model_reply, plain_transcript, reply_or_error};
use browser_agent::payload::reply_content;
use browser_agent::transcript::{Message, Role};

fn json(text: &str) -> serde_json::Value {
    serde_json::from_str(text).expect("valid JSON")
}

#[test]
fn the_reply_is_the_content_of_the_first_choice() {
    let body = json(
        r#"{"id": "c1", "choices": [
            {"index": 0, "message": {"role": "assistant", "content": "Thought: hi\nFinal Answer: 1"}},
            {"index": 1, "message": {"role": "assistant", "content": "second"}}
        ]}"#,
    );
    assert_eq!(reply_content(&body), Some("Thought: hi\nFinal Answer: 1".to_string()));
    assert_eq!(model_reply(&body), Ok("Thought: hi\nFinal Answer: 1".to_string()));
}

#[test]
fn an_empty_reply_is_a_reply() {
    let body = json(r#"{"choices": [{"message": {"content": ""}}]}"#);
    assert_eq!(reply_content(&body), Some(String::new()));
    assert_eq!(model_reply(&body), Ok(String::new()));
}

#[test]
fn an_answer_without_reply_is_a_failure() {
    for text in [
        r#"{}"#,
        r#"null"#,
        r#""just a string""#,
        r#"[]"#,
        r#"{"error": {"message": "invalid api key"}}"#,
        r#"{"choices": []}"#,
        r#"{"choices": "none"}"#,
        r#"{"choices": [{}]}"#,
        r#"{"choices": [{"message": {}}]}"#,
        r#"{"choices": [{"message": {"content": null}}]}"#,
        r#"{"choices": [{"message": {"content": 7}}]}"#,
        r#"{"choices": [{"message": {"content": ["a"]}}]}"#,
        r#"{"choices": [{"message": "content"}]}"#,
        r#"{"choices": {"0": {"message": {"content": "member, not element"}}}}"#,
        r#"{"choices": [[{"message": {"content": "nested"}}]]}"#,
    ] {
        let body = json(text);
        assert_eq!(reply_content(&body), None, "{}", text);
        assert_eq!(model_reply(&body), Err("No response from AI".to_string()), "{}", text);
    }
}

#[test]
fn a_missing_reply_is_an_error_and_a_reply_is_itself() {
    assert_eq!(reply_or_error(Some("x".to_string())), Ok("x".to_string()));
    assert_eq!(reply_or_error(Some("No response".to_string())), Ok("No response".to_string()));
    assert_eq!(reply_or_error(None), Err("No response from AI".to_string()));
}

fn answer_with(reply: &str) -> serde_json::Value {
    let content = serde_json::to_string(reply).expect("a string");
    json(&format!(r#"{{"choices": [{{"message": {{"content": {}}}}}]}}"#, content))
}

/// Runs an invocation as the loop does, with the model's answers scripted
/// and every tool giving `ok`. Returns the result of the invocation, the
/// number of model calls and the tools that were run.
fn invoke(answers: &[serde_json::Value]) -> (Result<String, String>, usize, Vec<Action>) {
    let (mut session, mut next) = AgentSession::start("what is the price?", "https://shop.example");
    let mut calls = 0;
    let mut run = Vec::new();
    loop {
        match next {
            Directive::Finish => return (Ok(session.output()), calls, run),
            Directive::Query => {
                let answer = &answers[calls];
                calls += 1;
                match model_reply(answer) {
                    Ok(reply) => (session, next) = session.on_reply(reply),
                    Err(e) => return (Err(e), calls, run),
                }
            }
            Directive::Dispatch(action) => {
                run.push(action);
                (session, next) = session.on_observation(Ok("ok".to_string()));
            }
        }
    }
}

#[test]
fn an_answer_without_reply_ends_the_invocation_at_once() {
    let broken = json(r#"{"error": {"message": "Incorrect API key provided", "code": "invalid_api_key"}}"#);
    for j in 1..=5usize {
        let mut answers = vec![answer_with("Thought: look\nAction: extract_prices"); j - 1];
        answers.push(broken.clone());
        answers.push(answer_with("Final Answer: never asked for"));
        let (result, calls, run) = invoke(&answers);
        assert_eq!(result, Err("No response from AI".to_string()));
        assert_eq!(calls, j);
        assert_eq!(run.len(), j - 1);
    }
}

#[test]
fn answers_with_replies_run_the_invocation_to_its_end() {
    let answers = vec![
        answer_with("Thought: look\nAction: search_dom(price)"),
        answer_with("Final Answer: $5"),
    ];
    let (result, calls, run) = invoke(&answers);
    assert_eq!(
        result,
        Ok("Thought: look\nAction: search_dom(price)\n\nObservation: ok\n\nFinal Answer: $5".to_string())
    );
    assert_eq!(calls, 2);
    assert_eq!(run, vec![Action { tool: "search_dom".to_string(), arg: Some("price".to_string()) }]);
}

#[test]
fn the_demo_response_quotes_the_request() {
    assert_eq!(
        demo_response("what's this page?"),
        "Demo response: I understand you're asking about 'what's this page?'. This is a demo \
response since no OpenAI API key is configured."
    );
    assert_eq!(
        demo_response(""),
        "Demo response: I understand you're asking about ''. This is a demo response since no \
OpenAI API key is configured."
    );
}

#[test]
fn the_plain_transcript() {
    let t = plain_transcript("hello");
    assert_eq!(t.len(), 2);
    assert_eq!(
        t.get(0),
        Some(&Message {
            role: Role::System,
            content: "You are a helpful browser assistant. Keep responses concise and helpful."
                .to_string(),
        })
    );
    assert_eq!(t.get(1), Some(&Message { role: Role::User, content: "hello".to_string() }));
}
