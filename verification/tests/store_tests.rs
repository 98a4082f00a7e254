use browser_agent::store::{tool_response, ToolStore};

#[test]
fn a_new_store_is_empty() {
    let store = ToolStore::new();
    assert_eq!(store.len(), 0);
    assert!(!store.is_open("a"));
}

#[test]
fn the_default_store_is_empty() {
    let store = ToolStore::default();
    assert_eq!(store.len(), 0);
}

#[test]
fn open_registers_an_id_once() {
    let mut store = ToolStore::new();
    assert!(store.open("a"));
    assert!(store.is_open("a"));
    assert_eq!(store.len(), 1);
    assert!(!store.open("a"));
    assert_eq!(store.len(), 1);
    assert!(store.open("b"));
    assert_eq!(store.len(), 2);
}

#[test]
fn an_answer_is_taken_once() {
    let mut store = ToolStore::new();
    store.open("a");
    assert_eq!(store.take("a"), None);
    assert!(store.is_open("a"));
    store.submit("a", "42".to_string());
    assert_eq!(store.take("a"), Some("42".to_string()));
    assert!(!store.is_open("a"));
    assert_eq!(store.take("a"), None);
    assert_eq!(store.len(), 0);
}

#[test]
fn an_answer_for_an_unknown_id_is_dropped() {
    let mut store = ToolStore::new();
    store.submit("nobody", "x".to_string());
    assert_eq!(store.len(), 0);
    assert_eq!(store.take("nobody"), None);
    store.open("a");
    store.submit("b", "x".to_string());
    assert_eq!(store.len(), 1);
    assert_eq!(store.take("a"), None);
    assert!(!store.is_open("b"));
}

#[test]
fn a_later_answer_replaces_an_earlier_one_that_still_waits() {
    let mut store = ToolStore::new();
    store.open("a");
    store.submit("a", "first".to_string());
    store.submit("a", "second".to_string());
    assert_eq!(store.len(), 1);
    assert_eq!(store.take("a"), Some("second".to_string()));
}

#[test]
fn submitting_the_same_answer_twice_is_submitting_it_once() {
    let mut store = ToolStore::new();
    store.open("a");
    store.submit("a", "r".to_string());
    store.submit("a", "r".to_string());
    assert_eq!(store.len(), 1);
    assert_eq!(store.take("a"), Some("r".to_string()));
    assert_eq!(store.take("a"), None);
}

#[test]
fn a_second_submission_after_the_answer_was_taken_changes_nothing() {
    let mut store = ToolStore::new();
    store.open("a");
    assert_eq!(tool_response("a".to_string(), "r".to_string(), &mut store), Ok(()));
    let got = store.take("a");
    assert_eq!(tool_response("a".to_string(), "r".to_string(), &mut store), Ok(()));
    assert_eq!(got, Some("r".to_string()));
    assert_eq!(store.len(), 0);
    assert_eq!(store.take("a"), None);
}

#[test]
fn answers_do_not_cross_between_ids() {
    let mut store = ToolStore::new();
    store.open("a");
    store.open("b");
    store.open("c");
    store.submit("b", "for b".to_string());
    assert_eq!(store.take("a"), None);
    assert_eq!(store.take("c"), None);
    assert_eq!(store.take("b"), Some("for b".to_string()));
    assert!(store.is_open("a"));
    assert!(store.is_open("c"));
    assert_eq!(store.len(), 2);
}

#[test]
fn close_discards_a_request_with_or_without_answer() {
    let mut store = ToolStore::new();
    store.open("a");
    store.open("b");
    store.submit("b", "late".to_string());
    store.close("a");
    store.close("b");
    store.close("never opened");
    assert_eq!(store.len(), 0);
    assert_eq!(store.take("b"), None);
}

#[test]
fn tool_response_never_fails() {
    let mut store = ToolStore::new();
    assert_eq!(tool_response("x".to_string(), "y".to_string(), &mut store), Ok(()));
    assert_eq!(tool_response(String::new(), String::new(), &mut store), Ok(()));
    assert_eq!(store.len(), 0);
}

#[test]
fn ids_are_compared_as_whole_texts() {
    let mut store = ToolStore::new();
    store.open("abc");
    store.submit("ab", "x".to_string());
    store.submit("abcd", "y".to_string());
    store.submit("ABC", "z".to_string());
    assert_eq!(store.take("abc"), None);
    assert!(store.open(""));
    store.submit("", "empty id".to_string());
    assert_eq!(store.take(""), Some("empty id".to_string()));
}
