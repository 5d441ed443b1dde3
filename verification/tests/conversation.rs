//! End-to-end scenarios for the conversation orchestrator against the
//! store model.

use artie_chat::orchestrator::{ChatRequest, build_working, conclude, handle};
use artie_chat::provider::ProviderError;
use artie_chat::store::{StoreState, StoredTurn};
use artie_chat::turn::Role;

fn s(text: &str) -> String {
    text.to_string()
}

fn request(user_id: &str, context_id: &str, message: &str, prompt: &str) -> ChatRequest {
    ChatRequest {
        user_id: s(user_id),
        context_id: s(context_id),
        message: s(message),
        prompt: s(prompt),
    }
}

#[test]
fn new_conversation_is_seeded_and_inserted() {
    let mut store = StoreState::new();
    let req = request("u1", "c1", "hi", "You are a helpful bot");
    let resp = handle(&mut store, &req, Ok(s("hello!")), 1000);

    assert_eq!(resp.user_id, "u1");
    assert_eq!(resp.context_id, "c1");
    assert_eq!(resp.reply, "hello!");

    let stored = store.stored_turns(&s("u1"), &s("c1")).expect("document should exist");
    assert_eq!(stored.len(), 2);
    assert_eq!(stored[0].role, "user");
    assert_eq!(stored[0].message, "You are a helpful bot");
    assert_eq!(stored[0].timestamp, 1000);
    assert_eq!(stored[1].role, "assistant");
    assert_eq!(stored[1].message, "hello!");
    assert_eq!(stored[1].timestamp, 1000);

    assert_eq!(store.count_for_key(&s("u1"), &s("c1")), 1);
}

#[test]
fn continuing_conversation_appends_a_pair() {
    let mut store = StoreState::new();
    let first = request("u1", "c1", "hi", "You are a helpful bot");
    handle(&mut store, &first, Ok(s("hello!")), 1000);

    let second = request("u1", "c1", "how are you?", "");
    let resp = handle(&mut store, &second, Ok(s("I'm well")), 2000);
    assert_eq!(resp.reply, "I'm well");

    let stored = store.stored_turns(&s("u1"), &s("c1")).expect("document should exist");
    assert_eq!(stored.len(), 4);
    assert_eq!(stored[0].role, "user");
    assert_eq!(stored[0].message, "You are a helpful bot");
    assert_eq!(stored[1].role, "assistant");
    assert_eq!(stored[1].message, "hello!");
    assert_eq!(stored[2].role, "user");
    assert_eq!(stored[2].message, "how are you?");
    assert_eq!(stored[2].timestamp, 2000);
    assert_eq!(stored[3].role, "assistant");
    assert_eq!(stored[3].message, "I'm well");

    assert_eq!(store.count_for_key(&s("u1"), &s("c1")), 1);
}

#[test]
fn provider_failure_returns_sentinel_and_persists_nothing() {
    let mut store = StoreState::new();
    let first = request("u1", "c1", "hi", "You are a helpful bot");
    handle(&mut store, &first, Ok(s("hello!")), 1000);

    let failing = request("u1", "c1", "are you there?", "");
    let resp = handle(&mut store, &failing, Err(ProviderError::Transport), 3000);
    assert_eq!(resp.reply, "Error calling ChatGPT API");
    assert_eq!(resp.user_id, "u1");
    assert_eq!(resp.context_id, "c1");

    let stored = store.stored_turns(&s("u1"), &s("c1")).expect("document should exist");
    assert_eq!(stored.len(), 2);
    assert_eq!(stored[0].message, "You are a helpful bot");
    assert_eq!(stored[1].message, "hello!");
}

#[test]
fn provider_failure_on_empty_store_stores_nothing() {
    let mut store = StoreState::new();
    let req = request("u1", "c1", "hi", "");
    let resp = handle(&mut store, &req, Err(ProviderError::BadStatus), 500);
    assert_eq!(resp.reply, "Error calling ChatGPT API");
    assert!(store.stored_turns(&s("u1"), &s("c1")).is_none());
    assert_eq!(store.count_for_key(&s("u1"), &s("c1")), 0);
}

#[test]
fn replaying_identical_request_gives_identical_outcome() {
    let mut store_a = StoreState::new();
    let mut store_b = StoreState::new();
    let seed = request("u1", "c1", "hi", "You are a helpful bot");
    handle(&mut store_a, &seed, Ok(s("hello!")), 1000);
    handle(&mut store_b, &seed, Ok(s("hello!")), 1000);

    let req_a = request("u1", "c1", "again?", "");
    let req_b = request("u1", "c1", "again?", "");
    let resp_a = handle(&mut store_a, &req_a, Ok(s("yes")), 2000);
    let resp_b = handle(&mut store_b, &req_b, Ok(s("yes")), 2000);

    assert_eq!(resp_a.reply, resp_b.reply);
    let stored_a = store_a.stored_turns(&s("u1"), &s("c1")).unwrap();
    let stored_b = store_b.stored_turns(&s("u1"), &s("c1")).unwrap();
    assert_eq!(stored_a.len(), stored_b.len());
    for (ta, tb) in stored_a.iter().zip(stored_b.iter()) {
        assert_eq!(ta.role, tb.role);
        assert_eq!(ta.message, tb.message);
        assert_eq!(ta.timestamp, tb.timestamp);
    }
}

#[test]
fn distinct_keys_keep_distinct_documents() {
    let mut store = StoreState::new();
    handle(&mut store, &request("u1", "c1", "hi", ""), Ok(s("one")), 1);
    handle(&mut store, &request("u1", "c2", "hey", ""), Ok(s("two")), 2);
    handle(&mut store, &request("u2", "c1", "hello", ""), Ok(s("three")), 3);

    assert_eq!(store.count_for_key(&s("u1"), &s("c1")), 1);
    assert_eq!(store.count_for_key(&s("u1"), &s("c2")), 1);
    assert_eq!(store.count_for_key(&s("u2"), &s("c1")), 1);
    assert_eq!(store.stored_turns(&s("u1"), &s("c2")).unwrap()[1].message, "two");
}

#[test]
fn malformed_document_reads_as_empty_and_is_replaced() {
    let mut store = StoreState::new();
    let bad = vec![StoredTurn { role: s("system"), message: s("???"), timestamp: 1 }];
    store.save(s("u1"), s("c1"), bad, 1);

    let resp = handle(&mut store, &request("u1", "c1", "hi", "seed"), Ok(s("fresh")), 10);
    assert_eq!(resp.reply, "fresh");

    let stored = store.stored_turns(&s("u1"), &s("c1")).unwrap();
    assert_eq!(stored.len(), 2);
    assert_eq!(stored[0].message, "seed");
    assert_eq!(stored[1].message, "fresh");
    assert_eq!(store.count_for_key(&s("u1"), &s("c1")), 1);
}

#[test]
fn empty_prompt_falls_back_to_message() {
    let mut store = StoreState::new();
    let resp = handle(&mut store, &request("u1", "c1", "hi", ""), Ok(s("hello!")), 1);
    assert_eq!(resp.reply, "hello!");
    let stored = store.stored_turns(&s("u1"), &s("c1")).unwrap();
    assert_eq!(stored[0].message, "hi");
}

#[test]
fn build_working_marks_new_and_appends_user_turn() {
    let (working, is_new) = build_working(Vec::new(), &s("hi"), &s("seed"));
    assert!(is_new);
    assert_eq!(working.len(), 1);
    assert!(matches!(working[0].role, Role::User));
    assert_eq!(working[0].content, "seed");

    let (working2, is_new2) = build_working(working, &s("next"), &s("seed"));
    assert!(!is_new2);
    assert_eq!(working2.len(), 2);
    assert_eq!(working2[1].content, "next");
}

#[test]
fn conclude_success_pairs_the_reply() {
    let (working, is_new) = build_working(Vec::new(), &s("hi"), &s(""));
    let step = conclude(working, is_new, Ok(s("hello!")));
    assert_eq!(step.reply, "hello!");
    let cmd = step.save.expect("success should persist");
    assert!(cmd.is_new);
    assert_eq!(cmd.turns.len(), 2);
    assert!(matches!(cmd.turns[1].role, Role::Assistant));
    assert_eq!(cmd.turns[1].content, "hello!");
}

#[test]
fn conclude_failure_drops_the_user_turn() {
    let (working, is_new) = build_working(Vec::new(), &s("hi"), &s(""));
    let step = conclude(working, is_new, Err(ProviderError::Transport));
    assert_eq!(step.reply, "Error calling ChatGPT API");
    assert!(step.save.is_none());
}
