//! Payload mapping, document codec and reply extraction.

use artie_chat::my_chat::MyChat;
use artie_chat::provider::{ProviderError, build_provider_request, extract_reply, reply_or_empty,
    to_messages};
use artie_chat::store::{StoredTurn, decode_turns, encode_turns};
use artie_chat::turn::{Role, Turn, parse_role, role_label_text};

fn s(text: &str) -> String {
    text.to_string()
}

fn turn(role: Role, content: &str) -> Turn {
    Turn { role, content: s(content) }
}

#[test]
fn payload_keeps_order_and_maps_roles() {
    let turns = vec![turn(Role::User, "hi"), turn(Role::Assistant, "hello!"), turn(
        Role::User,
        "how are you?",
    )];
    let messages = to_messages(&turns);
    assert_eq!(messages.len(), 3);
    assert_eq!(messages[0].role, "user");
    assert_eq!(messages[0].content, "hi");
    assert_eq!(messages[1].role, "assistant");
    assert_eq!(messages[1].content, "hello!");
    assert_eq!(messages[2].role, "user");
    assert_eq!(messages[2].content, "how are you?");
}

#[test]
fn provider_request_carries_model_and_messages() {
    let turns = vec![turn(Role::User, "hi")];
    let req = build_provider_request(s("gpt-4"), &turns);
    assert_eq!(req.model, "gpt-4");
    assert_eq!(req.messages.len(), 1);
    assert_eq!(req.messages[0].role, "user");
    assert_eq!(req.messages[0].content, "hi");
}

#[test]
fn role_labels_round_trip() {
    assert_eq!(role_label_text(Role::User), "user");
    assert_eq!(role_label_text(Role::Assistant), "assistant");
    assert!(matches!(parse_role(&s("user")), Some(Role::User)));
    assert!(matches!(parse_role(&s("assistant")), Some(Role::Assistant)));
    assert!(parse_role(&s("system")).is_none());
    assert!(parse_role(&s("User")).is_none());
}

#[test]
fn encode_stamps_every_entry_with_save_time() {
    let turns = vec![turn(Role::User, "hi"), turn(Role::Assistant, "hello!")];
    let stored = encode_turns(&turns, 42);
    assert_eq!(stored.len(), 2);
    assert_eq!(stored[0].role, "user");
    assert_eq!(stored[0].message, "hi");
    assert_eq!(stored[0].timestamp, 42);
    assert_eq!(stored[1].role, "assistant");
    assert_eq!(stored[1].message, "hello!");
    assert_eq!(stored[1].timestamp, 42);
}

#[test]
fn decode_reads_encoded_turns_back() {
    let turns = vec![turn(Role::User, "hi"), turn(Role::Assistant, "hello!")];
    let decoded = decode_turns(&encode_turns(&turns, 42)).expect("well-formed entries");
    assert_eq!(decoded.len(), 2);
    assert!(matches!(decoded[0].role, Role::User));
    assert_eq!(decoded[0].content, "hi");
    assert!(matches!(decoded[1].role, Role::Assistant));
    assert_eq!(decoded[1].content, "hello!");
}

#[test]
fn decode_rejects_unknown_role() {
    let stored = vec![
        StoredTurn { role: s("user"), message: s("hi"), timestamp: 1 },
        StoredTurn { role: s("narrator"), message: s("meanwhile"), timestamp: 2 },
    ];
    assert!(decode_turns(&stored).is_none());
}

#[test]
fn extracts_reply_from_response_body() {
    let body: serde_json::Value = serde_json::from_str(
        "{\"choices\":[{\"message\":{\"content\":\"hello there\",\"role\":\"assistant\"}}]}",
    )
    .unwrap();
    assert_eq!(extract_reply(&body), "hello there");
}

#[test]
fn substitutes_empty_string_for_missing_reply() {
    let no_choices: serde_json::Value = serde_json::from_str("{\"id\":\"x\"}").unwrap();
    assert_eq!(extract_reply(&no_choices), "");

    let empty_choices: serde_json::Value = serde_json::from_str("{\"choices\":[]}").unwrap();
    assert_eq!(extract_reply(&empty_choices), "");

    let no_content: serde_json::Value =
        serde_json::from_str("{\"choices\":[{\"message\":{\"role\":\"assistant\"}}]}").unwrap();
    assert_eq!(extract_reply(&no_content), "");

    let content_not_text: serde_json::Value =
        serde_json::from_str("{\"choices\":[{\"message\":{\"content\":7}}]}").unwrap();
    assert_eq!(extract_reply(&content_not_text), "");
}

#[test]
fn reply_or_empty_is_the_substitution_policy() {
    assert_eq!(reply_or_empty(Some(s("text"))), "text");
    assert_eq!(reply_or_empty(None), "");
}

#[test]
fn stateless_service_sends_one_user_message() {
    let payload = MyChat::request_payload(s("hola"));
    assert_eq!(payload.len(), 1);
    assert_eq!(payload[0].role, "user");
    assert_eq!(payload[0].content, "hola");
}

#[test]
fn stateless_service_sends_fixed_model() {
    let req = MyChat::build_request(s("hola"));
    assert_eq!(req.model, "gpt-4");
    assert_eq!(req.messages.len(), 1);
    assert_eq!(req.messages[0].role, "user");
    assert_eq!(req.messages[0].content, "hola");
}

#[test]
fn stateless_service_concludes_with_text_or_fallback() {
    assert_eq!(MyChat::conclude(Ok(s("bien"))), "bien");
    assert_eq!(
        MyChat::conclude(Err(ProviderError::Transport)),
        "Error al llamar a la API de ChatGPT"
    );
    assert_eq!(
        MyChat::conclude(Err(ProviderError::BadStatus)),
        "Error al llamar a la API de ChatGPT"
    );
}
