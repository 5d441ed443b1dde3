//! A stateless single-turn chat service.
//!
//! It keeps no history: every call sends the caller's message as a
//! one-message payload and answers with the provider's text, or with a
//! fixed fallback line when the provider call fails.

use vstd::prelude::*;
use crate::provider::{ProviderError, ProviderMessage, ProviderMessageView, ProviderRequest,
    messages_view};
use crate::turn::{Role, role_label, role_label_text};

verus! {

/// The stateless service.
#[derive(Debug)]
pub struct MyChat {}

impl Default for MyChat {
    fn default() -> (r: Self)
        ensures
            r == (MyChat {  }),
    {
        MyChat {  }
    }
}

/// The fixed reply handed out when the provider call fails.
pub open spec fn fallback_reply() -> Seq<char> {
    "Error al llamar a la API de ChatGPT"@
}

/// The fixed model identifier the stateless service sends.
pub open spec fn stateless_model() -> Seq<char> {
    "gpt-4"@
}

impl MyChat {
    /// The one-message payload a call sends: the caller's message as a
    /// single user turn.
    pub fn request_payload(message: String) -> (r: Vec<ProviderMessage>)
        ensures
            messages_view(r@) == seq![
                (ProviderMessageView { role: role_label(Role::User), content: message@ }),
            ],
    {
        let mut out: Vec<ProviderMessage> = Vec::new();
        out.push(ProviderMessage { role: role_label_text(Role::User), content: message });
        proof {
            assert(messages_view(out@) =~= seq![
                (ProviderMessageView { role: role_label(Role::User), content: out@[0].content@ }),
            ]);
        }
        out
    }

    /// The full request body a call sends: the fixed model identifier
    /// and the caller's message as the only turn.
    pub fn build_request(message: String) -> (r: ProviderRequest)
        ensures
            r.model@ == stateless_model(),
            messages_view(r.messages@) == seq![
                (ProviderMessageView { role: role_label(Role::User), content: message@ }),
            ],
    {
        ProviderRequest { model: "gpt-4".to_owned(), messages: Self::request_payload(message) }
    }

    /// The reply a call answers with: the provider's text on success,
    /// the fixed fallback line on failure.
    pub fn conclude(outcome: Result<String, ProviderError>) -> (reply: String)
        ensures
            match outcome {
                Ok(text) => reply@ == text@,
                Err(_) => reply@ == fallback_reply(),
            },
    {
        match outcome {
            Ok(text) => text,
            Err(_) => "Error al llamar a la API de ChatGPT".to_owned(),
        }
    }
}

} // verus!
