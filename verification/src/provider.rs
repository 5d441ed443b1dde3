//! Completion-provider payload mapping and reply extraction.
//!
//! The provider expects the accumulated history as an ordered list of
//! `{role, content}` pairs and answers with a JSON body whose reply
//! text sits at `choices[0].message.content`.  The mapping of turns to
//! pairs is verified exactly; reading the loosely-typed response body
//! goes through small trusted wrappers around `serde_json`, and the
//! substitution policy for a missing reply field is verified on the
//! wrappers' plain results.

use vstd::prelude::*;
use crate::turn::{Turn, TurnView, role_label, role_label_text, turns_view};

verus! {

/// Why a provider call yielded no reply: the transport failed, or the
/// endpoint answered with a non-success status.
#[derive(Clone, Copy, Debug, PartialEq, Eq, Structural)]
pub enum ProviderError {
    Transport,
    BadStatus,
}

/// One `{role, content}` pair of the outgoing payload.
#[derive(Debug)]
pub struct ProviderMessage {
    pub role: String,
    pub content: String,
}

/// Mathematical model of a [`ProviderMessage`].
pub struct ProviderMessageView {
    pub role: Seq<char>,
    pub content: Seq<char>,
}

impl View for ProviderMessage {
    type V = ProviderMessageView;

    open spec fn view(&self) -> ProviderMessageView {
        ProviderMessageView { role: self.role@, content: self.content@ }
    }
}

/// The pair a single turn is sent as.
pub open spec fn message_of(t: TurnView) -> ProviderMessageView {
    ProviderMessageView { role: role_label(t.role), content: t.content }
}

/// The full payload: every turn mapped to its pair, order kept.
pub open spec fn payload_of(ts: Seq<TurnView>) -> Seq<ProviderMessageView> {
    ts.map_values(|t: TurnView| message_of(t))
}

/// The model of a built payload vector.
pub open spec fn messages_view(ms: Seq<ProviderMessage>) -> Seq<ProviderMessageView> {
    ms.map_values(|m: ProviderMessage| m@)
}

/// Lays the history out as the provider's message list, in order.
pub fn to_messages(turns: &Vec<Turn>) -> (r: Vec<ProviderMessage>)
    ensures
        messages_view(r@) == payload_of(turns_view(turns@)),
{
    let mut out: Vec<ProviderMessage> = Vec::new();
    let n = turns.len();
    let mut i: usize = 0;
    while i < n
        invariant
            i <= n,
            n == turns@.len(),
            messages_view(out@) =~= payload_of(turns_view(turns@.subrange(0, i as int))),
        decreases n - i,
    {
        let t = &turns[i];
        let m = ProviderMessage { role: role_label_text(t.role), content: t.content.clone() };
        out.push(m);
        proof {
            assert(turns_view(turns@.subrange(0, i + 1 as int)) =~= turns_view(
                turns@.subrange(0, i as int),
            ).push(turns@[i as int]@));
            assert(messages_view(out@) =~= payload_of(
                turns_view(turns@.subrange(0, i as int)),
            ).push(message_of(turns@[i as int]@)));
            assert(payload_of(turns_view(turns@.subrange(0, i as int)).push(turns@[i as int]@))
                =~= payload_of(turns_view(turns@.subrange(0, i as int))).push(
                message_of(turns@[i as int]@),
            ));
        }
        i = i + 1;
    }
    proof {
        assert(turns@.subrange(0, n as int) =~= turns@);
    }
    out
}

/// The body sent to the provider's chat-completion endpoint: a model
/// identifier and the ordered message list.
#[derive(Debug)]
pub struct ProviderRequest {
    pub model: String,
    pub messages: Vec<ProviderMessage>,
}

/// Assembles the outgoing request body for a history.
pub fn build_provider_request(model: String, turns: &Vec<Turn>) -> (r: ProviderRequest)
    ensures
        r.model@ == model@,
        messages_view(r.messages@) == payload_of(turns_view(turns@)),
{
    let messages = to_messages(turns);
    ProviderRequest { model, messages }
}

#[verifier::external_type_specification]
#[verifier::external_body]
pub struct ExValue(serde_json::Value);

/// The reply field of a provider response body: the text at
/// `choices[0].message.content`, or nothing when any step of that path
/// is missing or the leaf is not a string.  A body is opaque here, so
/// the field gets a name; [`reply_field`] ties the navigation's result
/// to it.
pub uninterp spec fn reply_field_of(v: serde_json::Value) -> Option<Seq<char>>;

/// Relies on `serde_json::Value::get` (by string key on objects, by
/// index on arrays, `None` on a missing member or any other shape) and
/// `Value::as_str` (`Some` of the text only for a JSON string): the
/// navigation to `choices[0].message.content`, yielding its text when
/// every step is present and the leaf is a string, nothing otherwise.
#[verifier::external_body]
fn reply_field(body: &serde_json::Value) -> (r: Option<String>)
    ensures
        match r {
            Some(s) => reply_field_of(*body) == Some(s@),
            None => reply_field_of(*body) is None,
        },
{
    body.get("choices")
        .and_then(|c| c.get(0))
        .and_then(|m| m.get("message"))
        .and_then(|m| m.get("content"))
        .and_then(|v| v.as_str())
        .map(|s| s.to_owned())
}

/// The reply a present-or-absent reply field stands for: the text when
/// present, the empty string when the field is missing or not text.
pub open spec fn reply_of_field(field: Option<Seq<char>>) -> Seq<char> {
    match field {
        Some(s) => s,
        None => Seq::<char>::empty(),
    }
}

/// Substitutes the empty string for an absent reply field.
pub fn reply_or_empty(field: Option<String>) -> (r: String)
    ensures
        r@ == reply_of_field(match field {
            Some(s) => Some(s@),
            None => None,
        }),
{
    match field {
        Some(s) => s,
        None => String::new(),
    }
}

/// Reads the reply text out of a provider response body: the string at
/// `choices[0].message.content`, or the empty string when any step of
/// that path is missing or of the wrong shape.  The trusted navigation
/// hands back the plain reply field and [`reply_or_empty`] decides the
/// substitution.
pub fn extract_reply(body: &serde_json::Value) -> (r: String)
    ensures
        r@ == reply_of_field(reply_field_of(*body)),
{
    reply_or_empty(reply_field(body))
}

} // verus!
