//! The conversation orchestrator: the turn-taking step.
//!
//! One inbound request is handled in three decided stages — load the
//! key's history, extend it with the new user turn under the seed
//! policy, fold the provider's outcome back in — and the failure
//! policy is fixed: a provider failure yields the sentinel reply and
//! leaves the store untouched, so stored history stays strictly
//! request/response-paired.

use vstd::prelude::*;
use crate::provider::{ProviderError, message_of, payload_of};
use crate::store::{RecordView, StoreState, decode_turns, encode_all, encode_turns, key_count,
    lemma_encode_decode, lemma_has_key_count_pos, lemma_upsert_reads_back, lemma_upsert_wf,
    lemma_wf_count_le_one, loaded_turns, upsert_recs, wf_records};
use crate::turn::{Role, Turn, TurnView, role_label, turns_view};

verus! {

/// One inbound call: the conversation key, the message, and a seed
/// prompt used only when the key has no history yet.
#[derive(Debug)]
pub struct ChatRequest {
    pub user_id: String,
    pub context_id: String,
    pub message: String,
    pub prompt: String,
}

/// The answer to one call: the key echoed, and the reply text.
#[derive(Debug)]
pub struct ChatResponse {
    pub user_id: String,
    pub context_id: String,
    pub reply: String,
}

/// What a successful step persists: the full turn sequence, and
/// whether the key had no document before the call (insert) or one to
/// replace (update).
#[derive(Debug)]
pub struct SaveCommand {
    pub turns: Vec<Turn>,
    pub is_new: bool,
}

/// The reply and what, if anything, is to be persisted.
#[derive(Debug)]
pub struct StepResult {
    pub reply: String,
    pub save: Option<SaveCommand>,
}

/// The fixed reply handed out when the provider call fails.
pub open spec fn sentinel_reply() -> Seq<char> {
    "Error calling ChatGPT API"@
}

/// The sentinel as a value.
pub fn sentinel_text() -> (s: String)
    ensures
        s@ == sentinel_reply(),
{
    "Error calling ChatGPT API".to_owned()
}

/// The content of the very first turn of a conversation: the seed
/// prompt when one is supplied, the message otherwise.
pub open spec fn seed_content(message: Seq<char>, prompt: Seq<char>) -> Seq<char> {
    if prompt.len() > 0 {
        prompt
    } else {
        message
    }
}

/// The content of the user turn a request appends: the seed policy on
/// an empty history, the literal message on a continuing one.
pub open spec fn new_user_content(prior: Seq<TurnView>, message: Seq<char>, prompt: Seq<char>) -> Seq<char> {
    if prior.len() == 0 {
        seed_content(message, prompt)
    } else {
        message
    }
}

/// The working history sent to the provider: the prior turns plus the
/// new user turn.
pub open spec fn working_of(prior: Seq<TurnView>, message: Seq<char>, prompt: Seq<char>) -> Seq<TurnView> {
    prior.push(TurnView { role: Role::User, content: new_user_content(prior, message, prompt) })
}

/// The history a successful step persists: the working history plus
/// the assistant's reply.
pub open spec fn final_turns(prior: Seq<TurnView>, message: Seq<char>, prompt: Seq<char>, reply: Seq<char>) -> Seq<TurnView> {
    working_of(prior, message, prompt).push(TurnView { role: Role::Assistant, content: reply })
}

/// The record a successful step saves for the key at time `now`.
pub open spec fn record_after_success(recs: Seq<RecordView>, user_id: Seq<char>, context_id: Seq<char>, message: Seq<char>, prompt: Seq<char>, reply: Seq<char>, now: int) -> RecordView {
    RecordView {
        user_id: user_id,
        context_id: context_id,
        turns: encode_all(
            final_turns(loaded_turns(recs, user_id, context_id), message, prompt, reply),
            now,
        ),
        last_updated: now,
    }
}

/// The whole collection after a successful step.
pub open spec fn store_after_success(recs: Seq<RecordView>, user_id: Seq<char>, context_id: Seq<char>, message: Seq<char>, prompt: Seq<char>, reply: Seq<char>, now: int) -> Seq<RecordView> {
    upsert_recs(recs, record_after_success(recs, user_id, context_id, message, prompt, reply, now))
}

/// Appends the request's user turn to the loaded history and reports
/// whether the conversation is new (no prior turns).
pub fn build_working(prior: Vec<Turn>, message: &String, prompt: &String) -> (r: (Vec<Turn>, bool))
    ensures
        r.1 == (prior@.len() == 0),
        turns_view(r.0@) == working_of(turns_view(prior@), message@, prompt@),
{
    let is_new = prior.len() == 0;
    let content = if is_new {
        if prompt.as_str().is_empty() {
            message.clone()
        } else {
            prompt.clone()
        }
    } else {
        message.clone()
    };
    let mut working = prior;
    let ghost w0 = working@;
    working.push(Turn { role: Role::User, content });
    proof {
        assert(turns_view(working@) =~= working_of(turns_view(w0), message@, prompt@));
    }
    (working, is_new)
}

/// Folds the provider's outcome into the step: on success the reply is
/// the provider's text and the working history, extended with the
/// assistant turn, is to be saved; on failure the reply is the
/// sentinel and nothing is to be saved.
pub fn conclude(working: Vec<Turn>, is_new: bool, outcome: Result<String, ProviderError>) -> (r: StepResult)
    ensures
        match outcome {
            Ok(text) => r.reply@ == text@ && (r.save matches Some(cmd) && cmd.is_new == is_new
                && turns_view(cmd.turns@) == turns_view(working@).push(
                (TurnView { role: Role::Assistant, content: text@ }),
            )),
            Err(_) => r.reply@ == sentinel_reply() && r.save is None,
        },
{
    match outcome {
        Ok(text) => {
            let mut turns = working;
            let ghost w0 = turns@;
            turns.push(Turn { role: Role::Assistant, content: text.clone() });
            proof {
                assert(turns_view(turns@) =~= turns_view(w0).push(
                    TurnView { role: Role::Assistant, content: text@ },
                ));
            }
            StepResult { reply: text, save: Some(SaveCommand { turns, is_new }) }
        },
        Err(_) => StepResult { reply: sentinel_text(), save: None },
    }
}

/// Handles one request against the store model: loads the key's
/// history (tolerantly: a missing or malformed document reads as an
/// empty one), extends it, folds in the provider's outcome, and
/// persists exactly on success.  The response always echoes the key;
/// no failure escapes as an error.
pub fn handle(store: &mut StoreState, req: &ChatRequest, outcome: Result<String, ProviderError>, now: i64) -> (resp: ChatResponse)
    requires
        old(store).wf(),
    ensures
        final(store).wf(),
        resp.user_id@ == req.user_id@,
        resp.context_id@ == req.context_id@,
        match outcome {
            Ok(text) => resp.reply@ == text@ && final(store)@ == store_after_success(
                old(store)@,
                req.user_id@,
                req.context_id@,
                req.message@,
                req.prompt@,
                text@,
                now as int,
            ),
            Err(_) => resp.reply@ == sentinel_reply() && final(store)@ == old(store)@,
        },
{
    let prior: Vec<Turn> = match store.stored_turns(&req.user_id, &req.context_id) {
        Some(sts) => match decode_turns(sts) {
            Some(ts) => ts,
            None => Vec::new(),
        },
        None => Vec::new(),
    };
    proof {
        assert(turns_view(Seq::<Turn>::empty()) =~= Seq::<TurnView>::empty());
        assert(turns_view(prior@) == loaded_turns(old(store)@, req.user_id@, req.context_id@));
    }
    let (working, is_new) = build_working(prior, &req.message, &req.prompt);
    let step = conclude(working, is_new, outcome);
    match step.save {
        Some(cmd) => {
            let encoded = encode_turns(&cmd.turns, now);
            store.save(req.user_id.clone(), req.context_id.clone(), encoded, now);
        },
        None => {},
    }
    ChatResponse {
        user_id: req.user_id.clone(),
        context_id: req.context_id.clone(),
        reply: step.reply,
    }
}

/// On an empty history the outgoing payload is a single user message
/// whose content is the seed prompt when one is supplied, the caller's
/// message otherwise.
pub proof fn lemma_payload_new_conversation(prior: Seq<TurnView>, message: Seq<char>, prompt: Seq<char>)
    requires
        prior.len() == 0,
    ensures
        payload_of(working_of(prior, message, prompt)).len() == 1,
        payload_of(working_of(prior, message, prompt))[0].role == role_label(Role::User),
        payload_of(working_of(prior, message, prompt))[0].content == seed_content(message, prompt),
{
}

/// On a history of N prior turns the outgoing payload holds N + 1
/// messages: the stored turns in stored order, then a user message.
/// The last message is the caller's literal message on every input but
/// a brand-new conversation with a seed prompt, where the seed policy
/// replaces it.
pub proof fn lemma_payload_continuation(prior: Seq<TurnView>, message: Seq<char>, prompt: Seq<char>)
    requires
        prior.len() > 0 || prompt.len() == 0,
    ensures
        payload_of(working_of(prior, message, prompt)).len() == prior.len() + 1,
        payload_of(working_of(prior, message, prompt))[prior.len() as int].role == role_label(
            Role::User,
        ),
        payload_of(working_of(prior, message, prompt))[prior.len() as int].content == message,
        forall|i: int|
            0 <= i < prior.len() ==> payload_of(working_of(prior, message, prompt))[i]
                == message_of(#[trigger] prior[i]),
{
}

/// On provider success the persisted turn sequence is the prior turns,
/// then the new user turn, then the assistant turn, in that order, and
/// it reads back exactly so.
pub proof fn lemma_success_persists_paired(recs: Seq<RecordView>, user_id: Seq<char>, context_id: Seq<char>, message: Seq<char>, prompt: Seq<char>, reply: Seq<char>, now: int)
    requires
        wf_records(recs),
    ensures
        wf_records(store_after_success(recs, user_id, context_id, message, prompt, reply, now)),
        loaded_turns(
            store_after_success(recs, user_id, context_id, message, prompt, reply, now),
            user_id,
            context_id,
        ) == loaded_turns(recs, user_id, context_id).push(
            (TurnView {
                role: Role::User,
                content: new_user_content(
                    loaded_turns(recs, user_id, context_id),
                    message,
                    prompt,
                ),
            }),
        ).push((TurnView { role: Role::Assistant, content: reply })),
{
    let prior = loaded_turns(recs, user_id, context_id);
    let rec = record_after_success(recs, user_id, context_id, message, prompt, reply, now);
    lemma_upsert_wf(recs, rec);
    lemma_upsert_reads_back(recs, rec);
    lemma_encode_decode(final_turns(prior, message, prompt, reply), now);
}

/// Replaying an identical request against an unchanged store with the
/// same provider reply yields the same loaded history and the same
/// persisted state: the step's outcome is a function of the store
/// contents, the request and the provider's reply alone.
pub proof fn lemma_replay_identical(recs1: Seq<RecordView>, recs2: Seq<RecordView>, user_id: Seq<char>, context_id: Seq<char>, message: Seq<char>, prompt: Seq<char>, reply: Seq<char>, now: int)
    requires
        recs1 == recs2,
    ensures
        loaded_turns(recs1, user_id, context_id) == loaded_turns(recs2, user_id, context_id),
        store_after_success(recs1, user_id, context_id, message, prompt, reply, now)
            == store_after_success(recs2, user_id, context_id, message, prompt, reply, now),
{
}

/// A successful call against a key with no loaded turns leaves exactly
/// one document for that key: the insert path does not duplicate.
pub proof fn lemma_insert_single_document(recs: Seq<RecordView>, user_id: Seq<char>, context_id: Seq<char>, message: Seq<char>, prompt: Seq<char>, reply: Seq<char>, now: int)
    requires
        wf_records(recs),
        loaded_turns(recs, user_id, context_id).len() == 0,
    ensures
        key_count(
            store_after_success(recs, user_id, context_id, message, prompt, reply, now),
            user_id,
            context_id,
        ) == 1,
{
    let rec = record_after_success(recs, user_id, context_id, message, prompt, reply, now);
    let after = store_after_success(recs, user_id, context_id, message, prompt, reply, now);
    lemma_upsert_wf(recs, rec);
    lemma_upsert_reads_back(recs, rec);
    lemma_has_key_count_pos(after, user_id, context_id);
    lemma_wf_count_le_one(after, user_id, context_id);
}

} // verus!
