//! Verified core of a turn-taking chat service.
//!
//! A conversation is an ordered sequence of turns keyed by a
//! `(user_id, context_id)` pair.  The library decides how an incoming
//! message extends the stored history, how the accumulated history is
//! laid out as a completion-provider payload, how the provider's
//! outcome is folded back into the history, and how the updated
//! history is recorded.  The surrounding process performs the actual
//! document-store and network calls and feeds their results to the
//! functions here.

pub mod my_chat;
pub mod orchestrator;
pub mod provider;
pub mod store;
pub mod turn;
