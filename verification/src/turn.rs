//! Turns: the unit of conversation history.

use vstd::prelude::*;

verus! {

/// Who produced a turn.
#[derive(Clone, Copy, Debug, PartialEq, Eq, Structural)]
pub enum Role {
    User,
    Assistant,
}

/// One message of a conversation.
#[derive(Debug)]
pub struct Turn {
    pub role: Role,
    pub content: String,
}

/// Mathematical model of a [`Turn`].
pub struct TurnView {
    pub role: Role,
    pub content: Seq<char>,
}

impl View for Turn {
    type V = TurnView;

    open spec fn view(&self) -> TurnView {
        TurnView { role: self.role, content: self.content@ }
    }
}

impl Clone for Turn {
    fn clone(&self) -> (r: Self)
        ensures
            r@ == self@,
    {
        Turn { role: self.role, content: self.content.clone() }
    }
}

/// The model of a whole history: each turn replaced by its view.
pub open spec fn turns_view(ts: Seq<Turn>) -> Seq<TurnView> {
    ts.map_values(|t: Turn| t@)
}

/// The wire label of a role, as both the stored documents and the
/// provider payload spell it.
pub open spec fn role_label(r: Role) -> Seq<char> {
    match r {
        Role::User => "user"@,
        Role::Assistant => "assistant"@,
    }
}

/// The label under which a role is recorded and sent.
pub fn role_label_text(r: Role) -> (s: String)
    ensures
        s@ == role_label(r),
{
    match r {
        Role::User => "user".to_owned(),
        Role::Assistant => "assistant".to_owned(),
    }
}

/// The role a stored label stands for, if it is a known one.
pub open spec fn decode_role(s: Seq<char>) -> Option<Role> {
    if s == role_label(Role::User) {
        Some(Role::User)
    } else if s == role_label(Role::Assistant) {
        Some(Role::Assistant)
    } else {
        None
    }
}

/// Reads a stored role label back into a [`Role`].
pub fn parse_role(s: &String) -> (r: Option<Role>)
    ensures
        r == decode_role(s@),
{
    let user = "user".to_owned();
    if *s == user {
        return Some(Role::User);
    }
    let assistant = "assistant".to_owned();
    if *s == assistant {
        return Some(Role::Assistant);
    }
    None
}

/// The two role labels differ, so decoding a label is unambiguous.
pub proof fn lemma_role_label_decodes(r: Role)
    ensures
        decode_role(role_label(r)) == Some(r),
{
    reveal_strlit("user");
    reveal_strlit("assistant");
    assert(role_label(Role::User).len() == 4);
    assert(role_label(Role::Assistant).len() == 9);
}

} // verus!
