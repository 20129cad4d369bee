//! Conversation state: a [`Session`] is an ordered list of [`Turn`]s, and the wire messages
//! the protocol surfaces receive become one.
use vstd::prelude::*;
use crate::event::Role;
use crate::ids::{uuid_string, uuid_text};
use crate::text::str_eq;

verus! {

/// A single message in a conversation.
#[derive(Debug, Clone)]
pub struct Turn {
    pub role: Role,
    pub content: String,
}

impl Turn {
    pub fn new(role: Role, content: &str) -> (t: Self)
        ensures
            t.role == role,
            t.content@ == content@,
    {
        Turn { role, content: String::from_str(content) }
    }
}

/// A conversation: a stable id plus the turns so far.
#[derive(Debug, Clone)]
pub struct Session {
    pub id: u128,
    /// Stable identity of the person across conversations; `None` for an anonymous session,
    /// whose memory is then scoped to this conversation alone.
    pub user_id: Option<u128>,
    pub turns: Vec<Turn>,
}

/// The role and text of each turn.
pub open spec fn turn_views(turns: Seq<Turn>) -> Seq<(Role, Seq<char>)> {
    turns.map_values(|t: Turn| (t.role, t.content@))
}

/// The key every memory read and write of the session is filtered by: the user id when
/// known, else the conversation id.
pub open spec fn memory_key(s: Session) -> u128 {
    match s.user_id {
        Some(u) => u,
        None => s.id,
    }
}

impl Session {
    /// A fresh anonymous session with the given id and no turns.
    pub fn new(id: u128) -> (s: Self)
        ensures
            s.id == id,
            s.user_id is None,
            s.turns@.len() == 0,
    {
        Session { id, user_id: None, turns: Vec::new() }
    }

    /// Attach a stable user identity so memory persists across this person's sessions.
    pub fn with_user(self, user_id: u128) -> (s: Self)
        ensures
            s.id == self.id,
            s.user_id == Some(user_id),
            s.turns@ == self.turns@,
    {
        let mut s = self;
        s.user_id = Some(user_id);
        s
    }

    /// The episodic-memory scope: the user id if known, else the conversation id, rendered
    /// as a hyphenated UUID.
    pub fn memory_scope(&self) -> (r: String)
        ensures
            r@ == uuid_text(memory_key(*self)),
    {
        match self.user_id {
            Some(u) => uuid_string(u),
            None => uuid_string(self.id),
        }
    }

    /// Append a turn, returning the extended session.
    pub fn with_turn(self, turn: Turn) -> (s: Self)
        ensures
            s.id == self.id,
            s.user_id == self.user_id,
            s.turns@ == self.turns@.push(turn),
    {
        let mut s = self;
        s.turns.push(turn);
        s
    }
}

/// A role/content message, the lowest common denominator of the protocol inputs.
#[derive(Debug, Clone)]
pub struct WireMessage {
    pub role: String,
    pub content: String,
}

/// The turn a wire message becomes: `user` and `assistant` carry in; every other role
/// (system, tool, unknown) is dropped.
pub open spec fn wire_role(role: Seq<char>) -> Option<Role> {
    if role == "user"@ {
        Some(Role::User)
    } else if role == "assistant"@ {
        Some(Role::Assistant)
    } else {
        None
    }
}

/// The turns the messages carry in, in order.
pub open spec fn carried_turns(messages: Seq<WireMessage>) -> Seq<(Role, Seq<char>)>
    decreases messages.len(),
{
    if messages.len() == 0 {
        Seq::empty()
    } else {
        let rest = carried_turns(messages.drop_last());
        match wire_role(messages.last().role@) {
            Some(r) => rest.push((r, messages.last().content@)),
            None => rest,
        }
    }
}

/// Whether some message is from the user.
pub open spec fn has_user_message(messages: Seq<WireMessage>) -> bool {
    exists|i: int| 0 <= i < messages.len() && messages[i].role@ == "user"@
}

/// Build a session with id `id` from wire messages. System and tool messages are dropped:
/// the twin owns its fixed system contract. `None` when no user message is present.
pub fn session_from_messages(messages: &[WireMessage], id: u128) -> (r: Option<Session>)
    ensures
        r is Some <==> has_user_message(messages@),
        r matches Some(s) ==> s.id == id && s.user_id is None && turn_views(s.turns@)
            == carried_turns(messages@),
{
    let mut session = Session::new(id);
    let mut saw_user = false;
    let mut i: usize = 0;
    while i < messages.len()
        invariant
            0 <= i <= messages@.len(),
            session.id == id,
            session.user_id is None,
            turn_views(session.turns@) == carried_turns(messages@.take(i as int)),
            saw_user == has_user_message(messages@.take(i as int)),
        decreases messages.len() - i,
    {
        proof {
            assert(messages@.take(i + 1).drop_last() =~= messages@.take(i as int));
            assert(messages@.take(i + 1).last() == messages@[i as int]);
        }
        let m = &messages[i];
        let ghost before = session.turns@;
        if str_eq(m.role.as_str(), "user") {
            saw_user = true;
            session = session.with_turn(Turn::new(Role::User, m.content.as_str()));
            proof {
                assert(turn_views(session.turns@) =~= turn_views(before).push((Role::User, m.content@)));
            }
        } else if str_eq(m.role.as_str(), "assistant") {
            session = session.with_turn(Turn::new(Role::Assistant, m.content.as_str()));
            proof {
                assert(turn_views(session.turns@) =~= turn_views(before).push((Role::Assistant, m.content@)));
            }
        }
        proof {
            let t = messages@.take(i + 1);
            if has_user_message(t) && !has_user_message(messages@.take(i as int)) {
                let k = choose|k: int| 0 <= k < t.len() && t[k].role@ == "user"@;
                if k < i {
                    assert(messages@.take(i as int)[k] == t[k]);
                }
            }
            if has_user_message(messages@.take(i as int)) {
                let k = choose|k: int| 0 <= k < i && messages@.take(i as int)[k].role@ == "user"@;
                assert(t[k] == messages@.take(i as int)[k]);
            }
            if m.role@ == "user"@ {
                assert(t[i as int] == *m);
            }
        }
        i = i + 1;
    }
    proof {
        assert(messages@.take(messages@.len() as int) =~= messages@);
    }
    if saw_user {
        Some(session)
    } else {
        None
    }
}

} // verus!
