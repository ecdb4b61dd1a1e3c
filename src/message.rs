//! Messages, their roles, and the roles' names on the wire.

use vstd::prelude::*;
use vstd::string::*;

verus! {

/// Who wrote a message.
#[derive(PartialEq, Eq, Structural, Clone, Copy, Debug)]
pub enum Role {
    User,
    Assistant,
}

/// The name of a role in the JSON exchanged with the service.
pub open spec fn role_wire_name(r: Role) -> Seq<char> {
    match r {
        Role::User => "user"@,
        Role::Assistant => "assistant"@,
    }
}

/// The role a wire name stands for, if any.
pub open spec fn role_from_wire_name(s: Seq<char>) -> Option<Role> {
    if s == "user"@ {
        Some(Role::User)
    } else if s == "assistant"@ {
        Some(Role::Assistant)
    } else {
        None
    }
}

/// Whether two character sequences are equal, compared one character at a time.
pub fn same_text(a: &str, b: &str) -> (r: bool)
    ensures
        r == (a@ == b@),
{
    let n = a.unicode_len();
    if n != b.unicode_len() {
        return false;
    }
    let mut i: usize = 0;
    while i < n
        invariant
            n == a@.len(),
            n == b@.len(),
            i <= n,
            a@.subrange(0, i as int) == b@.subrange(0, i as int),
        decreases n - i,
    {
        if a.get_char(i) != b.get_char(i) {
            return false;
        }
        assert(a@.subrange(0, i + 1) == a@.subrange(0, i as int).push(a@[i as int]));
        assert(b@.subrange(0, i + 1) == b@.subrange(0, i as int).push(b@[i as int]));
        i = i + 1;
    }
    assert(a@ == a@.subrange(0, n as int));
    assert(b@ == b@.subrange(0, n as int));
    true
}

impl Role {
    /// The name of this role on the wire: `user` or `assistant`.
    pub fn wire_name(&self) -> (r: &'static str)
        ensures
            r@ == role_wire_name(*self),
    {
        match self {
            Role::User => "user",
            Role::Assistant => "assistant",
        }
    }

    /// The role a wire name stands for; `None` for any other text.
    pub fn from_wire_name(s: &str) -> (r: Option<Role>)
        ensures
            r == role_from_wire_name(s@),
    {
        if same_text(s, "user") {
            Some(Role::User)
        } else if same_text(s, "assistant") {
            Some(Role::Assistant)
        } else {
            None
        }
    }
}

/// What a message is, as mathematical values.
pub ghost struct MessageView {
    pub id: Seq<char>,
    pub role: Role,
    pub content: Seq<char>,
}

/// One turn of the conversation.
///
/// A user message carries an identifier made on this machine; an assistant
/// message carries the identifier that the service gave the response.
#[derive(Clone, Debug)]
pub struct Message {
    pub id: String,
    pub role: Role,
    pub content: String,
}

impl View for Message {
    type V = MessageView;

    open spec fn view(&self) -> MessageView {
        MessageView { id: self.id@, role: self.role, content: self.content@ }
    }
}

/// A message as it is sent to the service: its role and its text, never its identifier.
#[derive(Clone, Debug)]
pub struct WireMessage {
    pub role: Role,
    pub content: String,
}

} // verus!
