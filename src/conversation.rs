//! The conversation: an ordered list of messages, and the assembler that folds
//! streamed deltas into it.

use vstd::prelude::*;
use vstd::string::*;

use crate::decode::{fragment, text_of, Delta, DeltaView};
use crate::message::{same_text, Message, MessageView, Role, WireMessage};

verus! {

/// What a conversation is, as mathematical values.
///
/// `open` says that the last message is an assistant response that may still grow.
pub ghost struct ConversationView {
    pub messages: Seq<MessageView>,
    pub open: bool,
}

/// A conversation is well formed when an open turn has a message to grow.
pub open spec fn conversation_wf(c: ConversationView) -> bool {
    c.open ==> c.messages.len() > 0
}

/// Whether a delta for response `id` grows the last message of `c`: the turn
/// is open and the last message belongs to that response.
pub open spec fn continues_turn(c: ConversationView, id: Seq<char>) -> bool {
    c.open && c.messages.len() > 0 && c.messages.last().id == id
}

/// The message that a delta opens.
pub open spec fn opened_by(d: DeltaView) -> MessageView {
    MessageView {
        id: d.turn_id,
        role: match d.role {
            Some(r) => r,
            None => Role::Assistant,
        },
        content: fragment(d),
    }
}

/// The conversation after one delta: the open message of the same response
/// gets the delta's text appended, or else a new message is appended; either
/// way the last message is open afterwards.
pub open spec fn after_delta(c: ConversationView, d: DeltaView) -> ConversationView {
    if continues_turn(c, d.turn_id) {
        let last = c.messages.last();
        ConversationView {
            messages: c.messages.drop_last().push(
                MessageView { id: last.id, role: last.role, content: last.content + fragment(d) },
            ),
            open: true,
        }
    } else {
        ConversationView { messages: c.messages.push(opened_by(d)), open: true }
    }
}

/// The conversation after a sequence of deltas, applied in order.
pub open spec fn after_deltas(c: ConversationView, ds: Seq<DeltaView>) -> ConversationView
    decreases ds.len(),
{
    if ds.len() == 0 {
        c
    } else {
        after_delta(after_deltas(c, ds.drop_last()), ds.last())
    }
}

/// How many messages of `c` can no longer change: all of them, or all but an
/// open last one.
pub open spec fn settled_count(c: ConversationView) -> int {
    if c.open {
        c.messages.len() - 1
    } else {
        c.messages.len() as int
    }
}

/// Deltas that all belong to one response are merged into one message, whose
/// text is theirs joined in order of arrival: the message that the first delta
/// opens, or the open message of that response that they continue.
pub proof fn lemma_one_turn_merges(c: ConversationView, ds: Seq<DeltaView>)
    requires
        conversation_wf(c),
        ds.len() > 0,
        forall|i: int| 0 <= i < ds.len() ==> #[trigger] ds[i].turn_id == ds[0].turn_id,
    ensures
        ({
            let r = after_deltas(c, ds);
            &&& r.open
            &&& if continues_turn(c, ds[0].turn_id) {
                &&& r.messages.len() == c.messages.len()
                &&& r.messages.drop_last() == c.messages.drop_last()
                &&& r.messages.last() == MessageView {
                    id: c.messages.last().id,
                    role: c.messages.last().role,
                    content: c.messages.last().content + text_of(ds),
                }
            } else {
                &&& r.messages.len() == c.messages.len() + 1
                &&& r.messages.drop_last() == c.messages
                &&& r.messages.last() == MessageView {
                    id: ds[0].turn_id,
                    role: opened_by(ds[0]).role,
                    content: text_of(ds),
                }
            }
        }),
    decreases ds.len(),
{
    let last = ds.last();
    let rest = ds.drop_last();
    if ds.len() == 1 {
        assert(rest.len() == 0);
        assert(text_of(ds) == text_of(rest) + fragment(last));
        assert(text_of(rest) == Seq::<char>::empty());
        assert(text_of(ds) == fragment(ds[0]));
    } else {
        assert forall|i: int| 0 <= i < rest.len() implies #[trigger] rest[i].turn_id == rest[0].turn_id by {
            assert(rest[i] == ds[i]);
            assert(rest[0] == ds[0]);
        }
        lemma_one_turn_merges(c, rest);
        assert(last.turn_id == ds[0].turn_id);
        assert(rest[0] == ds[0]);
        let before = after_deltas(c, rest);
        assert(continues_turn(before, last.turn_id));
        assert(text_of(ds) == text_of(rest) + fragment(last));
        if continues_turn(c, ds[0].turn_id) {
            assert(after_deltas(c, ds).messages.drop_last() == before.messages.drop_last());
            assert(c.messages.last().content + text_of(rest) + fragment(last)
                == c.messages.last().content + text_of(ds));
        } else {
            assert(after_deltas(c, ds).messages.drop_last() == before.messages.drop_last());
        }
    }
}

/// Applying deltas in two runs gives what applying them in one run gives, so
/// how the stream was cut into chunks does not change the conversation.
pub proof fn lemma_deltas_compose(c: ConversationView, a: Seq<DeltaView>, b: Seq<DeltaView>)
    ensures
        after_deltas(after_deltas(c, a), b) == after_deltas(c, a + b),
    decreases b.len(),
{
    if b.len() == 0 {
        assert(a + b == a);
    } else {
        lemma_deltas_compose(c, a, b.drop_last());
        assert((a + b).drop_last() == a + b.drop_last());
        assert((a + b).last() == b.last());
    }
}

/// A delta of a response that is not the open one never changes a message:
/// it appends a new one, opened by that delta.
pub proof fn lemma_new_turn_appends(c: ConversationView, d: DeltaView)
    requires
        !continues_turn(c, d.turn_id),
    ensures
        after_delta(c, d).messages == c.messages.push(opened_by(d)),
        after_delta(c, d).messages.drop_last() == c.messages,
        settled_count(after_delta(c, d)) == c.messages.len(),
{
    assert(c.messages.push(opened_by(d)).drop_last() == c.messages);
}

/// Messages that are closed stay as they are, whatever deltas come later: of
/// those, a closed conversation keeps all of its messages, and an open one all
/// but the last.
pub proof fn lemma_closed_messages_kept(c: ConversationView, ds: Seq<DeltaView>)
    requires
        conversation_wf(c),
    ensures
        conversation_wf(after_deltas(c, ds)),
        settled_count(c) <= settled_count(after_deltas(c, ds)),
        after_deltas(c, ds).messages.take(settled_count(c)) == c.messages.take(settled_count(c)),
    decreases ds.len(),
{
    if ds.len() > 0 {
        lemma_closed_messages_kept(c, ds.drop_last());
        let x = after_deltas(c, ds.drop_last());
        let y = after_delta(x, ds.last());
        let k = settled_count(c);
        assert(y.messages.take(settled_count(x)) == x.messages.take(settled_count(x)));
        assert(y.messages.take(k) == y.messages.take(settled_count(x)).take(k));
        assert(x.messages.take(k) == x.messages.take(settled_count(x)).take(k));
    }
}

/// A name made for a message that the user writes.
pub open spec fn is_local_id(id: Seq<char>) -> bool {
    id.len() > 0 && 'a' <= id[0] && id[0] <= 'z'
}

/// Relies on `cuid2::create_id`: a fresh random identifier, whose first
/// character is a lower-case ASCII letter.
#[verifier::external_body]
fn new_message_id() -> (r: String)
    ensures
        is_local_id(r@),
{
    cuid2::create_id()
}

/// The messages exchanged so far, oldest first.
pub struct Conversation {
    messages: Vec<Message>,
    open: bool,
}

impl View for Conversation {
    type V = ConversationView;

    closed spec fn view(&self) -> ConversationView {
        ConversationView { messages: self.messages@.map_values(|m: Message| m@), open: self.open }
    }
}

impl Conversation {
    /// An empty conversation.
    pub fn new() -> (r: Conversation)
        ensures
            r@.messages.len() == 0,
            !r@.open,
    {
        let r = Conversation { messages: Vec::new(), open: false };
        assert(r@.messages =~= Seq::<MessageView>::empty());
        r
    }

    /// The number of messages.
    pub fn len(&self) -> (r: usize)
        ensures
            r == self@.messages.len(),
    {
        self.messages.len()
    }

    /// Whether the conversation holds no message.
    pub fn is_empty(&self) -> (r: bool)
        ensures
            r == (self@.messages.len() == 0),
    {
        self.messages.len() == 0
    }

    /// Whether the last message is a response that may still grow.
    pub fn is_open(&self) -> (r: bool)
        ensures
            r == self@.open,
    {
        self.open
    }

    /// The message at position `i`.
    pub fn message(&self, i: usize) -> (r: &Message)
        requires
            i < self@.messages.len(),
        ensures
            r@ == self@.messages[i as int],
    {
        &self.messages[i]
    }

    /// The last message, if there is one.
    pub fn last(&self) -> (r: Option<&Message>)
        ensures
            match r {
                Some(m) => self@.messages.len() > 0 && m@ == self@.messages.last(),
                None => self@.messages.len() == 0,
            },
    {
        if self.messages.len() == 0 {
            None
        } else {
            Some(&self.messages[self.messages.len() - 1])
        }
    }

    /// Forgets every message.
    pub fn reset(&mut self)
        ensures
            final(self)@.messages.len() == 0,
            !final(self)@.open,
    {
        self.messages.clear();
        self.open = false;
        assert(self@.messages =~= Seq::<MessageView>::empty());
    }

    /// Closes the open response, if any: a later delta opens a new message,
    /// whatever response it names.
    pub fn close_turn(&mut self)
        ensures
            final(self)@.messages == old(self)@.messages,
            !final(self)@.open,
    {
        self.open = false;
    }

    /// Appends a message that the user wrote, under a fresh identifier, and
    /// closes the open response.
    pub fn submit_user(&mut self, text: String)
        ensures
            final(self)@.messages.len() == old(self)@.messages.len() + 1,
            final(self)@.messages.drop_last() == old(self)@.messages,
            final(self)@.messages.last().role == Role::User,
            final(self)@.messages.last().content == text@,
            is_local_id(final(self)@.messages.last().id),
            !final(self)@.open,
    {
        let id = new_message_id();
        let m = Message { id, role: Role::User, content: text };
        self.messages.push(m);
        self.open = false;
        assert(self@.messages.drop_last() =~= old(self)@.messages);
    }

    /// Folds one delta into the conversation (see [`after_delta`]) and returns
    /// the text it adds, to be shown at once.
    pub fn apply_delta(&mut self, d: Delta) -> (shown: String)
        ensures
            final(self)@ == after_delta(old(self)@, d@),
            conversation_wf(final(self)@),
            shown@ == fragment(d@),
    {
        let shown = match &d.content {
            Some(c) => c.clone(),
            None => String::new(),
        };
        let n = self.messages.len();
        let continues = self.open && n > 0 && same_text(self.messages[n - 1].id.as_str(), d.turn_id.as_str());
        if continues {
            let mut last = self.messages.pop().unwrap();
            last.content.append(shown.as_str());
            self.messages.push(last);
            assert(self@.messages =~= after_delta(old(self)@, d@).messages);
        } else {
            let role = match d.role {
                Some(r) => r,
                None => Role::Assistant,
            };
            let content = shown.clone();
            self.messages.push(Message { id: d.turn_id, role, content });
            assert(self@.messages =~= after_delta(old(self)@, d@).messages);
        }
        self.open = true;
        shown
    }

    /// The messages as they are sent to the service: role and text, in order,
    /// without identifiers.
    pub fn wire_messages(&self) -> (r: Vec<WireMessage>)
        ensures
            r@.len() == self@.messages.len(),
            forall|i: int|
                0 <= i < r@.len() ==> r@[i].role == self@.messages[i].role
                    && r@[i].content@ == self@.messages[i].content,
    {
        let mut r: Vec<WireMessage> = Vec::new();
        let mut i: usize = 0;
        while i < self.messages.len()
            invariant
                i <= self.messages@.len(),
                r@.len() == i,
                forall|j: int|
                    0 <= j < i ==> r@[j].role == self@.messages[j].role
                        && r@[j].content@ == self@.messages[j].content,
            decreases self.messages@.len() - i,
        {
            let m = &self.messages[i];
            r.push(WireMessage { role: m.role, content: m.content.clone() });
            i = i + 1;
        }
        r
    }
}

} // verus!
