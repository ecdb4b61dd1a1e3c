//! Reading one streamed response: the partial-frame buffer and the chunk
//! processing that feeds decoded deltas to the conversation.

use vstd::prelude::*;
use vstd::string::*;

use crate::conversation::{after_deltas, Conversation, ConversationView};
use crate::decode::{decode_frame, delta_of_frame, text_of, DeltaView};
use crate::frame::{
    any_sentinel, candidates, data_prefix, delimiter_at, holds_sentinel, is_candidate, keep_candidates,
    keep_frames, lemma_one_piece, lemma_piece_then_blank_line, no_blank_line, sentinel_frame,
    split_on_blank_lines, NEWLINE,
};

verus! {

/// Appends the bytes of `src` to `dst`.
pub fn append_bytes(dst: &mut Vec<u8>, src: &[u8])
    ensures
        final(dst)@ == old(dst)@ + src@,
{
    let mut i: usize = 0;
    while i < src.len()
        invariant
            i <= src@.len(),
            dst@ == old(dst)@ + src@.subrange(0, i as int),
        decreases src@.len() - i,
    {
        dst.push(src[i]);
        assert(src@.subrange(0, i + 1) == src@.subrange(0, i as int).push(src@[i as int]));
        i = i + 1;
    }
    assert(src@.subrange(0, src@.len() as int) == src@);
}

/// The bytes of a frame that did not decode, kept until the next chunk
/// completes it.
pub struct PartialBuffer {
    pending: Vec<u8>,
}

impl View for PartialBuffer {
    type V = Seq<u8>;

    closed spec fn view(&self) -> Seq<u8> {
        self.pending@
    }
}

impl PartialBuffer {
    /// An empty buffer.
    pub fn new() -> (r: PartialBuffer)
        ensures
            r@ == Seq::<u8>::empty(),
    {
        PartialBuffer { pending: Vec::new() }
    }

    /// Whether nothing is kept.
    pub fn is_empty(&self) -> (r: bool)
        ensures
            r == (self@.len() == 0),
    {
        self.pending.len() == 0
    }

    /// The bytes kept.
    pub fn contents(&self) -> (r: &[u8])
        ensures
            r@ == self@,
    {
        self.pending.as_slice()
    }

    /// Hands out what is kept and leaves the buffer empty.
    pub fn take_and_clear(&mut self) -> (r: Vec<u8>)
        ensures
            r@ == old(self)@,
            final(self)@ == Seq::<u8>::empty(),
    {
        let mut r: Vec<u8> = Vec::new();
        std::mem::swap(&mut self.pending, &mut r);
        r
    }

    /// Appends bytes that did not decode.
    pub fn append(&mut self, fragment: &[u8])
        ensures
            final(self)@ == old(self)@ + fragment@,
    {
        append_bytes(&mut self.pending, fragment);
    }

    /// Drops what is kept.
    pub fn clear(&mut self)
        ensures
            final(self)@ == Seq::<u8>::empty(),
    {
        self.pending.clear();
    }
}

/// The frame that the `i`-th candidate of a chunk is decoded as: the first one
/// has the pending bytes put in front of it, the others stand alone.
pub open spec fn raw_frame(pending: Seq<u8>, fs: Seq<Seq<u8>>, i: int) -> Seq<u8> {
    if i == 0 {
        pending + fs[0]
    } else {
        fs[i]
    }
}

/// Decoding the first `n` candidates `fs` of a chunk, with `pending` kept from
/// before: the deltas decoded, in order, and the bytes kept afterwards. A frame
/// that decodes empties the buffer; one that does not is appended to it.
pub open spec fn decode_prefix(pending: Seq<u8>, fs: Seq<Seq<u8>>, n: nat) -> (Seq<DeltaView>, Seq<u8>)
    decreases n,
{
    if n == 0 {
        (Seq::empty(), pending)
    } else {
        let (ds, kept) = decode_prefix(pending, fs, (n - 1) as nat);
        let i = n - 1;
        let raw = raw_frame(pending, fs, i);
        let base = if i == 0 { Seq::<u8>::empty() } else { kept };
        match delta_of_frame(raw) {
            Ok(d) => (ds.push(d), Seq::empty()),
            Err(_) => (ds, base + raw),
        }
    }
}

/// The deltas that a chunk gives and the bytes kept afterwards, with `pending`
/// kept from before.
pub open spec fn decode_chunk(pending: Seq<u8>, chunk: Seq<u8>) -> (Seq<DeltaView>, Seq<u8>) {
    decode_prefix(pending, candidates(chunk), candidates(chunk).len())
}

/// The conversation after a chunk's deltas; the chunk's end-of-response frame,
/// if it has one, closes the turn.
pub open spec fn after_chunk(c: ConversationView, ds: Seq<DeltaView>, ends: bool) -> ConversationView {
    let c2 = after_deltas(c, ds);
    if ends {
        ConversationView { messages: c2.messages, open: false }
    } else {
        c2
    }
}

/// A candidate frame with no blank line is the one candidate of its chunk.
pub proof fn lemma_lone_candidate(f: Seq<u8>)
    requires
        is_candidate(f),
        no_blank_line(f),
    ensures
        candidates(f) == seq![f],
{
    let none = Seq::<Seq<u8>>::empty();
    lemma_one_piece(f);
    assert(seq![f].drop_last() == none);
    assert(seq![f].last() == f);
    assert(keep_frames(none) == none);
    assert(none.push(f) == seq![f]);
}

/// A candidate frame with no blank line, not ending in a newline, is the one
/// candidate of its chunk when a blank line follows it.
pub proof fn lemma_candidate_then_blank_line(f: Seq<u8>)
    requires
        is_candidate(f),
        no_blank_line(f),
        f.last() != NEWLINE,
    ensures
        candidates(f + seq![NEWLINE, NEWLINE]) == seq![f],
{
    let empty = Seq::<u8>::empty();
    let none = Seq::<Seq<u8>>::empty();
    lemma_piece_then_blank_line(f);
    assert(!is_candidate(empty));
    assert(seq![f].drop_last() == none);
    assert(seq![f, empty].drop_last() == seq![f]);
    assert(seq![f].last() == f);
    assert(seq![f, empty].last() == empty);
    assert(keep_frames(none) == none);
    assert(none.push(f) == seq![f]);
    assert(keep_frames(seq![f]) == seq![f]);
}

/// One candidate, decoded with `pending` in front of it.
pub proof fn lemma_decode_one(pending: Seq<u8>, f: Seq<u8>)
    ensures
        decode_prefix(pending, seq![f], 1) == match delta_of_frame(pending + f) {
            Ok(d) => (seq![d], Seq::<u8>::empty()),
            Err(_) => (Seq::<DeltaView>::empty(), pending + f),
        },
{
    let (ds, kept) = decode_prefix(pending, seq![f], 0);
    assert(ds == Seq::<DeltaView>::empty());
    assert(raw_frame(pending, seq![f], 0) == pending + f);
    assert(Seq::<u8>::empty() + (pending + f) == pending + f);
    assert(Seq::<DeltaView>::empty().push(delta_of_frame(pending + f)->Ok_0) == seq![delta_of_frame(pending + f)->Ok_0]);
}

/// A frame that is cut in two, between two chunks, gives the same delta as the
/// whole frame in one chunk, and leaves nothing behind. Where the cut leaves
/// fewer bytes than the prefix on either side, that side is dropped as too
/// short, and the frame is lost; the first part must not decode by itself.
pub proof fn lemma_cut_frame_reassembles(frame: Seq<u8>, k: int)
    requires
        no_blank_line(frame),
        frame.len() > 0,
        frame.last() != NEWLINE,
        (delta_of_frame(frame) is Ok),
        data_prefix().len() <= k,
        k + data_prefix().len() <= frame.len(),
        frame != sentinel_frame(),
        frame.take(k) != sentinel_frame(),
        frame.skip(k) != sentinel_frame(),
        (delta_of_frame(frame.take(k)) is Err),
    ensures
        ({
            let whole = decode_chunk(Seq::empty(), frame + seq![NEWLINE, NEWLINE]);
            let first = decode_chunk(Seq::empty(), frame.take(k));
            let second = decode_chunk(first.1, frame.skip(k) + seq![NEWLINE, NEWLINE]);
            &&& whole.0 == seq![delta_of_frame(frame)->Ok_0]
            &&& whole.1 == Seq::<u8>::empty()
            &&& first.0 == Seq::<DeltaView>::empty()
            &&& first.1 == frame.take(k)
            &&& first.0 + second.0 == whole.0
            &&& second.1 == whole.1
        }),
{
    let head = frame.take(k);
    let tail = frame.skip(k);
    assert forall|i: int| !#[trigger] delimiter_at(head, i) by {
        if delimiter_at(head, i) {
            assert(delimiter_at(frame, i));
        }
    }
    assert forall|i: int| !#[trigger] delimiter_at(tail, i) by {
        if delimiter_at(tail, i) {
            assert(delimiter_at(frame, i + k));
        }
    }
    assert(tail.last() == frame.last());
    assert(head + tail == frame);
    let empty = Seq::<u8>::empty();
    lemma_lone_candidate(head);
    lemma_candidate_then_blank_line(tail);
    lemma_candidate_then_blank_line(frame);
    lemma_decode_one(empty, head);
    lemma_decode_one(head, tail);
    lemma_decode_one(empty, frame);
    assert(empty + head == head);
    assert(empty + frame == frame);
    assert(Seq::<DeltaView>::empty() + seq![delta_of_frame(frame)->Ok_0] == seq![delta_of_frame(frame)->Ok_0]);
}

/// A chunk that holds only the end-of-response frame gives no delta and
/// leaves the kept bytes as they were; it closes the turn.
pub proof fn lemma_sentinel_chunk(pending: Seq<u8>, c: ConversationView)
    ensures
        decode_chunk(pending, sentinel_frame()) == (Seq::<DeltaView>::empty(), pending),
        decode_chunk(pending, sentinel_frame() + seq![NEWLINE, NEWLINE]) == (Seq::<DeltaView>::empty(), pending),
        holds_sentinel(sentinel_frame()),
        holds_sentinel(sentinel_frame() + seq![NEWLINE, NEWLINE]),
        after_chunk(c, Seq::empty(), true) == (ConversationView { messages: c.messages, open: false }),
{
    let s = sentinel_frame();
    let empty = Seq::<u8>::empty();
    assert(s =~= seq![100u8, 97u8, 116u8, 97u8, 58u8, 32u8, 91u8, 68u8, 79u8, 78u8, 69u8, 93u8]);
    assert forall|i: int| !#[trigger] delimiter_at(s, i) by {
        if 0 <= i < s.len() {
            assert(s[i] != NEWLINE);
        }
    }
    lemma_one_piece(s);
    lemma_piece_then_blank_line(s);
    assert(seq![s].drop_last() == Seq::<Seq<u8>>::empty());
    assert(seq![s, empty].drop_last() == seq![s]);
    assert(!is_candidate(empty));
    assert(seq![s].last() == s);
    assert(seq![s, empty].last() == empty);
    assert(keep_frames(Seq::<Seq<u8>>::empty()) == Seq::<Seq<u8>>::empty());
    assert(seq![s][0] == s);
    assert(seq![s, empty][0] == s);
}

/// Why a response stream ended badly.
#[derive(Debug)]
pub enum StreamError {
    /// The stream ended while these bytes of a frame were still undecoded.
    TruncatedFrame(Vec<u8>),
}

/// Reads the chunks of one streamed response into a conversation.
pub struct ResponseReader {
    partial: PartialBuffer,
}

impl View for ResponseReader {
    type V = Seq<u8>;

    /// The bytes kept from a frame that did not decode yet.
    closed spec fn view(&self) -> Seq<u8> {
        self.partial@
    }
}

impl ResponseReader {
    /// A reader at the start of a response, with nothing kept.
    pub fn new() -> (r: ResponseReader)
        ensures
            r@ == Seq::<u8>::empty(),
    {
        ResponseReader { partial: PartialBuffer::new() }
    }

    /// The bytes kept from a frame that did not decode yet.
    pub fn pending(&self) -> (r: &[u8])
        ensures
            r@ == self@,
    {
        self.partial.contents()
    }

    /// Processes one chunk: cuts it into frames, decodes them in order (the
    /// first with the kept bytes in front), folds each delta into the
    /// conversation, and keeps what did not decode. Returns the text added, to
    /// be shown at once.
    pub fn feed_chunk(&mut self, conv: &mut Conversation, chunk: &[u8]) -> (shown: String)
        ensures
            ({
                let (ds, kept) = decode_chunk(old(self)@, chunk@);
                &&& final(self)@ == kept
                &&& final(conv)@ == after_chunk(old(conv)@, ds, holds_sentinel(chunk@))
                &&& shown@ == text_of(ds)
            }),
    {
        let pieces = split_on_blank_lines(chunk);
        let frames = keep_candidates(&pieces);
        let ends = any_sentinel(&pieces);
        let ghost fs = frames@.map_values(|p: Vec<u8>| p@);
        let ghost pending0 = self.partial@;
        let ghost conv0 = conv@;
        let ghost mut ds: Seq<DeltaView> = Seq::empty();
        let mut shown = String::new();
        let mut i: usize = 0;
        while i < frames.len()
            invariant
                fs == frames@.map_values(|p: Vec<u8>| p@),
                fs == candidates(chunk@),
                i <= fs.len(),
                decode_prefix(pending0, fs, i as nat) == (ds, self.partial@),
                conv@ == after_deltas(conv0, ds),
                shown@ == text_of(ds),
            decreases fs.len() - i,
        {
            let mut raw: Vec<u8>;
            if i == 0 {
                raw = self.partial.take_and_clear();
                append_bytes(&mut raw, frames[0].as_slice());
            } else {
                raw = frames[i].clone();
            }
            assert(raw@ == raw_frame(pending0, fs, i as int));
            match decode_frame(raw.as_slice()) {
                Ok(d) => {
                    self.partial.clear();
                    let ghost prev = ds;
                    proof {
                        ds = ds.push(d@);
                        assert(ds.drop_last() == prev);
                    }
                    let added = conv.apply_delta(d);
                    shown.append(added.as_str());
                }
                Err(_) => {
                    self.partial.append(raw.as_slice());
                }
            }
            i = i + 1;
        }
        if ends {
            conv.close_turn();
        }
        shown
    }

    /// Ends the response: closes the turn and empties the buffer. Fails, with
    /// the bytes left over, where a frame was still waiting for its rest.
    pub fn finish(&mut self, conv: &mut Conversation) -> (r: Result<(), StreamError>)
        ensures
            final(self)@ == Seq::<u8>::empty(),
            final(conv)@.messages == old(conv)@.messages,
            !final(conv)@.open,
            match r {
                Ok(()) => old(self)@.len() == 0,
                Err(StreamError::TruncatedFrame(rest)) => old(self)@.len() > 0 && rest@ == old(self)@,
            },
    {
        conv.close_turn();
        let rest = self.partial.take_and_clear();
        if rest.len() == 0 {
            Ok(())
        } else {
            Err(StreamError::TruncatedFrame(rest))
        }
    }
}

} // verus!
