//! Decoding one frame into a delta.

use vstd::prelude::*;

use crate::frame::{data_prefix, payload_of, strip_data_prefix, PrefixError};
use crate::message::{role_from_wire_name, role_wire_name, Role};

verus! {

/// The text that a JSON document holds at a JSON pointer (RFC 6901), if the
/// bytes are one JSON document and a string stands at that place.
pub uninterp spec fn json_text_at(doc: Seq<u8>, pointer: Seq<char>) -> Option<Seq<char>>;

/// Relies on `serde_json::from_slice` (into a `serde_json::Value`),
/// `Value::pointer` and `Value::as_str`: the string at `pointer` in the document
/// `doc`, or `None` where `doc` is not one JSON document or no string stands there.
#[verifier::external_body]
fn json_string_at(doc: &[u8], pointer: &str) -> (r: Option<String>)
    ensures
        opt_view(r) == json_text_at(doc@, pointer@),
{
    let value: serde_json::Value = serde_json::from_slice(doc).ok()?;
    value.pointer(pointer)?.as_str().map(String::from)
}

/// Where a payload names the response it belongs to.
pub open spec fn id_pointer() -> Seq<char> {
    "/id"@
}

/// Where a payload names the role of the message.
pub open spec fn role_pointer() -> Seq<char> {
    "/choices/0/delta/role"@
}

/// Where a payload holds its piece of text.
pub open spec fn content_pointer() -> Seq<char> {
    "/choices/0/delta/content"@
}

/// What a delta is, as mathematical values.
pub ghost struct DeltaView {
    pub turn_id: Seq<char>,
    pub role: Option<Role>,
    pub content: Option<Seq<char>>,
}

/// One decoded piece of a streamed response.
///
/// `role` comes on the first delta of a response only; `content` may be absent.
#[derive(Debug)]
pub struct Delta {
    pub turn_id: String,
    pub role: Option<Role>,
    pub content: Option<String>,
}

impl View for Delta {
    type V = DeltaView;

    open spec fn view(&self) -> DeltaView {
        DeltaView {
            turn_id: self.turn_id@,
            role: self.role,
            content: match self.content {
                Some(c) => Some(c@),
                None => None,
            },
        }
    }
}

/// The text a delta adds: its content, or nothing.
pub open spec fn fragment(d: DeltaView) -> Seq<char> {
    match d.content {
        Some(c) => c,
        None => Seq::empty(),
    }
}

/// The text of a sequence of deltas, one after the other.
pub open spec fn text_of(ds: Seq<DeltaView>) -> Seq<char>
    decreases ds.len(),
{
    if ds.len() == 0 {
        Seq::empty()
    } else {
        text_of(ds.drop_last()) + fragment(ds.last())
    }
}

/// The delta made of the three strings found in a payload: it needs an `id`;
/// a role, where there is one, must be `user` or `assistant`.
pub open spec fn delta_of_fields(
    id: Option<Seq<char>>,
    role: Option<Seq<char>>,
    content: Option<Seq<char>>,
) -> Option<DeltaView> {
    match id {
        None => None,
        Some(id) => match role {
            None => Some(DeltaView { turn_id: id, role: None, content }),
            Some(name) => match role_from_wire_name(name) {
                None => None,
                Some(r) => Some(DeltaView { turn_id: id, role: Some(r), content }),
            },
        },
    }
}

/// The delta that a payload encodes, from the strings at its `id`, at
/// `choices[0].delta.role` and at `choices[0].delta.content`. A payload whose
/// first choice has no delta, or whose `choices` is empty, gives a delta with
/// no role and no text.
pub open spec fn delta_of_payload(p: Seq<u8>) -> Option<DeltaView> {
    delta_of_fields(
        json_text_at(p, id_pointer()),
        json_text_at(p, role_pointer()),
        json_text_at(p, content_pointer()),
    )
}

/// Why a frame gave no delta.
#[derive(PartialEq, Eq, Structural, Clone, Copy, Debug)]
pub enum FrameError {
    /// The frame has no `data: ` prefix.
    Prefix(PrefixError),
    /// The payload is not a complete delta: most often the first part of a
    /// frame whose rest comes in the next chunk.
    Incomplete,
}

/// The delta that a raw frame encodes, or why there is none.
pub open spec fn delta_of_frame(f: Seq<u8>) -> Result<DeltaView, FrameError> {
    match payload_of(f) {
        Err(e) => Err(FrameError::Prefix(e)),
        Ok(p) => match delta_of_payload(p) {
            None => Err(FrameError::Incomplete),
            Some(d) => Ok(d),
        },
    }
}

/// Stripping the prefix from `data: ` followed by a payload gives back exactly
/// that payload (a second `data: ` at its start stays), and the delta decoded
/// from it holds what the JSON holds: its `id`, the role named at
/// `choices[0].delta.role`, and the text at `choices[0].delta.content`.
pub proof fn lemma_prefixed_payload_decodes(p: Seq<u8>)
    ensures
        payload_of(data_prefix() + p) == Ok::<Seq<u8>, PrefixError>(p),
        delta_of_frame(data_prefix() + p) == match delta_of_payload(p) {
            Some(d) => Ok::<DeltaView, FrameError>(d),
            None => Err(FrameError::Incomplete),
        },
        match delta_of_payload(p) {
            Some(d) => {
                &&& json_text_at(p, id_pointer()) == Some(d.turn_id)
                &&& json_text_at(p, content_pointer()) == d.content
                &&& match d.role {
                    Some(r) => json_text_at(p, role_pointer()) == Some(role_wire_name(r)),
                    None => (json_text_at(p, role_pointer()) is None),
                }
            },
            None => true,
        },
{
    let f = data_prefix() + p;
    assert(f.subrange(0, data_prefix().len() as int) == data_prefix());
    assert(f.subrange(data_prefix().len() as int, f.len() as int) == p);
    reveal_strlit("user");
    reveal_strlit("assistant");
}

/// Makes a delta from the strings found in a payload (see [`delta_of_fields`]).
pub fn delta_from_fields(id: Option<String>, role: Option<String>, content: Option<String>) -> (r:
    Option<Delta>)
    ensures
        match r {
            Some(d) => delta_of_fields(opt_view(id), opt_view(role), opt_view(content)) == Some(d@),
            None => (delta_of_fields(opt_view(id), opt_view(role), opt_view(content)) is None),
        },
{
    let id = match id {
        None => return None,
        Some(id) => id,
    };
    let role = match role {
        None => None,
        Some(name) => match Role::from_wire_name(name.as_str()) {
            None => return None,
            Some(r) => Some(r),
        },
    };
    Some(Delta { turn_id: id, role, content })
}

/// The characters of an optional string.
pub open spec fn opt_view(s: Option<String>) -> Option<Seq<char>> {
    match s {
        Some(s) => Some(s@),
        None => None,
    }
}

/// Decodes a payload (a frame without its prefix) into a delta.
pub fn decode_payload(p: &[u8]) -> (r: Option<Delta>)
    ensures
        match r {
            Some(d) => delta_of_payload(p@) == Some(d@),
            None => (delta_of_payload(p@) is None),
        },
{
    let id = json_string_at(p, "/id");
    let role = json_string_at(p, "/choices/0/delta/role");
    let content = json_string_at(p, "/choices/0/delta/content");
    delta_from_fields(id, role, content)
}

/// Decodes a raw frame: checks and strips its `data: ` prefix, then decodes
/// the payload.
pub fn decode_frame(f: &[u8]) -> (r: Result<Delta, FrameError>)
    ensures
        match r {
            Ok(d) => delta_of_frame(f@) == Ok::<DeltaView, FrameError>(d@),
            Err(e) => delta_of_frame(f@) == Err::<DeltaView, FrameError>(e),
        },
{
    match strip_data_prefix(f) {
        Err(e) => Err(FrameError::Prefix(e)),
        Ok(p) => match decode_payload(p.as_slice()) {
            None => Err(FrameError::Incomplete),
            Some(d) => Ok(d),
        },
    }
}

} // verus!
