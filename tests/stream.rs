use gpterm::conversation::Conversation;
use gpterm::decode::{decode_frame, decode_payload, delta_from_fields, FrameError};
use gpterm::frame::{
    is_candidate_frame, is_sentinel, split_frames, split_on_blank_lines, strip_data_prefix,
    PrefixError,
};
use gpterm::message::Role;
use gpterm::stream::{PartialBuffer, ResponseReader, StreamError};

fn frame(id: &str, role: Option<&str>, content: Option<&str>) -> String {
    let mut delta = Vec::new();
    if let Some(r) = role {
        delta.push(format!("\"role\":\"{}\"", r));
    }
    if let Some(c) = content {
        delta.push(format!("\"content\":\"{}\"", c));
    }
    format!(
        "data: {{\"id\":\"{}\",\"object\":\"chat.completion.chunk\",\"choices\":[{{\"delta\":{{{}}},\"index\":0,\"finish_reason\":null}}]}}",
        id,
        delta.join(",")
    )
}

fn chunk(frames: &[String]) -> Vec<u8> {
    let mut s = String::new();
    for f in frames {
        s.push_str(f);
        s.push_str("\n\n");
    }
    s.into_bytes()
}

#[test]
fn two_chunks_of_one_turn_make_one_message() {
    let mut conv = Conversation::new();
    let mut reader = ResponseReader::new();
    let a = chunk(&[frame("t1", Some("assistant"), Some("Hel"))]);
    let b = chunk(&[frame("t1", None, Some("lo"))]);
    assert_eq!(reader.feed_chunk(&mut conv, &a), "Hel");
    assert_eq!(reader.feed_chunk(&mut conv, &b), "lo");
    assert_eq!(conv.len(), 1);
    let m = conv.message(0);
    assert_eq!(m.role, Role::Assistant);
    assert_eq!(m.content, "Hello");
    assert_eq!(m.id, "t1");
    assert!(reader.finish(&mut conv).is_ok());
}

#[test]
fn frame_split_mid_json_is_reassembled() {
    let whole = chunk(&[frame("t1", Some("assistant"), Some("Hello"))]);
    let cut = whole.len() / 2;

    let mut conv = Conversation::new();
    let mut reader = ResponseReader::new();
    assert_eq!(reader.feed_chunk(&mut conv, &whole[..cut]), "");
    assert_eq!(conv.len(), 0);
    assert_eq!(reader.pending(), &whole[..cut]);
    assert_eq!(reader.feed_chunk(&mut conv, &whole[cut..]), "Hello");
    assert!(reader.pending().is_empty());

    let mut conv2 = Conversation::new();
    let mut reader2 = ResponseReader::new();
    reader2.feed_chunk(&mut conv2, &whole);
    assert_eq!(conv.len(), 1);
    assert_eq!(conv2.len(), 1);
    assert_eq!(conv.message(0).content, conv2.message(0).content);
    assert_eq!(conv.message(0).id, conv2.message(0).id);
    assert_eq!(conv.message(0).role, conv2.message(0).role);
}

#[test]
fn every_cut_of_a_frame_gives_the_same_message() {
    let whole = chunk(&[frame("chatcmpl-9", Some("assistant"), Some("Bonjour"))]);
    let body = whole.len() - 2;
    for k in 6..=(body - 6) {
        let mut conv = Conversation::new();
        let mut reader = ResponseReader::new();
        reader.feed_chunk(&mut conv, &whole[..k]);
        reader.feed_chunk(&mut conv, &whole[k..]);
        assert_eq!(conv.len(), 1, "cut at {}", k);
        assert_eq!(conv.message(0).content, "Bonjour");
        assert_eq!(conv.message(0).id, "chatcmpl-9");
        assert!(reader.pending().is_empty());
    }
}

#[test]
fn reset_before_any_response_empties_the_conversation() {
    let mut conv = Conversation::new();
    conv.reset();
    assert_eq!(conv.len(), 0);
    assert!(conv.is_empty());
    conv.submit_user(String::from("hi"));
    conv.reset();
    assert_eq!(conv.len(), 0);
}

#[test]
fn sentinel_chunk_gives_nothing_and_keeps_the_buffer() {
    let mut conv = Conversation::new();
    let mut reader = ResponseReader::new();
    let first = chunk(&[frame("t1", Some("assistant"), Some("A"))]);
    reader.feed_chunk(&mut conv, &first);
    let partial = b"data: {\"id\":\"t1\",\"cho".to_vec();
    reader.feed_chunk(&mut conv, &partial);
    assert_eq!(reader.pending(), &partial[..]);
    assert!(conv.is_open());
    let shown = reader.feed_chunk(&mut conv, b"data: [DONE]\n\n");
    assert_eq!(shown, "");
    assert_eq!(reader.pending(), &partial[..]);
    assert_eq!(conv.len(), 1);
    assert_eq!(conv.message(0).content, "A");
    assert!(!conv.is_open());
}

#[test]
fn same_turn_after_sentinel_opens_a_new_message() {
    let mut conv = Conversation::new();
    let mut reader = ResponseReader::new();
    reader.feed_chunk(&mut conv, &chunk(&[frame("t1", Some("assistant"), Some("A"))]));
    reader.feed_chunk(&mut conv, b"data: [DONE]\n\n");
    reader.feed_chunk(&mut conv, &chunk(&[frame("t1", None, Some("B"))]));
    assert_eq!(conv.len(), 2);
    assert_eq!(conv.message(0).content, "A");
    assert_eq!(conv.message(1).content, "B");
}

#[test]
fn deltas_of_one_turn_join_in_order() {
    let mut conv = Conversation::new();
    let mut reader = ResponseReader::new();
    let c = chunk(&[
        frame("t9", Some("assistant"), None),
        frame("t9", None, Some("one ")),
        frame("t9", None, Some("two ")),
    ]);
    assert_eq!(reader.feed_chunk(&mut conv, &c), "one two ");
    reader.feed_chunk(&mut conv, &chunk(&[frame("t9", None, Some("three"))]));
    assert_eq!(conv.len(), 1);
    assert_eq!(conv.message(0).content, "one two three");
}

#[test]
fn new_turn_leaves_earlier_messages_alone() {
    let mut conv = Conversation::new();
    let mut reader = ResponseReader::new();
    conv.submit_user(String::from("question"));
    reader.feed_chunk(&mut conv, &chunk(&[frame("t1", Some("assistant"), Some("first"))]));
    conv.submit_user(String::from("again"));
    assert!(!conv.is_open());
    reader.feed_chunk(&mut conv, &chunk(&[frame("t1", None, Some("x"))]));
    reader.feed_chunk(&mut conv, &chunk(&[frame("t2", Some("assistant"), Some("second"))]));
    assert_eq!(conv.len(), 5);
    assert_eq!(conv.message(0).content, "question");
    assert_eq!(conv.message(0).role, Role::User);
    assert_eq!(conv.message(1).content, "first");
    assert_eq!(conv.message(2).content, "again");
    assert_eq!(conv.message(3).content, "x");
    assert_eq!(conv.message(3).role, Role::Assistant);
    assert_eq!(conv.message(4).content, "second");
    assert_eq!(conv.last().unwrap().id, "t2");
}

#[test]
fn user_message_gets_a_fresh_lowercase_id() {
    let mut conv = Conversation::new();
    conv.submit_user(String::from("a"));
    conv.submit_user(String::from("b"));
    let a = &conv.message(0).id;
    let b = &conv.message(1).id;
    assert!(a.chars().next().unwrap().is_ascii_lowercase());
    assert_ne!(a, b);
    assert_eq!(conv.message(1).role, Role::User);
    assert_eq!(conv.message(1).content, "b");
}

#[test]
fn role_only_delta_opens_an_empty_message() {
    let mut conv = Conversation::new();
    let mut reader = ResponseReader::new();
    let shown = reader.feed_chunk(&mut conv, &chunk(&[frame("t1", Some("user"), None)]));
    assert_eq!(shown, "");
    assert_eq!(conv.len(), 1);
    assert_eq!(conv.message(0).role, Role::User);
    assert_eq!(conv.message(0).content, "");
}

#[test]
fn decode_gives_the_fields_of_the_json() {
    let f = frame("abc", Some("assistant"), Some("Hi"));
    let d = decode_frame(f.as_bytes()).unwrap();
    assert_eq!(d.turn_id, "abc");
    assert_eq!(d.role, Some(Role::Assistant));
    assert_eq!(d.content, Some(String::from("Hi")));
    let d = decode_frame(frame("abc", None, None).as_bytes()).unwrap();
    assert_eq!(d.role, None);
    assert_eq!(d.content, None);
}

#[test]
fn prefix_is_stripped_once_only() {
    assert_eq!(strip_data_prefix(b"data: data: x").unwrap(), b"data: x".to_vec());
    assert_eq!(strip_data_prefix(b"data: ").unwrap(), Vec::<u8>::new());
    assert_eq!(strip_data_prefix(b"data"), Err(PrefixError::TooShort));
    assert_eq!(strip_data_prefix(b"event: x"), Err(PrefixError::Missing));
}

#[test]
fn decode_errors() {
    assert_eq!(decode_frame(b"dat").unwrap_err(), FrameError::Prefix(PrefixError::TooShort));
    assert_eq!(
        decode_frame(b"{\"id\":\"x\"}").unwrap_err(),
        FrameError::Prefix(PrefixError::Missing)
    );
    assert_eq!(decode_frame(b"data: {\"id\":\"x\",\"cho").unwrap_err(), FrameError::Incomplete);
    assert_eq!(decode_frame(b"data: {\"choices\":[]}").unwrap_err(), FrameError::Incomplete);
    assert_eq!(
        decode_frame(frame("x", Some("system"), Some("y")).as_bytes()).unwrap_err(),
        FrameError::Incomplete
    );
}

#[test]
fn empty_choices_decode_to_a_delta_without_text() {
    let d = decode_payload(b"{\"id\":\"x\",\"choices\":[]}").unwrap();
    assert_eq!(d.turn_id, "x");
    assert_eq!(d.role, None);
    assert_eq!(d.content, None);
}

#[test]
fn splitting_keeps_empty_pieces() {
    let pieces = split_on_blank_lines(b"a\n\n\n\nb");
    assert_eq!(pieces, vec![b"a".to_vec(), Vec::new(), b"b".to_vec()]);
    let pieces = split_on_blank_lines(b"x\n\n\n");
    assert_eq!(pieces, vec![b"x".to_vec(), b"\n".to_vec()]);
    assert_eq!(split_on_blank_lines(b""), vec![Vec::<u8>::new()]);
}

#[test]
fn splitter_drops_short_pieces_and_the_sentinel() {
    let frames = split_frames(b"data: 1\n\nab\n\ndata: [DONE]\n\n\n\ndata: 22");
    assert_eq!(frames, vec![b"data: 1".to_vec(), b"data: 22".to_vec()]);
    assert!(is_sentinel(b"data: [DONE]"));
    assert!(!is_sentinel(b"data: [DONE] "));
    assert!(!is_candidate_frame(b"12345"));
    assert!(is_candidate_frame(b"123456"));
}

#[test]
fn failed_frame_after_a_good_one_waits_in_the_buffer() {
    let mut conv = Conversation::new();
    let mut reader = ResponseReader::new();
    let mut c = chunk(&[frame("t1", Some("assistant"), Some("a"))]);
    c.extend_from_slice(b"data: {\"id\":\"t1\",\"choices\":[{\"delta\":{\"content\":\"b");
    assert_eq!(reader.feed_chunk(&mut conv, &c), "a");
    assert_eq!(
        reader.pending(),
        &b"data: {\"id\":\"t1\",\"choices\":[{\"delta\":{\"content\":\"b"[..]
    );
    assert_eq!(reader.feed_chunk(&mut conv, b"c\"}}]}\n\n"), "bc");
    assert_eq!(conv.message(0).content, "abc");
}

#[test]
fn stream_ending_mid_frame_is_reported() {
    let mut conv = Conversation::new();
    let mut reader = ResponseReader::new();
    reader.feed_chunk(&mut conv, b"data: {\"id\":");
    match reader.finish(&mut conv) {
        Err(StreamError::TruncatedFrame(rest)) => assert_eq!(rest, b"data: {\"id\":".to_vec()),
        Ok(()) => panic!("expected a truncated frame"),
    }
    assert!(reader.pending().is_empty());
    assert!(!conv.is_open());
}

#[test]
fn partial_buffer_takes_and_appends() {
    let mut b = PartialBuffer::new();
    assert!(b.is_empty());
    b.append(b"ab");
    b.append(b"cd");
    assert_eq!(b.contents(), b"abcd");
    assert_eq!(b.take_and_clear(), b"abcd".to_vec());
    assert!(b.is_empty());
    b.append(b"x");
    b.clear();
    assert!(b.is_empty());
}

#[test]
fn wire_messages_carry_role_and_text_only() {
    let mut conv = Conversation::new();
    let mut reader = ResponseReader::new();
    conv.submit_user(String::from("q"));
    reader.feed_chunk(&mut conv, &chunk(&[frame("t1", Some("assistant"), Some("r"))]));
    let w = conv.wire_messages();
    assert_eq!(w.len(), 2);
    assert_eq!(w[0].role, Role::User);
    assert_eq!(w[0].content, "q");
    assert_eq!(w[1].role.wire_name(), "assistant");
    assert_eq!(w[1].content, "r");
}

#[test]
fn fields_make_a_delta() {
    let s = |t: &str| Some(String::from(t));
    let d = delta_from_fields(s("t"), s("user"), s("hey")).unwrap();
    assert_eq!(d.turn_id, "t");
    assert_eq!(d.role, Some(Role::User));
    assert_eq!(d.content, s("hey"));
    let d = delta_from_fields(s("t"), None, None).unwrap();
    assert_eq!(d.role, None);
    assert_eq!(d.content, None);
    assert!(delta_from_fields(None, s("assistant"), s("x")).is_none());
    assert!(delta_from_fields(s("t"), s("tool"), s("x")).is_none());
}
