//! Cutting a chunk of the event stream into frames, and the `data: ` prefix.

use vstd::prelude::*;

verus! {

/// The byte that ends a line.
pub const NEWLINE: u8 = 10;

/// Whether a blank line (two newlines) starts at position `i` of `s`.
pub open spec fn delimiter_at(s: Seq<u8>, i: int) -> bool {
    0 <= i && i + 1 < s.len() && s[i] == NEWLINE && s[i + 1] == NEWLINE
}

/// The pieces of `s[start..]` between blank lines, where the scan for the next
/// blank line has reached position `i` (`start <= i`).
pub open spec fn pieces_from(s: Seq<u8>, start: int, i: int) -> Seq<Seq<u8>>
    decreases s.len() - i,
{
    if i + 1 >= s.len() {
        seq![s.subrange(start, s.len() as int)]
    } else if delimiter_at(s, i) {
        seq![s.subrange(start, i)] + pieces_from(s, i + 2, i + 2)
    } else {
        pieces_from(s, start, i + 1)
    }
}

/// The pieces of `s` between blank lines, in order, as `str::split("\n\n")` gives them.
pub open spec fn split_pieces(s: Seq<u8>) -> Seq<Seq<u8>> {
    pieces_from(s, 0, 0)
}

/// The prefix that every payload frame starts with: `data: `.
pub open spec fn data_prefix() -> Seq<u8> {
    seq![100u8, 97u8, 116u8, 97u8, 58u8, 32u8]
}

/// The frame that ends a response: `data: [DONE]`.
pub open spec fn sentinel_frame() -> Seq<u8> {
    data_prefix() + seq![91u8, 68u8, 79u8, 78u8, 69u8, 93u8]
}

/// Whether a piece is a frame worth decoding: long enough to hold the prefix,
/// and not the end-of-response frame.
pub open spec fn is_candidate(f: Seq<u8>) -> bool {
    f.len() >= data_prefix().len() && f != sentinel_frame()
}

/// The pieces that are worth decoding, in order.
pub open spec fn keep_frames(s: Seq<Seq<u8>>) -> Seq<Seq<u8>>
    decreases s.len(),
{
    if s.len() == 0 {
        s
    } else if is_candidate(s.last()) {
        keep_frames(s.drop_last()).push(s.last())
    } else {
        keep_frames(s.drop_last())
    }
}

/// The frames of a chunk that are worth decoding, in order.
pub open spec fn candidates(chunk: Seq<u8>) -> Seq<Seq<u8>> {
    keep_frames(split_pieces(chunk))
}

/// Whether the chunk holds the end-of-response frame.
pub open spec fn holds_sentinel(chunk: Seq<u8>) -> bool {
    split_pieces(chunk).contains(sentinel_frame())
}

/// Why a frame has no payload.
#[derive(PartialEq, Eq, Structural, Clone, Copy, Debug)]
pub enum PrefixError {
    /// The frame is shorter than the prefix.
    TooShort,
    /// The frame is long enough but does not start with the prefix.
    Missing,
}

/// The payload of a frame: what follows its `data: ` prefix.
pub open spec fn payload_of(f: Seq<u8>) -> Result<Seq<u8>, PrefixError> {
    if f.len() < data_prefix().len() {
        Err(PrefixError::TooShort)
    } else if f.subrange(0, data_prefix().len() as int) != data_prefix() {
        Err(PrefixError::Missing)
    } else {
        Ok(f.subrange(data_prefix().len() as int, f.len() as int))
    }
}

/// Whether `s` holds no blank line.
pub open spec fn no_blank_line(s: Seq<u8>) -> bool {
    forall|i: int| !#[trigger] delimiter_at(s, i)
}

/// Where no blank line starts in `s[i..j]`, the scan moves from `i` to `j`
/// without cutting.
pub proof fn lemma_scan_skips(s: Seq<u8>, start: int, i: int, j: int)
    requires
        start <= i <= j,
        j < s.len(),
        forall|m: int| i <= m < j ==> !#[trigger] delimiter_at(s, m),
    ensures
        pieces_from(s, start, i) == pieces_from(s, start, j),
    decreases j - i,
{
    if i < j {
        lemma_scan_skips(s, start, i + 1, j);
    }
}

/// A non-empty sequence with no blank line is one piece.
pub proof fn lemma_one_piece(s: Seq<u8>)
    requires
        s.len() > 0,
        no_blank_line(s),
    ensures
        split_pieces(s) == seq![s],
{
    lemma_scan_skips(s, 0, 0, s.len() - 1);
    assert(s.subrange(0, s.len() as int) == s);
}

/// A sequence with no blank line, not ending in a newline, followed by a blank
/// line, is that piece and an empty one.
pub proof fn lemma_piece_then_blank_line(s: Seq<u8>)
    requires
        s.len() > 0,
        no_blank_line(s),
        s.last() != NEWLINE,
    ensures
        split_pieces(s + seq![NEWLINE, NEWLINE]) == seq![s, Seq::<u8>::empty()],
{
    let t = s + seq![NEWLINE, NEWLINE];
    let n = s.len() as int;
    assert forall|m: int| 0 <= m < n implies !#[trigger] delimiter_at(t, m) by {
        if m + 1 < n {
            assert(!delimiter_at(s, m));
            assert(t[m] == s[m] && t[m + 1] == s[m + 1]);
        } else {
            assert(t[m] == s.last());
        }
    }
    lemma_scan_skips(t, 0, 0, n);
    assert(delimiter_at(t, n));
    assert(t.subrange(0, n) == s);
    assert(t.subrange(n + 2, t.len() as int) == Seq::<u8>::empty());
    assert(pieces_from(t, n + 2, n + 2) == seq![Seq::<u8>::empty()]);
    assert(seq![s] + seq![Seq::<u8>::empty()] == seq![s, Seq::<u8>::empty()]);
}

/// The bytes `s[from..to]` as a new vector.
pub fn copy_range(s: &[u8], from: usize, to: usize) -> (r: Vec<u8>)
    requires
        from <= to <= s@.len(),
    ensures
        r@ == s@.subrange(from as int, to as int),
{
    let mut r: Vec<u8> = Vec::with_capacity(to - from);
    let mut i: usize = from;
    while i < to
        invariant
            from <= i <= to <= s@.len(),
            r@ == s@.subrange(from as int, i as int),
        decreases to - i,
    {
        r.push(s[i]);
        assert(s@.subrange(from as int, i + 1) == s@.subrange(from as int, i as int).push(s@[i as int]));
        i = i + 1;
    }
    r
}

/// Cuts a chunk into its pieces between blank lines, keeping every piece,
/// empty ones included.
pub fn split_on_blank_lines(chunk: &[u8]) -> (r: Vec<Vec<u8>>)
    ensures
        r@.map_values(|p: Vec<u8>| p@) == split_pieces(chunk@),
{
    let n = chunk.len();
    let mut r: Vec<Vec<u8>> = Vec::new();
    let mut start: usize = 0;
    let mut i: usize = 0;
    while n - i >= 2
        invariant
            n == chunk@.len(),
            start <= i <= n,
            r@.map_values(|p: Vec<u8>| p@) + pieces_from(chunk@, start as int, i as int)
                == split_pieces(chunk@),
        decreases n - i,
    {
        if chunk[i] == NEWLINE && chunk[i + 1] == NEWLINE {
            let piece = copy_range(chunk, start, i);
            let ghost before = r@.map_values(|p: Vec<u8>| p@);
            r.push(piece);
            assert(r@.map_values(|p: Vec<u8>| p@) == before.push(piece@));
            assert(before + pieces_from(chunk@, start as int, i as int)
                == before.push(piece@) + pieces_from(chunk@, i + 2, i + 2));
            i = i + 2;
            start = i;
        } else {
            i = i + 1;
        }
    }
    let piece = copy_range(chunk, start, n);
    let ghost before = r@.map_values(|p: Vec<u8>| p@);
    r.push(piece);
    assert(r@.map_values(|p: Vec<u8>| p@) == before.push(piece@));
    assert(before + pieces_from(chunk@, start as int, i as int) == before.push(piece@));
    r
}

/// Whether `f` starts with `data: `.
fn starts_with_prefix(f: &[u8]) -> (r: bool)
    requires
        f@.len() >= data_prefix().len(),
    ensures
        r == (f@.subrange(0, data_prefix().len() as int) == data_prefix()),
{
    let r = f[0] == 100 && f[1] == 97 && f[2] == 116 && f[3] == 97 && f[4] == 58 && f[5] == 32;
    assert(r ==> f@.subrange(0, 6) =~= data_prefix());
    assert(f@.subrange(0, 6) == data_prefix() ==> f@.subrange(0, 6)[0] == 100u8 && f@.subrange(0, 6)[1] == 97u8 && f@.subrange(0, 6)[2] == 116u8 && f@.subrange(0, 6)[3] == 97u8 && f@.subrange(0, 6)[4] == 58u8 && f@.subrange(0, 6)[5] == 32u8);
    r
}

/// Whether `f` is the end-of-response frame `data: [DONE]`.
pub fn is_sentinel(f: &[u8]) -> (r: bool)
    ensures
        r == (f@ == sentinel_frame()),
{
    if f.len() != 12 {
        return false;
    }
    let r = starts_with_prefix(f) && f[6] == 91 && f[7] == 68 && f[8] == 79 && f[9] == 78
        && f[10] == 69 && f[11] == 93;
    assert(r ==> f@ =~= sentinel_frame());
    assert(f@ == sentinel_frame() ==> f@.subrange(0, 6) =~= data_prefix());
    r
}

/// Whether a piece is a frame worth decoding (see [`is_candidate`]).
pub fn is_candidate_frame(f: &[u8]) -> (r: bool)
    ensures
        r == is_candidate(f@),
{
    f.len() >= 6 && !is_sentinel(f)
}

/// The payload of a frame: the bytes after its `data: ` prefix, or why there are none.
pub fn strip_data_prefix(f: &[u8]) -> (r: Result<Vec<u8>, PrefixError>)
    ensures
        match r {
            Ok(p) => payload_of(f@) == Ok::<Seq<u8>, PrefixError>(p@),
            Err(e) => payload_of(f@) == Err::<Seq<u8>, PrefixError>(e),
        },
{
    if f.len() < 6 {
        Err(PrefixError::TooShort)
    } else if !starts_with_prefix(f) {
        Err(PrefixError::Missing)
    } else {
        Ok(copy_range(f, 6, f.len()))
    }
}

/// The pieces that are worth decoding, in order.
pub fn keep_candidates(pieces: &Vec<Vec<u8>>) -> (r: Vec<Vec<u8>>)
    ensures
        r@.map_values(|p: Vec<u8>| p@) == keep_frames(pieces@.map_values(|p: Vec<u8>| p@)),
{
    let ghost all = pieces@.map_values(|p: Vec<u8>| p@);
    let mut r: Vec<Vec<u8>> = Vec::new();
    let mut i: usize = 0;
    while i < pieces.len()
        invariant
            i <= pieces@.len(),
            all == pieces@.map_values(|p: Vec<u8>| p@),
            r@.map_values(|p: Vec<u8>| p@) == keep_frames(all.take(i as int)),
        decreases pieces@.len() - i,
    {
        assert(all.take(i + 1).drop_last() == all.take(i as int));
        assert(all.take(i + 1).last() == all[i as int]);
        let ghost before = r@.map_values(|p: Vec<u8>| p@);
        if is_candidate_frame(pieces[i].as_slice()) {
            r.push(pieces[i].clone());
            assert(r@.map_values(|p: Vec<u8>| p@) == before.push(all[i as int]));
        }
        i = i + 1;
    }
    assert(all.take(pieces@.len() as int) == all);
    r
}

/// Whether one of the pieces is the end-of-response frame.
pub fn any_sentinel(pieces: &Vec<Vec<u8>>) -> (r: bool)
    ensures
        r == pieces@.map_values(|p: Vec<u8>| p@).contains(sentinel_frame()),
{
    let ghost all = pieces@.map_values(|p: Vec<u8>| p@);
    let mut i: usize = 0;
    while i < pieces.len()
        invariant
            i <= pieces@.len(),
            all == pieces@.map_values(|p: Vec<u8>| p@),
            forall|j: int| 0 <= j < i ==> all[j] != sentinel_frame(),
        decreases pieces@.len() - i,
    {
        if is_sentinel(pieces[i].as_slice()) {
            assert(all[i as int] == sentinel_frame());
            return true;
        }
        i = i + 1;
    }
    false
}

/// The frames of a chunk that are worth decoding, in order: the pieces between
/// blank lines, without those shorter than the prefix and without `data: [DONE]`.
pub fn split_frames(chunk: &[u8]) -> (r: Vec<Vec<u8>>)
    ensures
        r@.map_values(|p: Vec<u8>| p@) == candidates(chunk@),
{
    let pieces = split_on_blank_lines(chunk);
    keep_candidates(&pieces)
}

} // verus!
