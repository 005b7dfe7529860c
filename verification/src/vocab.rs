//! SentencePiece vocabulary: a minimal scan of the binary model file as a
//! bare protobuf wire stream, and id-to-text decoding.
//!
//! The model file is a sequence of tagged fields. Each field whose tag is
//! `(field 1, wire type 2)` is a length-delimited piece record; inside it,
//! the first field with the same tag holds the piece text. All other fields
//! are skipped by their wire type; an unknown wire type stops the scan.

use vstd::prelude::*;
use vstd::string::StringExecFns;
use crate::error::AsrError;
use crate::text::{lossy_decode, bytes_to_string_lossy, piece_display, display_piece,
    trim_leading_spaces, trim_start_spaces};

verus! {

/// Number of bytes of the varint starting at `start`: the count up to and
/// including the first byte without the continuation bit, if one occurs
/// within `fuel` bytes and within the data.
pub open spec fn varint_len(d: Seq<u8>, start: int, fuel: nat) -> Option<int>
    decreases fuel,
{
    if fuel == 0 || start < 0 || start >= d.len() {
        None
    } else if d[start] < 128 {
        Some(1)
    } else {
        match varint_len(d, start + 1, (fuel - 1) as nat) {
            Some(n) => Some(n + 1),
            None => None,
        }
    }
}

/// Value of a varint of `count` bytes starting at `start`: each byte
/// contributes its low seven bits, least significant group first.
pub open spec fn varint_val(d: Seq<u8>, start: int, count: int) -> u64
    decreases count,
{
    if count <= 0 {
        0
    } else {
        varint_val(d, start, count - 1) | (((d[start + count - 1] & 0x7f) as u64) << (
        7 * (count - 1)))
    }
}

/// A terminator at offset `k` with continuation bytes before it pins the
/// varint length to `k + 1`.
proof fn lemma_varint_len_found(d: Seq<u8>, start: int, k: int, fuel: nat)
    requires
        0 <= start,
        0 <= k < fuel,
        start + k < d.len(),
        forall|j: int| 0 <= j < k ==> #[trigger] d[start + j] >= 128,
        d[start + k] < 128,
    ensures
        varint_len(d, start, fuel) == Some(k + 1),
    decreases k,
{
    if k > 0 {
        assert(d[start + 0] >= 128);
        assert forall|j: int| 0 <= j < k - 1 implies #[trigger] d[(start + 1) + j] >= 128 by {
            assert(d[start + (j + 1)] >= 128);
        }
        lemma_varint_len_found(d, start + 1, k - 1, (fuel - 1) as nat);
    }
}

/// If every byte in the window has the continuation bit, no varint ends
/// there.
proof fn lemma_varint_len_none(d: Seq<u8>, start: int, fuel: nat)
    requires
        0 <= start,
        forall|j: int| 0 <= j < fuel && start + j < d.len() ==> #[trigger] d[start + j] >= 128,
    ensures
        varint_len(d, start, fuel) is None,
    decreases fuel,
{
    if fuel > 0 && start < d.len() {
        assert(d[start + 0] >= 128);
        assert forall|j: int| 0 <= j < fuel - 1 && (start + 1) + j < d.len() implies #[trigger] d[(
        start + 1) + j] >= 128 by {
            assert(d[start + (j + 1)] >= 128);
        }
        lemma_varint_len_none(d, start + 1, (fuel - 1) as nat);
    }
}

/// A parsed varint lies within the data and within the ten-byte window.
pub proof fn lemma_varint_len_bounds(d: Seq<u8>, start: int, fuel: nat)
    requires
        varint_len(d, start, fuel) is Some,
    ensures
        1 <= varint_len(d, start, fuel)->0 <= fuel,
        start + varint_len(d, start, fuel)->0 <= d.len(),
    decreases fuel,
{
    if d[start] >= 128 {
        lemma_varint_len_bounds(d, start + 1, (fuel - 1) as nat);
    }
}

/// Clamps a scan position to the end of the data.
pub open spec fn scan_clamp(next: int, len: int) -> int {
    if next > len {
        len
    } else {
        next
    }
}

/// One pass over a nested piece record: keeps the text of the first
/// `(field 1, wire 2)` entry, skips everything else by wire type, stops at
/// an unknown wire type, and fails (`None`) on a malformed varint.
pub open spec fn piece_scan(d: Seq<u8>, pos: int, cur: Seq<char>, found: bool) -> Option<Seq<char>>
    decreases d.len() - pos,
    via piece_scan_dec
{
    if pos < 0 || pos >= d.len() {
        Some(cur)
    } else {
        match varint_len(d, pos, 10) {
            None => None,
            Some(hn) => {
                let hdr = varint_val(d, pos, hn);
                let p1 = pos + hn;
                if hdr & 7 == 2 && hdr >> 3 == 1 {
                    match varint_len(d, p1, 10) {
                        None => None,
                        Some(ln) => {
                            let l = varint_val(d, p1, ln) as int;
                            let p2 = p1 + ln;
                            if p2 + l <= d.len() {
                                if found {
                                    piece_scan(d, p2 + l, cur, true)
                                } else {
                                    piece_scan(d, p2 + l, lossy_decode(d.subrange(p2, p2 + l)), true)
                                }
                            } else {
                                piece_scan(d, d.len() as int, cur, found)
                            }
                        },
                    }
                } else if hdr & 7 == 0 {
                    match varint_len(d, p1, 10) {
                        None => None,
                        Some(vn) => piece_scan(d, p1 + vn, cur, found),
                    }
                } else if hdr & 7 == 1 {
                    piece_scan(d, scan_clamp(p1 + 8, d.len() as int), cur, found)
                } else if hdr & 7 == 2 {
                    match varint_len(d, p1, 10) {
                        None => None,
                        Some(ln) => piece_scan(
                            d,
                            scan_clamp(p1 + ln + varint_val(d, p1, ln) as int, d.len() as int),
                            cur,
                            found,
                        ),
                    }
                } else if hdr & 7 == 5 {
                    piece_scan(d, scan_clamp(p1 + 4, d.len() as int), cur, found)
                } else {
                    Some(cur)
                }
            },
        }
    }
}

#[via_fn]
proof fn piece_scan_dec(d: Seq<u8>, pos: int, cur: Seq<char>, found: bool) {
    if 0 <= pos < d.len() {
        if varint_len(d, pos, 10) is Some {
            lemma_varint_len_bounds(d, pos, 10);
            let hn = varint_len(d, pos, 10)->0;
            if varint_len(d, pos + hn, 10) is Some {
                lemma_varint_len_bounds(d, pos + hn, 10);
            }
        }
    }
}

/// One pass over the whole model stream: each well-formed
/// `(field 1, wire 2)` record that still fits in the data contributes its
/// piece text; a record that overruns the data ends the scan; a malformed
/// top-level varint fails the scan.
pub open spec fn model_scan(d: Seq<u8>, pos: int, acc: Seq<Seq<char>>) -> Option<Seq<Seq<char>>>
    decreases d.len() - pos,
    via model_scan_dec
{
    if pos < 0 || pos >= d.len() {
        Some(acc)
    } else {
        match varint_len(d, pos, 10) {
            None => None,
            Some(hn) => {
                let hdr = varint_val(d, pos, hn);
                let p1 = pos + hn;
                if hdr & 7 == 2 && hdr >> 3 == 1 {
                    match varint_len(d, p1, 10) {
                        None => None,
                        Some(ln) => {
                            let l = varint_val(d, p1, ln) as int;
                            let p2 = p1 + ln;
                            if p2 + l <= d.len() {
                                let sub = d.subrange(p2, p2 + l);
                                let acc2 = match piece_scan(sub, 0, Seq::<char>::empty(), false) {
                                    Some(p) => acc.push(p),
                                    None => acc,
                                };
                                model_scan(d, p2 + l, acc2)
                            } else {
                                Some(acc)
                            }
                        },
                    }
                } else if hdr & 7 == 0 {
                    match varint_len(d, p1, 10) {
                        None => None,
                        Some(vn) => model_scan(d, p1 + vn, acc),
                    }
                } else if hdr & 7 == 1 {
                    model_scan(d, scan_clamp(p1 + 8, d.len() as int), acc)
                } else if hdr & 7 == 2 {
                    match varint_len(d, p1, 10) {
                        None => None,
                        Some(ln) => model_scan(
                            d,
                            scan_clamp(p1 + ln + varint_val(d, p1, ln) as int, d.len() as int),
                            acc,
                        ),
                    }
                } else if hdr & 7 == 5 {
                    model_scan(d, scan_clamp(p1 + 4, d.len() as int), acc)
                } else {
                    Some(acc)
                }
            },
        }
    }
}

#[via_fn]
proof fn model_scan_dec(d: Seq<u8>, pos: int, acc: Seq<Seq<char>>) {
    if 0 <= pos < d.len() {
        if varint_len(d, pos, 10) is Some {
            lemma_varint_len_bounds(d, pos, 10);
            let hn = varint_len(d, pos, 10)->0;
            if varint_len(d, pos + hn, 10) is Some {
                lemma_varint_len_bounds(d, pos + hn, 10);
            }
        }
    }
}

/// Display text contributed by one id: the display form of its piece, or
/// nothing for an out-of-range id.
pub open spec fn id_display(pieces: Seq<Seq<char>>, id: usize) -> Seq<char> {
    if (id as int) < pieces.len() {
        piece_display(pieces[id as int])
    } else {
        Seq::<char>::empty()
    }
}

/// Concatenated display text of a sequence of ids, before trimming.
pub open spec fn decode_ids(pieces: Seq<Seq<char>>, ids: Seq<usize>) -> Seq<char>
    decreases ids.len(),
{
    if ids.len() == 0 {
        Seq::<char>::empty()
    } else {
        decode_ids(pieces, ids.drop_last()) + id_display(pieces, ids.last())
    }
}

/// Piece inventory of a SentencePiece model, indexed by token id.
pub struct SentencePieceVocab {
    pieces: Vec<String>,
}

impl View for SentencePieceVocab {
    type V = Seq<Seq<char>>;

    closed spec fn view(&self) -> Seq<Seq<char>> {
        self.pieces.deep_view()
    }
}

impl SentencePieceVocab {
    /// Builds a vocabulary directly from its piece strings.
    pub fn from_pieces(pieces: Vec<String>) -> (r: Self)
        ensures
            r@ == pieces.deep_view(),
    {
        SentencePieceVocab { pieces }
    }

    /// Reads one varint beginning at `start`: low seven bits per byte,
    /// least significant group first, at most ten bytes. Fails when the
    /// data ends or the window closes before a terminating byte.
    pub fn read_varint(data: &[u8], start: usize) -> (r: Result<(u64, usize), AsrError>)
        requires
            start <= data@.len(),
        ensures
            match varint_len(data@, start as int, 10) {
                Some(n) => r is Ok && r->Ok_0.0 == varint_val(data@, start as int, n)
                    && r->Ok_0.1 == n && 1 <= n <= 10 && start + n <= data@.len(),
                None => r is Err && r->Err_0 is Tokenizer,
            },
    {
        let mut result: u64 = 0;
        let mut pos: usize = 0;
        while pos < data.len() - start && pos < 10
            invariant
                start <= data@.len(),
                0 <= pos <= 10,
                start + pos <= data@.len(),
                result == varint_val(data@, start as int, pos as int),
                forall|j: int| 0 <= j < pos ==> #[trigger] data@[start + j] >= 128,
            decreases data@.len() - start - pos,
        {
            let byte = data[start + pos];
            let shift: usize = 7 * pos;
            result = result | (((byte & 0x7f) as u64) << shift);
            pos = pos + 1;
            assert(result == varint_val(data@, start as int, pos as int));
            if byte < 128 {
                proof {
                    lemma_varint_len_found(data@, start as int, pos - 1, 10);
                }
                return Ok((result, pos));
            }
        }
        proof {
            lemma_varint_len_none(data@, start as int, 10);
        }
        Err(AsrError::Tokenizer(String::from_str("Invalid varint")))
    }

    /// Extracts the piece text from one nested piece record, as
    /// `piece_scan` describes; the empty string when the record holds no
    /// text field.
    #[verifier::rlimit(50)]
    pub fn parse_piece_message(data: &[u8]) -> (r: Result<String, AsrError>)
        ensures
            piece_scan(data@, 0, Seq::<char>::empty(), false) is Some ==> r is Ok && r->Ok_0@
                == piece_scan(data@, 0, Seq::<char>::empty(), false)->0,
            piece_scan(data@, 0, Seq::<char>::empty(), false) is None ==> r is Err && r->Err_0
                is Tokenizer,
    {
        let ghost target = piece_scan(data@, 0, Seq::<char>::empty(), false);
        let mut piece = String::new();
        let mut found = false;
        let mut pos: usize = 0;
        while pos < data.len()
            invariant
                target == piece_scan(data@, 0, Seq::<char>::empty(), false),
                pos <= data@.len(),
                piece_scan(data@, pos as int, piece@, found) == target,
            decreases data@.len() - pos,
        {
            let (hdr, hn) = match Self::read_varint(data, pos) {
                Ok(v) => v,
                Err(e) => {
                    return Err(e);
                },
            };
            let p1 = pos + hn;
            let wire = hdr & 7;
            let field = hdr >> 3;
            if wire == 2 && field == 1 {
                let (l, ln) = match Self::read_varint(data, p1) {
                    Ok(v) => v,
                    Err(e) => {
                        return Err(e);
                    },
                };
                let p2 = p1 + ln;
                let avail = (data.len() - p2) as u64;
                if l <= avail {
                    let lu = l as usize;
                    if !found {
                        let sub = vstd::slice::slice_subrange(data, p2, p2 + lu);
                        piece = bytes_to_string_lossy(sub);
                        found = true;
                    }
                    pos = p2 + lu;
                } else {
                    pos = data.len();
                }
            } else if wire == 0 {
                let (_v, vn) = match Self::read_varint(data, p1) {
                    Ok(v) => v,
                    Err(e) => {
                        return Err(e);
                    },
                };
                pos = p1 + vn;
            } else if wire == 1 {
                if data.len() - p1 < 8 {
                    pos = data.len();
                } else {
                    pos = p1 + 8;
                }
            } else if wire == 2 {
                let (l, ln) = match Self::read_varint(data, p1) {
                    Ok(v) => v,
                    Err(e) => {
                        return Err(e);
                    },
                };
                let p2 = p1 + ln;
                let avail = (data.len() - p2) as u64;
                if l <= avail {
                    pos = p2 + (l as usize);
                } else {
                    pos = data.len();
                }
            } else if wire == 5 {
                if data.len() - p1 < 4 {
                    pos = data.len();
                } else {
                    pos = p1 + 4;
                }
            } else {
                return Ok(piece);
            }
        }
        Ok(piece)
    }

    /// Scans the whole model stream and collects the piece texts, as
    /// `model_scan` describes. Fails on a malformed top-level varint and
    /// when no piece at all is recovered.
    #[verifier::rlimit(50)]
    pub fn parse_sentencepiece_model(data: &[u8]) -> (r: Result<Vec<String>, AsrError>)
        ensures
            model_scan(data@, 0, Seq::<Seq<char>>::empty()) is Some && model_scan(
                data@,
                0,
                Seq::<Seq<char>>::empty(),
            )->0.len() > 0 ==> r is Ok && r->Ok_0.deep_view() == model_scan(
                data@,
                0,
                Seq::<Seq<char>>::empty(),
            )->0,
            model_scan(data@, 0, Seq::<Seq<char>>::empty()) is Some && model_scan(
                data@,
                0,
                Seq::<Seq<char>>::empty(),
            )->0.len() == 0 ==> r is Err && r->Err_0 is Tokenizer,
            model_scan(data@, 0, Seq::<Seq<char>>::empty()) is None ==> r is Err && r->Err_0
                is Tokenizer,
    {
        let ghost target = model_scan(data@, 0, Seq::<Seq<char>>::empty());
        let mut pieces: Vec<String> = Vec::new();
        proof {
            assert(pieces.deep_view() =~= Seq::<Seq<char>>::empty());
        }
        let mut pos: usize = 0;
        let mut stopped = false;
        while pos < data.len() && !stopped
            invariant
                target == model_scan(data@, 0, Seq::<Seq<char>>::empty()),
                pos <= data@.len(),
                stopped ==> target == Some(pieces.deep_view()),
                !stopped ==> model_scan(data@, pos as int, pieces.deep_view()) == target,
            decreases data@.len() - pos, (if stopped { 0int } else { 1int }),
        {
            let (hdr, hn) = match Self::read_varint(data, pos) {
                Ok(v) => v,
                Err(e) => {
                    return Err(e);
                },
            };
            let p1 = pos + hn;
            let wire = hdr & 7;
            let field = hdr >> 3;
            if wire == 2 && field == 1 {
                let (l, ln) = match Self::read_varint(data, p1) {
                    Ok(v) => v,
                    Err(e) => {
                        return Err(e);
                    },
                };
                let p2 = p1 + ln;
                let avail = (data.len() - p2) as u64;
                if l <= avail {
                    let lu = l as usize;
                    let sub = vstd::slice::slice_subrange(data, p2, p2 + lu);
                    match Self::parse_piece_message(sub) {
                        Ok(p) => {
                            let ghost before = pieces.deep_view();
                            pieces.push(p);
                            proof {
                                assert(pieces.deep_view() =~= before.push(p@));
                            }
                        },
                        Err(_) => {
                        },
                    }
                    pos = p2 + lu;
                } else {
                    stopped = true;
                }
            } else if wire == 0 {
                let (_v, vn) = match Self::read_varint(data, p1) {
                    Ok(v) => v,
                    Err(e) => {
                        return Err(e);
                    },
                };
                pos = p1 + vn;
            } else if wire == 1 {
                if data.len() - p1 < 8 {
                    pos = data.len();
                } else {
                    pos = p1 + 8;
                }
            } else if wire == 2 {
                let (l, ln) = match Self::read_varint(data, p1) {
                    Ok(v) => v,
                    Err(e) => {
                        return Err(e);
                    },
                };
                let p2 = p1 + ln;
                let avail = (data.len() - p2) as u64;
                if l <= avail {
                    pos = p2 + (l as usize);
                } else {
                    pos = data.len();
                }
            } else if wire == 5 {
                if data.len() - p1 < 4 {
                    pos = data.len();
                } else {
                    pos = p1 + 4;
                }
            } else {
                stopped = true;
            }
        }
        if pieces.len() == 0 {
            return Err(AsrError::Tokenizer(String::from_str("No tokens found in model")));
        }
        Ok(pieces)
    }

    /// Parses a model file held in memory into a vocabulary.
    pub fn parse(data: &[u8]) -> (r: Result<Self, AsrError>)
        ensures
            model_scan(data@, 0, Seq::<Seq<char>>::empty()) is Some && model_scan(
                data@,
                0,
                Seq::<Seq<char>>::empty(),
            )->0.len() > 0 ==> r is Ok && r->Ok_0@ == model_scan(
                data@,
                0,
                Seq::<Seq<char>>::empty(),
            )->0,
            model_scan(data@, 0, Seq::<Seq<char>>::empty()) is Some && model_scan(
                data@,
                0,
                Seq::<Seq<char>>::empty(),
            )->0.len() == 0 ==> r is Err && r->Err_0 is Tokenizer,
            model_scan(data@, 0, Seq::<Seq<char>>::empty()) is None ==> r is Err && r->Err_0
                is Tokenizer,
    {
        let pieces = Self::parse_sentencepiece_model(data)?;
        Ok(SentencePieceVocab { pieces })
    }

    /// Concatenated display text of the given ids, with leading spaces
    /// removed; out-of-range ids contribute nothing.
    pub fn decode(&self, ids: &[usize]) -> (r: String)
        ensures
            r@ == trim_leading_spaces(decode_ids(self@, ids@)),
    {
        let mut out = String::new();
        let mut i: usize = 0;
        while i < ids.len()
            invariant
                i <= ids@.len(),
                out@ == decode_ids(self@, ids@.subrange(0, i as int)),
            decreases ids@.len() - i,
        {
            let id = ids[i];
            if id < self.pieces.len() {
                let disp = display_piece(&self.pieces[id]);
                out.append(disp.as_str());
                proof {
                    assert(self.pieces.deep_view()[id as int] == self.pieces@[id as int]@);
                }
            }
            i = i + 1;
            proof {
                let sub = ids@.subrange(0, i as int);
                assert(sub.drop_last() =~= ids@.subrange(0, i - 1));
                assert(sub.last() == ids@[i - 1]);
            }
        }
        proof {
            assert(ids@.subrange(0, ids@.len() as int) =~= ids@);
        }
        trim_start_spaces(&out)
    }

    /// Display text of one id; the empty string for an out-of-range id.
    pub fn decode_single(&self, id: usize) -> (r: String)
        ensures
            r@ == id_display(self@, id),
    {
        if id < self.pieces.len() {
            let r = display_piece(&self.pieces[id]);
            proof {
                assert(self.pieces.deep_view()[id as int] == self.pieces@[id as int]@);
            }
            r
        } else {
            String::new()
        }
    }

    /// Number of pieces in the vocabulary.
    pub fn size(&self) -> (r: usize)
        ensures
            r == self@.len(),
    {
        self.pieces.len()
    }
}

} // verus!
