//! Token-to-text detokenizer with SentencePiece word-boundary decoding and
//! the digit-spacing heuristic.
//!
//! SentencePiece digit pieces lack the word-boundary marker, which would
//! glue a number to the word before it ("at60"). When a purely numeric
//! piece follows trailing letters, a space is inserted — unless the text
//! ends in a single letter other than 'a', which keeps designators such as
//! "A4" together while the article "a" still separates ("a 24").

use vstd::prelude::*;
use vstd::string::StrSliceExecFns;
use vstd::string::StringExecFns;
use crate::error::AsrError;
use crate::text::{alpha, is_digit_char, piece_display, display_piece, trim_spaces,
    trim_both_spaces, push_char};

verus! {

/// Token inventory for the TDT decoder, indexed by id.
#[derive(Debug)]
pub struct Vocabulary {
    pub id_to_token: Vec<String>,
    pub _blank_id: usize,
}

impl Vocabulary {
    /// The piece text of an id, if the id is in range.
    pub fn id_to_text(&self, id: usize) -> (r: Option<&String>)
        ensures
            (id as int) < self.id_to_token@.len() ==> r is Some && r->0@
                == self.id_to_token@[id as int]@,
            (id as int) >= self.id_to_token@.len() ==> r is None,
    {
        if id < self.id_to_token.len() {
            Some(&self.id_to_token[id])
        } else {
            None
        }
    }
}

/// One decoded token: its display text and the sample positions its
/// acoustic frame spans (divide by the sample rate for seconds).
#[derive(Debug)]
pub struct TimedToken {
    pub text: String,
    pub start: usize,
    pub end: usize,
}

/// A decoded utterance: the full text and the per-token pieces.
#[derive(Debug)]
pub struct TranscriptionResult {
    pub text: String,
    pub tokens: Vec<TimedToken>,
}

/// Number of alphabetic characters at the end of the text.
pub open spec fn trailing_alpha(s: Seq<char>) -> nat
    decreases s.len(),
{
    if s.len() == 0 {
        0
    } else if alpha(s.last()) {
        1 + trailing_alpha(s.drop_last())
    } else {
        0
    }
}

/// Every character is an ASCII decimal digit (vacuously true of empty
/// text).
pub open spec fn all_digits(s: Seq<char>) -> bool {
    forall|i: int| 0 <= i < s.len() ==> is_digit_char(#[trigger] s[i])
}

/// Whether the heuristic puts a space before a display text: the
/// accumulated text is non-empty, the display text does not already begin
/// with a space and is purely numeric, and the text ends either in more
/// than one letter or in the single letter 'a'.
pub open spec fn needs_space(full: Seq<char>, disp: Seq<char>) -> bool {
    &&& full.len() > 0
    &&& !(disp.len() > 0 && disp[0] == ' ')
    &&& all_digits(disp)
    &&& (trailing_alpha(full) > 1 || (trailing_alpha(full) == 1 && full.last() == 'a'))
}

/// The literal piece `<unk>`.
pub open spec fn unk_piece() -> Seq<char> {
    seq!['<', 'u', 'n', 'k', '>']
}

/// A special piece: bracketed `<…>`, except the literal `<unk>`.
pub open spec fn is_special(p: Seq<char>) -> bool {
    p.len() > 0 && p[0] == '<' && p.last() == '>' && p != unk_piece()
}

/// Display text of an in-range id against the text built so far: the
/// word-boundary marker becomes a space, and the heuristic may prepend one
/// more.
pub open spec fn disp_of(pieces: Seq<Seq<char>>, full: Seq<char>, id: usize) -> Seq<char> {
    let d0 = piece_display(pieces[id as int]);
    if needs_space(full, d0) {
        seq![' '] + d0
    } else {
        d0
    }
}

/// The accumulated text after the first `n` tokens: specials and
/// out-of-range ids contribute nothing, every other token appends its
/// display text.
pub open spec fn tdt_full(pieces: Seq<Seq<char>>, ids: Seq<usize>, n: int) -> Seq<char>
    decreases n,
{
    if n <= 0 {
        Seq::<char>::empty()
    } else {
        let prev = tdt_full(pieces, ids, n - 1);
        let id = ids[n - 1];
        if (id as int) < pieces.len() {
            if is_special(pieces[id as int]) {
                prev
            } else {
                prev + disp_of(pieces, prev, id)
            }
        } else {
            prev
        }
    }
}

/// The emitted tokens after the first `n` ids: each kept token's display
/// text, paired with its position in the input.
pub open spec fn tdt_outs(pieces: Seq<Seq<char>>, ids: Seq<usize>, n: int) -> Seq<
    (Seq<char>, int),
>
    decreases n,
{
    if n <= 0 {
        Seq::<(Seq<char>, int)>::empty()
    } else {
        let prev_full = tdt_full(pieces, ids, n - 1);
        let prev = tdt_outs(pieces, ids, n - 1);
        let id = ids[n - 1];
        if (id as int) < pieces.len() {
            if is_special(pieces[id as int]) {
                prev
            } else {
                prev.push((disp_of(pieces, prev_full, id), n - 1))
            }
        } else {
            prev
        }
    }
}

/// Start of frame `i`'s span, in samples.
pub open spec fn tok_start(frames: Seq<usize>, i: int, hop: usize) -> int {
    frames[i] * 8 * hop
}

/// End of the span that begins at input position `i`: the next token's
/// start, or ten milliseconds past this one's when it is the last.
pub open spec fn tok_end(frames: Seq<usize>, i: int, hop: usize, sr: usize) -> int {
    if i + 1 < frames.len() {
        frames[i + 1] * 8 * hop
    } else {
        frames[i] * 8 * hop + sr / 100
    }
}

/// A run of alphabetic characters at the end, stopped by a non-alphabetic
/// one, pins the trailing-letter count.
proof fn lemma_trailing_alpha_at(s: Seq<char>, k: int)
    requires
        0 <= k <= s.len(),
        forall|j: int| 0 <= j < k ==> alpha(#[trigger] s[s.len() - 1 - j]),
        k < s.len() ==> !alpha(s[s.len() - 1 - k]),
    ensures
        trailing_alpha(s) == k,
    decreases k,
{
    if k == 0 {
    } else {
        assert(alpha(s[s.len() - 1 - 0]));
        let t = s.drop_last();
        assert forall|j: int| 0 <= j < k - 1 implies alpha(#[trigger] t[t.len() - 1 - j]) by {
            assert(t[t.len() - 1 - j] == s[s.len() - 1 - (j + 1)]);
        }
        if k - 1 < t.len() {
            assert(t[t.len() - 1 - (k - 1)] == s[s.len() - 1 - k]);
        }
        lemma_trailing_alpha_at(t, k - 1);
    }
}

/// Counts the alphabetic characters at the end of the text.
fn count_trailing_alpha(s: &String) -> (r: usize)
    ensures
        r == trailing_alpha(s@),
{
    let st = s.as_str();
    let n = st.unicode_len();
    let mut k: usize = 0;
    while k < n && st.get_char(n - 1 - k).is_alphabetic()
        invariant
            0 <= k <= n,
            n == s@.len(),
            st@ == s@,
            forall|j: int| 0 <= j < k ==> alpha(#[trigger] s@[n - 1 - j]),
        decreases n - k,
    {
        k = k + 1;
    }
    proof {
        lemma_trailing_alpha_at(s@, k as int);
    }
    k
}

/// Tests whether the text consists of ASCII digits only.
fn all_ascii_digits(s: &String) -> (r: bool)
    ensures
        r == all_digits(s@),
{
    let st = s.as_str();
    let n = st.unicode_len();
    let mut i: usize = 0;
    while i < n
        invariant
            0 <= i <= n,
            n == s@.len(),
            st@ == s@,
            forall|j: int| 0 <= j < i ==> is_digit_char(#[trigger] s@[j]),
        decreases n - i,
    {
        let c = st.get_char(i);
        let u = c as u32;
        if !(48 <= u && u <= 57) {
            return false;
        }
        i = i + 1;
    }
    true
}

/// Tests whether a raw piece is a special `<…>` token other than `<unk>`.
fn special_piece(s: &String) -> (r: bool)
    ensures
        r == is_special(s@),
{
    let st = s.as_str();
    let n = st.unicode_len();
    if n == 0 || st.get_char(0) != '<' || st.get_char(n - 1) != '>' {
        return false;
    }
    let unk = n == 5 && st.get_char(1) == 'u' && st.get_char(2) == 'n' && st.get_char(3) == 'k';
    proof {
        if unk {
            assert(s@ =~= unk_piece());
        } else {
            if s@ == unk_piece() {
                assert(s@.len() == 5);
                assert(s@[1] == 'u' && s@[2] == 'n' && s@[3] == 'k');
            }
        }
    }
    !unk
}

/// Greedy TDT decoder: turns already-decoded token ids into text. The
/// acoustic search happens inside the model; this stage only renders
/// pieces, applies the digit-spacing heuristic, and drops specials.
#[derive(Debug)]
pub struct ParakeetTDTDecoder {
    vocab: Vocabulary,
}

impl View for ParakeetTDTDecoder {
    type V = Seq<Seq<char>>;

    closed spec fn view(&self) -> Seq<Seq<char>> {
        self.vocab.id_to_token.deep_view()
    }
}

impl ParakeetTDTDecoder {
    /// Builds the decoder around a vocabulary.
    pub fn from_vocab(vocab: Vocabulary) -> (r: Self)
        ensures
            r@ == vocab.id_to_token.deep_view(),
    {
        ParakeetTDTDecoder { vocab }
    }

    /// Renders token ids to text with per-token sample spans. The encoder
    /// subsamples by eight, so frame `f` starts at sample
    /// `f · 8 · hop_length`. `durations` is accepted for interface
    /// compatibility and not consulted.
    pub fn decode_with_timestamps(
        &self,
        tokens: &[usize],
        frame_indices: &[usize],
        _durations: &[usize],
        hop_length: usize,
        sample_rate: usize,
    ) -> (r: Result<TranscriptionResult, AsrError>)
        requires
            frame_indices@.len() >= tokens@.len(),
            hop_length >= 1,
            forall|i: int| 0 <= i < frame_indices@.len() ==> #[trigger] (frame_indices@[i] * 8
                * hop_length) <= usize::MAX - sample_rate,
        ensures
            r is Ok,
            r->Ok_0.text@ == trim_spaces(tdt_full(self@, tokens@, tokens@.len() as int)),
            r->Ok_0.tokens@.len() == tdt_outs(self@, tokens@, tokens@.len() as int).len(),
            forall|j: int| 0 <= j < r->Ok_0.tokens@.len() ==> {
                let out = tdt_outs(self@, tokens@, tokens@.len() as int)[j];
                #[trigger] r->Ok_0.tokens@[j].text@ == out.0 && r->Ok_0.tokens@[j].start
                    == tok_start(frame_indices@, out.1, hop_length) && r->Ok_0.tokens@[j].end
                    == tok_end(frame_indices@, out.1, hop_length, sample_rate)
            },
    {
        let ghost v = self@;
        let mut full = String::new();
        let mut out_tokens: Vec<TimedToken> = Vec::new();
        let mut i: usize = 0;
        while i < tokens.len()
            invariant
                v == self@,
                frame_indices@.len() >= tokens@.len(),
                hop_length >= 1,
                forall|t: int| 0 <= t < frame_indices@.len() ==> #[trigger] (frame_indices@[t] * 8
                    * hop_length) <= usize::MAX - sample_rate,
                0 <= i <= tokens@.len(),
                full@ == tdt_full(v, tokens@, i as int),
                out_tokens@.len() == tdt_outs(v, tokens@, i as int).len(),
                forall|j: int| 0 <= j < out_tokens@.len() ==> #[trigger] out_tokens@[j].text@
                    == tdt_outs(v, tokens@, i as int)[j].0,
                forall|j: int| 0 <= j < out_tokens@.len() ==> #[trigger] out_tokens@[j].start
                    == tok_start(frame_indices@, tdt_outs(v, tokens@, i as int)[j].1, hop_length),
                forall|j: int| 0 <= j < out_tokens@.len() ==> #[trigger] out_tokens@[j].end
                    == tok_end(
                    frame_indices@,
                    tdt_outs(v, tokens@, i as int)[j].1,
                    hop_length,
                    sample_rate,
                ),
            decreases tokens@.len() - i,
        {
            let ghost full0 = full@;
            let ghost outs0 = out_tokens@;
            let id = tokens[i];
            if id < self.vocab.id_to_token.len() {
                let raw = &self.vocab.id_to_token[id];
                proof {
                    assert(v[id as int] == self.vocab.id_to_token@[id as int]@);
                }
                let mut disp = display_piece(raw);
                let full_len = full.as_str().unicode_len();
                let starts_space = {
                    let d = disp.as_str();
                    d.unicode_len() > 0 && d.get_char(0) == ' '
                };
                if full_len > 0 && !starts_space && all_ascii_digits(&disp) {
                    let trailing = count_trailing_alpha(&full);
                    let last_is_a = trailing == 1 && full.as_str().get_char(full_len - 1) == 'a';
                    if trailing > 1 || last_is_a {
                        let mut spaced = String::new();
                        push_char(&mut spaced, ' ');
                        spaced.append(disp.as_str());
                        proof {
                            assert(spaced@ =~= seq![' '] + piece_display(v[id as int]));
                        }
                        disp = spaced;
                    }
                }
                proof {
                    assert(disp@ == disp_of(v, full@, id));
                }
                if !special_piece(raw) {
                    proof {
                        let f = frame_indices@[i as int];
                        assert(f * 8 * hop_length <= usize::MAX - sample_rate);
                        assert(f * 8 <= f * 8 * hop_length) by (nonlinear_arith)
                            requires
                                hop_length >= 1,
                                f >= 0,
                        ;
                        if i + 1 < frame_indices@.len() {
                            let g = frame_indices@[i + 1];
                            assert(g * 8 * hop_length <= usize::MAX - sample_rate);
                            assert(g * 8 <= g * 8 * hop_length) by (nonlinear_arith)
                                requires
                                    hop_length >= 1,
                                    g >= 0,
                            ;
                        }
                    }
                    let start = frame_indices[i] * 8 * hop_length;
                    let end = if i + 1 < frame_indices.len() {
                        frame_indices[i + 1] * 8 * hop_length
                    } else {
                        start + sample_rate / 100
                    };
                    let ghost dv = disp@;
                    full.append(disp.as_str());
                    out_tokens.push(TimedToken { text: disp, start, end });
                    proof {
                        let n = i + 1;
                        assert(tdt_outs(v, tokens@, n) == tdt_outs(v, tokens@, i as int).push(
                            (dv, i as int),
                        ));
                        assert forall|j: int| 0 <= j < out_tokens@.len() implies {
                            #[trigger] out_tokens@[j].text@ == tdt_outs(v, tokens@, n)[j].0
                                && out_tokens@[j].start == tok_start(
                                frame_indices@,
                                tdt_outs(v, tokens@, n)[j].1,
                                hop_length,
                            ) && out_tokens@[j].end == tok_end(
                                frame_indices@,
                                tdt_outs(v, tokens@, n)[j].1,
                                hop_length,
                                sample_rate,
                            )
                        } by {
                            if j < out_tokens@.len() - 1 {
                                assert(tdt_outs(v, tokens@, n)[j] == tdt_outs(v, tokens@, i as int)[j]);
                                assert(out_tokens@[j] == outs0[j]);
                                assert(outs0[j].text@ == tdt_outs(v, tokens@, i as int)[j].0);
                                assert(outs0[j].start == tok_start(
                                    frame_indices@,
                                    tdt_outs(v, tokens@, i as int)[j].1,
                                    hop_length,
                                ));
                                assert(outs0[j].end == tok_end(
                                    frame_indices@,
                                    tdt_outs(v, tokens@, i as int)[j].1,
                                    hop_length,
                                    sample_rate,
                                ));
                            } else {
                                assert(out_tokens@[j].text@ == dv);
                                assert(tdt_outs(v, tokens@, n)[j] == (dv, i as int));
                                assert(out_tokens@[j].start == tok_start(
                                    frame_indices@,
                                    i as int,
                                    hop_length,
                                ));
                                assert(out_tokens@[j].end == tok_end(
                                    frame_indices@,
                                    i as int,
                                    hop_length,
                                    sample_rate,
                                ));
                            }
                        }
                    }
                } else {
                    proof {
                        assert(is_special(v[id as int]));
                        assert(tdt_outs(v, tokens@, i + 1) == tdt_outs(v, tokens@, i as int));
                        assert(tdt_full(v, tokens@, i + 1) == tdt_full(v, tokens@, i as int));
                    }
                }
            } else {
                proof {
                    assert((id as int) >= v.len());
                    assert(tdt_outs(v, tokens@, i + 1) == tdt_outs(v, tokens@, i as int));
                    assert(tdt_full(v, tokens@, i + 1) == tdt_full(v, tokens@, i as int));
                }
            }
            i = i + 1;
        }
        let text = trim_both_spaces(&full);
        Ok(TranscriptionResult { text, tokens: out_tokens })
    }
}

} // verus!
