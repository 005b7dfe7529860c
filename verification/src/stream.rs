//! Streaming state of the recognizer: the raw-audio buffer, the monotonic
//! stream cursor, the accumulated token stream, and the integer decisions
//! of the chunk pump — back-pressure, encoder-input assembly, cursor
//! advance and buffer truncation.
//!
//! The state is generic over the sample scalar `S`: nothing here reads a
//! sample's value. The host computes mel frames and runs the two graphs;
//! every decision about *which* samples and frames go where is taken here.

use vstd::prelude::*;
use crate::params::{WIN_LENGTH, HOP_LENGTH, VOCAB_SIZE, BLANK_ID, PRE_ENCODE_CACHE,
    MAX_SYMBOLS_PER_STEP};
use crate::vocab::{SentencePieceVocab, decode_ids, id_display};
use crate::text::trim_leading_spaces;
use crate::error::AsrError;
use vstd::string::StringExecFns;

verus! {

/// Mathematical image of a `StreamState`: the buffered samples, the
/// cursor, and the token stream.
#[verifier::ext_equal]
pub ghost struct StreamModel<S> {
    pub audio: Seq<S>,
    pub processed: int,
    pub chunk_idx: int,
    pub tokens: Seq<usize>,
    pub last_token: usize,
    pub chunk_size: int,
}

/// Number of mel frames of a centred short-time analysis over `len`
/// samples: the signal is padded by `N_FFT / 2 = 256` on each side, and a
/// window of `WIN_LENGTH = 400` advances by `HOP_LENGTH = 160`.
pub open spec fn mel_frames(len: int) -> int {
    if len <= 0 {
        0
    } else {
        1 + (len + 112) / 160
    }
}

/// Samples kept after truncation: one encoder input's worth of mel frames
/// plus one analysis window.
pub open spec fn keep_samples(cs: int) -> int {
    (9 + cs) * 160 + 400
}

/// Well-formed model: a positive bounded chunk size, non-negative cursor,
/// nothing processed before the first chunk, every accumulated token a
/// real token id, and a last token no larger than the blank.
pub open spec fn wf_model<S>(m: StreamModel<S>) -> bool {
    &&& 1 <= m.chunk_size <= 1000000
    &&& 0 <= m.processed
    &&& 0 <= m.chunk_idx
    &&& (m.chunk_idx == 0 ==> m.processed == 0)
    &&& forall|i: int| 0 <= i < m.tokens.len() ==> (#[trigger] m.tokens[i]) < VOCAB_SIZE
    &&& m.last_token <= BLANK_ID
}

/// The state of a freshly constructed recognizer.
pub open spec fn fresh_model<S>(cs: int) -> StreamModel<S> {
    StreamModel {
        audio: Seq::<S>::empty(),
        processed: 0,
        chunk_idx: 0,
        tokens: Seq::<usize>::empty(),
        last_token: BLANK_ID,
        chunk_size: cs,
    }
}

/// Appending a block of samples: nothing else moves.
pub open spec fn push_model<S>(m: StreamModel<S>, block: Seq<S>) -> StreamModel<S> {
    StreamModel { audio: m.audio + block, ..m }
}

/// Whether a pump may run: at least one full analysis window is buffered,
/// and at least `chunk_size` mel frames beyond the processed position are
/// available.
pub open spec fn pump_due<S>(m: StreamModel<S>) -> bool {
    &&& m.audio.len() >= WIN_LENGTH
    &&& mel_frames(m.audio.len() as int) - m.processed / 160 >= m.chunk_size
}

/// State after a successful pump that emitted `new_tokens` and left the
/// predictor on `new_last`: the cursor advances by one chunk, the tokens
/// are appended, and an over-full buffer is drained from the front — by at
/// most what has been processed, with the cursor reduced in lockstep.
pub open spec fn commit_model<S>(
    m: StreamModel<S>,
    new_tokens: Seq<usize>,
    new_last: usize,
) -> StreamModel<S> {
    let p1 = m.processed + m.chunk_size * 160;
    let len = m.audio.len() as int;
    let keep = keep_samples(m.chunk_size);
    let d = if len > 2 * keep {
        if len - keep <= p1 {
            len - keep
        } else {
            p1
        }
    } else {
        0
    };
    StreamModel {
        audio: m.audio.subrange(d, len),
        processed: p1 - d,
        chunk_idx: m.chunk_idx + 1,
        tokens: m.tokens + new_tokens,
        last_token: new_last,
        chunk_size: m.chunk_size,
    }
}

/// One whole `transcribe_chunk` call over the model: append the block,
/// then pump once if a pump is due.
pub open spec fn feed_model<S>(
    m: StreamModel<S>,
    block: Seq<S>,
    new_tokens: Seq<usize>,
    new_last: usize,
) -> StreamModel<S> {
    let m1 = push_model(m, block);
    if pump_due(m1) {
        commit_model(m1, new_tokens, new_last)
    } else {
        m1
    }
}

/// Placement of mel frames inside one fixed-shape encoder input: frames
/// `[cache_start, cache_start + cache_frames)` fill slots
/// `[cache_offset, PRE_ENCODE_CACHE)`, frames
/// `[main_start, main_start + main_len)` fill the next `main_len` slots,
/// and every other slot is zero.
#[derive(Clone, Copy, Debug, PartialEq, Eq, Structural)]
pub struct ChunkPlan {
    pub cache_start: usize,
    pub cache_frames: usize,
    pub cache_offset: usize,
    pub main_start: usize,
    pub main_len: usize,
    pub expected_size: usize,
}

/// Buffered samples with the stream cursor and token stream of one
/// utterance.
pub struct StreamState<S> {
    audio: Vec<S>,
    processed_samples: usize,
    chunk_idx: usize,
    tokens: Vec<usize>,
    last_token: usize,
    chunk_size: usize,
}

impl<S> View for StreamState<S> {
    type V = StreamModel<S>;

    closed spec fn view(&self) -> StreamModel<S> {
        StreamModel {
            audio: self.audio@,
            processed: self.processed_samples as int,
            chunk_idx: self.chunk_idx as int,
            tokens: self.tokens@,
            last_token: self.last_token,
            chunk_size: self.chunk_size as int,
        }
    }
}

/// Number of mel frames a buffer of `len` samples yields.
pub fn mel_frame_count(len: usize) -> (r: usize)
    requires
        len <= usize::MAX - 512,
    ensures
        r == mel_frames(len as int),
{
    if len == 0 {
        0
    } else {
        1 + (len + 112) / 160
    }
}

impl<S> StreamState<S> {
    /// A fresh stream for the given chunk size.
    pub fn new(chunk_size: usize) -> (r: Self)
        requires
            1 <= chunk_size <= 1000000,
        ensures
            r@ == fresh_model::<S>(chunk_size as int),
            wf_model(r@),
    {
        let r = StreamState {
            audio: Vec::new(),
            processed_samples: 0,
            chunk_idx: 0,
            tokens: Vec::new(),
            last_token: BLANK_ID,
            chunk_size,
        };
        proof {
            assert(r@ =~= fresh_model::<S>(chunk_size as int));
        }
        r
    }

    /// The configured chunk size, in mel frames.
    pub fn get_chunk_size(&self) -> (r: usize)
        ensures
            r == self@.chunk_size,
    {
        self.chunk_size
    }

    /// How many samples have been consumed by the encoder so far.
    pub fn processed_samples(&self) -> (r: usize)
        ensures
            r == self@.processed,
    {
        self.processed_samples
    }

    /// Index of the next chunk to pump.
    pub fn chunk_idx(&self) -> (r: usize)
        ensures
            r == self@.chunk_idx,
    {
        self.chunk_idx
    }

    /// The buffered samples, for the host's feature extraction.
    pub fn audio(&self) -> (r: &Vec<S>)
        ensures
            r@ == self@.audio,
    {
        &self.audio
    }

    /// The accumulated token stream.
    pub fn tokens(&self) -> (r: &Vec<usize>)
        ensures
            r@ == self@.tokens,
    {
        &self.tokens
    }

    /// The most recent non-blank token, or the blank at stream start.
    pub fn last_token(&self) -> (r: usize)
        ensures
            r == self@.last_token,
    {
        self.last_token
    }

    /// Clears every per-utterance field back to the fresh state; the chunk
    /// size is kept.
    pub fn reset(&mut self)
        requires
            wf_model(old(self)@),
        ensures
            final(self)@ == fresh_model::<S>(old(self)@.chunk_size),
            wf_model(final(self)@),
    {
        self.audio.clear();
        self.processed_samples = 0;
        self.chunk_idx = 0;
        self.tokens.clear();
        self.last_token = BLANK_ID;
        proof {
            assert(self@ =~= fresh_model::<S>(self.chunk_size as int));
        }
    }

    /// Appends a block of raw samples to the buffer; cursors and tokens do
    /// not move.
    pub fn push_audio(&mut self, block: Vec<S>)
        requires
            old(self)@.audio.len() + block@.len() <= usize::MAX,
        ensures
            final(self)@ == push_model(old(self)@, block@),
    {
        let mut incoming = block;
        self.audio.append(&mut incoming);
        proof {
            assert(self@ =~= push_model(old(self)@, block@));
        }
    }

    /// Decides whether a pump may run and, if so, how the encoder input is
    /// assembled. `None` exactly when less than one analysis window is
    /// buffered or fewer than `chunk_size` new mel frames are available;
    /// the state is never changed.
    pub fn plan_chunk(&self) -> (r: Option<ChunkPlan>)
        requires
            wf_model(self@),
            self@.audio.len() <= usize::MAX - 512,
        ensures
            r is Some <==> pump_due(self@),
            r matches Some(p) ==> {
                &&& p.main_start == self@.processed / 160
                &&& p.main_len == self@.chunk_size
                &&& p.expected_size == 9 + self@.chunk_size
                &&& (self@.chunk_idx == 0 ==> p.cache_start == 0 && p.cache_frames == 0
                    && p.cache_offset == 9)
                &&& (self@.chunk_idx > 0 ==> {
                    &&& p.cache_start == (if self@.processed / 160 >= 9 {
                        self@.processed / 160 - 9
                    } else {
                        0
                    })
                    &&& p.cache_frames == self@.processed / 160 - p.cache_start
                    &&& p.cache_offset == 9 - p.cache_frames
                })
                &&& p.cache_offset + p.cache_frames == 9
                &&& p.cache_start + p.cache_frames <= p.main_start
                &&& p.main_start + p.main_len <= mel_frames(self@.audio.len() as int)
            },
    {
        let total_audio = self.audio.len();
        if total_audio < WIN_LENGTH {
            return None;
        }
        let total_mel = mel_frame_count(total_audio);
        let processed_mel = self.processed_samples / HOP_LENGTH;
        let available = if total_mel >= processed_mel {
            total_mel - processed_mel
        } else {
            0
        };
        if available < self.chunk_size {
            return None;
        }
        if self.chunk_idx == 0 {
            Some(
                ChunkPlan {
                    cache_start: 0,
                    cache_frames: 0,
                    cache_offset: PRE_ENCODE_CACHE,
                    main_start: processed_mel,
                    main_len: self.chunk_size,
                    expected_size: PRE_ENCODE_CACHE + self.chunk_size,
                },
            )
        } else {
            let cache_start = if processed_mel >= PRE_ENCODE_CACHE {
                processed_mel - PRE_ENCODE_CACHE
            } else {
                0
            };
            let cache_frames = processed_mel - cache_start;
            Some(
                ChunkPlan {
                    cache_start,
                    cache_frames,
                    cache_offset: PRE_ENCODE_CACHE - cache_frames,
                    main_start: processed_mel,
                    main_len: self.chunk_size,
                    expected_size: PRE_ENCODE_CACHE + self.chunk_size,
                },
            )
        }
    }

    /// Records the outcome of one successful pump: appends the emitted
    /// tokens, adopts the run's last token, advances the cursor by one
    /// chunk, and drains the front of an over-full buffer. The old token
    /// stream stays a prefix of the new one.
    pub fn commit_chunk(&mut self, run: &DecodeRun)
        requires
            wf_model(old(self)@),
            pump_due(old(self)@),
            wf_run(run@),
            old(self)@.processed + old(self)@.chunk_size * 160 <= usize::MAX,
            old(self)@.chunk_idx < usize::MAX,
            old(self)@.tokens.len() + run@.tokens.len() <= usize::MAX,
        ensures
            final(self)@ == commit_model(old(self)@, run@.tokens, run@.last_token),
            wf_model(final(self)@),
            old(self)@.tokens.is_prefix_of(final(self)@.tokens),
    {
        let cs = self.chunk_size;
        let p1 = self.processed_samples + cs * 160;
        self.processed_samples = p1;
        self.chunk_idx = self.chunk_idx + 1;
        let mut k: usize = 0;
        while k < run.tokens.len()
            invariant
                0 <= k <= run.tokens@.len(),
                self.tokens@ == old(self).tokens@ + run.tokens@.subrange(0, k as int),
                self.processed_samples == p1,
                self.chunk_idx == old(self).chunk_idx + 1,
                self.audio@ == old(self).audio@,
                self.last_token == old(self).last_token,
                self.chunk_size == old(self).chunk_size,
            decreases run.tokens@.len() - k,
        {
            self.tokens.push(run.tokens[k]);
            proof {
                assert(run.tokens@.subrange(0, k + 1).drop_last() =~= run.tokens@.subrange(
                    0,
                    k as int,
                ));
                assert(self.tokens@ =~= old(self).tokens@ + run.tokens@.subrange(0, k + 1));
            }
            k = k + 1;
        }
        proof {
            assert(run.tokens@.subrange(0, run.tokens@.len() as int) =~= run.tokens@);
        }
        self.last_token = run.last_token;
        let keep = (PRE_ENCODE_CACHE + cs) * HOP_LENGTH + WIN_LENGTH;
        let len = self.audio.len();
        if len > 2 * keep {
            let remove = len - keep;
            let d = if remove <= p1 {
                remove
            } else {
                p1
            };
            let tail = self.audio.split_off(d);
            self.audio = tail;
            self.processed_samples = p1 - d;
        }
        proof {
            let cm = commit_model(old(self)@, run@.tokens, run@.last_token);
            assert(self@.processed == cm.processed);
            assert(self@.chunk_idx == cm.chunk_idx);
            assert(self@.tokens =~= cm.tokens);
            assert(self@.last_token == cm.last_token);
            assert(self@.chunk_size == cm.chunk_size);
            assert(self@.audio =~= cm.audio);
            assert(self@ =~= cm);
            assert(old(self)@.tokens.is_prefix_of(self@.tokens));
        }
    }

    /// The full transcript so far: the decoded display text of every
    /// accumulated token (all of them are real ids), with leading spaces
    /// removed.
    pub fn get_transcript(&self, vocab: &SentencePieceVocab) -> (r: String)
        requires
            wf_model(self@),
        ensures
            r@ == trim_leading_spaces(decode_ids(vocab@, self@.tokens)),
    {
        let mut valid: Vec<usize> = Vec::new();
        let mut i: usize = 0;
        while i < self.tokens.len()
            invariant
                wf_model(self@),
                0 <= i <= self.tokens@.len(),
                valid@ == self.tokens@.subrange(0, i as int),
            decreases self.tokens@.len() - i,
        {
            let t = self.tokens[i];
            proof {
                assert(self@.tokens[i as int] < VOCAB_SIZE);
            }
            if t < VOCAB_SIZE {
                valid.push(t);
            }
            proof {
                assert(self.tokens@.subrange(0, i + 1).drop_last() =~= self.tokens@.subrange(
                    0,
                    i as int,
                ));
                assert(valid@ =~= self.tokens@.subrange(0, i + 1));
            }
            i = i + 1;
        }
        proof {
            assert(self.tokens@.subrange(0, self.tokens@.len() as int) =~= self.tokens@);
        }
        vocab.decode(valid.as_slice())
    }

    /// Starts a greedy-decode run for one pump, from the stream's current
    /// predictor token.
    pub fn begin_decode(&self) -> (r: DecodeRun)
        requires
            wf_model(self@),
        ensures
            r@.tokens == Seq::<usize>::empty(),
            r@.last_token == self@.last_token,
            !r@.frame_open,
            r@.syms == 0,
            wf_run(r@),
    {
        DecodeRun { tokens: Vec::new(), last_token: self.last_token, syms_in_frame: 0, frame_open: false }
    }
}

/// Mathematical image of a greedy-decode run.
#[verifier::ext_equal]
pub ghost struct RunModel {
    pub tokens: Seq<usize>,
    pub last_token: usize,
    pub syms: int,
    pub frame_open: bool,
}

/// Well-formed run: emitted tokens are real ids, the predictor token is at
/// most the blank, and the per-frame emission count stays within the cap.
pub open spec fn wf_run(r: RunModel) -> bool {
    &&& forall|i: int| 0 <= i < r.tokens.len() ==> (#[trigger] r.tokens[i]) < VOCAB_SIZE
    &&& r.last_token <= BLANK_ID
    &&& 0 <= r.syms <= MAX_SYMBOLS_PER_STEP
}

/// One joint-network outcome applied to a run: blank closes the frame and
/// changes nothing else; any other id is emitted and becomes the predictor
/// token.
pub open spec fn run_step(r: RunModel, argmax: usize) -> RunModel {
    if argmax == BLANK_ID {
        RunModel { frame_open: false, ..r }
    } else {
        RunModel {
            tokens: r.tokens.push(argmax),
            last_token: argmax,
            syms: r.syms + 1,
            frame_open: r.frame_open,
        }
    }
}

/// A whole sequence of joint outcomes applied in order.
pub open spec fn run_steps(r: RunModel, args: Seq<usize>) -> RunModel
    decreases args.len(),
{
    if args.len() == 0 {
        r
    } else {
        run_step(run_steps(r, args.drop_last()), args.last())
    }
}

/// Greedy-decode loop state for one pump: the tokens emitted during this
/// pump, the predictor token, and the per-frame symbol budget.
pub struct DecodeRun {
    tokens: Vec<usize>,
    last_token: usize,
    syms_in_frame: usize,
    frame_open: bool,
}

impl View for DecodeRun {
    type V = RunModel;

    closed spec fn view(&self) -> RunModel {
        RunModel {
            tokens: self.tokens@,
            last_token: self.last_token,
            syms: self.syms_in_frame as int,
            frame_open: self.frame_open,
        }
    }
}

impl DecodeRun {
    /// Starts a run from an explicit predictor token, for the offline
    /// pass, which carries the token across chunks without a stream
    /// cursor.
    pub fn with_last_token(last: usize) -> (r: DecodeRun)
        requires
            last <= BLANK_ID,
        ensures
            r@.tokens == Seq::<usize>::empty(),
            r@.last_token == last,
            !r@.frame_open,
            r@.syms == 0,
            wf_run(r@),
    {
        DecodeRun { tokens: Vec::new(), last_token: last, syms_in_frame: 0, frame_open: false }
    }

    /// Opens the inner loop for the next encoder frame: the symbol budget
    /// restarts, tokens and predictor token are kept.
    pub fn begin_frame(&mut self)
        ensures
            final(self)@ == (RunModel { syms: 0, frame_open: true, ..old(self)@ }),
    {
        self.syms_in_frame = 0;
        self.frame_open = true;
    }

    /// Whether the joint should be invoked again for the current frame:
    /// the frame is open and the symbol cap not yet reached.
    pub fn frame_active(&self) -> (r: bool)
        ensures
            r == (self@.frame_open && self@.syms < MAX_SYMBOLS_PER_STEP),
    {
        self.frame_open && self.syms_in_frame < MAX_SYMBOLS_PER_STEP
    }

    /// The token to hand the joint network as the previous label.
    pub fn last_token(&self) -> (r: usize)
        ensures
            r == self@.last_token,
    {
        self.last_token
    }

    /// The tokens emitted so far in this run.
    pub fn tokens(&self) -> (r: &Vec<usize>)
        ensures
            r@ == self@.tokens,
    {
        &self.tokens
    }

    /// Applies one joint outcome. Returns whether the caller must adopt
    /// the returned predictor states: true exactly on a non-blank
    /// emission; on blank, state and tokens are untouched and the frame
    /// closes.
    pub fn step(&mut self, argmax: usize) -> (advance: bool)
        requires
            argmax <= BLANK_ID,
            old(self)@.frame_open,
            old(self)@.syms < MAX_SYMBOLS_PER_STEP,
            wf_run(old(self)@),
        ensures
            final(self)@ == run_step(old(self)@, argmax),
            advance == (argmax != BLANK_ID),
            wf_run(final(self)@),
            old(self)@.tokens.is_prefix_of(final(self)@.tokens),
    {
        if argmax == BLANK_ID {
            self.frame_open = false;
            proof {
                assert(self@ =~= run_step(old(self)@, argmax));
                assert(old(self)@.tokens.is_prefix_of(self@.tokens));
            }
            false
        } else {
            self.tokens.push(argmax);
            self.last_token = argmax;
            self.syms_in_frame = self.syms_in_frame + 1;
            proof {
                assert(self@ =~= run_step(old(self)@, argmax));
                assert(old(self)@.tokens.is_prefix_of(self@.tokens));
            }
            true
        }
    }
}

/// The delta text of one pump: each emitted real token id contributes its
/// display text, reserved ids contribute nothing, with no trimming.
pub open spec fn delta_spec(pieces: Seq<Seq<char>>, toks: Seq<usize>) -> Seq<char>
    decreases toks.len(),
{
    if toks.len() == 0 {
        Seq::<char>::empty()
    } else {
        delta_spec(pieces, toks.drop_last()) + (if (toks.last() as int) < VOCAB_SIZE {
            id_display(pieces, toks.last())
        } else {
            Seq::<char>::empty()
        })
    }
}

/// Placement of mel frames for one chunk of the offline (non-streaming)
/// pass: the pre-encode region is either empty or the full nine frames
/// ending at `buffer_idx`, and the length handed to the encoder counts
/// only the frames actually present.
#[derive(Clone, Copy, Debug, PartialEq, Eq, Structural)]
pub struct OfflinePlan {
    pub cache_start: usize,
    pub cache_frames: usize,
    pub main_len: usize,
    pub chunk_length: usize,
    pub expected_size: usize,
}

/// Decides one chunk of the offline pass over a fully computed mel matrix
/// of `total_frames` frames, starting at frame `buffer_idx`.
pub fn plan_offline_chunk(
    chunk_idx: usize,
    buffer_idx: usize,
    total_frames: usize,
    chunk_size: usize,
) -> (r: OfflinePlan)
    requires
        buffer_idx < total_frames,
        1 <= chunk_size <= 1000000,
    ensures
        r.main_len == if buffer_idx + chunk_size <= total_frames {
            chunk_size as int
        } else {
            total_frames - buffer_idx
        },
        chunk_idx > 0 && buffer_idx >= PRE_ENCODE_CACHE ==> r.cache_frames == PRE_ENCODE_CACHE
            && r.cache_start == buffer_idx - PRE_ENCODE_CACHE,
        !(chunk_idx > 0 && buffer_idx >= PRE_ENCODE_CACHE) ==> r.cache_frames == 0
            && r.cache_start == 0,
        r.chunk_length == PRE_ENCODE_CACHE + r.main_len,
        r.expected_size == PRE_ENCODE_CACHE + chunk_size,
{
    let rem = total_frames - buffer_idx;
    let main_len = if chunk_size <= rem {
        chunk_size
    } else {
        rem
    };
    let (cache_start, cache_frames) = if chunk_idx > 0 && buffer_idx >= PRE_ENCODE_CACHE {
        (buffer_idx - PRE_ENCODE_CACHE, PRE_ENCODE_CACHE)
    } else {
        (0, 0)
    };
    OfflinePlan {
        cache_start,
        cache_frames,
        main_len,
        chunk_length: PRE_ENCODE_CACHE + main_len,
        expected_size: PRE_ENCODE_CACHE + chunk_size,
    }
}

/// Gate of the offline feature path: audio at any other rate than the
/// expected one is rejected, never resampled.
pub fn check_sample_rate(sample_rate: u32, expected: usize) -> (r: Result<(), AsrError>)
    ensures
        r is Ok <==> sample_rate == expected,
        r is Err ==> r->Err_0 is Audio,
{
    if sample_rate as usize == expected {
        Ok(())
    } else {
        Err(AsrError::Audio(String::from_str("Audio sample rate does not match the model")))
    }
}

/// Renders the delta text of one pump's emitted tokens.
pub fn delta_text(vocab: &SentencePieceVocab, toks: &Vec<usize>) -> (r: String)
    ensures
        r@ == delta_spec(vocab@, toks@),
{
    let mut out = String::new();
    let mut i: usize = 0;
    while i < toks.len()
        invariant
            0 <= i <= toks@.len(),
            out@ == delta_spec(vocab@, toks@.subrange(0, i as int)),
        decreases toks@.len() - i,
    {
        let t = toks[i];
        if t < VOCAB_SIZE {
            let piece = vocab.decode_single(t);
            out.append(piece.as_str());
        }
        i = i + 1;
        proof {
            let sub = toks@.subrange(0, i as int);
            assert(sub.drop_last() =~= toks@.subrange(0, i - 1));
            assert(sub.last() == toks@[i - 1]);
        }
    }
    proof {
        assert(toks@.subrange(0, toks@.len() as int) =~= toks@);
    }
    out
}

} // verus!
