//! Stream-level laws: properties of the pump's state transitions that hold
//! for every utterance, proved once over the models in `stream`.

use vstd::prelude::*;
use crate::params::{WIN_LENGTH, BLANK_ID, MAX_SYMBOLS_PER_STEP};
use crate::stream::{StreamModel, RunModel, push_model, pump_due, commit_model, feed_model,
    fresh_model, wf_model, keep_samples, mel_frames, run_step, run_steps};

verus! {

/// The buffer-occupancy invariant of a live stream: the buffer never runs
/// more than two retention windows ahead of the processed cursor.
pub open spec fn buffer_inv<S>(m: StreamModel<S>) -> bool {
    m.audio.len() <= m.processed + 2 * keep_samples(m.chunk_size)
}

/// Feeding audio in two blocks is the same as feeding their concatenation:
/// the stream state after `push(a); push(b)` equals the state after
/// `push(a ++ b)`. Since every later decision of the pump is a function of
/// the state alone, splitting a chunk at any sample boundary cannot change
/// what any later pump sees.
pub proof fn lemma_push_split<S>(m: StreamModel<S>, a: Seq<S>, b: Seq<S>)
    ensures
        push_model(push_model(m, a), b) == push_model(m, a + b),
{
    assert(push_model(push_model(m, a), b).audio =~= push_model(m, a + b).audio);
    assert(push_model(push_model(m, a), b) =~= push_model(m, a + b));
}

/// Resetting twice is the same as resetting once: a fresh state resets to
/// itself.
pub proof fn lemma_reset_idempotent<S>(cs: int)
    ensures
        fresh_model::<S>(fresh_model::<S>(cs).chunk_size) == fresh_model::<S>(cs),
{
}

/// Feeding an empty block when no pump is due changes nothing: the state
/// is exactly as before, so the call emits no tokens and no text.
pub proof fn lemma_empty_feed_noop<S>(m: StreamModel<S>, toks: Seq<usize>, last: usize)
    requires
        !pump_due(m),
    ensures
        feed_model(m, Seq::<S>::empty(), toks, last) == m,
{
    assert(push_model(m, Seq::<S>::empty()).audio =~= m.audio);
    assert(push_model(m, Seq::<S>::empty()) =~= m);
}

/// After any feed, the accumulated token stream of the old state is a
/// prefix of the new one: emitted tokens are only ever appended.
pub proof fn lemma_tokens_monotone<S>(
    m: StreamModel<S>,
    block: Seq<S>,
    toks: Seq<usize>,
    last: usize,
)
    ensures
        m.tokens.is_prefix_of(feed_model(m, block, toks, last).tokens),
{
    let m1 = push_model(m, block);
    if pump_due(m1) {
        assert(commit_model(m1, toks, last).tokens == m.tokens + toks);
        assert(m.tokens.is_prefix_of(m.tokens + toks));
    } else {
        assert(m.tokens.is_prefix_of(m.tokens));
    }
}

/// Bounded buffer: starting from a state within the occupancy invariant
/// and feeding a block of at most one chunk's worth of samples,
/// - the invariant is preserved,
/// - a call that pumps leaves at most `2 · keep_samples` in the buffer,
/// - a call held back by back-pressure leaves strictly less than the
///   processed cursor plus one chunk of samples.
pub proof fn lemma_buffer_bounded<S>(
    m: StreamModel<S>,
    block: Seq<S>,
    toks: Seq<usize>,
    last: usize,
)
    requires
        wf_model(m),
        buffer_inv(m),
        block.len() <= m.chunk_size * 160,
    ensures
        buffer_inv(feed_model(m, block, toks, last)),
        pump_due(push_model(m, block)) ==> feed_model(m, block, toks, last).audio.len() <= 2
            * keep_samples(m.chunk_size),
        !pump_due(push_model(m, block)) && push_model(m, block).audio.len() >= WIN_LENGTH
            ==> feed_model(m, block, toks, last).audio.len() < m.processed + m.chunk_size * 160,
{
    let cs = m.chunk_size;
    let keep = keep_samples(cs);
    let m1 = push_model(m, block);
    let len1 = m1.audio.len() as int;
    assert(len1 == m.audio.len() + block.len());
    if pump_due(m1) {
        let p1 = m.processed + cs * 160;
        assert(len1 <= p1 + 2 * keep);
        let cm = commit_model(m1, toks, last);
        if len1 > 2 * keep {
            if len1 - keep <= p1 {
                assert(cm.audio.len() == keep);
            } else {
                assert(cm.audio.len() == len1 - p1);
                assert(len1 - p1 <= 2 * keep);
            }
        } else {
            assert(cm.audio.len() == len1);
        }
    } else {
        if len1 < WIN_LENGTH {
            assert(keep >= 2000);
            assert(len1 <= m.processed + 2 * keep);
        } else {
            let p = m.processed;
            assert(mel_frames(len1) - p / 160 < cs);
            assert(mel_frames(len1) == 1 + (len1 + 112) / 160);
            assert((len1 + 112) / 160 <= p / 160 + cs - 2);
            assert(len1 + 112 < 160 * ((len1 + 112) / 160) + 160) by {
                vstd::arithmetic::div_mod::lemma_fundamental_div_mod(len1 + 112, 160);
                vstd::arithmetic::div_mod::lemma_mod_bound(len1 + 112, 160);
            }
            assert(160 * (p / 160) <= p) by {
                vstd::arithmetic::div_mod::lemma_fundamental_div_mod(p, 160);
                vstd::arithmetic::div_mod::lemma_mod_bound(p, 160);
            }
            assert(160 * ((len1 + 112) / 160) <= 160 * (p / 160 + cs - 2)) by (nonlinear_arith)
                requires
                    (len1 + 112) / 160 <= p / 160 + cs - 2,
            ;
            assert(len1 < p + 160 * cs - 160);
            assert(keep == (9 + cs) * 160 + 400);
            assert(160 * cs <= keep) by (nonlinear_arith)
                requires
                    keep == (9 + cs) * 160 + 400,
                    cs >= 1,
            ;
            assert(len1 <= p + 2 * keep);
        }
    }
}

/// Appending audio never loses mel frames: the frame count is monotone in
/// the buffer length, and a frame's analysis window is a function of its
/// index alone, so frames computed before an append keep their content.
pub proof fn lemma_mel_frames_monotone(a: int, b: int)
    requires
        a <= b,
    ensures
        mel_frames(a) <= mel_frames(b),
{
    if 0 < a {
        vstd::arithmetic::div_mod::lemma_div_is_ordered(a + 112, b + 112, 160);
    }
}

/// Truncation moves the buffer and the processed cursor in lockstep:
/// every kept sample keeps its distance to the cursor, so the mel frame
/// at the processed position still covers the same audio content.
pub proof fn lemma_truncation_lockstep<S>(
    m: StreamModel<S>,
    toks: Seq<usize>,
    last: usize,
    j: int,
)
    requires
        wf_model(m),
        0 <= j < commit_model(m, toks, last).audio.len(),
    ensures
        ({
            let cm = commit_model(m, toks, last);
            let d = (m.processed + m.chunk_size * 160) - cm.processed;
            &&& d >= 0
            &&& cm.audio[j] == m.audio[d + j]
        }),
{
}

/// The symbol cap: from a freshly opened frame, a joint that answers
/// non-blank every time emits exactly `MAX_SYMBOLS_PER_STEP` tokens before
/// the frame's budget is exhausted, and all of them are appended in order.
pub proof fn lemma_symbol_cap(r0: RunModel, args: Seq<usize>)
    requires
        r0.frame_open,
        r0.syms == 0,
        args.len() == MAX_SYMBOLS_PER_STEP,
        forall|i: int| 0 <= i < args.len() ==> (#[trigger] args[i]) != BLANK_ID,
    ensures
        run_steps(r0, args).tokens == r0.tokens + args,
        run_steps(r0, args).syms == MAX_SYMBOLS_PER_STEP,
        !(run_steps(r0, args).frame_open && run_steps(r0, args).syms < MAX_SYMBOLS_PER_STEP),
{
    lemma_run_steps_nonblank(r0, args);
}

/// Induction behind the symbol cap: non-blank outcomes keep the frame
/// open, append every argument in order, and count each one.
proof fn lemma_run_steps_nonblank(r0: RunModel, args: Seq<usize>)
    requires
        forall|i: int| 0 <= i < args.len() ==> (#[trigger] args[i]) != BLANK_ID,
    ensures
        run_steps(r0, args).tokens == r0.tokens + args,
        run_steps(r0, args).syms == r0.syms + args.len(),
        run_steps(r0, args).frame_open == r0.frame_open,
        run_steps(r0, args).last_token == (if args.len() > 0 {
            args.last()
        } else {
            r0.last_token
        }),
    decreases args.len(),
{
    if args.len() == 0 {
        assert(r0.tokens + args =~= r0.tokens);
    } else {
        let front = args.drop_last();
        assert(forall|i: int| 0 <= i < front.len() ==> (#[trigger] front[i]) != BLANK_ID);
        lemma_run_steps_nonblank(r0, front);
        let rn = run_steps(r0, front);
        assert(args.last() != BLANK_ID);
        assert(run_steps(r0, args) == run_step(rn, args.last()));
        assert(rn.tokens.push(args.last()) =~= r0.tokens + args);
    }
}

} // verus!
