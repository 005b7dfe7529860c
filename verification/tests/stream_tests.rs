use nemotron::stream::{StreamState, DecodeRun, mel_frame_count, delta_text, plan_offline_chunk,
    check_sample_rate};
use nemotron::vocab::SentencePieceVocab;
use nemotron::params::{BLANK_ID, DEFAULT_CHUNK_SIZE, MAX_SYMBOLS_PER_STEP};
use nemotron::error::AsrError;

fn fresh(chunk_size: usize) -> StreamState<f32> {
    StreamState::new(chunk_size)
}

/// Pumps once if due, emitting the given tokens; returns whether a pump
/// ran.
fn feed(state: &mut StreamState<f32>, block: Vec<f32>, emitted: &[usize]) -> bool {
    state.push_audio(block);
    if state.plan_chunk().is_some() {
        let mut run = state.begin_decode();
        run.begin_frame();
        for &t in emitted {
            assert!(run.frame_active());
            run.step(t);
        }
        state.commit_chunk(&run);
        true
    } else {
        false
    }
}

#[test]
fn short_first_chunk_returns_nothing_and_keeps_cursors() {
    // First chunk below one analysis window: empty delta, no advance.
    let mut state = fresh(DEFAULT_CHUNK_SIZE);
    state.push_audio(vec![0.0f32; 399]);
    assert!(state.plan_chunk().is_none());
    assert_eq!(state.processed_samples(), 0);
    assert_eq!(state.chunk_idx(), 0);
    assert_eq!(state.tokens().len(), 0);
}

#[test]
fn empty_chunk_is_a_noop() {
    let mut state = fresh(DEFAULT_CHUNK_SIZE);
    let pumped = feed(&mut state, Vec::new(), &[]);
    assert!(!pumped);
    assert_eq!(state.audio().len(), 0);
    assert_eq!(state.processed_samples(), 0);
    assert_eq!(state.chunk_idx(), 0);
    assert_eq!(state.tokens().len(), 0);
}

#[test]
fn first_pump_uses_a_zero_cache_plan() {
    let mut state = fresh(56);
    // 56 new frames require 56*160 samples plus most of a window.
    state.push_audio(vec![0.0f32; 9360]);
    let plan = state.plan_chunk().unwrap();
    assert_eq!(plan.cache_frames, 0);
    assert_eq!(plan.cache_offset, 9);
    assert_eq!(plan.main_start, 0);
    assert_eq!(plan.main_len, 56);
    assert_eq!(plan.expected_size, 65);
}

#[test]
fn later_pumps_replay_nine_cached_frames() {
    let mut state = fresh(56);
    state.push_audio(vec![0.0f32; 9360]);
    let mut run = state.begin_decode();
    run.begin_frame();
    state.commit_chunk(&run);
    assert_eq!(state.processed_samples(), 8960);
    assert_eq!(state.chunk_idx(), 1);

    state.push_audio(vec![0.0f32; 8960]);
    let plan = state.plan_chunk().unwrap();
    assert_eq!(plan.main_start, 56);
    assert_eq!(plan.cache_start, 47);
    assert_eq!(plan.cache_frames, 9);
    assert_eq!(plan.cache_offset, 0);
}

#[test]
fn commit_appends_tokens_and_adopts_the_last() {
    let mut state = fresh(56);
    let pumped = feed(&mut state, vec![0.0f32; 9360], &[3, 7]);
    assert!(pumped);
    assert_eq!(state.tokens().as_slice(), &[3, 7]);
    assert_eq!(state.last_token(), 7);

    let pumped = feed(&mut state, vec![0.0f32; 8960], &[11]);
    assert!(pumped);
    // The earlier tokens stay a prefix of the stream.
    assert_eq!(state.tokens().as_slice(), &[3, 7, 11]);
    assert_eq!(state.last_token(), 11);
}

#[test]
fn buffer_stays_within_two_retention_windows() {
    // keep_samples(56) = 65*160 + 400 = 10800.
    let mut state = fresh(56);
    for _ in 0..40 {
        let pumped = feed(&mut state, vec![0.0f32; 8960], &[]);
        if pumped {
            assert!(state.audio().len() <= 2 * 10800);
        }
    }
    assert!(state.chunk_idx() >= 30);
}

#[test]
fn reset_restores_the_fresh_state() {
    let mut state = fresh(56);
    feed(&mut state, vec![0.25f32; 9360], &[5]);
    state.reset();
    assert_eq!(state.audio().len(), 0);
    assert_eq!(state.processed_samples(), 0);
    assert_eq!(state.chunk_idx(), 0);
    assert_eq!(state.tokens().len(), 0);
    assert_eq!(state.last_token(), BLANK_ID);
    assert_eq!(state.get_chunk_size(), 56);
}

#[test]
fn reset_twice_equals_reset_once() {
    let mut once = fresh(56);
    feed(&mut once, vec![0.5f32; 9360], &[2]);
    let mut twice = fresh(56);
    feed(&mut twice, vec![0.5f32; 9360], &[2]);
    once.reset();
    twice.reset();
    twice.reset();
    assert_eq!(once.audio().len(), twice.audio().len());
    assert_eq!(once.processed_samples(), twice.processed_samples());
    assert_eq!(once.chunk_idx(), twice.chunk_idx());
    assert_eq!(once.tokens().as_slice(), twice.tokens().as_slice());
    assert_eq!(once.last_token(), twice.last_token());
    assert_eq!(once.get_chunk_size(), twice.get_chunk_size());
}

#[test]
fn split_feeding_matches_whole_feeding() {
    // Feeding one block or the same samples in two halves leaves the same
    // state (frame-aligned split: multiples of the hop).
    let mut whole = fresh(56);
    feed(&mut whole, vec![0.1f32; 9600], &[4]);
    let mut split = fresh(56);
    split.push_audio(vec![0.1f32; 4800]);
    assert!(split.plan_chunk().is_none());
    feed(&mut split, vec![0.1f32; 4800], &[4]);
    assert_eq!(whole.audio().len(), split.audio().len());
    assert_eq!(whole.processed_samples(), split.processed_samples());
    assert_eq!(whole.chunk_idx(), split.chunk_idx());
    assert_eq!(whole.tokens().as_slice(), split.tokens().as_slice());
}

#[test]
fn symbol_cap_emits_exactly_ten_tokens_per_frame() {
    let state = fresh(56);
    let mut run: DecodeRun = state.begin_decode();
    run.begin_frame();
    let mut emitted: usize = 0;
    while run.frame_active() {
        run.step(42);
        emitted += 1;
    }
    assert_eq!(emitted, MAX_SYMBOLS_PER_STEP);
    assert_eq!(run.tokens().len(), MAX_SYMBOLS_PER_STEP);
    assert_eq!(run.last_token(), 42);
}

#[test]
fn blank_closes_the_frame_without_emitting() {
    let state = fresh(56);
    let mut run = state.begin_decode();
    assert_eq!(run.last_token(), BLANK_ID);
    run.begin_frame();
    assert!(run.frame_active());
    let advance = run.step(BLANK_ID);
    assert!(!advance);
    assert!(!run.frame_active());
    assert_eq!(run.tokens().len(), 0);
    assert_eq!(run.last_token(), BLANK_ID);
    // The next frame reopens the budget.
    run.begin_frame();
    assert!(run.frame_active());
}

#[test]
fn transcript_equals_detokenized_token_stream() {
    let vocab = SentencePieceVocab::from_pieces(vec![
        "▁go".to_string(),
        "od".to_string(),
        "▁day".to_string(),
    ]);
    let mut state = fresh(56);
    feed(&mut state, vec![0.0f32; 9360], &[0, 1]);
    feed(&mut state, vec![0.0f32; 8960], &[2]);
    let transcript = state.get_transcript(&vocab);
    assert_eq!(transcript, vocab.decode(state.tokens().as_slice()));
    assert_eq!(transcript, "good day");
}

#[test]
fn delta_text_renders_only_this_pump() {
    let vocab = SentencePieceVocab::from_pieces(vec!["▁hi".to_string(), "!".to_string()]);
    let toks = vec![0usize, 1usize];
    assert_eq!(delta_text(&vocab, &toks), " hi!");
    assert_eq!(delta_text(&vocab, &Vec::new()), "");
}

#[test]
fn mel_frame_count_follows_the_centred_formula() {
    assert_eq!(mel_frame_count(0), 0);
    // 160 samples: 1 + (160 + 112) / 160 = 2
    assert_eq!(mel_frame_count(160), 2);
    assert_eq!(mel_frame_count(9360), 60);
    assert_eq!(mel_frame_count(16000), 101);
}

#[test]
fn offline_plan_covers_first_middle_and_tail_chunks() {
    let p = plan_offline_chunk(0, 0, 130, 56);
    assert_eq!((p.cache_frames, p.main_len, p.chunk_length, p.expected_size), (0, 56, 65, 65));
    let p = plan_offline_chunk(1, 56, 130, 56);
    assert_eq!((p.cache_start, p.cache_frames, p.main_len, p.chunk_length), (47, 9, 56, 65));
    let p = plan_offline_chunk(2, 112, 130, 56);
    assert_eq!((p.cache_start, p.cache_frames, p.main_len, p.chunk_length), (103, 9, 18, 27));
}

#[test]
fn sample_rate_gate() {
    assert!(check_sample_rate(16000, 16000).is_ok());
    let r = check_sample_rate(44100, 16000);
    assert!(matches!(r, Err(AsrError::Audio(_))));
}
