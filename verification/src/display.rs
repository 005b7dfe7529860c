//! Helpers for the live-subtitle host: chunk-size clamping and display-text
//! trimming.

use vstd::prelude::*;
use vstd::string::StrSliceExecFns;

verus! {

/// Smallest accepted audio chunk, in samples (~160 ms at 16 kHz).
pub const MIN_CHUNK_SIZE: usize = 2560;

/// Largest accepted audio chunk, in samples (1 s at 16 kHz).
pub const MAX_CHUNK_SIZE: usize = 16000;

/// Longest subtitle text kept on screen, in characters.
pub const MAX_DISPLAY_CHARS: usize = 900;

/// Clamps a desired audio chunk length to the accepted range.
pub fn clamp_chunk_size(samples: usize) -> (r: usize)
    ensures
        r == if samples < MIN_CHUNK_SIZE {
            MIN_CHUNK_SIZE as int
        } else if samples > MAX_CHUNK_SIZE {
            MAX_CHUNK_SIZE as int
        } else {
            samples as int
        },
{
    if samples < MIN_CHUNK_SIZE {
        MIN_CHUNK_SIZE
    } else if samples > MAX_CHUNK_SIZE {
        MAX_CHUNK_SIZE
    } else {
        samples
    }
}

/// Keeps only the most recent `MAX_DISPLAY_CHARS` characters of the rolling
/// subtitle text; shorter text is left untouched.
pub fn trim_display_text(text: &mut String)
    ensures
        old(text)@.len() <= MAX_DISPLAY_CHARS ==> final(text)@ == old(text)@,
        old(text)@.len() > MAX_DISPLAY_CHARS ==> final(text)@ == old(text)@.subrange(
            old(text)@.len() - MAX_DISPLAY_CHARS,
            old(text)@.len() as int,
        ),
{
    let n = text.as_str().unicode_len();
    if n > MAX_DISPLAY_CHARS {
        let tail = text.as_str().substring_char(n - MAX_DISPLAY_CHARS, n).to_owned();
        *text = tail;
    }
}

} // verus!
