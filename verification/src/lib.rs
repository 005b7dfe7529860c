//! Streaming speech-recognition core: the verified state and decision logic of
//! a cache-aware RNN-Transducer recognizer for 16 kHz mono audio.
//!
//! The numeric payload (mel spectrograms, tensor contents) and the inference
//! runtime live outside this crate; everything here works on plain values:
//! sample counts, mel-frame indices, token ids and piece strings.

pub mod params;
pub mod error;
pub mod text;
pub mod vocab;
pub mod detok;
pub mod stream;
pub mod laws;
pub mod gate;
pub mod display;
