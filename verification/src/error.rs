//! Error kinds surfaced by the recognizer core.

use vstd::prelude::*;

verus! {

/// What went wrong, with a human-readable message.
#[derive(Debug)]
pub enum AsrError {
    /// Missing or unusable model files, or an incompatible input format.
    Config(String),
    /// Malformed SentencePiece vocabulary stream.
    Tokenizer(String),
    /// Graph invocation or tensor extraction failure.
    Model(String),
    /// Audio-level problem reported by the loader.
    Audio(String),
}

impl AsrError {
    /// The message carried by the error.
    pub fn message(&self) -> (r: String)
        ensures
            r@ == match self {
                AsrError::Config(m) => m@,
                AsrError::Tokenizer(m) => m@,
                AsrError::Model(m) => m@,
                AsrError::Audio(m) => m@,
            },
    {
        match self {
            AsrError::Config(m) => m.clone(),
            AsrError::Tokenizer(m) => m.clone(),
            AsrError::Model(m) => m.clone(),
            AsrError::Audio(m) => m.clone(),
        }
    }
}

} // verus!
