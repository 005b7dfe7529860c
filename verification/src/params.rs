//! Model constants and plain configuration records for the recognizer.

use vstd::prelude::*;

verus! {

/// Audio sample rate the models were trained for, in Hz.
pub const SAMPLE_RATE: usize = 16000;

/// FFT size of the analysis window.
pub const N_FFT: usize = 512;

/// Hann window length in samples.
pub const WIN_LENGTH: usize = 400;

/// Hop between successive mel frames, in samples.
pub const HOP_LENGTH: usize = 160;

/// Number of mel filterbank channels.
pub const N_MELS: usize = 128;

/// Number of real token ids; ids at or above this value are reserved.
pub const VOCAB_SIZE: usize = 1024;

/// The blank symbol of the transducer; equal to `VOCAB_SIZE`.
pub const BLANK_ID: usize = 1024;

/// Default streaming chunk size, in mel frames.
pub const DEFAULT_CHUNK_SIZE: usize = 56;

/// Leading mel frames of each encoder input that replay recent context.
pub const PRE_ENCODE_CACHE: usize = 9;

/// Cap on non-blank emissions per encoder frame in the greedy decoder.
pub const MAX_SYMBOLS_PER_STEP: usize = 10;

/// Encoder layer count of the large profile.
pub const NUM_ENCODER_LAYERS: usize = 24;

/// Encoder hidden size of the large profile.
pub const HIDDEN_DIM: usize = 1024;

/// Frames of self-attention lookback kept in the encoder cache.
pub const LEFT_CONTEXT: usize = 70;

/// Depthwise convolution context kept in the encoder cache.
pub const CONV_CONTEXT: usize = 8;

/// Width of each predictor LSTM state vector.
pub const DECODER_LSTM_DIM: usize = 640;

/// Number of predictor LSTM layers.
pub const DECODER_LSTM_LAYERS: usize = 2;

/// Dimensions of the two computation graphs and the token inventory.
#[derive(Clone, Copy, Debug, PartialEq, Eq, Structural)]
pub struct NemotronModelConfig {
    pub num_encoder_layers: usize,
    pub hidden_dim: usize,
    pub left_context: usize,
    pub conv_context: usize,
    pub decoder_lstm_dim: usize,
    pub decoder_lstm_layers: usize,
    pub vocab_size: usize,
    pub blank_id: usize,
}

impl Default for NemotronModelConfig {
    /// The large ("Nemotron") profile.
    fn default() -> (r: Self)
        ensures
            r.num_encoder_layers == NUM_ENCODER_LAYERS,
            r.hidden_dim == HIDDEN_DIM,
            r.left_context == LEFT_CONTEXT,
            r.conv_context == CONV_CONTEXT,
            r.decoder_lstm_dim == DECODER_LSTM_DIM,
            r.decoder_lstm_layers == DECODER_LSTM_LAYERS,
            r.vocab_size == VOCAB_SIZE,
            r.blank_id == BLANK_ID,
    {
        NemotronModelConfig {
            num_encoder_layers: NUM_ENCODER_LAYERS,
            hidden_dim: HIDDEN_DIM,
            left_context: LEFT_CONTEXT,
            conv_context: CONV_CONTEXT,
            decoder_lstm_dim: DECODER_LSTM_DIM,
            decoder_lstm_layers: DECODER_LSTM_LAYERS,
            vocab_size: VOCAB_SIZE,
            blank_id: BLANK_ID,
        }
    }
}

/// Recognized accelerator back ends of the tensor runtime.
///
/// Which of these a given build can honour depends on the host; the
/// configuration layer around the runtime installs a CPU fallback for all
/// non-CPU choices.
#[derive(Clone, Copy, Debug, PartialEq, Eq, Structural)]
pub enum ExecutionProvider {
    Cpu,
    Cuda,
    TensorRT,
    CoreML,
    DirectML,
    MIGraphX,
    OpenVINO,
    WebGPU,
    NNAPI,
}

impl Default for ExecutionProvider {
    fn default() -> (r: Self)
        ensures
            r == ExecutionProvider::Cpu,
    {
        ExecutionProvider::Cpu
    }
}

/// Plain session configuration: accelerator choice and thread counts.
///
/// A host that needs a custom session-builder callback keeps that callback
/// beside this record; the callback cannot be part of the verified state.
#[derive(Clone, Copy, Debug, PartialEq, Eq, Structural)]
pub struct ModelConfig {
    pub execution_provider: ExecutionProvider,
    pub intra_threads: usize,
    pub inter_threads: usize,
}

impl Default for ModelConfig {
    fn default() -> (r: Self)
        ensures
            r.execution_provider == ExecutionProvider::Cpu,
            r.intra_threads == 4,
            r.inter_threads == 1,
    {
        ModelConfig { execution_provider: ExecutionProvider::Cpu, intra_threads: 4, inter_threads: 1 }
    }
}

impl ModelConfig {
    pub fn new() -> (r: Self)
        ensures
            r.execution_provider == ExecutionProvider::Cpu,
            r.intra_threads == 4,
            r.inter_threads == 1,
    {
        ModelConfig { execution_provider: ExecutionProvider::Cpu, intra_threads: 4, inter_threads: 1 }
    }

    pub fn with_execution_provider(self, provider: ExecutionProvider) -> (r: Self)
        ensures
            r == (ModelConfig { execution_provider: provider, ..self }),
    {
        ModelConfig { execution_provider: provider, ..self }
    }

    pub fn with_intra_threads(self, threads: usize) -> (r: Self)
        ensures
            r == (ModelConfig { intra_threads: threads, ..self }),
    {
        ModelConfig { intra_threads: threads, ..self }
    }

    pub fn with_inter_threads(self, threads: usize) -> (r: Self)
        ensures
            r == (ModelConfig { inter_threads: threads, ..self }),
    {
        ModelConfig { inter_threads: threads, ..self }
    }
}

} // verus!
