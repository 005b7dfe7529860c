use nemotron::gate::{EngineGate, LoadingGuard, is_engine_loaded, mark_engine_loaded,
    try_claim_loading, finish_loading, is_loading};
use nemotron::display::{clamp_chunk_size, trim_display_text};
use nemotron::params::{ModelConfig, ExecutionProvider, NemotronModelConfig};

#[test]
fn one_caller_wins_the_load_claim() {
    let mut gate = EngineGate::new();
    assert!(!is_engine_loaded(&gate));
    assert!(!is_loading(&gate));
    assert!(try_claim_loading(&mut gate));
    assert!(is_loading(&gate));
    // The second claimant loses until the winner finishes.
    assert!(!try_claim_loading(&mut gate));
    mark_engine_loaded(&mut gate);
    finish_loading(&mut gate);
    assert!(!is_loading(&gate));
    assert!(is_engine_loaded(&gate));
}

#[test]
fn loading_guard_takes_and_reports_the_claim() {
    let mut gate = EngineGate::new();
    let guard = LoadingGuard::new(&mut gate);
    assert!(guard.is_some());
    assert!(LoadingGuard::new(&mut gate).is_none());
    finish_loading(&mut gate);
    assert!(LoadingGuard::new(&mut gate).is_some());
}

#[test]
fn chunk_size_is_clamped_to_the_accepted_range() {
    assert_eq!(clamp_chunk_size(100), 2560);
    assert_eq!(clamp_chunk_size(2560), 2560);
    assert_eq!(clamp_chunk_size(8960), 8960);
    assert_eq!(clamp_chunk_size(40000), 16000);
}

#[test]
fn display_text_keeps_only_the_tail() {
    let mut short = "hello".to_string();
    trim_display_text(&mut short);
    assert_eq!(short, "hello");

    let mut long = "x".repeat(1000);
    long.push_str("tail");
    trim_display_text(&mut long);
    assert_eq!(long.chars().count(), 900);
    assert!(long.ends_with("tail"));
}

#[test]
fn default_configs_match_the_large_profile() {
    let c = NemotronModelConfig::default();
    assert_eq!(c.num_encoder_layers, 24);
    assert_eq!(c.hidden_dim, 1024);
    assert_eq!(c.left_context, 70);
    assert_eq!(c.conv_context, 8);
    assert_eq!(c.decoder_lstm_dim, 640);
    assert_eq!(c.decoder_lstm_layers, 2);
    assert_eq!(c.vocab_size, 1024);
    assert_eq!(c.blank_id, 1024);

    let m = ModelConfig::new()
        .with_execution_provider(ExecutionProvider::Cpu)
        .with_intra_threads(2)
        .with_inter_threads(3);
    assert_eq!(m.execution_provider, ExecutionProvider::Cpu);
    assert_eq!(m.intra_threads, 2);
    assert_eq!(m.inter_threads, 3);
    assert_eq!(ModelConfig::default().intra_threads, 4);
    assert_eq!(ExecutionProvider::default(), ExecutionProvider::Cpu);
}
