use nemotron::detok::{ParakeetTDTDecoder, Vocabulary};

fn make_vocab(tokens: &[&str]) -> Vocabulary {
    Vocabulary {
        id_to_token: tokens.iter().map(|s| s.to_string()).collect(),
        _blank_id: 0,
    }
}

#[test]
fn test_digit_spacing_after_word() {
    // Simulates "like 100" tokenized as ["▁like", "1", "0", "0"]
    let vocab = make_vocab(&["▁like", "1", "0", "0"]);
    let decoder = ParakeetTDTDecoder::from_vocab(vocab);
    let result = decoder
        .decode_with_timestamps(&[0, 1, 2, 3], &[0, 1, 2, 3], &[1, 1, 1, 1], 160, 16000)
        .unwrap();
    assert_eq!(result.text, "like 100");
}

#[test]
fn test_digit_spacing_after_article_a() {
    // Simulates "a 24" tokenized as ["▁a", "2", "4"]
    let vocab = make_vocab(&["▁a", "2", "4"]);
    let decoder = ParakeetTDTDecoder::from_vocab(vocab);
    let result = decoder
        .decode_with_timestamps(&[0, 1, 2], &[0, 1, 2], &[1, 1, 1], 160, 16000)
        .unwrap();
    assert_eq!(result.text, "a 24");
}

#[test]
fn test_no_spacing_after_single_uppercase() {
    // Simulates "A4" tokenized as ["▁A", "4"] - should stay together
    let vocab = make_vocab(&["▁A", "4"]);
    let decoder = ParakeetTDTDecoder::from_vocab(vocab);
    let result = decoder
        .decode_with_timestamps(&[0, 1], &[0, 1], &[1, 1], 160, 16000)
        .unwrap();
    assert_eq!(result.text, "A4");
}

#[test]
fn test_no_spacing_after_symbol() {
    // Simulates "$100" tokenized as ["$", "1", "0", "0"]
    let vocab = make_vocab(&["$", "1", "0", "0"]);
    let decoder = ParakeetTDTDecoder::from_vocab(vocab);
    let result = decoder
        .decode_with_timestamps(&[0, 1, 2, 3], &[0, 1, 2, 3], &[1, 1, 1, 1], 160, 16000)
        .unwrap();
    assert_eq!(result.text, "$100");
}

#[test]
fn test_spacing_in_phrase() {
    // Simulates "In 2021" tokenized as ["▁In", "2", "0", "2", "1"]
    let vocab = make_vocab(&["▁In", "2", "0", "2", "1"]);
    let decoder = ParakeetTDTDecoder::from_vocab(vocab);
    let result = decoder
        .decode_with_timestamps(&[0, 1, 2, 3, 4], &[0, 1, 2, 3, 4], &[1, 1, 1, 1, 1], 160, 16000)
        .unwrap();
    assert_eq!(result.text, "In 2021");
}

#[test]
fn test_tokens_have_correct_spacing() {
    // Verify individual token texts have spacing applied
    let vocab = make_vocab(&["▁like", "1", "0", "0"]);
    let decoder = ParakeetTDTDecoder::from_vocab(vocab);
    let result = decoder
        .decode_with_timestamps(&[0, 1, 2, 3], &[0, 1, 2, 3], &[1, 1, 1, 1], 160, 16000)
        .unwrap();

    // Check token texts - first digit should have space prepended
    assert_eq!(result.tokens[0].text, " like");
    assert_eq!(result.tokens[1].text, " 1"); // Space added by heuristic
    assert_eq!(result.tokens[2].text, "0");
    assert_eq!(result.tokens[3].text, "0");
}

#[test]
fn test_full_flow_with_timestamp_processing() {
    let vocab = make_vocab(&["▁like", "1", "0", "0", "▁bucks"]);
    let decoder = ParakeetTDTDecoder::from_vocab(vocab);
    let result = decoder
        .decode_with_timestamps(
            &[0, 1, 2, 3, 4],
            &[0, 1, 2, 3, 4],
            &[1, 1, 1, 1, 1],
            160,
            16000,
        )
        .unwrap();

    // Group tokens into words: a token whose text starts with a space
    // begins a new word.
    let mut words: Vec<String> = Vec::new();
    for tok in &result.tokens {
        if tok.text.starts_with(' ') || words.is_empty() {
            words.push(tok.text.trim_start().to_string());
        } else {
            let n = words.len();
            words[n - 1].push_str(&tok.text);
        }
    }
    let text: String = words.join(" ");
    assert_eq!(text, "like 100 bucks");

    // Token texts concatenated directly
    let tokens_text: String = result.tokens.iter().map(|t| t.text.as_str()).collect();
    assert_eq!(tokens_text.trim(), "like 100 bucks");
}

#[test]
fn test_special_tokens_are_dropped() {
    let vocab = make_vocab(&["<s>", "▁hi", "</s>"]);
    let decoder = ParakeetTDTDecoder::from_vocab(vocab);
    let result = decoder
        .decode_with_timestamps(&[0, 1, 2], &[0, 1, 2], &[1, 1, 1], 160, 16000)
        .unwrap();
    assert_eq!(result.text, "hi");
    assert_eq!(result.tokens.len(), 1);
}

#[test]
fn test_unk_is_kept() {
    let vocab = make_vocab(&["▁say", "<unk>"]);
    let decoder = ParakeetTDTDecoder::from_vocab(vocab);
    let result = decoder
        .decode_with_timestamps(&[0, 1], &[0, 1], &[1, 1], 160, 16000)
        .unwrap();
    assert_eq!(result.text, "say<unk>");
    assert_eq!(result.tokens.len(), 2);
}

#[test]
fn test_out_of_range_ids_are_skipped() {
    let vocab = make_vocab(&["▁one"]);
    let decoder = ParakeetTDTDecoder::from_vocab(vocab);
    let result = decoder
        .decode_with_timestamps(&[0, 7], &[0, 1], &[1, 1], 160, 16000)
        .unwrap();
    assert_eq!(result.text, "one");
    assert_eq!(result.tokens.len(), 1);
}

#[test]
fn test_timestamps_in_samples() {
    // Encoder stride is 8, hop 160: frame f starts at f * 1280 samples.
    let vocab = make_vocab(&["▁a", "▁b"]);
    let decoder = ParakeetTDTDecoder::from_vocab(vocab);
    let result = decoder
        .decode_with_timestamps(&[0, 1], &[0, 2], &[1, 1], 160, 16000)
        .unwrap();
    assert_eq!(result.tokens[0].start, 0);
    assert_eq!(result.tokens[0].end, 2 * 8 * 160);
    assert_eq!(result.tokens[1].start, 2 * 8 * 160);
    // Last token: ten milliseconds at 16 kHz past its own start.
    assert_eq!(result.tokens[1].end, 2 * 8 * 160 + 160);
}
