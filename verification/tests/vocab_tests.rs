use nemotron::vocab::SentencePieceVocab;
use nemotron::error::AsrError;

#[test]
fn single_piece_round_trip() {
    // Detokenizing a single-piece vocabulary ["▁hello"] with ids [0]
    // yields "hello".
    let vocab = SentencePieceVocab::from_pieces(vec!["▁hello".to_string()]);
    assert_eq!(vocab.decode(&[0]), "hello");
}

#[test]
fn decode_joins_pieces_and_trims_the_boundary_space() {
    let vocab = SentencePieceVocab::from_pieces(vec![
        "▁like".to_string(),
        "1".to_string(),
        "0".to_string(),
    ]);
    assert_eq!(vocab.decode(&[0, 1, 2, 2]), "like100");
    assert_eq!(vocab.decode(&[1, 0]), "1 like");
}

#[test]
fn decode_skips_out_of_range_ids() {
    let vocab = SentencePieceVocab::from_pieces(vec!["▁hey".to_string()]);
    assert_eq!(vocab.decode(&[0, 99]), "hey");
    assert_eq!(vocab.decode(&[99]), "");
}

#[test]
fn decode_single_replaces_the_leading_boundary() {
    let vocab = SentencePieceVocab::from_pieces(vec!["▁word".to_string(), "ed".to_string()]);
    assert_eq!(vocab.decode_single(0), " word");
    assert_eq!(vocab.decode_single(1), "ed");
    assert_eq!(vocab.decode_single(5), "");
    assert_eq!(vocab.size(), 2);
}

#[test]
fn read_varint_single_and_multi_byte() {
    let (v, n) = SentencePieceVocab::read_varint(&[0x05], 0).unwrap();
    assert_eq!((v, n), (5, 1));
    // 150 = 0x96 0x01 on the wire
    let (v, n) = SentencePieceVocab::read_varint(&[0x96, 0x01], 0).unwrap();
    assert_eq!((v, n), (150, 2));
    // Offset start
    let (v, n) = SentencePieceVocab::read_varint(&[0xFF, 0x07], 1).unwrap();
    assert_eq!((v, n), (7, 1));
}

#[test]
fn read_varint_rejects_truncated_input() {
    let r = SentencePieceVocab::read_varint(&[0x80], 0);
    assert!(matches!(r, Err(AsrError::Tokenizer(_))));
    let r = SentencePieceVocab::read_varint(&[], 0);
    assert!(matches!(r, Err(AsrError::Tokenizer(_))));
    // Eleven continuation bytes: no terminator inside the window.
    let r = SentencePieceVocab::read_varint(&[0x80; 11], 0);
    assert!(matches!(r, Err(AsrError::Tokenizer(_))));
}

/// One piece record of the SentencePiece model stream: field 1,
/// length-delimited, holding a nested message whose field 1 is the piece
/// text.
fn piece_record(text: &str) -> Vec<u8> {
    let mut nested = vec![0x0A, text.len() as u8];
    nested.extend_from_slice(text.as_bytes());
    let mut rec = vec![0x0A, nested.len() as u8];
    rec.extend_from_slice(&nested);
    rec
}

#[test]
fn parse_model_recovers_the_pieces() {
    let mut data = Vec::new();
    data.extend_from_slice(&piece_record("\u{2581}hello"));
    data.extend_from_slice(&piece_record("world"));
    let pieces = SentencePieceVocab::parse_sentencepiece_model(&data).unwrap();
    assert_eq!(pieces, vec!["\u{2581}hello".to_string(), "world".to_string()]);
}

#[test]
fn parse_model_skips_other_fields_by_wire_type() {
    let mut data = Vec::new();
    // field 2, varint
    data.extend_from_slice(&[0x10, 0x96, 0x01]);
    // field 3, 64-bit
    data.extend_from_slice(&[0x19, 0, 0, 0, 0, 0, 0, 0, 0]);
    // field 4, length-delimited
    data.extend_from_slice(&[0x22, 0x02, 0xAB, 0xCD]);
    // field 5, 32-bit
    data.extend_from_slice(&[0x2D, 0, 0, 0, 0]);
    data.extend_from_slice(&piece_record("token"));
    let pieces = SentencePieceVocab::parse_sentencepiece_model(&data).unwrap();
    assert_eq!(pieces, vec!["token".to_string()]);
}

#[test]
fn piece_record_keeps_the_first_text_field() {
    // A nested record holding two text fields: the first one wins.
    let mut nested = vec![0x0Au8, 3];
    nested.extend_from_slice(b"one");
    nested.extend_from_slice(&[0x0A, 3]);
    nested.extend_from_slice(b"two");
    let mut data = vec![0x0Au8, nested.len() as u8];
    data.extend_from_slice(&nested);
    let pieces = SentencePieceVocab::parse_sentencepiece_model(&data).unwrap();
    assert_eq!(pieces, vec!["one".to_string()]);
}

#[test]
fn parse_model_with_no_pieces_is_an_error() {
    let r = SentencePieceVocab::parse_sentencepiece_model(&[]);
    assert!(matches!(r, Err(AsrError::Tokenizer(_))));
    // Only a skipped varint field, no piece record.
    let r = SentencePieceVocab::parse_sentencepiece_model(&[0x10, 0x01]);
    assert!(matches!(r, Err(AsrError::Tokenizer(_))));
}

#[test]
fn parse_model_rejects_malformed_varint() {
    // A header whose varint never terminates.
    let data = [0x80u8; 12];
    let r = SentencePieceVocab::parse_sentencepiece_model(&data);
    assert!(matches!(r, Err(AsrError::Tokenizer(_))));
}

#[test]
fn parse_model_stops_at_truncated_record() {
    let mut data = Vec::new();
    data.extend_from_slice(&piece_record("ok"));
    // A record that claims more bytes than remain.
    data.extend_from_slice(&[0x0A, 0x7F, 0x00]);
    let pieces = SentencePieceVocab::parse_sentencepiece_model(&data).unwrap();
    assert_eq!(pieces, vec!["ok".to_string()]);
}

#[test]
fn parse_builds_a_usable_vocab() {
    let mut data = Vec::new();
    data.extend_from_slice(&piece_record("\u{2581}hi"));
    let vocab = SentencePieceVocab::parse(&data).unwrap();
    assert_eq!(vocab.size(), 1);
    assert_eq!(vocab.decode(&[0]), "hi");
}

#[test]
fn error_message_is_carried() {
    let r = SentencePieceVocab::parse_sentencepiece_model(&[]);
    match r {
        Err(e) => assert_eq!(e.message(), "No tokens found in model"),
        Ok(_) => panic!("expected an error"),
    }
}
