use parla::kokoro::{
    check_voice_size, frame_tokens, kokoro_input_ids, kokoro_token_id, phonemize_to_tokens,
    style_vector_offset,
};

#[test]
fn vocabulary_lookup() {
    assert_eq!(kokoro_token_id('$'), Some(0));
    assert_eq!(kokoro_token_id('a'), Some(43));
    assert_eq!(kokoro_token_id('\u{0283}'), Some(131));
    assert_eq!(kokoro_token_id('\u{1D7B}'), Some(177));
    assert_eq!(kokoro_token_id(' '), Some(16));
    assert_eq!(kokoro_token_id('Z'), None);
    assert_eq!(kokoro_token_id('g'), None);
}

#[test]
fn unknown_phonemes_are_dropped() {
    assert_eq!(phonemize_to_tokens("hə'lo"), vec![50, 83, 54, 57]);
    assert!(phonemize_to_tokens("").is_empty());
}

#[test]
fn tokens_are_cut_and_framed() {
    let framed = frame_tokens(&vec![5; 600]);
    assert_eq!(framed.len(), 512);
    assert_eq!(framed[0], 0);
    assert_eq!(framed[511], 0);
    assert!(framed[1..511].iter().all(|&t| t == 5));
    assert_eq!(frame_tokens(&vec![7, 8]), vec![0, 7, 8, 0]);
    assert_eq!(frame_tokens(&vec![]), vec![0, 0]);
}

#[test]
fn model_input_from_sentences() {
    assert_eq!(kokoro_input_ids(&["ab", "c"]), Some(vec![0, 43, 44, 16, 45, 0]));
    assert_eq!(kokoro_input_ids(&["ZZ"]), None);
    assert_eq!(kokoro_input_ids(&[]), None);
}

#[test]
fn style_vector_is_picked_by_length() {
    assert_eq!(style_vector_offset(5, 2560), Ok(1280));
    assert_eq!(style_vector_offset(50, 2560), Ok(2304));
    assert_eq!(style_vector_offset(0, 256), Ok(0));
    assert_eq!(
        style_vector_offset(3, 100),
        Err("voice data too small for this token count".to_string())
    );
}

#[test]
fn voice_data_must_hold_a_style_vector() {
    assert_eq!(
        check_voice_size(400, 100),
        Err("voice file too small: 400 bytes, expected at least 1024".to_string())
    );
    assert_eq!(check_voice_size(1024, 256), Ok(()));
}
