use parla::piper::{
    apply_phoneme_map, default_num_speakers, piper_voice_language, phonemes_to_ids, piper_input_ids, PhonemeIdMap,
};

fn table() -> PhonemeIdMap {
    let mut m = PhonemeIdMap::new();
    m.insert("^".to_string(), vec![1]);
    m.insert("$".to_string(), vec![2]);
    m.insert("_".to_string(), vec![0]);
    m.insert("a".to_string(), vec![5]);
    m.insert("b".to_string(), vec![6, 7]);
    m
}

#[test]
fn ids_are_interspersed_with_blanks() {
    assert_eq!(phonemes_to_ids(&table(), "ab?"), vec![1, 5, 0, 6, 7, 0, 2]);
    assert_eq!(phonemes_to_ids(&table(), ""), vec![1, 2]);
}

#[test]
fn missing_markers_use_defaults() {
    let mut m = PhonemeIdMap::new();
    m.insert("a".to_string(), vec![9]);
    assert_eq!(phonemes_to_ids(&m, "aa"), vec![1, 9, 0, 9, 0, 2]);
}

#[test]
fn later_entry_replaces_earlier() {
    let mut m = table();
    m.insert("a".to_string(), vec![42]);
    assert_eq!(m.get(&vec!['a']), Some(vec![42]));
    assert_eq!(m.get(&vec!['z']), None);
    assert_eq!(m.get(&vec!['b']), Some(vec![6, 7]));
}

#[test]
fn substitutions_apply_in_order() {
    let pairs = vec![("b".to_string(), "x".to_string()), ("x".to_string(), "y".to_string())];
    assert_eq!(apply_phoneme_map("abc".to_string(), &pairs), "ayc");
    assert_eq!(apply_phoneme_map("abc".to_string(), &[]), "abc");
}

#[test]
fn voice_input_from_sentences() {
    assert_eq!(piper_input_ids(&table(), &[], &["a", "b"]), Some(vec![1, 5, 0, 6, 7, 0, 2]));
    assert_eq!(piper_input_ids(&table(), &[], &["zz"]), None);
    assert_eq!(piper_input_ids(&table(), &[], &[]), None);
    assert_eq!(piper_input_ids(&table(), &[], &[""]), None);
    let pairs = vec![("z".to_string(), "a".to_string())];
    assert_eq!(piper_input_ids(&table(), &pairs, &["z"]), Some(vec![1, 5, 0, 2]));
}

#[test]
fn one_speaker_by_default() {
    assert_eq!(default_num_speakers(), 1);
}

#[test]
fn voice_files_name_their_language() {
    assert_eq!(piper_voice_language("en_US-lessac-medium.onnx"), Some("en".to_string()));
    assert_eq!(piper_voice_language("es_ES-davefx-medium.onnx"), Some("es".to_string()));
    assert_eq!(piper_voice_language("voice.onnx"), Some("voice.onnx".to_string()));
    assert_eq!(piper_voice_language("en_US-lessac-medium.onnx.json"), None);
    assert_eq!(piper_voice_language("_x.onnx"), None);
    assert_eq!(piper_voice_language("en_US.bin"), None);
}
