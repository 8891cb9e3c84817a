use parla::models::{pick_gemma_model, pick_whisper_model, whisper_model_names, WhisperPick};

fn names(v: &[&str]) -> Vec<String> {
    v.iter().map(|s| s.to_string()).collect()
}

#[test]
fn gemma_prefers_q4_k_m() {
    let n = names(&["readme.txt", "Gemma-2b-Q4_0.gguf", "gemma-7b-Q4_K_M.gguf", "gemma-x-q4_k_m.gguf"]);
    assert_eq!(pick_gemma_model(&n), Some(2));
    let n = names(&["gemma-a.gguf", "gemma-b-q5_k_m.gguf", "gemma-c-q4_0.gguf"]);
    assert_eq!(pick_gemma_model(&n), Some(1));
    let n = names(&["gemma-a.gguf", "GEMMA-B.GGUF"]);
    assert_eq!(pick_gemma_model(&n), Some(0));
}

#[test]
fn no_gemma_model() {
    assert_eq!(pick_gemma_model(&names(&["llama.gguf", "gemma.bin", "gemma.gguf.txt"])), None);
    assert_eq!(pick_gemma_model(&[]), None);
}

#[test]
fn whisper_prefers_listed_names() {
    let list = whisper_model_names();
    assert_eq!(list.len(), 9);
    assert_eq!(list[0], "ggml-large-v3-turbo.bin");
    assert_eq!(list[8], "ggml-medium.en.bin");
    let mut present = vec![false; 9];
    present[3] = true;
    present[6] = true;
    let entries = names(&["ggml-other.bin"]);
    assert!(matches!(pick_whisper_model(&present, &entries), Some(WhisperPick::Preferred(3))));
}

#[test]
fn whisper_falls_back_to_any_ggml_file() {
    let present = vec![false; 9];
    let entries = names(&["notes.txt", "ggml-custom.bin", "ggml-x.bin"]);
    assert!(matches!(pick_whisper_model(&present, &entries), Some(WhisperPick::Entry(1))));
    let entries = names(&["ggml-model.gguf", "model.bin"]);
    assert!(pick_whisper_model(&present, &entries).is_none());
}
