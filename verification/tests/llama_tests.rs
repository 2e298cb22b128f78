use nanos::llama_model::{config_from_header, greedy_tokenize, load_tokenizer, weight_layout, Config, TokenizerError};

fn header(fields: [i32; 7]) -> Vec<u8> {
    fields.iter().flat_map(|f| f.to_le_bytes()).collect()
}

fn tokenizer_bytes(max_len: u32, tokens: &[&str]) -> Vec<u8> {
    let mut b = max_len.to_le_bytes().to_vec();
    for (i, t) in tokens.iter().enumerate() {
        b.extend_from_slice(&(i as f32).to_bits().to_le_bytes());
        b.extend_from_slice(&(t.len() as u32).to_le_bytes());
        b.extend_from_slice(t.as_bytes());
    }
    b
}

#[test]
fn head_size_divides_dim() {
    let c = Config { dim: 288, hidden_dim: 768, n_layers: 6, n_heads: 6, n_kv_heads: 6, vocab_size: 32000, seq_len: 256, shared_weights: true };
    assert_eq!(c.head_size(), 48);
}

#[test]
fn header_is_read_little_endian() {
    let c = config_from_header(&header([288, 768, 6, 6, 6, 32000, 256]));
    assert_eq!((c.dim, c.hidden_dim, c.n_layers, c.n_heads, c.n_kv_heads, c.vocab_size, c.seq_len), (288, 768, 6, 6, 6, 32000, 256));
    assert!(c.shared_weights);
    let c = config_from_header(&header([64, 128, 2, 4, 2, -512, 32]));
    assert_eq!(c.vocab_size, 512);
    assert!(!c.shared_weights);
    let c = config_from_header(&header([-1, 0, 0, 1, 1, 1, 1]));
    assert_eq!(c.dim, usize::MAX);
}

#[test]
fn weight_layout_of_a_small_model() {
    let c = Config { dim: 8, hidden_dim: 16, n_layers: 2, n_heads: 2, n_kv_heads: 1, vocab_size: 10, seq_len: 4, shared_weights: false };
    let size = 28 + (80 + 16 + 128 + 64 + 64 + 128 + 16 + 256 + 256 + 256 + 8) * 4;
    let l = weight_layout(&c, size as u64);
    assert_eq!(l.kv_dim, 4);
    assert_eq!(l.counts, vec![80, 16, 128, 64, 64, 128, 16, 256, 256, 256, 8]);
    assert_eq!(l.skip_bytes, (4 * 2 * 2 * 4) as i64);
    assert!(!l.has_wcls);
    assert!(weight_layout(&c, size as u64 + 320).has_wcls);
    let shared = Config { shared_weights: true, ..c };
    assert!(!weight_layout(&shared, size as u64 + 320).has_wcls);
}

#[test]
fn tokenizer_file_is_read() {
    let b = tokenizer_bytes(3, &["<unk>", "<s>", "</s>", "a", "b", "ab", "abc"]);
    let t = load_tokenizer(&b, 7).ok().unwrap();
    assert_eq!(t.max_token_length, 3);
    assert_eq!(t.vocab, vec!["<unk>", "<s>", "</s>", "a", "b", "ab", "abc"]);
    assert_eq!(f32::from_bits(t.vocab_score_bits[5]), 5.0);
    assert_eq!(t.vocab_map.get("ab"), Some(&5));
    assert!(matches!(load_tokenizer(&b[..2], 7), Err(TokenizerError::MaxTokenLength)));
    assert!(matches!(load_tokenizer(&b, 8), Err(TokenizerError::Score)));
    assert!(matches!(load_tokenizer(&b[..b.len() - 1], 7), Err(TokenizerError::Text)));
    assert!(matches!(load_tokenizer(&b[..6], 1), Err(TokenizerError::Score)));
    assert!(matches!(load_tokenizer(&b[..10], 1), Err(TokenizerError::Length)));
    assert_eq!(TokenizerError::Text.message(), "Failed to read token string");
}

#[test]
fn greedy_encoding_takes_longest_matches() {
    let b = tokenizer_bytes(3, &["<unk>", "<s>", "</s>", "a", "b", "ab", "abc"]);
    let t = load_tokenizer(&b, 7).ok().unwrap();
    assert_eq!(greedy_tokenize("abcab", 3, &t.vocab_map), vec![6, 5]);
    assert_eq!(greedy_tokenize("bxa", 3, &t.vocab_map), vec![4, 3]);
    assert_eq!(t.encode("aab"), vec![1, 3, 5]);
    assert_eq!(greedy_tokenize("", 3, &t.vocab_map), Vec::<usize>::new());
}

#[test]
fn pieces_are_decoded() {
    let b = tokenizer_bytes(6, &["<unk>", "<s>", " hello", "<0x0A>", "<0x+A>", "<0xZZ>", "<0x20>"]);
    let t = load_tokenizer(&b, 7).ok().unwrap();
    assert_eq!(t.decode(1, 2), "hello");
    assert_eq!(t.decode(5, 2), " hello");
    assert_eq!(t.decode(5, 3), "\n");
    assert_eq!(t.decode(5, 4), "\n");
    assert_eq!(t.decode(5, 5), "<0xZZ>");
    assert_eq!(t.decode(1, 6), "");
}

#[test]
fn checked_encoding_refuses_slices_inside_characters() {
    let b = tokenizer_bytes(3, &["<unk>", "<s>", "</s>", "a", "é"]);
    let t = load_tokenizer(&b, 5).ok().unwrap();
    assert_eq!(t.encode_checked("aé"), None);
    let b = tokenizer_bytes(2, &["<unk>", "<s>", "</s>", "a", "é"]);
    let t = load_tokenizer(&b, 5).ok().unwrap();
    assert_eq!(t.encode_checked("aé"), None);
    assert_eq!(t.encode_checked("éa"), Some(vec![1, 4, 3]));
    assert_eq!(nanos::llama_model::greedy_tokenize_checked("ab", 2, &t.vocab_map), Some(vec![3]));
}

#[test]
fn checked_layout_refuses_overflow() {
    let c = Config { dim: usize::MAX, hidden_dim: 2, n_layers: 2, n_heads: 1, n_kv_heads: 1, vocab_size: 2, seq_len: 1, shared_weights: true };
    assert!(nanos::llama_model::weight_layout_checked(&c, 0).is_none());
    let no_heads = Config { dim: 8, hidden_dim: 8, n_layers: 1, n_heads: 0, n_kv_heads: 1, vocab_size: 2, seq_len: 1, shared_weights: true };
    assert!(nanos::llama_model::weight_layout_checked(&no_heads, 0).is_none());
    let ok = Config { dim: 8, hidden_dim: 16, n_layers: 2, n_heads: 2, n_kv_heads: 1, vocab_size: 10, seq_len: 4, shared_weights: false };
    assert_eq!(nanos::llama_model::weight_layout_checked(&ok, 0).unwrap().counts, weight_layout(&ok, 0).counts);
}
