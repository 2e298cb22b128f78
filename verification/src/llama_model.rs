//! The built-in transformer's files: the model header and the layout of the
//! weights that follow it, and the tokenizer (its file, its greedy
//! longest-match encoding and its decoding of token pieces). The float
//! arithmetic of the forward pass lives with the embedding program.
use vstd::prelude::*;
use vstd::string::*;
use vstd::utf8::*;
use std::collections::HashMap;
use crate::text::{byte_len, chars_of, has_prefix, has_suffix, lossy_text, str_byte_len, string_of, sub_chars, utf8_lossy};

verus! {

// ───────────────────────── the model header ─────────────────────────

/// The hyper-parameters of a model.
#[derive(Debug, Clone, Copy)]
pub struct Config {
    pub dim: usize,
    pub hidden_dim: usize,
    pub n_layers: usize,
    pub n_heads: usize,
    pub n_kv_heads: usize,
    pub vocab_size: usize,
    pub seq_len: usize,
    pub shared_weights: bool,
}

impl Config {
    /// The width of one attention head.
    pub fn head_size(&self) -> (r: usize)
        requires
            self.n_heads > 0,
        ensures
            r == self.dim / self.n_heads,
    {
        self.dim / self.n_heads
    }
}

/// The little-endian unsigned 32-bit number at `off`.
pub open spec fn le_u32(b: Seq<u8>, off: int) -> nat {
    (b[off] + 0x100 * b[off + 1] + 0x1_0000 * b[off + 2] + 0x100_0000 * b[off + 3]) as nat
}

/// The little-endian two's-complement 32-bit number at `off`.
pub open spec fn le_i32(b: Seq<u8>, off: int) -> int {
    let u = le_u32(b, off);
    if u >= 0x8000_0000 {
        u - 0x1_0000_0000
    } else {
        u as int
    }
}

/// Reads the unsigned 32-bit number at `off`.
pub fn read_u32(b: &[u8], off: usize) -> (r: u32)
    requires
        off + 4 <= b@.len(),
    ensures
        r as nat == le_u32(b@, off as int),
{
    let x: u32 = b[off] as u32 + 0x100 * (b[off + 1] as u32) + 0x1_0000 * (b[off + 2] as u32)
        + 0x100_0000 * (b[off + 3] as u32);
    x
}

/// Reads the signed 32-bit number at `off`.
pub fn read_i32(b: &[u8], off: usize) -> (r: i32)
    requires
        off + 4 <= b@.len(),
    ensures
        r as int == le_i32(b@, off as int),
{
    let u = read_u32(b, off);
    if u >= 0x8000_0000 {
        let x: i64 = (u as i64) - 0x1_0000_0000i64;
        x as i32
    } else {
        u as i32
    }
}

/// The header a model file can be read from: 28 bytes, and a vocabulary
/// size whose magnitude fits an `i32`.
pub open spec fn header_ok(h: Seq<u8>) -> bool {
    h.len() >= 28 && le_i32(h, 20) != i32::MIN
}

/// The absolute value of a vocabulary size field.
pub open spec fn abs_i32(x: int) -> int {
    if x < 0 {
        -x
    } else {
        x
    }
}

/// Reads the configuration from a model header: seven little-endian `i32`s
/// (dim, hidden dim, layers, heads, key/value heads, vocabulary size, sequence
/// length), each taken as `usize` the way `as` converts it. A negative
/// vocabulary size marks a model with its own classifier weights.
pub fn config_from_header(h: &[u8]) -> (c: Config)
    requires
        header_ok(h@),
    ensures
        c.dim == le_i32(h@, 0) as usize,
        c.hidden_dim == le_i32(h@, 4) as usize,
        c.n_layers == le_i32(h@, 8) as usize,
        c.n_heads == le_i32(h@, 12) as usize,
        c.n_kv_heads == le_i32(h@, 16) as usize,
        c.vocab_size == abs_i32(le_i32(h@, 20)) as usize,
        c.seq_len == le_i32(h@, 24) as usize,
        c.shared_weights == (le_i32(h@, 20) > 0),
{
    let dim = read_i32(h, 0) as usize;
    let hidden_dim = read_i32(h, 4) as usize;
    let n_layers = read_i32(h, 8) as usize;
    let n_heads = read_i32(h, 12) as usize;
    let n_kv_heads = read_i32(h, 16) as usize;
    let vocab_raw = read_i32(h, 20);
    let vocab_abs: i32 = if vocab_raw < 0 { -vocab_raw } else { vocab_raw };
    let vocab_size = vocab_abs as usize;
    let seq_len = read_i32(h, 24) as usize;
    Config {
        dim,
        hidden_dim,
        n_layers,
        n_heads,
        n_kv_heads,
        vocab_size,
        seq_len,
        shared_weights: vocab_raw > 0,
    }
}

// ───────────────────────── the weight layout ─────────────────────────

/// The key/value width of a model.
pub open spec fn kv_dim_of(c: Config) -> int {
    (c.dim * c.n_kv_heads) / (c.n_heads as int)
}

/// The number of floats of each weight table, in file order: token
/// embeddings, attention norms, wq, wk, wv, wo, feed-forward norms, w1, w2,
/// w3, final norm.
pub open spec fn weight_counts(c: Config) -> Seq<int> {
    let kv = kv_dim_of(c);
    seq![
        c.vocab_size * c.dim,
        c.n_layers * c.dim,
        c.n_layers * c.dim * c.dim,
        c.n_layers * c.dim * kv,
        c.n_layers * c.dim * kv,
        c.n_layers * c.dim * c.dim,
        c.n_layers * c.dim,
        c.n_layers * c.hidden_dim * c.dim,
        c.n_layers * c.dim * c.hidden_dim,
        c.n_layers * c.hidden_dim * c.dim,
        c.dim as int,
    ]
}

pub open spec fn sum_counts(s: Seq<int>) -> int
    decreases s.len(),
{
    if s.len() == 0 {
        0
    } else {
        sum_counts(s.drop_last()) + s.last()
    }
}

/// The size of a model file without classifier weights: the header and the
/// weight tables at four bytes per float.
pub open spec fn size_without_wcls(c: Config) -> int {
    28 + sum_counts(weight_counts(c)) * 4
}

/// The floats of the rotary tables stored after the weights (and skipped).
pub open spec fn freq_cis_floats(c: Config) -> int {
    c.seq_len * (((c.dim as int) / (c.n_heads as int)) / 2) * 2
}

/// Every product the layout computes fits a `usize`, in the order it is
/// computed, and the skipped rotary tables fit a seek offset.
pub open spec fn layout_fits(c: Config) -> bool {
    let kv = kv_dim_of(c);
    let m = usize::MAX as int;
    &&& c.n_heads > 0
    &&& c.dim * c.n_kv_heads <= m
    &&& c.vocab_size * c.dim <= m
    &&& c.n_layers * c.dim <= m
    &&& c.n_layers * c.dim * c.dim <= m
    &&& c.n_layers * c.dim * kv <= m
    &&& c.n_layers * c.hidden_dim <= m
    &&& c.n_layers * c.hidden_dim * c.dim <= m
    &&& c.n_layers * c.dim * c.hidden_dim <= m
    &&& size_without_wcls(c) <= m
    &&& freq_cis_floats(c) * 4 <= i64::MAX
    &&& freq_cis_floats(c) * 4 <= m
}

/// Where the weights of a model file lie.
pub struct WeightLayout {
    pub kv_dim: usize,
    /// The float count of each weight table, in file order.
    pub counts: Vec<usize>,
    /// Bytes of rotary tables to skip before the classifier weights.
    pub skip_bytes: i64,
    /// Whether classifier weights follow.
    pub has_wcls: bool,
}

proof fn lemma_sum_counts_nonneg_bound(s: Seq<int>, i: int)
    requires
        forall|k: int| 0 <= k < s.len() ==> s[k] >= 0,
        0 <= i <= s.len(),
    ensures
        0 <= sum_counts(s.take(i)) <= sum_counts(s),
    decreases s.len() - i,
{
    if i < s.len() {
        lemma_sum_counts_nonneg_bound(s, i + 1);
        assert(s.take(i + 1).drop_last() =~= s.take(i));
    } else {
        assert(s.take(i) =~= s);
    }
    lemma_sum_counts_nonneg(s.take(i));
}

proof fn lemma_sum_counts_nonneg(s: Seq<int>)
    requires
        forall|k: int| 0 <= k < s.len() ==> s[k] >= 0,
    ensures
        sum_counts(s) >= 0,
    decreases s.len(),
{
    if s.len() > 0 {
        lemma_sum_counts_nonneg(s.drop_last());
    }
}

/// Lays out the weights of a model file of `file_len` bytes: classifier
/// weights follow only when the model does not share them and the file is
/// longer than the weights without them.
pub fn weight_layout(c: &Config, file_len: u64) -> (r: WeightLayout)
    requires
        layout_fits(*c),
    ensures
        r.kv_dim as int == kv_dim_of(*c),
        r.counts@.len() == 11,
        forall|i: int| 0 <= i < 11 ==> r.counts@[i] as int == #[trigger] weight_counts(*c)[i],
        r.skip_bytes as int == freq_cis_floats(*c) * 4,
        r.has_wcls == (!c.shared_weights && file_len > size_without_wcls(*c)),
{
    let ghost wc = weight_counts(*c);
    proof {
        assert(forall|k: int| 0 <= k < wc.len() ==> wc[k] >= 0) by {
            assert forall|k: int| 0 <= k < wc.len() implies wc[k] >= 0 by {
                assert(kv_dim_of(*c) >= 0);
                assert(c.n_layers * c.dim * kv_dim_of(*c) >= 0) by (nonlinear_arith)
                    requires kv_dim_of(*c) >= 0;
                assert(c.n_layers * c.dim * c.dim >= 0) by (nonlinear_arith);
                assert(c.n_layers * c.hidden_dim * c.dim >= 0) by (nonlinear_arith);
                assert(c.n_layers * c.dim * c.hidden_dim >= 0) by (nonlinear_arith);
                assert(c.vocab_size * c.dim >= 0) by (nonlinear_arith);
                assert(c.n_layers * c.dim >= 0) by (nonlinear_arith);
            }
        }
    }
    let kv_dim = (c.dim * c.n_kv_heads) / c.n_heads;
    let counts: Vec<usize> = vec![
        c.vocab_size * c.dim,
        c.n_layers * c.dim,
        c.n_layers * c.dim * c.dim,
        c.n_layers * c.dim * kv_dim,
        c.n_layers * c.dim * kv_dim,
        c.n_layers * c.dim * c.dim,
        c.n_layers * c.dim,
        c.n_layers * c.hidden_dim * c.dim,
        c.n_layers * c.dim * c.hidden_dim,
        c.n_layers * c.hidden_dim * c.dim,
        c.dim,
    ];
    assert(counts@.len() == 11);
    let mut total: usize = 0;
    let mut i: usize = 0;
    while i < 11
        invariant
            i <= 11,
            counts@.len() == 11,
            wc == weight_counts(*c),
            forall|k: int| 0 <= k < 11 ==> counts@[k] as int == #[trigger] wc[k],
            forall|k: int| 0 <= k < wc.len() ==> wc[k] >= 0,
            total as int == sum_counts(wc.take(i as int)),
            28 + sum_counts(wc) * 4 <= usize::MAX,
        decreases 11 - i,
    {
        proof {
            lemma_sum_counts_nonneg_bound(wc, i + 1);
            assert(wc.take(i + 1).drop_last() =~= wc.take(i as int));
        }
        total = total + counts[i];
        i = i + 1;
    }
    assert(wc.take(11) =~= wc);
    let size = 28 + total * 4;
    let head_size = c.dim / c.n_heads;
    let half = head_size / 2;
    proof {
        assert(half as int == ((c.dim as int) / (c.n_heads as int)) / 2);
        assert(c.seq_len * half * 2 * 4 <= usize::MAX);
        assert(c.seq_len * half * 2 * 4 <= i64::MAX);
        assert(c.seq_len * half <= c.seq_len * half * 2 * 4) by (nonlinear_arith);
        assert(c.seq_len * half * 2 <= c.seq_len * half * 2 * 4) by (nonlinear_arith);
    }
    let freq = c.seq_len * half;
    let skip_bytes = (freq * 2 * 4) as i64;
    let has_wcls = !c.shared_weights && file_len > size as u64;
    WeightLayout { kv_dim, counts, skip_bytes, has_wcls }
}

/// Lays out the weights of a model file, or `None` when a product the
/// layout computes does not fit (or the model has no heads).
pub fn weight_layout_checked(c: &Config, file_len: u64) -> (r: Option<WeightLayout>)
    ensures
        r is Some <==> layout_fits(*c),
        r matches Some(l) ==> {
            &&& l.kv_dim as int == kv_dim_of(*c)
            &&& l.counts@.len() == 11
            &&& forall|i: int| 0 <= i < 11 ==> l.counts@[i] as int == #[trigger] weight_counts(*c)[i]
            &&& l.skip_bytes as int == freq_cis_floats(*c) * 4
            &&& l.has_wcls == (!c.shared_weights && file_len > size_without_wcls(*c))
        },
{
    if c.n_heads == 0 {
        return None;
    }
    let m = usize::MAX as u128;
    let dim = c.dim as u128;
    let hidden = c.hidden_dim as u128;
    let layers = c.n_layers as u128;
    let heads = c.n_heads as u128;
    let kvh = c.n_kv_heads as u128;
    let vocab = c.vocab_size as u128;
    let seq = c.seq_len as u128;
    assert(m * m < 0x1_0000_0000_0000_0000_0000_0000_0000_0000) by (nonlinear_arith)
        requires m < 0x1_0000_0000_0000_0000;
    assert(dim * kvh <= m * m) by (nonlinear_arith) requires dim <= m, kvh <= m;
    assert(layers * dim <= m * m) by (nonlinear_arith) requires layers <= m, dim <= m;
    assert(layers * hidden <= m * m) by (nonlinear_arith) requires layers <= m, hidden <= m;
    assert(vocab * dim <= m * m) by (nonlinear_arith) requires vocab <= m, dim <= m;
    let dk = dim * kvh;
    if dk > m {
        return None;
    }
    let kv = dk / heads;
    assert(kv as int == kv_dim_of(*c));
    let ld = layers * dim;
    let lh = layers * hidden;
    if vocab * dim > m || ld > m || lh > m {
        return None;
    }
    assert(ld * dim <= m * m) by (nonlinear_arith) requires ld <= m, dim <= m;
    assert(ld * kv <= m * m) by (nonlinear_arith) requires ld <= m, kv <= dk, dk <= m;
    assert(lh * dim <= m * m) by (nonlinear_arith) requires lh <= m, dim <= m;
    let ldd = ld * dim;
    let ldk = ld * kv;
    let lhd = lh * dim;
    if ldd > m || ldk > m || lhd > m {
        return None;
    }
    let total = vocab * dim + ld + ldd + ldk + ldk + ldd + ld + lhd + lhd + lhd + dim;
    proof {
        let wc = weight_counts(*c);
        assert(layers * hidden * dim == lhd) by (nonlinear_arith) requires lh == layers * hidden, lhd == lh * dim;
        assert(layers * dim * hidden == lhd) by (nonlinear_arith) requires lh == layers * hidden, lhd == lh * dim;
        assert(layers * dim * dim == ldd) by (nonlinear_arith) requires ld == layers * dim, ldd == ld * dim;
        assert(layers * dim * kv == ldk) by (nonlinear_arith) requires ld == layers * dim, ldk == ld * kv;
        assert(sum_counts(wc) == total) by {
            reveal_with_fuel(sum_counts, 12);
        }
    }
    if total > (m - 28) / 4 {
        return None;
    }
    let half = (dim / heads) / 2;
    assert(seq * half <= m * m) by (nonlinear_arith) requires seq <= m, half <= dim, dim <= m;
    let sh = seq * half;
    if sh > m {
        assert(freq_cis_floats(*c) * 4 == sh * 8) by (nonlinear_arith)
            requires half == ((c.dim as int) / (c.n_heads as int)) / 2, sh == seq * half, seq == c.seq_len;
        return None;
    }
    let freq = sh * 8;
    if freq > m || freq > 0x7fff_ffff_ffff_ffff {
        return None;
    }
    assert(freq_cis_floats(*c) * 4 == freq) by (nonlinear_arith)
        requires half == ((c.dim as int) / (c.n_heads as int)) / 2, freq == seq * half * 8, seq == c.seq_len;
    Some(weight_layout(c, file_len))
}

// ───────────────────────── the tokenizer's vocabulary map ─────────────────────────

/// The token ids a vocabulary map holds, by token text.
pub uninterp spec fn vocab_ids(m: HashMap<String, usize>) -> Map<Seq<char>, usize>;

/// The map of no tokens.
pub open spec fn no_vocab() -> Map<Seq<char>, usize> {
    Map::empty()
}

/// An empty map (`HashMap::with_capacity`).
#[verifier::external_body]
fn new_vocab_map(capacity: usize) -> (r: HashMap<String, usize>)
    ensures
        vocab_ids(r) == no_vocab(),
{
    HashMap::with_capacity(capacity)
}

/// Maps `token` to `id`, replacing an earlier id (`HashMap::insert`).
#[verifier::external_body]
fn vocab_insert(m: &mut HashMap<String, usize>, token: String, id: usize)
    ensures
        vocab_ids(*final(m)) == vocab_ids(*old(m)).insert(token@, id),
{
    m.insert(token, id);
}

/// The id of `piece`, if the map holds it (`HashMap::get`).
#[verifier::external_body]
fn vocab_get(m: &HashMap<String, usize>, piece: &str) -> (r: Option<usize>)
    ensures
        r == (if vocab_ids(*m).dom().contains(piece@) {
            Some(vocab_ids(*m)[piece@])
        } else {
            None
        }),
{
    m.get(piece).copied()
}

/// The map of a vocabulary: each token text to its index, a later token
/// replacing an earlier one of the same text.
pub open spec fn vocab_map_of(tokens: Seq<Seq<char>>) -> Map<Seq<char>, usize>
    decreases tokens.len(),
{
    if tokens.len() == 0 {
        Map::empty()
    } else {
        vocab_map_of(tokens.drop_last()).insert(tokens.last(), (tokens.len() - 1) as usize)
    }
}

// ───────────────────────── the tokenizer file ─────────────────────────

/// A tokenizer: the vocabulary (with each token's score as the bits of an
/// `f32`), the map from token text to id, and the longest token's length.
pub struct Tokenizer {
    pub vocab: Vec<String>,
    pub vocab_score_bits: Vec<u32>,
    pub vocab_map: HashMap<String, usize>,
    pub max_token_length: usize,
}

/// Which read of a tokenizer file fell short.
pub enum TokenizerError {
    MaxTokenLength,
    Score,
    Length,
    Text,
}

pub open spec fn tokenizer_error_text(e: TokenizerError) -> Seq<char> {
    match e {
        TokenizerError::MaxTokenLength => "Failed to read max token length"@,
        TokenizerError::Score => "Failed to read token score"@,
        TokenizerError::Length => "Failed to read token length"@,
        TokenizerError::Text => "Failed to read token string"@,
    }
}

impl TokenizerError {
    pub fn message(&self) -> (r: String)
        ensures
            r@ == tokenizer_error_text(*self),
    {
        match self {
            TokenizerError::MaxTokenLength => String::from_str("Failed to read max token length"),
            TokenizerError::Score => String::from_str("Failed to read token score"),
            TokenizerError::Length => String::from_str("Failed to read token length"),
            TokenizerError::Text => String::from_str("Failed to read token string"),
        }
    }
}

/// Where the vocabulary entry starting at `off` ends: a 4-byte score, a
/// 4-byte length and that many bytes of text; `None` when the file is
/// shorter.
pub open spec fn entry_end(b: Seq<u8>, off: int) -> Option<int> {
    if off + 8 <= b.len() && off + 8 + le_u32(b, off + 4) <= b.len() {
        Some(off + 8 + le_u32(b, off + 4))
    } else {
        None
    }
}

/// Where entry `i` starts, when all entries before it are complete.
pub open spec fn entry_offset(b: Seq<u8>, i: nat) -> Option<int>
    decreases i,
{
    if i == 0 {
        Some(4)
    } else {
        match entry_offset(b, (i - 1) as nat) {
            Some(o) => entry_end(b, o),
            None => None,
        }
    }
}

/// The read that falls short in an incomplete entry at `off`.
pub open spec fn entry_error(b: Seq<u8>, off: int) -> TokenizerError {
    if off + 4 > b.len() {
        TokenizerError::Score
    } else if off + 8 > b.len() {
        TokenizerError::Length
    } else {
        TokenizerError::Text
    }
}

/// The bytes of the text of the entry at `off`.
pub open spec fn entry_text(b: Seq<u8>, off: int) -> Seq<u8> {
    b.subrange(off + 8, off + 8 + le_u32(b, off + 4))
}

/// Reads a tokenizer file: the longest token's length, then `vocab_size`
/// entries of score, length and text (read as lossy UTF-8). Fails with the
/// first read that falls short.
pub fn load_tokenizer(b: &[u8], vocab_size: usize) -> (r: Result<Tokenizer, TokenizerError>)
    ensures
        b@.len() < 4 ==> r matches Err(TokenizerError::MaxTokenLength),
        b@.len() >= 4 ==> match r {
            Ok(t) => {
                &&& entry_offset(b@, vocab_size as nat) is Some
                &&& t.max_token_length == le_u32(b@, 0) as usize
                &&& t.vocab@.len() == vocab_size
                &&& t.vocab_score_bits@.len() == vocab_size
                &&& forall|i: int|
                    0 <= i < vocab_size ==> {
                        let o = entry_offset(b@, i as nat)->0;
                        &&& (#[trigger] t.vocab@[i])@ == utf8_lossy(entry_text(b@, o))
                        &&& t.vocab_score_bits@[i] as nat == le_u32(b@, o)
                    }
                &&& vocab_ids(t.vocab_map) == vocab_map_of(t.vocab@.map_values(|s: String| s@))
            },
            Err(e) => exists|i: nat|
                i < vocab_size && #[trigger] entry_offset(b@, i) is Some && entry_end(
                    b@,
                    entry_offset(b@, i)->0,
                ) is None && e == entry_error(b@, entry_offset(b@, i)->0),
        },
{
    if b.len() < 4 {
        return Err(TokenizerError::MaxTokenLength);
    }
    let max_token_length = read_u32(b, 0) as usize;
    let mut vocab: Vec<String> = Vec::new();
    let mut scores: Vec<u32> = Vec::new();
    let mut map = new_vocab_map(vocab_size);
    let n = b.len();
    let mut off: usize = 4;
    let mut i: usize = 0;
    while i < vocab_size
        invariant
            n == b@.len(),
            n >= 4,
            i <= vocab_size,
            entry_offset(b@, i as nat) == Some(off as int),
            off <= n,
            vocab@.len() == i,
            scores@.len() == i,
            forall|k: int|
                0 <= k < i ==> {
                    let o = entry_offset(b@, k as nat)->0;
                    &&& (#[trigger] vocab@[k])@ == utf8_lossy(entry_text(b@, o))
                    &&& scores@[k] as nat == le_u32(b@, o)
                    &&& entry_offset(b@, k as nat) is Some
                },
            vocab_ids(map) == vocab_map_of(vocab@.map_values(|s: String| s@)),
        decreases vocab_size - i,
    {
        if n - off < 4 {
            assert(entry_end(b@, off as int) is None);
            return Err(TokenizerError::Score);
        }
        let score = read_u32(b, off);
        if n - off < 8 {
            assert(entry_end(b@, off as int) is None);
            return Err(TokenizerError::Length);
        }
        let len = read_u32(b, off + 4) as usize;
        if n - off - 8 < len {
            assert(entry_end(b@, off as int) is None);
            return Err(TokenizerError::Text);
        }
        let start = off + 8;
        let text_bytes = b.split_at(start).1.split_at(len).0;
        assert(text_bytes@ =~= entry_text(b@, off as int));
        let token = lossy_text(text_bytes);
        let ghost views0 = vocab@.map_values(|s: String| s@);
        vocab_insert(&mut map, token.clone(), i);
        vocab.push(token);
        scores.push(score);
        proof {
            let views1 = vocab@.map_values(|s: String| s@);
            assert(views1.drop_last() =~= views0);
            assert(views1.last() == token@);
            assert(entry_offset(b@, (i + 1) as nat) == Some(start + len));
        }
        off = start + len;
        i = i + 1;
    }
    Ok(Tokenizer { vocab, vocab_score_bits: scores, vocab_map: map, max_token_length })
}

// ───────────────────────── decoding a token ─────────────────────────

/// The value of a hexadecimal digit.
pub open spec fn hex_value(c: char) -> Option<nat> {
    if '0' <= c <= '9' {
        Some((c as nat - '0' as nat) as nat)
    } else if 'a' <= c <= 'f' {
        Some((c as nat - 'a' as nat + 10) as nat)
    } else if 'A' <= c <= 'F' {
        Some((c as nat - 'A' as nat + 10) as nat)
    } else {
        None
    }
}

/// What `u8::from_str_radix(_, 16)` reads from two characters: two hex
/// digits, or `+` and one.
pub open spec fn hex_byte(m: Seq<char>) -> Option<nat> {
    if m.len() != 2 {
        None
    } else if m[0] == '+' {
        hex_value(m[1])
    } else {
        match (hex_value(m[0]), hex_value(m[1])) {
            (Some(a), Some(b)) => Some(a * 16 + b),
            _ => None,
        }
    }
}

/// The byte a byte-fallback token `<0xHH>` stands for.
pub open spec fn byte_fallback(piece: Seq<char>) -> Option<nat> {
    if byte_len(piece) == 6 && has_prefix(piece, "<0x"@) && has_suffix(piece, ">"@) {
        hex_byte(piece.subrange(3, piece.len() - 1))
    } else {
        None
    }
}

/// `s` without its leading spaces.
pub open spec fn trim_leading_spaces(s: Seq<char>) -> Seq<char>
    decreases s.len(),
{
    if s.len() > 0 && s[0] == ' ' {
        trim_leading_spaces(s.drop_first())
    } else {
        s
    }
}

/// The text of `token` following `prev_token`: a byte-fallback token
/// becomes the character of that byte, and after the beginning-of-text
/// token (1) leading spaces are dropped.
pub open spec fn decode_piece(entry: Seq<char>, prev_token: usize) -> Seq<char> {
    let p = match byte_fallback(entry) {
        Some(v) => seq![v as u8 as char],
        None => entry,
    };
    if prev_token == 1 {
        trim_leading_spaces(p)
    } else {
        p
    }
}

fn hex_value_exec(c: char) -> (r: Option<u32>)
    ensures
        match hex_value(c) {
            Some(v) => r == Some(v as u32),
            None => r is None,
        },
{
    if '0' <= c && c <= '9' {
        Some(c as u32 - '0' as u32)
    } else if 'a' <= c && c <= 'f' {
        Some(c as u32 - 'a' as u32 + 10)
    } else if 'A' <= c && c <= 'F' {
        Some(c as u32 - 'A' as u32 + 10)
    } else {
        None
    }
}

fn byte_fallback_exec(piece: &str) -> (r: Option<u8>)
    ensures
        match byte_fallback(piece@) {
            Some(v) => r == Some(v as u8) && v < 256,
            None => r is None,
        },
{
    proof {
        reveal_strlit("<0x");
        reveal_strlit(">");
    }
    let cs = chars_of(piece);
    let n = cs.len();
    if str_byte_len(piece) != 6 || n < 4 {
        proof {
            if byte_len(piece@) == 6 && has_prefix(piece@, "<0x"@) && has_suffix(piece@, ">"@) {
                assert(piece@.take(3)[2] == "<0x"@[2]);
                assert(piece@[2] == 'x');
                assert(piece@.skip(piece@.len() - 1)[0] == ">"@[0]);
                assert(piece@[piece@.len() - 1] == '>');
                assert(piece@.len() >= 4);
            }
        }
        return None;
    }
    if !(cs[0] == '<' && cs[1] == '0' && cs[2] == 'x' && cs[n - 1] == '>') {
        proof {
            if has_prefix(piece@, "<0x"@) && has_suffix(piece@, ">"@) {
                assert(piece@.take(3)[0] == '<');
                assert(piece@.take(3)[1] == '0');
                assert(piece@.take(3)[2] == 'x');
                assert(piece@.skip(n - 1)[0] == '>');
            }
        }
        return None;
    }
    assert(has_prefix(piece@, "<0x"@)) by {
        assert(piece@.take(3) =~= "<0x"@);
    }
    assert(has_suffix(piece@, ">"@)) by {
        assert(piece@.skip(n - 1) =~= ">"@);
    }
    let m = sub_chars(cs.as_slice(), 3, n - 1);
    if m.len() != 2 {
        return None;
    }
    if m[0] == '+' {
        match hex_value_exec(m[1]) {
            Some(v) => Some(v as u8),
            None => None,
        }
    } else {
        match (hex_value_exec(m[0]), hex_value_exec(m[1])) {
            (Some(a), Some(b)) => Some((a * 16 + b) as u8),
            _ => None,
        }
    }
}

fn trim_leading_spaces_exec(v: &[char]) -> (r: Vec<char>)
    ensures
        r@ == trim_leading_spaces(v@),
{
    let mut i: usize = 0;
    assert(v@.skip(0) =~= v@);
    while i < v.len() && v[i] == ' '
        invariant
            i <= v@.len(),
            trim_leading_spaces(v@) == trim_leading_spaces(v@.skip(i as int)),
        decreases v@.len() - i,
    {
        assert(v@.skip(i as int).drop_first() =~= v@.skip(i + 1));
        i = i + 1;
    }
    assert(v@.skip(i as int) =~= v@.subrange(i as int, v@.len() as int));
    sub_chars(v, i, v.len())
}

impl Tokenizer {
    /// The text of `token` when it follows `prev_token`.
    pub fn decode(&self, prev_token: usize, token: usize) -> (r: String)
        requires
            token < self.vocab@.len(),
        ensures
            r@ == decode_piece(self.vocab@[token as int]@, prev_token),
    {
        let entry = &self.vocab[token];
        let piece: Vec<char> = match byte_fallback_exec(entry.as_str()) {
            Some(v) => {
                let c = v as char;
                let mut p: Vec<char> = Vec::new();
                p.push(c);
                assert(p@ =~= seq![c]);
                p
            },
            None => chars_of(entry.as_str()),
        };
        if prev_token == 1 {
            let t = trim_leading_spaces_exec(piece.as_slice());
            string_of(t.as_slice())
        } else {
            string_of(piece.as_slice())
        }
    }
}

// ───────────────────────── encoding text ─────────────────────────

/// The longest vocabulary entry among the slices of `b` at `pos` of `l`,
/// `l - 1`, ..., 1 bytes: its id and its length.
pub open spec fn longest_entry(b: Seq<u8>, pos: int, l: int, ids: Map<Seq<char>, usize>) -> Option<(usize, int)>
    decreases l,
{
    if l <= 0 {
        None
    } else {
        let piece = decode_utf8(b.subrange(pos, pos + l));
        if ids.dom().contains(piece) {
            Some((ids[piece], l))
        } else {
            longest_entry(b, pos, l - 1, ids)
        }
    }
}

/// Every slice that search tries ends on a character boundary (a slice
/// that does not panics).
pub open spec fn longest_entry_ok(b: Seq<u8>, pos: int, l: int, ids: Map<Seq<char>, usize>) -> bool
    decreases l,
{
    if l <= 0 {
        true
    } else {
        is_char_boundary(b, pos + l) && (ids.dom().contains(decode_utf8(b.subrange(pos, pos + l)))
            || longest_entry_ok(b, pos, l - 1, ids))
    }
}

/// How many bytes at `pos` an entry may span: the longest token's length,
/// or what is left of the text.
pub open spec fn window(b: Seq<u8>, pos: int, max: int) -> int {
    if max < b.len() - pos {
        max
    } else {
        b.len() - pos
    }
}

/// Greedy longest-match encoding of the bytes from `pos` on: at each
/// position the longest vocabulary entry is taken; a position where none
/// matches is skipped by one byte.
pub open spec fn greedy_tokens(b: Seq<u8>, pos: int, max: int, ids: Map<Seq<char>, usize>) -> Seq<usize>
    decreases b.len() - pos,
{
    if pos < 0 || pos >= b.len() {
        Seq::empty()
    } else {
        match longest_entry(b, pos, window(b, pos, max), ids) {
            Some((id, len)) => if 0 < len <= b.len() - pos {
                seq![id] + greedy_tokens(b, pos + len, max, ids)
            } else {
                Seq::empty()
            },
            None => greedy_tokens(b, pos + 1, max, ids),
        }
    }
}

/// Every slice the encoding takes starts and ends on character boundaries.
pub open spec fn greedy_ok(b: Seq<u8>, pos: int, max: int, ids: Map<Seq<char>, usize>) -> bool
    decreases b.len() - pos,
{
    if pos < 0 || pos >= b.len() {
        true
    } else {
        let l = window(b, pos, max);
        &&& (l > 0 ==> is_char_boundary(b, pos))
        &&& longest_entry_ok(b, pos, l, ids)
        &&& match longest_entry(b, pos, l, ids) {
            Some((_, len)) => 0 < len <= b.len() - pos && greedy_ok(b, pos + len, max, ids),
            None => greedy_ok(b, pos + 1, max, ids),
        }
    }
}

proof fn lemma_longest_entry_len(b: Seq<u8>, pos: int, l: int, ids: Map<Seq<char>, usize>)
    ensures
        longest_entry(b, pos, l, ids) matches Some((_, len)) ==> 0 < len <= l,
    decreases l,
{
    if l > 0 {
        lemma_longest_entry_len(b, pos, l - 1, ids);
    }
}

proof fn lemma_tail_boundary(b: Seq<u8>, pos: int, len: int)
    requires
        valid_utf8(b),
        0 <= pos <= b.len(),
        is_char_boundary(b, pos),
        0 <= len <= b.len() - pos,
    ensures
        valid_utf8(b.subrange(pos, b.len() as int)),
        is_char_boundary(b.subrange(pos, b.len() as int), len) <==> is_char_boundary(b, pos + len),
{
    broadcast use valid_utf8_split, is_char_boundary_start_end_of_seq, is_char_boundary_iff_not_is_continuation_byte;

    let t = b.subrange(pos, b.len() as int);
    assert(valid_utf8(t));
    if len == 0 {
        assert(is_char_boundary(t, 0));
    } else if len == t.len() {
        assert(is_char_boundary(t, t.len() as int));
        assert(is_char_boundary(b, b.len() as int));
    } else {
        assert(t[len] == b[pos + len]);
        assert(is_char_boundary(t, len) <==> !is_continuation_byte(t[len]));
        assert(is_char_boundary(b, pos + len) <==> !is_continuation_byte(b[pos + len]));
    }
}

/// The text of bytes `pos..pos + len` of `text`; both ends must be
/// character boundaries.
fn piece_at(text: &str, pos: usize, len: usize) -> (r: &str)
    requires
        pos + len <= text.spec_bytes().len(),
        is_char_boundary(text.spec_bytes(), pos as int),
        is_char_boundary(text.spec_bytes(), pos + len),
    ensures
        r@ == decode_utf8(text.spec_bytes().subrange(pos as int, pos + len)),
{
    broadcast use encode_utf8_valid_utf8;

    let ghost b = text.spec_bytes();
    let tail = text.split_at(pos).1;
    assert(tail.spec_bytes() =~= b.subrange(pos as int, b.len() as int));
    proof {
        lemma_tail_boundary(b, pos as int, len as int);
    }
    let piece = tail.split_at(len).0;
    assert(piece.spec_bytes() =~= b.subrange(pos as int, pos + len));
    proof {
        encode_utf8_decode_utf8(piece@);
    }
    piece
}

fn longest_at_checked(text: &str, pos: usize, l: usize, vocab: &HashMap<String, usize>) -> (r: Option<Option<(usize, usize)>>)
    requires
        pos + l <= text.spec_bytes().len(),
        l > 0 ==> is_char_boundary(text.spec_bytes(), pos as int),
    ensures
        r is None <==> !longest_entry_ok(text.spec_bytes(), pos as int, l as int, vocab_ids(*vocab)),
        r matches Some(x) ==> match longest_entry(text.spec_bytes(), pos as int, l as int, vocab_ids(*vocab)) {
            Some((id, len)) => x == Some((id, len as usize)) && 0 < len <= l,
            None => x is None,
        },
{
    let ghost b = text.spec_bytes();
    let ghost ids = vocab_ids(*vocab);
    let n = text.as_bytes().len();
    let mut len = l;
    while len > 0
        invariant
            b == text.spec_bytes(),
            ids == vocab_ids(*vocab),
            n == b.len(),
            l > 0 ==> is_char_boundary(b, pos as int),
            pos + l <= n,
            len <= l,
            longest_entry(b, pos as int, l as int, ids) == longest_entry(b, pos as int, len as int, ids),
            longest_entry_ok(b, pos as int, l as int, ids) == longest_entry_ok(b, pos as int, len as int, ids),
        decreases len,
    {
        if !text.is_char_boundary(pos + len) {
            return None;
        }
        let piece = piece_at(text, pos, len);
        match vocab_get(vocab, piece) {
            Some(id) => {
                return Some(Some((id, len)));
            },
            None => {
                len = len - 1;
            },
        }
    }
    Some(None)
}

/// Greedy longest-match encoding of `text`, or `None` when a slice it takes
/// would not start or end on a character boundary.
pub fn greedy_tokenize_checked(text: &str, max_token_length: usize, vocab: &HashMap<String, usize>) -> (r: Option<Vec<usize>>)
    ensures
        r is Some <==> greedy_ok(text.spec_bytes(), 0, max_token_length as int, vocab_ids(*vocab)),
        r matches Some(ts) ==> ts@ == greedy_tokens(text.spec_bytes(), 0, max_token_length as int, vocab_ids(*vocab)),
{
    let ghost b = text.spec_bytes();
    let ghost ids = vocab_ids(*vocab);
    let ghost max = max_token_length as int;
    let n = text.as_bytes().len();
    let mut pos: usize = 0;
    let mut out: Vec<usize> = Vec::new();
    while pos < n
        invariant
            b == text.spec_bytes(),
            ids == vocab_ids(*vocab),
            max == max_token_length as int,
            n == b.len(),
            pos <= n,
            out@ + greedy_tokens(b, pos as int, max, ids) == greedy_tokens(b, 0, max, ids),
            greedy_ok(b, pos as int, max, ids) == greedy_ok(b, 0, max, ids),
        decreases n - pos,
    {
        let l = if max_token_length < n - pos {
            max_token_length
        } else {
            n - pos
        };
        assert(l as int == window(b, pos as int, max));
        if l > 0 && !text.is_char_boundary(pos) {
            return None;
        }
        let ghost out0 = out@;
        match longest_at_checked(text, pos, l, vocab) {
            None => {
                return None;
            },
            Some(Some((id, len))) => {
                out.push(id);
                proof {
                    assert(greedy_tokens(b, pos as int, max, ids) == seq![id] + greedy_tokens(b, pos + len, max, ids));
                    assert(out0.push(id) + greedy_tokens(b, pos + len, max, ids) =~= out0 + (seq![id] + greedy_tokens(b, pos + len, max, ids)));
                }
                pos = pos + len;
            },
            Some(None) => {
                pos = pos + 1;
            },
        }
    }
    assert(out@ + greedy_tokens(b, pos as int, max, ids) =~= out@);
    Some(out)
}

/// Greedy longest-match encoding of `text` with a tokenizer's vocabulary.
pub fn greedy_tokenize(text: &str, max_token_length: usize, vocab: &HashMap<String, usize>) -> (r: Vec<usize>)
    requires
        greedy_ok(text.spec_bytes(), 0, max_token_length as int, vocab_ids(*vocab)),
    ensures
        r@ == greedy_tokens(text.spec_bytes(), 0, max_token_length as int, vocab_ids(*vocab)),
{
    match greedy_tokenize_checked(text, max_token_length, vocab) {
        Some(ts) => ts,
        None => Vec::new(),
    }
}

impl Tokenizer {
    /// The tokens the built-in transformer reads for `text`: the
    /// beginning-of-text token (1), then the greedy encoding of the text.
    pub fn encode(&self, text: &str) -> (r: Vec<usize>)
        requires
            greedy_ok(text.spec_bytes(), 0, self.max_token_length as int, vocab_ids(self.vocab_map)),
        ensures
            r@ == seq![1usize] + greedy_tokens(
                text.spec_bytes(),
                0,
                self.max_token_length as int,
                vocab_ids(self.vocab_map),
            ),
    {
        match self.encode_checked(text) {
            Some(ts) => ts,
            None => Vec::new(),
        }
    }

    /// The tokens for `text`, or `None` when its encoding would slice inside
    /// a character.
    pub fn encode_checked(&self, text: &str) -> (r: Option<Vec<usize>>)
        ensures
            r is Some <==> greedy_ok(text.spec_bytes(), 0, self.max_token_length as int, vocab_ids(self.vocab_map)),
            r matches Some(ts) ==> ts@ == seq![1usize] + greedy_tokens(
                text.spec_bytes(),
                0,
                self.max_token_length as int,
                vocab_ids(self.vocab_map),
            ),
    {
        match greedy_tokenize_checked(text, self.max_token_length, &self.vocab_map) {
            None => None,
            Some(body) => {
                let mut r: Vec<usize> = Vec::new();
                r.push(1);
                let mut body = body;
                let ghost bv = body@;
                r.append(&mut body);
                assert(r@ =~= seq![1usize] + bv);
                Some(r)
            },
        }
    }
}

/// The ids the greedy encoding produces from `pos` on are all ids of
/// vocabulary entries.
pub open spec fn ids_from_vocab(ts: Seq<usize>, ids: Map<Seq<char>, usize>) -> bool {
    forall|k: int| 0 <= k < ts.len() ==> #[trigger] in_vocab(ids, ts[k])
}

/// `id` is the id of some vocabulary entry.
pub open spec fn in_vocab(ids: Map<Seq<char>, usize>, id: usize) -> bool {
    exists|piece: Seq<char>| ids.dom().contains(piece) && ids[piece] == id
}

/// Every id the greedy encoding produces is the id of some vocabulary entry.
pub proof fn law_greedy_ids_from_vocab(b: Seq<u8>, pos: int, max: int, ids: Map<Seq<char>, usize>)
    ensures
        ids_from_vocab(greedy_tokens(b, pos, max, ids), ids),
    decreases b.len() - pos,
{
    let all = greedy_tokens(b, pos, max, ids);
    if pos < 0 || pos >= b.len() {
        assert(all.len() == 0);
    } else {
        let l = window(b, pos, max);
        lemma_longest_entry_vocab(b, pos, l, ids);
        lemma_longest_entry_len(b, pos, l, ids);
        match longest_entry(b, pos, l, ids) {
            Some((id, len)) => {
                law_greedy_ids_from_vocab(b, pos + len, max, ids);
                let rest = greedy_tokens(b, pos + len, max, ids);
                assert(all == seq![id] + rest);
                assert(in_vocab(ids, id));
                assert forall|k: int| 0 <= k < all.len() implies #[trigger] in_vocab(ids, all[k]) by {
                    if k > 0 {
                        assert(all[k] == rest[k - 1]);
                        assert(in_vocab(ids, rest[k - 1]));
                    }
                }
            },
            None => {
                law_greedy_ids_from_vocab(b, pos + 1, max, ids);
                assert(all == greedy_tokens(b, pos + 1, max, ids));
            },
        }
    }
}

proof fn lemma_longest_entry_vocab(b: Seq<u8>, pos: int, l: int, ids: Map<Seq<char>, usize>)
    ensures
        longest_entry(b, pos, l, ids) matches Some((id, _)) ==> in_vocab(ids, id),
    decreases l,
{
    if l > 0 {
        let piece = decode_utf8(b.subrange(pos, pos + l));
        if !ids.dom().contains(piece) {
            lemma_longest_entry_vocab(b, pos, l - 1, ids);
        }
    }
}

/// After the beginning-of-text token a decoded piece never starts with a space.
pub proof fn law_no_space_after_bos(entry: Seq<char>)
    ensures
        decode_piece(entry, 1).len() > 0 ==> decode_piece(entry, 1)[0] != ' ',
{
    let p = match byte_fallback(entry) {
        Some(v) => seq![v as u8 as char],
        None => entry,
    };
    lemma_trim_leading_spaces(p);
}

proof fn lemma_trim_leading_spaces(s: Seq<char>)
    ensures
        trim_leading_spaces(s).len() > 0 ==> trim_leading_spaces(s)[0] != ' ',
    decreases s.len(),
{
    if s.len() > 0 && s[0] == ' ' {
        lemma_trim_leading_spaces(s.drop_first());
    }
}

} // verus!
