//! The language-model engine's decisions: which backend a model
//! configuration selects, how a ChatML prompt becomes a list of chat
//! messages, what is sent to a model server and how its replies are read.
use vstd::prelude::*;
use vstd::string::*;
use crate::json::{
    JsonValue, as_count, as_text, element, get_count, get_element, get_member, get_member_text,
    get_text, json_parse, json_render, member, member_text, parse_json, render_json,
};
use crate::manifest::ModelConfig;
use crate::text::{
    all_digits, byte_len, chars_of, digits_value, find_char, find_char_exec, find_chars, find_seq,
    borderless, contains_seq, has_prefix, lemma_borderless, lemma_find_after, lemma_find_at_start, lemma_find_bounds,
    lemma_find_seq, lemma_find_shift, lemma_no_occurrence_across, occurs_at, parse_i32, parse_i32_exec, parse_unsigned, parse_unsigned_exec, starts_with_chars,
    str_byte_len, str_eq, string_of, sub_chars, trim, trim_chars, trim_str,
};

verus! {

// ───────────────────────── choosing a backend ─────────────────────────

/// The provider a configuration names; `local` when it names none.
pub open spec fn provider_of(config: ModelConfig) -> Seq<char> {
    match config.provider {
        Some(p) => p@,
        None => "local"@,
    }
}

/// Layers offloaded to the GPU for a local model: none on `local-cpu`, 12 on
/// `local-hybrid`, all (99) where the platform offers GPU offload, else none.
pub open spec fn gpu_layers_for(provider: Seq<char>, gpu_platform: bool) -> u32 {
    if provider == "local-cpu"@ {
        0
    } else if provider == "local-hybrid"@ {
        12
    } else if gpu_platform {
        99
    } else {
        0
    }
}

/// The backend an engine runs.
pub enum BackendPlan {
    /// A GGUF model served by a background thread.
    Local { path: String, context_window: u32, gpu_layers: u32 },
    /// A persistent MLX daemon for a model repository.
    Mlx { model_repo: String },
    /// The built-in transformer, loaded from a model file.
    Rust { path: String },
    /// An OpenAI-compatible HTTP server.
    Http { api_url: String, api_key: Option<String>, model_name: String },
}

/// Why no backend could be chosen.
pub enum EngineError {
    MissingLocalPath,
    MissingRustPath,
    UnknownProvider(String),
}

pub open spec fn is_local_provider(p: Seq<char>) -> bool {
    p == "local"@ || p == "local-cpu"@ || p == "local-hybrid"@
}

/// The MLX repository used when the configuration names no model.
pub open spec fn default_mlx_repo() -> Seq<char> {
    "mlx-community/Qwen2.5-Coder-0.5B-Instruct-4bit"@
}

/// The server address an HTTP provider uses when none is configured.
pub open spec fn default_api_url(p: Seq<char>) -> Seq<char> {
    if p == "ollama"@ {
        "http://localhost:11434/v1"@
    } else {
        "https://api.openai.com/v1"@
    }
}

/// The model an HTTP provider asks for when none is configured.
pub open spec fn default_model_name(p: Seq<char>) -> Seq<char> {
    if p == "ollama"@ {
        "qwen2.5-coder:latest"@
    } else {
        "gpt-4o-mini"@
    }
}

pub open spec fn text_or_default(t: Option<String>, d: Seq<char>) -> Seq<char> {
    match t {
        Some(s) => s@,
        None => d,
    }
}

pub open spec fn opt_view(t: Option<String>) -> Option<Seq<char>> {
    match t {
        Some(s) => Some(s@),
        None => None,
    }
}

/// The backend a configuration selects (`gpu_platform`: whether this build
/// targets a platform with GPU offload). Local and Rust backends need a
/// model path; an unknown provider is refused.
pub open spec fn plan_matches(r: Result<BackendPlan, EngineError>, config: ModelConfig, gpu_platform: bool) -> bool {
    let p = provider_of(config);
    if is_local_provider(p) {
        match config.path {
            Some(path) => r matches Ok(BackendPlan::Local { path: rp, context_window, gpu_layers })
                && rp@ == path@ && context_window == config.context_window && gpu_layers
                == gpu_layers_for(p, gpu_platform),
            None => r matches Err(EngineError::MissingLocalPath),
        }
    } else if p == "mlx"@ {
        r matches Ok(BackendPlan::Mlx { model_repo }) && model_repo@ == text_or_default(
            config.model_name,
            default_mlx_repo(),
        )
    } else if p == "rust"@ {
        match config.path {
            Some(path) => r matches Ok(BackendPlan::Rust { path: rp }) && rp@ == path@,
            None => r matches Err(EngineError::MissingRustPath),
        }
    } else if p == "openai"@ || p == "ollama"@ {
        r matches Ok(BackendPlan::Http { api_url, api_key, model_name }) && api_url@
            == text_or_default(config.api_url, default_api_url(p)) && opt_view(api_key) == opt_view(
            config.api_key,
        ) && model_name@ == text_or_default(config.model_name, default_model_name(p))
    } else {
        r matches Err(EngineError::UnknownProvider(q)) && q@ == p
    }
}

/// GPU offload of a local model: `local-hybrid` offloads 12 layers and
/// `local-cpu` none, whatever the platform; plain `local` offloads all
/// layers (99) exactly where the platform offers GPU offload.
pub proof fn law_local_gpu_layers(r: Result<BackendPlan, EngineError>, config: ModelConfig, gpu_platform: bool)
    requires
        plan_matches(r, config, gpu_platform),
        config.path is Some,
    ensures
        provider_of(config) == "local-hybrid"@ ==> (r matches Ok(BackendPlan::Local { gpu_layers, .. })
            && gpu_layers == 12),
        provider_of(config) == "local-cpu"@ ==> (r matches Ok(BackendPlan::Local { gpu_layers, .. })
            && gpu_layers == 0),
        provider_of(config) == "local"@ ==> (r matches Ok(BackendPlan::Local { gpu_layers, .. })
            && gpu_layers == (if gpu_platform { 99u32 } else { 0u32 })),
{
    reveal_strlit("local");
    reveal_strlit("local-cpu");
    reveal_strlit("local-hybrid");
    let p = provider_of(config);
    assert("local"@.len() == 5 && "local-cpu"@.len() == 9 && "local-hybrid"@.len() == 12);
    if p == "local-hybrid"@ {
        assert(p != "local-cpu"@);
        assert(gpu_layers_for(p, gpu_platform) == 12);
    } else if p == "local-cpu"@ {
        assert(gpu_layers_for(p, gpu_platform) == 0);
    } else if p == "local"@ {
        assert(p != "local-cpu"@ && p != "local-hybrid"@);
    }
}

fn or_default(t: &Option<String>, d: &str) -> (r: String)
    ensures
        r@ == text_or_default(*t, d@),
{
    match t {
        Some(s) => s.clone(),
        None => String::from_str(d),
    }
}

/// Chooses the backend for a model configuration.
pub fn plan_backend(config: &ModelConfig, gpu_platform: bool) -> (r: Result<BackendPlan, EngineError>)
    ensures
        plan_matches(r, *config, gpu_platform),
{
    let provider = or_default(&config.provider, "local");
    let p = provider.as_str();
    if str_eq(p, "local") || str_eq(p, "local-cpu") || str_eq(p, "local-hybrid") {
        match &config.path {
            Some(path) => {
                let gpu_layers: u32 = if str_eq(p, "local-cpu") {
                    0
                } else if str_eq(p, "local-hybrid") {
                    12
                } else if gpu_platform {
                    99
                } else {
                    0
                };
                Ok(BackendPlan::Local { path: path.clone(), context_window: config.context_window, gpu_layers })
            },
            None => Err(EngineError::MissingLocalPath),
        }
    } else if str_eq(p, "mlx") {
        Ok(
            BackendPlan::Mlx {
                model_repo: or_default(
                    &config.model_name,
                    "mlx-community/Qwen2.5-Coder-0.5B-Instruct-4bit",
                ),
            },
        )
    } else if str_eq(p, "rust") {
        match &config.path {
            Some(path) => Ok(BackendPlan::Rust { path: path.clone() }),
            None => Err(EngineError::MissingRustPath),
        }
    } else if str_eq(p, "openai") || str_eq(p, "ollama") {
        let ollama = str_eq(p, "ollama");
        let api_url = if ollama {
            or_default(&config.api_url, "http://localhost:11434/v1")
        } else {
            or_default(&config.api_url, "https://api.openai.com/v1")
        };
        let model_name = if ollama {
            or_default(&config.model_name, "qwen2.5-coder:latest")
        } else {
            or_default(&config.model_name, "gpt-4o-mini")
        };
        let api_key = match &config.api_key {
            Some(k) => Some(k.clone()),
            None => None,
        };
        Ok(BackendPlan::Http { api_url, api_key, model_name })
    } else {
        Err(EngineError::UnknownProvider(provider))
    }
}

pub open spec fn engine_error_text(e: EngineError) -> Seq<char> {
    match e {
        EngineError::MissingLocalPath => "Local GGUF model path is required when provider is local"@,
        EngineError::MissingRustPath => "Rust model path is required when provider is rust"@,
        EngineError::UnknownProvider(p) => "Unknown LLM provider: "@ + p@,
    }
}

impl EngineError {
    pub fn message(&self) -> (r: String)
        ensures
            r@ == engine_error_text(*self),
    {
        match self {
            EngineError::MissingLocalPath => String::from_str(
                "Local GGUF model path is required when provider is local",
            ),
            EngineError::MissingRustPath => String::from_str(
                "Rust model path is required when provider is rust",
            ),
            EngineError::UnknownProvider(p) => {
                let mut r = String::from_str("Unknown LLM provider: ");
                r.append(p.as_str());
                r
            },
        }
    }
}

// ───────────────────────── running a local model ─────────────────────────

/// CPU threads for a local model: the `NANOS_THREADS` setting when it is an
/// `i32`, otherwise 2 when layers are offloaded to the GPU and 4 when not.
pub open spec fn cpu_threads_of(gpu_layers: u32, setting: Option<Seq<char>>) -> int {
    let default = if gpu_layers > 0 { 2int } else { 4int };
    match setting {
        Some(t) => match parse_i32(t) {
            Some(n) => n,
            None => default,
        },
        None => default,
    }
}

pub fn cpu_threads(gpu_layers: u32, setting: Option<String>) -> (r: i32)
    ensures
        r as int == cpu_threads_of(gpu_layers, opt_view(setting)),
{
    let default: i32 = if gpu_layers > 0 { 2 } else { 4 };
    match setting {
        Some(t) => {
            let cs = chars_of(t.as_str());
            match parse_i32_exec(cs.as_slice()) {
                Some(n) => n,
                None => default,
            }
        },
        None => default,
    }
}

/// Tokens reserved for generation in a local model's context.
pub open spec fn max_gen_tokens() -> nat {
    256
}

/// Where the prompt tokens that are kept start: a prompt longer than the
/// context window less the generation reserve keeps its last tokens.
pub open spec fn prompt_start_of(n_tokens: nat, context_window: nat) -> nat {
    let budget: nat = if context_window >= 256 { (context_window - 256) as nat } else { 0 };
    if n_tokens > budget {
        (n_tokens - budget) as nat
    } else {
        0
    }
}

pub fn prompt_start(n_tokens: usize, context_window: u32) -> (r: usize)
    ensures
        r as nat == prompt_start_of(n_tokens as nat, context_window as nat),
        r <= n_tokens,
{
    let budget: usize = (context_window as usize).saturating_sub(256);
    if n_tokens > budget {
        n_tokens - budget
    } else {
        0
    }
}

// ───────────────────────── ChatML prompts ─────────────────────────

pub open spec fn im_start() -> Seq<char> {
    "<|im_start|>"@
}

pub open spec fn im_end() -> Seq<char> {
    "<|im_end|>"@
}

/// One chat message.
pub struct ChatMessage {
    pub role: String,
    pub content: String,
}

/// The role a ChatML header names: `system`, `user` and `assistant` by
/// prefix, any other header as written.
pub open spec fn role_name(raw: Seq<char>) -> Seq<char> {
    if has_prefix(raw, "system"@) {
        "system"@
    } else if has_prefix(raw, "user"@) {
        "user"@
    } else if has_prefix(raw, "assistant"@) {
        "assistant"@
    } else {
        raw
    }
}

/// The message of one block: its first line names the role, the rest is
/// the content (both trimmed); a block without a line break holds none.
pub open spec fn block_message(block: Seq<char>) -> Seq<(Seq<char>, Seq<char>)> {
    match find_char(block, '\n') {
        Some(k) => seq![(role_name(trim(block.take(k))), trim(block.skip(k + 1)))],
        None => Seq::empty(),
    }
}

/// The messages of the `<|im_start|>...<|im_end|>` blocks of `s`, in order;
/// reading stops at the first block that is not closed.
#[verifier::opaque]
pub open spec fn chatml_blocks(s: Seq<char>) -> Seq<(Seq<char>, Seq<char>)>
    decreases s.len(),
{
    match find_seq(s, im_start()) {
        Some(i) => {
            let cs = i + im_start().len();
            if 0 <= cs <= s.len() {
                match find_seq(s.skip(cs), im_end()) {
                    Some(e) => {
                        let next = cs + e + im_end().len();
                        if 0 < next <= s.len() {
                            block_message(s.subrange(cs, cs + e)) + chatml_blocks(s.skip(next))
                        } else {
                            Seq::empty()
                        }
                    },
                    None => Seq::empty(),
                }
            } else {
                Seq::empty()
            }
        },
        None => Seq::empty(),
    }
}

/// One ChatML block: `<|im_start|>role\ncontent<|im_end|>\n`.
pub open spec fn chatml_block(m: (Seq<char>, Seq<char>)) -> Seq<char> {
    im_start() + m.0 + "\n"@ + m.1 + im_end() + "\n"@
}

/// The ChatML text of a list of messages.
pub open spec fn chatml_text(ms: Seq<(Seq<char>, Seq<char>)>) -> Seq<char>
    decreases ms.len(),
{
    if ms.len() == 0 {
        Seq::empty()
    } else {
        chatml_block(ms[0]) + chatml_text(ms.drop_first())
    }
}

/// A message that ChatML carries unchanged: its role is written on one line
/// and names itself, both texts are trimmed, and neither holds the end marker.
pub open spec fn plain_message(m: (Seq<char>, Seq<char>)) -> bool {
    &&& forall|i: int| 0 <= i < m.0.len() ==> m.0[i] != '\n'
    &&& trim(m.0) == m.0
    &&& role_name(m.0) == m.0
    &&& trim(m.1) == m.1
    &&& !contains_seq(m.0, im_end())
    &&& !contains_seq(m.1, im_end())
}

proof fn lemma_marker_sizes()
    ensures
        im_start().len() == 12,
        im_end().len() == 10,
        im_start()[0] == '<',
        im_end()[0] == '<',
{
    reveal_strlit("<|im_start|>");
    reveal_strlit("<|im_end|>");
}

proof fn lemma_markers()
    ensures
        im_start().len() == 12,
        im_end().len() == 10,
        im_start()[0] == '<',
        borderless(im_start()),
        borderless(im_end()),
        forall|i: int| 0 <= i < im_end().len() ==> im_end()[i] != '\n',
{
    reveal_strlit("<|im_start|>");
    reveal_strlit("<|im_end|>");
    lemma_borderless(im_start());
    lemma_borderless(im_end());
}

/// Text without the end marker holds no closed block.
proof fn lemma_chatml_no_end(t: Seq<char>)
    requires
        !contains_seq(t, im_end()),
    ensures
        chatml_blocks(t).len() == 0,
{
    reveal(chatml_blocks);
    lemma_markers();
    match find_seq(t, im_start()) {
        Some(i) => {
            let cs = i + im_start().len();
            if 0 <= cs <= t.len() {
                lemma_find_seq(t.skip(cs), im_end());
                if find_seq(t.skip(cs), im_end()) is Some {
                    let e = find_seq(t.skip(cs), im_end())->0;
                    assert(t.skip(cs).subrange(e, e + im_end().len()) =~= t.subrange(cs + e, cs + e + im_end().len()));
                    assert(occurs_at(t, im_end(), cs + e));
                }
            }
        },
        None => {},
    }
}

/// One step of reading blocks: the block opened at `i` and closed `e`
/// characters after its header.
proof fn lemma_chatml_unfold(s: Seq<char>, i: int, e: int)
    requires
        find_seq(s, im_start()) == Some(i),
        im_start().len() == 12,
        im_end().len() == 10,
        0 <= i,
        0 <= e,
        i + 12 <= s.len(),
        find_seq(s.skip(i + 12), im_end()) == Some(e),
        i + 12 + e + 10 <= s.len(),
    ensures
        chatml_blocks(s) == block_message(s.subrange(i + 12, i + 12 + e)) + chatml_blocks(
            s.skip(i + 12 + e + 10),
        ),
{
    reveal(chatml_blocks);
}

/// A leading character other than `<` does not change the blocks read.
proof fn lemma_chatml_shift(c: char, r: Seq<char>)
    requires
        c != '<',
    ensures
        chatml_blocks(seq![c] + r) == chatml_blocks(r),
{
    lemma_marker_sizes();
    let s = seq![c] + r;
    lemma_find_shift(c, r, im_start());
    lemma_find_bounds(r, im_start());
    match find_seq(r, im_start()) {
        Some(i) => {
            let cs = i + 12;
            assert(s.skip(cs + 1) =~= r.skip(cs));
            lemma_find_bounds(r.skip(cs), im_end());
            match find_seq(r.skip(cs), im_end()) {
                Some(e) => {
                    let next = cs + e + 10;
                    assert(s.subrange(cs + 1, cs + 1 + e) =~= r.subrange(cs, cs + e));
                    assert(s.skip(next + 1) =~= r.skip(next));
                    lemma_chatml_unfold(s, i + 1, e);
                    lemma_chatml_unfold(r, i, e);
                },
                None => {
                    lemma_chatml_stop(s, i + 1);
                    lemma_chatml_stop(r, i);
                },
            }
        },
        None => {
            lemma_chatml_none(s);
            lemma_chatml_none(r);
        },
    }
}

proof fn lemma_chatml_stop(s: Seq<char>, i: int)
    requires
        find_seq(s, im_start()) == Some(i),
        im_start().len() == 12,
        0 <= i,
        i + 12 <= s.len(),
        find_seq(s.skip(i + 12), im_end()) is None,
    ensures
        chatml_blocks(s).len() == 0,
{
    reveal(chatml_blocks);
}

proof fn lemma_chatml_none(s: Seq<char>)
    requires
        find_seq(s, im_start()) is None,
    ensures
        chatml_blocks(s).len() == 0,
{
    reveal(chatml_blocks);
}

/// The text of a plain message's block, between the markers.
pub open spec fn block_body(m: (Seq<char>, Seq<char>)) -> Seq<char> {
    m.0 + "\n"@ + m.1
}

proof fn lemma_block_body_message(m: (Seq<char>, Seq<char>))
    requires
        plain_message(m),
    ensures
        block_message(block_body(m)) == seq![m],
{
    reveal_strlit("\n");
    let a = block_body(m);
    assert("\n"@ =~= seq!['\n']);
    assert forall|j: int| !occurs_at(m.0, seq!['\n'], j) by {
        if occurs_at(m.0, seq!['\n'], j) {
            assert(m.0.subrange(j, j + 1)[0] == m.0[j]);
        }
    }
    lemma_borderless(seq!['\n']);
    lemma_find_after(m.0, seq!['\n'], m.1);
    assert(a =~= m.0 + seq!['\n'] + m.1);
    assert(a.take(m.0.len() as int) =~= m.0);
    assert(a.skip(m.0.len() as int + 1) =~= m.1);
    assert(block_message(a) =~= seq![m]);
}

proof fn lemma_block_body_closes(m: (Seq<char>, Seq<char>), t: Seq<char>)
    requires
        plain_message(m),
    ensures
        find_seq(block_body(m) + im_end() + t, im_end()) == Some(block_body(m).len() as int),
{
    lemma_markers();
    reveal_strlit("\n");
    assert("\n"@ =~= seq!['\n']);
    assert forall|j: int| !occurs_at(m.0, im_end(), j) by {}
    assert forall|j: int| !occurs_at(m.1, im_end(), j) by {}
    lemma_no_occurrence_across(m.0, '\n', m.1, im_end());
    assert(block_body(m) =~= m.0 + seq!['\n'] + m.1);
    lemma_find_after(block_body(m), im_end(), t);
}

/// A block holding a plain message reads back as that message, and reading
/// goes on with what follows it.
proof fn lemma_chatml_first_block(m: (Seq<char>, Seq<char>), r: Seq<char>)
    requires
        plain_message(m),
    ensures
        chatml_blocks(chatml_block(m) + r) == seq![m] + chatml_blocks(r),
{
    lemma_marker_sizes();
    let a = block_body(m);
    let nl = "\n"@;
    let x = a + im_end() + (nl + r);
    let s = chatml_block(m) + r;
    assert(s =~= im_start() + x);
    lemma_find_at_start(im_start(), x);
    assert(s.skip(12) =~= x);
    lemma_block_body_closes(m, nl + r);
    let e = a.len() as int;
    assert(s.subrange(12, 12 + e) =~= a);
    reveal_strlit("\n");
    assert(s.skip(12 + e + 10) =~= seq!['\n'] + r);
    lemma_chatml_unfold(s, 0, e);
    lemma_block_body_message(m);
    lemma_chatml_shift('\n', r);
}

/// ChatML text made of plain messages, followed by text without the end
/// marker (such as an open assistant turn), reads back as those messages.
pub proof fn law_chatml_read_back(ms: Seq<(Seq<char>, Seq<char>)>, tail: Seq<char>)
    requires
        forall|i: int| 0 <= i < ms.len() ==> plain_message(#[trigger] ms[i]),
        !contains_seq(tail, im_end()),
    ensures
        chatml_blocks(chatml_text(ms) + tail) == ms,
    decreases ms.len(),
{
    if ms.len() == 0 {
        assert(chatml_text(ms) + tail =~= tail);
        lemma_chatml_no_end(tail);
        assert(chatml_blocks(tail) =~= ms);
    } else {
        let m = ms[0];
        let rest = ms.drop_first();
        assert forall|i: int| 0 <= i < rest.len() implies plain_message(#[trigger] rest[i]) by {
            assert(rest[i] == ms[i + 1]);
        }
        law_chatml_read_back(rest, tail);
        let r = chatml_text(rest) + tail;
        assert(chatml_text(ms) + tail =~= chatml_block(m) + r);
        lemma_chatml_first_block(m, r);
        assert(seq![m] + rest =~= ms);
    }
}

/// The chat messages of a prompt: its ChatML blocks, or the whole prompt as
/// one user message when it has none.
pub open spec fn chat_messages_of(prompt: Seq<char>) -> Seq<(Seq<char>, Seq<char>)> {
    let b = chatml_blocks(prompt);
    if b.len() == 0 {
        seq![("user"@, prompt)]
    } else {
        b
    }
}

pub open spec fn message_views(ms: Seq<ChatMessage>) -> Seq<(Seq<char>, Seq<char>)> {
    ms.map_values(|m: ChatMessage| (m.role@, m.content@))
}

fn role_name_exec(raw: &[char]) -> (r: String)
    ensures
        r@ == role_name(raw@),
{
    proof {
        reveal_strlit("system");
        reveal_strlit("user");
        reveal_strlit("assistant");
    }
    let sys = chars_of("system");
    let usr = chars_of("user");
    let asst = chars_of("assistant");
    if starts_with_chars(raw, sys.as_slice()) {
        String::from_str("system")
    } else if starts_with_chars(raw, usr.as_slice()) {
        String::from_str("user")
    } else if starts_with_chars(raw, asst.as_slice()) {
        String::from_str("assistant")
    } else {
        string_of(raw)
    }
}

fn block_message_exec(block: &[char]) -> (r: Vec<ChatMessage>)
    ensures
        message_views(r@) == block_message(block@),
{
    let mut out: Vec<ChatMessage> = Vec::new();
    match find_char_exec(block, '\n') {
        Some(k) => {
            let n = block.len();
            assert(k < n);
            let head = sub_chars(block, 0, k);
            assert(head@ =~= block@.take(k as int));
            let raw = trim_chars(head.as_slice());
            let body = sub_chars(block, k + 1, block.len());
            assert(body@ =~= block@.skip(k + 1));
            let content = trim_chars(body.as_slice());
            let msg = ChatMessage {
                role: role_name_exec(raw.as_slice()),
                content: string_of(content.as_slice()),
            };
            out.push(msg);
            assert(message_views(out@) =~= block_message(block@));
        },
        None => {
            assert(message_views(out@) =~= block_message(block@));
        },
    }
    out
}

/// Reads the first closed block of `rest`: its message and what follows it.
fn next_block(rest: &[char], start: &[char], end: &[char]) -> (r: Option<(Vec<ChatMessage>, Vec<char>)>)
    requires
        start@ == im_start(),
        end@ == im_end(),
    ensures
        r is None ==> chatml_blocks(rest@).len() == 0,
        r matches Some((m, t)) ==> t@.len() < rest@.len() && chatml_blocks(rest@) == message_views(
            m@,
        ) + chatml_blocks(t@),
{
    let i = match find_chars(rest, start) {
        Some(i) => i,
        None => {
            proof {
                reveal(chatml_blocks);
            }
            return None;
        },
    };
    proof {
        lemma_find_seq(rest@, im_start());
        reveal(chatml_blocks);
    }
    assert(occurs_at(rest@, im_start(), i as int));
    let rl = rest.len();
    assert(i + start@.len() <= rl);
    let cs = i + start.len();
    let after = sub_chars(rest, cs, rest.len());
    assert(after@ =~= rest@.skip(cs as int));
    let e = match find_chars(after.as_slice(), end) {
        Some(e) => e,
        None => {
            proof {
                reveal(chatml_blocks);
            }
            return None;
        },
    };
    proof {
        lemma_find_seq(after@, im_end());
    }
    let al = after.len();
    assert(e + end@.len() <= al);
    let block = sub_chars(after.as_slice(), 0, e);
    assert(block@ =~= rest@.subrange(cs as int, cs + e));
    let m = block_message_exec(block.as_slice());
    let next = e + end.len();
    let tail = sub_chars(after.as_slice(), next, after.len());
    proof {
        reveal_strlit("<|im_start|>");
        reveal_strlit("<|im_end|>");
        reveal(chatml_blocks);
        assert(tail@ =~= rest@.skip(cs + e + im_end().len()));
        assert(chatml_blocks(rest@) == block_message(block@) + chatml_blocks(tail@));
    }
    Some((m, tail))
}

fn chatml_blocks_exec(prompt: &str) -> (r: Vec<ChatMessage>)
    ensures
        message_views(r@) == chatml_blocks(prompt@),
{
    proof {
        reveal_strlit("<|im_start|>");
        reveal_strlit("<|im_end|>");
    }
    let start = chars_of("<|im_start|>");
    let end = chars_of("<|im_end|>");
    let mut rest = chars_of(prompt);
    let mut out: Vec<ChatMessage> = Vec::new();
    loop
        invariant
            start@ == im_start(),
            end@ == im_end(),
            message_views(out@) + chatml_blocks(rest@) == chatml_blocks(prompt@),
        ensures
            message_views(out@) == chatml_blocks(prompt@),
        decreases rest@.len(),
    {
        match next_block(rest.as_slice(), start.as_slice(), end.as_slice()) {
            None => {
                assert(message_views(out@) + chatml_blocks(rest@) =~= message_views(out@));
                break;
            },
            Some((m, t)) => {
                let ghost v0 = out@;
                let ghost mv = m@;
                let mut m = m;
                out.append(&mut m);
                assert(out@ == v0 + mv);
                assert(message_views(v0 + mv) =~= message_views(v0) + message_views(mv));
                assert(message_views(v0) + message_views(mv) + chatml_blocks(t@) =~= message_views(
                    v0,
                ) + (message_views(mv) + chatml_blocks(t@)));
                rest = t;
            },
        }
    }
    out
}

/// The chat messages of a prompt.
pub fn chat_messages(prompt: &str) -> (r: Vec<ChatMessage>)
    ensures
        message_views(r@) == chat_messages_of(prompt@),
{
    let mut r = chatml_blocks_exec(prompt);
    if r.len() == 0 {
        r.push(ChatMessage { role: String::from_str("user"), content: String::from_str(prompt) });
        assert(message_views(r@) =~= seq![("user"@, prompt@)]);
    }
    r
}

// ───────────────────────── requests to model servers ─────────────────────────

/// `d` is the JSON object of one chat message (members in `serde_json`'s order).
pub open spec fn is_message_doc(d: JsonValue, m: (Seq<char>, Seq<char>)) -> bool {
    &&& d matches JsonValue::Object(f)
    &&& f@.len() == 2
    &&& f@[0].0@ == "content"@ && (f@[0].1 matches JsonValue::Str(c) && c@ == m.1)
    &&& f@[1].0@ == "role"@ && (f@[1].1 matches JsonValue::Str(r) && r@ == m.0)
}

/// `d` is the JSON array of the messages `ms`.
pub open spec fn is_messages_doc(d: JsonValue, ms: Seq<(Seq<char>, Seq<char>)>) -> bool {
    &&& d matches JsonValue::Array(items)
    &&& items@.len() == ms.len()
    &&& forall|i: int| 0 <= i < ms.len() ==> is_message_doc(#[trigger] items@[i], ms[i])
}

fn messages_doc(ms: Vec<ChatMessage>) -> (r: JsonValue)
    ensures
        is_messages_doc(r, message_views(ms@)),
{
    let ghost mv = message_views(ms@);
    let n = ms.len();
    let mut items: Vec<JsonValue> = Vec::new();
    let mut i: usize = 0;
    while i < n
        invariant
            n == ms@.len(),
            mv == message_views(ms@),
            i <= n,
            items@.len() == i,
            forall|k: int| 0 <= k < i ==> is_message_doc(#[trigger] items@[k], mv[k]),
        decreases n - i,
    {
        let mut f: Vec<(String, JsonValue)> = Vec::new();
        f.push((String::from_str("content"), JsonValue::Str(ms[i].content.clone())));
        f.push((String::from_str("role"), JsonValue::Str(ms[i].role.clone())));
        let d = JsonValue::Object(f);
        assert(is_message_doc(d, mv[i as int]));
        items.push(d);
        i = i + 1;
    }
    JsonValue::Array(items)
}

/// `d` is the body of a chat-completions request: the prompt's messages,
/// the model, and temperature 0.
pub open spec fn is_http_body(d: JsonValue, prompt: Seq<char>, model: Seq<char>) -> bool {
    &&& d matches JsonValue::Object(f)
    &&& f@.len() == 3
    &&& f@[0].0@ == "messages"@ && is_messages_doc(f@[0].1, chat_messages_of(prompt))
    &&& f@[1].0@ == "model"@ && (f@[1].1 matches JsonValue::Str(m) && m@ == model)
    &&& f@[2].0@ == "temperature"@ && (f@[2].1 matches JsonValue::Number(t) && t@ == "0.0"@)
}

/// The JSON body sent to an OpenAI-compatible server.
pub fn http_request_body(prompt: &str, model_name: &str) -> (r: String)
    ensures
        exists|d: JsonValue| r@ == json_render(d) && is_http_body(d, prompt@, model_name@),
{
    let msgs = messages_doc(chat_messages(prompt));
    let mut f: Vec<(String, JsonValue)> = Vec::new();
    f.push((String::from_str("messages"), msgs));
    f.push((String::from_str("model"), JsonValue::Str(String::from_str(model_name))));
    f.push((String::from_str("temperature"), JsonValue::Number(String::from_str("0.0"))));
    let d = JsonValue::Object(f);
    assert(is_http_body(d, prompt@, model_name@));
    render_json(&d)
}

/// The endpoint of an OpenAI-compatible server.
pub fn chat_completions_url(api_url: &str) -> (r: String)
    ensures
        r@ == api_url@ + "/chat/completions"@,
{
    let mut r = String::from_str(api_url);
    r.append("/chat/completions");
    r
}

/// The `Authorization` header for an API key.
pub fn bearer_header(key: &str) -> (r: String)
    ensures
        r@ == "Bearer "@ + key@,
{
    let mut r = String::from_str("Bearer ");
    r.append(key);
    r
}

/// `d` is a request to the MLX daemon: the prompt's messages and at most
/// 256 new tokens.
pub open spec fn is_mlx_body(d: JsonValue, prompt: Seq<char>) -> bool {
    &&& d matches JsonValue::Object(f)
    &&& f@.len() == 2
    &&& f@[0].0@ == "max_tokens"@ && (f@[0].1 matches JsonValue::Number(t) && t@ == "256"@)
    &&& f@[1].0@ == "messages"@ && is_messages_doc(f@[1].1, chat_messages_of(prompt))
}

/// The request line sent to the MLX daemon.
pub fn mlx_request_body(prompt: &str) -> (r: String)
    ensures
        exists|d: JsonValue| r@ == json_render(d) && is_mlx_body(d, prompt@),
{
    let msgs = messages_doc(chat_messages(prompt));
    let mut f: Vec<(String, JsonValue)> = Vec::new();
    f.push((String::from_str("max_tokens"), JsonValue::Number(String::from_str("256"))));
    f.push((String::from_str("messages"), msgs));
    let d = JsonValue::Object(f);
    assert(is_mlx_body(d, prompt@));
    render_json(&d)
}

// ───────────────────────── replies of model servers ─────────────────────────

/// What a model produced, with its token counts.
pub struct LlmReply {
    pub response: String,
    pub prompt_tokens: u32,
    pub gen_tokens: u32,
}

/// A count read from a reply, kept in a `u32` as `as u32` keeps it.
pub open spec fn count_u32(n: nat) -> u32 {
    (n % 0x1_0000_0000) as u32
}

fn count_field(doc: &JsonValue, key: &str, default: u64) -> (r: u32)
    ensures
        r == count_u32(
            match member(*doc, key@) {
                Some(v) => match as_count(v) {
                    Some(n) => n,
                    None => default as nat,
                },
                None => default as nat,
            },
        ),
{
    let n: u64 = match get_member(doc, key) {
        Some(v) => match get_count(v) {
            Some(n) => n,
            None => default,
        },
        None => default,
    };
    (n % 0x1_0000_0000) as u32
}

/// The text of `choices[0].message.content` in a chat-completions reply.
pub open spec fn completion_text(doc: JsonValue) -> Option<Seq<char>> {
    match member(doc, "choices"@) {
        Some(c) => match element(c, 0) {
            Some(first) => match member(first, "message"@) {
                Some(m) => member_text(m, "content"@),
                None => None,
            },
            None => None,
        },
        None => None,
    }
}

/// A count under `usage` in a chat-completions reply, `default` when absent.
pub open spec fn usage_count(doc: JsonValue, key: Seq<char>, default: nat) -> nat {
    match member(doc, "usage"@) {
        Some(u) => match member(u, key) {
            Some(v) => match as_count(v) {
                Some(n) => n,
                None => default,
            },
            None => default,
        },
        None => default,
    }
}

/// Reads a chat-completions reply: `None` when it holds no completion text.
/// Token counts missing from `usage` are estimated as a quarter of the
/// bytes of the prompt and of the completion.
pub fn http_reply(doc: &JsonValue, prompt: &str) -> (r: Option<LlmReply>)
    ensures
        r is None <==> completion_text(*doc) is None,
        r matches Some(rep) ==> {
            let t = completion_text(*doc)->0;
            &&& rep.response@ == t
            &&& rep.prompt_tokens == count_u32(
                usage_count(*doc, "prompt_tokens"@, byte_len(prompt@) / 4),
            )
            &&& rep.gen_tokens == count_u32(usage_count(*doc, "completion_tokens"@, byte_len(t) / 4))
        },
{
    let text = match get_member(doc, "choices") {
        Some(c) => match get_element(c, 0) {
            Some(first) => match get_member(first, "message") {
                Some(m) => get_member_text(m, "content"),
                None => None,
            },
            None => None,
        },
        None => None,
    };
    let text = match text {
        Some(t) => t.clone(),
        None => return None,
    };
    let pdef = (str_byte_len(prompt) / 4) as u64;
    let gdef = (str_byte_len(text.as_str()) / 4) as u64;
    let (prompt_tokens, gen_tokens) = match get_member(doc, "usage") {
        Some(u) => (count_field(u, "prompt_tokens", pdef), count_field(u, "completion_tokens", gdef)),
        None => ((pdef % 0x1_0000_0000) as u32, (gdef % 0x1_0000_0000) as u32),
    };
    Some(LlmReply { response: text, prompt_tokens, gen_tokens })
}

/// A line the MLX daemon prints while it starts.
pub enum StartupLine {
    Ready,
    Failed(String),
    Other,
}

/// The `error` text of a JSON line, when the line is a JSON object with one.
pub open spec fn line_error(t: Seq<char>) -> Option<Seq<char>> {
    if has_prefix(t, "{"@) {
        match json_parse(t) {
            Some(v) => member_text(v, "error"@),
            None => None,
        }
    } else {
        None
    }
}

/// What a startup line means: the daemon is ready, it failed, or neither.
pub open spec fn startup_line_of(line: Seq<char>) -> Option<Option<Seq<char>>> {
    let t = trim(line);
    if t == "READY"@ {
        Some(None)
    } else {
        match line_error(t) {
            Some(e) => Some(Some(e)),
            None => None,
        }
    }
}

fn json_object_line(t: &str) -> (r: Option<JsonValue>)
    ensures
        has_prefix(t@, "{"@) ==> r == json_parse(t@),
        !has_prefix(t@, "{"@) ==> r is None,
{
    proof {
        reveal_strlit("{");
    }
    let cs = chars_of(t);
    let brace = chars_of("{");
    if starts_with_chars(cs.as_slice(), brace.as_slice()) {
        parse_json(t)
    } else {
        None
    }
}

pub fn mlx_startup_line(line: &str) -> (r: StartupLine)
    ensures
        match startup_line_of(line@) {
            Some(None) => r is Ready,
            Some(Some(e)) => r matches StartupLine::Failed(x) && x@ == e,
            None => r is Other,
        },
{
    let t = trim_str(line);
    if str_eq(t.as_str(), "READY") {
        return StartupLine::Ready;
    }
    match json_object_line(t.as_str()) {
        Some(v) => match get_member_text(&v, "error") {
            Some(e) => StartupLine::Failed(e.clone()),
            None => StartupLine::Other,
        },
        None => StartupLine::Other,
    }
}

/// The error reported when the MLX daemon fails to start.
pub fn startup_failure_text(err: &str) -> (r: String)
    ensures
        r@ == "MLX daemon startup failed: "@ + err@,
{
    let mut r = String::from_str("MLX daemon startup failed: ");
    r.append(err);
    r
}

/// The reply a daemon line carries: a JSON object line is a reply (its
/// error as the text, or its response and counts); other lines are not.
pub open spec fn mlx_reply_of(line: Seq<char>) -> Option<(Seq<char>, u32, u32)> {
    let t = trim(line);
    if has_prefix(t, "{"@) {
        match json_parse(t) {
            Some(v) => match member_text(v, "error"@) {
                Some(e) => Some(("MLX error: "@ + e, 0u32, 0u32)),
                None => Some(
                    (
                        match member_text(v, "response"@) {
                            Some(x) => x,
                            None => Seq::empty(),
                        },
                        count_u32(
                            match member(v, "prompt_tokens"@) {
                                Some(c) => match as_count(c) {
                                    Some(n) => n,
                                    None => 0,
                                },
                                None => 0,
                            },
                        ),
                        count_u32(
                            match member(v, "gen_tokens"@) {
                                Some(c) => match as_count(c) {
                                    Some(n) => n,
                                    None => 0,
                                },
                                None => 0,
                            },
                        ),
                    ),
                ),
            },
            None => None,
        }
    } else {
        None
    }
}

pub fn mlx_reply_line(line: &str) -> (r: Option<LlmReply>)
    ensures
        match mlx_reply_of(line@) {
            Some((text, p, g)) => r matches Some(rep) && rep.response@ == text && rep.prompt_tokens
                == p && rep.gen_tokens == g,
            None => r is None,
        },
{
    let t = trim_str(line);
    let v = match json_object_line(t.as_str()) {
        Some(v) => v,
        None => return None,
    };
    match get_member_text(&v, "error") {
        Some(e) => {
            let mut text = String::from_str("MLX error: ");
            text.append(e.as_str());
            Some(LlmReply { response: text, prompt_tokens: 0, gen_tokens: 0 })
        },
        None => {
            let response = match get_member_text(&v, "response") {
                Some(x) => x.clone(),
                None => String::new(),
            };
            let prompt_tokens = count_field(&v, "prompt_tokens", 0);
            let gen_tokens = count_field(&v, "gen_tokens", 0);
            Some(LlmReply { response, prompt_tokens, gen_tokens })
        },
    }
}

// ───────────────────────── the built-in transformer ─────────────────────────

/// The contents of `ms`, each followed by a space.
pub open spec fn joined_contents(ms: Seq<(Seq<char>, Seq<char>)>) -> Seq<char>
    decreases ms.len(),
{
    if ms.len() == 0 {
        Seq::empty()
    } else {
        joined_contents(ms.drop_last()) + ms.last().1 + " "@
    }
}

/// The text the built-in transformer reads: a ChatML prompt is reduced to
/// its message contents separated by spaces; other prompts are read as is.
pub open spec fn plain_prompt_of(prompt: Seq<char>) -> Seq<char> {
    if exists|i: int| occurs_at(prompt, im_start(), i) {
        trim(joined_contents(chat_messages_of(prompt)))
    } else {
        prompt
    }
}

pub fn plain_prompt(prompt: &str) -> (r: String)
    ensures
        r@ == plain_prompt_of(prompt@),
{
    proof {
        reveal_strlit("<|im_start|>");
    }
    let cs = chars_of(prompt);
    let start = chars_of("<|im_start|>");
    match find_chars(cs.as_slice(), start.as_slice()) {
        None => {
            proof {
                lemma_find_seq(prompt@, im_start());
            }
            String::from_str(prompt)
        },
        Some(_) => {
            proof {
                lemma_find_seq(prompt@, im_start());
            }
            let ms = chat_messages(prompt);
            let ghost mv = message_views(ms@);
            let mut joined = String::new();
            let mut i: usize = 0;
            while i < ms.len()
                invariant
                    i <= ms@.len(),
                    mv == message_views(ms@),
                    joined@ == joined_contents(mv.take(i as int)),
                decreases ms@.len() - i,
            {
                joined.append(ms[i].content.as_str());
                joined.append(" ");
                assert(mv.take(i + 1).drop_last() =~= mv.take(i as int));
                i = i + 1;
            }
            assert(mv.take(ms@.len() as int) =~= mv);
            trim_str(joined.as_str())
        },
    }
}

/// Whether the built-in transformer stops generating: at the end-of-text
/// token (2) or when the position reaches the model's sequence length.
pub fn generation_stops(token: usize, pos: usize, seq_len: usize) -> (r: bool)
    ensures
        r == (token == 2 || pos >= seq_len),
{
    token == 2 || pos >= seq_len
}

} // verus!
