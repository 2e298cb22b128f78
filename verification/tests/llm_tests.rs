use nanos::json::parse_json;
use nanos::llm::{
    bearer_header, chat_completions_url, chat_messages, cpu_threads, generation_stops,
    http_reply, http_request_body, mlx_reply_line, mlx_request_body, mlx_startup_line,
    plain_prompt, plan_backend, prompt_start, startup_failure_text, BackendPlan, EngineError,
    StartupLine,
};
use nanos::manifest::ModelConfig;

fn config(provider: Option<&str>, path: Option<&str>) -> ModelConfig {
    ModelConfig {
        path: path.map(String::from),
        context_window: 4096,
        provider: provider.map(String::from),
        api_url: None,
        api_key: None,
        model_name: None,
    }
}

#[test]
fn local_providers_need_a_path() {
    match plan_backend(&config(None, Some("m.gguf")), true) {
        Ok(BackendPlan::Local { path, context_window, gpu_layers }) => {
            assert_eq!(path, "m.gguf");
            assert_eq!(context_window, 4096);
            assert_eq!(gpu_layers, 99);
        }
        _ => panic!(),
    }
    assert!(matches!(plan_backend(&config(Some("local-cpu"), Some("m")), true), Ok(BackendPlan::Local { gpu_layers: 0, .. })));
    assert!(matches!(plan_backend(&config(Some("local-hybrid"), Some("m")), false), Ok(BackendPlan::Local { gpu_layers: 12, .. })));
    assert!(matches!(plan_backend(&config(Some("local"), Some("m")), false), Ok(BackendPlan::Local { gpu_layers: 0, .. })));
    let e = plan_backend(&config(Some("local"), None), true).err().unwrap();
    assert_eq!(e.message(), "Local GGUF model path is required when provider is local");
    let e = plan_backend(&config(Some("rust"), None), true).err().unwrap();
    assert_eq!(e.message(), "Rust model path is required when provider is rust");
}

#[test]
fn http_providers_have_defaults() {
    match plan_backend(&config(Some("ollama"), None), true) {
        Ok(BackendPlan::Http { api_url, api_key, model_name }) => {
            assert_eq!(api_url, "http://localhost:11434/v1");
            assert_eq!(api_key, None);
            assert_eq!(model_name, "qwen2.5-coder:latest");
        }
        _ => panic!(),
    }
    let mut c = config(Some("openai"), None);
    c.api_key = Some("SECRET-REDACTED".to_string());
    match plan_backend(&c, true) {
        Ok(BackendPlan::Http { api_url, api_key, model_name }) => {
            assert_eq!(api_url, "https://api.openai.com/v1");
            assert_eq!(api_key.as_deref(), Some("SECRET-REDACTED"));
            assert_eq!(model_name, "gpt-4o-mini");
        }
        _ => panic!(),
    }
    match plan_backend(&config(Some("mlx"), None), true) {
        Ok(BackendPlan::Mlx { model_repo }) => assert_eq!(model_repo, "mlx-community/Qwen2.5-Coder-0.5B-Instruct-4bit"),
        _ => panic!(),
    }
    assert!(matches!(plan_backend(&config(Some("rust"), Some("model.bin")), true), Ok(BackendPlan::Rust { ref path }) if path == "model.bin"));
    match plan_backend(&config(Some("quantum"), None), true) {
        Err(EngineError::UnknownProvider(p)) => assert_eq!(p, "quantum"),
        _ => panic!(),
    }
    assert_eq!(EngineError::UnknownProvider("quantum".to_string()).message(), "Unknown LLM provider: quantum");
}

#[test]
fn threads_and_prompt_window() {
    assert_eq!(cpu_threads(99, None), 2);
    assert_eq!(cpu_threads(0, None), 4);
    assert_eq!(cpu_threads(0, Some("8".to_string())), 8);
    assert_eq!(cpu_threads(0, Some("-3".to_string())), -3);
    assert_eq!(cpu_threads(0, Some("+6".to_string())), 6);
    assert_eq!(cpu_threads(0, Some("many".to_string())), 4);
    assert_eq!(cpu_threads(0, Some("99999999999".to_string())), 4);
    assert_eq!(prompt_start(100, 2048), 0);
    assert_eq!(prompt_start(3000, 2048), 3000 - 1792);
    assert_eq!(prompt_start(10, 100), 10);
}

#[test]
fn chatml_prompts_become_messages() {
    let p = "<|im_start|>system\nYou are a helpful assistant.<|im_end|>\n<|im_start|>user\n  Hi there  <|im_end|>\n<|im_start|>assistant\n";
    let ms = chat_messages(p);
    assert_eq!(ms.len(), 2);
    assert_eq!((ms[0].role.as_str(), ms[0].content.as_str()), ("system", "You are a helpful assistant."));
    assert_eq!((ms[1].role.as_str(), ms[1].content.as_str()), ("user", "Hi there"));
    let ms = chat_messages("<|im_start|>tool-result\nok<|im_end|>");
    assert_eq!((ms[0].role.as_str(), ms[0].content.as_str()), ("tool-result", "ok"));
    let ms = chat_messages("just text");
    assert_eq!(ms.len(), 1);
    assert_eq!((ms[0].role.as_str(), ms[0].content.as_str()), ("user", "just text"));
}

#[test]
fn request_bodies() {
    let body = http_request_body("hello", "gpt-4o-mini");
    assert_eq!(body, "{\"messages\":[{\"content\":\"hello\",\"role\":\"user\"}],\"model\":\"gpt-4o-mini\",\"temperature\":0.0}");
    let body = mlx_request_body("<|im_start|>user\nhi<|im_end|>");
    let v: serde_json::Value = serde_json::from_str(&body).unwrap();
    assert_eq!(v["max_tokens"], 256);
    assert_eq!(v["messages"][0]["role"], "user");
    assert_eq!(v["messages"][0]["content"], "hi");
    assert_eq!(chat_completions_url("http://localhost:11434/v1"), "http://localhost:11434/v1/chat/completions");
    assert_eq!(bearer_header("k"), "Bearer k");
}

#[test]
fn http_replies() {
    let doc = parse_json("{\"choices\":[{\"message\":{\"content\":\"answer text\"}}],\"usage\":{\"prompt_tokens\":12,\"completion_tokens\":3}}").unwrap();
    let r = http_reply(&doc, "prompt").unwrap();
    assert_eq!((r.response.as_str(), r.prompt_tokens, r.gen_tokens), ("answer text", 12, 3));
    let doc = parse_json("{\"choices\":[{\"message\":{\"content\":\"12345678\"}}]}").unwrap();
    let r = http_reply(&doc, "abcdefghijkl").unwrap();
    assert_eq!((r.prompt_tokens, r.gen_tokens), (3, 2));
    let doc = parse_json("{\"choices\":[]}").unwrap();
    assert!(http_reply(&doc, "p").is_none());
    let doc = parse_json("{\"choices\":[{\"message\":{\"content\":\"x\"}}],\"usage\":{\"prompt_tokens\":4294967297}}").unwrap();
    assert_eq!(http_reply(&doc, "p").unwrap().prompt_tokens, 1);
}

#[test]
fn mlx_daemon_lines() {
    assert!(matches!(mlx_startup_line("READY\n"), StartupLine::Ready));
    assert!(matches!(mlx_startup_line("{\"error\": \"no model\"}"), StartupLine::Failed(ref e) if e == "no model"));
    assert!(matches!(mlx_startup_line("Fetching 5 files"), StartupLine::Other));
    assert_eq!(startup_failure_text("no model"), "MLX daemon startup failed: no model");
    let r = mlx_reply_line("{\"response\": \"hi\", \"prompt_tokens\": 10, \"gen_tokens\": 2, \"gen_ms\": 1.5}").unwrap();
    assert_eq!((r.response.as_str(), r.prompt_tokens, r.gen_tokens), ("hi", 10, 2));
    let r = mlx_reply_line("{\"error\": \"oom\"}").unwrap();
    assert_eq!((r.response.as_str(), r.prompt_tokens, r.gen_tokens), ("MLX error: oom", 0, 0));
    assert!(mlx_reply_line("progress 50%").is_none());
    let r = mlx_reply_line("{\"prompt_tokens\": 1.5}").unwrap();
    assert_eq!((r.response.as_str(), r.prompt_tokens), ("", 0));
}

#[test]
fn plain_prompts_for_the_builtin_model() {
    assert_eq!(plain_prompt("just text"), "just text");
    assert_eq!(plain_prompt("<|im_start|>system\nBe brief.<|im_end|>\n<|im_start|>user\nHi<|im_end|>\n<|im_start|>assistant\n"), "Be brief. Hi");
    assert!(generation_stops(2, 5, 100));
    assert!(generation_stops(7, 100, 100));
    assert!(!generation_stops(7, 5, 100));
}

#[test]
fn agent_transcripts_read_back_as_messages() {
    let transcript = "<|im_start|>system\nBe brief.<|im_end|>\n<|im_start|>user\nRead in.txt<|im_end|>\n<|im_start|>assistant\n{\"action\": \"done\", \"args\": \"ok\"}<|im_end|>\n<|im_start|>assistant\n";
    let ms = chat_messages(transcript);
    let got: Vec<(String, String)> = ms.into_iter().map(|m| (m.role, m.content)).collect();
    assert_eq!(
        got,
        vec![
            ("system".to_string(), "Be brief.".to_string()),
            ("user".to_string(), "Read in.txt".to_string()),
            ("assistant".to_string(), "{\"action\": \"done\", \"args\": \"ok\"}".to_string()),
        ]
    );
}
