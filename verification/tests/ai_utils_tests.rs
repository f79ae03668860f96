use ai_cli::ai_utils::{
    create_commit_prompt, create_explain_prompt, explanation_token_limit, get_ai_backend,
    refine_conventional_commit, AIBackend, BackendDefaults, BackendEnvironment, BackendError,
    TokenUsage, DEFAULT_LOCAL_MODEL, DEFAULT_OLLAMA_URL, DEFAULT_OPENAI_MODEL,
};

#[test]
fn test_create_commit_prompt() {
    let diff = "+++ b/src/main.rs\n@@ -1,3 +1,4 @@\n fn main() {\n+    println!(\"Hello, world!\");\n }\n";
    let prompt = create_commit_prompt(diff, None);

    assert!(prompt.contains("Conventional Commits"));
    assert!(prompt.contains(diff));
}

#[test]
fn test_create_explain_prompt() {
    let diff = "+++ b/src/main.rs\n@@ -1,3 +1,4 @@\n fn main() {\n+    println!(\"Hello, world!\");\n }\n";
    let prompt = create_explain_prompt(diff, false);

    assert!(prompt.contains("software engineer"));
    assert!(prompt.contains(diff));
}

#[test]
fn test_commit_prompt_generation() {
    let diff = r#"+++ b/src/main.rs
@@ -1,3 +1,4 @@
 fn main() {
+    println!("Hello, world!");
 }
"#;

    let prompt = create_commit_prompt(diff, None);

    assert!(prompt.contains("Conventional Commits"));
    assert!(prompt.contains(diff));
    assert!(prompt.contains("feat"));
    assert!(prompt.contains("fix"));
}

#[test]
fn test_conventional_commit_refinement() {
    let test_cases = vec![
        ("feat: add new feature", "feat: add new feature"),
        ("Commit message: feat: add new feature", "feat: add new feature"),
        ("\"feat: add new feature\"", "feat: add new feature"),
        ("```\nfeat: add new feature\n```", "feat: add new feature"),
        ("add new functionality", "feat: add new functionality"),
        ("fix the bug", "fix: fix the bug"),
        ("update documentation", "docs: update documentation"),
        ("run tests", "test: run tests"),
    ];

    for (input, expected) in test_cases {
        let result = refine_conventional_commit(input);
        assert_eq!(result, expected, "Input: {}", input);
    }
}

#[test]
fn test_ai_backend_selection() {
    let defaults = BackendDefaults::new("default-model");
    let backend = get_ai_backend("local", &BackendEnvironment::default(), &defaults).unwrap();
    match backend {
        AIBackend::Local { model, .. } => {
            assert!(!model.is_empty());
        }
        _ => panic!("Expected Local backend"),
    }

    let result = get_ai_backend("invalid", &BackendEnvironment::default(), &defaults);
    assert!(result.is_err());
}

#[test]
fn test_explain_prompt_generation() {
    let diff = r#"--- a/src/main.rs
+++ b/src/main.rs
@@ -1,3 +1,4 @@
 fn main() {
-    println!("Hello");
+    println!("Hello, world!");
 }
"#;

    let simple_prompt = create_explain_prompt(diff, false);
    assert!(simple_prompt.contains("software engineer"));
    assert!(simple_prompt.contains("2-3 paragraphs"));
    assert!(simple_prompt.contains(diff));

    let detailed_prompt = create_explain_prompt(diff, true);
    assert!(detailed_prompt.contains("comprehensive explanation"));
    assert!(detailed_prompt.contains("High-level summary"));
    assert!(detailed_prompt.contains("Technical details"));
    assert!(detailed_prompt.contains(diff));
}

#[test]
fn commit_prompt_has_its_exact_frame() {
    let prompt = create_commit_prompt("DIFF", Some("be brief"));
    assert!(prompt.starts_with("SYSTEM:\nYou are an expert-level Git assistant"));
    assert!(prompt.contains(
        "no production code change\n\n\nADDITIONAL CONTEXT:\nbe brief\nAnalyze the following diff"
    ));
    assert!(prompt.ends_with(
        "generate only the commit message:\n\n```diff\nDIFF\n```\n\nCOMMIT_MESSAGE:"
    ));
    let plain = create_commit_prompt("DIFF", None);
    assert!(!plain.contains("ADDITIONAL CONTEXT"));
    assert_eq!(plain.len() + "\nADDITIONAL CONTEXT:\nbe brief\n".len(), prompt.len());
}

#[test]
fn explain_prompt_has_its_exact_frame() {
    let brief = create_explain_prompt("DIFF", false);
    assert!(brief.starts_with("SYSTEM:\nYou are a software engineer helping developers"));
    assert!(brief.ends_with(
        "Keep it technical but accessible.\n\nDIFF TO ANALYZE:\n```diff\nDIFF\n```\n\nEXPLANATION:"
    ));
    let detailed = create_explain_prompt("DIFF", true);
    assert!(detailed.ends_with(
        "clear sections.\n\nDIFF TO ANALYZE:\n```diff\nDIFF\n```\n\nEXPLANATION:"
    ));
}

#[test]
fn refinement_edge_cases() {
    assert_eq!(refine_conventional_commit("   fix(parser): handle eof  \n"), "fix(parser): handle eof");
    assert_eq!(refine_conventional_commit("COMMIT_MESSAGE:   docs: say more"), "docs: say more");
    assert_eq!(refine_conventional_commit("Here's the commit message: \"chore: tidy\""), "chore: tidy");
    assert_eq!(refine_conventional_commit("Conventional commit: perf: go fast"), "perf: go fast");
    assert_eq!(refine_conventional_commit("``` feat: x"), "feat: x");
    assert_eq!(refine_conventional_commit("nothing special"), "chore: nothing special");
    assert_eq!(refine_conventional_commit("change the layout"), "refactor: change the layout");
    assert_eq!(refine_conventional_commit(""), "chore: ");
    assert_eq!(refine_conventional_commit("\""), "chore: \"");
    assert_eq!(refine_conventional_commit("\"\""), "chore: ");
    assert_eq!(refine_conventional_commit("feature: x"), "chore: feature: x");
}

#[test]
fn refinement_limits_the_first_line() {
    let long = format!("feat: {}", "x".repeat(100));
    let refined = refine_conventional_commit(&long);
    assert_eq!(refined.chars().count(), 72);
    assert_eq!(refined, long[..72]);

    let exact = format!("feat: {}", "y".repeat(66));
    assert_eq!(refine_conventional_commit(&exact), exact);

    let with_body = format!("feat: {}\n\nbody stays", "z".repeat(100));
    let refined = refine_conventional_commit(&with_body);
    assert_eq!(refined, format!("{}\n\nbody stays", &with_body[..72]));

    let windows = format!("feat: {}\r\nbody", "w".repeat(100));
    let refined = refine_conventional_commit(&windows);
    assert_eq!(refined, format!("{}\r\nbody", &windows[..72]));
}

#[test]
fn backend_selection_reads_the_environment() {
    let defaults = BackendDefaults::new("default-model");
    assert_eq!(defaults.local_model, DEFAULT_LOCAL_MODEL);
    assert_eq!(defaults.local_model, "gemma2:9b");
    assert_eq!(defaults.ollama_url, DEFAULT_OLLAMA_URL);
    assert_eq!(defaults.ollama_url, "http://localhost:11434");
    assert_eq!(defaults.openai_model, DEFAULT_OPENAI_MODEL);
    assert_eq!(defaults.openai_model, "gpt-4o-mini");
    assert_eq!(defaults.anthropic_model, "default-model");

    let mut environment = BackendEnvironment::default();
    match get_ai_backend("local", &environment, &defaults).unwrap() {
        AIBackend::Local { model, url } => {
            assert_eq!(model, "gemma2:9b");
            assert_eq!(url, "http://localhost:11434");
        }
        _ => panic!("expected the local backend"),
    }
    assert_eq!(
        get_ai_backend("openai", &environment, &defaults).err(),
        Some(BackendError::OpenAIKeyMissing)
    );
    assert_eq!(
        get_ai_backend("anthropic", &environment, &defaults).err(),
        Some(BackendError::AnthropicKeyMissing)
    );
    assert_eq!(
        get_ai_backend("Local", &environment, &defaults).err(),
        Some(BackendError::UnsupportedModel)
    );

    environment.local_model = Some("llama".to_string());
    environment.ollama_url = Some("http://box:1".to_string());
    environment.openai_api_key = Some("SECRET-REDACTED".to_string());
    environment.anthropic_api_key = Some("SECRET-REDACTED".to_string());
    match get_ai_backend("local", &environment, &defaults).unwrap() {
        AIBackend::Local { model, url } => {
            assert_eq!(model, "llama");
            assert_eq!(url, "http://box:1");
        }
        _ => panic!("expected the local backend"),
    }
    match get_ai_backend("openai", &environment, &defaults).unwrap() {
        AIBackend::OpenAI { model, api_key } => {
            assert_eq!(model, "gpt-4o-mini");
            assert_eq!(api_key, "SECRET-REDACTED");
        }
        _ => panic!("expected the OpenAI backend"),
    }
    match get_ai_backend("anthropic", &environment, &defaults).unwrap() {
        AIBackend::Anthropic { model, api_key } => {
            assert_eq!(model, "default-model");
            assert_eq!(api_key, "SECRET-REDACTED");
        }
        _ => panic!("expected the Anthropic backend"),
    }
    environment.openai_model = Some("other".to_string());
    environment.anthropic_model = Some("some-model".to_string());
    match get_ai_backend("openai", &environment, &defaults).unwrap() {
        AIBackend::OpenAI { model, .. } => assert_eq!(model, "other"),
        _ => panic!("expected the OpenAI backend"),
    }
    match get_ai_backend("anthropic", &environment, &defaults).unwrap() {
        AIBackend::Anthropic { model, api_key } => {
            assert_eq!(model, "some-model");
            assert_eq!(api_key, "SECRET-REDACTED");
        }
        _ => panic!("expected the Anthropic backend"),
    }
}

#[test]
fn token_usage_adds_up() {
    let usage = TokenUsage::from_counts(Some(12), Some(30));
    assert_eq!(usage, TokenUsage { prompt_tokens: 12, completion_tokens: 30, total_tokens: 42 });
    let partial = TokenUsage::from_counts(None, Some(5));
    assert_eq!(partial.total_tokens, 5);
    let huge = TokenUsage::from_counts(Some(u32::MAX), Some(1));
    assert_eq!(huge.total_tokens, u32::MAX);
    assert_eq!(explanation_token_limit(true), 500);
    assert_eq!(explanation_token_limit(false), 200);
}
