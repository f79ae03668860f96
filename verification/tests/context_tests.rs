use ai_cli::context::{
    chunk, default_project_config, join, keywords_of, recent_commands, Context, ContextEngine,
    ContextError, ContextFile, ContextType, DirectoryProbe, DEFAULT_GLOBAL_CONFIG,
};

fn probe(path: &str, has_git: bool) -> DirectoryProbe {
    DirectoryProbe { path: path.to_string(), has_git }
}

fn file(path: &str, content: &str) -> Option<ContextFile> {
    Some(ContextFile { path: path.to_string(), content: content.to_string() })
}

#[test]
fn test_context_engine_creation() {
    let engine = ContextEngine::new();
    assert!(engine.project_root.is_none());
    assert!(engine.contexts.is_empty());
}

#[test]
fn context_test_file_reference_resolution() {
    let engine = ContextEngine::new();
    let current_dir = std::path::Path::new("/tmp/some/project");

    let resolved = engine
        .resolve_file_reference("@src/main.rs", current_dir.to_str().unwrap())
        .unwrap();
    assert_eq!(std::path::PathBuf::from(resolved), current_dir.join("src/main.rs"));
}

#[test]
fn test_relevance_extraction() {
    let chunk = "[Relevance: 2/3] This is a relevant paragraph";
    let relevance = ContextEngine::extract_relevance(chunk);
    assert_eq!(relevance, 2);
}

#[test]
fn test_context_engine() {
    let engine = ContextEngine::new();
    assert!(engine.project_root.is_none());
    assert!(engine.contexts.is_empty());
}

#[test]
fn integration_test_test_file_reference_resolution() {
    let engine = ContextEngine::new();
    let temp_dir = std::path::PathBuf::from("/tmp/another-project");

    let resolved = engine
        .resolve_file_reference("@src/main.rs", temp_dir.to_str().unwrap())
        .unwrap();
    assert_eq!(std::path::PathBuf::from(resolved), temp_dir.join("src/main.rs"));
}

#[test]
fn references_resolve_against_root_or_directory() {
    let mut engine = ContextEngine::new();
    assert_eq!(engine.resolve_file_reference("@/etc/hosts", "/work").unwrap(), "/etc/hosts");
    assert_eq!(engine.resolve_file_reference("@@a.rs", "/work").unwrap(), "/work/a.rs");
    assert_eq!(engine.resolve_file_reference("a.rs", "/work/").unwrap(), "/work/a.rs");
    assert_eq!(engine.resolve_file_reference("@a.rs", "").unwrap(), "a.rs");
    assert_eq!(engine.resolve_file_reference("@", "/work").unwrap(), "/work/");
    engine.project_root = Some("/repo".to_string());
    assert_eq!(engine.resolve_file_reference("@src/lib.rs", "/repo/src").unwrap(), "/repo/src/lib.rs");
    assert_eq!(join("/a", "b"), std::path::Path::new("/a").join("b").to_str().unwrap());
    assert_eq!(join("/a/", "b"), std::path::Path::new("/a/").join("b").to_str().unwrap());
    assert_eq!(join("", "b"), std::path::Path::new("").join("b").to_str().unwrap());
    assert_eq!(join("/a", ""), std::path::Path::new("/a").join("").to_str().unwrap());
}

#[test]
fn project_root_is_the_nearest_repository() {
    let mut engine = ContextEngine::new();
    let probes = vec![probe("/a/b/c", false), probe("/a/b", true), probe("/a", true), probe("/", false)];
    assert_eq!(engine.find_project_root(&probes), Ok("/a/b".to_string()));
    assert_eq!(engine.project_root, Some("/a/b".to_string()));

    let mut lost = ContextEngine::new();
    let none = vec![probe("/x/y", false), probe("/x", false), probe("/", false)];
    assert_eq!(lost.find_project_root(&none), Err(ContextError::RootNotFound));
    assert!(lost.project_root.is_none());
    assert_eq!(lost.find_project_root(&Vec::new()), Err(ContextError::RootNotFound));
}

#[test]
fn contexts_load_in_layers() {
    let mut engine = ContextEngine::new();
    let probes = vec![probe("/repo/sub", false), probe("/repo", true)];
    let outcome = engine.load_contexts(
        "/repo/sub",
        &probes,
        file("/home/u/.ai-cli/CONFIG.md", "global"),
        file("/repo/PROJECT.md", "project"),
        file("/repo/sub/PROJECT.md", "directory"),
    );
    assert_eq!(outcome, Ok(()));
    assert_eq!(engine.contexts.len(), 3);
    assert_eq!(engine.contexts[0].context_type, ContextType::Global);
    assert_eq!(engine.contexts[1].context_type, ContextType::Project);
    assert_eq!(engine.contexts[2].context_type, ContextType::Directory);
    assert_eq!(
        engine.get_combined_context(),
        "--- Context from /home/u/.ai-cli/CONFIG.md (Global) ---\nglobal\n\n\
         --- Context from /repo/PROJECT.md (Project) ---\nproject\n\n\
         --- Context from /repo/sub/PROJECT.md (Directory) ---\ndirectory\n\n"
    );

    let at_root = vec![probe("/repo", true)];
    engine
        .load_contexts("/repo", &at_root, None, file("/repo/PROJECT.md", "p"), file("/repo/PROJECT.md", "p"))
        .unwrap();
    assert_eq!(engine.contexts.len(), 1);
    assert_eq!(engine.contexts[0].context_type, ContextType::Project);

    let nowhere = vec![probe("/tmp", false)];
    assert_eq!(
        engine.load_contexts("/tmp", &nowhere, file("g", "g"), None, None),
        Err(ContextError::RootNotFound)
    );
    assert!(engine.contexts.is_empty());
    assert_eq!(engine.get_combined_context(), "");
}

#[test]
fn relevance_is_read_from_the_mark() {
    assert_eq!(ContextEngine::extract_relevance("[Relevance: 12/40] text"), 12);
    assert_eq!(ContextEngine::extract_relevance("see [Relevance: 7/9] text"), 7);
    assert_eq!(ContextEngine::extract_relevance("[Relevance: 5] text"), 5);
    assert_eq!(ContextEngine::extract_relevance("[Relevance: +3/4] text"), 3);
    assert_eq!(ContextEngine::extract_relevance("no mark"), 0);
    assert_eq!(ContextEngine::extract_relevance("[Relevance: 2/3 unclosed"), 0);
    assert_eq!(ContextEngine::extract_relevance("[Relevance: x/3] text"), 0);
    assert_eq!(ContextEngine::extract_relevance("[Relevance: /3] text"), 0);
    assert_eq!(ContextEngine::extract_relevance("[Relevance: ] text"), 0);
    assert_eq!(
        ContextEngine::extract_relevance("[Relevance: 99999999999999999999999999/3] text"),
        0
    );
    assert_eq!(chunk(5, 9, "a ] b / c"), "[Relevance: 5/9] a ] b / c");
    assert_eq!(ContextEngine::extract_relevance(&chunk(5, 9, "a ] b / c")), 5);
    assert_eq!(ContextEngine::extract_relevance(&chunk(120, 3, "[Relevance: 1/1]")), 120);
}

#[test]
fn relevant_context_comes_by_falling_score() {
    let mut engine = ContextEngine::new();
    engine.contexts.push(Context {
        path: "a".to_string(),
        content: "Rust is fast\n\nWe write TESTS in rust\n\nnothing here".to_string(),
        context_type: ContextType::Project,
    });
    engine.contexts.push(Context {
        path: "b".to_string(),
        content: "tests come first\n\nrust tests and more rust tests".to_string(),
        context_type: ContextType::Directory,
    });
    let found = engine.find_relevant_context("  Rust   tests ");
    assert_eq!(
        found,
        vec![
            "[Relevance: 2/2] We write TESTS in rust".to_string(),
            "[Relevance: 2/2] rust tests and more rust tests".to_string(),
            "[Relevance: 1/2] Rust is fast".to_string(),
            "[Relevance: 1/2] tests come first".to_string(),
        ]
    );
    assert!(engine.find_relevant_context("python").is_empty());
    assert!(engine.find_relevant_context("   ").is_empty());
    let words: Vec<String> = keywords_of(" Hello\tWORLD\nagain ")
        .iter()
        .map(|word| word.iter().collect())
        .collect();
    assert_eq!(words, vec!["hello".to_string(), "world".to_string(), "again".to_string()]);
}

#[test]
fn history_gives_the_latest_commands_first() {
    let history = "ls -la\n: 1700000000:0;git status\n\n   \n: 1700000001:0;echo a;echo b\n: broken line\ncargo test";
    assert_eq!(
        recent_commands(history),
        vec![
            "cargo test".to_string(),
            "echo a".to_string(),
            "git status".to_string(),
            "ls -la".to_string(),
        ]
    );
    assert!(recent_commands("").is_empty());
    let mut long = String::new();
    for i in 0..60 {
        long.push_str(&format!("command {}\n", i));
    }
    let recent = recent_commands(&long);
    assert_eq!(recent.len(), 50);
    assert_eq!(recent[0], "command 59");
    assert_eq!(recent[49], "command 10");
}

#[test]
fn default_configurations() {
    assert!(DEFAULT_GLOBAL_CONFIG.starts_with("# AI CLI Global Configuration\n\n## Developer Preferences\n"));
    assert!(DEFAULT_GLOBAL_CONFIG.ends_with("- Write tests for new functionality\n"));
    let config = default_project_config(Some("demo"));
    assert!(config.starts_with("# Project Configuration: demo\n\n## Project Overview\n"));
    assert!(config.contains("## Architecture"));
    assert!(config.ends_with("- Cross-platform support (Windows, macOS, Linux)\n"));
    assert!(default_project_config(None).starts_with("# Project Configuration: ai-cli\n"));
}
