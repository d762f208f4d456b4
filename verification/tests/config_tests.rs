//! Tests of configuration, glob matching and the prompt builders.

use docsentinel::drift::{DriftEvent, DriftSeverity};
use docsentinel::extract::code::{CodeChunk, Language, SymbolType};
use docsentinel::extract::doc::{DocChunk, HeadingLevel};
use docsentinel::llm::client::{LlmConfig, MockLlmClient};
use docsentinel::llm::prompts::{AnalysisPrompt, FixPrompt};
use docsentinel::llm::{generate_simple_fix, AnalysisRequest};
use docsentinel::repo::change::{ChangeKind, ChangedFile};
use docsentinel::repo::config::RepoConfig;
use docsentinel::repo::{categorize_file, glob_match, glob_match_simple, FileType};
use docsentinel::tui::widgets::SeverityBadge;

#[test]
fn test_glob_matching() {
    assert!(glob_match_simple("*.md", "README.md"));
    assert!(glob_match_simple("docs/**/*.md", "docs/api/guide.md"));
    assert!(!glob_match_simple("*.rs", "README.md"));
}

#[test]
fn test_glob_match() {
    assert!(glob_match("*.md", "README.md"));
    assert!(glob_match("docs/**/*.md", "docs/api/guide.md"));
    assert!(!glob_match("*.rs", "README.md"));
}

#[test]
fn test_glob_edge_cases() {
    assert!(glob_match_simple("target/**", "target/debug/build"));
    assert!(glob_match_simple("README", "some/dir/README"));
    assert!(glob_match_simple("README", "README"));
    assert!(!glob_match_simple("README", "READMES"));
}

#[test]
fn test_glob_wildcard_free_is_exact() {
    // The repository-side matcher takes a wildcard-free pattern as a whole
    // path only; the configuration-side one also as a final component.
    assert!(!glob_match("b", "a/b"));
    assert!(glob_match("b", "b"));
    assert!(glob_match_simple("b", "a/b"));
}

#[test]
fn client_test_default_config() {
    let config = LlmConfig::default();
    assert!(config.endpoint.contains("11434"));
    assert!(config.temperature > 0);
}

#[test]
fn config_test_default_config() {
    let config = RepoConfig::default();
    assert!(!config.doc_patterns.is_empty());
    assert!(!config.code_patterns.is_empty());
    assert!(config.similarity_threshold > 0);
}

#[test]
fn test_categorize_file() {
    let config = RepoConfig::default();
    assert_eq!(categorize_file("src/main.rs", &config), FileType::Code);
    assert_eq!(categorize_file("README.md", &config), FileType::Documentation);
    assert_eq!(categorize_file("Cargo.toml", &config), FileType::Config);
    assert_eq!(categorize_file("picture.png", &config), FileType::Other);
}

#[test]
fn test_changed_file_kinds() {
    let f = ChangedFile {
        path: "src/lib.rs".to_string(),
        kind: ChangeKind::Modified,
        file_type: FileType::Code,
    };
    assert!(f.is_code());
    assert!(!f.is_documentation());
}

#[test]
fn test_mock_client() {
    let mut client = MockLlmClient::new();
    client.add_response("test", r#"{"result": "success"}"#);

    let response = client.complete("this is a test prompt");
    assert!(response.content.contains("success"));
}

#[test]
fn test_mock_client_default_answer() {
    let client = MockLlmClient::new();
    let response = client.complete("anything");
    assert!(response.content.contains("Mock analysis"));
    assert_eq!(response.tokens_used, Some(50));
}

fn sample_event() -> DriftEvent {
    DriftEvent::new(
        DriftSeverity::High,
        "Function signature changed",
        "Parameter 'name' was added",
        900_000,
    )
}

fn sample_code(name: &str, content: &str) -> CodeChunk {
    CodeChunk::new("src/lib.rs", name, SymbolType::Function, content, Language::Rust, 1, 1)
}

fn sample_doc(path: Vec<&str>, heading: &str, content: &str) -> DocChunk {
    DocChunk::new(
        "README.md",
        path.into_iter().map(|s| s.to_string()).collect(),
        heading,
        HeadingLevel::H2,
        content,
        1,
        5,
    )
}

#[test]
fn test_analysis_request_prompt() {
    let event = DriftEvent::new(DriftSeverity::High, "Signature changed", "Parameter added", 900_000);
    let code = sample_code("my_func", "fn my_func(x: i32) {}");
    let doc = sample_doc(vec!["API"], "API", "The my_func function does something.");
    let request = AnalysisRequest::new(event, None, Some(code), doc);
    let prompt = request.to_prompt();

    assert!(prompt.contains("Signature changed"));
    assert!(prompt.contains("my_func"));
    assert!(prompt.contains("JSON"));
}

#[test]
fn test_analysis_prompt_generation() {
    let event = sample_event();
    let code = sample_code("greet", "pub fn greet(name: &str) { }");
    let doc = sample_doc(vec!["API", "Functions"], "Functions", "The greet function says hello.");
    let prompt = AnalysisPrompt::generate(&event, None, Some(&code), &doc);

    assert!(prompt.contains("Function signature changed"));
    assert!(prompt.contains("greet"));
    assert!(prompt.contains("JSON"));
}

#[test]
fn test_fix_prompt_generation() {
    let event = DriftEvent::new(DriftSeverity::High, "Parameter added", "New parameter 'name'", 900_000);
    let code = sample_code("greet", "pub fn greet(name: &str) { }");
    let doc = sample_doc(vec!["API"], "API", "The greet function.");
    let prompt = FixPrompt::generate(&event, &code, &doc);

    assert!(prompt.contains("greet"));
    assert!(prompt.contains("updated_content"));
}

#[test]
fn test_simple_fix_for_removed_function() {
    let old = sample_code("gone", "pub fn gone() {}");
    let doc = sample_doc(vec!["API"], "API", "The gone function still documented.");
    let fix = generate_simple_fix(Some(&old), None, &doc).unwrap();
    assert!(fix.starts_with("<!-- WARNING: The function 'gone'"));
    assert!(fix.ends_with("The gone function still documented."));
}

#[test]
fn test_simple_fix_replaces_signature() {
    let mut old = sample_code("f", "pub fn f(x: i32) {}");
    old.signature = Some("pub fn f(x: i32)".to_string());
    let mut new = sample_code("f", "pub fn f(x: i64) {}");
    new.signature = Some("pub fn f(x: i64)".to_string());
    let doc = sample_doc(vec!["API"], "API", "Call `pub fn f(x: i32)` to act.");
    let fix = generate_simple_fix(Some(&old), Some(&new), &doc).unwrap();
    assert_eq!(fix, "Call `pub fn f(x: i64)` to act.");
}

#[test]
fn test_severity_badge() {
    let badge = SeverityBadge::new(DriftSeverity::Critical);
    let label = badge.label();
    assert!(label.contains("CRITICAL"));
}

#[test]
fn test_language_labels() {
    assert_eq!(Language::from_extension("rs"), Some(Language::Rust));
    assert_eq!(Language::from_extension("py"), Some(Language::Python));
    assert_eq!(Language::from_extension("cpp"), None);
    assert_eq!(Language::Rust.extension(), "rs");
    assert_eq!(Language::Python.label(), "python");
}

#[test]
fn test_language_detection_ignores_case() {
    assert_eq!(Language::from_extension("RS"), Some(Language::Rust));
    assert_eq!(Language::from_extension("Py"), Some(Language::Python));
    assert_eq!(categorize_file("docs/NOTES.MD", &RepoConfig::default()), FileType::Documentation);
}
