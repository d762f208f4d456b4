//! Tests of the code and documentation extractors.

use docsentinel::extract::code::{CodeExtractor, SymbolType};
use docsentinel::extract::doc::{extract_code_blocks, DocExtractor};
use docsentinel::extract::ExtractError;
use docsentinel::content_hash;

#[test]
fn test_extract_rust_function() {
    let mut extractor = CodeExtractor::new().unwrap();
    let code = r#"
/// This is a doc comment
/// with multiple lines
pub fn hello_world(name: &str) -> String {
    format!("Hello, {}!", name)
}
"#;

    let chunks = extractor.extract_file("test.rs", code).unwrap();

    assert_eq!(chunks.len(), 1);
    assert_eq!(chunks[0].symbol_name, "hello_world");
    assert_eq!(chunks[0].symbol_type, SymbolType::Function);
    assert!(chunks[0].is_public);
    assert!(chunks[0].doc_comment.is_some());
}

#[test]
fn test_extract_python_function() {
    let mut extractor = CodeExtractor::new().unwrap();
    let code = r#"
def hello_world(name: str) -> str:
    """This is a docstring."""
    return f"Hello, {name}!"
"#;

    let chunks = extractor.extract_file("test.py", code).unwrap();

    assert_eq!(chunks.len(), 1);
    assert_eq!(chunks[0].symbol_name, "hello_world");
    assert_eq!(chunks[0].symbol_type, SymbolType::Function);
    assert!(chunks[0].is_public);
    assert!(chunks[0].doc_comment.is_some());
}

#[test]
fn test_extract_rust_method_qualified() {
    let mut extractor = CodeExtractor::new().unwrap();
    let code = r#"
pub struct Greeter {
    name: String,
}

impl Greeter {
    /// Says hello.
    pub fn greet(&self) -> String {
        format!("Hello, {}!", self.name)
    }
}
"#;
    let chunks = extractor.extract_file("test.rs", code).unwrap();
    let names: Vec<&str> = chunks.iter().map(|c| c.symbol_name.as_str()).collect();
    assert!(names.contains(&"Greeter"));
    assert!(names.contains(&"Greeter::greet"));
    // The method is emitted exactly once, under its qualified name.
    assert_eq!(
        chunks
            .iter()
            .filter(|c| c.symbol_name.contains("greet"))
            .count(),
        1
    );
    let method = chunks
        .iter()
        .find(|c| c.symbol_name == "Greeter::greet")
        .unwrap();
    assert_eq!(method.symbol_type, SymbolType::Method);
    assert!(method.is_public);
    assert_eq!(
        method.signature.as_deref(),
        Some("pub fn greet(&self) -> String")
    );
    assert_eq!(method.doc_comment.as_deref(), Some("Says hello."));
}

#[test]
fn test_extract_python_dunder_public() {
    let mut extractor = CodeExtractor::new().unwrap();
    let code = "class Point:\n    def __init__(self, x):\n        self.x = x\n    def _hidden(self):\n        pass\n";
    let chunks = extractor.extract_file("test.py", code).unwrap();
    let init = chunks
        .iter()
        .find(|c| c.symbol_name == "Point.__init__")
        .unwrap();
    assert!(init.is_public);
    let hidden = chunks
        .iter()
        .find(|c| c.symbol_name == "Point._hidden")
        .unwrap();
    assert!(!hidden.is_public);
}

#[test]
fn test_uppercase_extension_supported() {
    let mut extractor = CodeExtractor::new().unwrap();
    let chunks = extractor.extract_file("UPPER.RS", "pub fn f() {}\n").unwrap();
    assert_eq!(chunks.len(), 1);
    assert_eq!(chunks[0].symbol_name, "f");
}

#[test]
fn test_unsupported_language() {
    let mut extractor = CodeExtractor::new().unwrap();
    let r = extractor.extract_file("notes.txt", "plain text");
    assert_eq!(r.unwrap_err(), ExtractError::UnsupportedLanguage);
}

#[test]
fn test_signature_content_round_trip() {
    // Extracting a function, reassembling signature and content, and
    // re-extracting yields an equal name, type and visibility.
    let mut extractor = CodeExtractor::new().unwrap();
    let code = "pub fn f(x: i32) -> i32 { x }\n";
    let chunks = extractor.extract_file("a.rs", code).unwrap();
    assert_eq!(chunks.len(), 1);
    let reassembled = format!(
        "{}\n{}",
        chunks[0].signature.as_deref().unwrap(),
        chunks[0].content
    );
    let again = extractor.extract_file("a.rs", &reassembled).unwrap();
    let found = again
        .iter()
        .find(|c| c.symbol_name == chunks[0].symbol_name)
        .unwrap();
    assert_eq!(found.symbol_name, chunks[0].symbol_name);
    assert_eq!(found.symbol_type, chunks[0].symbol_type);
    assert_eq!(found.is_public, chunks[0].is_public);
}

#[test]
fn test_extract_markdown_sections() {
    let extractor = DocExtractor::new();
    let content = r#"# Main Title

This is the introduction.

## Installation

How to install the software.

### Prerequisites

What you need before installing.

## Usage

How to use the software.
"#;

    let chunks = extractor.extract_file("README.md", content).unwrap();

    assert!(chunks.len() >= 3);

    let headings: Vec<&str> = chunks.iter().map(|c| c.heading.as_str()).collect();
    assert!(headings.contains(&"Main Title"));
    assert!(headings.contains(&"Installation"));
    assert!(headings.contains(&"Usage"));
}

#[test]
fn test_extract_code_blocks() {
    let content = r#"
# Example

```rust
fn main() {
    println!("Hello");
}
```

```python
print("Hello")
```
"#;

    let blocks = extract_code_blocks(content);
    assert_eq!(blocks.len(), 2);
    assert_eq!(blocks[0].language, Some("rust".to_string()));
    assert_eq!(blocks[1].language, Some("python".to_string()));
}

#[test]
fn test_heading_path() {
    let extractor = DocExtractor::new();
    let content = r#"# Root

## Child

### Grandchild

Content here.
"#;

    let chunks = extractor.extract_file("test.md", content).unwrap();

    let grandchild = chunks.iter().find(|c| c.heading == "Grandchild");
    assert!(grandchild.is_some());

    let gc = grandchild.unwrap();
    assert_eq!(gc.heading_path, vec!["Root", "Child", "Grandchild"]);
}

#[test]
fn test_markdown_section_lines() {
    // A document of three headings yields three sections whose heading
    // paths reflect the nesting and whose lines bracket their own content.
    let extractor = DocExtractor::new().with_min_length(1);
    let content = "# A\n\n## B\n\ntext\n\n## C\n\nmore";
    let chunks = extractor.extract_file("d.md", content).unwrap();
    assert_eq!(chunks.len(), 3);
    assert_eq!(chunks[0].heading_path, vec!["A"]);
    assert_eq!(chunks[1].heading_path, vec!["A", "B"]);
    assert_eq!(chunks[2].heading_path, vec!["A", "C"]);
    assert_eq!((chunks[0].start_line, chunks[0].end_line), (1, 2));
    assert_eq!((chunks[1].start_line, chunks[1].end_line), (3, 6));
    assert_eq!((chunks[2].start_line, chunks[2].end_line), (7, 9));
    assert_eq!(chunks[1].content, "## B\n\ntext\n");
}

#[test]
fn test_doc_extract_idempotent() {
    // Two passes over identical input yield identical heading paths and
    // chunk counts.
    let extractor = DocExtractor::new();
    let content = "# One\n\nsome body text\n\n## Two\n\nmore body text\n";
    let first = extractor.extract_file("same.md", content).unwrap();
    let second = extractor.extract_file("same.md", content).unwrap();
    assert_eq!(first.len(), second.len());
    for (a, b) in first.iter().zip(second.iter()) {
        assert_eq!(a.heading_path, b.heading_path);
        assert_eq!(a.content, b.content);
    }
}

#[test]
fn test_whole_file_fallback() {
    let extractor = DocExtractor::new();
    let content = "just a paragraph with no headings at all";
    let chunks = extractor.extract_file("plain.md", content).unwrap();
    assert_eq!(chunks.len(), 1);
    assert_eq!(chunks[0].heading, "plain.md");
    assert_eq!(chunks[0].heading_path, vec!["plain.md"]);
    assert_eq!(chunks[0].start_line, 1);
    assert_eq!(chunks[0].content, content);
}

#[test]
fn test_fenced_heading_not_a_section() {
    let extractor = DocExtractor::new().with_min_length(1);
    let content = "# Real\n\n```\n# not a heading\n```\n\nbody\n";
    let chunks = extractor.extract_file("f.md", content).unwrap();
    assert_eq!(chunks.len(), 1);
    assert_eq!(chunks[0].heading, "Real");
}

#[test]
fn test_content_hash_exact() {
    assert_eq!(
        content_hash("hello"),
        "2cf24dba5fb0a30e26e83b2ac5b9e29e1b161e5c1fa7425e73043362938b9824"
    );
}

#[test]
fn test_content_hash_deterministic_and_collision_free() {
    let corpus = [
        "",
        "a",
        "b",
        "ab",
        "ba",
        "hello world",
        "hello world!",
        "pub fn f(x: i32) -> i32 { x }",
        "# A\n\n## B\n\ntext",
    ];
    for s in corpus.iter() {
        assert_eq!(content_hash(s), content_hash(s));
        assert_eq!(content_hash(s).len(), 64);
    }
    for (i, a) in corpus.iter().enumerate() {
        for (j, b) in corpus.iter().enumerate() {
            if i != j {
                assert_ne!(content_hash(a), content_hash(b));
            }
        }
    }
}
