//! Tests of the similarity engine, the rules and the drift detector.

use docsentinel::drift::detector::DriftDetector;
use docsentinel::drift::embedding::MockEmbedding;
use docsentinel::drift::rules::{
    extract_parameters, extract_return_type, HardDriftRules, SoftDriftRules,
};
use docsentinel::drift::similarity::{cosine_similarity, find_top_k};
use docsentinel::drift::{format_score_2dp, DriftEvent, DriftSeverity, SimilarityResult, SCORE_ONE};
use docsentinel::extract::code::{CodeChunk, Language, SymbolType};
use docsentinel::extract::doc::{DocChunk, HeadingLevel};

fn code_chunk(name: &str, content: &str, signature: Option<&str>, public: bool) -> CodeChunk {
    let mut c = CodeChunk::new("test.rs", name, SymbolType::Function, content, Language::Rust, 1, 1);
    c.signature = signature.map(|s| s.to_string());
    c.is_public = public;
    c
}

fn doc_chunk(heading: &str, embedding: Option<Vec<i64>>) -> DocChunk {
    let mut d = DocChunk::new(
        "README.md",
        vec![heading.to_string()],
        heading,
        HeadingLevel::H2,
        "Test content",
        1,
        5,
    );
    d.embedding = embedding;
    d
}

#[test]
fn test_cosine_similarity() {
    let a = vec![SCORE_ONE, 0, 0];
    let b = vec![SCORE_ONE, 0, 0];
    assert_eq!(cosine_similarity(&a, &b), SCORE_ONE);

    let c = vec![0, SCORE_ONE, 0];
    assert_eq!(cosine_similarity(&a, &c), 0);

    let d = vec![-SCORE_ONE, 0, 0];
    assert_eq!(cosine_similarity(&a, &d), -SCORE_ONE);
}

#[test]
fn test_cosine_similarity_range_and_fallbacks() {
    // Unequal lengths, empty vectors and zero norms all yield zero.
    assert_eq!(cosine_similarity(&vec![1, 2], &vec![1, 2, 3]), 0);
    assert_eq!(cosine_similarity(&vec![], &vec![]), 0);
    assert_eq!(cosine_similarity(&vec![0, 0], &vec![1, 1]), 0);
    // Arbitrary vectors stay within one fixed-point unit.
    let a = vec![123_456, -654_321, 999_999];
    let b = vec![-888_888, 777_777, 1];
    let s = cosine_similarity(&a, &b);
    assert!(-SCORE_ONE <= s && s <= SCORE_ONE);
}

#[test]
fn test_find_top_k_ranking() {
    let cands = vec![(0usize, 500_000i64), (1, 900_000), (2, 900_000), (3, 100_000)];
    let top = find_top_k(&cands, 3, 400_000);
    // Ranked by similarity, ties in input order, the low one dropped.
    assert_eq!(top, vec![(1, 900_000), (2, 900_000), (0, 500_000)]);
}

#[test]
fn test_format_score() {
    assert_eq!(format_score_2dp(666_666), "0.67");
    assert_eq!(format_score_2dp(1_000_000), "1.00");
    assert_eq!(format_score_2dp(-500_000), "-0.50");
    assert_eq!(format_score_2dp(0), "0.00");
}

#[test]
fn test_drift_event_creation() {
    let event = DriftEvent::new(
        DriftSeverity::High,
        "Function signature changed",
        "Parameter 'name' was removed",
        950_000,
    )
    .with_code_chunk("src/lib.rs::my_function")
    .with_doc_chunk("README.md#Usage");

    assert_eq!(event.severity, DriftSeverity::High);
    assert_eq!(event.related_code_chunks.len(), 1);
    assert_eq!(event.related_doc_chunks.len(), 1);
}

#[test]
fn test_extract_parameters() {
    let sig = "fn hello(name: &str, age: u32) -> String";
    let params = extract_parameters(sig);
    assert_eq!(params, vec!["name", "age"]);

    let sig2 = "def greet(name, greeting='Hello')";
    let params2 = extract_parameters(sig2);
    assert_eq!(params2, vec!["name", "greeting"]);
}

#[test]
fn test_extract_parameters_nested_parens() {
    // A comma inside a nested parameter type does not split the list.
    let sig = "fn f(g: fn(A, B) -> C)";
    assert_eq!(extract_parameters(sig), vec!["g"]);
    let sig2 = "fn apply(callback: fn(i32, i32) -> i32, seed: i32)";
    assert_eq!(extract_parameters(sig2), vec!["callback", "seed"]);
}

#[test]
fn test_extract_return_type() {
    let sig = "fn hello(name: &str) -> String";
    assert_eq!(extract_return_type(sig), Some("String".to_string()));

    let sig2 = "fn void_func()";
    assert_eq!(extract_return_type(sig2), None);
}

#[test]
fn test_parameter_change_rule() {
    // A parameter added to a documented public function fires the
    // parameter-change rule with the added name alone.
    let old = code_chunk("f", "pub fn f(x: i32) -> i32 { x }", Some("pub fn f(x: i32) -> i32"), true);
    let new = code_chunk(
        "f",
        "pub fn f(x: i32, y: i32) -> i32 { x + y }",
        Some("pub fn f(x: i32, y: i32) -> i32"),
        true,
    );
    let docs = vec![doc_chunk("API", None)];
    let rules = HardDriftRules::new();
    let events = rules.check_code_change(Some(&old), Some(&new), &docs);
    let param_event = events
        .iter()
        .find(|e| e.description.starts_with("Parameters changed"))
        .unwrap();
    assert_eq!(param_event.severity, DriftSeverity::High);
    assert_eq!(param_event.evidence, "Added parameters: y");
    // The signature also changed, so the signature rule fires as well.
    assert!(events
        .iter()
        .any(|e| e.description.starts_with("Public API signature changed")));
}

#[test]
fn test_private_function_fires_no_hard_rule() {
    // The same function made private with no other change: no hard rule
    // fires, since all but the removed-function rule need a public new
    // chunk, and that one needs no new chunk at all.
    let old = code_chunk("f", "pub fn f(x: i32) -> i32 { x }", Some("pub fn f(x: i32) -> i32"), true);
    let new = code_chunk("f", "fn f(x: i32) -> i32 { x }", Some("fn f(x: i32) -> i32"), false);
    let docs = vec![doc_chunk("API", None)];
    let rules = HardDriftRules::new();
    let events = rules.check_code_change(Some(&old), Some(&new), &docs);
    assert!(events.is_empty());
}

#[test]
fn test_removed_function_rule() {
    // A public function present before and absent now, with one related
    // doc chunk: the removed-function rule fires at the highest severity
    // with full confidence.
    let old = code_chunk("f", "pub fn f(x: i32) -> i32 { x }", Some("pub fn f(x: i32) -> i32"), true);
    let docs = vec![doc_chunk("API", None)];
    let rules = HardDriftRules::new();
    let events = rules.check_code_change(Some(&old), None, &docs);
    assert_eq!(events.len(), 1);
    assert_eq!(events[0].severity, DriftSeverity::Critical);
    assert_eq!(events[0].confidence, SCORE_ONE);
    assert!(events[0].description.starts_with("Documented function removed"));
}

#[test]
fn test_dedup_keeps_higher_severity() {
    // Two rules fire for one pair and reference the same doc chunk:
    // deduplication collapses them, keeping the higher-severity event.
    let mut old = code_chunk(
        "f",
        "pub fn f() { helper() }",
        Some("pub fn f()"),
        true,
    );
    old.doc_comment = Some("old words".to_string());
    let mut new = code_chunk(
        "f",
        "pub fn f() { if flag { helper() } }",
        Some("pub fn f()"),
        true,
    );
    new.doc_comment = Some("new words".to_string());
    let docs = vec![doc_chunk("API", None)];
    let rules = SoftDriftRules::new();
    let events = rules.check_code_change(Some(&old), Some(&new), &docs);
    assert_eq!(events.len(), 2);
    assert_eq!(events[0].severity, DriftSeverity::Medium);
    assert_eq!(events[1].severity, DriftSeverity::Low);
    let detector = DriftDetector::new();
    let deduped = detector.deduplicate_events(events);
    assert_eq!(deduped.len(), 1);
    assert_eq!(deduped[0].severity, DriftSeverity::Medium);
}

#[test]
fn test_dedup_retains_dominating_event() {
    // For any list of events the output holds at most one event per
    // related-chunk-set key, and the retained one stands at least as high
    // as every discarded one sharing its key.
    let mk = |sev: DriftSeverity, conf: i64| {
        DriftEvent::new(sev, "d", "e", conf)
            .with_code_chunk("a.rs::f")
            .with_doc_chunk("README.md#A")
    };
    let events = vec![
        mk(DriftSeverity::Low, 500_000),
        mk(DriftSeverity::High, 900_000),
        mk(DriftSeverity::High, 950_000),
        mk(DriftSeverity::Medium, 999_999),
    ];
    let detector = DriftDetector::new();
    let deduped = detector.deduplicate_events(events);
    assert_eq!(deduped.len(), 1);
    assert_eq!(deduped[0].severity, DriftSeverity::High);
    assert_eq!(deduped[0].confidence, 950_000);
}

#[test]
fn test_find_related_docs() {
    let detector = DriftDetector::new();

    let mut code = code_chunk("test_func", "fn test() {}", None, true);
    code.embedding = Some(vec![SCORE_ONE, 0, 0]);

    let doc1 = doc_chunk("Related", Some(vec![900_000, 100_000, 0]));
    let doc2 = doc_chunk("Unrelated", Some(vec![0, SCORE_ONE, 0]));

    let docs = vec![doc1, doc2];
    let related = detector.find_related_docs(&code, &docs);

    assert!(!related.is_empty());
    assert_eq!(related[0].heading, "Related");
    assert!(related.iter().all(|d| d.heading != "Unrelated"));
}

#[test]
fn test_detect_code_drift_pipeline() {
    // A removed public function with one similar doc chunk comes out of
    // the full detection pass as one critical event.
    let mut old = code_chunk("f", "pub fn f() {}", Some("pub fn f()"), true);
    old.embedding = Some(vec![SCORE_ONE, 0]);
    let doc = doc_chunk("API", Some(vec![SCORE_ONE, 0]));
    let detector = DriftDetector::new();
    let events = detector.detect_code_drift(&vec![old], &vec![], &vec![doc]);
    assert_eq!(events.len(), 1);
    assert_eq!(events[0].severity, DriftSeverity::Critical);
}

#[test]
fn test_detect_doc_drift_removed_section() {
    // A deleted section whose embedding still matches existing code is
    // flagged as a medium event with 0.8 confidence.
    let removed = doc_chunk("Gone", Some(vec![SCORE_ONE, 0]));
    let mut code = code_chunk("f", "pub fn f() {}", Some("pub fn f()"), true);
    code.embedding = Some(vec![SCORE_ONE, 0]);
    let detector = DriftDetector::new();
    let events = detector.detect_doc_drift(&vec![removed], &vec![], &vec![code]);
    assert_eq!(events.len(), 1);
    assert_eq!(events[0].severity, DriftSeverity::Medium);
    assert_eq!(events[0].confidence, 800_000);
    assert!(events[0].description.contains("Gone"));
}

#[test]
fn test_unchanged_pair_yields_no_events() {
    let mut old = code_chunk("f", "pub fn f() {}", Some("pub fn f()"), true);
    old.embedding = Some(vec![SCORE_ONE, 0]);
    let mut new = code_chunk("f", "pub fn f() {}", Some("pub fn f()"), true);
    new.embedding = Some(vec![SCORE_ONE, 0]);
    let doc = doc_chunk("API", Some(vec![SCORE_ONE, 0]));
    let detector = DriftDetector::new();
    let events = detector.detect_code_drift(&vec![old], &vec![new], &vec![doc]);
    assert!(events.is_empty());
}

#[test]
fn test_similarity_drift_event() {
    // A related doc chunk whose similarity to the code falls below the
    // threshold is flagged, the raw score reused as the confidence.
    let detector = DriftDetector::new();
    let mut code = code_chunk("f", "pub fn f() { g() }", Some("pub fn f()"), true);
    let embedding = vec![SCORE_ONE, SCORE_ONE];
    code.embedding = Some(embedding.clone());
    let doc = doc_chunk("API", Some(vec![SCORE_ONE, -SCORE_ONE]));
    let events = detector.check_similarity_drift(&code, &embedding, &vec![doc]);
    assert_eq!(events.len(), 1);
    assert_eq!(events[0].severity, DriftSeverity::Medium);
    assert!(events[0].evidence.starts_with("Similarity score: 0.00"));
    assert_eq!(events[0].confidence, 0);
}

#[test]
fn test_compute_similarities() {
    let detector = DriftDetector::new();

    let mut code = code_chunk("func", "fn test() {}", None, true);
    code.embedding = Some(vec![SCORE_ONE, 0, 0]);
    let doc = doc_chunk("Doc", Some(vec![SCORE_ONE, 0, 0]));

    let results = detector.compute_all_similarities(&vec![code], &vec![doc]);

    assert_eq!(results.len(), 1);
    assert_eq!(results[0].similarity, SCORE_ONE);
    assert_eq!(results[0].previous_similarity, None);
}

#[test]
fn test_find_best_matches() {
    let detector = DriftDetector::new();
    let mut code = code_chunk("func", "fn test() {}", None, true);
    code.embedding = Some(vec![SCORE_ONE, 0]);
    let near = doc_chunk("Near", Some(vec![SCORE_ONE, 0]));
    let far = doc_chunk("Far", Some(vec![0, SCORE_ONE]));
    let matches = detector.find_best_matches(&code, &vec![far, near], 1);
    assert_eq!(matches.len(), 1);
    assert_eq!(matches[0].0.heading, "Near");
    assert_eq!(matches[0].1, SCORE_ONE);
}

#[test]
fn test_mock_embedding() {
    let provider = MockEmbedding::new(384);
    let embedding = provider.embed_sync("Hello, world!");
    assert_eq!(embedding.len(), 384);

    let embedding2 = provider.embed_sync("Hello, world!");
    assert_eq!(embedding, embedding2);

    let embedding3 = provider.embed_sync("Goodbye, world!");
    assert_ne!(embedding, embedding3);
}

#[test]
fn test_event_identifiers_are_fresh() {
    let a = DriftEvent::new(DriftSeverity::Low, "d", "e", 100_000);
    let b = DriftEvent::new(DriftSeverity::Low, "d", "e", 100_000);
    assert_eq!(a.id.len(), 36);
    assert_eq!(b.id.len(), 36);
    assert_ne!(a.id, b.id);
}

#[test]
fn test_mock_embedding_components_in_range() {
    let provider = MockEmbedding::new(64);
    let embedding = provider.embed_sync("range check");
    assert!(embedding.iter().all(|&x| -SCORE_ONE <= x && x <= SCORE_ONE));
    // The vector depends on the text, not on the text handed back unchanged.
    assert_ne!(embedding, vec![0; 64]);
}

#[test]
fn test_similarity_result_drop() {
    let r = SimilarityResult {
        code_chunk_id: "a".to_string(),
        doc_chunk_id: "b".to_string(),
        similarity: 400_000,
        previous_similarity: Some(700_000),
    };
    assert!(r.has_significant_drop(200_000));
    assert!(!r.has_significant_drop(300_000));
    let fresh = SimilarityResult { previous_similarity: None, ..r };
    assert!(!fresh.has_significant_drop(0));
}
