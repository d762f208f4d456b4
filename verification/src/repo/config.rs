//! Repository configuration.

use vstd::prelude::*;
use vstd::string::StringExecFns;

verus! {

/// Configuration of the optional language-model collaborator.
#[derive(Debug, Clone)]
pub struct LlmConfig {
    /// API endpoint URL, if configured.
    pub endpoint: Option<String>,
    /// Model name to use, if configured.
    pub model: Option<String>,
    /// API key, if required.
    pub api_key: Option<String>,
    /// Maximum tokens for a response.
    pub max_tokens: usize,
    /// Sampling temperature, in millionths.
    pub temperature: i64,
}

impl Default for LlmConfig {
    /// The default collaborator configuration: nothing configured, the
    /// default token budget and temperature.
    fn default() -> (r: LlmConfig)
        ensures
            r.endpoint is None,
            r.model is None,
            r.api_key is None,
            r.max_tokens == 2048,
            r.temperature == 300_000,
    {
        LlmConfig {
            endpoint: None,
            model: None,
            api_key: None,
            max_tokens: default_max_tokens(),
            temperature: default_temperature(),
        }
    }
}

/// Configuration for a repository being analyzed.
#[derive(Debug, Clone)]
pub struct RepoConfig {
    /// Glob patterns for documentation files.
    pub doc_patterns: Vec<String>,
    /// Glob patterns for code files to analyze.
    pub code_patterns: Vec<String>,
    /// Glob patterns to ignore.
    pub ignore_patterns: Vec<String>,
    /// Languages to analyze.
    pub languages: Vec<String>,
    /// Similarity threshold for drift detection, in millionths.
    pub similarity_threshold: i64,
    /// Number of nearest doc chunks to consider.
    pub top_k: usize,
    /// Language-model collaborator configuration.
    pub llm: LlmConfig,
}

/// The default glob patterns for documentation files.
pub fn default_doc_patterns() -> (r: Vec<String>)
    ensures
        r.deep_view() =~= seq![
            "*.md"@,
            "*.mdx"@,
            "*.rst"@,
            "docs/**/*"@,
            "README*"@,
            "CHANGELOG*"@,
        ],
{
    let mut v: Vec<String> = Vec::new();
    v.push(String::from_str("*.md"));
    v.push(String::from_str("*.mdx"));
    v.push(String::from_str("*.rst"));
    v.push(String::from_str("docs/**/*"));
    v.push(String::from_str("README*"));
    v.push(String::from_str("CHANGELOG*"));
    proof {
        assert(v.deep_view() =~= seq![
            "*.md"@,
            "*.mdx"@,
            "*.rst"@,
            "docs/**/*"@,
            "README*"@,
            "CHANGELOG*"@,
        ]);
    }
    v
}

/// The default glob patterns for code files.
pub fn default_code_patterns() -> (r: Vec<String>)
    ensures
        r.deep_view() =~= seq![
            "*.rs"@,
            "*.py"@,
            "src/**/*.rs"@,
            "src/**/*.py"@,
            "lib/**/*.rs"@,
            "lib/**/*.py"@,
        ],
{
    let mut v: Vec<String> = Vec::new();
    v.push(String::from_str("*.rs"));
    v.push(String::from_str("*.py"));
    v.push(String::from_str("src/**/*.rs"));
    v.push(String::from_str("src/**/*.py"));
    v.push(String::from_str("lib/**/*.rs"));
    v.push(String::from_str("lib/**/*.py"));
    proof {
        assert(v.deep_view() =~= seq![
            "*.rs"@,
            "*.py"@,
            "src/**/*.rs"@,
            "src/**/*.py"@,
            "lib/**/*.rs"@,
            "lib/**/*.py"@,
        ]);
    }
    v
}

/// The default glob patterns to ignore.
pub fn default_ignore_patterns() -> (r: Vec<String>)
    ensures
        r.deep_view() =~= seq![
            "target/**"@,
            "node_modules/**"@,
            ".git/**"@,
            ".docsentinel/**"@,
            "*.lock"@,
            "*.min.js"@,
        ],
{
    let mut v: Vec<String> = Vec::new();
    v.push(String::from_str("target/**"));
    v.push(String::from_str("node_modules/**"));
    v.push(String::from_str(".git/**"));
    v.push(String::from_str(".docsentinel/**"));
    v.push(String::from_str("*.lock"));
    v.push(String::from_str("*.min.js"));
    proof {
        assert(v.deep_view() =~= seq![
            "target/**"@,
            "node_modules/**"@,
            ".git/**"@,
            ".docsentinel/**"@,
            "*.lock"@,
            "*.min.js"@,
        ]);
    }
    v
}

/// The default languages to analyze.
pub fn default_languages() -> (r: Vec<String>)
    ensures
        r.deep_view() =~= seq!["rust"@, "python"@],
{
    let mut v: Vec<String> = Vec::new();
    v.push(String::from_str("rust"));
    v.push(String::from_str("python"));
    proof {
        assert(v.deep_view() =~= seq!["rust"@, "python"@]);
    }
    v
}

/// The default similarity threshold, 0.7 in millionths.
pub fn default_similarity_threshold() -> (r: i64)
    ensures
        r == 700_000,
{
    700_000
}

/// The default number of nearest doc chunks to consider.
pub fn default_top_k() -> (r: usize)
    ensures
        r == 5,
{
    5
}

/// The default token budget for a response.
pub fn default_max_tokens() -> (r: usize)
    ensures
        r == 2048,
{
    2048
}

/// The default sampling temperature, 0.3 in millionths.
pub fn default_temperature() -> (r: i64)
    ensures
        r == 300_000,
{
    300_000
}

/// Whether some pattern of the list matches the path.
pub open spec fn matches_any(patterns: Seq<Seq<char>>, path: Seq<char>) -> bool {
    exists|i: int|
        0 <= i < patterns.len() && crate::repo::glob_match_simple_of(#[trigger] patterns[i], path)
}

impl RepoConfig {
    /// Whether a path should be ignored.
    pub fn should_ignore(&self, path: &str) -> (r: bool)
        ensures
            r == matches_any(self.ignore_patterns.deep_view(), path@),
    {
        matches_any_exec(&self.ignore_patterns, path)
    }

    /// Whether a path is a documentation file.
    pub fn is_doc_file(&self, path: &str) -> (r: bool)
        ensures
            r == matches_any(self.doc_patterns.deep_view(), path@),
    {
        matches_any_exec(&self.doc_patterns, path)
    }

    /// Whether a path is a code file.
    pub fn is_code_file(&self, path: &str) -> (r: bool)
        ensures
            r == matches_any(self.code_patterns.deep_view(), path@),
    {
        matches_any_exec(&self.code_patterns, path)
    }
}

impl Default for RepoConfig {
    /// The default repository configuration.
    fn default() -> (r: RepoConfig)
        ensures
            r.doc_patterns.deep_view().len() == 6,
            r.code_patterns.deep_view().len() == 6,
            r.ignore_patterns.deep_view().len() == 6,
            r.languages.deep_view().len() == 2,
            r.similarity_threshold == 700_000,
            r.top_k == 5,
    {
        RepoConfig {
            doc_patterns: default_doc_patterns(),
            code_patterns: default_code_patterns(),
            ignore_patterns: default_ignore_patterns(),
            languages: default_languages(),
            similarity_threshold: default_similarity_threshold(),
            top_k: default_top_k(),
            llm: LlmConfig::default(),
        }
    }
}

/// Whether some pattern of the list matches the path.
fn matches_any_exec(patterns: &Vec<String>, path: &str) -> (r: bool)
    ensures
        r == matches_any(patterns.deep_view(), path@),
{
    let mut i: usize = 0;
    while i < patterns.len()
        invariant
            0 <= i <= patterns@.len(),
            forall|t: int|
                0 <= t < i ==> !crate::repo::glob_match_simple_of(
                    #[trigger] patterns.deep_view()[t],
                    path@,
                ),
        decreases patterns@.len() - i,
    {
        if crate::repo::glob_match_simple(patterns[i].as_str(), path) {
            proof {
                assert(patterns.deep_view()[i as int] == patterns@[i as int]@);
            }
            return true;
        }
        proof {
            assert(patterns.deep_view()[i as int] == patterns@[i as int]@);
        }
        i = i + 1;
    }
    false
}

} // verus!
