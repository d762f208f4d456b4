//! The data of the command-line surface: the commands and their arguments
//! as plain values, and what they decide without touching the system.
//! Parsing the process arguments and running the commands is the
//! command-line collaborator's work.

use vstd::prelude::*;
use vstd::string::StringExecFns;

verus! {

/// Output format for command results.
#[derive(Debug, Clone, Copy, PartialEq, Eq, Structural)]
pub enum OutputFormat {
    Text,
    Json,
}

/// Arguments for initialization.
#[derive(Debug, Clone)]
pub struct InitArgs {
    /// Force re-initialization.
    pub force: bool,
    /// Skip the initial scan.
    pub no_scan: bool,
    /// Quick mode, minimal output.
    pub quick: bool,
}

/// Arguments for scanning.
#[derive(Debug, Clone)]
pub struct ScanArgs {
    /// Scan all files, not just changed ones.
    pub full: bool,
    /// Commit range to scan.
    pub range: Option<String>,
    /// Include uncommitted changes.
    pub uncommitted: bool,
    /// Skip embedding generation.
    pub no_embeddings: bool,
    /// Use a language model for analysis.
    pub with_llm: bool,
}

/// Arguments for the status listing.
#[derive(Debug, Clone)]
pub struct StatusArgs {
    /// Show all issues, resolved ones included.
    pub all: bool,
    /// Filter by severity.
    pub severity: Option<String>,
    /// Show detailed information.
    pub detailed: bool,
}

/// Arguments for the terminal surface.
#[derive(Debug, Clone)]
pub struct TuiArgs {
    /// Start in a specific view.
    pub view: Option<String>,
}

/// Arguments for applying a fix.
#[derive(Debug, Clone)]
pub struct FixArgs {
    /// Issue identifier to fix.
    pub issue_id: String,
    /// Apply without confirmation.
    pub yes: bool,
    /// Custom fix content instead of the suggested one.
    pub content: Option<String>,
    /// Commit the fix automatically.
    pub commit: bool,
}

/// Arguments for ignoring an issue.
#[derive(Debug, Clone)]
pub struct IgnoreArgs {
    /// Issue identifier to ignore.
    pub issue_id: String,
    /// Reason for ignoring.
    pub reason: Option<String>,
    /// Ignore permanently.
    pub permanent: bool,
}

/// Arguments for managing hooks.
#[derive(Debug, Clone)]
pub struct HooksArgs {
    /// Install hooks.
    pub install: bool,
    /// Uninstall hooks.
    pub uninstall: bool,
    /// Show hook status.
    pub status: bool,
}

/// Arguments for watching.
#[derive(Debug, Clone)]
pub struct WatchArgs {
    /// Debounce interval in milliseconds.
    pub debounce: u64,
    /// Run in the background.
    pub background: bool,
}

/// Arguments for showing configuration.
#[derive(Debug, Clone)]
pub struct ConfigArgs {
    /// Show the current configuration.
    pub show: bool,
    /// Set a configuration value.
    pub set: Option<String>,
    /// Get a configuration value.
    pub get: Option<String>,
    /// Reset to defaults.
    pub reset: bool,
}

/// Arguments for analyzing one file or symbol.
#[derive(Debug, Clone)]
pub struct AnalyzeArgs {
    /// File or symbol to analyze.
    pub target: String,
    /// Show related documentation.
    pub docs: bool,
    /// Show embedding similarity scores.
    pub similarity: bool,
}

/// Arguments for generating documentation.
#[derive(Debug, Clone)]
pub struct GenerateArgs {
    /// Generate an overview document.
    pub readme: bool,
    /// Generate full documentation.
    pub docs: bool,
    /// Output file, standard output without one.
    pub output: Option<String>,
    /// Include private symbols.
    pub include_private: bool,
    /// Use a language model for descriptions.
    pub with_llm: bool,
}

/// The available commands.
#[derive(Debug, Clone)]
pub enum Commands {
    /// Initialize in a repository.
    Init(InitArgs),
    /// Scan the repository for documentation drift.
    Scan(ScanArgs),
    /// Show detected drift issues.
    Status(StatusArgs),
    /// Launch the interactive terminal surface.
    Tui(TuiArgs),
    /// Apply a suggested fix.
    Fix(FixArgs),
    /// Ignore a drift issue.
    Ignore(IgnoreArgs),
    /// Install repository hooks for automatic scanning.
    Hooks(HooksArgs),
    /// Watch for changes and scan automatically.
    Watch(WatchArgs),
    /// Show configuration.
    Config(ConfigArgs),
    /// Analyze a specific file or symbol.
    Analyze(AnalyzeArgs),
    /// Generate documentation from code.
    Generate(GenerateArgs),
}

/// The parsed command line.
#[derive(Debug, Clone)]
pub struct Cli {
    /// Path to the repository.
    pub path: String,
    /// Enable verbose output.
    pub verbose: bool,
    /// Output format.
    pub format: OutputFormat,
    /// The command to run.
    pub command: Commands,
}

/// What a project layout declares, from the presence of its marker files:
/// each recognised kind of project with whether its marker was found.
pub fn detect_project_type(
    has_cargo_manifest: bool,
    has_pyproject: bool,
    has_setup_py: bool,
    has_package_json: bool,
    has_docs_dir: bool,
    has_readme: bool,
) -> (r: Vec<(String, bool)>)
    ensures
        r@.len() == 5,
        r@[0].0@ == "Rust (Cargo.toml)"@ && r@[0].1 == has_cargo_manifest,
        r@[1].0@ == "Python (pyproject.toml/setup.py)"@ && r@[1].1 == (has_pyproject
            || has_setup_py),
        r@[2].0@ == "Node.js (package.json)"@ && r@[2].1 == has_package_json,
        r@[3].0@ == "Documentation (docs/)"@ && r@[3].1 == has_docs_dir,
        r@[4].0@ == "README"@ && r@[4].1 == has_readme,
{
    let mut v: Vec<(String, bool)> = Vec::new();
    v.push((String::from_str("Rust (Cargo.toml)"), has_cargo_manifest));
    v.push((String::from_str("Python (pyproject.toml/setup.py)"), has_pyproject || has_setup_py));
    v.push((String::from_str("Node.js (package.json)"), has_package_json));
    v.push((String::from_str("Documentation (docs/)"), has_docs_dir));
    v.push((String::from_str("README"), has_readme));
    v
}

/// Render overview documentation from code chunks: a fixed header, then one
/// section per file in order of first appearance, each chunk under its own
/// heading with its signature, its doc comment and its line span. Private
/// symbols stay out unless asked for.
pub fn generate_readme(
    chunks: &Vec<crate::extract::code::CodeChunk>,
    include_private: bool,
) -> (r: String)
    ensures
        crate::text::starts_with_seq(r@, "# API Documentation\n\n"@),
{
    let mut out = String::from_str("*Generated by DocSentinel*\n\n");
    // The files, in order of their first chunk.
    let mut files: Vec<String> = Vec::new();
    let mut i: usize = 0;
    while i < chunks.len()
        invariant
            0 <= i <= chunks@.len(),
        decreases chunks@.len() - i,
    {
        if include_private || chunks[i].is_public {
            if !crate::text::contains_string(&files, chunks[i].file_path.as_str()) {
                files.push(chunks[i].file_path.clone());
            }
        }
        i = i + 1;
    }
    let mut f: usize = 0;
    while f < files.len()
        invariant
            0 <= f <= files@.len(),
        decreases files@.len() - f,
    {
        let ghost pre = out@;
        out.append("## `");
        out.append(files[f].as_str());
        out.append("`\n\n");
        let mut k: usize = 0;
        while k < chunks.len()
            invariant
                0 <= k <= chunks@.len(),
                f < files@.len(),
            decreases chunks@.len() - k,
        {
            let c = &chunks[k];
            if (include_private || c.is_public) && crate::text::str_eq(
                c.file_path.as_str(),
                files[f].as_str(),
            ) {
                let ghost pre2 = out@;
                out.append("### ");
                if c.is_public {
                    out.append("pub ");
                }
                out.append(c.symbol_type.label().as_str());
                out.append(" `");
                out.append(c.symbol_name.as_str());
                out.append("`\n\n");
                match &c.signature {
                    Some(sig) => {
                        out.append("```rust\n");
                        out.append(sig.as_str());
                        out.append("\n```\n\n");
                    },
                    None => {},
                }
                match &c.doc_comment {
                    Some(doc) => {
                        out.append(doc.as_str());
                        out.append("\n\n");
                    },
                    None => {},
                }
                out.append("*Lines ");
                out.append(crate::text::usize_to_string(c.start_line).as_str());
                out.append("-");
                out.append(crate::text::usize_to_string(c.end_line).as_str());
                out.append("*\n\n");
            }
            k = k + 1;
        }
        f = f + 1;
    }
    let mut whole = String::from_str("# API Documentation\n\n");
    let ghost header = whole@;
    whole.append(out.as_str());
    proof {
        assert(whole@.subrange(0, header.len() as int) =~= header);
        assert(crate::text::occurs_at(whole@, "# API Documentation\n\n"@, 0));
    }
    whole
}

/// Render the full documentation from code chunks: the overview with
/// private symbols governed by the same switch.
pub fn generate_full_docs(
    chunks: &Vec<crate::extract::code::CodeChunk>,
    include_private: bool,
) -> (r: String)
    ensures
        crate::text::starts_with_seq(r@, "# API Documentation\n\n"@),
{
    generate_readme(chunks, include_private)
}

} // verus!
