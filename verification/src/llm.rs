//! Language-model-assisted analysis: structured prompt generation and the
//! rule-based fallbacks that need no model at all. The network client that
//! carries a prompt to a model is an external collaborator; this module
//! only builds and interprets plain text.

pub mod client;
pub mod prompts;

use crate::drift::{severity_label, DriftEvent};
use crate::extract::code::CodeChunk;
use crate::extract::doc::DocChunk;
use crate::text;
use vstd::prelude::*;
use vstd::string::StrSliceExecFns;
use vstd::string::StringExecFns;

verus! {

/// Analysis result decoded from a model's answer.
#[derive(Debug, Clone)]
pub struct AnalysisResult {
    /// Summary of the change.
    pub summary: String,
    /// Why the documentation is incorrect.
    pub reason: String,
    /// Suggested updated text, if any.
    pub suggested_fix: Option<String>,
    /// Confidence in the analysis, in millionths.
    pub confidence: i64,
}

/// A request for analysis: one drift event with its chunks.
#[derive(Debug, Clone)]
pub struct AnalysisRequest {
    /// The drift event to analyze.
    pub drift_event: DriftEvent,
    /// The old code chunk, if available.
    pub old_code: Option<CodeChunk>,
    /// The new code chunk, if available.
    pub new_code: Option<CodeChunk>,
    /// The related documentation chunk.
    pub doc_chunk: DocChunk,
}

/// The part of a request prompt describing one code chunk under a heading.
pub open spec fn code_part_of(heading: Seq<char>, c: CodeChunk) -> Seq<char> {
    heading + "Symbol: "@ + c.symbol_name@ + "\n"@ + (match c.signature {
        Some(s) => "Signature: "@ + s@ + "\n"@,
        None => Seq::empty(),
    }) + (match c.doc_comment {
        Some(d) => "Doc comment:\n"@ + d@ + "\n"@,
        None => Seq::empty(),
    }) + "```\n"@ + c.content@ + "\n```\n\n"@
}

/// The whole analysis prompt of a request.
pub open spec fn request_prompt_of(r: AnalysisRequest) -> Seq<char> {
    "You are analyzing a potential documentation drift issue.\n\n"@ + "## Drift Event\n"@
        + "Severity: "@ + severity_label(r.drift_event.severity) + "\n"@ + "Description: "@
        + r.drift_event.description@ + "\n"@ + "Evidence: "@ + r.drift_event.evidence@ + "\n\n"@
        + (match r.old_code {
        Some(c) => code_part_of("## Previous Code\n"@, c),
        None => Seq::empty(),
    }) + (match r.new_code {
        Some(c) => code_part_of("## Current Code\n"@, c),
        None => Seq::empty(),
    }) + "## Current Documentation\n"@ + "Section: "@ + text::join_with_sep(
        r.doc_chunk.heading_path.deep_view(),
        " > "@,
    ) + "\n"@ + "Content:\n"@ + r.doc_chunk.content@ + "\n\n"@ + "## Instructions\n"@
        + "Analyze this drift and respond with a JSON object containing:\n"@
        + "- summary: Brief summary of what changed\n"@
        + "- reason: Why the documentation is now incorrect\n"@
        + "- suggested_fix: The corrected documentation text (or null if no fix needed)\n"@
        + "- confidence: Your confidence in this analysis (0.0 to 1.0)\n\n"@
        + "Respond ONLY with valid JSON, no other text.\n"@
}

impl AnalysisRequest {
    /// Create a new analysis request.
    pub fn new(
        drift_event: DriftEvent,
        old_code: Option<CodeChunk>,
        new_code: Option<CodeChunk>,
        doc_chunk: DocChunk,
    ) -> (r: AnalysisRequest)
        ensures
            r.drift_event == drift_event,
            r.old_code == old_code,
            r.new_code == new_code,
            r.doc_chunk == doc_chunk,
    {
        AnalysisRequest { drift_event, old_code, new_code, doc_chunk }
    }

    /// Generate the prompt for this request.
    pub fn to_prompt(&self) -> (r: String)
        ensures
            r@ == request_prompt_of(*self),
    {
        let mut p = String::from_str("You are analyzing a potential documentation drift issue.\n\n");
        p.append("## Drift Event\n");
        p.append("Severity: ");
        p.append(self.drift_event.severity.label().as_str());
        p.append("\n");
        p.append("Description: ");
        p.append(self.drift_event.description.as_str());
        p.append("\n");
        p.append("Evidence: ");
        p.append(self.drift_event.evidence.as_str());
        p.append("\n\n");
        match &self.old_code {
            Some(c) => {
                append_code_part(&mut p, "## Previous Code\n", c);
            },
            None => {},
        }
        match &self.new_code {
            Some(c) => {
                append_code_part(&mut p, "## Current Code\n", c);
            },
            None => {},
        }
        p.append("## Current Documentation\n");
        p.append("Section: ");
        p.append(self.doc_chunk.full_path().as_str());
        p.append("\n");
        p.append("Content:\n");
        p.append(self.doc_chunk.content.as_str());
        p.append("\n\n");
        p.append("## Instructions\n");
        p.append("Analyze this drift and respond with a JSON object containing:\n");
        p.append("- summary: Brief summary of what changed\n");
        p.append("- reason: Why the documentation is now incorrect\n");
        p.append("- suggested_fix: The corrected documentation text (or null if no fix needed)\n");
        p.append("- confidence: Your confidence in this analysis (0.0 to 1.0)\n\n");
        p.append("Respond ONLY with valid JSON, no other text.\n");
        p
    }
}

/// Append the description of one code chunk under a heading.
#[verifier::rlimit(100)]
fn append_code_part(p: &mut String, heading: &str, c: &CodeChunk)
    ensures
        final(p)@ == old(p)@ + code_part_of(heading@, *c),
{
    p.append(heading);
    p.append("Symbol: ");
    p.append(c.symbol_name.as_str());
    p.append("\n");
    match &c.signature {
        Some(s) => {
            p.append("Signature: ");
            p.append(s.as_str());
            p.append("\n");
        },
        None => {},
    }
    match &c.doc_comment {
        Some(d) => {
            p.append("Doc comment:\n");
            p.append(d.as_str());
            p.append("\n");
        },
        None => {},
    }
    p.append("```\n");
    p.append(c.content.as_str());
    p.append("\n```\n\n");
}

/// The text every occurrence of `from` replaced by `to`, left to right,
/// non-overlapping; unchanged when `from` is empty.
pub open spec fn replace_all(s: Seq<char>, from: Seq<char>, to: Seq<char>) -> Seq<char>
    decreases s.len(),
{
    if from.len() == 0 {
        s
    } else {
        let f = text::find_sub(s, from);
        if text::occurs_at(s, from, f) && f + from.len() <= s.len() {
            s.subrange(0, f) + to + replace_all(
                s.subrange(f + from.len(), s.len() as int),
                from,
                to,
            )
        } else {
            s
        }
    }
}

/// Replace every occurrence of `from` in `s` by `to`.
pub fn replace_all_str(s: &str, from: &str, to: &str) -> (r: String)
    ensures
        r@ == replace_all(s@, from@, to@),
    decreases s@.len(),
{
    let n = s.unicode_len();
    let m = from.unicode_len();
    if m == 0 {
        return s.to_owned();
    }
    let f = text::find_sub_str(s, from);
    proof {
        text::lemma_find_sub_bounds(s@, from@);
    }
    if f >= n {
        proof {
            assert(!text::occurs_at(s@, from@, f as int));
        }
        return s.to_owned();
    }
    let mut out = s.substring_char(0, f).to_owned();
    out.append(to);
    let rest = s.substring_char(f + m, n);
    let tail = replace_all_str(rest, from, to);
    out.append(tail.as_str());
    out
}

/// A fix suggestion needing no model: for a removed function, the section
/// prefixed with a warning; for a changed signature, the section with the
/// old signature textually replaced; nothing otherwise, or when the
/// replacement changes nothing.
pub open spec fn simple_fix_of(
    old_code: Option<&CodeChunk>,
    new_code: Option<&CodeChunk>,
    doc: DocChunk,
) -> Option<Seq<char>> {
    match (old_code, new_code) {
        (Some(o), None) => Some(
            "<!-- WARNING: The function '"@ + o.symbol_name@
                + "' has been removed. This documentation section may need to be updated or removed. -->\n\n"@
                + doc.content@,
        ),
        (Some(o), Some(n)) => match (o.signature, n.signature) {
            (Some(os), Some(ns)) => if os@ != ns@ {
                let updated = replace_all(doc.content@, os@, ns@);
                if updated != doc.content@ {
                    Some(updated)
                } else {
                    None
                }
            } else {
                None
            },
            _ => None,
        },
        _ => None,
    }
}

/// Generate a fix suggestion without a model, from the change alone.
pub fn generate_simple_fix(
    old_code: Option<&CodeChunk>,
    new_code: Option<&CodeChunk>,
    doc_chunk: &DocChunk,
) -> (r: Option<String>)
    ensures
        match (r, simple_fix_of(old_code, new_code, *doc_chunk)) {
            (Some(a), Some(b)) => a@ == b,
            (None, None) => true,
            _ => false,
        },
{
    match (old_code, new_code) {
        (Some(o), None) => {
            let mut fix = String::from_str("<!-- WARNING: The function '");
            fix.append(o.symbol_name.as_str());
            fix.append(
                "' has been removed. This documentation section may need to be updated or removed. -->\n\n",
            );
            fix.append(doc_chunk.content.as_str());
            Some(fix)
        },
        (Some(o), Some(n)) => {
            match (&o.signature, &n.signature) {
                (Some(os), Some(ns)) => {
                    if text::str_eq(os.as_str(), ns.as_str()) {
                        return None;
                    }
                    let updated = replace_all_str(doc_chunk.content.as_str(), os.as_str(), ns.as_str());
                    if text::str_eq(updated.as_str(), doc_chunk.content.as_str()) {
                        None
                    } else {
                        Some(updated)
                    }
                },
                _ => None,
            }
        },
        _ => None,
    }
}

} // verus!
