//! Prompt templates for model interactions.

use crate::drift::{severity_label, DriftEvent};
use crate::extract::code::{language_label, CodeChunk};
use crate::extract::doc::DocChunk;
use crate::text;
use vstd::prelude::*;
use vstd::string::StringExecFns;

verus! {

/// A percentage rendered without decimals, the magnitude rounded half up
/// from millionths.
pub open spec fn percent_of(c: int) -> Seq<char> {
    let m = ((if c < 0 {
        -c
    } else {
        c
    }) + 5000) / 10000;
    (if c < 0 {
        "-"@
    } else {
        Seq::<char>::empty()
    }) + text::dec_of(m)
}

/// Render a confidence of the fixed-point scale as a whole percentage.
pub fn format_percent(c: i64) -> (r: String)
    requires
        -1_000_000 <= c <= 1_000_000,
    ensures
        r@ == percent_of(c as int),
{
    let mag: i64 = if c < 0 {
        -c
    } else {
        c
    };
    let m: i64 = (mag + 5000) / 10000;
    let mut out = if c < 0 {
        String::from_str("-")
    } else {
        String::new()
    };
    out.append(text::u64_to_string(m as u64).as_str());
    out
}

/// The detailed context block describing one code chunk.
pub open spec fn detailed_code_part(heading: Seq<char>, c: CodeChunk) -> Seq<char> {
    heading + "**File:** `"@ + c.file_path@ + "`\n"@ + "**Symbol:** `"@ + c.symbol_name@ + "`\n"@
        + (match c.signature {
        Some(s) => "**Signature:** `"@ + s@ + "`\n"@,
        None => Seq::empty(),
    }) + (match c.doc_comment {
        Some(d) => "**Doc Comment:**\n```\n"@ + d@ + "\n```\n"@,
        None => Seq::empty(),
    }) + "\n**Code:**\n```"@ + language_label(c.language) + "\n"@ + c.content@ + "\n```\n\n"@
}

/// The whole analysis prompt: the system text, the event, the chunks, the
/// documentation section and the instructions.
pub open spec fn analysis_prompt_of(
    e: DriftEvent,
    old_code: Option<&CodeChunk>,
    new_code: Option<&CodeChunk>,
    doc: DocChunk,
) -> Seq<char> {
    "You are a documentation drift analyzer. Your task is to analyze potential inconsistencies between code and documentation.\n"@
        + "\n"@ + "## Context\n\n"@ + "**Drift Type:** "@ + severity_label(e.severity) + "\n"@
        + "**Description:** "@ + e.description@ + "\n"@ + "**Evidence:** "@ + e.evidence@ + "\n\n"@
        + (match old_code {
        Some(c) => detailed_code_part("### Previous Code\n\n"@, *c),
        None => Seq::empty(),
    }) + (match new_code {
        Some(c) => detailed_code_part("### Current Code\n\n"@, *c),
        None => Seq::empty(),
    }) + "### Documentation Section\n\n"@ + "**File:** `"@ + doc.file_path@ + "`\n"@
        + "**Section:** "@ + text::join_with_sep(doc.heading_path.deep_view(), " > "@) + "\n"@
        + "\n**Content:**\n```markdown\n"@ + doc.content@ + "\n```\n\n"@
        + "## Instructions\n\nRespond with a JSON object holding a summary, a reason, a suggested_fix and a confidence between 0.0 and 1.0. Respond ONLY with the JSON object, no additional text.\n"@
}

/// Prompt for analyzing drift.
pub struct AnalysisPrompt {}

impl AnalysisPrompt {
    /// Generate a prompt for drift analysis.
    pub fn generate(
        drift_event: &DriftEvent,
        old_code: Option<&CodeChunk>,
        new_code: Option<&CodeChunk>,
        doc_chunk: &DocChunk,
    ) -> (r: String)
        ensures
            r@ == analysis_prompt_of(*drift_event, old_code, new_code, *doc_chunk),
    {
        let mut p = String::from_str(
            "You are a documentation drift analyzer. Your task is to analyze potential inconsistencies between code and documentation.\n",
        );
        p.append("\n");
        p.append("## Context\n\n");
        p.append("**Drift Type:** ");
        p.append(drift_event.severity.label().as_str());
        p.append("\n");
        p.append("**Description:** ");
        p.append(drift_event.description.as_str());
        p.append("\n");
        p.append("**Evidence:** ");
        p.append(drift_event.evidence.as_str());
        p.append("\n\n");
        match old_code {
            Some(c) => {
                append_detailed_part(&mut p, "### Previous Code\n\n", c);
            },
            None => {},
        }
        match new_code {
            Some(c) => {
                append_detailed_part(&mut p, "### Current Code\n\n", c);
            },
            None => {},
        }
        p.append("### Documentation Section\n\n");
        p.append("**File:** `");
        p.append(doc_chunk.file_path.as_str());
        p.append("`\n");
        p.append("**Section:** ");
        p.append(doc_chunk.full_path().as_str());
        p.append("\n");
        p.append("\n**Content:**\n```markdown\n");
        p.append(doc_chunk.content.as_str());
        p.append("\n```\n\n");
        p.append(
            "## Instructions\n\nRespond with a JSON object holding a summary, a reason, a suggested_fix and a confidence between 0.0 and 1.0. Respond ONLY with the JSON object, no additional text.\n",
        );
        p
    }
}

/// Append the detailed context block of one code chunk.
#[verifier::rlimit(100)]
fn append_detailed_part(p: &mut String, heading: &str, c: &CodeChunk)
    ensures
        final(p)@ == old(p)@ + detailed_code_part(heading@, *c),
{
    p.append(heading);
    p.append("**File:** `");
    p.append(c.file_path.as_str());
    p.append("`\n");
    p.append("**Symbol:** `");
    p.append(c.symbol_name.as_str());
    p.append("`\n");
    match &c.signature {
        Some(s) => {
            p.append("**Signature:** `");
            p.append(s.as_str());
            p.append("`\n");
        },
        None => {},
    }
    match &c.doc_comment {
        Some(d) => {
            p.append("**Doc Comment:**\n```\n");
            p.append(d.as_str());
            p.append("\n```\n");
        },
        None => {},
    }
    p.append("\n**Code:**\n```");
    p.append(c.language.label().as_str());
    p.append("\n");
    p.append(c.content.as_str());
    p.append("\n```\n\n");
}

/// The whole fix prompt: the system text, the issue, the current code, the
/// documentation to update and the instructions.
pub open spec fn fix_prompt_of(e: DriftEvent, new_code: CodeChunk, doc: DocChunk) -> Seq<char> {
    "You are a technical documentation writer. Your task is to update documentation to accurately reflect code changes.\n"@
        + "\n"@ + "## Issue\n\n"@ + e.description@ + "\n\n"@ + "**Evidence:** "@ + e.evidence@
        + "\n\n"@ + "## Current Code\n\n"@ + "**Symbol:** `"@ + new_code.symbol_name@ + "`\n"@
        + (match new_code.signature {
        Some(s) => "**Signature:** `"@ + s@ + "`\n"@,
        None => Seq::empty(),
    }) + (match new_code.doc_comment {
        Some(d) => "**Doc Comment:**\n```\n"@ + d@ + "\n```\n"@,
        None => Seq::empty(),
    }) + "\n```"@ + language_label(new_code.language) + "\n"@ + new_code.content@ + "\n```\n\n"@
        + "## Documentation to Update\n\n"@ + "**Section:** "@ + text::join_with_sep(
        doc.heading_path.deep_view(),
        " > "@,
    ) + "\n\n"@ + "```markdown\n"@ + doc.content@ + "\n```\n\n"@
        + "## Instructions\n\nRewrite the documentation section to accurately reflect the current code. Respond with a JSON object holding updated_content, changes_made and notes. Respond ONLY with the JSON object, no additional text.\n"@
}

/// Prompt for generating fixes.
pub struct FixPrompt {}

impl FixPrompt {
    /// Generate a prompt for fix generation.
    pub fn generate(drift_event: &DriftEvent, new_code: &CodeChunk, doc_chunk: &DocChunk) -> (r:
        String)
        ensures
            r@ == fix_prompt_of(*drift_event, *new_code, *doc_chunk),
    {
        let mut p = String::from_str(
            "You are a technical documentation writer. Your task is to update documentation to accurately reflect code changes.\n",
        );
        p.append("\n");
        p.append("## Issue\n\n");
        p.append(drift_event.description.as_str());
        p.append("\n\n");
        p.append("**Evidence:** ");
        p.append(drift_event.evidence.as_str());
        p.append("\n\n");
        p.append("## Current Code\n\n");
        p.append("**Symbol:** `");
        p.append(new_code.symbol_name.as_str());
        p.append("`\n");
        match &new_code.signature {
            Some(s) => {
                p.append("**Signature:** `");
                p.append(s.as_str());
                p.append("`\n");
            },
            None => {},
        }
        match &new_code.doc_comment {
            Some(d) => {
                p.append("**Doc Comment:**\n```\n");
                p.append(d.as_str());
                p.append("\n```\n");
            },
            None => {},
        }
        p.append("\n```");
        p.append(new_code.language.label().as_str());
        p.append("\n");
        p.append(new_code.content.as_str());
        p.append("\n```\n\n");
        p.append("## Documentation to Update\n\n");
        p.append("**Section:** ");
        p.append(doc_chunk.full_path().as_str());
        p.append("\n\n");
        p.append("```markdown\n");
        p.append(doc_chunk.content.as_str());
        p.append("\n```\n\n");
        p.append(
            "## Instructions\n\nRewrite the documentation section to accurately reflect the current code. Respond with a JSON object holding updated_content, changes_made and notes. Respond ONLY with the JSON object, no additional text.\n",
        );
        p
    }
}

/// The plain-text explanation of an event, needing no model: the event's
/// texts, and the change the chunks show.
pub open spec fn simple_explanation_of(
    e: DriftEvent,
    old_code: Option<&CodeChunk>,
    new_code: Option<&CodeChunk>,
) -> Seq<char> {
    "## "@ + e.description@ + "\n\n"@ + "**Severity:** "@ + severity_label(e.severity) + "\n"@
        + "**Confidence:** "@ + percent_of(e.confidence as int) + "%\n\n"@ + "### Evidence\n\n"@
        + e.evidence@ + "\n\n"@ + (match (old_code, new_code) {
        (Some(o), Some(n)) => if !opt_views_eq(o.signature, n.signature) {
            "### Signature Change\n\n"@ + (match o.signature {
                Some(s) => "**Before:** `"@ + s@ + "`\n"@,
                None => Seq::empty(),
            }) + (match n.signature {
                Some(s) => "**After:** `"@ + s@ + "`\n"@,
                None => Seq::empty(),
            }) + "\n"@
        } else {
            Seq::empty()
        },
        (Some(_), None) => "### Removed Code\n\nThe code symbol has been removed from the codebase.\n\n"@,
        (None, Some(_)) => "### New Code\n\nThis is a new code symbol that may need documentation.\n\n"@,
        (None, None) => Seq::empty(),
    })
}

/// Whether two optional texts carry the same characters.
pub open spec fn opt_views_eq(a: Option<String>, b: Option<String>) -> bool {
    match (a, b) {
        (Some(x), Some(y)) => x@ == y@,
        (None, None) => true,
        _ => false,
    }
}

/// Generate a plain-text explanation of an event without a model.
pub fn generate_simple_explanation(
    drift_event: &DriftEvent,
    old_code: Option<&CodeChunk>,
    new_code: Option<&CodeChunk>,
) -> (r: String)
    requires
        -1_000_000 <= drift_event.confidence <= 1_000_000,
    ensures
        r@ == simple_explanation_of(*drift_event, old_code, new_code),
{
    let mut p = String::from_str("## ");
    p.append(drift_event.description.as_str());
    p.append("\n\n");
    p.append("**Severity:** ");
    p.append(drift_event.severity.label().as_str());
    p.append("\n");
    p.append("**Confidence:** ");
    p.append(format_percent(drift_event.confidence).as_str());
    p.append("%\n\n");
    p.append("### Evidence\n\n");
    p.append(drift_event.evidence.as_str());
    p.append("\n\n");
    match (old_code, new_code) {
        (Some(o), Some(n)) => {
            if !text::opt_str_eq(&o.signature, &n.signature) {
                p.append("### Signature Change\n\n");
                match &o.signature {
                    Some(s) => {
                        p.append("**Before:** `");
                        p.append(s.as_str());
                        p.append("`\n");
                    },
                    None => {},
                }
                match &n.signature {
                    Some(s) => {
                        p.append("**After:** `");
                        p.append(s.as_str());
                        p.append("`\n");
                    },
                    None => {},
                }
                p.append("\n");
            }
        },
        (Some(_), None) => {
            p.append("### Removed Code\n\nThe code symbol has been removed from the codebase.\n\n");
        },
        (None, Some(_)) => {
            p.append("### New Code\n\nThis is a new code symbol that may need documentation.\n\n");
        },
        (None, None) => {},
    }
    p
}

} // verus!
