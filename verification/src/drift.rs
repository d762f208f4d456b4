//! Drift detection: events, rules and the detection engine.
//!
//! Drift is an inconsistency between a code chunk and the documentation that
//! describes it. Hard rules flag definite, structural drift; soft rules flag
//! possible, heuristic drift; the detector correlates chunks through
//! embedding similarity, runs the rules, and deduplicates the event stream.

pub mod detector;
pub mod embedding;
pub mod rules;
pub mod similarity;

use vstd::prelude::*;
use vstd::string::StringExecFns;

verus! {

/// One unit on the fixed-point scale this crate uses for similarity scores
/// and confidence values: one millionth. A score of 1.0 is `SCORE_ONE`.
pub const SCORE_ONE: i64 = 1_000_000;

/// Severity level of a drift event, `Low` the least severe and `Critical`
/// the most severe.
#[derive(Debug, Clone, Copy, PartialEq, Eq, Hash, Structural)]
pub enum DriftSeverity {
    /// Critical: public API changed without doc update.
    Critical,
    /// High: function signature changed.
    High,
    /// Medium: behavioral change detected.
    Medium,
    /// Low: minor inconsistency.
    Low,
}

/// The total order of severities: Low < Medium < High < Critical.
pub open spec fn severity_rank(s: DriftSeverity) -> int {
    match s {
        DriftSeverity::Low => 0,
        DriftSeverity::Medium => 1,
        DriftSeverity::High => 2,
        DriftSeverity::Critical => 3,
    }
}

/// The written name of a severity.
pub open spec fn severity_label(s: DriftSeverity) -> Seq<char> {
    match s {
        DriftSeverity::Critical => "CRITICAL"@,
        DriftSeverity::High => "HIGH"@,
        DriftSeverity::Medium => "MEDIUM"@,
        DriftSeverity::Low => "LOW"@,
    }
}

impl DriftSeverity {
    /// Where this severity stands in the total order
    /// Low < Medium < High < Critical.
    pub fn rank(&self) -> (r: u8)
        ensures
            r as int == severity_rank(*self),
    {
        match self {
            DriftSeverity::Low => 0,
            DriftSeverity::Medium => 1,
            DriftSeverity::High => 2,
            DriftSeverity::Critical => 3,
        }
    }

    /// The written name of this severity.
    pub fn label(&self) -> (r: String)
        ensures
            r@ == severity_label(*self),
    {
        match self {
            DriftSeverity::Critical => String::from_str("CRITICAL"),
            DriftSeverity::High => String::from_str("HIGH"),
            DriftSeverity::Medium => String::from_str("MEDIUM"),
            DriftSeverity::Low => String::from_str("LOW"),
        }
    }
}

/// Status of a drift event. The core only ever creates events in the
/// `Pending` state; the transitions out of it are driven externally.
#[derive(Debug, Clone, Copy, PartialEq, Eq, Structural)]
pub enum DriftStatus {
    /// Pending review.
    Pending,
    /// Fix accepted.
    Accepted,
    /// Ignored by user.
    Ignored,
    /// Fixed and committed.
    Fixed,
}

/// The written name of a status.
pub open spec fn status_label(s: DriftStatus) -> Seq<char> {
    match s {
        DriftStatus::Pending => "Pending"@,
        DriftStatus::Accepted => "Accepted"@,
        DriftStatus::Ignored => "Ignored"@,
        DriftStatus::Fixed => "Fixed"@,
    }
}

impl DriftStatus {
    /// The written name of this status.
    pub fn label(&self) -> (r: String)
        ensures
            r@ == status_label(*self),
    {
        match self {
            DriftStatus::Pending => String::from_str("Pending"),
            DriftStatus::Accepted => String::from_str("Accepted"),
            DriftStatus::Ignored => String::from_str("Ignored"),
            DriftStatus::Fixed => String::from_str("Fixed"),
        }
    }
}

/// A detected drift event.
#[derive(Debug, Clone)]
pub struct DriftEvent {
    /// Unique identifier.
    pub id: String,
    /// Severity level.
    pub severity: DriftSeverity,
    /// Human-readable description.
    pub description: String,
    /// Evidence supporting the drift detection.
    pub evidence: String,
    /// Confidence score in millionths, 0 through `SCORE_ONE`.
    pub confidence: i64,
    /// Related code chunk identifiers.
    pub related_code_chunks: Vec<String>,
    /// Related doc chunk identifiers.
    pub related_doc_chunks: Vec<String>,
    /// Suggested fix, if available.
    pub suggested_fix: Option<String>,
    /// Current status.
    pub status: DriftStatus,
}

/// Relies on uuid::Uuid::new_v4 and its hyphenated rendering: a fresh random
/// identifier of 36 characters. Nothing more can be promised of a random
/// value.
#[verifier::external_body]
fn fresh_event_id() -> (r: String)
    ensures
        r@.len() == 36,
{
    uuid::Uuid::new_v4().to_string()
}

/// The fields a freshly created drift event carries: the given ones, no
/// related chunks, no suggested fix, and the `Pending` status.
pub open spec fn drift_event_fresh(
    e: DriftEvent,
    severity: DriftSeverity,
    description: Seq<char>,
    evidence: Seq<char>,
    confidence: i64,
) -> bool {
    &&& e.id@.len() == 36
    &&& e.severity == severity
    &&& e.description@ == description
    &&& e.evidence@ == evidence
    &&& e.confidence == confidence
    &&& e.related_code_chunks@.len() == 0
    &&& e.related_doc_chunks@.len() == 0
    &&& e.suggested_fix is None
    &&& e.status is Pending
}

impl DriftEvent {
    /// Create a new drift event in the `Pending` state, under a fresh
    /// identifier.
    pub fn new(
        severity: DriftSeverity,
        description: &str,
        evidence: &str,
        confidence: i64,
    ) -> (r: DriftEvent)
        ensures
            drift_event_fresh(r, severity, description@, evidence@, confidence),
    {
        DriftEvent {
            id: fresh_event_id(),
            severity,
            description: description.to_owned(),
            evidence: evidence.to_owned(),
            confidence,
            related_code_chunks: Vec::new(),
            related_doc_chunks: Vec::new(),
            suggested_fix: None,
            status: DriftStatus::Pending,
        }
    }

    /// Add a related code chunk.
    pub fn with_code_chunk(self, chunk_id: &str) -> (r: DriftEvent)
        ensures
            r.related_code_chunks.deep_view() == self.related_code_chunks.deep_view().push(
                chunk_id@,
            ),
            r.id == self.id,
            r.severity == self.severity,
            r.description == self.description,
            r.evidence == self.evidence,
            r.confidence == self.confidence,
            r.related_doc_chunks == self.related_doc_chunks,
            r.suggested_fix == self.suggested_fix,
            r.status == self.status,
    {
        let mut e = self;
        let ghost pre = e.related_code_chunks.deep_view();
        e.related_code_chunks.push(chunk_id.to_owned());
        proof {
            assert(e.related_code_chunks.deep_view() =~= pre.push(chunk_id@));
        }
        e
    }

    /// Add a related doc chunk.
    pub fn with_doc_chunk(self, chunk_id: &str) -> (r: DriftEvent)
        ensures
            r.related_doc_chunks.deep_view() == self.related_doc_chunks.deep_view().push(
                chunk_id@,
            ),
            r.id == self.id,
            r.severity == self.severity,
            r.description == self.description,
            r.evidence == self.evidence,
            r.confidence == self.confidence,
            r.related_code_chunks == self.related_code_chunks,
            r.suggested_fix == self.suggested_fix,
            r.status == self.status,
    {
        let mut e = self;
        let ghost pre = e.related_doc_chunks.deep_view();
        e.related_doc_chunks.push(chunk_id.to_owned());
        proof {
            assert(e.related_doc_chunks.deep_view() =~= pre.push(chunk_id@));
        }
        e
    }

    /// Set the suggested fix.
    pub fn with_suggested_fix(self, fix: &str) -> (r: DriftEvent)
        ensures
            r.suggested_fix matches Some(f) && f@ == fix@,
            r.id == self.id,
            r.severity == self.severity,
            r.description == self.description,
            r.evidence == self.evidence,
            r.confidence == self.confidence,
            r.related_code_chunks == self.related_code_chunks,
            r.related_doc_chunks == self.related_doc_chunks,
            r.status == self.status,
    {
        let mut e = self;
        e.suggested_fix = Some(fix.to_owned());
        e
    }
}

/// A score rendered to two decimal places, the magnitude rounded half up:
/// an optional minus sign, the integer part, a point, and two digits.
pub open spec fn score_2dp(s: int) -> Seq<char> {
    let m = ((if s < 0 {
        -s
    } else {
        s
    }) + 5000) / 10000;
    (if s < 0 {
        "-"@
    } else {
        Seq::<char>::empty()
    }) + crate::text::dec_of(m / 100) + "."@ + crate::text::dec_of((m % 100) / 10)
        + crate::text::dec_of((m % 100) % 10)
}

/// Render a score of the fixed-point scale to two decimal places.
pub fn format_score_2dp(s: i64) -> (r: String)
    requires
        -SCORE_ONE <= s <= SCORE_ONE,
    ensures
        r@ == score_2dp(s as int),
{
    let mag: i64 = if s < 0 {
        -s
    } else {
        s
    };
    let m: i64 = (mag + 5000) / 10000;
    let mut out = if s < 0 {
        String::from_str("-")
    } else {
        String::new()
    };
    out.append(crate::text::u64_to_string((m / 100) as u64).as_str());
    out.append(".");
    out.append(crate::text::u64_to_string((m % 100 / 10) as u64).as_str());
    out.append(crate::text::u64_to_string((m % 100 % 10) as u64).as_str());
    out
}

/// Result of comparing one code chunk with one doc chunk.
#[derive(Debug, Clone)]
pub struct SimilarityResult {
    /// Code chunk identifier.
    pub code_chunk_id: String,
    /// Doc chunk identifier.
    pub doc_chunk_id: String,
    /// Similarity score in millionths.
    pub similarity: i64,
    /// Previous similarity, if known.
    pub previous_similarity: Option<i64>,
}

impl SimilarityResult {
    /// Whether similarity dropped by more than the threshold since the
    /// previous measurement; false when no previous measurement is known.
    pub fn has_significant_drop(&self, threshold: i64) -> (r: bool)
        ensures
            r == match self.previous_similarity {
                Some(prev) => prev - self.similarity > threshold,
                None => false,
            },
    {
        match self.previous_similarity {
            Some(prev) => (prev as i128) - (self.similarity as i128) > threshold as i128,
            None => false,
        }
    }
}

} // verus!
