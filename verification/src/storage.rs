//! Counts of what the storage collaborator holds. The store itself is
//! external; these are the plain values it reports.

use vstd::prelude::*;

verus! {

/// Counts of the records in the store.
#[derive(Debug, Clone, Copy, PartialEq, Eq, Structural)]
pub struct DatabaseStats {
    /// Stored code chunks.
    pub code_chunks: usize,
    /// Stored doc chunks.
    pub doc_chunks: usize,
    /// Stored drift events.
    pub drift_events: usize,
    /// Drift events still pending.
    pub pending_events: usize,
}

} // verus!
