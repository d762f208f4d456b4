//! Embeddings for semantic similarity.
//!
//! The providers that turn text into vectors are external collaborators;
//! what stands here is the deterministic stand-in used for tests, which
//! derives a vector from the content hash of the text alone.

use crate::extract::hash::sha256_hex_of;
use vstd::prelude::*;
use vstd::string::StrSliceExecFns;

verus! {

/// The fixed-point component a hash character yields: its scalar value,
/// capped at one byte, scaled onto the unit interval around zero.
pub open spec fn mock_component(c: char) -> i64 {
    let v = if c as u32 > 255 {
        255int
    } else {
        c as u32 as int
    };
    (v * 2_000_000 / 255 - 1_000_000) as i64
}

/// The deterministic mock embedding of a text: for each dimension, the
/// component of the hash character at that position, the hash repeated as
/// often as needed.
pub open spec fn mock_embedding_of(text: Seq<char>, dimension: int) -> Seq<i64> {
    Seq::new(dimension as nat, |i: int| mock_component(sha256_hex_of(text)[i % 64]))
}

/// A deterministic embedding provider for tests.
pub struct MockEmbedding {
    /// The dimension of the vectors it yields.
    pub dimension: usize,
}

impl MockEmbedding {
    /// Create a new mock embedding provider of the given dimension.
    pub fn new(dimension: usize) -> (r: MockEmbedding)
        ensures
            r.dimension == dimension,
    {
        MockEmbedding { dimension }
    }

    /// The dimension of the vectors this provider yields.
    pub fn dimension(&self) -> (r: usize)
        ensures
            r == self.dimension,
    {
        self.dimension
    }

    /// The deterministic embedding of one text, derived from its content
    /// hash: equal texts always receive equal vectors.
    pub fn embed_sync(&self, text: &str) -> (r: Vec<i64>)
        ensures
            r@ == mock_embedding_of(text@, self.dimension as int),
            crate::drift::similarity::embedding_wf(r@) || self.dimension > 0x80_0000,
    {
        let hash = crate::extract::hash::content_hash(text);
        let hn = hash.unicode_len();
        let mut out: Vec<i64> = Vec::new();
        let mut i: usize = 0;
        proof {
            assert(hn == 64);
        }
        while i < self.dimension
            invariant
                0 <= i <= self.dimension,
                hn == 64,
                hash@.len() == 64,
                hash@ == sha256_hex_of(text@),
                out@.len() == i,
                forall|t: int|
                    0 <= t < i ==> out@[t] == mock_component(sha256_hex_of(text@)[t % 64]),
                forall|t: int| 0 <= t < i ==> -1_000_000 <= #[trigger] out@[t] <= 1_000_000,
            decreases self.dimension - i,
        {
            let c = hash.as_str().get_char(i % 64);
            let v32 = c as u32;
            let v: i64 = if v32 > 255 {
                255
            } else {
                v32 as i64
            };
            let comp: i64 = v * 2_000_000 / 255 - 1_000_000;
            proof {
                assert(c == sha256_hex_of(text@)[i as int % 64]);
                vstd::arithmetic::div_mod::lemma_div_is_ordered(
                    v as int * 2_000_000,
                    255int * 2_000_000,
                    255int,
                );
                vstd::arithmetic::div_mod::lemma_div_pos_is_pos(v as int * 2_000_000, 255);
                vstd::arithmetic::div_mod::lemma_div_by_multiple(2_000_000, 255);
                assert(v as int * 2_000_000 <= 255 * 2_000_000) by (nonlinear_arith)
                    requires
                        0 <= v <= 255,
                ;
                assert((2_000_000int * 255) == (255int * 2_000_000));
            }
            out.push(comp);
            i = i + 1;
        }
        proof {
            assert(out@ =~= mock_embedding_of(text@, self.dimension as int));
        }
        out
    }

    /// The deterministic embeddings of a batch of texts, in order.
    pub fn embed_batch_sync(&self, texts: &Vec<String>) -> (r: Vec<Vec<i64>>)
        ensures
            r@.len() == texts@.len(),
            forall|t: int|
                0 <= t < r@.len() ==> (#[trigger] r@[t])@ == mock_embedding_of(
                    texts@[t]@,
                    self.dimension as int,
                ),
    {
        let mut out: Vec<Vec<i64>> = Vec::new();
        let mut i: usize = 0;
        while i < texts.len()
            invariant
                0 <= i <= texts@.len(),
                out@.len() == i,
                forall|t: int|
                    0 <= t < i ==> (#[trigger] out@[t])@ == mock_embedding_of(
                        texts@[t]@,
                        self.dimension as int,
                    ),
            decreases texts@.len() - i,
        {
            out.push(self.embed_sync(texts[i].as_str()));
            i = i + 1;
        }
        out
    }
}

} // verus!
