//! The drift detection engine.
//!
//! For each changed code or doc unit the detector finds related chunks
//! through embedding similarity, runs every enabled rule, collects
//! similarity-threshold violations, and deduplicates the combined result.

use crate::drift::rules::{HardDriftRules, SoftDriftRules};
use crate::drift::similarity::{cosine_of, cosine_similarity, embedding_wf, find_top_k};
use crate::drift::{DriftEvent, DriftSeverity, SimilarityResult};
use crate::extract::code::{same_code_chunk, CodeChunk};
use crate::extract::doc::{same_doc_chunk, DocChunk};
use vstd::prelude::*;

verus! {

/// Configuration for drift detection.
#[derive(Debug, Clone)]
pub struct DriftConfig {
    /// Similarity score below which drift is suspected, in millionths.
    pub similarity_threshold: i64,
    /// Threshold for a significant similarity drop, in millionths.
    pub drop_threshold: i64,
    /// Number of nearest chunks to consider.
    pub top_k: usize,
    /// Whether to use hard rules.
    pub use_hard_rules: bool,
    /// Whether to use soft rules.
    pub use_soft_rules: bool,
}

impl Default for DriftConfig {
    /// The default configuration: a similarity threshold of 0.7, a drop
    /// threshold of 0.2, five nearest chunks, every rule enabled.
    fn default() -> (r: DriftConfig)
        ensures
            r.similarity_threshold == 700_000,
            r.drop_threshold == 200_000,
            r.top_k == 5,
            r.use_hard_rules,
            r.use_soft_rules,
    {
        DriftConfig {
            similarity_threshold: 700_000,
            drop_threshold: 200_000,
            top_k: 5,
            use_hard_rules: true,
            use_soft_rules: true,
        }
    }
}

/// The similarity of a code embedding to a doc chunk: zero when the chunk
/// carries no embedding.
pub open spec fn doc_sim(ce: Seq<i64>, d: DocChunk) -> int {
    match d.embedding {
        Some(e) => cosine_of(ce, e@),
        None => 0,
    }
}

/// The similarity of a doc embedding to a code chunk: zero when the chunk
/// carries no embedding.
pub open spec fn code_sim(de: Seq<i64>, c: CodeChunk) -> int {
    match c.embedding {
        Some(e) => cosine_of(de, e@),
        None => 0,
    }
}

/// Every embedding among the doc chunks is well-formed.
pub open spec fn doc_embeddings_wf(docs: Seq<DocChunk>) -> bool {
    forall|j: int|
        0 <= j < docs.len() ==> match (#[trigger] docs[j]).embedding {
            Some(e) => embedding_wf(e@),
            None => true,
        }
}

/// Every embedding among the code chunks is well-formed.
pub open spec fn code_embeddings_wf(chunks: Seq<CodeChunk>) -> bool {
    forall|j: int|
        0 <= j < chunks.len() ==> match (#[trigger] chunks[j]).embedding {
            Some(e) => embedding_wf(e@),
            None => true,
        }
}

/// The ranked candidates of a code embedding against the doc chunks from
/// position `j` on: one (position, similarity) pair per chunk carrying an
/// embedding, in input order.
pub open spec fn doc_cands_of(ce: Seq<i64>, docs: Seq<DocChunk>, j: int) -> Seq<(int, int)>
    decreases docs.len() - j,
{
    if !(0 <= j < docs.len()) {
        Seq::empty()
    } else {
        (if docs[j].embedding is Some {
            seq![(j, doc_sim(ce, docs[j]))]
        } else {
            Seq::<(int, int)>::empty()
        }) + doc_cands_of(ce, docs, j + 1)
    }
}

/// The ranked candidates of a doc embedding against the code chunks from
/// position `j` on.
pub open spec fn code_cands_of(de: Seq<i64>, codes: Seq<CodeChunk>, j: int) -> Seq<(int, int)>
    decreases codes.len() - j,
{
    if !(0 <= j < codes.len()) {
        Seq::empty()
    } else {
        (if codes[j].embedding is Some {
            seq![(j, code_sim(de, codes[j]))]
        } else {
            Seq::<(int, int)>::empty()
        }) + code_cands_of(de, codes, j + 1)
    }
}

/// One ranked candidate stands strictly above another: a greater
/// similarity, or an equal similarity at an earlier input position.
pub open spec fn pair_ranks_above(p: (int, int), q: (int, int)) -> bool {
    p.1 > q.1 || (p.1 == q.1 && p.0 < q.0)
}

/// What selecting the top `k` of ranked candidates means: at most `k`
/// candidates at or above the floor, strictly ranked — so ties keep input
/// order — complete below `k`, and dominating everything left out. These
/// conditions determine the selection uniquely.
pub open spec fn top_selection(
    cands: Seq<(int, int)>,
    k: int,
    threshold: int,
    sel: Seq<(int, int)>,
) -> bool {
    &&& sel.len() <= k
    &&& forall|t: int| 0 <= t < sel.len() ==> cands.contains(#[trigger] sel[t]) && sel[t].1 >= threshold
    &&& forall|t1: int, t2: int|
        0 <= t1 < t2 < sel.len() ==> pair_ranks_above(#[trigger] sel[t1], #[trigger] sel[t2])
    &&& (sel.len() < k ==> forall|p: (int, int)|
        cands.contains(p) && p.1 >= threshold ==> sel.contains(p))
    &&& forall|p: (int, int)|
        cands.contains(p) && p.1 >= threshold && !sel.contains(p) ==> forall|t: int|
            0 <= t < sel.len() ==> pair_ranks_above(#[trigger] sel[t], p)
}

/// Whether `r` is exactly the ranked selection of the doc candidates: some
/// (uniquely determined) top selection maps position by position onto it.
/// Opaque, so that callers carry it at no cost; reveal it to use it.
#[verifier::opaque]
pub open spec fn doc_ranked_selection(
    r: Seq<DocChunk>,
    ce: Seq<i64>,
    docs: Seq<DocChunk>,
    k: int,
    threshold: int,
) -> bool {
    exists|s: Seq<(int, int)>|
        #[trigger] top_selection(doc_cands_of(ce, docs, 0), k, threshold, s) && r.len() == s.len()
            && forall|t: int|
            0 <= t < r.len() ==> 0 <= s[t].0 < docs.len() && same_doc_chunk(
                #[trigger] r[t],
                docs[s[t].0],
            )
}

/// Whether `r` is exactly the ranked selection of the code candidates.
/// Opaque, so that callers carry it at no cost; reveal it to use it.
#[verifier::opaque]
pub open spec fn code_ranked_selection(
    r: Seq<CodeChunk>,
    de: Seq<i64>,
    codes: Seq<CodeChunk>,
    k: int,
    threshold: int,
) -> bool {
    exists|s: Seq<(int, int)>|
        #[trigger] top_selection(code_cands_of(de, codes, 0), k, threshold, s) && r.len()
            == s.len() && forall|t: int|
            0 <= t < r.len() ==> 0 <= s[t].0 < codes.len() && same_code_chunk(
                #[trigger] r[t],
                codes[s[t].0],
            )
}

/// The ranked pairs as the selection specs carry them.
pub open spec fn pairs_view(cands: Seq<(usize, i64)>) -> Seq<(int, int)> {
    cands.map_values(|p: (usize, i64)| (p.0 as int, p.1 as int))
}

/// Whether `c` carries the same values as one of the chunks in `candidates`.
pub open spec fn doc_among(candidates: Seq<DocChunk>, c: DocChunk) -> bool {
    exists|j: int| 0 <= j < candidates.len() && same_doc_chunk(c, #[trigger] candidates[j])
}

/// Whether `c` carries the same values as one of the chunks in `candidates`.
pub open spec fn code_among(candidates: Seq<CodeChunk>, c: CodeChunk) -> bool {
    exists|j: int| 0 <= j < candidates.len() && same_code_chunk(c, #[trigger] candidates[j])
}

/// The main drift detection engine.
pub struct DriftDetector {
    /// The active configuration.
    pub config: DriftConfig,
    /// The hard rules, in their fixed order.
    pub hard_rules: HardDriftRules,
    /// The soft rules, in their fixed order.
    pub soft_rules: SoftDriftRules,
}

impl DriftDetector {
    /// Create a new drift detector with the default configuration.
    pub fn new() -> (r: DriftDetector)
        ensures
            r.config.similarity_threshold == 700_000,
            r.config.drop_threshold == 200_000,
            r.config.top_k == 5,
            r.config.use_hard_rules,
            r.config.use_soft_rules,
    {
        DriftDetector {
            config: DriftConfig::default(),
            hard_rules: HardDriftRules::new(),
            soft_rules: SoftDriftRules::new(),
        }
    }

    /// Create a drift detector with the given configuration.
    pub fn with_config(config: DriftConfig) -> (r: DriftDetector)
        ensures
            r.config == config,
    {
        DriftDetector { config, hard_rules: HardDriftRules::new(), soft_rules: SoftDriftRules::new() }
    }

    /// Find the doc chunks related to a code chunk: of the candidates that
    /// carry embeddings, the `top_k` most similar, ranked by descending
    /// similarity, any below the similarity threshold dropped.
    pub fn find_related_docs(&self, code_chunk: &CodeChunk, doc_chunks: &Vec<DocChunk>) -> (r: Vec<
        DocChunk,
    >)
        requires
            match code_chunk.embedding {
                Some(e) => embedding_wf(e@),
                None => true,
            },
            doc_embeddings_wf(doc_chunks@),
        ensures
            match code_chunk.embedding {
                Some(ce) => {
                    &&& r@.len() <= self.config.top_k
                    &&& forall|i: int| 0 <= i < r@.len() ==> doc_among(doc_chunks@, #[trigger] r@[i])
                    &&& forall|i: int|
                        0 <= i < r@.len() ==> (#[trigger] r@[i]).embedding is Some && doc_sim(
                            ce@,
                            r@[i],
                        ) >= self.config.similarity_threshold
                    &&& forall|i1: int, i2: int|
                        0 <= i1 < i2 < r@.len() ==> doc_sim(ce@, #[trigger] r@[i1]) >= doc_sim(
                            ce@,
                            #[trigger] r@[i2],
                        )
                    &&& forall|j: int|
                        0 <= j < doc_chunks@.len() && (#[trigger] doc_chunks@[j]).embedding is Some
                            && doc_sim(ce@, doc_chunks@[j]) >= self.config.similarity_threshold
                            ==> doc_among(r@, doc_chunks@[j]) || (r@.len() == self.config.top_k
                            && forall|i: int|
                            0 <= i < r@.len() ==> doc_sim(ce@, #[trigger] r@[i]) >= doc_sim(
                                ce@,
                                doc_chunks@[j],
                            ))
                    &&& doc_ranked_selection(
                        r@,
                        ce@,
                        doc_chunks@,
                        self.config.top_k as int,
                        self.config.similarity_threshold as int,
                    )
                },
                None => r@.len() == 0,
            },
    {
        let ce = match &code_chunk.embedding {
            Some(e) => e,
            None => {
                return Vec::new();
            },
        };
        let n = doc_chunks.len();
        let mut cands: Vec<(usize, i64)> = Vec::new();
        let mut j: usize = 0;
        while j < n
            invariant
                0 <= j <= n,
                n == doc_chunks@.len(),
                ce@ == code_chunk.embedding.unwrap()@,
                embedding_wf(ce@),
                doc_embeddings_wf(doc_chunks@),
                forall|t: int, u: int|
                    0 <= t < u < cands@.len() ==> (#[trigger] cands@[t]).0 < (
                    #[trigger] cands@[u]).0,
                forall|t: int|
                    0 <= t < cands@.len() ==> (#[trigger] cands@[t]).0 < j && doc_chunks@[cands@[t].0 as int].embedding is Some
                        && cands@[t].1 as int == doc_sim(ce@, doc_chunks@[cands@[t].0 as int]),
                forall|p: int|
                    0 <= p < j && (#[trigger] doc_chunks@[p]).embedding is Some ==> exists|t: int|
                        0 <= t < cands@.len() && (#[trigger] cands@[t]).0 == p,
                doc_cands_of(ce@, doc_chunks@, 0) == pairs_view(cands@) + doc_cands_of(
                    ce@,
                    doc_chunks@,
                    j as int,
                ),
            decreases n - j,
        {
            let ghost tail = doc_cands_of(ce@, doc_chunks@, j as int);
            match &doc_chunks[j].embedding {
                Some(de) => {
                    let s = cosine_similarity(ce, de);
                    let ghost pre = cands@;
                    cands.push((j, s));
                    proof {
                        assert forall|p: int|
                            0 <= p < j + 1 && (#[trigger] doc_chunks@[p]).embedding
                                is Some implies exists|t: int|
                            0 <= t < cands@.len() && (#[trigger] cands@[t]).0 == p by {
                            if p < j {
                                let t = choose|t: int|
                                    0 <= t < pre.len() && (#[trigger] pre[t]).0 == p;
                                assert(cands@[t].0 == p);
                            } else {
                                assert(cands@[cands@.len() - 1].0 == p);
                            }
                        }
                        assert(tail == seq![(j as int, doc_sim(ce@, doc_chunks@[j as int]))]
                            + doc_cands_of(ce@, doc_chunks@, j as int + 1));
                        assert(pairs_view(cands@) =~= pairs_view(pre).push(
                            (j as int, s as int),
                        ));
                        assert(doc_cands_of(ce@, doc_chunks@, 0) =~= pairs_view(cands@)
                            + doc_cands_of(ce@, doc_chunks@, j as int + 1));
                    }
                },
                None => {
                    proof {
                        assert(tail =~= doc_cands_of(ce@, doc_chunks@, j as int + 1));
                    }
                },
            }
            j = j + 1;
        }
        proof {
            assert(doc_cands_of(ce@, doc_chunks@, n as int) =~= Seq::<(int, int)>::empty());
            assert(doc_cands_of(ce@, doc_chunks@, 0) =~= pairs_view(cands@));
        }
        let sel = find_top_k(&cands, self.config.top_k, self.config.similarity_threshold);
        let mut out: Vec<DocChunk> = Vec::new();
        let mut i: usize = 0;
        while i < sel.len()
            invariant
                n == doc_chunks@.len(),
                0 <= i <= sel@.len(),
                out@.len() == i,
                ce@ == code_chunk.embedding.unwrap()@,
                forall|t: int|
                    0 <= t < sel@.len() ==> (#[trigger] sel@[t]).0 < n && doc_chunks@[sel@[t].0 as int].embedding is Some
                        && sel@[t].1 as int == doc_sim(ce@, doc_chunks@[sel@[t].0 as int]),
                forall|t: int|
                    0 <= t < i ==> same_doc_chunk(
                        #[trigger] out@[t],
                        doc_chunks@[sel@[t].0 as int],
                    ),
            decreases sel@.len() - i,
        {
            let idx = sel[i].0;
            out.push(doc_chunks[idx].clone());
            i = i + 1;
        }
        proof {
            let thr = self.config.similarity_threshold as int;
            // Selected pairs carry candidate indices with their similarity.
            assert forall|t: int| 0 <= t < sel@.len() implies (#[trigger] sel@[t]).0 < n
                && doc_chunks@[sel@[t].0 as int].embedding is Some && sel@[t].1 as int == doc_sim(
                ce@,
                doc_chunks@[sel@[t].0 as int],
            ) by {
                assert(cands@.contains(sel@[t]));
                let w = choose|w: int| 0 <= w < cands@.len() && cands@[w] == sel@[t];
            }
            // Membership of the result.
            assert forall|i0: int| 0 <= i0 < out@.len() implies doc_among(
                doc_chunks@,
                #[trigger] out@[i0],
            ) by {
                let w = sel@[i0].0 as int;
                assert(0 <= w < doc_chunks@.len());
                assert(same_doc_chunk(out@[i0], doc_chunks@[w]));
            }
            // Scores and the floor.
            assert forall|i0: int| 0 <= i0 < out@.len() implies (#[trigger] out@[i0]).embedding
                is Some && doc_sim(ce@, out@[i0]) >= thr by {
                assert(same_doc_chunk(out@[i0], doc_chunks@[sel@[i0].0 as int]));
                assert(sel@[i0].1 >= self.config.similarity_threshold);
            }
            // Descending order.
            assert forall|i1: int, i2: int| 0 <= i1 < i2 < out@.len() implies doc_sim(
                ce@,
                #[trigger] out@[i1],
            ) >= doc_sim(ce@, #[trigger] out@[i2]) by {
                assert(crate::drift::similarity::ranks_above(sel@[i1], sel@[i2]));
                assert(same_doc_chunk(out@[i1], doc_chunks@[sel@[i1].0 as int]));
                assert(same_doc_chunk(out@[i2], doc_chunks@[sel@[i2].0 as int]));
            }
            // Completeness and domination.
            assert forall|j0: int|
                0 <= j0 < doc_chunks@.len() && (#[trigger] doc_chunks@[j0]).embedding is Some
                    && doc_sim(ce@, doc_chunks@[j0]) >= thr implies doc_among(
                out@,
                doc_chunks@[j0],
            ) || (out@.len() == self.config.top_k && forall|i0: int|
                0 <= i0 < out@.len() ==> doc_sim(ce@, #[trigger] out@[i0]) >= doc_sim(
                    ce@,
                    doc_chunks@[j0],
                )) by {
                let t = choose|t: int| 0 <= t < cands@.len() && (#[trigger] cands@[t]).0 == j0;
                let c = cands@[t];
                assert(cands@.contains(c));
                assert(c.1 >= self.config.similarity_threshold);
                if sel@.contains(c) {
                    let i0 = choose|i0: int| 0 <= i0 < sel@.len() && sel@[i0] == c;
                    assert(same_doc_chunk(out@[i0], doc_chunks@[j0]));
                    assert(doc_among(out@, doc_chunks@[j0]));
                } else {
                    if sel@.len() < self.config.top_k {
                        assert(sel@.contains(c));
                        assert(false);
                    }
                    assert forall|i0: int| 0 <= i0 < out@.len() implies doc_sim(
                        ce@,
                        #[trigger] out@[i0],
                    ) >= doc_sim(ce@, doc_chunks@[j0]) by {
                        assert(crate::drift::similarity::ranks_above(sel@[i0], c));
                        assert(same_doc_chunk(out@[i0], doc_chunks@[sel@[i0].0 as int]));
                    }
                }
            }
            // The chosen pairs witness the ranked selection: the clauses of
            // find_top_k map onto the candidate model one by one.
            let cm = doc_cands_of(ce@, doc_chunks@, 0);
            let sm = pairs_view(sel@);
            let ki = self.config.top_k as int;
            assert forall|t: int| 0 <= t < sm.len() implies cm.contains(#[trigger] sm[t])
                && sm[t].1 >= thr by {
                assert(cands@.contains(sel@[t]));
                let w = choose|w: int| 0 <= w < cands@.len() && cands@[w] == sel@[t];
                assert(cm[w] == sm[t]);
            }
            assert forall|t1: int, t2: int| 0 <= t1 < t2 < sm.len() implies pair_ranks_above(
                #[trigger] sm[t1],
                #[trigger] sm[t2],
            ) by {
                assert(crate::drift::similarity::ranks_above(sel@[t1], sel@[t2]));
            }
            if sm.len() < ki {
                assert forall|p: (int, int)| cm.contains(p) && p.1 >= thr implies sm.contains(
                    p,
                ) by {
                    let w = choose|w: int| 0 <= w < cm.len() && cm[w] == p;
                    let cu = cands@[w];
                    assert(cands@.contains(cu));
                    assert(cm[w] == (cu.0 as int, cu.1 as int));
                    assert(cu.1 >= self.config.similarity_threshold);
                    assert(sel@.contains(cu));
                    let t = choose|t: int| 0 <= t < sel@.len() && sel@[t] == cu;
                    assert(sm[t] == p);
                }
            }
            assert forall|p: (int, int)|
                cm.contains(p) && p.1 >= thr && !sm.contains(p) implies forall|t: int|
                0 <= t < sm.len() ==> pair_ranks_above(#[trigger] sm[t], p) by {
                let w = choose|w: int| 0 <= w < cm.len() && cm[w] == p;
                let cu = cands@[w];
                assert(cands@.contains(cu));
                assert(cm[w] == (cu.0 as int, cu.1 as int));
                assert(cu.1 >= self.config.similarity_threshold);
                if sel@.contains(cu) {
                    let t = choose|t: int| 0 <= t < sel@.len() && sel@[t] == cu;
                    assert(sm[t] == p);
                    assert(false);
                }
                assert forall|t: int| 0 <= t < sm.len() implies pair_ranks_above(
                    #[trigger] sm[t],
                    p,
                ) by {
                    assert(crate::drift::similarity::ranks_above(sel@[t], cu));
                }
            }
            assert(top_selection(cm, ki, thr, sm));
            assert forall|t: int| 0 <= t < out@.len() implies 0 <= sm[t].0 < doc_chunks@.len()
                && same_doc_chunk(#[trigger] out@[t], doc_chunks@[sm[t].0]) by {
                assert(same_doc_chunk(out@[t], doc_chunks@[sel@[t].0 as int]));
            }
            assert(doc_ranked_selection(out@, ce@, doc_chunks@, ki, thr)) by {
                reveal(doc_ranked_selection);
            }
        }
        out
    }
}

impl DriftDetector {
    /// Find the code chunks related to a doc chunk: of the candidates that
    /// carry embeddings, the `top_k` most similar, ranked by descending
    /// similarity, any below the similarity threshold dropped.
    pub fn find_related_code(&self, doc_chunk: &DocChunk, code_chunks: &Vec<CodeChunk>) -> (r: Vec<
        CodeChunk,
    >)
        requires
            match doc_chunk.embedding {
                Some(e) => embedding_wf(e@),
                None => true,
            },
            code_embeddings_wf(code_chunks@),
        ensures
            match doc_chunk.embedding {
                Some(de) => {
                    &&& r@.len() <= self.config.top_k
                    &&& forall|i: int|
                        0 <= i < r@.len() ==> code_among(code_chunks@, #[trigger] r@[i])
                    &&& forall|i: int|
                        0 <= i < r@.len() ==> (#[trigger] r@[i]).embedding is Some && code_sim(
                            de@,
                            r@[i],
                        ) >= self.config.similarity_threshold
                    &&& forall|i1: int, i2: int|
                        0 <= i1 < i2 < r@.len() ==> code_sim(de@, #[trigger] r@[i1]) >= code_sim(
                            de@,
                            #[trigger] r@[i2],
                        )
                    &&& forall|j: int|
                        0 <= j < code_chunks@.len() && (#[trigger] code_chunks@[j]).embedding
                            is Some && code_sim(de@, code_chunks@[j])
                            >= self.config.similarity_threshold ==> code_among(
                            r@,
                            code_chunks@[j],
                        ) || (r@.len() == self.config.top_k && forall|i: int|
                            0 <= i < r@.len() ==> code_sim(de@, #[trigger] r@[i]) >= code_sim(
                                de@,
                                code_chunks@[j],
                            ))
                    &&& code_ranked_selection(
                        r@,
                        de@,
                        code_chunks@,
                        self.config.top_k as int,
                        self.config.similarity_threshold as int,
                    )
                },
                None => r@.len() == 0,
            },
    {
        let de = match &doc_chunk.embedding {
            Some(e) => e,
            None => {
                return Vec::new();
            },
        };
        let n = code_chunks.len();
        let mut cands: Vec<(usize, i64)> = Vec::new();
        let mut j: usize = 0;
        while j < n
            invariant
                0 <= j <= n,
                n == code_chunks@.len(),
                de@ == doc_chunk.embedding.unwrap()@,
                embedding_wf(de@),
                code_embeddings_wf(code_chunks@),
                forall|t: int, u: int|
                    0 <= t < u < cands@.len() ==> (#[trigger] cands@[t]).0 < (
                    #[trigger] cands@[u]).0,
                forall|t: int|
                    0 <= t < cands@.len() ==> (#[trigger] cands@[t]).0 < j && code_chunks@[cands@[t].0 as int].embedding is Some
                        && cands@[t].1 as int == code_sim(de@, code_chunks@[cands@[t].0 as int]),
                forall|p: int|
                    0 <= p < j && (#[trigger] code_chunks@[p]).embedding is Some ==> exists|t: int|
                        0 <= t < cands@.len() && (#[trigger] cands@[t]).0 == p,
                code_cands_of(de@, code_chunks@, 0) == pairs_view(cands@) + code_cands_of(
                    de@,
                    code_chunks@,
                    j as int,
                ),
            decreases n - j,
        {
            let ghost tail = code_cands_of(de@, code_chunks@, j as int);
            match &code_chunks[j].embedding {
                Some(ce) => {
                    let s = cosine_similarity(de, ce);
                    let ghost pre = cands@;
                    cands.push((j, s));
                    proof {
                        assert forall|p: int|
                            0 <= p < j + 1 && (#[trigger] code_chunks@[p]).embedding
                                is Some implies exists|t: int|
                            0 <= t < cands@.len() && (#[trigger] cands@[t]).0 == p by {
                            if p < j {
                                let t = choose|t: int|
                                    0 <= t < pre.len() && (#[trigger] pre[t]).0 == p;
                                assert(cands@[t].0 == p);
                            } else {
                                assert(cands@[cands@.len() - 1].0 == p);
                            }
                        }
                        assert(tail == seq![(j as int, code_sim(de@, code_chunks@[j as int]))]
                            + code_cands_of(de@, code_chunks@, j as int + 1));
                        assert(pairs_view(cands@) =~= pairs_view(pre).push(
                            (j as int, s as int),
                        ));
                        assert(code_cands_of(de@, code_chunks@, 0) =~= pairs_view(cands@)
                            + code_cands_of(de@, code_chunks@, j as int + 1));
                    }
                },
                None => {
                    proof {
                        assert(tail =~= code_cands_of(de@, code_chunks@, j as int + 1));
                    }
                },
            }
            j = j + 1;
        }
        proof {
            assert(code_cands_of(de@, code_chunks@, n as int) =~= Seq::<(int, int)>::empty());
            assert(code_cands_of(de@, code_chunks@, 0) =~= pairs_view(cands@));
        }
        let sel = find_top_k(&cands, self.config.top_k, self.config.similarity_threshold);
        let mut out: Vec<CodeChunk> = Vec::new();
        let mut i: usize = 0;
        while i < sel.len()
            invariant
                n == code_chunks@.len(),
                0 <= i <= sel@.len(),
                out@.len() == i,
                de@ == doc_chunk.embedding.unwrap()@,
                forall|t: int|
                    0 <= t < sel@.len() ==> (#[trigger] sel@[t]).0 < n && code_chunks@[sel@[t].0 as int].embedding is Some
                        && sel@[t].1 as int == code_sim(de@, code_chunks@[sel@[t].0 as int]),
                forall|t: int|
                    0 <= t < i ==> same_code_chunk(
                        #[trigger] out@[t],
                        code_chunks@[sel@[t].0 as int],
                    ),
            decreases sel@.len() - i,
        {
            let idx = sel[i].0;
            out.push(code_chunks[idx].clone());
            i = i + 1;
        }
        proof {
            let thr = self.config.similarity_threshold as int;
            assert forall|t: int| 0 <= t < sel@.len() implies (#[trigger] sel@[t]).0 < n
                && code_chunks@[sel@[t].0 as int].embedding is Some && sel@[t].1 as int == code_sim(
                de@,
                code_chunks@[sel@[t].0 as int],
            ) by {
                assert(cands@.contains(sel@[t]));
                let w = choose|w: int| 0 <= w < cands@.len() && cands@[w] == sel@[t];
            }
            assert forall|i0: int| 0 <= i0 < out@.len() implies code_among(
                code_chunks@,
                #[trigger] out@[i0],
            ) by {
                let w = sel@[i0].0 as int;
                assert(0 <= w < code_chunks@.len());
                assert(same_code_chunk(out@[i0], code_chunks@[w]));
            }
            assert forall|i0: int| 0 <= i0 < out@.len() implies (#[trigger] out@[i0]).embedding
                is Some && code_sim(de@, out@[i0]) >= thr by {
                assert(same_code_chunk(out@[i0], code_chunks@[sel@[i0].0 as int]));
                assert(sel@[i0].1 >= self.config.similarity_threshold);
            }
            assert forall|i1: int, i2: int| 0 <= i1 < i2 < out@.len() implies code_sim(
                de@,
                #[trigger] out@[i1],
            ) >= code_sim(de@, #[trigger] out@[i2]) by {
                assert(crate::drift::similarity::ranks_above(sel@[i1], sel@[i2]));
                assert(same_code_chunk(out@[i1], code_chunks@[sel@[i1].0 as int]));
                assert(same_code_chunk(out@[i2], code_chunks@[sel@[i2].0 as int]));
            }
            assert forall|j0: int|
                0 <= j0 < code_chunks@.len() && (#[trigger] code_chunks@[j0]).embedding is Some
                    && code_sim(de@, code_chunks@[j0]) >= thr implies code_among(
                out@,
                code_chunks@[j0],
            ) || (out@.len() == self.config.top_k && forall|i0: int|
                0 <= i0 < out@.len() ==> code_sim(de@, #[trigger] out@[i0]) >= code_sim(
                    de@,
                    code_chunks@[j0],
                )) by {
                let t = choose|t: int| 0 <= t < cands@.len() && (#[trigger] cands@[t]).0 == j0;
                let c = cands@[t];
                assert(cands@.contains(c));
                assert(c.1 >= self.config.similarity_threshold);
                if sel@.contains(c) {
                    let i0 = choose|i0: int| 0 <= i0 < sel@.len() && sel@[i0] == c;
                    assert(same_code_chunk(out@[i0], code_chunks@[j0]));
                    assert(code_among(out@, code_chunks@[j0]));
                } else {
                    if sel@.len() < self.config.top_k {
                        assert(sel@.contains(c));
                        assert(false);
                    }
                    assert forall|i0: int| 0 <= i0 < out@.len() implies code_sim(
                        de@,
                        #[trigger] out@[i0],
                    ) >= code_sim(de@, code_chunks@[j0]) by {
                        assert(crate::drift::similarity::ranks_above(sel@[i0], c));
                        assert(same_code_chunk(out@[i0], code_chunks@[sel@[i0].0 as int]));
                    }
                }
            }
            // The chosen pairs witness the ranked selection.
            let cm = code_cands_of(de@, code_chunks@, 0);
            let sm = pairs_view(sel@);
            let ki = self.config.top_k as int;
            assert forall|t: int| 0 <= t < sm.len() implies cm.contains(#[trigger] sm[t])
                && sm[t].1 >= thr by {
                assert(cands@.contains(sel@[t]));
                let w = choose|w: int| 0 <= w < cands@.len() && cands@[w] == sel@[t];
                assert(cm[w] == sm[t]);
            }
            assert forall|t1: int, t2: int| 0 <= t1 < t2 < sm.len() implies pair_ranks_above(
                #[trigger] sm[t1],
                #[trigger] sm[t2],
            ) by {
                assert(crate::drift::similarity::ranks_above(sel@[t1], sel@[t2]));
            }
            if sm.len() < ki {
                assert forall|p: (int, int)| cm.contains(p) && p.1 >= thr implies sm.contains(
                    p,
                ) by {
                    let w = choose|w: int| 0 <= w < cm.len() && cm[w] == p;
                    let cu = cands@[w];
                    assert(cands@.contains(cu));
                    assert(cm[w] == (cu.0 as int, cu.1 as int));
                    assert(cu.1 >= self.config.similarity_threshold);
                    assert(sel@.contains(cu));
                    let t = choose|t: int| 0 <= t < sel@.len() && sel@[t] == cu;
                    assert(sm[t] == p);
                }
            }
            assert forall|p: (int, int)|
                cm.contains(p) && p.1 >= thr && !sm.contains(p) implies forall|t: int|
                0 <= t < sm.len() ==> pair_ranks_above(#[trigger] sm[t], p) by {
                let w = choose|w: int| 0 <= w < cm.len() && cm[w] == p;
                let cu = cands@[w];
                assert(cands@.contains(cu));
                assert(cm[w] == (cu.0 as int, cu.1 as int));
                assert(cu.1 >= self.config.similarity_threshold);
                if sel@.contains(cu) {
                    let t = choose|t: int| 0 <= t < sel@.len() && sel@[t] == cu;
                    assert(sm[t] == p);
                    assert(false);
                }
                assert forall|t: int| 0 <= t < sm.len() implies pair_ranks_above(
                    #[trigger] sm[t],
                    p,
                ) by {
                    assert(crate::drift::similarity::ranks_above(sel@[t], cu));
                }
            }
            assert(top_selection(cm, ki, thr, sm));
            assert forall|t: int| 0 <= t < out@.len() implies 0 <= sm[t].0 < code_chunks@.len()
                && same_code_chunk(#[trigger] out@[t], code_chunks@[sm[t].0]) by {
                assert(same_code_chunk(out@[t], code_chunks@[sel@[t].0 as int]));
            }
            assert(code_ranked_selection(out@, de@, code_chunks@, ki, thr)) by {
                reveal(code_ranked_selection);
            }
        }
        out
    }
}

/// Whether the similarity of a doc chunk to the given code embedding falls
/// below the threshold; chunks without embeddings are never flagged.
pub open spec fn sim_flagged(ce: Seq<i64>, d: DocChunk, threshold: int) -> bool {
    match d.embedding {
        Some(e) => cosine_of(ce, e@) < threshold,
        None => false,
    }
}

/// The doc chunks whose similarity to the code embedding falls below the
/// threshold, in order.
pub open spec fn flagged_docs(ce: Seq<i64>, docs: Seq<DocChunk>, threshold: int) -> Seq<DocChunk> {
    docs.filter(|d: DocChunk| sim_flagged(ce, d, threshold))
}

/// The event flagging low semantic similarity between a code chunk and one
/// of its related doc chunks. The similarity score is reused as the
/// confidence, a deliberate conflation of the reference behavior.
pub open spec fn sim_drift_event_matches(
    e: DriftEvent,
    code: CodeChunk,
    d: DocChunk,
    ce: Seq<i64>,
) -> bool {
    crate::drift::rules::event_shape(
        e,
        DriftSeverity::Medium,
        "Low semantic similarity between '"@ + code.symbol_name@ + "' and '"@ + d.heading@ + "'"@,
        "Similarity score: "@ + crate::drift::score_2dp(doc_sim(ce, d))
            + ". Documentation may not accurately describe the code."@,
        doc_sim(ce, d),
        seq![code.id@],
        seq![d.id@],
    )
}

/// An event in the `Pending` state, under a fresh 36-character identifier:
/// the shape of everything this engine emits.
pub open spec fn pending_event(e: DriftEvent) -> bool {
    e.status is Pending && e.id@.len() == 36
}

impl DriftDetector {
    /// Flag every related doc chunk whose similarity to the code chunk's
    /// embedding falls below the similarity threshold, one event per chunk,
    /// the similarity score reused as the confidence.
    pub fn check_similarity_drift(
        &self,
        code_chunk: &CodeChunk,
        embedding: &Vec<i64>,
        related_docs: &Vec<DocChunk>,
    ) -> (r: Vec<DriftEvent>)
        requires
            embedding_wf(embedding@),
            doc_embeddings_wf(related_docs@),
        ensures
            ({
                let flagged = flagged_docs(
                    embedding@,
                    related_docs@,
                    self.config.similarity_threshold as int,
                );
                &&& r@.len() == flagged.len()
                &&& forall|i: int|
                    0 <= i < flagged.len() ==> sim_drift_event_matches(
                        #[trigger] r@[i],
                        *code_chunk,
                        flagged[i],
                        embedding@,
                    )
            }),
    {
        let ghost thr = self.config.similarity_threshold as int;
        let ghost dseq = related_docs@;
        let mut events: Vec<DriftEvent> = Vec::new();
        let mut i: usize = 0;
        proof {
            reveal(Seq::filter);
            assert(dseq.subrange(0, 0) =~= Seq::<DocChunk>::empty());
            assert(events@.len() == flagged_docs(embedding@, dseq.subrange(0, 0), thr).len());
        }
        while i < related_docs.len()
            invariant
                0 <= i <= related_docs@.len(),
                dseq == related_docs@,
                thr == self.config.similarity_threshold as int,
                embedding_wf(embedding@),
                doc_embeddings_wf(related_docs@),
                ({
                    let flagged = flagged_docs(embedding@, dseq.subrange(0, i as int), thr);
                    &&& events@.len() == flagged.len()
                    &&& forall|t: int|
                        0 <= t < flagged.len() ==> sim_drift_event_matches(
                            #[trigger] events@[t],
                            *code_chunk,
                            flagged[t],
                            embedding@,
                        )
                }),
            decreases related_docs@.len() - i,
        {
            proof {
                reveal(Seq::filter);
                assert(dseq.subrange(0, i as int + 1).drop_last() =~= dseq.subrange(0, i as int));
                assert(dseq.subrange(0, i as int + 1).last() == dseq[i as int]);
            }
            match &related_docs[i].embedding {
                Some(de) => {
                    let s = cosine_similarity(embedding, de);
                    if s < self.config.similarity_threshold {
                        let doc = &related_docs[i];
                        let mut desc = String::from_str("Low semantic similarity between '");
                        desc.append(code_chunk.symbol_name.as_str());
                        desc.append("' and '");
                        desc.append(doc.heading.as_str());
                        desc.append("'");
                        let mut evidence = String::from_str("Similarity score: ");
                        evidence.append(crate::drift::format_score_2dp(s).as_str());
                        evidence.append(". Documentation may not accurately describe the code.");
                        let event = DriftEvent::new(
                            DriftSeverity::Medium,
                            desc.as_str(),
                            evidence.as_str(),
                            s,
                        ).with_code_chunk(code_chunk.id.as_str()).with_doc_chunk(doc.id.as_str());
                        proof {
                            assert(event.related_code_chunks.deep_view() =~= seq![
                                code_chunk.id@,
                            ]);
                            assert(event.related_doc_chunks.deep_view() =~= seq![doc.id@]);
                            assert(sim_drift_event_matches(
                                event,
                                *code_chunk,
                                dseq[i as int],
                                embedding@,
                            ));
                        }
                        events.push(event);
                    }
                },
                None => {},
            }
            i = i + 1;
        }
        proof {
            assert(dseq.subrange(0, dseq.len() as int) =~= dseq);
        }
        events
    }
}

/// The deduplication key of an event: the set of its related code and doc
/// chunk identifiers, order-independent.
pub open spec fn event_key(e: DriftEvent) -> Set<Seq<char>> {
    Set::new(
        |x: Seq<char>|
            e.related_code_chunks.deep_view().contains(x) || e.related_doc_chunks.deep_view()
                .contains(x),
    )
}

/// Whether a retained event stands at least as high as another: a strictly
/// greater severity, or an equal severity with at least the confidence.
pub open spec fn retained_dominates(kept: DriftEvent, e: DriftEvent) -> bool {
    ||| crate::drift::severity_rank(kept.severity) > crate::drift::severity_rank(e.severity)
    ||| (crate::drift::severity_rank(kept.severity) == crate::drift::severity_rank(e.severity)
        && kept.confidence >= e.confidence)
}

/// Whether `e` is one of the events in `es`.
pub open spec fn event_among(es: Seq<DriftEvent>, e: DriftEvent) -> bool {
    exists|t: int| 0 <= t < es.len() && #[trigger] es[t] == e
}

/// Whether some retained event shares the key of `e` and stands at least as
/// high.
pub open spec fn key_covered(r: Seq<DriftEvent>, e: DriftEvent) -> bool {
    exists|i: int|
        0 <= i < r.len() && event_key(#[trigger] r[i]) == event_key(e) && retained_dominates(
            r[i],
            e,
        )
}

/// Whether every identifier in the key of `a` stands in the key of `b`.
fn key_subset(a: &DriftEvent, b: &DriftEvent) -> (r: bool)
    ensures
        r == event_key(*a).subset_of(event_key(*b)),
{
    let mut i: usize = 0;
    while i < a.related_code_chunks.len()
        invariant
            0 <= i <= a.related_code_chunks@.len(),
            forall|t: int|
                0 <= t < i ==> event_key(*b).contains(
                    #[trigger] a.related_code_chunks.deep_view()[t],
                ),
        decreases a.related_code_chunks@.len() - i,
    {
        let x = &a.related_code_chunks[i];
        let in_b = crate::text::contains_string(&b.related_code_chunks, x.as_str())
            || crate::text::contains_string(&b.related_doc_chunks, x.as_str());
        if !in_b {
            proof {
                assert(a.related_code_chunks.deep_view()[i as int] == x@);
                assert(a.related_code_chunks.deep_view().contains(x@));
                assert(event_key(*a).contains(x@));
                assert(!event_key(*b).contains(x@));
            }
            return false;
        }
        proof {
            assert(a.related_code_chunks.deep_view()[i as int] == x@);
        }
        i = i + 1;
    }
    let mut j: usize = 0;
    while j < a.related_doc_chunks.len()
        invariant
            0 <= j <= a.related_doc_chunks@.len(),
            forall|t: int|
                0 <= t < a.related_code_chunks@.len() ==> event_key(*b).contains(
                    #[trigger] a.related_code_chunks.deep_view()[t],
                ),
            forall|t: int|
                0 <= t < j ==> event_key(*b).contains(
                    #[trigger] a.related_doc_chunks.deep_view()[t],
                ),
        decreases a.related_doc_chunks@.len() - j,
    {
        let x = &a.related_doc_chunks[j];
        let in_b = crate::text::contains_string(&b.related_code_chunks, x.as_str())
            || crate::text::contains_string(&b.related_doc_chunks, x.as_str());
        if !in_b {
            proof {
                assert(a.related_doc_chunks.deep_view()[j as int] == x@);
                assert(a.related_doc_chunks.deep_view().contains(x@));
                assert(event_key(*a).contains(x@));
                assert(!event_key(*b).contains(x@));
            }
            return false;
        }
        proof {
            assert(a.related_doc_chunks.deep_view()[j as int] == x@);
        }
        j = j + 1;
    }
    proof {
        assert forall|x: Seq<char>| event_key(*a).contains(x) implies event_key(*b).contains(
            x,
        ) by {
            if a.related_code_chunks.deep_view().contains(x) {
                let t = choose|t: int|
                    0 <= t < a.related_code_chunks.deep_view().len()
                        && a.related_code_chunks.deep_view()[t] == x;
            } else {
                let t = choose|t: int|
                    0 <= t < a.related_doc_chunks.deep_view().len()
                        && a.related_doc_chunks.deep_view()[t] == x;
            }
        }
    }
    true
}

/// Whether two events share one deduplication key.
fn key_eq(a: &DriftEvent, b: &DriftEvent) -> (r: bool)
    ensures
        r == (event_key(*a) == event_key(*b)),
{
    let fwd = key_subset(a, b);
    let bwd = key_subset(b, a);
    if fwd && bwd {
        proof {
            assert(event_key(*a) =~= event_key(*b));
        }
        true
    } else {
        proof {
            if event_key(*a) == event_key(*b) {
                assert(event_key(*a).subset_of(event_key(*b)));
                assert(event_key(*b).subset_of(event_key(*a)));
            }
        }
        false
    }
}

impl DriftDetector {
    /// Deduplicate events that refer to the same chunks. The key of an
    /// event is the set of its related chunk identifiers; for each key
    /// exactly one event stays, and an incoming event displaces the
    /// retained one only with a strictly greater severity, or an equal
    /// severity with a strictly greater confidence. The retained event
    /// therefore stands at least as high as every discarded event that
    /// shared its key.
    pub fn deduplicate_events(&self, events: Vec<DriftEvent>) -> (r: Vec<DriftEvent>)
        ensures
            forall|i: int, j: int|
                0 <= i < j < r@.len() ==> event_key(#[trigger] r@[i]) != event_key(
                    #[trigger] r@[j],
                ),
            forall|i: int| 0 <= i < r@.len() ==> event_among(events@, #[trigger] r@[i]),
            forall|t: int| 0 <= t < events@.len() ==> key_covered(r@, #[trigger] events@[t]),
    {
        let ghost eseq = events@;
        let mut rest = events;
        let mut kept: Vec<DriftEvent> = Vec::new();
        proof {
            assert(rest@ =~= eseq.subrange(eseq.len() - rest@.len(), eseq.len() as int));
        }
        while rest.len() > 0
            invariant
                rest@.len() <= eseq.len(),
                rest@ == eseq.subrange(eseq.len() - rest@.len(), eseq.len() as int),
                forall|i: int, j: int|
                    0 <= i < j < kept@.len() ==> event_key(#[trigger] kept@[i]) != event_key(
                        #[trigger] kept@[j],
                    ),
                forall|i: int| 0 <= i < kept@.len() ==> event_among(eseq, #[trigger] kept@[i]),
                forall|t: int|
                    0 <= t < eseq.len() - rest@.len() ==> key_covered(
                        kept@,
                        #[trigger] eseq[t],
                    ),
            decreases rest@.len(),
        {
            let ghost t0 = eseq.len() - rest@.len();
            let ghost pre_rest = rest@;
            let e = rest.remove(0);
            proof {
                assert(e == eseq[t0]);
                assert(rest@ =~= eseq.subrange(eseq.len() - rest@.len(), eseq.len() as int));
                assert(event_among(eseq, e)) by {
                    assert(eseq[t0] == e);
                }
            }
            // Find the retained event sharing this key, if any.
            let mut found: usize = kept.len();
            let mut m: usize = 0;
            while m < kept.len()
                invariant
                    0 <= m <= kept@.len(),
                    found <= kept@.len(),
                    found < kept@.len() ==> event_key(kept@[found as int]) == event_key(e),
                    found == kept@.len() ==> forall|w: int|
                        0 <= w < m ==> event_key(#[trigger] kept@[w]) != event_key(e),
                decreases kept@.len() - m,
            {
                if found == kept.len() && key_eq(&kept[m], &e) {
                    found = m;
                }
                m = m + 1;
            }
            if found == kept.len() {
                let ghost pre_kept = kept@;
                proof {
                    assert(retained_dominates(e, e));
                }
                kept.push(e);
                proof {
                    assert forall|t: int| 0 <= t < t0 + 1 implies key_covered(
                        kept@,
                        #[trigger] eseq[t],
                    ) by {
                        if t < t0 {
                            let i = choose|i: int|
                                0 <= i < pre_kept.len() && event_key(#[trigger] pre_kept[i])
                                    == event_key(eseq[t]) && retained_dominates(
                                    pre_kept[i],
                                    eseq[t],
                                );
                            assert(kept@[i] == pre_kept[i]);
                        } else {
                            assert(kept@[kept@.len() - 1] == eseq[t0]);
                        }
                    }
                    assert forall|i: int| 0 <= i < kept@.len() implies event_among(
                        eseq,
                        #[trigger] kept@[i],
                    ) by {
                        if i < kept@.len() - 1 {
                            assert(kept@[i] == pre_kept[i]);
                        } else {
                            assert(kept@[i] == eseq[t0]);
                        }
                    }
                }
            } else {
                let better = e.severity.rank() > kept[found].severity.rank() || (e.severity.rank()
                    == kept[found].severity.rank() && e.confidence > kept[found].confidence);
                if better {
                    let ghost pre_kept = kept@;
                    let ghost old_e = kept@[found as int];
                    kept[found] = e;
                    proof {
                        assert(kept@ == pre_kept.update(found as int, eseq[t0]));
                        assert(event_key(kept@[found as int]) == event_key(old_e));
                        assert forall|i: int, j: int|
                            0 <= i < j < kept@.len() implies event_key(#[trigger] kept@[i])
                            != event_key(#[trigger] kept@[j]) by {
                            assert(event_key(kept@[i]) == event_key(pre_kept[i]));
                            assert(event_key(kept@[j]) == event_key(pre_kept[j]));
                        }
                        assert forall|t: int| 0 <= t < t0 + 1 implies key_covered(
                            kept@,
                            #[trigger] eseq[t],
                        ) by {
                            if t < t0 {
                                let i = choose|i: int|
                                    0 <= i < pre_kept.len() && event_key(#[trigger] pre_kept[i])
                                        == event_key(eseq[t]) && retained_dominates(
                                        pre_kept[i],
                                        eseq[t],
                                    );
                                if i == found as int {
                                    assert(event_key(kept@[i]) == event_key(eseq[t]));
                                    assert(retained_dominates(kept@[i], eseq[t]));
                                } else {
                                    assert(kept@[i] == pre_kept[i]);
                                }
                            } else {
                                assert(event_key(kept@[found as int]) == event_key(eseq[t0]));
                                assert(retained_dominates(kept@[found as int], eseq[t0]));
                            }
                        }
                        assert forall|i: int| 0 <= i < kept@.len() implies event_among(
                            eseq,
                            #[trigger] kept@[i],
                        ) by {
                            if i != found as int {
                                assert(kept@[i] == pre_kept[i]);
                            } else {
                                assert(kept@[i] == eseq[t0]);
                            }
                        }
                    }
                } else {
                    proof {
                        assert(retained_dominates(kept@[found as int], eseq[t0]));
                        assert forall|t: int| 0 <= t < t0 + 1 implies key_covered(
                            kept@,
                            #[trigger] eseq[t],
                        ) by {
                            if t == t0 {
                                assert(event_key(kept@[found as int]) == event_key(eseq[t0]));
                            }
                        }
                    }
                }
            }
        }
        proof {
            assert(eseq.len() - rest@.len() == eseq.len());
        }
        kept
    }
}

/// Unique identifiers within one extraction pass: no two chunks share one.
pub open spec fn unique_code_ids(chunks: Seq<CodeChunk>) -> bool {
    forall|i: int, j: int|
        0 <= i < j < chunks.len() ==> (#[trigger] chunks[i]).id@ != (#[trigger] chunks[j]).id@
}

/// Find the position of the code chunk carrying the given identifier.
fn find_code_by_id(chunks: &Vec<CodeChunk>, id: &str) -> (r: Option<usize>)
    ensures
        match r {
            Some(j) => j < chunks@.len() && chunks@[j as int].id@ == id@,
            None => forall|j: int| 0 <= j < chunks@.len() ==> (#[trigger] chunks@[j]).id@ != id@,
        },
{
    let mut j: usize = 0;
    while j < chunks.len()
        invariant
            0 <= j <= chunks@.len(),
            forall|t: int| 0 <= t < j ==> (#[trigger] chunks@[t]).id@ != id@,
        decreases chunks@.len() - j,
    {
        if crate::text::str_eq(chunks[j].id.as_str(), id) {
            return Some(j);
        }
        j = j + 1;
    }
    None
}

/// Find the position of the doc chunk carrying the given identifier.
fn find_doc_by_id(chunks: &Vec<DocChunk>, id: &str) -> (r: Option<usize>)
    ensures
        match r {
            Some(j) => j < chunks@.len() && chunks@[j as int].id@ == id@,
            None => forall|j: int| 0 <= j < chunks@.len() ==> (#[trigger] chunks@[j]).id@ != id@,
        },
{
    let mut j: usize = 0;
    while j < chunks.len()
        invariant
            0 <= j <= chunks@.len(),
            forall|t: int| 0 <= t < j ==> (#[trigger] chunks@[t]).id@ != id@,
        decreases chunks@.len() - j,
    {
        if crate::text::str_eq(chunks[j].id.as_str(), id) {
            return Some(j);
        }
        j = j + 1;
    }
    None
}

/// A removed-but-still-documented public function: its identifier is gone
/// from the new pass, and some doc chunk stays similar to it at or above
/// the threshold, within a positive `top_k`, with hard rules enabled.
pub open spec fn removed_documented(
    old_chunks: Seq<CodeChunk>,
    new_chunks: Seq<CodeChunk>,
    docs: Seq<DocChunk>,
    cfg: DriftConfig,
    oi: int,
) -> bool {
    &&& 0 <= oi < old_chunks.len()
    &&& forall|j: int|
        0 <= j < new_chunks.len() ==> (#[trigger] new_chunks[j]).id@ != old_chunks[oi].id@
    &&& old_chunks[oi].is_public
    &&& cfg.use_hard_rules
    &&& cfg.top_k >= 1
    &&& match old_chunks[oi].embedding {
        Some(e) => exists|j: int|
            0 <= j < docs.len() && (#[trigger] docs[j]).embedding is Some && doc_sim(e@, docs[j])
                >= cfg.similarity_threshold,
        None => false,
    }
}

/// Every event a rule emits is pending, under a fresh identifier.
proof fn lemma_rule_event_pending(
    e: DriftEvent,
    kind: crate::drift::rules::RuleKind,
    old_chunk: Option<&CodeChunk>,
    new_chunk: Option<&CodeChunk>,
    docs: Seq<DocChunk>,
)
    requires
        crate::drift::rules::rule_event(e, kind, old_chunk, new_chunk, docs),
    ensures
        pending_event(e),
{
}

impl DriftDetector {
    /// Detect drift for changed code chunks: for every identifier present
    /// in the old or the new extraction pass whose content hash changed,
    /// find the related doc chunks, run the enabled hard and soft rules and
    /// the similarity check, and deduplicate the combined events. The parts
    /// carry the exact contracts; what comes back is their deduplicated
    /// union: pairwise distinct keys, every event pending.
    pub fn detect_code_drift(
        &self,
        old_chunks: &Vec<CodeChunk>,
        new_chunks: &Vec<CodeChunk>,
        doc_chunks: &Vec<DocChunk>,
    ) -> (r: Vec<DriftEvent>)
        requires
            unique_code_ids(old_chunks@),
            unique_code_ids(new_chunks@),
            code_embeddings_wf(old_chunks@),
            code_embeddings_wf(new_chunks@),
            doc_embeddings_wf(doc_chunks@),
        ensures
            forall|i: int, j: int|
                0 <= i < j < r@.len() ==> event_key(#[trigger] r@[i]) != event_key(
                    #[trigger] r@[j],
                ),
            forall|i: int| 0 <= i < r@.len() ==> pending_event(#[trigger] r@[i]),
            forall|oi: int|
                removed_documented(old_chunks@, new_chunks@, doc_chunks@, self.config, oi)
                    ==> exists|t: int|
                    0 <= t < r@.len() && crate::drift::severity_rank((#[trigger] r@[t]).severity)
                        >= 3 && event_key(r@[t]).contains(old_chunks@[oi].id@),
    {
        let mut events: Vec<DriftEvent> = Vec::new();
        // Identifiers present in the old pass: changed or removed chunks.
        let mut i: usize = 0;
        while i < old_chunks.len()
            invariant
                0 <= i <= old_chunks@.len(),
                unique_code_ids(old_chunks@),
                unique_code_ids(new_chunks@),
                code_embeddings_wf(old_chunks@),
                code_embeddings_wf(new_chunks@),
                doc_embeddings_wf(doc_chunks@),
                forall|t: int| 0 <= t < events@.len() ==> pending_event(#[trigger] events@[t]),
                forall|oi: int|
                    0 <= oi < i && removed_documented(
                        old_chunks@,
                        new_chunks@,
                        doc_chunks@,
                        self.config,
                        oi,
                    ) ==> exists|t: int|
                        0 <= t < events@.len() && crate::drift::severity_rank(
                            (#[trigger] events@[t]).severity,
                        ) >= 3 && event_key(events@[t]).contains(old_chunks@[oi].id@),
            decreases old_chunks@.len() - i,
        {
            let ghost pre = events@;
            let old = &old_chunks[i];
            match find_code_by_id(new_chunks, old.id.as_str()) {
                Some(j) => {
                    let new = &new_chunks[j];
                    proof {
                        if removed_documented(
                            old_chunks@,
                            new_chunks@,
                            doc_chunks@,
                            self.config,
                            i as int,
                        ) {
                            assert(new_chunks@[j as int].id@ != old_chunks@[i as int].id@);
                            assert(false);
                        }
                    }
                    if !crate::text::str_eq(old.hash.as_str(), new.hash.as_str()) {
                        self.collect_pair_events(Some(old), Some(new), doc_chunks, &mut events);
                    }
                },
                None => {
                    self.collect_pair_events(Some(old), None, doc_chunks, &mut events);
                    proof {
                        if removed_documented(
                            old_chunks@,
                            new_chunks@,
                            doc_chunks@,
                            self.config,
                            i as int,
                        ) {
                            let t = choose|t: int|
                                0 <= t < events@.len() && crate::drift::severity_rank(
                                    (#[trigger] events@[t]).severity,
                                ) >= 3 && event_key(events@[t]).contains(old_chunks@[i as int].id@);
                        }
                    }
                },
            }
            proof {
                assert forall|oi: int|
                    0 <= oi < i + 1 && removed_documented(
                        old_chunks@,
                        new_chunks@,
                        doc_chunks@,
                        self.config,
                        oi,
                    ) implies exists|t: int|
                    0 <= t < events@.len() && crate::drift::severity_rank(
                        (#[trigger] events@[t]).severity,
                    ) >= 3 && event_key(events@[t]).contains(old_chunks@[oi].id@) by {
                    if oi < i {
                        let t = choose|t: int|
                            0 <= t < pre.len() && crate::drift::severity_rank(
                                (#[trigger] pre[t]).severity,
                            ) >= 3 && event_key(pre[t]).contains(old_chunks@[oi].id@);
                        assert(events@[t] == pre[t]);
                    }
                }
            }
            i = i + 1;
        }
        // Identifiers only in the new pass: added chunks.
        let mut j: usize = 0;
        while j < new_chunks.len()
            invariant
                0 <= j <= new_chunks@.len(),
                unique_code_ids(old_chunks@),
                unique_code_ids(new_chunks@),
                code_embeddings_wf(old_chunks@),
                code_embeddings_wf(new_chunks@),
                doc_embeddings_wf(doc_chunks@),
                forall|t: int| 0 <= t < events@.len() ==> pending_event(#[trigger] events@[t]),
                forall|oi: int|
                    removed_documented(
                        old_chunks@,
                        new_chunks@,
                        doc_chunks@,
                        self.config,
                        oi,
                    ) ==> exists|t: int|
                        0 <= t < events@.len() && crate::drift::severity_rank(
                            (#[trigger] events@[t]).severity,
                        ) >= 3 && event_key(events@[t]).contains(old_chunks@[oi].id@),
            decreases new_chunks@.len() - j,
        {
            let ghost pre = events@;
            let new = &new_chunks[j];
            match find_code_by_id(old_chunks, new.id.as_str()) {
                Some(_) => {},
                None => {
                    self.collect_pair_events(None, Some(new), doc_chunks, &mut events);
                },
            }
            proof {
                assert forall|oi: int|
                    removed_documented(
                        old_chunks@,
                        new_chunks@,
                        doc_chunks@,
                        self.config,
                        oi,
                    ) implies exists|t: int|
                    0 <= t < events@.len() && crate::drift::severity_rank(
                        (#[trigger] events@[t]).severity,
                    ) >= 3 && event_key(events@[t]).contains(old_chunks@[oi].id@) by {
                    let t = choose|t: int|
                        0 <= t < pre.len() && crate::drift::severity_rank(
                            (#[trigger] pre[t]).severity,
                        ) >= 3 && event_key(pre[t]).contains(old_chunks@[oi].id@);
                    assert(events@[t] == pre[t]);
                }
            }
            j = j + 1;
        }
        let r = self.deduplicate_events(events);
        proof {
            assert forall|i0: int| 0 <= i0 < r@.len() implies pending_event(
                #[trigger] r@[i0],
            ) by {
                let ghost es = r@;
            }
            // A collected removed-function witness survives deduplication:
            // whatever retains its key stands at least as high.
            assert forall|oi: int|
                removed_documented(
                    old_chunks@,
                    new_chunks@,
                    doc_chunks@,
                    self.config,
                    oi,
                ) implies exists|t: int|
                0 <= t < r@.len() && crate::drift::severity_rank((#[trigger] r@[t]).severity) >= 3
                    && event_key(r@[t]).contains(old_chunks@[oi].id@) by {
                let w = choose|w: int|
                    0 <= w < events@.len() && crate::drift::severity_rank(
                        (#[trigger] events@[w]).severity,
                    ) >= 3 && event_key(events@[w]).contains(old_chunks@[oi].id@);
                assert(key_covered(r@, events@[w]));
                let t = choose|t: int|
                    0 <= t < r@.len() && event_key(#[trigger] r@[t]) == event_key(events@[w])
                        && retained_dominates(r@[t], events@[w]);
            }
        }
        r
    }

    /// Run the enabled rules and the similarity check for one changed pair,
    /// appending every emitted event.
    #[verifier::rlimit(100)]
    fn collect_pair_events(
        &self,
        old_chunk: Option<&CodeChunk>,
        new_chunk: Option<&CodeChunk>,
        doc_chunks: &Vec<DocChunk>,
        events: &mut Vec<DriftEvent>,
    )
        requires
            match old_chunk {
                Some(o) => match o.embedding {
                    Some(e) => embedding_wf(e@),
                    None => true,
                },
                None => true,
            },
            match new_chunk {
                Some(n) => match n.embedding {
                    Some(e) => embedding_wf(e@),
                    None => true,
                },
                None => true,
            },
            old_chunk is Some || new_chunk is Some,
            doc_embeddings_wf(doc_chunks@),
            forall|t: int|
                0 <= t < old(events)@.len() ==> pending_event(#[trigger] old(events)@[t]),
        ensures
            forall|t: int|
                0 <= t < final(events)@.len() ==> pending_event(#[trigger] final(events)@[t]),
            final(events)@.len() >= old(events)@.len(),
            forall|t: int|
                0 <= t < old(events)@.len() ==> #[trigger] final(events)@[t] == old(events)@[t],
            match (old_chunk, new_chunk) {
                (Some(o), None) => (o.is_public && self.config.use_hard_rules && self.config.top_k
                    >= 1 && (match o.embedding {
                    Some(e) => exists|j: int|
                        0 <= j < doc_chunks@.len() && (#[trigger] doc_chunks@[j]).embedding is Some
                            && doc_sim(e@, doc_chunks@[j]) >= self.config.similarity_threshold,
                    None => false,
                })) ==> exists|t: int|
                    0 <= t < final(events)@.len() && crate::drift::severity_rank(
                        (#[trigger] final(events)@[t]).severity,
                    ) >= 3 && event_key(final(events)@[t]).contains(o.id@),
                _ => true,
            },
    {
        let ghost qualifying: bool = match (old_chunk, new_chunk) {
            (Some(o), None) => o.is_public && self.config.use_hard_rules && self.config.top_k >= 1
                && (match &o.embedding {
                Some(e) => exists|j: int|
                    0 <= j < doc_chunks@.len() && (#[trigger] doc_chunks@[j]).embedding is Some
                        && doc_sim(e@, doc_chunks@[j]) >= self.config.similarity_threshold,
                None => false,
            }),
            _ => false,
        };
        let subject: &CodeChunk = match new_chunk {
            Some(n) => n,
            None => match old_chunk {
                Some(o) => o,
                None => {
                    return ;
                },
            },
        };
        let related = self.find_related_docs(subject, doc_chunks);
        proof {
            assert forall|t: int|
                0 <= t < related@.len() implies match (#[trigger] related@[t]).embedding {
                Some(e) => embedding_wf(e@),
                None => true,
            } by {
                if subject.embedding is Some {
                    assert(doc_among(doc_chunks@, related@[t]));
                    let j = choose|j: int|
                        0 <= j < doc_chunks@.len() && same_doc_chunk(
                            related@[t],
                            #[trigger] doc_chunks@[j],
                        );
                }
            }
        }
        let ghost mut witness_at: int = 0;
        if self.config.use_hard_rules {
            let mut hard = self.hard_rules.check_code_change(old_chunk, new_chunk, &related);
            proof {
                let fired = crate::drift::rules::fired_hard(old_chunk, new_chunk, related@);
                assert forall|t: int| 0 <= t < hard@.len() implies pending_event(
                    #[trigger] hard@[t],
                ) by {
                    lemma_rule_event_pending(hard@[t], fired[t], old_chunk, new_chunk, related@);
                }
                if qualifying {
                    // The removed-function rule fires: the related list is
                    // not empty, so the event heads the hard list.
                    let o = old_chunk.unwrap();
                    assert(related@.len() > 0) by {
                        match o.embedding {
                            Some(e) => {
                                let j = choose|j: int|
                                    0 <= j < doc_chunks@.len() && (
                                    #[trigger] doc_chunks@[j]).embedding is Some && doc_sim(
                                        e@,
                                        doc_chunks@[j],
                                    ) >= self.config.similarity_threshold;
                                if related@.len() == 0 {
                                    assert(!doc_among(related@, doc_chunks@[j]));
                                }
                            },
                            None => {},
                        }
                    }
                    assert(crate::drift::rules::removed_function_applies(
                        *o,
                        new_chunk,
                        related@.len() as int,
                    ));
                    assert(fired[0] == crate::drift::rules::RuleKind::RemovedFunction) by {
                        assert(crate::drift::rules::fired_one(
                            crate::drift::rules::RuleKind::SignatureChange,
                            old_chunk,
                            new_chunk,
                            related@,
                        ) =~= Seq::<crate::drift::rules::RuleKind>::empty());
                    }
                    assert(crate::drift::rules::removed_function_event(
                        hard@[0],
                        *o,
                        related@,
                    ));
                    assert(hard@[0].related_code_chunks.deep_view() == seq![o.id@]);
                    assert(hard@[0].related_code_chunks.deep_view().contains(o.id@)) by {
                        assert(hard@[0].related_code_chunks.deep_view()[0] == o.id@);
                    }
                    assert(event_key(hard@[0]).contains(o.id@));
                    assert(crate::drift::severity_rank(hard@[0].severity) >= 3);
                }
            }
            let ghost pre = events@;
            events.append(&mut hard);
            proof {
                witness_at = pre.len() as int;
                assert forall|t: int| 0 <= t < events@.len() implies pending_event(
                    #[trigger] events@[t],
                ) by {
                    if t < pre.len() {
                        assert(events@[t] == pre[t]);
                    }
                }
                if qualifying {
                    let o = old_chunk.unwrap();
                    assert(events@[witness_at].related_code_chunks.deep_view().contains(o.id@));
                    assert(crate::drift::severity_rank(events@[witness_at].severity) >= 3);
                }
            }
        }
        if self.config.use_soft_rules {
            let mut soft = self.soft_rules.check_code_change(old_chunk, new_chunk, &related);
            proof {
                let fired = crate::drift::rules::fired_soft(old_chunk, new_chunk, related@);
                assert forall|t: int| 0 <= t < soft@.len() implies pending_event(
                    #[trigger] soft@[t],
                ) by {
                    lemma_rule_event_pending(soft@[t], fired[t], old_chunk, new_chunk, related@);
                }
            }
            let ghost pre = events@;
            events.append(&mut soft);
            proof {
                assert forall|t: int| 0 <= t < events@.len() implies pending_event(
                    #[trigger] events@[t],
                ) by {
                    if t < pre.len() {
                        assert(events@[t] == pre[t]);
                    }
                }
            }
        }
        proof {
            if qualifying {
                let o = old_chunk.unwrap();
                assert(0 <= witness_at < events@.len());
                assert(event_key(events@[witness_at]).contains(o.id@));
            }
        }
        match new_chunk {
            Some(new) => {
                match &new.embedding {
                    Some(emb) => {
                        let mut sim = self.check_similarity_drift(new, emb, &related);
                        proof {
                            let flagged = flagged_docs(
                                emb@,
                                related@,
                                self.config.similarity_threshold as int,
                            );
                            assert forall|t: int| 0 <= t < sim@.len() implies pending_event(
                                #[trigger] sim@[t],
                            ) by {
                                assert(sim_drift_event_matches(sim@[t], *new, flagged[t], emb@));
                            }
                        }
                        let ghost pre = events@;
                        events.append(&mut sim);
                        proof {
                            assert forall|t: int| 0 <= t < events@.len() implies pending_event(
                                #[trigger] events@[t],
                            ) by {
                                if t < pre.len() {
                                    assert(events@[t] == pre[t]);
                                }
                            }
                        }
                    },
                    None => {},
                }
            },
            None => {},
        }
    }
}

/// Whether a doc chunk qualifies as removed-but-still-documented-by-code:
/// its identifier is gone from the new pass, and some code chunk stays
/// similar to it at or above the threshold, within a positive `top_k`.
pub open spec fn doc_removed_flagged(
    d: DocChunk,
    new_docs: Seq<DocChunk>,
    code: Seq<CodeChunk>,
    top_k: int,
    threshold: int,
) -> bool {
    &&& forall|j: int| 0 <= j < new_docs.len() ==> (#[trigger] new_docs[j]).id@ != d.id@
    &&& top_k >= 1
    &&& match d.embedding {
        Some(e) => exists|j: int|
            0 <= j < code.len() && (#[trigger] code[j]).embedding is Some && code_sim(
                e@,
                code[j],
            ) >= threshold,
        None => false,
    }
}

/// The event flagging a documentation section removed while related code
/// still exists.
pub open spec fn doc_removed_event_matches(e: DriftEvent, d: DocChunk) -> bool {
    crate::drift::rules::event_shape(
        e,
        DriftSeverity::Medium,
        "Documentation section removed: "@ + d.heading@,
        "Documentation was removed but related code still exists"@,
        800_000,
        Seq::empty(),
        seq![d.id@],
    )
}

impl DriftDetector {
    /// Detect drift for changed doc chunks: flag every section that was
    /// deleted entirely while code chunks above the similarity threshold to
    /// it still exist, one event per deleted section, in input order.
    #[verifier::rlimit(100)]
    pub fn detect_doc_drift(
        &self,
        old_chunks: &Vec<DocChunk>,
        new_chunks: &Vec<DocChunk>,
        code_chunks: &Vec<CodeChunk>,
    ) -> (r: Vec<DriftEvent>)
        requires
            doc_embeddings_wf(old_chunks@),
            code_embeddings_wf(code_chunks@),
        ensures
            ({
                let flagged = old_chunks@.filter(
                    |d: DocChunk|
                        doc_removed_flagged(
                            d,
                            new_chunks@,
                            code_chunks@,
                            self.config.top_k as int,
                            self.config.similarity_threshold as int,
                        ),
                );
                &&& r@.len() == flagged.len()
                &&& forall|i: int|
                    0 <= i < flagged.len() ==> doc_removed_event_matches(
                        #[trigger] r@[i],
                        flagged[i],
                    )
            }),
    {
        let ghost oseq = old_chunks@;
        let ghost pred = |d: DocChunk|
            doc_removed_flagged(
                d,
                new_chunks@,
                code_chunks@,
                self.config.top_k as int,
                self.config.similarity_threshold as int,
            );
        let mut events: Vec<DriftEvent> = Vec::new();
        let mut i: usize = 0;
        proof {
            reveal(Seq::filter);
            assert(oseq.subrange(0, 0) =~= Seq::<DocChunk>::empty());
            assert(events@.len() == oseq.subrange(0, 0).filter(pred).len());
        }
        while i < old_chunks.len()
            invariant
                0 <= i <= old_chunks@.len(),
                oseq == old_chunks@,
                pred == (|d: DocChunk|
                    doc_removed_flagged(
                        d,
                        new_chunks@,
                        code_chunks@,
                        self.config.top_k as int,
                        self.config.similarity_threshold as int,
                    )),
                doc_embeddings_wf(old_chunks@),
                code_embeddings_wf(code_chunks@),
                ({
                    let flagged = oseq.subrange(0, i as int).filter(pred);
                    &&& events@.len() == flagged.len()
                    &&& forall|t: int|
                        0 <= t < flagged.len() ==> doc_removed_event_matches(
                            #[trigger] events@[t],
                            flagged[t],
                        )
                }),
            decreases old_chunks@.len() - i,
        {
            proof {
                reveal(Seq::filter);
                assert(oseq.subrange(0, i as int + 1).drop_last() =~= oseq.subrange(0, i as int));
                assert(oseq.subrange(0, i as int + 1).last() == oseq[i as int]);
            }
            let old = &old_chunks[i];
            let removed = match find_doc_by_id(new_chunks, old.id.as_str()) {
                Some(_) => false,
                None => true,
            };
            let related = self.find_related_code(old, code_chunks);
            let ghost d = oseq[i as int];
            proof {
                // The related list is non-empty exactly when the chunk has
                // an embedding and some code candidate reaches the
                // threshold within a positive top_k.
                match d.embedding {
                    Some(e) => {
                        if related@.len() > 0 {
                            assert(code_among(code_chunks@, related@[0]));
                            let j = choose|j: int|
                                0 <= j < code_chunks@.len() && same_code_chunk(
                                    related@[0],
                                    #[trigger] code_chunks@[j],
                                );
                            assert(code_sim(e@, code_chunks@[j]) == code_sim(e@, related@[0]));
                            assert(code_sim(e@, code_chunks@[j])
                                >= self.config.similarity_threshold);
                            assert(self.config.top_k >= 1);
                        } else {
                            if exists|j: int|
                                0 <= j < code_chunks@.len() && (#[trigger] code_chunks@[j]).embedding
                                    is Some && code_sim(e@, code_chunks@[j])
                                    >= self.config.similarity_threshold && self.config.top_k
                                    >= 1 {
                                let j = choose|j: int|
                                    0 <= j < code_chunks@.len()
                                        && (#[trigger] code_chunks@[j]).embedding is Some
                                        && code_sim(e@, code_chunks@[j])
                                        >= self.config.similarity_threshold;
                                assert(!code_among(related@, code_chunks@[j]));
                                assert(related@.len() == self.config.top_k);
                                assert(false);
                            }
                        }
                    },
                    None => {
                        assert(related@.len() == 0);
                    },
                }
            }
            if removed && related.len() > 0 {
                let mut desc = String::from_str("Documentation section removed: ");
                desc.append(old.heading.as_str());
                let event = DriftEvent::new(
                    DriftSeverity::Medium,
                    desc.as_str(),
                    "Documentation was removed but related code still exists",
                    800_000,
                ).with_doc_chunk(old.id.as_str());
                proof {
                    assert(event.related_doc_chunks.deep_view() =~= seq![d.id@]);
                    assert(event.related_code_chunks.deep_view() =~= Seq::<Seq<char>>::empty());
                    assert(pred(d));
                    assert(doc_removed_event_matches(event, d));
                }
                events.push(event);
            } else {
                proof {
                    assert(!pred(d));
                }
            }
            i = i + 1;
        }
        proof {
            assert(oseq.subrange(0, oseq.len() as int) =~= oseq);
        }
        events
    }
}

/// Whether a similarity result reports the pairing of the given chunks.
pub open spec fn sim_result_matches(s: SimilarityResult, c: CodeChunk, d: DocChunk) -> bool {
    match c.embedding {
        Some(e) => {
            &&& s.code_chunk_id@ == c.id@
            &&& s.doc_chunk_id@ == d.id@
            &&& d.embedding is Some
            &&& s.similarity as int == doc_sim(e@, d)
            &&& s.previous_similarity is None
        },
        None => false,
    }
}

/// The embedded pairings of one code chunk with the docs from `j` on: one
/// pair per doc chunk carrying an embedding, in input order.
pub open spec fn embedded_pairs_row(docs: Seq<DocChunk>, i: int, j: int) -> Seq<(int, int)>
    decreases docs.len() - j,
{
    if !(0 <= j < docs.len()) {
        Seq::empty()
    } else {
        (if docs[j].embedding is Some {
            seq![(i, j)]
        } else {
            Seq::<(int, int)>::empty()
        }) + embedded_pairs_row(docs, i, j + 1)
    }
}

/// The embedded pairings of the code chunks from `i` on with every doc
/// chunk: code-major, both sides in input order, chunks without embeddings
/// contributing nothing.
pub open spec fn embedded_pairs(
    codes: Seq<CodeChunk>,
    docs: Seq<DocChunk>,
    i: int,
) -> Seq<(int, int)>
    decreases codes.len() - i,
{
    if !(0 <= i < codes.len()) {
        Seq::empty()
    } else {
        (if codes[i].embedding is Some {
            embedded_pairs_row(docs, i, 0)
        } else {
            Seq::<(int, int)>::empty()
        }) + embedded_pairs(codes, docs, i + 1)
    }
}

/// Whether a result reports the indexed pairing.
pub open spec fn pair_result_ok(
    s: SimilarityResult,
    codes: Seq<CodeChunk>,
    docs: Seq<DocChunk>,
    p: (int, int),
) -> bool {
    &&& 0 <= p.0 < codes.len()
    &&& 0 <= p.1 < docs.len()
    &&& sim_result_matches(s, codes[p.0], docs[p.1])
}

impl DriftDetector {
    /// The similarity of every embedded code chunk with every embedded doc
    /// chunk: exactly one result per pair, code-major, in input order.
    pub fn compute_all_similarities(
        &self,
        code_chunks: &Vec<CodeChunk>,
        doc_chunks: &Vec<DocChunk>,
    ) -> (r: Vec<SimilarityResult>)
        requires
            code_embeddings_wf(code_chunks@),
            doc_embeddings_wf(doc_chunks@),
        ensures
            ({
                let pairs = embedded_pairs(code_chunks@, doc_chunks@, 0);
                &&& r@.len() == pairs.len()
                &&& forall|t: int|
                    0 <= t < pairs.len() ==> pair_result_ok(
                        #[trigger] r@[t],
                        code_chunks@,
                        doc_chunks@,
                        pairs[t],
                    )
            }),
    {
        let ghost pairs = embedded_pairs(code_chunks@, doc_chunks@, 0);
        let mut results: Vec<SimilarityResult> = Vec::new();
        let mut i: usize = 0;
        proof {
            assert(pairs.subrange(0, 0) =~= Seq::<(int, int)>::empty());
        }
        while i < code_chunks.len()
            invariant
                0 <= i <= code_chunks@.len(),
                pairs == embedded_pairs(code_chunks@, doc_chunks@, 0),
                code_embeddings_wf(code_chunks@),
                doc_embeddings_wf(doc_chunks@),
                results@.len() <= pairs.len(),
                pairs.subrange(results@.len() as int, pairs.len() as int) == embedded_pairs(
                    code_chunks@,
                    doc_chunks@,
                    i as int,
                ),
                forall|t: int|
                    0 <= t < results@.len() ==> pair_result_ok(
                        #[trigger] results@[t],
                        code_chunks@,
                        doc_chunks@,
                        pairs[t],
                    ),
            decreases code_chunks@.len() - i,
        {
            match &code_chunks[i].embedding {
                Some(ce) => {
                    let mut j: usize = 0;
                    proof {
                        assert(embedded_pairs(code_chunks@, doc_chunks@, i as int)
                            == embedded_pairs_row(doc_chunks@, i as int, 0) + embedded_pairs(
                            code_chunks@,
                            doc_chunks@,
                            i as int + 1,
                        ));
                    }
                    while j < doc_chunks.len()
                        invariant
                            0 <= i < code_chunks@.len(),
                            0 <= j <= doc_chunks@.len(),
                            pairs == embedded_pairs(code_chunks@, doc_chunks@, 0),
                            code_embeddings_wf(code_chunks@),
                            doc_embeddings_wf(doc_chunks@),
                            code_chunks@[i as int].embedding is Some,
                            ce@ == code_chunks@[i as int].embedding.unwrap()@,
                            embedding_wf(ce@),
                            results@.len() <= pairs.len(),
                            pairs.subrange(results@.len() as int, pairs.len() as int)
                                == embedded_pairs_row(doc_chunks@, i as int, j as int)
                                + embedded_pairs(code_chunks@, doc_chunks@, i as int + 1),
                            forall|t: int|
                                0 <= t < results@.len() ==> pair_result_ok(
                                    #[trigger] results@[t],
                                    code_chunks@,
                                    doc_chunks@,
                                    pairs[t],
                                ),
                        decreases doc_chunks@.len() - j,
                    {
                        let ghost rest = pairs.subrange(results@.len() as int, pairs.len() as int);
                        match &doc_chunks[j].embedding {
                            Some(de) => {
                                let s = cosine_similarity(ce, de);
                                let entry = SimilarityResult {
                                    code_chunk_id: code_chunks[i].id.clone(),
                                    doc_chunk_id: doc_chunks[j].id.clone(),
                                    similarity: s,
                                    previous_similarity: None,
                                };
                                let ghost pre = results@;
                                proof {
                                    assert(embedded_pairs_row(doc_chunks@, i as int, j as int)
                                        == seq![(i as int, j as int)] + embedded_pairs_row(
                                        doc_chunks@,
                                        i as int,
                                        j as int + 1,
                                    ));
                                    assert(rest.len() >= 1);
                                    assert((seq![(i as int, j as int)] + embedded_pairs_row(
                                        doc_chunks@,
                                        i as int,
                                        j as int + 1,
                                    ))[0] == (i as int, j as int));
                                    assert(rest[0] == (i as int, j as int));
                                    assert(rest =~= pairs.subrange(
                                        pre.len() as int,
                                        pairs.len() as int,
                                    ));
                                    assert(pairs.subrange(pre.len() as int, pairs.len() as int)[0]
                                        == pairs[pre.len() as int]);
                                    assert(pairs[pre.len() as int] == (i as int, j as int));
                                    assert(sim_result_matches(
                                        entry,
                                        code_chunks@[i as int],
                                        doc_chunks@[j as int],
                                    ));
                                }
                                results.push(entry);
                                proof {
                                    assert(pairs.subrange(
                                        results@.len() as int,
                                        pairs.len() as int,
                                    ) =~= rest.drop_first());
                                    assert(rest.drop_first() =~= embedded_pairs_row(
                                        doc_chunks@,
                                        i as int,
                                        j as int + 1,
                                    ) + embedded_pairs(code_chunks@, doc_chunks@, i as int + 1));
                                    assert forall|t: int|
                                        0 <= t < results@.len() implies pair_result_ok(
                                        #[trigger] results@[t],
                                        code_chunks@,
                                        doc_chunks@,
                                        pairs[t],
                                    ) by {
                                        if t < pre.len() {
                                            assert(results@[t] == pre[t]);
                                        } else {
                                            assert(results@[t] == entry);
                                            assert(pairs[t] == (i as int, j as int));
                                        }
                                    }
                                }
                            },
                            None => {
                                proof {
                                    assert(embedded_pairs_row(doc_chunks@, i as int, j as int)
                                        =~= embedded_pairs_row(doc_chunks@, i as int, j as int + 1));
                                }
                            },
                        }
                        j = j + 1;
                    }
                    proof {
                        assert(embedded_pairs_row(doc_chunks@, i as int, doc_chunks@.len() as int)
                            =~= Seq::<(int, int)>::empty());
                        assert(pairs.subrange(results@.len() as int, pairs.len() as int)
                            =~= embedded_pairs(code_chunks@, doc_chunks@, i as int + 1));
                    }
                },
                None => {
                    proof {
                        assert(embedded_pairs(code_chunks@, doc_chunks@, i as int)
                            =~= embedded_pairs(code_chunks@, doc_chunks@, i as int + 1));
                    }
                },
            }
            i = i + 1;
        }
        proof {
            assert(embedded_pairs(code_chunks@, doc_chunks@, code_chunks@.len() as int)
                =~= Seq::<(int, int)>::empty());
            assert(pairs.subrange(results@.len() as int, pairs.len() as int).len() == 0);
        }
        results
    }

    /// The doc chunks most similar to a code chunk, best first, at most
    /// `limit` of them, each with its similarity score; empty when the code
    /// chunk carries no embedding.
    pub fn find_best_matches(
        &self,
        code_chunk: &CodeChunk,
        doc_chunks: &Vec<DocChunk>,
        limit: usize,
    ) -> (r: Vec<(DocChunk, i64)>)
        requires
            match code_chunk.embedding {
                Some(e) => embedding_wf(e@),
                None => true,
            },
            doc_embeddings_wf(doc_chunks@),
        ensures
            match code_chunk.embedding {
                Some(ce) => {
                    &&& r@.len() <= limit
                    &&& forall|i: int|
                        0 <= i < r@.len() ==> doc_among(doc_chunks@, (#[trigger] r@[i]).0)
                    &&& forall|i: int|
                        0 <= i < r@.len() ==> (#[trigger] r@[i]).0.embedding is Some && r@[i].1
                            as int == doc_sim(ce@, r@[i].0)
                    &&& forall|i1: int, i2: int|
                        0 <= i1 < i2 < r@.len() ==> (#[trigger] r@[i1]).1 >= (#[trigger] r@[i2]).1
                    &&& forall|j: int|
                        0 <= j < doc_chunks@.len() && (#[trigger] doc_chunks@[j]).embedding is Some
                            ==> (exists|i: int|
                            0 <= i < r@.len() && same_doc_chunk(
                                (#[trigger] r@[i]).0,
                                doc_chunks@[j],
                            )) || (r@.len() == limit && forall|i: int|
                            0 <= i < r@.len() ==> (#[trigger] r@[i]).1 as int >= doc_sim(
                                ce@,
                                doc_chunks@[j],
                            ))
                },
                None => r@.len() == 0,
            },
    {
        let ce = match &code_chunk.embedding {
            Some(e) => e,
            None => {
                return Vec::new();
            },
        };
        let n = doc_chunks.len();
        let mut cands: Vec<(usize, i64)> = Vec::new();
        let mut j: usize = 0;
        while j < n
            invariant
                0 <= j <= n,
                n == doc_chunks@.len(),
                ce@ == code_chunk.embedding.unwrap()@,
                embedding_wf(ce@),
                doc_embeddings_wf(doc_chunks@),
                forall|t: int, u: int|
                    0 <= t < u < cands@.len() ==> (#[trigger] cands@[t]).0 < (
                    #[trigger] cands@[u]).0,
                forall|t: int|
                    0 <= t < cands@.len() ==> (#[trigger] cands@[t]).0 < j && doc_chunks@[cands@[t].0 as int].embedding is Some
                        && cands@[t].1 as int == doc_sim(ce@, doc_chunks@[cands@[t].0 as int]),
                forall|p: int|
                    0 <= p < j && (#[trigger] doc_chunks@[p]).embedding is Some ==> exists|t: int|
                        0 <= t < cands@.len() && (#[trigger] cands@[t]).0 == p,
            decreases n - j,
        {
            match &doc_chunks[j].embedding {
                Some(de) => {
                    let s = cosine_similarity(ce, de);
                    let ghost pre = cands@;
                    cands.push((j, s));
                    proof {
                        assert forall|p: int|
                            0 <= p < j + 1 && (#[trigger] doc_chunks@[p]).embedding
                                is Some implies exists|t: int|
                            0 <= t < cands@.len() && (#[trigger] cands@[t]).0 == p by {
                            if p < j {
                                let t = choose|t: int|
                                    0 <= t < pre.len() && (#[trigger] pre[t]).0 == p;
                                assert(cands@[t].0 == p);
                            } else {
                                assert(cands@[cands@.len() - 1].0 == p);
                            }
                        }
                    }
                },
                None => {},
            }
            j = j + 1;
        }
        // Every candidate clears the lowest possible floor, so nothing is
        // dropped for its score: this ranks and truncates alone.
        let sel = find_top_k(&cands, limit, i64::MIN);
        let mut out: Vec<(DocChunk, i64)> = Vec::new();
        let mut i: usize = 0;
        while i < sel.len()
            invariant
                n == doc_chunks@.len(),
                0 <= i <= sel@.len(),
                out@.len() == i,
                ce@ == code_chunk.embedding.unwrap()@,
                forall|t: int|
                    0 <= t < sel@.len() ==> (#[trigger] sel@[t]).0 < n && doc_chunks@[sel@[t].0 as int].embedding is Some
                        && sel@[t].1 as int == doc_sim(ce@, doc_chunks@[sel@[t].0 as int]),
                forall|t: int|
                    0 <= t < i ==> same_doc_chunk(
                        (#[trigger] out@[t]).0,
                        doc_chunks@[sel@[t].0 as int],
                    ) && out@[t].1 == sel@[t].1,
            decreases sel@.len() - i,
        {
            let idx = sel[i].0;
            let score = sel[i].1;
            out.push((doc_chunks[idx].clone(), score));
            i = i + 1;
        }
        proof {
            assert forall|t: int| 0 <= t < sel@.len() implies (#[trigger] sel@[t]).0 < n
                && doc_chunks@[sel@[t].0 as int].embedding is Some && sel@[t].1 as int == doc_sim(
                ce@,
                doc_chunks@[sel@[t].0 as int],
            ) by {
                assert(cands@.contains(sel@[t]));
                let w = choose|w: int| 0 <= w < cands@.len() && cands@[w] == sel@[t];
            }
            assert forall|i0: int| 0 <= i0 < out@.len() implies doc_among(
                doc_chunks@,
                (#[trigger] out@[i0]).0,
            ) by {
                let w = sel@[i0].0 as int;
                assert(0 <= w < doc_chunks@.len());
                assert(same_doc_chunk(out@[i0].0, doc_chunks@[w]));
            }
            assert forall|i0: int| 0 <= i0 < out@.len() implies (#[trigger] out@[i0]).0.embedding
                is Some && out@[i0].1 as int == doc_sim(ce@, out@[i0].0) by {
                assert(same_doc_chunk(out@[i0].0, doc_chunks@[sel@[i0].0 as int]));
            }
            assert forall|i1: int, i2: int| 0 <= i1 < i2 < out@.len() implies (
            #[trigger] out@[i1]).1 >= (#[trigger] out@[i2]).1 by {
                assert(crate::drift::similarity::ranks_above(sel@[i1], sel@[i2]));
            }
            assert forall|j0: int|
                0 <= j0 < doc_chunks@.len() && (#[trigger] doc_chunks@[j0]).embedding
                    is Some implies (exists|i0: int|
                0 <= i0 < out@.len() && same_doc_chunk(
                    (#[trigger] out@[i0]).0,
                    doc_chunks@[j0],
                )) || (out@.len() == limit && forall|i0: int|
                0 <= i0 < out@.len() ==> (#[trigger] out@[i0]).1 as int >= doc_sim(
                    ce@,
                    doc_chunks@[j0],
                )) by {
                let t = choose|t: int| 0 <= t < cands@.len() && (#[trigger] cands@[t]).0 == j0;
                let c = cands@[t];
                assert(cands@.contains(c));
                assert(c.1 >= i64::MIN);
                if sel@.contains(c) {
                    let i0 = choose|i0: int| 0 <= i0 < sel@.len() && sel@[i0] == c;
                    assert(same_doc_chunk(out@[i0].0, doc_chunks@[j0]));
                } else {
                    if sel@.len() < limit {
                        assert(sel@.contains(c));
                        assert(false);
                    }
                    assert forall|i0: int| 0 <= i0 < out@.len() implies (
                    #[trigger] out@[i0]).1 as int >= doc_sim(ce@, doc_chunks@[j0]) by {
                        assert(crate::drift::similarity::ranks_above(sel@[i0], c));
                    }
                }
            }
        }
        out
    }
}

} // verus!
