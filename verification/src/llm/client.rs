//! The plain-text side of the model client: its configuration, responses,
//! and a scripted stand-in for tests. The network transport itself is an
//! external collaborator.

use crate::text;
use vstd::prelude::*;
use vstd::string::StringExecFns;

verus! {

/// A response from a model.
#[derive(Debug, Clone)]
pub struct LlmResponse {
    /// The generated content.
    pub content: String,
    /// Number of tokens used, if reported.
    pub tokens_used: Option<usize>,
}

/// Configuration for the model client.
#[derive(Debug, Clone)]
pub struct LlmConfig {
    /// API endpoint URL.
    pub endpoint: String,
    /// Model name.
    pub model: String,
    /// API key, if required.
    pub api_key: Option<String>,
    /// Maximum tokens for a response.
    pub max_tokens: usize,
    /// Sampling temperature, in millionths.
    pub temperature: i64,
}

impl Default for LlmConfig {
    /// The default client configuration: a local endpoint, a small default
    /// model, the default token budget and temperature.
    fn default() -> (r: LlmConfig)
        ensures
            r.endpoint@ == "http://localhost:11434"@,
            r.model@ == "llama2"@,
            r.api_key is None,
            r.max_tokens == 2048,
            r.temperature == 300_000,
    {
        LlmConfig {
            endpoint: String::from_str("http://localhost:11434"),
            model: String::from_str("llama2"),
            api_key: None,
            max_tokens: 2048,
            temperature: 300_000,
        }
    }
}

/// The answer a scripted client gives when no scripted key occurs in the
/// prompt.
pub open spec fn mock_default_answer() -> Seq<char> {
    "{\"summary\": \"Mock analysis\", \"reason\": \"Mock reason\", \"suggested_fix\": null, \"confidence\": 0.5}"@
}

/// For each scripted pair, whether its key occurs in the prompt.
pub open spec fn mock_hits(responses: Seq<(String, String)>, prompt: Seq<char>) -> Seq<bool> {
    Seq::new(responses.len(), |i: int| text::contains_seq(prompt, responses[i].0@))
}

/// A scripted model client for tests: it answers with the response whose
/// key occurs in the prompt.
pub struct MockLlmClient {
    /// The scripted pairs: a key to look for in the prompt, and the answer.
    pub responses: Vec<(String, String)>,
}

impl MockLlmClient {
    /// Create a new scripted client with no responses.
    pub fn new() -> (r: MockLlmClient)
        ensures
            r.responses@.len() == 0,
    {
        MockLlmClient { responses: Vec::new() }
    }

    /// Script a response for prompts holding the given key.
    pub fn add_response(&mut self, prompt_contains: &str, response: &str)
        ensures
            final(self).responses@.len() == old(self).responses@.len() + 1,
            final(self).responses@.last().0@ == prompt_contains@,
            final(self).responses@.last().1@ == response@,
            forall|i: int|
                0 <= i < old(self).responses@.len() ==> final(self).responses@[i] == old(
                    self,
                ).responses@[i],
    {
        self.responses.push((prompt_contains.to_owned(), response.to_owned()));
    }

    /// Complete a prompt: the first scripted answer whose key occurs in the
    /// prompt, or the default answer.
    pub fn complete(&self, prompt: &str) -> (r: LlmResponse)
        ensures
            ({
                let hits = mock_hits(self.responses@, prompt@);
                if exists|i: int| 0 <= i < hits.len() && #[trigger] hits[i] {
                    exists|i: int|
                        0 <= i < hits.len() && #[trigger] hits[i] && r.content@
                            == self.responses@[i].1@ && (forall|j: int| 0 <= j < i ==> !hits[j])
                            && r.tokens_used == Some(100usize)
                } else {
                    r.content@ == mock_default_answer() && r.tokens_used == Some(50usize)
                }
            }),
    {
        let ghost hits = mock_hits(self.responses@, prompt@);
        let mut i: usize = 0;
        while i < self.responses.len()
            invariant
                0 <= i <= self.responses@.len(),
                hits == mock_hits(self.responses@, prompt@),
                forall|t: int| 0 <= t < i ==> !hits[t],
            decreases self.responses@.len() - i,
        {
            if text::contains_str(prompt, self.responses[i].0.as_str()) {
                proof {
                    assert(hits[i as int]);
                    assert(exists|t: int| 0 <= t < hits.len() && #[trigger] hits[t]);
                }
                return LlmResponse { content: self.responses[i].1.clone(), tokens_used: Some(100) };
            }
            proof {
                assert(!hits[i as int]);
            }
            i = i + 1;
        }
        LlmResponse {
            content: String::from_str(
                "{\"summary\": \"Mock analysis\", \"reason\": \"Mock reason\", \"suggested_fix\": null, \"confidence\": 0.5}",
            ),
            tokens_used: Some(50),
        }
    }
}

} // verus!
