//! Extraction of semantic units from code files and documentation files.

pub mod code;
pub mod doc;
pub mod hash;
pub mod tree;

use vstd::prelude::*;

verus! {

/// Why extraction of one file failed. None of these ends a multi-file scan:
/// the caller skips the file and goes on with the others.
#[derive(Debug, Clone, Copy, PartialEq, Eq, Structural)]
pub enum ExtractError {
    /// The file extension maps to no known grammar.
    UnsupportedLanguage,
    /// The grammar-aware parser rejected the text.
    ParseFailure,
    /// The file content is not valid text.
    EncodingError,
}

/// Common interface of all extractable chunks.
pub trait Chunk {
    /// The unique identifier, as a mathematical value.
    spec fn spec_id(&self) -> Seq<char>;

    /// The raw text content, as a mathematical value.
    spec fn spec_content(&self) -> Seq<char>;

    /// The content hash, as a mathematical value.
    spec fn spec_hash(&self) -> Seq<char>;

    /// The file path, as a mathematical value.
    spec fn spec_file_path(&self) -> Seq<char>;

    /// The unique identifier for this chunk.
    fn id(&self) -> (r: &str)
        ensures
            r@ == self.spec_id(),
    ;

    /// The raw text content.
    fn content(&self) -> (r: &str)
        ensures
            r@ == self.spec_content(),
    ;

    /// The content hash.
    fn hash(&self) -> (r: &str)
        ensures
            r@ == self.spec_hash(),
    ;

    /// The file path this chunk came from.
    fn file_path(&self) -> (r: &str)
        ensures
            r@ == self.spec_file_path(),
    ;
}

impl Chunk for code::CodeChunk {
    open spec fn spec_id(&self) -> Seq<char> {
        self.id@
    }

    open spec fn spec_content(&self) -> Seq<char> {
        self.content@
    }

    open spec fn spec_hash(&self) -> Seq<char> {
        self.hash@
    }

    open spec fn spec_file_path(&self) -> Seq<char> {
        self.file_path@
    }

    fn id(&self) -> &str {
        self.id.as_str()
    }

    fn content(&self) -> &str {
        self.content.as_str()
    }

    fn hash(&self) -> &str {
        self.hash.as_str()
    }

    fn file_path(&self) -> &str {
        self.file_path.as_str()
    }
}

} // verus!
