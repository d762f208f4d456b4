//! Code chunks: the semantic units extracted from source files.

use crate::extract::hash::{content_hash, sha256_hex_of};
use crate::extract::tree::{arena_wf, NodeKind, SyntaxNode, WALK_FUEL};
use crate::text;
use vstd::prelude::*;
use vstd::string::StrSliceExecFns;
use vstd::string::StringExecFns;

verus! {

/// Supported programming languages.
#[derive(Debug, Clone, Copy, PartialEq, Eq, Structural)]
pub enum Language {
    Rust,
    Python,
}

/// The written name of a language.
pub open spec fn language_label(l: Language) -> Seq<char> {
    match l {
        Language::Rust => "rust"@,
        Language::Python => "python"@,
    }
}

impl Language {
    /// Detect language from a file extension, letter case ignored.
    pub fn from_extension(ext: &str) -> (r: Option<Language>)
        ensures
            r == if crate::text::ascii_lower(ext@) == "rs"@ {
                Some(Language::Rust)
            } else if crate::text::ascii_lower(ext@) == "py"@ {
                Some(Language::Python)
            } else {
                None::<Language>
            },
    {
        if crate::text::eq_ignore_ascii_case_str(ext, "rs") {
            Some(Language::Rust)
        } else if crate::text::eq_ignore_ascii_case_str(ext, "py") {
            Some(Language::Python)
        } else {
            None
        }
    }

    /// The file extension for this language.
    pub fn extension(&self) -> (r: &'static str)
        ensures
            self is Rust ==> r@ == "rs"@,
            self is Python ==> r@ == "py"@,
    {
        match self {
            Language::Rust => "rs",
            Language::Python => "py",
        }
    }

    /// The written name of this language.
    pub fn label(&self) -> (r: String)
        ensures
            r@ == language_label(*self),
    {
        match self {
            Language::Rust => String::from_str("rust"),
            Language::Python => String::from_str("python"),
        }
    }
}

/// Type of code symbol.
#[derive(Debug, Clone, Copy, PartialEq, Eq, Structural)]
pub enum SymbolType {
    Function,
    Method,
    Struct,
    Class,
    Enum,
    Trait,
    Impl,
    Module,
    Constant,
}

/// The written name of a symbol type.
pub open spec fn symbol_type_label(t: SymbolType) -> Seq<char> {
    match t {
        SymbolType::Function => "function"@,
        SymbolType::Method => "method"@,
        SymbolType::Struct => "struct"@,
        SymbolType::Class => "class"@,
        SymbolType::Enum => "enum"@,
        SymbolType::Trait => "trait"@,
        SymbolType::Impl => "impl"@,
        SymbolType::Module => "module"@,
        SymbolType::Constant => "constant"@,
    }
}

impl SymbolType {
    /// The written name of this symbol type.
    pub fn label(&self) -> (r: String)
        ensures
            r@ == symbol_type_label(*self),
    {
        match self {
            SymbolType::Function => String::from_str("function"),
            SymbolType::Method => String::from_str("method"),
            SymbolType::Struct => String::from_str("struct"),
            SymbolType::Class => String::from_str("class"),
            SymbolType::Enum => String::from_str("enum"),
            SymbolType::Trait => String::from_str("trait"),
            SymbolType::Impl => String::from_str("impl"),
            SymbolType::Module => String::from_str("module"),
            SymbolType::Constant => String::from_str("constant"),
        }
    }
}

/// The identifier of a code chunk: file path and symbol name.
pub open spec fn code_chunk_id_of(file_path: Seq<char>, symbol_name: Seq<char>) -> Seq<char> {
    file_path + "::"@ + symbol_name
}

/// A semantic unit extracted from code.
#[derive(Debug)]
pub struct CodeChunk {
    /// Unique identifier (path + symbol name).
    pub id: String,
    /// File path relative to the repository root.
    pub file_path: String,
    /// Symbol name (function, class, struct name).
    pub symbol_name: String,
    /// Type of symbol.
    pub symbol_type: SymbolType,
    /// Raw text content.
    pub content: String,
    /// Content hash for change detection.
    pub hash: String,
    /// Programming language.
    pub language: Language,
    /// Line number where the symbol starts (1-indexed).
    pub start_line: usize,
    /// Line number where the symbol ends (1-indexed, inclusive).
    pub end_line: usize,
    /// Associated doc comment, if any.
    pub doc_comment: Option<String>,
    /// Function or method signature, if applicable.
    pub signature: Option<String>,
    /// Whether this is a public symbol.
    pub is_public: bool,
    /// Embedding vector in fixed-point millionths, populated later.
    pub embedding: Option<Vec<i64>>,
}

/// The fields a freshly constructed code chunk carries.
pub open spec fn code_chunk_fresh(
    c: CodeChunk,
    file_path: Seq<char>,
    symbol_name: Seq<char>,
    symbol_type: SymbolType,
    content: Seq<char>,
    language: Language,
    start_line: usize,
    end_line: usize,
) -> bool {
    &&& c.id@ == code_chunk_id_of(file_path, symbol_name)
    &&& c.file_path@ == file_path
    &&& c.symbol_name@ == symbol_name
    &&& c.symbol_type == symbol_type
    &&& c.content@ == content
    &&& c.hash@ == sha256_hex_of(content)
    &&& c.language == language
    &&& c.start_line == start_line
    &&& c.end_line == end_line
    &&& c.doc_comment is None
    &&& c.signature is None
    &&& c.is_public == false
    &&& c.embedding is None
}

impl CodeChunk {
    /// Create a new code chunk. The identifier derives deterministically from
    /// the file path and the qualified symbol name; the hash from the content.
    pub fn new(
        file_path: &str,
        symbol_name: &str,
        symbol_type: SymbolType,
        content: &str,
        language: Language,
        start_line: usize,
        end_line: usize,
    ) -> (r: CodeChunk)
        ensures
            code_chunk_fresh(
                r,
                file_path@,
                symbol_name@,
                symbol_type,
                content@,
                language,
                start_line,
                end_line,
            ),
    {
        let mut id = file_path.to_owned();
        id.append("::");
        id.append(symbol_name);
        let hash = content_hash(content);
        CodeChunk {
            id,
            file_path: file_path.to_owned(),
            symbol_name: symbol_name.to_owned(),
            symbol_type,
            content: content.to_owned(),
            hash,
            language,
            start_line,
            end_line,
            doc_comment: None,
            signature: None,
            is_public: false,
            embedding: None,
        }
    }

    /// The text that stands for this chunk when an embedding is requested:
    /// the doc comment if present, the signature if present, and a line
    /// naming the symbol, joined by newlines.
    pub fn embedding_text(&self) -> (r: String)
        ensures
            r@ == embedding_text_of(self),
    {
        let mut parts: Vec<String> = Vec::new();
        match &self.doc_comment {
            Some(doc) => {
                parts.push(doc.clone());
            },
            None => {},
        }
        match &self.signature {
            Some(sig) => {
                let mut line = String::from_str("Signature: ");
                line.append(sig.as_str());
                parts.push(line);
            },
            None => {},
        }
        let mut info = self.symbol_type.label();
        info.append(" ");
        info.append(self.symbol_name.as_str());
        info.append(" in ");
        info.append(self.file_path.as_str());
        parts.push(info);
        let r = crate::text::join_strings(&parts, "\n");
        proof {
            let docp: Seq<Seq<char>> = match &self.doc_comment {
                Some(d) => seq![d@],
                None => seq![],
            };
            let sigp: Seq<Seq<char>> = match &self.signature {
                Some(s) => seq![("Signature: "@ + s@)],
                None => seq![],
            };
            let info_line = symbol_type_label(self.symbol_type) + " "@ + self.symbol_name@
                + " in "@ + self.file_path@;
            assert(parts.deep_view() =~= docp + sigp + seq![info_line]);
        }
        r
    }
}

/// Whether two code chunks carry the same values in every field.
pub open spec fn same_code_chunk(a: CodeChunk, b: CodeChunk) -> bool {
    &&& a.id@ == b.id@
    &&& a.file_path@ == b.file_path@
    &&& a.symbol_name@ == b.symbol_name@
    &&& a.symbol_type == b.symbol_type
    &&& a.content@ == b.content@
    &&& a.hash@ == b.hash@
    &&& a.language == b.language
    &&& a.start_line == b.start_line
    &&& a.end_line == b.end_line
    &&& match (a.doc_comment, b.doc_comment) {
        (Some(x), Some(y)) => x@ == y@,
        (None, None) => true,
        _ => false,
    }
    &&& match (a.signature, b.signature) {
        (Some(x), Some(y)) => x@ == y@,
        (None, None) => true,
        _ => false,
    }
    &&& a.is_public == b.is_public
    &&& match (a.embedding, b.embedding) {
        (Some(x), Some(y)) => x@ == y@,
        (None, None) => true,
        _ => false,
    }
}

/// Copy an optional text.
pub fn clone_opt_string(v: &Option<String>) -> (r: Option<String>)
    ensures
        match (r, v) {
            (Some(x), Some(y)) => x@ == y@,
            (None, None) => true,
            _ => false,
        },
{
    match v {
        Some(s) => Some(s.clone()),
        None => None,
    }
}

/// Copy an optional embedding.
pub fn clone_opt_scores(v: &Option<Vec<i64>>) -> (r: Option<Vec<i64>>)
    ensures
        match (r, v) {
            (Some(x), Some(y)) => x@ == y@,
            (None, None) => true,
            _ => false,
        },
{
    match v {
        Some(e) => {
            let n = e.len();
            let mut out: Vec<i64> = Vec::new();
            let mut i: usize = 0;
            while i < n
                invariant
                    0 <= i <= n,
                    n == e@.len(),
                    out@ == e@.subrange(0, i as int),
                decreases n - i,
            {
                out.push(e[i]);
                proof {
                    assert(out@ =~= e@.subrange(0, i as int + 1));
                }
                i = i + 1;
            }
            proof {
                assert(e@.subrange(0, n as int) =~= e@);
            }
            Some(out)
        },
        None => None,
    }
}

impl Clone for CodeChunk {
    /// A copy that carries the same values in every field.
    fn clone(&self) -> (r: CodeChunk)
        ensures
            same_code_chunk(r, *self),
    {
        CodeChunk {
            id: self.id.clone(),
            file_path: self.file_path.clone(),
            symbol_name: self.symbol_name.clone(),
            symbol_type: self.symbol_type,
            content: self.content.clone(),
            hash: self.hash.clone(),
            language: self.language,
            start_line: self.start_line,
            end_line: self.end_line,
            doc_comment: clone_opt_string(&self.doc_comment),
            signature: clone_opt_string(&self.signature),
            is_public: self.is_public,
            embedding: clone_opt_scores(&self.embedding),
        }
    }
}

/// The embedding text of a code chunk: its optional doc comment, its
/// optional signature line, and a line naming the symbol, newline-joined.
pub open spec fn embedding_text_of(c: &CodeChunk) -> Seq<char> {
    let docp: Seq<Seq<char>> = match c.doc_comment {
        Some(d) => seq![d@],
        None => seq![],
    };
    let sigp: Seq<Seq<char>> = match c.signature {
        Some(s) => seq![("Signature: "@ + s@)],
        None => seq![],
    };
    let info_line = symbol_type_label(c.symbol_type) + " "@ + c.symbol_name@ + " in "@
        + c.file_path@;
    crate::text::join_with_sep(docp + sigp + seq![info_line], "\n"@)
}

/// Whether a node carries an explicit public-visibility child.
pub open spec fn vis_child(nodes: Seq<SyntaxNode>, kids: Seq<usize>) -> bool {
    exists|c: int|
        0 <= c < kids.len() && (#[trigger] kids[c]) < nodes.len() && nodes[kids[c] as int].kind
            == NodeKind::Visibility && text::starts_with_seq(nodes[kids[c] as int].text@, "pub"@)
}

/// The commented documentation lines ending at line index `k` (0-indexed):
/// the run of `///` lines directly above the node, in file order, each with
/// the marker removed and trimmed. The run stops at the first blank or
/// non-comment line.
pub open spec fn rust_doc_lines(lines: Seq<Seq<char>>, k: int) -> Seq<Seq<char>>
    decreases k + 1,
{
    if k < 0 || k >= lines.len() {
        Seq::empty()
    } else {
        let t = text::trim_of(lines[k]);
        if text::starts_with_seq(t, "///"@) && 3 <= t.len() {
            rust_doc_lines(lines, k - 1).push(text::trim_of(t.subrange(3, t.len() as int)))
        } else {
            Seq::empty()
        }
    }
}

/// The doc comment attached to a node starting at the given 1-indexed line:
/// the preceding documentation lines joined by newlines, absent when there
/// are none.
pub open spec fn rust_doc_comment_of(lines: Seq<Seq<char>>, start_line: int) -> Option<Seq<char>> {
    let ls = rust_doc_lines(lines, start_line - 2);
    if ls.len() == 0 {
        None
    } else {
        Some(text::join_with_sep(ls, "\n"@))
    }
}

/// The length of the text of the first body child, if the node has one.
pub open spec fn first_block_text_len(nodes: Seq<SyntaxNode>, kids: Seq<usize>) -> Option<int>
    decreases kids.len(),
{
    if kids.len() == 0 {
        None
    } else if kids[0] < nodes.len() && nodes[kids[0] as int].kind == NodeKind::Block {
        Some(nodes[kids[0] as int].text@.len() as int)
    } else {
        first_block_text_len(nodes, kids.drop_first())
    }
}

/// The signature of a function node: its text up to the start of its body,
/// trimmed; the whole text, trimmed, when it has no body.
pub open spec fn rust_sig_of(nodes: Seq<SyntaxNode>, node: SyntaxNode) -> Seq<char> {
    match first_block_text_len(nodes, node.children@) {
        Some(bl) => if 0 <= bl <= node.text@.len() {
            text::trim_of(node.text@.take(node.text@.len() - bl))
        } else {
            text::trim_of(node.text@)
        },
        None => text::trim_of(node.text@),
    }
}

/// Whether an optional text matches an optional mathematical text.
pub open spec fn opt_text_matches(a: Option<String>, b: Option<Seq<char>>) -> bool {
    match (a, b) {
        (Some(x), Some(y)) => x@ == y,
        (None, None) => true,
        _ => false,
    }
}

/// Whether a chunk renders one named declaration node of a Rust file.
pub open spec fn rust_plain_chunk(
    c: CodeChunk,
    nodes: Seq<SyntaxNode>,
    node: SyntaxNode,
    lines: Seq<Seq<char>>,
    file: Seq<char>,
    st: SymbolType,
    with_sig: bool,
) -> bool {
    match node.name {
        Some(nm) => {
            &&& c.id@ == code_chunk_id_of(file, nm@)
            &&& c.file_path@ == file
            &&& c.symbol_name@ == nm@
            &&& c.symbol_type == st
            &&& c.content@ == node.text@
            &&& c.hash@ == sha256_hex_of(node.text@)
            &&& c.language == Language::Rust
            &&& c.start_line == node.start_line
            &&& c.end_line == node.end_line
            &&& opt_text_matches(c.doc_comment, rust_doc_comment_of(lines, node.start_line as int))
            &&& if with_sig {
                opt_text_matches(c.signature, Some(rust_sig_of(nodes, node)))
            } else {
                c.signature is None
            }
            &&& c.is_public == vis_child(nodes, node.children@)
            &&& c.embedding is None
        },
        None => false,
    }
}

/// The qualified name of a method: the implemented type's name, or a
/// placeholder when the block names none, joined to the method name.
pub open spec fn method_qualifier(impl_node: SyntaxNode) -> Seq<char> {
    match impl_node.impl_type {
        Some(t) => t@,
        None => "Unknown"@,
    }
}

/// Whether a chunk renders one method of an implementation block.
pub open spec fn rust_method_chunk(
    c: CodeChunk,
    nodes: Seq<SyntaxNode>,
    impl_node: SyntaxNode,
    fn_node: SyntaxNode,
    lines: Seq<Seq<char>>,
    file: Seq<char>,
) -> bool {
    match fn_node.name {
        Some(nm) => {
            let full = method_qualifier(impl_node) + "::"@ + nm@;
            &&& c.id@ == code_chunk_id_of(file, full)
            &&& c.file_path@ == file
            &&& c.symbol_name@ == full
            &&& c.symbol_type == SymbolType::Method
            &&& c.content@ == fn_node.text@
            &&& c.hash@ == sha256_hex_of(fn_node.text@)
            &&& c.language == Language::Rust
            &&& c.start_line == fn_node.start_line
            &&& c.end_line == fn_node.end_line
            &&& opt_text_matches(
                c.doc_comment,
                rust_doc_comment_of(lines, fn_node.start_line as int),
            )
            &&& opt_text_matches(c.signature, Some(rust_sig_of(nodes, fn_node)))
            &&& c.is_public == vis_child(nodes, fn_node.children@)
            &&& c.embedding is None
        },
        None => false,
    }
}

/// Whether a node has an explicit public-visibility child.
fn has_rust_visibility(nodes: &Vec<SyntaxNode>, i: usize) -> (r: bool)
    requires
        arena_wf(nodes@),
        i < nodes@.len(),
    ensures
        r == vis_child(nodes@, nodes@[i as int].children@),
{
    let kids = &nodes[i].children;
    let mut c: usize = 0;
    while c < kids.len()
        invariant
            0 <= c <= kids@.len(),
            kids@ == nodes@[i as int].children@,
            arena_wf(nodes@),
            i < nodes@.len(),
            forall|t: int|
                0 <= t < c ==> !((#[trigger] kids@[t]) < nodes@.len()
                    && nodes@[kids@[t] as int].kind == NodeKind::Visibility
                    && text::starts_with_seq(nodes@[kids@[t] as int].text@, "pub"@)),
        decreases kids@.len() - c,
    {
        let k = kids[c];
        proof {
            assert(nodes@[i as int].children@[c as int] == kids@[c as int]);
        }
        if matches!(nodes[k].kind, NodeKind::Visibility) {
            if text::starts_with_str(nodes[k].text.as_str(), "pub") {
                return true;
            }
        }
        c = c + 1;
    }
    false
}

/// The commented documentation lines whose run ends just above the line
/// index `kp1` (1-indexed end of the run, 0 for none), in file order.
fn doc_lines_upto(lines: &Vec<String>, kp1: usize) -> (r: Vec<String>)
    ensures
        r.deep_view() == rust_doc_lines(lines.deep_view(), kp1 as int - 1),
    decreases kp1,
{
    if kp1 == 0 || kp1 > lines.len() {
        let r: Vec<String> = Vec::new();
        proof {
            assert(r.deep_view() =~= Seq::<Seq<char>>::empty());
        }
        return r;
    }
    let t = text::trim_str(lines[kp1 - 1].as_str());
    let tn = t.unicode_len();
    proof {
        assert(lines.deep_view()[kp1 - 1] == lines@[kp1 - 1]@);
    }
    if text::starts_with_str(t.as_str(), "///") {
        proof {
            reveal_strlit("///");
        }
        let piece = t.as_str().substring_char(3, tn);
        let stripped = text::trim_str(piece);
        let mut v = doc_lines_upto(lines, kp1 - 1);
        let ghost pre = v.deep_view();
        v.push(stripped);
        proof {
            assert(v.deep_view() =~= pre.push(stripped@));
        }
        v
    } else {
        let r: Vec<String> = Vec::new();
        proof {
            assert(r.deep_view() =~= Seq::<Seq<char>>::empty());
        }
        r
    }
}

/// The doc comment attached to a node starting at the given 1-indexed line.
fn extract_rust_doc_comment(lines: &Vec<String>, start_line: usize) -> (r: Option<String>)
    ensures
        opt_text_matches(r, rust_doc_comment_of(lines.deep_view(), start_line as int)),
{
    let kp1 = if start_line >= 1 {
        start_line - 1
    } else {
        0
    };
    let ls = doc_lines_upto(lines, kp1);
    proof {
        if start_line == 0 {
            assert(rust_doc_lines(lines.deep_view(), -1) =~= Seq::<Seq<char>>::empty());
            assert(rust_doc_lines(lines.deep_view(), -2) =~= Seq::<Seq<char>>::empty());
        }
    }
    if ls.len() == 0 {
        None
    } else {
        Some(text::join_strings(&ls, "\n"))
    }
}

/// The signature of a function node: its text up to its body.
fn extract_rust_function_signature(nodes: &Vec<SyntaxNode>, i: usize) -> (r: String)
    requires
        arena_wf(nodes@),
        i < nodes@.len(),
    ensures
        r@ == rust_sig_of(nodes@, nodes@[i as int]),
{
    let kids = &nodes[i].children;
    let ghost kseq = nodes@[i as int].children@;
    let mut c: usize = 0;
    proof {
        assert(kseq.subrange(0, kseq.len() as int) =~= kseq);
    }
    while c < kids.len()
        invariant
            0 <= c <= kids@.len(),
            kids@ == kseq,
            arena_wf(nodes@),
            i < nodes@.len(),
            kseq == nodes@[i as int].children@,
            first_block_text_len(nodes@, kseq) == first_block_text_len(
                nodes@,
                kseq.subrange(c as int, kseq.len() as int),
            ),
        decreases kids@.len() - c,
    {
        let k = kids[c];
        let ghost sub = kseq.subrange(c as int, kseq.len() as int);
        proof {
            assert(sub[0] == kseq[c as int]);
            assert(sub.drop_first() =~= kseq.subrange(c as int + 1, kseq.len() as int));
        }
        if matches!(nodes[k].kind, NodeKind::Block) {
            let bl = nodes[k].text.unicode_len();
            let txt = &nodes[i].text;
            let tn = txt.unicode_len();
            if bl <= tn {
                let piece = txt.as_str().substring_char(0, tn - bl);
                proof {
                    assert(nodes@[i as int].text@.take(nodes@[i as int].text@.len() - bl) =~= piece@);
                }
                return text::trim_str(piece);
            } else {
                return text::trim_str(txt.as_str());
            }
        }
        c = c + 1;
    }
    proof {
        assert(kseq.subrange(kseq.len() as int, kseq.len() as int) =~= Seq::<usize>::empty());
    }
    text::trim_str(nodes[i].text.as_str())
}

/// Extract one named declaration node as a chunk of the given symbol type.
fn extract_rust_plain(
    nodes: &Vec<SyntaxNode>,
    i: usize,
    lines: &Vec<String>,
    file_path: &str,
    st: SymbolType,
    with_sig: bool,
) -> (r: Option<CodeChunk>)
    requires
        arena_wf(nodes@),
        i < nodes@.len(),
    ensures
        match r {
            Some(c) => rust_plain_chunk(
                c,
                nodes@,
                nodes@[i as int],
                lines.deep_view(),
                file_path@,
                st,
                with_sig,
            ),
            None => nodes@[i as int].name is None,
        },
{
    let name = match &nodes[i].name {
        Some(nm) => nm.clone(),
        None => {
            return None;
        },
    };
    let mut chunk = CodeChunk::new(
        file_path,
        name.as_str(),
        st,
        nodes[i].text.as_str(),
        Language::Rust,
        nodes[i].start_line,
        nodes[i].end_line,
    );
    chunk.is_public = has_rust_visibility(nodes, i);
    chunk.doc_comment = extract_rust_doc_comment(lines, nodes[i].start_line);
    if with_sig {
        chunk.signature = Some(extract_rust_function_signature(nodes, i));
    }
    Some(chunk)
}

/// Extract one method of an implementation block as a chunk.
fn extract_rust_method(
    nodes: &Vec<SyntaxNode>,
    impl_i: usize,
    fn_j: usize,
    lines: &Vec<String>,
    file_path: &str,
) -> (r: Option<CodeChunk>)
    requires
        arena_wf(nodes@),
        impl_i < nodes@.len(),
        fn_j < nodes@.len(),
    ensures
        match r {
            Some(c) => rust_method_chunk(
                c,
                nodes@,
                nodes@[impl_i as int],
                nodes@[fn_j as int],
                lines.deep_view(),
                file_path@,
            ),
            None => nodes@[fn_j as int].name is None,
        },
{
    let name = match &nodes[fn_j].name {
        Some(nm) => nm.clone(),
        None => {
            return None;
        },
    };
    let mut full = match &nodes[impl_i].impl_type {
        Some(t) => t.clone(),
        None => String::from_str("Unknown"),
    };
    full.append("::");
    full.append(name.as_str());
    let mut chunk = CodeChunk::new(
        file_path,
        full.as_str(),
        SymbolType::Method,
        nodes[fn_j].text.as_str(),
        Language::Rust,
        nodes[fn_j].start_line,
        nodes[fn_j].end_line,
    );
    chunk.is_public = has_rust_visibility(nodes, fn_j);
    chunk.doc_comment = extract_rust_doc_comment(lines, nodes[fn_j].start_line);
    chunk.signature = Some(extract_rust_function_signature(nodes, fn_j));
    Some(chunk)
}

/// One chunk the Rust walker owes: a named declaration of its own, or a
/// method of an implementation block's member list.
pub enum RustEmission {
    /// A named declaration node, with its symbol type and whether a
    /// signature is extracted.
    Plain { node: int, st: SymbolType, with_sig: bool },
    /// A function item of an implementation block's member list.
    Method { impl_node: int, fn_node: int },
}

/// The emission a declaration node owes: itself when it carries a name,
/// nothing otherwise.
pub open spec fn plain_em(
    nodes: Seq<SyntaxNode>,
    i: int,
    st: SymbolType,
    with_sig: bool,
) -> Seq<RustEmission> {
    if 0 <= i < nodes.len() && nodes[i].name is Some {
        seq![RustEmission::Plain { node: i, st, with_sig }]
    } else {
        Seq::empty()
    }
}

/// The chunks the subtree at `i` owes, in depth-first declaration order:
/// named functions with signatures, named type declarations without, and
/// for an implementation block the methods of its member lists — emitted
/// there alone, never again through the generic path.
pub open spec fn rust_ems_at(nodes: Seq<SyntaxNode>, i: int) -> Seq<RustEmission>
    decreases nodes.len() - i, nodes[i].children@.len() + 2int,
{
    if !(0 <= i < nodes.len()) {
        Seq::empty()
    } else {
        match nodes[i].kind {
            NodeKind::FunctionItem => plain_em(nodes, i, SymbolType::Function, true)
                + rust_ems_kids(nodes, i, 0),
            NodeKind::StructItem => plain_em(nodes, i, SymbolType::Struct, false)
                + rust_ems_kids(nodes, i, 0),
            NodeKind::EnumItem => plain_em(nodes, i, SymbolType::Enum, false) + rust_ems_kids(
                nodes,
                i,
                0,
            ),
            NodeKind::TraitItem => plain_em(nodes, i, SymbolType::Trait, false) + rust_ems_kids(
                nodes,
                i,
                0,
            ),
            NodeKind::ImplItem => rust_impl_ems(nodes, i, 0),
            _ => rust_ems_kids(nodes, i, 0),
        }
    }
}

/// The chunks the children of `i` from position `k` on owe, in order.
pub open spec fn rust_ems_kids(nodes: Seq<SyntaxNode>, i: int, k: int) -> Seq<RustEmission>
    decreases nodes.len() - i, nodes[i].children@.len() - k,
{
    if !(0 <= i < nodes.len()) || !(0 <= k < nodes[i].children@.len()) {
        Seq::empty()
    } else {
        let c = nodes[i].children@[k] as int;
        (if i < c < nodes.len() {
            rust_ems_at(nodes, c)
        } else {
            Seq::empty()
        }) + rust_ems_kids(nodes, i, k + 1)
    }
}

/// The methods an implementation block owes: one per named function item of
/// each of its member lists, in order.
pub open spec fn rust_impl_ems(nodes: Seq<SyntaxNode>, i: int, k: int) -> Seq<RustEmission>
    decreases nodes.len() - i, nodes[i].children@.len() - k,
{
    if !(0 <= i < nodes.len()) || !(0 <= k < nodes[i].children@.len()) {
        Seq::empty()
    } else {
        let d = nodes[i].children@[k] as int;
        (if i < d < nodes.len() && nodes[d].kind == NodeKind::DeclarationList {
            rust_member_ems(nodes, i, d, 0)
        } else {
            Seq::empty()
        }) + rust_impl_ems(nodes, i, k + 1)
    }
}

/// The methods one member list owes from position `m` on.
pub open spec fn rust_member_ems(
    nodes: Seq<SyntaxNode>,
    impl_i: int,
    d: int,
    m: int,
) -> Seq<RustEmission>
    decreases nodes.len() - d, nodes[d].children@.len() - m,
{
    if !(0 <= d < nodes.len()) || !(0 <= m < nodes[d].children@.len()) {
        Seq::empty()
    } else {
        let j = nodes[d].children@[m] as int;
        (if 0 <= j < nodes.len() && nodes[j].kind == NodeKind::FunctionItem && nodes[j].name
            is Some {
            seq![RustEmission::Method { impl_node: impl_i, fn_node: j }]
        } else {
            Seq::empty()
        }) + rust_member_ems(nodes, impl_i, d, m + 1)
    }
}

/// Every chunk a lowered Rust tree owes, in depth-first declaration order.
pub open spec fn rust_emissions(nodes: Seq<SyntaxNode>) -> Seq<RustEmission> {
    rust_ems_at(nodes, 0)
}

/// Whether a chunk renders the given owed emission.
pub open spec fn rust_em_matches(
    c: CodeChunk,
    e: RustEmission,
    nodes: Seq<SyntaxNode>,
    lines: Seq<Seq<char>>,
    file: Seq<char>,
) -> bool {
    match e {
        RustEmission::Plain { node, st, with_sig } => 0 <= node < nodes.len() && rust_plain_chunk(
            c,
            nodes,
            nodes[node],
            lines,
            file,
            st,
            with_sig,
        ),
        RustEmission::Method { impl_node, fn_node } => 0 <= impl_node < nodes.len() && 0 <= fn_node
            < nodes.len() && rust_method_chunk(
            c,
            nodes,
            nodes[impl_node],
            nodes[fn_node],
            lines,
            file,
        ),
    }
}

/// What every walker step guarantees: the owed emissions were appended, as
/// matching chunks, behind an untouched prefix.
pub open spec fn appended_match(
    pre: Seq<CodeChunk>,
    post: Seq<CodeChunk>,
    ems: Seq<RustEmission>,
    nodes: Seq<SyntaxNode>,
    lines: Seq<Seq<char>>,
    file: Seq<char>,
) -> bool {
    &&& post.len() == pre.len() + ems.len()
    &&& forall|t: int| 0 <= t < pre.len() ==> post[t] == pre[t]
    &&& forall|t: int|
        0 <= t < ems.len() ==> rust_em_matches(#[trigger] post[pre.len() + t], ems[t], nodes, lines, file)
}

/// Extract the subtree at `i`: the node's own chunk where one is owed, then
/// its descendants in declaration order.
fn walk_rust_at(
    nodes: &Vec<SyntaxNode>,
    i: usize,
    lines: &Vec<String>,
    file_path: &str,
    out: &mut Vec<CodeChunk>,
)
    requires
        arena_wf(nodes@),
        i < nodes@.len(),
    ensures
        appended_match(
            old(out)@,
            final(out)@,
            rust_ems_at(nodes@, i as int),
            nodes@,
            lines.deep_view(),
            file_path@,
        ),
    decreases nodes@.len() - i, nodes@[i as int].children@.len() + 2int,
{
    let ghost pre = out@;
    let ghost ems = rust_ems_at(nodes@, i as int);
    match nodes[i].kind {
        NodeKind::FunctionItem => {
            walk_rust_decl(nodes, i, SymbolType::Function, true, lines, file_path, out);
        },
        NodeKind::StructItem => {
            walk_rust_decl(nodes, i, SymbolType::Struct, false, lines, file_path, out);
        },
        NodeKind::EnumItem => {
            walk_rust_decl(nodes, i, SymbolType::Enum, false, lines, file_path, out);
        },
        NodeKind::TraitItem => {
            walk_rust_decl(nodes, i, SymbolType::Trait, false, lines, file_path, out);
        },
        NodeKind::ImplItem => {
            walk_rust_impl(nodes, i, 0, lines, file_path, out);
        },
        _ => {
            walk_rust_kids(nodes, i, 0, lines, file_path, out);
        },
    }
}

/// Extract a named declaration node, then its descendants.
fn walk_rust_decl(
    nodes: &Vec<SyntaxNode>,
    i: usize,
    st: SymbolType,
    with_sig: bool,
    lines: &Vec<String>,
    file_path: &str,
    out: &mut Vec<CodeChunk>,
)
    requires
        arena_wf(nodes@),
        i < nodes@.len(),
    ensures
        appended_match(
            old(out)@,
            final(out)@,
            plain_em(nodes@, i as int, st, with_sig) + rust_ems_kids(nodes@, i as int, 0),
            nodes@,
            lines.deep_view(),
            file_path@,
        ),
    decreases nodes@.len() - i, nodes@[i as int].children@.len() + 1int,
{
    let ghost pre = out@;
    let ghost own = plain_em(nodes@, i as int, st, with_sig);
    match extract_rust_plain(nodes, i, lines, file_path, st, with_sig) {
        Some(chunk) => {
            proof {
                assert(own.len() == 1);
                assert(rust_em_matches(
                    chunk,
                    own[0],
                    nodes@,
                    lines.deep_view(),
                    file_path@,
                ));
            }
            out.push(chunk);
        },
        None => {
            proof {
                assert(own.len() == 0);
            }
        },
    }
    let ghost mid = out@;
    walk_rust_kids(nodes, i, 0, lines, file_path, out);
    proof {
        let kids = rust_ems_kids(nodes@, i as int, 0);
        let ems = own + kids;
        assert forall|t: int| 0 <= t < ems.len() implies rust_em_matches(
            #[trigger] out@[pre.len() + t],
            ems[t],
            nodes@,
            lines.deep_view(),
            file_path@,
        ) by {
            if t < own.len() {
                assert(out@[pre.len() + t] == mid[pre.len() + t]);
                assert(ems[t] == own[t]);
            } else {
                assert(ems[t] == kids[t - own.len()]);
                assert(out@[mid.len() + (t - own.len())] == out@[pre.len() + t]);
            }
        }
    }
}

/// Extract the subtrees of the children of `i` from position `k` on.
fn walk_rust_kids(
    nodes: &Vec<SyntaxNode>,
    i: usize,
    k: usize,
    lines: &Vec<String>,
    file_path: &str,
    out: &mut Vec<CodeChunk>,
)
    requires
        arena_wf(nodes@),
        i < nodes@.len(),
    ensures
        appended_match(
            old(out)@,
            final(out)@,
            rust_ems_kids(nodes@, i as int, k as int),
            nodes@,
            lines.deep_view(),
            file_path@,
        ),
    decreases nodes@.len() - i, nodes@[i as int].children@.len() - k,
{
    let ghost pre = out@;
    let ghost ems = rust_ems_kids(nodes@, i as int, k as int);
    if k >= nodes[i].children.len() {
        proof {
            assert(ems.len() == 0);
        }
        return ;
    }
    let c = nodes[i].children[k];
    proof {
        assert(nodes@[i as int].children@[k as int] == c);
        assert(i < c < nodes@.len());
    }
    walk_rust_at(nodes, c, lines, file_path, out);
    let ghost mid = out@;
    let ghost head = rust_ems_at(nodes@, c as int);
    walk_rust_kids(nodes, i, k + 1, lines, file_path, out);
    proof {
        let tail = rust_ems_kids(nodes@, i as int, k as int + 1);
        assert(ems == head + tail);
        assert forall|t: int| 0 <= t < ems.len() implies rust_em_matches(
            #[trigger] out@[pre.len() + t],
            ems[t],
            nodes@,
            lines.deep_view(),
            file_path@,
        ) by {
            if t < head.len() {
                assert(out@[pre.len() + t] == mid[pre.len() + t]);
                assert(ems[t] == head[t]);
            } else {
                assert(ems[t] == tail[t - head.len()]);
                assert(out@[mid.len() + (t - head.len())] == out@[pre.len() + t]);
            }
        }
    }
}

/// Extract the methods of an implementation block: one chunk per named
/// function item of each member list from position `k` on; the block's
/// subtree is not entered again through the generic path.
fn walk_rust_impl(
    nodes: &Vec<SyntaxNode>,
    i: usize,
    k: usize,
    lines: &Vec<String>,
    file_path: &str,
    out: &mut Vec<CodeChunk>,
)
    requires
        arena_wf(nodes@),
        i < nodes@.len(),
    ensures
        appended_match(
            old(out)@,
            final(out)@,
            rust_impl_ems(nodes@, i as int, k as int),
            nodes@,
            lines.deep_view(),
            file_path@,
        ),
    decreases nodes@.len() - i, nodes@[i as int].children@.len() - k,
{
    let ghost pre = out@;
    let ghost ems = rust_impl_ems(nodes@, i as int, k as int);
    if k >= nodes[i].children.len() {
        proof {
            assert(ems.len() == 0);
        }
        return ;
    }
    let d = nodes[i].children[k];
    proof {
        assert(nodes@[i as int].children@[k as int] == d);
        assert(i < d < nodes@.len());
    }
    let ghost head = if i < d && (d as int) < nodes@.len() && nodes@[d as int].kind
        == NodeKind::DeclarationList {
        rust_member_ems(nodes@, i as int, d as int, 0)
    } else {
        Seq::<RustEmission>::empty()
    };
    if matches!(nodes[d].kind, NodeKind::DeclarationList) {
        walk_rust_members(nodes, i, d, 0, lines, file_path, out);
    }
    let ghost mid = out@;
    walk_rust_impl(nodes, i, k + 1, lines, file_path, out);
    proof {
        let tail = rust_impl_ems(nodes@, i as int, k as int + 1);
        assert(ems == head + tail);
        assert forall|t: int| 0 <= t < ems.len() implies rust_em_matches(
            #[trigger] out@[pre.len() + t],
            ems[t],
            nodes@,
            lines.deep_view(),
            file_path@,
        ) by {
            if t < head.len() {
                assert(out@[pre.len() + t] == mid[pre.len() + t]);
                assert(ems[t] == head[t]);
            } else {
                assert(ems[t] == tail[t - head.len()]);
                assert(out@[mid.len() + (t - head.len())] == out@[pre.len() + t]);
            }
        }
    }
}

/// Extract one method chunk per named function item of a member list, from
/// position `m` on.
fn walk_rust_members(
    nodes: &Vec<SyntaxNode>,
    impl_i: usize,
    d: usize,
    m: usize,
    lines: &Vec<String>,
    file_path: &str,
    out: &mut Vec<CodeChunk>,
)
    requires
        arena_wf(nodes@),
        impl_i < nodes@.len(),
        d < nodes@.len(),
    ensures
        appended_match(
            old(out)@,
            final(out)@,
            rust_member_ems(nodes@, impl_i as int, d as int, m as int),
            nodes@,
            lines.deep_view(),
            file_path@,
        ),
    decreases nodes@.len() - d, nodes@[d as int].children@.len() - m,
{
    let ghost pre = out@;
    let ghost ems = rust_member_ems(nodes@, impl_i as int, d as int, m as int);
    if m >= nodes[d].children.len() {
        proof {
            assert(ems.len() == 0);
        }
        return ;
    }
    let j = nodes[d].children[m];
    proof {
        assert(nodes@[d as int].children@[m as int] == j);
        assert(d < j < nodes@.len());
    }
    let ghost own = if nodes@[j as int].kind == NodeKind::FunctionItem && nodes@[j as int].name
        is Some {
        seq![RustEmission::Method { impl_node: impl_i as int, fn_node: j as int }]
    } else {
        Seq::<RustEmission>::empty()
    };
    if matches!(nodes[j].kind, NodeKind::FunctionItem) {
        match extract_rust_method(nodes, impl_i, j, lines, file_path) {
            Some(chunk) => {
                proof {
                    assert(own.len() == 1);
                    assert(rust_em_matches(
                        chunk,
                        own[0],
                        nodes@,
                        lines.deep_view(),
                        file_path@,
                    ));
                }
                out.push(chunk);
            },
            None => {
                proof {
                    assert(own.len() == 0);
                }
            },
        }
    }
    let ghost mid = out@;
    walk_rust_members(nodes, impl_i, d, m + 1, lines, file_path, out);
    proof {
        let tail = rust_member_ems(nodes@, impl_i as int, d as int, m as int + 1);
        assert(ems == own + tail);
        assert forall|t: int| 0 <= t < ems.len() implies rust_em_matches(
            #[trigger] out@[pre.len() + t],
            ems[t],
            nodes@,
            lines.deep_view(),
            file_path@,
        ) by {
            if t < own.len() {
                assert(out@[pre.len() + t] == mid[pre.len() + t]);
                assert(ems[t] == own[t]);
            } else {
                assert(ems[t] == tail[t - own.len()]);
                assert(out@[mid.len() + (t - own.len())] == out@[pre.len() + t]);
            }
        }
    }
}

/// Walk a lowered Rust tree in declaration order and extract exactly the
/// chunks it owes: named functions, type declarations, and the methods of
/// implementation blocks under their qualified names, each exactly once.
pub fn walk_rust_tree(nodes: &Vec<SyntaxNode>, lines: &Vec<String>, file_path: &str) -> (r: Vec<
    CodeChunk,
>)
    requires
        arena_wf(nodes@),
    ensures
        r@.len() == rust_emissions(nodes@).len(),
        forall|t: int|
            0 <= t < r@.len() ==> rust_em_matches(
                #[trigger] r@[t],
                rust_emissions(nodes@)[t],
                nodes@,
                lines.deep_view(),
                file_path@,
            ),
{
    let mut out: Vec<CodeChunk> = Vec::new();
    if nodes.len() > 0 {
        walk_rust_at(nodes, 0, lines, file_path, &mut out);
        proof {
            assert forall|t: int| 0 <= t < out@.len() implies rust_em_matches(
                #[trigger] out@[t],
                rust_emissions(nodes@)[t],
                nodes@,
                lines.deep_view(),
                file_path@,
            ) by {
                assert(out@[0 + t] == out@[t]);
                assert(rust_em_matches(
                    out@[0 + t],
                    rust_ems_at(nodes@, 0)[t],
                    nodes@,
                    lines.deep_view(),
                    file_path@,
                ));
            }
        }
    } else {
        proof {
            assert(rust_emissions(nodes@).len() == 0);
        }
    }
    out
}

/// Whether a duck-typed symbol name counts as public: no leading
/// underscore, except that a name surrounded by double underscores is a
/// public dunder despite it.
pub open spec fn python_public(name: Seq<char>) -> bool {
    !text::starts_with_seq(name, "_"@) || (text::starts_with_seq(name, "__"@)
        && text::ends_with_seq(name, "__"@))
}

/// The rendered signature of a duck-typed function: its name and parameter
/// list, the return annotation when there is one; absent without a name or
/// parameters.
pub open spec fn python_sig_of(node: SyntaxNode) -> Option<Seq<char>> {
    match (node.name, node.params) {
        (Some(nm), Some(ps)) => Some(
            "def "@ + nm@ + ps@ + (match node.return_type {
                Some(rt) => " -> "@ + rt@,
                None => Seq::empty(),
            }),
        ),
        _ => None,
    }
}

/// The first child of the given kind, as an arena index.
pub open spec fn first_kid(nodes: Seq<SyntaxNode>, kids: Seq<usize>, kind: NodeKind) -> Option<
    int,
>
    decreases kids.len(),
{
    if kids.len() == 0 {
        None
    } else if kids[0] < nodes.len() && nodes[kids[0] as int].kind == kind {
        Some(kids[0] as int)
    } else {
        first_kid(nodes, kids.drop_first(), kind)
    }
}

/// A docstring with its quotes removed and its body trimmed.
pub open spec fn strip_docstring(t: Seq<char>) -> Seq<char> {
    text::trim_of(
        text::strip_suffix_all(
            text::strip_suffix_all(
                text::strip_prefix_all(text::strip_prefix_all(t, "\"\"\""@), "'''"@),
                "\"\"\""@,
            ),
            "'''"@,
        ),
    )
}

/// The docstring of a duck-typed function or class: the string literal
/// standing as the first statement of its body, quotes removed.
pub open spec fn python_docstring_of(nodes: Seq<SyntaxNode>, node: SyntaxNode) -> Option<
    Seq<char>,
> {
    match first_kid(nodes, node.children@, NodeKind::Block) {
        Some(b) => {
            let bk = nodes[b].children@;
            if bk.len() > 0 && bk[0] < nodes.len() && nodes[bk[0] as int].kind
                == NodeKind::ExpressionStatement {
                match first_kid(nodes, nodes[bk[0] as int].children@, NodeKind::Str) {
                    Some(s) => Some(strip_docstring(nodes[s].text@)),
                    None => None,
                }
            } else {
                None
            }
        },
        None => None,
    }
}

/// Whether a chunk renders one duck-typed function or method.
pub open spec fn python_fn_chunk(
    c: CodeChunk,
    nodes: Seq<SyntaxNode>,
    node: SyntaxNode,
    class_name: Option<Seq<char>>,
    file: Seq<char>,
) -> bool {
    match node.name {
        Some(nm) => {
            let full = match class_name {
                Some(cn) => cn + "."@ + nm@,
                None => nm@,
            };
            &&& c.id@ == code_chunk_id_of(file, full)
            &&& c.file_path@ == file
            &&& c.symbol_name@ == full
            &&& c.symbol_type == (match class_name {
                Some(_) => SymbolType::Method,
                None => SymbolType::Function,
            })
            &&& c.content@ == node.text@
            &&& c.hash@ == sha256_hex_of(node.text@)
            &&& c.language == Language::Python
            &&& c.start_line == node.start_line
            &&& c.end_line == node.end_line
            &&& opt_text_matches(c.doc_comment, python_docstring_of(nodes, node))
            &&& opt_text_matches(c.signature, python_sig_of(node))
            &&& c.is_public == python_public(nm@)
            &&& c.embedding is None
        },
        None => false,
    }
}

/// Whether a chunk renders one duck-typed class.
pub open spec fn python_class_chunk(
    c: CodeChunk,
    nodes: Seq<SyntaxNode>,
    node: SyntaxNode,
    file: Seq<char>,
) -> bool {
    match node.name {
        Some(nm) => {
            &&& c.id@ == code_chunk_id_of(file, nm@)
            &&& c.file_path@ == file
            &&& c.symbol_name@ == nm@
            &&& c.symbol_type == SymbolType::Class
            &&& c.content@ == node.text@
            &&& c.hash@ == sha256_hex_of(node.text@)
            &&& c.language == Language::Python
            &&& c.start_line == node.start_line
            &&& c.end_line == node.end_line
            &&& opt_text_matches(c.doc_comment, python_docstring_of(nodes, node))
            &&& c.signature is None
            &&& c.is_public == !text::starts_with_seq(nm@, "_"@)
            &&& c.embedding is None
        },
        None => false,
    }
}

/// A found first child is one of the children.
proof fn lemma_first_kid_member(nodes: Seq<SyntaxNode>, kids: Seq<usize>, kind: NodeKind)
    ensures
        match first_kid(nodes, kids, kind) {
            Some(j) => exists|t: int| 0 <= t < kids.len() && (#[trigger] kids[t]) as int == j,
            None => true,
        },
    decreases kids.len(),
{
    if kids.len() == 0 {
    } else if kids[0] < nodes.len() && nodes[kids[0] as int].kind == kind {
        assert(kids[0] as int == first_kid(nodes, kids, kind).unwrap());
    } else {
        lemma_first_kid_member(nodes, kids.drop_first(), kind);
        match first_kid(nodes, kids.drop_first(), kind) {
            Some(j) => {
                let t = choose|t: int|
                    0 <= t < kids.drop_first().len() && (#[trigger] kids.drop_first()[t]) as int
                        == j;
                assert(kids[t + 1] as int == j);
            },
            None => {},
        }
    }
}

/// The first child of the given kind, as an arena index.
fn first_kid_exec(nodes: &Vec<SyntaxNode>, owner: usize, kind: NodeKind) -> (r: Option<usize>)
    requires
        arena_wf(nodes@),
        owner < nodes@.len(),
    ensures
        match r {
            Some(j) => j < nodes@.len() && first_kid(nodes@, nodes@[owner as int].children@, kind)
                == Some(j as int),
            None => first_kid(nodes@, nodes@[owner as int].children@, kind) is None,
        },
{
    let kids = &nodes[owner].children;
    let ghost kseq = nodes@[owner as int].children@;
    let mut c: usize = 0;
    proof {
        assert(kseq.subrange(0, kseq.len() as int) =~= kseq);
    }
    while c < kids.len()
        invariant
            0 <= c <= kids@.len(),
            kids@ == kseq,
            arena_wf(nodes@),
            owner < nodes@.len(),
            kseq == nodes@[owner as int].children@,
            first_kid(nodes@, kseq, kind) == first_kid(
                nodes@,
                kseq.subrange(c as int, kseq.len() as int),
                kind,
            ),
        decreases kids@.len() - c,
    {
        let k = kids[c];
        let ghost sub = kseq.subrange(c as int, kseq.len() as int);
        proof {
            assert(sub[0] == kseq[c as int]);
            assert(sub.drop_first() =~= kseq.subrange(c as int + 1, kseq.len() as int));
        }
        if nodes[k].kind == kind {
            return Some(k);
        }
        c = c + 1;
    }
    proof {
        assert(kseq.subrange(kseq.len() as int, kseq.len() as int) =~= Seq::<usize>::empty());
    }
    None
}

/// The docstring of a duck-typed function or class node.
fn extract_python_docstring(nodes: &Vec<SyntaxNode>, i: usize) -> (r: Option<String>)
    requires
        arena_wf(nodes@),
        i < nodes@.len(),
    ensures
        opt_text_matches(r, python_docstring_of(nodes@, nodes@[i as int])),
{
    match first_kid_exec(nodes, i, NodeKind::Block) {
        Some(b) => {
            if nodes[b].children.len() > 0 {
                let s0 = nodes[b].children[0];
                proof {
                    assert(nodes@[b as int].children@[0] == s0);
                }
                if matches!(nodes[s0].kind, NodeKind::ExpressionStatement) {
                    match first_kid_exec(nodes, s0, NodeKind::Str) {
                        Some(s) => {
                            let t1 = text::strip_prefix_all_str(nodes[s].text.as_str(), "\"\"\"");
                            let t2 = text::strip_prefix_all_str(t1.as_str(), "'''");
                            let t3 = text::strip_suffix_all_str(t2.as_str(), "\"\"\"");
                            let t4 = text::strip_suffix_all_str(t3.as_str(), "'''");
                            Some(text::trim_str(t4.as_str()))
                        },
                        None => None,
                    }
                } else {
                    None
                }
            } else {
                None
            }
        },
        None => None,
    }
}

/// The rendered signature of a duck-typed function node.
#[verifier::rlimit(30)]
fn extract_python_signature(node: &SyntaxNode) -> (r: Option<String>)
    ensures
        opt_text_matches(r, python_sig_of(*node)),
{
    match (&node.name, &node.params) {
        (Some(nm), Some(ps)) => {
            let mut sig = String::from_str("def ");
            sig.append(nm.as_str());
            sig.append(ps.as_str());
            match &node.return_type {
                Some(rt) => {
                    sig.append(" -> ");
                    sig.append(rt.as_str());
                    proof {
                        assert(sig@ =~= "def "@ + nm@ + ps@ + (" -> "@ + rt@));
                    }
                },
                None => {
                    proof {
                        assert(sig@ =~= "def "@ + nm@ + ps@ + Seq::<char>::empty());
                    }
                },
            }
            Some(sig)
        },
        _ => None,
    }
}

/// Extract one duck-typed function or method as a chunk.
fn extract_python_function(
    nodes: &Vec<SyntaxNode>,
    i: usize,
    class_name: Option<&String>,
    file_path: &str,
) -> (r: Option<CodeChunk>)
    requires
        arena_wf(nodes@),
        i < nodes@.len(),
    ensures
        match r {
            Some(c) => python_fn_chunk(
                c,
                nodes@,
                nodes@[i as int],
                match class_name {
                    Some(cn) => Some(cn@),
                    None => None,
                },
                file_path@,
            ),
            None => nodes@[i as int].name is None,
        },
{
    let name = match &nodes[i].name {
        Some(nm) => nm.clone(),
        None => {
            return None;
        },
    };
    let full = match class_name {
        Some(cn) => {
            let mut f = cn.clone();
            f.append(".");
            f.append(name.as_str());
            f
        },
        None => name.clone(),
    };
    let st = match class_name {
        Some(_) => SymbolType::Method,
        None => SymbolType::Function,
    };
    let mut chunk = CodeChunk::new(
        file_path,
        full.as_str(),
        st,
        nodes[i].text.as_str(),
        Language::Python,
        nodes[i].start_line,
        nodes[i].end_line,
    );
    let starts_one = text::starts_with_str(name.as_str(), "_");
    let starts_two = text::starts_with_str(name.as_str(), "__");
    let ends_two = text::ends_with_str(name.as_str(), "__");
    chunk.is_public = !starts_one || (starts_two && ends_two);
    chunk.doc_comment = extract_python_docstring(nodes, i);
    chunk.signature = extract_python_signature(&nodes[i]);
    Some(chunk)
}

/// Extract one duck-typed class as a chunk.
fn extract_python_class(nodes: &Vec<SyntaxNode>, i: usize, file_path: &str) -> (r: Option<
    CodeChunk,
>)
    requires
        arena_wf(nodes@),
        i < nodes@.len(),
    ensures
        match r {
            Some(c) => python_class_chunk(c, nodes@, nodes@[i as int], file_path@),
            None => nodes@[i as int].name is None,
        },
{
    let name = match &nodes[i].name {
        Some(nm) => nm.clone(),
        None => {
            return None;
        },
    };
    let mut chunk = CodeChunk::new(
        file_path,
        name.as_str(),
        SymbolType::Class,
        nodes[i].text.as_str(),
        Language::Python,
        nodes[i].start_line,
        nodes[i].end_line,
    );
    chunk.is_public = !text::starts_with_str(name.as_str(), "_");
    chunk.doc_comment = extract_python_docstring(nodes, i);
    Some(chunk)
}

/// One chunk the duck-typed walker owes: a function with its class context,
/// or a class.
pub enum PyEmission {
    /// A named function definition, with the class whose body encloses it.
    Fn { node: int, class_node: Option<int> },
    /// A named class definition.
    Class { node: int },
}

/// The emission a function definition owes under a class context.
pub open spec fn py_fn_em(nodes: Seq<SyntaxNode>, i: int, ctx: Option<int>) -> Seq<PyEmission> {
    if 0 <= i < nodes.len() && nodes[i].name is Some {
        seq![PyEmission::Fn { node: i, class_node: ctx }]
    } else {
        Seq::empty()
    }
}

/// The chunks the subtree at `i` owes under a class context, in depth-first
/// declaration order: named functions as methods of the context class or as
/// plain functions, and named classes, whose bodies restart the traversal
/// under their own name and are not entered again through the generic path.
pub open spec fn py_ems_at(nodes: Seq<SyntaxNode>, i: int, ctx: Option<int>) -> Seq<PyEmission>
    decreases nodes.len() - i, nodes[i].children@.len() + 2int,
{
    if !(0 <= i < nodes.len()) {
        Seq::empty()
    } else {
        match nodes[i].kind {
            NodeKind::FunctionDefinition => py_fn_em(nodes, i, ctx) + py_ems_kids(
                nodes,
                i,
                0,
                ctx,
            ),
            NodeKind::ClassDefinition => {
                if nodes[i].name is Some {
                    seq![PyEmission::Class { node: i }] + (match first_kid(
                        nodes,
                        nodes[i].children@,
                        NodeKind::Block,
                    ) {
                        Some(b) => if i < b < nodes.len() {
                            py_ems_kids(nodes, b, 0, Some(i))
                        } else {
                            Seq::empty()
                        },
                        None => Seq::empty(),
                    })
                } else {
                    Seq::empty()
                }
            },
            _ => py_ems_kids(nodes, i, 0, ctx),
        }
    }
}

/// The chunks the children of `i` from position `k` on owe, under a class
/// context.
pub open spec fn py_ems_kids(
    nodes: Seq<SyntaxNode>,
    i: int,
    k: int,
    ctx: Option<int>,
) -> Seq<PyEmission>
    decreases nodes.len() - i, nodes[i].children@.len() - k,
{
    if !(0 <= i < nodes.len()) || !(0 <= k < nodes[i].children@.len()) {
        Seq::empty()
    } else {
        let c = nodes[i].children@[k] as int;
        (if i < c < nodes.len() {
            py_ems_at(nodes, c, ctx)
        } else {
            Seq::empty()
        }) + py_ems_kids(nodes, i, k + 1, ctx)
    }
}

/// Every chunk a lowered duck-typed tree owes, in depth-first declaration
/// order.
pub open spec fn py_emissions(nodes: Seq<SyntaxNode>) -> Seq<PyEmission> {
    py_ems_at(nodes, 0, None)
}

/// Whether a chunk renders the given owed emission.
pub open spec fn py_em_matches(
    c: CodeChunk,
    e: PyEmission,
    nodes: Seq<SyntaxNode>,
    file: Seq<char>,
) -> bool {
    match e {
        PyEmission::Fn { node, class_node } => {
            &&& 0 <= node < nodes.len()
            &&& match class_node {
                Some(ci) => 0 <= ci < nodes.len() && (match nodes[ci].name {
                    Some(cn) => python_fn_chunk(c, nodes, nodes[node], Some(cn@), file),
                    None => false,
                }),
                None => python_fn_chunk(c, nodes, nodes[node], None, file),
            }
        },
        PyEmission::Class { node } => 0 <= node < nodes.len() && python_class_chunk(
            c,
            nodes,
            nodes[node],
            file,
        ),
    }
}

/// A usable class context: it points at a named class of the arena.
pub open spec fn py_ctx_wf(nodes: Seq<SyntaxNode>, ctx: Option<usize>) -> bool {
    match ctx {
        Some(ci) => (ci as int) < nodes.len() && nodes[ci as int].name is Some,
        None => true,
    }
}

/// The context as the emissions carry it.
pub open spec fn py_ctx_view(ctx: Option<usize>) -> Option<int> {
    match ctx {
        Some(ci) => Some(ci as int),
        None => None,
    }
}

/// What every walker step guarantees: the owed emissions were appended, as
/// matching chunks, behind an untouched prefix.
pub open spec fn py_appended_match(
    pre: Seq<CodeChunk>,
    post: Seq<CodeChunk>,
    ems: Seq<PyEmission>,
    nodes: Seq<SyntaxNode>,
    file: Seq<char>,
) -> bool {
    &&& post.len() == pre.len() + ems.len()
    &&& forall|t: int| 0 <= t < pre.len() ==> post[t] == pre[t]
    &&& forall|t: int|
        0 <= t < ems.len() ==> py_em_matches(#[trigger] post[pre.len() + t], ems[t], nodes, file)
}

/// Extract the subtree at `i` under a class context.
fn walk_py_at(
    nodes: &Vec<SyntaxNode>,
    i: usize,
    ctx: &Option<usize>,
    file_path: &str,
    out: &mut Vec<CodeChunk>,
)
    requires
        arena_wf(nodes@),
        i < nodes@.len(),
        py_ctx_wf(nodes@, *ctx),
    ensures
        py_appended_match(
            old(out)@,
            final(out)@,
            py_ems_at(nodes@, i as int, py_ctx_view(*ctx)),
            nodes@,
            file_path@,
        ),
    decreases nodes@.len() - i, nodes@[i as int].children@.len() + 2int,
{
    let ghost pre = out@;
    let ghost ems = py_ems_at(nodes@, i as int, py_ctx_view(*ctx));
    match nodes[i].kind {
        NodeKind::FunctionDefinition => {
            let ghost own = py_fn_em(nodes@, i as int, py_ctx_view(*ctx));
            let class_name: Option<&String> = match ctx {
                Some(ci) => nodes[*ci].name.as_ref(),
                None => None,
            };
            match extract_python_function(nodes, i, class_name, file_path) {
                Some(chunk) => {
                    proof {
                        assert(own.len() == 1);
                        assert(py_em_matches(chunk, own[0], nodes@, file_path@));
                    }
                    out.push(chunk);
                },
                None => {
                    proof {
                        assert(own.len() == 0);
                    }
                },
            }
            let ghost mid = out@;
            walk_py_kids(nodes, i, 0, ctx, file_path, out);
            proof {
                let kids = py_ems_kids(nodes@, i as int, 0, py_ctx_view(*ctx));
                assert(ems == own + kids);
                assert forall|t: int| 0 <= t < ems.len() implies py_em_matches(
                    #[trigger] out@[pre.len() + t],
                    ems[t],
                    nodes@,
                    file_path@,
                ) by {
                    if t < own.len() {
                        assert(out@[pre.len() + t] == mid[pre.len() + t]);
                        assert(ems[t] == own[t]);
                    } else {
                        assert(ems[t] == kids[t - own.len()]);
                        assert(out@[mid.len() + (t - own.len())] == out@[pre.len() + t]);
                    }
                }
            }
        },
        NodeKind::ClassDefinition => {
            let ghost own: Seq<PyEmission> = if nodes@[i as int].name is Some {
                seq![PyEmission::Class { node: i as int }]
            } else {
                Seq::<PyEmission>::empty()
            };
            match extract_python_class(nodes, i, file_path) {
                Some(chunk) => {
                    proof {
                        assert(own.len() == 1);
                        assert(py_em_matches(chunk, own[0], nodes@, file_path@));
                    }
                    out.push(chunk);
                },
                None => {
                    proof {
                        assert(own.len() == 0);
                    }
                },
            }
            let ghost mid = out@;
            if nodes[i].name.is_some() {
                match first_kid_exec(nodes, i, NodeKind::Block) {
                    Some(b) => {
                        proof {
                            lemma_first_kid_member(
                                nodes@,
                                nodes@[i as int].children@,
                                NodeKind::Block,
                            );
                            let t = choose|t: int|
                                0 <= t < nodes@[i as int].children@.len() && (
                                #[trigger] nodes@[i as int].children@[t]) as int == b as int;
                            assert(i < b);
                        }
                        let body_ctx: Option<usize> = Some(i);
                        walk_py_kids(nodes, b, 0, &body_ctx, file_path, out);
                    },
                    None => {},
                }
            }
            proof {
                let rest = ems.subrange(own.len() as int, ems.len() as int);
                assert(ems == own + rest);
                assert forall|t: int| 0 <= t < ems.len() implies py_em_matches(
                    #[trigger] out@[pre.len() + t],
                    ems[t],
                    nodes@,
                    file_path@,
                ) by {
                    if t < own.len() {
                        assert(out@[pre.len() + t] == mid[pre.len() + t]);
                        assert(ems[t] == own[t]);
                    } else {
                        assert(ems[t] == rest[t - own.len()]);
                        assert(out@[mid.len() + (t - own.len())] == out@[pre.len() + t]);
                    }
                }
            }
        },
        _ => {
            walk_py_kids(nodes, i, 0, ctx, file_path, out);
        },
    }
}

/// Extract the subtrees of the children of `i` from position `k` on, under
/// a class context.
fn walk_py_kids(
    nodes: &Vec<SyntaxNode>,
    i: usize,
    k: usize,
    ctx: &Option<usize>,
    file_path: &str,
    out: &mut Vec<CodeChunk>,
)
    requires
        arena_wf(nodes@),
        i < nodes@.len(),
        py_ctx_wf(nodes@, *ctx),
    ensures
        py_appended_match(
            old(out)@,
            final(out)@,
            py_ems_kids(nodes@, i as int, k as int, py_ctx_view(*ctx)),
            nodes@,
            file_path@,
        ),
    decreases nodes@.len() - i, nodes@[i as int].children@.len() - k,
{
    let ghost pre = out@;
    let ghost ems = py_ems_kids(nodes@, i as int, k as int, py_ctx_view(*ctx));
    if k >= nodes[i].children.len() {
        proof {
            assert(ems.len() == 0);
        }
        return ;
    }
    let c = nodes[i].children[k];
    proof {
        assert(nodes@[i as int].children@[k as int] == c);
        assert(i < c < nodes@.len());
    }
    walk_py_at(nodes, c, ctx, file_path, out);
    let ghost mid = out@;
    let ghost head = py_ems_at(nodes@, c as int, py_ctx_view(*ctx));
    walk_py_kids(nodes, i, k + 1, ctx, file_path, out);
    proof {
        let tail = py_ems_kids(nodes@, i as int, k as int + 1, py_ctx_view(*ctx));
        assert(ems == head + tail);
        assert forall|t: int| 0 <= t < ems.len() implies py_em_matches(
            #[trigger] out@[pre.len() + t],
            ems[t],
            nodes@,
            file_path@,
        ) by {
            if t < head.len() {
                assert(out@[pre.len() + t] == mid[pre.len() + t]);
                assert(ems[t] == head[t]);
            } else {
                assert(ems[t] == tail[t - head.len()]);
                assert(out@[mid.len() + (t - head.len())] == out@[pre.len() + t]);
            }
        }
    }
}

/// Walk a lowered duck-typed tree in declaration order and extract exactly
/// the chunks it owes: named functions and classes, class members under
/// their class-qualified names, each exactly once.
pub fn walk_python_tree(nodes: &Vec<SyntaxNode>, file_path: &str) -> (r: Vec<CodeChunk>)
    requires
        arena_wf(nodes@),
    ensures
        r@.len() == py_emissions(nodes@).len(),
        forall|t: int|
            0 <= t < r@.len() ==> py_em_matches(
                #[trigger] r@[t],
                py_emissions(nodes@)[t],
                nodes@,
                file_path@,
            ),
{
    let mut out: Vec<CodeChunk> = Vec::new();
    if nodes.len() > 0 {
        let ctx: Option<usize> = None;
        walk_py_at(nodes, 0, &ctx, file_path, &mut out);
        proof {
            assert forall|t: int| 0 <= t < out@.len() implies py_em_matches(
                #[trigger] out@[t],
                py_emissions(nodes@)[t],
                nodes@,
                file_path@,
            ) by {
                assert(out@[0 + t] == out@[t]);
                assert(py_em_matches(
                    out@[0 + t],
                    py_ems_at(nodes@, 0, None)[t],
                    nodes@,
                    file_path@,
                ));
            }
        }
    } else {
        proof {
            assert(py_emissions(nodes@).len() == 0);
        }
    }
    out
}

/// Whether every chunk of a list soundly renders a node of some
/// well-formed lowered tree of a Rust file.
pub open spec fn sound_rust_extraction(
    chunks: Seq<CodeChunk>,
    lines: Seq<Seq<char>>,
    file: Seq<char>,
) -> bool {
    exists|ns: Seq<SyntaxNode>|
        #[trigger] arena_wf(ns) && chunks.len() == rust_emissions(ns).len() && forall|k: int|
            0 <= k < chunks.len() ==> rust_em_matches(
                #[trigger] chunks[k],
                rust_emissions(ns)[k],
                ns,
                lines,
                file,
            )
}

/// Whether every chunk of a list soundly renders a node of some
/// well-formed lowered tree of a duck-typed file.
pub open spec fn sound_python_extraction(chunks: Seq<CodeChunk>, file: Seq<char>) -> bool {
    exists|ns: Seq<SyntaxNode>|
        #[trigger] arena_wf(ns) && chunks.len() == py_emissions(ns).len() && forall|k: int|
            0 <= k < chunks.len() ==> py_em_matches(
                #[trigger] chunks[k],
                py_emissions(ns)[k],
                ns,
                file,
            )
}

/// The extension of a file path: what follows its last dot, empty without
/// one.
pub open spec fn path_extension(path: Seq<char>) -> Seq<char> {
    let e = crate::drift::rules::rfind_end_of(path, '.');
    if 0 < e <= path.len() {
        path.subrange(e, path.len() as int)
    } else {
        Seq::empty()
    }
}

/// Extracts code chunks from source files.
pub struct CodeExtractor {}

impl CodeExtractor {
    /// Create a new code extractor.
    pub fn new() -> (r: Result<CodeExtractor, crate::extract::ExtractError>)
        ensures
            r is Ok,
    {
        Ok(CodeExtractor {  })
    }

    /// Extract chunks from a source file. Fails with `UnsupportedLanguage`
    /// when the extension maps to no known grammar, with `ParseFailure`
    /// when the parser cannot build a tree. Every returned chunk soundly
    /// renders a declaration of the parsed tree.
    #[verifier::rlimit(50)]
    pub fn extract_file(&mut self, path: &str, content: &str) -> (r: Result<
        Vec<CodeChunk>,
        crate::extract::ExtractError,
    >)
        ensures
            (crate::text::ascii_lower(path_extension(path@)) != "rs"@ && crate::text::ascii_lower(
                path_extension(path@),
            ) != "py"@) <==> r == Err::<
                Vec<CodeChunk>,
                crate::extract::ExtractError,
            >(crate::extract::ExtractError::UnsupportedLanguage),
            crate::text::ascii_lower(path_extension(path@)) == "rs"@ ==> (r is Ok)
                == crate::extract::tree::rust_parses(content@) && (r is Err ==> r == Err::<
                Vec<CodeChunk>,
                crate::extract::ExtractError,
            >(crate::extract::ExtractError::ParseFailure)),
            crate::text::ascii_lower(path_extension(path@)) == "py"@ ==> (r is Ok)
                == crate::extract::tree::python_parses(content@) && (r is Err ==> r == Err::<
                Vec<CodeChunk>,
                crate::extract::ExtractError,
            >(crate::extract::ExtractError::ParseFailure)),
            r matches Ok(chunks) ==> (crate::text::ascii_lower(path_extension(path@)) == "rs"@
                ==> sound_rust_extraction(chunks@, crate::text::lines_of(content@), path@)),
            r matches Ok(chunks) ==> (crate::text::ascii_lower(path_extension(path@)) == "py"@
                ==> sound_python_extraction(chunks@, path@)),
    {
        let n = path.unicode_len();
        let e = text::rfind_char_end(path, '.');
        proof {
            crate::drift::rules::lemma_rfind_end_unique(path@, '.', e as int);
        }
        let ext = if e > 0 {
            path.substring_char(e, n)
        } else {
            ""
        };
        proof {
            reveal_strlit("");
            assert(ext@ == path_extension(path@));
        }
        match Language::from_extension(ext) {
            Some(Language::Rust) => {
                proof {
                    reveal_strlit("rs");
                    reveal_strlit("py");
                    assert("rs"@[0] == 'r' && "py"@[0] == 'p');
                    assert(crate::text::ascii_lower(path_extension(path@)) != "py"@);
                }
                match crate::extract::tree::parse_rust(content) {
                    Some(tree) => {
                        let root = crate::extract::tree::tree_root(&tree);
                        let nodes = crate::extract::tree::lower_tree(root, content);
                        let lines = text::split_lines(content);
                        let chunks = walk_rust_tree(&nodes, &lines, path);
                        proof {
                            assert(sound_rust_extraction(
                                chunks@,
                                crate::text::lines_of(content@),
                                path@,
                            )) by {
                                assert(arena_wf(nodes@));
                            }
                        }
                        Ok(chunks)
                    },
                    None => Err(crate::extract::ExtractError::ParseFailure),
                }
            },
            Some(Language::Python) => {
                proof {
                    reveal_strlit("rs");
                    reveal_strlit("py");
                    assert("rs"@[0] == 'r' && "py"@[0] == 'p');
                    assert(crate::text::ascii_lower(path_extension(path@)) != "rs"@);
                }
                match crate::extract::tree::parse_python(content) {
                    Some(tree) => {
                        let root = crate::extract::tree::tree_root(&tree);
                        let nodes = crate::extract::tree::lower_tree(root, content);
                        let chunks = walk_python_tree(&nodes, path);
                        proof {
                            assert(sound_python_extraction(chunks@, path@)) by {
                                assert(arena_wf(nodes@));
                            }
                        }
                        Ok(chunks)
                    },
                    None => Err(crate::extract::ExtractError::ParseFailure),
                }
            },
            None => Err(crate::extract::ExtractError::UnsupportedLanguage),
        }
    }
}

} // verus!
