//! The parse-tree model behind code extraction.
//!
//! The grammar-aware parser builds the tree; this module lowers it into an
//! arena of plain nodes — kind, line span, text, field texts, children by
//! index — that the verified walkers read. Everything the extraction logic
//! decides on lives in the arena as plain values.

use crate::text;
use vstd::prelude::*;
use vstd::string::StrSliceExecFns;

verus! {

#[verifier::external_type_specification]
#[verifier::external_body]
pub struct ExTree(tree_sitter::Tree);

#[verifier::external_type_specification]
#[verifier::external_body]
pub struct ExNode<'a>(tree_sitter::Node<'a>);

/// Whether the Rust grammar parses a text: the parser is deterministic, so
/// this is a function of the text alone.
pub uninterp spec fn rust_parses(source: Seq<char>) -> bool;

/// Whether the Python grammar parses a text: the parser is deterministic,
/// so this is a function of the text alone.
pub uninterp spec fn python_parses(source: Seq<char>) -> bool;

/// Relies on tree_sitter::Parser with the grammar of tree_sitter_rust: a
/// parse tree of the source, or nothing when the parser cannot build one.
/// The parser is deterministic, so success is a function of the text alone.
#[verifier::external_body]
pub(crate) fn parse_rust(source: &str) -> (r: Option<tree_sitter::Tree>)
    ensures
        (r is Some) == rust_parses(source@),
{
    let mut parser = tree_sitter::Parser::new();
    if parser.set_language(&tree_sitter_rust::LANGUAGE.into()).is_err() {
        return None;
    }
    parser.parse(source, None)
}

/// Relies on tree_sitter::Parser with the grammar of tree_sitter_python: a
/// parse tree of the source, or nothing when the parser cannot build one.
/// The parser is deterministic, so success is a function of the text alone.
#[verifier::external_body]
pub(crate) fn parse_python(source: &str) -> (r: Option<tree_sitter::Tree>)
    ensures
        (r is Some) == python_parses(source@),
{
    let mut parser = tree_sitter::Parser::new();
    if parser.set_language(&tree_sitter_python::LANGUAGE.into()).is_err() {
        return None;
    }
    parser.parse(source, None)
}

/// Relies on tree_sitter::Tree::root_node: the root of the parse tree.
#[verifier::external_body]
pub(crate) fn tree_root<'a>(tree: &'a tree_sitter::Tree) -> tree_sitter::Node<'a> {
    tree.root_node()
}

/// Relies on tree_sitter::Node::kind: the grammar name of the node.
#[verifier::external_body]
pub(crate) fn node_kind(node: &tree_sitter::Node) -> String {
    node.kind().to_string()
}

/// Relies on tree_sitter::Node::child_count.
#[verifier::external_body]
pub(crate) fn node_child_count(node: &tree_sitter::Node) -> usize {
    node.child_count() as usize
}

/// Relies on tree_sitter::Node::child: the i-th child, if any.
#[verifier::external_body]
pub(crate) fn node_child<'a>(node: &tree_sitter::Node<'a>, i: usize) -> Option<
    tree_sitter::Node<'a>,
> {
    node.child(i as u32)
}

/// Relies on tree_sitter::Node::child_by_field_name: the child the grammar
/// names with the given field, if any.
#[verifier::external_body]
pub(crate) fn node_field<'a>(node: &tree_sitter::Node<'a>, field: &str) -> Option<
    tree_sitter::Node<'a>,
> {
    node.child_by_field_name(field)
}

/// Relies on tree_sitter::Node::start_position: the 0-indexed row where the
/// node starts.
#[verifier::external_body]
pub(crate) fn node_start_row(node: &tree_sitter::Node) -> usize {
    node.start_position().row
}

/// Relies on tree_sitter::Node::end_position: the 0-indexed row where the
/// node ends.
#[verifier::external_body]
pub(crate) fn node_end_row(node: &tree_sitter::Node) -> usize {
    node.end_position().row
}

/// Relies on tree_sitter::Node::start_byte/end_byte and str::from_utf8: the
/// source text the node spans, or nothing when the span lies outside the
/// given source or is not valid text on its own.
#[verifier::external_body]
pub(crate) fn node_text(node: &tree_sitter::Node, source: &str) -> Option<String> {
    let bytes = source.as_bytes().get(node.start_byte()..node.end_byte())?;
    match std::str::from_utf8(bytes) {
        Ok(t) => Some(t.to_string()),
        Err(_) => None,
    }
}

/// The node kinds the extraction walkers dispatch on.
#[derive(Debug, Clone, Copy, PartialEq, Eq, Structural)]
pub enum NodeKind {
    /// A top-level or nested function declaration.
    FunctionItem,
    /// A struct declaration.
    StructItem,
    /// An enum declaration.
    EnumItem,
    /// A trait declaration.
    TraitItem,
    /// An implementation block attaching methods to a type.
    ImplItem,
    /// The member list of an implementation block.
    DeclarationList,
    /// A braced or indented body.
    Block,
    /// An explicit visibility modifier.
    Visibility,
    /// A function or method definition.
    FunctionDefinition,
    /// A class declaration.
    ClassDefinition,
    /// A statement holding one expression.
    ExpressionStatement,
    /// A string literal.
    Str,
    /// Any other node.
    Other,
}

/// The kind a grammar name maps to.
pub open spec fn kind_of_name(s: Seq<char>) -> NodeKind {
    if s == "function_item"@ {
        NodeKind::FunctionItem
    } else if s == "struct_item"@ {
        NodeKind::StructItem
    } else if s == "enum_item"@ {
        NodeKind::EnumItem
    } else if s == "trait_item"@ {
        NodeKind::TraitItem
    } else if s == "impl_item"@ {
        NodeKind::ImplItem
    } else if s == "declaration_list"@ {
        NodeKind::DeclarationList
    } else if s == "block"@ {
        NodeKind::Block
    } else if s == "visibility_modifier"@ {
        NodeKind::Visibility
    } else if s == "function_definition"@ {
        NodeKind::FunctionDefinition
    } else if s == "class_definition"@ {
        NodeKind::ClassDefinition
    } else if s == "expression_statement"@ {
        NodeKind::ExpressionStatement
    } else if s == "string"@ {
        NodeKind::Str
    } else {
        NodeKind::Other
    }
}

/// Map a grammar name to the kind the walkers dispatch on.
pub fn kind_of_str(k: &str) -> (r: NodeKind)
    ensures
        r == kind_of_name(k@),
{
    if text::str_eq(k, "function_item") {
        NodeKind::FunctionItem
    } else if text::str_eq(k, "struct_item") {
        NodeKind::StructItem
    } else if text::str_eq(k, "enum_item") {
        NodeKind::EnumItem
    } else if text::str_eq(k, "trait_item") {
        NodeKind::TraitItem
    } else if text::str_eq(k, "impl_item") {
        NodeKind::ImplItem
    } else if text::str_eq(k, "declaration_list") {
        NodeKind::DeclarationList
    } else if text::str_eq(k, "block") {
        NodeKind::Block
    } else if text::str_eq(k, "visibility_modifier") {
        NodeKind::Visibility
    } else if text::str_eq(k, "function_definition") {
        NodeKind::FunctionDefinition
    } else if text::str_eq(k, "class_definition") {
        NodeKind::ClassDefinition
    } else if text::str_eq(k, "expression_statement") {
        NodeKind::ExpressionStatement
    } else if text::str_eq(k, "string") {
        NodeKind::Str
    } else {
        NodeKind::Other
    }
}

/// One lowered parse-tree node: everything the walkers read, as plain
/// values.
pub struct SyntaxNode {
    /// The node kind.
    pub kind: NodeKind,
    /// Line where the node starts (1-indexed).
    pub start_line: usize,
    /// Line where the node ends (1-indexed).
    pub end_line: usize,
    /// The source text the node spans.
    pub text: String,
    /// The text of the grammar's `name` field child, if any.
    pub name: Option<String>,
    /// The text of the grammar's `type` field child, if any.
    pub impl_type: Option<String>,
    /// The text of the grammar's `parameters` field child, if any.
    pub params: Option<String>,
    /// The text of the grammar's `return_type` field child, if any.
    pub return_type: Option<String>,
    /// The children, as arena indices.
    pub children: Vec<usize>,
}

/// A well-formed arena: every child index points past its parent and into
/// the arena, so walks along children always move forward.
pub open spec fn arena_wf(nodes: Seq<SyntaxNode>) -> bool {
    forall|p: int, c: int|
        0 <= p < nodes.len() && 0 <= c < nodes[p].children@.len() ==> p < (
        #[trigger] nodes[p].children@[c]) < nodes.len()
}

/// The iteration budget of tree walks: a bound no real source file reaches.
pub const WALK_FUEL: u64 = 0xFFFF_FFFF;

/// Lower a parse tree into an arena of plain nodes, in depth-first
/// pre-order. The text and line spans come from the parser; the structure,
/// and with it the well-formedness of the arena, is built and checked here.
/// A traversal budget no real source file reaches bounds the work; past it
/// the remaining subtrees stay out of the arena.
pub fn lower_tree<'a>(root: tree_sitter::Node<'a>, source: &str) -> (r: Vec<SyntaxNode>)
    ensures
        arena_wf(r@),
        r@.len() >= 1,
{
    let mut nodes: Vec<SyntaxNode> = Vec::new();
    let mut stack: Vec<(tree_sitter::Node<'a>, usize)> = Vec::new();
    stack.push((root, usize::MAX));
    let mut fuel: u64 = WALK_FUEL;
    while stack.len() > 0
        invariant
            arena_wf(nodes@),
            forall|t: int|
                0 <= t < stack@.len() ==> (#[trigger] stack@[t]).1 == usize::MAX || stack@[t].1
                    < nodes@.len(),
            nodes@.len() + stack@.len() >= 1,
            fuel < WALK_FUEL ==> nodes@.len() >= 1,
        decreases fuel,
    {
        if fuel == 0 {
            return nodes;
        }
        fuel = fuel - 1;
        let (node, parent) = match stack.pop() {
            Some(p) => p,
            None => {
                return nodes;
            },
        };
        let idx = nodes.len();
        let kind = kind_of_str(node_kind(&node).as_str());
        let start_row = node_start_row(&node);
        let end_row = node_end_row(&node);
        let start_line = if start_row < usize::MAX {
            start_row + 1
        } else {
            start_row
        };
        let end_line = if end_row < usize::MAX {
            end_row + 1
        } else {
            end_row
        };
        let txt = match node_text(&node, source) {
            Some(t) => t,
            None => String::new(),
        };
        let name = field_text(&node, "name", source);
        let impl_type = field_text(&node, "type", source);
        let params = field_text(&node, "parameters", source);
        let return_type = field_text(&node, "return_type", source);
        let entry = SyntaxNode {
            kind,
            start_line,
            end_line,
            text: txt,
            name,
            impl_type,
            params,
            return_type,
            children: Vec::new(),
        };
        let ghost pre_nodes = nodes@;
        nodes.push(entry);
        proof {
            assert forall|p: int, c: int|
                0 <= p < nodes@.len() && 0 <= c < nodes@[p].children@.len() implies p < (
            #[trigger] nodes@[p].children@[c]) < nodes@.len() by {
                if p < pre_nodes.len() {
                    assert(nodes@[p] == pre_nodes[p]);
                }
            }
        }
        if parent != usize::MAX {
            let ghost before = nodes@;
            let slot = &mut nodes[parent];
            slot.children.push(idx);
            proof {
                assert(nodes@.len() == before.len());
                assert(forall|p: int|
                    0 <= p < nodes@.len() && p != parent as int ==> #[trigger] nodes@[p]
                        == before[p]);
                assert(nodes@[parent as int].children@ == before[parent as int].children@.push(
                    idx,
                ));
                assert forall|p: int, c: int|
                    0 <= p < nodes@.len() && 0 <= c < nodes@[p].children@.len() implies p < (
                #[trigger] nodes@[p].children@[c]) < nodes@.len() by {
                    if p != parent as int {
                        assert(nodes@[p] == before[p]);
                    } else {
                        assert(nodes@[p].children@ == before[p].children@.push(idx as usize));
                        if c < nodes@[p].children@.len() - 1 {
                            assert(nodes@[p].children@[c] == before[p].children@[c]);
                        } else {
                            assert(nodes@[p].children@[c] == idx as usize);
                        }
                    }
                }
            }
        }
        // Push the children in reverse so they pop in source order.
        let count = node_child_count(&node);
        let mut k: usize = count;
        while k > 0
            invariant
                0 <= k <= count,
                arena_wf(nodes@),
                idx < nodes@.len(),
                forall|t: int|
                    0 <= t < stack@.len() ==> (#[trigger] stack@[t]).1 == usize::MAX || stack@[t].1
                        < nodes@.len(),
            decreases k,
        {
            match node_child(&node, k - 1) {
                Some(c) => {
                    stack.push((c, idx));
                },
                None => {},
            }
            k = k - 1;
        }
    }
    nodes
}

/// The text of a field child, if the node carries one.
fn field_text(node: &tree_sitter::Node, field: &str, source: &str) -> Option<String> {
    match node_field(node, field) {
        Some(f) => node_text(&f, source),
        None => None,
    }
}

} // verus!
