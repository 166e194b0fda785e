//! The syntax tree of a source file, as far as documentation reads it.

use vstd::prelude::*;

verus! {

/// A declaration in one of the grammar shapes that it can take in the source.
///
/// Every piece of text is the verbatim source text of the sub-node in
/// question.
#[derive(Debug)]
pub enum Declaration {
    /// A module whose header lists fully typed ports.
    ModuleAnsi { name: String },
    /// A module whose header lists port names only.
    ModuleNonansi { name: String },
    /// A type declaration that names a data type.
    TypeAlias { name: String, target: String },
    /// A net declaration by the identifier of a user-defined net type: the
    /// source text of each sub-node that makes up the type, in declaration
    /// order, and the declared names from left to right.
    NetByTypeIdentifier { ty: Vec<String>, names: Vec<String> },
    /// A net declaration by a built-in net type and its qualifiers: the source
    /// text of each of them, in declaration order, and the declared names from
    /// left to right.
    NetByNetType { ty: Vec<String>, names: Vec<String> },
    /// A net port in a module header that lists fully typed ports.
    AnsiNetPort { name: String },
    /// A value-parameter declaration: the assigned names from left to right.
    ParamDeclaration { names: Vec<String> },
    /// A declaration in any other shape.
    Unrecognized,
}

/// One node of the syntax tree. The children of a node are in source order.
#[derive(Debug)]
pub enum SyntaxNode {
    /// A comment that runs to the end of its line: the comment as written,
    /// from its marker to the line break that ends it.
    LineComment { text: String },
    /// A comment between block markers.
    BlockComment,
    /// Whitespace within a line.
    Space,
    /// Whitespace that holds a line break. The line break that ends a line
    /// comment belongs to the comment, so this one ends a line of code or
    /// stands for a blank line.
    LineBreak,
    /// Any other leaf: a keyword, a symbol, an identifier, a literal.
    Token,
    /// A declaration that documentation may be attached to, with all nodes
    /// beneath it.
    Declaration { decl: Declaration, children: Vec<SyntaxNode> },
    /// Any other inner node.
    Inner { children: Vec<SyntaxNode> },
}

} // verus!
