//! Finding the declarations of a syntax tree and the comments that document
//! them.

use vstd::prelude::*;
use crate::normalize::lines_of;
use crate::syntax::{Declaration, SyntaxNode};

verus! {

/// A declaration together with what surrounds it in the source.
#[derive(Debug)]
pub struct Scope<'a> {
    /// The declaration; none for the root of a file.
    pub node: Option<&'a Declaration>,
    /// The comment lines stacked directly above the declaration, without
    /// their markers, otherwise as written.
    pub comments: Vec<String>,
    /// The scopes of the declarations beneath this one, in source order.
    pub children: Vec<Scope<'a>>,
}

/// A scope as a mathematical tree.
pub struct ScopeView {
    pub node: Option<Declaration>,
    pub comments: Seq<Seq<char>>,
    pub children: Seq<ScopeView>,
}

/// The tree that a scope stands for.
pub open spec fn scope_view(scope: Scope) -> ScopeView
    decreases scope,
{
    ScopeView {
        node: match scope.node {
            Some(decl) => Some(*decl),
            None => None,
        },
        comments: lines_of(scope.comments@),
        children: scopes_view(scope.children@),
    }
}

/// The trees that the scopes stand for, in the same order.
pub open spec fn scopes_view(scopes: Seq<Scope>) -> Seq<ScopeView>
    decreases scopes,
{
    if scopes.len() == 0 {
        Seq::empty()
    } else {
        scopes_view(scopes.drop_last()).push(scope_view(scopes.last()))
    }
}

impl<'a> View for Scope<'a> {
    type V = ScopeView;

    open spec fn view(&self) -> ScopeView {
        scope_view(*self)
    }
}

/// Appending a scope appends its tree.
pub proof fn lemma_scopes_view_push(scopes: Seq<Scope>, scope: Scope)
    ensures
        scopes_view(scopes.push(scope)) == scopes_view(scopes).push(scope_view(scope)),
{
    assert(scopes.push(scope).drop_last() =~= scopes);
}

/// The text of a line comment without its marker and without the line break
/// at its end.
pub open spec fn comment_line(text: Seq<char>) -> Seq<char> {
    let body = if text.len() >= 2 && text[0] == '/' && text[1] == '/' {
        text.skip(2)
    } else {
        text
    };
    let body = if body.len() > 0 && body.last() == '\n' {
        body.drop_last()
    } else {
        body
    };
    if body.len() > 0 && body.last() == '\r' {
        body.drop_last()
    } else {
        body
    }
}

/// Where a walk through the syntax tree stands: the scopes found so far at
/// the current level, and the comment lines met since the last thing that
/// ended a comment block.
pub struct Walk {
    pub scopes: Seq<ScopeView>,
    pub pending: Seq<Seq<char>>,
}

/// The walk after one more node.
///
/// A line comment joins the pending block. A line break after it, or any
/// token, ends the block, which is then dropped; space and block comments
/// leave it as it is. A declaration takes the pending block as its comments
/// and becomes a scope of its own, whose children are the scopes found
/// beneath it; comments still pending at its end go on to what follows. Any
/// other inner node is walked through as if its children stood in its place.
pub open spec fn visit(node: SyntaxNode, at: Walk) -> Walk
    decreases node, 0nat,
{
    match node {
        SyntaxNode::LineComment { text } => Walk {
            scopes: at.scopes,
            pending: at.pending.push(comment_line(text@)),
        },
        SyntaxNode::BlockComment => at,
        SyntaxNode::Space => at,
        SyntaxNode::LineBreak => Walk { scopes: at.scopes, pending: Seq::empty() },
        SyntaxNode::Token => Walk { scopes: at.scopes, pending: Seq::empty() },
        SyntaxNode::Declaration { decl, children } => {
            let inner = walk(children@, Walk { scopes: Seq::empty(), pending: Seq::empty() });
            Walk {
                scopes: at.scopes.push(
                    ScopeView { node: Some(decl), comments: at.pending, children: inner.scopes },
                ),
                pending: inner.pending,
            }
        },
        SyntaxNode::Inner { children } => walk(children@, at),
    }
}

/// The walk after a run of sibling nodes, visited in source order.
pub open spec fn walk(nodes: Seq<SyntaxNode>, at: Walk) -> Walk
    decreases nodes, 1nat,
{
    if nodes.len() == 0 {
        at
    } else {
        visit(nodes.last(), walk(nodes.drop_last(), at))
    }
}

/// The root scope of a syntax tree: it has no declaration and no comments,
/// and its children are the scopes found in the tree.
pub open spec fn root_scope(tree: SyntaxNode) -> ScopeView {
    ScopeView {
        node: None,
        comments: Seq::empty(),
        children: visit(tree, Walk { scopes: Seq::empty(), pending: Seq::empty() }).scopes,
    }
}

/// The text of a line comment without its marker and without the line break
/// at its end.
pub fn strip_comment(text: &str) -> (line: String)
    ensures
        line@ == comment_line(text@),
{
    let len = text.unicode_len();
    let mut from: usize = 0;
    if len >= 2 && text.get_char(0) == '/' && text.get_char(1) == '/' {
        from = 2;
    }
    let mut to: usize = len;
    if to > from && text.get_char(to - 1) == '\n' {
        to = to - 1;
    }
    if to > from && text.get_char(to - 1) == '\r' {
        to = to - 1;
    }
    let line = text.substring_char(from, to);
    proof {
        let body = text@.skip(from as int);
        if body.len() > 0 {
            assert(body.last() == text@[len - 1]);
            assert(body.drop_last() =~= text@.subrange(from as int, len - 1));
            let cut = body.drop_last();
            if cut.len() > 0 {
                assert(cut.last() == text@[len - 2]);
                assert(cut.drop_last() =~= text@.subrange(from as int, len - 2));
            }
        }
        assert(body =~= text@.subrange(from as int, len as int));
        assert(from == 0 ==> body =~= text@);
        assert(line@ =~= comment_line(text@));
    }
    String::from_str(line)
}

impl<'a> Scope<'a> {
    /// Visits `node`: appends to `scopes` the scopes found in it, and returns
    /// the comment block that is pending after it.
    pub fn visit(node: &'a SyntaxNode, scopes: &mut Vec<Scope<'a>>, pending: Vec<String>) -> (after:
        Vec<String>)
        ensures
            (Walk { scopes: scopes_view(final(scopes)@), pending: lines_of(after@) }) == visit(
                *node,
                Walk { scopes: scopes_view(old(scopes)@), pending: lines_of(pending@) },
            ),
        decreases *node, 0nat,
    {
        match node {
            SyntaxNode::LineComment { text } => {
                let mut pending = pending;
                let ghost before = pending@;
                pending.push(strip_comment(text.as_str()));
                assert(lines_of(pending@) =~= lines_of(before).push(comment_line(text@)));
                pending
            },
            SyntaxNode::BlockComment => pending,
            SyntaxNode::Space => pending,
            SyntaxNode::LineBreak => {
                let none: Vec<String> = Vec::new();
                assert(lines_of(none@) =~= Seq::empty());
                none
            },
            SyntaxNode::Token => {
                let none: Vec<String> = Vec::new();
                assert(lines_of(none@) =~= Seq::empty());
                none
            },
            SyntaxNode::Declaration { decl, children } => {
                let mut inner: Vec<Scope<'a>> = Vec::new();
                let none: Vec<String> = Vec::new();
                assert(lines_of(none@) =~= Seq::empty());
                let after = Scope::walk(children, &mut inner, none);
                let scope = Scope { node: Some(decl), comments: pending, children: inner };
                proof {
                    lemma_scopes_view_push(scopes@, scope);
                }
                scopes.push(scope);
                after
            },
            SyntaxNode::Inner { children } => Scope::walk(children, scopes, pending),
        }
    }

    /// Visits `nodes` in source order: appends to `scopes` the scopes found in
    /// them, and returns the comment block that is pending after the last.
    pub fn walk(nodes: &'a Vec<SyntaxNode>, scopes: &mut Vec<Scope<'a>>, pending: Vec<String>) -> (after:
        Vec<String>)
        ensures
            (Walk { scopes: scopes_view(final(scopes)@), pending: lines_of(after@) }) == walk(
                nodes@,
                Walk { scopes: scopes_view(old(scopes)@), pending: lines_of(pending@) },
            ),
        decreases nodes@, 1nat,
    {
        let ghost start = Walk { scopes: scopes_view(old(scopes)@), pending: lines_of(pending@) };
        let mut pending = pending;
        let mut i: usize = 0;
        assert(nodes@.take(0) =~= Seq::empty());
        while i < nodes.len()
            invariant
                i <= nodes.len(),
                (Walk { scopes: scopes_view(scopes@), pending: lines_of(pending@) }) == walk(
                    nodes@.take(i as int),
                    start,
                ),
            decreases nodes.len() - i,
        {
            proof {
                assert(nodes@.take(i + 1).drop_last() =~= nodes@.take(i as int));
                assert(nodes@.take(i + 1).last() == nodes@[i as int]);
            }
            pending = Scope::visit(&nodes[i], scopes, pending);
            i += 1;
        }
        assert(nodes@.take(i as int) =~= nodes@);
        pending
    }

    /// Builds the root scope of a syntax tree.
    pub fn build(tree: &'a SyntaxNode) -> (root: Scope<'a>)
        ensures
            root@ == root_scope(*tree),
    {
        let mut children: Vec<Scope<'a>> = Vec::new();
        let none: Vec<String> = Vec::new();
        assert(lines_of(none@) =~= Seq::empty());
        let _ = Scope::visit(tree, &mut children, none);
        let comments: Vec<String> = Vec::new();
        assert(lines_of(comments@) =~= Seq::empty());
        Scope { node: None, comments, children }
    }
}

} // verus!
