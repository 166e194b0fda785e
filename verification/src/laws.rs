//! What holds of documentation extraction as a whole.

use vstd::prelude::*;
use crate::model::{
    context_of, module_entry, scope_doc, scope_items, ContextView, EntryView, TypedEntryView,
};
use crate::normalize::{
    common_indent, join_stripped, min_indent, normalize, strip_indent,
};
use crate::scopes::{root_scope, visit, walk, ScopeView, Walk};
use crate::syntax::{Declaration, SyntaxNode};
use crate::whitespace::{
    is_whitespace, leading_whitespace, lemma_leading_whitespace_prefix, trimmed,
};

verus! {

/// Every line with `prefix` put in front of it.
pub open spec fn indent_all(lines: Seq<Seq<char>>, prefix: Seq<char>) -> Seq<Seq<char>> {
    lines.map_values(|l: Seq<char>| prefix + l)
}

/// Whether one of the lines is empty.
pub open spec fn has_empty_line(lines: Seq<Seq<char>>) -> bool {
    exists|i: int| 0 <= i < lines.len() && (#[trigger] lines[i]).len() == 0
}

spec fn shifted(k: Option<nat>, n: nat) -> Option<nat> {
    match k {
        Some(k) => Some(k + n),
        None => None,
    }
}

proof fn lemma_indent_shifts(lines: Seq<Seq<char>>, prefix: Seq<char>)
    requires
        forall|i: int| 0 <= i < prefix.len() ==> is_whitespace(#[trigger] prefix[i]),
        !has_empty_line(lines),
    ensures
        min_indent(indent_all(lines, prefix)) == shifted(min_indent(lines), prefix.len()),
    decreases lines.len(),
{
    if lines.len() > 0 {
        let rest = lines.drop_last();
        assert(indent_all(lines, prefix).drop_last() =~= indent_all(rest, prefix));
        assert(indent_all(lines, prefix).last() == prefix + lines.last());
        assert(lines[lines.len() - 1].len() > 0);
        assert forall|i: int| 0 <= i < rest.len() implies (#[trigger] rest[i]).len() != 0 by {
            assert(rest[i] == lines[i]);
        }
        lemma_indent_shifts(rest, prefix);
        lemma_leading_whitespace_prefix(prefix, lines.last());
    }
}

proof fn lemma_indent_floor(lines: Seq<Seq<char>>, prefix: Seq<char>)
    requires
        forall|i: int| 0 <= i < prefix.len() ==> is_whitespace(#[trigger] prefix[i]),
        prefix.len() > 0,
        lines.len() > 0,
    ensures
        min_indent(indent_all(lines, prefix)) is Some,
        min_indent(indent_all(lines, prefix))->0 >= prefix.len(),
        has_empty_line(lines) ==> min_indent(indent_all(lines, prefix)) == Some(prefix.len()),
    decreases lines.len(),
{
    let rest = lines.drop_last();
    let last = lines.last();
    assert(indent_all(lines, prefix).drop_last() =~= indent_all(rest, prefix));
    assert(indent_all(lines, prefix).last() == prefix + last);
    lemma_leading_whitespace_prefix(prefix, last);
    if rest.len() > 0 {
        lemma_indent_floor(rest, prefix);
    }
    if has_empty_line(lines) {
        let i = choose|i: int| 0 <= i < lines.len() && (#[trigger] lines[i]).len() == 0;
        if i < rest.len() {
            assert(rest[i] == lines[i]);
            assert(has_empty_line(rest));
        } else {
            assert(last.len() == 0);
        }
    }
}

proof fn lemma_join_indented(lines: Seq<Seq<char>>, prefix: Seq<char>, k: nat)
    ensures
        join_stripped(indent_all(lines, prefix), prefix.len() + k) == join_stripped(lines, k),
    decreases lines.len(),
{
    if lines.len() > 0 {
        let rest = lines.drop_last();
        let last = lines.last();
        assert(indent_all(lines, prefix).drop_last() =~= indent_all(rest, prefix));
        assert(indent_all(lines, prefix).last() == prefix + last);
        assert(indent_all(lines, prefix)[0] == prefix + lines[0]);
        assert(strip_indent(prefix + last, prefix.len() + k) =~= strip_indent(last, k));
        assert(strip_indent(prefix + lines[0], prefix.len() + k) =~= strip_indent(lines[0], k));
        lemma_join_indented(rest, prefix, k);
    }
}

/// Dedent invariance: the same whitespace put in front of every line of a
/// comment block leaves its documentation text unchanged, provided that the
/// block has no empty line or that its lines share no indentation.
pub proof fn lemma_dedent_invariance(lines: Seq<Seq<char>>, prefix: Seq<char>)
    requires
        forall|i: int| 0 <= i < prefix.len() ==> is_whitespace(#[trigger] prefix[i]),
        prefix.len() == 0 || common_indent(lines) == 0 || !has_empty_line(lines),
    ensures
        normalize(indent_all(lines, prefix)) == normalize(lines),
{
    let indented = indent_all(lines, prefix);
    if prefix.len() == 0 {
        assert forall|i: int| 0 <= i < lines.len() implies indented[i] == lines[i] by {
            assert(prefix + lines[i] =~= lines[i]);
        }
        assert(indented =~= lines);
    } else if lines.len() == 0 {
        assert(indented =~= lines);
    } else {
        if !has_empty_line(lines) {
            lemma_indent_shifts(lines, prefix);
            lemma_nonempty_has_indent(lines);
        } else {
            lemma_indent_floor(lines, prefix);
        }
        assert(common_indent(indented) == prefix.len() + common_indent(lines));
        lemma_join_indented(lines, prefix, common_indent(lines));
    }
}

proof fn lemma_nonempty_has_indent(lines: Seq<Seq<char>>)
    requires
        lines.len() > 0,
        !has_empty_line(lines),
    ensures
        min_indent(lines) is Some,
{
    assert(lines[lines.len() - 1].len() > 0);
}

/// A single line that starts with no whitespace is its own documentation
/// text.
pub proof fn lemma_normalize_single_line(line: Seq<char>)
    requires
        leading_whitespace(line) == 0,
    ensures
        normalize(seq![line]) == line,
{
    let lines = seq![line];
    assert(lines.drop_last() =~= Seq::<Seq<char>>::empty());
    assert(min_indent(lines.drop_last()) == None::<nat>);
    assert(common_indent(lines) == 0);
    assert(strip_indent(line, 0) =~= line);
}

/// Whether the scope declares a net in one of its two forms.
pub open spec fn is_net(scope: ScopeView) -> bool {
    scope.node matches Some(d) && (d is NetByTypeIdentifier || d is NetByNetType)
}

/// The names that a net declaration introduces, from left to right.
pub open spec fn net_names(scope: ScopeView) -> Seq<String> {
    match scope.node {
        Some(Declaration::NetByTypeIdentifier { ty, names }) => names@,
        Some(Declaration::NetByNetType { ty, names }) => names@,
        _ => Seq::empty(),
    }
}

/// The pieces that the type of a net declaration is written with.
pub open spec fn net_type_parts(scope: ScopeView) -> Seq<String> {
    match scope.node {
        Some(Declaration::NetByTypeIdentifier { ty, names }) => ty@,
        Some(Declaration::NetByNetType { ty, names }) => ty@,
        _ => Seq::empty(),
    }
}

/// A net declaration of either form that introduces several names gives one
/// signal item per name and nothing else, in the order of the names, each with
/// the documentation text of the declaration's comment block and with the same
/// type text.
pub proof fn lemma_net_items(scope: ScopeView)
    requires
        is_net(scope),
    ensures
        scope_items(scope).len() == net_names(scope).len(),
        scope_items(scope).vars.len() == net_names(scope).len(),
        forall|i: int|
            0 <= i < net_names(scope).len() ==> #[trigger] scope_items(scope).vars[i] == (
            TypedEntryView {
                doc: normalize(scope.comments),
                name: net_names(scope)[i]@,
                ty: trimmed(crate::model::concat_text(net_type_parts(scope))),
            }),
{
}

/// A parameter declaration with several assignments gives one parameter item
/// per assignment and nothing else, in source order, each with the
/// documentation text of the declaration's comment block.
pub proof fn lemma_param_items(scope: ScopeView, names: Vec<String>)
    requires
        scope.node == Some(Declaration::ParamDeclaration { names }),
    ensures
        scope_items(scope).len() == names@.len(),
        scope_items(scope).params.len() == names@.len(),
        forall|i: int|
            0 <= i < names@.len() ==> #[trigger] scope_items(scope).params[i] == (EntryView {
                doc: normalize(scope.comments),
                name: names@[i]@,
            }),
{
}

/// The items of a run of scopes are those of its first part followed by those
/// of the rest.
pub proof fn lemma_context_of_concat(first: Seq<ScopeView>, rest: Seq<ScopeView>)
    ensures
        context_of(first + rest) == context_of(first).merge(context_of(rest)),
    decreases rest.len(),
{
    if rest.len() == 0 {
        assert(first + rest =~= first);
        context_of(first).lemma_merge_empty();
    } else {
        assert((first + rest).drop_last() =~= first + rest.drop_last());
        assert((first + rest).last() == rest.last());
        lemma_context_of_concat(first, rest.drop_last());
        context_of(first).lemma_merge_assoc(
            context_of(rest.drop_last()),
            scope_items(rest.last()),
        );
    }
}

/// The items of a single scope, taken as a run of one.
pub proof fn lemma_context_of_single(scope: ScopeView)
    ensures
        context_of(seq![scope]) == scope_items(scope),
{
    let one = seq![scope];
    assert(one.drop_last() =~= Seq::<ScopeView>::empty());
    assert(context_of(one.drop_last()) == ContextView::empty());
    scope_items(scope).lemma_merge_empty();
}

/// Whether the scope gives rise to no item: it has no declaration, or one in
/// an unrecognized shape.
pub open spec fn is_skipped(scope: ScopeView) -> bool {
    scope.node is None || scope.node == Some(Declaration::Unrecognized)
}

/// A scope with an unrecognized declaration does not disturb its siblings:
/// the items of the run are those of the run without it.
pub proof fn lemma_unrecognized_is_skipped(before: Seq<ScopeView>, scope: ScopeView, after: Seq<ScopeView>)
    requires
        is_skipped(scope),
    ensures
        context_of(before + seq![scope] + after) == context_of(before + after),
        context_of(before + seq![scope] + after) == context_of(before).merge(context_of(after)),
{
    lemma_context_of_concat(before + seq![scope], after);
    lemma_context_of_concat(before, seq![scope]);
    lemma_context_of_single(scope);
    context_of(before).lemma_merge_empty();
    lemma_context_of_concat(before, after);
}

/// Whether the scope declares a module, in either header style.
pub open spec fn is_module(scope: ScopeView) -> bool {
    scope.node matches Some(d) && (d is ModuleAnsi || d is ModuleNonansi)
}

/// The name of the module that a scope declares.
pub open spec fn module_name(scope: ScopeView) -> Seq<char> {
    match scope.node {
        Some(Declaration::ModuleAnsi { name }) => name@,
        Some(Declaration::ModuleNonansi { name }) => name@,
        _ => Seq::empty(),
    }
}

/// The number of module items that a run of scopes gives rise to at its own
/// level.
pub open spec fn count_modules(scopes: Seq<ScopeView>) -> nat
    decreases scopes.len(),
{
    if scopes.len() == 0 {
        0
    } else {
        count_modules(scopes.drop_last()) + if is_module(scopes.last()) {
            1nat
        } else {
            0nat
        }
    }
}

/// A scope adds a module item to its level exactly if it declares a module.
pub proof fn lemma_scope_modules(scope: ScopeView)
    ensures
        is_module(scope) ==> scope_items(scope).modules == seq![
            module_entry(scope, module_name(scope)),
        ] && scope_items(scope).len() == 1,
        !is_module(scope) ==> scope_items(scope).modules == Seq::<crate::model::ModuleView>::empty(),
{
    match scope.node {
        None => {},
        Some(Declaration::ModuleAnsi { name }) => {},
        Some(Declaration::ModuleNonansi { name }) => {},
        Some(Declaration::TypeAlias { name, target }) => {},
        Some(Declaration::NetByTypeIdentifier { ty, names }) => {},
        Some(Declaration::NetByNetType { ty, names }) => {},
        Some(Declaration::AnsiNetPort { name }) => {},
        Some(Declaration::ParamDeclaration { names }) => {},
        Some(Declaration::Unrecognized) => {},
    }
}

/// A level holds one module item for each module declared at that level, in
/// source order; modules declared further inside add none to it.
pub proof fn lemma_modules_of_level(scopes: Seq<ScopeView>, i: int)
    requires
        0 <= i < scopes.len(),
        is_module(scopes[i]),
    ensures
        context_of(scopes).modules.len() == count_modules(scopes),
        0 <= count_modules(scopes.take(i)) < count_modules(scopes),
        context_of(scopes).modules[count_modules(scopes.take(i)) as int] == module_entry(
            scopes[i],
            module_name(scopes[i]),
        ),
    decreases scopes.len(),
{
    lemma_module_count(scopes);
    lemma_scope_modules(scopes.last());
    let rest = scopes.drop_last();
    lemma_module_count(rest);
    lemma_module_count_take(scopes, i);
    if i == scopes.len() - 1 {
        assert(scopes.take(i) =~= rest);
        lemma_module_count(rest);
    } else {
        assert(rest.take(i) =~= scopes.take(i));
        assert(rest[i] == scopes[i]);
        lemma_modules_of_level(rest, i);
    }
}

/// A level holds as many module items as modules are declared at it.
pub proof fn lemma_module_count(scopes: Seq<ScopeView>)
    ensures
        context_of(scopes).modules.len() == count_modules(scopes),
    decreases scopes.len(),
{
    if scopes.len() > 0 {
        lemma_module_count(scopes.drop_last());
        lemma_scope_modules(scopes.last());
    }
}

proof fn lemma_module_count_take(scopes: Seq<ScopeView>, i: int)
    requires
        0 <= i <= scopes.len(),
    ensures
        count_modules(scopes.take(i)) <= count_modules(scopes),
    decreases scopes.len(),
{
    if i < scopes.len() {
        assert(scopes.drop_last().take(i) =~= scopes.take(i));
        lemma_module_count_take(scopes.drop_last(), i);
    } else {
        assert(scopes.take(i) =~= scopes);
    }
}

/// Nesting is preserved: a module declared in the body of another module is an
/// item of that module's content, at the place that its order among the
/// modules of that body gives it, and the enclosing level receives the
/// enclosing module only.
pub proof fn lemma_nested_module(outer: ScopeView, j: int)
    requires
        is_module(outer),
        0 <= j < outer.children.len(),
        is_module(outer.children[j]),
    ensures
        scope_items(outer).modules.len() == 1,
        scope_items(outer).len() == 1,
        scope_items(outer).modules[0].content == context_of(outer.children),
        0 <= count_modules(outer.children.take(j)) < scope_items(
            outer,
        ).modules[0].content.modules.len(),
        scope_items(outer).modules[0].content.modules[count_modules(
            outer.children.take(j),
        ) as int] == module_entry(outer.children[j], module_name(outer.children[j])),
{
    lemma_scope_modules(outer);
    lemma_modules_of_level(outer.children, j);
}

/// An unrecognized declaration in the body of a module does not disturb the
/// module either: its content is that of the body without the declaration.
pub proof fn lemma_unrecognized_in_module(
    outer: ScopeView,
    before: Seq<ScopeView>,
    scope: ScopeView,
    after: Seq<ScopeView>,
)
    requires
        is_module(outer),
        is_skipped(scope),
        outer.children == before + seq![scope] + after,
    ensures
        scope_items(outer).modules.len() == 1,
        scope_items(outer).modules[0].content == context_of(before + after),
{
    lemma_scope_modules(outer);
    lemma_unrecognized_is_skipped(before, scope, after);
}

/// The number of declarations in a syntax tree.
pub open spec fn count_declarations(node: SyntaxNode) -> nat
    decreases node, 0nat,
{
    match node {
        SyntaxNode::Declaration { decl, children } => 1 + count_declarations_in(children@),
        SyntaxNode::Inner { children } => count_declarations_in(children@),
        _ => 0,
    }
}

/// The number of declarations in a run of syntax trees.
pub open spec fn count_declarations_in(nodes: Seq<SyntaxNode>) -> nat
    decreases nodes, 1nat,
{
    if nodes.len() == 0 {
        0
    } else {
        count_declarations_in(nodes.drop_last()) + count_declarations(nodes.last())
    }
}

/// The number of line comments in a syntax tree.
pub open spec fn count_line_comments(node: SyntaxNode) -> nat
    decreases node, 0nat,
{
    match node {
        SyntaxNode::LineComment { text } => 1,
        SyntaxNode::Declaration { decl, children } => count_line_comments_in(children@),
        SyntaxNode::Inner { children } => count_line_comments_in(children@),
        _ => 0,
    }
}

/// The number of line comments in a run of syntax trees.
pub open spec fn count_line_comments_in(nodes: Seq<SyntaxNode>) -> nat
    decreases nodes, 1nat,
{
    if nodes.len() == 0 {
        0
    } else {
        count_line_comments_in(nodes.drop_last()) + count_line_comments(nodes.last())
    }
}

/// The number of scopes in a run of scope trees, at all levels.
pub open spec fn count_scopes(scopes: Seq<ScopeView>) -> nat
    decreases scopes,
{
    if scopes.len() == 0 {
        0
    } else {
        count_scopes(scopes.drop_last()) + 1 + count_scopes(scopes.last().children)
    }
}

/// The number of comment lines that the scopes of a run of scope trees hold,
/// at all levels.
pub open spec fn count_comments(scopes: Seq<ScopeView>) -> nat
    decreases scopes,
{
    if scopes.len() == 0 {
        0
    } else {
        count_comments(scopes.drop_last()) + scopes.last().comments.len() + count_comments(
            scopes.last().children,
        )
    }
}

/// Visiting a node leaves the scopes found before it as they are, adds one
/// scope for each declaration in the node, and hands every line comment of
/// the node to at most one scope.
pub proof fn lemma_visit_accounts(node: SyntaxNode, at: Walk)
    ensures
        at.scopes.is_prefix_of(visit(node, at).scopes),
        count_scopes(visit(node, at).scopes) == count_scopes(at.scopes) + count_declarations(node),
        count_comments(visit(node, at).scopes) + visit(node, at).pending.len() <= count_comments(
            at.scopes,
        ) + at.pending.len() + count_line_comments(node),
    decreases node, 0nat,
{
    match node {
        SyntaxNode::Declaration { decl, children } => {
            let fresh = Walk { scopes: Seq::empty(), pending: Seq::empty() };
            lemma_walk_accounts(children@, fresh);
            let inner = walk(children@, fresh);
            let scope = ScopeView { node: Some(decl), comments: at.pending, children: inner.scopes };
            assert(at.scopes.push(scope).drop_last() =~= at.scopes);
        },
        SyntaxNode::Inner { children } => {
            lemma_walk_accounts(children@, at);
        },
        _ => {},
    }
}

/// The same for a run of sibling nodes.
pub proof fn lemma_walk_accounts(nodes: Seq<SyntaxNode>, at: Walk)
    ensures
        at.scopes.is_prefix_of(walk(nodes, at).scopes),
        count_scopes(walk(nodes, at).scopes) == count_scopes(at.scopes) + count_declarations_in(
            nodes,
        ),
        count_comments(walk(nodes, at).scopes) + walk(nodes, at).pending.len() <= count_comments(
            at.scopes,
        ) + at.pending.len() + count_line_comments_in(nodes),
    decreases nodes, 1nat,
{
    if nodes.len() > 0 {
        lemma_walk_accounts(nodes.drop_last(), at);
        lemma_visit_accounts(nodes.last(), walk(nodes.drop_last(), at));
    }
}

/// The scope tree of a syntax tree has one scope for each declaration, and
/// no more comment lines than the syntax tree has line comments: no scope is
/// made up, and no comment is attached twice.
pub proof fn lemma_root_scope_accounts(tree: SyntaxNode)
    ensures
        count_scopes(root_scope(tree).children) == count_declarations(tree),
        count_comments(root_scope(tree).children) <= count_line_comments(tree),
{
    lemma_visit_accounts(tree, Walk { scopes: Seq::empty(), pending: Seq::empty() });
}

} // verus!
