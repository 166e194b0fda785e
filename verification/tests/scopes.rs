use morty::scopes::strip_comment;
use morty::{Declaration, Scope, SyntaxNode};

fn comment(text: &str) -> SyntaxNode {
    SyntaxNode::LineComment { text: text.to_string() }
}

fn port(name: &str) -> SyntaxNode {
    SyntaxNode::Declaration {
        decl: Declaration::AnsiNetPort { name: name.to_string() },
        children: vec![SyntaxNode::Token, SyntaxNode::Space, SyntaxNode::Token],
    }
}

fn port_name(scope: &Scope) -> String {
    match scope.node {
        Some(Declaration::AnsiNetPort { name }) => name.clone(),
        _ => panic!("no port"),
    }
}

#[test]
fn strip_comment_removes_marker_and_line_break() {
    assert_eq!(strip_comment("// Doubles the input.\n"), " Doubles the input.");
    assert_eq!(strip_comment("// text\r\n"), " text");
    assert_eq!(strip_comment("//no break"), "no break");
    assert_eq!(strip_comment("//"), "");
    assert_eq!(strip_comment("//\n"), "");
    assert_eq!(strip_comment("/// third slash stays\n"), "/ third slash stays");
    assert_eq!(strip_comment("/"), "/");
    assert_eq!(strip_comment(""), "");
    assert_eq!(strip_comment("//\r"), "");
    assert_eq!(strip_comment("//a\n\n"), "a\n");
}

#[test]
fn root_scope_has_no_node_and_no_comments() {
    let tree = SyntaxNode::Inner { children: vec![comment("// lost\n")] };
    let root = Scope::build(&tree);
    assert!(root.node.is_none());
    assert!(root.comments.is_empty());
    assert!(root.children.is_empty());
}

#[test]
fn stacked_comments_attach_to_the_declaration() {
    let tree = SyntaxNode::Inner {
        children: vec![
            comment("// first\n"),
            SyntaxNode::Space,
            comment("//   second\n"),
            SyntaxNode::Space,
            port("a"),
        ],
    };
    let root = Scope::build(&tree);
    assert_eq!(root.children.len(), 1);
    assert_eq!(root.children[0].comments, vec![" first".to_string(), "   second".to_string()]);
    assert_eq!(port_name(&root.children[0]), "a");
    assert!(root.children[0].children.is_empty());
}

#[test]
fn a_declaration_without_comments_has_none() {
    let tree = SyntaxNode::Inner { children: vec![SyntaxNode::LineBreak, port("a")] };
    let root = Scope::build(&tree);
    assert_eq!(root.children.len(), 1);
    assert!(root.children[0].comments.is_empty());
}

#[test]
fn a_blank_line_detaches_the_comments_above_it() {
    let tree = SyntaxNode::Inner {
        children: vec![
            comment("// detached\n"),
            SyntaxNode::LineBreak,
            comment("// attached\n"),
            port("a"),
            comment("// lost\n"),
            SyntaxNode::LineBreak,
            port("b"),
        ],
    };
    let root = Scope::build(&tree);
    assert_eq!(root.children.len(), 2);
    assert_eq!(root.children[0].comments, vec![" attached".to_string()]);
    assert!(root.children[1].comments.is_empty());
}

#[test]
fn a_token_ends_the_comment_block() {
    let tree = SyntaxNode::Inner {
        children: vec![comment("// about the token\n"), SyntaxNode::Token, port("a")],
    };
    let root = Scope::build(&tree);
    assert_eq!(root.children.len(), 1);
    assert!(root.children[0].comments.is_empty());
}

#[test]
fn block_comments_and_space_leave_the_block_as_it_is() {
    let tree = SyntaxNode::Inner {
        children: vec![
            comment("// one\n"),
            SyntaxNode::BlockComment,
            SyntaxNode::Space,
            comment("// two\n"),
            port("a"),
        ],
    };
    let root = Scope::build(&tree);
    assert_eq!(root.children[0].comments, vec![" one".to_string(), " two".to_string()]);
}

#[test]
fn comments_at_the_end_of_a_declaration_go_to_the_next_one() {
    let first = SyntaxNode::Declaration {
        decl: Declaration::AnsiNetPort { name: "a".to_string() },
        children: vec![
            SyntaxNode::Token,
            SyntaxNode::Inner { children: vec![SyntaxNode::Token, SyntaxNode::LineBreak, comment("// for b\n")] },
        ],
    };
    let tree = SyntaxNode::Inner { children: vec![first, port("b")] };
    let root = Scope::build(&tree);
    assert_eq!(root.children.len(), 2);
    assert!(root.children[0].comments.is_empty());
    assert_eq!(root.children[1].comments, vec![" for b".to_string()]);
    assert_eq!(port_name(&root.children[1]), "b");
}

#[test]
fn declarations_are_found_beneath_other_nodes_and_nest_beneath_declarations() {
    let module = SyntaxNode::Declaration {
        decl: Declaration::ModuleAnsi { name: "top".to_string() },
        children: vec![
            SyntaxNode::Token,
            SyntaxNode::Inner {
                children: vec![
                    SyntaxNode::Inner { children: vec![comment("// deep\n"), port("a")] },
                    port("b"),
                ],
            },
            SyntaxNode::Token,
        ],
    };
    let tree = SyntaxNode::Inner { children: vec![SyntaxNode::Inner { children: vec![module] }, port("c")] };
    let root = Scope::build(&tree);
    assert_eq!(root.children.len(), 2);
    let top = &root.children[0];
    assert!(matches!(top.node, Some(Declaration::ModuleAnsi { .. })));
    assert_eq!(top.children.len(), 2);
    assert_eq!(port_name(&top.children[0]), "a");
    assert_eq!(top.children[0].comments, vec![" deep".to_string()]);
    assert_eq!(port_name(&top.children[1]), "b");
    assert_eq!(port_name(&root.children[1]), "c");
}

#[test]
fn a_tree_that_is_one_declaration_gives_one_scope() {
    let tree = port("a");
    let root = Scope::build(&tree);
    assert_eq!(root.children.len(), 1);
    assert_eq!(port_name(&root.children[0]), "a");
}

#[test]
fn walk_and_visit_hand_the_pending_block_on() {
    let nodes = vec![comment("// a\n"), SyntaxNode::Space];
    let mut scopes = Vec::new();
    let after = Scope::walk(&nodes, &mut scopes, vec!["kept".to_string()]);
    assert!(scopes.is_empty());
    assert_eq!(after, vec!["kept".to_string(), " a".to_string()]);
    let token = SyntaxNode::Token;
    let after = Scope::visit(&token, &mut scopes, after);
    assert!(after.is_empty());
    let decl = port("p");
    let after = Scope::visit(&decl, &mut scopes, vec!["doc".to_string()]);
    assert!(after.is_empty());
    assert_eq!(scopes.len(), 1);
    assert_eq!(scopes[0].comments, vec!["doc".to_string()]);
}
