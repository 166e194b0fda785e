use morty::{Context, Declaration, Doc, ModuleItem, ParamItem, PortItem, Scope, SyntaxNode, TypeItem, VarItem};

fn texts(items: &[&str]) -> Vec<String> {
    items.iter().map(|t| t.to_string()).collect()
}

fn comment(text: &str) -> SyntaxNode {
    SyntaxNode::LineComment { text: text.to_string() }
}

fn leaf(decl: Declaration) -> SyntaxNode {
    SyntaxNode::Declaration { decl, children: vec![SyntaxNode::Token, SyntaxNode::Token, SyntaxNode::LineBreak] }
}

fn scope<'a>(decl: &'a Declaration, comments: &[&str]) -> Scope<'a> {
    Scope { node: Some(decl), comments: texts(comments), children: Vec::new() }
}

fn count(cx: &Context) -> usize {
    cx.params.len() + cx.ports.len() + cx.types.len() + cx.modules.len() + cx.vars.len()
}

#[test]
fn new_context_is_empty() {
    assert_eq!(count(&Context::new()), 0);
}

#[test]
fn net_declaration_gives_one_item_per_name() {
    let decl = Declaration::NetByNetType {
        ty: texts(&["wire ", "logic [7:0] "]),
        names: texts(&["a", "b", "c"]),
    };
    let mut cx = Context::new();
    cx.analyze_scope(&scope(&decl, &["  The operands.", "    Eight bits each."]));
    assert_eq!(count(&cx), 3);
    assert_eq!(cx.vars.len(), 3);
    for (item, name) in cx.vars.iter().zip(["a", "b", "c"]) {
        assert_eq!(item.name, name);
        assert_eq!(item.doc, "The operands.\n  Eight bits each.");
        assert_eq!(item.ty, "wire logic [7:0]");
    }
}

#[test]
fn net_declaration_by_type_identifier_gives_the_same_shape() {
    let decl = Declaration::NetByTypeIdentifier { ty: texts(&["bus_t ", "#(3) "]), names: texts(&["x", "y"]) };
    let mut cx = Context::new();
    cx.analyze_scope(&scope(&decl, &[" A bus."]));
    assert_eq!(count(&cx), 2);
    assert_eq!(cx.vars[0].name, "x");
    assert_eq!(cx.vars[1].name, "y");
    assert_eq!(cx.vars[0].ty, "bus_t #(3)");
    assert_eq!(cx.vars[1].ty, "bus_t #(3)");
    assert_eq!(cx.vars[0].doc, "A bus.");
    assert_eq!(cx.vars[1].doc, "A bus.");
}

#[test]
fn net_declaration_without_names_gives_nothing() {
    let decl = Declaration::NetByNetType { ty: texts(&["wire"]), names: Vec::new() };
    let mut cx = Context::new();
    cx.analyze_scope(&scope(&decl, &["doc"]));
    assert_eq!(count(&cx), 0);
}

#[test]
fn parameter_declaration_gives_one_item_per_assignment() {
    let decl = Declaration::ParamDeclaration { names: texts(&["WIDTH", "DEPTH"]) };
    let mut cx = Context::new();
    cx.analyze_scope(&scope(&decl, &[" Sizes."]));
    assert_eq!(count(&cx), 2);
    assert_eq!(cx.params[0].name, "WIDTH");
    assert_eq!(cx.params[1].name, "DEPTH");
    assert_eq!(cx.params[0].doc, "Sizes.");
    assert_eq!(cx.params[1].doc, "Sizes.");
}

#[test]
fn type_alias_gives_a_type_item_with_trimmed_type_text() {
    let decl = Declaration::TypeAlias { name: "word_t".to_string(), target: "logic [31:0] ".to_string() };
    let mut cx = Context::new();
    cx.analyze_scope(&scope(&decl, &[" A word."]));
    assert_eq!(count(&cx), 1);
    assert_eq!(cx.types[0].name, "word_t");
    assert_eq!(cx.types[0].ty, "logic [31:0]");
    assert_eq!(cx.types[0].doc, "A word.");
}

#[test]
fn port_gives_a_port_item() {
    let decl = Declaration::AnsiNetPort { name: "clk_i".to_string() };
    let mut cx = Context::new();
    cx.analyze_scope(&scope(&decl, &[]));
    assert_eq!(count(&cx), 1);
    assert_eq!(cx.ports[0].name, "clk_i");
    assert_eq!(cx.ports[0].doc, "");
}

#[test]
fn both_module_header_styles_give_the_same_item() {
    let ansi = Declaration::ModuleAnsi { name: "m".to_string() };
    let nonansi = Declaration::ModuleNonansi { name: "m".to_string() };
    let mut cx = Context::new();
    cx.analyze_scope(&scope(&ansi, &[" doc"]));
    cx.analyze_scope(&scope(&nonansi, &[" doc"]));
    assert_eq!(count(&cx), 2);
    for item in &cx.modules {
        assert_eq!(item.name, "m");
        assert_eq!(item.doc, "doc");
        assert_eq!(count(&item.content), 0);
    }
}

#[test]
fn scope_without_declaration_and_unrecognized_declaration_give_nothing() {
    let mut cx = Context::new();
    cx.analyze_scope(&Scope { node: None, comments: texts(&["doc"]), children: Vec::new() });
    let decl = Declaration::Unrecognized;
    cx.analyze_scope(&scope(&decl, &["doc"]));
    assert_eq!(count(&cx), 0);
}

#[test]
fn items_are_appended_after_those_already_there() {
    let a = Declaration::AnsiNetPort { name: "a".to_string() };
    let b = Declaration::AnsiNetPort { name: "b".to_string() };
    let p = Declaration::ParamDeclaration { names: texts(&["P"]) };
    let scopes = vec![scope(&b, &[]), scope(&p, &[])];
    let mut cx = Context::new();
    cx.analyze_scope(&scope(&a, &[]));
    cx.analyze_scopes(&scopes);
    assert_eq!(cx.ports.len(), 2);
    assert_eq!(cx.ports[0].name, "a");
    assert_eq!(cx.ports[1].name, "b");
    assert_eq!(cx.params.len(), 1);
}

#[test]
fn unrecognized_declaration_between_two_recognized_ones_is_skipped() {
    let a = Declaration::AnsiNetPort { name: "a".to_string() };
    let bad = Declaration::Unrecognized;
    let t = Declaration::TypeAlias { name: "t".to_string(), target: "int".to_string() };
    let inner = vec![scope(&a, &[]), scope(&bad, &[" ignored"]), scope(&t, &[])];
    let m = Declaration::ModuleAnsi { name: "m".to_string() };
    let outer = vec![
        Scope { node: Some(&m), comments: Vec::new(), children: inner },
        scope(&bad, &[]),
        scope(&a, &[]),
    ];
    let mut cx = Context::new();
    cx.analyze_scopes(&outer);
    assert_eq!(count(&cx), 2);
    assert_eq!(cx.modules[0].name, "m");
    assert_eq!(cx.ports[0].name, "a");
    let content = &cx.modules[0].content;
    assert_eq!(count(content), 2);
    assert_eq!(content.ports[0].name, "a");
    assert_eq!(content.types[0].name, "t");
}

#[test]
fn nested_module_belongs_to_the_enclosing_module() {
    let outer = Declaration::ModuleNonansi { name: "outer".to_string() };
    let first = Declaration::ModuleAnsi { name: "first".to_string() };
    let second = Declaration::ModuleAnsi { name: "second".to_string() };
    let wire = Declaration::NetByNetType { ty: texts(&["wire "]), names: texts(&["w"]) };
    let deep = Scope { node: Some(&second), comments: Vec::new(), children: vec![scope(&first, &[])] };
    let root = vec![Scope {
        node: Some(&outer),
        comments: Vec::new(),
        children: vec![scope(&first, &[" 1"]), scope(&wire, &[]), deep],
    }];
    let mut cx = Context::new();
    cx.analyze_scopes(&root);
    assert_eq!(cx.modules.len(), 1);
    assert_eq!(cx.modules[0].name, "outer");
    let content = &cx.modules[0].content;
    assert_eq!(content.modules.len(), 2);
    assert_eq!(content.modules[0].name, "first");
    assert_eq!(content.modules[0].doc, "1");
    assert_eq!(content.modules[1].name, "second");
    assert_eq!(content.vars.len(), 1);
    assert_eq!(content.modules[1].content.modules.len(), 1);
    assert_eq!(content.modules[1].content.modules[0].name, "first");
    assert_eq!(content.modules[0].content.modules.len(), 0);
}

#[test]
fn item_constructors_take_the_documentation_of_the_scope() {
    let decl = Declaration::Unrecognized;
    let s = scope(&decl, &["   indented", "     more"]);
    let doc = "indented\n  more";
    let p = ParamItem::from(&s, "P");
    assert_eq!((p.doc.as_str(), p.name.as_str()), (doc, "P"));
    let q = PortItem::from(&s, "q");
    assert_eq!((q.doc.as_str(), q.name.as_str()), (doc, "q"));
    let t = TypeItem::from(&s, "t", "\tstruct packed { logic a; }\n");
    assert_eq!((t.doc.as_str(), t.name.as_str(), t.ty.as_str()), (doc, "t", "struct packed { logic a; }"));
    let v = VarItem::from(&s, &texts(&["  tri", "reg ", "signed "]), "v");
    assert_eq!((v.doc.as_str(), v.name.as_str(), v.ty.as_str()), (doc, "v", "trireg signed"));
    let m = ModuleItem::from(&s, "m");
    assert_eq!((m.doc.as_str(), m.name.as_str()), (doc, "m"));
    assert_eq!(count(&m.content), 0);
}

#[test]
fn documented_module_round_trip() {
    // // Doubles the input.
    // module adder(input logic [7:0] a, output logic [7:0] y);
    // endmodule
    let header_port = || SyntaxNode::Declaration {
        decl: Declaration::Unrecognized,
        children: vec![SyntaxNode::Token, SyntaxNode::Space, SyntaxNode::Token, SyntaxNode::Space, SyntaxNode::Token],
    };
    let module = SyntaxNode::Declaration {
        decl: Declaration::ModuleAnsi { name: "adder".to_string() },
        children: vec![
            SyntaxNode::Token,
            SyntaxNode::Space,
            SyntaxNode::Token,
            SyntaxNode::Token,
            header_port(),
            SyntaxNode::Token,
            SyntaxNode::Space,
            header_port(),
            SyntaxNode::Token,
            SyntaxNode::Token,
            SyntaxNode::LineBreak,
            SyntaxNode::Token,
            SyntaxNode::LineBreak,
        ],
    };
    let tree = SyntaxNode::Inner { children: vec![comment("// Doubles the input.\n"), module] };
    let doc = Doc::new(&tree);
    assert_eq!(count(&doc.data), 1);
    assert_eq!(doc.data.modules.len(), 1);
    assert_eq!(doc.data.modules[0].name, "adder");
    assert_eq!(doc.data.modules[0].doc, "Doubles the input.");
    assert_eq!(count(&doc.data.modules[0].content), 0);
    assert_eq!(doc.raw.children.len(), 1);
    assert_eq!(doc.raw.children[0].children.len(), 2);
}

#[test]
fn documented_port_round_trip() {
    // // Doubles the input.
    // module adder(
    //     input wire [7:0] a,
    //     // The doubled value.
    //     output wire [7:0] y
    // );
    // endmodule
    let module = SyntaxNode::Declaration {
        decl: Declaration::ModuleAnsi { name: "adder".to_string() },
        children: vec![
            SyntaxNode::Token,
            SyntaxNode::Token,
            SyntaxNode::Token,
            SyntaxNode::LineBreak,
            SyntaxNode::Space,
            leaf(Declaration::AnsiNetPort { name: "a".to_string() }),
            SyntaxNode::Inner {
                children: vec![SyntaxNode::Token, SyntaxNode::LineBreak, SyntaxNode::Space, comment("// The doubled value.\n"), SyntaxNode::Space],
            },
            SyntaxNode::Declaration {
                decl: Declaration::AnsiNetPort { name: "y".to_string() },
                children: vec![SyntaxNode::Token],
            },
            SyntaxNode::Token,
        ],
    };
    let tree = SyntaxNode::Inner { children: vec![comment("// Doubles the input.\n"), module] };
    let doc = Doc::new(&tree);
    assert_eq!(doc.data.modules.len(), 1);
    let content = &doc.data.modules[0].content;
    assert_eq!(count(content), 2);
    assert_eq!(content.ports[0].name, "a");
    assert_eq!(content.ports[0].doc, "");
    assert_eq!(content.ports[1].name, "y");
    assert_eq!(content.ports[1].doc, "The doubled value.");
}

#[test]
fn documentation_of_an_empty_tree_is_empty() {
    let tree = SyntaxNode::Inner { children: Vec::new() };
    let doc = Doc::new(&tree);
    assert_eq!(count(&doc.data), 0);
    assert!(doc.raw.children.is_empty());
}

#[test]
fn default_context_is_empty() {
    assert_eq!(count(&Context::default()), 0);
}
