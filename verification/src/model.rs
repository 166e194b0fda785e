//! The documentation items of a source file and how they are gathered from
//! its scopes.

use vstd::prelude::*;
use crate::normalize::{normalize, parse_docs};
use crate::scopes::{lemma_scopes_view_push, root_scope, scopes_view, Scope, ScopeView};
use crate::syntax::{Declaration, SyntaxNode};
use crate::whitespace::{trim, trimmed};

verus! {

/// What a [`ParamItem`] or a [`PortItem`] says.
pub struct EntryView {
    pub doc: Seq<char>,
    pub name: Seq<char>,
}

/// What a [`TypeItem`] or a [`VarItem`] says.
pub struct TypedEntryView {
    pub doc: Seq<char>,
    pub name: Seq<char>,
    pub ty: Seq<char>,
}

/// What a [`ModuleItem`] says.
pub struct ModuleView {
    pub doc: Seq<char>,
    pub name: Seq<char>,
    pub content: ContextView,
}

/// What a [`Context`] holds: the items of each kind in declaration order.
pub struct ContextView {
    pub params: Seq<EntryView>,
    pub ports: Seq<EntryView>,
    pub types: Seq<TypedEntryView>,
    pub modules: Seq<ModuleView>,
    pub vars: Seq<TypedEntryView>,
}

impl ContextView {
    /// No items of any kind.
    pub open spec fn empty() -> ContextView {
        ContextView {
            params: Seq::empty(),
            ports: Seq::empty(),
            types: Seq::empty(),
            modules: Seq::empty(),
            vars: Seq::empty(),
        }
    }

    /// The items of `self` followed, kind by kind, by those of `more`.
    pub open spec fn merge(self, more: ContextView) -> ContextView {
        ContextView {
            params: self.params + more.params,
            ports: self.ports + more.ports,
            types: self.types + more.types,
            modules: self.modules + more.modules,
            vars: self.vars + more.vars,
        }
    }

    /// The number of items of all kinds, those of nested modules not counted.
    pub open spec fn len(self) -> nat {
        self.params.len() + self.ports.len() + self.types.len() + self.modules.len()
            + self.vars.len()
    }
}

/// Documentation for a module.
#[derive(Debug)]
pub struct ModuleItem {
    /// Documentation text.
    pub doc: String,
    /// Module name.
    pub name: String,
    /// The module contents.
    pub content: Context,
}

/// Documentation for a parameter.
#[derive(Debug)]
pub struct ParamItem {
    /// Documentation text.
    pub doc: String,
    /// Parameter name.
    pub name: String,
}

/// Documentation for a port.
#[derive(Debug)]
pub struct PortItem {
    /// Documentation text.
    pub doc: String,
    /// Port name.
    pub name: String,
}

/// Documentation for a type.
#[derive(Debug)]
pub struct TypeItem {
    /// Documentation text.
    pub doc: String,
    /// Type name.
    pub name: String,
    /// Inner type.
    pub ty: String,
}

/// Documentation for a variable.
#[derive(Debug)]
pub struct VarItem {
    /// Documentation text.
    pub doc: String,
    /// Variable name.
    pub name: String,
    /// Variable type.
    pub ty: String,
}

/// The documentation items of one nesting level, kind by kind, each kind in
/// declaration order.
#[derive(Debug)]
pub struct Context {
    pub params: Vec<ParamItem>,
    pub ports: Vec<PortItem>,
    pub types: Vec<TypeItem>,
    pub modules: Vec<ModuleItem>,
    pub vars: Vec<VarItem>,
}

/// Documentation generated for a source file.
#[derive(Debug)]
pub struct Doc<'a> {
    /// The root scope that the documentation was generated from.
    pub raw: Scope<'a>,
    /// The documentation items.
    pub data: Context,
}

impl View for ParamItem {
    type V = EntryView;

    open spec fn view(&self) -> EntryView {
        EntryView { doc: self.doc@, name: self.name@ }
    }
}

impl View for PortItem {
    type V = EntryView;

    open spec fn view(&self) -> EntryView {
        EntryView { doc: self.doc@, name: self.name@ }
    }
}

impl View for TypeItem {
    type V = TypedEntryView;

    open spec fn view(&self) -> TypedEntryView {
        TypedEntryView { doc: self.doc@, name: self.name@, ty: self.ty@ }
    }
}

impl View for VarItem {
    type V = TypedEntryView;

    open spec fn view(&self) -> TypedEntryView {
        TypedEntryView { doc: self.doc@, name: self.name@, ty: self.ty@ }
    }
}

/// What a module item says, its nested items included.
pub open spec fn module_view(item: ModuleItem) -> ModuleView
    decreases item,
{
    ModuleView { doc: item.doc@, name: item.name@, content: context_view(item.content) }
}

/// What each of the module items says, in the same order.
pub open spec fn modules_view(items: Seq<ModuleItem>) -> Seq<ModuleView>
    decreases items,
{
    if items.len() == 0 {
        Seq::empty()
    } else {
        modules_view(items.drop_last()).push(module_view(items.last()))
    }
}

/// What each of the parameter items says, in the same order.
pub open spec fn params_view(items: Seq<ParamItem>) -> Seq<EntryView> {
    items.map_values(|i: ParamItem| i@)
}

/// What each of the port items says, in the same order.
pub open spec fn ports_view(items: Seq<PortItem>) -> Seq<EntryView> {
    items.map_values(|i: PortItem| i@)
}

/// What each of the type items says, in the same order.
pub open spec fn types_view(items: Seq<TypeItem>) -> Seq<TypedEntryView> {
    items.map_values(|i: TypeItem| i@)
}

/// What each of the signal items says, in the same order.
pub open spec fn vars_view(items: Seq<VarItem>) -> Seq<TypedEntryView> {
    items.map_values(|i: VarItem| i@)
}

/// What a context holds.
pub open spec fn context_view(cx: Context) -> ContextView
    decreases cx,
{
    ContextView {
        params: params_view(cx.params@),
        ports: ports_view(cx.ports@),
        types: types_view(cx.types@),
        modules: modules_view(cx.modules@),
        vars: vars_view(cx.vars@),
    }
}

impl View for ModuleItem {
    type V = ModuleView;

    open spec fn view(&self) -> ModuleView {
        module_view(*self)
    }
}

impl View for Context {
    type V = ContextView;

    open spec fn view(&self) -> ContextView {
        context_view(*self)
    }
}

/// The pieces of text one after another.
pub open spec fn concat_text(parts: Seq<String>) -> Seq<char>
    decreases parts.len(),
{
    if parts.len() == 0 {
        Seq::empty()
    } else {
        concat_text(parts.drop_last()) + parts.last()@
    }
}

/// The documentation text of a scope.
pub open spec fn scope_doc(scope: ScopeView) -> Seq<char> {
    normalize(scope.comments)
}

/// One entry for each name, all with the same documentation.
pub open spec fn entries(doc: Seq<char>, names: Seq<String>) -> Seq<EntryView> {
    names.map_values(|n: String| EntryView { doc, name: n@ })
}

/// One entry for each name, all with the same documentation and type.
pub open spec fn typed_entries(doc: Seq<char>, names: Seq<String>, ty: Seq<char>) -> Seq<
    TypedEntryView,
> {
    names.map_values(|n: String| TypedEntryView { doc, name: n@, ty })
}

/// The items that one scope gives rise to: none for a scope without a
/// declaration or with an unrecognized one, one for a module, a type or a
/// port, and one for each name of a net or parameter declaration.
pub open spec fn scope_items(scope: ScopeView) -> ContextView
    decreases scope, 1nat,
{
    let doc = scope_doc(scope);
    let none = ContextView::empty();
    match scope.node {
        None => none,
        Some(Declaration::ModuleAnsi { name }) => ContextView {
            modules: seq![module_entry(scope, name@)],
            ..none
        },
        Some(Declaration::ModuleNonansi { name }) => ContextView {
            modules: seq![module_entry(scope, name@)],
            ..none
        },
        Some(Declaration::TypeAlias { name, target }) => ContextView {
            types: seq![TypedEntryView { doc, name: name@, ty: trimmed(target@) }],
            ..none
        },
        Some(Declaration::NetByTypeIdentifier { ty, names }) => ContextView {
            vars: typed_entries(doc, names@, trimmed(concat_text(ty@))),
            ..none
        },
        Some(Declaration::NetByNetType { ty, names }) => ContextView {
            vars: typed_entries(doc, names@, trimmed(concat_text(ty@))),
            ..none
        },
        Some(Declaration::AnsiNetPort { name }) => ContextView {
            ports: seq![EntryView { doc, name: name@ }],
            ..none
        },
        Some(Declaration::ParamDeclaration { names }) => ContextView {
            params: entries(doc, names@),
            ..none
        },
        Some(Declaration::Unrecognized) => none,
    }
}

/// The module item of a scope that declares a module called `name`: its
/// content is gathered from the scopes nested in it.
pub open spec fn module_entry(scope: ScopeView, name: Seq<char>) -> ModuleView
    decreases scope, 0nat,
{
    ModuleView { doc: scope_doc(scope), name, content: context_of(scope.children) }
}

/// The items that a run of sibling scopes gives rise to, in source order.
pub open spec fn context_of(scopes: Seq<ScopeView>) -> ContextView
    decreases scopes, 2nat,
{
    if scopes.len() == 0 {
        ContextView::empty()
    } else {
        context_of(scopes.drop_last()).merge(scope_items(scopes.last()))
    }
}

impl ContextView {
    /// Merging is associative.
    pub proof fn lemma_merge_assoc(self, b: ContextView, c: ContextView)
        ensures
            self.merge(b).merge(c) == self.merge(b.merge(c)),
    {
        let l = self.merge(b).merge(c);
        let r = self.merge(b.merge(c));
        assert(l.params =~= r.params);
        assert(l.ports =~= r.ports);
        assert(l.types =~= r.types);
        assert(l.modules =~= r.modules);
        assert(l.vars =~= r.vars);
    }

    /// Merging with no items changes nothing.
    pub proof fn lemma_merge_empty(self)
        ensures
            self.merge(ContextView::empty()) == self,
            ContextView::empty().merge(self) == self,
    {
        let l = self.merge(ContextView::empty());
        assert(l.params =~= self.params);
        assert(l.ports =~= self.ports);
        assert(l.types =~= self.types);
        assert(l.modules =~= self.modules);
        assert(l.vars =~= self.vars);
        let r = ContextView::empty().merge(self);
        assert(r.params =~= self.params);
        assert(r.ports =~= self.ports);
        assert(r.types =~= self.types);
        assert(r.modules =~= self.modules);
        assert(r.vars =~= self.vars);
    }
}

/// Appending a module item appends what it says.
pub proof fn lemma_modules_view_push(items: Seq<ModuleItem>, item: ModuleItem)
    ensures
        modules_view(items.push(item)) == modules_view(items).push(module_view(item)),
{
    assert(items.push(item).drop_last() =~= items);
}

/// The text of `parts`, one after another.
pub fn concat_parts(parts: &Vec<String>) -> (text: String)
    ensures
        text@ == concat_text(parts@),
{
    let mut text = String::new();
    let mut i: usize = 0;
    while i < parts.len()
        invariant
            i <= parts.len(),
            text@ == concat_text(parts@.take(i as int)),
        decreases parts.len() - i,
    {
        proof {
            assert(parts@.take(i + 1).drop_last() =~= parts@.take(i as int));
        }
        text.append(parts[i].as_str());
        i += 1;
    }
    assert(parts@.take(i as int) =~= parts@);
    text
}

impl ParamItem {
    /// The item for the parameter `name` declared in `scope`.
    pub fn from(scope: &Scope, name: &str) -> (item: ParamItem)
        ensures
            item@ == (EntryView { doc: scope_doc(scope@), name: name@ }),
    {
        ParamItem { doc: parse_docs(scope.comments.as_slice()), name: String::from_str(name) }
    }
}

impl PortItem {
    /// The item for the port `name` declared in `scope`.
    pub fn from(scope: &Scope, name: &str) -> (item: PortItem)
        ensures
            item@ == (EntryView { doc: scope_doc(scope@), name: name@ }),
    {
        PortItem { doc: parse_docs(scope.comments.as_slice()), name: String::from_str(name) }
    }
}

impl TypeItem {
    /// The item for the type `name` declared in `scope` as another name for
    /// the type written as `ty`.
    pub fn from(scope: &Scope, name: &str, ty: &str) -> (item: TypeItem)
        ensures
            item@ == (TypedEntryView { doc: scope_doc(scope@), name: name@, ty: trimmed(ty@) }),
    {
        TypeItem {
            doc: parse_docs(scope.comments.as_slice()),
            name: String::from_str(name),
            ty: trim(ty),
        }
    }
}

impl VarItem {
    /// The item for the signal `name` declared in `scope`, whose type is
    /// written by `ty_parts` one after another.
    pub fn from(scope: &Scope, ty_parts: &Vec<String>, name: &str) -> (item: VarItem)
        ensures
            item@ == (TypedEntryView {
                doc: scope_doc(scope@),
                name: name@,
                ty: trimmed(concat_text(ty_parts@)),
            }),
    {
        let ty = concat_parts(ty_parts);
        VarItem {
            doc: parse_docs(scope.comments.as_slice()),
            name: String::from_str(name),
            ty: trim(ty.as_str()),
        }
    }
}

impl ModuleItem {
    /// The item for the module `name` declared in `scope`, with the items of
    /// the scopes nested in it.
    pub fn from(scope: &Scope, name: &str) -> (item: ModuleItem)
        ensures
            item@ == module_entry(scope@, name@),
        decreases *scope, 0nat, 0nat,
    {
        let mut content = Context::new();
        content.analyze_scopes(&scope.children);
        proof {
            context_of(scope@.children).lemma_merge_empty();
        }
        ModuleItem {
            doc: parse_docs(scope.comments.as_slice()),
            name: String::from_str(name),
            content,
        }
    }
}

impl Default for Context {
    fn default() -> (cx: Context)
        ensures
            cx@ == ContextView::empty(),
    {
        Context::new()
    }
}

impl Context {
    /// A context without items.
    pub fn new() -> (cx: Context)
        ensures
            cx@ == ContextView::empty(),
    {
        let cx = Context {
            params: Vec::new(),
            ports: Vec::new(),
            types: Vec::new(),
            modules: Vec::new(),
            vars: Vec::new(),
        };
        assert(cx@.params =~= Seq::empty());
        assert(cx@.ports =~= Seq::empty());
        assert(cx@.types =~= Seq::empty());
        assert(cx@.vars =~= Seq::empty());
        cx
    }

    /// Appends one signal item for each of `names`.
    fn push_vars(&mut self, scope: &Scope, ty_parts: &Vec<String>, names: &Vec<String>)
        ensures
            final(self)@ == old(self)@.merge(
                ContextView {
                    vars: typed_entries(
                        scope_doc(scope@),
                        names@,
                        trimmed(concat_text(ty_parts@)),
                    ),
                    ..ContextView::empty()
                },
            ),
    {
        let ghost doc = scope_doc(scope@);
        let ghost ty = trimmed(concat_text(ty_parts@));
        let mut i: usize = 0;
        while i < names.len()
            invariant
                i <= names.len(),
                doc == scope_doc(scope@),
                ty == trimmed(concat_text(ty_parts@)),
                self.params == old(self).params,
                self.ports == old(self).ports,
                self.types == old(self).types,
                self.modules == old(self).modules,
                vars_view(self.vars@) == vars_view(old(self).vars@) + typed_entries(
                    doc,
                    names@.take(i as int),
                    ty,
                ),
            decreases names.len() - i,
        {
            let item = VarItem::from(scope, ty_parts, names[i].as_str());
            let ghost before = self.vars@;
            self.vars.push(item);
            assert(vars_view(self.vars@) =~= vars_view(before).push(item@));
            assert(typed_entries(doc, names@.take(i + 1), ty) =~= typed_entries(
                doc,
                names@.take(i as int),
                ty,
            ).push(item@));
            i += 1;
        }
        assert(names@.take(i as int) =~= names@);
        proof {
            let after = old(self)@.merge(
                ContextView { vars: typed_entries(doc, names@, ty), ..ContextView::empty() },
            );
            assert(self@.params =~= after.params);
            assert(self@.ports =~= after.ports);
            assert(self@.types =~= after.types);
            assert(self@.modules =~= after.modules);
            assert(self@.vars =~= after.vars);
        }
    }

    /// Appends one parameter item for each of `names`.
    fn push_params(&mut self, scope: &Scope, names: &Vec<String>)
        ensures
            final(self)@ == old(self)@.merge(
                ContextView { params: entries(scope_doc(scope@), names@), ..ContextView::empty() },
            ),
    {
        let ghost doc = scope_doc(scope@);
        let mut i: usize = 0;
        while i < names.len()
            invariant
                i <= names.len(),
                doc == scope_doc(scope@),
                self.ports == old(self).ports,
                self.types == old(self).types,
                self.modules == old(self).modules,
                self.vars == old(self).vars,
                params_view(self.params@) == params_view(old(self).params@) + entries(
                    doc,
                    names@.take(i as int),
                ),
            decreases names.len() - i,
        {
            let item = ParamItem::from(scope, names[i].as_str());
            let ghost before = self.params@;
            self.params.push(item);
            assert(params_view(self.params@) =~= params_view(before).push(item@));
            assert(entries(doc, names@.take(i + 1)) =~= entries(doc, names@.take(i as int)).push(
                item@,
            ));
            i += 1;
        }
        assert(names@.take(i as int) =~= names@);
        proof {
            let after = old(self)@.merge(
                ContextView { params: entries(doc, names@), ..ContextView::empty() },
            );
            assert(self@.params =~= after.params);
            assert(self@.ports =~= after.ports);
            assert(self@.types =~= after.types);
            assert(self@.modules =~= after.modules);
            assert(self@.vars =~= after.vars);
        }
    }

    /// Appends the module item of `scope`.
    fn push_module(&mut self, scope: &Scope, name: &str)
        ensures
            final(self)@ == old(self)@.merge(
                ContextView { modules: seq![module_entry(scope@, name@)], ..ContextView::empty() },
            ),
        decreases *scope, 0nat, 1nat,
    {
        let item = ModuleItem::from(scope, name);
        proof {
            lemma_modules_view_push(self.modules@, item);
        }
        self.modules.push(item);
        proof {
            let after = old(self)@.merge(
                ContextView { modules: seq![module_entry(scope@, name@)], ..ContextView::empty() },
            );
            assert(self@.params =~= after.params);
            assert(self@.ports =~= after.ports);
            assert(self@.types =~= after.types);
            assert(self@.modules =~= after.modules);
            assert(self@.vars =~= after.vars);
        }
    }

    /// Classifies the declaration of `scope` and appends the items it gives
    /// rise to, each to the list of its kind. A scope without a declaration,
    /// or with an unrecognized one, appends nothing.
    pub fn analyze_scope(&mut self, scope: &Scope)
        ensures
            final(self)@ == old(self)@.merge(scope_items(scope@)),
        decreases *scope, 1nat, 0nat,
    {
        proof {
            old(self)@.lemma_merge_empty();
        }
        match scope.node {
            None => {},
            Some(Declaration::ModuleAnsi { name }) => {
                self.push_module(scope, name.as_str());
            },
            Some(Declaration::ModuleNonansi { name }) => {
                self.push_module(scope, name.as_str());
            },
            Some(Declaration::TypeAlias { name, target }) => {
                let item = TypeItem::from(scope, name.as_str(), target.as_str());
                self.types.push(item);
                proof {
                    let after = old(self)@.merge(scope_items(scope@));
                    assert(self@.params =~= after.params);
                    assert(self@.ports =~= after.ports);
                    assert(self@.types =~= after.types);
                    assert(self@.modules =~= after.modules);
                    assert(self@.vars =~= after.vars);
                }
            },
            Some(Declaration::NetByTypeIdentifier { ty, names }) => {
                self.push_vars(scope, ty, names);
            },
            Some(Declaration::NetByNetType { ty, names }) => {
                self.push_vars(scope, ty, names);
            },
            Some(Declaration::AnsiNetPort { name }) => {
                let item = PortItem::from(scope, name.as_str());
                self.ports.push(item);
                proof {
                    let after = old(self)@.merge(scope_items(scope@));
                    assert(self@.params =~= after.params);
                    assert(self@.ports =~= after.ports);
                    assert(self@.types =~= after.types);
                    assert(self@.modules =~= after.modules);
                    assert(self@.vars =~= after.vars);
                }
            },
            Some(Declaration::ParamDeclaration { names }) => {
                self.push_params(scope, names);
            },
            Some(Declaration::Unrecognized) => {},
        }
    }

    /// Classifies each of `scopes` in turn and appends the items they give
    /// rise to.
    pub fn analyze_scopes(&mut self, scopes: &Vec<Scope>)
        ensures
            final(self)@ == old(self)@.merge(context_of(scopes_view(scopes@))),
        decreases scopes@, 2nat, 0nat,
    {
        let mut i: usize = 0;
        proof {
            old(self)@.lemma_merge_empty();
            assert(scopes@.take(0) =~= Seq::empty());
        }
        while i < scopes.len()
            invariant
                i <= scopes.len(),
                self@ == old(self)@.merge(context_of(scopes_view(scopes@.take(i as int)))),
            decreases scopes.len() - i,
        {
            proof {
                assert(scopes@.take(i + 1) =~= scopes@.take(i as int).push(scopes@[i as int]));
                lemma_scopes_view_push(scopes@.take(i as int), scopes@[i as int]);
                let seen = scopes_view(scopes@.take(i as int));
                assert(seen.push(scopes@[i as int]@).drop_last() =~= seen);
                old(self)@.lemma_merge_assoc(context_of(seen), scope_items(scopes@[i as int]@));
            }
            self.analyze_scope(&scopes[i]);
            i += 1;
        }
        assert(scopes@.take(i as int) =~= scopes@);
    }
}

impl<'a> Doc<'a> {
    /// Generates the documentation of a source file from its syntax tree.
    pub fn new(ast: &'a SyntaxNode) -> (doc: Doc<'a>)
        ensures
            doc.raw@ == root_scope(*ast),
            doc.data@ == context_of(root_scope(*ast).children),
    {
        let raw = Scope::build(ast);
        let mut data = Context::new();
        data.analyze_scopes(&raw.children);
        proof {
            context_of(raw@.children).lemma_merge_empty();
        }
        Doc { raw, data }
    }
}

} // verus!
