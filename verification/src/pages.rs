//! The HTML pages of a documentation, as text: an index page, one page for
//! each module and one for each type.

use vstd::prelude::*;
use crate::html::{first_line, markdown_html, Renderer};
use crate::model::{
    lemma_modules_view_push, modules_view, Context, ContextView, Doc, EntryView, ModuleItem,
    ModuleView, TypeItem, TypedEntryView,
};

verus! {

/// A page to be written: the name of its file in the documentation
/// directory, and its text.
#[derive(Debug)]
pub struct Page {
    pub file: String,
    pub html: String,
}

/// What a [`Page`] says.
pub struct PageView {
    pub file: Seq<char>,
    pub html: Seq<char>,
}

impl View for Page {
    type V = PageView;

    open spec fn view(&self) -> PageView {
        PageView { file: self.file@, html: self.html@ }
    }
}

/// What each of the pages says, in the same order.
pub open spec fn pages_view(pages: Seq<Page>) -> Seq<PageView> {
    pages.map_values(|p: Page| p@)
}

/// The start of every page; `stamp` tells what compiled the page, and when.
pub open spec fn header_html(stamp: Seq<char>) -> Seq<char> {
    "<!-- Compiled by "@ + stamp
        + " -->\n\n<html>\n<link rel=\"stylesheet\" type=\"text/css\" href=\"static/rustdoc.css\">\n<link rel=\"stylesheet\" type=\"text/css\" href=\"static/light.css\">\n<link rel=\"stylesheet\" type=\"text/css\" href=\"static/svdoc.css\">\n"@
}

/// The end of every page.
pub open spec fn footer_html() -> Seq<char> {
    "</section>\n</body>\n</html>\n"@
}

/// The file name of the page of the module `name`.
pub open spec fn module_file(name: Seq<char>) -> Seq<char> {
    "module."@ + name + ".html"@
}

/// The file name of the page of the type `name`.
pub open spec fn type_file(name: Seq<char>) -> Seq<char> {
    "type."@ + name + ".html"@
}

/// The table row that leads to the page of a module.
pub open spec fn module_row(item: ModuleView) -> Seq<char> {
    "<tr><td><a class=\"module\" href=\""@ + module_file(item.name) + "\">"@ + item.name
        + "</a></td><td>"@ + markdown_html(first_line(item.doc)) + "</td></tr>"@
}

/// The table row that leads to the page of a type.
pub open spec fn type_row(item: TypedEntryView) -> Seq<char> {
    "<tr><td><a class=\"type\" href=\""@ + type_file(item.name) + "\">"@ + item.name
        + "</a></td><td>"@ + markdown_html(first_line(item.doc)) + "</td></tr>"@
}

/// The block of an item that has no page of its own: a heading with the
/// anchor `id`, the name and what is said of the type, then the
/// documentation.
pub open spec fn entry_html(
    id: Seq<char>,
    name: Seq<char>,
    annotation: Seq<char>,
    doc: Seq<char>,
) -> Seq<char> {
    "<h3 id=\""@ + id + "\" class=\"impl\"><code class=\"in-band\"><a href=\"#"@ + id + "\">"@
        + name + "</a>"@ + annotation + "</code></h3><div class=\"docblock\">\n"@ + markdown_html(
        doc,
    ) + "</div>"@
}

/// What is said of the type of a signal.
pub open spec fn annotation_html(ty: Seq<char>) -> Seq<char> {
    "<span class=\"type-annotation\">: "@ + ty + "</span>"@
}

/// The rows of the modules, in order.
pub open spec fn module_rows(items: Seq<ModuleView>) -> Seq<char>
    decreases items.len(),
{
    if items.len() == 0 {
        Seq::empty()
    } else {
        module_rows(items.drop_last()) + module_row(items.last())
    }
}

/// The rows of the types, in order.
pub open spec fn type_rows(items: Seq<TypedEntryView>) -> Seq<char>
    decreases items.len(),
{
    if items.len() == 0 {
        Seq::empty()
    } else {
        type_rows(items.drop_last()) + type_row(items.last())
    }
}

/// The blocks of parameters or ports, in order; `kind` starts their anchors.
pub open spec fn entry_blocks(kind: Seq<char>, items: Seq<EntryView>) -> Seq<char>
    decreases items.len(),
{
    if items.len() == 0 {
        Seq::empty()
    } else {
        entry_blocks(kind, items.drop_last()) + entry_html(
            kind + items.last().name,
            items.last().name,
            Seq::empty(),
            items.last().doc,
        )
    }
}

/// The blocks of the signals, in order.
pub open spec fn signal_blocks(items: Seq<TypedEntryView>) -> Seq<char>
    decreases items.len(),
{
    if items.len() == 0 {
        Seq::empty()
    } else {
        signal_blocks(items.drop_last()) + entry_html(
            "signal."@ + items.last().name,
            items.last().name,
            annotation_html(items.last().ty),
            items.last().doc,
        )
    }
}

/// The section of the modules; nothing where there is none.
pub open spec fn modules_section(items: Seq<ModuleView>) -> Seq<char> {
    if items.len() == 0 {
        Seq::empty()
    } else {
        "<h2 id=\"modules\">Modules</h2>\n<table>\n"@ + module_rows(items) + "</table>\n"@
    }
}

/// The section of the parameters; nothing where there is none.
pub open spec fn params_section(items: Seq<EntryView>) -> Seq<char> {
    if items.len() == 0 {
        Seq::empty()
    } else {
        "<h2 id=\"parameters\" class=\"section-header\"><a href=\"#parameters\">Parameters</a></h2>\n"@
            + entry_blocks("parameter."@, items)
    }
}

/// The section of the ports; nothing where there is none.
pub open spec fn ports_section(items: Seq<EntryView>) -> Seq<char> {
    if items.len() == 0 {
        Seq::empty()
    } else {
        "<h2 id=\"ports\" class=\"section-header\"><a href=\"#ports\">Ports</a></h2>\n"@
            + entry_blocks("port."@, items)
    }
}

/// The section of the types; nothing where there is none.
pub open spec fn types_section(items: Seq<TypedEntryView>) -> Seq<char> {
    if items.len() == 0 {
        Seq::empty()
    } else {
        "<h2 id=\"types\" class=\"section-header\"><a href=\"#types\">Types<a></h2>\n<table>\n"@
            + type_rows(items) + "</table>\n"@
    }
}

/// The section of the signals; nothing where there is none.
pub open spec fn signals_section(items: Seq<TypedEntryView>) -> Seq<char> {
    if items.len() == 0 {
        Seq::empty()
    } else {
        "<h2 id=\"signals\" class=\"section-header\"><a href=\"#signals\">Signals</a></h2>\n"@
            + signal_blocks(items)
    }
}

/// The items of one level: the sections of the kinds that have items, in the
/// order modules, parameters, ports, types, signals.
pub open spec fn contents_html(cx: ContextView) -> Seq<char> {
    modules_section(cx.modules) + params_section(cx.params) + ports_section(cx.ports)
        + types_section(cx.types) + signals_section(cx.vars)
}

/// The index page of a documentation with the items `cx` at its top level.
pub open spec fn index_page(cx: ContextView, stamp: Seq<char>) -> PageView {
    PageView {
        file: "index.html"@,
        html: header_html(stamp)
            + "<body>\n<section id=\"main\" class=\"content\"><h1 class=\"fqn\">Documentation</h1>\n"@
            + contents_html(cx) + footer_html(),
    }
}

/// The page of a module.
pub open spec fn module_page(item: ModuleView, stamp: Seq<char>) -> PageView {
    PageView {
        file: module_file(item.name),
        html: header_html(stamp)
            + "<body>\n<section id=\"main\" class=\"content\"><h1 class=\"fqn\">Module <a class=\"module\">"@
            + item.name + "</a></h1>\n<div class=\"docblock\">\n"@ + markdown_html(item.doc)
            + "</div>\n"@ + contents_html(item.content) + footer_html(),
    }
}

/// The page of a type.
pub open spec fn type_page(item: TypedEntryView, stamp: Seq<char>) -> PageView {
    PageView {
        file: type_file(item.name),
        html: header_html(stamp)
            + "<body>\n<section id=\"main\" class=\"content\"><h1 class=\"fqn\">Typedef <a class=\"type\">"@
            + item.name + "</a></h1>\n<pre>typedef "@ + item.ty + " "@ + item.name + ";</pre>\n"@
            + markdown_html(item.doc) + footer_html(),
    }
}

/// The pages of the types, in order.
pub open spec fn type_pages(items: Seq<TypedEntryView>, stamp: Seq<char>) -> Seq<PageView> {
    items.map_values(|t: TypedEntryView| type_page(t, stamp))
}

/// The pages of the modules, in order, each followed by the pages of what it
/// holds.
pub open spec fn module_pages(items: Seq<ModuleView>, stamp: Seq<char>) -> Seq<PageView>
    decreases items, 0nat,
{
    if items.len() == 0 {
        Seq::empty()
    } else {
        module_pages(items.drop_last(), stamp) + seq![module_page(items.last(), stamp)]
            + context_pages(items.last().content, stamp)
    }
}

/// The pages of the items of one level: those of its modules, then those of
/// its types.
pub open spec fn context_pages(cx: ContextView, stamp: Seq<char>) -> Seq<PageView>
    decreases cx, 1nat,
{
    module_pages(cx.modules, stamp) + type_pages(cx.types, stamp)
}

/// All pages of a documentation: the index page, then the pages of its
/// items.
pub open spec fn doc_pages(cx: ContextView, stamp: Seq<char>) -> Seq<PageView> {
    seq![index_page(cx, stamp)] + context_pages(cx, stamp)
}

impl<'a> Renderer<'a> {
    /// The start of a page.
    pub fn render_header(&self, stamp: &str) -> (html: String)
        ensures
            html@ == header_html(stamp@),
    {
        let mut html = String::from_str("<!-- Compiled by ");
        html.append(stamp);
        html.append(
            " -->\n\n<html>\n<link rel=\"stylesheet\" type=\"text/css\" href=\"static/rustdoc.css\">\n<link rel=\"stylesheet\" type=\"text/css\" href=\"static/light.css\">\n<link rel=\"stylesheet\" type=\"text/css\" href=\"static/svdoc.css\">\n",
        );
        html
    }

    fn render_module_row(&self, item: &ModuleItem) -> (html: String)
        ensures
            html@ == module_row(item@),
    {
        let mut html = String::from_str("<tr><td><a class=\"module\" href=\"");
        html.append(self.subpath_to_module(item.name.as_str()).as_str());
        html.append("\">");
        html.append(item.name.as_str());
        html.append("</a></td><td>");
        html.append(self.render_headline_doc(item.doc.as_str()).as_str());
        html.append("</td></tr>");
        html
    }

    fn render_type_row(&self, item: &TypeItem) -> (html: String)
        ensures
            html@ == type_row(item@),
    {
        let mut html = String::from_str("<tr><td><a class=\"type\" href=\"");
        html.append(self.subpath_to_type(item.name.as_str()).as_str());
        html.append("\">");
        html.append(item.name.as_str());
        html.append("</a></td><td>");
        html.append(self.render_headline_doc(item.doc.as_str()).as_str());
        html.append("</td></tr>");
        html
    }

    fn render_entry(&self, id: &str, name: &str, annotation: &str, doc: &str) -> (html: String)
        ensures
            html@ == entry_html(id@, name@, annotation@, doc@),
    {
        let mut html = String::from_str("<h3 id=\"");
        html.append(id);
        html.append("\" class=\"impl\"><code class=\"in-band\"><a href=\"#");
        html.append(id);
        html.append("\">");
        html.append(name);
        html.append("</a>");
        html.append(annotation);
        html.append("</code></h3><div class=\"docblock\">\n");
        html.append(self.render_doc(doc).as_str());
        html.append("</div>");
        html
    }

    fn render_modules(&self, cx: &Context, html: &mut String)
        ensures
            final(html)@ == old(html)@ + modules_section(cx@.modules),
    {
        let n = cx.modules.len();
        if n == 0 {
            assert(old(html)@ + Seq::<char>::empty() =~= old(html)@);
            return ;
        }
        html.append("<h2 id=\"modules\">Modules</h2>\n<table>\n");
        let ghost start = html@;
        let mut i: usize = 0;
        assert(cx.modules@.take(0) =~= Seq::empty());
        while i < n
            invariant
                i <= n,
                n == cx.modules@.len(),
                html@ == start + module_rows(modules_view(cx.modules@.take(i as int))),
            decreases n - i,
        {
            proof {
                assert(cx.modules@.take(i + 1) =~= cx.modules@.take(i as int).push(
                    cx.modules@[i as int],
                ));
                lemma_modules_view_push(cx.modules@.take(i as int), cx.modules@[i as int]);
                let seen = modules_view(cx.modules@.take(i as int));
                assert(seen.push(cx.modules@[i as int]@).drop_last() =~= seen);
            }
            html.append(self.render_module_row(&cx.modules[i]).as_str());
            assert(html@ =~= start + module_rows(modules_view(cx.modules@.take(i + 1))));
            i += 1;
        }
        assert(cx.modules@.take(n as int) =~= cx.modules@);
        html.append("</table>\n");
        proof {
            lemma_modules_view_len(cx.modules@);
            assert(html@ =~= old(html)@ + modules_section(cx@.modules));
        }
    }

    fn render_params(&self, cx: &Context, html: &mut String)
        ensures
            final(html)@ == old(html)@ + params_section(cx@.params),
    {
        let n = cx.params.len();
        if n == 0 {
            assert(old(html)@ + Seq::<char>::empty() =~= old(html)@);
            return ;
        }
        html.append(
            "<h2 id=\"parameters\" class=\"section-header\"><a href=\"#parameters\">Parameters</a></h2>\n",
        );
        let ghost start = html@;
        let none = String::new();
        let mut i: usize = 0;
        assert(cx@.params.take(0) =~= Seq::empty());
        while i < n
            invariant
                i <= n,
                n == cx.params@.len(),
                none@ == Seq::<char>::empty(),
                html@ == start + entry_blocks("parameter."@, cx@.params.take(i as int)),
            decreases n - i,
        {
            let item = &cx.params[i];
            proof {
                assert(cx@.params.take(i + 1).drop_last() =~= cx@.params.take(i as int));
                assert(cx@.params.take(i + 1).last() == item@);
            }
            html.append(
                self.render_entry(
                    item.html_id().as_str(),
                    item.name.as_str(),
                    none.as_str(),
                    item.doc.as_str(),
                ).as_str(),
            );
            assert(html@ =~= start + entry_blocks("parameter."@, cx@.params.take(i + 1)));
            i += 1;
        }
        assert(cx@.params.take(n as int) =~= cx@.params);
        assert(html@ =~= old(html)@ + params_section(cx@.params));
    }

    fn render_ports(&self, cx: &Context, html: &mut String)
        ensures
            final(html)@ == old(html)@ + ports_section(cx@.ports),
    {
        let n = cx.ports.len();
        if n == 0 {
            assert(old(html)@ + Seq::<char>::empty() =~= old(html)@);
            return ;
        }
        html.append(
            "<h2 id=\"ports\" class=\"section-header\"><a href=\"#ports\">Ports</a></h2>\n",
        );
        let ghost start = html@;
        let none = String::new();
        let mut i: usize = 0;
        assert(cx@.ports.take(0) =~= Seq::empty());
        while i < n
            invariant
                i <= n,
                n == cx.ports@.len(),
                none@ == Seq::<char>::empty(),
                html@ == start + entry_blocks("port."@, cx@.ports.take(i as int)),
            decreases n - i,
        {
            let item = &cx.ports[i];
            proof {
                assert(cx@.ports.take(i + 1).drop_last() =~= cx@.ports.take(i as int));
                assert(cx@.ports.take(i + 1).last() == item@);
            }
            html.append(
                self.render_entry(
                    item.html_id().as_str(),
                    item.name.as_str(),
                    none.as_str(),
                    item.doc.as_str(),
                ).as_str(),
            );
            assert(html@ =~= start + entry_blocks("port."@, cx@.ports.take(i + 1)));
            i += 1;
        }
        assert(cx@.ports.take(n as int) =~= cx@.ports);
        assert(html@ =~= old(html)@ + ports_section(cx@.ports));
    }

    fn render_types(&self, cx: &Context, html: &mut String)
        ensures
            final(html)@ == old(html)@ + types_section(cx@.types),
    {
        let n = cx.types.len();
        if n == 0 {
            assert(old(html)@ + Seq::<char>::empty() =~= old(html)@);
            return ;
        }
        html.append(
            "<h2 id=\"types\" class=\"section-header\"><a href=\"#types\">Types<a></h2>\n<table>\n",
        );
        let ghost start = html@;
        let mut i: usize = 0;
        assert(cx@.types.take(0) =~= Seq::empty());
        while i < n
            invariant
                i <= n,
                n == cx.types@.len(),
                html@ == start + type_rows(cx@.types.take(i as int)),
            decreases n - i,
        {
            let item = &cx.types[i];
            proof {
                assert(cx@.types.take(i + 1).drop_last() =~= cx@.types.take(i as int));
                assert(cx@.types.take(i + 1).last() == item@);
            }
            html.append(self.render_type_row(item).as_str());
            assert(html@ =~= start + type_rows(cx@.types.take(i + 1)));
            i += 1;
        }
        assert(cx@.types.take(n as int) =~= cx@.types);
        html.append("</table>\n");
        assert(html@ =~= old(html)@ + types_section(cx@.types));
    }

    fn render_signals(&self, cx: &Context, html: &mut String)
        ensures
            final(html)@ == old(html)@ + signals_section(cx@.vars),
    {
        let n = cx.vars.len();
        if n == 0 {
            assert(old(html)@ + Seq::<char>::empty() =~= old(html)@);
            return ;
        }
        html.append(
            "<h2 id=\"signals\" class=\"section-header\"><a href=\"#signals\">Signals</a></h2>\n",
        );
        let ghost start = html@;
        let mut i: usize = 0;
        assert(cx@.vars.take(0) =~= Seq::empty());
        while i < n
            invariant
                i <= n,
                n == cx.vars@.len(),
                html@ == start + signal_blocks(cx@.vars.take(i as int)),
            decreases n - i,
        {
            let item = &cx.vars[i];
            proof {
                assert(cx@.vars.take(i + 1).drop_last() =~= cx@.vars.take(i as int));
                assert(cx@.vars.take(i + 1).last() == item@);
            }
            let mut annotation = String::from_str("<span class=\"type-annotation\">: ");
            annotation.append(item.ty.as_str());
            annotation.append("</span>");
            html.append(
                self.render_entry(
                    item.html_id().as_str(),
                    item.name.as_str(),
                    annotation.as_str(),
                    item.doc.as_str(),
                ).as_str(),
            );
            assert(html@ =~= start + signal_blocks(cx@.vars.take(i + 1)));
            i += 1;
        }
        assert(cx@.vars.take(n as int) =~= cx@.vars);
        assert(html@ =~= old(html)@ + signals_section(cx@.vars));
    }

    /// The items of one level as HTML.
    pub fn render_contents(&self, cx: &Context) -> (html: String)
        ensures
            html@ == contents_html(cx@),
    {
        let mut html = String::new();
        self.render_modules(cx, &mut html);
        self.render_params(cx, &mut html);
        self.render_ports(cx, &mut html);
        self.render_types(cx, &mut html);
        self.render_signals(cx, &mut html);
        assert(html@ =~= contents_html(cx@));
        html
    }

    /// The index page of a documentation.
    pub fn render_index(&self, doc: &Doc, stamp: &str) -> (page: Page)
        ensures
            page@ == index_page(doc.data@, stamp@),
    {
        let mut html = self.render_header(stamp);
        html.append(
            "<body>\n<section id=\"main\" class=\"content\"><h1 class=\"fqn\">Documentation</h1>\n",
        );
        html.append(self.render_contents(&doc.data).as_str());
        html.append("</section>\n</body>\n</html>\n");
        Page { file: String::from_str("index.html"), html }
    }

    /// The page of a module.
    pub fn render_module(&self, item: &ModuleItem, stamp: &str) -> (page: Page)
        ensures
            page@ == module_page(item@, stamp@),
    {
        let mut html = self.render_header(stamp);
        html.append(
            "<body>\n<section id=\"main\" class=\"content\"><h1 class=\"fqn\">Module <a class=\"module\">",
        );
        html.append(item.name.as_str());
        html.append("</a></h1>\n<div class=\"docblock\">\n");
        html.append(self.render_doc(item.doc.as_str()).as_str());
        html.append("</div>\n");
        html.append(self.render_contents(&item.content).as_str());
        html.append("</section>\n</body>\n</html>\n");
        Page { file: self.subpath_to_module(item.name.as_str()), html }
    }

    /// The page of a type.
    pub fn render_type(&self, item: &TypeItem, stamp: &str) -> (page: Page)
        ensures
            page@ == type_page(item@, stamp@),
    {
        let mut html = self.render_header(stamp);
        html.append(
            "<body>\n<section id=\"main\" class=\"content\"><h1 class=\"fqn\">Typedef <a class=\"type\">",
        );
        html.append(item.name.as_str());
        html.append("</a></h1>\n<pre>typedef ");
        html.append(item.ty.as_str());
        html.append(" ");
        html.append(item.name.as_str());
        html.append(";</pre>\n");
        html.append(self.render_doc(item.doc.as_str()).as_str());
        html.append("</section>\n</body>\n</html>\n");
        Page { file: self.subpath_to_type(item.name.as_str()), html }
    }

    /// Appends the pages of the items of one level, and of all levels beneath
    /// it.
    pub fn render_pages(&self, cx: &Context, stamp: &str, pages: &mut Vec<Page>)
        ensures
            pages_view(final(pages)@) == pages_view(old(pages)@) + context_pages(cx@, stamp@),
        decreases *cx,
    {
        let ghost start = pages_view(pages@);
        let n = cx.modules.len();
        let mut i: usize = 0;
        assert(cx.modules@.take(0) =~= Seq::empty());
        assert(start + Seq::<PageView>::empty() =~= start);
        while i < n
            invariant
                i <= n,
                n == cx.modules@.len(),
                pages_view(pages@) == start + module_pages(
                    modules_view(cx.modules@.take(i as int)),
                    stamp@,
                ),
            decreases n - i,
        {
            let item = &cx.modules[i];
            proof {
                assert(cx.modules@.take(i + 1) =~= cx.modules@.take(i as int).push(
                    cx.modules@[i as int],
                ));
                lemma_modules_view_push(cx.modules@.take(i as int), cx.modules@[i as int]);
                let seen = modules_view(cx.modules@.take(i as int));
                assert(seen.push(item@).drop_last() =~= seen);
            }
            let page = self.render_module(item, stamp);
            let ghost before = pages@;
            pages.push(page);
            assert(pages_view(pages@) =~= pages_view(before).push(page@));
            self.render_pages(&item.content, stamp, pages);
            assert(pages_view(pages@) =~= start + module_pages(
                modules_view(cx.modules@.take(i + 1)),
                stamp@,
            ));
            i += 1;
        }
        assert(cx.modules@.take(n as int) =~= cx.modules@);
        let ghost middle = pages_view(pages@);
        let m = cx.types.len();
        let mut j: usize = 0;
        assert(type_pages(cx@.types.take(0), stamp@) =~= Seq::empty());
        assert(middle + Seq::<PageView>::empty() =~= middle);
        while j < m
            invariant
                j <= m,
                m == cx.types@.len(),
                pages_view(pages@) == middle + type_pages(cx@.types.take(j as int), stamp@),
            decreases m - j,
        {
            let page = self.render_type(&cx.types[j], stamp);
            let ghost before = pages@;
            pages.push(page);
            assert(pages_view(pages@) =~= pages_view(before).push(page@));
            assert(type_pages(cx@.types.take(j + 1), stamp@) =~= type_pages(
                cx@.types.take(j as int),
                stamp@,
            ).push(page@));
            j += 1;
        }
        assert(cx@.types.take(m as int) =~= cx@.types);
        assert(pages_view(pages@) =~= start + context_pages(cx@, stamp@));
    }

    /// All pages of a documentation.
    pub fn render(&self, doc: &Doc, stamp: &str) -> (pages: Vec<Page>)
        ensures
            pages_view(pages@) == doc_pages(doc.data@, stamp@),
    {
        let mut pages: Vec<Page> = Vec::new();
        let index = self.render_index(doc, stamp);
        pages.push(index);
        assert(pages_view(pages@) =~= seq![index@]);
        self.render_pages(&doc.data, stamp, &mut pages);
        pages
    }
}

/// There are as many module views as module items.
pub proof fn lemma_modules_view_len(items: Seq<ModuleItem>)
    ensures
        modules_view(items).len() == items.len(),
    decreases items.len(),
{
    if items.len() > 0 {
        lemma_modules_view_len(items.drop_last());
    }
}

} // verus!
