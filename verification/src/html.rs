//! What the HTML pages of a documentation are made from: where each page
//! lies, the anchors of the items on a page, and the markup of a
//! documentation text.

use vstd::prelude::*;
use crate::model::{ParamItem, PortItem, TypeItem, VarItem};

verus! {

/// `std::path::Path`: a value that is carried through and never looked into.
#[verifier::external_type_specification]
#[verifier::external_body]
pub struct ExPath(std::path::Path);

/// `std::path::PathBuf`: a value that is carried through and never looked
/// into.
#[verifier::external_type_specification]
#[verifier::external_body]
pub struct ExPathBuf(std::path::PathBuf);

/// The HTML that `pulldown_cmark` makes of a Markdown text when every
/// extension of its parser is switched on.
pub uninterp spec fn markdown_html(text: Seq<char>) -> Seq<char>;

/// Runs `pulldown_cmark::Parser::new_ext` with `Options::all()` on `text` and
/// lets `pulldown_cmark::html::push_html` write the events into an empty
/// string. Nothing is claimed about the markup, only that it is determined by
/// the text, which the name [`markdown_html`] stands for.
#[verifier::external_body]
fn markdown_to_html(text: &str) -> (html: String)
    ensures
        html@ == markdown_html(text@),
{
    let parser = pulldown_cmark::Parser::new_ext(text, pulldown_cmark::Options::all());
    let mut html = String::new();
    pulldown_cmark::html::push_html(&mut html, parser);
    html
}

/// Calls `Path::join`, which adjoins `sub` to `dir` by the rules of the
/// platform. Nothing is claimed about the result.
#[verifier::external_body]
fn join_path(dir: &std::path::Path, sub: &str) -> (path: std::path::PathBuf) {
    dir.join(sub)
}

/// Whether a line ends at position `i` of `text`: with a line feed, or with a
/// carriage return that a line feed follows.
pub open spec fn line_ends_at(text: Seq<char>, i: int) -> bool {
    text[i] == '\n' || (text[i] == '\r' && i + 1 < text.len() && text[i + 1] == '\n')
}

/// The first line of `text`: what stands before the first place where a line
/// ends; all of `text` where no line ends in it.
pub open spec fn first_line(text: Seq<char>) -> Seq<char>
    decreases text.len(),
{
    if text.len() == 0 || line_ends_at(text, 0) {
        Seq::empty()
    } else {
        seq![text[0]] + first_line(text.drop_first())
    }
}

/// Where no line ends before position `n`, the first line starts with the
/// first `n` characters.
proof fn lemma_first_line_from(text: Seq<char>, n: int)
    requires
        0 <= n <= text.len(),
        forall|i: int| 0 <= i < n ==> !#[trigger] line_ends_at(text, i),
    ensures
        first_line(text) == text.take(n) + first_line(text.skip(n)),
    decreases n,
{
    if n == 0 {
        assert(text.skip(0) =~= text);
        assert(text.take(0) + first_line(text) =~= first_line(text));
    } else {
        let rest = text.drop_first();
        assert(!line_ends_at(text, 0));
        assert forall|i: int| 0 <= i < n - 1 implies !#[trigger] line_ends_at(rest, i) by {
            assert(!line_ends_at(text, i + 1));
            assert(rest[i] == text[i + 1]);
            if i + 1 < rest.len() {
                assert(rest[i + 1] == text[i + 2]);
            }
        }
        lemma_first_line_from(rest, n - 1);
        assert(rest.skip(n - 1) =~= text.skip(n));
        assert(seq![text[0]] + (rest.take(n - 1) + first_line(text.skip(n))) =~= text.take(n)
            + first_line(text.skip(n)));
    }
}

/// The first line of `text`.
pub fn headline(text: &str) -> (line: String)
    ensures
        line@ == first_line(text@),
{
    let len = text.unicode_len();
    let mut end: usize = 0;
    while end < len
        invariant
            end <= len,
            len == text@.len(),
            forall|j: int| 0 <= j < end ==> !#[trigger] line_ends_at(text@, j),
        ensures
            end <= len,
            forall|j: int| 0 <= j < end ==> !#[trigger] line_ends_at(text@, j),
            end < len ==> line_ends_at(text@, end as int),
        decreases len - end,
    {
        let c = text.get_char(end);
        if c == '\n' {
            break;
        }
        if c == '\r' && end + 1 < len && text.get_char(end + 1) == '\n' {
            break;
        }
        end += 1;
    }
    proof {
        let rest = text@.skip(end as int);
        if end < len {
            assert(rest[0] == text@[end as int]);
            if end + 1 < len {
                assert(rest[1] == text@[end + 1]);
            }
            assert(line_ends_at(rest, 0));
        }
        lemma_first_line_from(text@, end as int);
        assert(text@.take(end as int) + Seq::<char>::empty() =~= text@.subrange(0, end as int));
    }
    String::from_str(text.substring_char(0, end))
}

/// `prefix`, then `name`, then `suffix`.
fn affixed(prefix: &str, name: &str, suffix: &str) -> (text: String)
    ensures
        text@ == prefix@ + name@ + suffix@,
{
    let mut text = String::from_str(prefix);
    text.append(name);
    text.append(suffix);
    text
}

/// A HTML renderer.
pub struct Renderer<'a> {
    /// The directory that the pages are written to.
    pub dir: &'a std::path::Path,
}

impl<'a> Renderer<'a> {
    /// Create a new HTML renderer.
    pub fn new(dir: &'a std::path::Path) -> (renderer: Renderer<'a>)
        ensures
            renderer.dir == dir,
    {
        Renderer { dir }
    }

    /// The markup of the first line of a documentation text.
    pub fn render_headline_doc(&self, doc: &str) -> (html: String)
        ensures
            html@ == markdown_html(first_line(doc@)),
    {
        let line = headline(doc);
        markdown_to_html(line.as_str())
    }

    /// The markup of a documentation text.
    pub fn render_doc(&self, doc: &str) -> (html: String)
        ensures
            html@ == markdown_html(doc@),
    {
        markdown_to_html(doc)
    }

    /// The file name of the page of the package `name`.
    pub fn subpath_to_package(&self, name: &str) -> (file: String)
        ensures
            file@ == "package."@ + name@ + ".html"@,
    {
        affixed("package.", name, ".html")
    }

    /// The file name of the page of the module `name`.
    pub fn subpath_to_module(&self, name: &str) -> (file: String)
        ensures
            file@ == "module."@ + name@ + ".html"@,
    {
        affixed("module.", name, ".html")
    }

    /// The file name of the page of the type `name`.
    pub fn subpath_to_type(&self, name: &str) -> (file: String)
        ensures
            file@ == "type."@ + name@ + ".html"@,
    {
        affixed("type.", name, ".html")
    }

    /// Where the page of the package `name` lies.
    pub fn path_to_package(&self, name: &str) -> std::path::PathBuf {
        let file = self.subpath_to_package(name);
        join_path(self.dir, file.as_str())
    }

    /// Where the page of the module `name` lies.
    pub fn path_to_module(&self, name: &str) -> std::path::PathBuf {
        let file = self.subpath_to_module(name);
        join_path(self.dir, file.as_str())
    }

    /// Where the page of the type `name` lies.
    pub fn path_to_type(&self, name: &str) -> std::path::PathBuf {
        let file = self.subpath_to_type(name);
        join_path(self.dir, file.as_str())
    }
}

impl ParamItem {
    /// HTML identifier (value of `id` field).
    pub fn html_id(&self) -> (id: String)
        ensures
            id@ == "parameter."@ + self.name@,
    {
        let mut id = String::from_str("parameter.");
        id.append(self.name.as_str());
        id
    }
}

impl PortItem {
    /// HTML identifier (value of `id` field).
    pub fn html_id(&self) -> (id: String)
        ensures
            id@ == "port."@ + self.name@,
    {
        let mut id = String::from_str("port.");
        id.append(self.name.as_str());
        id
    }
}

impl TypeItem {
    /// HTML identifier (value of `id` field).
    pub fn html_id(&self) -> (id: String)
        ensures
            id@ == "type."@ + self.name@,
    {
        let mut id = String::from_str("type.");
        id.append(self.name.as_str());
        id
    }
}

impl VarItem {
    /// HTML identifier (value of `id` field).
    pub fn html_id(&self) -> (id: String)
        ensures
            id@ == "signal."@ + self.name@,
    {
        let mut id = String::from_str("signal.");
        id.append(self.name.as_str());
        id
    }
}

} // verus!
