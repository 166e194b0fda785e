//! Turning the comment lines above a declaration into its documentation text.

use vstd::prelude::*;
use crate::whitespace::{indent_width, leading_whitespace};

verus! {

/// The lines as sequences of characters.
pub open spec fn lines_of(comments: Seq<String>) -> Seq<Seq<char>> {
    comments.map_values(|s: String| s@)
}

/// The least leading whitespace among the non-empty lines, if there is one.
pub open spec fn min_indent(lines: Seq<Seq<char>>) -> Option<nat>
    decreases lines.len(),
{
    if lines.len() == 0 {
        None
    } else {
        let before = min_indent(lines.drop_last());
        let width = leading_whitespace(lines.last());
        if lines.last().len() == 0 {
            before
        } else {
            match before {
                None => Some(width),
                Some(k) => Some(if width < k { width } else { k }),
            }
        }
    }
}

/// The indentation that all non-empty lines share; 0 where no line is
/// non-empty.
pub open spec fn common_indent(lines: Seq<Seq<char>>) -> nat {
    match min_indent(lines) {
        Some(k) => k,
        None => 0,
    }
}

/// `line` without its first `k` characters, or nothing where it has fewer.
pub open spec fn strip_indent(line: Seq<char>, k: nat) -> Seq<char> {
    if k <= line.len() {
        line.skip(k as int)
    } else {
        Seq::empty()
    }
}

/// The lines, each without its first `k` characters, with a line feed between
/// every two of them.
pub open spec fn join_stripped(lines: Seq<Seq<char>>, k: nat) -> Seq<char>
    decreases lines.len(),
{
    if lines.len() == 0 {
        Seq::empty()
    } else if lines.len() == 1 {
        strip_indent(lines[0], k)
    } else {
        join_stripped(lines.drop_last(), k) + seq!['\n'] + strip_indent(lines.last(), k)
    }
}

/// The documentation text of a block of comment lines: the lines without their
/// common indentation, joined by line feeds.
pub open spec fn normalize(lines: Seq<Seq<char>>) -> Seq<char> {
    join_stripped(lines, common_indent(lines))
}

/// The indentation that all non-empty lines of `comments` share.
pub fn common_width(comments: &[String]) -> (k: usize)
    ensures
        k == common_indent(lines_of(comments@)),
{
    let ghost lines = lines_of(comments@);
    let n = comments.len();
    let mut least: Option<usize> = None;
    let mut i: usize = 0;
    while i < n
        invariant
            i <= n,
            n == comments@.len(),
            lines == lines_of(comments@),
            match least {
                Some(k) => min_indent(lines.take(i as int)) == Some(k as nat),
                None => min_indent(lines.take(i as int)) == None::<nat>,
            },
        decreases n - i,
    {
        let line = comments[i].as_str();
        proof {
            assert(lines.take(i + 1).drop_last() =~= lines.take(i as int));
            assert(lines.take(i + 1).last() == line@);
        }
        if !line.is_empty() {
            let width = indent_width(line);
            least = match least {
                None => Some(width),
                Some(k) => Some(if width < k { width } else { k }),
            };
        }
        i += 1;
    }
    assert(lines.take(n as int) =~= lines);
    match least {
        Some(k) => k,
        None => 0,
    }
}

/// The lines of `comments`, each without its first `k` characters, joined by
/// line feeds. A line of fewer than `k` characters is left empty.
pub fn strip_lines(comments: &[String], k: usize) -> (doc: String)
    ensures
        doc@ == join_stripped(lines_of(comments@), k as nat),
{
    let ghost lines = lines_of(comments@);
    let n = comments.len();
    let mut doc = String::new();
    let mut j: usize = 0;
    while j < n
        invariant
            j <= n,
            n == comments@.len(),
            lines == lines_of(comments@),
            doc@ == join_stripped(lines.take(j as int), k as nat),
        decreases n - j,
    {
        let line = comments[j].as_str();
        proof {
            assert(lines.take(j + 1).drop_last() =~= lines.take(j as int));
            assert(lines.take(j + 1).last() == line@);
            assert(lines.take(j + 1)[0] == lines[0]);
            reveal_strlit("\n");
            assert("\n"@ =~= seq!['\n']);
        }
        if j > 0 {
            doc.append("\n");
        }
        let len = line.unicode_len();
        if k <= len {
            doc.append(line.substring_char(k, len));
        }
        assert(doc@ =~= join_stripped(lines.take(j + 1), k as nat));
        j += 1;
    }
    assert(lines.take(n as int) =~= lines);
    doc
}

/// Builds the documentation text from the comment lines of a declaration.
pub fn parse_docs(comments: &[String]) -> (doc: String)
    ensures
        doc@ == normalize(lines_of(comments@)),
{
    let k = common_width(comments);
    strip_lines(comments, k)
}

} // verus!
