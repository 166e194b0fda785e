use morty::parse_docs;
use morty::whitespace::{indent_width, trailing_width, trim};

fn lines(texts: &[&str]) -> Vec<String> {
    texts.iter().map(|t| t.to_string()).collect()
}

#[test]
fn no_lines_give_empty_text() {
    assert_eq!(parse_docs(&[]), "");
}

#[test]
fn one_empty_line_gives_empty_text() {
    assert_eq!(parse_docs(&lines(&[""])), "");
}

#[test]
fn common_indentation_is_removed() {
    assert_eq!(parse_docs(&lines(&["  a", "    b", "  c"])), "a\n  b\nc");
}

#[test]
fn lines_are_joined_without_trailing_line_feed() {
    assert_eq!(parse_docs(&lines(&["first", "second"])), "first\nsecond");
}

#[test]
fn empty_lines_do_not_count_for_the_indentation() {
    assert_eq!(parse_docs(&lines(&["  a", "", "  b"])), "a\n\nb");
}

#[test]
fn only_empty_lines_keep_their_line_feeds() {
    assert_eq!(parse_docs(&lines(&["", "", ""])), "\n\n");
}

#[test]
fn a_line_of_whitespace_only_counts_for_the_indentation() {
    assert_eq!(parse_docs(&lines(&["    a", "  ", "    b"])), "  a\n\n  b");
}

#[test]
fn indentation_is_counted_in_characters() {
    assert_eq!(parse_docs(&lines(&["\u{3000}\u{3000}x", "\t\ty"])), "x\ny");
}

#[test]
fn characters_after_the_indentation_are_kept() {
    assert_eq!(parse_docs(&lines(&[" Doubles the input."])), "Doubles the input.");
    assert_eq!(parse_docs(&lines(&[" \u{e9}t\u{e9}", "  \u{fc}"])), "\u{e9}t\u{e9}\n \u{fc}");
}

#[test]
fn added_indentation_changes_nothing() {
    let block = ["Adds two numbers.", "  - a: first", "  - b: second"];
    let plain = parse_docs(&lines(&block));
    for prefix in ["", " ", "    ", "\t", " \t "] {
        let indented: Vec<String> = block.iter().map(|l| format!("{}{}", prefix, l)).collect();
        assert_eq!(parse_docs(&indented), plain);
    }
    assert_eq!(plain, "Adds two numbers.\n  - a: first\n  - b: second");
}

#[test]
fn added_indentation_changes_nothing_with_an_empty_line_and_no_shared_indentation() {
    let plain = parse_docs(&lines(&["a", "", " b"]));
    let indented = parse_docs(&lines(&["  a", "  ", "   b"]));
    assert_eq!(plain, "a\n\n b");
    assert_eq!(indented, plain);
}

#[test]
fn added_indentation_shows_where_an_empty_line_stands_in_an_indented_block() {
    assert_eq!(parse_docs(&lines(&["  a", ""])), "a\n");
    assert_eq!(parse_docs(&lines(&["   a", " "])), "  a\n");
}

#[test]
fn a_normalized_single_line_stays_as_it_is() {
    let once = parse_docs(&lines(&["  text with  spaces "]));
    assert_eq!(once, "text with  spaces ");
    assert_eq!(parse_docs(&[once.clone()]), once);
}

#[test]
fn indent_width_counts_leading_whitespace() {
    assert_eq!(indent_width(""), 0);
    assert_eq!(indent_width("abc"), 0);
    assert_eq!(indent_width("  abc  "), 2);
    assert_eq!(indent_width(" \t\u{a0}x y"), 3);
    assert_eq!(indent_width("   "), 3);
}

#[test]
fn trailing_width_counts_trailing_whitespace() {
    assert_eq!(trailing_width(""), 0);
    assert_eq!(trailing_width("abc"), 0);
    assert_eq!(trailing_width("  abc \n"), 2);
    assert_eq!(trailing_width("   "), 3);
}

#[test]
fn trim_removes_whitespace_at_both_ends() {
    assert_eq!(trim("  wire logic [7:0] \n"), "wire logic [7:0]");
    assert_eq!(trim("x"), "x");
    assert_eq!(trim(""), "");
    assert_eq!(trim(" \t "), "");
    assert_eq!(trim("\u{2003}a b\u{2003}"), "a b");
}

#[test]
fn trim_agrees_with_the_standard_library() {
    for text in ["", " ", "a", " a", "a ", " a b ", "\n\ta\u{a0}", "\u{85}x\u{1680}y\u{2028}"] {
        assert_eq!(trim(text), text.trim());
    }
}

#[test]
fn common_width_is_the_least_indentation_of_the_non_empty_lines() {
    assert_eq!(morty::normalize::common_width(&[]), 0);
    assert_eq!(morty::normalize::common_width(&lines(&["", ""])), 0);
    assert_eq!(morty::normalize::common_width(&lines(&["   a", "", " b", "  c"])), 1);
    assert_eq!(morty::normalize::common_width(&lines(&["   a", "  "])), 2);
}

#[test]
fn strip_lines_drops_the_given_number_of_characters() {
    assert_eq!(morty::normalize::strip_lines(&lines(&["abcd", "ab", "a", "", "abc"]), 2), "cd\n\n\n\nc");
    assert_eq!(morty::normalize::strip_lines(&lines(&["abcd"]), 0), "abcd");
    assert_eq!(morty::normalize::strip_lines(&[], 3), "");
}
