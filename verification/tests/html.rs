use morty::html::headline;
use morty::{ParamItem, PortItem, Renderer, TypeItem, VarItem};
use std::path::{Path, PathBuf};

#[test]
fn renderer_keeps_its_directory() {
    let renderer = Renderer::new(Path::new("out/doc"));
    assert_eq!(renderer.dir, Path::new("out/doc"));
}

#[test]
fn page_file_names() {
    let renderer = Renderer::new(Path::new("doc"));
    assert_eq!(renderer.subpath_to_package("pkg"), "package.pkg.html");
    assert_eq!(renderer.subpath_to_module("adder"), "module.adder.html");
    assert_eq!(renderer.subpath_to_type("word_t"), "type.word_t.html");
    assert_eq!(renderer.subpath_to_module(""), "module..html");
}

#[test]
fn page_paths_lie_in_the_directory() {
    let renderer = Renderer::new(Path::new("out/doc"));
    assert_eq!(renderer.path_to_package("pkg"), PathBuf::from("out/doc").join("package.pkg.html"));
    assert_eq!(renderer.path_to_module("adder"), PathBuf::from("out/doc").join("module.adder.html"));
    assert_eq!(renderer.path_to_type("word_t"), PathBuf::from("out/doc").join("type.word_t.html"));
    assert_ne!(renderer.path_to_module("adder"), PathBuf::from("out/doc"));
}

#[test]
fn item_anchors() {
    let p = ParamItem { doc: String::new(), name: "WIDTH".to_string() };
    let q = PortItem { doc: String::new(), name: "clk_i".to_string() };
    let t = TypeItem { doc: String::new(), name: "word_t".to_string(), ty: "int".to_string() };
    let v = VarItem { doc: String::new(), name: "sum".to_string(), ty: "wire".to_string() };
    assert_eq!(p.html_id(), "parameter.WIDTH");
    assert_eq!(q.html_id(), "port.clk_i");
    assert_eq!(t.html_id(), "type.word_t");
    assert_eq!(v.html_id(), "signal.sum");
}

#[test]
fn headline_is_the_first_line() {
    assert_eq!(headline(""), "");
    assert_eq!(headline("one line"), "one line");
    assert_eq!(headline("first\nsecond\nthird"), "first");
    assert_eq!(headline("first\r\nsecond"), "first");
    assert_eq!(headline("\nsecond"), "");
    assert_eq!(headline("a\rb\nc"), "a\rb");
    assert_eq!(headline("ends with return\r"), "ends with return\r");
}

#[test]
fn headline_agrees_with_the_standard_library() {
    for text in ["", "a", "a\n", "a\r\n", "\r\n", "a\r\r\nb", "\u{e9}\nb", "a\rb", "\n\n", "a\r", "\r", "a\n\r"] {
        assert_eq!(headline(text), text.lines().next().unwrap_or(""));
    }
}

#[test]
fn documentation_is_rendered_as_markdown() {
    let renderer = Renderer::new(Path::new("doc"));
    assert_eq!(renderer.render_doc("Doubles the *input*."), "<p>Doubles the <em>input</em>.</p>\n");
    assert_eq!(renderer.render_doc(""), "");
    assert_eq!(renderer.render_doc("a\n\nb"), "<p>a</p>\n<p>b</p>\n");
}

#[test]
fn headline_documentation_renders_the_first_line_only() {
    let renderer = Renderer::new(Path::new("doc"));
    assert_eq!(renderer.render_headline_doc("A `fifo`.\n\nMore text."), "<p>A <code>fifo</code>.</p>\n");
    assert_eq!(renderer.render_headline_doc(""), "");
}
