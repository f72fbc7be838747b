use mdbrowser::headers::{get_html_script_header, get_html_style_header};
use mdbrowser::events::{get_title, get_toc_list};
use mdbrowser::page::{compose_page, get_table_of_contents, insert_after_headings};
use mdbrowser::textpass::collapse_cjk;
use mdbrowser::toc::{order_toc_list, render_toc};
use mdbrowser::version::{format_timestamp, TimeParts};

fn chars(s: &str) -> Vec<char> {
    s.chars().collect()
}

fn string_of(v: &Vec<char>) -> String {
    v.iter().collect()
}

#[test]
fn heading_records_end_to_end() {
    let recs = get_toc_list("# Title\n## A\n## B\n### B1");
    let expected: Vec<(u32, String)> = vec![
        (1, "Title".to_string()),
        (2, "A".to_string()),
        (2, "B".to_string()),
        (3, "B1".to_string()),
    ];
    assert_eq!(recs, expected);
}

#[test]
fn outline_tree_end_to_end() {
    let recs = get_toc_list("# Title\n## A\n## B\n### B1");
    let trees = order_toc_list(recs);
    assert_eq!(trees.len(), 1);
    assert_eq!(trees[0].text, "Title");
    assert_eq!(trees[0].level, 1);
    assert_eq!(trees[0].children.len(), 2);
    assert_eq!(trees[0].children[0].text, "A");
    assert!(trees[0].children[0].children.is_empty());
    assert_eq!(trees[0].children[1].text, "B");
    assert_eq!(trees[0].children[1].children.len(), 1);
    assert_eq!(trees[0].children[1].children[0].text, "B1");
}

#[test]
fn rendered_toc_descends_single_root() {
    let toc = get_table_of_contents("# Title\n## A\n## B\n### B1");
    let expected = "<div class='toc'>\n<div class=\"toc-aux\"><ul>\n<li><a href=\"#a\">A</a></li>\n<li><a href=\"#b\">B</a></li>\n<ul>\n<li><a href=\"#b1\">B1</a></li>\n</ul>\n</ul>\n</div>\n</div>\n";
    assert_eq!(toc, expected);
}

#[test]
fn empty_toc_for_document_without_headings() {
    let toc = get_table_of_contents("just a paragraph");
    assert_eq!(toc, "<div class='toc'>\n<div class=\"toc-aux\"></div>\n</div>\n");
    let trees = order_toc_list(get_toc_list("just a paragraph"));
    assert_eq!(render_toc(&trees), "");
}

#[test]
fn no_anchor_substitution_without_headings() {
    let page = compose_page("hello world", "", "markdown-body", "", "");
    assert!(page.contains("<p>hello world</p>"));
    assert!(!page.contains(" id=\""));
}

#[test]
fn toc_marker_alone_renders_empty_block() {
    let page = compose_page("[TOC]", "", "markdown-body", "", "");
    assert!(page.contains("<div class='toc'>\n<div class=\"toc-aux\"></div>\n</div>\n"));
    assert!(!page.contains("<p>[TOC]</p>"));
}

#[test]
fn cjk_whitespace_is_collapsed() {
    let collapsed = collapse_cjk(&chars("你好 世界"));
    assert_eq!(string_of(&collapsed), "你好世界");
    let untouched = collapse_cjk(&chars("foo bar"));
    assert_eq!(string_of(&untouched), "foo bar");
}

#[test]
fn anchors_and_toc_links_agree() {
    let page = compose_page("# A B\n\ntext\n\n# C\n", "", "markdown-body", "", "");
    assert!(page.contains("<h1 id=\"a-b\">A B</h1>"));
    assert!(page.contains("<h1 id=\"c\">C</h1>"));
    let toc = get_table_of_contents("# A B\n\ntext\n\n# C\n");
    assert!(toc.contains("<a href=\"#a-b\">A B</a>"));
    assert!(toc.contains("<a href=\"#c\">C</a>"));
}

#[test]
fn slug_lowercases_and_trims() {
    let page = compose_page("## Mixed CASE Title\n## Other\n", "", "markdown-body", "", "");
    assert!(page.contains("<h2 id=\"mixed-case-title\">Mixed CASE Title</h2>"));
}

#[test]
fn title_is_first_text_run() {
    assert_eq!(get_title("# Hello\nsome text"), "Hello");
    assert_eq!(get_title(""), "");
}

#[test]
fn style_header_renders_two_fragments() {
    let styles = Some(vec![
        "body{color:red}".to_string(),
        "https://x/style.css".to_string(),
        "".to_string(),
    ]);
    let header = get_html_style_header(&styles);
    assert_eq!(
        header,
        "<style>body{color:red}</style>\n<link type=\"text/css\" rel=\"stylesheet\" href=\"https://x/style.css\">\n"
    );
    assert_eq!(get_html_style_header(&None), "");
}

#[test]
fn script_header_distinguishes_inline_and_links() {
    let scripts = Some(vec![
        "alert(1)".to_string(),
        "https://x/app.js".to_string(),
        "a=1;".to_string(),
    ]);
    let header = get_html_script_header(&scripts);
    assert_eq!(
        header,
        "<script type=\"text/javascript\">alert(1)</script><script type=\"text/javascript\" src=\"https://x/app.js\"></script><script type=\"text/javascript\">a=1;</script>"
    );
}

#[test]
fn timestamp_is_zero_padded() {
    let parts = TimeParts { year: 2024, month: 1, day: 2, hour: 3, minute: 4, second: 5 };
    assert_eq!(string_of(&format_timestamp(parts)), "2024-01-02 03:04:05");
}

#[test]
fn version_marker_follows_every_heading_close() {
    let marker = "<div class='version'>v</div>";
    let body = insert_after_headings(chars("<h1>a</h1><h2>b</h2>x"), marker);
    assert_eq!(
        string_of(&body),
        "<h1>a</h1> <div class='version'>v</div><h2>b</h2> <div class='version'>v</div>x"
    );
    let unchanged = insert_after_headings(chars("<h1>a</h1>"), "");
    assert_eq!(string_of(&unchanged), "<h1>a</h1>");
}

#[test]
fn page_shell_wraps_body_and_headers() {
    let page = compose_page("# T\n", "", "markdown-body", "<style>s</style>", "<script>f()</script>");
    assert!(page.starts_with("<!DOCTYPE html>\n<html>\n<head>\n<meta charset=\"UTF-8\">\n<title>T</title>\n<style>s</style>\n<script>f()</script>\n</head>\n<body><div class=\"markdown-body\">"));
    assert!(page.ends_with("</div></body>"));
}

#[test]
fn rendered_document_carries_title_and_page() {
    let doc = mdbrowser::page::render_document(
        "# T\n\nbody text\n",
        "/tmp/mdbrowser_not_a_repository",
        "x.md",
        "markdown-body",
        "",
        "",
    );
    assert_eq!(doc.title, "T");
    let same = compose_page("# T\n\nbody text\n", "", "markdown-body", "", "");
    assert_eq!(doc.body_html, same);
}

#[test]
fn inserted_marker_is_never_rescanned() {
    let body = insert_after_headings(chars("<h1>a</h1>x"), "</h2>");
    assert_eq!(string_of(&body), "<h1>a</h1> </h2>x");
}
