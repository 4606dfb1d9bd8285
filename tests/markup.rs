use pandalib::html::{
    format_footer, format_header, format_metadata, format_navbar, format_toc, heading_close,
    heading_ids, heading_level, heading_open, table_of_contents,
};
use pandalib::link::{extract_links, is_external_exec};
use pandalib::page::{Category, Metadata, PublishDate};
use pandalib::validate::{h1_count, LinkIterator};

#[test]
fn toc_empty_when_no_headings() {
    assert_eq!(format_toc(vec![]), "");
    assert_eq!(table_of_contents("<p>plain</p>".to_string()), "<p>plain</p>");
}

#[test]
fn toc_lists_second_level_headings() {
    let toc = format_toc(vec!["first-part".to_string(), "b".to_string()]);
    assert_eq!(
        toc,
        "<details><summary>Table of Contents</summary><ul id=\"table-of-contents\" class=\"section-toc\">\
         <li class=\"toc-entry toc-h2\"><a href=\"#first-part\">first part</a></li>\
         <li class=\"toc-entry toc-h2\"><a href=\"#b\">b</a></li></ul></details>"
    );
    let body = "<h2 id=\"first-part\">First part</h2><h3 id=\"x\">x</h3><h2 id=\"b\">B</h2>".to_string();
    assert_eq!(table_of_contents(body.clone()), toc + &body);
}

#[test]
fn heading_ids_skip_unterminated() {
    assert_eq!(heading_ids("<h2 id=\"a\">A</h2><h2 id=\"b"), vec!["a".to_string()]);
    assert_eq!(heading_ids("<h2 id=\"a<h2 id=\"b\">"), vec!["b".to_string()]);
}

#[test]
fn header_holds_title_and_root() {
    let h = format_header("My Title", "../");
    assert!(h.starts_with("<!doctype html><html lang=\"en-US\"><head> <title>My Title</title> <link href=\"../style.css\""));
    assert!(h.contains("MathJax.Hub.Config({ tex2jax: {inlineMath: [['$','$'], ['\\\\(','\\\\)']]} });"));
    assert!(h.ends_with("</head> "));
}

#[test]
fn navbar_marks_active_category() {
    let n = format_navbar("../", Category::Post);
    assert_eq!(
        n,
        "<body><div class=\"navbar\"><a href=\"../index.html\" class=\"\">Home</a>\
         <a href=\"../posts/posts.html\" class=\"active\">Posts</a>\
         <a href=\"../notes/notes.html\" class=\"\">Notes</a></div>\n        "
    );
    let n = format_navbar("", Category::Rambling);
    assert!(!n.contains("active"));
}

#[test]
fn footer_closes_page() {
    assert_eq!(format_footer(), "</article></body></html>");
}

#[test]
fn metadata_block_with_and_without_date() {
    let m = Metadata { title: "T".to_string(), date: None, draft: false };
    assert_eq!(
        format_metadata(&m),
        "<article id=\"post\"><div class=\"stack\"><div class=\"heading-container\"><div class=\"break\"></div><h1>T</h1><div class=\"break\"></div></div></div>"
    );
    let m = Metadata { title: "T".to_string(), date: PublishDate::parse("2024-03-05T08:00:00Z"), draft: false };
    assert!(format_metadata(&m).contains("<span class=\"date\">Published: 2024-03-05</span></div>"));
}

#[test]
fn heading_tags() {
    assert_eq!(heading_level(1), 2);
    assert_eq!(heading_level(6), 6);
    assert_eq!(
        heading_open(1, "Some Title"),
        "<div class=\"heading-container\"><div class=\"small-break\"></div><h2 id=\"Some-Title\">"
    );
    assert_eq!(heading_open(3, "x y"), "<h4 id=\"x-y\">");
    assert_eq!(
        heading_close(1, "Some Title"),
        "<a class=\"header-link\" href=\"#Some-Title\"><img src=\"../assets/link.svg\" class=\"link-icon\" alt=\"Link icon\"></a></h2><div class=\"small-break\"></div></div>"
    );
    assert_eq!(heading_close(5, "z"), "</h6>");
}

#[test]
fn links_in_order_of_appearance() {
    let s = "<a href=\"x.html\">x</a> <a href='https://a.org'>a</a> <a href=\"#top\">t</a> href=";
    assert_eq!(extract_links(s), vec!["x.html", "https://a.org", "#top"]);
    assert!(is_external_exec("https://a.org"));
    assert!(is_external_exec("http://a.org"));
    assert!(!is_external_exec("x.html"));
    assert!(!is_external_exec("../posts/a.html"));
}

#[test]
fn link_without_closing_quote_is_skipped() {
    assert_eq!(extract_links("<a href=\"open"), Vec::<String>::new());
    assert_eq!(extract_links(""), Vec::<String>::new());
}

#[test]
fn link_iterator_splits_and_reverses() {
    let s = "<a href=\"a.html\"></a><a href=\"https://b.org\"></a><a href=\"c.html\"></a>";
    let mut rel = LinkIterator::new_relative(s);
    assert_eq!(rel.next().as_deref(), Some("c.html"));
    assert_eq!(rel.next().as_deref(), Some("a.html"));
    assert_eq!(rel.next(), None);
    let mut url = LinkIterator::new_url(s);
    assert_eq!(url.next().as_deref(), Some("https://b.org"));
    assert_eq!(url.next(), None);
}

#[test]
fn h1_headings_counted() {
    assert_eq!(h1_count("<h1>a</h1><h2>b</h2><h1 class=\"x\">c</h1>"), 2);
    assert_eq!(h1_count("none"), 0);
}

#[test]
fn metadata_block_with_short_date_text() {
    let d = PublishDate { year: 2024, month: 1, day: 2, text: "2024".to_string() };
    let m = Metadata { title: "T".to_string(), date: Some(d), draft: false };
    assert!(format_metadata(&m).contains("<span class=\"date\">Published: 2024</span>"));
}
