use pandalib::error::{BuildError, HeaderError};
use pandalib::page::{parse_header, strip_string_delim, Category, Metadata, Page, PageKind, PublishDate};

const FULL: &str = "+++\ntitle = \"Hello World\"\ndate = 2024-01-15T10:30:00Z\n+++\nbody\n";

#[test]
fn header_missing_gives_default_metadata() {
    let m = parse_header("no header here").unwrap();
    assert_eq!(m.title, "Homepage");
    assert!(m.date.is_none());
    assert!(!m.draft);
}

#[test]
fn header_with_title_and_date() {
    let m = parse_header(FULL).unwrap();
    assert_eq!(m.title, "Hello World");
    let d = m.date.unwrap();
    assert_eq!((d.year, d.month, d.day), (2024, 1, 15));
    assert_eq!(d.text, "2024-01-15T10:30:00Z");
    assert!(!m.draft);
}

#[test]
fn header_single_quoted_title() {
    let m = parse_header("+++\ntitle = 'Quoted'\ndate = x\n").unwrap();
    assert_eq!(m.title, "Quoted");
    assert!(m.date.is_none());
}

#[test]
fn header_draft_flag() {
    let m = parse_header("+++\ntitle = \"T\"\ndate = 2024-01-15T10:30:00Z\ndraft = true\n+++\n").unwrap();
    assert!(m.draft);
    let m = parse_header("+++\ntitle = \"T\"\ndate = 2024-01-15T10:30:00Z\ndraft = false\n+++\n").unwrap();
    assert!(!m.draft);
}

#[test]
fn header_invalid_date_is_dropped() {
    let m = parse_header("+++\ntitle = \"T\"\ndate = 2024-13-45\n+++\n").unwrap();
    assert!(m.date.is_none());
    assert_eq!(m.title, "T");
}

#[test]
fn header_errors_each_field() {
    assert_eq!(parse_header("+++\ndate = x\n").err(), Some(HeaderError::MissingTitle));
    assert_eq!(parse_header("+++\ntitle = \"T\"").err(), Some(HeaderError::UnterminatedTitle));
    assert_eq!(parse_header("+++\ntitle = T\n").err(), Some(HeaderError::UnquotedTitle));
    assert_eq!(parse_header("+++\ntitle = \"T\"\nauthor = me\n").err(), Some(HeaderError::MissingDate));
    assert_eq!(parse_header("+++\ntitle = \"T\"\ndate = x").err(), Some(HeaderError::UnterminatedDate));
    assert_eq!(
        parse_header("+++\ntitle = \"T\"\ndate = x\ndraft = true").err(),
        Some(HeaderError::UnterminatedDraft)
    );
}

#[test]
fn strip_delimiters() {
    assert_eq!(strip_string_delim("\"abc\"").as_deref(), Some("abc"));
    assert_eq!(strip_string_delim("'abc'").as_deref(), Some("abc"));
    assert_eq!(strip_string_delim("''").as_deref(), Some(""));
    assert_eq!(strip_string_delim("'"), None);
    assert_eq!(strip_string_delim("\"abc'"), None);
    assert_eq!(strip_string_delim("abc"), None);
}

#[test]
fn publish_date_parse() {
    let d = PublishDate::parse("1999-12-31T23:59:59+02:00").unwrap();
    assert_eq!((d.year, d.month, d.day), (1999, 12, 31));
    assert!(PublishDate::parse("1999-02-30T00:00:00Z").is_none());
    assert!(PublishDate::parse("yesterday").is_none());
}

#[test]
fn metadata_default() {
    let m = Metadata::default();
    assert_eq!(m.title, "Homepage");
    assert!(m.date.is_none());
    assert!(!m.draft);
}

#[test]
fn page_kind_and_category() {
    let p = Page::new("posts/a.md", "posts/a.html", FULL.to_string()).ok().unwrap();
    assert_eq!(p.kind, PageKind::Article);
    assert_eq!(p.category, Category::Post);
    assert!(p.is_post());
    assert_eq!(p.metadata.title, "Hello World");
    assert_eq!(p.path, "posts/a.html");
    assert_eq!(p.source, "posts/a.md");

    let p = Page::new("index.md", "index.html", String::new()).ok().unwrap();
    assert_eq!((p.kind, p.category), (PageKind::Index, Category::Home));
    assert_eq!(p.metadata.title, "Homepage");

    let p = Page::new("notes/notes.md", "notes/notes.html", String::new()).ok().unwrap();
    assert_eq!((p.kind, p.category), (PageKind::Index, Category::Note));
    assert_eq!(p.metadata.title, "Notes");
    assert!(!p.is_post());

    let p = Page::new("ramblings/ramblings.md", "ramblings/ramblings.html", String::new()).ok().unwrap();
    assert_eq!((p.kind, p.category), (PageKind::Index, Category::Rambling));
    assert_eq!(p.metadata.title, "Ramblings");

    let p = Page::new("links/x.md", "links/x.html", String::new()).ok().unwrap();
    assert_eq!((p.kind, p.category), (PageKind::Article, Category::Link));
    assert_eq!(p.metadata.title, "Homepage");

    let p = Page::new("src/about.md", "src/about.html", String::new()).ok().unwrap();
    assert_eq!(p.category, Category::Home);
}

#[test]
fn page_with_malformed_header_is_an_error() {
    match Page::new("posts/bad.md", "posts/bad.html", "+++\nname = x\n".to_string()) {
        Err(BuildError::HeaderParse(f, e)) => {
            assert_eq!(f, "posts/bad.md");
            assert_eq!(e, HeaderError::MissingTitle);
        }
        _ => panic!("expected a header error"),
    }
    // An index page has no front matter to parse.
    assert!(Page::new("posts/posts.md", "posts/posts.html", "+++\nname = x\n".to_string()).is_ok());
}

#[test]
fn page_link_below_root() {
    let p = Page::new("posts/a.md", "posts/a.md", String::new()).ok().unwrap();
    assert_eq!(p.link("").unwrap(), "https://eduardorittner.github.io/posts/a.html");
    assert_eq!(p.link("posts").unwrap(), "https://eduardorittner.github.io/a.html");
    assert_eq!(p.link("post"), None);
}
