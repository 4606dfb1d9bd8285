use pandalib::builder::{ExternalLinkValidator, Site};
use pandalib::error::BuildError;
use pandalib::link::{Link, UrlLink};
use pandalib::page::Page;
use pandalib::path::html_path;
use pandalib::rss::new_rss;

const DATE: &str = "2024-01-15T10:30:00Z";

fn article(title: &str) -> String {
    format!("+++\ntitle = \"{title}\"\ndate = {DATE}\n+++\nText\n")
}

fn stage(site: &mut Site, source: &str, content: &str, body: &str) -> Result<(), BuildError> {
    let page = Page::new(source, &html_path(source), content.to_string())?;
    site.process_md(page, body.to_string())
}

/// The index pages and stylesheet that every page's navigation links to.
fn skeleton(site: &mut Site) {
    stage(site, "index.md", "", "<p>home</p>").ok().unwrap();
    stage(site, "posts/posts.md", "", "<p>posts</p>").ok().unwrap();
    stage(site, "notes/notes.md", "", "<p>notes</p>").ok().unwrap();
    site.process_static("style.css").ok().unwrap();
}

fn invalid(r: Result<(), BuildError>) -> Vec<(String, String)> {
    match r {
        Err(BuildError::InvalidLinks(l)) => l.0.into_iter().map(|l| (l.link, l.file)).collect(),
        Ok(()) => vec![],
        Err(e) => panic!("unexpected error: {}", e.message()),
    }
}

#[test]
fn empty_tree_builds_empty_site() {
    let site = Site::new(false);
    assert!(site.pages().is_empty());
    assert!(site.assets().is_empty());
    assert!(site.rss_items().is_empty());
    assert!(site.validate_internal_links().is_ok());
    let feed = new_rss(Vec::new());
    assert!(feed.items.is_empty());
    assert_eq!(feed.title, "Eduardo's blog");
    assert_eq!(feed.link, "https://eduardorittner.github.io");
}

#[test]
fn drafts_never_staged() {
    let mut site = Site::new(true);
    let content = format!("+++\ntitle = \"Secret\"\ndate = {DATE}\ndraft = true\n+++\n");
    let page = Page::new("posts/secret.md", "posts/secret.html", content).ok().unwrap();
    assert!(page.metadata.draft);
    assert!(site.process_md(page, "<a href=\"https://x.org\">x</a>".to_string()).is_ok());
    assert!(site.pages().is_empty());
    assert!(site.rss_items().is_empty());
    assert!(site.relative_links().is_empty());
    assert!(site.take_url_links().unwrap().is_empty());
}

#[test]
fn destinations_unique() {
    let mut site = Site::new(false);
    stage(&mut site, "a/x.md", &article("X"), "").ok().unwrap();
    match site.process_static("a/x.html") {
        Err(BuildError::DuplicatePath(p)) => assert_eq!(p, "a/x.html"),
        _ => panic!("expected a duplicate"),
    }
    site.process_static("a/y.png").ok().unwrap();
    match site.process_static("a/./y.png") {
        Err(BuildError::DuplicatePath(p)) => assert_eq!(p, "a/y.png"),
        _ => panic!("expected a duplicate"),
    }
    assert_eq!(site.pages().len(), 1);
    assert_eq!(site.assets().len(), 1);
    assert_eq!(site.assets()[0].to, "a/y.png");
}

#[test]
fn post_title_round_trip() {
    let mut site = Site::new(false);
    stage(&mut site, "posts/hello.md", &article("T"), "<p>hi</p>").ok().unwrap();
    let staged = &site.pages()[0];
    assert_eq!(staged.title, "T");
    assert_eq!(staged.to, "posts/hello.html");
    assert_eq!(staged.from, "posts/hello.md");
    let items = site.rss_items();
    assert_eq!(items.len(), 1);
    assert_eq!(items[0].title, "T");
    assert_eq!(items[0].link, "https://eduardorittner.github.io/posts/hello.html");
    assert_eq!(items[0].pub_date.as_deref(), Some(DATE));
    // A note is staged but gets no feed item.
    stage(&mut site, "notes/n.md", &article("N"), "").ok().unwrap();
    assert_eq!(site.rss_items().len(), 1);
}

#[test]
fn staged_page_markup() {
    let mut site = Site::new(false);
    stage(&mut site, "posts/p.md", &article("T"), "<h2 id=\"s\">S</h2>").ok().unwrap();
    let c = &site.pages()[0].content;
    assert!(c.starts_with("<!doctype html>"));
    assert!(c.contains("<title>T</title>"));
    assert!(c.contains("<link href=\"../style.css\""));
    assert!(c.contains("<a href=\"../posts/posts.html\" class=\"active\">Posts</a>"));
    assert!(c.contains("<span class=\"date\">Published: 2024-01-15</span>"));
    assert!(c.contains("<a href=\"#s\">s</a></li></ul></details><h2 id=\"s\">S</h2></article></body></html>"));
    let mut site = Site::new(false);
    stage(&mut site, "index.md", "", "<p>x</p>").ok().unwrap();
    assert!(site.pages()[0].content.contains("<link href=\"style.css\""));
    assert!(!site.pages()[0].content.contains("<details>"));
}

#[test]
fn build_twice_identical() {
    let build = || {
        let mut site = Site::new(true);
        skeleton(&mut site);
        stage(&mut site, "posts/a.md", &article("A"), "<h2 id=\"x\">x</h2><a href=\"https://e.org\">e</a>").ok().unwrap();
        site.process_static("img/p.png").ok().unwrap();
        let pages: Vec<(String, String)> = site.pages().iter().map(|p| (p.to.clone(), p.content.clone())).collect();
        let assets: Vec<(String, String)> = site.assets().iter().map(|a| (a.to.clone(), a.from.clone())).collect();
        let feed: Vec<String> = site.rss_items().iter().map(|i| i.title.clone()).collect();
        let urls: Vec<String> = site.take_url_links().unwrap().into_iter().map(|u| u.0.link).collect();
        (pages, assets, feed, urls)
    };
    assert_eq!(build(), build());
}

#[test]
fn sibling_heading_link() {
    let mut site = Site::new(false);
    skeleton(&mut site);
    stage(&mut site, "a/sibling.md", &article("S"), "<h2 id=\"section\">section</h2>").ok().unwrap();
    stage(&mut site, "a/b.md", &article("B"), "<a href=\"sibling.md#section\">s</a>").ok().unwrap();
    assert!(site.validate_internal_links().is_ok());

    let mut site = Site::new(false);
    skeleton(&mut site);
    stage(&mut site, "a/sibling.md", &article("S"), "<h2 id=\"renamed\">renamed</h2>").ok().unwrap();
    stage(&mut site, "a/b.md", &article("B"), "<a href=\"sibling.md#section\">s</a>").ok().unwrap();
    assert_eq!(
        invalid(site.validate_internal_links()),
        vec![("sibling.md#section".to_string(), "a/b.md".to_string())]
    );
}

#[test]
fn links_to_pages_and_assets() {
    let mut site = Site::new(false);
    skeleton(&mut site);
    stage(&mut site, "a/b.md", &article("B"),
        "<a href=\"../style.css\">c</a><a href=\"../style.css#x\">d</a><a href=\"missing.html\">m</a><a href=\"../index.html\">h</a>")
        .ok()
        .unwrap();
    assert_eq!(
        invalid(site.validate_internal_links()),
        vec![
            ("../style.css#x".to_string(), "a/b.md".to_string()),
            ("missing.html".to_string(), "a/b.md".to_string()),
        ]
    );
}

#[test]
fn fragment_link_uses_own_page() {
    // A bare fragment is looked up in the page that holds the link, which resolves here
    // even though another page also has that heading.
    let mut site = Site::new(false);
    skeleton(&mut site);
    stage(&mut site, "x.md", &article("X"), "<h2 id=\"section\">S</h2><a href=\"#section\">s</a>").ok().unwrap();
    stage(&mut site, "y.md", &article("Y"), "<h2 id=\"only-here\">S</h2>").ok().unwrap();
    assert!(site.validate_internal_links().is_ok());

    // The content of another page is consulted only through its path.
    let mut site = Site::new(false);
    skeleton(&mut site);
    stage(&mut site, "x.md", &article("X"), "<p>x</p>").ok().unwrap();
    stage(&mut site, "y.md", &article("Y"), "<h2 id=\"only-here\">S</h2><a href=\"x.md#only-here\">s</a>").ok().unwrap();
    assert_eq!(
        invalid(site.validate_internal_links()),
        vec![("x.md#only-here".to_string(), "y.md".to_string())]
    );
}

#[test]
fn external_links_collected_when_asked() {
    let mut site = Site::new(true);
    stage(&mut site, "x.md", &article("X"), "<a href=\"https://a.org\">a</a><a href=\"local.html\">l</a>").ok().unwrap();
    let urls: Vec<String> = site.take_url_links().unwrap().into_iter().map(|u| u.0.link).collect();
    assert!(urls.contains(&"https://a.org".to_string()));
    assert!(urls.contains(&"https://fonts.googleapis.com/css?family=Fira Mono".to_string()));
    assert!(site.relative_links().iter().any(|l| l.0.link == "local.html" && l.0.file == "x.md"));

    let mut site = Site::new(false);
    stage(&mut site, "x.md", &article("X"), "<a href=\"https://a.org\">a</a>").ok().unwrap();
    assert!(site.take_url_links().is_none());
}

#[test]
fn unreachable_links_reported() {
    let link = |l: &str| UrlLink(Link { link: l.to_string(), file: "p.md".to_string() });
    let v = ExternalLinkValidator(vec![link("https://up.org"), link("https://down.invalid")]);
    assert_eq!(
        invalid(v.run_validator(vec![true, false])),
        vec![("https://down.invalid".to_string(), "p.md".to_string())]
    );
    let v = ExternalLinkValidator(vec![link("https://up.org")]);
    assert!(v.run_validator(vec![true]).is_ok());
}

#[test]
fn error_messages() {
    let e = BuildError::InvalidLinks(pandalib::error::InvalidLinks(vec![Link {
        link: "a.html".to_string(),
        file: "b.md".to_string(),
    }]));
    assert_eq!(e.message(), "\nInvalid link: a.html from file: \"b.md\"");
    assert_eq!(BuildError::IoError("boom".to_string()).message(), "boom");
    assert_eq!(BuildError::DuplicatePath("x".to_string()).message(), "Two entries would be written to \"x\"");
    assert_eq!(
        BuildError::HeaderParse("p.md".to_string(), pandalib::error::HeaderError::UnquotedTitle).message(),
        "Malformed front matter in \"p.md\": expected the title in matching quotes"
    );
}

#[test]
fn default_site_is_empty_and_collects_no_urls() {
    let mut site = Site::default();
    assert!(site.pages().is_empty());
    assert!(site.assets().is_empty());
    assert!(site.take_url_links().is_none());
}

#[test]
fn heading_link_checks_one_link() {
    let mut site = Site::new(false);
    stage(&mut site, "a/p.md", &article("P"), "<h2 id=\"intro\">Intro</h2>").ok().unwrap();
    site.process_static("a/pic.png").ok().unwrap();
    let link = |l: &str, f: &str| Link { link: l.to_string(), file: f.to_string() };
    assert!(site.heading_link_exists(&link("p.md#intro", "a/q.md")).is_ok());
    assert!(site.heading_link_exists(&link("p.html#intro", "a/q.md")).is_ok());
    assert!(site.heading_link_exists(&link("./p.md", "a/q.md")).is_ok());
    assert!(site.heading_link_exists(&link("../a/pic.png", "a/q.md")).is_ok());
    assert!(site.heading_link_exists(&link("pic.png#x", "a/q.md")).is_err());
    assert!(site.heading_link_exists(&link("p.md#outro", "a/q.md")).is_err());
    assert!(site.heading_link_exists(&link("#intro", "a/p.md")).is_ok());
    assert!(site.heading_link_exists(&link("#intro", "a/q.md")).is_err());
}
