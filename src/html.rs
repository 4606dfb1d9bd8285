//! The markup that wraps a rendered page: head, navigation bar, metadata block,
//! table of contents and heading tags.
use vstd::prelude::*;
use crate::page::{Category, Metadata};
use crate::text::{
    chars_of, find, find_char_exec, find_char_from, find_from_exec, lemma_find_bounds,
    lemma_find_char_bounds, push_char, replace_char, replace_char_exec, skip_vec, string_of_range,
};
use crate::link::views;

verus! {

pub const HEADER_START: &'static str = "<!doctype html>\
    <html lang=\"en-US\">\
    <head> \
    <title>";

pub const HEADER_MIDDLE: &'static str = "</title> \
    <link href=\"";

pub const HEADER_END: &'static str = "style.css\" rel=\"stylesheet\" type=\"text/css\" media=\"all\"> \
    <link href='https://fonts.googleapis.com/css?family=Fira Mono' rel='stylesheet'> \
    <link rel=\"alternate\" type=\"application/rss+xml\" title=\"RSS\"\
    href=\"https://eduardorittner.github.io/rss.xml\">\
    <meta charset=\"UTF-8\"> \
    <script type=\"text/x-mathjax-config\"> \
    MathJax.Hub.Config({ \
    tex2jax: {inlineMath: [['$','$'], ['\\\\(','\\\\)']]} \
    }); \
    </script> \
    <script type=\"text/javascript\" \
    src=\"https://cdn.mathjax.org/mathjax/latest/MathJax.js?config=TeX-AMS-MML_HTMLorMML\"> \
    </script> \
    </head> \
    ";

pub const NAV_HOME: &'static str = "<body>\
        <div class=\"navbar\">\
        <a href=\"";

pub const NAV_HOME_CLASS: &'static str = "index.html\" class=\"";

pub const NAV_POSTS: &'static str = "\">Home</a>\
        <a href=\"";

pub const NAV_POSTS_CLASS: &'static str = "posts/posts.html\" class=\"";

pub const NAV_NOTES: &'static str = "\">Posts</a>\
        <a href=\"";

pub const NAV_NOTES_CLASS: &'static str = "notes/notes.html\" class=\"";

pub const NAV_END: &'static str = "\">Notes</a>\
        </div>\n        ";

pub const ACTIVE: &'static str = "active";

pub const FOOTER: &'static str = "</article></body></html>";

pub const META_START: &'static str = "<article id=\"post\">\
        <div class=\"stack\">\
        <div class=\"heading-container\">\
        <div class=\"break\"></div>\
        <h1>";

pub const META_TITLE_END: &'static str = "</h1>\
        <div class=\"break\"></div>\
        </div>";

pub const META_DATE_START: &'static str = "<span class=\"date\">Published: ";

pub const META_DATE_END: &'static str = "</span>";

pub const META_END: &'static str = "</div>";

pub const TOC_START: &'static str = "<details><summary>Table of Contents</summary><ul id=\"table-of-contents\" class=\"section-toc\">";

pub const TOC_ENTRY_START: &'static str = "<li class=\"toc-entry toc-h2\"><a href=\"#";

pub const TOC_ENTRY_MIDDLE: &'static str = "\">";

pub const TOC_ENTRY_END: &'static str = "</a></li>";

pub const TOC_END: &'static str = "</ul></details>";

pub const HEADING_BOX: &'static str = "<div class=\"heading-container\"><div class=\"small-break\"></div>";

pub const HEADING_ID: &'static str = " id=\"";

pub const HEADING_ID_END: &'static str = "\">";

pub const HEADING_LINK: &'static str = "<a class=\"header-link\" href=\"#";

pub const HEADING_LINK_END: &'static str = "\"><img src=\"../assets/link.svg\" class=\"link-icon\" alt=\"Link icon\"></a></h";

pub const HEADING_BOX_END: &'static str = "><div class=\"small-break\"></div></div>";

/// The document head, with the page title and the prefix that leads to the site root.
pub open spec fn header_html(title: Seq<char>, root: Seq<char>) -> Seq<char> {
    HEADER_START@ + title + HEADER_MIDDLE@ + root + HEADER_END@
}

pub fn format_header(title: &str, root: &str) -> (r: String)
    ensures
        r@ == header_html(title@, root@),
{
    let mut s = String::from_str(HEADER_START);
    s.append(title);
    s.append(HEADER_MIDDLE);
    s.append(root);
    s.append(HEADER_END);
    s
}

/// The class of a navigation entry: `active` for the page's own category.
pub open spec fn nav_class(kind: Category, entry: Category) -> Seq<char> {
    if kind == entry {
        ACTIVE@
    } else {
        Seq::empty()
    }
}

/// The navigation bar, with links to the home, posts and notes index pages.
pub open spec fn navbar_html(prefix: Seq<char>, kind: Category) -> Seq<char> {
    NAV_HOME@ + prefix + NAV_HOME_CLASS@ + nav_class(kind, Category::Home) + NAV_POSTS@ + prefix
        + NAV_POSTS_CLASS@ + nav_class(kind, Category::Post) + NAV_NOTES@ + prefix
        + NAV_NOTES_CLASS@ + nav_class(kind, Category::Note) + NAV_END@
}

fn nav_class_exec(kind: Category, entry: Category) -> (r: &'static str)
    ensures
        r@ == nav_class(kind, entry),
{
    if kind == entry {
        ACTIVE
    } else {
        proof {
            reveal_strlit("");
        }
        ""
    }
}

pub fn format_navbar(prefix: &str, kind: Category) -> (r: String)
    ensures
        r@ == navbar_html(prefix@, kind),
{
    let mut s = String::from_str(NAV_HOME);
    s.append(prefix);
    s.append(NAV_HOME_CLASS);
    s.append(nav_class_exec(kind, Category::Home));
    s.append(NAV_POSTS);
    s.append(prefix);
    s.append(NAV_POSTS_CLASS);
    s.append(nav_class_exec(kind, Category::Post));
    s.append(NAV_NOTES);
    s.append(prefix);
    s.append(NAV_NOTES_CLASS);
    s.append(nav_class_exec(kind, Category::Note));
    s.append(NAV_END);
    s
}

pub fn format_footer() -> (r: String)
    ensures
        r@ == FOOTER@,
{
    String::from_str(FOOTER)
}

/// The calendar date at the start of a timestamp: its first ten characters.
pub open spec fn calendar_date(d: Seq<char>) -> Seq<char> {
    if d.len() < 10 {
        d
    } else {
        d.take(10)
    }
}

/// The title block of a page, with the calendar date of its timestamp when it has one.
pub open spec fn metadata_html(title: Seq<char>, date: Option<Seq<char>>) -> Seq<char> {
    META_START@ + title + META_TITLE_END@ + match date {
        Some(d) => META_DATE_START@ + calendar_date(d) + META_DATE_END@,
        None => Seq::empty(),
    } + META_END@
}

pub fn format_metadata(metadata: &Metadata) -> (r: String)
    ensures
        r@ == metadata_html(metadata@.title, metadata@.date),
{
    let mut s = String::from_str(META_START);
    s.append(metadata.title.as_str());
    s.append(META_TITLE_END);
    let ghost before = s@;
    match &metadata.date {
        Some(d) => {
            let t = chars_of(d.text.as_str());
            s.append(META_DATE_START);
            let n = if t.len() < 10 {
                t.len()
            } else {
                10
            };
            s.append(string_of_range(&t, 0, n).as_str());
            s.append(META_DATE_END);
            assert(t@.subrange(0, n as int) =~= calendar_date(d.text@));
            assert(s@ =~= before + (META_DATE_START@ + calendar_date(d.text@) + META_DATE_END@));
        },
        None => {
            assert(s@ =~= before + Seq::<char>::empty());
        },
    }
    s.append(META_END);
    s
}

/// One entry of the table of contents: a link to the heading id, shown with spaces.
pub open spec fn toc_entry(id: Seq<char>) -> Seq<char> {
    TOC_ENTRY_START@ + id + TOC_ENTRY_MIDDLE@ + replace_char(id, '-', ' ') + TOC_ENTRY_END@
}

pub open spec fn toc_entries(ids: Seq<Seq<char>>) -> Seq<char>
    decreases ids.len(),
{
    if ids.len() == 0 {
        Seq::empty()
    } else {
        toc_entries(ids.drop_last()) + toc_entry(ids.last())
    }
}

/// The table of contents for the given heading ids; empty when there are none.
pub open spec fn toc_html(ids: Seq<Seq<char>>) -> Seq<char> {
    if ids.len() == 0 {
        Seq::empty()
    } else {
        TOC_START@ + toc_entries(ids) + TOC_END@
    }
}

pub fn format_toc(titles: Vec<String>) -> (r: String)
    ensures
        r@ == toc_html(views(titles@)),
{
    if titles.len() == 0 {
        return String::new();
    }
    let mut toc = String::from_str(TOC_START);
    let mut i: usize = 0;
    while i < titles.len()
        invariant
            i <= titles@.len(),
            toc@ == TOC_START@ + toc_entries(views(titles@).take(i as int)),
        decreases titles@.len() - i,
    {
        let title = titles[i].as_str();
        let visible = replace_char_exec(title, '-', ' ');
        toc.append(TOC_ENTRY_START);
        toc.append(title);
        toc.append(TOC_ENTRY_MIDDLE);
        toc.append(visible.as_str());
        toc.append(TOC_ENTRY_END);
        assert(views(titles@).take(i + 1).drop_last() =~= views(titles@).take(i as int));
        i = i + 1;
    }
    assert(views(titles@).take(i as int) =~= views(titles@));
    toc.append(TOC_END);
    toc
}

/// A heading of markdown level `level` is written one level deeper, at most at 6.
pub open spec fn shifted_level(level: u8) -> u8 {
    if level < 6 {
        (level + 1) as u8
    } else {
        6
    }
}

/// The digit of a written heading level.
pub open spec fn level_char(l: u8) -> char {
    if l <= 1 {
        '1'
    } else if l == 2 {
        '2'
    } else if l == 3 {
        '3'
    } else if l == 4 {
        '4'
    } else if l == 5 {
        '5'
    } else {
        '6'
    }
}

/// The id derived from a heading's text: spaces become hyphens.
pub open spec fn heading_id(text: Seq<char>) -> Seq<char> {
    replace_char(text, ' ', '-')
}

/// The opening tag of a heading, boxed for the two top written levels.
pub open spec fn heading_open_html(level: u8, text: Seq<char>) -> Seq<char> {
    let l = shifted_level(level);
    (if l < 3 {
        HEADING_BOX@
    } else {
        Seq::empty()
    }) + seq!['<', 'h', level_char(l)] + HEADING_ID@ + heading_id(text) + HEADING_ID_END@
}

/// The closing tag of a heading; the two top written levels get a link to themselves.
pub open spec fn heading_close_html(level: u8, text: Seq<char>) -> Seq<char> {
    let l = shifted_level(level);
    if l < 3 {
        HEADING_LINK@ + heading_id(text) + HEADING_LINK_END@ + seq![level_char(l)] + HEADING_BOX_END@
    } else {
        seq!['<', '/', 'h', level_char(l), '>']
    }
}

pub fn heading_level(level: u8) -> (r: u8)
    ensures
        r == shifted_level(level),
{
    if level < 6 {
        level + 1
    } else {
        6
    }
}

fn level_digit(l: u8) -> (r: char)
    ensures
        r == level_char(l),
{
    if l <= 1 {
        '1'
    } else if l == 2 {
        '2'
    } else if l == 3 {
        '3'
    } else if l == 4 {
        '4'
    } else if l == 5 {
        '5'
    } else {
        '6'
    }
}

/// The markup that opens a heading of markdown level `level` with text `text`.
pub fn heading_open(level: u8, text: &str) -> (r: String)
    ensures
        r@ == heading_open_html(level, text@),
{
    let l = heading_level(level);
    let mut s = if l < 3 {
        String::from_str(HEADING_BOX)
    } else {
        String::new()
    };
    let ghost start = s@;
    push_char(&mut s, '<');
    push_char(&mut s, 'h');
    push_char(&mut s, level_digit(l));
    s.append(HEADING_ID);
    s.append(replace_char_exec(text, ' ', '-').as_str());
    s.append(HEADING_ID_END);
    assert(s@ =~= start + seq!['<', 'h', level_char(l)] + HEADING_ID@ + heading_id(text@)
        + HEADING_ID_END@);
    s
}

/// The markup that closes a heading of markdown level `level` with text `text`.
pub fn heading_close(level: u8, text: &str) -> (r: String)
    ensures
        r@ == heading_close_html(level, text@),
{
    let l = heading_level(level);
    if l < 3 {
        let mut s = String::from_str(HEADING_LINK);
        s.append(replace_char_exec(text, ' ', '-').as_str());
        s.append(HEADING_LINK_END);
        push_char(&mut s, level_digit(l));
        s.append(HEADING_BOX_END);
        s
    } else {
        let mut s = String::new();
        push_char(&mut s, '<');
        push_char(&mut s, '/');
        push_char(&mut s, 'h');
        push_char(&mut s, level_digit(l));
        push_char(&mut s, '>');
        assert(s@ =~= seq!['<', '/', 'h', level_char(l), '>']);
        s
    }
}

/// The marker that opens a second-level heading and its id.
pub open spec fn h2_marker() -> Seq<char> {
    seq!['<', 'h', '2', ' ', 'i', 'd', '=', '"']
}

/// The ids of the second-level headings in `s`, in order: after each marker, the text up
/// to the first `"`, where that quote comes before the next marker.
pub open spec fn h2_ids(s: Seq<char>) -> Seq<Seq<char>>
    decreases s.len(),
{
    match find(s, h2_marker()) {
        Some(i) => if 0 <= i && i + 8 <= s.len() {
            let rest = s.skip(i + 8);
            let seg_end = match find(rest, h2_marker()) {
                Some(j) => j,
                None => rest.len() as int,
            };
            match find_char_from(rest, '"', 0) {
                Some(e) => if e < seg_end {
                    seq![rest.take(e)] + h2_ids(rest)
                } else {
                    h2_ids(rest)
                },
                None => h2_ids(rest),
            }
        } else {
            Seq::empty()
        },
        None => Seq::empty(),
    }
}

/// The ids of the second-level headings of `source`.
pub fn heading_ids(source: &str) -> (r: Vec<String>)
    ensures
        views(r@) == h2_ids(source@),
{
    let marker = vec!['<', 'h', '2', ' ', 'i', 'd', '=', '"'];
    let mut rest = chars_of(source);
    let mut out: Vec<String> = Vec::new();
    assert(views(out@) + h2_ids(rest@) =~= h2_ids(source@));
    loop
        invariant
            marker@ == h2_marker(),
            views(out@) + h2_ids(rest@) == h2_ids(source@),
        decreases rest@.len(),
    {
        let i = match find_from_exec(&rest, &marker, 0) {
            Some(i) => i,
            None => {
                assert(views(out@) =~= h2_ids(source@));
                return out;
            },
        };
        proof {
            lemma_find_bounds(rest@, marker@, 0);
        }
        let body = skip_vec(&rest, i + 8);
        let seg_end = match find_from_exec(&body, &marker, 0) {
            Some(j) => j,
            None => body.len(),
        };
        match find_char_exec(&body, '"', 0) {
            Some(e) => {
                if e < seg_end {
                    proof {
                        lemma_find_char_bounds(body@, '"', 0);
                    }
                    let id = string_of_range(&body, 0, e);
                    let ghost old_out = out@;
                    out.push(id);
                    assert(views(out@) =~= views(old_out).push(body@.take(e as int)));
                    assert(views(out@) + h2_ids(body@) =~= views(old_out) + (seq![
                        body@.take(e as int),
                    ] + h2_ids(body@)));
                }
            },
            None => {},
        }
        rest = body;
    }
}

/// A table of contents of the second-level headings, placed before the rendered body.
pub fn table_of_contents(source: String) -> (r: String)
    ensures
        r@ == toc_html(h2_ids(source@)) + source@,
{
    let ids = heading_ids(source.as_str());
    let mut toc = format_toc(ids);
    toc.append(source.as_str());
    toc
}

} // verus!
