//! Documents: front matter, category and kind.
use vstd::prelude::*;
use crate::error::{BuildError, HeaderError};
use crate::path::{canonical, canonical_exec, file_name, parent, file_name_start};
use crate::rss::SITE_URL;
use crate::text::{
    range_vec,
    chars_eq, chars_of, find, has_prefix, skip_vec, split_line, split_line_exec, starts_with,
    string_of, string_of_range, find_from_exec, lemma_find_bounds, push_range, lemma_find_char_at,
};

verus! {

#[derive(PartialEq, Eq, Structural, Clone, Copy, Debug)]
pub enum PageKind {
    Index,
    Article,
}

#[derive(PartialEq, Eq, Structural, Clone, Copy, Debug)]
pub enum Category {
    Home,
    Post,
    Note,
    Link,
    Rambling,
}

/// A publish timestamp accepted as RFC 3339, with its calendar date.
pub struct PublishDate {
    pub year: u32,
    pub month: u32,
    pub day: u32,
    /// The timestamp as written in the front matter.
    pub text: String,
}

pub struct Metadata {
    pub title: String,
    pub date: Option<PublishDate>,
    pub draft: bool,
}

/// What a document's metadata says, with the date as its text.
pub struct MetadataView {
    pub title: Seq<char>,
    pub date: Option<Seq<char>>,
    pub draft: bool,
}

pub open spec fn is_digit(c: char) -> bool {
    '0' <= c <= '9'
}

/// The number that the decimal digits `s` spell.
pub open spec fn number_of(s: Seq<char>) -> int
    decreases s.len(),
{
    if s.len() == 0 {
        0
    } else {
        number_of(s.drop_last()) * 10 + (s.last() as int - '0' as int)
    }
}

/// `t` starts with `YYYY-MM-DD` spelling the given year, month and day.
pub open spec fn date_fields_of(t: Seq<char>, year: int, month: int, day: int) -> bool {
    &&& t.len() >= 10
    &&& forall|i: int| 0 <= i < 10 && i != 4 && i != 7 ==> is_digit(#[trigger] t[i])
    &&& t[4] == '-'
    &&& t[7] == '-'
    &&& year == number_of(t.take(4))
    &&& month == number_of(t.subrange(5, 7))
    &&& day == number_of(t.subrange(8, 10))
    &&& 1 <= month <= 12
    &&& 1 <= day <= 31
}

/// Whether chrono accepts the text as an RFC 3339 timestamp.
pub uninterp spec fn rfc3339_accepts(s: Seq<char>) -> bool;

/// Relies on `chrono::DateTime::parse_from_rfc3339`: whether it accepts `s` depends on
/// `s` alone, and an accepted text starts with `YYYY-MM-DD` (checked byte by byte, then
/// validated by `NaiveDate::from_ymd_opt`), whose numbers are the year, month and day
/// that `Datelike` reports.
#[verifier::external_body]
fn parse_rfc3339(s: &str) -> (r: Option<(u32, u32, u32)>)
    ensures
        r is Some <==> rfc3339_accepts(s@),
        r matches Some((y, m, d)) ==> date_fields_of(s@, y as int, m as int, d as int),
{
    match chrono::DateTime::parse_from_rfc3339(s) {
        Ok(dt) => Some(
            (
                chrono::Datelike::year(&dt) as u32,
                chrono::Datelike::month(&dt),
                chrono::Datelike::day(&dt),
            ),
        ),
        Err(_) => None,
    }
}

impl PublishDate {
    pub open spec fn wf(&self) -> bool {
        date_fields_of(self.text@, self.year as int, self.month as int, self.day as int)
    }

    /// Parses an RFC 3339 timestamp; `None` where chrono rejects it.
    pub fn parse(text: &str) -> (r: Option<PublishDate>)
        ensures
            r is Some <==> rfc3339_accepts(text@),
            r matches Some(d) ==> d.text@ == text@ && d.wf(),
    {
        match parse_rfc3339(text) {
            Some((year, month, day)) => Some(
                PublishDate { year, month, day, text: string_of(&chars_of(text)) },
            ),
            None => None,
        }
    }
}

impl View for Metadata {
    type V = MetadataView;

    open spec fn view(&self) -> MetadataView {
        MetadataView {
            title: self.title@,
            date: match self.date {
                Some(d) => Some(d.text@),
                None => None,
            },
            draft: self.draft,
        }
    }
}

impl Metadata {
    pub open spec fn wf(&self) -> bool {
        self.date matches Some(d) ==> d.wf()
    }
}

pub open spec fn default_metadata() -> MetadataView {
    MetadataView { title: "Homepage"@, date: None, draft: false }
}

impl Default for Metadata {
    fn default() -> (r: Metadata)
        ensures
            r@ == default_metadata(),
    {
        Metadata { title: String::from_str("Homepage"), date: None, draft: false }
    }
}

/// The text between matching single or double quotes.
pub open spec fn strip_delim(s: Seq<char>) -> Option<Seq<char>> {
    if s.len() >= 1 && s[0] == '\'' {
        if s.len() >= 2 && s.last() == '\'' {
            Some(s.subrange(1, s.len() - 1))
        } else {
            None
        }
    } else if s.len() >= 2 && s[0] == '"' && s.last() == '"' {
        Some(s.subrange(1, s.len() - 1))
    } else {
        None
    }
}

/// The text of `s` between matching single or double quotes; `None` where they are missing.
pub fn strip_string_delim(s: &str) -> (r: Option<String>)
    ensures
        r matches Some(t) ==> strip_delim(s@) == Some(t@),
        r is None ==> strip_delim(s@) is None,
{
    let cs = chars_of(s);
    let n = cs.len();
    if n >= 1 && cs[0] == '\'' {
        if n >= 2 && cs[n - 1] == '\'' {
            Some(string_of_range(&cs, 1, n - 1))
        } else {
            None
        }
    } else if n >= 2 && cs[0] == '"' && cs[n - 1] == '"' {
        Some(string_of_range(&cs, 1, n - 1))
    } else {
        None
    }
}

/// What the front matter at the start of `c` declares, field by field in fixed order.
pub open spec fn header_of(c: Seq<char>) -> Result<MetadataView, HeaderError> {
    if !has_prefix(c, "+++\n"@) {
        Ok(default_metadata())
    } else {
        let h = c.skip("+++\n"@.len() as int);
        if !has_prefix(h, "title = "@) {
            Err(HeaderError::MissingTitle)
        } else {
            match split_line(h.skip("title = "@.len() as int)) {
                None => Err(HeaderError::UnterminatedTitle),
                Some((tline, rest)) => match strip_delim(tline) {
                    None => Err(HeaderError::UnquotedTitle),
                    Some(title) => if !has_prefix(rest, "date = "@) {
                        Err(HeaderError::MissingDate)
                    } else {
                        match split_line(rest.skip("date = "@.len() as int)) {
                            None => Err(HeaderError::UnterminatedDate),
                            Some((dline, rest2)) => {
                                let date = if rfc3339_accepts(dline) {
                                    Some(dline)
                                } else {
                                    None
                                };
                                if has_prefix(rest2, "draft = "@) {
                                    match split_line(rest2.skip("draft = "@.len() as int)) {
                                        None => Err(HeaderError::UnterminatedDraft),
                                        Some((v, _)) => Ok(
                                            MetadataView { title, date, draft: v == "true"@ },
                                        ),
                                    }
                                } else {
                                    Ok(MetadataView { title, date, draft: false })
                                }
                            },
                        }
                    },
                },
            }
        }
    }
}

/// Parses the front matter at the start of a document.
pub fn parse_header(contents: &str) -> (r: Result<Metadata, HeaderError>)
    ensures
        r matches Ok(m) ==> header_of(contents@) == Ok::<MetadataView, HeaderError>(m@) && m.wf(),
        r matches Err(e) ==> header_of(contents@) == Err::<MetadataView, HeaderError>(e),
{
    let c = chars_of(contents);
    let open = chars_of("+++\n");
    if !starts_with(&c, &open) {
        return Ok(Metadata::default());
    }
    let h = skip_vec(&c, open.len());
    let title_key = chars_of("title = ");
    if !starts_with(&h, &title_key) {
        return Err(HeaderError::MissingTitle);
    }
    let (tline, rest) = match split_line_exec(&skip_vec(&h, title_key.len())) {
        None => return Err(HeaderError::UnterminatedTitle),
        Some(p) => p,
    };
    let title = match strip_string_delim(string_of(&tline).as_str()) {
        None => return Err(HeaderError::UnquotedTitle),
        Some(t) => t,
    };
    let date_key = chars_of("date = ");
    if !starts_with(&rest, &date_key) {
        return Err(HeaderError::MissingDate);
    }
    let (dline, rest2) = match split_line_exec(&skip_vec(&rest, date_key.len())) {
        None => return Err(HeaderError::UnterminatedDate),
        Some(p) => p,
    };
    let date = PublishDate::parse(string_of(&dline).as_str());
    let draft_key = chars_of("draft = ");
    let draft = if starts_with(&rest2, &draft_key) {
        match split_line_exec(&skip_vec(&rest2, draft_key.len())) {
            None => return Err(HeaderError::UnterminatedDraft),
            Some((v, _)) => chars_eq(&v, &chars_of("true")),
        }
    } else {
        false
    };
    Ok(Metadata { title, date, draft })
}

/// `path` below `root`, both canonical: the components after those of `root`.
pub open spec fn strip_root(path: Seq<char>, root: Seq<char>) -> Option<Seq<char>> {
    if root.len() == 0 {
        Some(path)
    } else if path == root {
        Some(Seq::empty())
    } else if has_prefix(path, root + seq!['/']) {
        Some(path.skip(root.len() as int + 1))
    } else {
        None
    }
}

/// `s` with every `.md` replaced by `.html`, left to right.
pub open spec fn replace_md(s: Seq<char>) -> Seq<char>
    decreases s.len(),
{
    match find(s, seq!['.', 'm', 'd']) {
        Some(i) => if 0 <= i && i + 3 <= s.len() {
            s.take(i) + seq!['.', 'h', 't', 'm', 'l'] + replace_md(s.skip(i + 3))
        } else {
            s
        },
        None => s,
    }
}

/// Appends `replace_md(cs)` to `out`.
fn push_replaced_md(out: &mut String, cs: &Vec<char>)
    ensures
        final(out)@ == old(out)@ + replace_md(cs@),
{
    let pat = vec!['.', 'm', 'd'];
    let mut rest = range_vec(cs, 0, cs.len());
    assert(rest@ =~= cs@);
    loop
        invariant
            pat@ == seq!['.', 'm', 'd'],
            out@ + replace_md(rest@) == old(out)@ + replace_md(cs@),
        decreases rest@.len(),
    {
        match find_from_exec(&rest, &pat, 0) {
            Some(i) => {
                proof {
                    lemma_find_bounds(rest@, pat@, 0);
                }
                let ghost before = out@;
                push_range(out, &rest, 0, i);
                out.append(".html");
                proof {
                    reveal_strlit(".html");
                }
                let next = skip_vec(&rest, i + 3);
                assert(out@ + replace_md(next@) =~= before + replace_md(rest@));
                rest = next;
            },
            None => {
                push_range(out, &rest, 0, rest.len());
                assert(rest@.subrange(0, rest@.len() as int) =~= rest@);
                return ;
            },
        }
    }
}

/// The remainder of a front matter sets the draft flag.
pub open spec fn has_draft_key(rest: Seq<char>) -> bool {
    has_prefix(rest, "draft = "@)
}

/// A front matter that gives the title `t` in double quotes and the date text `d`.
pub open spec fn front_matter(t: Seq<char>, d: Seq<char>) -> Seq<char> {
    "+++\n"@ + "title = "@ + seq!['"'] + t + seq!['"', '\n'] + "date = "@ + d + seq!['\n']
}

/// Parsing a front matter with a one-line title, an accepted date and no draft flag gives
/// back that title and date, and the document is no draft.
pub proof fn lemma_header_round_trip(t: Seq<char>, d: Seq<char>, rest: Seq<char>)
    requires
        forall|i: int| 0 <= i < t.len() ==> t[i] != '\n',
        forall|i: int| 0 <= i < d.len() ==> d[i] != '\n',
        rfc3339_accepts(d),
        !has_draft_key(rest),
    ensures
        header_of(front_matter(t, d) + rest) == Ok::<MetadataView, HeaderError>(
            MetadataView { title: t, date: Some(d), draft: false },
        ),
{
    let open = "+++\n"@;
    let tk = "title = "@;
    let dk = "date = "@;
    let z = d + seq!['\n'] + rest;
    let y1 = dk + z;
    let y = seq!['"'] + t + seq!['"', '\n'] + y1;
    let x = tk + y;
    let c = front_matter(t, d) + rest;
    assert(c =~= open + x);
    assert(c.take(open.len() as int) =~= open);
    assert(c.skip(open.len() as int) =~= x);
    assert(x.take(tk.len() as int) =~= tk);
    assert(x.skip(tk.len() as int) =~= y);
    let n = t.len() as int;
    assert forall|j: int| 0 <= j < n + 2 implies y[j] != '\n' by {
        if 1 <= j <= n {
            assert(y[j] == t[j - 1]);
        }
    }
    lemma_find_char_at(y, '\n', 0, n + 2);
    let tline = y.take(n + 2);
    assert(tline =~= seq!['"'] + t + seq!['"']);
    assert(y.skip(n + 3) =~= y1);
    assert(tline.subrange(1, tline.len() - 1) =~= t);
    assert(strip_delim(tline) == Some(t));
    assert(y1.take(dk.len() as int) =~= dk);
    assert(y1.skip(dk.len() as int) =~= z);
    assert forall|j: int| 0 <= j < d.len() implies z[j] != '\n' by {
        assert(z[j] == d[j]);
    }
    lemma_find_char_at(z, '\n', 0, d.len() as int);
    assert(z.take(d.len() as int) =~= d);
    assert(z.skip(d.len() as int + 1) =~= rest);
}

/// Index-like file names make an index page; every other document is an article.
pub open spec fn kind_of(p: Seq<char>) -> PageKind {
    let f = file_name(p);
    if f == "index.md"@ || f == "posts.md"@ || f == "notes.md"@ || f == "links.md"@ || f
        == "ramblings.md"@ {
        PageKind::Index
    } else {
        PageKind::Article
    }
}

/// The category named by the document's directory; `Home` at the root and elsewhere.
pub open spec fn category_of(p: Seq<char>) -> Category {
    let d = file_name(parent(p));
    if d == "posts"@ {
        Category::Post
    } else if d == "notes"@ {
        Category::Note
    } else if d == "ramblings"@ {
        Category::Rambling
    } else if d == "links"@ {
        Category::Link
    } else {
        Category::Home
    }
}

/// The title of the index page of a category.
pub open spec fn index_title(c: Category) -> Seq<char> {
    match c {
        Category::Home => "Homepage"@,
        Category::Post => "Posts"@,
        Category::Note => "Notes"@,
        Category::Link => "Links"@,
        Category::Rambling => "Ramblings"@,
    }
}

/// The metadata of the document at source path `p` with text `c`.
pub open spec fn page_metadata(p: Seq<char>, c: Seq<char>) -> Result<MetadataView, HeaderError> {
    match kind_of(p) {
        PageKind::Index => Ok(MetadataView { title: index_title(category_of(p)), date: None, draft: false }),
        PageKind::Article => header_of(c),
    }
}

fn kind_of_exec(cs: &[char]) -> (r: PageKind)
    ensures
        r == kind_of(cs@),
{
    let start = file_name_start(cs);
    let f = skip_vec(cs, start);
    if chars_eq(&f, &chars_of("index.md")) || chars_eq(&f, &chars_of("posts.md")) || chars_eq(
        &f,
        &chars_of("notes.md"),
    ) || chars_eq(&f, &chars_of("links.md")) || chars_eq(&f, &chars_of("ramblings.md")) {
        PageKind::Index
    } else {
        PageKind::Article
    }
}

fn category_of_exec(cs: &[char]) -> (r: Category)
    ensures
        r == category_of(cs@),
{
    let start = file_name_start(cs);
    let dir = if start == 0 {
        Vec::new()
    } else {
        range_vec(cs, 0, start - 1)
    };
    assert(dir@ == parent(cs@));
    let dstart = file_name_start(&dir);
    let d = skip_vec(&dir, dstart);
    if chars_eq(&d, &chars_of("posts")) {
        Category::Post
    } else if chars_eq(&d, &chars_of("notes")) {
        Category::Note
    } else if chars_eq(&d, &chars_of("ramblings")) {
        Category::Rambling
    } else if chars_eq(&d, &chars_of("links")) {
        Category::Link
    } else {
        Category::Home
    }
}

fn index_title_exec(c: Category) -> (r: String)
    ensures
        r@ == index_title(c),
{
    match c {
        Category::Home => String::from_str("Homepage"),
        Category::Post => String::from_str("Posts"),
        Category::Note => String::from_str("Notes"),
        Category::Link => String::from_str("Links"),
        Category::Rambling => String::from_str("Ramblings"),
    }
}

/// A source document with its derived kind, category and metadata.
pub struct Page {
    /// The document's text, front matter included.
    pub content: String,
    pub kind: PageKind,
    pub category: Category,
    pub metadata: Metadata,
    /// The destination path, relative to the output root.
    pub path: String,
    /// The source path, relative to the source root.
    pub source: String,
}

impl Page {
    /// Reads kind and category off the source path `path` and the metadata off the
    /// front matter of `content`; `link` is the destination path.
    pub fn new(path: &str, link: &str, content: String) -> (r: Result<Page, BuildError>)
        ensures
            r matches Ok(p) ==> {
                &&& page_metadata(path@, content@) == Ok::<MetadataView, HeaderError>(p.metadata@)
                &&& p.metadata.wf()
                &&& p.kind == kind_of(path@)
                &&& p.category == category_of(path@)
                &&& p.content@ == content@
                &&& p.path@ == link@
                &&& p.source@ == path@
            },
            r matches Err(e) ==> exists|he: HeaderError|
                {
                    &&& page_metadata(path@, content@) == Err::<MetadataView, HeaderError>(he)
                    &&& e matches BuildError::HeaderParse(f, h) && f@ == path@ && h == he
                },
    {
        let cs = chars_of(path);
        let kind = kind_of_exec(&cs);
        let category = category_of_exec(&cs);
        let metadata = match kind {
            PageKind::Article => match parse_header(content.as_str()) {
                Ok(m) => m,
                Err(he) => return Err(BuildError::HeaderParse(string_of(&cs), he)),
            },
            PageKind::Index => Metadata { title: index_title_exec(category), date: None, draft: false },
        };
        Ok(Page {
            content,
            kind,
            category,
            metadata,
            path: string_of(&chars_of(link)),
            source: string_of(&cs),
        })
    }

    /// The page's address on the site: its path below `root`, with `.md` turned into
    /// `.html`, after the site's address. `None` where the path is not below `root`.
    pub fn link(&self, root: &str) -> (r: Option<String>)
        ensures
            r matches Some(l) ==> strip_root(canonical(self.path@), canonical(root@)) matches Some(
                rel,
            ) && l@ == SITE_URL@ + replace_md(rel),
            r is None ==> strip_root(canonical(self.path@), canonical(root@)) is None,
    {
        let p = chars_of(canonical_exec(self.path.as_str()).as_str());
        let base = chars_of(canonical_exec(root).as_str());
        let rel = if base.len() == 0 {
            p
        } else if chars_eq(&p, &base) {
            Vec::new()
        } else if p.len() > base.len() && starts_with(&p, &base) && p[base.len()] == '/' {
            assert(p@.take(base@.len() as int + 1) =~= base@ + seq!['/']);
            skip_vec(&p, base.len() + 1)
        } else {
            proof {
                if has_prefix(p@, base@ + seq!['/']) {
                    let n = base@.len() as int;
                    let q = base@ + seq!['/'];
                    assert(p@.take(n + 1) == q);
                    assert(q.take(n) =~= base@);
                    assert(p@.take(n) =~= p@.take(n + 1).take(n));
                    assert(p@[n] == q[n]);
                }
            }
            return None;
        };
        let mut l = String::from_str(SITE_URL);
        push_replaced_md(&mut l, &rel);
        Some(l)
    }

    /// A published article in the posts directory; only these enter the feed.
    pub fn is_post(&self) -> (r: bool)
        ensures
            r == (self.category == Category::Post && self.kind == PageKind::Article),
    {
        self.category == Category::Post && self.kind == PageKind::Article
    }
}

} // verus!
