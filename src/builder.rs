//! The stage: an in-memory model of the output site, built before anything is written.
use vstd::prelude::*;
use crate::error::{BuildError, HeaderError, InvalidLinks};
use crate::link::{Link, RelativeLink, UrlLink};
use crate::path::{canonical, canonical_exec, extension, extension_exec, join, join_exec, parent, parent_exec};
use crate::rss::{FeedItem, FeedItemView, item_of, new_item};
use crate::page::{
    Category, MetadataView, Page, PageKind, category_of, front_matter, has_draft_key, kind_of,
    lemma_header_round_trip, page_metadata, rfc3339_accepts,
};
use crate::html::{
    FOOTER, format_footer, format_header, format_metadata, format_navbar, h2_ids, header_html,
    metadata_html, navbar_html, table_of_contents, toc_html,
};
use crate::link::{extract_links, href_targets, is_external, is_external_exec, views};
use crate::text::{
    chars_of, find, find_char_exec, find_char_from, find_from_exec, lemma_find_char_bounds,
    string_of_range,
};

verus! {

/// A compiled page, keyed by its canonical destination path.
pub struct GeneratedHtml {
    pub to: String,
    pub from: String,
    pub title: String,
    pub content: String,
}

/// A file copied verbatim, keyed by its canonical destination path.
pub struct AssetFile {
    pub to: String,
    pub from: String,
}

pub open spec fn page_keys(ps: Seq<GeneratedHtml>) -> Seq<Seq<char>> {
    ps.map_values(|p: GeneratedHtml| p.to@)
}

pub open spec fn asset_keys(assets: Seq<AssetFile>) -> Seq<Seq<char>> {
    assets.map_values(|a: AssetFile| a.to@)
}

/// `n` steps up: `../` repeated `n` times.
pub open spec fn up_prefix(n: nat) -> Seq<char>
    decreases n,
{
    if n == 0 {
        Seq::empty()
    } else {
        up_prefix((n - 1) as nat) + "../"@
    }
}

/// How many times `c` occurs in `s`.
pub open spec fn count_char(s: Seq<char>, c: char) -> nat
    decreases s.len(),
{
    if s.len() == 0 {
        0
    } else {
        count_char(s.drop_last(), c) + if s.last() == c {
            1nat
        } else {
            0nat
        }
    }
}

/// The rendered body, with a table of contents in front for posts.
pub open spec fn body_html(kind: PageKind, category: Category, body: Seq<char>) -> Seq<char> {
    if category == Category::Post && kind == PageKind::Article {
        toc_html(h2_ids(body)) + body
    } else {
        body
    }
}

/// The complete page written at destination `key`: head, navigation, title block,
/// body and footer, with links to the root made relative to the page's depth.
pub open spec fn page_html(page: Page, key: Seq<char>, body: Seq<char>) -> Seq<char> {
    let prefix = up_prefix(count_char(key, '/'));
    header_html(page.metadata.title@, prefix) + navbar_html(prefix, page.category) + metadata_html(
        page.metadata.title@,
        page.metadata@.date,
    ) + body_html(page.kind, page.category, body) + FOOTER@
}

/// The internal targets among `ts`, each paired with the page `file` it came from.
pub open spec fn relative_of(ts: Seq<Seq<char>>, file: Seq<char>) -> Seq<(Seq<char>, Seq<char>)>
    decreases ts.len(),
{
    if ts.len() == 0 {
        Seq::empty()
    } else if is_external(ts.last()) {
        relative_of(ts.drop_last(), file)
    } else {
        relative_of(ts.drop_last(), file).push((ts.last(), file))
    }
}

/// The external targets among `ts`, each paired with the page `file` it came from.
pub open spec fn external_of(ts: Seq<Seq<char>>, file: Seq<char>) -> Seq<(Seq<char>, Seq<char>)>
    decreases ts.len(),
{
    if ts.len() == 0 {
        Seq::empty()
    } else if is_external(ts.last()) {
        external_of(ts.drop_last(), file).push((ts.last(), file))
    } else {
        external_of(ts.drop_last(), file)
    }
}

pub open spec fn link_pair(l: Link) -> (Seq<char>, Seq<char>) {
    (l.link@, l.file@)
}

pub open spec fn relative_pairs(ls: Seq<RelativeLink>) -> Seq<(Seq<char>, Seq<char>)> {
    ls.map_values(|l: RelativeLink| link_pair(l.0))
}

pub open spec fn url_pairs(ls: Seq<UrlLink>) -> Seq<(Seq<char>, Seq<char>)> {
    ls.map_values(|l: UrlLink| link_pair(l.0))
}

pub open spec fn feed_views(items: Seq<FeedItem>) -> Seq<FeedItemView> {
    items.map_values(|i: FeedItem| i@)
}

/// The relative-root prefix of a page at destination `key`.
fn prefix_for(key: &String) -> (r: String)
    ensures
        r@ == up_prefix(count_char(key@, '/')),
{
    let cs = chars_of(key.as_str());
    let mut n: usize = 0;
    let mut i: usize = 0;
    while i < cs.len()
        invariant
            i <= cs@.len(),
            cs@ == key@,
            n == count_char(cs@.take(i as int), '/'),
            n <= i,
        decreases cs@.len() - i,
    {
        assert(cs@.take(i + 1).drop_last() =~= cs@.take(i as int));
        if cs[i] == '/' {
            n = n + 1;
        }
        i = i + 1;
    }
    assert(cs@.take(i as int) =~= cs@);
    let mut r = String::new();
    let mut k: usize = 0;
    while k < n
        invariant
            k <= n,
            r@ == up_prefix(k as nat),
        decreases n - k,
    {
        r.append("../");
        k = k + 1;
    }
    r
}

/// The staged site: pages, assets, feed items and the links found in the pages.
/// Every path in it is relative: sources to the source root, destinations to the
/// output root.
pub struct Site {
    assets: Vec<AssetFile>,
    pages: Vec<GeneratedHtml>,
    rss_items: Vec<FeedItem>,
    relative_links: Vec<RelativeLink>,
    url_links: Option<Vec<UrlLink>>,
}

impl Site {
    pub closed spec fn page_seq(&self) -> Seq<GeneratedHtml> {
        self.pages@
    }

    pub closed spec fn asset_seq(&self) -> Seq<AssetFile> {
        self.assets@
    }

    pub closed spec fn feed_seq(&self) -> Seq<FeedItem> {
        self.rss_items@
    }

    pub closed spec fn relative_seq(&self) -> Seq<RelativeLink> {
        self.relative_links@
    }

    /// The external links collected for probing; `None` where no probing was asked for.
    pub closed spec fn url_seq(&self) -> Option<Seq<UrlLink>> {
        match self.url_links {
            Some(v) => Some(v@),
            None => None,
        }
    }

    /// Every destination path that the stage will write.
    pub open spec fn dest_keys(&self) -> Seq<Seq<char>> {
        page_keys(self.page_seq()) + asset_keys(self.asset_seq())
    }

    #[verifier::type_invariant]
    spec fn inv(&self) -> bool {
        self.wf()
    }

    /// Pages and assets are keyed by distinct destination paths.
    pub open spec fn wf(&self) -> bool {
        &&& page_keys(self.page_seq()).no_duplicates()
        &&& asset_keys(self.asset_seq()).no_duplicates()
        &&& forall|i: int, j: int|
            0 <= i < self.page_seq().len() && 0 <= j < self.asset_seq().len() ==> #[trigger] self.page_seq()[i].to@
                != #[trigger] self.asset_seq()[j].to@
    }

    /// An empty stage; external links are collected only when `collect_urls` holds.
    pub fn new(collect_urls: bool) -> (r: Site)
        ensures
            r.wf(),
            r.page_seq().len() == 0,
            r.asset_seq().len() == 0,
            r.feed_seq().len() == 0,
            r.relative_seq().len() == 0,
            collect_urls ==> r.url_seq() == Some(Seq::<UrlLink>::empty()),
            !collect_urls ==> r.url_seq() is None,
            r.unresolved(r.relative_seq()).len() == 0,
    {
        let r = Site {
            assets: Vec::new(),
            pages: Vec::new(),
            rss_items: Vec::new(),
            relative_links: Vec::new(),
            url_links: if collect_urls {
                Some(Vec::new())
            } else {
                None
            },
        };
        assert(page_keys(r.pages@) =~= Seq::<Seq<char>>::empty());
        assert(asset_keys(r.assets@) =~= Seq::<Seq<char>>::empty());
        r
    }

    /// Whether `key` is already the destination of a staged page or asset.
    pub fn is_staged(&self, key: &String) -> (r: bool)
        ensures
            r == self.dest_keys().contains(key@),
    {
        let mut i: usize = 0;
        while i < self.pages.len()
            invariant
                i <= self.pages@.len(),
                forall|t: int| 0 <= t < i ==> self.pages@[t].to@ != key@,
            decreases self.pages@.len() - i,
        {
            if self.pages[i].to == *key {
                assert(self.dest_keys()[i as int] == key@);
                return true;
            }
            i = i + 1;
        }
        let mut j: usize = 0;
        while j < self.assets.len()
            invariant
                j <= self.assets@.len(),
                forall|t: int| 0 <= t < j ==> self.assets@[t].to@ != key@,
            decreases self.assets@.len() - j,
        {
            if self.assets[j].to == *key {
                assert(self.dest_keys()[self.pages@.len() + j] == key@);
                return true;
            }
            j = j + 1;
        }
        assert forall|t: int| 0 <= t < self.dest_keys().len() implies self.dest_keys()[t] != key@ by {
            if t >= self.pages@.len() {
                assert(self.dest_keys()[t] == self.assets@[t - self.pages@.len()].to@);
            }
        }
        false
    }

    /// Stages the file at source path `old_path` to be copied to the same relative path.
    pub fn process_static(&mut self, old_path: &str) -> (r: Result<(), BuildError>)
        ensures
            final(self).wf(),
            old(self).dest_keys().contains(canonical(old_path@)) ==> {
                &&& r matches Err(BuildError::DuplicatePath(k)) && k@ == canonical(old_path@)
                &&& *final(self) == *old(self)
            },
            !old(self).dest_keys().contains(canonical(old_path@)) ==> {
                &&& r is Ok
                &&& final(self).asset_seq().len() == old(self).asset_seq().len() + 1
                &&& final(self).asset_seq().drop_last() == old(self).asset_seq()
                &&& final(self).asset_seq().last().to@ == canonical(old_path@)
                &&& final(self).asset_seq().last().from@ == old_path@
                &&& final(self).page_seq() == old(self).page_seq()
                &&& final(self).feed_seq() == old(self).feed_seq()
                &&& final(self).relative_seq() == old(self).relative_seq()
                &&& final(self).url_seq() == old(self).url_seq()
            },
    {
        proof {
            use_type_invariant(&*self);
        }
        let key = canonical_exec(old_path);
        if self.is_staged(&key) {
            return Err(BuildError::DuplicatePath(key));
        }
        let ghost before = asset_keys(self.assets@);
        proof {
            assert forall|j: int| 0 <= j < self.assets@.len() implies self.assets@[j].to@ != key@ by {
                assert(self.dest_keys()[self.pages@.len() + j] == self.assets@[j].to@);
            }
            assert forall|i: int| 0 <= i < self.pages@.len() implies self.pages@[i].to@ != key@ by {
                assert(self.dest_keys()[i] == self.pages@[i].to@);
            }
        }
        let ghost old_assets = self.assets@;
        assert(forall|i: int, j: int|
            0 <= i < self.pages@.len() && 0 <= j < old_assets.len() ==> #[trigger] self.pages@[i].to@
                != #[trigger] old_assets[j].to@);
        let mut assets = Vec::new();
        std::mem::swap(&mut assets, &mut self.assets);
        assets.push(AssetFile { to: key, from: crate::text::string_of(&crate::text::chars_of(old_path)) });
        assert(assets@.drop_last() =~= old_assets);
        assert(asset_keys(assets@) =~= before.push(canonical(old_path@)));
        assert forall|i: int, j: int|
            0 <= i < self.pages@.len() && 0 <= j < assets@.len() implies #[trigger] self.pages@[i].to@
            != #[trigger] assets@[j].to@ by {
            if j < old_assets.len() {
                assert(assets@[j] == old_assets[j]);
            }
        }
        self.assets = assets;
        assert(self.assets@.drop_last() =~= old(self).assets@);
        Ok(())
    }
}

/// `after` is `before` with `page` compiled from the rendered body `body`: one more staged
/// page holding the complete markup, a feed item for a post, and the page's links recorded.
pub open spec fn compiled(before: Site, after: Site, page: Page, body: Seq<char>) -> bool {
    let key = canonical(page.path@);
    let html = page_html(page, key, body);
    let staged = after.page_seq().last();
    &&& after.page_seq().len() == before.page_seq().len() + 1
    &&& after.page_seq().drop_last() == before.page_seq()
    &&& staged.to@ == key
    &&& staged.from@ == canonical(page.source@)
    &&& staged.title@ == page.metadata.title@
    &&& staged.content@ == html
    &&& after.asset_seq() == before.asset_seq()
    &&& feed_views(after.feed_seq()) == if page.category == Category::Post && page.kind
        == PageKind::Article {
        feed_views(before.feed_seq()).push(item_of(page))
    } else {
        feed_views(before.feed_seq())
    }
    &&& relative_pairs(after.relative_seq()) == relative_pairs(before.relative_seq())
        + relative_of(href_targets(html), page.source@)
    &&& after.url_seq() matches Some(u) ==> before.url_seq() matches Some(o) && url_pairs(u)
        == url_pairs(o) + external_of(href_targets(html), page.source@)
    &&& after.url_seq() is None <==> before.url_seq() is None
}

impl Site {
    /// Compiles a document, whose body the renderer turned into `body`, into a staged
    /// page. Drafts are left out. Internal links of the page are recorded for validation,
    /// external ones for probing where that was asked for, and a post gets a feed item.
    pub fn process_md(&mut self, page: Page, body: String) -> (r: Result<(), BuildError>)
        ensures
            final(self).wf(),
            page.metadata.draft ==> r is Ok && *final(self) == *old(self),
            !page.metadata.draft && old(self).dest_keys().contains(canonical(page.path@)) ==> {
                &&& r matches Err(BuildError::DuplicatePath(k)) && k@ == canonical(page.path@)
                &&& *final(self) == *old(self)
            },
            !page.metadata.draft && !old(self).dest_keys().contains(canonical(page.path@)) ==> {
                &&& r is Ok
                &&& compiled(*old(self), *final(self), page, body@)
            },
    {
        proof {
            use_type_invariant(&*self);
        }
        if page.metadata.draft {
            return Ok(());
        }
        let key = canonical_exec(page.path.as_str());
        if self.is_staged(&key) {
            return Err(BuildError::DuplicatePath(key));
        }
        if page.is_post() {
            let item = new_item(&page);
            let ghost before = self.rss_items@;
            let mut items = Vec::new();
            std::mem::swap(&mut items, &mut self.rss_items);
            items.push(item);
            self.rss_items = items;
            assert(feed_views(self.rss_items@) =~= feed_views(before).push(item_of(page)));
        }
        let prefix = prefix_for(&key);
        let rendered = if page.category == Category::Post && page.kind == PageKind::Article {
            table_of_contents(body)
        } else {
            body
        };
        let mut html = format_header(page.metadata.title.as_str(), prefix.as_str());
        html.append(format_navbar(prefix.as_str(), page.category).as_str());
        html.append(format_metadata(&page.metadata).as_str());
        html.append(rendered.as_str());
        html.append(format_footer().as_str());
        let ghost spec_html = page_html(page, key@, body@);
        assert(html@ =~= spec_html);
        self.process_links(&html, &page.source);
        proof {
            use_type_invariant(&*self);
        }
        let ghost before_keys = page_keys(self.pages@);
        let ghost old_pages = self.pages@;
        proof {
            assert forall|j: int| 0 <= j < self.assets@.len() implies self.assets@[j].to@ != key@ by {
                assert(self.dest_keys()[self.pages@.len() + j] == self.assets@[j].to@);
            }
            assert forall|i: int| 0 <= i < self.pages@.len() implies self.pages@[i].to@ != key@ by {
                assert(self.dest_keys()[i] == self.pages@[i].to@);
            }
        }
        assert(forall|i: int, j: int|
            0 <= i < old_pages.len() && 0 <= j < self.assets@.len() ==> #[trigger] old_pages[i].to@
                != #[trigger] self.assets@[j].to@);
        let from = canonical_exec(page.source.as_str());
        let mut pages = Vec::new();
        std::mem::swap(&mut pages, &mut self.pages);
        pages.push(GeneratedHtml { to: key, from, title: page.metadata.title, content: html });
        assert(pages@.drop_last() =~= old_pages);
        assert(page_keys(pages@) =~= before_keys.push(canonical(page.path@)));
        assert forall|i: int, j: int|
            0 <= i < pages@.len() && 0 <= j < self.assets@.len() implies #[trigger] pages@[i].to@
            != #[trigger] self.assets@[j].to@ by {
            if i < old_pages.len() {
                assert(pages@[i] == old_pages[i]);
            }
        }
        self.pages = pages;
        assert(self.pages@.drop_last() =~= old(self).pages@);
        Ok(())
    }

    /// Records the `href=` targets of `source`, found in the page with source path `file`:
    /// internal ones for validation, external ones for probing where that was asked for.
    fn process_links(&mut self, source: &String, file: &String)
        ensures
            relative_pairs(final(self).relative_links@) == relative_pairs(old(self).relative_links@)
                + relative_of(href_targets(source@), file@),
            final(self).url_links matches Some(u) ==> old(self).url_links matches Some(o)
                && url_pairs(u@) == url_pairs(o@) + external_of(href_targets(source@), file@),
            final(self).url_links is None <==> old(self).url_links is None,
            final(self).pages == old(self).pages,
            final(self).assets == old(self).assets,
            final(self).rss_items == old(self).rss_items,
    {
        proof {
            use_type_invariant(&*self);
        }
        let targets = extract_links(source.as_str());
        let mut i: usize = 0;
        while i < targets.len()
            invariant
                i <= targets@.len(),
                views(targets@) == href_targets(source@),
                relative_pairs(self.relative_links@) == relative_pairs(old(self).relative_links@)
                    + relative_of(views(targets@).take(i as int), file@),
                self.url_links matches Some(u) ==> old(self).url_links matches Some(o) && url_pairs(
                    u@,
                ) == url_pairs(o@) + external_of(views(targets@).take(i as int), file@),
                self.url_links is None <==> old(self).url_links is None,
                self.pages == old(self).pages,
                self.assets == old(self).assets,
                self.rss_items == old(self).rss_items,
                self.wf(),
            decreases targets@.len() - i,
        {
            let t = &targets[i];
            let ghost prefix = views(targets@).take(i as int);
            assert(views(targets@).take(i + 1).drop_last() =~= prefix);
            assert(views(targets@).take(i + 1).last() == t@);
            let link = Link { link: t.clone(), file: file.clone() };
            if is_external_exec(t.as_str()) {
                let mut urls = None;
                std::mem::swap(&mut urls, &mut self.url_links);
                match urls {
                    Some(mut links) => {
                        let ghost before = links@;
                        links.push(UrlLink(link));
                        assert(url_pairs(links@) =~= url_pairs(before).push((t@, file@)));
                        self.url_links = Some(links);
                    },
                    None => {},
                }
            } else {
                let ghost before = self.relative_links@;
                let mut rels = Vec::new();
                std::mem::swap(&mut rels, &mut self.relative_links);
                rels.push(RelativeLink(link));
                self.relative_links = rels;
                assert(relative_pairs(self.relative_links@) =~= relative_pairs(before).push(
                    (t@, file@),
                ));
            }
            i = i + 1;
        }
        assert(views(targets@).take(i as int) =~= views(targets@));
    }
}

/// The first staged page, from index `k` on, whose destination or source is `key`.
pub open spec fn page_for(ps: Seq<GeneratedHtml>, key: Seq<char>, k: int) -> Option<int>
    decreases ps.len() - k,
{
    if k < 0 || k >= ps.len() {
        None
    } else if ps[k].to@ == key || ps[k].from@ == key {
        Some(k)
    } else {
        page_for(ps, key, k + 1)
    }
}

/// Some staged asset has destination `key`.
pub open spec fn asset_at(assets: Seq<AssetFile>, key: Seq<char>) -> bool {
    exists|j: int| 0 <= j < assets.len() && #[trigger] assets[j].to@ == key
}

pub open spec fn link_pairs(ls: Seq<Link>) -> Seq<(Seq<char>, Seq<char>)> {
    ls.map_values(|l: Link| link_pair(l))
}

impl Site {
    /// The path `key` names a staged page that holds `frag`, or a staged asset and the
    /// fragment is empty.
    pub open spec fn target_resolves(&self, key: Seq<char>, frag: Seq<char>) -> bool {
        match page_for(self.page_seq(), key, 0) {
            Some(i) => find(self.page_seq()[i].content@, frag) is Some,
            None => asset_at(self.asset_seq(), key) && frag.len() == 0,
        }
    }

    /// The link `target`, found in the page with source path `file`, resolves: a bare
    /// `#fragment` against that page's own content, anything else against the path it
    /// names from the page's directory, with the fragment after the first `#`.
    pub open spec fn link_resolves(&self, target: Seq<char>, file: Seq<char>) -> bool {
        match find_char_from(target, '#', 0) {
            None => self.target_resolves(canonical(join(parent(file), target)), Seq::empty()),
            Some(h) => if h == 0 {
                match page_for(self.page_seq(), canonical(file), 0) {
                    Some(i) => find(self.page_seq()[i].content@, target.skip(1)) is Some,
                    None => false,
                }
            } else {
                self.target_resolves(
                    canonical(join(parent(file), target.take(h))),
                    target.skip(h + 1),
                )
            },
        }
    }

    /// The links among `ls` that do not resolve, in order.
    pub open spec fn unresolved(&self, ls: Seq<RelativeLink>) -> Seq<(Seq<char>, Seq<char>)>
        decreases ls.len(),
    {
        if ls.len() == 0 {
            Seq::empty()
        } else if self.link_resolves(ls.last().0.link@, ls.last().0.file@) {
            self.unresolved(ls.drop_last())
        } else {
            self.unresolved(ls.drop_last()).push(link_pair(ls.last().0))
        }
    }

    fn page_index(&self, key: &String) -> (r: Option<usize>)
        ensures
            r matches Some(i) ==> page_for(self.pages@, key@, 0) == Some(i as int) && i
                < self.pages@.len(),
            r is None ==> page_for(self.pages@, key@, 0) is None,
    {
        let mut i: usize = 0;
        while i < self.pages.len()
            invariant
                i <= self.pages@.len(),
                page_for(self.pages@, key@, 0) == page_for(self.pages@, key@, i as int),
            decreases self.pages@.len() - i,
        {
            if self.pages[i].to == *key || self.pages[i].from == *key {
                return Some(i);
            }
            i = i + 1;
        }
        None
    }

    fn asset_exists(&self, key: &String) -> (r: bool)
        ensures
            r == asset_at(self.assets@, key@),
    {
        let mut j: usize = 0;
        while j < self.assets.len()
            invariant
                j <= self.assets@.len(),
                forall|t: int| 0 <= t < j ==> self.assets@[t].to@ != key@,
            decreases self.assets@.len() - j,
        {
            if self.assets[j].to == *key {
                return true;
            }
            j = j + 1;
        }
        false
    }

    fn target_resolves_exec(&self, key: &String, frag: &String) -> (r: bool)
        ensures
            r == self.target_resolves(key@, frag@),
    {
        match self.page_index(key) {
            Some(i) => contains(&self.pages[i].content, frag),
            None => self.asset_exists(key) && frag.as_str().is_empty(),
        }
    }

    /// Whether `link` resolves against the staged site.
    pub fn heading_link_exists(&self, link: &Link) -> (r: Result<(), ()>)
        ensures
            r is Ok <==> self.link_resolves(link.link@, link.file@),
    {
        let cs = chars_of(link.link.as_str());
        let ok = match find_char_exec(&cs, '#', 0) {
            None => {
                let key = canonical_exec(join_exec(parent_exec(link.file.as_str()).as_str(), link.link.as_str()).as_str());
                let empty = String::new();
                self.target_resolves_exec(&key, &empty)
            },
            Some(h) => {
                proof {
                    lemma_find_char_bounds(cs@, '#', 0);
                }
                let frag = string_of_range(&cs, h + 1, cs.len());
                assert(frag@ =~= link.link@.skip(h + 1));
                if h == 0 {
                    let key = canonical_exec(link.file.as_str());
                    match self.page_index(&key) {
                        Some(i) => contains(&self.pages[i].content, &frag),
                        None => false,
                    }
                } else {
                    let file_part = string_of_range(&cs, 0, h);
                    assert(file_part@ =~= link.link@.take(h as int));
                    let dir = parent_exec(link.file.as_str());
                    let key = canonical_exec(join_exec(dir.as_str(), file_part.as_str()).as_str());
                    self.target_resolves_exec(&key, &frag)
                }
            },
        };
        if ok {
            Ok(())
        } else {
            Err(())
        }
    }

    /// Checks every recorded internal link against the complete stage and reports all
    /// that do not resolve, in the order they were found.
    pub fn validate_internal_links(&self) -> (r: Result<(), BuildError>)
        ensures
            r is Ok <==> self.unresolved(self.relative_seq()).len() == 0,
            r matches Err(e) ==> e matches BuildError::InvalidLinks(InvalidLinks(v)) && link_pairs(
                v@,
            ) == self.unresolved(self.relative_seq()),
    {
        let mut invalid: Vec<Link> = Vec::new();
        let mut i: usize = 0;
        while i < self.relative_links.len()
            invariant
                i <= self.relative_links@.len(),
                link_pairs(invalid@) == self.unresolved(self.relative_links@.take(i as int)),
            decreases self.relative_links@.len() - i,
        {
            let item = &self.relative_links[i];
            assert(self.relative_links@.take(i + 1).drop_last() =~= self.relative_links@.take(
                i as int,
            ));
            if self.heading_link_exists(&item.0).is_err() {
                let ghost before = invalid@;
                invalid.push(item.0.copy());
                assert(link_pairs(invalid@) =~= link_pairs(before).push(link_pair(item.0)));
            }
            i = i + 1;
        }
        assert(self.relative_links@.take(i as int) =~= self.relative_links@);
        if invalid.len() == 0 {
            Ok(())
        } else {
            Err(BuildError::InvalidLinks(InvalidLinks(invalid)))
        }
    }
}

impl Site {
    /// The staged pages, in the order they were compiled.
    pub fn pages(&self) -> (r: &Vec<GeneratedHtml>)
        ensures
            r@ == self.page_seq(),
    {
        &self.pages
    }

    /// The staged assets, in the order they were found.
    pub fn assets(&self) -> (r: &Vec<AssetFile>)
        ensures
            r@ == self.asset_seq(),
    {
        &self.assets
    }

    /// The feed items, in compilation order.
    pub fn rss_items(&self) -> (r: &Vec<FeedItem>)
        ensures
            r@ == self.feed_seq(),
    {
        &self.rss_items
    }

    /// The internal links recorded so far.
    pub fn relative_links(&self) -> (r: &Vec<RelativeLink>)
        ensures
            r@ == self.relative_seq(),
    {
        &self.relative_links
    }

    /// Hands out the external links collected so far and stops collecting them.
    pub fn take_url_links(&mut self) -> (r: Option<Vec<UrlLink>>)
        ensures
            final(self).wf(),
            r matches Some(v) ==> old(self).url_seq() == Some(v@),
            r is None ==> old(self).url_seq() is None,
            final(self).url_seq() is None,
            final(self).page_seq() == old(self).page_seq(),
            final(self).asset_seq() == old(self).asset_seq(),
            final(self).feed_seq() == old(self).feed_seq(),
            final(self).relative_seq() == old(self).relative_seq(),
    {
        proof {
            use_type_invariant(&*self);
        }
        let mut out = None;
        std::mem::swap(&mut out, &mut self.url_links);
        out
    }
}

/// The external links of a build, collected from every page, waiting to be probed.
pub struct ExternalLinkValidator(pub Vec<UrlLink>);

/// The links whose probe failed, in order.
pub open spec fn failed_probes(ls: Seq<UrlLink>, reachable: Seq<bool>) -> Seq<(Seq<char>, Seq<char>)>
    decreases ls.len(),
{
    if ls.len() == 0 {
        Seq::empty()
    } else if reachable[ls.len() - 1] {
        failed_probes(ls.drop_last(), reachable)
    } else {
        failed_probes(ls.drop_last(), reachable).push(link_pair(ls.last().0))
    }
}

impl ExternalLinkValidator {
    /// Reports the links whose probe failed; `reachable[i]` is the outcome of the single
    /// probe of the `i`-th link.
    pub fn run_validator(self, reachable: Vec<bool>) -> (r: Result<(), BuildError>)
        requires
            reachable@.len() == self.0@.len(),
        ensures
            r is Ok <==> failed_probes(self.0@, reachable@).len() == 0,
            r matches Err(e) ==> e matches BuildError::InvalidLinks(InvalidLinks(v)) && link_pairs(
                v@,
            ) == failed_probes(self.0@, reachable@),
    {
        let mut errors: Vec<Link> = Vec::new();
        let mut i: usize = 0;
        while i < self.0.len()
            invariant
                i <= self.0@.len(),
                reachable@.len() == self.0@.len(),
                link_pairs(errors@) == failed_probes(self.0@.take(i as int), reachable@),
            decreases self.0@.len() - i,
        {
            assert(self.0@.take(i + 1).drop_last() =~= self.0@.take(i as int));
            if !reachable[i] {
                let ghost before = errors@;
                errors.push(self.0[i].0.copy());
                assert(link_pairs(errors@) =~= link_pairs(before).push(link_pair(self.0@[i as int].0)));
            }
            i = i + 1;
        }
        assert(self.0@.take(i as int) =~= self.0@);
        if errors.len() == 0 {
            Ok(())
        } else {
            Err(BuildError::InvalidLinks(InvalidLinks(errors)))
        }
    }
}

/// What the walker found at a path of the source tree.
#[derive(PartialEq, Eq, Structural, Clone, Copy, Debug)]
pub enum EntryKind {
    Directory,
    /// A markup document, compiled into a page.
    Document,
    /// Any other file, copied verbatim.
    Asset,
}

/// Directories are mirrored, files with the `md` extension are documents, and every
/// other file is an asset.
pub open spec fn entry_kind(path: Seq<char>, is_dir: bool) -> EntryKind {
    if is_dir {
        EntryKind::Directory
    } else if extension(path) == Some(seq!['m', 'd']) {
        EntryKind::Document
    } else {
        EntryKind::Asset
    }
}

pub fn classify_entry(path: &str, is_dir: bool) -> (r: EntryKind)
    ensures
        r == entry_kind(path@, is_dir),
{
    if is_dir {
        return EntryKind::Directory;
    }
    match extension_exec(path) {
        Some(e) => {
            let cs = chars_of(e.as_str());
            if cs.len() == 2 && cs[0] == 'm' && cs[1] == 'd' {
                assert(e@ =~= seq!['m', 'd']);
                EntryKind::Document
            } else {
                EntryKind::Asset
            }
        },
        None => EntryKind::Asset,
    }
}

/// Whether `frag` occurs in `content`.
fn contains(content: &String, frag: &String) -> (r: bool)
    ensures
        r == (find(content@, frag@) is Some),
{
    find_from_exec(&chars_of(content.as_str()), &chars_of(frag.as_str()), 0).is_some()
}

/// Round trip: an article in the posts directory whose front matter gives the title `t`,
/// an accepted date and no draft flag is no draft, and once compiled it is staged under
/// title `t` and adds a feed item titled `t`.
pub proof fn lemma_title_round_trip(
    before: Site,
    after: Site,
    page: Page,
    body: Seq<char>,
    t: Seq<char>,
    d: Seq<char>,
    rest: Seq<char>,
)
    requires
        forall|i: int| 0 <= i < t.len() ==> t[i] != '\n',
        forall|i: int| 0 <= i < d.len() ==> d[i] != '\n',
        rfc3339_accepts(d),
        !has_draft_key(rest),
        page.content@ == front_matter(t, d) + rest,
        page_metadata(page.source@, page.content@) == Ok::<MetadataView, HeaderError>(page.metadata@),
        page.kind == kind_of(page.source@),
        page.category == category_of(page.source@),
        page.category == Category::Post,
        page.kind == PageKind::Article,
        compiled(before, after, page, body),
    ensures
        !page.metadata.draft,
        after.page_seq().last().title@ == t,
        feed_views(after.feed_seq()).last().title == t,
{
    lemma_header_round_trip(t, d, rest);
}

/// What a staged page writes: its destination, source, title and content.
pub open spec fn page_views(ps: Seq<GeneratedHtml>) -> Seq<(Seq<char>, Seq<char>, Seq<char>, Seq<char>)> {
    ps.map_values(|p: GeneratedHtml| (p.to@, p.from@, p.title@, p.content@))
}

/// Compiling the same document onto the same stage twice gives the same staged pages,
/// assets, feed and recorded links: the output depends on the inputs alone.
pub proof fn lemma_compile_deterministic(
    before: Site,
    first: Site,
    second: Site,
    page: Page,
    body: Seq<char>,
)
    requires
        compiled(before, first, page, body),
        compiled(before, second, page, body),
    ensures
        page_views(first.page_seq()) == page_views(second.page_seq()),
        first.asset_seq() == second.asset_seq(),
        feed_views(first.feed_seq()) == feed_views(second.feed_seq()),
        relative_pairs(first.relative_seq()) == relative_pairs(second.relative_seq()),
        first.url_seq() is Some ==> url_pairs(first.url_seq()->0) == url_pairs(second.url_seq()->0),
{
    let f = first.page_seq();
    let g = second.page_seq();
    assert(f.len() == g.len());
    assert forall|i: int| 0 <= i < f.len() implies page_views(f)[i] == page_views(g)[i] by {
        if i < f.len() - 1 {
            assert(f[i] == f.drop_last()[i]);
            assert(g[i] == g.drop_last()[i]);
        }
    }
    assert(page_views(f) =~= page_views(g));
}

/// A bare `#fragment` link resolves exactly when the page it was found in is staged and
/// its own content holds the fragment; no other page is consulted.
pub proof fn lemma_fragment_link_own_page(site: Site, target: Seq<char>, file: Seq<char>)
    requires
        target.len() > 0,
        target[0] == '#',
    ensures
        site.link_resolves(target, file) <==> (page_for(site.page_seq(), canonical(file), 0) matches Some(i)
            && find(site.page_seq()[i].content@, target.skip(1)) is Some),
{
    crate::text::lemma_find_char_at(target, '#', 0, 0);
}

impl Default for Site {
    /// An empty stage that does not collect external links.
    fn default() -> (r: Site)
        ensures
            r.wf(),
            r.page_seq().len() == 0,
            r.asset_seq().len() == 0,
            r.feed_seq().len() == 0,
            r.relative_seq().len() == 0,
            r.url_seq() is None,
    {
        Site::new(false)
    }
}

/// A link whose probe failed is reported, and one whose every probe succeeded is not.
pub proof fn lemma_probe_report(ls: Seq<UrlLink>, reachable: Seq<bool>, i: int)
    requires
        reachable.len() == ls.len(),
        0 <= i < ls.len(),
    ensures
        !reachable[i] ==> failed_probes(ls, reachable).contains(link_pair(ls[i].0)),
        reachable[i] && (forall|j: int|
            0 <= j < ls.len() && link_pair(#[trigger] ls[j].0) == link_pair(ls[i].0) ==> reachable[j])
            ==> !failed_probes(ls, reachable).contains(link_pair(ls[i].0)),
{
    lemma_probe_report_prefix(ls, reachable, i);
}

proof fn lemma_probe_report_prefix(ls: Seq<UrlLink>, reachable: Seq<bool>, i: int)
    requires
        reachable.len() >= ls.len(),
        0 <= i < ls.len(),
    ensures
        !reachable[i] ==> failed_probes(ls, reachable).contains(link_pair(ls[i].0)),
        reachable[i] && (forall|j: int|
            0 <= j < ls.len() && link_pair(#[trigger] ls[j].0) == link_pair(ls[i].0) ==> reachable[j])
            ==> !failed_probes(ls, reachable).contains(link_pair(ls[i].0)),
    decreases ls.len(),
{
    let n = ls.len() - 1;
    let prev = failed_probes(ls.drop_last(), reachable);
    if i < n {
        lemma_probe_report_prefix(ls.drop_last(), reachable, i);
        assert(ls.drop_last()[i] == ls[i]);
        if !reachable[i] {
            assert(prev.contains(link_pair(ls[i].0)));
            if !reachable[n] {
                assert(failed_probes(ls, reachable) == prev.push(link_pair(ls.last().0)));
                let k = choose|k: int| 0 <= k < prev.len() && prev[k] == link_pair(ls[i].0);
                assert(failed_probes(ls, reachable)[k] == link_pair(ls[i].0));
            }
        } else if forall|j: int|
            0 <= j < ls.len() && link_pair(#[trigger] ls[j].0) == link_pair(ls[i].0) ==> reachable[j] {
            assert forall|j: int|
                0 <= j < ls.drop_last().len() && link_pair(#[trigger] ls.drop_last()[j].0) == link_pair(
                    ls.drop_last()[i].0,
                ) implies reachable[j] by {
                assert(ls.drop_last()[j] == ls[j]);
            }
            if !reachable[n] {
                assert(link_pair(ls[n].0) != link_pair(ls[i].0));
                assert(failed_probes(ls, reachable) == prev.push(link_pair(ls.last().0)));
                assert(!prev.contains(link_pair(ls[i].0)));
                assert(!failed_probes(ls, reachable).contains(link_pair(ls[i].0))) by {
                    if failed_probes(ls, reachable).contains(link_pair(ls[i].0)) {
                        let k = choose|k: int|
                            0 <= k < failed_probes(ls, reachable).len() && failed_probes(
                                ls,
                                reachable,
                            )[k] == link_pair(ls[i].0);
                        if k < prev.len() {
                            assert(prev[k] == link_pair(ls[i].0));
                        }
                    }
                }
            }
        }
    } else {
        if !reachable[i] {
            assert(failed_probes(ls, reachable) == prev.push(link_pair(ls.last().0)));
            assert(failed_probes(ls, reachable)[prev.len() as int] == link_pair(ls[i].0));
        } else if forall|j: int|
            0 <= j < ls.len() && link_pair(#[trigger] ls[j].0) == link_pair(ls[i].0) ==> reachable[j] {
            assert(failed_probes(ls, reachable) == prev);
            lemma_no_failed_if_reachable(ls.drop_last(), reachable, link_pair(ls[i].0));
        }
    }
}

/// A link none of whose probes failed is not among the failures.
proof fn lemma_no_failed_if_reachable(ls: Seq<UrlLink>, reachable: Seq<bool>, p: (Seq<char>, Seq<char>))
    requires
        reachable.len() >= ls.len(),
        forall|j: int| 0 <= j < ls.len() && link_pair(#[trigger] ls[j].0) == p ==> reachable[j],
    ensures
        !failed_probes(ls, reachable).contains(p),
    decreases ls.len(),
{
    if ls.len() > 0 {
        let prev = failed_probes(ls.drop_last(), reachable);
        assert forall|j: int| 0 <= j < ls.drop_last().len() && link_pair(#[trigger] ls.drop_last()[j].0) == p implies reachable[j] by {
            assert(ls.drop_last()[j] == ls[j]);
        }
        lemma_no_failed_if_reachable(ls.drop_last(), reachable, p);
        if !reachable[ls.len() - 1] {
            assert(link_pair(ls[ls.len() - 1].0) != p);
            if failed_probes(ls, reachable).contains(p) {
                let k = choose|k: int| 0 <= k < failed_probes(ls, reachable).len() && failed_probes(ls, reachable)[k] == p;
                if k < prev.len() {
                    assert(prev[k] == p);
                }
            }
        }
    }
}

/// Staged destination paths are pairwise distinct, across pages and assets.
pub proof fn lemma_unique_destinations(site: &Site)
    requires
        site.wf(),
    ensures
        site.dest_keys().no_duplicates(),
{
    let pk = page_keys(site.page_seq());
    let ak = asset_keys(site.asset_seq());
    assert forall|i: int, j: int|
        0 <= i < site.dest_keys().len() && 0 <= j < site.dest_keys().len() && i != j implies site.dest_keys()[i]
        != site.dest_keys()[j] by {
        if i < pk.len() && j >= pk.len() {
            assert(site.page_seq()[i].to@ != site.asset_seq()[j - pk.len()].to@);
        } else if i >= pk.len() && j < pk.len() {
            assert(site.page_seq()[j].to@ != site.asset_seq()[i - pk.len()].to@);
        } else if i < pk.len() {
            assert(pk[i] != pk[j]);
        } else {
            assert(ak[i - pk.len()] != ak[j - pk.len()]);
        }
    }
}

} // verus!
