//! Checks over a written site: link targets of each output page and its `<h1` count.
use vstd::prelude::*;
use crate::link::{is_external, is_external_exec, views};
use crate::text::{
    chars_of, find, find_char_exec, find_char_from, find_from_exec, lemma_find_bounds,
    lemma_find_char_bounds, skip_vec, string_of_range,
};

verus! {

/// The attribute that opens a double-quoted link target.
pub open spec fn quoted_href() -> Seq<char> {
    seq!['h', 'r', 'e', 'f', '=', '"']
}

/// The double-quoted `href` targets of `s`, left to right; the scan resumes right after
/// each opening quote, and a target without a closing quote is skipped.
pub open spec fn quoted_targets(s: Seq<char>) -> Seq<Seq<char>>
    decreases s.len(),
{
    match find(s, quoted_href()) {
        Some(i) => if 0 <= i && i + 6 <= s.len() {
            let rest = s.skip(i + 6);
            match find_char_from(rest, '"', 0) {
                Some(e) => seq![rest.take(e)] + quoted_targets(rest),
                None => quoted_targets(rest),
            }
        } else {
            Seq::empty()
        },
        None => Seq::empty(),
    }
}

/// The targets among `ts` that are external exactly when `external` holds.
pub open spec fn select(ts: Seq<Seq<char>>, external: bool) -> Seq<Seq<char>>
    decreases ts.len(),
{
    if ts.len() == 0 {
        Seq::empty()
    } else if is_external(ts.last()) == external {
        select(ts.drop_last(), external).push(ts.last())
    } else {
        select(ts.drop_last(), external)
    }
}

/// The double-quoted `href` targets of `source`, in order.
pub fn quoted_links(source: &str) -> (r: Vec<String>)
    ensures
        views(r@) == quoted_targets(source@),
{
    let marker = vec!['h', 'r', 'e', 'f', '=', '"'];
    let mut rest = chars_of(source);
    let mut out: Vec<String> = Vec::new();
    assert(views(out@) + quoted_targets(rest@) =~= quoted_targets(source@));
    loop
        invariant
            marker@ == quoted_href(),
            views(out@) + quoted_targets(rest@) == quoted_targets(source@),
        decreases rest@.len(),
    {
        let i = match find_from_exec(&rest, &marker, 0) {
            Some(i) => i,
            None => {
                assert(views(out@) =~= quoted_targets(source@));
                return out;
            },
        };
        proof {
            lemma_find_bounds(rest@, marker@, 0);
        }
        let body = skip_vec(&rest, i + 6);
        match find_char_exec(&body, '"', 0) {
            Some(e) => {
                proof {
                    lemma_find_char_bounds(body@, '"', 0);
                }
                let link = string_of_range(&body, 0, e);
                let ghost old_out = out@;
                out.push(link);
                assert(views(out@) =~= views(old_out).push(body@.take(e as int)));
                assert(views(out@) + quoted_targets(body@) =~= views(old_out) + (seq![
                    body@.take(e as int),
                ] + quoted_targets(body@)));
            },
            None => {},
        }
        rest = body;
    }
}

/// The link targets of an output page, handed out last found first.
pub struct LinkIterator {
    /// Pending targets; `next` hands out the last one.
    pub links: Vec<String>,
}

impl LinkIterator {
    fn new_selected(s: &str, external: bool) -> (r: Self)
        ensures
            views(r.links@) == select(quoted_targets(s@), external),
    {
        let all = quoted_links(s);
        let mut links: Vec<String> = Vec::new();
        let mut i: usize = 0;
        while i < all.len()
            invariant
                i <= all@.len(),
                views(all@) == quoted_targets(s@),
                views(links@) == select(views(all@).take(i as int), external),
            decreases all@.len() - i,
        {
            assert(views(all@).take(i + 1).drop_last() =~= views(all@).take(i as int));
            let t = &all[i];
            if is_external_exec(t.as_str()) == external {
                let ghost before = links@;
                links.push(t.clone());
                assert(views(links@) =~= views(before).push(t@));
            }
            i = i + 1;
        }
        assert(views(all@).take(i as int) =~= views(all@));
        LinkIterator { links }
    }

    /// The internal targets of `s`.
    pub fn new_relative(s: &str) -> (r: Self)
        ensures
            views(r.links@) == select(quoted_targets(s@), false),
    {
        Self::new_selected(s, false)
    }

    /// The external targets of `s`.
    pub fn new_url(s: &str) -> (r: Self)
        ensures
            views(r.links@) == select(quoted_targets(s@), true),
    {
        Self::new_selected(s, true)
    }

    /// The last pending target, taken out.
    pub fn next(&mut self) -> (r: Option<String>)
        ensures
            old(self).links@.len() == 0 ==> r is None && final(self).links@ == old(self).links@,
            old(self).links@.len() > 0 ==> r == Some(old(self).links@.last())
                && final(self).links@ == old(self).links@.drop_last(),
    {
        self.links.pop()
    }
}

/// The opening of a first-level heading.
pub open spec fn h1_marker() -> Seq<char> {
    seq!['<', 'h', '1']
}

/// How many times `<h1` occurs in `s`.
pub open spec fn h1_count_of(s: Seq<char>) -> nat
    decreases s.len(),
{
    match find(s, h1_marker()) {
        Some(i) => if 0 <= i && i + 3 <= s.len() {
            1 + h1_count_of(s.skip(i + 3))
        } else {
            0
        },
        None => 0,
    }
}

/// How many first-level headings `content` opens; a page should have at most one.
pub fn h1_count(content: &str) -> (r: usize)
    ensures
        r == h1_count_of(content@),
{
    let marker = vec!['<', 'h', '1'];
    let mut rest = chars_of(content);
    let total: usize = rest.len();
    let mut n: usize = 0;
    loop
        invariant
            marker@ == h1_marker(),
            n + h1_count_of(rest@) == h1_count_of(content@),
            n + rest@.len() <= total,
        decreases rest@.len(),
    {
        let i = match find_from_exec(&rest, &marker, 0) {
            Some(i) => i,
            None => return n,
        };
        proof {
            lemma_find_bounds(rest@, marker@, 0);
        }
        let next = skip_vec(&rest, i + 3);
        n = n + 1;
        rest = next;
    }
}

} // verus!
