//! Hyperlinks found in compiled pages.
use vstd::prelude::*;
use crate::text::{
    chars_of, find, find_char_exec, find_char_from, find_from_exec, lemma_find_bounds,
    lemma_find_char_bounds, skip_vec, string_of_range,
};

verus! {

/// A hyperlink target and the source path of the page it was found in.
pub struct Link {
    pub link: String,
    pub file: String,
}

/// A link to a path inside the site, with an optional `#` fragment.
pub struct RelativeLink(pub Link);

/// A link to an absolute URL.
pub struct UrlLink(pub Link);

impl Link {
    /// A copy of this link.
    pub fn copy(&self) -> (r: Link)
        ensures
            r == *self,
    {
        Link { link: self.link.clone(), file: self.file.clone() }
    }
}

/// The attribute that introduces a link target.
pub open spec fn href_marker() -> Seq<char> {
    seq!['h', 'r', 'e', 'f', '=']
}

/// The targets of `href=` attributes in `s`, left to right: each is the text between the
/// character after `href=` and its next occurrence. The scan resumes right after that
/// opening character.
pub open spec fn href_targets(s: Seq<char>) -> Seq<Seq<char>>
    decreases s.len(),
{
    match find(s, href_marker()) {
        Some(i) => if 0 <= i && i + 5 < s.len() {
            let q = s[i + 5];
            let body = s.skip(i + 6);
            match find_char_from(body, q, 0) {
                Some(e) => seq![body.take(e)] + href_targets(body),
                None => href_targets(body),
            }
        } else {
            Seq::empty()
        },
        None => Seq::empty(),
    }
}

/// A target that names a scheme is an external link.
pub open spec fn is_external(l: Seq<char>) -> bool {
    find(l, "http"@) is Some
}

/// The views of a vector of strings.
pub open spec fn views(v: Seq<String>) -> Seq<Seq<char>> {
    v.map_values(|x: String| x@)
}

/// The `href=` targets of `source`, in order of appearance.
pub fn extract_links(source: &str) -> (r: Vec<String>)
    ensures
        views(r@) == href_targets(source@),
{
    let marker = vec!['h', 'r', 'e', 'f', '='];
    let mut rest = chars_of(source);
    let mut out: Vec<String> = Vec::new();
    assert(views(out@) + href_targets(rest@) =~= href_targets(source@));
    loop
        invariant
            marker@ == href_marker(),
            views(out@) + href_targets(rest@) == href_targets(source@),
        decreases rest@.len(),
    {
        let i = match find_from_exec(&rest, &marker, 0) {
            Some(i) => i,
            None => {
                assert(views(out@) =~= href_targets(source@));
                return out;
            },
        };
        proof {
            lemma_find_bounds(rest@, marker@, 0);
        }
        if i + 5 >= rest.len() {
            assert(views(out@) =~= href_targets(source@));
            return out;
        }
        let q = rest[i + 5];
        let body = skip_vec(&rest, i + 6);
        match find_char_exec(&body, q, 0) {
            Some(e) => {
                proof {
                    lemma_find_char_bounds(body@, q, 0);
                }
                let link = string_of_range(&body, 0, e);
                let ghost old_out = out@;
                out.push(link);
                assert(views(out@) =~= views(old_out).push(body@.take(e as int)));
                assert(views(out@) + href_targets(body@) =~= views(old_out) + (seq![
                    body@.take(e as int),
                ] + href_targets(body@)));
            },
            None => {},
        }
        rest = body;
    }
}

/// Whether the target names a scheme.
pub fn is_external_exec(l: &str) -> (r: bool)
    ensures
        r == is_external(l@),
{
    find_from_exec(&chars_of(l), &chars_of("http"), 0).is_some()
}

} // verus!
