//! Path algebra on `/`-separated relative paths.
use vstd::prelude::*;
use crate::text::{
    chars_of, find_char_exec, find_char_from, lemma_find_char_bounds, push_range, range_vec,
    skip_vec, string_of,
};

verus! {

/// The index of the last `c` in `s`.
pub open spec fn rfind_char(s: Seq<char>, c: char) -> Option<int>
    decreases s.len(),
{
    if s.len() == 0 {
        None
    } else if s.last() == c {
        Some(s.len() - 1)
    } else {
        rfind_char(s.drop_last(), c)
    }
}

/// The last component of `p`.
pub open spec fn file_name(p: Seq<char>) -> Seq<char> {
    match rfind_char(p, '/') {
        Some(i) => p.skip(i + 1),
        None => p,
    }
}

/// `p` without its last component (empty at the root).
pub open spec fn parent(p: Seq<char>) -> Seq<char> {
    match rfind_char(p, '/') {
        Some(i) => p.take(i),
        None => Seq::empty(),
    }
}

/// The index of the last `c` in `s`.
pub fn rfind_char_exec(s: &[char], c: char) -> (r: Option<usize>)
    ensures
        r matches Some(i) ==> rfind_char(s@, c) == Some(i as int) && i < s.len(),
        r is None ==> rfind_char(s@, c) is None,
{
    let mut n: usize = s.len();
    assert(s@.take(n as int) =~= s@);
    while n > 0
        invariant
            n <= s@.len(),
            rfind_char(s@, c) == rfind_char(s@.take(n as int), c),
        decreases n,
    {
        assert(s@.take(n as int).drop_last() =~= s@.take(n - 1));
        if s[n - 1] == c {
            return Some(n - 1);
        }
        n = n - 1;
    }
    None
}

/// Where the last component of `p` starts.
pub fn file_name_start(p: &[char]) -> (r: usize)
    ensures
        r <= p@.len(),
        p@.skip(r as int) == file_name(p@),
        r == 0 ==> parent(p@).len() == 0,
        r > 0 ==> parent(p@) == p@.take(r - 1),
{
    match rfind_char_exec(p, '/') {
        Some(i) => i + 1,
        None => {
            assert(p@.skip(0) =~= p@);
            0
        },
    }
}

/// The `/`-separated components of `p`, empty ones included.
pub open spec fn split_segments(p: Seq<char>) -> Seq<Seq<char>>
    decreases p.len(),
{
    match find_char_from(p, '/', 0) {
        Some(i) => if 0 <= i < p.len() {
            seq![p.take(i)] + split_segments(p.skip(i + 1))
        } else {
            seq![p]
        },
        None => seq![p],
    }
}

/// One component applied to a stack of resolved components: empty and `.` components
/// vanish, `..` removes the last named component (or stays when none is left).
pub open spec fn norm_step(stack: Seq<Seq<char>>, seg: Seq<char>) -> Seq<Seq<char>> {
    if seg.len() == 0 || seg == seq!['.'] {
        stack
    } else if seg == seq!['.', '.'] {
        if stack.len() > 0 && stack.last() != seq!['.', '.'] {
            stack.drop_last()
        } else {
            stack.push(seg)
        }
    } else {
        stack.push(seg)
    }
}

pub open spec fn normalize(stack: Seq<Seq<char>>, segs: Seq<Seq<char>>) -> Seq<Seq<char>>
    decreases segs.len(),
{
    if segs.len() == 0 {
        stack
    } else {
        normalize(norm_step(stack, segs[0]), segs.drop_first())
    }
}

/// The components joined with `/`.
pub open spec fn join_segments(segs: Seq<Seq<char>>) -> Seq<char>
    decreases segs.len(),
{
    if segs.len() == 0 {
        Seq::empty()
    } else if segs.len() == 1 {
        segs[0]
    } else {
        join_segments(segs.drop_last()) + seq!['/'] + segs.last()
    }
}

/// The canonical form of a relative path: its components resolved and joined with `/`.
pub open spec fn canonical(p: Seq<char>) -> Seq<char> {
    join_segments(normalize(Seq::empty(), split_segments(p)))
}

/// `rel` taken from directory `dir`; a path starting with `/` stands for itself.
pub open spec fn join(dir: Seq<char>, rel: Seq<char>) -> Seq<char> {
    if dir.len() == 0 || (rel.len() > 0 && rel[0] == '/') {
        rel
    } else {
        dir + seq!['/'] + rel
    }
}

pub open spec fn seg_views(v: Seq<Vec<char>>) -> Seq<Seq<char>> {
    v.map_values(|x: Vec<char>| x@)
}

fn split_segments_exec(p: &[char]) -> (r: Vec<Vec<char>>)
    ensures
        seg_views(r@) == split_segments(p@),
{
    let mut rest = range_vec(p, 0, p.len());
    let mut out: Vec<Vec<char>> = Vec::new();
    assert(rest@ =~= p@);
    assert(seg_views(out@) + split_segments(rest@) =~= split_segments(p@));
    loop
        invariant
            seg_views(out@) + split_segments(rest@) == split_segments(p@),
        decreases rest@.len(),
    {
        match find_char_exec(&rest, '/', 0) {
            Some(i) => {
                proof {
                    lemma_find_char_bounds(rest@, '/', 0);
                }
                let seg = range_vec(&rest, 0, i);
                let next = skip_vec(&rest, i + 1);
                let ghost old_out = out@;
                out.push(seg);
                assert(seg_views(out@) =~= seg_views(old_out).push(rest@.take(i as int)));
                assert(seg_views(out@) + split_segments(next@) =~= seg_views(old_out) + (seq![
                    rest@.take(i as int),
                ] + split_segments(next@)));
                rest = next;
            },
            None => {
                let ghost old_out = out@;
                out.push(rest);
                assert(seg_views(out@) =~= split_segments(p@));
                return out;
            },
        }
    }
}

fn is_dot(s: &[char]) -> (r: bool)
    ensures
        r == (s@ == seq!['.']),
{
    if s.len() == 1 && s[0] == '.' {
        assert(s@ =~= seq!['.']);
        true
    } else {
        false
    }
}

fn is_dot_dot(s: &[char]) -> (r: bool)
    ensures
        r == (s@ == seq!['.', '.']),
{
    if s.len() == 2 && s[0] == '.' && s[1] == '.' {
        assert(s@ =~= seq!['.', '.']);
        true
    } else {
        false
    }
}

fn join_segments_exec(segs: &Vec<Vec<char>>) -> (r: String)
    ensures
        r@ == join_segments(seg_views(segs@)),
{
    let mut r = String::new();
    let mut i: usize = 0;
    while i < segs.len()
        invariant
            i <= segs@.len(),
            r@ == join_segments(seg_views(segs@).take(i as int)),
        decreases segs@.len() - i,
    {
        let ghost before = r@;
        if i > 0 {
            crate::text::push_char(&mut r, '/');
        }
        let seg = &segs[i];
        push_range(&mut r, seg, 0, seg.len());
        assert(seg_views(segs@).take(i + 1).drop_last() =~= seg_views(segs@).take(i as int));
        assert(seg@.subrange(0, seg@.len() as int) =~= seg@);
        if i == 0 {
            assert(r@ =~= join_segments(seg_views(segs@).take(1)));
        } else {
            assert(r@ =~= before + seq!['/'] + seg@);
        }
        i = i + 1;
    }
    assert(seg_views(segs@).take(i as int) =~= seg_views(segs@));
    r
}

/// The canonical form of `p`.
pub fn canonical_exec(p: &str) -> (r: String)
    ensures
        r@ == canonical(p@),
{
    let segs = split_segments_exec(&chars_of(p));
    let mut stack: Vec<Vec<char>> = Vec::new();
    let mut i: usize = 0;
    assert(seg_views(segs@).skip(0) =~= seg_views(segs@));
    assert(seg_views(stack@) =~= Seq::<Seq<char>>::empty());
    while i < segs.len()
        invariant
            i <= segs@.len(),
            normalize(seg_views(stack@), seg_views(segs@).skip(i as int)) == normalize(
                Seq::empty(),
                seg_views(segs@),
            ),
        decreases segs@.len() - i,
    {
        let seg = &segs[i];
        let ghost before = seg_views(stack@);
        assert(seg_views(segs@).skip(i as int).drop_first() =~= seg_views(segs@).skip(i + 1));
        if seg.len() == 0 || is_dot(seg) {
        } else if is_dot_dot(seg) {
            let n = stack.len();
            if n > 0 && !is_dot_dot(&stack[n - 1]) {
                stack.pop();
                assert(seg_views(stack@) =~= before.drop_last());
            } else {
                let copy = range_vec(seg, 0, seg.len());
                assert(copy@ =~= seg@);
                stack.push(copy);
                assert(seg_views(stack@) =~= before.push(seg@));
            }
        } else {
            let copy = range_vec(seg, 0, seg.len());
            assert(copy@ =~= seg@);
            stack.push(copy);
            assert(seg_views(stack@) =~= before.push(seg@));
        }
        i = i + 1;
    }
    assert(seg_views(segs@).skip(i as int) =~= Seq::<Seq<char>>::empty());
    join_segments_exec(&stack)
}

/// The extension of the last component: what follows its last `.`, unless that dot
/// opens the name.
pub open spec fn extension(p: Seq<char>) -> Option<Seq<char>> {
    let f = file_name(p);
    match rfind_char(f, '.') {
        Some(k) => if k > 0 {
            Some(f.skip(k + 1))
        } else {
            None
        },
        None => None,
    }
}

/// `p` with the extension of its last component replaced by, or extended with, `html`.
pub open spec fn with_html_extension(p: Seq<char>) -> Seq<char> {
    let f = file_name(p);
    let base = p.len() - f.len();
    if f.len() == 0 {
        p
    } else {
        match rfind_char(f, '.') {
            Some(k) => if k > 0 {
                p.take(base + k) + seq!['.', 'h', 't', 'm', 'l']
            } else {
                p + seq!['.', 'h', 't', 'm', 'l']
            },
            None => p + seq!['.', 'h', 't', 'm', 'l'],
        }
    }
}

/// Where the dot of the extension of `p` stands, if `p` has an extension.
fn extension_dot(cs: &[char]) -> (r: Option<usize>)
    ensures
        r matches Some(d) ==> {
            let f = file_name(cs@);
            let base = cs@.len() - f.len();
            &&& rfind_char(f, '.') matches Some(k) && k > 0 && d == base + k
            &&& d < cs.len()
            &&& 0 <= base
            &&& f == cs@.skip(base)
        },
        r is None ==> !(rfind_char(file_name(cs@), '.') matches Some(k) && k > 0),
{
    let start = file_name_start(cs);
    let f = skip_vec(cs, start);
    let n = cs.len();
    assert(f@.len() == n - start);
    match rfind_char_exec(&f, '.') {
        Some(k) => if k > 0 {
            Some(start + k)
        } else {
            None
        },
        None => None,
    }
}

/// The extension of `p`.
pub fn extension_exec(p: &str) -> (r: Option<String>)
    ensures
        r matches Some(e) ==> extension(p@) == Some(e@),
        r is None ==> extension(p@) is None,
{
    let cs = chars_of(p);
    match extension_dot(&cs) {
        Some(d) => {
            let e = crate::text::string_of_range(&cs, d + 1, cs.len());
            assert(e@ =~= cs@.skip(d + 1));
            Some(e)
        },
        None => None,
    }
}

/// The destination of the document at `p`: the same path with the `html` extension.
pub fn html_path(p: &str) -> (r: String)
    ensures
        r@ == with_html_extension(p@),
{
    let cs = chars_of(p);
    let start = file_name_start(&cs);
    if start == cs.len() {
        return string_of(&cs);
    }
    let mut r = match extension_dot(&cs) {
        Some(d) => crate::text::string_of_range(&cs, 0, d),
        None => string_of(&cs),
    };
    r.append(".html");
    proof {
        reveal_strlit(".html");
    }
    r
}

/// `rel` taken from directory `dir`.
pub fn join_exec(dir: &str, rel: &str) -> (r: String)
    ensures
        r@ == join(dir@, rel@),
{
    let d = chars_of(dir);
    let l = chars_of(rel);
    if d.len() == 0 || (l.len() > 0 && l[0] == '/') {
        string_of(&l)
    } else {
        let mut r = string_of(&d);
        crate::text::push_char(&mut r, '/');
        push_range(&mut r, &l, 0, l.len());
        assert(l@.subrange(0, l@.len() as int) =~= l@);
        r
    }
}

/// The directory part of `p`.
pub fn parent_exec(p: &str) -> (r: String)
    ensures
        r@ == parent(p@),
{
    let cs = chars_of(p);
    let start = file_name_start(&cs);
    if start == 0 {
        String::new()
    } else {
        crate::text::string_of_range(&cs, 0, start - 1)
    }
}

} // verus!
