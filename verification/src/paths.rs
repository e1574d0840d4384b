//! Lexical paths: components, joining and the cleaned form of a path.
use vstd::prelude::*;
use crate::text::{chars_eq, chars_of, split_chars, split_on, string_of, views};

verus! {

/// The components that follow the first one: empty and `.` segments are skipped.
pub open spec fn body_components(segs: Seq<Seq<char>>) -> Seq<Seq<char>>
    decreases segs.len(),
{
    if segs.len() == 0 {
        Seq::empty()
    } else {
        let prev = body_components(segs.drop_last());
        let x = segs.last();
        if x.len() == 0 || x == seq!['.'] {
            prev
        } else {
            prev.push(x)
        }
    }
}

/// The components of a `/`-separated path, as `std::path::Path::components`
/// yields them on Unix. The root is written `/`, a leading current-directory
/// marker `.`, a parent reference `..`; every other component is its name.
pub open spec fn path_components(s: Seq<char>) -> Seq<Seq<char>> {
    let segs = split_on(s, '/');
    if s.len() > 0 && s[0] == '/' {
        seq![seq!['/']] + body_components(segs.skip(1))
    } else if segs[0] == seq!['.'] {
        seq![seq!['.']] + body_components(segs.skip(1))
    } else {
        body_components(segs)
    }
}

/// `b` is a component-wise prefix of `a`.
pub open spec fn components_start_with(a: Seq<Seq<char>>, b: Seq<Seq<char>>) -> bool {
    b.len() <= a.len() && a.take(b.len() as int) == b
}

/// `rel` appended to `base` with one separator (`PathBuf::push` for a relative `rel`).
pub open spec fn join_path(base: Seq<char>, rel: Seq<char>) -> Seq<char> {
    if base.len() == 0 || base.last() == '/' {
        base + rel
    } else {
        base + seq!['/'] + rel
    }
}

/// The components left by lexical cleaning, taken in order: `.` is
/// dropped; `..` drops the name before it, is dropped right after the root,
/// and is kept at the start or after another `..`; anything else is kept.
pub open spec fn clean_components(cs: Seq<Seq<char>>) -> Seq<Seq<char>>
    decreases cs.len(),
{
    if cs.len() == 0 {
        Seq::empty()
    } else {
        let out = clean_components(cs.drop_last());
        let c = cs.last();
        if c == seq!['.'] {
            out
        } else if c == seq!['.', '.'] {
            if out.len() == 0 || out.last() == seq!['.', '.'] || out.last() == seq!['.'] {
                out.push(c)
            } else if out.last() == seq!['/'] {
                out
            } else {
                out.drop_last()
            }
        } else {
            out.push(c)
        }
    }
}

/// A path built from components (collecting them into a `PathBuf`): the
/// root, if first, is `/`, and the other components are joined with `/`;
/// no components give `.`.
pub open spec fn render_components(cs: Seq<Seq<char>>) -> Seq<char> {
    if cs.len() == 0 {
        seq!['.']
    } else if cs[0] == seq!['/'] {
        seq!['/'] + crate::text::join_with(cs.skip(1), seq!['/'])
    } else {
        crate::text::join_with(cs, seq!['/'])
    }
}

/// The path `path_clean::clean` produces: the path's components cleaned
/// lexically (see [`clean_components`]) and put back together, `.` when
/// none is left.
pub open spec fn cleaned_path(p: Seq<char>) -> Seq<char> {
    render_components(clean_components(path_components(p)))
}

/// `path_clean::clean`: lexical normalisation of a path over its
/// components (`.` dropped, `..` resolved against the name before it,
/// repeated separators collapsed), collected back into a path, as
/// [`cleaned_path`] states. On Unix the components of a `&str` path are
/// text, so the lossy conversion loses nothing.
#[verifier::external_body]
fn clean_path_raw(p: &str) -> (r: String)
    ensures
        r@ == cleaned_path(p@),
{
    path_clean::clean(std::path::Path::new(p)).to_string_lossy().into_owned()
}

/// The cleaned form of a path given as characters.
pub fn clean_path(p: &[char]) -> (r: Vec<char>)
    ensures
        r@ == cleaned_path(p@),
{
    let s = string_of(p);
    let c = clean_path_raw(s.as_str());
    chars_of(c.as_str())
}

proof fn lemma_body_push(segs: Seq<Seq<char>>, i: int)
    requires
        0 <= i < segs.len(),
    ensures
        segs.take(i + 1).drop_last() == segs.take(i),
        segs.take(i + 1).last() == segs[i],
{
}

/// Components of the segments `segs[start..]`.
fn body_components_exec(segs: &Vec<Vec<char>>, start: usize) -> (out: Vec<Vec<char>>)
    requires
        start <= segs.len(),
    ensures
        views(out@) == body_components(views(segs@).skip(start as int)),
{
    let mut out: Vec<Vec<char>> = Vec::new();
    let mut i: usize = start;
    let ghost all = views(segs@).skip(start as int);
    let dot = ['.'];
    assert(dot@ == seq!['.']);
    while i < segs.len()
        invariant
            start <= i <= segs.len(),
            all == views(segs@).skip(start as int),
            dot@ == seq!['.'],
            views(out@) == body_components(all.take(i - start)),
        decreases segs.len() - i,
    {
        let seg = &segs[i];
        proof {
            lemma_body_push(all, i - start);
        }
        assert(all[i - start] == seg@);
        if seg.len() == 0 || chars_eq(seg, &dot) {
        } else {
            let ghost before = out@;
            out.push(seg.clone());
            assert(views(out@) =~= views(before).push(seg@));
        }
        i += 1;
    }
    assert(all.take(segs.len() - start) == all);
    out
}

/// The components of a path (see [`path_components`]).
pub fn components(s: &[char]) -> (out: Vec<Vec<char>>)
    ensures
        views(out@) == path_components(s@),
{
    let segs = split_chars(s, '/');
    proof {
        crate::text::lemma_split_on_nonempty(s@, '/');
    }
    let dot = ['.'];
    assert(dot@ =~= seq!['.']);
    assert(views(segs@)[0] == segs@[0]@);
    if s.len() > 0 && s[0] == '/' {
        let body = body_components_exec(&segs, 1);
        let mut out: Vec<Vec<char>> = Vec::new();
        let mut root: Vec<char> = Vec::new();
        root.push('/');
        out.push(root);
        let mut i: usize = 0;
        let ghost first = views(out@);
        assert(first =~= seq![seq!['/']]);
        while i < body.len()
            invariant
                i <= body.len(),
                views(out@) == first + views(body@).take(i as int),
            decreases body.len() - i,
        {
            let ghost before = out@;
            out.push(body[i].clone());
            assert(views(body@).take(i as int + 1) == views(body@).take(i as int).push(body@[i as int]@));
            assert(views(out@) =~= views(before).push(body@[i as int]@));
            i += 1;
        }
        assert(views(body@).take(body.len() as int) == views(body@));
        out
    } else if chars_eq(&segs[0], &dot) {
        assert(views(segs@)[0] == segs@[0]@);
        let body = body_components_exec(&segs, 1);
        let mut out: Vec<Vec<char>> = Vec::new();
        let mut cur: Vec<char> = Vec::new();
        cur.push('.');
        out.push(cur);
        let mut i: usize = 0;
        let ghost first = views(out@);
        assert(first =~= seq![seq!['.']]);
        while i < body.len()
            invariant
                i <= body.len(),
                views(out@) == first + views(body@).take(i as int),
            decreases body.len() - i,
        {
            let ghost before = out@;
            out.push(body[i].clone());
            assert(views(body@).take(i as int + 1) == views(body@).take(i as int).push(body@[i as int]@));
            assert(views(out@) =~= views(before).push(body@[i as int]@));
            i += 1;
        }
        assert(views(body@).take(body.len() as int) == views(body@));
        out
    } else {
        assert(views(segs@)[0] == segs@[0]@);
        let r = body_components_exec(&segs, 0);
        assert(views(segs@).skip(0) == views(segs@));
        r
    }
}

/// Component-wise equality of two component lists.
pub fn components_eq(a: &Vec<Vec<char>>, b: &Vec<Vec<char>>) -> (r: bool)
    ensures
        r == (views(a@) == views(b@)),
{
    if a.len() != b.len() {
        assert(views(a@).len() != views(b@).len());
        return false;
    }
    let mut i: usize = 0;
    while i < a.len()
        invariant
            a.len() == b.len(),
            i <= a.len(),
            forall|j: int| 0 <= j < i ==> a@[j]@ == b@[j]@,
        decreases a.len() - i,
    {
        if !chars_eq(&a[i], &b[i]) {
            assert(views(a@)[i as int] != views(b@)[i as int]);
            return false;
        }
        i += 1;
    }
    assert(views(a@) =~= views(b@));
    true
}

/// Whether the components `b` are a prefix of the components `a`.
pub fn components_prefix(a: &Vec<Vec<char>>, b: &Vec<Vec<char>>) -> (r: bool)
    ensures
        r == components_start_with(views(a@), views(b@)),
{
    if b.len() > a.len() {
        return false;
    }
    let mut i: usize = 0;
    while i < b.len()
        invariant
            b.len() <= a.len(),
            i <= b.len(),
            forall|j: int| 0 <= j < i ==> views(a@)[j] == views(b@)[j],
        decreases b.len() - i,
    {
        if !chars_eq(&a[i], &b[i]) {
            assert(views(a@).take(b.len() as int)[i as int] != views(b@)[i as int]);
            return false;
        }
        i += 1;
    }
    assert(views(a@).take(b.len() as int) =~= views(b@));
    true
}

} // verus!

verus! {

/// `base.join(p)`: `p` itself when absolute, else `p` appended to `base`.
pub open spec fn path_join(base: Seq<char>, p: Seq<char>) -> Seq<char> {
    if p.len() > 0 && p[0] == '/' {
        p
    } else {
        join_path(base, p)
    }
}

/// `Path::join` on Unix paths.
pub fn join_paths(base: &str, p: &str) -> (r: String)
    ensures
        r@ == path_join(base@, p@),
{
    let pc = chars_of(p);
    if pc.len() > 0 && pc[0] == '/' {
        return String::from_str(p);
    }
    let bc = chars_of(base);
    let mut r = String::from_str(base);
    if !(bc.len() == 0 || bc[bc.len() - 1] == '/') {
        r.append("/");
        proof {
            reveal_strlit("/");
        }
    }
    r.append(p);
    r
}

} // verus!
