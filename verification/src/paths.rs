//! Paths as text, with `/` between their components.
use vstd::prelude::*;

use crate::lines;
use crate::text;
use crate::text::{chars_of, is_listed};

verus! {

/// `rel` seen from the directory `base`: `rel` itself where it is absolute, else below
/// `base`, with one separator between the two.
pub open spec fn below(base: Seq<char>, rel: Seq<char>) -> Seq<char> {
    if rel.len() > 0 && rel[0] == '/' {
        rel
    } else if base.len() == 0 || base.last() == '/' {
        base + rel
    } else {
        base + seq!['/'] + rel
    }
}

/// Puts a path below a directory.
pub fn join(base: &str, rel: &str) -> (r: String)
    ensures
        r@ == below(base@, rel@),
{
    let b = chars_of(base);
    let l = chars_of(rel);
    let n: usize = b.len();
    if l.len() > 0 && l[0] == '/' {
        return text::owned(rel);
    }
    let mut r = text::owned(base);
    if n > 0 && b[n - 1] != '/' {
        r.push('/');
        assert(r@ =~= base@ + seq!['/']);
    }
    r.append(rel);
    r
}

/// The first of some paths that exists, where `existing` lists those that do.
pub open spec fn first_existing(
    candidates: Seq<Seq<char>>,
    existing: Seq<Seq<char>>,
) -> Option<Seq<char>>
    decreases candidates.len(),
{
    if candidates.len() == 0 {
        None
    } else if existing.contains(candidates[0]) {
        Some(candidates[0])
    } else {
        first_existing(candidates.drop_first(), existing)
    }
}

/// The view of an optional string.
pub open spec fn opt(s: Option<String>) -> Option<Seq<char>> {
    match s {
        Some(t) => Some(t@),
        None => None,
    }
}

/// The first of some paths that exists.
pub fn find_existing(candidates: &Vec<String>, existing: &Vec<String>) -> (r: Option<String>)
    ensures
        opt(r) == first_existing(text::texts(candidates@), text::texts(existing@)),
{
    let ghost all = text::texts(candidates@);
    let ghost there = text::texts(existing@);
    let mut i: usize = 0;
    assert(all.skip(0) =~= all);
    while i < candidates.len()
        invariant
            i <= candidates@.len(),
            all == text::texts(candidates@),
            there == text::texts(existing@),
            first_existing(all, there) == first_existing(all.skip(i as int), there),
        decreases candidates@.len() - i,
    {
        assert(all.skip(i as int)[0] == candidates@[i as int]@);
        if is_listed(existing, candidates[i].as_str()) {
            return Some(candidates[i].clone());
        }
        assert(all.skip(i as int).drop_first() =~= all.skip(i + 1));
        i += 1;
    }
    None
}

// ---------------------------------------------------------------- components

/// A path without the separators and the `.` components at its end; the root stays.
pub open spec fn settled(s: Seq<char>) -> Seq<char>
    decreases s.len(),
{
    if s.len() > 1 && s.last() == '/' {
        settled(s.drop_last())
    } else if s.len() > 1 && s.last() == '.' && s[s.len() - 2] == '/' {
        settled(s.drop_last())
    } else {
        s
    }
}

fn settle(v: &Vec<char>, to: usize) -> (r: usize)
    requires
        to <= v@.len(),
    ensures
        r <= to,
        v@.take(r as int) == settled(v@.take(to as int)),
{
    let mut n: usize = to;
    while n > 1 && (v[n - 1] == '/' || (v[n - 1] == '.' && v[n - 2] == '/'))
        invariant
            n <= to <= v@.len(),
            settled(v@.take(n as int)) == settled(v@.take(to as int)),
        decreases n,
    {
        assert(v@.take(n as int).drop_last() =~= v@.take(n - 1));
        n -= 1;
    }
    n
}

/// The last component of a path, where it names something: not of the root, of the empty path
/// or of one that ends in `..`, nor where the path is `.` alone.
pub open spec fn last_name(s: Seq<char>) -> Option<Seq<char>> {
    let t = settled(s);
    let name = match text::cut_last(t, '/') {
        Some((_, b)) => b,
        None => t,
    };
    if name.len() == 0 || name == "."@ || name == ".."@ {
        None
    } else {
        Some(name)
    }
}

/// The last component of a path.
pub fn file_name(path: &str) -> (r: Option<String>)
    ensures
        opt(r) == last_name(path@),
{
    let v = chars_of(path);
    let n: usize = v.len();
    let m = settle(&v, n);
    assert(v@.take(n as int) =~= path@);
    let t = text::string_of(&v, 0, m);
    assert(t@ =~= v@.take(m as int));
    let name = match text::rsplit_once(t.as_str(), '/') {
        Some((_, b)) => b,
        None => t,
    };
    proof {
        reveal_strlit(".");
        reveal_strlit("..");
    }
    if text::same(name.as_str(), "") || text::same(name.as_str(), ".") || text::same(
        name.as_str(),
        "..",
    ) {
        proof {
            reveal_strlit("");
        }
        None
    } else {
        proof {
            reveal_strlit("");
            if name@.len() == 0 {
                assert(name@ =~= ""@);
            }
        }
        Some(name)
    }
}

/// The path without its last component. The root and the empty path have none.
pub open spec fn parent_of(s: Seq<char>) -> Option<Seq<char>> {
    let t = settled(s);
    if t.len() == 0 || t == seq!['/'] {
        None
    } else {
        match text::cut_last(t, '/') {
            Some((a, _)) => Some(settled(a + seq!['/'])),
            None => Some(Seq::empty()),
        }
    }
}

/// The path without its last component.
pub fn parent(path: &str) -> (r: Option<String>)
    ensures
        opt(r) == parent_of(path@),
{
    let v = chars_of(path);
    let n: usize = v.len();
    let m = settle(&v, n);
    assert(v@.take(n as int) =~= path@);
    let t = text::string_of(&v, 0, m);
    assert(t@ =~= v@.take(m as int));
    if m == 0 {
        return None;
    }
    if m == 1 && v[0] == '/' {
        assert(t@ =~= seq!['/']);
        return None;
    }
    assert(t@ != seq!['/']) by {
        if t@ == seq!['/'] {
            assert(t@.len() == 1 && t@[0] == '/');
        }
    }
    match text::rsplit_once(t.as_str(), '/') {
        Some((a, _)) => {
            let mut d = a;
            d.push('/');
            let w = chars_of(d.as_str());
            let k: usize = w.len();
            let j = settle(&w, k);
            assert(w@.take(k as int) =~= d@);
            let p = text::string_of(&w, 0, j);
            assert(p@ =~= w@.take(j as int));
            assert(d@ =~= a@ + seq!['/']);
            Some(p)
        },
        None => {
            let none = text::owned("");
            proof {
                reveal_strlit("");
                assert(none@ =~= Seq::empty());
            }
            Some(none)
        },
    }
}

proof fn lemma_settled_keeps(s: Seq<char>, k: int)
    requires
        0 <= k < s.len(),
        s[k] != '/' && s[k] != '.',
    ensures
        settled(s).len() > k,
        settled(s)[k] == s[k],
    decreases s.len(),
{
    if s.len() > 1 && (s.last() == '/' || (s.last() == '.' && s[s.len() - 2] == '/')) {
        assert(k < s.len() - 1);
        lemma_settled_keeps(s.drop_last(), k);
    }
}

/// A path that names anything at all has a parent.
pub proof fn a_named_path_has_a_parent(s: Seq<char>, k: int)
    requires
        0 <= k < s.len(),
        s[k] != '/' && s[k] != '.',
    ensures
        parent_of(s) is Some,
{
    lemma_settled_keeps(s, k);
    let t = settled(s);
    assert(t != seq!['/']) by {
        if t == seq!['/'] {
            assert(t[k] == '/');
        }
    }
}

/// The components that count among the pieces of a path: empty ones and `.` do not, except for a
/// `.` at the very beginning.
pub open spec fn counted(pieces: Seq<Seq<char>>) -> Seq<Seq<char>>
    decreases pieces.len(),
{
    if pieces.len() == 0 {
        Seq::empty()
    } else {
        let rest = counted(pieces.drop_last());
        let p = pieces.last();
        if p.len() == 0 || (p == "."@ && pieces.len() > 1) {
            rest
        } else {
            rest.push(p)
        }
    }
}

/// The components of a path; the root is one of them.
pub open spec fn components(s: Seq<char>) -> Seq<Seq<char>> {
    (if s.len() > 0 && s[0] == '/' {
        seq!["/"@]
    } else {
        Seq::empty()
    }) + counted(lines::split(s, '/'))
}

/// The components of a path.
pub fn components_of(path: &str) -> (r: Vec<String>)
    ensures
        text::texts(r@) == components(path@),
{
    let pieces = lines::split_at_char(path, '/');
    let ghost all = text::texts(pieces@);
    let mut r = text::no_texts();
    if text::begins_with(path, '/') {
        text::push_text(&mut r, "/");
    }
    let ghost root = text::texts(r@);
    let mut i: usize = 0;
    assert(all.take(0) =~= Seq::empty());
    assert(text::texts(r@) =~= root + counted(all.take(0)));
    while i < pieces.len()
        invariant
            i <= pieces@.len(),
            all == text::texts(pieces@),
            text::texts(r@) == root + counted(all.take(i as int)),
        decreases pieces@.len() - i,
    {
        assert(all.take(i + 1).drop_last() =~= all.take(i as int));
        assert(all.take(i + 1).last() == pieces@[i as int]@);
        let p = pieces[i].as_str();
        if !p.is_empty() && !(i > 0 && text::same(p, ".")) {
            text::push_text(&mut r, p);
        }
        assert(text::texts(r@) =~= root + counted(all.take(i + 1)));
        i += 1;
    }
    assert(all.take(i as int) =~= all);
    assert(text::texts(r@) =~= components(path@));
    r
}

/// Whether a path lies below a directory, or is it.
pub fn lies_below(path: &str, dir: &str) -> (r: bool)
    ensures
        r == components(dir@).is_prefix_of(components(path@)),
{
    let d = components_of(dir);
    let p = components_of(path);
    let ghost cd = components(dir@);
    let ghost cp = components(path@);
    if d.len() > p.len() {
        return false;
    }
    let mut i: usize = 0;
    while i < d.len()
        invariant
            i <= d@.len() <= p@.len(),
            cd == text::texts(d@),
            cp == text::texts(p@),
            cd == components(dir@),
            cp == components(path@),
            forall|k: int| 0 <= k < i ==> cd[k] == cp[k],
        decreases d@.len() - i,
    {
        assert(cd[i as int] == d@[i as int]@ && cp[i as int] == p@[i as int]@);
        if !text::same(d[i].as_str(), p[i].as_str()) {
            assert(cp.subrange(0, cd.len() as int)[i as int] != cd[i as int]);
            return false;
        }
        i += 1;
    }
    assert(cp.subrange(0, cd.len() as int) =~= cd);
    true
}

} // verus!
