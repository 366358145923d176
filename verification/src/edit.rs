//! Replacing parts of a text.
use vstd::prelude::*;

use crate::text;
use crate::text::{chars_of, position, string_of};

verus! {

/// The first position of `pat` in `s`, from position `from` on.
pub open spec fn find_from(s: Seq<char>, pat: Seq<char>, from: int) -> Option<int>
    decreases s.len() + 1 - from,
{
    if from < 0 || from + pat.len() > s.len() {
        None
    } else if text::occurs_at(s, pat, from) {
        Some(from)
    } else {
        find_from(s, pat, from + 1)
    }
}

/// The search finds the first occurrence, and one wherever there is one.
pub proof fn find_from_first(s: Seq<char>, pat: Seq<char>, from: int)
    requires
        0 <= from,
    ensures
        match find_from(s, pat, from) {
            Some(i) => from <= i && text::occurs_at(s, pat, i) && forall|j: int|
                from <= j < i ==> !#[trigger] text::occurs_at(s, pat, j),
            None => forall|j: int| from <= j ==> !#[trigger] text::occurs_at(s, pat, j),
        },
    decreases s.len() + 1 - from,
{
    if from + pat.len() > s.len() || text::occurs_at(s, pat, from) {
    } else {
        find_from_first(s, pat, from + 1);
    }
}

/// `s` with the first occurrence of `pat` replaced.
pub open spec fn replaced_first(s: Seq<char>, pat: Seq<char>, with: Seq<char>) -> Seq<char> {
    match find_from(s, pat, 0) {
        Some(i) => s.take(i) + with + s.skip(i + pat.len() as int),
        None => s,
    }
}

/// `s` with every occurrence of `pat` replaced, from the left, where an occurrence that
/// overlaps an earlier one does not count.
pub open spec fn replaced(s: Seq<char>, pat: Seq<char>, with: Seq<char>) -> Seq<char>
    decreases s.len(),
{
    match find_from(s, pat, 0) {
        Some(i) => if pat.len() > 0 && 0 <= i && i + pat.len() <= s.len() {
            s.take(i) + with + replaced(s.skip(i + pat.len() as int), pat, with)
        } else {
            s
        },
        None => s,
    }
}

fn position_is_find(v: &Vec<char>, pat: &Vec<char>) -> (r: Option<usize>)
    ensures
        (match r {
            Some(i) => Some(i as int),
            None => None,
        }) == find_from(v@, pat@, 0),
        r matches Some(i) ==> text::occurs_at(v@, pat@, i as int),
{
    proof {
        find_from_first(v@, pat@, 0);
    }
    position(v, pat)
}

/// Replaces the first occurrence of `pat`.
pub fn replace_first(s: &str, pat: &str, with: &str) -> (r: String)
    ensures
        r@ == replaced_first(s@, pat@, with@),
{
    let v = chars_of(s);
    let p = chars_of(pat);
    let n: usize = v.len();
    match position_is_find(&v, &p) {
        Some(i) => {
            let mut r = string_of(&v, 0, i);
            r.append(with);
            let tail = string_of(&v, i + p.len(), n);
            r.append(tail.as_str());
            assert(v@.subrange(0, i as int) =~= s@.take(i as int));
            assert(v@.subrange(i + p@.len() as int, n as int) =~= s@.skip(i + p@.len() as int));
            r
        },
        None => text::owned(s),
    }
}

/// Replaces every occurrence of `pat`.
pub fn replace(s: &str, pat: &str, with: &str) -> (r: String)
    requires
        pat@.len() > 0,
    ensures
        r@ == replaced(s@, pat@, with@),
{
    let p = chars_of(pat);
    let mut rest = chars_of(s);
    let mut out = String::new();
    assert(out@ + replaced(rest@, p@, with@) =~= replaced(s@, pat@, with@));
    loop
        invariant_except_break
            out@ + replaced(rest@, p@, with@) == replaced(s@, pat@, with@),
        invariant
            p@ == pat@,
            p@.len() > 0,
        ensures
            out@ == replaced(s@, pat@, with@),
        decreases rest@.len(),
    {
        let n: usize = rest.len();
        match position_is_find(&rest, &p) {
            Some(i) => {
                let ghost earlier = out@;
                let head = string_of(&rest, 0, i);
                out.append(head.as_str());
                out.append(with);
                let tail = string_of(&rest, i + p.len(), n);
                let next = chars_of(tail.as_str());
                proof {
                    assert(rest@.subrange(0, i as int) =~= rest@.take(i as int));
                    assert(next@ =~= rest@.skip(i + p@.len() as int));
                    assert(out@ + replaced(next@, p@, with@) =~= earlier + (rest@.take(i as int)
                        + with@ + replaced(next@, p@, with@)));
                }
                rest = next;
            },
            None => {
                let tail = string_of(&rest, 0, n);
                assert(rest@.subrange(0, n as int) =~= rest@);
                out.append(tail.as_str());
                break;
            },
        }
    }
    out
}

/// Where the pattern does not occur, nothing is replaced.
pub proof fn replaced_without(s: Seq<char>, pat: Seq<char>, with: Seq<char>)
    requires
        !text::has_text(s, pat),
    ensures
        replaced(s, pat, with) == s,
        replaced_first(s, pat, with) == s,
{
    find_from_first(s, pat, 0);
}

} // verus!
