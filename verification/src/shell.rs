//! Text that a shell on the other side reads back as it was.
use vstd::prelude::*;

use crate::text;
use crate::text::chars_of;

verus! {

/// The text with each single quote closed, escaped and opened again.
pub open spec fn escaped(s: Seq<char>) -> Seq<char>
    decreases s.len(),
{
    if s.len() == 0 {
        Seq::empty()
    } else {
        escaped(s.drop_last()) + (if s.last() == '\'' {
            seq!['\'', '\\', '\'', '\'']
        } else {
            seq![s.last()]
        })
    }
}

/// A text in single quotes, as one word of a shell command.
pub open spec fn quoted(s: Seq<char>) -> Seq<char> {
    seq!['\''] + escaped(s) + seq!['\'']
}

/// Wraps a string in single quotes and escapes the single quotes in it, so that it can stand in
/// a command that a shell on the server reads.
pub fn sq(s: &str) -> (r: String)
    ensures
        r@ == quoted(s@),
        one_word(r@, false) == Some(s@),
{
    let v = chars_of(s);
    let mut r = text::owned("");
    proof {
        reveal_strlit("");
        assert(r@ =~= Seq::empty());
    }
    r.push('\'');
    let mut i: usize = 0;
    assert(v@.take(0) =~= Seq::empty());
    assert(r@ =~= seq!['\''] + escaped(v@.take(0)));
    while i < v.len()
        invariant
            i <= v@.len(),
            r@ == seq!['\''] + escaped(v@.take(i as int)),
        decreases v@.len() - i,
    {
        assert(v@.take(i + 1).drop_last() =~= v@.take(i as int));
        assert(v@.take(i + 1).last() == v@[i as int]);
        let ghost before = r@;
        if v[i] == '\'' {
            r.push('\'');
            r.push('\\');
            r.push('\'');
            r.push('\'');
            assert(r@ =~= before + seq!['\'', '\\', '\'', '\'']);
        } else {
            r.push(v[i]);
            assert(r@ =~= before + seq![v@[i as int]]);
        }
        assert(r@ =~= seq!['\''] + escaped(v@.take(i + 1)));
        i += 1;
    }
    r.push('\'');
    proof {
        assert(v@.take(i as int) =~= s@);
        assert(r@ =~= quoted(s@));
        quoting_is_read_back(s@);
    }
    r
}

/// What a shell reads of a text that is one word made of quoted parts and escaped characters:
/// inside single quotes every character stands for itself up to the closing quote; outside,
/// a backslash takes the next character as it is. Anything else is not such a word.
pub open spec fn one_word(q: Seq<char>, inside: bool) -> Option<Seq<char>>
    decreases q.len(),
{
    if q.len() == 0 {
        if inside {
            None
        } else {
            Some(Seq::empty())
        }
    } else if q[0] == '\'' {
        one_word(q.skip(1), !inside)
    } else if inside {
        match one_word(q.skip(1), true) {
            Some(w) => Some(seq![q[0]] + w),
            None => None,
        }
    } else if q[0] == '\\' && q.len() > 1 {
        match one_word(q.skip(2), false) {
            Some(w) => Some(seq![q[1]] + w),
            None => None,
        }
    } else {
        None
    }
}

/// An escaped quote is read as a quote.
proof fn lemma_read_quote(rest: Seq<char>)
    ensures
        one_word(seq!['\'', '\\', '\'', '\''] + rest, true) == (match one_word(rest, true) {
            Some(w) => Some(seq!['\''] + w),
            None => None,
        }),
{
    let q = seq!['\'', '\\', '\'', '\''] + rest;
    let behind = seq!['\\', '\'', '\''] + rest;
    let last = seq!['\''] + rest;
    assert(q.skip(1) =~= behind);
    assert(one_word(q, true) == one_word(behind, false));
    assert(behind[0] == '\\' && behind[1] == '\'');
    assert(behind.skip(2) =~= last);
    assert(last[0] == '\'');
    assert(last.skip(1) =~= rest);
    assert(one_word(last, false) == one_word(rest, true));
}

proof fn lemma_read_escaped(s: Seq<char>, rest: Seq<char>)
    ensures
        one_word(escaped(s) + rest, true) == (match one_word(rest, true) {
            Some(w) => Some(s + w),
            None => None,
        }),
    decreases s.len(),
{
    if s.len() == 0 {
        assert(escaped(s) + rest =~= rest);
        if let Some(w) = one_word(rest, true) {
            assert(s + w =~= w);
        }
    } else {
        let t = s.drop_last();
        let c = s.last();
        if c == '\'' {
            let four = seq!['\'', '\\', '\'', '\''];
            let q = four + rest;
            lemma_read_escaped(t, q);
            assert(escaped(s) + rest =~= escaped(t) + q);
            lemma_read_quote(rest);
            if let Some(w) = one_word(rest, true) {
                assert(t + (seq!['\''] + w) =~= s + w);
            }
        } else {
            let q = seq![c] + rest;
            lemma_read_escaped(t, q);
            assert(escaped(s) + rest =~= escaped(t) + q);
            assert(q.skip(1) =~= rest);
            if let Some(w) = one_word(rest, true) {
                assert(t + (seq![c] + w) =~= s + w);
            }
        }
    }
}

/// A shell reads a quoted text back as one word, character for character, whatever it holds.
pub proof fn quoting_is_read_back(s: Seq<char>)
    ensures
        one_word(quoted(s), false) == Some(s),
{
    let end = seq!['\''];
    lemma_read_escaped(s, end);
    assert(quoted(s).skip(1) =~= escaped(s) + end);
    assert(end.skip(1) =~= Seq::empty());
    assert(one_word(end, true) == Some(Seq::<char>::empty())) by {
        reveal_with_fuel(one_word, 2);
    }
    assert(s + Seq::<char>::empty() =~= s);
}

} // verus!
