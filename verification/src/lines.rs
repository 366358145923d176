//! Splitting text into pieces, and putting pieces together again.
use vstd::prelude::*;

use crate::text;
use crate::text::{chars_of, is_white_char, string_of, trim};

verus! {

// ---------------------------------------------------------------- splitting

/// The pieces of `s` between the occurrences of `sep`: one more than there are of them.
pub open spec fn split(s: Seq<char>, sep: char) -> Seq<Seq<char>>
    decreases s.len(),
{
    if s.len() == 0 {
        seq![Seq::<char>::empty()]
    } else {
        let before = split(s.drop_last(), sep);
        if s.last() == sep {
            before.push(Seq::empty())
        } else {
            before.drop_last().push(before.last().push(s.last()))
        }
    }
}

/// There is always a piece, and none holds the separator.
pub proof fn split_pieces(s: Seq<char>, sep: char)
    ensures
        split(s, sep).len() > 0,
        forall|i: int| 0 <= i < split(s, sep).len() ==> !(#[trigger] split(s, sep)[i]).contains(sep),
    decreases s.len(),
{
    if s.len() > 0 {
        split_pieces(s.drop_last(), sep);
        let before = split(s.drop_last(), sep);
        if s.last() != sep {
            assert forall|i: int| 0 <= i < split(s, sep).len() implies !(#[trigger] split(
                s,
                sep,
            )[i]).contains(sep) by {
                if i == before.len() - 1 {
                    let p = split(s, sep)[i];
                    assert(p == before.last().push(s.last()));
                    assert forall|k: int| 0 <= k < p.len() implies p[k] != sep by {
                        if k < p.len() - 1 {
                            assert(before.last()[k] == p[k]);
                        }
                    }
                } else {
                    assert(split(s, sep)[i] == before[i]);
                }
            }
        }
    }
}

/// A text without the separator before another lengthens its first piece.
pub proof fn split_behind(p: Seq<char>, s: Seq<char>, sep: char)
    requires
        !p.contains(sep),
    ensures
        split(p + s, sep) == split(s, sep).update(0, p + split(s, sep)[0]),
    decreases s.len(),
{
    if s.len() == 0 {
        assert(p + s =~= p);
        split_of_one(p, sep);
        assert(split(p, sep) =~= split(s, sep).update(0, p + split(s, sep)[0]));
    } else {
        let t = s.drop_last();
        split_behind(p, t, sep);
        split_pieces(t, sep);
        assert((p + s).drop_last() =~= p + t);
        assert((p + s).last() == s.last());
        let before = split(t, sep);
        let after = split(p + t, sep);
        if s.last() != sep {
            if before.len() == 1 {
                assert(after.last().push(s.last()) =~= p + before.last().push(s.last()));
            }
        }
        assert(split(p + s, sep) =~= split(s, sep).update(0, p + split(s, sep)[0]));
    }
}

/// A string without the separator is one piece.
pub proof fn split_of_one(s: Seq<char>, sep: char)
    requires
        !s.contains(sep),
    ensures
        split(s, sep) == seq![s],
    decreases s.len(),
{
    if s.len() > 0 {
        let t = s.drop_last();
        assert(s[s.len() - 1] != sep);
        assert forall|i: int| 0 <= i < t.len() implies t[i] != sep by {
            assert(t[i] == s[i]);
        }
        split_of_one(t, sep);
        assert(t.push(s.last()) =~= s);
        assert(split(s, sep) =~= seq![s]);
    } else {
        assert(s =~= Seq::empty());
        assert(split(s, sep) =~= seq![s]);
    }
}

/// The pieces of two strings with a separator between them are those of the one and those of
/// the other.
pub proof fn split_of_both(a: Seq<char>, sep: char, b: Seq<char>)
    ensures
        split(a + seq![sep] + b, sep) == split(a, sep) + split(b, sep),
    decreases b.len(),
{
    let s = a + seq![sep] + b;
    split_pieces(b, sep);
    if b.len() == 0 {
        assert(s.drop_last() =~= a);
        assert(split(s, sep) =~= split(a, sep) + split(b, sep));
    } else {
        let c = b.drop_last();
        split_of_both(a, sep, c);
        split_pieces(c, sep);
        assert(s.drop_last() =~= a + seq![sep] + c);
        assert(s.last() == b.last());
        let before = split(a, sep) + split(c, sep);
        if b.last() == sep {
            assert(split(s, sep) =~= split(a, sep) + split(b, sep));
        } else {
            assert(before.last() == split(c, sep).last());
            assert(before.drop_last() =~= split(a, sep) + split(c, sep).drop_last());
            assert(split(s, sep) =~= split(a, sep) + split(b, sep));
        }
    }
}

/// Splits a string at every `sep`.
pub fn split_at_char(s: &str, sep: char) -> (r: Vec<String>)
    ensures
        text::texts(r@) == split(s@, sep),
{
    let v = chars_of(s);
    let mut done: Vec<String> = Vec::new();
    let mut start: usize = 0;
    let mut i: usize = 0;
    assert(v@.take(0) =~= Seq::empty());
    assert(split(v@.take(0), sep) =~= text::texts(done@).push(v@.subrange(0, 0)));
    while i < v.len()
        invariant
            start <= i <= v@.len(),
            split(v@.take(i as int), sep) == text::texts(done@).push(
                v@.subrange(start as int, i as int),
            ),
        decreases v@.len() - i,
    {
        assert(v@.take(i + 1).drop_last() =~= v@.take(i as int));
        let ghost before = text::texts(done@);
        let ghost piece = v@.subrange(start as int, i as int);
        assert(before.push(piece).drop_last() =~= before);
        if v[i] == sep {
            done.push(string_of(&v, start, i));
            assert(text::texts(done@) =~= before.push(piece));
            start = i + 1;
            assert(v@.subrange(start as int, i + 1) =~= Seq::empty());
        } else {
            assert(v@.subrange(start as int, i + 1) =~= piece.push(v@[i as int]));
        }
        i += 1;
    }
    assert(v@.take(v@.len() as int) =~= v@);
    let ghost before = text::texts(done@);
    done.push(string_of(&v, start, i));
    assert(text::texts(done@) =~= before.push(v@.subrange(start as int, i as int)));
    done
}

/// Some lines, each with its line end.
pub open spec fn ended(all: Seq<Seq<char>>) -> Seq<char>
    decreases all.len(),
{
    if all.len() == 0 {
        Seq::empty()
    } else {
        ended(all.drop_last()) + all.last() + "\n"@
    }
}

/// The pieces put together with `sep` between two of them.
pub open spec fn joined(pieces: Seq<Seq<char>>, sep: Seq<char>) -> Seq<char>
    decreases pieces.len(),
{
    if pieces.len() == 0 {
        Seq::empty()
    } else if pieces.len() == 1 {
        pieces[0]
    } else {
        joined(pieces.drop_last(), sep) + sep + pieces.last()
    }
}

/// Joining the pieces with the separator gives the string back.
pub proof fn join_undoes_split(s: Seq<char>, sep: char)
    ensures
        joined(split(s, sep), seq![sep]) == s,
    decreases s.len(),
{
    let pieces = split(s, sep);
    if s.len() == 0 {
        assert(joined(pieces, seq![sep]) =~= s);
    } else {
        let t = s.drop_last();
        join_undoes_split(t, sep);
        split_pieces(t, sep);
        let before = split(t, sep);
        if s.last() == sep {
            assert(pieces.drop_last() =~= before);
            assert(joined(pieces, seq![sep]) =~= s);
        } else {
            assert(pieces.drop_last() =~= before.drop_last());
            assert(pieces.last() == before.last().push(s.last()));
            if before.len() == 1 {
                assert(joined(pieces, seq![sep]) =~= s);
            } else {
                let head = joined(before.drop_last(), seq![sep]) + seq![sep];
                assert(t == head + before.last());
                assert(pieces.len() == before.len());
                assert(joined(pieces, seq![sep]) == head + before.last().push(s.last()));
                assert(head + before.last().push(s.last()) =~= t.push(s.last()));
                assert(t.push(s.last()) =~= s);
            }
        }
    }
}

/// Joins strings with a separator.
pub fn join(parts: &Vec<String>, sep: &str) -> (r: String)
    ensures
        r@ == joined(text::texts(parts@), sep@),
{
    let mut r = String::new();
    let mut i: usize = 0;
    while i < parts.len()
        invariant
            i <= parts@.len(),
            r@ == joined(text::texts(parts@).take(i as int), sep@),
        decreases parts@.len() - i,
    {
        if i > 0 {
            r.append(sep);
        }
        r.append(parts[i].as_str());
        proof {
            let all = text::texts(parts@);
            assert(all.take(i + 1).drop_last() =~= all.take(i as int));
            assert(all.take(i + 1).last() == parts@[i as int]@);
            if i == 0 {
                assert(r@ =~= parts@[0]@);
            }
        }
        i += 1;
    }
    assert(text::texts(parts@).take(i as int) =~= text::texts(parts@));
    r
}

/// Splitting what was joined gives the pieces back, where none holds the separator.
pub proof fn split_undoes_join(pieces: Seq<Seq<char>>, sep: char)
    requires
        pieces.len() > 0,
        forall|i: int| 0 <= i < pieces.len() ==> !(#[trigger] pieces[i]).contains(sep),
    ensures
        split(joined(pieces, seq![sep]), sep) == pieces,
    decreases pieces.len(),
{
    if pieces.len() == 1 {
        split_of_one(pieces[0], sep);
        assert(pieces =~= seq![pieces[0]]);
    } else {
        let init = pieces.drop_last();
        assert forall|i: int| 0 <= i < init.len() implies !(#[trigger] init[i]).contains(sep) by {
            assert(init[i] == pieces[i]);
        }
        split_undoes_join(init, sep);
        assert(!pieces[pieces.len() - 1].contains(sep));
        split_of_one(pieces.last(), sep);
        split_of_both(joined(init, seq![sep]), sep, pieces.last());
        assert(init + seq![pieces.last()] =~= pieces);
    }
}

// ---------------------------------------------------------------- lines

/// A line without the carriage return that stood before its line feed.
pub open spec fn strip_cr(line: Seq<char>) -> Seq<char> {
    if line.len() > 0 && line.last() == '\r' {
        line.drop_last()
    } else {
        line
    }
}

/// The lines of a text. A line ends with a line feed or a carriage return and a line
/// feed; the last one need not, and an empty rest after the last line end is no line.
pub open spec fn lines(s: Seq<char>) -> Seq<Seq<char>> {
    let pieces = split(s, '\n');
    let ended = pieces.drop_last().map_values(|l: Seq<char>| strip_cr(l));
    if pieces.last().len() == 0 {
        ended
    } else {
        ended.push(pieces.last())
    }
}

/// The lines of two texts with a line feed between them are those of the first, where its last one
/// counts even if it is empty, and those of the second.
pub proof fn lines_of_both(a: Seq<char>, b: Seq<char>)
    ensures
        lines(a + "\n"@ + b) == split(a, '\n').map_values(|l: Seq<char>| strip_cr(l)) + lines(b),
{
    reveal_strlit("\n");
    assert("\n"@ =~= seq!['\n']);
    let x = split(a, '\n');
    let y = split(b, '\n');
    split_of_both(a, '\n', b);
    split_pieces(b, '\n');
    assert((x + y).drop_last() =~= x + y.drop_last());
    assert((x + y).last() == y.last());
    assert(lines(a + "\n"@ + b) =~= x.map_values(|l: Seq<char>| strip_cr(l)) + lines(b));
}

fn without_cr(s: &str) -> (r: String)
    ensures
        r@ == strip_cr(s@),
{
    let v = chars_of(s);
    let n: usize = v.len();
    if n > 0 && v[n - 1] == '\r' {
        assert(v@.subrange(0, n - 1) =~= s@.drop_last());
        string_of(&v, 0, n - 1)
    } else {
        assert(v@.subrange(0, n as int) =~= s@);
        string_of(&v, 0, n)
    }
}

/// The lines of a text.
pub fn lines_of(s: &str) -> (r: Vec<String>)
    ensures
        text::texts(r@) == lines(s@),
{
    let pieces = split_at_char(s, '\n');
    let ghost all = text::texts(pieces@);
    proof {
        split_pieces(s@, '\n');
        assert(all.len() == pieces@.len());
    }
    let n: usize = pieces.len();
    let mut r: Vec<String> = Vec::new();
    let ghost ended = all.drop_last().map_values(|l: Seq<char>| strip_cr(l));
    let mut i: usize = 0;
    while i < n - 1
        invariant
            n == pieces@.len() > 0,
            i <= n - 1,
            all == text::texts(pieces@),
            ended == all.drop_last().map_values(|l: Seq<char>| strip_cr(l)),
            text::texts(r@) == ended.take(i as int),
        decreases n - i,
    {
        let line = without_cr(pieces[i].as_str());
        let ghost before = text::texts(r@);
        r.push(line);
        assert(text::texts(r@) =~= before.push(line@));
        assert(ended.take(i + 1) =~= ended.take(i as int).push(ended[i as int]));
        i += 1;
    }
    assert(ended.take(i as int) =~= ended);
    let last = pieces[n - 1].clone();
    if !last.as_str().is_empty() {
        let ghost before = text::texts(r@);
        r.push(last);
        assert(text::texts(r@) =~= before.push(last@));
    }
    r
}

// ---------------------------------------------------------------- keeping what is not empty

/// The pieces that are not empty, in order.
pub open spec fn filled(pieces: Seq<Seq<char>>) -> Seq<Seq<char>>
    decreases pieces.len(),
{
    if pieces.len() == 0 {
        pieces
    } else if pieces.last().len() > 0 {
        filled(pieces.drop_last()).push(pieces.last())
    } else {
        filled(pieces.drop_last())
    }
}

/// The strings that are not empty, in order.
pub fn filled_of(v: &Vec<String>) -> (r: Vec<String>)
    ensures
        text::texts(r@) == filled(text::texts(v@)),
{
    let ghost all = text::texts(v@);
    let mut r: Vec<String> = Vec::new();
    let mut i: usize = 0;
    while i < v.len()
        invariant
            i <= v@.len(),
            all == text::texts(v@),
            text::texts(r@) == filled(all.take(i as int)),
        decreases v@.len() - i,
    {
        proof {
            assert(all.take(i + 1).drop_last() =~= all.take(i as int));
            assert(all.take(i + 1).last() == v@[i as int]@);
        }
        let ghost before = text::texts(r@);
        if !v[i].as_str().is_empty() {
            r.push(v[i].clone());
            assert(text::texts(r@) =~= before.push(v@[i as int]@));
        }
        i += 1;
    }
    assert(all.take(i as int) =~= all);
    r
}

/// The lines of a text without the white space around them, and without those that hold
/// nothing else.
pub open spec fn trimmed_lines(s: Seq<char>) -> Seq<Seq<char>> {
    filled(lines(s).map_values(|l: Seq<char>| text::trimmed(l)))
}

/// The lines of a text that are not blank, each without the white space around it.
pub fn trimmed_lines_of(s: &str) -> (r: Vec<String>)
    ensures
        text::texts(r@) == trimmed_lines(s@),
{
    let all = lines_of(s);
    let ghost cut = lines(s@).map_values(|l: Seq<char>| text::trimmed(l));
    let mut r: Vec<String> = Vec::new();
    let mut i: usize = 0;
    while i < all.len()
        invariant
            i <= all@.len(),
            text::texts(all@) == lines(s@),
            cut == lines(s@).map_values(|l: Seq<char>| text::trimmed(l)),
            text::texts(r@) == filled(cut.take(i as int)),
        decreases all@.len() - i,
    {
        let line = trim(all[i].as_str());
        assert(text::texts(all@)[i as int] == all@[i as int]@);
        assert(cut.take(i + 1).drop_last() =~= cut.take(i as int));
        assert(cut.take(i + 1).last() == line@);
        let ghost before = text::texts(r@);
        if !line.as_str().is_empty() {
            r.push(line);
            assert(text::texts(r@) =~= before.push(line@));
        }
        i += 1;
    }
    assert(text::texts(all@).len() == all@.len());
    assert(cut.take(i as int) =~= cut);
    r
}

/// The pieces of `s` between white space, empty ones among them.
pub open spec fn split_white(s: Seq<char>) -> Seq<Seq<char>>
    decreases s.len(),
{
    if s.len() == 0 {
        seq![Seq::<char>::empty()]
    } else {
        let before = split_white(s.drop_last());
        if text::is_white(s.last()) {
            before.push(Seq::empty())
        } else {
            before.drop_last().push(before.last().push(s.last()))
        }
    }
}

/// Whether a text holds no white space.
pub open spec fn no_white(s: Seq<char>) -> bool {
    forall|i: int| 0 <= i < s.len() ==> !text::is_white(#[trigger] s[i])
}

proof fn lemma_split_white_some(s: Seq<char>)
    ensures
        split_white(s).len() > 0,
    decreases s.len(),
{
    if s.len() > 0 {
        lemma_split_white_some(s.drop_last());
    }
}

/// A text without white space is one piece.
pub proof fn split_white_of_one(s: Seq<char>)
    requires
        no_white(s),
    ensures
        split_white(s) == seq![s],
    decreases s.len(),
{
    if s.len() > 0 {
        let t = s.drop_last();
        assert forall|i: int| 0 <= i < t.len() implies !text::is_white(#[trigger] t[i]) by {
            assert(t[i] == s[i]);
        }
        split_white_of_one(t);
        assert(!text::is_white(s[s.len() - 1]));
        assert(t.push(s.last()) =~= s);
        assert(split_white(s) =~= seq![s]);
    } else {
        assert(s =~= Seq::empty());
        assert(split_white(s) =~= seq![s]);
    }
}

/// The pieces of two texts with white space between them are those of the one and those of the
/// other.
pub proof fn split_white_of_both(a: Seq<char>, c: char, b: Seq<char>)
    requires
        text::is_white(c),
    ensures
        split_white(a + seq![c] + b) == split_white(a) + split_white(b),
    decreases b.len(),
{
    let s = a + seq![c] + b;
    lemma_split_white_some(b);
    if b.len() == 0 {
        assert(s.drop_last() =~= a);
        assert(split_white(s) =~= split_white(a) + split_white(b));
    } else {
        let d = b.drop_last();
        split_white_of_both(a, c, d);
        lemma_split_white_some(d);
        assert(s.drop_last() =~= a + seq![c] + d);
        assert(s.last() == b.last());
        let before = split_white(a) + split_white(d);
        if !text::is_white(b.last()) {
            assert(before.last() == split_white(d).last());
            assert(before.drop_last() =~= split_white(a) + split_white(d).drop_last());
        }
        assert(split_white(s) =~= split_white(a) + split_white(b));
    }
}

/// The words of a text: its longest runs without white space.
pub open spec fn words(s: Seq<char>) -> Seq<Seq<char>> {
    filled(split_white(s))
}

/// The words of a text.
pub fn words_of(s: &str) -> (r: Vec<String>)
    ensures
        text::texts(r@) == words(s@),
{
    let v = chars_of(s);
    let mut r: Vec<String> = Vec::new();
    let mut start: usize = 0;
    let mut i: usize = 0;
    let ghost mut done: Seq<Seq<char>> = Seq::empty();
    assert(v@.take(0) =~= Seq::empty());
    assert(split_white(v@.take(0)) =~= done.push(v@.subrange(0, 0)));
    while i < v.len()
        invariant
            start <= i <= v@.len(),
            split_white(v@.take(i as int)) == done.push(v@.subrange(start as int, i as int)),
            text::texts(r@) == filled(done),
        decreases v@.len() - i,
    {
        assert(v@.take(i + 1).drop_last() =~= v@.take(i as int));
        let ghost piece = v@.subrange(start as int, i as int);
        assert(done.push(piece).drop_last() =~= done);
        if is_white_char(v[i]) {
            let ghost before = text::texts(r@);
            if start < i {
                let word = string_of(&v, start, i);
                r.push(word);
                assert(text::texts(r@) =~= before.push(piece));
            }
            proof {
                done = done.push(piece);
            }
            start = i + 1;
            assert(v@.subrange(start as int, i + 1) =~= Seq::empty());
        } else {
            assert(v@.subrange(start as int, i + 1) =~= piece.push(v@[i as int]));
        }
        i += 1;
    }
    assert(v@.take(v@.len() as int) =~= v@);
    let ghost piece = v@.subrange(start as int, i as int);
    assert(done.push(piece).drop_last() =~= done);
    if start < i {
        let ghost before = text::texts(r@);
        let word = string_of(&v, start, i);
        r.push(word);
        assert(text::texts(r@) =~= before.push(piece));
    }
    r
}

} // verus!
