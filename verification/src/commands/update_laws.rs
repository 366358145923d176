//! What holds of an update as a whole.
use vstd::prelude::*;

use crate::commands::update;
use crate::lines;
use crate::order;
use crate::template::seeds;
use crate::text;

verus! {

/// Whether one of some pieces reads `p` without the white space around it.
pub open spec fn has_trimmed(pieces: Seq<Seq<char>>, p: Seq<char>) -> bool {
    exists|i: int| 0 <= i < pieces.len() && text::trimmed(#[trigger] pieces[i]) == p
}

proof fn lemma_white_end(s: Seq<char>, c: char)
    requires
        text::is_white(c),
    ensures
        text::trimmed(s.push(c)) == text::trimmed(s),
    decreases s.len(),
{
    let t = s.push(c);
    if s.len() == 0 {
        assert(t.drop_first() =~= s);
    } else if text::is_white(s[0]) {
        assert(t.drop_first() =~= s.drop_first().push(c));
        lemma_white_end(s.drop_first(), c);
    } else {
        assert(t.drop_last() =~= s);
    }
}

proof fn lemma_strip_cr(l: Seq<char>)
    ensures
        text::trimmed(lines::strip_cr(l)) == text::trimmed(l),
{
    if l.len() > 0 && l.last() == '\r' {
        assert(l =~= l.drop_last().push('\r'));
        lemma_white_end(l.drop_last(), '\r');
    }
}

proof fn lemma_filled(v: Seq<Seq<char>>)
    ensures
        forall|s: Seq<char>| #[trigger]
            lines::filled(v).contains(s) <==> v.contains(s) && s.len() > 0,
    decreases v.len(),
{
    if v.len() > 0 {
        let init = v.drop_last();
        lemma_filled(init);
        assert(v =~= init.push(v.last()));
        assert forall|s: Seq<char>| #[trigger]
            lines::filled(v).contains(s) <==> v.contains(s) && s.len() > 0 by {
            vstd::seq_lib::lemma_seq_contains_after_push(init, v.last(), s);
            vstd::seq_lib::lemma_seq_contains_after_push(lines::filled(init), v.last(), s);
            assert(lines::filled(init).contains(s) <==> init.contains(s) && s.len() > 0);
        }
    }
}

/// The lines of a text read the same, but for white space, as what stands between its line feeds.
proof fn lemma_lines_are_pieces(s: Seq<char>, p: Seq<char>)
    requires
        p.len() > 0,
    ensures
        has_trimmed(lines::lines(s), p) == has_trimmed(lines::split(s, '\n'), p),
{
    let pieces = lines::split(s, '\n');
    let ls = lines::lines(s);
    lines::split_pieces(s, '\n');
    let n = pieces.len() - 1;
    assert forall|i: int| 0 <= i < ls.len() implies text::trimmed(#[trigger] ls[i])
        == text::trimmed(pieces[i]) by {
        if i < n {
            assert(ls[i] == lines::strip_cr(pieces[i]));
            lemma_strip_cr(pieces[i]);
        }
    }
    if has_trimmed(ls, p) {
        let i = choose|i: int| 0 <= i < ls.len() && text::trimmed(#[trigger] ls[i]) == p;
        assert(text::trimmed(pieces[i]) == p);
    }
    if has_trimmed(pieces, p) {
        let i = choose|i: int| 0 <= i < pieces.len() && text::trimmed(#[trigger] pieces[i]) == p;
        if i >= ls.len() {
            assert(pieces[i] =~= Seq::empty());
            assert(text::trimmed(pieces[i]).len() == 0);
        }
        assert(text::trimmed(ls[i]) == p);
    }
}

proof fn lemma_trimmed_lines(s: Seq<char>, p: Seq<char>)
    requires
        p.len() > 0,
    ensures
        lines::trimmed_lines(s).contains(p) == has_trimmed(lines::split(s, '\n'), p),
{
    let ls = lines::lines(s);
    let ts = ls.map_values(|l: Seq<char>| text::trimmed(l));
    lemma_filled(ts);
    lemma_lines_are_pieces(s, p);
    if ts.contains(p) {
        let i = ts.index_of(p);
        assert(text::trimmed(ls[i]) == p);
    }
    if has_trimmed(ls, p) {
        let i = choose|i: int| 0 <= i < ls.len() && text::trimmed(#[trigger] ls[i]) == p;
        assert(ts[i] == p);
    }
}

proof fn lemma_without_comments(v: Seq<Seq<char>>)
    ensures
        forall|s: Seq<char>| #[trigger]
            seeds::without_comments(v).contains(s) <==> v.contains(s) && !"#"@.is_prefix_of(s),
    decreases v.len(),
{
    if v.len() > 0 {
        let init = v.drop_last();
        lemma_without_comments(init);
        assert(v =~= init.push(v.last()));
        let before = seeds::without_comments(init);
        assert forall|s: Seq<char>| #[trigger]
            seeds::without_comments(v).contains(s) <==> v.contains(s) && !"#"@.is_prefix_of(s) by {
            vstd::seq_lib::lemma_seq_contains_after_push(init, v.last(), s);
            vstd::seq_lib::lemma_seq_contains_after_push(before, v.last(), s);
            assert(before.contains(s) <==> init.contains(s) && !"#"@.is_prefix_of(s));
        }
    }
}

proof fn lemma_lines_without_feeds(s: Seq<char>)
    ensures
        forall|i: int|
            0 <= i < lines::lines(s).len() ==> !(#[trigger] lines::lines(s)[i]).contains('\n'),
{
    let pieces = lines::split(s, '\n');
    let ls = lines::lines(s);
    lines::split_pieces(s, '\n');
    assert forall|i: int| 0 <= i < ls.len() implies !(#[trigger] ls[i]).contains('\n') by {
        assert(!pieces[i].contains('\n'));
        if i < pieces.len() - 1 {
            assert(ls[i] == lines::strip_cr(pieces[i]));
        }
        assert forall|k: int| 0 <= k < ls[i].len() implies ls[i][k] != '\n' by {
            assert(ls[i][k] == pieces[i][k]);
        }
    }
}

/// The lines of what comes out of a merge are those that went in.
proof fn lemma_merged_pieces(content: Seq<char>, dist: Seq<char>, p: Seq<char>)
    requires
        p.len() > 0,
        has_trimmed(lines::split(content, '\n'), p) || has_trimmed(lines::split(dist, '\n'), p),
    ensures
        has_trimmed(lines::split(update::merged_gitignore(content, dist), '\n'), p),
{
    reveal_strlit("\n");
    assert("\n"@ =~= seq!['\n']);
    let all = content + "\n"@ + dist;
    let a = lines::split(content, '\n');
    let b = lines::split(dist, '\n');
    lines::split_of_both(content, '\n', dist);
    assert(lines::split(all, '\n') == a + b);
    assert(has_trimmed(a + b, p)) by {
        if has_trimmed(a, p) {
            let i = choose|i: int| 0 <= i < a.len() && text::trimmed(#[trigger] a[i]) == p;
            assert((a + b)[i] == a[i]);
        } else {
            let i = choose|i: int| 0 <= i < b.len() && text::trimmed(#[trigger] b[i]) == p;
            assert((a + b)[a.len() + i] == b[i]);
        }
    }
    lemma_lines_are_pieces(all, p);
    let ls = lines::lines(all);
    let i = choose|i: int| 0 <= i < ls.len() && text::trimmed(#[trigger] ls[i]) == p;
    let l = ls[i];
    assert(l.len() > 0);
    let kept = lines::filled(ls);
    lemma_filled(ls);
    assert(ls.contains(l));
    assert(kept.contains(l));
    let sorted = order::in_order(kept);
    order::in_order_sorts(kept);
    assert(sorted.contains(l));
    let unique = order::deduped(sorted);
    order::dedup_of_sorted(sorted);
    assert(unique.contains(l));
    lemma_lines_without_feeds(all);
    assert forall|k: int| 0 <= k < unique.len() implies !(#[trigger] unique[k]).contains('\n') by {
        let u = unique[k];
        assert(unique.contains(u));
        assert(sorted.contains(u));
        assert(kept.contains(u));
        assert(ls.contains(u));
        let j = ls.index_of(u);
        assert(!ls[j].contains('\n'));
    }
    lines::split_undoes_join(unique, '\n');
    let k = unique.index_of(l);
    assert(text::trimmed(unique[k]) == p);
}

/// Once the seed was folded into a project's `.gitignore`, none of its rules is missing there, and
/// none of the project's own was lost.
pub proof fn a_merge_keeps_every_rule(content: Seq<char>, dist: Seq<char>)
    ensures
        seeds::missing(
            seeds::patterns(dist),
            seeds::patterns(update::merged_gitignore(content, dist)),
        ).len() == 0,
        seeds::missing(
            seeds::patterns(content),
            seeds::patterns(update::merged_gitignore(content, dist)),
        ).len() == 0,
{
    let merged = update::merged_gitignore(content, dist);
    let there = seeds::patterns(merged);
    let from_dist = seeds::patterns(dist);
    let own = seeds::patterns(content);
    assert forall|p: Seq<char>| from_dist.contains(p) || own.contains(p) implies there.contains(
        p,
    ) by {
        lemma_without_comments(lines::trimmed_lines(dist));
        lemma_without_comments(lines::trimmed_lines(content));
        lemma_without_comments(lines::trimmed_lines(merged));
        lemma_filled(lines::lines(dist).map_values(|l: Seq<char>| text::trimmed(l)));
        lemma_filled(lines::lines(content).map_values(|l: Seq<char>| text::trimmed(l)));
        if from_dist.contains(p) {
            assert(lines::trimmed_lines(dist).contains(p));
        } else {
            assert(lines::trimmed_lines(content).contains(p));
        }
        lemma_trimmed_lines(dist, p);
        lemma_trimmed_lines(content, p);
        lemma_merged_pieces(content, dist, p);
        lemma_trimmed_lines(merged, p);
    }
    seeds::missing_is_the_difference(from_dist, there);
    seeds::missing_is_the_difference(own, there);
    let m = seeds::missing(from_dist, there);
    if m.len() > 0 {
        assert(m.contains(m[0]));
    }
    let n = seeds::missing(own, there);
    if n.len() > 0 {
        assert(n.contains(n[0]));
    }
}

/// Folding the seed in a second time changes nothing, where no line ends in a carriage return of
/// its own.
pub proof fn merging_again_changes_nothing(content: Seq<char>, dist: Seq<char>)
    requires
        forall|i: int|
            0 <= i < lines::lines(content + "\n"@ + dist).len() ==> lines::strip_cr(
                #[trigger] lines::lines(content + "\n"@ + dist)[i],
            ) == lines::lines(content + "\n"@ + dist)[i],
    ensures
        update::merged_gitignore(update::merged_gitignore(content, dist), dist)
            == update::merged_gitignore(content, dist),
{
    reveal_strlit("\n");
    assert("\n"@ =~= seq!['\n']);
    let all = content + "\n"@ + dist;
    let ls = lines::lines(all);
    let kept = lines::filled(ls);
    let unique = order::deduped(order::in_order(kept));
    lemma_filled(ls);
    order::in_order_sorts(kept);
    order::dedup_of_sorted(order::in_order(kept));
    lemma_lines_without_feeds(all);
    assert forall|k: int| 0 <= k < unique.len() implies !(#[trigger] unique[k]).contains('\n')
        && lines::strip_cr(unique[k]) == unique[k] && unique[k].len() > 0 by {
        let u = unique[k];
        assert(unique.contains(u));
        assert(order::in_order(kept).contains(u));
        assert(kept.contains(u));
        assert(ls.contains(u));
        let j = ls.index_of(u);
        assert(!ls[j].contains('\n'));
        assert(lines::strip_cr(ls[j]) == ls[j]);
    }
    let merged = update::merged_gitignore(content, dist);
    assert(merged == lines::joined(unique, "\n"@));
    let pieces = lines::split(merged, '\n');
    let own = pieces.map_values(|l: Seq<char>| lines::strip_cr(l));
    if unique.len() > 0 {
        lines::split_undoes_join(unique, '\n');
        assert(own =~= unique);
    } else {
        assert(merged.len() == 0);
        assert(own.len() == 1 && own[0].len() == 0);
    }
    let again = merged + "\n"@ + dist;
    let theirs = lines::lines(dist);
    lines::lines_of_both(content, dist);
    lines::lines_of_both(merged, dist);
    assert(lines::lines(again) == own + theirs);
    let second = lines::filled(lines::lines(again));
    lemma_filled(lines::lines(again));
    order::in_order_sorts(second);
    order::dedup_of_sorted(order::in_order(second));
    let result = order::deduped(order::in_order(second));
    assert forall|s: Seq<char>| #[trigger] result.contains(s) <==> unique.contains(s) by {
        assert(result.contains(s) <==> order::in_order(second).contains(s));
        assert(order::in_order(second).contains(s) <==> second.contains(s));
        assert(second.contains(s) <==> (own + theirs).contains(s) && s.len() > 0);
        assert(unique.contains(s) <==> order::in_order(kept).contains(s));
        assert(order::in_order(kept).contains(s) <==> kept.contains(s));
        assert(kept.contains(s) <==> ls.contains(s) && s.len() > 0);
        if unique.contains(s) {
            let k = unique.index_of(s);
            assert(own[k] == s);
            assert((own + theirs)[k] == s);
        }
        if (own + theirs).contains(s) && s.len() > 0 {
            let k = (own + theirs).index_of(s);
            if k < own.len() {
                assert(own[k] == s);
                assert(unique[k] == s);
            } else {
                let first = ls.len() - theirs.len();
                assert(ls[first + (k - own.len())] == theirs[k - own.len()]);
                assert(ls.contains(s));
            }
        }
    }
    crate::table::ascending_is_unique(result, unique);
}

} // verus!
