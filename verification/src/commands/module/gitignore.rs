//! Keeping development checkouts out of the application's repository.
//!
//! The ignore rule is written below a marker. That is what makes it removable later: the
//! marker proves that the line is this tool's own, and not one the project already had.
use vstd::prelude::*;

use crate::lines;
use crate::lines::lines_of;
use crate::text;
use crate::text::{same, trim};

verus! {

/// The ignore rule for development checkouts.
pub const GITIGNORE_ENTRY: &'static str = "/modules/";

/// Written right above the rule.
pub const GITIGNORE_MARKER: &'static str = "# docker-control: development module checkouts";

/// Whether a line, without the white space around it, ignores the checkouts.
pub open spec fn ignores_modules(line: Seq<char>) -> bool {
    let l = text::trimmed(line);
    l == "/modules"@ || l == "/modules/"@ || l == "modules"@ || l == "modules/"@
}

/// Whether some line of a file ignores the checkouts.
pub open spec fn already_ignored(content: Seq<char>) -> bool {
    exists|i: int|
        0 <= i < lines::lines(content).len() && ignores_modules(
            #[trigger] lines::lines(content)[i],
        )
}

/// A file with the marker and the rule added at its end. Whether the file ended with a line
/// feed is kept.
pub open spec fn with_entry(content: Seq<char>) -> Seq<char> {
    if content.len() == 0 || content.last() == '\n' {
        content + GITIGNORE_MARKER@ + seq!['\n'] + GITIGNORE_ENTRY@ + seq!['\n']
    } else {
        content + seq!['\n'] + GITIGNORE_MARKER@ + seq!['\n'] + GITIGNORE_ENTRY@
    }
}

/// Whether two lines are the marker and the rule.
pub open spec fn is_pair(a: Seq<char>, b: Seq<char>) -> bool {
    text::trimmed(a) == GITIGNORE_MARKER@ && text::trimmed(b) == GITIGNORE_ENTRY@
}

/// The lines without every marker that stands right above the rule, and without that rule.
pub open spec fn without_pairs(ls: Seq<Seq<char>>) -> Seq<Seq<char>>
    decreases ls.len(),
{
    if ls.len() == 0 {
        ls
    } else if ls.len() >= 2 && is_pair(ls[0], ls[1]) {
        without_pairs(ls.skip(2))
    } else {
        seq![ls[0]] + without_pairs(ls.skip(1))
    }
}

/// What taking the rule out does to a file.
#[derive(Debug, Clone, PartialEq, Eq)]
pub enum GitignoreEdit {
    /// Nothing of this tool's own stands in it.
    Keep,
    /// Nothing else stood in it, so that it goes as a whole.
    Delete,
    Write(String),
}

/// What taking the rule out does to a file, with its content as a sequence of characters.
pub ghost enum EditView {
    Keep,
    Delete,
    Write(Seq<char>),
}

impl View for GitignoreEdit {
    type V = EditView;

    open spec fn view(&self) -> EditView {
        match *self {
            GitignoreEdit::Keep => EditView::Keep,
            GitignoreEdit::Delete => EditView::Delete,
            GitignoreEdit::Write(s) => EditView::Write(s@),
        }
    }
}

/// What is left of a file once the marked rule is taken out.
pub open spec fn without_entry(content: Seq<char>) -> EditView {
    let ls = lines::lines(content);
    let kept = without_pairs(ls);
    let rest = lines::joined(kept, seq!['\n']);
    if kept.len() == ls.len() {
        EditView::Keep
    } else if text::trimmed(rest).len() == 0 {
        EditView::Delete
    } else if content.len() > 0 && content.last() == '\n' {
        EditView::Write(rest + seq!['\n'])
    } else {
        EditView::Write(rest)
    }
}

fn ignores(line: &str) -> (r: bool)
    ensures
        r == ignores_modules(line@),
{
    let l = trim(line);
    let l = l.as_str();
    same(l, "/modules") || same(l, "/modules/") || same(l, "modules") || same(l, "modules/")
}

fn ends_with_newline(s: &str) -> (r: bool)
    ensures
        r == (s@.len() > 0 && s@.last() == '\n'),
{
    let v = text::chars_of(s);
    let n: usize = v.len();
    n > 0 && v[n - 1] == '\n'
}

/// Adds the rule for development checkouts, below its marker. `None` where the file already
/// ignores them. An absent file counts as an empty one.
pub fn ensure_modules_gitignored(content: &str) -> (r: Option<String>)
    ensures
        r is None <==> already_ignored(content@),
        r matches Some(s) ==> s@ == with_entry(content@),
{
    let ls = lines_of(content);
    let ghost all = text::texts(ls@);
    let mut i: usize = 0;
    while i < ls.len()
        invariant
            i <= ls@.len(),
            all == text::texts(ls@),
            all == lines::lines(content@),
            forall|k: int| 0 <= k < i ==> !ignores_modules(#[trigger] all[k]),
        decreases ls@.len() - i,
    {
        if ignores(ls[i].as_str()) {
            assert(ignores_modules(lines::lines(content@)[i as int]));
            return None;
        }
        assert(all[i as int] == ls@[i as int]@);
        i += 1;
    }
    let keep_newline = content.is_empty() || ends_with_newline(content);
    let mut s = text::owned(content);
    if !keep_newline {
        s.push('\n');
    }
    s.append(GITIGNORE_MARKER);
    s.push('\n');
    s.append(GITIGNORE_ENTRY);
    if keep_newline {
        s.push('\n');
    }
    assert(s@ =~= with_entry(content@));
    Some(s)
}

/// Takes the rule out again, only where the marker stands right above it. A rule the project
/// added itself stays, and so does a marker whose rule was edited.
pub fn remove_modules_gitignore(content: &str) -> (r: GitignoreEdit)
    ensures
        r@ == without_entry(content@),
{
    let ls = lines_of(content);
    let ghost all = text::texts(ls@);
    let n: usize = ls.len();
    let mut kept: Vec<String> = Vec::new();
    let mut i: usize = 0;
    assert(all.skip(0) =~= all);
    assert(text::texts(kept@) + without_pairs(all.skip(0)) =~= without_pairs(all));
    while i < n
        invariant
            i <= n == ls@.len(),
            all == text::texts(ls@),
            kept@.len() <= i,
            text::texts(kept@) + without_pairs(all.skip(i as int)) == without_pairs(all),
        decreases n - i,
    {
        let ghost rest = all.skip(i as int);
        let ghost before = text::texts(kept@);
        assert(rest[0] == ls@[i as int]@);
        let mut pair = false;
        if i + 1 < n {
            assert(rest[1] == ls@[i + 1]@);
            pair = same(trim(ls[i].as_str()).as_str(), GITIGNORE_MARKER)
                && same(trim(ls[i + 1].as_str()).as_str(), GITIGNORE_ENTRY);
        }
        if pair {
            assert(rest.skip(2) =~= all.skip(i + 2));
            i += 2;
        } else {
            kept.push(ls[i].clone());
            proof {
                assert(text::texts(kept@) =~= before.push(rest[0]));
                assert(rest.skip(1) =~= all.skip(i + 1));
                assert(before.push(rest[0]) + without_pairs(all.skip(i + 1)) =~= before + (
                seq![rest[0]] + without_pairs(all.skip(i + 1))));
            }
            i += 1;
        }
    }
    proof {
        assert(all.skip(i as int) =~= Seq::empty());
        assert(text::texts(kept@) =~= without_pairs(all));
    }
    if kept.len() == n {
        return GitignoreEdit::Keep;
    }
    let mut rest = lines::join(&kept, "\n");
    proof {
        reveal_strlit("\n");
        assert("\n"@ =~= seq!['\n']);
    }
    if trim(rest.as_str()).as_str().is_empty() {
        return GitignoreEdit::Delete;
    }
    if ends_with_newline(content) {
        rest.push('\n');
        assert(rest@ =~= lines::joined(without_pairs(all), seq!['\n']) + seq!['\n']);
    }
    GitignoreEdit::Write(rest)
}

// ---------------------------------------------------------------- laws

proof fn lemma_no_white_ends(s: Seq<char>)
    requires
        s.len() > 0,
        !text::is_white(s[0]),
        !text::is_white(s.last()),
    ensures
        text::trimmed(s) == s,
{
}

proof fn lemma_literals()
    ensures
        text::trimmed(GITIGNORE_MARKER@) == GITIGNORE_MARKER@,
        text::trimmed(GITIGNORE_ENTRY@) == GITIGNORE_ENTRY@,
        GITIGNORE_MARKER@ != GITIGNORE_ENTRY@,
        !GITIGNORE_MARKER@.contains('\n'),
        !GITIGNORE_ENTRY@.contains('\n'),
        GITIGNORE_MARKER@.len() > 0,
        GITIGNORE_ENTRY@.len() > 0,
        GITIGNORE_MARKER@.last() != '\r',
        GITIGNORE_ENTRY@.last() != '\r',
{
    reveal_strlit("# docker-control: development module checkouts");
    reveal_strlit("/modules/");
    lemma_no_white_ends(GITIGNORE_MARKER@);
    lemma_no_white_ends(GITIGNORE_ENTRY@);
    assert(GITIGNORE_MARKER@.len() != GITIGNORE_ENTRY@.len());
}

/// Whether no line of a file ends with a carriage return.
pub open spec fn no_carriage_returns(content: Seq<char>) -> bool {
    forall|i: int|
        0 <= i < lines::split(content, '\n').len() ==> {
            let piece = #[trigger] lines::split(content, '\n')[i];
            piece.len() == 0 || piece.last() != '\r'
        }
}

proof fn lemma_pair_is_found(pieces: Seq<Seq<char>>)
    requires
        forall|i: int|
            0 <= i < pieces.len() ==> text::trimmed(#[trigger] pieces[i]) != GITIGNORE_ENTRY@,
    ensures
        without_pairs(pieces + seq![GITIGNORE_MARKER@, GITIGNORE_ENTRY@]) == pieces,
    decreases pieces.len(),
{
    lemma_literals();
    let own = seq![GITIGNORE_MARKER@, GITIGNORE_ENTRY@];
    let ls = pieces + own;
    if pieces.len() == 0 {
        assert(ls[0] == GITIGNORE_MARKER@);
        assert(ls[1] == GITIGNORE_ENTRY@);
        assert(ls.skip(2) =~= Seq::empty());
        assert(without_pairs(ls.skip(2)) =~= pieces);
    } else {
        let rest = pieces.skip(1);
        assert forall|i: int| 0 <= i < rest.len() implies text::trimmed(#[trigger] rest[i])
            != GITIGNORE_ENTRY@ by {
            assert(rest[i] == pieces[i + 1]);
        }
        lemma_pair_is_found(rest);
        assert(ls.skip(1) =~= rest + own);
        if pieces.len() > 1 {
            assert(ls[1] == pieces[1]);
        } else {
            assert(ls[1] == GITIGNORE_MARKER@);
        }
        assert(!is_pair(ls[0], ls[1]));
        assert(seq![ls[0]] + rest =~= pieces);
    }
}

proof fn lemma_pieces_are_lines(content: Seq<char>)
    requires
        no_carriage_returns(content),
        !already_ignored(content),
    ensures
        forall|i: int|
            0 <= i < lines::split(content, '\n').len() ==> text::trimmed(
                #[trigger] lines::split(content, '\n')[i],
            ) != GITIGNORE_ENTRY@,
{
    let pieces = lines::split(content, '\n');
    let ls = lines::lines(content);
    lines::split_pieces(content, '\n');
    lemma_literals();
    assert forall|i: int| 0 <= i < pieces.len() implies text::trimmed(#[trigger] pieces[i])
        != GITIGNORE_ENTRY@ by {
        if i < pieces.len() - 1 {
            assert(lines::strip_cr(pieces[i]) == pieces[i]);
            assert(ls[i] == pieces[i]);
            assert(!ignores_modules(ls[i]));
        } else if pieces[i].len() > 0 {
            assert(ls[i] == pieces[i]);
            assert(!ignores_modules(ls[i]));
        } else {
            assert(text::trimmed(pieces[i]).len() == 0);
        }
    }
}

proof fn lemma_lines_with_entry(content: Seq<char>)
    requires
        no_carriage_returns(content),
    ensures
        ({
            let own = seq![GITIGNORE_MARKER@, GITIGNORE_ENTRY@];
            lines::lines(with_entry(content)) == if content.len() == 0 {
                own
            } else if content.last() == '\n' {
                lines::split(content.drop_last(), '\n') + own
            } else {
                lines::split(content, '\n') + own
            }
        }),
{
    lemma_literals();
    let m = GITIGNORE_MARKER@;
    let e = GITIGNORE_ENTRY@;
    let own = seq![m, e];
    let all = with_entry(content);
    let nl = seq!['\n'];
    lines::split_of_one(m, '\n');
    lines::split_of_one(e, '\n');
    lines::split_of_one(Seq::<char>::empty(), '\n');
    lines::split_of_both(m, '\n', e);
    lines::split_of_both(e, '\n', Seq::<char>::empty());
    assert(e + nl + Seq::<char>::empty() =~= e + nl);
    lines::split_of_both(m, '\n', e + nl);
    assert(lines::split(e + nl, '\n') =~= seq![e, Seq::<char>::empty()]);
    assert(lines::split(m + nl + (e + nl), '\n') =~= seq![m, e, Seq::<char>::empty()]);
    assert(lines::split(m + nl + e, '\n') =~= own);
    lines::split_pieces(content, '\n');
    if content.len() == 0 {
        assert(all =~= m + nl + (e + nl));
        let pieces = lines::split(all, '\n');
        assert(pieces.drop_last() =~= own);
        assert(lines::lines(all) =~= own);
    } else if content.last() == '\n' {
        let c = content.drop_last();
        lines::split_of_both(c, '\n', m + nl + (e + nl));
        assert(all =~= c + nl + (m + nl + (e + nl)));
        let pieces = lines::split(all, '\n');
        assert(pieces.drop_last() =~= lines::split(c, '\n') + own);
        assert(lines::split(content, '\n') == lines::split(c, '\n').push(Seq::empty()));
        assert forall|i: int| 0 <= i < pieces.len() - 1 implies lines::strip_cr(
            #[trigger] pieces[i],
        ) == pieces[i] by {
            if i < lines::split(c, '\n').len() {
                assert(lines::split(content, '\n')[i] == pieces[i]);
            } else if i == lines::split(c, '\n').len() {
                assert(pieces[i] == m);
            } else {
                assert(pieces[i] == e);
            }
        }
        assert(lines::lines(all) =~= lines::split(c, '\n') + own);
    } else {
        lines::split_of_both(content, '\n', m + nl + e);
        assert(all =~= content + nl + (m + nl + e));
        let pieces = lines::split(all, '\n');
        assert(pieces =~= lines::split(content, '\n') + own);
        assert forall|i: int| 0 <= i < pieces.len() - 1 implies lines::strip_cr(
            #[trigger] pieces[i],
        ) == pieces[i] by {
            if i < lines::split(content, '\n').len() {
                assert(lines::split(content, '\n')[i] == pieces[i]);
            } else {
                assert(pieces[i] == m);
            }
        }
        assert(lines::lines(all) =~= pieces);
    }
}

/// The content that a file is read with: nothing where it is absent.
pub open spec fn read(file: Option<Seq<char>>) -> Seq<char> {
    match file {
        Some(c) => c,
        None => Seq::empty(),
    }
}

/// Adding the rule and taking it out again leaves the file as it was found, character for
/// character: an absent file is absent again.
///
/// Two kinds of file are left out. Lines are put together again with line feeds alone, so a
/// carriage return before one is lost. And a file that holds nothing but white space is not
/// told apart from one that was created for the rule, and goes with it.
pub proof fn adding_and_removing_the_entry_changes_nothing(file: Option<Seq<char>>)
    requires
        !already_ignored(read(file)),
        no_carriage_returns(read(file)),
        file matches Some(c) ==> text::trimmed(c).len() > 0,
    ensures
        without_entry(with_entry(read(file))) == (match file {
            Some(c) => EditView::Write(c),
            None => EditView::Delete,
        }),
{
    let content = read(file);
    let nl = seq!['\n'];
    let all = with_entry(content);
    let own = seq![GITIGNORE_MARKER@, GITIGNORE_ENTRY@];
    lemma_literals();
    lemma_lines_with_entry(content);
    lemma_pieces_are_lines(content);
    let pieces = if content.len() == 0 {
        Seq::empty()
    } else if content.last() == '\n' {
        lines::split(content.drop_last(), '\n')
    } else {
        lines::split(content, '\n')
    };
    assert(lines::lines(all) =~= pieces + own);
    if content.len() > 0 && content.last() == '\n' {
        assert forall|i: int| 0 <= i < pieces.len() implies text::trimmed(#[trigger] pieces[i])
            != GITIGNORE_ENTRY@ by {
            assert(lines::split(content, '\n')[i] == pieces[i]);
        }
    }
    lemma_pair_is_found(pieces);
    let rest = lines::joined(pieces, nl);
    if content.len() == 0 {
        assert(file is None) by {
            if let Some(c) = file {
                assert(text::trimmed(c).len() == 0);
            }
        }
        assert(rest =~= Seq::empty());
    } else if content.last() == '\n' {
        lines::join_undoes_split(content.drop_last(), '\n');
        assert(rest + nl =~= content);
        lemma_trim_drops_newline(content);
        assert(all.last() == '\n');
    } else {
        lines::join_undoes_split(content, '\n');
        assert(rest =~= content);
        assert(all.last() == GITIGNORE_ENTRY@.last());
        assert(GITIGNORE_ENTRY@.last() != '\n');
    }
}

proof fn lemma_trim_drops_newline(s: Seq<char>)
    requires
        s.len() > 0,
        s.last() == '\n',
    ensures
        text::trimmed(s) == text::trimmed(s.drop_last()),
    decreases s.len(),
{
    let t = s.drop_last();
    if t.len() > 0 && text::is_white(s[0]) {
        assert(s.drop_first().drop_last() =~= t.drop_first());
        lemma_trim_drops_newline(s.drop_first());
    } else if t.len() == 0 {
        assert(s.drop_first() =~= Seq::empty());
        assert(t =~= Seq::empty());
    }
}

/// Once the rule was added it is not added a second time.
pub proof fn the_entry_is_added_once(content: Seq<char>)
    ensures
        already_ignored(with_entry(content)),
{
    lemma_literals();
    let m = GITIGNORE_MARKER@;
    let e = GITIGNORE_ENTRY@;
    let nl = seq!['\n'];
    let all = with_entry(content);
    lines::split_of_one(e, '\n');
    lines::split_of_one(Seq::<char>::empty(), '\n');
    lines::split_of_both(e, '\n', Seq::<char>::empty());
    assert(e + nl + Seq::<char>::empty() =~= e + nl);
    assert(lines::split(e + nl, '\n') =~= seq![e, Seq::<char>::empty()]);
    let pieces = lines::split(all, '\n');
    let ls = lines::lines(all);
    let k = ls.len() - 1;
    if content.len() == 0 || content.last() == '\n' {
        let head = content + m;
        lines::split_pieces(head, '\n');
        lines::split_of_both(head, '\n', e + nl);
        assert(all =~= head + nl + (e + nl));
        assert(pieces.drop_last().last() == e);
        assert(ls[k] == e);
    } else {
        let head = content + nl + m;
        lines::split_pieces(head, '\n');
        lines::split_of_both(head, '\n', e);
        assert(all =~= head + nl + e);
        assert(ls[k] == e);
    }
    assert(ignores_modules(lines::lines(with_entry(content))[k]));
}

/// A file without the marker is never touched, whatever it ignores.
pub proof fn an_unmarked_entry_is_never_removed(content: Seq<char>)
    requires
        forall|i: int|
            0 <= i < lines::lines(content).len() ==> text::trimmed(
                #[trigger] lines::lines(content)[i],
            ) != GITIGNORE_MARKER@,
    ensures
        without_entry(content) == EditView::Keep,
{
    lemma_nothing_marked(lines::lines(content));
}

proof fn lemma_nothing_marked(ls: Seq<Seq<char>>)
    requires
        forall|i: int|
            0 <= i < ls.len() ==> text::trimmed(#[trigger] ls[i]) != GITIGNORE_MARKER@,
    ensures
        without_pairs(ls) == ls,
    decreases ls.len(),
{
    if ls.len() > 0 {
        let rest = ls.skip(1);
        assert forall|i: int| 0 <= i < rest.len() implies text::trimmed(#[trigger] rest[i])
            != GITIGNORE_MARKER@ by {
            assert(rest[i] == ls[i + 1]);
        }
        lemma_nothing_marked(rest);
        assert(seq![ls[0]] + rest =~= ls);
    }
}

} // verus!
