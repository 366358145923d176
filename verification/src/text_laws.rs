//! What holds of the operations on text that everything else is written with.
use vstd::prelude::*;

use crate::edit;
use crate::json;
use crate::lines;
use crate::number;
use crate::order;
use crate::paths;
use crate::shell;
use crate::text;

verus! {

// ---------------------------------------------------------------- white space

/// Whether a text is white space throughout.
pub open spec fn blank(s: Seq<char>) -> bool {
    forall|i: int| 0 <= i < s.len() ==> text::is_white(#[trigger] s[i])
}

proof fn lemma_trim_start(a: Seq<char>, s: Seq<char>)
    requires
        blank(a),
        s.len() > 0 ==> !text::is_white(s[0]),
    ensures
        text::trim_start(a + s) == s,
    decreases a.len(),
{
    let all = a + s;
    if a.len() == 0 {
        assert(all =~= s);
    } else {
        assert(all[0] == a[0]);
        let w = a.drop_first();
        assert forall|i: int| 0 <= i < w.len() implies text::is_white(#[trigger] w[i]) by {
            assert(w[i] == a[i + 1]);
        }
        assert(all.drop_first() =~= w + s);
        lemma_trim_start(w, s);
    }
}

proof fn lemma_trim_end(s: Seq<char>, b: Seq<char>)
    requires
        blank(b),
        s.len() > 0 ==> !text::is_white(s.last()),
    ensures
        text::trim_end(s + b) == s,
    decreases b.len(),
{
    let all = s + b;
    if b.len() == 0 {
        assert(all =~= s);
    } else {
        assert(all.last() == b[b.len() - 1]);
        let w = b.drop_last();
        assert forall|i: int| 0 <= i < w.len() implies text::is_white(#[trigger] w[i]) by {
            assert(w[i] == b[i]);
        }
        assert(all.drop_last() =~= s + w);
        lemma_trim_end(s, w);
    }
}

/// Trimming takes all white space from both ends, and nothing else.
pub proof fn only_the_ends_are_trimmed(
    s: &str,
    a: Seq<char>,
    core: Seq<char>,
    b: Seq<char>,
    r: String,
)
    requires
        call_ensures(text::trim, (s,), r),
        s@ == a + (core + b),
        blank(a),
        blank(b),
        core.len() > 0,
        !text::is_white(core[0]),
        !text::is_white(core.last()),
    ensures
        r@ == core,
{
    lemma_trim_start(a, core + b);
    lemma_trim_end(core, b);
}

/// White space is the space, the characters from tab to carriage return, and what Unicode counts
/// besides; no other character of ASCII is.
pub proof fn white_space_of_ascii(c: char, r: bool)
    requires
        call_ensures(text::is_white_char, (c,), r),
    ensures
        c == ' ' || c == '\n' || c == '\t' || c == '\r' ==> r,
        '!' <= c && c <= '~' ==> !r,
{
}

// ---------------------------------------------------------------- searching

/// What is found stands where it was found and nowhere before; what is not found stands nowhere.
pub proof fn the_first_place_is_found(
    s: &str,
    pat: &str,
    a: Seq<char>,
    b: Seq<char>,
    r: Option<usize>,
    there: bool,
)
    requires
        call_ensures(text::find, (s, pat), r),
        call_ensures(text::contains, (s, pat), there),
    ensures
        r is Some <==> there,
        s@ == a + pat@ + b ==> there && r->0 <= a.len(),
        r matches Some(i) ==> i + pat@.len() <= s@.len() && s@ == s@.take(i as int) + pat@
            + s@.skip(i + pat@.len()),
{
    if s@ == a + pat@ + b {
        let n = a.len() as int;
        assert(s@.subrange(n, n + pat@.len()) =~= pat@);
        assert(text::occurs_at(s@, pat@, n));
    }
    if let Some(i) = r {
        assert(text::occurs_at(s@, pat@, i as int));
        assert(s@ =~= s@.take(i as int) + pat@ + s@.skip(i + pat@.len()));
    }
}

/// What begins or ends a text can be taken from it, and what is left makes up the rest.
pub proof fn a_beginning_can_be_taken(
    s: &str,
    pat: &str,
    rest: Seq<char>,
    starts: bool,
    ends: bool,
    behind: Option<String>,
    before: Option<String>,
)
    requires
        call_ensures(text::starts_with, (s, pat), starts),
        call_ensures(text::ends_with, (s, pat), ends),
        call_ensures(text::strip_prefix, (s, pat), behind),
        call_ensures(text::strip_suffix, (s, pat), before),
    ensures
        s@ == pat@ + rest ==> starts && paths::opt(behind) == Some(rest),
        s@ == rest + pat@ ==> ends && paths::opt(before) == Some(rest),
        behind matches Some(t) ==> s@ == pat@ + t@,
        before matches Some(t) ==> s@ == t@ + pat@,
        starts <==> behind is Some,
        ends <==> before is Some,
{
    let n = pat@.len() as int;
    if s@ == pat@ + rest {
        assert(s@.subrange(0, n) =~= pat@);
        assert(s@.skip(n) =~= rest);
    }
    if s@ == rest + pat@ {
        assert(s@.subrange(s@.len() - n, s@.len() as int) =~= pat@);
        assert(s@.take(s@.len() - n) =~= rest);
    }
    if let Some(t) = behind {
        assert(s@.subrange(0, n) == pat@);
        assert(s@ =~= pat@ + t@);
    }
    if let Some(t) = before {
        assert(s@.subrange(s@.len() - n, s@.len() as int) == pat@);
        assert(s@ =~= t@ + pat@);
    }
}

/// A text is cut at the first separator from the left, or at the last from the right; without one
/// it is not cut.
pub proof fn a_text_is_cut_at_its_separator(
    s: &str,
    c: char,
    a: Seq<char>,
    b: Seq<char>,
    left: Option<(String, String)>,
    right: Option<(String, String)>,
)
    requires
        call_ensures(text::split_once, (s, c), left),
        call_ensures(text::rsplit_once, (s, c), right),
    ensures
        !s@.contains(c) ==> left is None && right is None,
        s@ == a + seq![c] + b && !a.contains(c) ==> (left matches Some(p) && p.0@ == a && p.1@ == b),
        s@ == a + seq![c] + b && !b.contains(c) ==> (right matches Some(p) && p.0@ == a && p.1@
            == b),
{
    if s@ == a + seq![c] + b && !a.contains(c) {
        text::cut_of_both(a, c, b);
    }
    if s@ == a + seq![c] + b && !b.contains(c) {
        text::cut_last_of_both(a, c, b);
    }
}

/// Only the given character is taken from the end, or from both ends, and all of it.
pub proof fn only_a_character_is_taken(s: &str, c: char, end: String, both: String)
    requires
        call_ensures(text::trim_end_char, (s, c), end),
        call_ensures(text::trim_char, (s, c), both),
    ensures
        end@.is_prefix_of(s@),
        end@.len() > 0 ==> end@.last() != c,
        forall|i: int| end@.len() <= i < s@.len() ==> #[trigger] s@[i] == c,
        both@.len() > 0 ==> both@[0] != c && both@.last() != c,
        s@.len() > 0 && s@[0] != c ==> both@ == end@,
{
    lemma_without_end(s@, c);
    lemma_without_ends(s@, c);
    assert(s@.subrange(0, end@.len() as int) =~= end@);
}

proof fn lemma_without_end(s: Seq<char>, c: char)
    ensures
        text::without_end(s, c).len() <= s.len(),
        text::without_end(s, c) == s.take(text::without_end(s, c).len() as int),
        text::without_end(s, c).len() > 0 ==> text::without_end(s, c).last() != c,
        forall|i: int| text::without_end(s, c).len() <= i < s.len() ==> #[trigger] s[i] == c,
    decreases s.len(),
{
    if s.len() > 0 && s.last() == c {
        let w = s.drop_last();
        lemma_without_end(w, c);
        let n = text::without_end(w, c).len() as int;
        assert(w.take(n) =~= s.take(n));
        assert forall|i: int| n <= i < s.len() implies #[trigger] s[i] == c by {
            if i < w.len() {
                assert(w[i] == s[i]);
            }
        }
    } else {
        assert(s.take(s.len() as int) =~= s);
    }
}

proof fn lemma_without_ends(s: Seq<char>, c: char)
    ensures
        text::without_ends(s, c).len() > 0 ==> text::without_ends(s, c)[0] != c
            && text::without_ends(s, c).last() != c,
    decreases s.len(),
{
    if s.len() > 0 && s[0] == c {
        lemma_without_ends(s.drop_first(), c);
    } else {
        lemma_without_end(s, c);
        let t = text::without_end(s, c);
        if t.len() > 0 {
            assert(t[0] == s.take(t.len() as int)[0]);
        }
    }
}

/// A prefix is taken from the beginning as often as it stands there.
pub proof fn a_prefix_is_taken_as_often_as_it_stands(
    s: &str,
    pat: &str,
    inner: &str,
    r: String,
    t: String,
)
    requires
        pat@.len() > 0,
        s@ == pat@ + inner@,
        call_ensures(text::trim_start_matches, (s, pat), r),
        call_ensures(text::trim_start_matches, (inner, pat), t),
    ensures
        r@ == t@,
        !pat@.is_prefix_of(inner@) ==> r@ == inner@,
{
    assert(s@.subrange(0, pat@.len() as int) =~= pat@);
    assert(s@.skip(pat@.len() as int) =~= inner@);
}

/// Letters of ASCII become lower case and everything else stays as it is.
pub proof fn only_capital_letters_change(s: &str, r: Vec<char>, i: int, c: char)
    requires
        call_ensures(text::to_lower, (s,), r),
        call_ensures(text::lower_char, (s@[i],), c),
        0 <= i < s@.len(),
    ensures
        r@.len() == s@.len(),
        r@[i] == c,
        'A' <= s@[i] && s@[i] <= 'Z' ==> c as u32 == s@[i] as u32 + 32,
        !('A' <= s@[i] && s@[i] <= 'Z') ==> c == s@[i],
{
}

/// A text is listed where one of the list is the same.
pub proof fn a_listed_text_is_found(list: &Vec<String>, s: &str, i: int, r: bool)
    requires
        call_ensures(text::is_listed, (list, s), r),
    ensures
        0 <= i < list@.len() && list@[i]@ == s@ ==> r,
        r ==> exists|k: int| 0 <= k < list@.len() && (#[trigger] list@[k])@ == s@,
{
    let t = text::texts(list@);
    assert(t.len() == list@.len());
    if 0 <= i < list@.len() && list@[i]@ == s@ {
        assert(t[i] == s@);
    }
    if r {
        let k = choose|k: int| 0 <= k < t.len() && t[k] == s@;
        assert(list@[k]@ == s@);
    }
}

// ---------------------------------------------------------------- lines

/// A line ends before its line feed, and before a carriage return in front of that; the rest of
/// the text has lines of its own.
pub proof fn a_line_ends_before_its_line_feed(
    s: &str,
    first: Seq<char>,
    rest: &str,
    r: Vec<String>,
    t: Vec<String>,
)
    requires
        call_ensures(lines::lines_of, (s,), r),
        call_ensures(lines::lines_of, (rest,), t),
        !first.contains('\n'),
        first.len() > 0 ==> first.last() != '\r',
        s@ == first + "\n"@ + rest@ || s@ == first + "\r"@ + "\n"@ + rest@,
    ensures
        text::texts(r@) == seq![first] + text::texts(t@),
{
    reveal_strlit("\r");
    let a = if s@ == first + "\n"@ + rest@ {
        first
    } else {
        first + "\r"@
    };
    assert(!a.contains('\n')) by {
        if a.contains('\n') {
            let i = choose|i: int| 0 <= i < a.len() && a[i] == '\n';
            if i < first.len() {
                assert(first[i] == '\n');
            }
        }
    }
    lines::lines_of_both(a, rest@);
    lines::split_of_one(a, '\n');
    let m = lines::split(a, '\n').map_values(|l: Seq<char>| lines::strip_cr(l));
    assert(m.len() == 1);
    assert(m[0] == lines::strip_cr(a));
    assert((first + "\r"@).drop_last() =~= first);
    assert(m =~= seq![first]);
}

/// A text without a line feed is one line, and an empty one has none.
pub proof fn a_text_without_line_feeds_is_one_line(s: &str, r: Vec<String>)
    requires
        call_ensures(lines::lines_of, (s,), r),
        !s@.contains('\n'),
    ensures
        s@.len() > 0 ==> text::texts(r@) == seq![s@],
        s@.len() == 0 ==> r@.len() == 0,
{
    lines::split_of_one(s@, '\n');
    let p = lines::split(s@, '\n');
    assert(text::texts(r@).len() == r@.len());
    assert(p.drop_last() =~= Seq::<Seq<char>>::empty());
    if s@.len() > 0 {
        assert(text::texts(r@) =~= seq![s@]);
    }
}

/// Splitting and joining undo each other.
pub proof fn joining_undoes_splitting(
    s: &str,
    sep: char,
    sep_text: &str,
    pieces: &Vec<String>,
    r: String,
    i: int,
)
    requires
        sep_text@ == seq![sep],
        call_ensures(lines::split_at_char, (s, sep), *pieces),
        call_ensures(lines::join, (pieces, sep_text), r),
    ensures
        r@ == s@,
        pieces@.len() > 0,
        0 <= i < pieces@.len() ==> !pieces@[i]@.contains(sep),
{
    lines::join_undoes_split(s@, sep);
    lines::split_pieces(s@, sep);
    let t = text::texts(pieces@);
    assert(t.len() == pieces@.len());
    if 0 <= i < pieces@.len() {
        assert(t[i] == pieces@[i]@);
    }
}

/// Joining puts the separator between two pieces and nowhere else.
pub proof fn a_separator_stands_between_two_pieces(
    parts: &Vec<String>,
    more: &Vec<String>,
    last: &str,
    sep: &str,
    r: String,
    s: String,
)
    requires
        text::texts(more@) == text::texts(parts@).push(last@),
        call_ensures(lines::join, (parts, sep), r),
        call_ensures(lines::join, (more, sep), s),
    ensures
        parts@.len() == 0 ==> s@ == last@ && r@ == Seq::<char>::empty(),
        parts@.len() > 0 ==> s@ == r@ + sep@ + last@,
{
    let m = text::texts(more@);
    assert(text::texts(parts@).len() == parts@.len());
    assert(m.drop_last() =~= text::texts(parts@));
}

/// Words are what stands between white space, however much of it there is.
pub proof fn words_stand_between_white_space(
    s: &str,
    word: Seq<char>,
    c: char,
    rest: &str,
    r: Vec<String>,
    t: Vec<String>,
)
    requires
        call_ensures(lines::words_of, (s,), r),
        call_ensures(lines::words_of, (rest,), t),
        s@ == word + seq![c] + rest@,
        text::is_white(c),
        lines::no_white(word),
    ensures
        word.len() > 0 ==> text::texts(r@) == seq![word] + text::texts(t@),
        word.len() == 0 ==> text::texts(r@) == text::texts(t@),
{
    lines::split_white_of_both(word, c, rest@);
    lines::split_white_of_one(word);
    lemma_filled_both(seq![word], lines::split_white(rest@));
    reveal_with_fuel(lines::filled, 2);
    assert(seq![word].drop_last() =~= Seq::<Seq<char>>::empty());
    if word.len() > 0 {
        assert(lines::filled(seq![word]) =~= seq![word]);
    } else {
        assert(text::texts(r@) =~= text::texts(t@));
    }
}

proof fn lemma_filled_both(a: Seq<Seq<char>>, b: Seq<Seq<char>>)
    ensures
        lines::filled(a + b) == lines::filled(a) + lines::filled(b),
    decreases b.len(),
{
    let all = a + b;
    if b.len() == 0 {
        assert(all =~= a);
        assert(lines::filled(b) =~= Seq::<Seq<char>>::empty());
        assert(lines::filled(a) + lines::filled(b) =~= lines::filled(a));
    } else {
        lemma_filled_both(a, b.drop_last());
        assert(all.drop_last() =~= a + b.drop_last());
        assert(all.last() == b.last());
        assert(lines::filled(all) =~= lines::filled(a) + lines::filled(b));
    }
}

/// Only what is empty is left out, and the rest keeps its order.
pub proof fn only_empty_texts_are_left_out(
    v: &Vec<String>,
    w: &Vec<String>,
    last: &str,
    r: Vec<String>,
    s: Vec<String>,
)
    requires
        text::texts(w@) == text::texts(v@).push(last@),
        call_ensures(lines::filled_of, (v,), r),
        call_ensures(lines::filled_of, (w,), s),
    ensures
        last@.len() > 0 ==> text::texts(s@) == text::texts(r@).push(last@),
        last@.len() == 0 ==> text::texts(s@) == text::texts(r@),
        v@.len() == 0 ==> r@.len() == 0,
{
    assert(text::texts(w@).drop_last() =~= text::texts(v@));
    assert(text::texts(v@).len() == v@.len());
    assert(text::texts(r@).len() == r@.len());
}

// ---------------------------------------------------------------- order

/// Texts are ordered like words in a dictionary: the first character that differs decides, and a
/// beginning comes before the whole.
pub proof fn the_first_difference_decides(
    a: &str,
    b: &str,
    common: Seq<char>,
    x: Seq<char>,
    y: Seq<char>,
    r: bool,
)
    requires
        call_ensures(order::less, (a, b), r),
        a@ == common + x,
        b@ == common + y,
    ensures
        x.len() > 0 && y.len() > 0 && x[0] != y[0] ==> (r <==> x[0] < y[0]),
        x.len() == 0 ==> (r <==> y.len() > 0),
        y.len() == 0 ==> !r,
{
    lemma_before(common, x, y);
}

proof fn lemma_before(common: Seq<char>, x: Seq<char>, y: Seq<char>)
    ensures
        order::before(common + x, common + y) == order::before(x, y),
    decreases common.len(),
{
    let a = common + x;
    let b = common + y;
    if common.len() == 0 {
        assert(a =~= x);
        assert(b =~= y);
    } else {
        assert(a[0] == b[0]);
        assert(a.drop_first() =~= common.drop_first() + x);
        assert(b.drop_first() =~= common.drop_first() + y);
        lemma_before(common.drop_first(), x, y);
    }
}

/// Sorting keeps every text, as often as it stands there, and puts none behind a greater one;
/// what stands twice in a sorted list is kept once.
pub proof fn sorting_keeps_every_text(
    v: &Vec<String>,
    r: &Vec<String>,
    unique: Vec<String>,
    s: Seq<char>,
    i: int,
    j: int,
)
    requires
        call_ensures(order::sort, (v,), *r),
        call_ensures(order::dedup, (r,), unique),
    ensures
        text::texts(r@).to_multiset() == text::texts(v@).to_multiset(),
        0 <= i < j < r@.len() ==> !order::before(text::texts(r@)[j], text::texts(r@)[i]),
        text::texts(unique@).contains(s) <==> text::texts(v@).contains(s),
        0 <= i < j < unique@.len() ==> order::before(
            text::texts(unique@)[i],
            text::texts(unique@)[j],
        ),
{
    let t = text::texts(v@);
    order::in_order_sorts(t);
    order::dedup_of_sorted(order::in_order(t));
    assert(text::texts(r@).len() == r@.len());
    assert(text::texts(unique@).len() == unique@.len());
    assert(order::in_order(t).contains(s) <==> t.contains(s));
}

// ---------------------------------------------------------------- numbers

/// A number is read back as it was written, where it is not too great.
pub proof fn a_number_is_read_back(n: u64, max: u64, w: String, s: &str, r: Option<u64>)
    requires
        call_ensures(number::to_decimal, (n,), w),
        s@ == w@,
        call_ensures(number::parse_up_to, (s, max), r),
    ensures
        n <= max ==> r == Some(n),
        n > max ==> r is None,
        w@.len() > 0,
{
    number::value_of_decimal(n as nat);
}

/// Nothing but digits, with a plus sign before them at most, is a number.
pub proof fn only_digits_are_numbers(s: &str, max: u64, r: Option<u64>, i: int)
    requires
        call_ensures(number::parse_up_to, (s, max), r),
    ensures
        s@.len() == 0 ==> r is None,
        0 < i < s@.len() && !text::is_digit(s@[i]) ==> r is None,
        s@.len() > 0 && !text::is_digit(s@[0]) && s@[0] != '+' ==> r is None,
        r matches Some(n) ==> n <= max,
{
    if 0 < i < s@.len() && !text::is_digit(s@[i]) {
        if s@[0] == '+' {
            assert(s@.skip(1)[i - 1] == s@[i]);
        }
    }
}

// ---------------------------------------------------------------- paths

/// A path is put below a directory with one slash between them; an absolute one stays what it is.
pub proof fn a_path_is_put_below_a_directory(base: &str, rel: &str, r: String)
    requires
        call_ensures(paths::join, (base, rel), r),
    ensures
        rel@.len() > 0 && rel@[0] == '/' ==> r@ == rel@,
        !(rel@.len() > 0 && rel@[0] == '/') && base@.len() > 0 && base@.last() != '/' ==> r@
            == base@ + seq!['/'] + rel@,
        !(rel@.len() > 0 && rel@[0] == '/') && base@.len() > 0 && base@.last() == '/' ==> r@
            == base@ + rel@,
        !(rel@.len() > 0 && rel@[0] == '/') && base@.len() == 0 ==> r@ == rel@,
{
    if base@.len() == 0 {
        assert(base@ + rel@ =~= rel@);
    }
}

/// The name of a file is what follows the last slash, and its directory is what comes before.
pub proof fn a_path_is_its_directory_and_its_name(
    path: &str,
    dir: Seq<char>,
    name: Seq<char>,
    file: Option<String>,
    parent: Option<String>,
)
    requires
        call_ensures(paths::file_name, (path,), file),
        call_ensures(paths::parent, (path,), parent),
        path@ == dir + seq!['/'] + name,
        name.len() > 0,
        !name.contains('/'),
        name != "."@,
        name != ".."@,
        dir.len() > 0,
        dir.last() != '/',
        dir.last() != '.',
    ensures
        paths::opt(file) == Some(name),
        paths::opt(parent) == Some(dir),
{
    reveal_strlit(".");
    assert(path@.last() == name.last());
    assert(name[name.len() - 1] != '/');
    if name.last() == '.' {
        if name.len() == 1 {
            assert(name =~= "."@);
        } else {
            assert(path@[path@.len() - 2] == name[name.len() - 2]);
        }
    }
    reveal_with_fuel(paths::settled, 3);
    assert(paths::settled(path@) == path@);
    text::cut_last_of_both(dir, '/', name);
    assert(path@[0] == dir[0]);
    assert(path@ != seq!['/']) by {
        assert(path@.len() > 1);
    }
    let d = dir + seq!['/'];
    assert(d.drop_last() =~= dir);
}

proof fn lemma_counted_both(a: Seq<Seq<char>>, b: Seq<Seq<char>>)
    requires
        a.len() > 0,
    ensures
        paths::counted(a).is_prefix_of(paths::counted(a + b)),
    decreases b.len(),
{
    let all = a + b;
    if b.len() == 0 {
        assert(all =~= a);
        let c = paths::counted(a);
        assert(c.subrange(0, c.len() as int) =~= c);
    } else {
        lemma_counted_both(a, b.drop_last());
        assert(all.drop_last() =~= a + b.drop_last());
        let c = paths::counted(a);
        let w = paths::counted(all.drop_last());
        let t = paths::counted(all);
        assert(t.subrange(0, c.len() as int) =~= w.subrange(0, c.len() as int));
    }
}

/// What follows a directory and a slash lies below it, and a directory lies below itself.
pub proof fn what_follows_a_directory_lies_below_it(
    path: &str,
    dir: &str,
    rel: Seq<char>,
    r: bool,
    itself: bool,
)
    requires
        call_ensures(paths::lies_below, (path, dir), r),
        call_ensures(paths::lies_below, (dir, dir), itself),
        path@ == dir@ + seq!['/'] + rel,
        dir@.len() > 0,
    ensures
        r,
        itself,
{
    lines::split_of_both(dir@, '/', rel);
    lines::split_pieces(dir@, '/');
    let a = lines::split(dir@, '/');
    lemma_counted_both(a, lines::split(rel, '/'));
    assert(path@[0] == dir@[0]);
    let x = paths::components(dir@);
    let y = paths::components(path@);
    let c = paths::counted(a);
    let d = paths::counted(lines::split(path@, '/'));
    assert(d.subrange(0, c.len() as int) =~= c);
    assert(y.subrange(0, x.len() as int) =~= x);
    assert(x.subrange(0, x.len() as int) =~= x);
}

/// Of some places the first that exists is taken.
pub proof fn the_first_existing_place_is_taken(
    candidates: &Vec<String>,
    existing: &Vec<String>,
    r: Option<String>,
)
    requires
        call_ensures(paths::find_existing, (candidates, existing), r),
    ensures
        candidates@.len() > 0 && text::texts(existing@).contains(text::texts(candidates@)[0])
            ==> paths::opt(r) == Some(text::texts(candidates@)[0]),
        r matches Some(p) ==> text::texts(existing@).contains(p@) && text::texts(
            candidates@,
        ).contains(p@),
        candidates@.len() == 0 ==> r is None,
{
    assert(text::texts(candidates@).len() == candidates@.len());
    lemma_first_existing(text::texts(candidates@), text::texts(existing@));
}

proof fn lemma_first_existing(c: Seq<Seq<char>>, e: Seq<Seq<char>>)
    ensures
        paths::first_existing(c, e) matches Some(p) ==> e.contains(p) && c.contains(p),
    decreases c.len(),
{
    if c.len() > 0 {
        let w = c.drop_first();
        lemma_first_existing(w, e);
        if !e.contains(c[0]) {
            if let Some(p) = paths::first_existing(w, e) {
                let i = choose|i: int| 0 <= i < w.len() && w[i] == p;
                assert(c[i + 1] == p);
            }
        }
    }
}

// ---------------------------------------------------------------- replacing

/// What stands once is replaced in its place, and everything around it is kept; a text that does
/// not hold it is kept as it is.
pub proof fn what_stands_once_is_replaced(
    s: &str,
    pat: &str,
    with: &str,
    a: Seq<char>,
    b: Seq<char>,
    first: String,
    all: String,
)
    requires
        pat@.len() > 0,
        call_ensures(edit::replace_first, (s, pat, with), first),
        call_ensures(edit::replace, (s, pat, with), all),
    ensures
        !text::has_text(s@, pat@) ==> first@ == s@ && all@ == s@,
        s@ == a + pat@ + b && !text::has_text(a + pat@.drop_last(), pat@) ==> first@ == a + with@
            + b,
        s@ == a + pat@ + b && !text::has_text(a + pat@.drop_last(), pat@) && !text::has_text(
            b,
            pat@,
        ) ==> all@ == a + with@ + b,
{
    if !text::has_text(s@, pat@) {
        edit::replaced_without(s@, pat@, with@);
    }
    if s@ == a + pat@ + b && !text::has_text(a + pat@.drop_last(), pat@) {
        lemma_found_at(s@, a, pat@, b);
        if !text::has_text(b, pat@) {
            edit::replaced_without(b, pat@, with@);
        }
    }
}

/// What stands once in a text is replaced in its place.
pub proof fn replaced_once(a: Seq<char>, p: Seq<char>, b: Seq<char>, with: Seq<char>)
    requires
        p.len() > 0,
        !text::has_text(a + p.drop_last(), p),
        !text::has_text(b, p),
    ensures
        edit::replaced(a + p + b, p, with) == a + with + b,
{
    lemma_found_at(a + p + b, a, p, b);
    edit::replaced_without(b, p, with);
}

proof fn lemma_found_at(s: Seq<char>, a: Seq<char>, p: Seq<char>, b: Seq<char>)
    requires
        s == a + p + b,
        p.len() > 0,
        !text::has_text(a + p.drop_last(), p),
    ensures
        edit::find_from(s, p, 0) == Some(a.len() as int),
        s.take(a.len() as int) == a,
        s.skip(a.len() as int + p.len() as int) == b,
{
    edit::find_from_first(s, p, 0);
    let n = a.len() as int;
    assert(s.subrange(n, n + p.len()) =~= p);
    assert(text::occurs_at(s, p, n));
    let i = edit::find_from(s, p, 0)->0;
    if i < n {
        let w = a + p.drop_last();
        assert(w.subrange(i, i + p.len()) =~= s.subrange(i, i + p.len()));
        assert(text::occurs_at(w, p, i));
    }
    assert(s.take(n) =~= a);
    assert(s.skip(n + p.len()) =~= b);
}

// ---------------------------------------------------------------- JSON

proof fn lemma_set(ms: Seq<(Seq<char>, Seq<char>)>, key: Seq<char>, value: Seq<char>, other: Seq<char>)
    ensures
        json::member(json::with_member(ms, key, value), key) == Some(value),
        other != key ==> json::member(json::with_member(ms, key, value), other) == json::member(
            ms,
            other,
        ),
        json::member(ms, key) is Some ==> json::with_member(ms, key, value).len() == ms.len(),
        json::member(ms, key) is None ==> json::with_member(ms, key, value) == ms.push(
            (key, value),
        ),
    decreases ms.len(),
{
    let r = json::with_member(ms, key, value);
    let none = Seq::<(Seq<char>, Seq<char>)>::empty();
    if ms.len() == 0 {
        assert(r[0] == (key, value));
        assert(r.drop_first() =~= none);
        assert(json::member(none, other) is None);
        assert(json::member(r, other) == (if other == key {
            Some(value)
        } else {
            json::member(none, other)
        }));
        assert(json::member(ms, other) is None);
        assert(r =~= ms.push((key, value)));
    } else {
        let w = ms.drop_first();
        if ms[0].0 == key {
            assert(r[0] == (key, value));
            assert(r.drop_first() =~= w);
            assert(other != key ==> json::member(r, other) == json::member(w, other));
            assert(other != key ==> json::member(ms, other) == json::member(w, other));
        } else {
            lemma_set(w, key, value, other);
            let t = json::with_member(w, key, value);
            assert(r[0] == ms[0]);
            assert(r.drop_first() =~= t);
            assert(json::member(r, key) == json::member(t, key));
            assert(ms[0].0 != other ==> json::member(r, other) == json::member(t, other));
            assert(json::member(ms, key) == json::member(w, key));
            if json::member(ms, key) is None {
                assert(r =~= ms.push((key, value)));
            }
        }
    }
}

/// Setting a member is read back and leaves every other member as it was; a new one comes last.
pub proof fn a_member_that_was_set_is_read_back(
    ms: &Vec<(String, String)>,
    key: &str,
    value: &str,
    other: &str,
    r: &Vec<(String, String)>,
    set: Option<String>,
    before: Option<String>,
    kept: Option<String>,
    old_value: Option<String>,
)
    requires
        call_ensures(json::set_member, (ms, key, value), *r),
        call_ensures(json::find_member, (r, key), set),
        call_ensures(json::find_member, (ms, other), before),
        call_ensures(json::find_member, (r, other), kept),
        call_ensures(json::find_member, (ms, key), old_value),
    ensures
        paths::opt(set) == Some(value@),
        other@ != key@ ==> paths::opt(kept) == paths::opt(before),
        old_value is Some ==> r@.len() == ms@.len(),
        old_value is None ==> json::pairs(r@) == json::pairs(ms@).push((key@, value@)),
{
    lemma_set(json::pairs(ms@), key@, value@, other@);
    assert(json::pairs(r@).len() == r@.len());
    assert(json::pairs(ms@).len() == ms@.len());
}

/// An object is written with a comma between two members, each with its key in quotes before a
/// colon.
pub proof fn an_object_is_written_member_by_member(
    ms: &Vec<(String, String)>,
    key: Seq<char>,
    value: Seq<char>,
    r: String,
)
    requires
        call_ensures(json::object, (ms,), r),
    ensures
        ms@.len() == 0 ==> r@ == "{"@ + "}"@,
        json::pairs(ms@) == seq![(key, value)] ==> r@ == "{"@ + (json::json_quoted(key) + ":"@
            + value) + "}"@,
{
    let all = json::pairs(ms@).map_values(
        |m: (Seq<char>, Seq<char>)| json::written_member(m),
    );
    assert(json::pairs(ms@).len() == ms@.len());
    reveal_with_fuel(lines::joined, 2);
    if ms@.len() == 0 {
        assert(all =~= Seq::<Seq<char>>::empty());
        assert(r@ =~= "{"@ + "}"@);
    }
    if json::pairs(ms@) == seq![(key, value)] {
        assert(all =~= seq![json::json_quoted(key) + ":"@ + value]);
    }
}

// ---------------------------------------------------------------- the shell

/// A quoted text is one word of a shell that is read back as it was, whatever it holds.
pub proof fn a_quoted_text_is_one_word(s: &str, r: String)
    requires
        call_ensures(shell::sq, (s,), r),
    ensures
        shell::one_word(r@, false) == Some(s@),
        r@.len() >= 2 && r@[0] == '\'' && r@.last() == '\'',
{
}

} // verus!
