//! The project files of PhpStorm. They are edited as text.
use vstd::prelude::*;

use crate::docker;
use crate::edit;
use crate::lines;
use crate::lines::lines_of;
use crate::paths;
use crate::text;
use crate::text::{chars_of, contains, same, string_of};

verus! {

// ---------------------------------------------------------------- excluded folders

/// The line that excludes a folder.
pub open spec fn exclude_entry(folder: Seq<char>) -> Seq<char> {
    "      <excludeFolder url=\"file://$MODULE_DIR$/"@ + folder + "\" />"@
}

fn exclude_entry_of(folder: &str) -> (r: String)
    ensures
        r@ == exclude_entry(folder@),
{
    let mut r = text::owned("      <excludeFolder url=\"file://$MODULE_DIR$/");
    r.append(folder);
    r.append("\" />");
    r
}

/// Excludes a folder in the text of a module file. `None` where it is excluded already.
pub fn exclude_from_phpstorm(content: &str, folder_name: &str) -> (r: Option<String>)
    ensures
        paths::opt(r) == (if text::has_text(content@, exclude_entry(folder_name@)) {
            None
        } else {
            Some(
                edit::replaced_first(
                    content@,
                    "</content>"@,
                    exclude_entry(folder_name@) + "\n    </content>"@,
                ),
            )
        }),
{
    let entry = exclude_entry_of(folder_name);
    if contains(content, entry.as_str()) {
        return None;
    }
    let mut with = entry;
    with.append("\n    </content>");
    Some(edit::replace_first(content, "</content>", with.as_str()))
}

/// Takes the exclusion of a folder out of the text of a module file. `None` where there is none.
pub fn remove_phpstorm_exclude(content: &str, folder_name: &str) -> (r: Option<String>)
    ensures
        paths::opt(r) == (if text::has_text(content@, exclude_entry(folder_name@) + "\n"@) {
            Some(edit::replaced(content@, exclude_entry(folder_name@) + "\n"@, ""@))
        } else {
            None
        }),
{
    let mut line = exclude_entry_of(folder_name);
    line.append("\n");
    if !contains(content, line.as_str()) {
        return None;
    }
    proof {
        reveal_strlit("\n");
        assert(line@.last() == '\n');
    }
    Some(edit::replace(content, line.as_str(), ""))
}

/// A folder that was excluded is found excluded afterwards, so it is not excluded twice.
pub proof fn excluding_is_done_once(content: Seq<char>, folder: Seq<char>)
    requires
        text::has_text(content, "</content>"@),
    ensures
        text::has_text(
            edit::replaced_first(
                content,
                "</content>"@,
                exclude_entry(folder) + "\n    </content>"@,
            ),
            exclude_entry(folder),
        ),
{
    let e = exclude_entry(folder);
    let u = edit::replaced_first(content, "</content>"@, e + "\n    </content>"@);
    edit::find_from_first(content, "</content>"@, 0);
    let i = edit::find_from(content, "</content>"@, 0)->0;
    assert(u.subrange(i, i + e.len()) =~= e);
    assert(text::occurs_at(u, e, i));
}

// ---------------------------------------------------------------- git roots

/// The element that registers a directory as a git root.
pub open spec fn mapping(relative_path: Seq<char>) -> Seq<char> {
    "<mapping directory=\"$PROJECT_DIR$/"@ + relative_path + "\" vcs=\"Git\" />"@
}

/// The line that registers a directory as a git root.
pub open spec fn vcs_mapping(relative_path: Seq<char>) -> Seq<char> {
    "    "@ + mapping(relative_path)
}

/// The line that registers a directory as a git root.
pub fn vcs_mapping_entry(relative_path: &str) -> (r: String)
    ensures
        r@ == vcs_mapping(relative_path@),
        text::trimmed(r@) == mapping(relative_path@),
{
    let mut m = text::owned("<mapping directory=\"$PROJECT_DIR$/");
    m.append(relative_path);
    m.append("\" vcs=\"Git\" />");
    let mut r = text::owned("    ");
    r.append(m.as_str());
    proof {
        lemma_mapping_trimmed(relative_path@);
    }
    r
}

proof fn lemma_mapping_trimmed(rel: Seq<char>)
    ensures
        text::trimmed(vcs_mapping(rel)) == mapping(rel),
        mapping(rel).len() > 1,
        mapping(rel)[0] == '<',
        mapping(rel).last() == '>',
        vcs_mapping(rel).last() == '>',
{
    let m = mapping(rel);
    let s = vcs_mapping(rel);
    reveal_strlit("    ");
    reveal_strlit("<mapping directory=\"$PROJECT_DIR$/");
    reveal_strlit("\" vcs=\"Git\" />");
    assert(s.drop_first() =~= seq![' ', ' ', ' '] + m);
    assert(s.drop_first().drop_first() =~= seq![' ', ' '] + m);
    assert(s.drop_first().drop_first().drop_first() =~= seq![' '] + m);
    assert(s.drop_first().drop_first().drop_first().drop_first() =~= m);
    reveal_with_fuel(text::trim_start, 5);
    assert(text::trim_start(s) == m);
    assert(m.last() == '>');
    assert(text::trim_end(m) == m);
}

/// A file that registers nothing yet.
pub open spec fn skeleton() -> Seq<char> {
    "<?xml version=\"1.0\" encoding=\"UTF-8\"?>\n<project version=\"4\">\n  <component name=\"VcsDirectoryMappings\">\n  </component>\n</project>"@
}

/// The text with a git root registered: at the end of the component that lists them, or in a new
/// one. `None` where that component is not closed.
pub open spec fn registered(content: Seq<char>, rel: Seq<char>) -> Option<Seq<char>> {
    match edit::find_from(content, "<component name=\"VcsDirectoryMappings\">"@, 0) {
        Some(k) => match edit::find_from(content, "</component>"@, k) {
            Some(j) => Some(content.take(j) + vcs_mapping(rel) + "\n  "@ + content.skip(j)),
            None => None,
        },
        None => Some(
            edit::replaced_first(
                content,
                "</project>"@,
                "  <component name=\"VcsDirectoryMappings\">\n"@ + vcs_mapping(rel)
                    + "\n  </component>\n</project>"@,
            ),
        ),
    }
}

fn find_after(v: &Vec<char>, pat: &Vec<char>, from: usize) -> (r: Option<usize>)
    ensures
        (match r {
            Some(i) => Some(i as int),
            None => None,
        }) == edit::find_from(v@, pat@, from as int),
        r matches Some(i) ==> i <= v@.len(),
{
    let n: usize = v.len();
    let m: usize = pat.len();
    if m > n || from > n - m {
        return None;
    }
    let mut i: usize = from;
    while i < n - m
        invariant
            m == pat@.len(),
            n == v@.len(),
            i <= n - m,
            edit::find_from(v@, pat@, i as int) == edit::find_from(v@, pat@, from as int),
        decreases n - i,
    {
        if text::stands_at(v, pat, i) {
            return Some(i);
        }
        i += 1;
    }
    if text::stands_at(v, pat, i) {
        Some(i)
    } else {
        assert(edit::find_from(v@, pat@, i + 1) is None);
        None
    }
}

/// What registering a directory writes, given the text of `vcs.xml` where there is one: nothing
/// where the project is not opened in the IDE or the directory is registered already. `None`
/// where the file is refused.
pub open spec fn registration(
    idea_exists: bool,
    content: Option<Seq<char>>,
    rel: Seq<char>,
) -> Option<Option<Seq<char>>> {
    let c = match content {
        Some(c) => c,
        None => skeleton(),
    };
    if !idea_exists || text::has_text(c, mapping(rel)) {
        Some(None)
    } else {
        match registered(c, rel) {
            Some(u) => Some(Some(u)),
            None => None,
        }
    }
}

/// Registers a directory as a git root in the text of `vcs.xml`, or in a new file where there is
/// none. `Ok(None)` where it is registered already, and where the project has no directory of
/// the IDE. The component that lists the roots is closed by the first closing tag behind its
/// opening one; another component may come before it.
pub fn register_phpstorm_git_root(
    idea_exists: bool,
    content: Option<&str>,
    vcs_path: &str,
    relative_path: &str,
) -> (r: Result<Option<String>, String>)
    ensures
        match registration(idea_exists, docker::opt_str(content), relative_path@) {
            Some(u) => r matches Ok(o) && paths::opt(o) == u,
            None => r matches Err(e) && e@ == "Malformed "@ + text::shown(vcs_path@)
                + ": VcsDirectoryMappings has no closing tag"@,
        },
{
    if !idea_exists {
        return Ok(None);
    }
    let text = match content {
        Some(c) => text::owned(c),
        None => text::owned(
            "<?xml version=\"1.0\" encoding=\"UTF-8\"?>\n<project version=\"4\">\n  <component name=\"VcsDirectoryMappings\">\n  </component>\n</project>",
        ),
    };
    let entry = vcs_mapping_entry(relative_path);
    if contains(text.as_str(), text::trim(entry.as_str()).as_str()) {
        return Ok(None);
    }
    let v = chars_of(text.as_str());
    let n: usize = v.len();
    let open = chars_of("<component name=\"VcsDirectoryMappings\">");
    match find_after(&v, &open, 0) {
        Some(k) => {
            let close = chars_of("</component>");
            match find_after(&v, &close, k) {
                Some(j) => {
                    let mut u = string_of(&v, 0, j);
                    u.append(entry.as_str());
                    u.append("\n  ");
                    let tail = string_of(&v, j, n);
                    u.append(tail.as_str());
                    assert(v@.subrange(0, j as int) =~= text@.take(j as int));
                    assert(v@.subrange(j as int, n as int) =~= text@.skip(j as int));
                    Ok(Some(u))
                },
                None => {
                    let mut e = text::owned("Malformed ");
                    e.append(text::quoted(vcs_path).as_str());
                    e.append(": VcsDirectoryMappings has no closing tag");
                    Err(e)
                },
            }
        },
        None => {
            let mut with = text::owned("  <component name=\"VcsDirectoryMappings\">\n");
            with.append(entry.as_str());
            with.append("\n  </component>\n</project>");
            Ok(Some(edit::replace_first(text.as_str(), "</project>", with.as_str())))
        },
    }
}

/// The first line that is some text when trimmed.
pub open spec fn line_with(all: Seq<Seq<char>>, t: Seq<char>) -> Option<Seq<char>>
    decreases all.len(),
{
    if all.len() == 0 {
        None
    } else if text::trimmed(all[0]) == t {
        Some(all[0])
    } else {
        line_with(all.drop_first(), t)
    }
}

/// The text without the line that registers a directory, and those that are the same. `None`
/// where there is none.
pub open spec fn unregistered(content: Seq<char>, rel: Seq<char>) -> Option<Seq<char>> {
    match line_with(lines::lines(content), mapping(rel)) {
        Some(l) => Some(edit::replaced(content, l + "\n"@, ""@)),
        None => None,
    }
}

/// Takes the registration of a directory out of the text of `vcs.xml`. `None` where there is
/// none, and where there is no such file.
pub fn unregister_phpstorm_git_root(content: Option<&str>, relative_path: &str) -> (r: Option<
    String,
>)
    ensures
        paths::opt(r) == (match content {
            Some(c) => unregistered(c@, relative_path@),
            None => None,
        }),
{
    match content {
        Some(c) => unregister_in(c, relative_path),
        None => None,
    }
}

fn unregister_in(content: &str, relative_path: &str) -> (r: Option<String>)
    ensures
        paths::opt(r) == unregistered(content@, relative_path@),
{
    let entry = vcs_mapping_entry(relative_path);
    let wanted = text::trim(entry.as_str());
    let all = lines_of(content);
    let ghost seqs = lines::lines(content@);
    let mut i: usize = 0;
    assert(seqs.skip(0) =~= seqs);
    while i < all.len()
        invariant
            i <= all@.len(),
            seqs == text::texts(all@),
            seqs == lines::lines(content@),
            wanted@ == mapping(relative_path@),
            line_with(seqs, wanted@) == line_with(seqs.skip(i as int), wanted@),
        decreases all@.len() - i,
    {
        assert(seqs.skip(i as int)[0] == all@[i as int]@);
        assert(seqs.skip(i as int).drop_first() =~= seqs.skip(i + 1));
        if same(text::trim(all[i].as_str()).as_str(), wanted.as_str()) {
            let mut line = text::owned(all[i].as_str());
            line.append("\n");
            proof {
                reveal_strlit("\n");
                assert(line@.last() == '\n');
            }
            return Some(edit::replace(content, line.as_str(), ""));
        }
        i += 1;
    }
    None
}

// ---------------------------------------------------------------- laws

proof fn lemma_piece_occurs(s: Seq<char>, sep: char, i: int)
    requires
        0 <= i < lines::split(s, sep).len(),
    ensures
        text::has_text(s, lines::split(s, sep)[i]),
        i == lines::split(s, sep).len() - 1 ==> lines::split(s, sep)[i].is_suffix_of(s),
    decreases s.len(),
{
    let p = lines::split(s, sep)[i];
    if s.len() == 0 {
        assert(p =~= Seq::empty());
        assert(s.subrange(0, 0) =~= p);
        assert(text::occurs_at(s, p, 0));
    } else {
        let t = s.drop_last();
        let before = lines::split(t, sep);
        lines::split_pieces(t, sep);
        if i < before.len() - 1 || (s.last() == sep && i < before.len()) {
            lemma_piece_occurs(t, sep, i);
            let k = choose|k: int| #[trigger] text::occurs_at(t, before[i], k);
            assert(s.subrange(k, k + p.len() as int) =~= t.subrange(k, k + p.len() as int));
            assert(text::occurs_at(s, p, k));
        } else if s.last() == sep {
            assert(p =~= Seq::empty());
            assert(s.subrange(s.len() as int, s.len() as int) =~= p);
            assert(text::occurs_at(s, p, s.len() as int));
        } else {
            lemma_piece_occurs(t, sep, before.len() - 1);
            let q = before.last();
            let k = s.len() - p.len();
            assert(t.subrange(t.len() - q.len(), t.len() as int) =~= q);
            assert(s.subrange(k, s.len() as int) =~= p);
            assert(text::occurs_at(s, p, k));
        }
    }
}

proof fn lemma_occurs_within(s: Seq<char>, p: Seq<char>, t: Seq<char>)
    requires
        text::has_text(s, p),
        text::has_text(p, t),
    ensures
        text::has_text(s, t),
{
    let a = choose|a: int| #[trigger] text::occurs_at(s, p, a);
    let b = choose|b: int| #[trigger] text::occurs_at(p, t, b);
    assert(s.subrange(a + b, a + b + t.len()) =~= t) by {
        assert forall|k: int| 0 <= k < t.len() implies s.subrange(a + b, a + b + t.len())[k]
            == t[k] by {
            assert(s.subrange(a, a + p.len())[b + k] == p[b + k]);
            assert(p.subrange(b, b + t.len())[k] == t[k]);
        }
    }
    assert(text::occurs_at(s, t, a + b));
}

proof fn lemma_trim_start_occurs(s: Seq<char>)
    ensures
        text::has_text(s, text::trim_start(s)),
    decreases s.len(),
{
    if s.len() > 0 && text::is_white(s[0]) {
        let t = s.drop_first();
        lemma_trim_start_occurs(t);
        assert(s.subrange(1, s.len() as int) =~= t);
        assert(text::occurs_at(s, t, 1));
        lemma_occurs_within(s, t, text::trim_start(t));
    } else {
        assert(s.subrange(0, s.len() as int) =~= s);
        assert(text::occurs_at(s, s, 0));
    }
}

proof fn lemma_trim_end_occurs(s: Seq<char>)
    ensures
        text::has_text(s, text::trim_end(s)),
    decreases s.len(),
{
    if s.len() > 0 && text::is_white(s.last()) {
        let t = s.drop_last();
        lemma_trim_end_occurs(t);
        assert(s.subrange(0, t.len() as int) =~= t);
        assert(text::occurs_at(s, t, 0));
        lemma_occurs_within(s, t, text::trim_end(t));
    } else {
        assert(s.subrange(0, s.len() as int) =~= s);
        assert(text::occurs_at(s, s, 0));
    }
}

proof fn lemma_line_occurs(s: Seq<char>, i: int, t: Seq<char>)
    requires
        0 <= i < lines::split(s, '\n').len(),
        text::trimmed(lines::strip_cr(lines::split(s, '\n')[i])) == t,
    ensures
        text::has_text(s, t),
{
    let p = lines::split(s, '\n')[i];
    let q = lines::strip_cr(p);
    lemma_piece_occurs(s, '\n', i);
    assert(text::has_text(p, q)) by {
        assert(p.subrange(0, q.len() as int) =~= q);
        assert(text::occurs_at(p, q, 0));
    }
    lemma_trim_start_occurs(q);
    lemma_trim_end_occurs(text::trim_start(q));
    lemma_occurs_within(q, text::trim_start(q), t);
    lemma_occurs_within(p, q, t);
    lemma_occurs_within(s, p, t);
}

proof fn lemma_line_with(all: Seq<Seq<char>>, t: Seq<char>, i: int)
    requires
        0 <= i < all.len(),
        text::trimmed(all[i]) == t,
        forall|k: int| 0 <= k < i ==> text::trimmed(#[trigger] all[k]) != t,
    ensures
        line_with(all, t) == Some(all[i]),
    decreases all.len(),
{
    if i > 0 {
        assert(text::trimmed(all[0]) != t);
        let rest = all.drop_first();
        assert forall|k: int| 0 <= k < i - 1 implies text::trimmed(#[trigger] rest[k]) != t by {
            assert(rest[k] == all[k + 1]);
        }
        lemma_line_with(rest, t, i - 1);
    }
}

/// Whether a text can be laid over itself, shifted by less than its length.
pub open spec fn overlaps_itself(t: Seq<char>) -> bool {
    exists|d: int| 0 < d < t.len() && #[trigger] t.skip(d) == t.take(t.len() - d)
}

/// Whether a text between two others stands in a second place that laps over its own: a text that
/// overlaps itself goes on in the text before it or behind it.
pub open spec fn laps_over(a: Seq<char>, t: Seq<char>, b: Seq<char>) -> bool {
    exists|d: int|
        0 < d < t.len() && #[trigger] t.skip(d) == t.take(t.len() - d) && (t.take(d).is_suffix_of(a)
            || t.skip(t.len() - d).is_prefix_of(b))
}

/// A text that was put between two texts that do not hold it stands in that place and nowhere
/// else, unless it laps over.
proof fn lemma_only_place(a: Seq<char>, t: Seq<char>, b: Seq<char>, q: int)
    requires
        !laps_over(a, t, b),
        !text::has_text(a, t),
        !text::has_text(b, t),
        text::occurs_at(a + t + b, t, q),
    ensures
        q == a.len(),
{
    let u = a + t + b;
    let n = a.len() as int;
    assert forall|k: int| 0 <= k < t.len() implies u[q + k] == t[k] by {
        assert(u.subrange(q, q + t.len())[k] == t[k]);
    }
    assert forall|k: int| 0 <= k < t.len() implies u[n + k] == t[k] by {}
    if q < n && q + t.len() <= n {
        assert(a.subrange(q, q + t.len()) =~= t) by {
            assert forall|k: int| 0 <= k < t.len() implies a.subrange(q, q + t.len())[k]
                == t[k] by {
                assert(u[q + k] == t[k]);
            }
        }
        assert(text::occurs_at(a, t, q));
    } else if q >= n + t.len() {
        let o = q - n - t.len();
        assert(b.subrange(o, o + t.len()) =~= t) by {
            assert forall|k: int| 0 <= k < t.len() implies b.subrange(o, o + t.len())[k]
                == t[k] by {
                assert(u[q + k] == t[k]);
            }
        }
        assert(text::occurs_at(b, t, o));
    } else if q != n {
        let d = if q < n {
            n - q
        } else {
            q - n
        };
        assert(t.skip(d) =~= t.take(t.len() - d)) by {
            assert forall|k: int| 0 <= k < t.len() - d implies #[trigger] t.skip(d)[k] == t.take(
                t.len() - d,
            )[k] by {
                if q < n {
                    assert(u[q + (d + k)] == t[d + k]);
                    assert(u[n + k] == t[k]);
                } else {
                    assert(u[q + k] == t[k]);
                    assert(u[n + (d + k)] == t[d + k]);
                }
            }
        }
        if q < n {
            assert(t.take(d) =~= a.subrange(n - d, n)) by {
                assert forall|k: int| 0 <= k < d implies t.take(d)[k] == a.subrange(n - d, n)[k] by {
                    assert(u[q + k] == t[k]);
                }
            }
            assert(t.take(d).is_suffix_of(a));
        } else {
            let e = t.skip(t.len() - d);
            assert(e =~= b.subrange(0, d)) by {
                assert forall|k: int| 0 <= k < d implies e[k] == b.subrange(0, d)[k] by {
                    assert(u[q + (t.len() - d + k)] == t[t.len() - d + k]);
                }
            }
            assert(e.is_prefix_of(b));
        }
    }
}

/// A text that laps over stands in a second place.
proof fn lemma_second_place(a: Seq<char>, t: Seq<char>, b: Seq<char>) -> (q: int)
    requires
        laps_over(a, t, b),
    ensures
        text::occurs_at(a + t + b, t, q),
        q != a.len(),
{
    let u = a + t + b;
    let n = a.len() as int;
    let d = choose|d: int|
        0 < d < t.len() && #[trigger] t.skip(d) == t.take(t.len() - d) && (t.take(d).is_suffix_of(a)
            || t.skip(t.len() - d).is_prefix_of(b));
    assert forall|k: int| d <= k < t.len() implies #[trigger] t[k] == t[k - d] by {
        assert(t.skip(d)[k - d] == t.take(t.len() - d)[k - d]);
    }
    if t.take(d).is_suffix_of(a) {
        let q = n - d;
        assert(u.subrange(q, q + t.len()) =~= t) by {
            assert forall|k: int| 0 <= k < t.len() implies u[q + k] == t[k] by {
                if k < d {
                    assert(a.subrange(n - d, n)[k] == t.take(d)[k]);
                } else {
                    assert(u[q + k] == t[k - d]);
                }
            }
        }
        q
    } else {
        let q = n + d;
        let e = t.skip(t.len() - d);
        assert(u.subrange(q, q + t.len()) =~= t) by {
            assert forall|k: int| 0 <= k < t.len() implies u[q + k] == t[k] by {
                if k < t.len() - d {
                    assert(t[k + d] == t[k]);
                    assert(u[q + k] == t[k + d]);
                } else {
                    let o = k - (t.len() - d);
                    assert(b.subrange(0, d)[o] == e[o]);
                    assert(u[q + k] == b[o]);
                }
            }
        }
        q
    }
}

proof fn lemma_mapping_one_line(rel: Seq<char>)
    requires
        !rel.contains('\n'),
    ensures
        !mapping(rel).contains('\n'),
{
    reveal_strlit("<mapping directory=\"$PROJECT_DIR$/");
    reveal_strlit("\" vcs=\"Git\" />");
    let a = "<mapping directory=\"$PROJECT_DIR$/"@;
    let m = mapping(rel);
    assert forall|k: int| 0 <= k < m.len() implies m[k] != '\n' by {
        if a.len() <= k < a.len() + rel.len() {
            assert(m[k] == rel[k - a.len()]);
            assert(rel.contains(rel[k - a.len()]));
        }
    }
}

/// A line of a file that registers a directory, six spaces in.
spec fn inner_line(rel: Seq<char>) -> Seq<char> {
    seq![' ', ' '] + vcs_mapping(rel)
}

proof fn lemma_inner_line(rel: Seq<char>)
    requires
        !rel.contains('<'),
        !rel.contains('\n'),
    ensures
        inner_line(rel) == seq![' ', ' ', ' ', ' ', ' ', ' '] + mapping(rel),
        !inner_line(rel).contains('\n'),
        inner_line(rel).last() == '>',
        text::trimmed(inner_line(rel)) == mapping(rel),
{
    reveal_strlit("    ");
    let line = inner_line(rel);
    let t = mapping(rel);
    lemma_mapping_trimmed(rel);
    lemma_mapping_one_line(rel);
    assert(line =~= seq![' ', ' ', ' ', ' ', ' ', ' '] + t);
    if line.contains('\n') {
        let k = choose|k: int| 0 <= k < line.len() && line[k] == '\n';
        assert(line[k] == t[k - 6]);
        assert(t.contains('\n'));
    }
    assert(line.drop_first().drop_first() =~= vcs_mapping(rel));
    reveal_with_fuel(text::trim_start, 3);
    assert(text::trim_start(line) == text::trim_start(vcs_mapping(rel)));
}

proof fn lemma_first_line(head: Seq<char>, rest: Seq<char>, rel: Seq<char>)
    requires
        !rel.contains('<'),
        !rel.contains('\n'),
        !text::has_text(head, mapping(rel)),
    ensures
        line_with(
            lines::lines(head + seq!['\n'] + (inner_line(rel) + seq!['\n'] + rest)),
            mapping(rel),
        ) == Some(inner_line(rel)),
{
    let t = mapping(rel);
    let line = inner_line(rel);
    let nl = seq!['\n'];
    let u = head + nl + (line + nl + rest);
    lemma_inner_line(rel);
    lines::split_of_one(line, '\n');
    lines::split_of_both(head, '\n', line + nl + rest);
    lines::split_of_both(line, '\n', rest);
    lines::split_pieces(rest, '\n');
    let before = lines::split(head, '\n');
    let pieces = lines::split(u, '\n');
    assert(pieces =~= before + seq![line] + lines::split(rest, '\n'));
    let ls = lines::lines(u);
    let i = before.len() as int;
    assert(ls[i] == lines::strip_cr(line));
    assert(ls[i] == line);
    assert forall|k: int| 0 <= k < i implies text::trimmed(#[trigger] ls[k]) != t by {
        assert(ls[k] == lines::strip_cr(before[k]));
        if text::trimmed(ls[k]) == t {
            lemma_line_occurs(head, k, t);
        }
    }
    lemma_line_with(ls, t, i);
}

proof fn lemma_take_line_out(head: Seq<char>, rest: Seq<char>, rel: Seq<char>)
    requires
        !rel.contains('<'),
        !rel.contains('\n'),
        !text::has_text(head, mapping(rel)),
        !text::has_text(rest, mapping(rel)),
    ensures
        edit::replaced(
            head + seq!['\n'] + (inner_line(rel) + seq!['\n'] + rest),
            inner_line(rel) + "\n"@,
            ""@,
        ) == head + seq!['\n'] + rest,
{
    reveal_strlit("\n");
    reveal_strlit("");
    let t = mapping(rel);
    let line = inner_line(rel);
    let nl = seq!['\n'];
    let u = head + nl + (line + nl + rest);
    let six = seq![' ', ' ', ' ', ' ', ' ', ' '];
    let a = head + (nl + six);
    let b = nl + rest;
    lemma_inner_line(rel);
    lemma_mapping_trimmed(rel);
    plain_paths_do_not_overlap(rel);
    assert(u =~= a + t + b);
    assert(!text::has_text(b, t)) by {
        if text::has_text(b, t) {
            let q = choose|q: int| #[trigger] text::occurs_at(b, t, q);
            assert(b.subrange(q, q + t.len())[0] == b[q]);
            assert(q > 0);
            assert(rest.subrange(q - 1, q - 1 + t.len()) =~= b.subrange(q, q + t.len()));
            assert(text::occurs_at(rest, t, q - 1));
        }
    }
    assert(!text::has_text(a, t)) by {
        if text::has_text(a, t) {
            let q = choose|q: int| #[trigger] text::occurs_at(a, t, q);
            let e = q + t.len() - 1;
            assert(a.subrange(q, q + t.len())[t.len() - 1] == a[e]);
            if e >= head.len() {
                assert(a[e] == (nl + six)[e - head.len()]);
            }
            assert(e < head.len());
            assert(head.subrange(q, q + t.len()) =~= a.subrange(q, q + t.len()));
            assert(text::occurs_at(head, t, q));
        }
    }
    let pat = line + "\n"@;
    let at = head.len() as int + 1;
    assert(u.subrange(at, at + pat.len()) =~= pat);
    assert(text::occurs_at(u, pat, at));
    assert forall|p: int| text::occurs_at(u, pat, p) implies p == at by {
        assert(u.subrange(p + 6, p + 6 + t.len()) =~= t) by {
            assert forall|k: int| 0 <= k < t.len() implies u.subrange(p + 6, p + 6 + t.len())[k]
                == t[k] by {
                assert(u.subrange(p, p + pat.len())[6 + k] == pat[6 + k]);
            }
        }
        assert(text::occurs_at(u, t, p + 6));
        lemma_only_place(a, t, b, p + 6);
    }
    edit::find_from_first(u, pat, 0);
    assert(edit::find_from(u, pat, 0) == Some(at));
    let left = u.skip(at + pat.len());
    assert(left =~= rest);
    assert(!text::has_text(left, pat)) by {
        if text::has_text(left, pat) {
            let q = choose|q: int| #[trigger] text::occurs_at(left, pat, q);
            let p = at + pat.len() + q;
            assert(u.subrange(p, p + pat.len()) =~= left.subrange(q, q + pat.len()));
            assert(text::occurs_at(u, pat, p));
        }
    }
    edit::replaced_without(left, pat, ""@);
    assert(u.take(at) + ""@ + left =~= head + nl + rest);
}

/// Registering a directory and taking the registration out again leaves the file as it was, where
/// the closing tag of the component stands two spaces in on a line of its own, as the IDE writes
/// it.
pub proof fn unregistering_undoes_registering(
    content: Seq<char>,
    rel: Seq<char>,
    open: int,
    close: int,
)
    requires
        edit::find_from(content, "<component name=\"VcsDirectoryMappings\">"@, 0) == Some(open),
        edit::find_from(content, "</component>"@, open) == Some(close),
        3 <= close <= content.len(),
        content.subrange(close - 3, close) == "\n  "@,
        !text::has_text(content, mapping(rel)),
        !rel.contains('<'),
        !rel.contains('\n'),
    ensures
        registered(content, rel) is Some,
        unregistered(registered(content, rel)->0, rel) == Some(content),
{
    reveal_strlit("\n  ");
    let c = content;
    let t = mapping(rel);
    let u = registered(c, rel)->0;
    let head = c.take(close - 3);
    let rest = c.skip(close - 2);
    let nl = seq!['\n'];
    let s = c.subrange(close - 3, close);
    assert(s[0] == '\n' && s[1] == ' ' && s[2] == ' ');
    assert(c[close - 3] == '\n' && c[close - 2] == ' ' && c[close - 1] == ' ');
    assert(c =~= head + nl + rest);
    assert(u =~= head + nl + (inner_line(rel) + nl + rest));
    assert(!text::has_text(head, t)) by {
        if text::has_text(head, t) {
            assert(c.subrange(0, head.len() as int) =~= head);
            assert(text::occurs_at(c, head, 0));
            lemma_occurs_within(c, head, t);
        }
    }
    assert(!text::has_text(rest, t)) by {
        if text::has_text(rest, t) {
            assert(c.subrange(close - 2, close - 2 + rest.len()) =~= rest);
            assert(text::occurs_at(c, rest, close - 2));
            lemma_occurs_within(c, rest, t);
        }
    }
    lemma_first_line(head, rest, rel);
    lemma_take_line_out(head, rest, rel);
}

/// A directory that was registered is found registered afterwards, so it is not registered twice.
pub proof fn registering_is_done_once(content: Seq<char>, rel: Seq<char>)
    requires
        registered(content, rel) is Some,
        text::has_text(content, "<component name=\"VcsDirectoryMappings\">"@) || text::has_text(
            content,
            "</project>"@,
        ),
    ensures
        text::has_text(registered(content, rel)->0, mapping(rel)),
{
    let u = registered(content, rel)->0;
    let m = vcs_mapping(rel);
    let t = mapping(rel);
    edit::find_from_first(content, "<component name=\"VcsDirectoryMappings\">"@, 0);
    edit::find_from_first(content, "</project>"@, 0);
    reveal_strlit("    ");
    assert(text::has_text(m, t)) by {
        assert(m.subrange(4, m.len() as int) =~= t);
        assert(text::occurs_at(m, t, 4));
    }
    match edit::find_from(content, "<component name=\"VcsDirectoryMappings\">"@, 0) {
        Some(k) => {
            edit::find_from_first(content, "</component>"@, k);
            let j = edit::find_from(content, "</component>"@, k)->0;
            assert(u.subrange(j, j + m.len()) =~= m);
            assert(text::occurs_at(u, m, j));
        },
        None => {
            let i = edit::find_from(content, "</project>"@, 0)->0;
            let before = "  <component name=\"VcsDirectoryMappings\">\n"@;
            let j = i + before.len();
            assert(u.subrange(j, j + m.len()) =~= m);
            assert(text::occurs_at(u, m, j));
        },
    }
    lemma_occurs_within(u, m, t);
}

/// Registering a directory a second time leaves the file as the first time left it, and without a
/// directory of the IDE neither time makes a file.
pub proof fn registering_again_changes_nothing(
    idea_exists: bool,
    content: Option<Seq<char>>,
    rel: Seq<char>,
)
    requires
        registration(idea_exists, content, rel) is Some,
    ensures
        ({
            let after = match registration(idea_exists, content, rel)->0 {
                Some(u) => Some(u),
                None => content,
            };
            &&& registration(idea_exists, after, rel) is Some
            &&& registration(idea_exists, after, rel)->0 matches Some(v) ==> after == Some(v)
            &&& !idea_exists ==> after == content
        }),
{
    let c = match content {
        Some(c) => c,
        None => skeleton(),
    };
    if let Some(u) = registration(idea_exists, content, rel)->0 {
        if text::has_text(c, "<component name=\"VcsDirectoryMappings\">"@) || text::has_text(
            c,
            "</project>"@,
        ) {
            registering_is_done_once(c, rel);
        } else {
            edit::find_from_first(c, "<component name=\"VcsDirectoryMappings\">"@, 0);
            edit::find_from_first(c, "</project>"@, 0);
            assert(u == c);
        }
    }
}

/// Whether a text stands at a position and nowhere else.
pub open spec fn stands_once(s: Seq<char>, t: Seq<char>, at: int) -> bool {
    &&& text::occurs_at(s, t, at)
    &&& forall|q: int| #[trigger] text::occurs_at(s, t, q) ==> q == at
}

proof fn lemma_put_once(a: Seq<char>, t: Seq<char>, b: Seq<char>)
    requires
        !text::has_text(a, t),
        !text::has_text(b, t),
    ensures
        stands_once(a + t + b, t, a.len() as int) <==> !laps_over(a, t, b),
        !overlaps_itself(t) ==> !laps_over(a, t, b),
{
    let u = a + t + b;
    let n = a.len() as int;
    assert(u.subrange(n, n + t.len()) =~= t);
    if laps_over(a, t, b) {
        let q = lemma_second_place(a, t, b);
    } else {
        assert forall|q: int| #[trigger] text::occurs_at(u, t, q) implies q == n by {
            lemma_only_place(a, t, b, q);
        }
    }
}

proof fn lemma_char_of(s: Seq<char>, t: Seq<char>, q: int, k: int)
    requires
        text::occurs_at(s, t, q),
        0 <= k < t.len(),
    ensures
        s[q + k] == t[k],
{
    assert(s.subrange(q, q + t.len())[k] == t[k]);
}

/// A mapping that no text before it and behind it holds is not made by what is put around it.
proof fn lemma_none_around(
    head: Seq<char>,
    pre: Seq<char>,
    t: Seq<char>,
    post: Seq<char>,
    rest: Seq<char>,
)
    requires
        !text::has_text(head, t),
        !text::has_text(rest, t),
        t.len() > 1,
        forall|k: int|
            0 < k < pre.len() && #[trigger] pre[k] == t.last() ==> pre[k - 1] != t[t.len() - 2],
        pre.len() > 0 ==> pre[0] != t.last(),
        forall|k: int|
            0 <= k < post.len() && #[trigger] post[k] == t[0] ==> k + 1 < post.len() && post[k + 1]
                != t[1],
    ensures
        !text::has_text(head + pre, t),
        !text::has_text(post + rest, t),
{
    let a = head + pre;
    let b = post + rest;
    if text::has_text(a, t) {
        let q = choose|q: int| #[trigger] text::occurs_at(a, t, q);
        let e = q + t.len() - 1;
        lemma_char_of(a, t, q, t.len() - 1);
        lemma_char_of(a, t, q, t.len() - 2);
        if e >= head.len() {
            let k = e - head.len();
            assert(a[e] == pre[k]);
            if k > 0 {
                assert(a[e - 1] == pre[k - 1]);
            }
            assert(false);
        }
        assert(head.subrange(q, q + t.len()) =~= a.subrange(q, q + t.len()));
        assert(text::occurs_at(head, t, q));
    }
    if text::has_text(b, t) {
        let q = choose|q: int| #[trigger] text::occurs_at(b, t, q);
        lemma_char_of(b, t, q, 0);
        lemma_char_of(b, t, q, 1);
        if q < post.len() {
            assert(b[q] == post[q]);
            assert(b[q + 1] == post[q + 1]);
            assert(false);
        }
        let o = q - post.len();
        assert(rest.subrange(o, o + t.len()) =~= b.subrange(q, q + t.len()));
        assert(text::occurs_at(rest, t, o));
    }
}

proof fn lemma_parts_hold_nothing(c: Seq<char>, t: Seq<char>, i: int)
    requires
        !text::has_text(c, t),
        0 <= i <= c.len(),
    ensures
        !text::has_text(c.take(i), t),
        !text::has_text(c.skip(i), t),
{
    if text::has_text(c.take(i), t) {
        assert(c.subrange(0, i) =~= c.take(i));
        assert(text::occurs_at(c, c.take(i), 0));
        lemma_occurs_within(c, c.take(i), t);
    }
    if text::has_text(c.skip(i), t) {
        assert(c.subrange(i, i + c.skip(i).len()) =~= c.skip(i));
        assert(text::occurs_at(c, c.skip(i), i));
        lemma_occurs_within(c, c.skip(i), t);
    }
}

proof fn lemma_mapping_ends(rel: Seq<char>)
    ensures
        ({
            let t = mapping(rel);
            &&& t.len() > 2
            &&& t[0] == '<'
            &&& t[1] == 'm'
            &&& t[t.len() - 2] == '/'
            &&& t.last() == '>'
        }),
{
    reveal_strlit("<mapping directory=\"$PROJECT_DIR$/");
    reveal_strlit("\" vcs=\"Git\" />");
}

/// The mapping of a path without `<`, or without `"`, cannot be laid over itself.
pub proof fn plain_paths_do_not_overlap(rel: Seq<char>)
    requires
        !rel.contains('<') || !rel.contains('"'),
    ensures
        !overlaps_itself(mapping(rel)),
{
    let m = mapping(rel);
    lemma_mapping_ends(rel);
    if overlaps_itself(m) {
        let d = choose|d: int| 0 < d < m.len() && #[trigger] m.skip(d) == m.take(m.len() - d);
        let n = m.len() - d;
        if !rel.contains('<') {
            assert(m.skip(d)[0] == m[d]);
            assert(m.take(n)[0] == m[0]);
            lemma_one_bracket(rel, d);
        } else {
            assert(m.skip(d)[n - 1] == m[m.len() - 1]);
            assert(m.take(n)[n - 1] == m[n - 1]);
            lemma_one_end(rel, n - 1);
            assert(m.skip(d)[n - 4] == m[m.len() - 4]);
            assert(m.take(n)[n - 4] == m[n - 4]);
            lemma_quotes(rel, n - 4);
        }
    }
}

proof fn lemma_one_end(rel: Seq<char>, k: int)
    requires
        0 <= k < mapping(rel).len() - 1,
        mapping(rel)[k] == '>',
    ensures
        34 <= k < 34 + rel.len(),
{
    reveal_strlit("<mapping directory=\"$PROJECT_DIR$/");
    reveal_strlit("\" vcs=\"Git\" />");
    let a = "<mapping directory=\"$PROJECT_DIR$/"@;
    let b = "\" vcs=\"Git\" />"@;
    let m = mapping(rel);
    if k < 34 {
        assert(m[k] == a[k]);
    } else if k >= 34 + rel.len() {
        assert(m[k] == b[k - 34 - rel.len()]);
    }
}

proof fn lemma_quotes(rel: Seq<char>, k: int)
    requires
        30 <= k < 34 + rel.len(),
        !rel.contains('"'),
    ensures
        mapping(rel)[k] != '"',
        mapping(rel)[mapping(rel).len() - 4] == '"',
{
    reveal_strlit("<mapping directory=\"$PROJECT_DIR$/");
    reveal_strlit("\" vcs=\"Git\" />");
    if k >= 34 {
        assert(mapping(rel)[k] == rel[k - 34]);
    }
}

/// A directory is registered in one place of the file: at the end of the component that lists
/// them, whatever other components there are. All text before and behind it is kept. The mapping
/// stands in no other place unless it laps over there, which takes a path with both `<` and `"`.
pub proof fn a_directory_is_registered_in_one_place(
    content: Seq<char>,
    rel: Seq<char>,
    open: int,
    close: int,
)
    requires
        edit::find_from(content, "<component name=\"VcsDirectoryMappings\">"@, 0) == Some(open),
        edit::find_from(content, "</component>"@, open) == Some(close),
        !text::has_text(content, mapping(rel)),
    ensures
        registered(content, rel) is Some,
        ({
            let u = registered(content, rel)->0;
            let at = close + 4;
            let behind = at + mapping(rel).len() + 3;
            &&& text::occurs_at(u, mapping(rel), at)
            &&& stands_once(u, mapping(rel), at) <==> !laps_over(
                content.take(close) + "    "@,
                mapping(rel),
                "\n  "@ + content.skip(close),
            )
            &&& !rel.contains('<') || !rel.contains('"') ==> stands_once(u, mapping(rel), at)
            &&& open + "<component name=\"VcsDirectoryMappings\">"@.len() <= close
            &&& u.take(close) == content.take(close)
            &&& u.skip(behind) == content.skip(close)
            &&& !rel.contains('<') ==> edit::find_from(
                u,
                "<component name=\"VcsDirectoryMappings\">"@,
                0,
            ) == Some(open) && edit::find_from(u, "</component>"@, open) == Some(behind)
        }),
{
    reveal_strlit("    ");
    reveal_strlit("\n  ");
    let c = content;
    let t = mapping(rel);
    let u = registered(c, rel)->0;
    let head = c.take(close);
    let rest = c.skip(close);
    lemma_close_behind_open(c, open, close);
    lemma_mapping_ends(rel);
    lemma_parts_hold_nothing(c, t, close);
    lemma_none_around(head, "    "@, t, "\n  "@, rest);
    assert(u =~= (head + "    "@) + t + ("\n  "@ + rest));
    lemma_put_once(head + "    "@, t, "\n  "@ + rest);
    assert(u.subrange(close + 4, close + 4 + t.len()) =~= t);
    if !rel.contains('<') || !rel.contains('"') {
        plain_paths_do_not_overlap(rel);
    }
    let behind = close + 4 + t.len() + 3;
    assert(u.take(close) =~= head);
    assert(u.skip(behind) =~= rest);
    if !rel.contains('<') {
        lemma_component_kept(c, rel, u, open, close);
    }
}

proof fn lemma_close_behind_open(c: Seq<char>, open: int, close: int)
    requires
        edit::find_from(c, "<component name=\"VcsDirectoryMappings\">"@, 0) == Some(open),
        edit::find_from(c, "</component>"@, open) == Some(close),
    ensures
        0 <= open,
        open + "<component name=\"VcsDirectoryMappings\">"@.len() <= close <= c.len(),
{
    reveal_strlit("</component>");
    reveal_strlit("<component name=\"VcsDirectoryMappings\">");
    let opening = "<component name=\"VcsDirectoryMappings\">"@;
    let closing = "</component>"@;
    edit::find_from_first(c, opening, 0);
    edit::find_from_first(c, closing, open);
    lemma_char_of(c, closing, close, 0);
    lemma_char_of(c, closing, close, 1);
    if close < open + opening.len() {
        lemma_char_of(c, opening, open, close - open);
        if close == open {
            lemma_char_of(c, opening, open, 1);
        }
    }
}

proof fn lemma_component_kept(
    c: Seq<char>,
    rel: Seq<char>,
    u: Seq<char>,
    open: int,
    close: int,
)
    requires
        edit::find_from(c, "<component name=\"VcsDirectoryMappings\">"@, 0) == Some(open),
        edit::find_from(c, "</component>"@, open) == Some(close),
        open + "<component name=\"VcsDirectoryMappings\">"@.len() <= close,
        !rel.contains('<'),
        u == (c.take(close) + "    "@) + mapping(rel) + ("\n  "@ + c.skip(close)),
    ensures
        edit::find_from(u, "<component name=\"VcsDirectoryMappings\">"@, 0) == Some(open),
        edit::find_from(u, "</component>"@, open) == Some(close + 4 + mapping(rel).len() + 3),
{
    reveal_strlit("    ");
    reveal_strlit("\n  ");
    reveal_strlit("</component>");
    let opening = "<component name=\"VcsDirectoryMappings\">"@;
    let closing = "</component>"@;
    let t = mapping(rel);
    let behind = close + 4 + t.len() + 3;
    edit::find_from_first(c, opening, 0);
    edit::find_from_first(c, closing, open);
    edit::find_from_first(u, opening, 0);
    edit::find_from_first(u, closing, open);
    lemma_mapping_ends(rel);
    assert forall|j: int, p: Seq<char>|
        0 <= j && j + p.len() <= close implies (#[trigger] text::occurs_at(u, p, j)
        <==> text::occurs_at(c, p, j)) by {
        assert(u.subrange(j, j + p.len()) =~= c.subrange(j, j + p.len()));
    }
    assert(text::occurs_at(u, opening, open));
    assert(u.subrange(behind, behind + closing.len()) =~= c.subrange(
        close,
        close + closing.len(),
    ));
    assert(text::occurs_at(u, closing, behind));
    assert forall|j: int| open <= j < behind implies !#[trigger] text::occurs_at(u, closing, j) by {
        if text::occurs_at(u, closing, j) {
            lemma_char_of(u, closing, j, 0);
            lemma_char_of(u, closing, j, 1);
            if j + closing.len() <= close {
                assert(text::occurs_at(c, closing, j));
            } else if j < close {
                lemma_char_of(u, closing, j, close - j);
                assert(u[close] == ' ');
            } else if close + 4 <= j < close + 4 + t.len() {
                let k = j - close - 4;
                assert(u[j] == t[k]);
                if k > 0 {
                    lemma_one_bracket(rel, k);
                } else {
                    assert(u[j + 1] == t[1]);
                }
            }
        }
    }
}

proof fn lemma_one_bracket(rel: Seq<char>, k: int)
    requires
        !rel.contains('<'),
        0 < k < mapping(rel).len(),
    ensures
        mapping(rel)[k] != '<',
{
    reveal_strlit("<mapping directory=\"$PROJECT_DIR$/");
    reveal_strlit("\" vcs=\"Git\" />");
    let a = "<mapping directory=\"$PROJECT_DIR$/"@;
    if a.len() <= k < a.len() + rel.len() {
        assert(mapping(rel)[k] == rel[k - a.len()]);
    }
}

/// A file that lists no directories yet gets a component that lists one. All text before and behind
/// it is kept. The mapping stands in no other place unless it laps over there, which takes a path
/// with both `<` and `"`.
pub proof fn the_first_directory_gets_a_component(content: Seq<char>, rel: Seq<char>, end: int)
    requires
        edit::find_from(content, "<component name=\"VcsDirectoryMappings\">"@, 0) is None,
        edit::find_from(content, "</project>"@, 0) == Some(end),
        !text::has_text(content, mapping(rel)),
    ensures
        registered(content, rel) is Some,
        ({
            let u = registered(content, rel)->0;
            let at = end + "  <component name=\"VcsDirectoryMappings\">\n    "@.len();
            let behind = at + mapping(rel).len() + "\n  </component>\n"@.len();
            &&& text::occurs_at(u, mapping(rel), at)
            &&& stands_once(u, mapping(rel), at) <==> !laps_over(
                content.take(end) + "  <component name=\"VcsDirectoryMappings\">\n    "@,
                mapping(rel),
                "\n  </component>\n"@ + content.skip(end),
            )
            &&& !rel.contains('<') || !rel.contains('"') ==> stands_once(u, mapping(rel), at)
            &&& u.subrange(end, at) == "  <component name=\"VcsDirectoryMappings\">\n    "@
            &&& u.subrange(at + mapping(rel).len(), behind) == "\n  </component>\n"@
            &&& u.take(end) == content.take(end)
            &&& u.skip(behind) == content.skip(end)
        }),
{
    reveal_strlit("    ");
    reveal_strlit("  <component name=\"VcsDirectoryMappings\">\n");
    reveal_strlit("  <component name=\"VcsDirectoryMappings\">\n    ");
    reveal_strlit("\n  </component>\n");
    reveal_strlit("\n  </component>\n</project>");
    reveal_strlit("</project>");
    let c = content;
    let t = mapping(rel);
    let u = registered(c, rel)->0;
    let head = c.take(end);
    let rest = c.skip(end);
    let pre = "  <component name=\"VcsDirectoryMappings\">\n    "@;
    let post = "\n  </component>\n"@;
    edit::find_from_first(c, "</project>"@, 0);
    lemma_mapping_ends(rel);
    lemma_parts_hold_nothing(c, t, end);
    lemma_none_around(head, pre, t, post, rest);
    assert(c.subrange(end, end + 10) == "</project>"@);
    assert(rest =~= "</project>"@ + c.skip(end + 10));
    assert("  <component name=\"VcsDirectoryMappings\">\n"@ + "    "@ =~= pre);
    assert("\n  </component>\n</project>"@ =~= post + "</project>"@);
    assert(u =~= (head + pre) + t + (post + rest));
    lemma_put_once(head + pre, t, post + rest);
    assert(u.subrange(end + pre.len(), end + pre.len() + t.len()) =~= t);
    if !rel.contains('<') || !rel.contains('"') {
        plain_paths_do_not_overlap(rel);
    }
    assert(u.take(end) =~= head);
    let at = end + pre.len();
    let behind = at + t.len() + post.len();
    assert(u.subrange(end, at) =~= pre);
    assert(u.subrange(at + t.len(), behind) =~= post);
    assert(u.skip(behind) =~= rest);
}

/// A new file has the component that lists directories, and lists none.
pub proof fn a_new_file_lists_nothing(rel: Seq<char>)
    ensures
        edit::find_from(skeleton(), "<component name=\"VcsDirectoryMappings\">"@, 0) is Some,
        edit::find_from(
            skeleton(),
            "</component>"@,
            edit::find_from(skeleton(), "<component name=\"VcsDirectoryMappings\">"@, 0)->0,
        ) is Some,
        !text::has_text(skeleton(), mapping(rel)),
{
    reveal_strlit(
        "<?xml version=\"1.0\" encoding=\"UTF-8\"?>\n<project version=\"4\">\n  <component name=\"VcsDirectoryMappings\">\n  </component>\n</project>",
    );
    reveal_strlit("<component name=\"VcsDirectoryMappings\">");
    reveal_strlit("</component>");
    let s = skeleton();
    let opening = "<component name=\"VcsDirectoryMappings\">"@;
    let closing = "</component>"@;
    assert(s.subrange(63, 63 + opening.len() as int) =~= opening);
    assert(text::occurs_at(s, opening, 63));
    assert(s.subrange(105, 105 + closing.len() as int) =~= closing);
    assert(text::occurs_at(s, closing, 105));
    edit::find_from_first(s, opening, 0);
    edit::find_from_first(s, closing, edit::find_from(s, opening, 0)->0);
    lemma_mapping_ends(rel);
    if text::has_text(s, mapping(rel)) {
        let q = choose|q: int| #[trigger] text::occurs_at(s, mapping(rel), q);
        lemma_char_of(s, mapping(rel), q, 0);
        lemma_char_of(s, mapping(rel), q, 1);
    }
}

} // verus!
