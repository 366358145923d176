//! What holds of comparing a project with the template as a whole.
use vstd::prelude::*;

use crate::lines;
use crate::paths;
use crate::table::Table;
use crate::template;
use crate::template::seeds;
use crate::template::seeds::Seeds;
use crate::template::state;
use crate::template::state::{NotUnder, Probe, TemplateFile, TemplateState};
use crate::template::summary;
use crate::template::summary::Summary;
use crate::template::{Change, ChangeView, FileView, ProjectFile};
use crate::text;
use crate::utils;

verus! {

// ---------------------------------------------------------------- which files count

/// The files with a project's own values, those of the running project and the consumed seed are
/// told by their places; no other file is left out.
pub proof fn a_file_is_left_out_by_its_place(
    rel: &str,
    rest: Seq<char>,
    preserved: bool,
    consumed: bool,
    runtime: bool,
)
    requires
        call_ensures(template::is_preserve_local, (rel,), preserved),
        call_ensures(template::is_consumed, (rel,), consumed),
        call_ensures(template::is_runtime, (rel,), runtime),
    ensures
        rel@ == "config/htpasswd"@ ==> preserved,
        rel@ == "secrets/"@ + rest + ".txt"@ ==> preserved,
        preserved ==> rel@ == "config/htpasswd"@ || ("secrets/"@.is_prefix_of(rel@)
            && ".txt"@.is_suffix_of(rel@)),
        rel@ == "logs/"@ + rest ==> runtime,
        rel@ == "volumes/"@ + rest ==> runtime,
        runtime ==> "logs/"@.is_prefix_of(rel@) || "volumes/"@.is_prefix_of(rel@),
        consumed <==> rel@ == ".gitignore-dist"@,
{
    if rel@ == "secrets/"@ + rest + ".txt"@ {
        let n = "secrets/"@.len() as int;
        let m = ".txt"@.len() as int;
        assert(rel@.subrange(0, n) =~= "secrets/"@);
        assert(rel@.subrange(rel@.len() - m, rel@.len() as int) =~= ".txt"@);
    }
    if rel@ == "logs/"@ + rest {
        assert(rel@.subrange(0, "logs/"@.len() as int) =~= "logs/"@);
    }
    if rel@ == "volumes/"@ + rest {
        assert(rel@.subrange(0, "volumes/"@.len() as int) =~= "volumes/"@);
    }
}

/// The template is the first of its places that exists; without one there is an error.
pub proof fn the_first_template_counts(
    first: &str,
    second: &str,
    candidates: &Vec<String>,
    existing: &Vec<String>,
    r: Result<String, String>,
)
    requires
        text::texts(candidates@) == seq![first@, second@],
        call_ensures(template::resolve_dir, (candidates, existing), r),
    ensures
        text::texts(existing@).contains(first@) ==> (r matches Ok(s) && s@ == first@),
        !text::texts(existing@).contains(first@) && text::texts(existing@).contains(second@) ==> (r
            matches Ok(s) && s@ == second@),
        !text::texts(existing@).contains(first@) && !text::texts(existing@).contains(second@) ==> r
            is Err,
{
    let c = seq![first@, second@];
    reveal_with_fuel(paths::first_existing, 3);
    assert(c.drop_first() =~= seq![second@]);
    assert(c.drop_first().drop_first() =~= Seq::<Seq<char>>::empty());
}

// ---------------------------------------------------------------- the comparison

/// Whether a path takes part in the comparison: it is none of the files that are left out.
pub open spec fn compared(p: Seq<char>) -> bool {
    !"logs/"@.is_prefix_of(p) && !"volumes/"@.is_prefix_of(p) && p != "config/htpasswd"@ && !(
    "secrets/"@.is_prefix_of(p) && ".txt"@.is_suffix_of(p)) && p != ".gitignore-dist"@
}

/// Every file of the template is reported as what became of it since the last sync: changed there
/// alone, changed on both sides, new there, or brought up to date by hand already. One that has
/// not moved there is not reported.
pub proof fn every_change_of_the_template_is_reported(
    base: &Table<Option<String>>,
    theirs: &Table<String>,
    mine: &Table<ProjectFile>,
    p: Seq<char>,
    r: Vec<Change>,
)
    requires
        call_ensures(template::classify, (base, theirs, mine), r),
        theirs@.dom().contains(p),
        compared(p),
    ensures
        ({
            let all = template::changes_view(r@);
            let t = theirs@[p]@;
            let known = base@.dom().contains(p) && base@[p] is Some;
            let b = base@[p]->0@;
            let there = mine@.dom().contains(p) && !(mine@[p]@ is Missing);
            let m = mine@[p]@;
            &&& known && b != t && there && m == FileView::Hash(b) ==> all.contains(
                ChangeView::SafeUpdate(p),
            )
            &&& known && b != t && there && m is Hash && m != FileView::Hash(b) && m
                != FileView::Hash(t) ==> all.contains(ChangeView::Conflict(p))
            &&& !(known && b == t) && !there ==> all.contains(ChangeView::SafeAdd(p))
            &&& !(known && b == t) && there && m == FileView::Hash(t) ==> all.contains(
                ChangeView::AlreadyApplied(p),
            )
            &&& !known && there && m is Hash && m != FileView::Hash(t) ==> all.contains(
                ChangeView::Unknown(p),
            )
            &&& there && m is Unreadable ==> all.contains(ChangeView::Unknown(p))
            &&& known && b == t && !(there && m is Unreadable) ==> forall|i: int|
                0 <= i < all.len() ==> (#[trigger] all[i]).path() != Some(p)
        }),
{
    assert(template::in_scope(base@, theirs@, p));
    let all = template::changes_view(r@);
    assert(!template::skipped(p));
    if template::verdict(base@, theirs@, mine@, p) is None {
        assert forall|i: int| 0 <= i < all.len() implies (#[trigger] all[i]).path() != Some(p) by {}
    }
}

/// A file that the template dropped is reported where the project still has it, and only there.
pub proof fn a_dropped_file_is_reported(
    base: &Table<Option<String>>,
    theirs: &Table<String>,
    mine: &Table<ProjectFile>,
    p: Seq<char>,
    r: Vec<Change>,
)
    requires
        call_ensures(template::classify, (base, theirs, mine), r),
        base@.dom().contains(p),
        !theirs@.dom().contains(p),
        compared(p),
    ensures
        mine@.dom().contains(p) && !(mine@[p]@ is Missing) <==> template::changes_view(
            r@,
        ).contains(ChangeView::RemovedUpstream(p)),
{
    assert(template::in_scope(base@, theirs@, p));
    let all = template::changes_view(r@);
    assert(!template::skipped(p));
    if all.contains(ChangeView::RemovedUpstream(p)) {
        let i = choose|i: int| 0 <= i < all.len() && all[i] == ChangeView::RemovedUpstream(p);
        assert(all[i].path() == Some(p));
    }
}

/// Nothing is reported but of files that take part in the comparison, and no file twice; what is
/// called safe discards nothing.
pub proof fn nothing_else_is_reported(
    base: &Table<Option<String>>,
    theirs: &Table<String>,
    mine: &Table<ProjectFile>,
    r: Vec<Change>,
    i: int,
    j: int,
)
    requires
        call_ensures(template::classify, (base, theirs, mine), r),
        0 <= i < r@.len(),
    ensures
        r@[i]@.path() is Some,
        ({
            let p = r@[i]@.path()->0;
            &&& compared(p)
            &&& base@.dom().contains(p) || theirs@.dom().contains(p)
            &&& r@[i]@ is SafeUpdate ==> mine@.dom().contains(p) && base@.dom().contains(p)
                && base@[p] is Some && mine@[p]@ == FileView::Hash(base@[p]->0@)
            &&& r@[i]@ is SafeAdd ==> !(mine@.dom().contains(p) && !(mine@[p]@ is Missing))
            &&& r@[i]@ is AlreadyApplied ==> mine@.dom().contains(p) && mine@[p]@
                == FileView::Hash(theirs@[p]@)
        }),
        i < j < r@.len() ==> r@[i]@.path() != r@[j]@.path(),
{
    let all = template::changes_view(r@);
    assert(all[i] == r@[i]@);
    assert(all[i].path() is Some);
    if i < j < r@.len() {
        assert(all[j] == r@[j]@);
        assert(crate::order::before(all[i].path()->0, all[j].path()->0));
        crate::order::before_irreflexive(all[i].path()->0);
        assert(all[j].path() is Some);
    }
}

// ---------------------------------------------------------------- the recorded state

/// A state that was just recorded is current: the project's files need not be read again, and
/// every file of the template is recorded with the hash it had.
pub proof fn a_recorded_state_is_current(
    files: &Table<String>,
    previous: Option<&TemplateState>,
    version: &str,
    mark: bool,
    s: TemplateState,
    current: bool,
)
    requires
        call_ensures(state::stamp, (files, previous, version, mark), s),
        call_ensures(state::template_unmoved, (Some(&s), files), current),
    ensures
        current,
        s.files@.dom() == files@.dom(),
        forall|p: Seq<char>| #[trigger]
            files@.dom().contains(p) ==> s.files@[p] == Some(files@[p]),
        s.template_synced_at@ == version@,
        mark ==> paths::opt(s.initialized_with) == Some(version@),
        !mark && previous is None ==> s.initialized_with is None,
        !mark && previous is Some ==> paths::opt(s.initialized_with) == paths::opt(
            previous->0.initialized_with,
        ),
{
    assert(s.files@.dom() =~= files@.dom());
}

/// Without a recorded state the template never counts as unmoved.
pub proof fn an_unrecorded_project_is_compared(theirs: &Table<String>, r: bool)
    requires
        call_ensures(state::template_unmoved, (None::<&TemplateState>, theirs), r),
    ensures
        !r,
{
}

/// Where nothing is recorded, the base is known of exactly those files that still match the
/// template, and every file of the template has one or is marked as unknown.
pub proof fn a_base_is_known_where_files_match(
    mine: &Table<ProjectFile>,
    theirs: &Table<String>,
    r: Table<Option<String>>,
    p: Seq<char>,
)
    requires
        call_ensures(state::derive_base, (mine, theirs), r),
    ensures
        r@.dom().contains(p) <==> theirs@.dom().contains(p),
        r@.dom().contains(p) ==> (r@[p] is Some <==> mine@.dom().contains(p) && mine@[p]@
            == FileView::Hash(theirs@[p]@)),
        r@.dom().contains(p) && r@[p] is Some ==> r@[p]->0@ == theirs@[p]@,
{
}

proof fn lemma_probed(probes: Seq<Probe>, k: int)
    requires
        0 <= k < probes.len(),
        forall|i: int| 0 <= i < k ==> (#[trigger] probes[i]).path@ != probes[k].path@,
    ensures
        state::probed_files(probes).dom().contains(probes[k].path@),
        state::probed_files(probes)[probes[k].path@] == state::probed(probes[k]),
    decreases probes.len(),
{
    let w = probes.drop_last();
    if k < w.len() {
        assert forall|i: int| 0 <= i < k implies (#[trigger] w[i]).path@ != w[k].path@ by {
            assert(w[i] == probes[i]);
        }
        lemma_probed(w, k);
        assert(w[k] == probes[k]);
    } else {
        lemma_unprobed(w, probes[k].path@);
    }
}

proof fn lemma_unprobed(probes: Seq<Probe>, p: Seq<char>)
    requires
        forall|i: int| 0 <= i < probes.len() ==> (#[trigger] probes[i]).path@ != p,
    ensures
        !state::probed_files(probes).dom().contains(p),
    decreases probes.len(),
{
    if probes.len() > 0 {
        let w = probes.drop_last();
        assert(probes[probes.len() - 1].path@ != p);
        assert forall|i: int| 0 <= i < w.len() implies (#[trigger] w[i]).path@ != p by {
            assert(w[i] == probes[i]);
        }
        lemma_unprobed(w, p);
    }
}

/// A file that is there is never taken for missing, though it cannot be read; the first probe of a
/// path counts, and a path that was not probed is not known.
pub proof fn an_unreadable_file_is_not_missing(
    probes: &Vec<Probe>,
    r: Table<ProjectFile>,
    k: int,
    p: Seq<char>,
)
    requires
        call_ensures(state::project_files, (probes,), r),
        0 <= k < probes@.len(),
        forall|i: int| 0 <= i < k ==> (#[trigger] probes@[i]).path@ != probes@[k].path@,
    ensures
        r@.dom().contains(probes@[k].path@),
        ({
            let f = r@[probes@[k].path@]@;
            &&& f is Missing <==> !probes@[k].is_file
            &&& probes@[k].is_file && probes@[k].hash is None ==> f is Unreadable
            &&& probes@[k].is_file && probes@[k].hash is Some ==> f == FileView::Hash(
                probes@[k].hash->0@,
            )
        }),
        (forall|i: int| 0 <= i < probes@.len() ==> (#[trigger] probes@[i]).path@ != p)
            ==> !r@.dom().contains(p),
{
    lemma_probed(probes@, k);
    let m = state::file_views(r@);
    assert(m.dom() =~= r@.dom());
    assert(m[probes@[k].path@] == r@[probes@[k].path@]@);
    if forall|i: int| 0 <= i < probes@.len() ==> (#[trigger] probes@[i]).path@ != p {
        lemma_unprobed(probes@, p);
    }
}

// ---------------------------------------------------------------- paths and hashes

/// Whether the pieces of a path are all names.
pub open spec fn plain(pieces: Seq<Seq<char>>) -> bool {
    forall|i: int| 0 <= i < pieces.len() ==> (#[trigger] pieces[i]).len() > 0 && pieces[i] != "."@
}

proof fn lemma_named_both(a: Seq<Seq<char>>, b: Seq<Seq<char>>)
    requires
        plain(b),
    ensures
        state::named(a + b) == state::named(a) + b,
    decreases b.len(),
{
    if b.len() == 0 {
        assert(a + b =~= a);
        assert(state::named(a) + b =~= state::named(a));
    } else {
        let w = b.drop_last();
        assert forall|i: int| 0 <= i < w.len() implies (#[trigger] w[i]).len() > 0 && w[i]
            != "."@ by {
            assert(w[i] == b[i]);
        }
        lemma_named_both(a, w);
        let all = a + b;
        assert(all.drop_last() =~= a + w);
        assert(all.last() == b[b.len() - 1]);
        assert((state::named(a) + w).push(b.last()) =~= state::named(a) + b);
    }
}

/// The path of a file below a directory is what follows the directory and a slash.
pub proof fn a_path_is_what_follows_its_directory(
    root: &str,
    path: &str,
    rel: Seq<char>,
    r: Result<String, NotUnder>,
)
    requires
        call_ensures(state::relative_path, (root, path), r),
        path@ == root@ + "/"@ + rel,
        root@.len() > 0,
        plain(lines::split(rel, '/')),
    ensures
        r matches Ok(s) && s@ == rel,
{
    lemma_relative(root@, path@, rel);
}

proof fn lemma_relative(root: Seq<char>, path: Seq<char>, rel: Seq<char>)
    requires
        path == root + "/"@ + rel,
        root.len() > 0,
        plain(lines::split(rel, '/')),
    ensures
        state::relative(root, path) == Some(rel),
{
    reveal_strlit("/");
    assert("/"@ =~= seq!['/']);
    lines::split_of_both(root, '/', rel);
    let b = lines::split(rel, '/');
    lemma_named_both(lines::split(root, '/'), b);
    let r = state::components(root);
    let p = state::components(path);
    assert(p == r + b);
    assert(p.subrange(0, r.len() as int) =~= r);
    assert(p.skip(r.len() as int) =~= b);
    lines::join_undoes_split(rel, '/');
    assert(path[0] == root[0]);
}

proof fn lemma_listed(root: Seq<char>, files: Seq<TemplateFile>, k: int, rel: Seq<char>)
    requires
        0 <= k < files.len(),
        state::relative(root, files[k].path@) == Some(rel),
        forall|i: int|
            k < i < files.len() ==> state::relative(root, (#[trigger] files[i]).path@) != Some(rel),
    ensures
        !template::runtime(rel) ==> state::listed_hashes(root, files).dom().contains(rel)
            && state::listed_hashes(root, files)[rel] == utils::hex(
            utils::sha256_digest(files[k].content@),
        ),
    decreases files.len(),
{
    let w = files.drop_last();
    if k < w.len() {
        assert(w[k] == files[k]);
        assert forall|i: int| k < i < w.len() implies state::relative(
            root,
            (#[trigger] w[i]).path@,
        ) != Some(rel) by {
            assert(w[i] == files[i]);
        }
        lemma_listed(root, w, k, rel);
        assert(state::relative(root, files[files.len() - 1].path@) != Some(rel));
    }
}

proof fn lemma_only_listed(root: Seq<char>, files: Seq<TemplateFile>, rel: Seq<char>)
    ensures
        state::listed_hashes(root, files).dom().contains(rel) ==> !template::runtime(rel)
            && exists|i: int|
            0 <= i < files.len() && state::relative(root, (#[trigger] files[i]).path@) == Some(rel),
    decreases files.len(),
{
    if files.len() > 0 {
        let w = files.drop_last();
        lemma_only_listed(root, w, rel);
        if state::listed_hashes(root, w).dom().contains(rel) {
            let i = choose|i: int|
                0 <= i < w.len() && state::relative(root, (#[trigger] w[i]).path@) == Some(rel);
            assert(files[i] == w[i]);
        }
        assert(files[files.len() - 1] == files.last());
    }
}

/// Every file of the template is listed under its own path with the hash of its content, but for
/// those of the running project; nothing else is listed.
pub proof fn every_template_file_is_listed(
    root: &str,
    files: &Vec<TemplateFile>,
    r: Result<Table<String>, NotUnder>,
    bytes: &[u8],
    hash: String,
    k: int,
    rel: Seq<char>,
)
    requires
        call_ensures(state::manifest, (root, files), r),
        r is Ok,
        0 <= k < files@.len(),
        root@.len() > 0,
        files@[k].path@ == root@ + "/"@ + rel,
        plain(lines::split(rel, '/')),
        forall|i: int|
            k < i < files@.len() ==> state::relative(root@, (#[trigger] files@[i]).path@) != Some(
                rel,
            ),
        bytes@ == files@[k].content@,
        call_ensures(utils::hash_bytes, (bytes,), hash),
    ensures
        ({
            let t = r->Ok_0@;
            let run = "logs/"@.is_prefix_of(rel) || "volumes/"@.is_prefix_of(rel);
            &&& !run ==> t.dom().contains(rel) && t[rel]@ == hash@
            &&& run ==> !t.dom().contains(rel)
        }),
        forall|p: Seq<char>| #[trigger]
            r->Ok_0@.dom().contains(p) ==> exists|i: int|
                0 <= i < files@.len() && state::relative(root@, (#[trigger] files@[i]).path@)
                    == Some(p),
{
    let t = r->Ok_0@;
    lemma_relative(root@, files@[k].path@, rel);
    lemma_listed(root@, files@, k, rel);
    lemma_only_listed(root@, files@, rel);
    let m = state::hashes(t);
    assert(m.dom() =~= t.dom());
    if t.dom().contains(rel) {
        assert(m[rel] == t[rel]@);
    }
    assert forall|p: Seq<char>| #[trigger] t.dom().contains(p) implies exists|i: int|
        0 <= i < files@.len() && state::relative(root@, (#[trigger] files@[i]).path@) == Some(
            p,
        ) by {
        lemma_only_listed(root@, files@, p);
        assert(m.dom().contains(p));
    }
}

// ---------------------------------------------------------------- the seeds

proof fn lemma_without_comments(ls: Seq<Seq<char>>, s: Seq<char>)
    ensures
        seeds::without_comments(ls).contains(s) <==> ls.contains(s) && !"#"@.is_prefix_of(s),
    decreases ls.len(),
{
    if ls.len() > 0 {
        let w = ls.drop_last();
        lemma_without_comments(w, s);
        vstd::seq_lib::lemma_seq_contains_after_push(w, ls.last(), s);
        assert(w.push(ls.last()) =~= ls);
        vstd::seq_lib::lemma_seq_contains_after_push(seeds::without_comments(w), ls.last(), s);
    }
}

proof fn lemma_filled(pieces: Seq<Seq<char>>, s: Seq<char>)
    ensures
        lines::filled(pieces).contains(s) <==> pieces.contains(s) && s.len() > 0,
    decreases pieces.len(),
{
    if pieces.len() > 0 {
        let w = pieces.drop_last();
        lemma_filled(w, s);
        vstd::seq_lib::lemma_seq_contains_after_push(w, pieces.last(), s);
        assert(w.push(pieces.last()) =~= pieces);
        vstd::seq_lib::lemma_seq_contains_after_push(lines::filled(w), pieces.last(), s);
    }
}

proof fn lemma_patterns(content: Seq<char>, s: Seq<char>)
    ensures
        seeds::patterns(content).contains(s) <==> s.len() > 0 && !"#"@.is_prefix_of(s) && exists|
            i: int,
        |
            0 <= i < lines::lines(content).len() && text::trimmed(
                #[trigger] lines::lines(content)[i],
            ) == s,
{
    let all = lines::lines(content);
    let t = all.map_values(|l: Seq<char>| text::trimmed(l));
    lemma_filled(t, s);
    lemma_without_comments(lines::filled(t), s);
    if t.contains(s) {
        let i = choose|i: int| 0 <= i < t.len() && t[i] == s;
        assert(text::trimmed(all[i]) == s);
    }
    if exists|i: int| 0 <= i < all.len() && text::trimmed(#[trigger] all[i]) == s {
        let i = choose|i: int| 0 <= i < all.len() && text::trimmed(#[trigger] all[i]) == s;
        assert(t[i] == s);
    }
}

/// The entries of an ignore list are its lines that are neither blank nor comments, without the
/// white space around them.
pub proof fn every_ignored_entry_is_read(content: &str, r: Vec<String>, s: Seq<char>)
    requires
        call_ensures(seeds::gitignore_entries, (content,), r),
    ensures
        text::texts(r@).contains(s) <==> s.len() > 0 && !"#"@.is_prefix_of(s) && exists|i: int|
            0 <= i < lines::lines(content@).len() && text::trimmed(
                #[trigger] lines::lines(content@)[i],
            ) == s,
{
    lemma_patterns(content@, s);
}

proof fn lemma_assigned(ls: Seq<Seq<char>>, l: Seq<char>, k: Seq<char>, v: Seq<char>)
    requires
        ls.contains(l),
        l == k + seq!['='] + v,
        !k.contains('='),
    ensures
        seeds::assigned(ls).contains(text::trimmed(k)),
    decreases ls.len(),
{
    let w = ls.drop_last();
    let before = seeds::assigned(w);
    let all = seeds::assigned(ls);
    let i = choose|i: int| 0 <= i < ls.len() && ls[i] == l;
    if i < w.len() {
        assert(w[i] == l);
        lemma_assigned(w, l, k, v);
        let j = choose|j: int| 0 <= j < before.len() && before[j] == text::trimmed(k);
        assert(all[j] == text::trimmed(k));
    } else {
        text::cut_of_both(k, '=', v);
        assert(all[all.len() - 1] == text::trimmed(k));
    }
}

/// Every key that a line of an environment sets is read, without the white space around it; a line
/// that is a comment sets none.
pub proof fn every_key_is_read(
    content: &str,
    r: Vec<String>,
    i: int,
    k: Seq<char>,
    v: Seq<char>,
)
    requires
        call_ensures(seeds::env_keys, (content,), r),
        0 <= i < lines::lines(content@).len(),
        text::trimmed(lines::lines(content@)[i]) == k + seq!['='] + v,
        !k.contains('='),
        !"#"@.is_prefix_of(k + seq!['='] + v),
    ensures
        text::texts(r@).contains(text::trimmed(k)),
{
    let l = k + seq!['='] + v;
    lemma_patterns(content@, l);
    lemma_assigned(seeds::patterns(content@), l, k, v);
}

/// What is missing is what is wanted and not there.
pub proof fn what_is_not_there_is_missing(
    wanted: &Vec<String>,
    there: &Vec<String>,
    r: Vec<String>,
    s: Seq<char>,
)
    requires
        call_ensures(seeds::difference, (wanted, there), r),
    ensures
        text::texts(r@).contains(s) <==> text::texts(wanted@).contains(s) && !text::texts(
            there@,
        ).contains(s),
{
    seeds::missing_is_the_difference(text::texts(wanted@), text::texts(there@));
}

/// What the seeds have and the project lacks is reported, the keys of the environment apart from
/// the entries of the ignore list, and nothing where nothing is lacking.
pub proof fn what_the_project_lacks_is_reported(
    s: &Seeds,
    env_dist: &str,
    env: &str,
    ignore_dist: &str,
    ignore: &str,
    a: Vec<String>,
    b: Vec<String>,
    c: Vec<String>,
    d: Vec<String>,
    r: Vec<Change>,
    i: int,
    k: Seq<char>,
)
    requires
        env_dist@ == s.env_dist@,
        env@ == s.env@,
        ignore_dist@ == s.gitignore_dist@,
        ignore@ == s.gitignore@,
        call_ensures(seeds::env_keys, (env_dist,), a),
        call_ensures(seeds::env_keys, (env,), b),
        call_ensures(seeds::gitignore_entries, (ignore_dist,), c),
        call_ensures(seeds::gitignore_entries, (ignore,), d),
        call_ensures(seeds::derived_changes, (s,), r),
    ensures
        0 <= i < r@.len() ==> r@[i]@ is EnvKeys || r@[i]@ is GitignoreEntries,
        0 <= i < r@.len() && r@[i]@ is EnvKeys ==> (r@[i]@->EnvKeys_0.contains(k) <==> text::texts(
            a@,
        ).contains(k) && !text::texts(b@).contains(k)),
        0 <= i < r@.len() && r@[i]@ is GitignoreEntries ==> (r@[i]@->GitignoreEntries_0.contains(k)
            <==> text::texts(c@).contains(k) && !text::texts(d@).contains(k)),
        text::texts(a@).contains(k) && !text::texts(b@).contains(k) ==> r@.len() > 0 && r@[0]@
            is EnvKeys,
        text::texts(c@).contains(k) && !text::texts(d@).contains(k) ==> r@.len() > 0
            && r@.last()@ is GitignoreEntries,
        r@.len() <= 2,
{
    let v = template::changes_view(r@);
    assert(v.len() == r@.len());
    seeds::missing_is_the_difference(text::texts(a@), text::texts(b@));
    seeds::missing_is_the_difference(text::texts(c@), text::texts(d@));
    let e = seeds::missing(text::texts(a@), text::texts(b@));
    let g = seeds::missing(text::texts(c@), text::texts(d@));
    assert(e.contains(k) <==> text::texts(a@).contains(k) && !text::texts(b@).contains(k));
    assert(g.contains(k) <==> text::texts(c@).contains(k) && !text::texts(d@).contains(k));
    if r@.len() > 0 {
        assert(v[0] == r@[0]@);
        assert(v[v.len() - 1] == r@[r@.len() - 1]@);
    }
    if 0 <= i < r@.len() {
        assert(v[i] == r@[i]@);
    }
}

/// The seeds are compared whatever is recorded, and where the template has not moved nothing else
/// is reported.
pub proof fn an_unmoved_template_reports_only_the_seeds(
    theirs: &Table<String>,
    s: Option<&TemplateState>,
    mine: &Table<ProjectFile>,
    seed: &Seeds,
    current: bool,
    derived: Vec<Change>,
    r: Vec<Change>,
)
    requires
        call_ensures(state::template_unmoved, (s, theirs), current),
        call_ensures(seeds::derived_changes, (seed,), derived),
        call_ensures(state::diff, (theirs, s, mine, seed), r),
    ensures
        current ==> template::changes_view(r@) == template::changes_view(derived@),
        template::changes_view(derived@).is_suffix_of(template::changes_view(r@)),
{
    let v = template::changes_view(r@);
    let d = template::changes_view(derived@);
    let files = choose|files: Seq<ChangeView>|
        v == #[trigger] (files + seeds::derived(*seed)) && if state::is_current(s, *theirs) {
            files.len() == 0
        } else {
            template::classified(files, state::base_of(s, theirs@, mine@), theirs@, mine@)
        };
    assert(v.subrange(v.len() - d.len(), v.len() as int) =~= d);
    if current {
        assert(v =~= d);
    }
}

/// Where the template has moved, every file is reported that the comparison with the recorded
/// state, or else with what still matches, finds changed.
pub proof fn a_moved_template_reports_its_files(
    theirs: &Table<String>,
    s: &TemplateState,
    mine: &Table<ProjectFile>,
    seed: &Seeds,
    current: bool,
    r: Vec<Change>,
    p: Seq<char>,
)
    requires
        call_ensures(state::template_unmoved, (Some(s), theirs), current),
        call_ensures(state::diff, (theirs, Some(s), mine, seed), r),
        !current,
        theirs@.dom().contains(p),
        compared(p),
        s.files@.dom().contains(p),
        s.files@[p] is Some,
        s.files@[p]->0@ != theirs@[p]@,
        mine@.dom().contains(p),
    ensures
        mine@[p]@ == FileView::Hash(s.files@[p]->0@) ==> template::changes_view(r@).contains(
            ChangeView::SafeUpdate(p),
        ),
        mine@[p]@ is Hash && mine@[p]@ != FileView::Hash(s.files@[p]->0@) && mine@[p]@
            != FileView::Hash(theirs@[p]@) ==> template::changes_view(r@).contains(
            ChangeView::Conflict(p),
        ),
        mine@[p]@ is Missing ==> template::changes_view(r@).contains(ChangeView::SafeAdd(p)),
{
    let v = template::changes_view(r@);
    let files = choose|files: Seq<ChangeView>|
        v == #[trigger] (files + seeds::derived(*seed)) && if state::is_current(
            Some(s),
            *theirs,
        ) {
            files.len() == 0
        } else {
            template::classified(files, state::base_of(Some(s), theirs@, mine@), theirs@, mine@)
        };
    assert(template::in_scope(s.files@, theirs@, p));
    assert(!template::skipped(p));
    let c = template::verdict(s.files@, theirs@, mine@, p);
    if c is Some {
        assert(files.contains(c->0));
        let i = choose|i: int| 0 <= i < files.len() && files[i] == c->0;
        assert(v[i] == c->0);
    }
}

// ---------------------------------------------------------------- the summary

proof fn lemma_summarized(all: Seq<ChangeView>, p: Seq<char>)
    ensures
        summary::summarized(all).safe.contains(p) <==> all.contains(ChangeView::SafeUpdate(p))
            || all.contains(ChangeView::SafeAdd(p)),
        summary::summarized(all).conflicts.contains(p) <==> all.contains(ChangeView::Conflict(p)),
        summary::summarized(all).unknown.contains(p) <==> all.contains(ChangeView::Unknown(p)),
        summary::summarized(all).removed.contains(p) <==> all.contains(
            ChangeView::RemovedUpstream(p),
        ),
    decreases all.len(),
{
    if all.len() > 0 {
        let w = all.drop_last();
        let c = all.last();
        lemma_summarized(w, p);
        assert(w.push(c) =~= all);
        vstd::seq_lib::lemma_seq_contains_after_push(w, c, ChangeView::SafeUpdate(p));
        vstd::seq_lib::lemma_seq_contains_after_push(w, c, ChangeView::SafeAdd(p));
        vstd::seq_lib::lemma_seq_contains_after_push(w, c, ChangeView::Conflict(p));
        vstd::seq_lib::lemma_seq_contains_after_push(w, c, ChangeView::Unknown(p));
        vstd::seq_lib::lemma_seq_contains_after_push(w, c, ChangeView::RemovedUpstream(p));
        let s = summary::summarized(w);
        if let Some(q) = c.path() {
            vstd::seq_lib::lemma_seq_contains_after_push(s.safe, q, p);
            vstd::seq_lib::lemma_seq_contains_after_push(s.conflicts, q, p);
            vstd::seq_lib::lemma_seq_contains_after_push(s.unknown, q, p);
            vstd::seq_lib::lemma_seq_contains_after_push(s.removed, q, p);
        }
    }
}

/// Every change stands in the group that tells what it asks of the user, and in no other; what
/// was brought up to date by hand asks nothing.
pub proof fn every_change_has_its_group(changes: &Vec<Change>, r: Summary, p: Seq<char>)
    requires
        call_ensures(Summary::from_changes, (changes,), r),
    ensures
        ({
            let all = template::changes_view(changes@);
            &&& text::texts(r.safe@).contains(p) <==> all.contains(ChangeView::SafeUpdate(p))
                || all.contains(ChangeView::SafeAdd(p))
            &&& text::texts(r.conflicts@).contains(p) <==> all.contains(ChangeView::Conflict(p))
            &&& text::texts(r.unknown@).contains(p) <==> all.contains(ChangeView::Unknown(p))
            &&& text::texts(r.removed@).contains(p) <==> all.contains(
                ChangeView::RemovedUpstream(p),
            )
        }),
{
    lemma_summarized(template::changes_view(changes@), p);
    assert(r@ == summary::summarized(template::changes_view(changes@)));
}

/// What is missing from the environment and from the ignore list is shown as it was reported.
pub proof fn what_is_lacking_is_shown(
    changes: &Vec<Change>,
    last: Seq<Seq<char>>,
    r: Summary,
)
    requires
        call_ensures(Summary::from_changes, (changes,), r),
        changes@.len() > 0,
    ensures
        changes@.last()@ == ChangeView::EnvKeys(last) ==> text::texts(r.env_keys@) == last,
        changes@.last()@ == ChangeView::GitignoreEntries(last) ==> text::texts(
            r.gitignore_entries@,
        ) == last,
{
    let all = template::changes_view(changes@);
    assert(all.last() == changes@.last()@);
    assert(r@ == summary::summarized(all));
}

/// A summary has a line for every group that holds something, with all that it holds. The passive
/// notice leaves out what nothing but an update could clear.
pub proof fn every_group_has_its_line(s: &Summary, notice: bool, r: Vec<String>, empty: bool)
    requires
        call_ensures(Summary::print, (s, notice), r),
        call_ensures(Summary::is_empty, (s,), empty),
    ensures
        ({
            let n = |l: Vec<String>|
                if l@.len() > 0 {
                    1int
                } else {
                    0
                };
            r@.len() == n(s.safe) + n(s.conflicts) + (if notice {
                0
            } else {
                n(s.unknown)
            }) + n(s.removed) + n(s.env_keys) + n(s.gitignore_entries)
        }),
        s.safe@.len() > 0 ==> r@[0]@ == "    "@ + (crate::number::decimal(s.safe@.len())
            + " file(s) can be updated safely"@) + ": "@ + lines::joined(
            text::texts(s.safe@),
            ", "@,
        ),
        s.gitignore_entries@.len() > 0 ==> r@.last()@ == "    "@
            + ".gitignore is missing template entries"@ + ": "@ + lines::joined(
            text::texts(s.gitignore_entries@),
            ", "@,
        ),
        empty <==> s.safe@.len() == 0 && s.conflicts@.len() == 0 && s.unknown@.len() == 0
            && s.removed@.len() == 0 && s.env_keys@.len() == 0 && s.gitignore_entries@.len() == 0,
{
    let t = text::texts(r@);
    assert(t.len() == r@.len());
    assert(text::texts(s.safe@).len() == s.safe@.len());
    assert(text::texts(s.conflicts@).len() == s.conflicts@.len());
    assert(text::texts(s.unknown@).len() == s.unknown@.len());
    assert(text::texts(s.removed@).len() == s.removed@.len());
    assert(text::texts(s.env_keys@).len() == s.env_keys@.len());
    assert(text::texts(s.gitignore_entries@).len() == s.gitignore_entries@.len());
    if r@.len() > 0 {
        assert(t[0] == r@[0]@);
        assert(t[t.len() - 1] == r@[r@.len() - 1]@);
    }
}

/// The line of a group.
pub open spec fn line_of(label: Seq<char>, list: Seq<Seq<char>>) -> Seq<char> {
    "    "@ + label + ": "@ + lines::joined(list, ", "@)
}

/// Every group is told by what it asks of the user, with the number of its files.
pub proof fn every_group_is_told_by_its_name(s: &Summary, notice: bool, r: Vec<String>)
    requires
        call_ensures(Summary::print, (s, notice), r),
    ensures
        ({
            let t = text::texts(r@);
            let n = |l: Vec<String>| crate::number::decimal(l@.len());
            &&& s.safe@.len() > 0 ==> t.contains(
                line_of(n(s.safe) + " file(s) can be updated safely"@, text::texts(s.safe@)),
            )
            &&& s.conflicts@.len() > 0 ==> t.contains(
                line_of(
                    n(s.conflicts) + " file(s) you modified also changed upstream"@,
                    text::texts(s.conflicts@),
                ),
            )
            &&& s.unknown@.len() > 0 && !notice ==> t.contains(
                line_of(
                    n(s.unknown) + " file(s) differ with no recorded base (review manually)"@,
                    text::texts(s.unknown@),
                ),
            )
            &&& s.removed@.len() > 0 ==> t.contains(
                line_of(
                    n(s.removed) + " file(s) no longer in the template"@,
                    text::texts(s.removed@),
                ),
            )
            &&& s.env_keys@.len() > 0 ==> t.contains(
                line_of(".env is missing template keys"@, text::texts(s.env_keys@)),
            )
        }),
{
    let t = text::texts(r@);
    let safe = text::texts(s.safe@);
    let conflicts = text::texts(s.conflicts@);
    let unknown = text::texts(s.unknown@);
    let removed = text::texts(s.removed@);
    let keys = text::texts(s.env_keys@);
    assert(safe.len() == s.safe@.len());
    assert(conflicts.len() == s.conflicts@.len());
    assert(unknown.len() == s.unknown@.len());
    assert(removed.len() == s.removed@.len());
    assert(keys.len() == s.env_keys@.len());
    let one = |l: Seq<Seq<char>>|
        if l.len() > 0 {
            1int
        } else {
            0
        };
    let b = one(safe);
    let c = b + one(conflicts);
    let d = c + (if notice {
        0
    } else {
        one(unknown)
    });
    let e = d + one(removed);
    if safe.len() > 0 {
        assert(t[0] == line_of(
            crate::number::decimal(safe.len()) + " file(s) can be updated safely"@,
            safe,
        ));
    }
    if conflicts.len() > 0 {
        assert(t[b] == line_of(
            crate::number::decimal(conflicts.len())
                + " file(s) you modified also changed upstream"@,
            conflicts,
        ));
    }
    if unknown.len() > 0 && !notice {
        assert(t[c] == line_of(
            crate::number::decimal(unknown.len())
                + " file(s) differ with no recorded base (review manually)"@,
            unknown,
        ));
    }
    if removed.len() > 0 {
        assert(t[d] == line_of(
            crate::number::decimal(removed.len()) + " file(s) no longer in the template"@,
            removed,
        ));
    }
    if keys.len() > 0 {
        assert(t[e] == line_of(".env is missing template keys"@, keys));
    }
}

} // verus!
