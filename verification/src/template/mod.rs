//! Tracks which version of the project template a project is synced to, so that an update
//! can tell what genuinely changed.
//!
//! At every sync point the hashes that the template had at that moment are recorded. That
//! gives a merge base, so each file yields three values: the recorded one, the template's
//! and the project's. What follows from them is an ordinary three-way merge.
use vstd::prelude::*;

use crate::order;
use crate::paths;
use crate::table::Table;
use crate::text;
use crate::text::{ends_with, same, starts_with};

pub mod laws;
pub mod seeds;
pub mod state;
pub mod summary;
pub mod sync_laws;

verus! {

/// Directory holding the tool's own state for a project, at the project root.
pub const STATE_DIR: &'static str = ".docker-control";

/// The template's list of environment keys. A project keeps its copy.
pub const ENV_DIST: &'static str = ".env-dist";

/// The template's seed for `.gitignore`. A project merges it in and keeps no copy.
pub const GITIGNORE_DIST: &'static str = ".gitignore-dist";

/// The directory of the template: the first of the places where it may lie that exists. Every
/// command goes by the same places, so that none compares a project with another template than
/// the one it was made from.
pub fn resolve_dir(candidates: &Vec<String>, existing: &Vec<String>) -> (r: Result<String, String>)
    ensures
        match paths::first_existing(text::texts(candidates@), text::texts(existing@)) {
            Some(d) => r matches Ok(s) && s@ == d,
            None => r matches Err(e) && e@ == "Could not find template directory"@,
        },
{
    match paths::find_existing(candidates, existing) {
        Some(d) => Ok(d),
        None => Err(text::owned("Could not find template directory")),
    }
}

// ---------------------------------------------------------------- which files count

/// Template files whose project copy holds values of the project's own. They are seeded
/// once, and neither overwritten nor reported afterwards.
pub open spec fn preserved(rel: Seq<char>) -> bool {
    rel == "config/htpasswd"@ || ("secrets/"@.is_prefix_of(rel) && ".txt"@.is_suffix_of(rel))
}

/// The seed that is merged into `.gitignore` and then deleted, so that a project never
/// holds a copy of it to compare.
pub open spec fn consumed(rel: Seq<char>) -> bool {
    rel == GITIGNORE_DIST@
}

/// Files in the directories for data of the running project.
pub open spec fn runtime(rel: Seq<char>) -> bool {
    "logs/"@.is_prefix_of(rel) || "volumes/"@.is_prefix_of(rel)
}

/// Files that the comparison leaves out.
pub open spec fn skipped(rel: Seq<char>) -> bool {
    runtime(rel) || preserved(rel) || consumed(rel)
}

/// Whether the project's copy of a template file holds values of the project's own.
pub fn is_preserve_local(rel: &str) -> (r: bool)
    ensures
        r == preserved(rel@),
{
    same(rel, "config/htpasswd") || (starts_with(rel, "secrets/") && ends_with(rel, ".txt"))
}

/// Whether a template file is merged into another one and then deleted.
pub fn is_consumed(rel: &str) -> (r: bool)
    ensures
        r == consumed(rel@),
{
    same(rel, GITIGNORE_DIST)
}

/// Whether a template file lies in a directory for data of the running project.
pub fn is_runtime(rel: &str) -> (r: bool)
    ensures
        r == runtime(rel@),
{
    starts_with(rel, "logs/") || starts_with(rel, "volumes/")
}

// ---------------------------------------------------------------- changes

/// What happened to one template file since the project last synced.
#[derive(Debug, Clone, PartialEq, Eq)]
pub enum Change {
    /// Template changed it, the project never touched it: safe to overwrite.
    SafeUpdate(String),
    /// New in the template and absent from the project.
    SafeAdd(String),
    /// Both the template and the project changed it since the last sync.
    Conflict(String),
    /// Gone from the template. Reported only, never deleted automatically.
    RemovedUpstream(String),
    /// The project already matches the new template; only the recorded base is stale.
    AlreadyApplied(String),
    /// No recorded base, so local edits and template drift are indistinguishable.
    Unknown(String),
    /// Keys the template's `.env-dist` has that the project's `.env` lacks.
    EnvKeys(Vec<String>),
    /// Entries the template's `.gitignore-dist` has that the project's `.gitignore` lacks.
    GitignoreEntries(Vec<String>),
}

/// A change, with its strings as sequences of characters.
pub ghost enum ChangeView {
    SafeUpdate(Seq<char>),
    SafeAdd(Seq<char>),
    Conflict(Seq<char>),
    RemovedUpstream(Seq<char>),
    AlreadyApplied(Seq<char>),
    Unknown(Seq<char>),
    EnvKeys(Seq<Seq<char>>),
    GitignoreEntries(Seq<Seq<char>>),
}

impl View for Change {
    type V = ChangeView;

    open spec fn view(&self) -> ChangeView {
        match *self {
            Change::SafeUpdate(p) => ChangeView::SafeUpdate(p@),
            Change::SafeAdd(p) => ChangeView::SafeAdd(p@),
            Change::Conflict(p) => ChangeView::Conflict(p@),
            Change::RemovedUpstream(p) => ChangeView::RemovedUpstream(p@),
            Change::AlreadyApplied(p) => ChangeView::AlreadyApplied(p@),
            Change::Unknown(p) => ChangeView::Unknown(p@),
            Change::EnvKeys(k) => ChangeView::EnvKeys(text::texts(k@)),
            Change::GitignoreEntries(k) => ChangeView::GitignoreEntries(text::texts(k@)),
        }
    }
}

impl ChangeView {
    /// The template-relative path, for the variants that name one.
    pub open spec fn path(self) -> Option<Seq<char>> {
        match self {
            ChangeView::SafeUpdate(p) => Some(p),
            ChangeView::SafeAdd(p) => Some(p),
            ChangeView::Conflict(p) => Some(p),
            ChangeView::RemovedUpstream(p) => Some(p),
            ChangeView::AlreadyApplied(p) => Some(p),
            ChangeView::Unknown(p) => Some(p),
            ChangeView::EnvKeys(_) => None,
            ChangeView::GitignoreEntries(_) => None,
        }
    }
}

/// The views of a list of changes.
pub open spec fn changes_view(v: Seq<Change>) -> Seq<ChangeView> {
    v.map_values(|c: Change| c@)
}

impl Change {
    /// Whether this is worth showing the user.
    pub fn is_actionable(&self) -> (r: bool)
        ensures
            r == !(self@ is AlreadyApplied),
    {
        match self {
            Change::AlreadyApplied(_) => false,
            _ => true,
        }
    }

    /// The template-relative path, for the variants that name one.
    pub fn path(&self) -> (r: Option<&str>)
        ensures
            (match r {
                Some(p) => Some(p@),
                None => None,
            }) == self@.path(),
    {
        match self {
            Change::SafeUpdate(p) => Some(p.as_str()),
            Change::SafeAdd(p) => Some(p.as_str()),
            Change::Conflict(p) => Some(p.as_str()),
            Change::RemovedUpstream(p) => Some(p.as_str()),
            Change::AlreadyApplied(p) => Some(p.as_str()),
            Change::Unknown(p) => Some(p.as_str()),
            Change::EnvKeys(_) => None,
            Change::GitignoreEntries(_) => None,
        }
    }
}

// ---------------------------------------------------------------- the decision table

/// State of the project's copy of a template file.
#[derive(Debug, Clone, PartialEq, Eq)]
pub enum ProjectFile {
    Missing,
    /// Present but unreadable by the host user. Not the same as missing: a file that is
    /// there may hold local edits.
    Unreadable,
    Hash(String),
}

/// The state of a project file, with its hash as a sequence of characters.
pub ghost enum FileView {
    Missing,
    Unreadable,
    Hash(Seq<char>),
}

impl View for ProjectFile {
    type V = FileView;

    open spec fn view(&self) -> FileView {
        match *self {
            ProjectFile::Missing => FileView::Missing,
            ProjectFile::Unreadable => FileView::Unreadable,
            ProjectFile::Hash(h) => FileView::Hash(h@),
        }
    }
}

/// The hash recorded for a path at the last sync.
pub open spec fn recorded(base: Map<Seq<char>, Option<String>>, p: Seq<char>) -> Option<
    Seq<char>,
> {
    if base.dom().contains(p) {
        paths::opt(base[p])
    } else {
        None
    }
}

/// The hash that the template has for a path now.
pub open spec fn current(theirs: Map<Seq<char>, String>, p: Seq<char>) -> Option<Seq<char>> {
    if theirs.dom().contains(p) {
        Some(theirs[p]@)
    } else {
        None
    }
}

/// The state of the project's copy of a path.
pub open spec fn local(mine: Map<Seq<char>, ProjectFile>, p: Seq<char>) -> FileView {
    if mine.dom().contains(p) {
        mine[p]@
    } else {
        FileView::Missing
    }
}

/// What a path's three values amount to: nothing, or one change.
pub open spec fn decide(
    p: Seq<char>,
    base: Option<Seq<char>>,
    theirs: Option<Seq<char>>,
    mine: FileView,
) -> Option<ChangeView> {
    match theirs {
        None => if mine is Missing {
            None
        } else {
            Some(ChangeView::RemovedUpstream(p))
        },
        Some(t) => if mine is Unreadable {
            Some(ChangeView::Unknown(p))
        } else if base == Some(t) {
            None
        } else if mine == FileView::Hash(t) {
            Some(ChangeView::AlreadyApplied(p))
        } else if mine is Missing {
            Some(ChangeView::SafeAdd(p))
        } else {
            match base {
                None => Some(ChangeView::Unknown(p)),
                Some(b) => if mine == FileView::Hash(b) {
                    Some(ChangeView::SafeUpdate(p))
                } else {
                    Some(ChangeView::Conflict(p))
                },
            }
        },
    }
}

/// The change that is reported for a path.
pub open spec fn verdict(
    base: Map<Seq<char>, Option<String>>,
    theirs: Map<Seq<char>, String>,
    mine: Map<Seq<char>, ProjectFile>,
    p: Seq<char>,
) -> Option<ChangeView> {
    if skipped(p) {
        None
    } else {
        decide(p, recorded(base, p), current(theirs, p), local(mine, p))
    }
}

/// Whether a path is known to the recorded base or to the template.
pub open spec fn in_scope(
    base: Map<Seq<char>, Option<String>>,
    theirs: Map<Seq<char>, String>,
    p: Seq<char>,
) -> bool {
    base.dom().contains(p) || theirs.dom().contains(p)
}

/// Whether a list holds the change of every path in scope that has one, and nothing else, in
/// the order of the paths.
pub open spec fn classified(
    r: Seq<ChangeView>,
    base: Map<Seq<char>, Option<String>>,
    theirs: Map<Seq<char>, String>,
    mine: Map<Seq<char>, ProjectFile>,
) -> bool {
    &&& forall|i: int|
        0 <= i < r.len() ==> {
            let c = #[trigger] r[i];
            c.path() matches Some(p) && in_scope(base, theirs, p) && verdict(base, theirs, mine, p)
                == Some(c)
        }
    &&& forall|p: Seq<char>|
        #![trigger in_scope(base, theirs, p)]
        in_scope(base, theirs, p) ==> (verdict(base, theirs, mine, p) matches Some(c) ==> r.contains(
            c,
        ))
    &&& forall|i: int, j: int|
        0 <= i < j < r.len() ==> order::before(
            (#[trigger] r[i]).path()->0,
            (#[trigger] r[j]).path()->0,
        )
}

/// The changes of some paths, in their order.
pub open spec fn verdicts(
    paths: Seq<Seq<char>>,
    base: Map<Seq<char>, Option<String>>,
    theirs: Map<Seq<char>, String>,
    mine: Map<Seq<char>, ProjectFile>,
) -> Seq<ChangeView>
    decreases paths.len(),
{
    if paths.len() == 0 {
        Seq::empty()
    } else {
        let before = verdicts(paths.drop_last(), base, theirs, mine);
        match verdict(base, theirs, mine, paths.last()) {
            Some(c) => before.push(c),
            None => before,
        }
    }
}

proof fn lemma_verdict_names_its_path(
    base: Map<Seq<char>, Option<String>>,
    theirs: Map<Seq<char>, String>,
    mine: Map<Seq<char>, ProjectFile>,
    p: Seq<char>,
)
    ensures
        verdict(base, theirs, mine, p) matches Some(c) ==> c.path() == Some(p),
{
}

proof fn lemma_verdicts(
    paths: Seq<Seq<char>>,
    base: Map<Seq<char>, Option<String>>,
    theirs: Map<Seq<char>, String>,
    mine: Map<Seq<char>, ProjectFile>,
)
    requires
        order::ascending(paths),
    ensures
        ({
            let r = verdicts(paths, base, theirs, mine);
            &&& forall|i: int|
                0 <= i < r.len() ==> {
                    let c = #[trigger] r[i];
                    c.path() matches Some(p) && paths.contains(p) && verdict(base, theirs, mine, p)
                        == Some(c)
                }
            &&& forall|p: Seq<char>| #[trigger]
                paths.contains(p) ==> (verdict(base, theirs, mine, p) matches Some(c)
                    ==> r.contains(c))
            &&& forall|i: int, j: int|
                0 <= i < j < r.len() ==> order::before(
                    (#[trigger] r[i]).path()->0,
                    (#[trigger] r[j]).path()->0,
                )
        }),
    decreases paths.len(),
{
    if paths.len() > 0 {
        let init = paths.drop_last();
        let last = paths.last();
        lemma_verdicts(init, base, theirs, mine);
        lemma_verdict_names_its_path(base, theirs, mine, last);
        let q = verdicts(init, base, theirs, mine);
        let r = verdicts(paths, base, theirs, mine);
        assert forall|i: int| 0 <= i < r.len() implies ({
            let c = #[trigger] r[i];
            c.path() matches Some(p) && paths.contains(p) && verdict(base, theirs, mine, p)
                == Some(c)
        }) by {
            if i < q.len() {
                let p = q[i].path()->0;
                let k = choose|k: int| 0 <= k < init.len() && init[k] == p;
                assert(paths[k] == p);
            } else {
                assert(paths[paths.len() - 1] == last);
            }
        }
        assert forall|p: Seq<char>| #[trigger] paths.contains(p) implies (verdict(
            base,
            theirs,
            mine,
            p,
        ) matches Some(c) ==> r.contains(c)) by {
            let k = choose|k: int| 0 <= k < paths.len() && paths[k] == p;
            if verdict(base, theirs, mine, p) is Some {
                let c = verdict(base, theirs, mine, p)->0;
                if k < init.len() {
                    assert(init[k] == p);
                    assert(init.contains(p));
                    let m = choose|m: int| 0 <= m < q.len() && q[m] == c;
                    assert(r[m] == c);
                } else {
                    assert(r[r.len() - 1] == c);
                }
            }
        }
        assert forall|i: int, j: int| 0 <= i < j < r.len() implies order::before(
            (#[trigger] r[i]).path()->0,
            (#[trigger] r[j]).path()->0,
        ) by {
            if j < q.len() {
                assert(r[i] == q[i] && r[j] == q[j]);
            } else {
                let p = q[i].path()->0;
                let k = choose|k: int| 0 <= k < init.len() && init[k] == p;
                assert(order::before(paths[k], paths[paths.len() - 1]));
            }
        }
    }
}

fn push_keys<V>(table: &Table<V>, out: &mut Vec<String>)
    ensures
        text::texts(final(out)@) == text::texts(old(out)@) + table.keys(),
        table.well_formed(),
{
    let n: usize = table.len();
    let mut i: usize = 0;
    assert(text::texts(out@) =~= text::texts(out@) + table.keys().take(0));
    while i < n
        invariant
            n == table.keys().len(),
            i <= n,
            text::texts(out@) == text::texts(old(out)@) + table.keys().take(i as int),
        decreases n - i,
    {
        let (key, _) = table.row(i);
        let ghost before = text::texts(out@);
        out.push(key.clone());
        proof {
            assert(text::texts(out@) =~= before.push(key@));
            assert(table.keys().take(i + 1) =~= table.keys().take(i as int).push(key@));
        }
        i += 1;
    }
    assert(table.keys().take(i as int) =~= table.keys());
}

/// The paths that the recorded base or the template knows, in ascending order.
pub fn tracked_paths(base: &Table<Option<String>>, theirs: &Table<String>) -> (r: Vec<String>)
    ensures
        order::ascending(text::texts(r@)),
        forall|p: Seq<char>| #[trigger]
            text::texts(r@).contains(p) <==> in_scope(base@, theirs@, p),
{
    let mut all: Vec<String> = Vec::new();
    push_keys(base, &mut all);
    push_keys(theirs, &mut all);
    let ghost v = text::texts(all@);
    let s = order::sort(&all);
    let r = order::dedup(&s);
    proof {
        order::in_order_sorts(v);
        order::dedup_of_sorted(text::texts(s@));
        assert(v =~= base.keys() + theirs.keys());
        assert forall|p: Seq<char>| #[trigger] text::texts(r@).contains(p) <==> in_scope(
            base@,
            theirs@,
            p,
        ) by {
            assert(text::texts(r@).contains(p) <==> text::texts(s@).contains(p));
            assert(text::texts(s@).contains(p) <==> v.contains(p));
            let (b, t) = (base.keys(), theirs.keys());
            if v.contains(p) {
                let i = choose|i: int| 0 <= i < v.len() && v[i] == p;
                if i < b.len() {
                    assert(b[i] == p);
                    assert(b.contains(p));
                } else {
                    assert(t[i - b.len()] == p);
                    assert(t.contains(p));
                }
            }
            if b.contains(p) {
                let i = choose|i: int| 0 <= i < b.len() && b[i] == p;
                assert(v[i] == p);
            }
            if t.contains(p) {
                let i = choose|i: int| 0 <= i < t.len() && t[i] == p;
                assert(v[b.len() + i] == p);
            }
        }
    }
    r
}

fn is_hash(mine: &ProjectFile, hash: &str) -> (r: bool)
    ensures
        r == (mine@ == FileView::Hash(hash@)),
{
    match mine {
        ProjectFile::Hash(h) => same(h.as_str(), hash),
        _ => false,
    }
}

/// Decides what one path's three values amount to.
pub fn classify_path(
    path: &str,
    base: Option<&str>,
    theirs: Option<&str>,
    mine: &ProjectFile,
) -> (r: Option<Change>)
    ensures
        (match r {
            Some(c) => Some(c@),
            None => None,
        }) == decide(
            path@,
            match base {
                Some(b) => Some(b@),
                None => None,
            },
            match theirs {
                Some(t) => Some(t@),
                None => None,
            },
            mine@,
        ),
{
    let missing = match mine {
        ProjectFile::Missing => true,
        _ => false,
    };
    let unreadable = match mine {
        ProjectFile::Unreadable => true,
        _ => false,
    };
    let t = match theirs {
        Some(t) => t,
        None => {
            return if missing {
                None
            } else {
                Some(Change::RemovedUpstream(text::owned(path)))
            };
        },
    };
    if unreadable {
        return Some(Change::Unknown(text::owned(path)));
    }
    if let Some(b) = base {
        if same(b, t) {
            return None;
        }
    }
    if is_hash(mine, t) {
        return Some(Change::AlreadyApplied(text::owned(path)));
    }
    if missing {
        return Some(Change::SafeAdd(text::owned(path)));
    }
    match base {
        None => Some(Change::Unknown(text::owned(path))),
        Some(b) => if is_hash(mine, b) {
            Some(Change::SafeUpdate(text::owned(path)))
        } else {
            Some(Change::Conflict(text::owned(path)))
        },
    }
}

/// The three-way decision table, over every path in scope.
pub fn classify(
    base: &Table<Option<String>>,
    theirs: &Table<String>,
    mine: &Table<ProjectFile>,
) -> (r: Vec<Change>)
    ensures
        classified(changes_view(r@), base@, theirs@, mine@),
{
    let list = tracked_paths(base, theirs);
    let ghost all = text::texts(list@);
    let mut r: Vec<Change> = Vec::new();
    let mut i: usize = 0;
    assert(changes_view(r@) =~= Seq::empty());
    while i < list.len()
        invariant
            i <= list@.len(),
            all == text::texts(list@),
            changes_view(r@) == verdicts(all.take(i as int), base@, theirs@, mine@),
        decreases list@.len() - i,
    {
        let path = list[i].as_str();
        proof {
            assert(all.take(i + 1).drop_last() =~= all.take(i as int));
            assert(all.take(i + 1).last() == path@);
        }
        if !(is_runtime(path) || is_preserve_local(path) || is_consumed(path)) {
            let b: Option<&str> = match base.get(path) {
                Some(Some(h)) => Some(h.as_str()),
                _ => None,
            };
            let t: Option<&str> = match theirs.get(path) {
                Some(h) => Some(h.as_str()),
                None => None,
            };
            let missing = ProjectFile::Missing;
            let m: &ProjectFile = match mine.get(path) {
                Some(m) => m,
                None => &missing,
            };
            let ghost before = changes_view(r@);
            if let Some(c) = classify_path(path, b, t, m) {
                r.push(c);
                assert(changes_view(r@) =~= before.push(c@));
            }
        }
        i += 1;
    }
    proof {
        assert(all.take(i as int) =~= all);
        lemma_verdicts(all, base@, theirs@, mine@);
        let v = changes_view(r@);
        assert forall|p: Seq<char>|
            #![trigger in_scope(base@, theirs@, p)]
            in_scope(base@, theirs@, p) implies (verdict(base@, theirs@, mine@, p) matches Some(c)
            ==> v.contains(c)) by {
            assert(all.contains(p));
        }
    }
    r
}

} // verus!
