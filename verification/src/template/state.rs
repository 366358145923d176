//! The recorded state of a project, and the comparison of a project with the template.
use vstd::prelude::*;

use crate::lines;
use crate::paths;
use crate::table;
use crate::table::Table;
use crate::template;
use crate::template::seeds;
use crate::template::seeds::{derived_changes, Seeds};
use crate::template::{classify, is_runtime, Change, ChangeView, FileView, ProjectFile};
use crate::text;
use crate::text::same;
use crate::utils;

verus! {

// ---------------------------------------------------------------- paths inside the template

/// The names in a path that stand for something: neither empty nor a single dot, except for
/// a dot at the start of a relative path.
pub open spec fn named(pieces: Seq<Seq<char>>) -> Seq<Seq<char>>
    decreases pieces.len(),
{
    if pieces.len() == 0 {
        pieces
    } else {
        let before = named(pieces.drop_last());
        let last = pieces.last();
        if last.len() == 0 || (last == "."@ && pieces.len() > 1) {
            before
        } else {
            before.push(last)
        }
    }
}

/// The components of a path.
pub open spec fn components(path: Seq<char>) -> Seq<Seq<char>> {
    named(lines::split(path, '/'))
}

/// Whether a path is absolute.
pub open spec fn absolute(path: Seq<char>) -> bool {
    path.len() > 0 && path[0] == '/'
}

/// `path` relative to `root`, with `/` between its components, where it lies under it.
pub open spec fn relative(root: Seq<char>, path: Seq<char>) -> Option<Seq<char>> {
    let r = components(root);
    let p = components(path);
    if absolute(root) == absolute(path) && r.is_prefix_of(p) {
        Some(lines::joined(p.skip(r.len() as int), "/"@))
    } else {
        None
    }
}

fn components_of(path: &str) -> (r: Vec<String>)
    ensures
        text::texts(r@) == components(path@),
{
    let pieces = lines::split_at_char(path, '/');
    let ghost all = text::texts(pieces@);
    let mut r: Vec<String> = Vec::new();
    let mut i: usize = 0;
    while i < pieces.len()
        invariant
            i <= pieces@.len(),
            all == text::texts(pieces@),
            text::texts(r@) == named(all.take(i as int)),
        decreases pieces@.len() - i,
    {
        proof {
            assert(all.take(i + 1).drop_last() =~= all.take(i as int));
            assert(all.take(i + 1).last() == pieces@[i as int]@);
        }
        let ghost before = text::texts(r@);
        let piece = pieces[i].as_str();
        if !(piece.is_empty() || (same(piece, ".") && i > 0)) {
            r.push(pieces[i].clone());
            assert(text::texts(r@) =~= before.push(piece@));
        }
        i += 1;
    }
    assert(all.take(i as int) =~= all);
    r
}

/// A path that does not lie under the directory it was looked for in.
#[derive(Debug, Clone, PartialEq, Eq)]
pub struct NotUnder {
    pub path: String,
    pub root: String,
}

/// `path` relative to `root`, always with `/` between the components.
pub fn relative_path(root: &str, path: &str) -> (r: Result<String, NotUnder>)
    ensures
        match r {
            Ok(s) => relative(root@, path@) == Some(s@),
            Err(e) => relative(root@, path@) is None && e.path@ == path@ && e.root@ == root@,
        },
{
    let rc = components_of(root);
    let pc = components_of(path);
    let ghost rs = text::texts(rc@);
    let ghost ps = text::texts(pc@);
    let n: usize = rc.len();
    let m: usize = pc.len();
    let mut under = text::begins_with(root, '/') == text::begins_with(path, '/') && n <= m;
    let mut i: usize = 0;
    while under && i < n
        invariant
            i <= n == rc@.len(),
            m == pc@.len(),
            rs == text::texts(rc@),
            ps == text::texts(pc@),
            under ==> n <= m && absolute(root@) == absolute(path@),
            under ==> forall|k: int| 0 <= k < i ==> rs[k] == ps[k],
            !under ==> !(absolute(root@) == absolute(path@) && rs.is_prefix_of(ps)),
        decreases n - i + (if under { 1int } else { 0int }),
    {
        if !same(rc[i].as_str(), pc[i].as_str()) {
            assert(rs[i as int] != ps[i as int]);
            under = false;
        } else {
            i += 1;
        }
    }
    if !under {
        return Err(NotUnder { path: text::owned(path), root: text::owned(root) });
    }
    assert(rs =~= ps.subrange(0, rs.len() as int));
    let mut rest: Vec<String> = Vec::new();
    let mut k: usize = n;
    assert(text::texts(rest@) =~= ps.subrange(n as int, n as int));
    while k < m
        invariant
            n <= k <= m == pc@.len(),
            ps == text::texts(pc@),
            text::texts(rest@) == ps.subrange(n as int, k as int),
        decreases m - k,
    {
        let ghost before = text::texts(rest@);
        rest.push(pc[k].clone());
        assert(text::texts(rest@) =~= before.push(pc@[k as int]@));
        assert(ps.subrange(n as int, k + 1) =~= before.push(ps[k as int]));
        k += 1;
    }
    assert(text::texts(rest@) =~= ps.skip(n as int));
    Ok(lines::join(&rest, "/"))
}

// ---------------------------------------------------------------- the manifest

/// A file found below the template directory.
pub struct TemplateFile {
    pub path: String,
    pub content: Vec<u8>,
}

/// The values of a map of strings as sequences of characters.
pub open spec fn hashes(m: Map<Seq<char>, String>) -> Map<Seq<char>, Seq<char>> {
    m.map_values(|h: String| h@)
}

/// The hash of each template file, by its path below the template directory, without the
/// files of the running project.
pub open spec fn listed_hashes(root: Seq<char>, files: Seq<TemplateFile>) -> Map<
    Seq<char>,
    Seq<char>,
>
    decreases files.len(),
{
    if files.len() == 0 {
        Map::empty()
    } else {
        let before = listed_hashes(root, files.drop_last());
        let f = files.last();
        match relative(root, f.path@) {
            Some(rel) => if template::runtime(rel) {
                before
            } else {
                before.insert(rel, utils::hex(utils::sha256_digest(f.content@)))
            },
            None => before,
        }
    }
}

/// Hashes the files of the template, by their path below `root`. Directories for data of the
/// running project are left out.
pub fn manifest(root: &str, files: &Vec<TemplateFile>) -> (r: Result<Table<String>, NotUnder>)
    ensures
        match r {
            Ok(t) => t.well_formed() && hashes(t@) == listed_hashes(root@, files@) && forall|i: int|
                0 <= i < files@.len() ==> relative(root@, (#[trigger] files@[i]).path@) is Some,
            Err(e) => e.root@ == root@ && exists|i: int|
                0 <= i < files@.len() && relative(root@, (#[trigger] files@[i]).path@) is None
                    && e.path@ == files@[i].path@ && forall|j: int|
                    0 <= j < i ==> relative(root@, (#[trigger] files@[j]).path@) is Some,
        },
{
    let mut t: Table<String> = Table::new();
    let mut i: usize = 0;
    assert(hashes(t@) =~= Map::empty());
    while i < files.len()
        invariant
            i <= files@.len(),
            t.well_formed(),
            hashes(t@) == listed_hashes(root@, files@.take(i as int)),
            forall|j: int|
                0 <= j < i ==> relative(root@, (#[trigger] files@[j]).path@) is Some,
        decreases files@.len() - i,
    {
        proof {
            assert(files@.take(i + 1).drop_last() =~= files@.take(i as int));
            assert(files@.take(i + 1).last() == files@[i as int]);
        }
        match relative_path(root, files[i].path.as_str()) {
            Ok(rel) => {
                if !is_runtime(rel.as_str()) {
                    let h = utils::hash_bytes(files[i].content.as_slice());
                    let ghost before = t@;
                    t.insert(rel, h);
                    assert(hashes(t@) =~= hashes(before).insert(rel@, h@));
                }
            },
            Err(e) => {
                return Err(e);
            },
        }
        i += 1;
    }
    assert(files@.take(i as int) =~= files@);
    Ok(t)
}

/// The lines `path:hash` of some keys, in their order.
pub open spec fn listing(keys: Seq<Seq<char>>, m: Map<Seq<char>, Seq<char>>) -> Seq<char>
    decreases keys.len(),
{
    if keys.len() == 0 {
        Seq::empty()
    } else {
        listing(keys.drop_last(), m) + (keys.last() + ":"@ + m[keys.last()] + "\n"@)
    }
}

/// The hash over a whole manifest: that of its lines `path:hash`, in the order of the paths.
pub open spec fn fingerprint_of(files: Table<String>) -> Seq<char> {
    utils::hex(
        utils::sha256_digest(
            vstd::utf8::encode_utf8(listing(files.keys(), hashes(files@))),
        ),
    )
}

/// A single hash standing in for the whole manifest.
pub fn fingerprint(files: &Table<String>) -> (r: String)
    ensures
        r@ == fingerprint_of(*files),
{
    let n: usize = files.len();
    let ghost m = hashes(files@);
    let mut all = String::new();
    let mut i: usize = 0;
    while i < n
        invariant
            n == files.keys().len(),
            i <= n,
            m == hashes(files@),
            all@ == listing(files.keys().take(i as int), m),
        decreases n - i,
    {
        let (key, hash) = files.row(i);
        let mut line = key.clone();
        line.append(":");
        line.append(hash.as_str());
        line.append("\n");
        all.append(line.as_str());
        proof {
            assert(files.keys().take(i + 1).drop_last() =~= files.keys().take(i as int));
            assert(files.keys().take(i + 1).last() == key@);
            assert(m[key@] == hash@);
        }
        i += 1;
    }
    assert(files.keys().take(i as int) =~= files.keys());
    utils::hash_bytes(all.as_str().as_bytes())
}

// ---------------------------------------------------------------- the recorded state

/// Recorded template state for one project.
pub struct TemplateState {
    /// Version of the tool that ran `init`. Absent for projects whose state was derived after
    /// the fact.
    pub initialized_with: Option<String>,
    /// Version of the tool at the most recent template sync.
    pub template_synced_at: String,
    /// Hash over the whole manifest.
    pub template_fingerprint: String,
    /// Hash the template had for each file at the last sync. `None` where the base is unknown.
    pub files: Table<Option<String>>,
}

impl TemplateState {
    /// The file that holds the state of a project.
    pub fn path(project_dir: &str) -> (r: String)
        ensures
            r@ == paths::below(
                paths::below(project_dir@, template::STATE_DIR@),
                "state.json"@,
            ),
    {
        let dir = paths::join(project_dir, template::STATE_DIR);
        paths::join(dir.as_str(), "state.json")
    }
}

/// The base that records a manifest as it stands.
pub open spec fn recorded_base(files: Map<Seq<char>, String>) -> Map<Seq<char>, Option<String>> {
    files.map_values(|h: String| Some(h))
}

fn record_all(files: &Table<String>) -> (r: Table<Option<String>>)
    ensures
        r@ == recorded_base(files@),
        r.well_formed(),
{
    let n: usize = files.len();
    let mut r: Table<Option<String>> = Table::new();
    let mut i: usize = 0;
    while i < n
        invariant
            n == files.keys().len(),
            i <= n,
            r.well_formed(),
            files.well_formed(),
            forall|k: Seq<char>| #[trigger]
                r@.dom().contains(k) <==> files.keys().take(i as int).contains(k),
            forall|k: Seq<char>| #[trigger]
                r@.dom().contains(k) ==> files@.dom().contains(k) && r@[k] == Some(files@[k]),
        decreases n - i,
    {
        let (key, hash) = files.row(i);
        let ghost done = files.keys().take(i as int);
        r.insert(key.clone(), Some(hash.clone()));
        proof {
            assert(files.keys().take(i + 1) =~= done.push(key@));
            assert forall|k: Seq<char>| #[trigger]
                r@.dom().contains(k) <==> files.keys().take(i + 1).contains(k) by {
                vstd::seq_lib::lemma_seq_contains_after_push(done, key@, k);
            }
        }
        i += 1;
    }
    proof {
        assert(files.keys().take(i as int) =~= files.keys());
        assert(r@ =~= recorded_base(files@));
    }
    r
}

/// Records a manifest as a project's new merge base. `mark_initialized` notes the version of
/// the tool as the one that set up the project; on later syncs an earlier note is kept, and a
/// missing one stays missing.
pub fn stamp(
    files: &Table<String>,
    previous: Option<&TemplateState>,
    version: &str,
    mark_initialized: bool,
) -> (r: TemplateState)
    ensures
        paths::opt(r.initialized_with) == if mark_initialized {
            Some(version@)
        } else {
            match previous {
                Some(p) => paths::opt(p.initialized_with),
                None => None,
            }
        },
        r.template_synced_at@ == version@,
        r.template_fingerprint@ == fingerprint_of(*files),
        r.files@ == recorded_base(files@),
{
    let initialized_with = if mark_initialized {
        Some(text::owned(version))
    } else {
        match previous {
            Some(p) => match &p.initialized_with {
                Some(v) => Some(v.clone()),
                None => None,
            },
            None => None,
        }
    };
    TemplateState {
        initialized_with,
        template_synced_at: text::owned(version),
        template_fingerprint: fingerprint(files),
        files: record_all(files),
    }
}

// ---------------------------------------------------------------- the project's files

/// What was found for one template-relative path in the project.
pub struct Probe {
    pub path: String,
    /// Whether a file stands there.
    pub is_file: bool,
    /// Its hash, where it could be read.
    pub hash: Option<String>,
}

/// The state that a probe shows.
pub open spec fn probed(p: Probe) -> FileView {
    if !p.is_file {
        FileView::Missing
    } else {
        match p.hash {
            Some(h) => FileView::Hash(h@),
            None => FileView::Unreadable,
        }
    }
}

/// The states that some probes show; the first one for a path counts.
pub open spec fn probed_files(probes: Seq<Probe>) -> Map<Seq<char>, FileView>
    decreases probes.len(),
{
    if probes.len() == 0 {
        Map::empty()
    } else {
        let before = probed_files(probes.drop_last());
        let p = probes.last();
        if before.dom().contains(p.path@) {
            before
        } else {
            before.insert(p.path@, probed(p))
        }
    }
}

/// The views of a map of file states.
pub open spec fn file_views(m: Map<Seq<char>, ProjectFile>) -> Map<Seq<char>, FileView> {
    m.map_values(|f: ProjectFile| f@)
}

/// The state of the project's copy of each probed path. A file that could not be read counts
/// as unreadable, never as missing.
pub fn project_files(probes: &Vec<Probe>) -> (r: Table<ProjectFile>)
    ensures
        file_views(r@) == probed_files(probes@),
        r.well_formed(),
{
    let mut mine: Table<ProjectFile> = Table::new();
    let mut i: usize = 0;
    assert(file_views(mine@) =~= Map::empty());
    while i < probes.len()
        invariant
            i <= probes@.len(),
            mine.well_formed(),
            file_views(mine@) == probed_files(probes@.take(i as int)),
        decreases probes@.len() - i,
    {
        proof {
            assert(probes@.take(i + 1).drop_last() =~= probes@.take(i as int));
            assert(probes@.take(i + 1).last() == probes@[i as int]);
        }
        let p = &probes[i];
        let known = mine.get(p.path.as_str()).is_some();
        if !known {
            let state = if !p.is_file {
                ProjectFile::Missing
            } else {
                match &p.hash {
                    Some(h) => ProjectFile::Hash(h.clone()),
                    None => ProjectFile::Unreadable,
                }
            };
            let ghost before = mine@;
            mine.insert(p.path.clone(), state);
            assert(file_views(mine@) =~= file_views(before).insert(p.path@, state@));
        }
        i += 1;
    }
    assert(probes@.take(i as int) =~= probes@);
    mine
}

/// The base for a project without a recorded state: the template's hash where the project's
/// file still matches it, and unknown elsewhere.
pub open spec fn derived_base(
    theirs: Map<Seq<char>, String>,
    mine: Map<Seq<char>, ProjectFile>,
) -> Map<Seq<char>, Option<String>> {
    Map::new(
        |p: Seq<char>| theirs.dom().contains(p),
        |p: Seq<char>|
            if template::local(mine, p) == FileView::Hash(theirs[p]@) {
                Some(theirs[p])
            } else {
                None
            },
    )
}

/// Best-effort base for a project without a recorded state. A file that still matches the
/// template is provably in sync; nothing is guessed of the others.
pub fn derive_base(mine: &Table<ProjectFile>, theirs: &Table<String>) -> (r: Table<
    Option<String>,
>)
    ensures
        r@ == derived_base(theirs@, mine@),
        r.well_formed(),
{
    let n: usize = theirs.len();
    let ghost want = derived_base(theirs@, mine@);
    let mut r: Table<Option<String>> = Table::new();
    let mut i: usize = 0;
    while i < n
        invariant
            n == theirs.keys().len(),
            i <= n,
            r.well_formed(),
            theirs.well_formed(),
            want == derived_base(theirs@, mine@),
            forall|k: Seq<char>| #[trigger]
                r@.dom().contains(k) <==> theirs.keys().take(i as int).contains(k),
            forall|k: Seq<char>| #[trigger]
                r@.dom().contains(k) ==> want.dom().contains(k) && r@[k] == want[k],
        decreases n - i,
    {
        let (key, hash) = theirs.row(i);
        let ghost done = theirs.keys().take(i as int);
        let matches = match mine.get(key.as_str()) {
            Some(ProjectFile::Hash(h)) => same(h.as_str(), hash.as_str()),
            _ => false,
        };
        let value = if matches {
            Some(hash.clone())
        } else {
            None
        };
        assert(value == want[key@]);
        r.insert(key.clone(), value);
        proof {
            assert(theirs.keys().take(i + 1) =~= done.push(key@));
            assert forall|k: Seq<char>| #[trigger]
                r@.dom().contains(k) <==> theirs.keys().take(i + 1).contains(k) by {
                vstd::seq_lib::lemma_seq_contains_after_push(done, key@, k);
            }
        }
        i += 1;
    }
    proof {
        assert(theirs.keys().take(i as int) =~= theirs.keys());
        assert(r@ =~= want);
    }
    r
}

// ---------------------------------------------------------------- the comparison

/// Whether the template has not moved since the recorded state was taken.
pub open spec fn is_current(state: Option<&TemplateState>, theirs: Table<String>) -> bool {
    state matches Some(s) && s.template_fingerprint@ == fingerprint_of(theirs)
}

/// The merge base that counts: the recorded one, or else one derived from the files.
pub open spec fn base_of(
    state: Option<&TemplateState>,
    theirs: Map<Seq<char>, String>,
    mine: Map<Seq<char>, ProjectFile>,
) -> Map<Seq<char>, Option<String>> {
    match state {
        Some(s) => s.files@,
        None => derived_base(theirs, mine),
    }
}

/// What is pending for a project: the changes of the files, where the template has moved,
/// and then what the seeds have and the project lacks.
pub open spec fn pending(
    r: Seq<ChangeView>,
    theirs: Table<String>,
    state: Option<&TemplateState>,
    mine: Map<Seq<char>, ProjectFile>,
    s: Seeds,
) -> bool {
    exists|files: Seq<ChangeView>|
        r == #[trigger] (files + seeds::derived(s)) && if is_current(state, theirs) {
            files.len() == 0
        } else {
            template::classified(files, base_of(state, theirs@, mine), theirs@, mine)
        }
}

/// Whether the template has not moved since the project last synced, so that the project's
/// files need not be read.
pub fn template_unmoved(state: Option<&TemplateState>, theirs: &Table<String>) -> (r: bool)
    ensures
        r == is_current(state, *theirs),
{
    match state {
        Some(s) => same(s.template_fingerprint.as_str(), fingerprint(theirs).as_str()),
        None => false,
    }
}

/// Compares a project with the template. The seeds are compared in any case: what they report
/// does not depend on the recorded state, so recording one cannot silence it.
pub fn diff(
    theirs: &Table<String>,
    state: Option<&TemplateState>,
    mine: &Table<ProjectFile>,
    s: &Seeds,
) -> (r: Vec<Change>)
    ensures
        pending(template::changes_view(r@), *theirs, state, mine@, *s),
{
    let derived = derived_changes(s);
    let ghost tail = seeds::derived(*s);
    if template_unmoved(state, theirs) {
        assert(Seq::<ChangeView>::empty() + tail =~= tail);
        return derived;
    }
    let mut r = match state {
        Some(st) => classify(&st.files, theirs, mine),
        None => {
            let base = derive_base(mine, theirs);
            classify(&base, theirs, mine)
        },
    };
    let ghost files = template::changes_view(r@);
    let mut rest = derived;
    r.append(&mut rest);
    assert(template::changes_view(r@) =~= files + tail);
    r
}

} // verus!
