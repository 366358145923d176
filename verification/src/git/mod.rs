//! What is read of a git repository, and what is asked of it.
pub mod known_hosts;
pub mod known_hosts_laws;
pub mod laws;

use std::cmp::Ordering;
use vstd::prelude::*;

use crate::lines;
use crate::lines::{lines_of, split_at_char};
use crate::number;
use crate::order;
use crate::order::Ordered;
use crate::text;
use crate::text::{chars_of, is_listed, push_text, same};

verus! {

// ---------------------------------------------------------------- versions

/// A version without the letter before its numbers.
pub open spec fn without_v(s: Seq<char>) -> Seq<char> {
    if s.len() > 0 && s[0] == 'v' {
        s.skip(1)
    } else {
        s
    }
}

/// The parts of a version.
pub open spec fn version_parts(s: Seq<char>) -> Seq<Seq<char>> {
    lines::split(without_v(s), '.')
}

/// How two parts stand to each other: as numbers where both are, or else as texts. Negative where
/// the first comes first.
pub open spec fn part_order(a: Seq<char>, b: Seq<char>) -> int {
    match (number::unsigned_up_to(a, 4294967295), number::unsigned_up_to(b, 4294967295)) {
        (Some(m), Some(n)) => m - n,
        _ => if a == b {
            0
        } else if order::before(a, b) {
            -1
        } else {
            1
        },
    }
}

/// How two lists of parts stand to each other, from part `i` on: by the first parts that differ,
/// or else by how many there are.
pub open spec fn parts_order(a: Seq<Seq<char>>, b: Seq<Seq<char>>, i: int) -> int
    decreases a.len() - i,
{
    if i < 0 || i >= a.len() || i >= b.len() {
        a.len() - b.len()
    } else if part_order(a[i], b[i]) != 0 {
        part_order(a[i], b[i])
    } else {
        parts_order(a, b, i + 1)
    }
}

/// How two versions stand to each other. Negative where the first is the older.
pub open spec fn version_order(a: Seq<char>, b: Seq<char>) -> int {
    parts_order(version_parts(a), version_parts(b), 0)
}

fn parts_of(s: &str) -> (r: Vec<String>)
    ensures
        text::texts(r@) == version_parts(s@),
{
    let v = chars_of(s);
    let n: usize = v.len();
    if n > 0 && v[0] == 'v' {
        let t = text::string_of(&v, 1, n);
        assert(t@ =~= s@.skip(1));
        split_at_char(t.as_str(), '.')
    } else {
        split_at_char(s, '.')
    }
}

fn part_sign(a: &str, b: &str) -> (r: i8)
    ensures
        r < 0 <==> part_order(a@, b@) < 0,
        r > 0 <==> part_order(a@, b@) > 0,
{
    match (number::parse_up_to(a, 4294967295), number::parse_up_to(b, 4294967295)) {
        (Some(m), Some(n)) => if m < n {
            -1
        } else if m > n {
            1
        } else {
            0
        },
        _ => if same(a, b) {
            0
        } else if order::less(a, b) {
            -1
        } else {
            1
        },
    }
}

fn version_sign(a: &str, b: &str) -> (r: i8)
    ensures
        r < 0 <==> version_order(a@, b@) < 0,
        r > 0 <==> version_order(a@, b@) > 0,
{
    let p = parts_of(a);
    let q = parts_of(b);
    let ghost sp = version_parts(a@);
    let ghost sq = version_parts(b@);
    let mut i: usize = 0;
    while i < p.len() && i < q.len()
        invariant
            i <= p@.len(),
            i <= q@.len(),
            sp == text::texts(p@),
            sq == text::texts(q@),
            version_order(a@, b@) == parts_order(sp, sq, i as int),
        decreases p@.len() - i,
    {
        assert(sp[i as int] == p@[i as int]@ && sq[i as int] == q@[i as int]@);
        let s = part_sign(p[i].as_str(), q[i].as_str());
        if s != 0 {
            return s;
        }
        i += 1;
    }
    if p.len() < q.len() {
        -1
    } else if p.len() > q.len() {
        1
    } else {
        0
    }
}

/// Compares two versions: part by part, as numbers where both parts are, and by how many parts
/// there are where they agree so far. A `v` before the first number does not count.
pub fn compare_versions(a: &str, b: &str) -> (r: Ordering)
    ensures
        match r {
            Ordering::Less => version_order(a@, b@) < 0,
            Ordering::Equal => version_order(a@, b@) == 0,
            Ordering::Greater => version_order(a@, b@) > 0,
        },
{
    let s = version_sign(a, b);
    if s < 0 {
        Ordering::Less
    } else if s > 0 {
        Ordering::Greater
    } else {
        Ordering::Equal
    }
}

/// The name of a version, in the order of versions.
#[derive(Debug, Clone, PartialEq, Eq)]
pub struct Version {
    pub name: String,
}

impl Ordered for Version {
    open spec fn precedes(&self, other: &Self) -> bool {
        version_order(self.name@, other.name@) < 0
    }

    fn comes_before(&self, other: &Self) -> (r: bool) {
        version_sign(self.name.as_str(), other.name.as_str()) < 0
    }
}

/// Whether a name is that of a release branch: two numbers and an `x`.
pub open spec fn is_release_branch(name: Seq<char>) -> bool {
    let p = version_parts(name);
    &&& p.len() == 3
    &&& forall|i: int| 0 <= i < p[0].len() ==> text::is_digit(#[trigger] p[0][i])
    &&& forall|i: int| 0 <= i < p[1].len() ==> text::is_digit(#[trigger] p[1][i])
    &&& p[2] == "x"@
}

fn only_digits(s: &str) -> (r: bool)
    ensures
        r == (forall|i: int| 0 <= i < s@.len() ==> text::is_digit(#[trigger] s@[i])),
{
    let v = chars_of(s);
    let mut i: usize = 0;
    while i < v.len()
        invariant
            i <= v@.len(),
            v@ == s@,
            forall|k: int| 0 <= k < i ==> text::is_digit(#[trigger] v@[k]),
        decreases v@.len() - i,
    {
        if v[i] < '0' || v[i] > '9' {
            assert(!text::is_digit(s@[i as int]));
            return false;
        }
        i += 1;
    }
    true
}

/// Whether a name is that of a release branch: two numbers and an `x`, possibly after a `v`.
pub fn is_release_branch_name(name: &str) -> (r: bool)
    ensures
        r == is_release_branch(name@),
{
    let parts = parts_of(name);
    let ghost p = version_parts(name@);
    if parts.len() != 3 {
        return false;
    }
    assert(p[0] == parts@[0]@ && p[1] == parts@[1]@ && p[2] == parts@[2]@);
    only_digits(parts[0].as_str()) && only_digits(parts[1].as_str()) && same(
        parts[2].as_str(),
        "x",
    )
}

// ---------------------------------------------------------------- branches and tags

/// The views of some versions.
pub open spec fn version_names(v: Seq<Version>) -> Seq<Seq<char>> {
    v.map_values(|x: Version| x.name@)
}

/// The release branches among local names.
pub open spec fn local_releases(names: Seq<Seq<char>>) -> Seq<Seq<char>>
    decreases names.len(),
{
    if names.len() == 0 {
        Seq::empty()
    } else {
        let rest = local_releases(names.drop_last());
        if is_release_branch(names.last()) {
            rest.push(names.last())
        } else {
            rest
        }
    }
}

/// What stands behind the last slash of a name.
pub open spec fn short_name(name: Seq<char>) -> Seq<char> {
    match text::cut_last(name, '/') {
        Some((_, s)) => s,
        None => name,
    }
}

/// Some release branches with those added that are known on a remote only, each once.
pub open spec fn with_remote(local: Seq<Seq<char>>, names: Seq<Seq<char>>) -> Seq<Seq<char>>
    decreases names.len(),
{
    if names.len() == 0 {
        local
    } else {
        let rest = with_remote(local, names.drop_last());
        let s = short_name(names.last());
        if is_release_branch(s) && !rest.contains(s) {
            rest.push(s)
        } else {
            rest
        }
    }
}

fn put_version(out: &mut Vec<Version>, name: String)
    ensures
        version_names(final(out)@) == version_names(old(out)@).push(name@),
{
    let ghost before = version_names(out@);
    out.push(Version { name });
    assert(version_names(out@) =~= before.push(name@));
}

fn versions_of(names: &Vec<String>) -> (r: Vec<Version>)
    ensures
        version_names(r@) == text::texts(names@),
{
    let ghost all = text::texts(names@);
    let mut r: Vec<Version> = Vec::new();
    let mut i: usize = 0;
    assert(version_names(r@) =~= all.take(0));
    while i < names.len()
        invariant
            i <= names@.len(),
            all == text::texts(names@),
            version_names(r@) == all.take(i as int),
        decreases names@.len() - i,
    {
        put_version(&mut r, text::owned(names[i].as_str()));
        assert(all.take(i + 1) =~= all.take(i as int).push(all[i as int]));
        i += 1;
    }
    assert(all.take(i as int) =~= all);
    r
}

fn collect_releases(local: &Vec<String>, remote: &Vec<String>) -> (r: Vec<String>)
    ensures
        text::texts(r@) == with_remote(
            local_releases(text::texts(local@)),
            text::texts(remote@),
        ),
{
    let ghost here = text::texts(local@);
    let ghost there = text::texts(remote@);
    let mut r = text::no_texts();
    let mut i: usize = 0;
    assert(here.take(0) =~= Seq::empty());
    while i < local.len()
        invariant
            i <= local@.len(),
            here == text::texts(local@),
            text::texts(r@) == local_releases(here.take(i as int)),
        decreases local@.len() - i,
    {
        assert(here.take(i + 1).drop_last() =~= here.take(i as int));
        assert(here.take(i + 1).last() == local@[i as int]@);
        if is_release_branch_name(local[i].as_str()) {
            push_text(&mut r, local[i].as_str());
        }
        i += 1;
    }
    assert(here.take(i as int) =~= here);
    let ghost own = text::texts(r@);
    i = 0;
    assert(there.take(0) =~= Seq::empty());
    while i < remote.len()
        invariant
            i <= remote@.len(),
            there == text::texts(remote@),
            text::texts(r@) == with_remote(own, there.take(i as int)),
        decreases remote@.len() - i,
    {
        assert(there.take(i + 1).drop_last() =~= there.take(i as int));
        assert(there.take(i + 1).last() == remote@[i as int]@);
        let short = match text::rsplit_once(remote[i].as_str(), '/') {
            Some((_, s)) => s,
            None => text::owned(remote[i].as_str()),
        };
        if is_release_branch_name(short.as_str()) && !is_listed(&r, short.as_str()) {
            push_text(&mut r, short.as_str());
        }
        i += 1;
    }
    assert(there.take(i as int) =~= there);
    r
}

/// Some versions with one more put in behind all that are not newer.
pub open spec fn put_by_version(v: Seq<Seq<char>>, x: Seq<char>) -> Seq<Seq<char>>
    decreases v.len(),
{
    if v.len() > 0 && version_order(x, v.last()) < 0 {
        put_by_version(v.drop_last(), x).push(v.last())
    } else {
        v.push(x)
    }
}

/// Some versions, the oldest first; those that do not differ stay as they were.
pub open spec fn by_version(v: Seq<Seq<char>>) -> Seq<Seq<char>>
    decreases v.len(),
{
    if v.len() == 0 {
        v
    } else {
        put_by_version(by_version(v.drop_last()), v.last())
    }
}

proof fn lemma_put_by_version(v: Seq<Version>, x: Version)
    ensures
        version_names(order::put_in(v, x)) == put_by_version(version_names(v), x.name@),
    decreases v.len(),
{
    let n = version_names(v);
    if v.len() > 0 && x.precedes(&v.last()) {
        assert(n.drop_last() =~= version_names(v.drop_last()));
        lemma_put_by_version(v.drop_last(), x);
        assert(version_names(order::put_in(v, x)) =~= put_by_version(n, x.name@));
    } else {
        assert(version_names(order::put_in(v, x)) =~= put_by_version(n, x.name@));
    }
}

proof fn lemma_by_version(v: Seq<Version>)
    ensures
        version_names(order::arranged(v)) == by_version(version_names(v)),
    decreases v.len(),
{
    let n = version_names(v);
    if v.len() > 0 {
        assert(n.drop_last() =~= version_names(v.drop_last()));
        lemma_by_version(v.drop_last());
        lemma_put_by_version(order::arranged(v.drop_last()), v.last());
    } else {
        assert(version_names(order::arranged(v)) =~= by_version(n));
    }
}

fn sort_versions(names: &Vec<String>) -> (r: Vec<String>)
    ensures
        text::texts(r@) == by_version(text::texts(names@)),
{
    let all = versions_of(names);
    proof {
        lemma_by_version(all@);
    }
    let sorted = order::arrange(all);
    let ghost seqs = version_names(sorted@);
    let mut r = text::no_texts();
    let mut i: usize = 0;
    assert(seqs.take(0) =~= Seq::empty());
    while i < sorted.len()
        invariant
            i <= sorted@.len(),
            seqs == version_names(sorted@),
            text::texts(r@) == seqs.take(i as int),
        decreases sorted@.len() - i,
    {
        push_text(&mut r, sorted[i].name.as_str());
        assert(seqs.take(i + 1) =~= seqs.take(i as int).push(seqs[i as int]));
        i += 1;
    }
    assert(seqs.take(i as int) =~= seqs);
    r
}

/// The release branches of a repository, the oldest first, each once. A branch of a remote counts
/// by what stands behind the last slash of its name.
pub fn list_release_branches(local: &Vec<String>, remote: &Vec<String>) -> (r: Vec<String>)
    ensures
        text::texts(r@) == by_version(
            with_remote(local_releases(text::texts(local@)), text::texts(remote@)),
        ),
{
    let names = collect_releases(local, remote);
    sort_versions(&names)
}

/// What a tag is called, without the place where git keeps it.
pub open spec fn tag_name(s: Seq<char>) -> Seq<char> {
    if "refs/tags/"@.is_prefix_of(s) {
        s.skip("refs/tags/"@.len() as int)
    } else {
        s
    }
}

/// What some tags are called.
pub open spec fn tag_names(all: Seq<Seq<char>>) -> Seq<Seq<char>> {
    all.map_values(|s: Seq<char>| tag_name(s))
}

/// The tags of a repository, the oldest version first, by the names that git keeps.
pub fn list_tags(refs: &Vec<String>) -> (r: Vec<String>)
    ensures
        text::texts(r@) == by_version(tag_names(text::texts(refs@))),
{
    let ghost all = tag_names(text::texts(refs@));
    let mut names = text::no_texts();
    let mut i: usize = 0;
    assert(all.take(0) =~= Seq::empty());
    while i < refs.len()
        invariant
            i <= refs@.len(),
            all == tag_names(text::texts(refs@)),
            text::texts(names@) == all.take(i as int),
        decreases refs@.len() - i,
    {
        let name = match text::strip_prefix(refs[i].as_str(), "refs/tags/") {
            Some(s) => s,
            None => text::owned(refs[i].as_str()),
        };
        push_text(&mut names, name.as_str());
        assert(all.take(i + 1) =~= all.take(i as int).push(all[i as int]));
        i += 1;
    }
    assert(all.take(i as int) =~= all);
    sort_versions(&names)
}

/// The main branch of a repository: `main` before `master`, and a local one before one of the
/// remote.
pub open spec fn primary_branch(
    local: Seq<Seq<char>>,
    remote: Seq<Seq<char>>,
) -> Option<Seq<char>> {
    if local.contains("main"@) {
        Some("main"@)
    } else if local.contains("master"@) {
        Some("master"@)
    } else if remote.contains("origin/main"@) {
        Some("main"@)
    } else if remote.contains("origin/master"@) {
        Some("master"@)
    } else {
        None
    }
}

/// The main branch of a repository, by the names of its branches.
pub fn get_primary_branch(local: &Vec<String>, remote: &Vec<String>) -> (r: Result<String, String>)
    ensures
        match primary_branch(text::texts(local@), text::texts(remote@)) {
            Some(b) => r matches Ok(s) && s@ == b,
            None => r matches Err(e) && e@
                == "Could not determine primary branch (main/master)"@,
        },
{
    if is_listed(local, "main") {
        Ok(text::owned("main"))
    } else if is_listed(local, "master") {
        Ok(text::owned("master"))
    } else if is_listed(remote, "origin/main") {
        Ok(text::owned("main"))
    } else if is_listed(remote, "origin/master") {
        Ok(text::owned("master"))
    } else {
        Err(text::owned("Could not determine primary branch (main/master)"))
    }
}

/// How a local branch is brought to where the remote's is.
#[derive(Debug, Clone, Copy, PartialEq, Eq, Structural)]
pub enum BranchUpdate {
    /// The branch is made where the remote's is.
    Create,
    /// The branch is moved to where the remote's is.
    Move,
    /// The remote has no such branch: what git says of that is reported.
    Untracked,
}

/// How a local branch is brought to where the remote's is, by whether each is there. A branch is
/// only moved forward: `behind` tells whether every commit of the local one is on the remote's,
/// and one with commits of its own is refused.
pub fn update_branch(branch_name: &str, local: bool, remote: bool, behind: bool) -> (r: Result<
    BranchUpdate,
    String,
>)
    ensures
        local && remote && behind ==> r == Ok::<BranchUpdate, String>(BranchUpdate::Move),
        local && remote && !behind ==> (r matches Err(e) && e@ == "Branch "@ + branch_name@
            + " has local commits that are not on origin. Push them or move them to another branch, then try again."@),
        !local && remote ==> r == Ok::<BranchUpdate, String>(BranchUpdate::Create),
        !local && !remote ==> (r matches Err(e) && e@ == "Branch "@ + branch_name@
            + " not found locally or on origin"@),
        local && !remote ==> r == Ok::<BranchUpdate, String>(BranchUpdate::Untracked),
{
    if remote {
        if !local {
            Ok(BranchUpdate::Create)
        } else if behind {
            Ok(BranchUpdate::Move)
        } else {
            let mut e = text::owned("Branch ");
            e.append(branch_name);
            e.append(
                " has local commits that are not on origin. Push them or move them to another branch, then try again.",
            );
            Err(e)
        }
    } else if local {
        Ok(BranchUpdate::Untracked)
    } else {
        let mut e = text::owned("Branch ");
        e.append(branch_name);
        e.append(" not found locally or on origin");
        Err(e)
    }
}

/// The rule by which a branch is pushed under its own name.
pub fn push_branch(branch_name: &str) -> (r: String)
    ensures
        r@ == "refs/heads/"@ + branch_name@ + ":refs/heads/"@ + branch_name@,
{
    let mut r = text::owned("refs/heads/");
    r.append(branch_name);
    r.append(":refs/heads/");
    r.append(branch_name);
    r
}

/// The rule by which a tag is pushed under its own name.
pub fn push_tag(tag_name: &str) -> (r: String)
    ensures
        r@ == "refs/tags/"@ + tag_name@ + ":refs/tags/"@ + tag_name@,
{
    let mut r = text::owned("refs/tags/");
    r.append(tag_name);
    r.append(":refs/tags/");
    r.append(tag_name);
    r
}

// ---------------------------------------------------------------- commits

/// The views of some commits: their hashes and what they are about.
pub open spec fn commits(v: Seq<(String, String)>) -> Seq<(Seq<char>, Seq<char>)> {
    v.map_values(|c: (String, String)| (c.0@, c.1@))
}

/// The commits that carry changes: those that only make a release do not.
pub open spec fn without_releases(v: Seq<(Seq<char>, Seq<char>)>) -> Seq<(Seq<char>, Seq<char>)>
    decreases v.len(),
{
    if v.len() == 0 {
        Seq::empty()
    } else {
        let rest = without_releases(v.drop_last());
        if "release:"@.is_prefix_of(v.last().1) {
            rest
        } else {
            rest.push(v.last())
        }
    }
}

/// The commits that carry changes, in their order.
pub fn collect_commits(all: &Vec<(String, String)>) -> (r: Vec<(String, String)>)
    ensures
        commits(r@) == without_releases(commits(all@)),
{
    let ghost seqs = commits(all@);
    let mut r: Vec<(String, String)> = Vec::new();
    let mut i: usize = 0;
    assert(seqs.take(0) =~= Seq::empty());
    assert(commits(r@) =~= Seq::empty());
    while i < all.len()
        invariant
            i <= all@.len(),
            seqs == commits(all@),
            commits(r@) == without_releases(seqs.take(i as int)),
        decreases all@.len() - i,
    {
        assert(seqs.take(i + 1).drop_last() =~= seqs.take(i as int));
        assert(seqs.take(i + 1).last() == seqs[i as int]);
        if !text::starts_with(all[i].1.as_str(), "release:") {
            let ghost before = commits(r@);
            let c = (text::owned(all[i].0.as_str()), text::owned(all[i].1.as_str()));
            r.push(c);
            assert(commits(r@) =~= before.push((c.0@, c.1@)));
        }
        i += 1;
    }
    assert(seqs.take(i as int) =~= seqs);
    r
}

/// The beginning of a file: its first lines, up to twenty.
pub open spec fn excerpt(content: Seq<char>) -> Seq<char> {
    let all = lines::lines(content);
    lines::joined(
        if all.len() > 20 {
            all.take(20)
        } else {
            all
        },
        "\n"@,
    )
}

/// What is told of the changes in a release: the beginning of its changelog where it has one.
pub fn get_changelog(release: &str, content: Option<&str>) -> (r: String)
    ensures
        r@ == (match content {
            Some(c) => excerpt(c@),
            None => "No changelog available for release "@ + release@,
        }),
{
    match content {
        Some(c) => {
            let all = lines_of(c);
            let ghost seqs = lines::lines(c@);
            let mut first = text::no_texts();
            let mut i: usize = 0;
            assert(seqs.take(0) =~= Seq::empty());
            while i < all.len() && i < 20
                invariant
                    i <= all@.len(),
                    i <= 20,
                    seqs == text::texts(all@),
                    text::texts(first@) == seqs.take(i as int),
                decreases all@.len() - i,
            {
                push_text(&mut first, all[i].as_str());
                assert(seqs.take(i + 1) =~= seqs.take(i as int).push(seqs[i as int]));
                i += 1;
            }
            assert(seqs.len() <= 20 ==> seqs.take(i as int) =~= seqs);
            lines::join(&first, "\n")
        },
        None => {
            let mut m = text::owned("No changelog available for release ");
            m.append(release);
            m
        },
    }
}

/// The names that a changelog may have, in the order in which they are looked for.
pub fn changelog_names() -> (r: Vec<String>)
    ensures
        text::texts(r@) == seq!["CHANGELOG.md"@, "changelog.md"@, "CHANGELOG"@],
{
    let mut r = text::no_texts();
    push_text(&mut r, "CHANGELOG.md");
    push_text(&mut r, "changelog.md");
    push_text(&mut r, "CHANGELOG");
    assert(text::texts(r@) =~= seq!["CHANGELOG.md"@, "changelog.md"@, "CHANGELOG"@]);
    r
}

// ---------------------------------------------------------------- modules and worktrees

/// A directory below `vendor/`, two levels deep.
#[derive(Debug, Clone, PartialEq, Eq)]
pub struct VendorDir {
    pub vendor: String,
    pub module: String,
    /// Whether it is a clone.
    pub is_clone: bool,
}

/// The clones among the directories below `vendor/`.
pub open spec fn clones(v: Seq<VendorDir>) -> Seq<Seq<char>>
    decreases v.len(),
{
    if v.len() == 0 {
        Seq::empty()
    } else {
        let rest = clones(v.drop_last());
        if v.last().is_clone {
            rest.push(v.last().vendor@ + "/"@ + v.last().module@)
        } else {
            rest
        }
    }
}

/// The modules of a project that are clones, in the order of their names.
pub fn list_vendor_modules(dirs: &Vec<VendorDir>) -> (r: Vec<String>)
    ensures
        text::texts(r@) == order::in_order(clones(dirs@)),
        order::sorted(text::texts(r@)),
{
    let mut found = text::no_texts();
    let mut i: usize = 0;
    assert(dirs@.take(0) =~= Seq::empty());
    while i < dirs.len()
        invariant
            i <= dirs@.len(),
            text::texts(found@) == clones(dirs@.take(i as int)),
        decreases dirs@.len() - i,
    {
        assert(dirs@.take(i + 1).drop_last() =~= dirs@.take(i as int));
        assert(dirs@.take(i + 1).last() == dirs@[i as int]);
        if dirs[i].is_clone {
            let mut name = text::owned(dirs[i].vendor.as_str());
            name.append("/");
            name.append(dirs[i].module.as_str());
            push_text(&mut found, name.as_str());
        }
        i += 1;
    }
    assert(dirs@.take(i as int) =~= dirs@);
    proof {
        order::in_order_sorts(clones(dirs@));
    }
    order::sort(&found)
}

/// Which branch a new worktree stands on.
#[derive(Debug, Clone, PartialEq, Eq)]
pub enum WorktreeBranch {
    /// Whatever git takes.
    Any,
    /// A branch that is there, or else the remote's of its name, or else whatever git takes.
    Existing(String),
    /// A new branch of the worktree's name, made where another stands.
    New { from: String },
}

/// Which branch a new worktree stands on: an existing one where it has the worktree's name.
pub fn create_worktree(name: &str, branch: Option<&str>) -> (r: WorktreeBranch)
    ensures
        match branch {
            None => r is Any,
            Some(b) => if b@ == name@ {
                r matches WorktreeBranch::Existing(e) && e@ == b@
            } else {
                r matches WorktreeBranch::New { from } && from@ == b@
            },
        },
{
    match branch {
        None => WorktreeBranch::Any,
        Some(b) => if same(b, name) {
            WorktreeBranch::Existing(text::owned(b))
        } else {
            WorktreeBranch::New { from: text::owned(b) }
        },
    }
}

/// The user and group that a container runs as.
pub fn get_docker_user_id(uid: u32, gid: u32) -> (r: String)
    ensures
        r@ == number::decimal(uid as nat) + ":"@ + number::decimal(gid as nat),
{
    let mut r = number::to_decimal(uid as u64);
    r.append(":");
    r.append(number::to_decimal(gid as u64).as_str());
    r
}

#[derive(Debug, Clone, Copy, PartialEq, Eq, Structural)]
pub enum CleanupMode {
    Always,
    Keep,
}

/// A worktree that is removed when the work in it is done, unless that was called off.
#[derive(Debug, Clone, PartialEq, Eq)]
pub struct WorktreeCleanup {
    pub git_path: String,
    pub worktree_path: String,
    pub active: bool,
}

impl WorktreeCleanup {
    /// A worktree that is removed by its mode.
    pub fn new(git_path: &str, worktree_path: &str, mode: CleanupMode) -> (r: WorktreeCleanup)
        ensures
            r.git_path@ == git_path@,
            r.worktree_path@ == worktree_path@,
            r.active == (mode == CleanupMode::Always),
    {
        let active = match mode {
            CleanupMode::Always => true,
            CleanupMode::Keep => false,
        };
        WorktreeCleanup {
            git_path: text::owned(git_path),
            worktree_path: text::owned(worktree_path),
            active,
        }
    }

    /// Calls the removal off.
    pub fn cancel(&mut self)
        ensures
            !final(self).active,
            final(self).git_path == old(self).git_path,
            final(self).worktree_path == old(self).worktree_path,
    {
        self.active = false;
    }

    /// The arguments of `git` that remove the worktree, where it is to be removed and there.
    pub fn removal(&self, exists: bool) -> (r: Option<Vec<String>>)
        ensures
            (match r {
                Some(a) => Some(text::texts(a@)),
                None => None,
            }) == (if self.active && exists {
                Some(
                    seq![
                        "-C"@,
                        self.git_path@,
                        "worktree"@,
                        "remove"@,
                        "--force"@,
                        self.worktree_path@,
                    ],
                )
            } else {
                None
            }),
    {
        if !(self.active && exists) {
            return None;
        }
        let mut r = text::no_texts();
        push_text(&mut r, "-C");
        push_text(&mut r, self.git_path.as_str());
        push_text(&mut r, "worktree");
        push_text(&mut r, "remove");
        push_text(&mut r, "--force");
        push_text(&mut r, self.worktree_path.as_str());
        assert(text::texts(r@) =~= seq![
            "-C"@,
            self.git_path@,
            "worktree"@,
            "remove"@,
            "--force"@,
            self.worktree_path@,
        ]);
        Some(r)
    }
}

// ---------------------------------------------------------------- laws

/// Two parts that are compared the other way round stand the other way round.
proof fn lemma_part_turned(a: Seq<char>, b: Seq<char>)
    ensures
        part_order(a, b) < 0 <==> part_order(b, a) > 0,
        part_order(a, b) == 0 <==> part_order(b, a) == 0,
{
    order::before_total(a, b);
    if order::before(a, b) && order::before(b, a) {
        order::before_transitive(a, b, a);
        order::before_irreflexive(a);
    }
    order::before_irreflexive(a);
}

proof fn lemma_parts_turned(a: Seq<Seq<char>>, b: Seq<Seq<char>>, i: int)
    requires
        i >= 0,
    ensures
        parts_order(a, b, i) < 0 <==> parts_order(b, a, i) > 0,
        parts_order(a, b, i) == 0 <==> parts_order(b, a, i) == 0,
    decreases a.len() - i,
{
    if i < a.len() && i < b.len() {
        lemma_part_turned(a[i], b[i]);
        lemma_parts_turned(a, b, i + 1);
    }
}

/// A version is older than another exactly where the other is newer, and a version does not
/// differ from itself.
pub proof fn versions_compare_both_ways(a: Seq<char>, b: Seq<char>)
    ensures
        version_order(a, b) < 0 <==> version_order(b, a) > 0,
        version_order(a, b) == 0 <==> version_order(b, a) == 0,
        version_order(a, a) == 0,
{
    lemma_parts_turned(version_parts(a), version_parts(b), 0);
    lemma_parts_turned(version_parts(a), version_parts(a), 0);
}

/// Whether a part of a version is a number, an `x` in its place, or left out.
pub open spec fn is_proper_part(p: Seq<char>) -> bool {
    number::unsigned_up_to(p, 4294967295) is Some || p == "x"@ || p.len() == 0
}

/// Whether each part of a version is a number, an `x` in its place, or left out.
pub open spec fn is_proper(name: Seq<char>) -> bool {
    forall|i: int|
        0 <= i < version_parts(name).len() ==> is_proper_part(#[trigger] version_parts(name)[i])
}

/// The place of a proper part: its number, with `x` behind all numbers, and a part that is left
/// out before them.
spec fn place(p: Seq<char>) -> int {
    if p.len() == 0 {
        -1
    } else {
        match number::unsigned_up_to(p, 4294967295) {
            Some(n) => n as int,
            None => 4294967296,
        }
    }
}

proof fn lemma_number_before_x(p: Seq<char>)
    requires
        number::unsigned_up_to(p, 4294967295) is Some,
    ensures
        order::before(p, "x"@),
        p != "x"@,
{
    reveal_strlit("x");
    let x = "x"@;
    if p.len() > 0 && p[0] == '+' {
        assert(p[0] < x[0]);
    } else {
        assert(text::is_digit(p[0]));
        assert(p[0] < x[0]);
    }
}

proof fn lemma_part_place(a: Seq<char>, b: Seq<char>)
    requires
        is_proper_part(a),
        is_proper_part(b),
    ensures
        part_order(a, b) < 0 <==> place(a) < place(b),
        part_order(a, b) == 0 <==> place(a) == place(b),
{
    let m = number::unsigned_up_to(a, 4294967295);
    let n = number::unsigned_up_to(b, 4294967295);
    reveal_strlit("x");
    if a.len() == 0 || b.len() == 0 {
        assert(a.len() == b.len() ==> a =~= b);
        assert(a.len() == 0 && b.len() > 0 ==> order::before(a, b));
        assert(b.len() == 0 && a.len() > 0 ==> !order::before(a, b));
    } else if m is Some && n is None {
        lemma_number_before_x(a);
    } else if m is None && n is Some {
        lemma_number_before_x(b);
        order::before_total(a, b);
        if order::before(a, b) {
            order::before_transitive(b, a, b);
            order::before_irreflexive(b);
        }
    }
}

proof fn lemma_parts_passed_on(
    a: Seq<Seq<char>>,
    b: Seq<Seq<char>>,
    c: Seq<Seq<char>>,
    i: int,
)
    requires
        i >= 0,
        forall|k: int| 0 <= k < a.len() ==> is_proper_part(#[trigger] a[k]),
        forall|k: int| 0 <= k < b.len() ==> is_proper_part(#[trigger] b[k]),
        forall|k: int| 0 <= k < c.len() ==> is_proper_part(#[trigger] c[k]),
        parts_order(a, b, i) >= 0,
        parts_order(b, c, i) >= 0,
    ensures
        parts_order(a, c, i) >= 0,
    decreases a.len() - i,
{
    if i < a.len() && i < c.len() {
        if i < b.len() {
            lemma_part_place(a[i], b[i]);
            lemma_part_place(b[i], c[i]);
            lemma_part_place(a[i], c[i]);
            if part_order(a[i], b[i]) == 0 && part_order(b[i], c[i]) == 0 {
                lemma_parts_passed_on(a, b, c, i + 1);
            }
        } else {
            // The second list has ended, so the third had to be shorter than it.
            assert(parts_order(b, c, i) == b.len() - c.len());
        }
    } else if i < a.len() {
        // The third list has ended.
    } else {
        assert(parts_order(a, b, i) == a.len() - b.len());
    }
}

proof fn lemma_put_contents(v: Seq<Seq<char>>, x: Seq<char>)
    ensures
        put_by_version(v, x).to_multiset() == v.to_multiset().insert(x),
    decreases v.len(),
{
    broadcast use vstd::seq_lib::group_to_multiset_ensures;

    if v.len() > 0 && version_order(x, v.last()) < 0 {
        lemma_put_contents(v.drop_last(), x);
        assert(v.drop_last().push(v.last()) =~= v);
        assert(put_by_version(v, x).to_multiset() =~= v.to_multiset().insert(x));
    }
}

/// Sorting versions neither adds nor loses one.
pub proof fn sorting_keeps_the_versions(v: Seq<Seq<char>>)
    ensures
        by_version(v).to_multiset() == v.to_multiset(),
    decreases v.len(),
{
    broadcast use vstd::seq_lib::group_to_multiset_ensures;

    if v.len() > 0 {
        sorting_keeps_the_versions(v.drop_last());
        lemma_put_contents(by_version(v.drop_last()), v.last());
        assert(v.drop_last().push(v.last()) =~= v);
    }
}

proof fn lemma_put_from(v: Seq<Seq<char>>, x: Seq<char>, i: int)
    requires
        0 <= i < put_by_version(v, x).len(),
    ensures
        put_by_version(v, x).len() == v.len() + 1,
        put_by_version(v, x)[i] == x || exists|k: int|
            0 <= k < v.len() && v[k] == put_by_version(v, x)[i],
    decreases v.len(),
{
    if v.len() > 0 && version_order(x, v.last()) < 0 {
        let w = v.drop_last();
        if i < put_by_version(w, x).len() {
            lemma_put_from(w, x, i);
            if put_by_version(w, x)[i] != x {
                let k = choose|k: int| 0 <= k < w.len() && w[k] == put_by_version(w, x)[i];
                assert(v[k] == put_by_version(v, x)[i]);
            }
        } else {
            lemma_put_from(w, x, 0);
            assert(v[v.len() - 1] == put_by_version(v, x)[i]);
        }
    } else if i < v.len() {
        assert(v[i] == put_by_version(v, x)[i]);
    }
}

/// Whether some versions stand with the oldest first.
pub open spec fn oldest_first(v: Seq<Seq<char>>) -> bool {
    forall|i: int, j: int|
        0 <= i < j < v.len() ==> version_order(#[trigger] v[i], #[trigger] v[j]) <= 0
}

/// Whether the order of some versions is one: what is not newer than a version that is not newer
/// than a third is not newer than that.
pub open spec fn agree(v: Seq<Seq<char>>) -> bool {
    forall|a: Seq<char>, b: Seq<char>, c: Seq<char>|
        v.contains(a) && v.contains(b) && v.contains(c) && #[trigger] version_order(a, b) <= 0
            && #[trigger] version_order(b, c) <= 0 ==> version_order(a, c) <= 0
}

/// Whether each of some versions is among others.
spec fn all_among(v: Seq<Seq<char>>, all: Seq<Seq<char>>) -> bool {
    forall|i: int| 0 <= i < v.len() ==> all.contains(#[trigger] v[i])
}

proof fn lemma_put_in_order(v: Seq<Seq<char>>, x: Seq<char>, all: Seq<Seq<char>>)
    requires
        oldest_first(v),
        agree(all),
        all_among(v, all),
        all.contains(x),
    ensures
        oldest_first(put_by_version(v, x)),
        all_among(put_by_version(v, x), all),
    decreases v.len(),
{
    let r = put_by_version(v, x);
    assert forall|i: int| 0 <= i < r.len() implies all.contains(#[trigger] r[i]) by {
        lemma_put_from(v, x, i);
    }
    if v.len() > 0 && version_order(x, v.last()) < 0 {
        let w = v.drop_last();
        assert(oldest_first(w)) by {
            assert forall|i: int, j: int| 0 <= i < j < w.len() implies version_order(
                #[trigger] w[i],
                #[trigger] w[j],
            ) <= 0 by {
                assert(version_order(v[i], v[j]) <= 0);
            }
        }
        assert(all_among(w, all)) by {
            assert forall|i: int| 0 <= i < w.len() implies all.contains(#[trigger] w[i]) by {
                assert(all.contains(v[i]));
            }
        }
        lemma_put_in_order(w, x, all);
        let q = put_by_version(w, x);
        assert forall|i: int, j: int| 0 <= i < j < r.len() implies version_order(
            #[trigger] r[i],
            #[trigger] r[j],
        ) <= 0 by {
            lemma_put_from(w, x, i);
            if j < q.len() {
                assert(version_order(q[i], q[j]) <= 0);
            } else if q[i] != x {
                let k = choose|k: int| 0 <= k < w.len() && w[k] == q[i];
                assert(version_order(v[k], v[v.len() - 1]) <= 0);
            }
        }
    } else {
        assert forall|i: int, j: int| 0 <= i < j < r.len() implies version_order(
            #[trigger] r[i],
            #[trigger] r[j],
        ) <= 0 by {
            if j < v.len() {
                assert(version_order(v[i], v[j]) <= 0);
            } else {
                let l = v[v.len() - 1];
                versions_compare_both_ways(x, l);
                if i < v.len() - 1 {
                    assert(version_order(v[i], l) <= 0);
                    assert(version_order(l, x) <= 0);
                    assert(all.contains(v[i]) && all.contains(l));
                }
            }
        }
    }
}

proof fn lemma_sorted_among(v: Seq<Seq<char>>, all: Seq<Seq<char>>)
    requires
        agree(all),
        all_among(v, all),
    ensures
        oldest_first(by_version(v)),
        all_among(by_version(v), all),
    decreases v.len(),
{
    if v.len() > 0 {
        let w = v.drop_last();
        assert forall|i: int| 0 <= i < w.len() implies all.contains(#[trigger] w[i]) by {
            assert(all.contains(v[i]));
        }
        assert(all.contains(v[v.len() - 1]));
        lemma_sorted_among(w, all);
        lemma_put_in_order(by_version(w), v.last(), all);
    }
}

/// Versions that were sorted stand with the oldest first, wherever their order is one.
pub proof fn sorted_versions_stand_oldest_first(v: Seq<Seq<char>>)
    requires
        agree(v),
    ensures
        oldest_first(by_version(v)),
{
    assert forall|i: int| 0 <= i < v.len() implies v.contains(#[trigger] v[i]) by {}
    lemma_sorted_among(v, v);
}

/// The order of versions is one where each part is a number, an `x`, or left out.
pub proof fn proper_versions_agree(v: Seq<Seq<char>>)
    requires
        forall|i: int| 0 <= i < v.len() ==> is_proper(#[trigger] v[i]),
    ensures
        agree(v),
{
    assert forall|a: Seq<char>, b: Seq<char>, c: Seq<char>|
        v.contains(a) && v.contains(b) && v.contains(c) && #[trigger] version_order(a, b) <= 0
            && #[trigger] version_order(b, c) <= 0 implies version_order(a, c) <= 0 by {
        assert(is_proper(a) && is_proper(b) && is_proper(c));
        versions_compare_both_ways(a, b);
        versions_compare_both_ways(b, c);
        versions_compare_both_ways(a, c);
        lemma_parts_passed_on(version_parts(c), version_parts(b), version_parts(a), 0);
    }
}

/// Only release branches are listed.
pub proof fn only_release_branches_are_listed(local: Seq<Seq<char>>, remote: Seq<Seq<char>>)
    ensures
        forall|i: int|
            0 <= i < with_remote(local_releases(local), remote).len() ==> is_release_branch(
                #[trigger] with_remote(local_releases(local), remote)[i],
            ),
    decreases local.len(), remote.len(),
{
    let all = with_remote(local_releases(local), remote);
    if remote.len() > 0 {
        let rest = with_remote(local_releases(local), remote.drop_last());
        only_release_branches_are_listed(local, remote.drop_last());
        assert forall|i: int| 0 <= i < all.len() implies is_release_branch(#[trigger] all[i]) by {
            if i < rest.len() {
                assert(all[i] == rest[i]);
            }
        }
    } else if local.len() > 0 {
        let rest = with_remote(local_releases(local.drop_last()), remote);
        only_release_branches_are_listed(local.drop_last(), remote);
        assert(rest == local_releases(local.drop_last()));
        assert forall|i: int| 0 <= i < all.len() implies is_release_branch(#[trigger] all[i]) by {
            if i < rest.len() {
                assert(all[i] == rest[i]);
            }
        }
    }
}

/// Release branches that were sorted stand with the oldest first, as long as no number in their
/// names is beyond 32 bits.
pub proof fn release_branches_stand_oldest_first(v: Seq<Seq<char>>)
    requires
        forall|i: int| 0 <= i < v.len() ==> is_release_branch(#[trigger] v[i]),
        forall|i: int|
            #![trigger v[i]]
            0 <= i < v.len() ==> number::value(version_parts(v[i])[0]) <= 4294967295
                && number::value(version_parts(v[i])[1]) <= 4294967295,
    ensures
        oldest_first(by_version(v)),
{
    assert forall|i: int| 0 <= i < v.len() implies is_proper(#[trigger] v[i]) by {
        let p = version_parts(v[i]);
        assert forall|k: int| 0 <= k < p.len() implies is_proper_part(#[trigger] p[k]) by {
            if k < 2 && p[k].len() > 0 {
                assert(text::is_digit(p[k][0]));
                assert(number::all_digits(p[k]));
            }
        }
    }
    proper_versions_agree(v);
    sorted_versions_stand_oldest_first(v);
}

/// No commit that only makes a release is carried over, and every other one is.
pub proof fn only_releases_are_left_out(v: Seq<(Seq<char>, Seq<char>)>)
    ensures
        forall|i: int|
            0 <= i < without_releases(v).len() ==> !"release:"@.is_prefix_of(
                (#[trigger] without_releases(v)[i]).1,
            ),
        forall|i: int|
            0 <= i < v.len() && !"release:"@.is_prefix_of((#[trigger] v[i]).1)
                ==> without_releases(v).contains(v[i]),
    decreases v.len(),
{
    if v.len() > 0 {
        let w = v.drop_last();
        let r = without_releases(v);
        only_releases_are_left_out(w);
        assert forall|i: int|
            0 <= i < v.len() && !"release:"@.is_prefix_of((#[trigger] v[i]).1) implies r.contains(
            v[i],
        ) by {
            if i < w.len() {
                assert(w[i] == v[i]);
                let k = choose|k: int|
                    0 <= k < without_releases(w).len() && without_releases(w)[k] == v[i];
                assert(r[k] == v[i]);
            } else {
                assert(r[r.len() - 1] == v[i]);
            }
        }
    }
}

} // verus!
