//! What holds of the commits, branches and tags of a repository.
use std::cmp::Ordering;
use vstd::prelude::*;

use crate::git;
use crate::git::{BranchUpdate, CleanupMode, VendorDir, WorktreeBranch, WorktreeCleanup};
use crate::lines;
use crate::number;
use crate::order;
use crate::text;

verus! {

/// Whether positions are ascending and lie below a bound.
pub open spec fn ascending_below(pos: Seq<int>, n: int) -> bool {
    &&& forall|i: int| 0 <= i < pos.len() ==> 0 <= #[trigger] pos[i] < n
    &&& forall|i: int, j: int| 0 <= i < j < pos.len() ==> #[trigger] pos[i] < #[trigger] pos[j]
}

proof fn lemma_commit_positions(v: Seq<(Seq<char>, Seq<char>)>) -> (pos: Seq<int>)
    ensures
        pos.len() == git::without_releases(v).len(),
        ascending_below(pos, v.len() as int),
        forall|i: int| 0 <= i < pos.len() ==> #[trigger] git::without_releases(v)[i] == v[pos[i]],
        forall|p: int|
            0 <= p < v.len() ==> (pos.contains(p) <==> !"release:"@.is_prefix_of(
                (#[trigger] v[p]).1,
            )),
    decreases v.len(),
{
    if v.len() == 0 {
        Seq::empty()
    } else {
        let w = v.drop_last();
        let before = lemma_commit_positions(w);
        if "release:"@.is_prefix_of(v.last().1) {
            assert forall|p: int| 0 <= p < v.len() implies (before.contains(p)
                <==> !"release:"@.is_prefix_of((#[trigger] v[p]).1)) by {
                if p < w.len() {
                    assert(w[p] == v[p]);
                }
            }
            before
        } else {
            let pos = before.push(w.len() as int);
            assert forall|p: int| 0 <= p < v.len() implies (pos.contains(p)
                <==> !"release:"@.is_prefix_of((#[trigger] v[p]).1)) by {
                if p < w.len() {
                    assert(w[p] == v[p]);
                    if before.contains(p) {
                        let k = choose|k: int| 0 <= k < before.len() && before[k] == p;
                        assert(pos[k] == p);
                    }
                    if pos.contains(p) {
                        let k = choose|k: int| 0 <= k < pos.len() && pos[k] == p;
                        assert(before[k] == p);
                    }
                } else {
                    assert(pos[pos.len() - 1] == p);
                }
            }
            pos
        }
    }
}

/// The commits that are carried over are those of the branch that are more than the making of a
/// release, each once for each time that it is there, and in the order of the branch: what a
/// commit builds on is carried over before it.
pub proof fn commits_are_carried_over_in_order(
    all: &Vec<(String, String)>,
    r: Vec<(String, String)>,
) -> (pos: Seq<int>)
    requires
        call_ensures(git::collect_commits, (all,), r),
    ensures
        pos.len() == r@.len(),
        ascending_below(pos, all@.len() as int),
        forall|i: int|
            0 <= i < pos.len() ==> (#[trigger] r@[i]).0@ == all@[pos[i]].0@ && r@[i].1@
                == all@[pos[i]].1@,
        forall|p: int|
            0 <= p < all@.len() ==> (pos.contains(p) <==> !"release:"@.is_prefix_of(
                (#[trigger] all@[p]).1@,
            )),
{
    let v = git::commits(all@);
    let pos = lemma_commit_positions(v);
    assert forall|i: int| 0 <= i < pos.len() implies (#[trigger] r@[i]).0@ == all@[pos[i]].0@
        && r@[i].1@ == all@[pos[i]].1@ by {
        assert(git::commits(r@)[i] == v[pos[i]]);
    }
    assert forall|p: int| 0 <= p < all@.len() implies (pos.contains(p)
        <==> !"release:"@.is_prefix_of((#[trigger] all@[p]).1@)) by {
        assert(v[p] == (all@[p].0@, all@[p].1@));
    }
    pos
}

/// A release branch is called by two numbers and an `x` with dots between them, possibly behind a
/// `v`, and nothing else is one.
pub proof fn release_branches_have_their_form(name: &str, r: bool)
    requires
        call_ensures(git::is_release_branch_name, (name,), r),
    ensures
        r <==> exists|a: Seq<char>, b: Seq<char>|
            #![trigger a + "."@ + b]
            (forall|i: int| 0 <= i < a.len() ==> text::is_digit(#[trigger] a[i])) && (forall|i: int|
                0 <= i < b.len() ==> text::is_digit(#[trigger] b[i])) && (name@ == a + "."@ + b
                + ".x"@ || name@ == "v"@ + (a + "."@ + b + ".x"@)),
{
    reveal_strlit(".");
    reveal_strlit(".x");
    reveal_strlit("x");
    reveal_strlit("v");
    let s = git::without_v(name@);
    let p = lines::split(s, '.');
    if r {
        let a = p[0];
        let b = p[1];
        lines::join_undoes_split(s, '.');
        reveal_with_fuel(lines::joined, 4);
        let dot = seq!['.'];
        assert(p =~= seq![a, b, "x"@]);
        assert(p.drop_last() =~= seq![a, b]);
        assert(p.drop_last().drop_last() =~= seq![a]);
        assert(s =~= a + "."@ + b + ".x"@);
        if name@.len() > 0 && name@[0] == 'v' {
            assert(name@ =~= "v"@ + s);
        }
    } else {
        assert forall|a: Seq<char>, b: Seq<char>|
            #![trigger a + "."@ + b]
            (forall|i: int| 0 <= i < a.len() ==> text::is_digit(#[trigger] a[i])) && (forall|i: int|
                0 <= i < b.len() ==> text::is_digit(#[trigger] b[i])) && (name@ == a + "."@ + b
                + ".x"@ || name@ == "v"@ + (a + "."@ + b + ".x"@)) implies false by {
            let plain = a + "."@ + b + ".x"@;
            assert(plain =~= a + seq!['.'] + (b + seq!['.'] + "x"@));
            lines::split_of_both(a, '.', b + seq!['.'] + "x"@);
            lines::split_of_both(b, '.', "x"@);
            lines::split_of_one(a, '.');
            lines::split_of_one(b, '.');
            lines::split_of_one("x"@, '.');
            assert(lines::split(plain, '.') =~= seq![a, b, "x"@]);
            assert(plain[0] != 'v') by {
                if a.len() > 0 {
                    assert(plain[0] == a[0]);
                }
            }
            assert(("v"@ + plain).skip(1) =~= plain);
            assert(s == plain);
        }
    }
}

proof fn lemma_first_difference(a: Seq<Seq<char>>, b: Seq<Seq<char>>, k: int, i: int)
    requires
        0 <= i <= k,
        k <= a.len(),
        k <= b.len(),
        forall|j: int| 0 <= j < k ==> a[j] == #[trigger] b[j],
    ensures
        git::parts_order(a, b, i) == git::parts_order(a, b, k),
    decreases k - i,
{
    if i < k {
        assert(a[i] == b[i]);
        lemma_first_difference(a, b, k, i + 1);
    }
}

/// Versions are compared by the first part in which they differ, and by number, not by text, where
/// both parts are numbers: what is smaller there is older. A version that goes on where another
/// ends is the newer one.
pub proof fn the_first_differing_number_decides(a: &str, b: &str, k: int, r: Ordering)
    requires
        call_ensures(git::compare_versions, (a, b), r),
        0 <= k <= git::version_parts(a@).len(),
        k <= git::version_parts(b@).len(),
        forall|j: int|
            0 <= j < k ==> git::version_parts(a@)[j] == #[trigger] git::version_parts(b@)[j],
    ensures
        ({
            let p = git::version_parts(a@);
            let q = git::version_parts(b@);
            &&& k < p.len() && k < q.len() && number::all_digits(p[k]) && number::all_digits(q[k])
                && number::value(p[k]) < number::value(q[k]) <= 4294967295 ==> r == Ordering::Less
            &&& k < p.len() && k < q.len() && number::all_digits(p[k]) && number::all_digits(q[k])
                && number::value(q[k]) < number::value(p[k]) <= 4294967295 ==> r
                == Ordering::Greater
            &&& k == p.len() && k < q.len() ==> r == Ordering::Less
            &&& k == q.len() && k < p.len() ==> r == Ordering::Greater
            &&& k == p.len() && k == q.len() ==> r == Ordering::Equal
        }),
{
    let p = git::version_parts(a@);
    let q = git::version_parts(b@);
    lemma_first_difference(p, q, k, 0);
    if k < p.len() && k < q.len() && number::all_digits(p[k]) && number::all_digits(q[k]) {
        assert(text::is_digit(p[k][0]) && text::is_digit(q[k][0]));
    }
}

/// The parts of a version stand between its dots, and a `v` before it does not count.
pub proof fn a_version_is_read_by_its_dots(a: Seq<char>, b: Seq<char>)
    requires
        a.len() == 0 || a[0] != 'v',
    ensures
        git::version_parts(a + "."@ + b) == git::version_parts(a) + lines::split(b, '.'),
        git::version_parts("v"@ + a) == git::version_parts(a),
        !a.contains('.') ==> git::version_parts(a) == seq![a],
{
    reveal_strlit(".");
    reveal_strlit("v");
    lines::split_of_both(a, '.', b);
    assert(a + "."@ + b =~= a + seq!['.'] + b);
    assert((a + "."@ + b)[0] != 'v');
    assert(("v"@ + a).skip(1) =~= a);
    if !a.contains('.') {
        lines::split_of_one(a, '.');
    }
}

proof fn lemma_sorted_has(v: Seq<Seq<char>>, s: Seq<char>)
    ensures
        git::by_version(v).contains(s) <==> v.contains(s),
        git::by_version(v).len() == v.len(),
{
    git::sorting_keeps_the_versions(v);
    v.to_multiset_ensures();
    git::by_version(v).to_multiset_ensures();
    assert(v.contains(s) <==> v.to_multiset().count(s) > 0);
    assert(git::by_version(v).contains(s) <==> git::by_version(v).to_multiset().count(s) > 0);
}

proof fn lemma_local_has(names: Seq<Seq<char>>, s: Seq<char>)
    ensures
        git::local_releases(names).contains(s) <==> names.contains(s) && git::is_release_branch(s),
    decreases names.len(),
{
    if names.len() > 0 {
        let w = names.drop_last();
        lemma_local_has(w, s);
        vstd::seq_lib::lemma_seq_contains_after_push(w, names.last(), s);
        assert(w.push(names.last()) =~= names);
        vstd::seq_lib::lemma_seq_contains_after_push(git::local_releases(w), names.last(), s);
    }
}

proof fn lemma_remote_has(local: Seq<Seq<char>>, names: Seq<Seq<char>>, s: Seq<char>)
    ensures
        git::with_remote(local, names).contains(s) <==> local.contains(s) || (git::is_release_branch(
            s,
        ) && exists|i: int| 0 <= i < names.len() && git::short_name(#[trigger] names[i]) == s),
    decreases names.len(),
{
    if names.len() > 0 {
        let w = names.drop_last();
        let t = git::short_name(names.last());
        lemma_remote_has(local, w, s);
        lemma_remote_has(local, w, t);
        vstd::seq_lib::lemma_seq_contains_after_push(git::with_remote(local, w), t, s);
        if exists|i: int| 0 <= i < w.len() && git::short_name(#[trigger] w[i]) == s {
            let i = choose|i: int| 0 <= i < w.len() && git::short_name(#[trigger] w[i]) == s;
            assert(names[i] == w[i]);
        }
        if exists|i: int| 0 <= i < names.len() && git::short_name(#[trigger] names[i]) == s {
            let i = choose|i: int|
                0 <= i < names.len() && git::short_name(#[trigger] names[i]) == s;
            if i < w.len() {
                assert(names[i] == w[i]);
            }
        }
        assert(names[names.len() - 1] == names.last());
    }
}

/// The release branches that are offered are all that there are, here or on the remote, and
/// nothing else.
pub proof fn every_release_branch_is_offered(
    local: &Vec<String>,
    remote: &Vec<String>,
    r: Vec<String>,
    s: Seq<char>,
)
    requires
        call_ensures(git::list_release_branches, (local, remote), r),
    ensures
        text::texts(r@).contains(s) <==> git::is_release_branch(s) && (text::texts(
            local@,
        ).contains(s) || exists|i: int|
            0 <= i < remote@.len() && git::short_name((#[trigger] remote@[i])@) == s),
{
    let l = text::texts(local@);
    let q = text::texts(remote@);
    lemma_sorted_has(git::with_remote(git::local_releases(l), q), s);
    lemma_remote_has(git::local_releases(l), q, s);
    lemma_local_has(l, s);
    if exists|i: int| 0 <= i < remote@.len() && git::short_name((#[trigger] remote@[i])@) == s {
        let i = choose|i: int|
            0 <= i < remote@.len() && git::short_name((#[trigger] remote@[i])@) == s;
        assert(q[i] == remote@[i]@);
    }
    if exists|i: int| 0 <= i < q.len() && git::short_name(#[trigger] q[i]) == s {
        let i = choose|i: int| 0 <= i < q.len() && git::short_name(#[trigger] q[i]) == s;
        assert(remote@[i]@ == q[i]);
    }
}

/// What a branch of a remote is called is what stands behind the remote's name.
pub proof fn a_remote_branch_has_the_name_behind_the_slash(remote: Seq<char>, name: Seq<char>)
    requires
        !name.contains('/'),
    ensures
        git::short_name(remote + "/"@ + name) == name,
        git::short_name(name) == name,
{
    reveal_strlit("/");
    text::cut_last_of_both(remote, '/', name);
    assert(remote + "/"@ + name =~= remote + seq!['/'] + name);
}

/// Every tag is offered, by its name alone.
pub proof fn every_tag_is_offered(refs: &Vec<String>, r: Vec<String>, s: Seq<char>, i: int)
    requires
        call_ensures(git::list_tags, (refs,), r),
        0 <= i < refs@.len(),
    ensures
        r@.len() == refs@.len(),
        refs@[i]@ == "refs/tags/"@ + s ==> text::texts(r@).contains(s),
        !"refs/tags/"@.is_prefix_of(refs@[i]@) ==> text::texts(r@).contains(refs@[i]@),
{
    let all = git::tag_names(text::texts(refs@));
    lemma_sorted_has(all, s);
    lemma_sorted_has(all, refs@[i]@);
    assert(all[i] == git::tag_name(refs@[i]@));
    if refs@[i]@ == "refs/tags/"@ + s {
        let n = "refs/tags/"@.len() as int;
        assert(refs@[i]@.subrange(0, n) =~= "refs/tags/"@);
        assert(refs@[i]@.skip(n) =~= s);
    }
}

/// Changes go back to a branch that is there, and `main` is taken before `master` where both are
/// local.
pub proof fn the_main_branch_is_there(
    local: &Vec<String>,
    remote: &Vec<String>,
    r: Result<String, String>,
)
    requires
        call_ensures(git::get_primary_branch, (local, remote), r),
    ensures
        r matches Ok(b) ==> (b@ == "main"@ || b@ == "master"@) && (text::texts(local@).contains(b@)
            || text::texts(remote@).contains("origin/"@ + b@)),
        text::texts(local@).contains("main"@) ==> (r matches Ok(b) && b@ == "main"@),
        text::texts(local@).contains("master"@) && !text::texts(local@).contains("main"@) ==> (
        r matches Ok(b) && b@ == "master"@),
        r is Err <==> !text::texts(local@).contains("main"@) && !text::texts(local@).contains(
            "master"@,
        ) && !text::texts(remote@).contains("origin/main"@) && !text::texts(remote@).contains(
            "origin/master"@,
        ),
{
    reveal_strlit("main");
    reveal_strlit("master");
    reveal_strlit("origin/");
    reveal_strlit("origin/main");
    reveal_strlit("origin/master");
    assert("origin/"@ + "main"@ =~= "origin/main"@);
    assert("origin/"@ + "master"@ =~= "origin/master"@);
}

/// A branch is moved only where that drops no commit, and made only where there is none.
pub proof fn no_commit_is_dropped(
    name: &str,
    local: bool,
    remote: bool,
    behind: bool,
    r: Result<BranchUpdate, String>,
)
    requires
        call_ensures(git::update_branch, (name, local, remote, behind), r),
    ensures
        r == Ok::<BranchUpdate, String>(BranchUpdate::Move) <==> local && remote && behind,
        r == Ok::<BranchUpdate, String>(BranchUpdate::Create) <==> !local && remote,
        r is Err <==> (!local && !remote) || (local && remote && !behind),
{
}

/// A branch and a tag are pushed under their own names.
pub proof fn what_is_pushed_keeps_its_name(name: &str, branch: String, tag: String)
    requires
        call_ensures(git::push_branch, (name,), branch),
        call_ensures(git::push_tag, (name,), tag),
    ensures
        branch@ == ("refs/heads/"@ + name@) + ":"@ + ("refs/heads/"@ + name@),
        tag@ == ("refs/tags/"@ + name@) + ":"@ + ("refs/tags/"@ + name@),
{
    reveal_strlit(":");
    reveal_strlit("refs/heads/");
    reveal_strlit("refs/tags/");
    reveal_strlit(":refs/heads/");
    reveal_strlit(":refs/tags/");
    assert(branch@ =~= ("refs/heads/"@ + name@) + ":"@ + ("refs/heads/"@ + name@));
    assert(tag@ =~= ("refs/tags/"@ + name@) + ":"@ + ("refs/tags/"@ + name@));
}

/// A changelog is told from its beginning, up to twenty lines, and not cut where it is shorter.
pub proof fn a_changelog_is_told_from_its_beginning(release: &str, content: &str, r: String)
    requires
        call_ensures(git::get_changelog, (release, Some(content)), r),
    ensures
        ({
            let all = lines::lines(content@);
            &&& all.len() <= 20 ==> r@ == lines::joined(all, "\n"@)
            &&& all.len() > 20 ==> r@ == lines::joined(all.take(20), "\n"@)
        }),
{
}

proof fn lemma_clones(v: Seq<VendorDir>, s: Seq<char>)
    ensures
        git::clones(v).contains(s) <==> exists|i: int|
            0 <= i < v.len() && (#[trigger] v[i]).is_clone && s == v[i].vendor@ + "/"@
                + v[i].module@,
    decreases v.len(),
{
    if v.len() > 0 {
        let w = v.drop_last();
        let l = v.last();
        lemma_clones(w, s);
        vstd::seq_lib::lemma_seq_contains_after_push(
            git::clones(w),
            l.vendor@ + "/"@ + l.module@,
            s,
        );
        if exists|i: int|
            0 <= i < w.len() && (#[trigger] w[i]).is_clone && s == w[i].vendor@ + "/"@
                + w[i].module@ {
            let i = choose|i: int|
                0 <= i < w.len() && (#[trigger] w[i]).is_clone && s == w[i].vendor@ + "/"@
                    + w[i].module@;
            assert(v[i] == w[i]);
        }
        if exists|i: int|
            0 <= i < v.len() && (#[trigger] v[i]).is_clone && s == v[i].vendor@ + "/"@
                + v[i].module@ {
            let i = choose|i: int|
                0 <= i < v.len() && (#[trigger] v[i]).is_clone && s == v[i].vendor@ + "/"@
                    + v[i].module@;
            if i < w.len() {
                assert(v[i] == w[i]);
            }
        }
        assert(v[v.len() - 1] == l);
    }
}

/// The modules that are listed are the clones below `vendor/`, by vendor and name.
pub proof fn only_clones_are_modules(dirs: &Vec<VendorDir>, r: Vec<String>, s: Seq<char>)
    requires
        call_ensures(git::list_vendor_modules, (dirs,), r),
    ensures
        text::texts(r@).contains(s) <==> exists|i: int|
            0 <= i < dirs@.len() && (#[trigger] dirs@[i]).is_clone && s == dirs@[i].vendor@ + "/"@
                + dirs@[i].module@,
        order::sorted(text::texts(r@)),
{
    broadcast use vstd::seq_lib::group_to_multiset_ensures;

    lemma_clones(dirs@, s);
    order::in_order_sorts(git::clones(dirs@));
}

/// A worktree of a branch's own name stands on that branch; any other gets a new branch, made
/// where the given one stands.
pub proof fn a_worktree_never_takes_another_branch(
    name: &str,
    branch: Option<&str>,
    r: WorktreeBranch,
)
    requires
        call_ensures(git::create_worktree, (name, branch), r),
    ensures
        r matches WorktreeBranch::Existing(b) ==> b@ == name@,
        r matches WorktreeBranch::New { from } ==> branch is Some && from@ == branch->0@ && from@
            != name@,
        r is Any <==> branch is None,
{
}

/// A container runs as the user and with the group that are given, in this order.
pub proof fn the_user_comes_before_the_group(uid: u32, gid: u32, r: String)
    requires
        call_ensures(git::get_docker_user_id, (uid, gid), r),
    ensures
        r@ == number::decimal(uid as nat) + ":"@ + number::decimal(gid as nat),
{
}

/// A worktree is removed, itself and no other, exactly where its mode says so and it is there.
pub proof fn a_worktree_is_removed_by_its_mode(
    git_path: &str,
    worktree: &str,
    mode: CleanupMode,
    exists: bool,
    c: WorktreeCleanup,
    r: Option<Vec<String>>,
)
    requires
        call_ensures(WorktreeCleanup::new, (git_path, worktree, mode), c),
        call_ensures(WorktreeCleanup::removal, (&c, exists), r),
    ensures
        r is Some <==> mode == CleanupMode::Always && exists,
        r matches Some(a) ==> text::texts(a@).last() == worktree@ && text::texts(a@).contains(
            "remove"@,
        ) && text::texts(a@)[1] == git_path@,
{
    if let Some(a) = r {
        assert(text::texts(a@)[3] == "remove"@);
    }
}

/// The changelog is looked for under its usual name first.
pub proof fn the_usual_changelog_comes_first(r: Vec<String>)
    requires
        call_ensures(git::changelog_names, (), r),
    ensures
        r@.len() == 3,
        text::texts(r@)[0] == "CHANGELOG.md"@,
        text::texts(r@)[1] == "changelog.md"@,
        text::texts(r@)[2] == "CHANGELOG"@,
{
    assert(text::texts(r@).len() == r@.len());
}

} // verus!
