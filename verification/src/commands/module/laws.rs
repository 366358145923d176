//! What holds of linking, creating and unlinking modules as a whole.
use vstd::prelude::*;

use crate::commands::module;
use crate::commands::module::composer;
use crate::commands::module::composer::{
    LinkView, LinkedModule, LockedPackage, NameFault, RepoEntry,
};
use crate::commands::module::flow;
use crate::commands::module::flow::{
    CreateStart, CreateView, LinkAction, LinkActionView, LinkStart, LinkState, LinkUndo, ModuleFiles,
    Purge, UndoView, UnlinkAction, UnlinkUndo, UnlinkView, Unsaved,
};
use crate::commands::module::{LinkTarget, UnlinkTarget};
use crate::edit;
use crate::json;
use crate::lines;
use crate::order;
use crate::paths;
use crate::text;

verus! {

/// Whether one step stands before another.
pub open spec fn precedes(s: Seq<LinkActionView>, a: LinkActionView, b: LinkActionView) -> bool {
    exists|i: int, j: int| 0 <= i < j < s.len() && #[trigger] s[i] == a && #[trigger] s[j] == b
}

/// The Composer call that makes a checkout known as the source of a package.
pub open spec fn declares(relative: Seq<char>, package: Seq<char>, pin: Seq<char>) -> LinkActionView {
    LinkActionView::Composer(
        seq![
            "config"@,
            "repositories.dc2-"@ + edit::replaced(relative, "/"@, "-"@),
            composer::repo_entry(relative, package, pin),
        ],
    )
}

/// A new module is made known to Composer and then required by the application at the version of
/// its main branch, with the given Composer arguments: nothing else would install it. What Composer
/// did is verified last, and the checkout is kept out of the application's repository throughout.
pub proof fn a_new_module_is_required(
    relative: &str,
    package: &str,
    args: &Vec<String>,
    skip: bool,
    r: Vec<LinkAction>,
)
    requires
        call_ensures(flow::create, (relative, package, args, skip), r),
    ensures
        ({
            let s = flow::steps_view(r@);
            let require = LinkActionView::Composer(
                seq!["require"@, package@ + ":"@ + "dev-main"@] + text::texts(args@),
            );
            let declare = declares(relative@, package@, "dev-main"@);
            &&& s.len() > 0 && s[0] is IgnoreModules
            &&& !skip ==> precedes(s, LinkActionView::IgnoreModules, declare)
            &&& !skip ==> precedes(s, declare, require)
            &&& !skip ==> s.last() is VerifyLink
            &&& forall|i: int|
                0 <= i < s.len() && (#[trigger] s[i]) is Composer ==> !skip && (s[i] == declare
                    || s[i] == require)
            &&& forall|i: int| 0 <= i < s.len() ==> !((#[trigger] s[i]) is MoveCheckout)
        }),
{
    let s = flow::steps_view(r@);
    if !skip {
        assert(s[1] == declares(relative@, package@, "dev-main"@));
        assert(s[2] == LinkActionView::Composer(
            seq!["require"@, package@ + ":"@ + "dev-main"@] + text::texts(args@),
        ));
        assert(s[3] is VerifyLink);
    }
}

/// A module that is linked is moved out of `vendor/` first, unless its checkout is there already,
/// put on the branch of its version and ignored, and only then is it made known to Composer and
/// updated, with the given Composer arguments. What Composer did is verified last. The application
/// requires nothing anew.
pub proof fn a_linked_module_is_moved_before_composer_runs(
    reuse: bool,
    relative: &str,
    package: &str,
    pin: &str,
    args: &Vec<String>,
    skip: bool,
    r: Vec<LinkAction>,
)
    requires
        call_ensures(flow::link, (reuse, relative, package, pin, args, skip), r),
    ensures
        ({
            let s = flow::steps_view(r@);
            let declare = declares(relative@, package@, pin@);
            let update = LinkActionView::Composer(seq!["update"@, package@] + text::texts(args@));
            &&& !reuse <==> s.contains(LinkActionView::MoveCheckout)
            &&& !reuse ==> s[0] is MoveCheckout
            &&& s.contains(LinkActionView::IgnoreModules)
            &&& forall|b: Seq<char>|
                pin@ == #[trigger] ("dev-"@ + b) ==> precedes(
                    s,
                    LinkActionView::CheckoutBranch(b),
                    LinkActionView::IgnoreModules,
                )
            &&& !skip ==> precedes(s, LinkActionView::IgnoreModules, declare)
            &&& !skip ==> precedes(s, declare, update)
            &&& !skip ==> s.last() is VerifyLink
            &&& forall|i: int|
                0 <= i < s.len() && (#[trigger] s[i]) is Composer ==> !skip && (s[i] == declare
                    || s[i] == update)
        }),
{
    let s = flow::steps_view(r@);
    let m: int = if reuse {
        0
    } else {
        1
    };
    let b: int = if composer::pinned_branch(pin@) is Some {
        1
    } else {
        0
    };
    assert(s[m + b] is IgnoreModules);
    if !reuse {
        assert(s[0] is MoveCheckout);
    }
    assert forall|n: Seq<char>| pin@ == #[trigger] ("dev-"@ + n) implies precedes(
        s,
        LinkActionView::CheckoutBranch(n),
        LinkActionView::IgnoreModules,
    ) by {
        let d = "dev-"@.len() as int;
        assert(pin@.subrange(0, d) =~= "dev-"@);
        assert(pin@.skip(d) =~= n);
        assert(s[m] == LinkActionView::CheckoutBranch(n));
    }
    if !skip {
        assert(s[m + b + 1] == declares(relative@, package@, pin@));
        assert(s[m + b + 2] == LinkActionView::Composer(
            seq!["update"@, package@] + text::texts(args@),
        ));
        assert(s[m + b + 3] is VerifyLink);
    }
}

/// One member of a written object.
pub open spec fn member(name: Seq<char>, value: Seq<char>) -> Seq<char> {
    json::json_quoted(name) + ":"@ + value
}

/// What is written for a module: that Composer links it instead of copying it, where it lies, and
/// which version it stands for.
pub proof fn an_entry_says_where_a_module_lies(relative: &str, package: &str, pin: &str, r: String)
    requires
        call_ensures(composer::repo_entry_json, (relative, package, pin), r),
    ensures
        ({
            let versions = "{"@ + member(package@, json::json_quoted(pin@)) + "}"@;
            let options = "{"@ + (member("symlink"@, "true"@) + ","@ + member(
                "versions"@,
                versions,
            )) + "}"@;
            r@ == "{"@ + (member("options"@, options) + ","@ + member(
                "type"@,
                json::json_quoted("path"@),
            ) + ","@ + member("url"@, json::json_quoted("modules/"@ + relative@))) + "}"@
        }),
{
    lemma_object_of_one(package@, json::json_quoted(pin@));
    let versions = json::written_object(seq![(package@, json::json_quoted(pin@))]);
    lemma_object_of_two("symlink"@, "true"@, "versions"@, versions);
    let options = json::written_object(seq![("symlink"@, "true"@), ("versions"@, versions)]);
    lemma_object_of_three(
        "options"@,
        options,
        "type"@,
        json::json_quoted("path"@),
        "url"@,
        json::json_quoted("modules/"@ + relative@),
    );
    assert(r@ == json::written_object(
        seq![
            ("options"@, options),
            ("type"@, json::json_quoted("path"@)),
            ("url"@, json::json_quoted("modules/"@ + relative@)),
        ],
    ));
}

proof fn lemma_object_of_one(k: Seq<char>, v: Seq<char>)
    ensures
        json::written_object(seq![(k, v)]) == "{"@ + (json::json_quoted(k) + ":"@ + v) + "}"@,
{
    let parts = seq![(k, v)].map_values(|m: (Seq<char>, Seq<char>)| json::written_member(m));
    assert(parts =~= seq![json::json_quoted(k) + ":"@ + v]);
    reveal_with_fuel(lines::joined, 2);
}

proof fn lemma_object_of_two(k: Seq<char>, v: Seq<char>, l: Seq<char>, w: Seq<char>)
    ensures
        json::written_object(seq![(k, v), (l, w)]) == "{"@ + (json::json_quoted(k) + ":"@ + v
            + ","@ + (json::json_quoted(l) + ":"@ + w)) + "}"@,
{
    let parts = seq![(k, v), (l, w)].map_values(
        |m: (Seq<char>, Seq<char>)| json::written_member(m),
    );
    assert(parts =~= seq![json::json_quoted(k) + ":"@ + v, json::json_quoted(l) + ":"@ + w]);
    assert(parts.drop_last() =~= seq![json::json_quoted(k) + ":"@ + v]);
    reveal_with_fuel(lines::joined, 3);
}

proof fn lemma_object_of_three(
    k: Seq<char>,
    v: Seq<char>,
    l: Seq<char>,
    w: Seq<char>,
    m: Seq<char>,
    x: Seq<char>,
)
    ensures
        json::written_object(seq![(k, v), (l, w), (m, x)]) == "{"@ + (json::json_quoted(k) + ":"@
            + v + ","@ + (json::json_quoted(l) + ":"@ + w) + ","@ + (json::json_quoted(m) + ":"@
            + x)) + "}"@,
{
    let parts = seq![(k, v), (l, w), (m, x)].map_values(
        |p: (Seq<char>, Seq<char>)| json::written_member(p),
    );
    let a = json::json_quoted(k) + ":"@ + v;
    let b = json::json_quoted(l) + ":"@ + w;
    let c = json::json_quoted(m) + ":"@ + x;
    assert(parts =~= seq![a, b, c]);
    assert(parts.drop_last() =~= seq![a, b]);
    assert(parts.drop_last().drop_last() =~= seq![a]);
    reveal_with_fuel(lines::joined, 4);
}

/// A version that stands for a branch names it, from either end; any other version names none.
pub proof fn a_version_names_its_branch(pin: &str, r: Option<String>, b: Seq<char>)
    requires
        call_ensures(composer::branch_from_pin, (pin,), r),
    ensures
        pin@ == "dev-"@ + b ==> paths::opt(r) == Some(b),
        pin@ == b + "-dev"@ && !"dev-"@.is_prefix_of(pin@) ==> paths::opt(r) == Some(b),
        r is None <==> !"dev-"@.is_prefix_of(pin@) && !"-dev"@.is_suffix_of(pin@),
{
    let d = "dev-"@.len() as int;
    let e = "-dev"@.len() as int;
    if pin@ == "dev-"@ + b {
        assert(pin@.subrange(0, d) =~= "dev-"@);
        assert(pin@.skip(d) =~= b);
    }
    if pin@ == b + "-dev"@ {
        assert(pin@.subrange(pin@.len() - e, pin@.len() as int) =~= "-dev"@);
        assert(pin@.take(pin@.len() - e) =~= b);
    }
}

/// A checkout is put on the branch of its version only where it is not on it.
pub proof fn a_checkout_is_moved_only_where_needed(
    pin: &str,
    current: Option<&str>,
    branch: Option<String>,
    r: Option<String>,
)
    requires
        call_ensures(composer::branch_from_pin, (pin,), branch),
        call_ensures(flow::checkout_pinned_branch, (pin, current), r),
    ensures
        r matches Some(b) ==> branch is Some && b@ == branch->0@ && !(current is Some
            && current->0@ == b@),
        branch is Some && !(current is Some && current->0@ == branch->0@) ==> r is Some,
{
}

/// A module is pinned to the version that was asked for, or else to the one that is installed, and
/// never to anything made up.
pub proof fn a_module_keeps_its_version(
    version: Option<&str>,
    installed: Option<&str>,
    package: &str,
    r: Result<String, String>,
)
    requires
        call_ensures(flow::link_pin, (version, installed, package), r),
    ensures
        version matches Some(v) ==> (r matches Ok(s) && s@ == v@),
        version is None && installed is Some ==> (r matches Ok(s) && s@ == installed->0@),
        version is None && installed is None ==> r is Err,
{
}

/// A link that failed is undone as far as it had come, beginning with Composer's files: what was
/// moved is moved back, the commit is restored and the rule is taken out, each exactly where it
/// was done, and no module is kept that was not there.
pub proof fn a_failed_link_is_undone(state: &LinkState, r: Vec<LinkUndo>)
    requires
        call_ensures(flow::rollback_link, (state,), r),
    ensures
        ({
            let u = flow::undo_view(r@);
            &&& u.len() > 0 && u[0] is RestoreComposer
            &&& u.contains(UndoView::MoveBack) <==> state.moved
            &&& u.contains(UndoView::RevertGitignore) <==> state.gitignore_added
            &&& state.detached_head matches Some(c) ==> u.contains(UndoView::RestoreHead(c@))
            &&& forall|i: int| 0 <= i < u.len() && (#[trigger] u[i]) is RestoreHead ==> paths::opt(
                state.detached_head,
            ) == Some(u[i]->RestoreHead_0)
            &&& !u.contains(UndoView::KeepModule)
        }),
{
    flow::undoing_matches_what_was_done(state@);
    let u = flow::undo_view(r@);
    if let Some(c) = state.detached_head {
        assert(u[1] == UndoView::RestoreHead(c@));
    }
}

/// A creation that failed leaves the new module where it is: it exists nowhere else.
pub proof fn a_failed_creation_keeps_the_module(added: bool, r: Vec<LinkUndo>)
    requires
        call_ensures(flow::rollback_create, (added,), r),
    ensures
        ({
            let u = flow::undo_view(r@);
            &&& u.len() > 0 && u[0] is RestoreComposer
            &&& u.contains(UndoView::KeepModule)
            &&& !u.contains(UndoView::MoveBack)
            &&& u.contains(UndoView::RevertGitignore) <==> added
        }),
{
    let u = flow::undo_view(r@);
    assert(u.last() == UndoView::KeepModule);
    if added {
        assert(u[1] == UndoView::RevertGitignore);
    }
}

/// Linking never runs over anything: a module that is linked stays as it is, two real directories
/// are left alone, and what is no repository is not moved. A checkout from before is used again.
pub proof fn linking_overwrites_nothing(
    linked: &Vec<LinkedModule>,
    relative: &str,
    files: ModuleFiles,
    r: LinkStart,
)
    requires
        call_ensures(flow::begin_link, (linked, relative, files), r),
    ensures
        r@ is AlreadyLinked ==> r@->AlreadyLinked_0.relative() == relative@,
        r@ is Proceed ==> {
            &&& !module::linked_at(composer::links_view(linked@), relative@)
            &&& r@->reuse == files.checkout_exists
            &&& files.checkout_exists ==> !files.vendor_exists || files.vendor_is_symlink
            &&& !files.checkout_exists ==> files.vendor_is_git
        },
        module::linked_at(composer::links_view(linked@), relative@) ==> r@ is AlreadyLinked,
{
    lemma_first_linked(composer::links_view(linked@), relative@);
}

proof fn lemma_first_linked(linked: Seq<LinkView>, relative: Seq<char>)
    ensures
        module::linked_at(linked, relative) <==> module::first_linked_at(linked, relative) is Some,
        module::first_linked_at(linked, relative) matches Some(l) ==> l.relative() == relative
            && linked.contains(l),
    decreases linked.len(),
{
    if linked.len() > 0 {
        let w = linked.drop_first();
        lemma_first_linked(w, relative);
        if linked[0].relative() == relative {
            assert(linked.contains(linked[0]));
        } else {
            if module::linked_at(linked, relative) {
                let i = choose|i: int|
                    0 <= i < linked.len() && (#[trigger] linked[i]).relative() == relative;
                assert(w[i - 1].relative() == relative);
            }
            if module::linked_at(w, relative) {
                let i = choose|i: int| 0 <= i < w.len() && (#[trigger] w[i]).relative() == relative;
                assert(linked[i + 1].relative() == relative);
            }
            if let Some(l) = module::first_linked_at(w, relative) {
                let i = choose|i: int| 0 <= i < w.len() && w[i] == l;
                assert(linked[i + 1] == l);
            }
        }
    }
}

/// A module is created only under a valid name that nothing has yet: no link, no checkout and no
/// installed package.
pub proof fn a_new_module_needs_a_free_name(
    linked: &Vec<LinkedModule>,
    wanted: &str,
    files: ModuleFiles,
    r: CreateStart,
)
    requires
        call_ensures(flow::begin_create, (linked, wanted, files), r),
    ensures
        r@ matches CreateView::Proceed(p) ==> composer::name_fault(p) is None
            && !module::linked_at(composer::links_view(linked@), p) && !files.checkout_exists
            && !files.vendor_exists,
        !wanted@.contains('/') ==> r@ is Invalid,
{
    let t = text::without_ends(wanted@, '/');
    lemma_first_linked(composer::links_view(linked@), t);
    if !wanted@.contains('/') {
        lemma_without_ends_plain(wanted@, '/');
        lines::split_of_one(wanted@, '/');
    }
}

proof fn lemma_without_ends_plain(s: Seq<char>, c: char)
    requires
        !s.contains(c),
    ensures
        text::without_ends(s, c) == s,
{
    reveal_with_fuel(text::without_ends, 2);
    reveal_with_fuel(text::without_end, 2);
    if s.len() > 0 {
        assert(s[0] != c);
        assert(s[s.len() - 1] != c);
    }
}

/// A valid package name has a vendor and a name with one slash between them, both of lower case
/// letters, digits and single separators; the kind of every fault is told.
pub proof fn package_names_have_their_form(name: &str, r: Result<(), NameFault>)
    requires
        call_ensures(composer::validate_package_name, (name,), r),
    ensures
        r is Ok ==> {
            let sides = lines::split(name@, '/');
            &&& sides.len() == 2
            &&& sides[0].len() > 0 && sides[1].len() > 0
            &&& forall|i: int|
                0 <= i < name@.len() ==> text::is_lower(#[trigger] name@[i]) || text::is_digit(
                    name@[i],
                ) || name@[i] == '.' || name@[i] == '_' || name@[i] == '-' || name@[i] == '/'
        },
        lines::split(name@, '/').len() != 2 <==> r == Err::<(), NameFault>(NameFault::OneSlash),
{
    let sides = lines::split(name@, '/');
    if r is Ok {
        lines::join_undoes_split(name@, '/');
        reveal_with_fuel(lines::joined, 3);
        assert(sides =~= seq![sides[0], sides[1]]);
        assert(sides.drop_last() =~= seq![sides[0]]);
        assert(name@ =~= sides[0] + seq!['/'] + sides[1]);
        let a = sides[0];
        let b = sides[1];
        assert forall|i: int| 0 <= i < name@.len() implies text::is_lower(#[trigger] name@[i])
            || text::is_digit(name@[i]) || name@[i] == '.' || name@[i] == '_' || name@[i] == '-'
            || name@[i] == '/' by {
            if i < a.len() {
                assert(name@[i] == a[i]);
                assert(composer::is_name_char(a[i]));
            } else if i > a.len() {
                assert(name@[i] == b[i - a.len() - 1]);
                assert(composer::is_name_char(b[i - a.len() - 1]));
            }
        }
    }
}

/// Unlinking takes the link away before Composer runs, removes the module's own entry, installs
/// the package from its source, and verifies the result last.
pub proof fn an_unlinked_module_is_installed_again(
    target: &LinkedModule,
    is_link: bool,
    skip: bool,
    r: Result<Vec<UnlinkAction>, String>,
)
    requires
        call_ensures(flow::unlink, (target, is_link, skip), r),
    ensures
        r is Err <==> target.key is None,
        r matches Ok(v) ==> {
            let s = flow::unlinking_view(v@);
            &&& is_link <==> s.contains(UnlinkView::RemoveSymlink)
            &&& is_link ==> s[0] is RemoveSymlink
            &&& !skip ==> s.len() > 2 && s.last() is VerifyUnlinked && s[s.len() - 2]
                == UnlinkView::Composer(seq!["update"@, target.package@, "--prefer-source"@])
                && s[s.len() - 3] == UnlinkView::Composer(
                seq!["config"@, "--unset"@, "repositories."@ + target.key->0@],
            )
            &&& skip ==> forall|i: int| 0 <= i < s.len() ==> !((#[trigger] s[i]) is Composer)
        },
{
    if let Ok(v) = r {
        let s = flow::unlinking_view(v@);
        if is_link {
            assert(s[0] is RemoveSymlink);
        }
    }
}

/// Once the link is gone, a failure brings Composer's files back in any case, and the link where
/// nothing stands in its place.
pub proof fn a_failed_unlinking_is_undone(
    failed: &UnlinkAction,
    there: bool,
    r: Vec<UnlinkUndo>,
)
    requires
        call_ensures(flow::rollback_unlink, (failed, there), r),
    ensures
        failed@ is RemoveSymlink ==> r@.len() == 0,
        !(failed@ is RemoveSymlink) ==> r@.len() > 0 && r@[0] == UnlinkUndo::RestoreComposer,
        r@.contains(UnlinkUndo::Relink) <==> !(failed@ is RemoveSymlink) && !there,
{
    if !(failed@ is RemoveSymlink) && !there {
        assert(r@[1] == UnlinkUndo::Relink);
    }
}

/// Nothing is unlinked that Composer cannot take out or that exists nowhere else.
pub proof fn the_only_copy_is_not_unlinked(
    target: &LinkedModule,
    checkout: bool,
    remotes: Option<bool>,
    has_remote: bool,
    r: Result<(), String>,
)
    requires
        call_ensures(flow::checkout_has_remote, (remotes,), has_remote),
        call_ensures(flow::begin_unlink, (target, checkout, has_remote), r),
    ensures
        r is Ok <==> target.key is Some && !(checkout && remotes == Some(false)),
{
}

/// Work that exists nowhere else is not deleted without the user's consent.
pub proof fn unsaved_work_is_not_deleted_unasked(
    there: bool,
    unsaved: Option<Unsaved>,
    yes: bool,
    r: Purge,
)
    requires
        call_ensures(flow::purge_checkout, (there, unsaved, yes), r),
    ensures
        unsaved matches Some(u) ==> (u.dirty || u.unpushed > 0) && !yes ==> !(r is Remove),
        !there ==> r is Nothing,
        there && (yes || unsaved is None) ==> r is Remove,
{
}

/// The rule that ignores the checkouts goes only with the last of them, and only where it is
/// known that nothing is linked.
pub proof fn the_rule_goes_with_the_last_checkout(
    linked: Option<usize>,
    checkouts: bool,
    r: bool,
)
    requires
        call_ensures(flow::tidy_modules_gitignore, (linked, checkouts), r),
    ensures
        r <==> linked == Some(0usize) && !checkouts,
{
}

/// The link leads from `vendor/` to the checkout, and only such a link counts as one.
pub proof fn a_link_leads_to_its_checkout(
    relative: &str,
    is_link: bool,
    link: Option<&str>,
    target: Option<&str>,
    path: String,
    r: bool,
)
    requires
        call_ensures(flow::symlink_dev_checkout, (relative,), path),
        call_ensures(flow::links_to, (is_link, link, target), r),
    ensures
        path@ == "../../modules/"@ + relative@,
        r <==> is_link && link is Some && target is Some && link->0@ == target->0@,
{
}

proof fn lemma_placed(v: Seq<LinkView>, l: LinkView, x: LinkView)
    ensures
        composer::placed_link(v, l).contains(x) <==> v.contains(x) || x == l,
    decreases v.len(),
{
    if v.len() > 0 && order::before(l.package, v.last().package) {
        let w = v.drop_last();
        lemma_placed(w, l, x);
        vstd::seq_lib::lemma_seq_contains_after_push(composer::placed_link(w, l), v.last(), x);
        vstd::seq_lib::lemma_seq_contains_after_push(w, v.last(), x);
        assert(w.push(v.last()) =~= v);
    } else {
        vstd::seq_lib::lemma_seq_contains_after_push(v, l, x);
    }
}

proof fn lemma_links(entries: Seq<composer::EntryView>, x: LinkView)
    ensures
        composer::links_of(entries).contains(x) <==> exists|i: int|
            0 <= i < entries.len() && composer::link_of(#[trigger] entries[i]) == Some(x),
    decreases entries.len(),
{
    if entries.len() > 0 {
        let w = entries.drop_last();
        lemma_links(w, x);
        if let Some(l) = composer::link_of(entries.last()) {
            lemma_placed(composer::links_of(w), l, x);
        }
        if exists|i: int| 0 <= i < w.len() && composer::link_of(#[trigger] w[i]) == Some(x) {
            let i = choose|i: int| 0 <= i < w.len() && composer::link_of(#[trigger] w[i]) == Some(x);
            assert(entries[i] == w[i]);
        }
        if exists|i: int|
            0 <= i < entries.len() && composer::link_of(#[trigger] entries[i]) == Some(x) {
            let i = choose|i: int|
                0 <= i < entries.len() && composer::link_of(#[trigger] entries[i]) == Some(x);
            if i < w.len() {
                assert(entries[i] == w[i]);
            }
        }
        assert(entries[entries.len() - 1] == entries.last());
    }
}

/// The linked modules are the entries of Composer that lead to a directory below `modules/`, all
/// of them and no others; each goes by the package that its version names.
pub proof fn every_linked_module_is_found(entries: &Vec<RepoEntry>, r: Vec<LinkedModule>, i: int)
    requires
        call_ensures(composer::linked_from, (entries,), r),
    ensures
        0 <= i < entries@.len() && entries@[i]@.kind == Some("path"@) && entries@[i]@.url is Some
            && "modules/"@.is_prefix_of(entries@[i]@.url->0) && entries@[i]@.versions.len() > 0
            ==> composer::links_view(r@).contains(
            LinkView {
                key: entries@[i]@.key,
                package: pin_of(*entries, i).0,
                url: entries@[i]@.url->0,
                version: pin_of(*entries, i).1,
            },
        ),
        forall|k: int|
            0 <= k < r@.len() ==> "modules/"@.is_prefix_of((#[trigger] r@[k]).url@),
{
    let v = composer::entries_view(entries@);
    if 0 <= i < entries@.len() {
        assert(v[i] == entries@[i]@);
        if let Some(l) = composer::link_of(v[i]) {
            lemma_links(v, l);
        }
    }
    assert forall|k: int| 0 <= k < r@.len() implies "modules/"@.is_prefix_of(
        (#[trigger] r@[k]).url@,
    ) by {
        let all = composer::links_view(r@);
        assert(all[k] == r@[k]@);
        lemma_links(v, all[k]);
        assert(all.contains(all[k]));
    }
}

/// The first pin of an entry.
pub open spec fn pin_of(entries: Vec<RepoEntry>, i: int) -> (Seq<char>, Option<Seq<char>>) {
    entries@[i]@.versions[0]
}

/// The installed version of a package is that of the first package of its name.
pub proof fn the_installed_version_is_found(
    list: &Vec<LockedPackage>,
    package: &str,
    r: Option<String>,
    k: int,
)
    requires
        call_ensures(composer::find_version, (list, package), r),
        0 <= k <= list@.len(),
        forall|i: int| 0 <= i < k ==> paths::opt((#[trigger] list@[i]).name) != Some(package@),
    ensures
        k == list@.len() ==> r is None,
        k < list@.len() && paths::opt(list@[k].name) == Some(package@) ==> paths::opt(r)
            == paths::opt(list@[k].version),
{
    lemma_version(composer::locked_view(list@), package@, k);
}

proof fn lemma_version(list: Seq<(Option<Seq<char>>, Option<Seq<char>>)>, package: Seq<char>, k: int)
    requires
        0 <= k <= list.len(),
        forall|i: int| 0 <= i < k ==> (#[trigger] list[i]).0 != Some(package),
    ensures
        k == list.len() ==> composer::version_of(list, package) is None,
        k < list.len() && list[k].0 == Some(package) ==> composer::version_of(list, package)
            == list[k].1,
    decreases list.len(),
{
    if k > 0 {
        let w = list.drop_first();
        assert(list[0].0 != Some(package));
        assert forall|i: int| 0 <= i < k - 1 implies (#[trigger] w[i]).0 != Some(package) by {
            assert(w[i] == list[i + 1]);
        }
        lemma_version(w, package, k - 1);
    }
}

/// Composer runs in the project's PHP container as its user, in the application's directory, with
/// exactly the given arguments, and without a terminal.
pub proof fn composer_runs_in_the_container(
    project_dir: &str,
    args: &Vec<String>,
    r: Vec<String>,
)
    requires
        call_ensures(module::composer, (project_dir, args), r),
    ensures
        text::texts(r@) == seq![
            "compose"@,
            "--project-directory"@,
            project_dir@,
            "exec"@,
            "-T"@,
            "-u"@,
            "www-data"@,
            "-w"@,
            "/var/www/html"@,
            "-e"@,
            "COMPOSER_HOME"@ + "="@ + "/var/www/.composer"@,
            "php"@,
            "composer"@,
        ] + text::texts(args@),
{
    assert(text::texts(r@) =~= seq![
        "compose"@,
        "--project-directory"@,
        project_dir@,
        "exec"@,
        "-T"@,
        "-u"@,
        "www-data"@,
        "-w"@,
        "/var/www/html"@,
        "-e"@,
        "COMPOSER_HOME"@ + "="@ + "/var/www/.composer"@,
        "php"@,
        "composer"@,
    ] + text::texts(args@));
}

proof fn lemma_unlinked(all: Seq<Seq<char>>, linked: Seq<LinkView>, s: Seq<char>)
    ensures
        module::unlinked(all, linked).contains(s) <==> all.contains(s) && !module::linked_at(
            linked,
            s,
        ),
    decreases all.len(),
{
    if all.len() > 0 {
        let w = all.drop_last();
        lemma_unlinked(w, linked, s);
        vstd::seq_lib::lemma_seq_contains_after_push(w, all.last(), s);
        assert(w.push(all.last()) =~= all);
        vstd::seq_lib::lemma_seq_contains_after_push(
            module::unlinked(w, linked),
            all.last(),
            s,
        );
    }
}

/// What is offered for linking are the modules that are not linked yet, all of them; a module that
/// was named is taken by its name, whether or not a slash stands at its end.
pub proof fn only_unlinked_modules_are_offered(
    available: &Vec<String>,
    linked: &Vec<LinkedModule>,
    wanted: Option<&str>,
    checkout: bool,
    r: Result<LinkTarget, String>,
    s: Seq<char>,
)
    requires
        call_ensures(module::link_target, (available, linked, wanted, checkout), r),
    ensures
        wanted is None ==> (r matches Ok(LinkTarget::Ask(v)) ==> (text::texts(v@).contains(s)
            <==> text::texts(available@).contains(s) && !module::linked_at(
            composer::links_view(linked@),
            s,
        ))),
        wanted is None && r is Err ==> !(text::texts(available@).contains(s) && !module::linked_at(
            composer::links_view(linked@),
            s,
        )),
        wanted is Some ==> (r matches Ok(t) ==> t is Chosen && t->Chosen_0@ == text::without_ends(
            wanted->0@,
            '/',
        )),
{
    lemma_unlinked(text::texts(available@), composer::links_view(linked@), s);
}

/// A module to unlink is found by its path or by its package, among those that are linked.
pub proof fn only_linked_modules_are_unlinked(
    linked: &Vec<LinkedModule>,
    wanted: &str,
    r: Result<UnlinkTarget, String>,
)
    requires
        call_ensures(module::unlink_target, (linked, Some(wanted)), r),
    ensures
        r matches Ok(t) ==> t is Chosen && composer::links_view(linked@).contains(t->Chosen_0@) && (
        t->Chosen_0@.relative() == text::without_ends(wanted@, '/') || t->Chosen_0@.package
            == text::without_ends(wanted@, '/')),
{
    lemma_first_named(composer::links_view(linked@), text::without_ends(wanted@, '/'));
}

proof fn lemma_first_named(linked: Seq<LinkView>, name: Seq<char>)
    ensures
        module::first_named(linked, name) matches Some(l) ==> linked.contains(l) && (l.relative()
            == name || l.package == name),
    decreases linked.len(),
{
    if linked.len() > 0 {
        let w = linked.drop_first();
        lemma_first_named(w, name);
        if linked[0].relative() == name || linked[0].package == name {
            assert(linked.contains(linked[0]));
        } else if let Some(l) = module::first_named(w, name) {
            let i = choose|i: int| 0 <= i < w.len() && w[i] == l;
            assert(linked[i + 1] == l);
        }
    }
}

/// Composer needs the containers of the project, and nothing else does.
pub proof fn composer_needs_the_containers(skip: bool, running: bool, r: Result<(), String>)
    requires
        call_ensures(module::require_running_stack, (skip, running), r),
    ensures
        r is Err <==> !skip && !running,
{
}

/// A module below `modules/` is mounted where its vendor and name say.
pub proof fn a_module_path_is_what_follows_its_directory(
    target: &LinkedModule,
    rest: Seq<char>,
    r: String,
)
    requires
        call_ensures(LinkedModule::relative_path, (target,), r),
        target.url@ == "modules/"@ + rest,
    ensures
        r@ == rest,
{
    let n = "modules/"@.len() as int;
    assert(target.url@.subrange(0, n) =~= "modules/"@);
    assert(target.url@.skip(n) =~= rest);
}

/// Whether a character separates the words of a package name.
pub open spec fn separates(c: char) -> bool {
    c == '.' || c == '_' || c == '-'
}

/// Neither side of a valid package name begins or ends with a separator, or has three of them in a
/// row; a name whose sides are made of lower case letters and digits alone is valid.
pub proof fn separators_stand_between_words(
    name: &str,
    a: Seq<char>,
    b: Seq<char>,
    r: Result<(), NameFault>,
    i: int,
)
    requires
        call_ensures(composer::validate_package_name, (name,), r),
        name@ == a + seq!['/'] + b,
        !a.contains('/'),
        !b.contains('/'),
    ensures
        r is Ok ==> a.len() > 0 && b.len() > 0 && !separates(a[0]) && !separates(a.last())
            && !separates(b[0]) && !separates(b.last()),
        r is Ok && 0 <= i && i + 2 < a.len() ==> !(separates(a[i]) && separates(a[i + 1])
            && separates(a[i + 2])),
        r is Ok && 0 <= i && i + 2 < b.len() ==> !(separates(b[i]) && separates(b[i + 1])
            && separates(b[i + 2])),
        a.len() > 0 && b.len() > 0 && (forall|k: int|
            0 <= k < a.len() ==> text::is_lower(#[trigger] a[k]) || text::is_digit(a[k])) && (forall|
            k: int,
        |
            0 <= k < b.len() ==> text::is_lower(#[trigger] b[k]) || text::is_digit(b[k])) ==> r
            is Ok,
        0 <= i < a.len() && text::is_upper(a[i]) ==> r == Err::<(), NameFault>(
            NameFault::Uppercase,
        ),
        a.len() == 0 ==> r == Err::<(), NameFault>(NameFault::EmptySide),
{
    lines::split_of_both(a, '/', b);
    lines::split_of_one(a, '/');
    lines::split_of_one(b, '/');
    let sides = lines::split(name@, '/');
    assert(sides =~= seq![a, b]);
    if r is Ok && 0 <= i && i + 2 < a.len() {
        assert(!(composer::is_break(a[i]) && composer::is_break(a[i + 1]) && composer::is_break(
            a[i + 2],
        )));
    }
    if r is Ok && 0 <= i && i + 2 < b.len() {
        assert(!(composer::is_break(b[i]) && composer::is_break(b[i + 1]) && composer::is_break(
            b[i + 2],
        )));
    }
    if 0 <= i < a.len() && text::is_upper(a[i]) {
        assert(composer::segment_fault(a) == Some(NameFault::Uppercase));
    }
    if a.len() > 0 && b.len() > 0 && (forall|k: int|
        0 <= k < a.len() ==> text::is_lower(#[trigger] a[k]) || text::is_digit(a[k])) && (forall|
        k: int,
    |
        0 <= k < b.len() ==> text::is_lower(#[trigger] b[k]) || text::is_digit(b[k])) {
        lemma_plain_side(a);
        lemma_plain_side(b);
    }
}

proof fn lemma_plain_side(s: Seq<char>)
    requires
        s.len() > 0,
        forall|k: int| 0 <= k < s.len() ==> text::is_lower(#[trigger] s[k]) || text::is_digit(s[k]),
    ensures
        composer::segment_fault(s) is None,
{
    assert(text::is_lower(s[0]) || text::is_digit(s[0]));
    assert(text::is_lower(s[s.len() - 1]) || text::is_digit(s[s.len() - 1]));
    assert forall|i: int| 0 <= i && i + 2 < s.len() implies !composer::is_break(#[trigger] s[i]) by {
        assert(text::is_lower(s[i]) || text::is_digit(s[i]));
    }
}

} // verus!
