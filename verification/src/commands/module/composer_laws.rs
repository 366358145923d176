//! What holds of reading and writing the files of Composer, and of the reports on modules.
use vstd::prelude::*;

use crate::commands::module;
use crate::commands::module::composer;
use crate::commands::module::composer::{AutoloadFault, LinkView, LinkedModule, NotJson};
use crate::commands::module::flow;
use crate::commands::module::flow::{CreateStart, LinkStart, Unsaved};
use crate::commands::module::report;
use crate::json;
use crate::lines;
use crate::text;
use crate::ui;
use crate::ui::{Level, Message};

verus! {

// ---------------------------------------------------------------- name spaces

/// Whether a text has no separator of words in it.
pub open spec fn unbroken(s: Seq<char>) -> bool {
    forall|i: int| 0 <= i < s.len() ==> #[trigger] s[i] != '.' && s[i] != '_' && s[i] != '-'
}

proof fn lemma_unbroken(s: Seq<char>)
    requires
        unbroken(s),
    ensures
        composer::split_breaks(s) == seq![s],
    decreases s.len(),
{
    if s.len() > 0 {
        let w = s.drop_last();
        assert forall|i: int| 0 <= i < w.len() implies #[trigger] w[i] != '.' && w[i] != '_' && w[i]
            != '-' by {
            assert(w[i] == s[i]);
        }
        lemma_unbroken(w);
        assert(s[s.len() - 1] != '.');
        assert(w.push(s.last()) =~= s);
        assert(composer::split_breaks(s) =~= seq![s]);
    } else {
        assert(s =~= Seq::<char>::empty());
    }
}

proof fn lemma_broken(a: Seq<char>, c: char, b: Seq<char>)
    requires
        unbroken(b),
        c == '.' || c == '_' || c == '-',
    ensures
        composer::split_breaks(a + seq![c] + b) == composer::split_breaks(a).push(b),
    decreases b.len(),
{
    let s = a + seq![c] + b;
    if b.len() == 0 {
        assert(s.drop_last() =~= a);
        assert(b =~= Seq::<char>::empty());
    } else {
        let w = b.drop_last();
        assert forall|i: int| 0 <= i < w.len() implies #[trigger] w[i] != '.' && w[i] != '_' && w[i]
            != '-' by {
            assert(w[i] == b[i]);
        }
        lemma_broken(a, c, w);
        assert(s.drop_last() =~= a + seq![c] + w);
        assert(s.last() == b[b.len() - 1]);
        assert(w.push(b.last()) =~= b);
        assert(composer::split_breaks(s) =~= composer::split_breaks(a).push(b));
    }
}

/// The name space of a package has a part for the vendor and one for the name, each word of which
/// begins with a capital; the separators between the words are gone.
pub proof fn a_name_space_follows_its_package(
    package: &str,
    vendor: Seq<char>,
    first: Seq<char>,
    c: char,
    second: Seq<char>,
    r: String,
)
    requires
        call_ensures(composer::psr4_namespace, (package,), r),
        vendor.len() > 1,
        first.len() > 1,
        second.len() > 1,
        unbroken(vendor),
        unbroken(first),
        unbroken(second),
        !vendor.contains('/'),
        !first.contains('/'),
        !second.contains('/'),
        c == '.' || c == '_' || c == '-',
    ensures
        package@ == vendor + seq!['/'] + first ==> r@ == text::uppercase(vendor[0]) + vendor.skip(1)
            + "\\"@ + (text::uppercase(first[0]) + first.skip(1)) + "\\"@,
        package@ == vendor + seq!['/'] + (first + seq![c] + second) ==> r@ == text::uppercase(
            vendor[0],
        ) + vendor.skip(1) + "\\"@ + (text::uppercase(first[0]) + first.skip(1) + (text::uppercase(
            second[0],
        ) + second.skip(1))) + "\\"@,
{
    let a = text::uppercase(vendor[0]) + vendor.skip(1);
    let b = text::uppercase(first[0]) + first.skip(1);
    let d = text::uppercase(second[0]) + second.skip(1);
    lemma_unbroken(vendor);
    lemma_unbroken(first);
    lemma_broken(first, c, second);
    reveal_with_fuel(composer::studly, 3);
    assert(seq![vendor].drop_last() =~= Seq::<Seq<char>>::empty());
    assert(seq![first].drop_last() =~= Seq::<Seq<char>>::empty());
    assert(composer::studly(seq![vendor]) =~= a);
    assert(composer::studly(seq![first]) =~= b);
    let two = seq![first].push(second);
    assert(two.drop_last() =~= seq![first]);
    assert(composer::studly(two) =~= b + d);
    if package@ == vendor + seq!['/'] + first {
        lemma_two_parts(package@, vendor, first, a, b);
    }
    if package@ == vendor + seq!['/'] + (first + seq![c] + second) {
        let name = first + seq![c] + second;
        assert(!name.contains('/')) by {
            if name.contains('/') {
                let i = choose|i: int| 0 <= i < name.len() && name[i] == '/';
                if i < first.len() {
                    assert(first[i] == '/');
                } else if i > first.len() {
                    assert(second[i - first.len() - 1] == '/');
                }
            }
        }
        lemma_two_parts(package@, vendor, name, a, b + d);
    }
}

proof fn lemma_two_parts(p: Seq<char>, x: Seq<char>, y: Seq<char>, a: Seq<char>, b: Seq<char>)
    requires
        p == x + seq!['/'] + y,
        !x.contains('/'),
        !y.contains('/'),
        composer::studly(composer::split_breaks(x)) == a,
        composer::studly(composer::split_breaks(y)) == b,
        a.len() > 0,
        b.len() > 0,
    ensures
        composer::namespace_of(p) == a + "\\"@ + b + "\\"@,
{
    lines::split_of_both(x, '/', y);
    lines::split_of_one(x, '/');
    lines::split_of_one(y, '/');
    let parts = lines::split(p, '/').map_values(
        |s: Seq<char>| composer::studly(composer::split_breaks(s)),
    );
    assert(parts =~= seq![a, b]);
    reveal_with_fuel(lines::filled, 3);
    assert(parts.drop_last() =~= seq![a]);
    assert(parts.drop_last().drop_last() =~= Seq::<Seq<char>>::empty());
    assert(lines::filled(parts) =~= seq![a, b]);
    reveal_with_fuel(lines::joined, 3);
    assert(seq![a, b].drop_last() =~= seq![a]);
}

/// A module that maps its classes already is left as it is. What is no JSON object is refused. Any
/// other gets a mapping of its name space to its sources, and keeps every other member.
pub proof fn a_mapping_is_added_once(
    doc: &str,
    package: &str,
    space: String,
    r: Result<Option<String>, AutoloadFault>,
)
    requires
        call_ensures(composer::psr4_namespace, (package,), space),
        call_ensures(composer::ensure_psr4_autoload, (doc, package), r),
    ensures
        !json::json_valid(doc@) ==> r is Err,
        json::json_valid(doc@) && composer::has_mapping(doc@) ==> r is Ok && r->Ok_0 is None,
        r matches Ok(Some(t)) ==> {
            let ms = json::json_members(doc@);
            let mapping = "{"@ + (json::json_quoted(space@) + ":"@ + json::json_quoted("src/"@))
                + "}"@;
            &&& ms is Some
            &&& json::field(doc@, "autoload"@) is None ==> json::json_pretty(
                json::written_object(
                    ms->0.push(
                        (
                            "autoload"@,
                            "{"@ + (json::json_quoted("psr-4"@) + ":"@ + mapping) + "}"@,
                        ),
                    ),
                ),
            ) is Some && t@ == json::json_pretty(
                json::written_object(
                    ms->0.push(
                        (
                            "autoload"@,
                            "{"@ + (json::json_quoted("psr-4"@) + ":"@ + mapping) + "}"@,
                        ),
                    ),
                ),
            )->0 + "\n"@
        },
{
    if let Ok(Some(t)) = r {
        let mapping = "{"@ + (json::json_quoted(space@) + ":"@ + json::json_quoted("src/"@))
            + "}"@;
        lemma_object_of_one(space@, json::json_quoted("src/"@));
        if json::field(doc@, "autoload"@) is None {
            let none = Seq::<(Seq<char>, Seq<char>)>::empty();
            assert(json::with_member(none, "psr-4"@, mapping) =~= seq![("psr-4"@, mapping)]);
            lemma_object_of_one("psr-4"@, mapping);
            lemma_new_member(
                json::json_members(doc@)->0,
                "autoload"@,
                "{"@ + (json::json_quoted("psr-4"@) + ":"@ + mapping) + "}"@,
            );
        }
    }
}

proof fn lemma_new_member(ms: Seq<(Seq<char>, Seq<char>)>, key: Seq<char>, value: Seq<char>)
    requires
        json::member(ms, key) is None,
    ensures
        json::with_member(ms, key, value) == ms.push((key, value)),
    decreases ms.len(),
{
    if ms.len() > 0 {
        lemma_new_member(ms.drop_first(), key, value);
    }
    assert(json::with_member(ms, key, value) =~= ms.push((key, value)));
}

proof fn lemma_object_of_one(k: Seq<char>, v: Seq<char>)
    ensures
        json::written_object(seq![(k, v)]) == "{"@ + (json::json_quoted(k) + ":"@ + v) + "}"@,
{
    let parts = seq![(k, v)].map_values(|m: (Seq<char>, Seq<char>)| json::written_member(m));
    assert(parts =~= seq![json::json_quoted(k) + ":"@ + v]);
    reveal_with_fuel(lines::joined, 2);
}

// ---------------------------------------------------------------- reading

/// A package is called what it declares, in lower case, or else by its directory.
pub proof fn a_package_is_called_what_it_declares(
    doc: Option<&str>,
    relative: &str,
    r: String,
)
    requires
        call_ensures(composer::package_name, (doc, relative), r),
    ensures
        doc is None ==> r@ == relative@,
        doc matches Some(d) ==> json::text_field(d@, "name"@) is None ==> r@ == relative@,
        doc matches Some(d) ==> json::text_field(d@, "name"@) is Some ==> r@ == text::lowercase(
            json::text_field(d@, "name"@)->0,
        ),
{
}

/// Without a lock file nothing is installed, and one that is no JSON is refused.
pub proof fn nothing_is_installed_without_a_lock_file(
    lock: Option<&str>,
    package: &str,
    r: Result<Option<String>, NotJson>,
)
    requires
        call_ensures(composer::installed_version, (lock, package), r),
    ensures
        lock is None ==> r is Ok && r->Ok_0 is None,
        lock matches Some(l) ==> (r is Ok <==> json::json_valid(l@)),
{
}

/// The entry of a module is written under a key of its own, in which no slash stands.
pub proof fn a_module_has_a_key_of_its_own(
    relative: &str,
    vendor: Seq<char>,
    name: Seq<char>,
    r: String,
)
    requires
        call_ensures(composer::repo_key, (relative,), r),
        relative@ == vendor + "/"@ + name,
        !vendor.contains('/'),
        !name.contains('/'),
    ensures
        r@ == "repositories.dc2-"@ + (vendor + "-"@ + name),
{
    reveal_strlit("/");
    let p = "/"@;
    assert(p.drop_last() =~= Seq::<char>::empty());
    crate::edit::find_from_first(relative@, p, 0);
    let n = vendor.len() as int;
    assert(relative@.subrange(n, n + 1) =~= p);
    assert(text::occurs_at(relative@, p, n));
    let i = crate::edit::find_from(relative@, p, 0)->0;
    if i < n {
        assert(relative@.subrange(i, i + 1)[0] == '/');
        assert(vendor[i] == '/');
    }
    assert(relative@.take(n) =~= vendor);
    assert(relative@.skip(n + 1) =~= name);
    assert(!text::has_text(name, p)) by {
        if text::has_text(name, p) {
            let j = choose|j: int| #[trigger] text::occurs_at(name, p, j);
            assert(name.subrange(j, j + 1)[0] == '/');
            assert(name[j] == '/');
        }
    }
    crate::edit::replaced_without(name, p, "-"@);
}

// ---------------------------------------------------------------- making modules

/// A new module is called by its path, is a library unless something else was asked, and Composer
/// puts its questions only where somebody can answer.
pub proof fn a_new_module_is_called_by_its_path(
    relative: &str,
    kind: Option<&str>,
    yes: bool,
    terminal: bool,
    r: Vec<String>,
)
    requires
        call_ensures(flow::init_args, (relative, kind, yes, terminal), r),
    ensures
        ({
            let t = text::texts(r@);
            &&& t[0] == "init"@
            &&& t[1] == "--name="@ + relative@
            &&& kind is None ==> t[2] == "--type="@ + "library"@
            &&& kind matches Some(k) ==> t[2] == "--type="@ + k@
            &&& t.len() == 4 <==> yes || !terminal
            &&& t.len() == 4 ==> t[3] == "--no-interaction"@
            &&& t.len() == 3 || t.len() == 4
        }),
{
}

/// Composer works on a new module in its directory as the container sees it, with a terminal where
/// there is one.
pub proof fn a_new_module_is_made_in_its_directory(
    dir: &str,
    relative: &str,
    workdir: &str,
    args: &Vec<String>,
    tty: bool,
    place: String,
    r: Vec<String>,
)
    requires
        call_ensures(module::container_module_dir, (relative,), place),
        workdir@ == place@,
        call_ensures(module::composer_init, (dir, workdir, args, tty), r),
    ensures
        place@ == "/var/www/html/modules/"@ + relative@,
        text::texts(r@) == seq!["compose"@, "--project-directory"@, dir@, "exec"@] + (if tty {
            Seq::empty()
        } else {
            seq!["-T"@]
        }) + seq![
            "-u"@,
            "www-data"@,
            "-w"@,
            "/var/www/html/modules/"@ + relative@,
            "-e"@,
            "COMPOSER_HOME"@ + "="@ + "/var/www/.composer"@,
            "php"@,
            "composer"@,
        ] + text::texts(args@),
{
    assert(text::texts(r@) =~= seq!["compose"@, "--project-directory"@, dir@, "exec"@] + (if tty {
        Seq::empty()
    } else {
        seq!["-T"@]
    }) + seq![
        "-u"@,
        "www-data"@,
        "-w"@,
        "/var/www/html/modules/"@ + relative@,
        "-e"@,
        "COMPOSER_HOME"@ + "="@ + "/var/www/.composer"@,
        "php"@,
        "composer"@,
    ] + text::texts(args@));
}

/// A module is linked or made only where nothing stands in the way, and then under the path that
/// was asked for; everything else is refused, but for what is linked already.
pub proof fn only_a_clear_start_goes_on(
    link: &LinkStart,
    create: &CreateStart,
    relative: &str,
    vendor: &str,
    dev: &str,
    r: Result<Option<String>, String>,
    s: Result<String, String>,
)
    requires
        call_ensures(report::link_outcome, (link, vendor, dev), r),
        call_ensures(report::create_outcome, (create, relative, vendor, dev), s),
    ensures
        link is Proceed <==> r is Ok && r->Ok_0 is None,
        link is AlreadyLinked <==> r is Ok && r->Ok_0 is Some,
        link is BothExist || link is NotARepository <==> r is Err,
        s is Ok <==> create is Proceed,
        create matches CreateStart::Proceed(p) ==> s->Ok_0@ == p@,
{
}

/// The command needs an application, and unlinking something that is linked.
pub proof fn the_command_needs_an_application(
    htdocs: &str,
    there: bool,
    linked: &Vec<LinkedModule>,
    r: Result<(), String>,
    s: Result<(), String>,
)
    requires
        call_ensures(module::execute, (htdocs, there), r),
        call_ensures(report::require_linked, (linked,), s),
    ensures
        r is Ok <==> there,
        s is Ok <==> linked@.len() > 0,
{
}

proof fn lemma_first_package(linked: Seq<LinkView>, name: Seq<char>)
    ensures
        module::first_package(linked, name) matches Some(l) ==> linked.contains(l) && l.package
            == name,
        module::first_package(linked, name) is None ==> forall|i: int|
            0 <= i < linked.len() ==> (#[trigger] linked[i]).package != name,
    decreases linked.len(),
{
    if linked.len() > 0 {
        let w = linked.drop_first();
        lemma_first_package(w, name);
        if linked[0].package == name {
            assert(linked.contains(linked[0]));
        } else {
            match module::first_package(w, name) {
                Some(l) => {
                    let i = choose|i: int| 0 <= i < w.len() && w[i] == l;
                    assert(linked[i + 1] == l);
                },
                None => {
                    assert forall|i: int| 0 <= i < linked.len() implies (#[trigger] linked[i]).package
                        != name by {
                        if i > 0 {
                            assert(w[i - 1] == linked[i]);
                        }
                    }
                },
            }
        }
    }
}

/// A module that was picked is a linked one, under the name that was picked.
pub proof fn a_picked_module_is_linked(
    linked: &Vec<LinkedModule>,
    name: &str,
    r: Result<LinkedModule, String>,
)
    requires
        call_ensures(module::picked_module, (linked, name), r),
    ensures
        r matches Ok(l) ==> composer::links_view(linked@).contains(l@) && l@.package == name@,
        r is Err ==> forall|i: int|
            0 <= i < composer::links_view(linked@).len() ==> (#[trigger] composer::links_view(
                linked@,
            )[i]).package != name@,
{
    lemma_first_package(composer::links_view(linked@), name@);
}

/// Unlinking takes the module's own entry out before the package is installed from its source.
pub proof fn the_own_entry_is_taken_out(
    target: &LinkedModule,
    r: Result<(Vec<String>, Vec<String>), String>,
)
    requires
        call_ensures(flow::unlink_inner, (target,), r),
    ensures
        r is Ok <==> target@.key is Some,
        r matches Ok(p) ==> {
            &&& text::texts(p.0@) == seq!["config"@, "--unset"@, "repositories."@ + target@.key->0]
            &&& text::texts(p.1@) == seq!["update"@, target@.package, "--prefer-source"@]
        },
{
}

// ---------------------------------------------------------------- what is told

/// Work that exists nowhere else is told before it is deleted, and only such work.
pub proof fn unsaved_work_is_told(package: &str, u: Unsaved, r: Vec<Message>)
    requires
        call_ensures(flow::warn_unsaved, (package, u), r),
    ensures
        u.dirty ==> ui::said(r@).contains(
            (Level::Warning, package@ + " has uncommitted changes."@),
        ),
        u.unpushed > 0 ==> ui::said(r@).contains(
            (
                Level::Warning,
                package@ + " has "@ + crate::number::decimal(u.unpushed as nat)
                    + " commit(s) that exist on no remote."@,
            ),
        ),
        !u.dirty && u.unpushed == 0 ==> r@.len() == 0,
{
    let said = ui::said(r@);
    assert(said.len() == r@.len());
    let n: int = if u.dirty {
        1
    } else {
        0
    };
    if u.dirty {
        assert(said[0] == (Level::Warning, package@ + " has uncommitted changes."@));
    }
    if u.unpushed > 0 {
        assert(said[n] == (
            Level::Warning,
            package@ + " has "@ + crate::number::decimal(u.unpushed as nat)
                + " commit(s) that exist on no remote."@,
        ));
    }
}

/// A module is listed as linked or not, with its version and its branch.
pub proof fn a_module_is_listed_with_its_state(
    name: &str,
    version: &str,
    branch: &str,
    linked: String,
    vendor: String,
)
    requires
        call_ensures(flow::list_row, (name, true, Some(version), branch), linked),
        call_ensures(flow::list_row, (name, false, Some(version), branch), vendor),
    ensures
        ("  "@ + "✓"@ + " "@ + name@).is_prefix_of(linked@),
        ("  "@ + "○"@ + " "@ + name@).is_prefix_of(vendor@),
        branch@.is_suffix_of(linked@),
        branch@.is_suffix_of(vendor@),
{
    let a = "  "@ + "✓"@ + " "@ + name@;
    let b = "  "@ + "○"@ + " "@ + name@;
    lemma_padded(name@, 34);
    assert(linked@.subrange(0, a.len() as int) =~= a);
    assert(vendor@.subrange(0, b.len() as int) =~= b);
    assert(linked@.subrange(linked@.len() - branch@.len(), linked@.len() as int) =~= branch@);
    assert(vendor@.subrange(vendor@.len() - branch@.len(), vendor@.len() as int) =~= branch@);
}

proof fn lemma_padded(s: Seq<char>, n: nat)
    ensures
        s.is_prefix_of(flow::padded(s, n)),
        flow::padded(s, n).len() >= s.len(),
{
    let p = flow::padded(s, n);
    assert(p.subrange(0, s.len() as int) =~= s);
}

/// A checkout that is on no branch is shown as such, and one of which nothing is known too.
pub proof fn a_branch_is_shown_by_its_name(branch: Option<&str>, r: String)
    requires
        call_ensures(flow::current_branch, (branch,), r),
    ensures
        branch is None ==> r@ == "-"@,
        branch matches Some(b) ==> b@ == "HEAD"@ ==> r@ == "detached"@,
        branch matches Some(b) ==> b@ != "HEAD"@ ==> r@ == b@,
{
}

/// What was kept of an unlinked module is told.
pub proof fn a_kept_checkout_is_told(
    package: &str,
    relative: &str,
    there: bool,
    r: Vec<Message>,
)
    requires
        call_ensures(report::unlink_report, (package, relative, there), r),
    ensures
        r@.len() > 0,
        r@[0].level == Level::Success,
        there <==> r@.len() == 3,
        there ==> ui::said(r@).contains(
            (
                Level::Info,
                "  development checkout kept at htdocs/modules/"@ + relative@
                    + " (remove it with --purge)"@,
            ),
        ),
{
    let said = ui::said(r@);
    assert(said.len() == r@.len());
    assert(said[0] == (r@[0].level, r@[0].text@));
    if there {
        assert(said[1] == (
            Level::Info,
            "  development checkout kept at htdocs/modules/"@ + relative@
                + " (remove it with --purge)"@,
        ));
    }
}

} // verus!
