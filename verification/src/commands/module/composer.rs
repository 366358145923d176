//! What the tool reads of Composer's files, and the entry it has Composer write.
use vstd::prelude::*;

use crate::edit;
use crate::json;
use crate::json::{get, get_text, items, members};
use crate::order;
use crate::paths;
use crate::text;
use crate::text::{same, starts_with};

verus! {

/// Development checkouts live here, relative to the application.
pub const MODULES_DIR: &'static str = "modules";

/// The version that a new module is pinned to: its development branch.
pub const CREATE_PIN: &'static str = "dev-main";

/// The branch that a new module starts on.
pub const CREATE_BRANCH: &'static str = "main";

// ---------------------------------------------------------------- linked modules

/// A `path` repository entry in the application's `composer.json` pointing into `modules/`.
#[derive(Debug, Clone, PartialEq, Eq)]
pub struct LinkedModule {
    /// The key by which Composer can remove the entry. For an entry of an array it is the
    /// `name` property, and an entry without one cannot be removed by Composer at all.
    pub key: Option<String>,
    /// Composer package name, e.g. `acme/widget`.
    pub package: String,
    /// Path relative to the application, e.g. `modules/acme/widget`.
    pub url: String,
    /// The pinned version, when present.
    pub version: Option<String>,
}

/// A linked module, with its strings as sequences of characters.
pub ghost struct LinkView {
    pub key: Option<Seq<char>>,
    pub package: Seq<char>,
    pub url: Seq<char>,
    pub version: Option<Seq<char>>,
}

impl View for LinkedModule {
    type V = LinkView;

    open spec fn view(&self) -> LinkView {
        LinkView {
            key: paths::opt(self.key),
            package: self.package@,
            url: self.url@,
            version: paths::opt(self.version),
        }
    }
}

impl LinkView {
    /// The `<vendor>/<name>` path under `modules/` and `vendor/`.
    pub open spec fn relative(self) -> Seq<char> {
        if "modules/"@.is_prefix_of(self.url) {
            self.url.skip("modules/"@.len() as int)
        } else {
            self.url
        }
    }
}

/// The views of a list of linked modules.
pub open spec fn links_view(v: Seq<LinkedModule>) -> Seq<LinkView> {
    v.map_values(|l: LinkedModule| l@)
}

impl LinkedModule {
    /// The `<vendor>/<name>` path under `modules/` and `vendor/`.
    pub fn relative_path(&self) -> (r: String)
        ensures
            r@ == self@.relative(),
    {
        match text::strip_prefix(self.url.as_str(), "modules/") {
            Some(t) => t,
            None => self.url.clone(),
        }
    }

    /// A copy of the module.
    pub fn copy(&self) -> (r: LinkedModule)
        ensures
            r@ == self@,
    {
        LinkedModule {
            key: copy_opt(&self.key),
            package: self.package.clone(),
            url: self.url.clone(),
            version: copy_opt(&self.version),
        }
    }
}

fn copy_opt(s: &Option<String>) -> (r: Option<String>)
    ensures
        paths::opt(r) == paths::opt(*s),
{
    match s {
        Some(t) => Some(t.clone()),
        None => None,
    }
}

/// What is read of one entry of `repositories`.
#[derive(Debug, Clone)]
pub struct RepoEntry {
    pub key: Option<String>,
    pub kind: Option<String>,
    pub url: Option<String>,
    /// The pinned packages, each with its version where that is a string.
    pub versions: Vec<(String, Option<String>)>,
}

/// An entry, with its strings as sequences of characters.
pub ghost struct EntryView {
    pub key: Option<Seq<char>>,
    pub kind: Option<Seq<char>>,
    pub url: Option<Seq<char>>,
    pub versions: Seq<(Seq<char>, Option<Seq<char>>)>,
}

/// The views of pinned packages.
pub open spec fn pins_view(v: Seq<(String, Option<String>)>) -> Seq<
    (Seq<char>, Option<Seq<char>>),
> {
    v.map_values(|p: (String, Option<String>)| (p.0@, paths::opt(p.1)))
}

impl View for RepoEntry {
    type V = EntryView;

    open spec fn view(&self) -> EntryView {
        EntryView {
            key: paths::opt(self.key),
            kind: paths::opt(self.kind),
            url: paths::opt(self.url),
            versions: pins_view(self.versions@),
        }
    }
}

/// The views of a list of entries.
pub open spec fn entries_view(v: Seq<RepoEntry>) -> Seq<EntryView> {
    v.map_values(|e: RepoEntry| e@)
}

/// The module that an entry links: it must be of the kind `path` and point into `modules/`.
/// Its package is the first one that is pinned, or else what follows `modules/`.
pub open spec fn link_of(e: EntryView) -> Option<LinkView> {
    match e.url {
        Some(url) => if e.kind == Some("path"@) && "modules/"@.is_prefix_of(url) {
            Some(
                LinkView {
                    key: e.key,
                    package: if e.versions.len() > 0 {
                        e.versions[0].0
                    } else {
                        text::without_prefixes(url, "modules/"@)
                    },
                    url,
                    version: if e.versions.len() > 0 {
                        e.versions[0].1
                    } else {
                        None
                    },
                },
            )
        } else {
            None
        },
        None => None,
    }
}

/// Adds a module to a list: ahead of the first one whose package comes after its own.
pub open spec fn placed_link(v: Seq<LinkView>, l: LinkView) -> Seq<LinkView>
    decreases v.len(),
{
    if v.len() > 0 && order::before(l.package, v.last().package) {
        placed_link(v.drop_last(), l).push(v.last())
    } else {
        v.push(l)
    }
}

/// The modules that some entries link, in the order of their packages; those with the same
/// package stay in the order of the entries.
pub open spec fn links_of(entries: Seq<EntryView>) -> Seq<LinkView>
    decreases entries.len(),
{
    if entries.len() == 0 {
        Seq::empty()
    } else {
        let before = links_of(entries.drop_last());
        match link_of(entries.last()) {
            Some(l) => placed_link(before, l),
            None => before,
        }
    }
}

fn read_link(e: &RepoEntry) -> (r: Option<LinkedModule>)
    ensures
        (match r {
            Some(l) => Some(l@),
            None => None,
        }) == link_of(e@),
{
    let is_path = match &e.kind {
        Some(k) => same(k.as_str(), "path"),
        None => false,
    };
    match &e.url {
        Some(url) => {
            if !is_path || !starts_with(url.as_str(), "modules/") {
                return None;
            }
            proof {
                reveal_strlit("modules/");
            }
            let (package, version) = if e.versions.len() > 0 {
                assert(pins_view(e.versions@)[0] == (
                    e.versions@[0].0@,
                    paths::opt(e.versions@[0].1),
                ));
                (e.versions[0].0.clone(), copy_opt(&e.versions[0].1))
            } else {
                (text::trim_start_matches(url.as_str(), "modules/"), None)
            };
            Some(LinkedModule { key: copy_opt(&e.key), package, url: url.clone(), version })
        },
        None => None,
    }
}

/// The modules that some entries link.
pub fn linked_from(entries: &Vec<RepoEntry>) -> (r: Vec<LinkedModule>)
    ensures
        links_view(r@) == links_of(entries_view(entries@)),
{
    let ghost all = entries_view(entries@);
    let mut r: Vec<LinkedModule> = Vec::new();
    let mut i: usize = 0;
    assert(links_view(r@) =~= Seq::empty());
    while i < entries.len()
        invariant
            i <= entries@.len(),
            all == entries_view(entries@),
            links_view(r@) == links_of(all.take(i as int)),
        decreases entries@.len() - i,
    {
        proof {
            assert(all.take(i + 1).drop_last() =~= all.take(i as int));
            assert(all.take(i + 1).last() == entries@[i as int]@);
        }
        if let Some(l) = read_link(&entries[i]) {
            place_link(&mut r, l);
        }
        i += 1;
    }
    assert(all.take(i as int) =~= all);
    r
}

fn place_link(r: &mut Vec<LinkedModule>, l: LinkedModule)
    ensures
        links_view(final(r)@) == placed_link(links_view(old(r)@), l@),
{
    let ghost all = links_view(r@);
    let ghost start = r@;
    let mut k: usize = r.len();
    assert(all.take(k as int) =~= all);
    assert(placed_link(all, l@) =~= placed_link(all, l@) + all.skip(k as int));
    while k > 0 && order::less(l.package.as_str(), r[k - 1].package.as_str())
        invariant
            k <= r@.len(),
            r@ == start,
            all == links_view(r@),
            placed_link(all, l@) == placed_link(all.take(k as int), l@) + all.skip(k as int),
        decreases k,
    {
        proof {
            let t = all.take(k as int);
            assert(t.last() == r@[k - 1]@);
            assert(t.drop_last() =~= all.take(k - 1));
            assert(placed_link(t, l@) + all.skip(k as int) =~= placed_link(all.take(k - 1), l@)
                + all.skip(k - 1));
        }
        k -= 1;
    }
    proof {
        let t = all.take(k as int);
        if k > 0 {
            assert(t.last() == r@[k - 1]@);
        }
        assert(placed_link(t, l@) == t.push(l@));
    }
    let ghost view = l@;
    r.insert(k, l);
    assert(links_view(r@) =~= all.take(k as int).push(view) + all.skip(k as int));
}

/// The packages that an entry pins, from the text of its `options.versions`.
pub open spec fn pins_of(entry: Seq<char>) -> Seq<(Seq<char>, Option<Seq<char>>)> {
    match json::field(entry, "options"@) {
        Some(options) => match json::field(options, "versions"@) {
            Some(versions) => match json::json_members(versions) {
                Some(ms) => ms.map_values(
                    |m: (Seq<char>, Seq<char>)| (m.0, json::json_text(m.1)),
                ),
                None => Seq::empty(),
            },
            None => Seq::empty(),
        },
        None => Seq::empty(),
    }
}

/// What is read of the text of an entry that is found under a key.
pub open spec fn entry_of(key: Option<Seq<char>>, entry: Seq<char>) -> EntryView {
    EntryView {
        key,
        kind: json::text_field(entry, "type"@),
        url: json::text_field(entry, "url"@),
        versions: pins_of(entry),
    }
}

/// The entries of `repositories`: of an object under their keys, of an array under their names.
pub open spec fn entries_of(composer: Seq<char>) -> Seq<EntryView> {
    match json::field(composer, "repositories"@) {
        Some(repositories) => match json::json_members(repositories) {
            Some(ms) => ms.map_values(|m: (Seq<char>, Seq<char>)| entry_of(Some(m.0), m.1)),
            None => match json::json_items(repositories) {
                Some(list) => list.map_values(
                    |e: Seq<char>| entry_of(json::text_field(e, "name"@), e),
                ),
                None => Seq::empty(),
            },
        },
        None => Seq::empty(),
    }
}

fn read_pins(entry: &str) -> (r: Vec<(String, Option<String>)>)
    ensures
        pins_view(r@) == pins_of(entry@),
{
    let mut r: Vec<(String, Option<String>)> = Vec::new();
    assert(pins_view(r@) =~= Seq::empty());
    let options = match get(entry, "options") {
        Some(o) => o,
        None => {
            return r;
        },
    };
    let versions = match get(options.as_str(), "versions") {
        Some(v) => v,
        None => {
            return r;
        },
    };
    let ms = match members(versions.as_str()) {
        Some(ms) => ms,
        None => {
            return r;
        },
    };
    let ghost all = json::pairs(ms@).map_values(
        |m: (Seq<char>, Seq<char>)| (m.0, json::json_text(m.1)),
    );
    let mut i: usize = 0;
    while i < ms.len()
        invariant
            i <= ms@.len(),
            all == json::pairs(ms@).map_values(
                |m: (Seq<char>, Seq<char>)| (m.0, json::json_text(m.1)),
            ),
            pins_view(r@) == all.take(i as int),
        decreases ms@.len() - i,
    {
        let pin = (ms[i].0.clone(), json::as_text(ms[i].1.as_str()));
        let ghost before = pins_view(r@);
        r.push(pin);
        assert(pins_view(r@) =~= before.push((pin.0@, paths::opt(pin.1))));
        assert(all.take(i + 1) =~= before.push(all[i as int]));
        i += 1;
    }
    assert(all.take(i as int) =~= all);
    r
}

fn read_entry(key: Option<String>, entry: &str) -> (r: RepoEntry)
    ensures
        r@ == entry_of(paths::opt(key), entry@),
{
    RepoEntry {
        key,
        kind: get_text(entry, "type"),
        url: get_text(entry, "url"),
        versions: read_pins(entry),
    }
}

fn read_entries(composer: &str) -> (r: Vec<RepoEntry>)
    ensures
        entries_view(r@) == entries_of(composer@),
{
    let mut r: Vec<RepoEntry> = Vec::new();
    assert(entries_view(r@) =~= Seq::empty());
    let repositories = match get(composer, "repositories") {
        Some(t) => t,
        None => {
            return r;
        },
    };
    if let Some(ms) = members(repositories.as_str()) {
        let ghost all = json::pairs(ms@).map_values(
            |m: (Seq<char>, Seq<char>)| entry_of(Some(m.0), m.1),
        );
        let mut i: usize = 0;
        while i < ms.len()
            invariant
                i <= ms@.len(),
                all == json::pairs(ms@).map_values(
                    |m: (Seq<char>, Seq<char>)| entry_of(Some(m.0), m.1),
                ),
                entries_view(r@) == all.take(i as int),
            decreases ms@.len() - i,
        {
            let e = read_entry(Some(ms[i].0.clone()), ms[i].1.as_str());
            let ghost before = entries_view(r@);
            r.push(e);
            assert(entries_view(r@) =~= before.push(e@));
            assert(all.take(i + 1) =~= before.push(all[i as int]));
            i += 1;
        }
        assert(all.take(i as int) =~= all);
        return r;
    }
    if let Some(list) = items(repositories.as_str()) {
        let ghost all = text::texts(list@).map_values(
            |e: Seq<char>| entry_of(json::text_field(e, "name"@), e),
        );
        let mut i: usize = 0;
        while i < list.len()
            invariant
                i <= list@.len(),
                all == text::texts(list@).map_values(
                    |e: Seq<char>| entry_of(json::text_field(e, "name"@), e),
                ),
                entries_view(r@) == all.take(i as int),
            decreases list@.len() - i,
        {
            let name = get_text(list[i].as_str(), "name");
            let e = read_entry(name, list[i].as_str());
            let ghost before = entries_view(r@);
            r.push(e);
            assert(entries_view(r@) =~= before.push(e@));
            assert(all.take(i + 1) =~= before.push(all[i as int]));
            i += 1;
        }
        assert(all.take(i as int) =~= all);
    }
    r
}

/// A file that is no JSON document.
#[derive(Debug, Clone, Copy, PartialEq, Eq)]
pub struct NotJson;

/// The `path` repositories in a `composer.json` that point into `modules/`. An entry counts by
/// its shape and not by its key, so that one written by hand is recognised too.
pub fn linked_modules(composer: &str) -> (r: Result<Vec<LinkedModule>, NotJson>)
    ensures
        r is Ok <==> json::json_valid(composer@),
        r matches Ok(v) ==> links_view(v@) == links_of(entries_of(composer@)),
{
    if !json::is_json(composer) {
        return Err(NotJson);
    }
    let entries = read_entries(composer);
    Ok(linked_from(&entries))
}

// ---------------------------------------------------------------- installed versions

/// What is read of one package in a lock file.
#[derive(Debug, Clone)]
pub struct LockedPackage {
    pub name: Option<String>,
    pub version: Option<String>,
}

/// The views of locked packages.
pub open spec fn locked_view(v: Seq<LockedPackage>) -> Seq<(Option<Seq<char>>, Option<Seq<char>>)> {
    v.map_values(|p: LockedPackage| (paths::opt(p.name), paths::opt(p.version)))
}

/// The version of the first package with this name; `None` where that has none or no package
/// has this name.
pub open spec fn version_of(
    list: Seq<(Option<Seq<char>>, Option<Seq<char>>)>,
    package: Seq<char>,
) -> Option<Seq<char>>
    decreases list.len(),
{
    if list.len() == 0 {
        None
    } else if list[0].0 == Some(package) {
        list[0].1
    } else {
        version_of(list.drop_first(), package)
    }
}

/// The version of the first package with this name.
pub fn find_version(list: &Vec<LockedPackage>, package: &str) -> (r: Option<String>)
    ensures
        paths::opt(r) == version_of(locked_view(list@), package@),
{
    let ghost all = locked_view(list@);
    let mut i: usize = 0;
    assert(all.skip(0) =~= all);
    while i < list.len()
        invariant
            i <= list@.len(),
            all == locked_view(list@),
            version_of(all, package@) == version_of(all.skip(i as int), package@),
        decreases list@.len() - i,
    {
        let ghost rest = all.skip(i as int);
        assert(rest[0] == (paths::opt(list@[i as int].name), paths::opt(list@[i as int].version)));
        let hit = match &list[i].name {
            Some(n) => same(n.as_str(), package),
            None => false,
        };
        if hit {
            return copy_opt(&list[i].version);
        }
        assert(rest.drop_first() =~= all.skip(i + 1));
        i += 1;
    }
    None
}

/// The packages in a member of a lock file, where that is an array.
pub open spec fn locked_in(lock: Seq<char>, key: Seq<char>) -> Seq<
    (Option<Seq<char>>, Option<Seq<char>>),
> {
    match json::field(lock, key) {
        Some(t) => match json::json_items(t) {
            Some(list) => list.map_values(
                |e: Seq<char>| (json::text_field(e, "name"@), json::text_field(e, "version"@)),
            ),
            None => Seq::empty(),
        },
        None => Seq::empty(),
    }
}

fn push_locked(lock: &str, key: &str, out: &mut Vec<LockedPackage>)
    ensures
        locked_view(final(out)@) == locked_view(old(out)@) + locked_in(lock@, key@),
{
    let ghost before = locked_view(out@);
    assert(before =~= before + Seq::empty());
    if let Some(t) = get(lock, key) {
        if let Some(list) = items(t.as_str()) {
            let ghost all = text::texts(list@).map_values(
                |e: Seq<char>| (json::text_field(e, "name"@), json::text_field(e, "version"@)),
            );
            let mut i: usize = 0;
            assert(before =~= before + all.take(0));
            while i < list.len()
                invariant
                    i <= list@.len(),
                    all == text::texts(list@).map_values(
                        |e: Seq<char>|
                            (json::text_field(e, "name"@), json::text_field(e, "version"@)),
                    ),
                    locked_view(out@) == before + all.take(i as int),
                decreases list@.len() - i,
            {
                let p = LockedPackage {
                    name: get_text(list[i].as_str(), "name"),
                    version: get_text(list[i].as_str(), "version"),
                };
                let ghost now = locked_view(out@);
                out.push(p);
                assert(locked_view(out@) =~= now.push((paths::opt(p.name), paths::opt(p.version))));
                assert(all.take(i + 1) =~= all.take(i as int).push(all[i as int]));
                i += 1;
            }
            assert(all.take(i as int) =~= all);
        }
    }
}

/// The version of a package that Composer has installed, from the content of `composer.lock`;
/// `lock` is `None` where there is no such file.
pub fn installed_version(lock: Option<&str>, package: &str) -> (r: Result<Option<String>, NotJson>)
    ensures
        match lock {
            None => r matches Ok(v) && v is None,
            Some(l) => {
                &&& r is Ok <==> json::json_valid(l@)
                &&& r matches Ok(v) ==> paths::opt(v) == version_of(
                    locked_in(l@, "packages"@) + locked_in(l@, "packages-dev"@),
                    package@,
                )
            },
        },
{
    match lock {
        None => Ok(None),
        Some(l) => {
            if !json::is_json(l) {
                return Err(NotJson);
            }
            let mut all: Vec<LockedPackage> = Vec::new();
            assert(locked_view(all@) =~= Seq::empty());
            push_locked(l, "packages", &mut all);
            push_locked(l, "packages-dev", &mut all);
            assert(locked_view(all@) =~= locked_in(l@, "packages"@) + locked_in(
                l@,
                "packages-dev"@,
            ));
            Ok(find_version(&all, package))
        },
    }
}

/// A module's package name: its declared name in lower case, or else its path.
pub open spec fn declared_name(composer: Option<Seq<char>>, relative: Seq<char>) -> Seq<char> {
    match composer {
        Some(c) => match json::text_field(c, "name"@) {
            Some(n) => text::lowercase(n),
            None => relative,
        },
        None => relative,
    }
}

/// The module's own declared package name, falling back to its directory path. `composer` is
/// the content of its `composer.json`, where that can be read.
pub fn package_name(composer: Option<&str>, relative: &str) -> (r: String)
    ensures
        r@ == declared_name(
            match composer {
                Some(c) => Some(c@),
                None => None,
            },
            relative@,
        ),
{
    match composer {
        Some(c) => match get_text(c, "name") {
            Some(n) => text::to_lowercase(n.as_str()),
            None => text::owned(relative),
        },
        None => text::owned(relative),
    }
}

// ---------------------------------------------------------------- the repository entry

/// The key under which a module's repository entry is written.
pub open spec fn key_of(relative: Seq<char>) -> Seq<char> {
    "repositories.dc2-"@ + edit::replaced(relative, "/"@, "-"@)
}

/// The key under which a module's repository entry is written.
pub fn repo_key(relative: &str) -> (r: String)
    ensures
        r@ == key_of(relative@),
{
    proof {
        reveal_strlit("/");
    }
    let mut r = text::owned("repositories.dc2-");
    r.append(edit::replace(relative, "/", "-").as_str());
    r
}

/// The repository entry of a module: a `path` entry that links the checkout and pins the
/// package to a version.
pub open spec fn repo_entry(relative: Seq<char>, package: Seq<char>, pin: Seq<char>) -> Seq<char> {
    let versions = json::written_object(seq![(package, json::json_quoted(pin))]);
    let options = json::written_object(seq![("symlink"@, "true"@), ("versions"@, versions)]);
    json::written_object(
        seq![
            ("options"@, options),
            ("type"@, json::json_quoted("path"@)),
            ("url"@, json::json_quoted("modules/"@ + relative)),
        ],
    )
}

fn object_of_one(key: &str, value: &str) -> (r: String)
    ensures
        r@ == json::written_object(seq![(key@, value@)]),
{
    let mut ms: Vec<(String, String)> = Vec::new();
    ms.push((text::owned(key), text::owned(value)));
    assert(json::pairs(ms@) =~= seq![(key@, value@)]);
    json::object(&ms)
}

/// The repository entry of a module, as JSON.
pub fn repo_entry_json(relative: &str, package: &str, pin: &str) -> (r: String)
    ensures
        r@ == repo_entry(relative@, package@, pin@),
{
    let versions = object_of_one(package, json::quote(pin).as_str());
    let ghost v = versions@;
    let mut inner: Vec<(String, String)> = Vec::new();
    inner.push((text::owned("symlink"), text::owned("true")));
    inner.push((text::owned("versions"), versions));
    assert(json::pairs(inner@) =~= seq![("symlink"@, "true"@), ("versions"@, v)]);
    let options = json::object(&inner);
    let mut url = text::owned("modules/");
    url.append(relative);
    let kind = json::quote("path");
    let target = json::quote(url.as_str());
    let ghost (o, k, t) = (options@, kind@, target@);
    let mut ms: Vec<(String, String)> = Vec::new();
    ms.push((text::owned("options"), options));
    ms.push((text::owned("type"), kind));
    ms.push((text::owned("url"), target));
    assert(json::pairs(ms@) =~= seq![("options"@, o), ("type"@, k), ("url"@, t)]);
    json::object(&ms)
}

/// The branch that a pinned version stands for: `2.4.x-dev` for `2.4.x`, `dev-main` for `main`.
pub open spec fn pinned_branch(pin: Seq<char>) -> Option<Seq<char>> {
    if "dev-"@.is_prefix_of(pin) {
        Some(pin.skip("dev-"@.len() as int))
    } else if "-dev"@.is_suffix_of(pin) {
        Some(pin.take(pin.len() - "-dev"@.len()))
    } else {
        None
    }
}

/// The branch that a pinned version stands for. A concrete version pins no branch.
pub fn branch_from_pin(pin: &str) -> (r: Option<String>)
    ensures
        paths::opt(r) == pinned_branch(pin@),
{
    match text::strip_prefix(pin, "dev-") {
        Some(rest) => Some(rest),
        None => text::strip_suffix(pin, "-dev"),
    }
}

/// The pin of a new module stands for the branch that it starts on.
pub proof fn new_modules_are_pinned_to_their_branch()
    ensures
        pinned_branch(CREATE_PIN@) == Some(CREATE_BRANCH@),
{
    reveal_strlit("dev-main");
    reveal_strlit("dev-");
    reveal_strlit("main");
    assert("dev-"@ =~= "dev-main"@.subrange(0, 4));
    assert("dev-main"@.skip(4) =~= "main"@);
}

// ---------------------------------------------------------------- package names

/// Why a name is no Composer package name.
#[derive(Debug, Clone, Copy, PartialEq, Eq, Structural)]
pub enum NameFault {
    OneSlash,
    EmptySide,
    Uppercase,
    Characters,
    Edges,
    SeparatorRun,
}

/// A fault in words.
pub open spec fn reason_of(f: NameFault) -> Seq<char> {
    match f {
        NameFault::OneSlash => "it must have exactly one '/'"@,
        NameFault::EmptySide => "neither side of the '/' may be empty"@,
        NameFault::Uppercase => "Composer package names are lowercase"@,
        NameFault::Characters => "only a-z, 0-9, '.', '_' and '-' are allowed"@,
        NameFault::Edges => "a segment may not start or end with '.', '_' or '-'"@,
        NameFault::SeparatorRun => "at most two separators may appear in a row"@,
    }
}

impl NameFault {
    /// The fault in words.
    pub fn reason(&self) -> (r: String)
        ensures
            r@ == reason_of(*self),
    {
        match self {
            NameFault::OneSlash => text::owned("it must have exactly one '/'"),
            NameFault::EmptySide => text::owned("neither side of the '/' may be empty"),
            NameFault::Uppercase => text::owned("Composer package names are lowercase"),
            NameFault::Characters => text::owned("only a-z, 0-9, '.', '_' and '-' are allowed"),
            NameFault::Edges => text::owned("a segment may not start or end with '.', '_' or '-'"),
            NameFault::SeparatorRun => text::owned("at most two separators may appear in a row"),
        }
    }
}

/// Whether a character separates the words of a name.
pub open spec fn is_break(c: char) -> bool {
    c == '.' || c == '_' || c == '-'
}

/// Whether a character may stand in a package name.
pub open spec fn is_name_char(c: char) -> bool {
    text::is_lower(c) || text::is_digit(c) || is_break(c)
}

/// What is wrong with one side of a package name.
pub open spec fn segment_fault(s: Seq<char>) -> Option<NameFault> {
    if s.len() == 0 {
        Some(NameFault::EmptySide)
    } else if exists|i: int| 0 <= i < s.len() && text::is_upper(#[trigger] s[i]) {
        Some(NameFault::Uppercase)
    } else if exists|i: int| 0 <= i < s.len() && !is_name_char(#[trigger] s[i]) {
        Some(NameFault::Characters)
    } else if is_break(s[0]) || is_break(s.last()) {
        Some(NameFault::Edges)
    } else if exists|i: int|
        0 <= i && i + 2 < s.len() && is_break(#[trigger] s[i]) && is_break(s[i + 1]) && is_break(
            s[i + 2],
        ) {
        Some(NameFault::SeparatorRun)
    } else {
        None
    }
}

/// What is wrong with a package name.
pub open spec fn name_fault(package: Seq<char>) -> Option<NameFault> {
    let sides = crate::lines::split(package, '/');
    if sides.len() != 2 {
        Some(NameFault::OneSlash)
    } else {
        match segment_fault(sides[0]) {
            Some(f) => Some(f),
            None => segment_fault(sides[1]),
        }
    }
}

fn breaks(c: char) -> (r: bool)
    ensures
        r == is_break(c),
{
    c == '.' || c == '_' || c == '-'
}

fn find_segment_fault(segment: &str) -> (r: Option<NameFault>)
    ensures
        r == segment_fault(segment@),
{
    let v = text::chars_of(segment);
    let n: usize = v.len();
    if n == 0 {
        return Some(NameFault::EmptySide);
    }
    let mut upper = false;
    let mut odd = false;
    let mut run = false;
    let mut i: usize = 0;
    while i < n
        invariant
            i <= n == v@.len(),
            upper == exists|k: int| 0 <= k < i && text::is_upper(#[trigger] v@[k]),
            odd == exists|k: int| 0 <= k < i && !is_name_char(#[trigger] v@[k]),
            run == exists|k: int|
                0 <= k && k < i && k + 2 < n && is_break(#[trigger] v@[k]) && is_break(v@[k + 1])
                    && is_break(v@[k + 2]),
        decreases n - i,
    {
        let c = v[i];
        if 'A' <= c && c <= 'Z' {
            assert(text::is_upper(v@[i as int]));
            upper = true;
        }
        if !(('a' <= c && c <= 'z') || ('0' <= c && c <= '9') || breaks(c)) {
            assert(!is_name_char(v@[i as int]));
            odd = true;
        }
        if n - i > 2 && breaks(c) && breaks(v[i + 1]) && breaks(v[i + 2]) {
            assert(is_break(v@[i as int]) && is_break(v@[i + 1]) && is_break(v@[i + 2]));
            run = true;
        }
        i += 1;
    }
    assert(segment@ == v@);
    if upper {
        Some(NameFault::Uppercase)
    } else if odd {
        Some(NameFault::Characters)
    } else if breaks(v[0]) || breaks(v[n - 1]) {
        Some(NameFault::Edges)
    } else if run {
        Some(NameFault::SeparatorRun)
    } else {
        None
    }
}

/// Rejects a name that Composer would reject: each side of the one slash starts and ends with
/// a letter or a digit, and at most two separators stand in a row.
pub fn validate_package_name(package: &str) -> (r: Result<(), NameFault>)
    ensures
        match r {
            Ok(_) => name_fault(package@) is None,
            Err(f) => name_fault(package@) == Some(f),
        },
{
    let sides = crate::lines::split_at_char(package, '/');
    assert(text::texts(sides@).len() == sides@.len());
    if sides.len() != 2 {
        return Err(NameFault::OneSlash);
    }
    assert(text::texts(sides@)[0] == sides@[0]@);
    assert(text::texts(sides@)[1] == sides@[1]@);
    match find_segment_fault(sides[0].as_str()) {
        Some(f) => Err(f),
        None => match find_segment_fault(sides[1].as_str()) {
            Some(f) => Err(f),
            None => Ok(()),
        },
    }
}

// ---------------------------------------------------------------- name spaces

/// The words of one side of a name.
pub open spec fn split_breaks(s: Seq<char>) -> Seq<Seq<char>>
    decreases s.len(),
{
    if s.len() == 0 {
        seq![Seq::<char>::empty()]
    } else {
        let before = split_breaks(s.drop_last());
        if is_break(s.last()) {
            before.push(Seq::empty())
        } else {
            before.drop_last().push(before.last().push(s.last()))
        }
    }
}

/// A word with its first character in upper case.
pub open spec fn capital(w: Seq<char>) -> Seq<char> {
    if w.len() == 0 {
        w
    } else {
        text::uppercase(w[0]) + w.skip(1)
    }
}

/// Words put together, each with its first character in upper case.
pub open spec fn studly(words: Seq<Seq<char>>) -> Seq<char>
    decreases words.len(),
{
    if words.len() == 0 {
        Seq::empty()
    } else {
        studly(words.drop_last()) + capital(words.last())
    }
}

/// The name space of a package: `acme/my-widget` gives `Acme\MyWidget\`.
pub open spec fn namespace_of(package: Seq<char>) -> Seq<char> {
    crate::lines::joined(
        crate::lines::filled(
            crate::lines::split(package, '/').map_values(|s: Seq<char>| studly(split_breaks(s))),
        ),
        "\\"@,
    ) + "\\"@
}

fn push_capital(word: &Vec<char>, from: usize, to: usize, out: &mut String)
    requires
        from <= to <= word@.len(),
    ensures
        final(out)@ == old(out)@ + capital(word@.subrange(from as int, to as int)),
{
    let ghost w = word@.subrange(from as int, to as int);
    if from < to {
        out.append(text::to_uppercase(word[from]).as_str());
        let rest = text::string_of(word, from + 1, to);
        assert(rest@ =~= w.skip(1));
        out.append(rest.as_str());
        assert(out@ =~= old(out)@ + capital(w));
    } else {
        assert(out@ =~= old(out)@ + capital(w));
    }
}

fn studly_of(segment: &str) -> (r: String)
    ensures
        r@ == studly(split_breaks(segment@)),
{
    let v = text::chars_of(segment);
    let n: usize = v.len();
    let mut r = String::new();
    let mut start: usize = 0;
    let mut i: usize = 0;
    let ghost mut done: Seq<Seq<char>> = Seq::empty();
    assert(v@.take(0) =~= Seq::empty());
    assert(split_breaks(v@.take(0)) =~= done.push(v@.subrange(0, 0)));
    while i < n
        invariant
            start <= i <= n == v@.len(),
            split_breaks(v@.take(i as int)) == done.push(v@.subrange(start as int, i as int)),
            r@ == studly(done),
        decreases n - i,
    {
        assert(v@.take(i + 1).drop_last() =~= v@.take(i as int));
        let ghost piece = v@.subrange(start as int, i as int);
        assert(done.push(piece).drop_last() =~= done);
        if breaks(v[i]) {
            push_capital(&v, start, i, &mut r);
            proof {
                done = done.push(piece);
            }
            start = i + 1;
            assert(v@.subrange(start as int, i + 1) =~= Seq::empty());
        } else {
            assert(v@.subrange(start as int, i + 1) =~= piece.push(v@[i as int]));
        }
        i += 1;
    }
    assert(v@.take(n as int) =~= segment@);
    let ghost piece = v@.subrange(start as int, i as int);
    assert(done.push(piece).drop_last() =~= done);
    push_capital(&v, start, n, &mut r);
    r
}

/// The name space under which a module's classes are found.
pub fn psr4_namespace(package: &str) -> (r: String)
    ensures
        r@ == namespace_of(package@),
{
    let sides = crate::lines::split_at_char(package, '/');
    let ghost all = text::texts(sides@).map_values(|s: Seq<char>| studly(split_breaks(s)));
    let mut parts: Vec<String> = Vec::new();
    let mut i: usize = 0;
    while i < sides.len()
        invariant
            i <= sides@.len(),
            all == text::texts(sides@).map_values(|s: Seq<char>| studly(split_breaks(s))),
            text::texts(parts@) == all.take(i as int),
        decreases sides@.len() - i,
    {
        let part = studly_of(sides[i].as_str());
        let ghost before = text::texts(parts@);
        parts.push(part);
        assert(text::texts(parts@) =~= before.push(part@));
        assert(all.take(i + 1) =~= before.push(all[i as int]));
        i += 1;
    }
    assert(all.take(i as int) =~= all);
    let named = crate::lines::filled_of(&parts);
    let mut r = crate::lines::join(&named, "\\");
    r.append("\\");
    r
}

/// Whether a module's `composer.json` maps a name space already.
pub open spec fn has_mapping(composer: Seq<char>) -> bool {
    match json::field(composer, "autoload"@) {
        Some(a) => match json::field(a, "psr-4"@) {
            Some(m) => json::json_members(m) matches Some(ms) && ms.len() > 0,
            None => false,
        },
        None => false,
    }
}

/// The members of `autoload`, where it is there and an object; none where it is absent.
pub open spec fn autoload_members(composer: Seq<char>) -> Option<Seq<(Seq<char>, Seq<char>)>> {
    match json::field(composer, "autoload"@) {
        Some(a) => json::json_members(a),
        None => Some(Seq::empty()),
    }
}

/// A module's `composer.json` with the name space mapped to `src/`.
pub open spec fn mapped(
    members: Seq<(Seq<char>, Seq<char>)>,
    autoload: Seq<(Seq<char>, Seq<char>)>,
    namespace: Seq<char>,
) -> Seq<char> {
    let mapping = json::written_object(seq![(namespace, json::json_quoted("src/"@))]);
    json::written_object(
        json::with_member(
            members,
            "autoload"@,
            json::written_object(json::with_member(autoload, "psr-4"@, mapping)),
        ),
    )
}

/// Why a mapping cannot be added.
#[derive(Debug, Clone, Copy, PartialEq, Eq, Structural)]
pub enum AutoloadFault {
    NotJson,
    NotAnObject,
    AutoloadNotAnObject,
}

/// Adds a mapping for `src/` where a module's `composer.json` has none. `None` where it has
/// one already, and is left as it is.
pub fn ensure_psr4_autoload(composer: &str, package: &str) -> (r: Result<
    Option<String>,
    AutoloadFault,
>)
    ensures
        !json::json_valid(composer@) ==> r == Err::<Option<String>, AutoloadFault>(
            AutoloadFault::NotJson,
        ),
        json::json_valid(composer@) && has_mapping(composer@) ==> (r matches Ok(v) && v is None),
        json::json_valid(composer@) && !has_mapping(composer@) ==> match json::json_members(
            composer@,
        ) {
            None => r == Err::<Option<String>, AutoloadFault>(AutoloadFault::NotAnObject),
            Some(ms) => match autoload_members(composer@) {
                None => r == Err::<Option<String>, AutoloadFault>(
                    AutoloadFault::AutoloadNotAnObject,
                ),
                Some(auto) => match json::json_pretty(mapped(ms, auto, namespace_of(package@))) {
                    None => r == Err::<Option<String>, AutoloadFault>(AutoloadFault::NotJson),
                    Some(t) => r matches Ok(Some(s)) && s@ == t + "\n"@,
                },
            },
        },
{
    if !json::is_json(composer) {
        return Err(AutoloadFault::NotJson);
    }
    let autoload = get(composer, "autoload");
    if let Some(a) = &autoload {
        if let Some(m) = get(a.as_str(), "psr-4") {
            if let Some(ms) = members(m.as_str()) {
                if ms.len() > 0 {
                    return Ok(None);
                }
            }
        }
    }
    let ms = match members(composer) {
        Some(ms) => ms,
        None => {
            return Err(AutoloadFault::NotAnObject);
        },
    };
    let auto: Vec<(String, String)> = match &autoload {
        Some(a) => match members(a.as_str()) {
            Some(v) => v,
            None => {
                return Err(AutoloadFault::AutoloadNotAnObject);
            },
        },
        None => Vec::new(),
    };
    assert(autoload is None ==> json::pairs(auto@) =~= Seq::empty());
    let namespace = psr4_namespace(package);
    let mapping = object_of_one(namespace.as_str(), json::quote("src/").as_str());
    let auto = json::set_member(&auto, "psr-4", mapping.as_str());
    let auto_text = json::object(&auto);
    let ms = json::set_member(&ms, "autoload", auto_text.as_str());
    let doc = json::object(&ms);
    match json::pretty(doc.as_str()) {
        Some(t) => {
            let mut s = t;
            s.append("\n");
            Ok(Some(s))
        },
        None => Err(AutoloadFault::NotJson),
    }
}

} // verus!
