//! What holds of trusting the certificates of the ingress as a whole.
use vstd::prelude::*;

use crate::commands::trust_ca;
use crate::commands::trust_ca::{Import, LinuxStore, TrustTask};
use crate::paths;
use crate::text;
use crate::ui;
use crate::ui::{Level, Message};
use crate::utils::platform::Platform;

verus! {

/// The certificate is looked for under its newest name before its old one; without either nothing
/// is done.
pub proof fn the_newest_certificate_is_trusted(
    dir: &str,
    existing: &Vec<String>,
    platform: &Platform,
    windows: bool,
    found: Option<String>,
    r: Result<(String, Vec<TrustTask>), String>,
)
    requires
        call_ensures(trust_ca::find_ca_cert, (dir, existing), found),
        call_ensures(trust_ca::execute, (dir, existing, platform, windows), r),
        dir@.len() > 0,
        dir@.last() != '/',
    ensures
        ({
            let there = text::texts(existing@);
            let newest = dir@ + "/"@ + "nginx-proxy-ca.crt"@;
            let old_one = dir@ + "/"@ + "ca.crt"@;
            &&& there.contains(newest) ==> paths::opt(found) == Some(newest)
            &&& !there.contains(newest) && there.contains(old_one) ==> paths::opt(found) == Some(
                old_one,
            )
            &&& !there.contains(newest) && !there.contains(old_one) ==> found is None
        }),
        found is None ==> r is Err,
        found is Some ==> (r is Err <==> platform is Unknown),
        r matches Ok(p) ==> p.0@ == found->0@,
{
    reveal_strlit("/");
    reveal_strlit("nginx-proxy-ca.crt");
    reveal_strlit("ca.crt");
    assert("/"@ =~= seq!['/']);
    assert("nginx-proxy-ca.crt"@[0] == 'n' && "ca.crt"@[0] == 'c');
    let newest = dir@ + "/"@ + "nginx-proxy-ca.crt"@;
    let old_one = dir@ + "/"@ + "ca.crt"@;
    let all = trust_ca::ca_files(dir@);
    assert(all =~= seq![newest, old_one]);
    reveal_with_fuel(paths::first_existing, 3);
    assert(all.drop_first() =~= seq![old_one]);
    assert(all.drop_first().drop_first() =~= Seq::<Seq<char>>::empty());
}

/// The certificate goes to the store of the system it is used on: each system has its own, and a
/// Linux inside Windows is used from both. The browsers come last, wherever they have stores of
/// their own. Nothing is done twice.
pub proof fn each_system_has_its_store(
    dir: &str,
    existing: &Vec<String>,
    platform: &Platform,
    windows: bool,
    r: Result<(String, Vec<TrustTask>), String>,
)
    requires
        call_ensures(trust_ca::execute, (dir, existing, platform, windows), r),
    ensures
        r matches Ok(p) ==> {
            let t = p.1@;
            &&& t.len() > 0
            &&& t.contains(TrustTask::Keychain) <==> platform is Macos
            &&& t.contains(TrustTask::LinuxSystem) <==> platform is NativeLinux || platform is Wsl
                || (platform is DockerDesktop && !windows)
            &&& t.contains(TrustTask::Windows) <==> platform is Windows || (platform
                is DockerDesktop && windows)
            &&& t.contains(TrustTask::WindowsFromWsl) <==> platform is Wsl
            &&& t.contains(TrustTask::Browsers) <==> !windows
            &&& !windows ==> t.last() is Browsers
            &&& forall|i: int, j: int| 0 <= i < j < t.len() ==> #[trigger] t[i] != #[trigger] t[j]
        },
{
    if let Ok(p) = r {
        let t = p.1@;
        let first = if platform is Macos {
            TrustTask::Keychain
        } else if platform is Windows || (platform is DockerDesktop && windows) {
            TrustTask::Windows
        } else {
            TrustTask::LinuxSystem
        };
        assert(t[0] == first);
        let n: int = if platform is Wsl {
            2
        } else {
            1
        };
        if platform is Wsl {
            assert(t[1] is WindowsFromWsl);
        }
        if !windows {
            assert(t[n] is Browsers);
            assert(t.len() == n + 1);
        } else {
            assert(t.len() == n);
        }
    }
}

/// The certificate that was found is what goes to the stores of macOS and of Windows, and it is
/// trusted there as a root.
pub proof fn the_certificate_becomes_a_root(ca: &str, mac: Vec<String>, win: Vec<String>)
    requires
        call_ensures(trust_ca::install_macos_trust, (ca,), mac),
        call_ensures(trust_ca::install_windows_trust, (ca,), win),
    ensures
        text::texts(mac@).last() == ca@,
        text::texts(mac@)[0] == "security"@,
        text::texts(mac@)[1] == "add-trusted-cert"@,
        text::texts(mac@).contains("trustRoot"@),
        text::texts(mac@)[text::texts(mac@).len() - 2] == "/Library/Keychains/System.keychain"@,
        text::texts(win@).last() == ca@,
        text::texts(win@).contains("-addstore"@),
        text::texts(win@)[text::texts(win@).len() - 2] == "Root"@,
        text::texts(win@)[0] == "-user"@,
{
    assert(text::texts(mac@)[4] == "trustRoot"@);
    assert(text::texts(win@)[1] == "-addstore"@);
}

/// A certificate that is there already, byte for byte, is not put there again. Otherwise it is
/// copied from where it was found to where the store keeps it, and only a copy that succeeded is
/// read by the store.
pub proof fn the_certificate_is_copied_into_the_store(
    ca: Option<&Vec<u8>>,
    anchor: Option<&Vec<u8>>,
    already: bool,
    store: &LinuxStore,
    path: &str,
    r: (Option<Vec<String>>, String),
)
    requires
        call_ensures(trust_ca::anchor_already_matches, (ca, anchor), already),
        call_ensures(trust_ca::install_linux_anchor, (store, path, already), r),
    ensures
        r.0 is None <==> ca is Some && anchor is Some && ca->0@ == anchor->0@,
        r.0 matches Some(a) ==> {
            let t = text::texts(a@);
            &&& t.len() == 6
            &&& t[0] == "sh"@ && t[1] == "-c"@
            &&& t[2] == "cp \"$1\" \"$2\" && "@ + store.update@
            &&& t[3] == "--"@
            &&& t[4] == path@
            &&& t[5] == store.anchor@
        },
{
}

/// The store of a Linux system is the one whose program is there; Debian's counts first, and each
/// program reads the place that belongs to it.
pub proof fn a_store_is_read_by_its_own_program(
    debian: bool,
    rhel: bool,
    path: &str,
    r: Result<LinuxStore, String>,
)
    requires
        call_ensures(trust_ca::install_linux_system_trust, (debian, rhel, path), r),
    ensures
        r is Err <==> !debian && !rhel,
        r matches Ok(s) ==> s.tool@.is_prefix_of(s.update@),
        debian ==> (r matches Ok(s) && s.tool@ == "update-ca-certificates"@ && s.anchor@
            == "/usr/local/share/ca-certificates/docker-control-ca.crt"@),
        !debian && rhel ==> (r matches Ok(s) && s.tool@ == "update-ca-trust"@ && s.anchor@
            == "/etc/pki/ca-trust/source/anchors/docker-control-ca.crt"@),
{
    reveal_strlit("update-ca-trust");
    reveal_strlit("update-ca-trust extract");
    assert("update-ca-trust extract"@.subrange(0, 15) =~= "update-ca-trust"@);
    assert("update-ca-certificates"@.subrange(0, "update-ca-certificates"@.len() as int)
        =~= "update-ca-certificates"@);
}

/// What is taken out of the store of a browser is what is put in anew: the same name, in the same
/// store. Only the certificate that was found is put in, as one that vouches for others.
pub proof fn an_import_replaces_the_old_certificate(
    db: &str,
    ca: &str,
    r: (Vec<String>, Vec<String>),
)
    requires
        call_ensures(trust_ca::nss_import, (db, ca), r),
    ensures
        ({
            let gone = text::texts(r.0@);
            let new = text::texts(r.1@);
            &&& gone.contains("-D"@) && new.contains("-A"@)
            &&& gone[0] == "-d"@ && new[0] == "-d"@
            &&& gone[1] == "sql:"@ + db@ && new[1] == gone[1]
            &&& gone.last() == "docker-control-ca"@
            &&& new[5] == "-n"@ && new[6] == gone.last()
            &&& new[3] == "-t"@ && new[4] == "C,,"@
            &&& new[7] == "-i"@ && new.last() == ca@
        }),
{
    assert(text::texts(r.0@)[2] == "-D"@);
    assert(text::texts(r.1@)[2] == "-A"@);
}

/// The store of Chromium counts where it is there.
pub proof fn an_existing_store_counts(
    home: &str,
    existing: &Vec<String>,
    r: Option<String>,
    none: Option<String>,
)
    requires
        call_ensures(trust_ca::chromium_nssdb_path, (Some(home), existing), r),
        call_ensures(trust_ca::chromium_nssdb_path, (None::<&str>, existing), none),
        home@.len() > 0,
        home@.last() != '/',
    ensures
        r is Some <==> text::texts(existing@).contains(home@ + "/"@ + ".pki"@ + "/"@ + "nssdb"@),
        r matches Some(p) ==> p@ == home@ + "/"@ + ".pki"@ + "/"@ + "nssdb"@,
        none is None,
{
    reveal_strlit("/");
    reveal_strlit(".pki");
    reveal_strlit("nssdb");
    assert("/"@ =~= seq!['/']);
    assert(".pki"@[0] == '.' && "nssdb"@[0] == 'n');
    let a = home@ + seq!['/'] + ".pki"@;
    assert(a.last() == 'i');
}

/// Firefox is looked for where its system keeps it: below the home directory, and on Windows below
/// that of the applications; on Linux also where the two package formats keep it.
pub proof fn firefox_is_looked_for_on_its_system(
    os: &str,
    home: Option<&str>,
    appdata: Option<&str>,
    r: Vec<String>,
)
    requires
        call_ensures(trust_ca::firefox_profile_parents, (os, home, appdata), r),
    ensures
        os@ == "windows"@ && appdata is None ==> r@.len() == 0,
        os@ == "windows"@ && appdata is Some ==> text::texts(r@) == seq![
            paths::below(appdata->0@, "Mozilla/Firefox/Profiles"@),
        ],
        os@ != "windows"@ && home is None ==> r@.len() == 0,
        os@ == "macos"@ && home is Some ==> text::texts(r@) == seq![
            paths::below(home->0@, "Library/Application Support/Firefox/Profiles"@),
        ],
        os@ == "linux"@ && home is Some ==> text::texts(r@) == seq![
            paths::below(home->0@, ".mozilla/firefox"@),
            paths::below(home->0@, ".var/app/org.mozilla.firefox/.mozilla/firefox"@),
            paths::below(home->0@, "snap/firefox/common/.mozilla/firefox"@),
        ],
{
    reveal_strlit("windows");
    reveal_strlit("macos");
    reveal_strlit("linux");
    assert("windows"@[0] == 'w' && "macos"@[0] == 'm' && "linux"@[0] == 'l');
    assert(text::texts(r@).len() == r@.len());
}

proof fn lemma_with_store(dirs: Seq<Seq<char>>, existing: Seq<Seq<char>>, s: Seq<char>)
    ensures
        trust_ca::with_store(dirs, existing).contains(s) <==> dirs.contains(s)
            && existing.contains(paths::below(s, "cert9.db"@)),
    decreases dirs.len(),
{
    if dirs.len() > 0 {
        let w = dirs.drop_last();
        lemma_with_store(w, existing, s);
        vstd::seq_lib::lemma_seq_contains_after_push(w, dirs.last(), s);
        assert(w.push(dirs.last()) =~= dirs);
        vstd::seq_lib::lemma_seq_contains_after_push(
            trust_ca::with_store(w, existing),
            dirs.last(),
            s,
        );
    }
}

/// Exactly the profiles that have a store are seen to.
pub proof fn every_profile_with_a_store_is_found(
    entries: &Vec<String>,
    existing: &Vec<String>,
    r: Vec<String>,
    s: Seq<char>,
)
    requires
        call_ensures(trust_ca::firefox_profiles_with_db, (entries, existing), r),
    ensures
        text::texts(r@).contains(s) <==> text::texts(entries@).contains(s) && text::texts(
            existing@,
        ).contains(paths::below(s, "cert9.db"@)),
{
    lemma_with_store(text::texts(entries@), text::texts(existing@), s);
}

/// The browsers are seen to where one of them has a store.
pub proof fn browsers_without_stores_need_nothing(
    chromium: &Option<String>,
    firefox: &Vec<String>,
    r: bool,
)
    requires
        call_ensures(trust_ca::has_browser_store, (chromium, firefox), r),
    ensures
        !r <==> chromium is None && firefox@.len() == 0,
{
}

proof fn lemma_failures(profiles: Seq<Seq<char>>, imports: Seq<Import>, k: int)
    requires
        imports.len() == profiles.len(),
        0 <= k < imports.len(),
    ensures
        imports[k] matches Import::Failed(s) ==> trust_ca::firefox_failures(
            profiles,
            imports,
        ).contains(
            (
                Level::Warning,
                "certutil Firefox import failed for "@ + text::shown(profiles[k])
                    + " with status "@ + s@,
            ),
        ),
        imports[k] matches Import::NotStarted(e) ==> trust_ca::firefox_failures(
            profiles,
            imports,
        ).contains(
            (
                Level::Warning,
                "Failed to run certutil for Firefox profile "@ + text::shown(profiles[k]) + ": "@
                    + e@,
            ),
        ),
    decreases profiles.len(),
{
    let p = profiles.drop_last();
    let q = imports.drop_last();
    let all = trust_ca::firefox_failures(profiles, imports);
    let rest = trust_ca::firefox_failures(p, q);
    if k < p.len() {
        lemma_failures(p, q, k);
        assert(p[k] == profiles[k] && q[k] == imports[k]);
        assert forall|x: (Level, Seq<char>)| rest.contains(x) implies all.contains(x) by {
            let i = choose|i: int| 0 <= i < rest.len() && rest[i] == x;
            assert(all[i] == x);
        }
    } else {
        if !(imports.last() is Done) {
            assert(all[rest.len() as int] == all.last());
        }
    }
}

proof fn lemma_all_done(profiles: Seq<Seq<char>>, imports: Seq<Import>)
    requires
        imports.len() == profiles.len(),
        forall|i: int| 0 <= i < imports.len() ==> (#[trigger] imports[i]) is Done,
    ensures
        trust_ca::firefox_failures(profiles, imports).len() == 0,
        trust_ca::imported(imports) == imports.len(),
    decreases profiles.len(),
{
    if profiles.len() > 0 {
        let q = imports.drop_last();
        assert forall|i: int| 0 <= i < q.len() implies (#[trigger] q[i]) is Done by {
            assert(q[i] == imports[i]);
        }
        assert(imports[imports.len() - 1] is Done);
        lemma_all_done(profiles.drop_last(), q);
    }
}

/// Every import that failed is told, with its profile; where all went well, there is no warning.
pub proof fn every_failed_import_is_told(
    chromium: &Option<Import>,
    profiles: &Vec<String>,
    imports: &Vec<Import>,
    r: Vec<Message>,
    k: int,
)
    requires
        imports@.len() == profiles@.len(),
        call_ensures(trust_ca::install_browser_trust, (chromium, profiles, imports), r),
        0 <= k < imports@.len(),
    ensures
        imports@[k] matches Import::Failed(s) ==> ui::said(r@).contains(
            (
                Level::Warning,
                "certutil Firefox import failed for "@ + text::shown(profiles@[k]@)
                    + " with status "@ + s@,
            ),
        ),
        imports@[k] matches Import::NotStarted(e) ==> ui::said(r@).contains(
            (
                Level::Warning,
                "Failed to run certutil for Firefox profile "@ + text::shown(profiles@[k]@)
                    + ": "@ + e@,
            ),
        ),
        *chromium matches Some(c) ==> r@.len() > 0 && (r@[0].level == Level::Info <==> c is Done),
        (forall|i: int| 0 <= i < imports@.len() ==> (#[trigger] imports@[i]) is Done)
            && !(*chromium is Some && !(chromium->0 is Done)) ==> forall|i: int|
            0 <= i < r@.len() ==> (#[trigger] r@[i]).level == Level::Info,
{
    let t = text::texts(profiles@);
    assert(t[k] == profiles@[k]@);
    let said = ui::said(r@);
    assert(said.len() == r@.len());
    let f = trust_ca::firefox_failures(t, imports@);
    let n: int = if *chromium is Some {
        1
    } else {
        0
    };
    lemma_failures(t, imports@, k);
    assert forall|x: (Level, Seq<char>)| f.contains(x) implies said.contains(x) by {
        let i = choose|i: int| 0 <= i < f.len() && f[i] == x;
        assert(said[n + i] == x);
    }
    if *chromium is Some {
        assert(said[0] == (r@[0].level, r@[0].text@));
    }
    if forall|i: int| 0 <= i < imports@.len() ==> (#[trigger] imports@[i]) is Done {
        lemma_all_done(t, imports@);
        assert forall|i: int| 0 <= i < r@.len() && !(*chromium is Some && !(chromium->0
            is Done)) implies (#[trigger] r@[i]).level == Level::Info by {
            assert(said[i] == (r@[i].level, r@[i].text@));
        }
    }
}

/// Whether a call succeeded is what is told of it, on Windows and from the Linux inside.
pub proof fn a_failure_on_windows_is_told(
    success: bool,
    status: &str,
    r: Result<(), String>,
    i: &Import,
    m: Message,
    resolved: Option<String>,
)
    requires
        call_ensures(trust_ca::windows_result, (success, status), r),
        call_ensures(trust_ca::install_windows_trust_from_wsl, (i,), m),
        call_ensures(trust_ca::wslpath_failed, (i,), resolved),
    ensures
        r is Ok <==> success,
        m.level == Level::Info <==> i is Done,
        m.level == Level::Warning <==> !(i is Done),
        resolved is None <==> i is Done,
{
}

} // verus!
