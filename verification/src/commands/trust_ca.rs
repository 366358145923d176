//! Having the system and the browsers trust the certificates of the ingress.
use vstd::prelude::*;

use crate::docker;
use crate::number;
use crate::paths;
use crate::text;
use crate::text::{is_listed, push_text, same};
use crate::ui;
use crate::ui::{Level, Message};
use crate::utils::platform::Platform;

verus! {

/// The name of the certificate in the stores of the browsers.
pub const NSS_NICKNAME: &'static str = "docker-control-ca";

/// Where Debian keeps certificates.
pub const LINUX_DEBIAN_ANCHOR: &'static str =
    "/usr/local/share/ca-certificates/docker-control-ca.crt";

/// Where Red Hat keeps certificates.
pub const LINUX_RHEL_ANCHOR: &'static str =
    "/etc/pki/ca-trust/source/anchors/docker-control-ca.crt";

// ---------------------------------------------------------------- the certificate

/// The files that may hold the certificate, the newest name first.
pub open spec fn ca_files(tls_dir: Seq<char>) -> Seq<Seq<char>> {
    seq![paths::below(tls_dir, "nginx-proxy-ca.crt"@), paths::below(tls_dir, "ca.crt"@)]
}

/// The files that may hold the certificate.
pub fn ca_candidates(tls_dir: &str) -> (r: Vec<String>)
    ensures
        text::texts(r@) == ca_files(tls_dir@),
{
    let mut r = text::no_texts();
    push_text(&mut r, paths::join(tls_dir, "nginx-proxy-ca.crt").as_str());
    push_text(&mut r, paths::join(tls_dir, "ca.crt").as_str());
    assert(text::texts(r@) =~= ca_files(tls_dir@));
    r
}

/// The certificate of the ingress, where there is one.
pub fn find_ca_cert(tls_dir: &str, existing: &Vec<String>) -> (r: Option<String>)
    ensures
        paths::opt(r) == paths::first_existing(ca_files(tls_dir@), text::texts(existing@)),
{
    let all = ca_candidates(tls_dir);
    paths::find_existing(&all, existing)
}

// ---------------------------------------------------------------- what is done

/// One thing that is done.
#[derive(Debug, Clone, Copy, PartialEq, Eq, Structural)]
pub enum TrustTask {
    /// The certificate goes to the keychain of macOS.
    Keychain,
    /// It goes to the store of the Linux system.
    LinuxSystem,
    /// It goes to the store of the Windows user.
    Windows,
    /// It goes to the store of the Windows user from the Linux inside; a failure is told.
    WindowsFromWsl,
    /// It goes to the browsers that have stores of their own.
    Browsers,
}

/// What is done on a platform. Docker Desktop runs on Windows and on Linux.
pub open spec fn tasks_on(platform: Platform, windows_host: bool) -> Option<Seq<TrustTask>> {
    let browsers = if windows_host {
        Seq::empty()
    } else {
        seq![TrustTask::Browsers]
    };
    match platform {
        Platform::Macos => Some(seq![TrustTask::Keychain] + browsers),
        Platform::DockerDesktop => if windows_host {
            Some(seq![TrustTask::Windows] + browsers)
        } else {
            Some(seq![TrustTask::LinuxSystem] + browsers)
        },
        Platform::NativeLinux(_) => Some(seq![TrustTask::LinuxSystem] + browsers),
        Platform::Wsl => Some(
            seq![TrustTask::LinuxSystem, TrustTask::WindowsFromWsl] + browsers,
        ),
        Platform::Windows => Some(seq![TrustTask::Windows] + browsers),
        Platform::Unknown => None,
    }
}

/// What is done with the certificate: there has to be one, and the platform has to be known.
pub fn execute(
    tls_dir: &str,
    existing: &Vec<String>,
    platform: &Platform,
    windows_host: bool,
) -> (r: Result<(String, Vec<TrustTask>), String>)
    ensures
        match paths::first_existing(ca_files(tls_dir@), text::texts(existing@)) {
            None => r matches Err(e) && e@ == "No CA certificate found in "@ + text::shown(
                tls_dir@,
            )
                + ". Run `docker-control start-ingress` first so the proxy companion can generate one."@,
            Some(ca) => match tasks_on(*platform, windows_host) {
                None => r matches Err(e) && e@
                    == "Unsupported platform for CA trust installation."@,
                Some(t) => r matches Ok(p) && p.0@ == ca && p.1@ == t,
            },
        },
{
    let ca = match find_ca_cert(tls_dir, existing) {
        Some(c) => c,
        None => {
            let mut e = text::owned("No CA certificate found in ");
            e.append(text::quoted(tls_dir).as_str());
            e.append(
                ". Run `docker-control start-ingress` first so the proxy companion can generate one.",
            );
            return Err(e);
        },
    };
    let mut t: Vec<TrustTask> = Vec::new();
    match platform {
        Platform::Macos => {
            t.push(TrustTask::Keychain);
        },
        Platform::DockerDesktop => {
            if windows_host {
                t.push(TrustTask::Windows);
            } else {
                t.push(TrustTask::LinuxSystem);
            }
        },
        Platform::NativeLinux(_) => {
            t.push(TrustTask::LinuxSystem);
        },
        Platform::Wsl => {
            t.push(TrustTask::LinuxSystem);
            t.push(TrustTask::WindowsFromWsl);
        },
        Platform::Windows => {
            t.push(TrustTask::Windows);
        },
        Platform::Unknown => {
            return Err(text::owned("Unsupported platform for CA trust installation."));
        },
    }
    if !windows_host {
        t.push(TrustTask::Browsers);
    }
    assert(t@ =~= tasks_on(*platform, windows_host)->0);
    Ok((ca, t))
}

/// What is told once everything was done.
pub const TRUSTED: &'static str =
    "CA certificate trusted. Restart your browser for the change to take effect.";

/// What is told, where details are wanted, if no browser has a store of its own.
pub const NO_BROWSER_STORE: &'static str =
    "No Chrome/Chromium or Firefox NSS databases found, skipping browser trust import.";

/// What is told of the certificate that was found.
pub fn found(ca_path: &str) -> (r: String)
    ensures
        r@ == "Found CA certificate at "@ + text::shown(ca_path@),
{
    let mut m = text::owned("Found CA certificate at ");
    m.append(text::quoted(ca_path).as_str());
    m
}

/// What is told before a thing is done, where anything is.
pub fn announcement(task: TrustTask) -> (r: Option<String>)
    ensures
        paths::opt(r) == (match task {
            TrustTask::Keychain => Some(
                "Installing CA into the System keychain (may prompt for your sudo password)..."@,
            ),
            TrustTask::Windows => Some("Installing CA into the current user's Root store..."@),
            _ => None,
        }),
{
    match task {
        TrustTask::Keychain => Some(
            text::owned(
                "Installing CA into the System keychain (may prompt for your sudo password)...",
            ),
        ),
        TrustTask::Windows => Some(
            text::owned("Installing CA into the current user's Root store..."),
        ),
        _ => None,
    }
}

/// The arguments of `sudo` that put the certificate into the keychain of macOS.
pub fn install_macos_trust(ca_path: &str) -> (r: Vec<String>)
    ensures
        text::texts(r@) == seq![
            "security"@,
            "add-trusted-cert"@,
            "-d"@,
            "-r"@,
            "trustRoot"@,
            "-k"@,
            "/Library/Keychains/System.keychain"@,
            ca_path@,
        ],
{
    let mut r = text::no_texts();
    push_text(&mut r, "security");
    push_text(&mut r, "add-trusted-cert");
    push_text(&mut r, "-d");
    push_text(&mut r, "-r");
    push_text(&mut r, "trustRoot");
    push_text(&mut r, "-k");
    push_text(&mut r, "/Library/Keychains/System.keychain");
    push_text(&mut r, ca_path);
    assert(text::texts(r@) =~= seq![
        "security"@,
        "add-trusted-cert"@,
        "-d"@,
        "-r"@,
        "trustRoot"@,
        "-k"@,
        "/Library/Keychains/System.keychain"@,
        ca_path@,
    ]);
    r
}

// ---------------------------------------------------------------- Linux

/// Whether the certificate is there already, byte for byte, where both files can be read.
pub fn anchor_already_matches(ca: Option<&Vec<u8>>, anchor: Option<&Vec<u8>>) -> (r: bool)
    ensures
        r == (ca matches Some(c) && (anchor matches Some(a) && c@ == a@)),
{
    match (ca, anchor) {
        (Some(c), Some(a)) => {
            if c.len() != a.len() {
                return false;
            }
            let mut i: usize = 0;
            while i < c.len()
                invariant
                    i <= c@.len() == a@.len(),
                    ca == Some(c),
                    anchor == Some(a),
                    forall|k: int| 0 <= k < i ==> c@[k] == a@[k],
                decreases c@.len() - i,
            {
                if c[i] != a[i] {
                    return false;
                }
                i += 1;
            }
            assert(c@ =~= a@);
            true
        },
        _ => false,
    }
}

/// How the store of a Linux system is brought up to date.
#[derive(Debug, Clone, PartialEq, Eq)]
pub struct LinuxStore {
    pub tool: String,
    /// The call that reads the certificates anew.
    pub update: String,
    /// Where the certificate goes.
    pub anchor: String,
}

/// How the store of a Linux system is brought up to date, by the programs that there are.
pub fn install_linux_system_trust(debian: bool, rhel: bool, ca_path: &str) -> (r: Result<
    LinuxStore,
    String,
>)
    ensures
        debian ==> (r matches Ok(s) && s.tool@ == "update-ca-certificates"@ && s.update@
            == "update-ca-certificates"@ && s.anchor@ == LINUX_DEBIAN_ANCHOR@),
        !debian && rhel ==> (r matches Ok(s) && s.tool@ == "update-ca-trust"@ && s.update@
            == "update-ca-trust extract"@ && s.anchor@ == LINUX_RHEL_ANCHOR@),
        !debian && !rhel ==> (r matches Err(e) && e@
            == "No supported system CA trust tool found (update-ca-certificates / update-ca-trust). Import "@
            + text::shown(ca_path@)
            + " into your distribution's trust store manually."@),
{
    if debian {
        Ok(
            LinuxStore {
                tool: text::owned("update-ca-certificates"),
                update: text::owned("update-ca-certificates"),
                anchor: text::owned(LINUX_DEBIAN_ANCHOR),
            },
        )
    } else if rhel {
        Ok(
            LinuxStore {
                tool: text::owned("update-ca-trust"),
                update: text::owned("update-ca-trust extract"),
                anchor: text::owned(LINUX_RHEL_ANCHOR),
            },
        )
    } else {
        let mut e = text::owned(
            "No supported system CA trust tool found (update-ca-certificates / update-ca-trust). Import ",
        );
        e.append(text::quoted(ca_path).as_str());
        e.append(" into your distribution's trust store manually.");
        Err(e)
    }
}

/// The arguments of `sudo` that put the certificate in its place and have it read; the paths are
/// handed over apart from the script, so that nothing in them is read as part of it. `None` where
/// the certificate is there already. With what the user is told.
pub fn install_linux_anchor(store: &LinuxStore, ca_path: &str, already: bool) -> (r: (
    Option<Vec<String>>,
    String,
))
    ensures
        already ==> r.0 is None && r.1@ == "CA already installed at "@ + store.anchor@ + " via "@
            + store.tool@ + ", skipping."@,
        !already ==> (r.0 matches Some(a) && text::texts(a@) == seq![
            "sh"@,
            "-c"@,
            "cp \"$1\" \"$2\" && "@ + store.update@,
            "--"@,
            ca_path@,
            store.anchor@,
        ]) && r.1@ == "Installing CA via "@ + store.tool@
            + " (may prompt for your sudo password)..."@,
{
    if already {
        let mut m = text::owned("CA already installed at ");
        m.append(store.anchor.as_str());
        m.append(" via ");
        m.append(store.tool.as_str());
        m.append(", skipping.");
        return (None, m);
    }
    let mut m = text::owned("Installing CA via ");
    m.append(store.tool.as_str());
    m.append(" (may prompt for your sudo password)...");
    let mut script = text::owned("cp \"$1\" \"$2\" && ");
    script.append(store.update.as_str());
    let mut a = text::no_texts();
    push_text(&mut a, "sh");
    push_text(&mut a, "-c");
    push_text(&mut a, script.as_str());
    push_text(&mut a, "--");
    push_text(&mut a, ca_path);
    push_text(&mut a, store.anchor.as_str());
    assert(text::texts(a@) =~= seq![
        "sh"@,
        "-c"@,
        "cp \"$1\" \"$2\" && "@ + store.update@,
        "--"@,
        ca_path@,
        store.anchor@,
    ]);
    (Some(a), m)
}

// ---------------------------------------------------------------- browsers

/// The arguments of `certutil` that take an old certificate out of a store, whose failure does not
/// matter, and those that put the new one in.
pub fn nss_import(db: &str, ca_path: &str) -> (r: (Vec<String>, Vec<String>))
    ensures
        text::texts(r.0@) == seq!["-d"@, "sql:"@ + db@, "-D"@, "-n"@, NSS_NICKNAME@],
        text::texts(r.1@) == seq![
            "-d"@,
            "sql:"@ + db@,
            "-A"@,
            "-t"@,
            "C,,"@,
            "-n"@,
            NSS_NICKNAME@,
            "-i"@,
            ca_path@,
        ],
{
    let mut store = text::owned("sql:");
    store.append(db);
    let mut a = text::no_texts();
    push_text(&mut a, "-d");
    push_text(&mut a, store.as_str());
    push_text(&mut a, "-D");
    push_text(&mut a, "-n");
    push_text(&mut a, NSS_NICKNAME);
    assert(text::texts(a@) =~= seq!["-d"@, "sql:"@ + db@, "-D"@, "-n"@, NSS_NICKNAME@]);
    let mut b = text::no_texts();
    push_text(&mut b, "-d");
    push_text(&mut b, store.as_str());
    push_text(&mut b, "-A");
    push_text(&mut b, "-t");
    push_text(&mut b, "C,,");
    push_text(&mut b, "-n");
    push_text(&mut b, NSS_NICKNAME);
    push_text(&mut b, "-i");
    push_text(&mut b, ca_path);
    assert(text::texts(b@) =~= seq![
        "-d"@,
        "sql:"@ + db@,
        "-A"@,
        "-t"@,
        "C,,"@,
        "-n"@,
        NSS_NICKNAME@,
        "-i"@,
        ca_path@,
    ]);
    (a, b)
}

/// Where Chromium has its store, below the home directory.
pub open spec fn chromium_store(home: Seq<char>) -> Seq<char> {
    paths::below(paths::below(home, ".pki"@), "nssdb"@)
}

/// The store of Chromium, where it is there.
pub fn chromium_nssdb_path(home: Option<&str>, existing: &Vec<String>) -> (r: Option<String>)
    ensures
        paths::opt(r) == (match home {
            Some(h) => if text::texts(existing@).contains(chromium_store(h@)) {
                Some(chromium_store(h@))
            } else {
                None
            },
            None => None,
        }),
{
    match home {
        Some(h) => {
            let p = paths::join(paths::join(h, ".pki").as_str(), "nssdb");
            if is_listed(existing, p.as_str()) {
                Some(p)
            } else {
                None
            }
        },
        None => None,
    }
}

/// Where Firefox may have its profiles on a system: as it is installed there by itself, and on
/// Linux also as a Flatpak or a Snap.
pub open spec fn firefox_places(
    os: Seq<char>,
    home: Option<Seq<char>>,
    appdata: Option<Seq<char>>,
) -> Seq<Seq<char>> {
    if os == "macos"@ {
        match home {
            Some(h) => seq![paths::below(h, "Library/Application Support/Firefox/Profiles"@)],
            None => Seq::empty(),
        }
    } else if os == "windows"@ {
        match appdata {
            Some(a) => seq![paths::below(a, "Mozilla/Firefox/Profiles"@)],
            None => Seq::empty(),
        }
    } else {
        match home {
            Some(h) => seq![
                paths::below(h, ".mozilla/firefox"@),
                paths::below(h, ".var/app/org.mozilla.firefox/.mozilla/firefox"@),
                paths::below(h, "snap/firefox/common/.mozilla/firefox"@),
            ],
            None => Seq::empty(),
        }
    }
}

/// Where Firefox may have its profiles on a system.
pub fn firefox_profile_parents(os: &str, home: Option<&str>, appdata: Option<&str>) -> (r: Vec<
    String,
>)
    ensures
        text::texts(r@) == firefox_places(
            os@,
            docker::opt_str(home),
            docker::opt_str(appdata),
        ),
{
    let mut r = text::no_texts();
    if same(os, "macos") {
        if let Some(h) = home {
            push_text(
                &mut r,
                paths::join(h, "Library/Application Support/Firefox/Profiles").as_str(),
            );
        }
    } else if same(os, "windows") {
        if let Some(a) = appdata {
            push_text(&mut r, paths::join(a, "Mozilla/Firefox/Profiles").as_str());
        }
    } else {
        if let Some(h) = home {
            push_text(&mut r, paths::join(h, ".mozilla/firefox").as_str());
            push_text(
                &mut r,
                paths::join(h, ".var/app/org.mozilla.firefox/.mozilla/firefox").as_str(),
            );
            push_text(&mut r, paths::join(h, "snap/firefox/common/.mozilla/firefox").as_str());
        }
    }
    assert(text::texts(r@) =~= firefox_places(
        os@,
        docker::opt_str(home),
        docker::opt_str(appdata),
    ));
    r
}

/// The profiles that have a store.
pub open spec fn with_store(dirs: Seq<Seq<char>>, existing: Seq<Seq<char>>) -> Seq<Seq<char>>
    decreases dirs.len(),
{
    if dirs.len() == 0 {
        Seq::empty()
    } else {
        let rest = with_store(dirs.drop_last(), existing);
        if existing.contains(paths::below(dirs.last(), "cert9.db"@)) {
            rest.push(dirs.last())
        } else {
            rest
        }
    }
}

/// The profiles of Firefox that have a store, among the entries of the directories where they may
/// be.
pub fn firefox_profiles_with_db(entries: &Vec<String>, existing: &Vec<String>) -> (r: Vec<String>)
    ensures
        text::texts(r@) == with_store(text::texts(entries@), text::texts(existing@)),
{
    let ghost all = text::texts(entries@);
    let ghost there = text::texts(existing@);
    let mut r = text::no_texts();
    let mut i: usize = 0;
    assert(all.take(0) =~= Seq::empty());
    while i < entries.len()
        invariant
            i <= entries@.len(),
            all == text::texts(entries@),
            there == text::texts(existing@),
            text::texts(r@) == with_store(all.take(i as int), there),
        decreases entries@.len() - i,
    {
        assert(all.take(i + 1).drop_last() =~= all.take(i as int));
        assert(all.take(i + 1).last() == entries@[i as int]@);
        let db = paths::join(entries[i].as_str(), "cert9.db");
        if is_listed(existing, db.as_str()) {
            push_text(&mut r, entries[i].as_str());
        }
        i += 1;
    }
    assert(all.take(i as int) =~= all);
    r
}

/// Whether the browsers are seen to at all, so that `certutil` is needed.
pub fn has_browser_store(chromium: &Option<String>, firefox: &Vec<String>) -> (r: bool)
    ensures
        r == (chromium is Some || firefox@.len() > 0),
{
    chromium.is_some() || firefox.len() > 0
}

/// What became of an import into a store.
#[derive(Debug, Clone, PartialEq, Eq)]
pub enum Import {
    Done,
    Failed(String),
    NotStarted(String),
}

/// What is told of the import into the store of Chromium.
pub open spec fn chromium_told(i: Import) -> (Level, Seq<char>) {
    match i {
        Import::Done => (
            Level::Info,
            "CA also imported into the NSS trust store (Chrome/Chromium)."@,
        ),
        Import::Failed(s) => (
            Level::Warning,
            "certutil NSS import failed with status "@ + s@,
        ),
        Import::NotStarted(e) => (
            Level::Warning,
            "Failed to run certutil for NSS import: "@ + e@,
        ),
    }
}

/// What is told of the imports into profiles of Firefox that failed.
pub open spec fn firefox_failures(profiles: Seq<Seq<char>>, imports: Seq<Import>) -> Seq<
    (Level, Seq<char>),
>
    decreases profiles.len(),
{
    if profiles.len() == 0 || imports.len() != profiles.len() {
        Seq::empty()
    } else {
        let rest = firefox_failures(profiles.drop_last(), imports.drop_last());
        match imports.last() {
            Import::Done => rest,
            Import::Failed(s) => rest.push(
                (
                    Level::Warning,
                    "certutil Firefox import failed for "@ + text::shown(profiles.last())
                        + " with status "@ + s@,
                ),
            ),
            Import::NotStarted(e) => rest.push(
                (
                    Level::Warning,
                    "Failed to run certutil for Firefox profile "@ + text::shown(
                        profiles.last(),
                    ) + ": "@ + e@,
                ),
            ),
        }
    }
}

/// How many imports succeeded.
pub open spec fn imported(v: Seq<Import>) -> nat
    decreases v.len(),
{
    if v.len() == 0 {
        0
    } else {
        imported(v.drop_last()) + (if v.last() is Done {
            1nat
        } else {
            0
        })
    }
}

fn say_chromium(out: &mut Vec<Message>, i: &Import)
    ensures
        ui::said(final(out)@) == ui::said(old(out)@).push(chromium_told(*i)),
{
    match i {
        Import::Done => {
            ui::say(
                out,
                Level::Info,
                text::owned("CA also imported into the NSS trust store (Chrome/Chromium)."),
            );
        },
        Import::Failed(s) => {
            let mut m = text::owned("certutil NSS import failed with status ");
            m.append(s.as_str());
            ui::say(out, Level::Warning, m);
        },
        Import::NotStarted(e) => {
            let mut m = text::owned("Failed to run certutil for NSS import: ");
            m.append(e.as_str());
            ui::say(out, Level::Warning, m);
        },
    }
}

/// Tells what became of the imports into the stores of the browsers: that of Chromium where it has
/// one, and those of the profiles of Firefox, one each.
pub fn install_browser_trust(
    chromium: &Option<Import>,
    profiles: &Vec<String>,
    imports: &Vec<Import>,
) -> (r: Vec<Message>)
    requires
        imports@.len() == profiles@.len(),
    ensures
        ui::said(r@) == (match *chromium {
            Some(i) => seq![chromium_told(i)],
            None => Seq::empty(),
        }) + firefox_failures(text::texts(profiles@), imports@) + (if imported(imports@) > 0 {
            seq![
                (
                    Level::Info,
                    "CA also imported into "@ + number::decimal(imported(imports@))
                        + " Firefox profile(s)."@,
                ),
            ]
        } else {
            Seq::empty()
        }),
{
    let mut out: Vec<Message> = Vec::new();
    assert(ui::said(out@) =~= Seq::empty());
    if let Some(i) = chromium {
        say_chromium(&mut out, i);
    }
    let ghost first = ui::said(out@);
    assert(first =~= match *chromium {
        Some(i) => seq![chromium_told(i)],
        None => Seq::empty(),
    });
    let ghost all = text::texts(profiles@);
    let n: usize = profiles.len();
    let mut done: usize = 0;
    let mut i: usize = 0;
    assert(all.take(0) =~= Seq::empty());
    assert(imports@.take(0) =~= Seq::empty());
    assert(first + firefox_failures(all.take(0), imports@.take(0)) =~= first);
    while i < n
        invariant
            i <= n == profiles@.len(),
            n == imports@.len(),
            done <= i,
            all == text::texts(profiles@),
            ui::said(out@) == first + firefox_failures(
                all.take(i as int),
                imports@.take(i as int),
            ),
            done == imported(imports@.take(i as int)),
        decreases n - i,
    {
        assert(all.take(i + 1).drop_last() =~= all.take(i as int));
        assert(all.take(i + 1).last() == profiles@[i as int]@);
        assert(imports@.take(i + 1).drop_last() =~= imports@.take(i as int));
        assert(imports@.take(i + 1).last() == imports@[i as int]);
        match &imports[i] {
            Import::Done => {
                done += 1;
            },
            Import::Failed(s) => {
                let mut m = text::owned("certutil Firefox import failed for ");
                m.append(text::quoted(profiles[i].as_str()).as_str());
                m.append(" with status ");
                m.append(s.as_str());
                ui::say(&mut out, Level::Warning, m);
            },
            Import::NotStarted(e) => {
                let mut m = text::owned("Failed to run certutil for Firefox profile ");
                m.append(text::quoted(profiles[i].as_str()).as_str());
                m.append(": ");
                m.append(e.as_str());
                ui::say(&mut out, Level::Warning, m);
            },
        }
        assert(ui::said(out@) =~= first + firefox_failures(all.take(i + 1), imports@.take(i + 1)));
        i += 1;
    }
    assert(all.take(i as int) =~= all);
    assert(imports@.take(i as int) =~= imports@);
    if done > 0 {
        let mut m = text::owned("CA also imported into ");
        m.append(number::to_decimal(done as u64).as_str());
        m.append(" Firefox profile(s).");
        ui::say(&mut out, Level::Info, m);
    }
    assert(ui::said(out@) =~= (match *chromium {
        Some(i) => seq![chromium_told(i)],
        None => Seq::empty(),
    }) + firefox_failures(text::texts(profiles@), imports@) + (if imported(imports@) > 0 {
        seq![
            (
                Level::Info,
                "CA also imported into "@ + number::decimal(imported(imports@))
                    + " Firefox profile(s)."@,
            ),
        ]
    } else {
        Seq::empty()
    }));
    out
}

// ---------------------------------------------------------------- Windows

/// The arguments of `certutil` that put the certificate into the store of the Windows user.
pub fn install_windows_trust(ca_path: &str) -> (r: Vec<String>)
    ensures
        text::texts(r@) == seq!["-user"@, "-addstore"@, "-f"@, "Root"@, ca_path@],
{
    let mut r = text::no_texts();
    push_text(&mut r, "-user");
    push_text(&mut r, "-addstore");
    push_text(&mut r, "-f");
    push_text(&mut r, "Root");
    push_text(&mut r, ca_path);
    assert(text::texts(r@) =~= seq!["-user"@, "-addstore"@, "-f"@, "Root"@, ca_path@]);
    r
}

/// What became of `certutil` on Windows, by how its status reads.
pub fn windows_result(success: bool, status: &str) -> (r: Result<(), String>)
    ensures
        success ==> r is Ok,
        !success ==> (r matches Err(e) && e@ == "certutil failed with status "@ + status@),
{
    if success {
        Ok(())
    } else {
        let mut e = text::owned("certutil failed with status ");
        e.append(status);
        Err(e)
    }
}

/// What is told of the import into the store of Windows from the Linux inside.
pub fn install_windows_trust_from_wsl(i: &Import) -> (r: Message)
    ensures
        (r.level, r.text@) == (match *i {
            Import::Done => (
                Level::Info,
                "CA also imported into the Windows host's current user Root store."@,
            ),
            Import::Failed(s) => (Level::Warning, "certutil.exe failed with status "@ + s@),
            Import::NotStarted(e) => (
                Level::Warning,
                "Could not run certutil.exe ("@ + e@ + "); is WSL interop enabled?"@,
            ),
        }),
{
    match i {
        Import::Done => Message {
            level: Level::Info,
            text: text::owned("CA also imported into the Windows host's current user Root store."),
        },
        Import::Failed(s) => {
            let mut m = text::owned("certutil.exe failed with status ");
            m.append(s.as_str());
            Message { level: Level::Warning, text: m }
        },
        Import::NotStarted(e) => {
            let mut m = text::owned("Could not run certutil.exe (");
            m.append(e.as_str());
            m.append("); is WSL interop enabled?");
            Message { level: Level::Warning, text: m }
        },
    }
}

/// What is told where Windows has no name for the certificate's path.
pub fn wslpath_failed(i: &Import) -> (r: Option<String>)
    ensures
        paths::opt(r) == (match *i {
            Import::Done => None,
            Import::Failed(s) => Some(
                "wslpath failed to resolve a Windows path for the CA (status "@ + s@
                    + "); skipping Windows trust install."@,
            ),
            Import::NotStarted(e) => Some(
                "Could not run wslpath ("@ + e@ + "); skipping Windows trust install."@,
            ),
        }),
{
    match i {
        Import::Done => None,
        Import::Failed(s) => {
            let mut m = text::owned("wslpath failed to resolve a Windows path for the CA (status ");
            m.append(s.as_str());
            m.append("); skipping Windows trust install.");
            Some(m)
        },
        Import::NotStarted(e) => {
            let mut m = text::owned("Could not run wslpath (");
            m.append(e.as_str());
            m.append("); skipping Windows trust install.");
            Some(m)
        },
    }
}

} // verus!
