use docker_control::commands::trust_ca::{
    anchor_already_matches, announcement, chromium_nssdb_path, execute, find_ca_cert,
    firefox_profile_parents, firefox_profiles_with_db, found, has_browser_store,
    install_browser_trust, install_linux_anchor, install_linux_system_trust, install_macos_trust,
    install_windows_trust, install_windows_trust_from_wsl, nss_import, windows_result,
    wslpath_failed, Import, TrustTask, LINUX_DEBIAN_ANCHOR, LINUX_RHEL_ANCHOR,
};
use docker_control::ui::Level;
use docker_control::utils::platform::Platform;

fn strings(items: &[&str]) -> Vec<String> {
    items.iter().map(|s| s.to_string()).collect()
}

#[test]
fn prefers_new_filename_over_legacy() {
    let existing = strings(&["/tls/ca.crt", "/tls/nginx-proxy-ca.crt"]);
    assert_eq!(
        find_ca_cert("/tls", &existing).unwrap(),
        "/tls/nginx-proxy-ca.crt"
    );
}

#[test]
fn falls_back_to_legacy_filename() {
    let existing = strings(&["/tls/ca.crt"]);
    assert_eq!(find_ca_cert("/tls", &existing).unwrap(), "/tls/ca.crt");
}

#[test]
fn returns_none_when_no_ca_present() {
    assert!(find_ca_cert("/tls", &Vec::new()).is_none());
}

#[test]
fn anchor_matches_when_content_identical() {
    let ca = b"same bytes".to_vec();
    let anchor = b"same bytes".to_vec();
    assert!(anchor_already_matches(Some(&ca), Some(&anchor)));
}

#[test]
fn anchor_does_not_match_when_missing_or_different() {
    let ca = b"same bytes".to_vec();
    assert!(!anchor_already_matches(Some(&ca), None));

    let anchor = b"different bytes".to_vec();
    assert!(!anchor_already_matches(Some(&ca), Some(&anchor)));
    assert!(!anchor_already_matches(Some(&ca), Some(&b"same bytez".to_vec())));
}

#[test]
fn firefox_profiles_only_returns_dirs_with_cert9_db() {
    let entries = strings(&[
        "/h/.mozilla/firefox/abc.default-release",
        "/h/.mozilla/firefox/xyz.dev-edition",
    ]);
    let existing = strings(&["/h/.mozilla/firefox/abc.default-release/cert9.db"]);
    assert_eq!(
        firefox_profiles_with_db(&entries, &existing),
        strings(&["/h/.mozilla/firefox/abc.default-release"])
    );
}

#[test]
fn firefox_profiles_empty_for_missing_or_empty_parents() {
    assert!(firefox_profiles_with_db(&Vec::new(), &Vec::new()).is_empty());
}

#[test]
fn each_platform_has_its_stores() {
    let existing = strings(&["/tls/ca.crt"]);
    let tasks = |p: Platform, windows: bool| execute("/tls", &existing, &p, windows).unwrap().1;
    assert_eq!(
        tasks(Platform::Macos, false),
        vec![TrustTask::Keychain, TrustTask::Browsers]
    );
    assert_eq!(tasks(Platform::DockerDesktop, true), vec![TrustTask::Windows]);
    assert_eq!(
        tasks(Platform::DockerDesktop, false),
        vec![TrustTask::LinuxSystem, TrustTask::Browsers]
    );
    assert_eq!(
        tasks(Platform::Wsl, false),
        vec![
            TrustTask::LinuxSystem,
            TrustTask::WindowsFromWsl,
            TrustTask::Browsers
        ]
    );
    assert_eq!(
        execute("/tls", &existing, &Platform::Unknown, false),
        Err("Unsupported platform for CA trust installation.".to_string())
    );
    assert!(execute("/tls", &Vec::new(), &Platform::Macos, false)
        .unwrap_err()
        .starts_with("No CA certificate found in \"/tls\"."));
    assert_eq!(found("/tls/ca.crt"), "Found CA certificate at \"/tls/ca.crt\"");
    assert!(announcement(TrustTask::Keychain).is_some());
    assert!(announcement(TrustTask::Browsers).is_none());
}

#[test]
fn the_tool_at_hand_decides_the_place() {
    let debian = install_linux_system_trust(true, true, "/ca").unwrap();
    assert_eq!(debian.anchor, LINUX_DEBIAN_ANCHOR);
    let rhel = install_linux_system_trust(false, true, "/ca").unwrap();
    assert_eq!(rhel.anchor, LINUX_RHEL_ANCHOR);
    assert!(install_linux_system_trust(false, false, "/ca").is_err());

    let (args, told) = install_linux_anchor(&rhel, "/my ca", false);
    assert_eq!(
        args.unwrap(),
        strings(&[
            "sh",
            "-c",
            "cp \"$1\" \"$2\" && update-ca-trust extract",
            "--",
            "/my ca",
            LINUX_RHEL_ANCHOR
        ])
    );
    assert!(told.starts_with("Installing CA via update-ca-trust"));
    assert!(install_linux_anchor(&debian, "/ca", true).0.is_none());
}

#[test]
fn the_calls_name_the_certificate() {
    assert_eq!(
        install_macos_trust("/ca").last(),
        Some(&"/ca".to_string())
    );
    assert_eq!(
        install_windows_trust("/ca"),
        strings(&["-user", "-addstore", "-f", "Root", "/ca"])
    );
    let (delete, add) = nss_import("/db", "/ca");
    assert_eq!(
        delete,
        strings(&["-d", "sql:/db", "-D", "-n", "docker-control-ca"])
    );
    assert_eq!(add[add.len() - 2..], strings(&["-i", "/ca"])[..]);
}

#[test]
fn browsers_are_found_where_they_keep_their_stores() {
    let existing = strings(&["/h/.pki/nssdb"]);
    assert_eq!(
        chromium_nssdb_path(Some("/h"), &existing),
        Some("/h/.pki/nssdb".to_string())
    );
    assert_eq!(chromium_nssdb_path(Some("/other"), &existing), None);
    assert_eq!(chromium_nssdb_path(None, &existing), None);
    assert_eq!(firefox_profile_parents("linux", Some("/h"), None).len(), 3);
    assert_eq!(
        firefox_profile_parents("macos", Some("/h"), None),
        strings(&["/h/Library/Application Support/Firefox/Profiles"])
    );
    assert_eq!(
        firefox_profile_parents("windows", None, Some("/a")),
        strings(&["/a/Mozilla/Firefox/Profiles"])
    );
    assert!(!has_browser_store(&None, &Vec::new()));
    assert!(has_browser_store(&None, &strings(&["/p"])));
}

#[test]
fn failed_imports_are_told_and_the_others_counted() {
    let profiles = strings(&["/a", "/b", "/c"]);
    let imports = vec![
        Import::Done,
        Import::Failed("exit status: 1".to_string()),
        Import::Done,
    ];
    let told = install_browser_trust(&Some(Import::Done), &profiles, &imports);
    assert_eq!(told.len(), 3);
    assert_eq!(
        told[1].text,
        "certutil Firefox import failed for \"/b\" with status exit status: 1"
    );
    assert_eq!(told[1].level, Level::Warning);
    assert_eq!(told[2].text, "CA also imported into 2 Firefox profile(s).");
}

#[test]
fn windows_failures_are_told() {
    assert!(windows_result(true, "").is_ok());
    assert_eq!(
        windows_result(false, "exit code: 5"),
        Err("certutil failed with status exit code: 5".to_string())
    );
    assert_eq!(
        install_windows_trust_from_wsl(&Import::Done).level,
        Level::Info
    );
    assert!(
        install_windows_trust_from_wsl(&Import::NotStarted("gone".to_string()))
            .text
            .contains("(gone)")
    );
    assert!(wslpath_failed(&Import::Done).is_none());
    assert!(wslpath_failed(&Import::Failed("1".to_string())).is_some());
}
