use docker_control::utils::dependencies::{
    dedup_formulas, dependencies, is_brew_eligible, is_checked_via_which,
    offer_brew_install, Dependency,
};
use docker_control::utils::platform::Platform;

fn dependency(name: &str, command: &str, critical: bool, formula: &str) -> Dependency {
    Dependency {
        name: name.to_string(),
        command: command.to_string(),
        args: Vec::new(),
        critical,
        description: String::new(),
        brew_formula: Some(formula.to_string()),
    }
}

#[test]
fn is_brew_eligible_only_on_macos_and_native_linux() {
    assert!(is_brew_eligible(&Platform::Macos));
    assert!(is_brew_eligible(&Platform::NativeLinux(None)));
    assert!(is_brew_eligible(&Platform::NativeLinux(Some(
        "172.17.0.1".to_string()
    ))));
    assert!(!is_brew_eligible(&Platform::Wsl));
    assert!(!is_brew_eligible(&Platform::Windows));
    assert!(!is_brew_eligible(&Platform::DockerDesktop));
    assert!(!is_brew_eligible(&Platform::Unknown));
}

#[test]
fn brew_formula_filters_to_installable_deps_only() {
    let all = dependencies();
    let installable: Vec<&str> = all
        .iter()
        .filter(|dep| dep.brew_formula.is_some())
        .map(|dep| dep.name.as_str())
        .collect();

    assert!(installable.contains(&"Git"));
    assert!(installable.contains(&"Bash"));
    assert!(installable.contains(&"Rsync"));
    assert!(installable.contains(&"7-Zip"));
    // certutil is installable via the (non-keg-only) `nss` formula.
    assert!(installable.contains(&"certutil"));
    // SSH/SCP are excluded: Homebrew's `openssh` formula is keg-only, so
    // installing it wouldn't reliably satisfy the check.
    assert!(!installable.contains(&"SSH"));
    assert!(!installable.contains(&"SCP"));
    assert!(!installable.contains(&"Docker"));
    assert!(!installable.contains(&"Docker Compose"));
    assert!(!installable.contains(&"Sudo"));
    // setfacl/getfacl are installable on Linux via the `acl` formula (installers
    // filter them out on macOS, where the ACL logic falls back to `chmod +a`).
    assert!(installable.contains(&"setfacl"));
    assert!(installable.contains(&"getfacl"));
}

#[test]
fn seven_zip_uses_p7zip_formula() {
    // We call the `7z` binary, provided by `p7zip`; the `sevenzip` formula's
    // binary is named `7zz` and would not satisfy the check.
    let all = dependencies();
    let seven_zip = all
        .iter()
        .find(|dep| dep.name == "7-Zip")
        .expect("7-Zip dependency should exist");
    assert_eq!(seven_zip.brew_formula.as_deref(), Some("p7zip"));
}

#[test]
fn acl_tools_share_the_acl_formula() {
    for name in ["setfacl", "getfacl"] {
        let all = dependencies();
        let dep = all
            .iter()
            .find(|dep| dep.name == name)
            .unwrap_or_else(|| panic!("{name} dependency should exist"));
        assert_eq!(dep.brew_formula.as_deref(), Some("acl"));
    }
}

#[test]
fn dedup_formulas_collapses_duplicate_formula_entries() {
    let a = dependency("A", "a", true, "shared");
    let b = dependency("B", "b", true, "shared");
    let c = dependency("C", "c", false, "other");

    assert_eq!(dedup_formulas(&vec![a, b, c]), vec!["shared", "other"]);
}

#[test]
fn getfacl_is_checked_via_which() {
    assert!(is_checked_via_which("getfacl"));
}

#[test]
fn certutil_is_checked_via_which() {
    // `certutil` with no args exits non-zero, so presence must be probed via `which`.
    assert!(is_checked_via_which("certutil"));
}

#[test]
fn certutil_maps_to_nss_formula() {
    let all = dependencies();
    let certutil = all
        .iter()
        .find(|d| d.command == "certutil")
        .expect("certutil dependency present");
    assert_eq!(certutil.brew_formula.as_deref(), Some("nss"));
    assert!(!certutil.critical);
}

#[test]
fn a_formula_is_offered_where_homebrew_can_be_asked() {
    let question = Some("Install `nss` via Homebrew now?".to_string());
    assert_eq!(
        offer_brew_install("nss", &Platform::Macos, true, true),
        question
    );
    assert_eq!(
        offer_brew_install("nss", &Platform::NativeLinux(None), true, true),
        question
    );
    assert_eq!(
        offer_brew_install("nss", &Platform::Macos, false, true),
        None
    );
    assert_eq!(
        offer_brew_install("nss", &Platform::Macos, true, false),
        None
    );
    assert_eq!(offer_brew_install("nss", &Platform::Wsl, true, true), None);
}
