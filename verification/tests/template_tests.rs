use docker_control::table::Table;
use docker_control::template::seeds::{env_keys, gitignore_entries, missing_entries};
use docker_control::template::state::fingerprint;
use docker_control::template::{classify, Change, ProjectFile};

fn base(entries: &[(&str, Option<&str>)]) -> Table<Option<String>> {
    let mut t = Table::new();
    for (p, h) in entries {
        t.insert(p.to_string(), h.map(str::to_string));
    }
    t
}

fn map(entries: &[(&str, &str)]) -> Table<String> {
    let mut t = Table::new();
    for (p, h) in entries {
        t.insert(p.to_string(), h.to_string());
    }
    t
}

fn mine(entries: &[(&str, Option<&str>)]) -> Table<ProjectFile> {
    let mut t = Table::new();
    for (p, h) in entries {
        let state = match h {
            Some(hash) => ProjectFile::Hash(hash.to_string()),
            None => ProjectFile::Missing,
        };
        t.insert(p.to_string(), state);
    }
    t
}

fn unreadable(path: &str) -> Table<ProjectFile> {
    let mut t = Table::new();
    t.insert(path.to_string(), ProjectFile::Unreadable);
    t
}

#[test]
fn unchanged_template_is_silent_even_with_local_edits() {
    // The whole point of recording a base: the user edited compose.yml, but
    // the template hasn't moved, so there is nothing to offer them.
    let changes = classify(
        &base(&[("compose.yml", Some("a"))]),
        &map(&[("compose.yml", "a")]),
        &mine(&[("compose.yml", Some("local-edit"))]),
    );
    assert!(changes.is_empty(), "{:?}", changes);
}

#[test]
fn untouched_locally_is_a_safe_update() {
    let changes = classify(
        &base(&[("compose.yml", Some("a"))]),
        &map(&[("compose.yml", "b")]),
        &mine(&[("compose.yml", Some("a"))]),
    );
    assert_eq!(changes, vec![Change::SafeUpdate("compose.yml".into())]);
}

#[test]
fn edited_both_sides_is_a_conflict() {
    let changes = classify(
        &base(&[("config/php.ini", Some("a"))]),
        &map(&[("config/php.ini", "b")]),
        &mine(&[("config/php.ini", Some("local"))]),
    );
    assert_eq!(changes, vec![Change::Conflict("config/php.ini".into())]);
}

#[test]
fn project_already_matching_the_new_template_is_not_actionable() {
    let changes = classify(
        &base(&[("compose.yml", Some("a"))]),
        &map(&[("compose.yml", "b")]),
        &mine(&[("compose.yml", Some("b"))]),
    );
    assert_eq!(changes, vec![Change::AlreadyApplied("compose.yml".into())]);
    assert!(!changes[0].is_actionable());
}

#[test]
fn mod_new_template_file_is_a_safe_add() {
    let changes = classify(
        &base(&[]),
        &map(&[("config/new.conf", "b")]),
        &mine(&[("config/new.conf", None)]),
    );
    assert_eq!(changes, vec![Change::SafeAdd("config/new.conf".into())]);
}

#[test]
fn file_dropped_from_the_template_is_reported_not_deleted() {
    let changes = classify(
        &base(&[("config/old.conf", Some("a"))]),
        &map(&[]),
        &mine(&[("config/old.conf", Some("a"))]),
    );
    assert_eq!(
        changes,
        vec![Change::RemovedUpstream("config/old.conf".into())]
    );
}

#[test]
fn file_dropped_from_both_sides_is_silent() {
    // Nothing to report once the project has deleted it too — otherwise the
    // warning would have no way to clear.
    let changes = classify(
        &base(&[("config/old.conf", Some("a"))]),
        &map(&[]),
        &mine(&[("config/old.conf", None)]),
    );
    assert!(changes.is_empty(), "{:?}", changes);
}

#[test]
fn unreadable_project_file_is_never_treated_as_absent() {
    // A container-owned file the host user can't read must not be classified
    // as a safe add — that would overwrite it without a prompt. It is
    // unjudgeable, which is exactly what `Unknown` means.
    let changes = classify(
        &base(&[("config/php.ini", Some("a"))]),
        &map(&[("config/php.ini", "b")]),
        &unreadable("config/php.ini"),
    );
    assert_eq!(changes, vec![Change::Unknown("config/php.ini".into())]);
}

#[test]
fn missing_base_with_a_differing_file_is_unknown() {
    let changes = classify(
        &base(&[("compose.yml", None)]),
        &map(&[("compose.yml", "b")]),
        &mine(&[("compose.yml", Some("something-else"))]),
    );
    assert_eq!(changes, vec![Change::Unknown("compose.yml".into())]);
}

#[test]
fn per_project_files_are_never_reported() {
    // secrets/ and htpasswd hold per-project values; the template only ever
    // seeds them, so a divergence is expected rather than a conflict.
    let changes = classify(
        &base(&[
            ("secrets/db_pw.txt", Some("a")),
            ("config/htpasswd", Some("a")),
        ]),
        &map(&[("secrets/db_pw.txt", "b"), ("config/htpasswd", "b")]),
        &mine(&[
            ("secrets/db_pw.txt", Some("my-password")),
            ("config/htpasswd", Some("my-users")),
        ]),
    );
    assert!(changes.is_empty(), "{:?}", changes);
}

#[test]
fn runtime_dirs_are_ignored() {
    let changes = classify(
        &base(&[("logs/apache/.gitkeep", Some("a"))]),
        &map(&[("logs/apache/.gitkeep", "b")]),
        &mine(&[("logs/apache/.gitkeep", None)]),
    );
    assert!(changes.is_empty(), "{:?}", changes);
}

#[test]
fn consumed_seed_is_excluded_from_hash_classification() {
    // `.gitignore-dist` is renamed/merged away on apply, so a missing project
    // copy is normal and must never read as "deleted locally" — nor, when the
    // base is unknown, as a pending update. It is checked by content in
    // `derived_changes` instead.
    let changes = classify(
        &base(&[(".gitignore-dist", None)]),
        &map(&[(".gitignore-dist", "b")]),
        &mine(&[(".gitignore-dist", None)]),
    );
    assert!(changes.is_empty(), "{:?}", changes);
}

#[test]
fn env_dist_is_tracked_like_any_other_file() {
    // `init` leaves `.env-dist` in the project as the reference list of keys
    // (it writes `.env` separately), so the project has a copy and ordinary
    // comparison keeps that reference current.
    let changes = classify(
        &base(&[(".env-dist", Some("a"))]),
        &map(&[(".env-dist", "b")]),
        &mine(&[(".env-dist", Some("a"))]),
    );
    assert_eq!(changes, vec![Change::SafeUpdate(".env-dist".into())]);
}

#[test]
fn missing_entries_reports_only_additions() {
    // A changed default value is not an addition and must not be reported.
    assert!(
        missing_entries(
            "BASE_DOMAIN=new.lvh.me\n",
            "BASE_DOMAIN=old.lvh.me\n",
            env_keys
        )
        .is_empty()
    );
    assert_eq!(
        missing_entries(
            "BASE_DOMAIN=x\nSELF_SIGNED_HOST=1\n",
            "BASE_DOMAIN=x\n",
            env_keys
        ),
        vec!["SELF_SIGNED_HOST".to_string()]
    );
    // The merge sorts and dedups `.gitignore`, so order must not matter.
    assert!(
        missing_entries(
            "htdocs\nlogs\n",
            "logs\nhtdocs\nvendor\n",
            gitignore_entries
        )
        .is_empty()
    );
    assert_eq!(
        missing_entries("htdocs\nreleases\n", "htdocs\n", gitignore_entries),
        vec!["releases".to_string()]
    );
}

#[test]
fn env_keys_ignores_comments_and_blanks() {
    let content = "# comment\n\nBASE_DOMAIN=x.lvh.me\n  PHP_VERSION=8.2\nnot-an-assignment\n";
    assert_eq!(
        env_keys(content),
        vec!["BASE_DOMAIN".to_string(), "PHP_VERSION".to_string()]
    );
}

#[test]
fn fingerprint_is_order_independent_but_content_sensitive() {
    let a = map(&[("compose.yml", "1"), ("config/php.ini", "2")]);
    let b = map(&[("config/php.ini", "2"), ("compose.yml", "1")]);
    assert_eq!(fingerprint(&a), fingerprint(&b));

    let c = map(&[("compose.yml", "1"), ("config/php.ini", "3")]);
    assert_ne!(fingerprint(&a), fingerprint(&c));
}

#[test]
fn fingerprint_distinguishes_renames() {
    // A path change with identical content must still register.
    let a = map(&[("config/php.ini", "1")]);
    let b = map(&[("config/php.new.ini", "1")]);
    assert_ne!(fingerprint(&a), fingerprint(&b));
}
