use docker_control::table::Table;
use docker_control::template::seeds::Seeds;
use docker_control::template::state::{
    derive_base, diff, fingerprint, manifest, project_files, relative_path, stamp,
    template_unmoved, NotUnder, Probe, TemplateFile, TemplateState,
};
use docker_control::template::summary::Summary;
use docker_control::template::{tracked_paths, Change, ProjectFile};
use docker_control::utils::hash_bytes;
use std::collections::BTreeMap;

const VERSION: &str = "2.0.0";

/// The files below a directory, by their paths in it.
type Files = BTreeMap<String, String>;

fn write(files: &mut Files, rel: &str, contents: &str) {
    files.insert(rel.to_string(), contents.to_string());
}

/// A small template: a file of its own, nested configuration, a secret, the two seeds and the
/// placeholders of runtime directories.
fn template_files() -> Files {
    let mut t = Files::new();
    write(
        &mut t,
        "compose.yml",
        "services:\n  php:\n    image: php:8.2\n",
    );
    write(&mut t, "config/php.ini", "memory_limit = 256M\n");
    write(&mut t, "config/apache-sites/default.conf", "ServerName x\n");
    write(&mut t, "config/htpasswd", "user:default\n");
    write(&mut t, "secrets/db_pw.txt", "123456");
    write(
        &mut t,
        ".env-dist",
        "BASE_DOMAIN=example.lvh.me\nPHP_VERSION=8.2\n",
    );
    write(&mut t, ".gitignore-dist", "htdocs\nlogs\n");
    write(&mut t, "logs/apache/.gitkeep", "");
    write(&mut t, "volumes/db/data/.gitkeep", "");
    t
}

fn theirs(template: &Files) -> Table<String> {
    let files: Vec<TemplateFile> = template
        .iter()
        .map(|(rel, c)| TemplateFile {
            path: format!("/template/{rel}"),
            content: c.as_bytes().to_vec(),
        })
        .collect();
    manifest("/template", &files).unwrap()
}

struct Project {
    files: Files,
    state: Option<TemplateState>,
}

/// What initialising a project makes of the template: all of it, `.gitignore-dist` renamed, and an
/// `.env` of its own.
fn fixture() -> (Files, Project) {
    let template = template_files();
    let mut files = template.clone();
    let ignored = files.remove(".gitignore-dist").unwrap();
    write(&mut files, ".gitignore", &ignored);
    write(
        &mut files,
        ".env",
        "BASE_DOMAIN=myproj.lvh.me\nPHP_VERSION=8.2\n",
    );
    let state = stamp(&theirs(&template), None, VERSION, true);
    (
        template,
        Project {
            files,
            state: Some(state),
        },
    )
}

fn no_base() -> Table<Option<String>> {
    Table::new()
}

fn mine(template: &Files, project: &Project) -> Table<ProjectFile> {
    let empty = no_base();
    let base = match &project.state {
        Some(s) => &s.files,
        None => &empty,
    };
    let probes: Vec<Probe> = tracked_paths(base, &theirs(template))
        .into_iter()
        .map(|path| {
            let content = project.files.get(&path);
            Probe {
                is_file: content.is_some(),
                hash: content.map(|c| hash_bytes(c.as_bytes())),
                path,
            }
        })
        .collect();
    project_files(&probes)
}

fn changes(template: &Files, project: &Project) -> Vec<Change> {
    let read = |files: &Files, rel: &str| files.get(rel).cloned().unwrap_or_default();
    let seeds = Seeds {
        env_dist: read(template, ".env-dist"),
        env: read(&project.files, ".env"),
        gitignore_dist: read(template, ".gitignore-dist"),
        gitignore: read(&project.files, ".gitignore"),
    };
    diff(
        &theirs(template),
        project.state.as_ref(),
        &mine(template, project),
        &seeds,
    )
}

fn keys<V>(t: &Table<V>) -> Vec<String> {
    (0..t.len()).map(|i| t.row(i).0.clone()).collect()
}

#[test]
fn init_records_state_and_reports_no_changes() {
    let (template, project) = fixture();
    let state = project.state.as_ref().unwrap();
    assert_eq!(state.initialized_with.as_deref(), Some(VERSION));
    assert!(state.files.get("compose.yml").is_some());
    // Runtime placeholders are not part of the tracked template.
    assert!(!keys(&state.files).iter().any(|k| k.starts_with("logs/")));

    let found = changes(&template, &project);
    assert!(found.is_empty(), "{:?}", found);
}

#[test]
fn state_lives_at_the_project_root_outside_htdocs() {
    assert_eq!(TemplateState::path("/p"), "/p/.docker-control/state.json");
}

#[test]
fn template_only_change_is_a_safe_update() {
    let (mut template, project) = fixture();
    write(&mut template, "config/php.ini", "memory_limit = 512M\n");
    assert_eq!(
        changes(&template, &project),
        vec![Change::SafeUpdate("config/php.ini".into())]
    );
}

#[test]
fn project_only_change_reports_nothing() {
    let (template, mut project) = fixture();
    write(&mut project.files, "config/php.ini", "memory_limit = 1G\n");
    let found = changes(&template, &project);
    assert!(found.is_empty(), "{:?}", found);
}

#[test]
fn changes_on_both_sides_are_a_conflict() {
    let (mut template, mut project) = fixture();
    write(&mut template, "config/php.ini", "memory_limit = 512M\n");
    write(&mut project.files, "config/php.ini", "memory_limit = 1G\n");
    assert_eq!(
        changes(&template, &project),
        vec![Change::Conflict("config/php.ini".into())]
    );
}

#[test]
fn project_matching_the_new_template_is_not_actionable() {
    let (mut template, mut project) = fixture();
    write(&mut template, "config/php.ini", "memory_limit = 512M\n");
    write(&mut project.files, "config/php.ini", "memory_limit = 512M\n");
    let found = changes(&template, &project);
    assert_eq!(found, vec![Change::AlreadyApplied("config/php.ini".into())]);
    assert!(Summary::from_changes(&found).is_empty());
}

#[test]
fn template_state_tests_new_template_file_is_a_safe_add() {
    let (mut template, project) = fixture();
    write(&mut template, "config/new.conf", "new\n");
    assert_eq!(
        changes(&template, &project),
        vec![Change::SafeAdd("config/new.conf".into())]
    );
}

#[test]
fn hand_edited_secrets_are_never_reported() {
    let (mut template, mut project) = fixture();
    write(&mut project.files, "secrets/db_pw.txt", "a-real-password");
    write(&mut project.files, "config/htpasswd", "user:realhash");
    write(&mut template, "secrets/db_pw.txt", "999999");
    write(&mut template, "config/htpasswd", "user:otherhash");
    let found = changes(&template, &project);
    assert!(found.is_empty(), "{:?}", found);
}

#[test]
fn new_env_dist_keys_are_reported_against_the_projects_env() {
    let (mut template, project) = fixture();
    write(
        &mut template,
        ".env-dist",
        "BASE_DOMAIN=example.lvh.me\nPHP_VERSION=8.2\nSELF_SIGNED_HOST=1\n",
    );
    assert_eq!(
        changes(&template, &project),
        vec![
            Change::SafeUpdate(".env-dist".into()),
            Change::EnvKeys(vec!["SELF_SIGNED_HOST".into()]),
        ]
    );
}

#[test]
fn missing_env_keys_survive_a_stamp() {
    let (mut template, mut project) = fixture();
    write(
        &mut template,
        ".env-dist",
        "BASE_DOMAIN=example.lvh.me\nPHP_VERSION=8.2\nSELF_SIGNED_HOST=1\n",
    );
    let stamped = stamp(&theirs(&template), project.state.as_ref(), VERSION, false);
    project.state = Some(stamped);

    // The fingerprint now matches, so the tracked files are not looked at.
    assert!(template_unmoved(project.state.as_ref(), &theirs(&template)));
    assert_eq!(
        changes(&template, &project),
        vec![Change::EnvKeys(vec!["SELF_SIGNED_HOST".into()])],
        "the .env key report must not be silenced by stamping"
    );

    // Adding the key clears it.
    write(
        &mut project.files,
        ".env",
        "BASE_DOMAIN=example.lvh.me\nPHP_VERSION=8.2\nSELF_SIGNED_HOST=0\n",
    );
    assert!(changes(&template, &project).is_empty());
}

#[test]
fn removed_upstream_clears_once_the_project_drops_the_file() {
    let (mut template, mut project) = fixture();
    template.remove("config/php.ini");
    assert_eq!(
        changes(&template, &project),
        vec![Change::RemovedUpstream("config/php.ini".into())]
    );

    project.files.remove("config/php.ini");
    assert!(changes(&template, &project).is_empty());
}

#[test]
fn env_dist_value_change_produces_no_env_report() {
    let (mut template, project) = fixture();
    write(
        &mut template,
        ".env-dist",
        "BASE_DOMAIN=other.lvh.me\nPHP_VERSION=8.5\n",
    );
    let found = changes(&template, &project);
    assert_eq!(found, vec![Change::SafeUpdate(".env-dist".into())]);
    assert!(
        !found.iter().any(|c| matches!(c, Change::EnvKeys(_))),
        "a value-only change must not ask the user to touch .env"
    );
}

#[test]
fn new_gitignore_dist_entries_are_reported_against_the_projects_gitignore() {
    let (mut template, project) = fixture();
    write(
        &mut template,
        ".gitignore-dist",
        "htdocs\nlogs\nreleases\n",
    );
    assert_eq!(
        changes(&template, &project),
        vec![Change::GitignoreEntries(vec!["releases".into()])]
    );
}

#[test]
fn reordered_gitignore_is_not_reported() {
    let (mut template, mut project) = fixture();
    write(&mut project.files, ".gitignore", "logs\nhtdocs\nvendor\n");
    write(&mut template, "config/php.ini", "memory_limit = 512M\n");
    assert_eq!(
        changes(&template, &project),
        vec![Change::SafeUpdate("config/php.ini".into())]
    );
}

#[test]
fn file_dropped_from_the_template_is_reported() {
    let (mut template, project) = fixture();
    template.remove("config/php.ini");
    assert_eq!(
        changes(&template, &project),
        vec![Change::RemovedUpstream("config/php.ini".into())]
    );
}

#[test]
fn legacy_project_backfills_matching_files_and_flags_the_rest() {
    let (template, mut project) = fixture();
    // A project predating the state file: no recorded base at all.
    project.state = None;
    // One file diverges; everything else still matches the template.
    write(&mut project.files, "config/php.ini", "memory_limit = 1G\n");

    let current = theirs(&template);
    let base = derive_base(&mine(&template, &project), &current);
    assert_eq!(
        base.get("compose.yml"),
        Some(&current.get("compose.yml").cloned()),
        "an in-sync file should get a real base"
    );
    assert_eq!(
        base.get("config/php.ini"),
        Some(&None),
        "a diverging file must not be given a guessed base"
    );

    // Only the unattributable file is reported, and never as a conflict.
    assert_eq!(
        changes(&template, &project),
        vec![Change::Unknown("config/php.ini".into())]
    );
}

#[test]
fn restamping_preserves_the_original_init_version() {
    let (mut template, mut project) = fixture();
    write(&mut template, "config/php.ini", "memory_limit = 512M\n");
    let stamped = stamp(&theirs(&template), project.state.as_ref(), "9.9.9", false);
    assert_eq!(stamped.initialized_with.as_deref(), Some(VERSION));
    assert_eq!(stamped.template_synced_at, "9.9.9");
    project.state = Some(stamped);
    // The new template is now the base, so nothing is pending.
    let found = changes(&template, &project);
    assert!(found.is_empty(), "{:?}", found);
}

#[test]
fn a_manifest_holds_neither_runtime_files_nor_others_paths() {
    let t = theirs(&template_files());
    assert!(t.get("config/apache-sites/default.conf").is_some());
    assert!(!keys(&t)
        .iter()
        .any(|k| k.starts_with("logs/") || k.starts_with("volumes/")));
    assert!(!fingerprint(&t).is_empty());
    assert_eq!(
        relative_path("/template", "/elsewhere/x"),
        Err(NotUnder {
            path: "/elsewhere/x".to_string(),
            root: "/template".to_string()
        })
    );
    assert_eq!(
        relative_path("/template", "/template/a//b"),
        Ok("a/b".to_string())
    );
}

#[test]
fn a_digest_is_the_one_of_the_standard() {
    assert_eq!(
        hash_bytes(b"abc"),
        "ba7816bf8f01cfea414140de5dae2223b00361a396177a9cb410ff61f20015ad"
    );
}

#[test]
fn a_file_that_cannot_be_read_is_not_taken_for_missing() {
    let probes = vec![
        Probe {
            path: "a".to_string(),
            is_file: true,
            hash: None,
        },
        Probe {
            path: "b".to_string(),
            is_file: false,
            hash: None,
        },
    ];
    let t = project_files(&probes);
    assert_eq!(t.get("a"), Some(&ProjectFile::Unreadable));
    assert_eq!(t.get("b"), Some(&ProjectFile::Missing));
}

#[test]
fn a_summary_tells_each_kind() {
    let s = Summary::from_changes(&vec![
        Change::SafeAdd("a".into()),
        Change::Conflict("b".into()),
        Change::EnvKeys(vec!["K".into()]),
    ]);
    assert_eq!(s.safe, vec!["a".to_string()]);
    assert_eq!(s.conflicts, vec!["b".to_string()]);
    assert_eq!(s.env_keys, vec!["K".to_string()]);
    assert!(!s.is_empty());
    assert!(!s.print(false).is_empty());
}
