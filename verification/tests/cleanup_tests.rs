use docker_control::commands::cleanup_backups::{
    execute, find_backups, question, select_candidates, show, summary, would_remove, Backup,
    Cleanup,
};
use docker_control::commands::doctor::parse_inaccessible_paths;
use docker_control::ui::Level;

fn strings(items: &[&str]) -> Vec<String> {
    items.iter().map(|s| s.to_string()).collect()
}

fn backups(items: &[(&str, u64)]) -> Vec<Backup> {
    items
        .iter()
        .map(|(n, t)| Backup {
            name: n.to_string(),
            timestamp: *t,
        })
        .collect()
}

fn rows(v: &[Backup]) -> Vec<(String, u64)> {
    v.iter().map(|b| (b.name.clone(), b.timestamp)).collect()
}

#[test]
fn keep_selects_oldest_beyond_count() {
    let all = backups(&[
        ("backup_300", 300),
        ("backup_200", 200),
        ("backup_100", 100),
    ]);
    let candidates = select_candidates(&all, Some(1), None, 400);
    assert_eq!(
        rows(&candidates),
        vec![
            ("backup_200".to_string(), 200),
            ("backup_100".to_string(), 100),
        ]
    );
}

#[test]
fn keep_defaults_to_five() {
    let all: Vec<Backup> = (0..7u64)
        .map(|i| Backup {
            name: format!("backup_{}", i * 100),
            timestamp: i * 100,
        })
        .collect();
    let candidates = select_candidates(&all, None, None, 1000);
    assert_eq!(candidates.len(), 2);
}

#[test]
fn older_than_selects_entries_past_cutoff() {
    let all = backups(&[("backup_100", 100), ("backup_500000", 500_000)]);
    // now = 1_000_000, 10 days = 864_000s, cutoff = 136_000
    let candidates = select_candidates(&all, None, Some(10), 1_000_000);
    assert_eq!(rows(&candidates), vec![("backup_100".to_string(), 100)]);
}

#[test]
fn no_candidates_when_nothing_old_enough() {
    let all = backups(&[("backup_999_999", 999_999)]);
    let candidates = select_candidates(&all, None, Some(9999), 1_000_000);
    assert!(candidates.is_empty());
}

#[test]
fn find_backups_matches_naming_pattern() {
    // The directories only: the file `backup_789` is not handed over.
    let dirs = strings(&["backup_123", "backup_456", "not_a_backup"]);
    let mut found = rows(&find_backups(&dirs));
    found.sort();
    assert_eq!(
        found,
        vec![
            ("backup_123".to_string(), 123),
            ("backup_456".to_string(), 456),
        ]
    );
}

#[test]
fn find_backups_reads_the_time_from_the_name() {
    let dirs = strings(&["backup_5", "backup_70", "backup_x", "backup_", "backup_+6"]);
    assert_eq!(
        rows(&find_backups(&dirs)),
        vec![
            ("backup_5".to_string(), 5),
            ("backup_70".to_string(), 70),
            ("backup_+6".to_string(), 6),
        ]
    );
}

#[test]
fn a_dry_run_removes_nothing() {
    let dirs = strings(&["backup_1", "backup_2"]);
    match execute(&dirs, Some(1), None, false, true, true, 100) {
        Cleanup::WouldRemove(v) => assert_eq!(rows(&v), vec![("backup_1".to_string(), 1)]),
        other => panic!("unexpected: {:?}", other),
    }
    match execute(&dirs, None, None, true, true, false, 100) {
        Cleanup::Remove { candidates, ask } => {
            assert_eq!(candidates.len(), 2);
            assert!(!ask);
        }
        other => panic!("unexpected: {:?}", other),
    }
    assert!(matches!(
        execute(&Vec::new(), None, None, false, false, false, 100),
        Cleanup::Nothing(_)
    ));
}

#[test]
fn the_newest_backups_stay_whatever_is_asked() {
    let all = backups(&[("backup_9", 9), ("backup_8", 8), ("backup_7", 7)]);
    for keep in 0..5usize {
        let gone = select_candidates(&all, Some(keep), None, 100);
        assert_eq!(gone.len(), 3usize.saturating_sub(keep));
        for b in all.iter().take(keep) {
            assert!(!gone.contains(b));
        }
    }
}

#[test]
fn what_is_removed_is_told() {
    assert_eq!(question(2), "Remove 2 backup folder(s)?");
    assert_eq!(would_remove(3), "3 backup folder(s) would be removed.");
    assert_eq!(summary(1, 2), "Removed 1 of 2 backup folder(s).");
    let told = show(&backups(&[("backup_0", 0)]), 2 * 86_400);
    assert_eq!(told.len(), 1);
    assert_eq!(told[0].text, "backup_0 (2 days old)");
    assert_eq!(told[0].level, Level::Info);
}

#[test]
fn parse_inaccessible_paths_empty_is_empty() {
    assert!(parse_inaccessible_paths("").is_empty());
    assert!(parse_inaccessible_paths("   \n\n  \n").is_empty());
}

#[test]
fn parse_inaccessible_paths_trims_and_drops_blanks() {
    let out = "/var/www/.config\n  /var/www/.composer  \n\n/var/www/.cache\n";
    assert_eq!(
        parse_inaccessible_paths(out),
        vec![
            "/var/www/.config".to_string(),
            "/var/www/.composer".to_string(),
            "/var/www/.cache".to_string(),
        ]
    );
}
