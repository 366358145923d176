use base64::engine::general_purpose::STANDARD;
use base64::Engine;
use docker_control::git::known_hosts::{
    add_line, candidate_files, check, classify_line, fingerprint_sha256, glob_match, host_matches,
    user_known_hosts, verify_host_key, HostDecision, HostKeyStatus, LineMatch,
};
use hmac::{Hmac, Mac};
use sha1::Sha1;

fn hashed_pattern(host: &str, salt: &[u8]) -> String {
    let mut mac = Hmac::<Sha1>::new_from_slice(salt).unwrap();
    mac.update(host.as_bytes());
    let digest = mac.finalize().into_bytes();
    format!("|1|{}|{}", STANDARD.encode(salt), STANDARD.encode(digest))
}

#[test]
fn plain_host_matches_exactly() {
    assert!(host_matches("example.com", "example.com"));
    assert!(!host_matches("example.com", "other.com"));
}

#[test]
fn host_match_is_case_insensitive() {
    assert!(host_matches("Example.COM", "example.com"));
}

#[test]
fn comma_separated_and_wildcards_match() {
    assert!(host_matches("a.com,b.com", "b.com"));
    assert!(host_matches("*.example.com", "git.example.com"));
    assert!(!host_matches("*.example.com", "example.com"));
}

#[test]
fn bracket_port_pattern_is_normalized() {
    assert!(host_matches("[git.example.com]:2222", "git.example.com"));
}

#[test]
fn hashed_host_matches_via_hmac() {
    let pat = hashed_pattern("git.interligent.com", b"some-salt-bytes");
    assert!(host_matches(&pat, "git.interligent.com"));
    assert!(!host_matches(&pat, "evil.example.com"));
}

#[test]
fn classify_detects_match_change_and_irrelevant() {
    let key = b"\x00\x01\x02\x03raw-key-bytes";
    let b64 = STANDARD.encode(key);
    let line = format!("example.com ssh-ed25519 {b64}");

    assert!(matches!(
        classify_line(&line, "example.com", "ssh-ed25519", key),
        Some(LineMatch::Match)
    ));
    assert!(matches!(
        classify_line(&line, "example.com", "ssh-ed25519", b"different"),
        Some(LineMatch::Changed)
    ));
    // Different host or key type is not our concern.
    assert!(classify_line(&line, "other.com", "ssh-ed25519", key).is_none());
    assert!(classify_line(&line, "example.com", "ssh-rsa", key).is_none());
}

#[test]
fn classify_skips_comments_and_markers() {
    let key = b"abc";
    let b64 = STANDARD.encode(key);
    assert!(classify_line("# a comment", "example.com", "ssh-ed25519", key).is_none());
    let marked = format!("@cert-authority example.com ssh-ed25519 {b64}");
    assert!(matches!(
        classify_line(&marked, "example.com", "ssh-ed25519", key),
        Some(LineMatch::Match)
    ));
}

#[test]
fn fingerprint_matches_openssh_format() {
    // 32 zero bytes -> known base64 (no padding).
    let fp = fingerprint_sha256(&[0u8; 32]);
    assert_eq!(fp, "SHA256:AAAAAAAAAAAAAAAAAAAAAAAAAAAAAAAAAAAAAAAAAAA");
}

#[test]
fn wildcards_match_as_shells_have_them() {
    assert!(glob_match("*", "anything"));
    assert!(glob_match("a?c", "abc"));
    assert!(!glob_match("a?c", "ac"));
    assert!(glob_match("a*c", "abbc"));
    assert!(!glob_match("a*c", "abb"));
}

#[test]
fn a_key_that_was_added_is_known() {
    let key = b"raw key";
    let line = add_line("git.example.com", "ssh-ed25519", key);
    let contents = vec![format!("# mine\n{line}")];
    assert_eq!(
        check(&contents, "git.example.com", "ssh-ed25519", key),
        HostKeyStatus::Match
    );
    assert_eq!(
        check(&contents, "git.example.com", "ssh-ed25519", b"other"),
        HostKeyStatus::Changed
    );
    assert_eq!(
        check(&contents, "else.example.com", "ssh-ed25519", key),
        HostKeyStatus::Unknown
    );
}

#[test]
fn a_changed_key_is_refused_and_a_new_one_asked_for() {
    assert_eq!(
        verify_host_key(Some(HostKeyStatus::Match)),
        HostDecision::Accept
    );
    assert_eq!(
        verify_host_key(Some(HostKeyStatus::Changed)),
        HostDecision::Refuse
    );
    assert_eq!(
        verify_host_key(Some(HostKeyStatus::Unknown)),
        HostDecision::Ask
    );
    assert_eq!(verify_host_key(None), HostDecision::Passthrough);
}

#[test]
fn the_users_file_comes_before_the_systems() {
    assert_eq!(
        user_known_hosts(Some("/home/u")),
        Some("/home/u/.ssh/known_hosts".to_string())
    );
    assert_eq!(user_known_hosts(None), None);
    let files = candidate_files(Some("/home/u"));
    assert_eq!(files[0], "/home/u/.ssh/known_hosts");
    assert!(files.contains(&"/etc/ssh/ssh_known_hosts".to_string()));
}
