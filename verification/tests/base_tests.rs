use docker_control::commands::custom::CustomCommand;
use docker_control::edit::{replace, replace_first};
use docker_control::json;
use docker_control::lines::{join, lines_of, split_at_char, trimmed_lines_of, words_of};
use docker_control::number::{parse_up_to, to_decimal};
use docker_control::order::{arrange, dedup, less, sort};
use docker_control::paths;
use docker_control::shell::sq;
use docker_control::table::Table;
use docker_control::text;
use docker_control::utils::throttle_cache::{is_due, reaches, record};
use docker_control::utils::{needs_copy, sanitize_command_name, stale_pid, stop_ssh_agent, to_hex};

fn strings(items: &[&str]) -> Vec<String> {
    items.iter().map(|s| s.to_string()).collect()
}

#[test]
fn white_space_is_what_the_language_has_it_to_be() {
    for n in 0..=0x10ffffu32 {
        if let Some(c) = char::from_u32(n) {
            assert_eq!(text::is_white_char(c), c.is_whitespace(), "{n:x}");
        }
    }
}

#[test]
fn texts_are_cut_as_the_language_cuts_them() {
    for s in ["", " a b\u{3000}", "\t\nx\r", "äöü", "a=b=c", "==", "\u{a0}"] {
        assert_eq!(text::trim(s), s.trim());
        assert_eq!(
            text::split_once(s, '='),
            s.split_once('=')
                .map(|(a, b)| (a.to_string(), b.to_string()))
        );
        assert_eq!(
            text::rsplit_once(s, '='),
            s.rsplit_once('=')
                .map(|(a, b)| (a.to_string(), b.to_string()))
        );
        assert_eq!(text::trim_char(s, '='), s.trim_matches('='));
        assert_eq!(text::trim_end_char(s, '='), s.trim_end_matches('='));
        assert_eq!(text::contains(s, "b"), s.contains('b'));
        assert_eq!(text::starts_with(s, "a="), s.starts_with("a="));
        assert_eq!(text::ends_with(s, "=c"), s.ends_with("=c"));
        assert_eq!(
            text::strip_suffix(s, "=c"),
            s.strip_suffix("=c").map(str::to_string)
        );
        assert_eq!(
            text::strip_prefix(s, "a="),
            s.strip_prefix("a=").map(str::to_string)
        );
        assert_eq!(replace(s, "=", "-"), s.replace('=', "-"));
        assert_eq!(replace_first(s, "=", "-"), s.replacen('=', "-", 1));
    }
}

#[test]
fn lines_end_as_the_language_has_them_end() {
    for s in ["", "\n", "a", "a\n", "a\r\nb\r", "\r\n\r\n", "a\n\nb"] {
        let std_lines: Vec<String> = s.lines().map(str::to_string).collect();
        assert_eq!(lines_of(s), std_lines, "{s:?}");
        let std_split: Vec<String> = s.split('\n').map(str::to_string).collect();
        assert_eq!(split_at_char(s, '\n'), std_split);
        assert_eq!(join(&std_split, "\n"), s);
    }
    assert_eq!(words_of(" a\tb  c "), strings(&["a", "b", "c"]));
    assert_eq!(trimmed_lines_of(" a \n\n b"), strings(&["a", "b"]));
}

#[test]
fn numbers_are_read_as_they_are_written() {
    for n in [0u64, 9, 10, 4_294_967_295, u64::MAX] {
        assert_eq!(to_decimal(n), n.to_string());
        assert_eq!(parse_up_to(&n.to_string(), u64::MAX), Some(n));
    }
    for s in ["", "+", "-1", "1 ", "0x1", "18446744073709551616", "+7", "007"] {
        assert_eq!(parse_up_to(s, u64::MAX), s.parse::<u64>().ok(), "{s}");
    }
    assert_eq!(parse_up_to("4294967296", 4_294_967_295), None);
}

#[test]
fn strings_are_ordered_as_the_language_orders_them() {
    let all = ["b", "", "a", "ab", "ä", "Z", "a", "\u{10ffff}", "\u{ffff}"];
    for a in all {
        for b in all {
            assert_eq!(less(a, b), a < b, "{a} {b}");
        }
    }
    let mut expected = strings(&all);
    expected.sort();
    assert_eq!(sort(&strings(&all)), expected);
    expected.dedup();
    assert_eq!(dedup(&sort(&strings(&all))), expected);
    let rows = vec![
        CustomCommand {
            name: "b".to_string(),
            description: String::new(),
        },
        CustomCommand {
            name: "a".to_string(),
            description: String::new(),
        },
    ];
    assert_eq!(arrange(rows)[0].name, "a");
}

#[test]
fn a_table_holds_one_value_for_a_key() {
    let mut t: Table<u32> = Table::new();
    t.insert("b".to_string(), 1);
    t.insert("a".to_string(), 2);
    t.insert("b".to_string(), 3);
    assert_eq!(t.len(), 2);
    assert_eq!(t.get("b"), Some(&3));
    assert_eq!(t.get("c"), None);
    assert_eq!(t.row(0), (&"a".to_string(), &2));
}

#[test]
fn paths_are_taken_apart_as_the_language_takes_them_apart() {
    for s in [
        "/a/b", "a", "/", "", "a/", "/a/./b/", "..", "a/..", ".", "./a", "/a//b", "/.", "a/.",
    ] {
        let p = std::path::Path::new(s);
        assert_eq!(
            paths::file_name(s),
            p.file_name().map(|n| n.to_string_lossy().to_string()),
            "{s}"
        );
        assert_eq!(
            paths::parent(s),
            p.parent().map(|n| n.to_string_lossy().to_string()),
            "{s}"
        );
        let std_parts: Vec<String> = p
            .components()
            .map(|c| c.as_os_str().to_string_lossy().to_string())
            .collect();
        assert_eq!(paths::components_of(s), std_parts, "{s}");
        for rel in ["x", "/x", ""] {
            assert_eq!(
                paths::join(s, rel),
                p.join(rel).to_string_lossy().to_string(),
                "{s} {rel}"
            );
        }
        for base in ["/a", "a", "/", "/a/b/c"] {
            assert_eq!(paths::lies_below(s, base), p.starts_with(base), "{s} {base}");
        }
    }
}

#[test]
fn a_quoted_word_stays_one_word() {
    assert_eq!(sq("a b"), "'a b'");
    assert_eq!(sq("it's"), "'it'\\''s'");
    assert_eq!(sq(""), "''");
}

#[test]
fn json_is_read_and_written() {
    let doc = "{\"a\": [1, \"x\"], \"b\": \"q\\\"\", \"a\": 2}";
    assert!(json::is_json(doc));
    assert!(!json::is_json("{"));
    assert_eq!(json::get_text(doc, "b"), Some("q\"".to_string()));
    assert_eq!(json::get_text(doc, "a"), None);
    assert_eq!(json::get(doc, "nope"), None);
    assert_eq!(
        json::items("[1,\"x\"]"),
        Some(strings(&["1", "\"x\""]))
    );
    assert_eq!(json::items("{}"), None);
    assert_eq!(json::members("[]"), None);
    assert_eq!(json::quote("a\n\"b\""), "\"a\\n\\\"b\\\"\"");
    assert_eq!(json::as_text(&json::quote("ä\u{1}\\")), Some("ä\u{1}\\".to_string()));
    assert_eq!(json::pretty("{\"a\":1}"), Some("{\n  \"a\": 1\n}".to_string()));
    assert_eq!(json::pretty("{"), None);
}

#[test]
fn a_check_is_due_after_its_interval() {
    let at = "2024-01-01T00:00:00Z";
    let seconds: i64 = 1_704_067_200;
    assert!(is_due(None, seconds, 0, 60));
    assert!(is_due(Some("no time"), seconds, 0, 60));
    assert!(!is_due(Some(at), seconds + 59, 999_999_999, 60));
    assert!(is_due(Some(at), seconds + 60, 0, 60));
    assert!(!is_due(Some(at), seconds - 3600, 0, 60));
    assert!(is_due(Some("2024-01-01T01:00:00+01:00"), seconds + 60, 0, 60));
    assert!(reaches(None, 60));
    assert!(reaches(Some((61, -1)), 60));
    assert!(!reaches(Some((60, -1)), 60));
    assert_eq!(record("now"), "{\"last_checked\":\"now\"}");
    for now in ["now", "a \"quoted\" \\ moment\n"] {
        assert_eq!(
            json::get_text(&record(now), "last_checked"),
            Some(now.to_string())
        );
    }
}

#[test]
fn a_command_is_a_plain_name() {
    assert!(sanitize_command_name("build").is_ok());
    for bad in ["", ".", "..", "a/b", "a\\b"] {
        assert_eq!(
            sanitize_command_name(bad),
            Err(format!(
                "Invalid command name '{bad}': must be a plain filename with no path separators"
            ))
        );
    }
}

#[test]
fn the_process_of_the_agent_is_read_from_its_file() {
    assert_eq!(stop_ssh_agent(Some(" 42\n")), Ok(42));
    assert_eq!(
        stop_ssh_agent(Some("x")),
        Err("Invalid PID in file".to_string())
    );
    assert!(stop_ssh_agent(None).is_err());
    assert_eq!(
        stale_pid(7),
        "Process 7 not found (stale PID file), cleaning up."
    );
    assert!(needs_copy("a", None) && needs_copy("a", Some("b")) && !needs_copy("a", Some("a")));
    assert_eq!(to_hex(&vec![0u8, 15, 255]), "000fff");
}

#[test]
fn names_are_shown_in_quotes() {
    for c in ' '..='~' {
        if c != '"' && c != '\'' && c != '\\' {
            assert_eq!(text::quoted(&c.to_string()), format!("\"{c}\""));
        }
    }
    assert_eq!(text::quoted("/p/htdocs"), "\"/p/htdocs\"");
    assert_eq!(text::quoted("a\"b\\c\n"), "\"a\\\"b\\\\c\\n\"");
}
