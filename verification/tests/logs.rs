use demo_ghostprovider::crashlog;
use demo_ghostprovider::logfile;
use demo_ghostprovider::paths;
use demo_ghostprovider::text;

const STAMP: &str = "2026-02-18T09:30:00Z";

#[test]
fn record_then_read_roundtrips() {
    let mut log: Vec<u8> = Vec::new();
    crashlog::interrupted(&mut log, STAMP, "demo-memos", "https://github.com/usememos/memos");
    crashlog::removed(&mut log, STAMP, "demo-vert", "https://github.com/Parraghosting/vert");
    let mut file = Some(log);
    let lines = crashlog::read(&file);
    assert_eq!(lines.len(), 2);
    assert!(lines[0].contains("[interrupted]"), "{}", lines[0]);
    assert!(lines[0].contains("2026-"), "has a timestamp: {}", lines[0]);
    assert!(lines[1].contains("[removed]"), "{}", lines[1]);

    crashlog::clear(&mut file);
    assert!(crashlog::read(&file).is_empty(), "clear() drops the file");
}

#[test]
fn each_record_carries_its_kind() {
    let mut log: Vec<u8> = Vec::new();
    crashlog::recovered(&mut log, STAMP, "demo-a", "https://github.com/x/a", true);
    crashlog::recovered(&mut log, STAMP, "demo-b", "https://github.com/x/b", false);
    crashlog::ghost_stopped(&mut log, STAMP, 2);
    crashlog::removed(&mut log, STAMP, "demo-c", "https://github.com/x/c");

    let lines = crashlog::read(&Some(log));
    assert!(lines[0].contains("[recovered]"));
    assert!(lines[0].contains("leftover unit/env/project tree removed"));
    assert!(lines[1].contains("[recovered]"));
    assert!(lines[1].contains("no leftovers"));
    assert!(lines[2].contains("[ghost]"));
    assert!(lines[2].contains("2"));
    assert!(lines[3].contains("[removed]"));
}

#[test]
fn history_lines_read_exactly() {
    let mut log: Vec<u8> = Vec::new();
    crashlog::record(&mut log, STAMP, "kind", "message");
    crashlog::interrupted(&mut log, STAMP, "demo-vert", "u");
    crashlog::recovered(&mut log, STAMP, "demo-vert", "u", true);
    crashlog::recovered(&mut log, STAMP, "demo-vert", "u", false);
    crashlog::removed(&mut log, STAMP, "demo-vert", "u");
    crashlog::ghost_stopped(&mut log, STAMP, 17);
    let lines = crashlog::read(&Some(log));
    let head = |kind: &str| format!("{STAMP} [{kind}] ");
    assert_eq!(
        lines,
        vec![
            head("kind") + "message",
            head("interrupted")
                + "deploy aborted at exit: demo-vert (u) — unit, env, project tree and journal removed",
            head("recovered")
                + "unfinished deploy: demo-vert (u) — leftover unit/env/project tree removed",
            head("recovered")
                + "unfinished deploy: demo-vert (u) — no leftovers; journal entry settled",
            head("removed")
                + "full removal: demo-vert (u) — unit, env, project tree, ports and registry",
            head("ghost") + "orphaned ghost build/probe unit(s) stopped: 17",
        ]
    );
}

#[test]
fn history_that_is_no_text_reads_as_empty() {
    assert!(crashlog::read(&Some(vec![0x66, 0xff, 0x0a])).is_empty());
    assert!(crashlog::read(&None).is_empty());
    assert!(crashlog::read(&Some(Vec::new())).is_empty());
}

/// Past its cap the history drops its oldest lines and keeps whole ones.
#[test]
fn crash_history_is_bounded_and_keeps_the_newest() {
    let mut log: Vec<u8> = Vec::new();
    let line = "x".repeat(1023);
    while log.len() <= crashlog::MAX_CRASH_LOG_BYTES {
        log.extend_from_slice(line.as_bytes());
        log.push(b'\n');
    }
    crashlog::record(&mut log, STAMP, "kind", "newest — é");
    assert!(log.len() <= crashlog::CRASH_LOG_KEEP_BYTES + 64);
    let lines = crashlog::read(&Some(log));
    assert_eq!(lines.last().unwrap(), &format!("{STAMP} [kind] newest — é"));
    assert!(lines[..lines.len() - 1].iter().all(|l| l == &line));
    assert_eq!(lines.len(), 256);
}

#[test]
fn bound_drops_the_line_it_cuts() {
    let mut content = b"one\ntwo\nthree\nfour\n".to_vec();
    logfile::bound(&mut content, 100, 3);
    assert_eq!(content, b"one\ntwo\nthree\nfour\n".to_vec());
    logfile::bound(&mut content, 10, 8);
    assert_eq!(content, b"four\n".to_vec());
    let mut unbroken = b"abcdefghij".to_vec();
    logfile::bound(&mut unbroken, 5, 4);
    assert_eq!(unbroken, b"ghij".to_vec());
    let mut small = b"ab\ncd".to_vec();
    logfile::bound(&mut small, 1, 100);
    assert_eq!(small, b"cd".to_vec());
}

#[test]
fn appended_lines_are_read_back_in_order() {
    let mut content: Vec<u8> = Vec::new();
    logfile::append_line(&mut content, "первая", 1000, 100);
    logfile::append_line(&mut content, "second", 1000, 100);
    assert_eq!(content, "первая\nsecond\n".as_bytes().to_vec());
    assert_eq!(logfile::log_lines(&content), vec!["первая".to_string(), "second".to_string()]);
    assert_eq!(
        logfile::log_lines(&b"a\r\nb\n\nc".to_vec()),
        vec!["a".to_string(), "b".to_string(), String::new(), "c".to_string()]
    );
}

fn plain_env() -> paths::Env {
    paths::Env {
        home: Some("/home/u".to_string()),
        xdg_data_home: None,
        xdg_state_home: None,
        xdg_config_home: None,
    }
}

#[test]
fn paths_default_below_the_home() {
    let env = plain_env();
    assert_eq!(paths::home(&env), "/home/u");
    assert_eq!(
        paths::services_dir(&env),
        "/home/u/.local/share/demo-ghostprovider/services"
    );
    assert_eq!(
        paths::state_file(&env),
        "/home/u/.local/state/demo-ghostprovider/state.json"
    );
    assert_eq!(
        paths::netlog_file(&env),
        "/home/u/.local/state/demo-ghostprovider/net.log"
    );
    assert_eq!(
        paths::deploy_log_file(&env),
        "/home/u/.local/state/demo-ghostprovider/deploy.log"
    );
    assert_eq!(
        paths::crash_log_file(&env),
        "/home/u/.local/state/demo-ghostprovider/crash.log"
    );
    assert_eq!(
        paths::deploy_journal_file(&env),
        "/home/u/.local/state/demo-ghostprovider/deploy-journal.json"
    );
    assert_eq!(
        paths::deploy_lock_file(&env),
        "/home/u/.local/state/demo-ghostprovider/deploy.lock"
    );
    assert_eq!(paths::user_unit_dir(&env), "/home/u/.config/systemd/user");
}

#[test]
fn paths_follow_the_xdg_roots() {
    let env = paths::Env {
        home: None,
        xdg_data_home: Some("/d".to_string()),
        xdg_state_home: Some("/s/".to_string()),
        xdg_config_home: Some("/c".to_string()),
    };
    assert_eq!(paths::services_dir(&env), "/d/demo-ghostprovider/services");
    assert_eq!(paths::crash_log_file(&env), "/s/demo-ghostprovider/crash.log");
    assert_eq!(paths::user_unit_dir(&env), "/c/systemd/user");
}

#[test]
fn join_and_children_go_by_components() {
    assert_eq!(paths::join("/a", "b"), "/a/b");
    assert_eq!(paths::join("/a/", "b"), "/a/b");
    assert_eq!(paths::join("/a", "/b"), "/b");
    assert_eq!(paths::join("", "b"), "b");
    assert_eq!(paths::join("/a", ""), "/a/");
    assert!(paths::is_child("/d/services/memos", "/d/services"));
    assert!(paths::is_child("/d//services/./memos/", "/d/services/"));
    assert!(!paths::is_child("/d/services", "/d/services"));
    assert!(!paths::is_child("/d/services/a/b", "/d/services"));
    assert!(!paths::is_child("d/services/a", "/d/services"));
    assert!(!paths::is_child("/d/services/..", "/d/other"));
    assert!(!paths::is_child("", "/d"));
}

#[test]
fn texts_are_cut_as_expected() {
    assert_eq!(text::trim("  a b\t\n"), "a b");
    assert_eq!(text::trim_start("\u{3000} x "), "x ");
    assert_eq!(text::split_once("a=b=c", "="), Some(("a".to_string(), "b=c".to_string())));
    assert_eq!(text::split_once("abc", "="), None);
    assert_eq!(text::rsplit_once("a:b:c", ':'), Some(("a:b".to_string(), "c".to_string())));
    assert_eq!(text::strip_prefix("! x", "! "), Some("x".to_string()));
    assert_eq!(text::strip_prefix("x", "! "), None);
    assert_eq!(text::words_of(" a  b\u{a0}c\n"), vec!["a", "b", "c"]);
    assert_eq!(text::replace("{p}/{p}", "{p}", "/x"), "/x//x");
    assert_eq!(text::replace("aaa", "aa", "b"), "ba");
    assert!(text::contains("abc", "bc"));
    assert!(!text::contains("abc", "cb"));
    assert!(text::ends_with("a...", "..."));
    assert_eq!(text::take_chars("привет", 3), "при");
}

#[test]
fn numbers_are_written_and_read() {
    assert_eq!(text::decimal_of(0), "0");
    assert_eq!(text::decimal_of(18446744073709551615), "18446744073709551615");
    assert_eq!(text::signed_decimal_of(-100), "-100");
    assert_eq!(text::signed_decimal_of(i32::MIN), "-2147483648");
    assert_eq!(text::signed_decimal_of(7), "7");
    assert_eq!(text::parse_uint("65535", 65535), Some(65535));
    assert_eq!(text::parse_uint("65536", 65535), None);
    assert_eq!(text::parse_uint("+7", 65535), Some(7));
    assert_eq!(text::parse_uint("007", 65535), Some(7));
    assert_eq!(text::parse_uint("", 65535), None);
    assert_eq!(text::parse_uint("+", 65535), None);
    assert_eq!(text::parse_uint("-1", 65535), None);
    assert_eq!(text::parse_uint("1 ", 65535), None);
    assert_eq!(text::parse_uint("99999999999999999999999", u64::MAX), None);
}
