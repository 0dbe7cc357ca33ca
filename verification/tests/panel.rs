use demo_ghostprovider::hoster::cancel::{is_exiting, Shutdown};
use demo_ghostprovider::hoster::models::ServiceEntry;
use demo_ghostprovider::hoster::units::UnitCommand;
use demo_ghostprovider::tui::keys::{command_char, Key};
use demo_ghostprovider::tui::messages::{
    clear_deploy_view, clear_software_view, compress_done, exit_with_reconcile, keep_logs,
    keeps_in_flight, next_tick, on_message, open_logs, open_services, push_deploy_line,
    refresh_services, reload_services, repaint_due, ExitEvent, ExitPhase, Msg, EXIT_BUDGET,
};
use demo_ghostprovider::tui::state::{
    confirm_label, on_key, App, Effect, Flavor, LogView, Screen, ServiceRow, MAX_DEPLOY_LINES,
};
use demo_ghostprovider::tui::tail::{journal_diff, tail_lines, tail_step, JournalTail};
use demo_ghostprovider::tui::workers;
use demo_ghostprovider::tui::workers::{
    action_commands, deployed_port_map, fetch_software_logs, journal_raw_for, port_rows_from,
    scan_report, service_action, service_row, Action, Interface, JournalRead, ScanResult,
    ServiceLog, SystemctlRun,
};

// --- keys -------------------------------------------------------------------

#[test]
fn command_char_passes_latin_through_case_insensitive() {
    assert_eq!(command_char(Key::Char('q')), Some('q'));
    assert_eq!(command_char(Key::Char('Q')), Some('q'));
    assert_eq!(command_char(Key::Char('Y')), Some('y'));
    assert_eq!(command_char(Key::Char('D')), Some('d'));
    assert_eq!(command_char(Key::Char(' ')), Some(' '));
    assert_eq!(command_char(Key::Char('1')), Some('1'));
    // Non-char keys never map to a command letter.
    assert_eq!(command_char(Key::Enter), None);
    assert_eq!(command_char(Key::Esc), None);
}

/// Russian ЙЦУКЕН: the same physical keys must trigger the same
/// commands as their QWERTY counterparts, upper or lower case.
#[test]
fn command_char_maps_cyrillic_positionally() {
    let cases = [
        ('й', "q"),
        ('Й', "q"), // quit
        ('л', "k"),
        ('Л', "k"), // up (vim-style)
        ('о', "j"),
        ('О', "j"), // down (vim-style)
        ('к', "r"), // refresh
        ('ы', "s"), // stop
        ('е', "t"), // start
        ('в', "d"), // delete
        ('н', "y"),
        ('Н', "y"), // yes
        ('т', "n"),
        ('Т', "n"), // no
    ];
    for (cyr, lat) in cases {
        assert_eq!(
            command_char(Key::Char(cyr)),
            Some(lat.chars().next().unwrap()),
            "{cyr} must act as {lat}"
        );
    }
}

/// Letters without a positional counterpart never fire commands.
#[test]
fn command_char_leaves_unmapped_chars_alone() {
    assert_eq!(command_char(Key::Char('б')), None);
    assert_eq!(command_char(Key::Char('ю')), None);
    assert_eq!(command_char(Key::Char('ж')), None);
    assert_eq!(command_char(Key::Char('ё')), None);
}

#[test]
fn whole_layout_rows_are_mapped() {
    for (cyr, lat) in "йцукенгшщзфывапролдячсмить".chars().zip("qwertyuiopasdfghjklzxcvbnm".chars()) {
        assert_eq!(command_char(Key::Char(cyr)), Some(lat));
        let upper = cyr.to_uppercase().next().unwrap();
        assert_eq!(command_char(Key::Char(upper)), Some(lat));
    }
    // A letter whose lower case is more than one character counts by the first.
    assert_eq!(command_char(Key::Char('İ')), Some('i'));
    assert_eq!(command_char(Key::Char('K')), Some('k'));
}

#[test]
fn confirm_label_maps_curated_repos_to_display_names() {
    assert_eq!(confirm_label("https://github.com/usememos/memos"), "Memos");
    assert_eq!(confirm_label("https://github.com/VERT-sh/VERT"), "VERT");
    assert_eq!(
        confirm_label("https://github.com/searxng/searxng"),
        "SearXNG"
    );
}

#[test]
fn confirm_label_falls_back_to_raw_url() {
    assert_eq!(
        confirm_label("https://github.com/foo/bar"),
        "https://github.com/foo/bar"
    );
    assert_eq!(confirm_label("not a url"), "not a url");
}

// --- screens ----------------------------------------------------------------

fn app(screen: Screen<String, Vec<String>, Vec<ServiceRow>>) -> App {
    let mut a = App::new(Flavor::Neon);
    a.screen = screen;
    a
}

fn press(a: &mut App, key: Key) -> Effect<String> {
    on_key(a, key, false)
}

fn selected(a: &App) -> usize {
    match &a.screen {
        Screen::Main { selected } | Screen::Services { selected, .. } => *selected,
        other => panic!("{other:?}"),
    }
}

#[test]
fn the_menu_moves_within_its_entries() {
    let mut a = App::new(Flavor::Neon);
    press(&mut a, Key::Up);
    assert_eq!(selected(&a), 0);
    for _ in 0..9 {
        press(&mut a, Key::Down);
    }
    assert_eq!(selected(&a), 3);
    press(&mut a, Key::Char('k'));
    assert_eq!(selected(&a), 2);
    press(&mut a, Key::Char('О'));
    assert_eq!(selected(&a), 3);
    assert!(matches!(press(&mut a, Key::Char('q')), Effect::Quit));
}

#[test]
fn the_menu_opens_its_screens() {
    let mut a = App::new(Flavor::Neon);
    assert!(matches!(press(&mut a, Key::Enter), Effect::StartScan(1)));
    assert!(matches!(a.screen, Screen::Scan { running: true, seq: 1, .. }));
    press(&mut a, Key::Esc);
    assert!(matches!(press(&mut a, Key::Char(' ')), Effect::StartScan(2)));

    let mut a = app(Screen::Main { selected: 1 });
    assert!(matches!(press(&mut a, Key::Enter), Effect::Nothing));
    assert!(matches!(a.screen, Screen::UrlInput { .. }));
    let mut a = app(Screen::Main { selected: 2 });
    assert!(matches!(press(&mut a, Key::Enter), Effect::OpenServices));
    let mut a = app(Screen::Main { selected: 3 });
    assert!(matches!(press(&mut a, Key::Enter), Effect::OpenLogs));
}

#[test]
fn control_c_leaves_from_anywhere() {
    let mut a = app(Screen::Deploy { lines: Vec::new(), done: None });
    assert!(matches!(on_key(&mut a, Key::Char('c'), true), Effect::Quit));
    let mut a = app(Screen::UrlInput { buffer: String::new(), error: None, busy: false });
    assert!(matches!(on_key(&mut a, Key::Char('c'), true), Effect::Quit));
    assert!(matches!(press(&mut a, Key::Char('c')), Effect::Nothing));
}

#[test]
fn a_running_deploy_can_be_left() {
    let deploy = |done: Option<bool>| app(Screen::Deploy { lines: Vec::new(), done });
    for key in [Key::Char('q'), Key::Char('Q'), Key::Char('й'), Key::Char('Й')] {
        let mut a = deploy(None);
        assert!(matches!(press(&mut a, key), Effect::Quit), "{key:?}");
        assert!(matches!(a.screen, Screen::Deploy { done: None, .. }));
        let mut a = deploy(Some(true));
        assert!(matches!(press(&mut a, key), Effect::Nothing), "{key:?}");
        assert!(matches!(a.screen, Screen::Main { selected: 1 }));
    }
    for key in [Key::Enter, Key::Esc] {
        let mut a = deploy(Some(false));
        assert!(matches!(press(&mut a, key), Effect::Nothing), "{key:?}");
        assert!(matches!(a.screen, Screen::Main { selected: 1 }));
    }
    for key in [Key::Esc, Key::Enter, Key::Char('d'), Key::Up, Key::Tab] {
        let mut a = deploy(None);
        assert!(matches!(press(&mut a, key), Effect::Nothing), "{key:?}");
        assert!(matches!(a.screen, Screen::Deploy { done: None, .. }));
    }
}

#[test]
fn an_address_is_typed_confirmed_and_deployed() {
    let mut a = app(Screen::UrlInput { buffer: String::new(), error: None, busy: false });
    press(&mut a, Key::Enter);
    match &a.screen {
        Screen::UrlInput { error, .. } => assert_eq!(error.as_deref(), Some("enter a GitHub URL")),
        other => panic!("{other:?}"),
    }
    for c in " https://github.com/usememos/memosй".chars() {
        press(&mut a, Key::Char(c));
    }
    press(&mut a, Key::Backspace);
    press(&mut a, Key::Enter);
    match &a.screen {
        Screen::Confirm { url, service_label, yes_selected } => {
            assert_eq!(url, "https://github.com/usememos/memos");
            assert_eq!(service_label, "Memos");
            assert!(*yes_selected);
        }
        other => panic!("{other:?}"),
    }
    press(&mut a, Key::Char('n'));
    press(&mut a, Key::Char('Н'));
    match press(&mut a, Key::Enter) {
        Effect::StartDeploy(url) => assert_eq!(url, "https://github.com/usememos/memos"),
        other => panic!("{other:?}"),
    }
    match &a.screen {
        Screen::Deploy { lines, done } => {
            assert_eq!(lines, &vec!["deploying https://github.com/usememos/memos..."]);
            assert!(done.is_none());
        }
        other => panic!("{other:?}"),
    }
    assert!(matches!(press(&mut a, Key::Enter), Effect::Nothing));
    assert!(matches!(a.screen, Screen::Deploy { .. }), "a running deploy keeps its screen");
}

#[test]
fn a_refused_deploy_keeps_the_address() {
    let confirm = || {
        app(Screen::Confirm {
            url: "u".to_string(),
            service_label: "l".to_string(),
            yes_selected: true,
        })
    };
    for key in [Key::Esc, Key::Char('n')] {
        let mut a = confirm();
        press(&mut a, key);
        if matches!(a.screen, Screen::Confirm { .. }) {
            assert!(matches!(press(&mut a, Key::Enter), Effect::Nothing));
        }
        match &a.screen {
            Screen::UrlInput { buffer, .. } => assert_eq!(buffer, "u"),
            other => panic!("{other:?}"),
        }
    }
}

fn row(name: &str) -> ServiceRow {
    ServiceRow { name: name.to_string(), status: "active".to_string(), url: String::new() }
}

#[test]
fn services_are_stopped_started_and_deleted() {
    let services = || {
        app(Screen::Services {
            rows: vec![row("a"), row("b")],
            selected: 0,
            message: None,
        })
    };
    let mut a = services();
    press(&mut a, Key::Down);
    assert_eq!(selected(&a), 1);
    press(&mut a, Key::Down);
    assert_eq!(selected(&a), 1);
    assert!(matches!(press(&mut a, Key::Char('s')), Effect::StopService(n) if n == "b"));
    let mut a = services();
    assert!(matches!(press(&mut a, Key::Char('t')), Effect::StartService(n) if n == "a"));
    let mut a = services();
    assert!(matches!(press(&mut a, Key::Char('r')), Effect::RefreshServices));
    let mut a = services();
    assert!(matches!(press(&mut a, Key::Char('d')), Effect::Nothing));
    assert!(matches!(&a.screen, Screen::ConfirmDelete { name, yes_selected: false } if name == "a"));
    assert!(matches!(press(&mut a, Key::Enter), Effect::OpenServices), "No is highlighted");
    let mut a = services();
    press(&mut a, Key::Char('в'));
    press(&mut a, Key::Left);
    assert!(matches!(press(&mut a, Key::Enter), Effect::DeleteService(n) if n == "a"));
}

#[test]
fn without_services_there_is_nothing_to_act_on() {
    let mut a = app(Screen::Services { rows: Vec::new(), selected: 0, message: None });
    for c in "stdkj".chars() {
        assert!(matches!(press(&mut a, Key::Char(c)), Effect::Nothing));
    }
    assert!(matches!(a.screen, Screen::Services { .. }));
    press(&mut a, Key::Esc);
    assert_eq!(selected(&a), 2);
}

fn some_logs(n: usize) -> App {
    let lines: Vec<String> = (0..n).map(|i| format!("l{i}")).collect();
    app(Screen::Logs {
        view: LogView::Deploy,
        deploy_lines: lines,
        software_lines: Vec::new(),
        scroll: 0,
    })
}

fn scroll(a: &App) -> usize {
    match &a.screen {
        Screen::Logs { scroll, .. } => *scroll,
        other => panic!("{other:?}"),
    }
}

#[test]
fn logs_scroll_within_their_lines() {
    let mut a = some_logs(30);
    press(&mut a, Key::End);
    assert_eq!(scroll(&a), 29);
    press(&mut a, Key::Down);
    assert_eq!(scroll(&a), 29);
    press(&mut a, Key::PageUp);
    assert_eq!(scroll(&a), 9);
    press(&mut a, Key::PageUp);
    assert_eq!(scroll(&a), 0);
    press(&mut a, Key::PageDown);
    assert_eq!(scroll(&a), 20);
    press(&mut a, Key::PageDown);
    assert_eq!(scroll(&a), 29);
    press(&mut a, Key::Home);
    press(&mut a, Key::Up);
    assert_eq!(scroll(&a), 0);
    press(&mut a, Key::Tab);
    assert!(matches!(a.screen, Screen::Logs { view: LogView::Software, scroll: 0, .. }));
    press(&mut a, Key::End);
    assert_eq!(scroll(&a), 0);
    assert!(matches!(press(&mut a, Key::Esc), Effect::LeaveLogs));
    assert_eq!(selected(&a), 3);
}

#[test]
fn a_log_is_cleared_only_after_a_question() {
    let mut a = some_logs(1);
    press(&mut a, Key::Char('d'));
    assert!(matches!(
        a.screen,
        Screen::ConfirmClear { target: LogView::Deploy, yes_selected: false }
    ));
    assert!(matches!(press(&mut a, Key::Enter), Effect::KeepLog(LogView::Deploy)));
    let mut a = some_logs(1);
    press(&mut a, Key::Char('d'));
    press(&mut a, Key::Char('y'));
    assert!(matches!(press(&mut a, Key::Enter), Effect::ClearLog(LogView::Deploy)));
    // The red panel does not clear logs.
    let mut a = some_logs(1);
    a.flavor = Flavor::Red;
    press(&mut a, Key::Char('d'));
    assert!(matches!(a.screen, Screen::Logs { .. }));
}

// --- messages ---------------------------------------------------------------

/// The deploy log is bounded: pushing far beyond the cap never lets the
/// in-memory buffer (and thus per-frame re-render cost) grow without limit,
/// and the newest tail is preserved so users still see the live build.
#[test]
fn deploy_log_is_bounded_and_keeps_the_tail() {
    let mut lines: Vec<String> = Vec::new();
    for i in 0..(MAX_DEPLOY_LINES * 2) {
        push_deploy_line(&mut lines, format!("line {i}"));
    }
    assert_eq!(lines.len(), MAX_DEPLOY_LINES);
    // Oldest lines are dropped; the newest remain visible.
    assert!(!lines.iter().any(|l| l == "line 0"));
    let expected_last = format!("line {}", MAX_DEPLOY_LINES * 2 - 1);
    assert_eq!(lines.last().map(String::as_str), Some(expected_last.as_str()));
}

#[test]
fn a_finished_deploy_keeps_what_matters() {
    let mut lines: Vec<String> = [
        "deploying u...",
        "! error",
        "  warn: x",
        "sandbox: FULL",
        "provision: bun",
        "build: chatter",
        "✔ deployed",
        "",
        "x listening on y",
        "deployment failed",
    ]
    .iter()
    .map(|s| s.to_string())
    .collect();
    compress_done(&mut lines);
    assert_eq!(
        lines,
        vec![
            "! error",
            "  warn: x",
            "sandbox: FULL",
            "provision: bun",
            "✔ deployed",
            "",
            "x listening on y",
            "deployment failed",
        ]
    );
}

fn deploy_screen(a: &App) -> (&Vec<String>, Option<bool>) {
    match &a.screen {
        Screen::Deploy { lines, done } => (lines, *done),
        other => panic!("{other:?}"),
    }
}

#[test]
fn a_deploy_is_followed_to_its_verdict() {
    let mut a = app(Screen::Deploy { lines: vec!["deploying u...".to_string()], done: None });
    assert!(!on_message(&mut a, &Msg::Log("! one\ntwo".to_string())));
    assert_eq!(deploy_screen(&a).0, &vec!["deploying u...", "! one", "two"]);
    assert_eq!(a.deploy_history, vec!["! one", "two"]);
    on_message(&mut a, &Msg::DeployDone(false));
    let (lines, done) = deploy_screen(&a);
    assert_eq!(done, Some(false));
    assert_eq!(lines[0], "! one");
    assert_eq!(a.deploy_history.last().unwrap(), "deploy done: failed");
    press(&mut a, Key::Enter);
    assert_eq!(selected(&a), 1);
}

#[test]
fn late_scans_are_dropped() {
    let mut a = app(Screen::Scan { report: None, running: true, seq: 2 });
    on_message(&mut a, &Msg::ScanDone(1, "old".to_string()));
    assert!(matches!(&a.screen, Screen::Scan { report: None, running: true, .. }));
    on_message(&mut a, &Msg::ScanDone(2, "new".to_string()));
    assert!(matches!(&a.screen, Screen::Scan { report: Some(r), running: false, .. } if r == "new"));
}

#[test]
fn a_signal_ends_the_panel() {
    let mut a = App::new(Flavor::Red);
    assert!(on_message(&mut a, &Msg::Terminate));
}

#[test]
fn logs_are_followed_and_cleared() {
    let mut a = some_logs(1);
    on_message(&mut a, &Msg::TailLog("x".to_string()));
    on_message(&mut a, &Msg::SoftwareLog("y".to_string()));
    match &a.screen {
        Screen::Logs { deploy_lines, software_lines, .. } => {
            assert_eq!(deploy_lines, &vec!["l0", "x"]);
            assert_eq!(software_lines, &vec!["y"]);
        }
        other => panic!("{other:?}"),
    }
    on_message(&mut a, &Msg::DeployLogsCleared);
    on_message(&mut a, &Msg::SoftwareLogsCleared);
    assert!(a.deploy_history.is_empty() && a.software_history.is_empty());
    match &a.screen {
        Screen::Logs { deploy_lines, software_lines, .. } => {
            assert_eq!(deploy_lines, &vec!["Logs cleared."]);
            assert_eq!(software_lines, &vec!["Logs cleared."]);
        }
        other => panic!("{other:?}"),
    }
}

#[test]
fn effects_bring_their_screens() {
    let mut a = App::new(Flavor::Neon);
    open_services(&mut a, vec![row("a")], Some("m".to_string()));
    assert!(matches!(&a.screen, Screen::Services { rows, selected: 0, message: Some(m) }
        if rows.len() == 1 && m == "m"));
    refresh_services(&mut a, vec![row("a"), row("b")], "n".to_string());
    assert!(matches!(&a.screen, Screen::Services { rows, message: Some(m), .. }
        if rows.len() == 2 && m == "n"));
    reload_services(&mut a, vec![row("b")]);
    assert!(matches!(&a.screen, Screen::Services { rows, message: Some(m), .. }
        if rows.len() == 1 && m == "refreshed"));
    let list = |s: &str| vec![s.to_string()];
    open_logs(&mut a, &list("log"), &list("fetched"));
    assert!(matches!(&a.screen, Screen::Logs { .. }));
    clear_deploy_view(&mut a, &list("fetched"));
    assert!(matches!(&a.screen, Screen::Logs { view: LogView::Deploy, .. }));
    clear_software_view(&mut a, &list("log"));
    assert!(matches!(&a.screen, Screen::Logs { view: LogView::Software, .. }));
    keep_logs(&mut a, LogView::Software, &list("log"), &list("fetched"));
    assert!(matches!(&a.screen, Screen::Logs { view: LogView::Software, .. }));
    let before = a.tick;
    next_tick(&mut a);
    assert_eq!(a.tick, before + 1);
    a.tick = u64::MAX;
    next_tick(&mut a);
    assert_eq!(a.tick, 0);
    let due = (0..1000).filter(|t| repaint_due(*t)).count();
    assert!(due > 0 && due < 1000);
}

#[test]
fn leaving_stops_the_writers_before_it_removes() {
    for flavor in [Flavor::Neon, Flavor::Red] {
        let mut a = App::new(flavor);
        let mut phase = ExitPhase::Staying;
        let mut shutdown = Shutdown::new();
        let steps = vec![
            (ExitEvent::Reconciled(vec!["early".to_string()]), ExitPhase::Staying),
            (ExitEvent::Leave, ExitPhase::Quiescing),
            (ExitEvent::Looked(true, 0), ExitPhase::Quiescing),
            (ExitEvent::Reconciled(vec!["early".to_string()]), ExitPhase::Quiescing),
            (ExitEvent::Looked(true, 9_999), ExitPhase::Quiescing),
            (ExitEvent::Looked(false, 9_999), ExitPhase::Unwinding),
            (ExitEvent::Worker(Some(false), 9_999), ExitPhase::Unwinding),
            (ExitEvent::Worker(Some(true), 0), ExitPhase::Reconciling),
            (ExitEvent::Reconciled(vec!["cleanup: x".to_string()]), ExitPhase::Left),
        ];
        for (event, then) in steps {
            exit_with_reconcile(&mut a, &mut phase, &mut shutdown, &event);
            assert_eq!(phase, then, "{event:?}");
            assert_eq!(is_exiting(&shutdown), then != ExitPhase::Staying);
        }
        let notices: Vec<&str> = if flavor == Flavor::Neon { vec!["cleanup: x"] } else { vec![] };
        assert_eq!(a.exit_notices, notices);
    }
    // The wait is bounded.
    let mut a = App::new(Flavor::Neon);
    let mut shutdown = Shutdown::new();
    let mut phase = ExitPhase::Quiescing;
    exit_with_reconcile(&mut a, &mut phase, &mut shutdown, &ExitEvent::Looked(true, EXIT_BUDGET));
    assert_eq!(phase, ExitPhase::Unwinding);
    let late = ExitEvent::Worker(Some(false), EXIT_BUDGET);
    exit_with_reconcile(&mut a, &mut phase, &mut shutdown, &late);
    assert_eq!(phase, ExitPhase::Reconciling);
}

// --- following logs ---------------------------------------------------------

#[test]
fn a_log_is_read_on_from_where_it_was_left() {
    let content = |s: &str| Some(s.as_bytes().to_vec());
    let t = tail_step(0, &content("a\nb\n"));
    assert_eq!((t.cleared, t.lines, t.pos), (false, vec!["a".to_string(), "b".to_string()], 4));
    let t = tail_step(4, &content("a\nb\n"));
    assert!(!t.cleared && t.lines.is_empty() && t.pos == 4);
    let t = tail_step(4, &content("a\nb\nc\n"));
    assert_eq!((t.cleared, t.lines, t.pos), (false, vec!["c".to_string()], 6));
    let t = tail_step(6, &content("x\n"));
    assert!(t.cleared && t.lines.is_empty() && t.pos == 2);
    let t = tail_step(6, &None);
    assert!(t.cleared && t.lines.is_empty() && t.pos == 0);
    assert!(!tail_step(0, &None).cleared);
    // Bytes that are no text do not stop the log.
    let t = tail_step(0, &Some(vec![b'a', 0xff, b'\n', b'b', b'\n']));
    assert_eq!(t.lines, vec!["a\u{fffd}".to_string(), "b".to_string()]);
}

#[test]
fn empty_lines_are_shown_only_in_gaps() {
    assert_eq!(tail_lines("\na\n"), vec!["a"]);
    assert_eq!(tail_lines("a\n\nb\n"), vec!["a", "", "b"]);
}

#[test]
fn a_journal_is_shown_whole_grown_or_rotated() {
    let list = |v: &[&str]| v.iter().map(|s| s.to_string()).collect::<Vec<String>>();
    let cur = list(&["1", "2"]);
    assert_eq!(journal_diff("n", "u", &None, &cur), vec!["== n (u) ==", "1", "2"]);
    assert!(journal_diff("n", "u", &Some(cur.clone()), &cur).is_empty());
    assert_eq!(journal_diff("n", "u", &Some(list(&["1"])), &cur), vec!["2"]);
    assert_eq!(
        journal_diff("n", "u", &Some(list(&["0", "1"])), &cur),
        vec!["-- n log rotated --", "1", "2"]
    );
}

#[test]
fn journals_are_followed_by_name() {
    let list = |v: &[&str]| v.iter().map(|s| s.to_string()).collect::<Vec<String>>();
    let mut t = JournalTail::new();
    t.seed("a", &list(&["1"]));
    // What was there before is not shown again; a new service is introduced.
    assert!(t.follow("a", "ua", &list(&["1"])).is_empty());
    assert_eq!(t.follow("a", "ua", &list(&["1", "2"])), vec!["2"]);
    assert_eq!(t.follow("b", "ub", &list(&["x"])), vec!["== b (ub) ==", "x"]);
    assert!(t.follow("a", "ua", &list(&["1", "2"])).is_empty());
    assert_eq!(t.follow("a", "ua", &list(&["9"])), vec!["-- a log rotated --", "9"]);
    // A service that went away and came back is introduced again.
    t.keep_only(&list(&["b"]));
    assert!(t.follow("b", "ub", &list(&["x"])).is_empty());
    assert_eq!(t.follow("a", "ua", &list(&["9"])), vec!["== a (ua) ==", "9"]);
}

// --- workers ----------------------------------------------------------------

fn entry(unit: &str, urls: &[&str]) -> (String, ServiceEntry) {
    (
        unit.to_string(),
        ServiceEntry {
            unit_name: unit.to_string(),
            project_dir: format!("/tmp/{unit}"),
            url: "https://example.com/x".into(),
            urls: urls.iter().map(|s| s.to_string()).collect(),
        },
    )
}

#[test]
fn port_map_parses_urls_and_skips_garbage() {
    let entries = vec![
        entry("demo-vert", &["http://localhost:10748"]),
        entry(
            "demo-memos",
            &["http://localhost:8075", "not-a-url", "ftp://x"],
        ),
    ];
    let map = deployed_port_map(&entries);
    assert_eq!(map.get(&10748).unwrap(), "demo-vert");
    assert_eq!(map.get(&8075).unwrap(), "demo-memos");
    assert!(map.len() == 2);
}

#[test]
fn listening_table_lists_all_ports_but_attributes_only_deployed() {
    let entries = vec![
        entry("demo-vert", &["http://localhost:10748"]),
        entry("demo-memos", &["http://localhost:23920"]),
    ];
    let map = deployed_port_map(&entries);

    // Every occupied port appears, sorted and deduplicated; foreign
    // listeners (9050 tor, 5432 postgres) stay anonymous.
    let rows = port_rows_from(&vec![23920, 9050, 10748, 5432, 10748], &map);
    assert_eq!(
        rows,
        vec![
            (5432, None),
            (9050, None),
            (10748, Some("demo-vert".to_string())),
            (23920, Some("demo-memos".to_string())),
        ]
    );

    // Nothing listening → empty table.
    assert!(port_rows_from(&vec![], &map).is_empty());
}

#[test]
fn the_last_entry_of_a_port_names_it() {
    let entries = vec![
        entry("demo-vert", &["http://localhost:7"]),
        entry("demo-memos", &["http://localhost:7"]),
    ];
    assert_eq!(deployed_port_map(&entries).get(&7).unwrap(), "demo-memos");
}

fn scan(tools: bool) -> ScanResult {
    ScanResult {
        started: "2026-02-18T09:30:00Z".to_string(),
        systemd: tools,
        systemd_nspawn: tools,
        git: tools,
        python3: tools,
        node: true,
        python3_on_path: tools,
        node_on_path: true,
        network: tools,
        interfaces: Vec::new(),
        listening_ports: Vec::new(),
        errors: Vec::new(),
    }
}

#[test]
fn a_scan_report_reads_exactly() {
    let mut r = scan(true);
    r.interfaces = vec![Interface {
        name: "lo".to_string(),
        ip: "127.0.0.1".to_string(),
        status: "up".to_string(),
    }];
    r.errors = vec!["no ss".to_string()];
    let rows = vec![(5432, None), (23920, Some("demo-memos".to_string()))];
    assert_eq!(
        scan_report(&r, &rows),
        "  scanned at 2026-02-18T09:30:00Z\n\
         [x] systemd          found\n\
         [x] systemd-nspawn   available\n\
         [x] git              found\n\
         [x] python3 / node   found / found\n\
         [x] network          online\n\
         \nInterfaces:\n\
         \x20 lo             127.0.0.1          up\n\
         \nListening ports:\n\
         \x20 PORT   SERVICE\n\
         \x20 5432  \n\
         \x20 23920  demo-memos (deployed)\n\
         \n! no ss\n"
    );
    assert_eq!(
        scan_report(&scan(false), &Vec::new()),
        "  scanned at 2026-02-18T09:30:00Z\n\
         [ ] systemd          MISSING\n\
         [ ] systemd-nspawn   not installed\n\
         [ ] git              MISSING\n\
         [ ] python3 / node   missing / found\n\
         [ ] network          offline\n\
         \nListening ports:\n\
         \x20 (none)\n"
    );
}

#[test]
fn services_are_listed_with_state_and_address() {
    let e = entry("demo-memos", &["http://localhost:7", "x"]).1;
    let r = service_row("n", &e, &Some(" active\n".to_string()));
    assert_eq!((r.name.as_str(), r.status.as_str(), r.url.as_str()), ("n", "active", "http://localhost:7"));
    let r = service_row("n", &entry("u", &[]).1, &None);
    assert_eq!((r.status.as_str(), r.url.as_str()), ("unknown", ""));
}

#[test]
fn actions_report_how_they_went() {
    let say = |a: Action, run: SystemctlRun| service_action("n", a, &run);
    assert_eq!(say(Action::Restart, SystemctlRun::Succeeded), "n: restarted");
    assert_eq!(
        say(Action::Restart, SystemctlRun::Failed("no\n".to_string())),
        "n: restart failed — no"
    );
    assert_eq!(say(Action::Stop, SystemctlRun::Succeeded), "n: stoped");
    assert_eq!(say(Action::Start, SystemctlRun::Succeeded), "n: started");
    assert_eq!(
        say(Action::Start, SystemctlRun::Failed(" no unit\n".to_string())),
        "n: start failed — no unit"
    );
    assert_eq!(
        say(Action::Stop, SystemctlRun::Unavailable("not found".to_string())),
        "n: stop failed — not found"
    );
    assert_eq!(say(Action::Delete, SystemctlRun::Succeeded), "n: deleted");
}

#[test]
fn a_start_clears_what_would_refuse_it() {
    assert_eq!(action_commands(Action::Stop), vec![UnitCommand::Stop]);
    assert_eq!(
        action_commands(Action::Start),
        vec![UnitCommand::ResetFailed, UnitCommand::Enable, UnitCommand::Start]
    );
    assert_eq!(action_commands(Action::Restart), vec![UnitCommand::Restart]);
    assert!(action_commands(Action::Delete).is_empty());
}

#[test]
fn the_red_panel_keeps_what_still_runs() {
    assert!(keeps_in_flight(Flavor::Red));
    assert!(!keeps_in_flight(Flavor::Neon));
}

#[test]
fn software_logs_are_gathered_by_service() {
    assert_eq!(
        fetch_software_logs(&Vec::new()),
        vec!["No services deployed yet.", "Deploy a service to see its journal here."]
    );
    let log = |name: &str, journal: JournalRead| ServiceLog {
        name: name.to_string(),
        unit_name: format!("{name}.service"),
        journal,
    };
    assert_eq!(
        fetch_software_logs(&vec![
            log("a", JournalRead::Printed("1\n2\n".to_string())),
            log("b", JournalRead::Printed(String::new())),
            log("c", JournalRead::Failed(" bad \n".to_string())),
            log("d", JournalRead::Failed("\n".to_string())),
            log("e", JournalRead::Unavailable("gone".to_string())),
        ]),
        vec![
            "== a (a.service) ==", "1", "2", "",
            "== b (b.service) ==", "(no log output yet)", "",
            "== c (c.service) ==", "(journalctl: bad)", "",
            "== d (d.service) ==", "(no journal entries)", "",
            "== e (e.service) ==", "(journalctl not available: gone)", "",
        ]
    );
    assert_eq!(journal_raw_for(&JournalRead::Printed("1\n2".to_string())), vec!["1", "2"]);
    assert!(journal_raw_for(&JournalRead::Failed("x".to_string())).is_empty());
}

#[test]
fn deploys_are_marked_in_the_log() {
    assert_eq!(workers::started_line("u", "t"), "== deploy u started at t ==");
    assert_eq!(workers::done_line("u", true, false).as_deref(), Some("== deploy u done: ok =="));
    assert_eq!(workers::done_line("u", false, false).as_deref(), Some("== deploy u done: failed =="));
    assert_eq!(workers::done_line("u", true, true), None);
    assert_eq!(workers::interrupted_line("u"), "== deploy u done: interrupted ==");
    let mut log: Vec<u8> = Vec::new();
    workers::append_deploy_log(&mut log, "one");
    workers::append_deploy_lines(&mut log, &vec!["two".to_string(), "three".to_string()]);
    let mut file = Some(log);
    assert_eq!(workers::read_deploy_log(&file), vec!["one", "two", "three"]);
    workers::clear_deploy_log(&mut file);
    assert!(workers::read_deploy_log(&file).is_empty());
}
