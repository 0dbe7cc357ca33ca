use demo_ghostprovider::hoster::cancel;
use demo_ghostprovider::hoster::cancel::{kill_descendants, parse_ppid, Process};
use demo_ghostprovider::hoster::github::parse_github_url;
use demo_ghostprovider::hoster::journal;
use demo_ghostprovider::hoster::journal::{DeployState, Journal};
use demo_ghostprovider::hoster::lock;
use demo_ghostprovider::hoster::lock::LockAttempt;
use demo_ghostprovider::hoster::recipes::{find_recipe, Curated};
use demo_ghostprovider::hoster::toolcheck::{split_issue, Ver};

#[test]
fn parse_ppid_handles_parens_in_comm() {
    // `(sd-pam)` / `(a b)` / `(x)y)` comm fields must not shift the ppid.
    assert_eq!(parse_ppid("1234 (bash) S 42 1234 1234 0 -1"), Some(42));
    assert_eq!(parse_ppid("1234 (a b) S 7 1234 1234 0 -1"), Some(7));
    assert_eq!(parse_ppid("1234 (weird)name) R 9 1 1"), Some(9));
    assert_eq!(parse_ppid("garbage"), None);
}

#[test]
fn parse_ppid_wants_a_number() {
    assert_eq!(parse_ppid("1 (a) S"), None);
    assert_eq!(parse_ppid("1 (a) S x"), None);
    assert_eq!(parse_ppid("1 (a) S 4294967295 0"), Some(u32::MAX));
    assert_eq!(parse_ppid("1 (a) S 4294967296 0"), None);
}

fn process(pid: u32, parent: u32) -> Process {
    Process { pid, parent }
}

#[test]
fn kill_descendants_of_a_missing_pid_is_a_noop() {
    // A pid that cannot exist has no entry in the process table, so nothing
    // is signalled.
    let table = vec![process(1, 0), process(2, 1), process(3, 2)];
    assert_eq!(kill_descendants(u32::MAX, &table).len(), 0);
    assert_eq!(cancel::count_killed(&Vec::new()), 0);
}

#[test]
fn descendants_die_before_their_parents() {
    let table = vec![
        process(1, 0),
        process(10, 1),
        process(11, 10),
        process(12, 10),
        process(13, 12),
        process(20, 1),
        process(21, 20),
    ];
    let mut order = kill_descendants(10, &table);
    let at = |pid: u32| order.iter().position(|p| *p == pid);
    assert!(at(13).unwrap() < at(12).unwrap());
    assert_eq!(at(10), None, "the root itself is spared");
    order.sort();
    assert_eq!(order, vec![11, 12, 13]);
}

#[test]
fn only_successful_kills_are_counted() {
    assert_eq!(cancel::count_killed(&vec![0, -1, 0, 0]), 3);
}

#[test]
fn exit_is_requested_once_and_for_all() {
    let mut s = cancel::Shutdown::new();
    assert!(!cancel::is_exiting(&s));
    cancel::request_exit(&mut s);
    assert!(cancel::is_exiting(&s));
    cancel::request_exit(&mut s);
    assert!(cancel::is_exiting(&s));
}

#[test]
fn roundtrips_and_tracks_lifecycle() {
    let mut j = Journal::new();
    assert!(journal::entries(&j).is_empty(), "fresh state must have no entries");
    journal::begin(&mut j, "demo-vert", "https://github.com/VERT-sh/VERT", "2026-02-18T09:30:00Z");
    let (service, entry) = journal::entries(&j).into_iter().next().unwrap();
    assert_eq!(service, "demo-vert");
    assert_eq!(entry.state, DeployState::Deploying);
    assert_eq!(entry.url, "https://github.com/VERT-sh/VERT");
    assert!(!entry.started_at.is_empty());

    journal::mark(&mut j, "demo-vert", DeployState::Registering);
    assert_eq!(journal::entries(&j)[0].1.state, DeployState::Registering);
    journal::mark(&mut j, "demo-vert", DeployState::Registered);
    assert_eq!(journal::entries(&j)[0].1.state, DeployState::Registered);

    journal::clear(&mut j, "demo-vert");
    assert!(journal::entries(&j).is_empty(), "entry must be gone after clear");
    journal::clear(&mut j, "demo-vert");
}

#[test]
fn clear_preserves_unrelated_entries() {
    let mut j = Journal::new();
    journal::begin(&mut j, "demo-vert", "u1", "t1");
    journal::begin(&mut j, "demo-memos", "u2", "t2");
    journal::mark(&mut j, "demo-vert", DeployState::Registered);
    journal::clear(&mut j, "demo-vert");

    let remaining = journal::entries(&j);
    assert_eq!(remaining.len(), 1);
    assert_eq!(remaining[0].0, "demo-memos");
    assert_eq!(remaining[0].1.url, "u2");
}

#[test]
fn entries_are_sorted_by_service() {
    let mut j = Journal::new();
    for name in ["demo-vert", "demo-memos", "demo", "élan", "demo-searxng"] {
        journal::begin(&mut j, name, name, "t");
    }
    let names: Vec<String> = journal::entries(&j).into_iter().map(|e| e.0).collect();
    let mut sorted = names.clone();
    sorted.sort();
    assert_eq!(names, sorted);
    assert_eq!(names.len(), 5);
}

#[test]
fn a_second_begin_replaces_the_entry() {
    let mut j = Journal::new();
    journal::begin(&mut j, "demo-vert", "u1", "t1");
    journal::mark(&mut j, "demo-vert", DeployState::Registered);
    journal::begin(&mut j, "demo-vert", "u2", "t2");
    let all = journal::entries(&j);
    assert_eq!(all.len(), 1);
    assert_eq!(all[0].1.url, "u2");
    assert_eq!(all[0].1.started_at, "t2");
    assert_eq!(all[0].1.state, DeployState::Deploying);
}

#[test]
fn marks_and_clears_tell_whether_there_was_an_entry() {
    let mut j = Journal::new();
    assert!(!journal::mark(&mut j, "demo-vert", DeployState::Registered));
    assert!(!journal::clear(&mut j, "demo-vert"));
    journal::begin(&mut j, "demo-vert", "u", "t");
    assert!(journal::mark(&mut j, "demo-vert", DeployState::Registered));
    assert!(journal::clear(&mut j, "demo-vert"));
    assert!(!journal::clear(&mut j, "demo-vert"));
}

/// The first attempt returns zero, the second is refused until the guard of
/// the first is gone.
#[test]
fn second_exclusive_attempt_blocks_until_release() {
    let free = LockAttempt::Tried(0);
    let held = LockAttempt::Tried(-1);
    assert!(!lock::is_locked(free), "fresh state dir has no lock");
    let guard = lock::try_lock_exclusive(free).expect("first acquirer gets the lock");
    assert!(lock::try_lock_exclusive(held).is_none(), "second acquirer must be refused");
    assert!(lock::is_locked(held), "probe sees the held lock");
    drop(guard);
    assert!(!lock::is_locked(free), "lock released on guard drop");
}

#[test]
fn a_lock_file_that_cannot_be_opened_is_held() {
    assert!(lock::try_lock_exclusive(LockAttempt::NotOpened).is_none());
    assert!(lock::is_locked(LockAttempt::NotOpened));
}

#[test]
fn github_addresses_name_owner_and_repository() {
    assert_eq!(
        parse_github_url("https://github.com/usememos/memos"),
        Some(("usememos".to_string(), "memos".to_string()))
    );
    assert_eq!(parse_github_url("https://github.com/usememos"), None);
    assert_eq!(parse_github_url("https://github.com/a/b/c"), None);
    assert_eq!(parse_github_url("https://github.com//memos"), None);
    assert_eq!(parse_github_url("https://github.com/usememos/"), None);
    assert_eq!(parse_github_url("http://github.com/usememos/memos"), None);
}

#[test]
fn exactly_three_services_are_curated() {
    assert_eq!(find_recipe("VERT-sh", "VERT"), Some(Curated::Vert));
    assert_eq!(find_recipe("searxng", "searxng"), Some(Curated::Searxng));
    assert_eq!(find_recipe("usememos", "memos"), Some(Curated::Memos));
    assert_eq!(find_recipe("usememos", "VERT"), None);
    assert_eq!(find_recipe("vert-sh", "vert"), None);
    assert_eq!(Curated::Vert.display_name(), "VERT");
    assert_eq!(Curated::Searxng.display_name(), "SearXNG");
    assert_eq!(Curated::Memos.display_name(), "Memos");
}

#[test]
fn versions_are_ordered_by_their_numbers() {
    let v = |major: u64, minor: u64, patch: u64| Ver { major, minor, patch };
    assert!(v(1, 26, 6).is_older(&v(1, 27, 0)));
    assert!(v(1, 27, 0).is_older(&v(1, 27, 1)));
    assert!(v(0, 99, 99).is_older(&v(1, 0, 0)));
    assert!(!v(1, 27, 0).is_older(&v(1, 27, 0)));
    assert!(!v(2, 0, 0).is_older(&v(1, 27, 0)));
}

#[test]
fn issues_are_taken_apart() {
    let i = split_issue("A needs B — update first: run c  (a note)").unwrap();
    assert_eq!(i.problem, "A needs B");
    assert_eq!(i.fix, "run c");
    assert_eq!(i.note.as_deref(), Some("(a note)"));
    let i = split_issue("A needs B — install: run c").unwrap();
    assert_eq!(i.problem, "A needs B");
    assert_eq!(i.fix, "run c");
    assert!(i.note.is_none());
    assert!(split_issue("A needs B").is_none());
}
