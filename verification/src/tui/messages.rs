//! What the panel does with the messages of its workers, and with what an
//! effect brought back.

use vstd::prelude::*;

use crate::hoster::cancel::{self, Shutdown};
use crate::hoster::deploy::reconcile;
use crate::hoster::deploy::steps;
use crate::text;
use crate::tui::state::{
    self, App, AppText, Flavor, LogView, PanelScreen, Screen, ScreenText, ServiceRow,
    MAX_DEPLOY_LINES,
};
use crate::tui::workers;

verus! {

/// A message of a worker.
#[derive(Debug)]
pub enum Msg {
    Log(String),
    ScanDone(u64, String),
    DeployDone(bool),
    SoftwareLog(String),
    TailLog(String),
    DeployLogsCleared,
    SoftwareLogsCleared,
    /// Shutdown requested by a termination signal.
    Terminate,
}

// ---------------------------------------------------------------------------
// Bounded buffers
// ---------------------------------------------------------------------------

/// A buffer with a line added, and its oldest lines dropped beyond the bound.
pub open spec fn buffered(lines: Seq<Seq<char>>, line: Seq<char>) -> Seq<Seq<char>> {
    steps::last_of(lines.push(line), MAX_DEPLOY_LINES as int)
}

/// A buffer with lines added, one after the other.
pub open spec fn buffered_all(lines: Seq<Seq<char>>, more: Seq<Seq<char>>) -> Seq<Seq<char>>
    decreases more.len(),
{
    if more.len() == 0 {
        lines
    } else {
        buffered(buffered_all(lines, more.drop_last()), more.last())
    }
}

/// A buffer with a message added, line by line.
pub open spec fn buffered_text(lines: Seq<Seq<char>>, message: Seq<char>) -> Seq<Seq<char>> {
    buffered_all(lines, text::split(message, '\n'))
}

/// Push one log line onto the bounded deploy buffer, trimming the oldest
/// lines once the cap is exceeded so the screen stays responsive on very
/// long builds.
pub fn push_deploy_line(lines: &mut Vec<String>, line: String)
    ensures
        text::texts(final(lines)@) == buffered(text::texts(old(lines)@), line@),
{
    let ghost before = text::texts(lines@);
    proof {
        text::lemma_texts_push(lines@, line);
    }
    lines.push(line);
    let n: usize = lines.len();
    assert(text::texts(lines@).len() == n);
    if n > MAX_DEPLOY_LINES {
        let overflow: usize = n - MAX_DEPLOY_LINES;
        let ghost all = lines@;
        let tail = lines.split_off(overflow);
        assert(text::texts(tail@) =~= text::texts(all).subrange(overflow as int, n as int));
        *lines = tail;
    }
}

fn push_message(lines: &mut Vec<String>, message: &str)
    ensures
        text::texts(final(lines)@) == buffered_text(text::texts(old(lines)@), message@),
{
    let parts = text::split_at_char(message, '\n');
    let ghost all = text::split(message@, '\n');
    let ghost before = text::texts(lines@);
    assert(text::texts(parts@).len() == parts@.len());
    let mut i: usize = 0;
    assert(all.take(0) =~= Seq::<Seq<char>>::empty());
    while i < parts.len()
        invariant
            i <= parts@.len(),
            all == text::texts(parts@),
            text::texts(lines@) == buffered_all(before, all.take(i as int)),
        decreases parts@.len() - i,
    {
        push_deploy_line(lines, parts[i].clone());
        assert(all[i as int] == parts@[i as int]@);
        assert(all.take(i + 1).drop_last() =~= all.take(i as int));
        i = i + 1;
    }
    assert(all.take(i as int) =~= all);
}

/// A buffer never outgrows its bound, and ends with the newest line.
pub proof fn law_buffer_is_bounded(lines: Seq<Seq<char>>, line: Seq<char>)
    ensures
        buffered(lines, line).len() <= MAX_DEPLOY_LINES,
        buffered(lines, line).last() == line,
{
}

/// A line that a finished deploy keeps.
pub open spec fn matters(line: Seq<char>) -> bool {
    let t = text::trimmed_start(line);
    text::begins(t, "!"@) || text::begins(t, "warn: "@) || text::begins(t, "sandbox: "@)
        || text::begins(t, "provision: "@) || text::begins(t, "✔"@) || text::holds(
        t,
        "listening on "@,
    ) || text::holds(t, "deployment failed"@) || t.len() == 0
}

/// The lines that a finished deploy keeps.
pub open spec fn compressed(lines: Seq<Seq<char>>) -> Seq<Seq<char>> {
    lines.filter(|l: Seq<char>| matters(l))
}

fn keeps(line: &str) -> (r: bool)
    ensures
        r == matters(line@),
{
    let t = text::trim_start(line);
    text::starts_with(t.as_str(), "!") || text::starts_with(t.as_str(), "warn: ")
        || text::starts_with(t.as_str(), "sandbox: ") || text::starts_with(
        t.as_str(),
        "provision: ",
    ) || text::starts_with(t.as_str(), "✔") || text::contains(t.as_str(), "listening on ")
        || text::contains(t.as_str(), "deployment failed") || t.as_str().is_empty()
}

/// Once a deploy finishes, its output is compressed to the lines that matter:
/// warnings, verdicts, sandbox/provision notes and the reachable URL.
pub fn compress_done(lines: &mut Vec<String>)
    ensures
        text::texts(final(lines)@) == compressed(text::texts(old(lines)@)),
{
    let ghost all = text::texts(lines@);
    let ghost keep = |l: Seq<char>| matters(l);
    let mut out = text::no_texts();
    let mut i: usize = 0;
    proof {
        reveal(Seq::filter);
        assert(all.take(0).filter(keep) =~= Seq::<Seq<char>>::empty());
    }
    while i < lines.len()
        invariant
            i <= lines@.len(),
            all == text::texts(lines@),
            keep == (|l: Seq<char>| matters(l)),
            text::texts(out@) == all.take(i as int).filter(keep),
        decreases lines@.len() - i,
    {
        proof {
            reveal(Seq::filter);
            assert(all.take(i + 1).drop_last() =~= all.take(i as int));
            assert(all[i as int] == lines@[i as int]@);
        }
        if keeps(lines[i].as_str()) {
            text::push_text(&mut out, lines[i].as_str());
        }
        i = i + 1;
    }
    assert(all.take(i as int) =~= all);
    *lines = out;
}

// ---------------------------------------------------------------------------
// Messages
// ---------------------------------------------------------------------------

pub open spec fn done_text(ok: bool) -> Seq<char> {
    "deploy done: "@ + (if ok {
        "ok"@
    } else {
        "failed"@
    })
}

/// Lines with the verdict of a failed deploy.
pub open spec fn with_verdict(lines: Seq<Seq<char>>, ok: bool) -> Seq<Seq<char>> {
    if ok {
        lines
    } else {
        buffered(lines, "deployment failed"@)
    }
}

/// Is the deploy history a mirror of the shared file? Then the lines of this
/// process's own deploy come through the file.
pub open spec fn mirrored(a: AppText) -> bool {
    a.flavor == Flavor::Neon && a.deploy_tail
}

/// The screen after a message.
pub open spec fn screen_told(a: AppText, m: Msg) -> ScreenText {
    match (a.screen, m) {
        (Screen::Scan { seq, .. }, Msg::ScanDone(n, report)) => if n == seq {
            Screen::Scan { report: Some(report@), running: false, seq }
        } else {
            a.screen
        },
        (Screen::Deploy { lines, done }, Msg::Log(line)) => Screen::Deploy {
            lines: buffered_text(lines, line@),
            done,
        },
        (Screen::Deploy { lines, .. }, Msg::DeployDone(ok)) => Screen::Deploy {
            lines: compressed(with_verdict(lines, ok)),
            done: Some(ok),
        },
        (Screen::Logs { view, deploy_lines, software_lines, scroll }, m) => {
            let with = |d: Seq<Seq<char>>, s: Seq<Seq<char>>, n: usize|
                Screen::<Seq<char>, Seq<Seq<char>>, Seq<state::RowText>>::Logs {
                    view,
                    deploy_lines: d,
                    software_lines: s,
                    scroll: n,
                };
            let top = if a.flavor == Flavor::Neon {
                0
            } else {
                scroll
            };
            match m {
                Msg::Log(line) => if a.flavor == Flavor::Red {
                    with(buffered_text(deploy_lines, line@), software_lines, scroll)
                } else {
                    a.screen
                },
                Msg::DeployDone(ok) => if a.flavor == Flavor::Red {
                    with(with_verdict(deploy_lines, ok), software_lines, scroll)
                } else {
                    a.screen
                },
                Msg::TailLog(line) => with(
                    buffered_text(deploy_lines, line@),
                    software_lines,
                    scroll,
                ),
                Msg::SoftwareLog(line) => with(
                    deploy_lines,
                    buffered_text(software_lines, line@),
                    scroll,
                ),
                Msg::DeployLogsCleared => with(seq!["Logs cleared."@], software_lines, top),
                Msg::SoftwareLogsCleared => with(deploy_lines, seq!["Logs cleared."@], top),
                _ => a.screen,
            }
        },
        _ => a.screen,
    }
}

/// The panel after a message.
pub open spec fn told(a: AppText, m: Msg) -> AppText {
    let screen = screen_told(a, m);
    match m {
        Msg::Log(line) => AppText {
            screen,
            deploy_history: if mirrored(a) {
                a.deploy_history
            } else {
                buffered_text(a.deploy_history, line@)
            },
            ..a
        },
        Msg::TailLog(line) => AppText {
            screen,
            deploy_history: buffered_text(a.deploy_history, line@),
            ..a
        },
        Msg::DeployDone(ok) => AppText {
            screen,
            deploy_history: if mirrored(a) {
                a.deploy_history
            } else {
                buffered(a.deploy_history, done_text(ok))
            },
            ..a
        },
        Msg::SoftwareLog(line) => AppText {
            screen,
            software_history: buffered_text(a.software_history, line@),
            ..a
        },
        Msg::DeployLogsCleared => AppText { screen, deploy_history: Seq::empty(), ..a },
        Msg::SoftwareLogsCleared => AppText { screen, software_history: Seq::empty(), ..a },
        Msg::ScanDone(_, _) => AppText { screen, ..a },
        Msg::Terminate => a,
    }
}

fn one_line(line: &str) -> (r: Vec<String>)
    ensures
        text::texts(r@) == seq![line@],
{
    let mut out = text::no_texts();
    text::push_text(&mut out, line);
    out
}

fn push_verdict(lines: &mut Vec<String>, ok: bool)
    ensures
        text::texts(final(lines)@) == with_verdict(text::texts(old(lines)@), ok),
{
    if !ok {
        push_deploy_line(lines, "deployment failed".to_owned());
    }
}

fn screen_after(flavor: Flavor, screen: PanelScreen, m: &Msg, Ghost(a): Ghost<AppText>) -> (r:
    PanelScreen)
    requires
        a.flavor == flavor,
        a.screen == state::shown(screen),
    ensures
        state::shown(r) == screen_told(a, *m),
{
    match screen {
        Screen::Scan { report, running, seq } => match m {
            Msg::ScanDone(n, fresh) => if *n == seq {
                Screen::Scan { report: Some(fresh.clone()), running: false, seq }
            } else {
                Screen::Scan { report, running, seq }
            },
            _ => Screen::Scan { report, running, seq },
        },
        Screen::Deploy { lines, done } => {
            let mut l = lines;
            match m {
                Msg::Log(line) => {
                    push_message(&mut l, line.as_str());
                    Screen::Deploy { lines: l, done }
                },
                Msg::DeployDone(ok) => {
                    push_verdict(&mut l, *ok);
                    compress_done(&mut l);
                    Screen::Deploy { lines: l, done: Some(*ok) }
                },
                _ => Screen::Deploy { lines: l, done },
            }
        },
        Screen::Logs { view, deploy_lines, software_lines, scroll } => {
            let mut d = deploy_lines;
            let mut s = software_lines;
            let mut n: usize = scroll;
            let neon = flavor == Flavor::Neon;
            match m {
                Msg::Log(line) => {
                    if !neon {
                        push_message(&mut d, line.as_str());
                    }
                },
                Msg::DeployDone(ok) => {
                    if !neon {
                        push_verdict(&mut d, *ok);
                    }
                },
                Msg::TailLog(line) => {
                    push_message(&mut d, line.as_str());
                },
                Msg::SoftwareLog(line) => {
                    push_message(&mut s, line.as_str());
                },
                Msg::DeployLogsCleared => {
                    d = one_line("Logs cleared.");
                    if neon {
                        n = 0;
                    }
                },
                Msg::SoftwareLogsCleared => {
                    s = one_line("Logs cleared.");
                    if neon {
                        n = 0;
                    }
                },
                _ => {},
            }
            Screen::Logs { view, deploy_lines: d, software_lines: s, scroll: n }
        },
        other => other,
    }
}

/// Takes a message of a worker. Tells whether the panel is to be left.
pub fn on_message(app: &mut App, msg: &Msg) -> (r: bool)
    ensures
        final(app)@ == told(old(app)@, *msg),
        r == (*msg is Terminate),
{
    let ghost a = app@;
    let mut s: PanelScreen = Screen::Main { selected: 0 };
    std::mem::swap(&mut s, &mut app.screen);
    let mirror = app.flavor == Flavor::Neon && app.deploy_tail;
    app.screen = screen_after(app.flavor, s, msg, Ghost(a));
    match msg {
        Msg::Log(line) => {
            if !mirror {
                push_message(&mut app.deploy_history, line.as_str());
            }
            false
        },
        Msg::TailLog(line) => {
            push_message(&mut app.deploy_history, line.as_str());
            false
        },
        Msg::DeployDone(ok) => {
            if !mirror {
                let mut l = "deploy done: ".to_owned();
                if *ok {
                    l.append("ok");
                } else {
                    l.append("failed");
                }
                push_deploy_line(&mut app.deploy_history, l);
            }
            false
        },
        Msg::SoftwareLog(line) => {
            push_message(&mut app.software_history, line.as_str());
            false
        },
        Msg::DeployLogsCleared => {
            app.deploy_history = text::no_texts();
            false
        },
        Msg::SoftwareLogsCleared => {
            app.software_history = text::no_texts();
            false
        },
        Msg::ScanDone(_, _) => false,
        Msg::Terminate => true,
    }
}

/// The late report of an abandoned scan never replaces that of the current
/// one.
pub proof fn law_stale_scan_is_dropped(
    a: AppText,
    report: Option<Seq<char>>,
    running: bool,
    seq: u64,
    late: u64,
    text: String,
)
    requires
        a.screen == (Screen::<Seq<char>, Seq<Seq<char>>, Seq<state::RowText>>::Scan {
            report,
            running,
            seq,
        }),
        late != seq,
    ensures
        told(a, Msg::ScanDone(late, text)) == a,
{
}

// ---------------------------------------------------------------------------
// What an effect brought back
// ---------------------------------------------------------------------------

/// Shows the services, after the menu, a refused removal or a removal.
pub fn open_services(app: &mut App, rows: Vec<ServiceRow>, message: Option<String>)
    ensures
        final(app)@ == (AppText {
            screen: Screen::Services {
                rows: state::row_texts(rows@),
                selected: 0,
                message: text::opt_text(message),
            },
            ..old(app)@
        }),
{
    app.screen = Screen::Services { rows, selected: 0, message };
}

/// The services screen with fresh rows and a message.
pub open spec fn refreshed(
    s: ScreenText,
    rows: Seq<state::RowText>,
    message: Seq<char>,
) -> ScreenText {
    match s {
        Screen::Services { selected, .. } => Screen::Services {
            rows,
            selected,
            message: Some(message),
        },
        _ => s,
    }
}

/// Puts fresh rows on the services screen, with a message.
pub fn refresh_services(app: &mut App, rows: Vec<ServiceRow>, message: String)
    ensures
        final(app)@ == (AppText {
            screen: refreshed(old(app)@.screen, state::row_texts(rows@), message@),
            ..old(app)@
        }),
{
    let mut s: PanelScreen = Screen::Main { selected: 0 };
    std::mem::swap(&mut s, &mut app.screen);
    app.screen = match s {
        Screen::Services { rows: _, selected, message: _ } => Screen::Services {
            rows,
            selected,
            message: Some(message),
        },
        other => other,
    };
}

/// Puts fresh rows on the services screen because the user asked for them.
pub fn reload_services(app: &mut App, rows: Vec<ServiceRow>)
    ensures
        final(app)@ == (AppText {
            screen: refreshed(old(app)@.screen, state::row_texts(rows@), "refreshed"@),
            ..old(app)@
        }),
{
    refresh_services(app, rows, "refreshed".to_owned());
}

/// A list, or else one line.
pub open spec fn or_line(lines: Seq<Seq<char>>, line: Seq<char>) -> Seq<Seq<char>> {
    if lines.len() == 0 {
        seq![line]
    } else {
        lines
    }
}

/// A list, or else another.
pub open spec fn or_list(a: Seq<Seq<char>>, b: Seq<Seq<char>>) -> Seq<Seq<char>> {
    if a.len() == 0 {
        b
    } else {
        a
    }
}

fn copy_or(a: &Vec<String>, b: &Vec<String>) -> (r: Vec<String>)
    ensures
        text::texts(r@) == or_list(text::texts(a@), text::texts(b@)),
{
    assert(text::texts(a@).len() == a@.len());
    if a.len() == 0 {
        text::copy_list(b)
    } else {
        text::copy_list(a)
    }
}

fn copy_or_line(a: &Vec<String>, line: &str) -> (r: Vec<String>)
    ensures
        text::texts(r@) == or_line(text::texts(a@), line@),
{
    assert(text::texts(a@).len() == a@.len());
    if a.len() == 0 {
        one_line(line)
    } else {
        text::copy_list(a)
    }
}

pub open spec fn no_software_text() -> Seq<char> {
    "No software logs yet. Deploy a service to see journal output here."@
}

/// The panel once the logs are open. The neon panel shows the shared file and
/// follows it; the red one shows what it has seen itself.
pub open spec fn logs_open(
    a: AppText,
    log: Seq<Seq<char>>,
    fetched: Seq<Seq<char>>,
) -> AppText {
    let software_history = or_list(a.software_history, fetched);
    let software_lines = or_line(software_history, no_software_text());
    if a.flavor == Flavor::Neon {
        let deploy_lines = or_line(
            or_list(log, a.deploy_history),
            "No deploy logs yet. Start a deployment to see output here."@,
        );
        AppText {
            screen: Screen::Logs {
                view: LogView::Deploy,
                deploy_lines,
                software_lines,
                scroll: 0,
            },
            deploy_history: deploy_lines,
            software_history,
            deploy_tail: true,
            software_tail: true,
            ..a
        }
    } else {
        AppText {
            screen: Screen::Logs {
                view: LogView::Deploy,
                deploy_lines: a.deploy_history,
                software_lines,
                scroll: 0,
            },
            software_history,
            ..a
        }
    }
}

/// Shows the logs: `log` are the lines of the shared deploy log, `fetched`
/// those of the services' journals.
pub fn open_logs(app: &mut App, log: &Vec<String>, fetched: &Vec<String>)
    ensures
        final(app)@ == logs_open(old(app)@, text::texts(log@), text::texts(fetched@)),
{
    let software_history = copy_or(&app.software_history, fetched);
    let software_lines = copy_or_line(
        &software_history,
        "No software logs yet. Deploy a service to see journal output here.",
    );
    app.software_history = software_history;
    if app.flavor == Flavor::Neon {
        let known = copy_or(log, &app.deploy_history);
        let deploy_lines = copy_or_line(
            &known,
            "No deploy logs yet. Start a deployment to see output here.",
        );
        app.deploy_history = text::copy_list(&deploy_lines);
        app.screen = Screen::Logs {
            view: LogView::Deploy,
            deploy_lines,
            software_lines,
            scroll: 0,
        };
        app.deploy_tail = true;
        app.software_tail = true;
    } else {
        let deploy_lines = text::copy_list(&app.deploy_history);
        app.screen = Screen::Logs {
            view: LogView::Deploy,
            deploy_lines,
            software_lines,
            scroll: 0,
        };
    }
}

/// The panel once the deploy log is cleared. The software lines move from the
/// history to the screen; where there were none they are fetched anew.
pub open spec fn deploy_cleared(a: AppText, fetched: Seq<Seq<char>>) -> AppText {
    AppText {
        screen: Screen::Logs {
            view: LogView::Deploy,
            deploy_lines: seq!["Logs cleared."@],
            software_lines: or_list(a.software_history, fetched),
            scroll: 0,
        },
        deploy_history: Seq::empty(),
        software_history: if a.software_history.len() == 0 {
            fetched
        } else {
            Seq::empty()
        },
        ..a
    }
}

/// Shows the logs after the deploy log was cleared.
pub fn clear_deploy_view(app: &mut App, fetched: &Vec<String>)
    ensures
        final(app)@ == deploy_cleared(old(app)@, text::texts(fetched@)),
{
    let software_lines = copy_or(&app.software_history, fetched);
    assert(text::texts(app.software_history@).len() == app.software_history@.len());
    if app.software_history.len() == 0 {
        app.software_history = text::copy_list(fetched);
    } else {
        app.software_history = text::no_texts();
    }
    app.deploy_history = text::no_texts();
    app.screen = Screen::Logs {
        view: LogView::Deploy,
        deploy_lines: one_line("Logs cleared."),
        software_lines,
        scroll: 0,
    };
}

/// The panel once the software view is cleared: the deploy lines come from the
/// shared file again.
pub open spec fn software_cleared(a: AppText, log: Seq<Seq<char>>) -> AppText {
    let deploy_lines = or_line(log, "No deploy logs."@);
    AppText {
        screen: Screen::Logs {
            view: LogView::Software,
            deploy_lines,
            software_lines: seq!["Logs cleared."@],
            scroll: 0,
        },
        deploy_history: deploy_lines,
        software_history: Seq::empty(),
        ..a
    }
}

/// Shows the logs after the software view was cleared.
pub fn clear_software_view(app: &mut App, log: &Vec<String>)
    ensures
        final(app)@ == software_cleared(old(app)@, text::texts(log@)),
{
    let deploy_lines = copy_or_line(log, "No deploy logs.");
    app.deploy_history = text::copy_list(&deploy_lines);
    app.software_history = text::no_texts();
    app.screen = Screen::Logs {
        view: LogView::Software,
        deploy_lines,
        software_lines: one_line("Logs cleared."),
        scroll: 0,
    };
}

/// The panel once clearing a log was refused: the buffers stay as they were.
pub open spec fn logs_kept(
    a: AppText,
    target: LogView,
    log: Seq<Seq<char>>,
    fetched: Seq<Seq<char>>,
) -> AppText {
    AppText {
        screen: Screen::Logs {
            view: target,
            deploy_lines: or_list(a.deploy_history, or_line(log, "No deploy logs."@)),
            software_lines: or_list(a.software_history, fetched),
            scroll: 0,
        },
        ..a
    }
}

/// Shows the logs after clearing one was refused.
pub fn keep_logs(app: &mut App, target: LogView, log: &Vec<String>, fetched: &Vec<String>)
    ensures
        final(app)@ == logs_kept(old(app)@, target, text::texts(log@), text::texts(fetched@)),
{
    let file = copy_or_line(log, "No deploy logs.");
    let deploy_lines = copy_or(&app.deploy_history, &file);
    let software_lines = copy_or(&app.software_history, fetched);
    app.screen = Screen::Logs { view: target, deploy_lines, software_lines, scroll: 0 };
}

// ---------------------------------------------------------------------------
// Leaving
// ---------------------------------------------------------------------------

/// Milliseconds that leaving waits for a running deploy, once for its writers
/// and once for its worker.
pub const EXIT_BUDGET: u64 = 10_000;

/// How far the panel is with leaving.
#[derive(Debug, Clone, Copy, PartialEq, Eq, Structural)]
pub enum ExitPhase {
    /// Not at all.
    Staying,
    /// Stopping the writers of a running deploy, again and again.
    Quiescing,
    /// Waiting for the deploy worker to unwind.
    Unwinding,
    /// Removing what the deploy left behind.
    Reconciling,
    /// Left.
    Left,
}

/// What a phase of leaving reports.
#[derive(Debug)]
pub enum ExitEvent {
    /// The panel is to be left.
    Leave,
    /// Whether a deploy is still in flight, and the milliseconds since its
    /// writers were first stopped.
    Looked(bool, u64),
    /// Whether the worker has finished (`None` where there is none), and the
    /// milliseconds since it was first waited for.
    Worker(Option<bool>, u64),
    /// The notices of the reconciliation.
    Reconciled(Vec<String>),
}

/// The phase after a report. A report that does not answer the phase changes
/// nothing.
pub open spec fn exit_next(phase: ExitPhase, ev: ExitEvent) -> ExitPhase {
    match (phase, ev) {
        (ExitPhase::Staying, ExitEvent::Leave) => ExitPhase::Quiescing,
        (ExitPhase::Quiescing, ExitEvent::Looked(in_flight, elapsed)) => if in_flight && elapsed
            < EXIT_BUDGET {
            ExitPhase::Quiescing
        } else {
            ExitPhase::Unwinding
        },
        (ExitPhase::Unwinding, ExitEvent::Worker(finished, elapsed)) => if finished == Some(false)
            && elapsed < EXIT_BUDGET {
            ExitPhase::Unwinding
        } else {
            ExitPhase::Reconciling
        },
        (ExitPhase::Reconciling, ExitEvent::Reconciled(_)) => ExitPhase::Left,
        _ => phase,
    }
}

/// Does the reconciliation of a leaving panel keep the entry of a deploy that
/// is still running, for the next launch to settle? The red panel's does.
pub fn keeps_in_flight(flavor: Flavor) -> (r: bool)
    ensures
        r == (flavor == Flavor::Red),
{
    flavor == Flavor::Red
}

/// The notices that a report brings: those of the reconciliation. The red
/// panel prints none.
pub open spec fn exit_notices(
    flavor: Flavor,
    phase: ExitPhase,
    ev: ExitEvent,
) -> Seq<Seq<char>> {
    match (phase, ev) {
        (ExitPhase::Reconciling, ExitEvent::Reconciled(msgs)) => if flavor == Flavor::Neon {
            text::texts(msgs@)
        } else {
            Seq::empty()
        },
        _ => Seq::empty(),
    }
}

/// Leaves the panel, step by step: the exit is requested, the writers of a
/// running deploy are stopped, its worker unwinds, and only then is what it
/// left behind removed, so that the removal is final. The notices are kept, to
/// be printed after the terminal is restored.
pub fn exit_with_reconcile(
    app: &mut App,
    phase: &mut ExitPhase,
    shutdown: &mut Shutdown,
    event: &ExitEvent,
)
    ensures
        *final(phase) == exit_next(*old(phase), *event),
        final(shutdown).exiting == (old(shutdown).exiting || (*old(phase) is Staying
            && *event is Leave)),
        final(app)@ == (AppText {
            exit_notices: old(app)@.exit_notices + exit_notices(
                old(app).flavor,
                *old(phase),
                *event,
            ),
            ..old(app)@
        }),
{
    let ghost kept = text::texts(app.exit_notices@);
    assert(kept + Seq::<Seq<char>>::empty() =~= kept);
    match (*phase, event) {
        (ExitPhase::Staying, ExitEvent::Leave) => {
            cancel::request_exit(shutdown);
            *phase = ExitPhase::Quiescing;
        },
        (ExitPhase::Quiescing, ExitEvent::Looked(in_flight, elapsed)) => {
            if !reconcile::quiesce(*in_flight, *elapsed, EXIT_BUDGET) {
                *phase = ExitPhase::Unwinding;
            }
        },
        (ExitPhase::Unwinding, ExitEvent::Worker(finished, elapsed)) => {
            if !workers::wait_deploy_worker(*finished, *elapsed, EXIT_BUDGET) {
                *phase = ExitPhase::Reconciling;
            }
        },
        (ExitPhase::Reconciling, ExitEvent::Reconciled(msgs)) => {
            if app.flavor == Flavor::Neon {
                text::push_texts(&mut app.exit_notices, msgs);
            }
            *phase = ExitPhase::Left;
        },
        _ => {},
    }
}

/// How far the panel is with leaving after some reports.
pub open spec fn exit_history(events: Seq<ExitEvent>) -> ExitPhase
    decreases events.len(),
{
    if events.len() == 0 {
        ExitPhase::Staying
    } else {
        exit_next(exit_history(events.drop_last()), events.last())
    }
}

/// Was the exit requested?
pub open spec fn exit_requested(events: Seq<ExitEvent>) -> bool
    decreases events.len(),
{
    events.len() > 0 && (exit_requested(events.drop_last()) || (exit_history(
        events.drop_last(),
    ) is Staying && events.last() is Leave))
}

/// Was the deploy, after the exit was requested, no longer in flight, or its
/// time over?
pub open spec fn exit_quiesced(events: Seq<ExitEvent>) -> bool
    decreases events.len(),
{
    events.len() > 0 && (exit_quiesced(events.drop_last()) || (exit_requested(events.drop_last())
        && exit_history(events.drop_last()) is Quiescing && (events.last() matches ExitEvent::Looked(
        in_flight,
        elapsed,
    ) && (!in_flight || elapsed >= EXIT_BUDGET))))
}

/// The panel removes what a deploy left behind only after the exit was
/// requested and the deploy quiesced: the removal races no writer.
pub proof fn law_exit_quiesces_before_it_removes(events: Seq<ExitEvent>)
    ensures
        !(exit_history(events) is Staying) ==> exit_requested(events),
        exit_history(events) is Unwinding || exit_history(events) is Reconciling || exit_history(
            events,
        ) is Left ==> exit_quiesced(events),
    decreases events.len(),
{
    if events.len() > 0 {
        law_exit_quiesces_before_it_removes(events.drop_last());
    }
}

// ---------------------------------------------------------------------------
// Ticks
// ---------------------------------------------------------------------------

/// The next tick of the animations.
pub fn next_tick(app: &mut App)
    ensures
        final(app)@ == (AppText {
            tick: if old(app).tick == u64::MAX {
                0
            } else {
                (old(app).tick + 1) as u64
            },
            ..old(app)@
        }),
{
    app.tick = if app.tick == u64::MAX {
        0
    } else {
        app.tick + 1
    };
}

/// Is the whole terminal to be repainted on this tick? Any stray glyph must
/// not outlive a couple of seconds.
pub fn repaint_due(tick: u64) -> (r: bool)
    ensures
        r == (tick % 25 == 0),
{
    tick % 25 == 0
}

// ---------------------------------------------------------------------------
// What the logs and the deploy screen show
// ---------------------------------------------------------------------------

/// A line is added at the end of a buffer. Beyond its bound the oldest line goes,
/// and the order stays.
pub proof fn law_buffer_keeps_the_newest_lines(lines: Seq<Seq<char>>, line: Seq<char>)
    ensures
        buffered(lines, line).is_suffix_of(lines.push(line)),
        lines.len() < 2000 ==> buffered(lines, line) == lines.push(line),
        lines.len() >= 2000 ==> buffered(lines, line).len() == 2000,
{
    let all = lines.push(line);
    let kept = buffered(lines, line);
    assert(kept =~= all.subrange(all.len() - kept.len(), all.len() as int));
}

proof fn lemma_buffered_all_left(lines: Seq<Seq<char>>, x: Seq<char>, more: Seq<Seq<char>>)
    ensures
        buffered_all(lines, seq![x] + more) == buffered_all(buffered(lines, x), more),
    decreases more.len(),
{
    let all = seq![x] + more;
    if more.len() == 0 {
        assert(all.drop_last() =~= Seq::<Seq<char>>::empty());
        assert(buffered_all(lines, all.drop_last()) == lines);
        assert(all.last() == x);
    } else {
        lemma_buffered_all_left(lines, x, more.drop_last());
        assert(all.drop_last() =~= seq![x] + more.drop_last());
        assert(all.last() == more.last());
    }
}

/// A message is added line by line, from its first line to its last.
pub proof fn law_message_is_added_line_by_line(
    lines: Seq<Seq<char>>,
    l: Seq<char>,
    rest: Seq<char>,
)
    requires
        forall|i: int| 0 <= i < l.len() ==> #[trigger] l[i] != '\n',
    ensures
        buffered_text(lines, l) == buffered(lines, l),
        buffered_text(lines, l + seq!['\n'] + rest) == buffered_text(buffered(lines, l), rest),
{
    let none = Seq::<char>::empty();
    let nothing = Seq::<Seq<char>>::empty();
    text::lemma_split_plain(none, l, '\n');
    assert(none + l =~= l);
    assert(text::split(none, '\n') =~= seq![none]);
    assert(text::split(l, '\n') =~= seq![l]);
    lemma_buffered_all_left(lines, l, nothing);
    assert(seq![l] + nothing =~= seq![l]);
    text::lemma_split_pieces(l, rest, '\n');
    assert(l + seq!['\n'] + rest =~= l.push('\n') + rest);
    lemma_buffered_all_left(lines, l, text::split(rest, '\n'));
}

/// Does a line of a finished deploy matter? A blank one, a failure, a warning,
/// what is said of the sandbox and of provisioned tools, a success, and what names
/// the address or the verdict.
pub proof fn law_what_matters(white: Seq<char>, rest: Seq<char>, before: Seq<char>)
    requires
        forall|i: int| 0 <= i < white.len() ==> text::white(#[trigger] white[i]),
        before.len() > 0 && !text::white(before[0]),
    ensures
        matters(white),
        matters(white + "!"@ + rest),
        matters(white + "warn: "@ + rest),
        matters(white + "sandbox: "@ + rest),
        matters(white + "provision: "@ + rest),
        matters(white + "✔"@ + rest),
        matters(white + before + "listening on "@ + rest),
        matters(white + before + "deployment failed"@ + rest),
        matters("deployment failed"@),
{
    let none = Seq::<char>::empty();
    text::law_trimming(white, none, none);
    assert("!"@.len() > 0 && "!"@[0] == '!') by {
        reveal_strlit("!");
    }
    lemma_headed(white, "!"@, rest);
    assert("warn: "@.len() > 0 && "warn: "@[0] == 'w') by {
        reveal_strlit("warn: ");
    }
    lemma_headed(white, "warn: "@, rest);
    assert("sandbox: "@.len() > 0 && "sandbox: "@[0] == 's') by {
        reveal_strlit("sandbox: ");
    }
    lemma_headed(white, "sandbox: "@, rest);
    assert("provision: "@.len() > 0 && "provision: "@[0] == 'p') by {
        reveal_strlit("provision: ");
    }
    lemma_headed(white, "provision: "@, rest);
    assert("✔"@.len() > 0 && "✔"@[0] == '✔') by {
        reveal_strlit("✔");
    }
    lemma_headed(white, "✔"@, rest);
    lemma_holding(white, before, "listening on "@, rest);
    lemma_holding(white, before, "deployment failed"@, rest);
    assert("deployment failed"@.len() > 0 && "deployment failed"@[0] == 'd') by {
        reveal_strlit("deployment failed");
    }
    text::law_trimming(none, "deployment failed"@, none);
    assert(none + "deployment failed"@ =~= "deployment failed"@);
    text::law_parts(none, none, none, "deployment failed"@);
    assert(none + "deployment failed"@ + none =~= "deployment failed"@);
}

proof fn lemma_headed(white: Seq<char>, key: Seq<char>, rest: Seq<char>)
    requires
        forall|i: int| 0 <= i < white.len() ==> text::white(#[trigger] white[i]),
        key.len() > 0 && !text::white(key[0]),
    ensures
        text::begins(text::trimmed_start(white + key + rest), key),
{
    assert((key + rest)[0] == key[0]);
    text::law_trimming(white, key + rest, Seq::empty());
    assert(white + key + rest =~= white + (key + rest));
    text::law_parts(key, key, rest, key);
}

proof fn lemma_holding(white: Seq<char>, before: Seq<char>, key: Seq<char>, rest: Seq<char>)
    requires
        forall|i: int| 0 <= i < white.len() ==> text::white(#[trigger] white[i]),
        before.len() > 0 && !text::white(before[0]),
    ensures
        text::holds(text::trimmed_start(white + before + key + rest), key),
{
    let m = before + key + rest;
    assert(m[0] == before[0]);
    text::law_trimming(white, m, Seq::empty());
    assert(white + before + key + rest =~= white + m);
    text::law_parts(m, before, rest, key);
}

/// Nothing else matters.
pub proof fn law_what_does_not_matter(line: Seq<char>)
    requires
        matters(line),
    ensures
        steps::blank(line) || steps::sets(line, "!"@) || steps::sets(line, "warn: "@)
            || steps::sets(line, "sandbox: "@) || steps::sets(line, "provision: "@) || steps::sets(
            line,
            "✔"@,
        ) || (exists|a: Seq<char>, b: Seq<char>| line == #[trigger] (a + "listening on "@ + b)) || (
        exists|a: Seq<char>, b: Seq<char>| line == #[trigger] (a + "deployment failed"@ + b)),
{
    assert("!"@.len() > 0 && "!"@[0] == '!') by {
        reveal_strlit("!");
    }
    assert("warn: "@.len() > 0 && "warn: "@[0] == 'w') by {
        reveal_strlit("warn: ");
    }
    assert("sandbox: "@.len() > 0 && "sandbox: "@[0] == 's') by {
        reveal_strlit("sandbox: ");
    }
    assert("provision: "@.len() > 0 && "provision: "@[0] == 'p') by {
        reveal_strlit("provision: ");
    }
    assert("✔"@.len() > 0 && "✔"@[0] == '✔') by {
        reveal_strlit("✔");
    }
    steps::lemma_sets(line, "!"@);
    steps::lemma_sets(line, "warn: "@);
    steps::lemma_sets(line, "sandbox: "@);
    steps::lemma_sets(line, "provision: "@);
    steps::lemma_sets(line, "✔"@);
    steps::lemma_trimmed_start_split(line);
    let t = text::trimmed_start(line);
    let a = steps::indent(line);
    if t.len() == 0 {
        assert forall|i: int| 0 <= i < line.len() implies text::white(#[trigger] line[i]) by {
            assert(line[i] == a[i]);
        }
    }
    if text::holds(t, "listening on "@) {
        text::law_parts(t, t, t, "listening on "@);
        let (x, y) = choose|x: Seq<char>, y: Seq<char>| t == #[trigger] (x + "listening on "@ + y);
        assert(line =~= (a + x) + "listening on "@ + y);
    }
    if text::holds(t, "deployment failed"@) {
        text::law_parts(t, t, t, "deployment failed"@);
        let (x, y) = choose|x: Seq<char>, y: Seq<char>|
            t == #[trigger] (x + "deployment failed"@ + y);
        assert(line =~= (a + x) + "deployment failed"@ + y);
    }
}

/// A finished deploy keeps the lines that matter, in their order, and no others.
pub proof fn law_finished_deploy_keeps_what_matters(lines: Seq<Seq<char>>, line: Seq<char>)
    ensures
        compressed(Seq::empty()).len() == 0,
        matters(line) ==> compressed(lines.push(line)) == compressed(lines).push(line),
        !matters(line) ==> compressed(lines.push(line)) == compressed(lines),
{
    reveal(Seq::filter);
    assert(lines.push(line).drop_last() =~= lines);
    assert(compressed(Seq::empty()) =~= Seq::empty());
}

/// The end of a deploy is shown on its screen: the verdict, and a line that says
/// so where it failed.
pub proof fn law_verdict_is_shown(a: AppText, lines: Seq<Seq<char>>, done: Option<bool>, ok: bool)
    requires
        a.screen == (Screen::<Seq<char>, Seq<Seq<char>>, Seq<state::RowText>>::Deploy {
            lines,
            done,
        }),
    ensures
        ({
            let s = told(a, Msg::DeployDone(ok)).screen;
            &&& s is Deploy
            &&& s->done == Some(ok)
            &&& ok ==> s->lines == compressed(lines)
            &&& !ok ==> s->lines.len() > 0 && s->lines.last() == "deployment failed"@
        }),
{
    if !ok {
        law_what_matters(Seq::empty(), Seq::empty(), seq!['x']);
        let all = buffered(lines, "deployment failed"@);
        law_buffer_is_bounded(lines, "deployment failed"@);
        assert(all =~= all.drop_last().push("deployment failed"@));
        law_finished_deploy_keeps_what_matters(all.drop_last(), "deployment failed"@);
    }
}

/// A line of the running deploy is shown on its screen.
pub proof fn law_log_line_is_shown(
    a: AppText,
    lines: Seq<Seq<char>>,
    done: Option<bool>,
    line: String,
)
    requires
        a.screen == (Screen::<Seq<char>, Seq<Seq<char>>, Seq<state::RowText>>::Deploy {
            lines,
            done,
        }),
        forall|i: int| 0 <= i < line@.len() ==> #[trigger] line@[i] != '\n',
        lines.len() < 2000,
    ensures
        told(a, Msg::Log(line)).screen == (Screen::<
            Seq<char>,
            Seq<Seq<char>>,
            Seq<state::RowText>,
        >::Deploy { lines: lines.push(line@), done }),
{
    law_message_is_added_line_by_line(lines, line@, Seq::empty());
    law_buffer_keeps_the_newest_lines(lines, line@);
}

/// A line of the deploy is remembered, unless the shared log that holds it is
/// followed anyway: then it would come twice.
pub proof fn law_log_line_is_remembered_once(a: AppText, line: String)
    ensures
        a.flavor == Flavor::Neon && a.deploy_tail ==> told(a, Msg::Log(line)).deploy_history
            == a.deploy_history,
        !(a.flavor == Flavor::Neon && a.deploy_tail) ==> told(a, Msg::Log(line)).deploy_history
            == told(a, Msg::TailLog(line)).deploy_history,
        told(a, Msg::TailLog(line)).deploy_history == buffered_text(a.deploy_history, line@),
        told(a, Msg::SoftwareLog(line)).software_history == buffered_text(
            a.software_history,
            line@,
        ),
{
}

/// What comes for one log leaves the other alone.
pub proof fn law_logs_do_not_mix(
    a: AppText,
    view: LogView,
    deploy_lines: Seq<Seq<char>>,
    software_lines: Seq<Seq<char>>,
    scroll: usize,
    line: String,
    m: Msg,
)
    requires
        a.screen == (Screen::<Seq<char>, Seq<Seq<char>>, Seq<state::RowText>>::Logs {
            view,
            deploy_lines,
            software_lines,
            scroll,
        }),
    ensures
        ({
            let s = told(a, m);
            &&& m is SoftwareLog || m is SoftwareLogsCleared ==> {
                &&& s.screen->deploy_lines == deploy_lines
                &&& s.deploy_history == a.deploy_history
            }
            &&& m is Log || m is TailLog || m is DeployDone || m is DeployLogsCleared ==> {
                &&& s.screen->software_lines == software_lines
                &&& s.software_history == a.software_history
            }
            &&& s.screen is Logs
            &&& s.screen->view == view
            &&& m == Msg::TailLog(line) ==> s.screen->deploy_lines == buffered_text(
                deploy_lines,
                line@,
            )
            &&& m == Msg::SoftwareLog(line) ==> s.screen->software_lines == buffered_text(
                software_lines,
                line@,
            )
            &&& m is DeployLogsCleared ==> s.screen->deploy_lines == seq!["Logs cleared."@]
                && s.deploy_history.len() == 0
            &&& m is SoftwareLogsCleared ==> s.screen->software_lines == seq!["Logs cleared."@]
                && s.software_history.len() == 0
        }),
{
}

/// A message changes nothing but the screen and the two histories.
pub proof fn law_messages_change_only_what_they_are_about(a: AppText, m: Msg)
    ensures
        ({
            let s = told(a, m);
            &&& s.flavor == a.flavor
            &&& s.tick == a.tick
            &&& s.scan_seq == a.scan_seq
            &&& s.deploy_tail == a.deploy_tail
            &&& s.software_tail == a.software_tail
            &&& s.exit_notices == a.exit_notices
            &&& m is Terminate ==> s == a
            &&& a.screen is Main || a.screen is UrlInput || a.screen is Confirm || a.screen
                is Services || a.screen is ConfirmDelete || a.screen is ConfirmClear ==> s.screen
                == a.screen
        }),
{
}

/// A scan that is still waited for brings its report.
pub proof fn law_awaited_scan_is_shown(
    a: AppText,
    report: Option<Seq<char>>,
    running: bool,
    seq: u64,
    text: String,
)
    requires
        a.screen == (Screen::<Seq<char>, Seq<Seq<char>>, Seq<state::RowText>>::Scan {
            report,
            running,
            seq,
        }),
    ensures
        told(a, Msg::ScanDone(seq, text)).screen == (Screen::<
            Seq<char>,
            Seq<Seq<char>>,
            Seq<state::RowText>,
        >::Scan { report: Some(text@), running: false, seq }),
{
}

/// On the neon panel the logs open on the lines of the shared deploy log, exactly,
/// whatever the journals hold. Where that log is empty, the lines that the panel
/// remembers are shown; where there are none either, one line says so. From then
/// on both logs are followed.
pub proof fn law_neon_logs_show_the_shared_log(
    a: AppText,
    log: Seq<Seq<char>>,
    fetched: Seq<Seq<char>>,
)
    requires
        a.flavor == Flavor::Neon,
    ensures
        ({
            let s = logs_open(a, log, fetched);
            &&& s.screen is Logs
            &&& s.screen->view == LogView::Deploy
            &&& s.screen->scroll == 0
            &&& log.len() > 0 ==> s.screen->deploy_lines == log && s.deploy_history == log
            &&& log.len() == 0 && a.deploy_history.len() > 0 ==> s.screen->deploy_lines
                == a.deploy_history && s.deploy_history == a.deploy_history
            &&& log.len() == 0 && a.deploy_history.len() == 0 ==> s.screen->deploy_lines == seq![
                "No deploy logs yet. Start a deployment to see output here."@,
            ]
            &&& s.deploy_tail && s.software_tail
        }),
{
}

/// The red panel shows the deploy lines that it has seen itself, and follows
/// nothing.
pub proof fn law_red_logs_show_what_was_seen(
    a: AppText,
    log: Seq<Seq<char>>,
    fetched: Seq<Seq<char>>,
)
    requires
        a.flavor == Flavor::Red,
    ensures
        ({
            let s = logs_open(a, log, fetched);
            &&& s.screen is Logs
            &&& s.screen->view == LogView::Deploy
            &&& s.screen->scroll == 0
            &&& s.screen->deploy_lines == a.deploy_history
            &&& s.deploy_history == a.deploy_history
            &&& s.deploy_tail == a.deploy_tail
            &&& s.software_tail == a.software_tail
        }),
{
}

/// The software view shows what the panel remembers of the journals, and else
/// what was fetched of them, whatever the deploy log holds; with neither, one line
/// says so.
pub proof fn law_software_view_shows_the_journals(
    a: AppText,
    log: Seq<Seq<char>>,
    fetched: Seq<Seq<char>>,
)
    ensures
        ({
            let s = logs_open(a, log, fetched);
            &&& a.software_history.len() > 0 ==> s.screen->software_lines == a.software_history
                && s.software_history == a.software_history
            &&& a.software_history.len() == 0 && fetched.len() > 0 ==> s.screen->software_lines
                == fetched && s.software_history == fetched
            &&& a.software_history.len() == 0 && fetched.len() == 0
                ==> s.screen->software_lines == seq![
                "No software logs yet. Deploy a service to see journal output here."@,
            ] && s.software_history.len() == 0
        }),
{
}

/// Clearing a log empties that log, on the screen and in memory; the other one is
/// still shown.
pub proof fn law_clearing_empties_the_cleared_log(
    a: AppText,
    log: Seq<Seq<char>>,
    fetched: Seq<Seq<char>>,
)
    ensures
        ({
            let d = deploy_cleared(a, fetched);
            let s = software_cleared(a, log);
            &&& d.deploy_history.len() == 0
            &&& d.screen is Logs && d.screen->view == LogView::Deploy
            &&& d.screen->deploy_lines == seq!["Logs cleared."@]
            &&& d.screen->scroll == 0
            &&& a.software_history.len() > 0 ==> d.software_history.len() == 0
            &&& a.software_history.len() == 0 ==> d.software_history == fetched
            &&& a.software_history.len() > 0 ==> d.screen->software_lines == a.software_history
            &&& a.software_history.len() == 0 ==> d.screen->software_lines == fetched
            &&& s.software_history.len() == 0
            &&& s.screen is Logs && s.screen->view == LogView::Software
            &&& s.screen->software_lines == seq!["Logs cleared."@]
            &&& s.screen->scroll == 0
            &&& log.len() > 0 ==> s.screen->deploy_lines == log && s.deploy_history == log
            &&& log.len() == 0 ==> s.screen->deploy_lines == seq!["No deploy logs."@]
                && s.deploy_history == seq!["No deploy logs."@]
        }),
{
}

/// Refusing to clear a log keeps both: the view that was asked about is shown
/// again, and nothing that is remembered is lost.
pub proof fn law_refused_clearing_keeps_the_logs(
    a: AppText,
    target: LogView,
    log: Seq<Seq<char>>,
    fetched: Seq<Seq<char>>,
)
    ensures
        ({
            let s = logs_kept(a, target, log, fetched);
            &&& s.screen->scroll == 0
            &&& a.deploy_history.len() == 0 && log.len() == 0 ==> s.screen->deploy_lines == seq![
                "No deploy logs."@,
            ]
            &&& s.deploy_history == a.deploy_history
            &&& s.software_history == a.software_history
            &&& s.screen is Logs && s.screen->view == target
            &&& a.deploy_history.len() > 0 ==> s.screen->deploy_lines == a.deploy_history
            &&& a.deploy_history.len() == 0 && log.len() > 0 ==> s.screen->deploy_lines == log
            &&& a.software_history.len() > 0 ==> s.screen->software_lines == a.software_history
            &&& a.software_history.len() == 0 ==> s.screen->software_lines == fetched
        }),
{
}

/// Fresh rows replace the shown ones; the selection stays where it is, and no
/// other screen is touched.
pub proof fn law_refreshing_keeps_the_selection(
    s: ScreenText,
    rows: Seq<state::RowText>,
    message: Seq<char>,
)
    ensures
        s is Services ==> {
            &&& refreshed(s, rows, message) is Services
            &&& refreshed(s, rows, message)->rows == rows
            &&& refreshed(s, rows, message)->Services_selected == s->Services_selected
            &&& refreshed(s, rows, message)->message == Some(message)
        },
        !(s is Services) ==> refreshed(s, rows, message) == s,
{
}

/// Leaving waits for a running deploy, and for its worker, at most ten seconds
/// each, and no longer than they take.
pub proof fn law_leaving_waits_no_longer_than_needed(in_flight: bool, elapsed: u64)
    ensures
        exit_next(ExitPhase::Quiescing, ExitEvent::Looked(in_flight, elapsed))
            == ExitPhase::Quiescing <==> in_flight && elapsed < 10_000,
        exit_next(ExitPhase::Unwinding, ExitEvent::Worker(Some(!in_flight), elapsed))
            == ExitPhase::Unwinding <==> in_flight && elapsed < 10_000,
        exit_next(ExitPhase::Unwinding, ExitEvent::Worker(None, elapsed))
            == ExitPhase::Reconciling,
{
}

/// The notices of the cleanup are kept, to be printed; the red panel prints none.
pub proof fn law_exit_notices_are_kept(msgs: Vec<String>)
    ensures
        exit_notices(Flavor::Neon, ExitPhase::Reconciling, ExitEvent::Reconciled(msgs))
            == text::texts(msgs@),
        exit_notices(Flavor::Red, ExitPhase::Reconciling, ExitEvent::Reconciled(msgs)).len() == 0,
{
}

/// Opening, clearing or keeping the logs leaves the design, the clock, the number of
/// scans and the notices alone; only opening the neon logs begins to follow them.
pub proof fn law_logs_leave_the_rest_alone(
    a: AppText,
    target: LogView,
    log: Seq<Seq<char>>,
    fetched: Seq<Seq<char>>,
)
    ensures
        ({
            let o = logs_open(a, log, fetched);
            let d = deploy_cleared(a, fetched);
            let s = software_cleared(a, log);
            let k = logs_kept(a, target, log, fetched);
            &&& o.flavor == a.flavor && o.tick == a.tick && o.scan_seq == a.scan_seq
                && o.exit_notices == a.exit_notices
            &&& d.flavor == a.flavor && d.tick == a.tick && d.scan_seq == a.scan_seq
                && d.exit_notices == a.exit_notices
            &&& s.flavor == a.flavor && s.tick == a.tick && s.scan_seq == a.scan_seq
                && s.exit_notices == a.exit_notices
            &&& k.flavor == a.flavor && k.tick == a.tick && k.scan_seq == a.scan_seq
                && k.exit_notices == a.exit_notices
            &&& d.deploy_tail == a.deploy_tail && d.software_tail == a.software_tail
            &&& s.deploy_tail == a.deploy_tail && s.software_tail == a.software_tail
            &&& k.deploy_tail == a.deploy_tail && k.software_tail == a.software_tail
        }),
{
}

/// Lines that come do not move what is scrolled to; a cleared log takes the neon panel
/// back to the top.
pub proof fn law_messages_and_scrolling(a: AppText, m: Msg)
    requires
        a.screen is Logs,
    ensures
        ({
            let s = told(a, m);
            let cleared = m is DeployLogsCleared || m is SoftwareLogsCleared;
            &&& s.screen is Logs
            &&& cleared && a.flavor == Flavor::Neon ==> s.screen->scroll == 0
            &&& !cleared || a.flavor == Flavor::Red ==> s.screen->scroll == a.screen->scroll
        }),
{
}

/// The red panel shows the lines of a deploy in its logs as they come; the neon panel
/// shows those of the shared file alone.
pub proof fn law_deploy_lines_in_the_logs(a: AppText, line: String, ok: bool)
    requires
        a.screen is Logs,
    ensures
        a.flavor == Flavor::Red ==> told(a, Msg::Log(line)).screen->deploy_lines == buffered_text(
            a.screen->deploy_lines,
            line@,
        ),
        a.flavor == Flavor::Neon ==> told(a, Msg::Log(line)).screen == a.screen,
        a.flavor == Flavor::Neon ==> told(a, Msg::DeployDone(ok)).screen == a.screen,
        a.flavor == Flavor::Red ==> told(a, Msg::DeployDone(true)).screen->deploy_lines
            == a.screen->deploy_lines,
        a.flavor == Flavor::Red ==> told(a, Msg::DeployDone(false)).screen->deploy_lines
            == buffered(a.screen->deploy_lines, "deployment failed"@),
{
}

} // verus!
