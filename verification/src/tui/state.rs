//! The panel's screens, and what keys do to them.
//!
//! What a key asks of the outside (start a scan, delete a service, read a log)
//! is handed back as an [`Effect`]; where it brings something back, a function
//! of [`crate::tui::messages`] puts that on the screen.

use vstd::prelude::*;

use crate::hoster::github;
use crate::hoster::recipes;
use crate::text;
use crate::tui::keys::{self, Key};

verus! {

/// Hard bound on a log held in memory: the screen re-wraps the whole buffer on
/// every tick, so only the newest lines are kept.
pub const MAX_DEPLOY_LINES: usize = 2000;

/// The two designs of the panel: the neon one, and the red one.
#[derive(Debug, Clone, Copy, PartialEq, Eq, Structural)]
pub enum Flavor {
    Neon,
    Red,
}

/// Which log is shown.
#[derive(Debug, Clone, Copy, PartialEq, Eq, Structural)]
pub enum LogView {
    Deploy,
    Software,
}

/// One row of the services screen.
#[derive(Debug)]
pub struct ServiceRow {
    pub name: String,
    pub status: String,
    pub url: String,
}

/// What a row says.
pub struct RowText {
    pub name: Seq<char>,
    pub status: Seq<char>,
    pub url: Seq<char>,
}

impl View for ServiceRow {
    type V = RowText;

    open spec fn view(&self) -> RowText {
        RowText { name: self.name@, status: self.status@, url: self.url@ }
    }
}

pub open spec fn row_texts(v: Seq<ServiceRow>) -> Seq<RowText> {
    v.map_values(|r: ServiceRow| r@)
}

/// A screen: over strings (`T`), lists of lines (`L`) and service rows (`R`).
#[derive(Debug)]
#[verifier::ext_equal]
pub enum Screen<T, L, R> {
    Main {
        selected: usize,
    },
    Scan {
        report: Option<T>,
        running: bool,
        /// Generation of the scan this screen is waiting for. A late result of
        /// an abandoned run carries another one and is dropped.
        seq: u64,
    },
    UrlInput {
        buffer: T,
        error: Option<T>,
        busy: bool,
    },
    /// YES/NO gate before hosting a service.
    Confirm {
        url: T,
        service_label: T,
        /// Which button is highlighted.
        yes_selected: bool,
    },
    Deploy {
        lines: L,
        done: Option<bool>,
    },
    Services {
        rows: R,
        selected: usize,
        message: Option<T>,
    },
    /// YES/NO gate before removing a service (unit, clone, caches).
    ConfirmDelete {
        name: T,
        yes_selected: bool,
    },
    Logs {
        view: LogView,
        deploy_lines: L,
        software_lines: L,
        scroll: usize,
    },
    /// YES/NO gate before clearing logs.
    ConfirmClear {
        target: LogView,
        yes_selected: bool,
    },
}

/// A screen of the panel.
pub type PanelScreen = Screen<String, Vec<String>, Vec<ServiceRow>>;

/// What a screen says.
pub type ScreenText = Screen<Seq<char>, Seq<Seq<char>>, Seq<RowText>>;

/// What a screen of the panel says.
pub open spec fn shown(s: PanelScreen) -> ScreenText {
    match s {
        Screen::Main { selected } => Screen::Main { selected },
        Screen::Scan { report, running, seq } => Screen::Scan {
            report: text::opt_text(report),
            running,
            seq,
        },
        Screen::UrlInput { buffer, error, busy } => Screen::UrlInput {
            buffer: buffer@,
            error: text::opt_text(error),
            busy,
        },
        Screen::Confirm { url, service_label, yes_selected } => Screen::Confirm {
            url: url@,
            service_label: service_label@,
            yes_selected,
        },
        Screen::Deploy { lines, done } => Screen::Deploy { lines: text::texts(lines@), done },
        Screen::Services { rows, selected, message } => Screen::Services {
            rows: row_texts(rows@),
            selected,
            message: text::opt_text(message),
        },
        Screen::ConfirmDelete { name, yes_selected } => Screen::ConfirmDelete {
            name: name@,
            yes_selected,
        },
        Screen::Logs { view, deploy_lines, software_lines, scroll } => Screen::Logs {
            view,
            deploy_lines: text::texts(deploy_lines@),
            software_lines: text::texts(software_lines@),
            scroll,
        },
        Screen::ConfirmClear { target, yes_selected } => Screen::ConfirmClear {
            target,
            yes_selected,
        },
    }
}

/// What a key asks of the outside.
#[derive(Debug)]
pub enum Effect<T> {
    Nothing,
    /// Leave the panel.
    Quit,
    /// Start the scan of this generation.
    StartScan(u64),
    /// Start a deploy of this URL.
    StartDeploy(T),
    /// Read the service rows, for `open_services`.
    OpenServices,
    /// Read the service rows, for `refresh_services`.
    RefreshServices,
    /// Stop a service, then read the rows, for `refresh_services`.
    StopService(T),
    /// Start a service, then read the rows, for `refresh_services`.
    StartService(T),
    /// Delete a service, then read the rows, for `open_services`.
    DeleteService(T),
    /// Read the logs, for `open_logs`.
    OpenLogs,
    /// Stop following the logs.
    LeaveLogs,
    /// Clear a log, for `clear_deploy_view` or `clear_software_view`.
    ClearLog(LogView),
    /// Read the logs, for `keep_logs`.
    KeepLog(LogView),
}

/// What an effect says.
pub open spec fn effect_text(e: Effect<String>) -> Effect<Seq<char>> {
    match e {
        Effect::Nothing => Effect::Nothing,
        Effect::Quit => Effect::Quit,
        Effect::StartScan(n) => Effect::StartScan(n),
        Effect::StartDeploy(u) => Effect::StartDeploy(u@),
        Effect::OpenServices => Effect::OpenServices,
        Effect::RefreshServices => Effect::RefreshServices,
        Effect::StopService(n) => Effect::StopService(n@),
        Effect::StartService(n) => Effect::StartService(n@),
        Effect::DeleteService(n) => Effect::DeleteService(n@),
        Effect::OpenLogs => Effect::OpenLogs,
        Effect::LeaveLogs => Effect::LeaveLogs,
        Effect::ClearLog(v) => Effect::ClearLog(v),
        Effect::KeepLog(v) => Effect::KeepLog(v),
    }
}

/// The panel.
#[derive(Debug)]
pub struct App {
    pub flavor: Flavor,
    pub screen: PanelScreen,
    /// Drives animations.
    pub tick: u64,
    /// Incremented on every System Scan request; identifies the run.
    pub scan_seq: u64,
    pub deploy_history: Vec<String>,
    pub software_history: Vec<String>,
    /// The shared deploy log is being followed.
    pub deploy_tail: bool,
    /// The journals of the services are being followed.
    pub software_tail: bool,
    /// Cleanup notices collected on exit, printed after the terminal is
    /// restored.
    pub exit_notices: Vec<String>,
}

/// What the panel says.
#[verifier::ext_equal]
pub struct AppText {
    pub flavor: Flavor,
    pub screen: ScreenText,
    pub tick: u64,
    pub scan_seq: u64,
    pub deploy_history: Seq<Seq<char>>,
    pub software_history: Seq<Seq<char>>,
    pub deploy_tail: bool,
    pub software_tail: bool,
    pub exit_notices: Seq<Seq<char>>,
}

impl View for App {
    type V = AppText;

    open spec fn view(&self) -> AppText {
        AppText {
            flavor: self.flavor,
            screen: shown(self.screen),
            tick: self.tick,
            scan_seq: self.scan_seq,
            deploy_history: text::texts(self.deploy_history@),
            software_history: text::texts(self.software_history@),
            deploy_tail: self.deploy_tail,
            software_tail: self.software_tail,
            exit_notices: text::texts(self.exit_notices@),
        }
    }
}

impl App {
    /// The panel at its main menu.
    pub fn new(flavor: Flavor) -> (r: Self)
        ensures
            r@ == (AppText {
                flavor,
                screen: Screen::Main { selected: 0 },
                tick: 0,
                scan_seq: 0,
                deploy_history: Seq::empty(),
                software_history: Seq::empty(),
                deploy_tail: false,
                software_tail: false,
                exit_notices: Seq::empty(),
            }),
    {
        App {
            flavor,
            screen: Screen::Main { selected: 0 },
            tick: 0,
            scan_seq: 0,
            deploy_history: text::no_texts(),
            software_history: text::no_texts(),
            deploy_tail: false,
            software_tail: false,
            exit_notices: text::no_texts(),
        }
    }
}

// ---------------------------------------------------------------------------
// Keys
// ---------------------------------------------------------------------------

/// One less, but not below zero.
pub open spec fn less(n: usize, by: int) -> usize {
    if n >= by {
        (n - by) as usize
    } else {
        0
    }
}

/// More, but not above a bound.
pub open spec fn more(n: usize, by: int, bound: int) -> usize {
    if n + by <= bound {
        (n + by) as usize
    } else {
        bound as usize
    }
}

fn less_by(n: usize, by: usize) -> (r: usize)
    ensures
        r == less(n, by as int),
{
    if n >= by {
        n - by
    } else {
        0
    }
}

fn more_by(n: usize, by: usize, bound: usize) -> (r: usize)
    ensures
        r == more(n, by as int, bound as int),
{
    if n <= bound && by <= bound - n {
        n + by
    } else {
        bound
    }
}

/// What the panel calls the repository at a URL: the name of a curated
/// service, or else the URL.
pub open spec fn label(url: Seq<char>) -> Seq<char> {
    match github::repository(url) {
        Some((owner, name)) => match recipes::curated(owner, name) {
            Some(c) => c.name(),
            None => url,
        },
        None => url,
    }
}

/// Human-readable service label for the deploy confirmation screen; falls
/// back to the raw URL when it does not match a curated recipe.
pub fn confirm_label(url: &str) -> (r: String)
    ensures
        r@ == label(url@),
{
    match github::parse_github_url(url) {
        Some(pair) => match recipes::find_recipe(pair.0.as_str(), pair.1.as_str()) {
            Some(c) => c.display_name().to_owned(),
            None => url.to_owned(),
        },
        None => url.to_owned(),
    }
}

/// What a key does to a YES/NO gate: which button is highlighted then, and
/// the decision, if it is made. Letters only move the highlight; Enter alone
/// accepts it.
pub open spec fn gate(yes: bool, key: Key, cmd: Option<char>) -> (bool, Option<bool>) {
    match key {
        Key::Left | Key::Right | Key::Up | Key::Down => (!yes, None),
        Key::Esc => (yes, Some(false)),
        Key::Enter => (yes, Some(yes)),
        _ => if cmd == Some('y') {
            (true, None)
        } else if cmd == Some('n') {
            (false, None)
        } else {
            (yes, None)
        },
    }
}

fn pass_gate(yes: bool, key: Key, cmd: Option<char>) -> (r: (bool, Option<bool>))
    ensures
        r == gate(yes, key, cmd),
{
    match key {
        Key::Left | Key::Right | Key::Up | Key::Down => (!yes, None),
        Key::Esc => (yes, Some(false)),
        Key::Enter => (yes, Some(yes)),
        _ => match cmd {
            Some(c) => if c == 'y' {
                (true, None)
            } else if c == 'n' {
                (false, None)
            } else {
                (yes, None)
            },
            None => (yes, None),
        },
    }
}

/// What a key leads to: the next screen, what is asked of the outside, and the
/// generation of scans.
#[verifier::ext_equal]
pub struct KeyStep {
    pub screen: ScreenText,
    pub effect: Effect<Seq<char>>,
    pub scan_seq: u64,
}

/// Selecting on the main menu.
pub open spec fn menu_step(selected: usize, key: Key, cmd: Option<char>) -> (usize, bool) {
    match key {
        Key::Up | Key::Left => (less(selected, 1), false),
        Key::Down | Key::Right => (more(selected, 1, 3), false),
        Key::Esc => (selected, true),
        _ => if cmd == Some('k') || cmd == Some('h') {
            (less(selected, 1), false)
        } else if cmd == Some('j') || cmd == Some('l') {
            (more(selected, 1, 3), false)
        } else {
            (selected, cmd == Some('q'))
        },
    }
}

/// Activating an entry of the main menu.
pub open spec fn activate_step(selected: usize, scan_seq: u64) -> KeyStep {
    let stay = Screen::Main { selected };
    if selected == 0 {
        let seq = (scan_seq + 1) as u64;
        KeyStep {
            screen: Screen::Scan { report: None, running: true, seq },
            effect: Effect::StartScan(seq),
            scan_seq: seq,
        }
    } else if selected == 1 {
        KeyStep {
            screen: Screen::UrlInput { buffer: Seq::empty(), error: None, busy: false },
            effect: Effect::Nothing,
            scan_seq,
        }
    } else if selected == 2 {
        KeyStep { screen: stay, effect: Effect::OpenServices, scan_seq }
    } else if selected == 3 {
        KeyStep { screen: stay, effect: Effect::OpenLogs, scan_seq }
    } else {
        KeyStep { screen: stay, effect: Effect::Nothing, scan_seq }
    }
}

/// Does a key start a scan?
pub open spec fn starts_scan(s: ScreenText, key: Key) -> bool {
    s == (Screen::<Seq<char>, Seq<Seq<char>>, Seq<RowText>>::Main { selected: 0 }) && (key
        == Key::Enter || key == Key::Char(' '))
}

/// Typing an address. Characters are taken as they are, on any layout.
pub open spec fn url_step(buffer: Seq<char>, error: Option<Seq<char>>, key: Key) -> ScreenText {
    match key {
        Key::Esc => Screen::Main { selected: 1 },
        Key::Backspace => Screen::UrlInput {
            buffer: if buffer.len() > 0 {
                buffer.drop_last()
            } else {
                buffer
            },
            error,
            busy: false,
        },
        Key::Enter => {
            let url = text::trimmed(buffer);
            if url.len() == 0 {
                Screen::UrlInput { buffer, error: Some("enter a GitHub URL"@), busy: false }
            } else {
                Screen::Confirm { url, service_label: label(url), yes_selected: true }
            }
        },
        Key::Char(c) => Screen::UrlInput { buffer: buffer.push(c), error, busy: false },
        _ => Screen::UrlInput { buffer, error, busy: false },
    }
}

/// Working on the services screen.
pub open spec fn services_step(
    rows: Seq<RowText>,
    selected: usize,
    message: Option<Seq<char>>,
    key: Key,
    cmd: Option<char>,
) -> (ScreenText, Effect<Seq<char>>) {
    let count = rows.len();
    let at = |n: usize| Screen::<Seq<char>, Seq<Seq<char>>, Seq<RowText>>::Services {
        rows,
        selected: n,
        message,
    };
    let up = at(
        if count > 0 {
            less(selected, 1)
        } else {
            selected
        },
    );
    let down = at(
        if count > 0 {
            more(selected, 1, count - 1)
        } else {
            selected
        },
    );
    let row = selected < count;
    if key == Key::Esc {
        (Screen::Main { selected: 2 }, Effect::Nothing)
    } else if key == Key::Up && count > 0 {
        (up, Effect::Nothing)
    } else if key == Key::Down && count > 0 {
        (down, Effect::Nothing)
    } else if cmd == Some('q') {
        (Screen::Main { selected: 2 }, Effect::Nothing)
    } else if cmd == Some('k') {
        (up, Effect::Nothing)
    } else if cmd == Some('j') {
        (down, Effect::Nothing)
    } else if cmd == Some('r') {
        (at(selected), Effect::RefreshServices)
    } else if cmd == Some('s') && row {
        (at(selected), Effect::StopService(rows[selected as int].name))
    } else if cmd == Some('t') && row {
        (at(selected), Effect::StartService(rows[selected as int].name))
    } else if cmd == Some('d') && row {
        (
            Screen::ConfirmDelete { name: rows[selected as int].name, yes_selected: false },
            Effect::Nothing,
        )
    } else {
        (at(selected), Effect::Nothing)
    }
}

/// The other log.
pub open spec fn other_view(v: LogView) -> LogView {
    match v {
        LogView::Deploy => LogView::Software,
        LogView::Software => LogView::Deploy,
    }
}

/// The last position in a list of lines.
pub open spec fn last_line(n: nat) -> int {
    if n > 0 {
        n - 1
    } else {
        0
    }
}

/// Reading the logs.
pub open spec fn logs_step(
    f: Flavor,
    view: LogView,
    deploy_lines: Seq<Seq<char>>,
    software_lines: Seq<Seq<char>>,
    scroll: usize,
    key: Key,
    cmd: Option<char>,
) -> (ScreenText, Effect<Seq<char>>) {
    let active = match view {
        LogView::Deploy => deploy_lines.len(),
        LogView::Software => software_lines.len(),
    };
    let at = |n: usize| Screen::<Seq<char>, Seq<Seq<char>>, Seq<RowText>>::Logs {
        view,
        deploy_lines,
        software_lines,
        scroll: n,
    };
    match key {
        Key::Esc | Key::Enter => (Screen::Main { selected: 3 }, Effect::LeaveLogs),
        Key::Tab | Key::Right => (
            Screen::Logs { view: other_view(view), deploy_lines, software_lines, scroll: 0 },
            Effect::Nothing,
        ),
        Key::Left => if f == Flavor::Neon {
            (
                Screen::Logs { view: other_view(view), deploy_lines, software_lines, scroll: 0 },
                Effect::Nothing,
            )
        } else {
            (at(scroll), Effect::Nothing)
        },
        Key::Up => (at(less(scroll, 1)), Effect::Nothing),
        Key::Down => (
            at(
                if active > 0 {
                    more(scroll, 1, active - 1)
                } else {
                    scroll
                },
            ),
            Effect::Nothing,
        ),
        Key::PageUp => (at(less(scroll, 20)), Effect::Nothing),
        Key::PageDown => (at(more(scroll, 20, last_line(active))), Effect::Nothing),
        Key::Home => (at(0), Effect::Nothing),
        Key::End => (at(last_line(active) as usize), Effect::Nothing),
        _ => if f == Flavor::Neon && cmd == Some('q') {
            (Screen::Main { selected: 3 }, Effect::LeaveLogs)
        } else if f == Flavor::Neon && cmd == Some('d') {
            (Screen::ConfirmClear { target: view, yes_selected: false }, Effect::Nothing)
        } else {
            (at(scroll), Effect::Nothing)
        },
    }
}

/// Deploying a URL begins with one line.
pub open spec fn deploying_text(url: Seq<char>) -> Seq<char> {
    "deploying "@ + url + "..."@
}

/// What a key leads to.
pub open spec fn key_step(
    f: Flavor,
    s: ScreenText,
    scan_seq: u64,
    key: Key,
    control: bool,
    cmd: Option<char>,
) -> KeyStep {
    let with = |screen: ScreenText, effect: Effect<Seq<char>>| KeyStep { screen, effect, scan_seq };
    if key == Key::Char('c') && control {
        with(s, Effect::Quit)
    } else {
        match s {
            Screen::Main { selected } => if key == Key::Enter || key == Key::Char(' ') {
                activate_step(selected, scan_seq)
            } else {
                let (n, quit) = menu_step(selected, key, cmd);
                with(
                    Screen::Main { selected: n },
                    if quit {
                        Effect::Quit
                    } else {
                        Effect::Nothing
                    },
                )
            },
            Screen::Scan { .. } => if key == Key::Esc || key == Key::Enter || cmd == Some('q') {
                with(Screen::Main { selected: 0 }, Effect::Nothing)
            } else {
                with(s, Effect::Nothing)
            },
            Screen::UrlInput { buffer, error, busy } => if busy {
                with(s, Effect::Nothing)
            } else {
                with(url_step(buffer, error, key), Effect::Nothing)
            },
            Screen::Confirm { url, service_label, yes_selected } => {
                let (yes, decision) = gate(yes_selected, key, cmd);
                match decision {
                    Some(true) => with(
                        Screen::Deploy { lines: seq![deploying_text(url)], done: None },
                        Effect::StartDeploy(url),
                    ),
                    Some(false) => with(
                        Screen::UrlInput { buffer: url, error: None, busy: false },
                        Effect::Nothing,
                    ),
                    None => with(
                        Screen::Confirm { url, service_label, yes_selected: yes },
                        Effect::Nothing,
                    ),
                }
            },
            Screen::Deploy { done, .. } => if done is Some {
                if key == Key::Enter || key == Key::Esc || cmd == Some('q') {
                    with(Screen::Main { selected: 1 }, Effect::Nothing)
                } else {
                    with(s, Effect::Nothing)
                }
            } else if cmd == Some('q') {
                with(s, Effect::Quit)
            } else {
                with(s, Effect::Nothing)
            },
            Screen::Services { rows, selected, message } => {
                let (next, effect) = services_step(rows, selected, message, key, cmd);
                with(next, effect)
            },
            Screen::ConfirmDelete { name, yes_selected } => {
                let (yes, decision) = gate(yes_selected, key, cmd);
                match decision {
                    Some(true) => with(s, Effect::DeleteService(name)),
                    Some(false) => with(s, Effect::OpenServices),
                    None => with(
                        Screen::ConfirmDelete { name, yes_selected: yes },
                        Effect::Nothing,
                    ),
                }
            },
            Screen::Logs { view, deploy_lines, software_lines, scroll } => {
                let (next, effect) = logs_step(
                    f,
                    view,
                    deploy_lines,
                    software_lines,
                    scroll,
                    key,
                    cmd,
                );
                with(next, effect)
            },
            Screen::ConfirmClear { target, yes_selected } => {
                let (yes, decision) = gate(yes_selected, key, cmd);
                match decision {
                    Some(true) => with(s, Effect::ClearLog(target)),
                    Some(false) => with(s, Effect::KeepLog(target)),
                    None => with(
                        Screen::ConfirmClear { target, yes_selected: yes },
                        Effect::Nothing,
                    ),
                }
            },
        }
    }
}

fn step_url(buffer: String, error: Option<String>, key: Key) -> (r: PanelScreen)
    ensures
        shown(r) == url_step(buffer@, text::opt_text(error), key),
{
    match key {
        Key::Esc => Screen::Main { selected: 1 },
        Key::Backspace => {
            let v = text::chars_of(buffer.as_str());
            if v.len() > 0 {
                let cut = text::string_range(&v, 0, v.len() - 1);
                assert(cut@ =~= buffer@.drop_last());
                Screen::UrlInput { buffer: cut, error, busy: false }
            } else {
                Screen::UrlInput { buffer, error, busy: false }
            }
        },
        Key::Enter => {
            let url = text::trim(buffer.as_str());
            if url.as_str().is_empty() {
                Screen::UrlInput {
                    buffer,
                    error: Some("enter a GitHub URL".to_owned()),
                    busy: false,
                }
            } else {
                let service_label = confirm_label(url.as_str());
                Screen::Confirm { url, service_label, yes_selected: true }
            }
        },
        Key::Char(c) => {
            let mut b = buffer;
            b.push(c);
            Screen::UrlInput { buffer: b, error, busy: false }
        },
        _ => Screen::UrlInput { buffer, error, busy: false },
    }
}

fn is_cmd(cmd: Option<char>, c: char) -> (r: bool)
    ensures
        r == (cmd == Some(c)),
{
    match cmd {
        Some(d) => d == c,
        None => false,
    }
}

fn step_services(
    rows: Vec<ServiceRow>,
    selected: usize,
    message: Option<String>,
    key: Key,
    cmd: Option<char>,
) -> (r: (PanelScreen, Effect<String>))
    ensures
        ({
            let (next, effect) = services_step(
                row_texts(rows@),
                selected,
                text::opt_text(message),
                key,
                cmd,
            );
            shown(r.0) == next && effect_text(r.1) == effect
        }),
{
    let count: usize = rows.len();
    assert(row_texts(rows@).len() == count);
    if key == Key::Esc {
        return (Screen::Main { selected: 2 }, Effect::Nothing);
    }
    let up = (key == Key::Up && count > 0) || (!(key == Key::Down && count > 0) && !is_cmd(cmd, 'q')
        && is_cmd(cmd, 'k'));
    if up {
        let n: usize = if count > 0 {
            less_by(selected, 1)
        } else {
            selected
        };
        return (Screen::Services { rows, selected: n, message }, Effect::Nothing);
    }
    let down = (key == Key::Down && count > 0) || is_cmd(cmd, 'j');
    if down {
        let n: usize = if count > 0 {
            more_by(selected, 1, count - 1)
        } else {
            selected
        };
        return (Screen::Services { rows, selected: n, message }, Effect::Nothing);
    }
    if is_cmd(cmd, 'q') {
        return (Screen::Main { selected: 2 }, Effect::Nothing);
    }
    if is_cmd(cmd, 'r') {
        return (Screen::Services { rows, selected, message }, Effect::RefreshServices);
    }
    if selected < count {
        let name = rows[selected].name.clone();
        assert(row_texts(rows@)[selected as int].name == name@);
        if is_cmd(cmd, 's') {
            return (Screen::Services { rows, selected, message }, Effect::StopService(name));
        }
        if is_cmd(cmd, 't') {
            return (Screen::Services { rows, selected, message }, Effect::StartService(name));
        }
        if is_cmd(cmd, 'd') {
            return (Screen::ConfirmDelete { name, yes_selected: false }, Effect::Nothing);
        }
    }
    (Screen::Services { rows, selected, message }, Effect::Nothing)
}

fn step_logs(
    f: Flavor,
    view: LogView,
    deploy_lines: Vec<String>,
    software_lines: Vec<String>,
    scroll: usize,
    key: Key,
    cmd: Option<char>,
) -> (r: (PanelScreen, Effect<String>))
    ensures
        ({
            let (next, effect) = logs_step(
                f,
                view,
                text::texts(deploy_lines@),
                text::texts(software_lines@),
                scroll,
                key,
                cmd,
            );
            shown(r.0) == next && effect_text(r.1) == effect
        }),
{
    assert(text::texts(deploy_lines@).len() == deploy_lines@.len());
    assert(text::texts(software_lines@).len() == software_lines@.len());
    let active: usize = match view {
        LogView::Deploy => deploy_lines.len(),
        LogView::Software => software_lines.len(),
    };
    let last: usize = if active > 0 {
        active - 1
    } else {
        0
    };
    let other = match view {
        LogView::Deploy => LogView::Software,
        LogView::Software => LogView::Deploy,
    };
    let neon = f == Flavor::Neon;
    let mut n: usize = scroll;
    match key {
        Key::Esc | Key::Enter => {
            return (Screen::Main { selected: 3 }, Effect::LeaveLogs);
        },
        Key::Tab | Key::Right => {
            return (
                Screen::Logs { view: other, deploy_lines, software_lines, scroll: 0 },
                Effect::Nothing,
            );
        },
        Key::Left => {
            if neon {
                return (
                    Screen::Logs { view: other, deploy_lines, software_lines, scroll: 0 },
                    Effect::Nothing,
                );
            }
        },
        Key::Up => {
            n = less_by(scroll, 1);
        },
        Key::Down => {
            if active > 0 {
                n = more_by(scroll, 1, last);
            }
        },
        Key::PageUp => {
            n = less_by(scroll, 20);
        },
        Key::PageDown => {
            n = more_by(scroll, 20, last);
        },
        Key::Home => {
            n = 0;
        },
        Key::End => {
            n = last;
        },
        _ => {
            if neon && is_cmd(cmd, 'q') {
                return (Screen::Main { selected: 3 }, Effect::LeaveLogs);
            }
            if neon && is_cmd(cmd, 'd') {
                return (
                    Screen::ConfirmClear { target: view, yes_selected: false },
                    Effect::Nothing,
                );
            }
        },
    }
    (Screen::Logs { view, deploy_lines, software_lines, scroll: n }, Effect::Nothing)
}

/// Activates an entry of the main menu.
fn main_menu_activate(selected: usize, scan_seq: u64) -> (r: (PanelScreen, Effect<String>, u64))
    requires
        selected == 0 ==> scan_seq < u64::MAX,
    ensures
        ({
            let step = activate_step(selected, scan_seq);
            shown(r.0) == step.screen && effect_text(r.1) == step.effect && r.2 == step.scan_seq
        }),
{
    if selected == 0 {
        let seq: u64 = scan_seq + 1;
        (Screen::Scan { report: None, running: true, seq }, Effect::StartScan(seq), seq)
    } else if selected == 1 {
        let buffer = String::new();
        assert(buffer@ =~= Seq::<char>::empty());
        (Screen::UrlInput { buffer, error: None, busy: false }, Effect::Nothing, scan_seq)
    } else if selected == 2 {
        (Screen::Main { selected }, Effect::OpenServices, scan_seq)
    } else if selected == 3 {
        (Screen::Main { selected }, Effect::OpenLogs, scan_seq)
    } else {
        (Screen::Main { selected }, Effect::Nothing, scan_seq)
    }
}

/// Moves the selection of the main menu, or quits.
fn move_main_selection(selected: usize, key: Key, cmd: Option<char>) -> (r: (usize, bool))
    ensures
        r == menu_step(selected, key, cmd),
{
    match key {
        Key::Up | Key::Left => (less_by(selected, 1), false),
        Key::Down | Key::Right => (more_by(selected, 1, 3), false),
        Key::Esc => (selected, true),
        _ => if is_cmd(cmd, 'k') || is_cmd(cmd, 'h') {
            (less_by(selected, 1), false)
        } else if is_cmd(cmd, 'j') || is_cmd(cmd, 'l') {
            (more_by(selected, 1, 3), false)
        } else {
            (selected, is_cmd(cmd, 'q'))
        },
    }
}

fn step_key(
    f: Flavor,
    s: PanelScreen,
    scan_seq: u64,
    key: Key,
    control: bool,
    cmd: Option<char>,
) -> (r: (PanelScreen, Effect<String>, u64))
    requires
        starts_scan(shown(s), key) ==> scan_seq < u64::MAX,
    ensures
        ({
            let step = key_step(f, shown(s), scan_seq, key, control, cmd);
            shown(r.0) == step.screen && effect_text(r.1) == step.effect && r.2 == step.scan_seq
        }),
{
    if key == Key::Char('c') && control {
        return (s, Effect::Quit, scan_seq);
    }
    match s {
        Screen::Main { selected } => {
            if key == Key::Enter || key == Key::Char(' ') {
                return main_menu_activate(selected, scan_seq);
            }
            let (n, quit) = move_main_selection(selected, key, cmd);
            if quit {
                (Screen::Main { selected: n }, Effect::Quit, scan_seq)
            } else {
                (Screen::Main { selected: n }, Effect::Nothing, scan_seq)
            }
        },
        Screen::Scan { report, running, seq } => {
            if key == Key::Esc || key == Key::Enter || is_cmd(cmd, 'q') {
                (Screen::Main { selected: 0 }, Effect::Nothing, scan_seq)
            } else {
                (Screen::Scan { report, running, seq }, Effect::Nothing, scan_seq)
            }
        },
        Screen::UrlInput { buffer, error, busy } => {
            if busy {
                (Screen::UrlInput { buffer, error, busy }, Effect::Nothing, scan_seq)
            } else {
                (step_url(buffer, error, key), Effect::Nothing, scan_seq)
            }
        },
        Screen::Confirm { url, service_label, yes_selected } => {
            let (yes, decision) = pass_gate(yes_selected, key, cmd);
            match decision {
                Some(true) => {
                    let mut first = "deploying ".to_owned();
                    first.append(url.as_str());
                    first.append("...");
                    let mut lines = text::no_texts();
                    text::push_text(&mut lines, first.as_str());
                    (Screen::Deploy { lines, done: None }, Effect::StartDeploy(url), scan_seq)
                },
                Some(false) => (
                    Screen::UrlInput { buffer: url, error: None, busy: false },
                    Effect::Nothing,
                    scan_seq,
                ),
                None => (
                    Screen::Confirm { url, service_label, yes_selected: yes },
                    Effect::Nothing,
                    scan_seq,
                ),
            }
        },
        Screen::Deploy { lines, done } => {
            let q = is_cmd(cmd, 'q');
            if done.is_some() && (q || key == Key::Enter || key == Key::Esc) {
                (Screen::Main { selected: 1 }, Effect::Nothing, scan_seq)
            } else if done.is_none() && q {
                (Screen::Deploy { lines, done }, Effect::Quit, scan_seq)
            } else {
                (Screen::Deploy { lines, done }, Effect::Nothing, scan_seq)
            }
        },
        Screen::Services { rows, selected, message } => {
            let (next, effect) = step_services(rows, selected, message, key, cmd);
            (next, effect, scan_seq)
        },
        Screen::ConfirmDelete { name, yes_selected } => {
            let (yes, decision) = pass_gate(yes_selected, key, cmd);
            match decision {
                Some(true) => {
                    let gone = name.clone();
                    (
                        Screen::ConfirmDelete { name, yes_selected },
                        Effect::DeleteService(gone),
                        scan_seq,
                    )
                },
                Some(false) => (
                    Screen::ConfirmDelete { name, yes_selected },
                    Effect::OpenServices,
                    scan_seq,
                ),
                None => (
                    Screen::ConfirmDelete { name, yes_selected: yes },
                    Effect::Nothing,
                    scan_seq,
                ),
            }
        },
        Screen::Logs { view, deploy_lines, software_lines, scroll } => {
            let (next, effect) = step_logs(
                f,
                view,
                deploy_lines,
                software_lines,
                scroll,
                key,
                cmd,
            );
            (next, effect, scan_seq)
        },
        Screen::ConfirmClear { target, yes_selected } => {
            let (yes, decision) = pass_gate(yes_selected, key, cmd);
            match decision {
                Some(true) => (
                    Screen::ConfirmClear { target, yes_selected },
                    Effect::ClearLog(target),
                    scan_seq,
                ),
                Some(false) => (
                    Screen::ConfirmClear { target, yes_selected },
                    Effect::KeepLog(target),
                    scan_seq,
                ),
                None => (
                    Screen::ConfirmClear { target, yes_selected: yes },
                    Effect::Nothing,
                    scan_seq,
                ),
            }
        },
    }
}

/// The panel after a key.
pub open spec fn keyed(a: AppText, key: Key, control: bool) -> AppText {
    let step = key_step(a.flavor, a.screen, a.scan_seq, key, control, keys::command(key));
    AppText {
        screen: step.screen,
        scan_seq: step.scan_seq,
        deploy_tail: a.deploy_tail && !(step.effect is LeaveLogs),
        software_tail: a.software_tail && !(step.effect is LeaveLogs),
        ..a
    }
}

/// Takes a key: moves between the screens, and says what is asked of the
/// outside.
pub fn on_key(app: &mut App, key: Key, control: bool) -> (r: Effect<String>)
    requires
        starts_scan(old(app)@.screen, key) ==> old(app).scan_seq < u64::MAX,
    ensures
        final(app)@ == keyed(old(app)@, key, control),
        effect_text(r) == key_step(
            old(app).flavor,
            shown(old(app).screen),
            old(app).scan_seq,
            key,
            control,
            keys::command(key),
        ).effect,
        keys::folded(key, keys::command(key)),
{
    let cmd = keys::command_char(key);
    let mut s: PanelScreen = Screen::Main { selected: 0 };
    std::mem::swap(&mut s, &mut app.screen);
    let (next, effect, seq) = step_key(app.flavor, s, app.scan_seq, key, control, cmd);
    app.screen = next;
    app.scan_seq = seq;
    match effect {
        Effect::LeaveLogs => {
            app.deploy_tail = false;
            app.software_tail = false;
        },
        _ => {},
    }
    effect
}

// ---------------------------------------------------------------------------
// What holds of every key
// ---------------------------------------------------------------------------

/// Does an effect change anything for good?
pub open spec fn commits(e: Effect<Seq<char>>) -> bool {
    e is StartDeploy || e is DeleteService || e is ClearLog
}

/// Nothing is deployed, deleted or cleared without an explicit Enter on the
/// highlighted YES of its gate.
pub proof fn law_only_enter_commits(
    f: Flavor,
    s: ScreenText,
    scan_seq: u64,
    key: Key,
    control: bool,
    cmd: Option<char>,
)
    requires
        commits(key_step(f, s, scan_seq, key, control, cmd).effect),
    ensures
        key == Key::Enter,
        match s {
            Screen::Confirm { yes_selected, .. } => yes_selected,
            Screen::ConfirmDelete { yes_selected, .. } => yes_selected,
            Screen::ConfirmClear { yes_selected, .. } => yes_selected,
            _ => false,
        },
{
}

/// What a gate commits is what it named.
pub proof fn law_gate_commits_what_it_names(
    f: Flavor,
    s: ScreenText,
    scan_seq: u64,
    key: Key,
    control: bool,
    cmd: Option<char>,
)
    ensures
        match key_step(f, s, scan_seq, key, control, cmd).effect {
            Effect::StartDeploy(u) => s matches Screen::Confirm { url, .. } && u == url,
            Effect::DeleteService(n) => s matches Screen::ConfirmDelete { name, .. } && n == name,
            Effect::ClearLog(v) => s matches Screen::ConfirmClear { target, .. } && v == target,
            _ => true,
        },
{
}

/// The gates before a removal open on No.
pub proof fn law_destructive_gates_open_on_no(
    f: Flavor,
    s: ScreenText,
    scan_seq: u64,
    key: Key,
    control: bool,
    cmd: Option<char>,
)
    ensures
        ({
            let next = key_step(f, s, scan_seq, key, control, cmd).screen;
            &&& !(s is ConfirmDelete) && (next is ConfirmDelete) ==> !next->ConfirmDelete_yes_selected
            &&& !(s is ConfirmClear) && (next is ConfirmClear) ==> !next->ConfirmClear_yes_selected
        }),
{
}

/// Ctrl+C leaves the panel from any screen.
pub proof fn law_control_c_quits(f: Flavor, s: ScreenText, scan_seq: u64, cmd: Option<char>)
    ensures
        key_step(f, s, scan_seq, Key::Char('c'), true, cmd).effect == Effect::<Seq<char>>::Quit,
{
}

/// While a deploy runs the panel can be left, by `q` or Ctrl+C; every other
/// key, Esc among them, asks for nothing. The screen stays either way.
pub proof fn law_running_deploy_can_be_left(
    f: Flavor,
    lines: Seq<Seq<char>>,
    scan_seq: u64,
    key: Key,
    control: bool,
    cmd: Option<char>,
)
    ensures
        ({
            let s = Screen::<Seq<char>, Seq<Seq<char>>, Seq<RowText>>::Deploy {
                lines,
                done: None,
            };
            let step = key_step(f, s, scan_seq, key, control, cmd);
            &&& step.screen == s
            &&& step.effect == (if cmd == Some('q') || (key == Key::Char('c') && control) {
                Effect::<Seq<char>>::Quit
            } else {
                Effect::<Seq<char>>::Nothing
            })
        }),
{
}

/// An address is typed verbatim, on any layout.
pub proof fn law_url_is_typed_verbatim(
    f: Flavor,
    buffer: Seq<char>,
    error: Option<Seq<char>>,
    scan_seq: u64,
    c: char,
    cmd: Option<char>,
)
    ensures
        key_step(
            f,
            Screen::UrlInput { buffer, error, busy: false },
            scan_seq,
            Key::Char(c),
            false,
            cmd,
        ).screen == (Screen::<Seq<char>, Seq<Seq<char>>, Seq<RowText>>::UrlInput {
            buffer: buffer.push(c),
            error,
            busy: false,
        }),
{
}

/// Refusing a deploy leads back to the address, as it was typed.
pub proof fn law_refused_deploy_keeps_the_address(
    f: Flavor,
    url: Seq<char>,
    service_label: Seq<char>,
    yes_selected: bool,
    scan_seq: u64,
    cmd: Option<char>,
)
    ensures
        key_step(
            f,
            Screen::Confirm { url, service_label, yes_selected },
            scan_seq,
            Key::Esc,
            false,
            cmd,
        ).screen == (Screen::<Seq<char>, Seq<Seq<char>>, Seq<RowText>>::UrlInput {
            buffer: url,
            error: None,
            busy: false,
        }),
{
}

/// The selection of the main menu stays among its four entries, and scrolling
/// stays among the lines.
pub proof fn law_positions_stay_in_range(
    f: Flavor,
    s: ScreenText,
    scan_seq: u64,
    key: Key,
    control: bool,
    cmd: Option<char>,
)
    requires
        positioned(s),
    ensures
        positioned(key_step(f, s, scan_seq, key, control, cmd).screen),
{
}

/// Every position on the screen is one of its entries or lines (or the first,
/// where there are none).
pub open spec fn positioned(s: ScreenText) -> bool {
    match s {
        Screen::Main { selected } => selected <= 3,
        Screen::Services { rows, selected, .. } => selected == 0 || selected < rows.len(),
        Screen::Logs { view, deploy_lines, software_lines, scroll } => scroll == 0 || scroll
            < (match view {
            LogView::Deploy => deploy_lines.len(),
            LogView::Software => software_lines.len(),
        }),
        _ => true,
    }
}

/// Enter or Space on the menu opens what is selected: the scan, which starts at
/// once under a new number, the address to deploy, the services, or the logs.
pub proof fn law_menu_opens_what_is_selected(
    f: Flavor,
    selected: usize,
    scan_seq: u64,
    key: Key,
    cmd: Option<char>,
)
    requires
        key == Key::Enter || key == Key::Char(' '),
        scan_seq < u64::MAX,
    ensures
        ({
            let s = key_step(f, Screen::Main { selected }, scan_seq, key, false, cmd);
            &&& selected == 0 <==> s.effect is StartScan
            &&& selected == 0 ==> {
                &&& s.effect == Effect::<Seq<char>>::StartScan((scan_seq + 1) as u64)
                &&& s.scan_seq == scan_seq + 1
                &&& s.screen matches Screen::Scan { report, running, seq } && report is None
                    && running && seq == scan_seq + 1
            }
            &&& selected == 1 <==> s.screen is UrlInput
            &&& selected == 1 ==> s.screen->buffer.len() == 0 && !s.screen->busy
            &&& selected == 2 <==> s.effect is OpenServices
            &&& selected == 3 <==> s.effect is OpenLogs
            &&& selected != 0 ==> s.scan_seq == scan_seq
        }),
{
}

/// Only the menu starts a scan, and only with Enter or Space.
pub proof fn law_only_the_menu_starts_a_scan(
    f: Flavor,
    s: ScreenText,
    scan_seq: u64,
    key: Key,
    control: bool,
    cmd: Option<char>,
)
    requires
        key_step(f, s, scan_seq, key, control, cmd).effect is StartScan,
    ensures
        s matches Screen::Main { selected } && selected == 0,
        key == Key::Enter || key == Key::Char(' '),
{
}

/// On the menu the arrows move by one entry and stop at the ends; the letters of
/// vi move as well, and `q` or Esc leaves.
pub proof fn law_menu_moves_by_one(
    f: Flavor,
    selected: usize,
    scan_seq: u64,
    c: char,
    cmd: Option<char>,
)
    requires
        selected <= 3,
        c != ' ',
    ensures
        ({
            let after = |key: Key| key_step(f, Screen::Main { selected }, scan_seq, key, false, cmd);
            let at = |n: int|
                Screen::<Seq<char>, Seq<Seq<char>>, Seq<RowText>>::Main { selected: n as usize };
            let up = if selected == 0 {
                0
            } else {
                selected - 1
            };
            let down = if selected == 3 {
                3
            } else {
                selected + 1
            };
            &&& after(Key::Up).screen == at(up)
            &&& after(Key::Left).screen == at(up)
            &&& after(Key::Down).screen == at(down)
            &&& after(Key::Right).screen == at(down)
            &&& after(Key::Esc).effect is Quit
            &&& cmd == Some('k') || cmd == Some('h') ==> after(Key::Char(c)).screen == at(up)
            &&& cmd == Some('j') || cmd == Some('l') ==> after(Key::Char(c)).screen == at(down)
            &&& after(Key::Char(c)).effect is Quit <==> cmd == Some('q')
        }),
{
}

/// On the services screen a command acts on the selected service, and on no
/// other: `s` stops it, `t` starts it, `d` asks before it is removed. Without a
/// selected service they do nothing.
pub proof fn law_service_commands_act_on_the_selected_row(
    f: Flavor,
    rows: Seq<RowText>,
    selected: usize,
    message: Option<Seq<char>>,
    scan_seq: u64,
    c: char,
    cmd: Option<char>,
)
    ensures
        ({
            let here = Screen::Services { rows, selected, message };
            let s = key_step(f, here, scan_seq, Key::Char(c), false, cmd);
            &&& cmd == Some('s') && selected < rows.len() ==> s.effect == Effect::StopService(
                rows[selected as int].name,
            ) && s.screen == here
            &&& cmd == Some('t') && selected < rows.len() ==> s.effect == Effect::StartService(
                rows[selected as int].name,
            ) && s.screen == here
            &&& cmd == Some('d') && selected < rows.len() ==> s.effect is Nothing && s.screen == (
            Screen::<Seq<char>, Seq<Seq<char>>, Seq<RowText>>::ConfirmDelete {
                name: rows[selected as int].name,
                yes_selected: false,
            })
            &&& cmd == Some('r') ==> s.effect is RefreshServices && s.screen == here
            &&& cmd == Some('q') ==> s.effect is Nothing && s.screen == (Screen::<
                Seq<char>,
                Seq<Seq<char>>,
                Seq<RowText>,
            >::Main { selected: 2 })
            &&& (cmd == Some('s') || cmd == Some('t') || cmd == Some('d')) && selected
                >= rows.len() ==> s.effect is Nothing && s.screen == here
        }),
{
}

/// On the services screen the selection moves by one row and stops at the ends.
pub proof fn law_service_selection_moves_by_one(
    f: Flavor,
    rows: Seq<RowText>,
    selected: usize,
    message: Option<Seq<char>>,
    scan_seq: u64,
    cmd: Option<char>,
)
    requires
        selected < rows.len(),
    ensures
        ({
            let here = Screen::Services { rows, selected, message };
            let at = |n: int|
                Screen::<Seq<char>, Seq<Seq<char>>, Seq<RowText>>::Services {
                    rows,
                    selected: n as usize,
                    message,
                };
            &&& key_step(f, here, scan_seq, Key::Up, false, cmd).screen == at(
                if selected == 0 {
                    0
                } else {
                    selected - 1
                },
            )
            &&& key_step(f, here, scan_seq, Key::Down, false, cmd).screen == at(
                if selected + 1 == rows.len() {
                    selected as int
                } else {
                    selected + 1
                },
            )
        }),
{
}

/// Every screen is left for the menu, at the entry that opened it.
pub proof fn law_screens_lead_back_to_their_entry(
    f: Flavor,
    s: ScreenText,
    scan_seq: u64,
    cmd: Option<char>,
)
    ensures
        ({
            let next = key_step(f, s, scan_seq, Key::Esc, false, cmd);
            let menu = |n: usize|
                Screen::<Seq<char>, Seq<Seq<char>>, Seq<RowText>>::Main { selected: n };
            &&& s is Scan ==> next.screen == menu(0) && next.effect is Nothing
            &&& s is UrlInput && !s->busy ==> next.screen == menu(1) && next.effect is Nothing
            &&& s is Deploy && s->done is Some ==> next.screen == menu(1) && next.effect is Nothing
            &&& s is Services ==> next.screen == menu(2) && next.effect is Nothing
            &&& s is Logs ==> next.screen == menu(3) && next.effect is LeaveLogs
            &&& s is ConfirmDelete ==> next.effect is OpenServices
            &&& s is ConfirmClear ==> next.effect == Effect::<Seq<char>>::KeepLog(
                s->ConfirmClear_target,
            )
        }),
{
}

/// The logs show the other view after Tab or Right, from its top; twice leads
/// back. The lines of neither view change.
pub proof fn law_tab_switches_the_view(
    f: Flavor,
    deploy_lines: Seq<Seq<char>>,
    software_lines: Seq<Seq<char>>,
    scroll: usize,
    scan_seq: u64,
    key: Key,
    cmd: Option<char>,
)
    requires
        key == Key::Tab || key == Key::Right || (key == Key::Left && f == Flavor::Neon),
    ensures
        ({
            let at = |view: LogView, n: usize|
                Screen::<Seq<char>, Seq<Seq<char>>, Seq<RowText>>::Logs {
                    view,
                    deploy_lines,
                    software_lines,
                    scroll: n,
                };
            let after = |s: ScreenText| key_step(f, s, scan_seq, key, false, cmd).screen;
            &&& after(at(LogView::Deploy, scroll)) == at(LogView::Software, 0)
            &&& after(at(LogView::Software, scroll)) == at(LogView::Deploy, 0)
        }),
{
}

/// Scrolling moves by a line, by twenty, or to an end, within the lines of the
/// view that is shown, whatever the other one holds.
pub proof fn law_scrolling(
    f: Flavor,
    view: LogView,
    deploy_lines: Seq<Seq<char>>,
    software_lines: Seq<Seq<char>>,
    scroll: usize,
    scan_seq: u64,
    cmd: Option<char>,
)
    requires
        scroll < (if view == LogView::Deploy {
            deploy_lines.len()
        } else {
            software_lines.len()
        }),
        deploy_lines.len() <= usize::MAX,
        software_lines.len() <= usize::MAX,
    ensures
        ({
            let n = if view == LogView::Deploy {
                deploy_lines.len() as int
            } else {
                software_lines.len() as int
            };
            let at = |k: int|
                Screen::<Seq<char>, Seq<Seq<char>>, Seq<RowText>>::Logs {
                    view,
                    deploy_lines,
                    software_lines,
                    scroll: k as usize,
                };
            let after = |key: Key|
                key_step(f, at(scroll as int), scan_seq, key, false, cmd).screen;
            &&& after(Key::Up) == at(vstd::math::max(0, scroll - 1))
            &&& after(Key::Down) == at(vstd::math::min(n - 1, scroll + 1))
            &&& after(Key::PageUp) == at(vstd::math::max(0, scroll - 20))
            &&& after(Key::PageDown) == at(vstd::math::min(n - 1, scroll + 20))
            &&& after(Key::Home) == at(0)
            &&& after(Key::End) == at(n - 1)
        }),
{
}

/// Clearing asks for the log that is shown.
pub proof fn law_clearing_asks_for_the_shown_log(
    view: LogView,
    deploy_lines: Seq<Seq<char>>,
    software_lines: Seq<Seq<char>>,
    scroll: usize,
    scan_seq: u64,
    c: char,
)
    ensures
        ({
            let s = key_step(
                Flavor::Neon,
                Screen::Logs { view, deploy_lines, software_lines, scroll },
                scan_seq,
                Key::Char(c),
                false,
                Some('d'),
            );
            s.effect is Nothing && s.screen == (Screen::<
                Seq<char>,
                Seq<Seq<char>>,
                Seq<RowText>,
            >::ConfirmClear { target: view, yes_selected: false })
        }),
{
}

/// A gate is moved by the arrows, set by `y` and `n`, passed by Enter with what
/// is highlighted, and refused by Esc.
pub proof fn law_gates(yes: bool, c: char, cmd: Option<char>)
    ensures
        gate(yes, Key::Left, cmd) == (!yes, None::<bool>),
        gate(yes, Key::Right, cmd) == (!yes, None::<bool>),
        gate(yes, Key::Up, cmd) == (!yes, None::<bool>),
        gate(yes, Key::Down, cmd) == (!yes, None::<bool>),
        gate(yes, Key::Enter, cmd).1 == Some(yes),
        gate(yes, Key::Esc, cmd).1 == Some(false),
        gate(yes, Key::Char(c), Some('y')) == (true, None::<bool>),
        gate(yes, Key::Char(c), Some('n')) == (false, None::<bool>),
        cmd != Some('y') && cmd != Some('n') ==> gate(yes, Key::Char(c), cmd) == (
            yes,
            None::<bool>,
        ),
{
}

/// What is typed into the address can be taken back, letter by letter.
pub proof fn law_backspace_undoes_a_letter(
    f: Flavor,
    buffer: Seq<char>,
    error: Option<Seq<char>>,
    scan_seq: u64,
    c: char,
    cmd: Option<char>,
)
    ensures
        ({
            let at = |b: Seq<char>|
                Screen::<Seq<char>, Seq<Seq<char>>, Seq<RowText>>::UrlInput {
                    buffer: b,
                    error,
                    busy: false,
                };
            &&& key_step(f, at(buffer.push(c)), scan_seq, Key::Backspace, false, cmd).screen == at(
                buffer,
            )
            &&& key_step(f, at(Seq::empty()), scan_seq, Key::Backspace, false, cmd).screen == at(
                Seq::empty(),
            )
        }),
{
    assert(buffer.push(c).drop_last() =~= buffer);
}

/// Enter asks to confirm the address as typed, without the white space around
/// it; a blank one is complained of, and kept.
pub proof fn law_enter_asks_to_confirm_the_address(
    f: Flavor,
    a: Seq<char>,
    url: Seq<char>,
    b: Seq<char>,
    error: Option<Seq<char>>,
    scan_seq: u64,
    cmd: Option<char>,
)
    requires
        forall|i: int| 0 <= i < a.len() ==> text::white(#[trigger] a[i]),
        forall|i: int| 0 <= i < b.len() ==> text::white(#[trigger] b[i]),
        url.len() > 0 && !text::white(url[0]) && !text::white(url.last()),
    ensures
        ({
            let at = |buffer: Seq<char>|
                Screen::<Seq<char>, Seq<Seq<char>>, Seq<RowText>>::UrlInput {
                    buffer,
                    error,
                    busy: false,
                };
            let s = key_step(f, at(a + url + b), scan_seq, Key::Enter, false, cmd);
            let none = key_step(f, at(a), scan_seq, Key::Enter, false, cmd).screen;
            &&& s.effect is Nothing
            &&& s.screen == (Screen::<Seq<char>, Seq<Seq<char>>, Seq<RowText>>::Confirm {
                url,
                service_label: label(url),
                yes_selected: true,
            })
            &&& none is UrlInput && none->buffer == a && none->error is Some
        }),
{
    text::law_trimming(a, url, b);
}

/// The question names a curated service, and any other repository by its
/// address.
pub proof fn law_question_names_the_service(url: Seq<char>)
    ensures
        label("https://github.com/"@ + "VERT-sh"@ + "/"@ + "VERT"@) == "VERT"@,
        label("https://github.com/"@ + "searxng"@ + "/"@ + "searxng"@) == "SearXNG"@,
        label("https://github.com/"@ + "usememos"@ + "/"@ + "memos"@) == "Memos"@,
        label(url) == url || label(url) == "VERT"@ || label(url) == "SearXNG"@ || label(url)
            == "Memos"@,
        label(url) != url ==> exists|owner: Seq<char>, name: Seq<char>|
            url == #[trigger] ("https://github.com/"@ + owner + "/"@ + name) && recipes::curated(
                owner,
                name,
            ) is Some,
{
    reveal_strlit("VERT-sh");
    reveal_strlit("VERT");
    reveal_strlit("searxng");
    reveal_strlit("usememos");
    reveal_strlit("memos");
    github::law_repository_address("VERT-sh"@, "VERT"@);
    github::law_repository_address("searxng"@, "searxng"@);
    github::law_repository_address("usememos"@, "memos"@);
    assert("searxng"@.len() != "VERT-sh"@.len() || "searxng"@[0] != "VERT-sh"@[0]);
    assert("usememos"@.len() != "VERT-sh"@.len());
    assert("usememos"@.len() != "searxng"@.len());
    github::law_only_repository_addresses_are_read(url);
}

/// Only the services of this panel are deployed, each from its own repository.
pub proof fn law_each_service_has_its_repository(owner: Seq<char>, name: Seq<char>)
    ensures
        recipes::curated(owner, name) == Some(recipes::Curated::Vert) <==> owner == "VERT-sh"@
            && name == "VERT"@,
        recipes::curated(owner, name) == Some(recipes::Curated::Searxng) <==> owner == "searxng"@
            && name == "searxng"@,
        recipes::curated(owner, name) == Some(recipes::Curated::Memos) <==> owner == "usememos"@
            && name == "memos"@,
{
    reveal_strlit("VERT-sh");
    reveal_strlit("searxng");
    reveal_strlit("usememos");
    assert("searxng"@[0] != "VERT-sh"@[0]);
    assert("usememos"@.len() != "VERT-sh"@.len());
    assert("usememos"@.len() != "searxng"@.len());
}

/// A key changes the screen, and the number of scans where it starts one; the histories,
/// the notices and the design stay. Lines are followed until the logs are left.
pub proof fn law_keys_keep_what_was_seen(a: AppText, key: Key, control: bool)
    ensures
        ({
            let b = keyed(a, key, control);
            let s = key_step(a.flavor, a.screen, a.scan_seq, key, control, keys::command(key));
            &&& b.flavor == a.flavor
            &&& b.tick == a.tick
            &&& b.deploy_history == a.deploy_history
            &&& b.software_history == a.software_history
            &&& b.exit_notices == a.exit_notices
            &&& b.screen == s.screen
            &&& b.scan_seq == s.scan_seq
            &&& s.effect is LeaveLogs ==> !b.deploy_tail && !b.software_tail
            &&& !(s.effect is LeaveLogs) ==> b.deploy_tail == a.deploy_tail && b.software_tail
                == a.software_tail
        }),
{
}

} // verus!
