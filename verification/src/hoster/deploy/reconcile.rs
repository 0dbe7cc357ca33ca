//! Cleaning up after interrupted deploys.

use vstd::prelude::*;

use crate::crashlog;
use crate::hoster::deploy::steps::{self, CleanResult};
use crate::hoster::journal::{self, EntryText, Journal, JournalEntry};
use crate::hoster::lock::{self, LockAttempt};
use crate::hoster::models::ServiceEntry;
use crate::text;
use crate::tui::workers;

verus! {

/// Where a reconciliation runs — it decides how an interrupted deploy is
/// tagged in the Crash screen's history.
///
/// * [`ReconcileBasis::Exit`] — a live in-flight deploy was aborted while this
///   panel was alive: the user quit or a termination signal arrived, and
///   [`quiesce`] has already stopped its writers.
/// * [`ReconcileBasis::Startup`] / [`ReconcileBasis::Sweep`] — leftovers of a
///   deploy whose process died out-of-band (kill, shutdown, reboot) were found
///   and removed later.
#[derive(Debug, Clone, Copy, PartialEq, Eq, Structural)]
pub enum ReconcileBasis {
    Exit,
    Startup,
    Sweep,
}

/// The contents of the panel's two log files.
#[derive(Debug)]
pub struct PanelLogs {
    pub crash: Vec<u8>,
    pub deploy: Vec<u8>,
}

/// What was found out about one journal entry.
#[derive(Debug)]
pub struct EntryReport {
    /// Does the registry hold the service?
    pub registered: bool,
    /// What the cleanup removed, where the entry is stale.
    pub clean: CleanResult,
    /// When the entry was settled.
    pub stamp: String,
}

// ---------------------------------------------------------------------------
// One entry
// ---------------------------------------------------------------------------

pub open spec fn notice_text(service: Seq<char>, url: Seq<char>) -> Seq<char> {
    "cleanup: interrupted deploy of "@ + service + " ("@ + url
        + ") — removing leftover unit, env file and project tree"@
}

pub open spec fn winding_down_text(service: Seq<char>) -> Seq<char> {
    "cleanup: "@ + service + ": deploy still winding down here — finalizing on next launch"@
}

pub open spec fn entry_removed_text(service: Seq<char>) -> Seq<char> {
    "cleanup: "@ + service + ": removed"@
}

pub open spec fn entry_settled_text(service: Seq<char>) -> Seq<char> {
    "cleanup: "@ + service + ": no leftovers to remove; journal entry settled"@
}

/// What the panel says of a stale entry.
pub open spec fn entry_lines(
    service: Seq<char>,
    url: Seq<char>,
    any: bool,
    defer: bool,
) -> Seq<Seq<char>> {
    if defer {
        seq![notice_text(service, url), winding_down_text(service)]
    } else if any {
        seq![notice_text(service, url), entry_removed_text(service)]
    } else {
        seq![entry_settled_text(service)]
    }
}

/// The crash history after a stale entry was settled.
pub open spec fn history_after(
    crash: Seq<u8>,
    service: Seq<char>,
    url: Seq<char>,
    any: bool,
    stamp: Seq<char>,
    basis: ReconcileBasis,
) -> Seq<u8> {
    match basis {
        ReconcileBasis::Exit => crashlog::recorded(
            crash,
            stamp,
            "interrupted"@,
            crashlog::interrupted_text(service, url),
        ),
        _ => crashlog::recorded(
            crash,
            stamp,
            "recovered"@,
            crashlog::recovered_text(service, url, any),
        ),
    }
}

/// Everything that a pass works on.
#[verifier::ext_equal]
pub struct Pass {
    pub journal: Map<Seq<char>, EntryText>,
    pub crash: Seq<u8>,
    pub msgs: Seq<Seq<char>>,
}

/// A pass after one more entry. An entry that is not stale is forgotten
/// without a word; one that is deferred is kept; any other is settled and
/// recorded.
pub open spec fn settled(
    p: Pass,
    service: Seq<char>,
    entry: EntryText,
    report: EntryReport,
    defer: bool,
    basis: ReconcileBasis,
) -> Pass {
    if !steps::stale(entry.state, report.registered) {
        Pass { journal: p.journal.remove(service), ..p }
    } else {
        let msgs = p.msgs + entry_lines(service, entry.url, report.clean.any(), defer);
        if defer {
            Pass { msgs, ..p }
        } else {
            Pass {
                journal: p.journal.remove(service),
                crash: history_after(
                    p.crash,
                    service,
                    entry.url,
                    report.clean.any(),
                    report.stamp@,
                    basis,
                ),
                msgs,
            }
        }
    }
}

fn notice(service: &str, url: &str) -> (r: String)
    ensures
        r@ == notice_text(service@, url@),
{
    let mut m = "cleanup: interrupted deploy of ".to_owned();
    m.append(service);
    m.append(" (");
    m.append(url);
    m.append(") — removing leftover unit, env file and project tree");
    m
}

fn about(service: &str, what: &str) -> (r: String)
    ensures
        r@ == "cleanup: "@ + service@ + what@,
{
    let mut m = "cleanup: ".to_owned();
    m.append(service);
    m.append(what);
    m
}

/// Settles one journal entry: the journal and the crash history change, and
/// the notices are added to `msgs`.
pub fn settle_entry(
    journal: &mut Journal,
    crash: &mut Vec<u8>,
    msgs: &mut Vec<String>,
    service: &str,
    entry: &JournalEntry,
    report: &EntryReport,
    defer: bool,
    basis: ReconcileBasis,
)
    requires
        old(journal).wf(),
    ensures
        final(journal).wf(),
        ({
            let p = Pass {
                journal: old(journal)@,
                crash: old(crash)@,
                msgs: text::texts(old(msgs)@),
            };
            let q = settled(p, service@, entry@, *report, defer, basis);
            &&& final(journal)@ == q.journal
            &&& final(crash)@ == q.crash
            &&& text::texts(final(msgs)@) == q.msgs
        }),
{
    let ghost said = text::texts(msgs@);
    if !steps::stale_action(entry.state, report.registered) {
        journal::clear(journal, service);
        return;
    }
    let any = report.clean.did_anything();
    if any || defer {
        let n = notice(service, entry.url.as_str());
        text::push_text(msgs, n.as_str());
    }
    if defer {
        let w = about(service, ": deploy still winding down here — finalizing on next launch");
        text::push_text(msgs, w.as_str());
        assert(text::texts(msgs@) =~= said + entry_lines(service@, entry.url@, any, defer));
        return;
    }
    if any {
        let w = about(service, ": removed");
        text::push_text(msgs, w.as_str());
    } else {
        let w = about(service, ": no leftovers to remove; journal entry settled");
        text::push_text(msgs, w.as_str());
    }
    assert(text::texts(msgs@) =~= said + entry_lines(service@, entry.url@, any, defer));
    journal::clear(journal, service);
    match basis {
        ReconcileBasis::Exit => crashlog::interrupted(
            crash,
            report.stamp.as_str(),
            service,
            entry.url.as_str(),
        ),
        ReconcileBasis::Startup => crashlog::recovered(
            crash,
            report.stamp.as_str(),
            service,
            entry.url.as_str(),
            any,
        ),
        ReconcileBasis::Sweep => crashlog::recovered(
            crash,
            report.stamp.as_str(),
            service,
            entry.url.as_str(),
            any,
        ),
    }
}

// ---------------------------------------------------------------------------
// All entries
// ---------------------------------------------------------------------------

/// A pass after the first `n` entries.
pub open spec fn passed(
    start: Pass,
    list: Seq<(Seq<char>, EntryText)>,
    reports: Seq<EntryReport>,
    n: int,
    defer: bool,
    basis: ReconcileBasis,
) -> Pass
    decreases n,
{
    if n <= 0 {
        start
    } else {
        settled(
            passed(start, list, reports, n - 1, defer, basis),
            list[n - 1].0,
            list[n - 1].1,
            reports[n - 1],
            defer,
            basis,
        )
    }
}

/// A whole pass over a journal.
pub open spec fn reconciled(
    j: Journal,
    crash: Seq<u8>,
    reports: Seq<EntryReport>,
    defer: bool,
    basis: ReconcileBasis,
) -> Pass {
    passed(
        Pass { journal: j@, crash, msgs: Seq::empty() },
        j.listing(),
        reports,
        j.listing().len() as int,
        defer,
        basis,
    )
}

/// Sweep leftover deploy-journal entries after their artifacts were cleaned
/// with a full "clean removal" (unit + env file + project tree + registry
/// slot).
///
/// `reports` tells of each entry, in order, whether the service is registered
/// and, where the entry is stale, what its cleanup removed. Finished
/// (`Registered`) and live (`Registering` with a registry slot) services are
/// never touched. `keep_if_inflight` retains the entry of a deploy that is
/// still running for the next launch to re-verify. Gives the notice lines, and
/// adds them to the deploy log; every entry that is settled is appended to the
/// crash history, tagged by the basis.
pub fn reconcile_stale_with_basis(
    journal: &mut Journal,
    logs: &mut PanelLogs,
    reports: &Vec<EntryReport>,
    in_flight: bool,
    keep_if_inflight: bool,
    basis: ReconcileBasis,
) -> (r: Vec<String>)
    requires
        old(journal).wf(),
        reports@.len() == old(journal).listing().len(),
    ensures
        final(journal).wf(),
        ({
            let pass = reconciled(
                *old(journal),
                old(logs).crash@,
                reports@,
                keep_if_inflight && in_flight,
                basis,
            );
            &&& final(journal)@ == pass.journal
            &&& final(logs).crash@ == pass.crash
            &&& text::texts(r@) == pass.msgs
            &&& final(logs).deploy@ == workers::deploy_logged_all(old(logs).deploy@, pass.msgs)
        }),
{
    let defer = keep_if_inflight && in_flight;
    let list = journal::entries(journal);
    let ghost all = journal.listing();
    let ghost start = Pass { journal: journal@, crash: logs.crash@, msgs: Seq::empty() };
    let mut msgs = text::no_texts();
    let mut i: usize = 0;
    assert(journal::pairs(list@).len() == list@.len());
    while i < list.len()
        invariant
            i <= list@.len(),
            all == journal::pairs(list@),
            all.len() == list@.len(),
            reports@.len() == all.len(),
            journal.wf(),
            ({
                let p = passed(start, all, reports@, i as int, defer, basis);
                &&& journal@ == p.journal
                &&& logs.crash@ == p.crash
                &&& text::texts(msgs@) == p.msgs
            }),
            logs.deploy@ == old(logs).deploy@,
        decreases list@.len() - i,
    {
        assert(all[i as int] == (list@[i as int].0@, list@[i as int].1@));
        settle_entry(
            journal,
            &mut logs.crash,
            &mut msgs,
            list[i].0.as_str(),
            &list[i].1,
            &reports[i],
            defer,
            basis,
        );
        i = i + 1;
    }
    workers::append_deploy_lines(&mut logs.deploy, &msgs);
    msgs
}

/// `reconcile_stale_with_basis` with the default history tag (a `Startup`
/// pass).
pub fn reconcile_stale(
    journal: &mut Journal,
    logs: &mut PanelLogs,
    reports: &Vec<EntryReport>,
    in_flight: bool,
    keep_if_inflight: bool,
) -> (r: Vec<String>)
    requires
        old(journal).wf(),
        reports@.len() == old(journal).listing().len(),
    ensures
        final(journal).wf(),
        ({
            let pass = reconciled(
                *old(journal),
                old(logs).crash@,
                reports@,
                keep_if_inflight && in_flight,
                ReconcileBasis::Startup,
            );
            &&& final(journal)@ == pass.journal
            &&& final(logs).crash@ == pass.crash
            &&& text::texts(r@) == pass.msgs
            &&& final(logs).deploy@ == workers::deploy_logged_all(old(logs).deploy@, pass.msgs)
        }),
{
    reconcile_stale_with_basis(
        journal,
        logs,
        reports,
        in_flight,
        keep_if_inflight,
        ReconcileBasis::Startup,
    )
}

/// Must the exit path go on stopping the deploy's writers? It kills the
/// deploy's host-side descendants and stops its transient build units until
/// the worker has unwound or `timeout` milliseconds have passed.
pub fn quiesce(in_flight: bool, elapsed: u64, timeout: u64) -> (r: bool)
    ensures
        r == (in_flight && elapsed < timeout),
{
    in_flight && elapsed < timeout
}

// ---------------------------------------------------------------------------
// The background sweep
// ---------------------------------------------------------------------------

/// Outcome of a [`sweep_stale`] pass, reported by the cleanup command.
#[derive(Debug)]
pub enum SweepOutcome {
    /// The deploy lock is held by another process (a deploy is running, or
    /// another sweeper is mid-pass): this pass deferred and touched nothing.
    Deferred,
    /// The pass ran under the lock; these are the human-readable notices of
    /// what was removed (empty = nothing was there).
    Cleaned(Vec<String>),
}

/// What a sweep is doing.
#[derive(Debug, Clone, Copy, PartialEq, Eq, Structural)]
pub enum SweepPhase {
    /// Trying to take the deploy lock.
    Locking,
    /// Stopping the ghost units.
    Stopping,
    /// Removing what interrupted deploys left behind. This many ghost units
    /// were stopped.
    Removing(usize),
    /// Nothing left to do.
    Finished,
}

/// What a phase of a sweep reports.
#[derive(Debug)]
pub enum SweepEvent {
    Lock(LockAttempt),
    /// How many ghost units were stopped.
    Stopped(usize),
    /// What was found out about each journal entry, and when the pass ended.
    Removed(Vec<EntryReport>, String),
}

pub open spec fn killed_text(n: nat) -> Seq<char> {
    "cleanup: stopped "@ + text::decimal(n) + " orphaned ghost build/probe unit(s)"@
}

/// The phase after a report. A report that does not answer the phase changes
/// nothing.
pub open spec fn sweep_next(phase: SweepPhase, ev: SweepEvent) -> SweepPhase {
    match (phase, ev) {
        (SweepPhase::Locking, SweepEvent::Lock(attempt)) => if lock::takes(attempt) {
            SweepPhase::Stopping
        } else {
            SweepPhase::Finished
        },
        (SweepPhase::Stopping, SweepEvent::Stopped(n)) => SweepPhase::Removing(n),
        (SweepPhase::Removing(_), SweepEvent::Removed(_, _)) => SweepPhase::Finished,
        _ => phase,
    }
}

/// The removal that a report completes: how many ghost units were stopped
/// before it, what it found and when it ended.
pub open spec fn sweep_removal(phase: SweepPhase, ev: SweepEvent) -> Option<
    (usize, Seq<EntryReport>, Seq<char>),
> {
    match (phase, ev) {
        (SweepPhase::Removing(n), SweepEvent::Removed(reports, stamp)) => Some(
            (n, reports@, stamp@),
        ),
        _ => None,
    }
}

/// Does a report find the lock held by another process?
pub open spec fn sweep_defers(phase: SweepPhase, ev: SweepEvent) -> bool {
    match (phase, ev) {
        (SweepPhase::Locking, SweepEvent::Lock(attempt)) => !lock::takes(attempt),
        _ => false,
    }
}

/// Background sweep for the cleanup timer: weighs the report of the current
/// phase, moves on to the next and gives the outcome at the end.
///
/// Only a pass that holds the deploy lock may act: then no deploy is live in
/// this user session, and every ghost unit found is an orphan. Ghost units are
/// stopped before anything is removed, so a still-running build process cannot
/// keep a directory busy. A `Deferred` pass touches nothing.
pub fn sweep_stale(
    phase: &mut SweepPhase,
    journal: &mut Journal,
    logs: &mut PanelLogs,
    event: &SweepEvent,
) -> (r: Option<SweepOutcome>)
    requires
        old(journal).wf(),
        sweep_removal(*old(phase), *event) matches Some((_, reports, _)) ==> reports.len() == old(
            journal,
        ).listing().len(),
    ensures
        final(journal).wf(),
        *final(phase) == sweep_next(*old(phase), *event),
        match sweep_removal(*old(phase), *event) {
            None => {
                &&& *final(journal) == *old(journal)
                &&& *final(logs) == *old(logs)
                &&& if sweep_defers(*old(phase), *event) {
                    r == Some(SweepOutcome::Deferred)
                } else {
                    r is None
                }
            },
            Some((killed, reports, stamp)) => {
                let pass = reconciled(
                    *old(journal),
                    old(logs).crash@,
                    reports,
                    false,
                    ReconcileBasis::Sweep,
                );
                let logged = workers::deploy_logged_all(old(logs).deploy@, pass.msgs);
                let line = killed_text(killed as nat);
                &&& final(journal)@ == pass.journal
                &&& r matches Some(SweepOutcome::Cleaned(msgs)) && text::texts(msgs@) == (
                if killed > 0 {
                    seq![line] + pass.msgs
                } else {
                    pass.msgs
                })
                &&& final(logs).deploy@ == (if killed > 0 {
                    workers::deploy_logged(logged, line)
                } else {
                    logged
                })
                &&& final(logs).crash@ == (if killed > 0 {
                    crashlog::recorded(
                        pass.crash,
                        stamp,
                        "ghost"@,
                        crashlog::ghost_text(killed as nat),
                    )
                } else {
                    pass.crash
                })
            },
        },
{
    match (*phase, event) {
        (SweepPhase::Locking, SweepEvent::Lock(attempt)) => {
            if lock::is_locked(*attempt) {
                *phase = SweepPhase::Finished;
                Some(SweepOutcome::Deferred)
            } else {
                *phase = SweepPhase::Stopping;
                None
            }
        },
        (SweepPhase::Stopping, SweepEvent::Stopped(n)) => {
            *phase = SweepPhase::Removing(*n);
            None
        },
        (SweepPhase::Removing(killed), SweepEvent::Removed(reports, stamp)) => {
            *phase = SweepPhase::Finished;
            Some(SweepOutcome::Cleaned(swept(journal, logs, killed, reports, stamp.as_str())))
        },
        _ => None,
    }
}

fn swept(
    journal: &mut Journal,
    logs: &mut PanelLogs,
    killed: usize,
    reports: &Vec<EntryReport>,
    stamp: &str,
) -> (r: Vec<String>)
    requires
        old(journal).wf(),
        reports@.len() == old(journal).listing().len(),
    ensures
        final(journal).wf(),
        ({
            let pass = reconciled(
                *old(journal),
                old(logs).crash@,
                reports@,
                false,
                ReconcileBasis::Sweep,
            );
            let logged = workers::deploy_logged_all(old(logs).deploy@, pass.msgs);
            let line = killed_text(killed as nat);
            &&& final(journal)@ == pass.journal
            &&& text::texts(r@) == (if killed > 0 {
                seq![line] + pass.msgs
            } else {
                pass.msgs
            })
            &&& final(logs).deploy@ == (if killed > 0 {
                workers::deploy_logged(logged, line)
            } else {
                logged
            })
            &&& final(logs).crash@ == (if killed > 0 {
                crashlog::recorded(
                    pass.crash,
                    stamp@,
                    "ghost"@,
                    crashlog::ghost_text(killed as nat),
                )
            } else {
                pass.crash
            })
        }),
{
    let msgs = reconcile_stale_with_basis(
        journal,
        logs,
        reports,
        false,
        false,
        ReconcileBasis::Sweep,
    );
    if killed > 0 {
        let n = text::decimal_of(killed as u64);
        let mut line = "cleanup: stopped ".to_owned();
        line.append(n.as_str());
        line.append(" orphaned ghost build/probe unit(s)");
        workers::append_deploy_log(&mut logs.deploy, line.as_str());
        crashlog::ghost_stopped(&mut logs.crash, stamp, killed);
        let ghost said = text::texts(msgs@);
        let ghost head = line@;
        let mut all = msgs;
        all.insert(0, line);
        assert(text::texts(all@) =~= seq![head] + said);
        all
    } else {
        msgs
    }
}

/// The phase of a sweep after some reports.
pub open spec fn sweep_history(events: Seq<SweepEvent>) -> SweepPhase
    decreases events.len(),
{
    if events.len() == 0 {
        SweepPhase::Locking
    } else {
        sweep_next(sweep_history(events.drop_last()), events.last())
    }
}

/// Was the deploy lock taken?
pub open spec fn sweep_locked(events: Seq<SweepEvent>) -> bool
    decreases events.len(),
{
    events.len() > 0 && (sweep_locked(events.drop_last()) || (sweep_history(
        events.drop_last(),
    ) is Locking && (events.last() matches SweepEvent::Lock(attempt) && lock::takes(attempt))))
}

/// Were the ghost units stopped, under the lock?
pub open spec fn ghosts_stopped(events: Seq<SweepEvent>) -> bool
    decreases events.len(),
{
    events.len() > 0 && (ghosts_stopped(events.drop_last()) || (sweep_locked(events.drop_last())
        && sweep_history(events.drop_last()) is Stopping && events.last() is Stopped))
}

/// A sweep stops and removes only under the deploy lock, and removes nothing
/// before the ghost units are stopped.
pub proof fn law_ghosts_stop_before_trees_go(events: Seq<SweepEvent>)
    ensures
        sweep_history(events) is Stopping ==> sweep_locked(events),
        sweep_history(events) is Removing ==> sweep_locked(events) && ghosts_stopped(events),
    decreases events.len(),
{
    if events.len() > 0 {
        law_ghosts_stop_before_trees_go(events.drop_last());
    }
}

/// What the cleanup command prints, line by line.
pub open spec fn cleanup_lines(o: SweepOutcome) -> Seq<Seq<char>> {
    match o {
        SweepOutcome::Deferred => seq!["cleanup: deferred — a deployment is in progress"@],
        SweepOutcome::Cleaned(msgs) => if msgs@.len() == 0 {
            seq!["cleanup: nothing to remove"@]
        } else {
            text::texts(msgs@)
        },
    }
}

/// Reports the outcome of a sweep.
pub fn cleanup_cmd(outcome: &SweepOutcome) -> (r: Vec<String>)
    ensures
        text::texts(r@) == cleanup_lines(*outcome),
{
    match outcome {
        SweepOutcome::Deferred => {
            let mut out = text::no_texts();
            text::push_text(&mut out, "cleanup: deferred — a deployment is in progress");
            out
        },
        SweepOutcome::Cleaned(msgs) => if msgs.len() == 0 {
            let mut out = text::no_texts();
            text::push_text(&mut out, "cleanup: nothing to remove");
            out
        } else {
            text::copy_list(msgs)
        },
    }
}

// ---------------------------------------------------------------------------
// Deleting a service
// ---------------------------------------------------------------------------

/// The URL that the history names for a removed service.
pub open spec fn removed_url(e: ServiceEntry) -> Seq<char> {
    if e.urls@.len() > 0 {
        e.urls@[0]@
    } else {
        "?"@
    }
}

/// Settles the deletion of a service, once its unit, env file and clone are
/// gone and its ports are free (see [`steps::removal_plan`]): a registered one
/// is recorded in the crash history, and any leftover journal entry is
/// cleared, so a later reconciliation does not try to clean it again.
pub fn remove_unit_and_state(
    journal: &mut Journal,
    crash: &mut Vec<u8>,
    service: &str,
    entry: &Option<ServiceEntry>,
    stamp: &str,
)
    requires
        old(journal).wf(),
    ensures
        final(journal).wf(),
        final(journal)@ == old(journal)@.remove(service@),
        final(crash)@ == match *entry {
            Some(e) => crashlog::recorded(
                old(crash)@,
                stamp@,
                "removed"@,
                crashlog::removed_text(service@, removed_url(e)),
            ),
            None => old(crash)@,
        },
{
    match entry {
        Some(e) => {
            if e.urls.len() > 0 {
                crashlog::removed(crash, stamp, service, e.urls[0].as_str());
            } else {
                crashlog::removed(crash, stamp, service, "?");
            }
        },
        None => {},
    }
    journal::clear(journal, service);
}

// ---------------------------------------------------------------------------
// What holds of every pass
// ---------------------------------------------------------------------------

/// A live or finished service is never torn down: its entry is forgotten
/// without a notice and without a record.
pub proof fn law_live_services_are_preserved(
    p: Pass,
    service: Seq<char>,
    entry: EntryText,
    report: EntryReport,
    defer: bool,
    basis: ReconcileBasis,
)
    requires
        entry.state == journal::DeployState::Registered || (entry.state
            == journal::DeployState::Registering && report.registered),
    ensures
        settled(p, service, entry, report, defer, basis) == (Pass {
            journal: p.journal.remove(service),
            ..p
        }),
{
}

proof fn lemma_passed_journal(
    start: Pass,
    list: Seq<(Seq<char>, EntryText)>,
    reports: Seq<EntryReport>,
    n: int,
    defer: bool,
    basis: ReconcileBasis,
    name: Seq<char>,
)
    requires
        0 <= n <= list.len(),
        text::ascending(journal::names(list)),
    ensures
        ({
            let p = passed(start, list, reports, n, defer, basis);
            p.journal.contains_key(name) <==> start.journal.contains_key(name) && forall|i: int|
                0 <= i < n && #[trigger] list[i].0 == name ==> defer && steps::stale(
                    list[i].1.state,
                    reports[i].registered,
                )
        }),
    decreases n,
{
    if n > 0 {
        lemma_passed_journal(start, list, reports, n - 1, defer, basis, name);
        assert(journal::names(list)[n - 1] == list[n - 1].0);
    }
}

/// A pass that defers nothing settles every entry: the journal is empty
/// afterwards.
pub proof fn law_pass_settles_every_entry(
    j: Journal,
    crash: Seq<u8>,
    reports: Seq<EntryReport>,
    basis: ReconcileBasis,
)
    requires
        j.wf(),
        reports.len() == j.listing().len(),
    ensures
        reconciled(j, crash, reports, false, basis).journal == Map::<Seq<char>, EntryText>::empty(),
{
    journal::lemma_listing(j);
    let list = j.listing();
    let after = reconciled(j, crash, reports, false, basis).journal;
    let start = Pass { journal: j@, crash, msgs: Seq::empty() };
    assert forall|name: Seq<char>| !after.contains_key(name) by {
        lemma_passed_journal(start, list, reports, list.len() as int, false, basis, name);
        if j@.contains_key(name) {
            assert(journal::names(list).contains(name));
            let i = choose|i: int|
                0 <= i < journal::names(list).len() && journal::names(list)[i] == name;
            assert(list[i].0 == name);
        }
    }
    assert(after =~= Map::<Seq<char>, EntryText>::empty());
}

/// A pass that defers keeps exactly the stale entries, for the next launch.
pub proof fn law_deferred_pass_keeps_stale_entries(
    j: Journal,
    crash: Seq<u8>,
    reports: Seq<EntryReport>,
    basis: ReconcileBasis,
    i: int,
)
    requires
        j.wf(),
        reports.len() == j.listing().len(),
        0 <= i < j.listing().len(),
    ensures
        reconciled(j, crash, reports, true, basis).journal.contains_key(j.listing()[i].0)
            <==> steps::stale(j.listing()[i].1.state, reports[i].registered),
{
    journal::lemma_listing(j);
    let list = j.listing();
    let name = list[i].0;
    let start = Pass { journal: j@, crash, msgs: Seq::empty() };
    lemma_passed_journal(start, list, reports, list.len() as int, true, basis, name);
    assert(journal::names(list)[i] == name);
    assert(j@.contains_key(name));
    assert forall|k: int| 0 <= k < list.len() && #[trigger] list[k].0 == name implies k == i by {
        assert(journal::names(list)[k] == name);
        text::lemma_before_irreflexive(name);
    }
}

proof fn lemma_deferred_crash(
    start: Pass,
    list: Seq<(Seq<char>, EntryText)>,
    reports: Seq<EntryReport>,
    n: int,
    basis: ReconcileBasis,
)
    requires
        0 <= n <= list.len(),
    ensures
        passed(start, list, reports, n, true, basis).crash == start.crash,
    decreases n,
{
    if n > 0 {
        lemma_deferred_crash(start, list, reports, n - 1, basis);
    }
}

/// A pass that defers records nothing: nothing is final yet.
pub proof fn law_deferred_pass_records_nothing(
    j: Journal,
    crash: Seq<u8>,
    reports: Seq<EntryReport>,
    basis: ReconcileBasis,
)
    ensures
        reconciled(j, crash, reports, true, basis).crash == crash,
{
    let start = Pass { journal: j@, crash, msgs: Seq::empty() };
    lemma_deferred_crash(start, j.listing(), reports, j.listing().len() as int, basis);
}

proof fn lemma_nothing_to_reconcile(
    j: Journal,
    crash: Seq<u8>,
    reports: Seq<EntryReport>,
    defer: bool,
    basis: ReconcileBasis,
)
    requires
        j.wf(),
        j@ == Map::<Seq<char>, EntryText>::empty(),
    ensures
        reconciled(j, crash, reports, defer, basis) == (Pass {
            journal: j@,
            crash,
            msgs: Seq::empty(),
        }),
{
    journal::lemma_listing(j);
    let list = j.listing();
    if list.len() > 0 {
        assert(journal::names(list)[0] == list[0].0);
        assert(journal::names(list).contains(list[0].0));
        assert(j@.contains_key(list[0].0));
    }
}

/// Reconciling twice is reconciling once: after a pass that defers nothing,
/// the next one, over the journal that it left, changes and says nothing.
pub proof fn law_reconcile_is_idempotent(
    j: Journal,
    crash: Seq<u8>,
    reports: Seq<EntryReport>,
    basis: ReconcileBasis,
    left: Journal,
    later: Seq<EntryReport>,
    defer: bool,
    again: ReconcileBasis,
)
    requires
        j.wf(),
        reports.len() == j.listing().len(),
        left.wf(),
        left@ == reconciled(j, crash, reports, false, basis).journal,
    ensures
        ({
            let first = reconciled(j, crash, reports, false, basis);
            reconciled(left, first.crash, later, defer, again) == (Pass {
                msgs: Seq::empty(),
                ..first
            })
        }),
{
    law_pass_settles_every_entry(j, crash, reports, basis);
    let first = reconciled(j, crash, reports, false, basis);
    lemma_nothing_to_reconcile(left, first.crash, later, defer, again);
}

/// A stale entry is settled: it leaves the journal, and no other one does; what
/// was done is said by the service's name, and recorded once.
pub proof fn law_stale_entry_is_settled(
    p: Pass,
    service: Seq<char>,
    other: Seq<char>,
    entry: EntryText,
    report: EntryReport,
    basis: ReconcileBasis,
)
    requires
        entry.state == journal::DeployState::Deploying || (entry.state
            == journal::DeployState::Registering && !report.registered),
    ensures
        ({
            let s = settled(p, service, entry, report, false, basis);
            let any = report.clean.unit_removed || report.clean.env_removed
                || report.clean.tree_removed;
            &&& !s.journal.contains_key(service)
            &&& other != service ==> s.journal.contains_key(other) == p.journal.contains_key(other)
                && (p.journal.contains_key(other) ==> s.journal[other] == p.journal[other])
            &&& p.msgs.is_prefix_of(s.msgs)
            &&& s.msgs.last() == "cleanup: "@ + service + (if any {
                ": removed"@
            } else {
                ": no leftovers to remove; journal entry settled"@
            })
            &&& any ==> s.msgs.len() == p.msgs.len() + 2 && s.msgs[p.msgs.len() as int]
                == "cleanup: interrupted deploy of "@ + service + " ("@ + entry.url
                + ") — removing leftover unit, env file and project tree"@
            &&& !any ==> s.msgs.len() == p.msgs.len() + 1
            &&& basis == ReconcileBasis::Exit ==> s.crash == crashlog::recorded(
                p.crash,
                report.stamp@,
                "interrupted"@,
                crashlog::interrupted_text(service, entry.url),
            )
            &&& basis != ReconcileBasis::Exit ==> s.crash == crashlog::recorded(
                p.crash,
                report.stamp@,
                "recovered"@,
                crashlog::recovered_text(service, entry.url, any),
            )
        }),
{
    let s = settled(p, service, entry, report, false, basis);
    assert(p.msgs =~= s.msgs.subrange(0, p.msgs.len() as int));
}

/// An entry that is put off stays in the journal, unrecorded, and that is said.
pub proof fn law_deferred_entry_is_announced(
    p: Pass,
    service: Seq<char>,
    entry: EntryText,
    report: EntryReport,
    basis: ReconcileBasis,
)
    requires
        entry.state == journal::DeployState::Deploying || (entry.state
            == journal::DeployState::Registering && !report.registered),
    ensures
        ({
            let s = settled(p, service, entry, report, true, basis);
            &&& s.journal == p.journal
            &&& s.crash == p.crash
            &&& s.msgs.len() == p.msgs.len() + 2
            &&& s.msgs.last() == "cleanup: "@ + service
                + ": deploy still winding down here — finalizing on next launch"@
        }),
{
}

/// A pass looks at the entries one after the other, each with the report on it.
pub proof fn law_pass_goes_entry_by_entry(
    start: Pass,
    list: Seq<(Seq<char>, EntryText)>,
    reports: Seq<EntryReport>,
    n: int,
    defer: bool,
    basis: ReconcileBasis,
)
    requires
        0 <= n < list.len(),
    ensures
        passed(start, list, reports, 0, defer, basis) == start,
        passed(start, list, reports, n + 1, defer, basis) == settled(
            passed(start, list, reports, n, defer, basis),
            list[n].0,
            list[n].1,
            reports[n],
            defer,
            basis,
        ),
{
}

/// A sweep goes through its steps in order, and stops at once where the lock is
/// held.
pub proof fn law_sweep_steps(
    attempt: LockAttempt,
    n: usize,
    reports: Vec<EntryReport>,
    stamp: String,
)
    ensures
        sweep_next(SweepPhase::Locking, SweepEvent::Lock(attempt)) == (if attempt
            == LockAttempt::Tried(0) {
            SweepPhase::Stopping
        } else {
            SweepPhase::Finished
        }),
        sweep_defers(SweepPhase::Locking, SweepEvent::Lock(attempt)) <==> attempt
            != LockAttempt::Tried(0),
        sweep_next(SweepPhase::Stopping, SweepEvent::Stopped(n)) == SweepPhase::Removing(n),
        sweep_next(SweepPhase::Removing(n), SweepEvent::Removed(reports, stamp))
            == SweepPhase::Finished,
        sweep_removal(SweepPhase::Removing(n), SweepEvent::Removed(reports, stamp)) == Some(
            (n, reports@, stamp@),
        ),
        sweep_removal(SweepPhase::Locking, SweepEvent::Removed(reports, stamp)) is None,
        sweep_removal(SweepPhase::Stopping, SweepEvent::Removed(reports, stamp)) is None,
{
}

/// The cleanup command prints what was removed, line by line, and else one line
/// that says why there is nothing.
pub proof fn law_cleanup_prints_every_notice(msgs: Vec<String>)
    ensures
        msgs@.len() > 0 ==> cleanup_lines(SweepOutcome::Cleaned(msgs)) == text::texts(msgs@),
        msgs@.len() == 0 ==> cleanup_lines(SweepOutcome::Cleaned(msgs)).len() == 1,
        cleanup_lines(SweepOutcome::Deferred).len() == 1,
{
}

/// A removed service is recorded with the first of its addresses.
pub proof fn law_removed_service_is_recorded_by_its_address(e: ServiceEntry)
    ensures
        e.urls@.len() > 0 ==> removed_url(e) == e.urls@[0]@,
        e.urls@.len() == 0 ==> removed_url(e) == "?"@,
{
}

/// The notice on stopped units says how many they were.
pub proof fn law_stopped_units_are_counted(n: nat)
    ensures
        text::holds(killed_text(n), text::decimal(n)),
        ("cleanup: stopped "@ + text::decimal(n) + " "@).is_prefix_of(killed_text(n)),
{
    let rest = " orphaned ghost build/probe unit(s)"@;
    text::law_parts(killed_text(n), "cleanup: stopped "@, rest, text::decimal(n));
    let head = "cleanup: stopped "@ + text::decimal(n) + " "@;
    reveal_strlit(" ");
    reveal_strlit(" orphaned ghost build/probe unit(s)");
    assert(head =~= killed_text(n).subrange(0, head.len() as int));
}

} // verus!
