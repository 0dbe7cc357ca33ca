//! The full pipeline: sandbox, address, recipe, preflight, lock, journal,
//! deploy.
//!
//! As with a single deploy, the program around this library does one thing per
//! phase and reports how it went; [`run_deployment`] weighs the report.

use vstd::prelude::*;

use crate::hoster::deploy::steps;
use crate::hoster::github;
use crate::hoster::lock::{self, LockAttempt};
use crate::hoster::models::HostResult;
use crate::hoster::recipes::{self, Curated};
use crate::text;

verus! {

/// Outcome of a full pipeline run (parse → recipe → preflight → deploy).
#[derive(Debug, Clone, Copy, PartialEq, Eq)]
pub enum DeployOutcome {
    Deployed,
    Rejected(&'static str),
    Failed,
}

/// How isolated a build would run.
#[derive(Debug, Clone, Copy, PartialEq, Eq, Structural)]
pub enum SandboxGrade {
    Full,
    Almost,
    No,
}

/// What a pipeline run is doing.
#[derive(Debug, Clone, Copy)]
pub enum RunPhase {
    /// Grading the sandbox.
    Grading,
    /// Checking the recipe's build tools.
    Preflight(Curated),
    /// Trying to take the deploy lock.
    Locking(Curated),
    /// Writing the journal entry.
    Journaling(Curated),
    /// Running the deploy.
    Deploying(Curated),
    /// Clearing the journal entry, then releasing the lock.
    Clearing(Curated, DeployOutcome),
    /// Nothing left to do.
    Finished(DeployOutcome),
}

/// What a phase reports.
#[derive(Debug)]
pub enum RunEvent {
    /// The sandbox, and whether the network log is disabled.
    Graded(SandboxGrade, bool),
    /// What is missing for the build.
    Issues(Vec<String>),
    Lock(LockAttempt),
    /// The entry is written; is a graceful exit in progress?
    Journaled(bool),
    /// The deploy has ended; is a graceful exit in progress?
    Deployed(HostResult, bool),
    Cleared,
}

/// A pipeline run.
#[derive(Debug)]
pub struct DeployRun {
    pub phase: RunPhase,
    /// This run is past its checks, and not over.
    pub in_flight: bool,
}

impl DeployRun {
    pub fn new() -> (r: Self)
        ensures
            r.phase is Grading,
            !r.in_flight,
    {
        DeployRun { phase: RunPhase::Grading, in_flight: false }
    }
}

/// The pipeline runs of this process: how many of them are in flight.
#[derive(Debug)]
pub struct Pipelines {
    pub running: usize,
}

impl Pipelines {
    /// Nothing runs yet.
    pub fn new() -> (r: Self)
        ensures
            r.running == 0,
    {
        Pipelines { running: 0 }
    }
}

/// How many runs are in flight once one of them has changed: `was` tells whether
/// it was in flight before, `now` whether it is.
pub open spec fn counted(running: int, was: bool, now: bool) -> int {
    if now && !was {
        running + 1
    } else if was && !now {
        running - 1
    } else {
        running
    }
}

/// True while a deploy pipeline is running in this process. The exit path
/// consults it to decide whether it must stop the deploy's writers before
/// reconciling.
pub fn deploy_in_flight(pipelines: &Pipelines) -> (r: bool)
    ensures
        r == (pipelines.running > 0),
{
    pipelines.running > 0
}

/// What a step of the pipeline does: where it goes, whether a deploy is in
/// flight afterwards, and what it has to say.
#[verifier::ext_equal]
pub struct RunStep {
    pub next: RunPhase,
    pub in_flight: bool,
    pub said: Seq<Seq<char>>,
}

pub open spec fn rejects(why: &'static str, in_flight: bool, said: Seq<Seq<char>>) -> RunStep {
    RunStep { next: RunPhase::Finished(DeployOutcome::Rejected(why)), in_flight, said }
}

/// Full build isolation is mandatory: anything short of it is a rejection.
/// Then the address has to name a curated repository.
pub open spec fn graded_step(
    url: Seq<char>,
    grade: SandboxGrade,
    unlogged: bool,
    in_flight: bool,
) -> RunStep {
    match grade {
        SandboxGrade::Full => {
            let said = if unlogged {
                seq![
                    "sandbox: FULL"@,
                    "warn: GHOSTPROVIDER_NO_NETLOG — outbound requests are not written to net.log"@,
                ]
            } else {
                seq!["sandbox: FULL"@]
            };
            match github::repository(url) {
                None => rejects("bad-url", in_flight, said.push("! invalid GitHub URL format"@)),
                Some((owner, name)) => match recipes::curated(owner, name) {
                    None => rejects(
                        "not-curated",
                        in_flight,
                        said.push("! this demo only supports three services:"@).push(
                            "! VERT-sh/VERT · searxng/searxng · usememos/memos"@,
                        ),
                    ),
                    Some(c) => RunStep { next: RunPhase::Preflight(c), in_flight, said },
                },
            }
        },
        SandboxGrade::Almost => rejects(
            "sandbox-unavailable",
            in_flight,
            seq![
                "! sandbox: ALMOST — GHOSTPROVIDER_BUILD_USER set but unusable; refusing to deploy without full isolation"@,
            ],
        ),
        SandboxGrade::No => rejects(
            "sandbox-unavailable",
            in_flight,
            seq![
                "! sandbox: NO — refusing to build without isolation (the sandbox is mandatory)"@,
            ],
        ),
    }
}

pub open spec fn banged(issues: Seq<Seq<char>>) -> Seq<Seq<char>> {
    issues.map_values(|i: Seq<char>| "! "@ + i)
}

/// A missing tool is a rejection.
pub open spec fn issues_step(c: Curated, issues: Seq<Seq<char>>, in_flight: bool) -> RunStep {
    if issues.len() == 0 {
        RunStep { next: RunPhase::Locking(c), in_flight: true, said: Seq::empty() }
    } else {
        rejects("preflight", in_flight, banged(issues).push("! pre-flight failed, aborting"@))
    }
}

/// Only one deploy may run per user session.
pub open spec fn lock_step(c: Curated, attempt: LockAttempt) -> RunStep {
    if lock::takes(attempt) {
        RunStep { next: RunPhase::Journaling(c), in_flight: true, said: Seq::empty() }
    } else {
        rejects(
            "deploy-locked",
            false,
            seq![
                "! another deployment is already running (deploy.lock held) — refusing to start a second one"@,
            ],
        )
    }
}

/// A worker that was just spawned when the exit began settles its own entry:
/// nothing has been cloned or built yet.
pub open spec fn journaled_step(c: Curated, exiting: bool) -> RunStep {
    if exiting {
        RunStep {
            next: RunPhase::Clearing(c, DeployOutcome::Rejected("exiting")),
            in_flight: true,
            said: Seq::empty(),
        }
    } else {
        RunStep { next: RunPhase::Deploying(c), in_flight: true, said: Seq::empty() }
    }
}

/// Did a deploy succeed?
pub open spec fn verdict(result: HostResult) -> DeployOutcome {
    if result.service_names@.len() > 0 && result.errors@.len() == 0 {
        DeployOutcome::Deployed
    } else {
        DeployOutcome::Failed
    }
}

pub open spec fn listening(urls: Seq<Seq<char>>) -> Seq<Seq<char>> {
    urls.map_values(|u: Seq<char>| "listening on "@ + u)
}

/// The journal entry is cleared, unless a graceful exit is in progress: then
/// the exit path performs the final removal, and needs the entry.
pub open spec fn deployed_step(c: Curated, result: HostResult, exiting: bool) -> RunStep {
    RunStep {
        next: if exiting {
            RunPhase::Finished(verdict(result))
        } else {
            RunPhase::Clearing(c, verdict(result))
        },
        in_flight: !exiting,
        said: listening(text::texts(result.urls@)),
    }
}

/// What a report leads to. A report that does not answer the phase changes
/// nothing.
pub open spec fn run_step(
    url: Seq<char>,
    phase: RunPhase,
    ev: RunEvent,
    in_flight: bool,
) -> RunStep {
    match (phase, ev) {
        (RunPhase::Grading, RunEvent::Graded(grade, unlogged)) => graded_step(
            url,
            grade,
            unlogged,
            in_flight,
        ),
        (RunPhase::Preflight(c), RunEvent::Issues(issues)) => issues_step(
            c,
            text::texts(issues@),
            in_flight,
        ),
        (RunPhase::Locking(c), RunEvent::Lock(attempt)) => lock_step(c, attempt),
        (RunPhase::Journaling(c), RunEvent::Journaled(exiting)) => journaled_step(c, exiting),
        (RunPhase::Deploying(c), RunEvent::Deployed(result, exiting)) => deployed_step(
            c,
            result,
            exiting,
        ),
        (RunPhase::Clearing(_, outcome), RunEvent::Cleared) => RunStep {
            next: RunPhase::Finished(outcome),
            in_flight: false,
            said: Seq::empty(),
        },
        _ => RunStep { next: phase, in_flight, said: Seq::empty() },
    }
}

/// The lines that earn a spot in the output.
pub open spec fn screened(lines: Seq<Seq<char>>) -> Seq<Seq<char>> {
    lines.filter(|l: Seq<char>| steps::on_screen(l))
}

/// Hands on those of a deploy's lines that earn a spot in the output.
pub fn screen(lines: &Vec<String>) -> (r: Vec<String>)
    ensures
        text::texts(r@) == screened(text::texts(lines@)),
{
    let ghost all = text::texts(lines@);
    let ghost keep = |l: Seq<char>| steps::on_screen(l);
    let mut out = text::no_texts();
    let mut i: usize = 0;
    proof {
        reveal(Seq::filter);
        assert(all.take(0).filter(keep) =~= Seq::<Seq<char>>::empty());
    }
    while i < lines.len()
        invariant
            i <= lines@.len(),
            all == text::texts(lines@),
            keep == (|l: Seq<char>| steps::on_screen(l)),
            text::texts(out@) == all.take(i as int).filter(keep),
        decreases lines@.len() - i,
    {
        proof {
            reveal(Seq::filter);
            assert(all.take(i + 1).drop_last() =~= all.take(i as int));
            assert(all[i as int] == lines@[i as int]@);
        }
        if steps::screen_line(lines[i].as_str()) {
            text::push_text(&mut out, lines[i].as_str());
        }
        i = i + 1;
    }
    assert(all.take(i as int) =~= all);
    out
}

struct Weighed {
    next: RunPhase,
    in_flight: bool,
    said: Vec<String>,
}

impl View for Weighed {
    type V = RunStep;

    closed spec fn view(&self) -> RunStep {
        RunStep { next: self.next, in_flight: self.in_flight, said: text::texts(self.said@) }
    }
}

fn reject(why: &'static str, in_flight: bool, said: Vec<String>) -> (r: Weighed)
    ensures
        r@ == rejects(why, in_flight, text::texts(said@)),
{
    Weighed { next: RunPhase::Finished(DeployOutcome::Rejected(why)), in_flight, said }
}

fn weigh_grade(url: &str, grade: SandboxGrade, unlogged: bool, in_flight: bool) -> (r: Weighed)
    ensures
        r@ == graded_step(url@, grade, unlogged, in_flight),
{
    let mut said = text::no_texts();
    match grade {
        SandboxGrade::Full => {
            text::push_text(&mut said, "sandbox: FULL");
            if unlogged {
                text::push_text(
                    &mut said,
                    "warn: GHOSTPROVIDER_NO_NETLOG — outbound requests are not written to net.log",
                );
            }
            match github::parse_github_url(url) {
                None => {
                    text::push_text(&mut said, "! invalid GitHub URL format");
                    reject("bad-url", in_flight, said)
                },
                Some(pair) => match recipes::find_recipe(pair.0.as_str(), pair.1.as_str()) {
                    None => {
                        text::push_text(&mut said, "! this demo only supports three services:");
                        text::push_text(
                            &mut said,
                            "! VERT-sh/VERT · searxng/searxng · usememos/memos",
                        );
                        reject("not-curated", in_flight, said)
                    },
                    Some(c) => Weighed { next: RunPhase::Preflight(c), in_flight, said },
                },
            }
        },
        SandboxGrade::Almost => {
            text::push_text(
                &mut said,
                "! sandbox: ALMOST — GHOSTPROVIDER_BUILD_USER set but unusable; refusing to deploy without full isolation",
            );
            reject("sandbox-unavailable", in_flight, said)
        },
        SandboxGrade::No => {
            text::push_text(
                &mut said,
                "! sandbox: NO — refusing to build without isolation (the sandbox is mandatory)",
            );
            reject("sandbox-unavailable", in_flight, said)
        },
    }
}

/// Each text behind a prefix.
fn prefixed(prefix: &str, v: &Vec<String>) -> (r: Vec<String>)
    ensures
        text::texts(r@) == text::texts(v@).map_values(|t: Seq<char>| prefix@ + t),
{
    let ghost all = text::texts(v@);
    let ghost add_prefix = |t: Seq<char>| prefix@ + t;
    let mut out = text::no_texts();
    let mut i: usize = 0;
    assert(all.take(0).map_values(add_prefix) =~= Seq::<Seq<char>>::empty());
    while i < v.len()
        invariant
            i <= v@.len(),
            all == text::texts(v@),
            add_prefix == (|t: Seq<char>| prefix@ + t),
            text::texts(out@) == all.take(i as int).map_values(add_prefix),
        decreases v@.len() - i,
    {
        let mut l = prefix.to_owned();
        l.append(v[i].as_str());
        assert(all[i as int] == v@[i as int]@);
        text::push_text(&mut out, l.as_str());
        assert(all.take(i + 1).map_values(add_prefix) =~= all.take(i as int).map_values(
            add_prefix,
        ).push(prefix@ + all[i as int]));
        i = i + 1;
    }
    assert(all.take(i as int) =~= all);
    out
}

fn weigh_issues(c: Curated, issues: &Vec<String>, in_flight: bool) -> (r: Weighed)
    ensures
        r@ == issues_step(c, text::texts(issues@), in_flight),
{
    assert(text::texts(issues@).len() == issues@.len());
    if issues.len() == 0 {
        Weighed { next: RunPhase::Locking(c), in_flight: true, said: text::no_texts() }
    } else {
        let mut said = prefixed("! ", issues);
        assert(text::texts(said@) =~= banged(text::texts(issues@)));
        text::push_text(&mut said, "! pre-flight failed, aborting");
        reject("preflight", in_flight, said)
    }
}

fn weigh_lock(c: Curated, attempt: LockAttempt) -> (r: Weighed)
    ensures
        r@ == lock_step(c, attempt),
{
    match lock::try_lock_exclusive(attempt) {
        Some(_) => Weighed {
            next: RunPhase::Journaling(c),
            in_flight: true,
            said: text::no_texts(),
        },
        None => {
            let mut said = text::no_texts();
            text::push_text(
                &mut said,
                "! another deployment is already running (deploy.lock held) — refusing to start a second one",
            );
            reject("deploy-locked", false, said)
        },
    }
}

fn weigh_deployed(c: Curated, result: &HostResult, exiting: bool) -> (r: Weighed)
    ensures
        r@ == deployed_step(c, *result, exiting),
{
    let said = prefixed("listening on ", &result.urls);
    assert(text::texts(said@) =~= listening(text::texts(result.urls@)));
    let outcome = if result.service_names.len() > 0 && result.errors.len() == 0 {
        DeployOutcome::Deployed
    } else {
        DeployOutcome::Failed
    };
    if exiting {
        Weighed { next: RunPhase::Finished(outcome), in_flight: false, said }
    } else {
        Weighed { next: RunPhase::Clearing(c, outcome), in_flight: true, said }
    }
}

/// Shared entry point of the panel and the scripted deploy: validate the URL
/// against the curated recipes, preflight the build tools, then run the full
/// deploy pipeline. Weighs the report of the current phase, moves on to the
/// next and gives the lines to show. `pipelines` counts the runs of the
/// process, this one among them.
pub fn run_deployment(
    run: &mut DeployRun,
    pipelines: &mut Pipelines,
    url: &str,
    event: &RunEvent,
) -> (r: Vec<String>)
    requires
        old(run).in_flight ==> old(pipelines).running > 0,
        old(pipelines).running < usize::MAX,
    ensures
        ({
            let step = run_step(url@, old(run).phase, *event, old(run).in_flight);
            &&& final(run).phase == step.next
            &&& final(run).in_flight == step.in_flight
            &&& text::texts(r@) == screened(step.said)
            &&& final(pipelines).running == counted(
                old(pipelines).running as int,
                old(run).in_flight,
                step.in_flight,
            )
        }),
{
    let phase = run.phase;
    let in_flight = run.in_flight;
    let w = match (phase, event) {
        (RunPhase::Grading, RunEvent::Graded(grade, unlogged)) => weigh_grade(
            url,
            *grade,
            *unlogged,
            in_flight,
        ),
        (RunPhase::Preflight(c), RunEvent::Issues(issues)) => weigh_issues(c, issues, in_flight),
        (RunPhase::Locking(c), RunEvent::Lock(attempt)) => weigh_lock(c, *attempt),
        (RunPhase::Journaling(c), RunEvent::Journaled(exiting)) => if *exiting {
            Weighed {
                next: RunPhase::Clearing(c, DeployOutcome::Rejected("exiting")),
                in_flight: true,
                said: text::no_texts(),
            }
        } else {
            Weighed { next: RunPhase::Deploying(c), in_flight: true, said: text::no_texts() }
        },
        (RunPhase::Deploying(c), RunEvent::Deployed(result, exiting)) => weigh_deployed(
            c,
            result,
            *exiting,
        ),
        (RunPhase::Clearing(_, outcome), RunEvent::Cleared) => Weighed {
            next: RunPhase::Finished(outcome),
            in_flight: false,
            said: text::no_texts(),
        },
        _ => Weighed { next: phase, in_flight, said: text::no_texts() },
    };
    if w.in_flight && !in_flight {
        pipelines.running = pipelines.running + 1;
    } else if in_flight && !w.in_flight {
        pipelines.running = pipelines.running - 1;
    }
    run.phase = w.next;
    run.in_flight = w.in_flight;
    screen(&w.said)
}

// ---------------------------------------------------------------------------
// What holds of every run
// ---------------------------------------------------------------------------

/// Does a phase work on the journal or on anything a deploy makes?
pub open spec fn under_lock(p: RunPhase) -> bool {
    p is Journaling || p is Deploying || p is Clearing
}

/// The journal is written, the deploy run and the entry cleared only while the
/// deploy lock is held: those phases are entered by taking it, and left for
/// the end.
pub proof fn law_journal_only_under_the_lock(
    url: Seq<char>,
    phase: RunPhase,
    ev: RunEvent,
    in_flight: bool,
)
    ensures
        ({
            let next = run_step(url, phase, ev, in_flight).next;
            &&& under_lock(next) && !under_lock(phase) ==> phase is Locking && (
            ev matches RunEvent::Lock(attempt) && lock::takes(attempt))
            &&& under_lock(phase) && !under_lock(next) ==> next is Finished
        }),
{
}

/// Nothing is built without full isolation.
pub proof fn law_isolation_is_mandatory(
    url: Seq<char>,
    grade: SandboxGrade,
    unlogged: bool,
    in_flight: bool,
)
    requires
        grade != SandboxGrade::Full,
    ensures
        run_step(url, RunPhase::Grading, RunEvent::Graded(grade, unlogged), in_flight).next
            == RunPhase::Finished(DeployOutcome::Rejected("sandbox-unavailable")),
{
}

/// The journal entry of a deploy that has ended is cleared, exactly unless a
/// graceful exit is in progress.
pub proof fn law_entry_survives_only_an_exit(
    url: Seq<char>,
    c: Curated,
    result: HostResult,
    exiting: bool,
    in_flight: bool,
)
    ensures
        run_step(
            url,
            RunPhase::Deploying(c),
            RunEvent::Deployed(result, exiting),
            in_flight,
        ).next is Clearing <==> !exiting,
{
}

/// A run is in flight exactly from the end of its checks to its own end: while
/// it holds the lock it is, and once it is over it is not.
pub proof fn law_finished_is_not_in_flight(
    url: Seq<char>,
    phase: RunPhase,
    ev: RunEvent,
    in_flight: bool,
)
    requires
        in_flight <==> phase is Locking || under_lock(phase),
    ensures
        ({
            let step = run_step(url, phase, ev, in_flight);
            step.in_flight <==> step.next is Locking || under_lock(step.next)
        }),
{
}

/// How many of some runs are in flight.
pub open spec fn in_flight_count(runs: Seq<bool>) -> nat
    decreases runs.len(),
{
    if runs.len() == 0 {
        0
    } else {
        in_flight_count(runs.drop_last()) + (if runs.last() {
            1nat
        } else {
            0nat
        })
    }
}

/// The count stays right: a run that changes counts once.
pub proof fn law_every_run_counts_once(runs: Seq<bool>, i: int, now: bool)
    requires
        0 <= i < runs.len(),
    ensures
        in_flight_count(runs.update(i, now)) == counted(in_flight_count(runs) as int, runs[i], now),
        runs[i] ==> in_flight_count(runs) > 0,
    decreases runs.len(),
{
    let after = runs.update(i, now);
    if i == runs.len() - 1 {
        assert(after.drop_last() =~= runs.drop_last());
    } else {
        assert(after.drop_last() =~= runs.drop_last().update(i, now));
        law_every_run_counts_once(runs.drop_last(), i, now);
    }
}

/// While one run of the process is in flight, a deploy is in flight, whatever
/// another run does: that it is refused, too, leaves the first one counted.
pub proof fn law_refused_run_leaves_the_other_in_flight(
    runs: Seq<bool>,
    first: int,
    second: int,
    url: Seq<char>,
    phase: RunPhase,
    ev: RunEvent,
)
    requires
        0 <= first < runs.len(),
        0 <= second < runs.len(),
        first != second,
        runs[first],
    ensures
        counted(
            in_flight_count(runs) as int,
            runs[second],
            run_step(url, phase, ev, runs[second]).in_flight,
        ) > 0,
{
    let now = run_step(url, phase, ev, runs[second]).in_flight;
    law_every_run_counts_once(runs, second, now);
    let after = runs.update(second, now);
    law_every_run_counts_once(after, first, after[first]);
}

/// A verdict is always shown: each line of a rejection earns its spot.
pub proof fn law_rejections_are_shown(line: Seq<char>)
    requires
        text::begins(line, "! "@),
    ensures
        steps::on_screen(line),
{
    reveal_strlit("! ");
    reveal_strlit("!");
    assert(line.subrange(0, "! "@.len() as int)[0] == '!');
    assert(!text::white(line[0]));
    assert(text::trimmed_start(line) == line);
    assert(line.subrange(0, 1) =~= "!"@);
}

/// Only a repository of a curated service is deployed, named by its address, and
/// as that service.
pub proof fn law_only_curated_repositories_are_deployed(
    url: Seq<char>,
    unlogged: bool,
    in_flight: bool,
    c: Curated,
)
    ensures
        ({
            let s = run_step(
                url,
                RunPhase::Grading,
                RunEvent::Graded(SandboxGrade::Full, unlogged),
                in_flight,
            );
            let from = |owner: Seq<char>, name: Seq<char>|
                url == "https://github.com/"@ + owner + "/"@ + name;
            &&& s.next == RunPhase::Preflight(Curated::Vert) <==> from("VERT-sh"@, "VERT"@)
            &&& s.next == RunPhase::Preflight(Curated::Searxng) <==> from("searxng"@, "searxng"@)
            &&& s.next == RunPhase::Preflight(Curated::Memos) <==> from("usememos"@, "memos"@)
            &&& s.next is Preflight || s.next is Finished
            &&& s.in_flight == in_flight
        }),
{
    reveal_strlit("VERT-sh");
    reveal_strlit("VERT");
    reveal_strlit("searxng");
    reveal_strlit("usememos");
    reveal_strlit("memos");
    github::law_repository_address("VERT-sh"@, "VERT"@);
    github::law_repository_address("searxng"@, "searxng"@);
    github::law_repository_address("usememos"@, "memos"@);
    github::law_only_repository_addresses_are_read(url);
    assert("searxng"@[0] != "VERT-sh"@[0]);
    assert("usememos"@.len() != "VERT-sh"@.len());
    assert("usememos"@.len() != "searxng"@.len());
}

/// An address that names no repository, and a repository that is not curated, are
/// refused with a reason of their own.
pub proof fn law_other_addresses_are_refused(
    url: Seq<char>,
    owner: Seq<char>,
    name: Seq<char>,
    unlogged: bool,
    in_flight: bool,
)
    ensures
        ({
            let s = run_step(
                url,
                RunPhase::Grading,
                RunEvent::Graded(SandboxGrade::Full, unlogged),
                in_flight,
            );
            &&& github::repository(url) is None ==> s.next == RunPhase::Finished(
                DeployOutcome::Rejected("bad-url"),
            )
            &&& github::repository(url) == Some((owner, name)) && recipes::curated(owner, name)
                is None ==> s.next == RunPhase::Finished(DeployOutcome::Rejected("not-curated"))
        }),
{
}

/// A deploy goes on exactly where nothing is missing; what is missing is shown,
/// each thing on a line of its own, marked.
pub proof fn law_missing_tools_are_shown(
    url: Seq<char>,
    c: Curated,
    issues: Vec<String>,
    in_flight: bool,
    i: int,
)
    ensures
        ({
            let s = run_step(url, RunPhase::Preflight(c), RunEvent::Issues(issues), in_flight);
            &&& issues@.len() == 0 ==> s.next == RunPhase::Locking(c) && s.in_flight
                && s.said.len() == 0
            &&& issues@.len() > 0 ==> s.next == RunPhase::Finished(
                DeployOutcome::Rejected("preflight"),
            ) && s.in_flight == in_flight && s.said.len() == issues@.len() + 1
            &&& 0 <= i < issues@.len() ==> s.said[i] == "! "@ + issues@[i]@
        }),
{
    let all = text::texts(issues@);
    assert(all.len() == issues@.len());
    if 0 <= i < issues@.len() {
        assert(all[i] == issues@[i]@);
        assert(banged(all)[i] == "! "@ + all[i]);
    }
}

/// A second deploy is refused while the lock is held, and an exit stops one that
/// has not begun; otherwise the deploy runs.
pub proof fn law_one_deploy_at_a_time(
    url: Seq<char>,
    c: Curated,
    attempt: LockAttempt,
    exiting: bool,
    in_flight: bool,
)
    ensures
        ({
            let s = run_step(url, RunPhase::Locking(c), RunEvent::Lock(attempt), in_flight);
            &&& attempt == LockAttempt::Tried(0) ==> s.next == RunPhase::Journaling(c)
                && s.in_flight
            &&& attempt != LockAttempt::Tried(0) ==> s.next == RunPhase::Finished(
                DeployOutcome::Rejected("deploy-locked"),
            ) && !s.in_flight
        }),
        ({
            let s = run_step(url, RunPhase::Journaling(c), RunEvent::Journaled(exiting), in_flight);
            &&& s.in_flight
            &&& !exiting ==> s.next == RunPhase::Deploying(c)
            &&& exiting ==> s.next == RunPhase::Clearing(c, DeployOutcome::Rejected("exiting"))
        }),
{
}

/// A deploy counts as done exactly where it has a service and no error; its
/// addresses are announced, each on a line of its own, in their order.
pub proof fn law_verdict_of_a_deploy(
    url: Seq<char>,
    c: Curated,
    result: HostResult,
    exiting: bool,
    in_flight: bool,
    i: int,
)
    ensures
        ({
            let s = run_step(
                url,
                RunPhase::Deploying(c),
                RunEvent::Deployed(result, exiting),
                in_flight,
            );
            let done = result.service_names@.len() > 0 && result.errors@.len() == 0;
            let outcome = if done {
                DeployOutcome::Deployed
            } else {
                DeployOutcome::Failed
            };
            &&& s.next == (if exiting {
                RunPhase::Finished(outcome)
            } else {
                RunPhase::Clearing(c, outcome)
            })
            &&& s.in_flight == !exiting
            &&& s.said.len() == result.urls@.len()
            &&& 0 <= i < result.urls@.len() ==> s.said[i] == "listening on "@ + result.urls@[i]@
        }),
        ({
            let s = run_step(
                url,
                RunPhase::Clearing(c, verdict(result)),
                RunEvent::Cleared,
                in_flight,
            );
            s.next == RunPhase::Finished(verdict(result)) && !s.in_flight
        }),
{
    let all = text::texts(result.urls@);
    assert(all.len() == result.urls@.len());
    if 0 <= i < result.urls@.len() {
        assert(all[i] == result.urls@[i]@);
        assert(listening(all)[i] == "listening on "@ + all[i]);
    }
}

/// Of what a deploy says, the lines for the screen are shown, in their order, and
/// no others.
pub proof fn law_screening(lines: Seq<Seq<char>>, line: Seq<char>)
    ensures
        screened(Seq::empty()).len() == 0,
        screened(lines.push(line)) == if steps::on_screen(line) {
            screened(lines).push(line)
        } else {
            screened(lines)
        },
{
    reveal(Seq::filter);
    assert(lines.push(line).drop_last() =~= lines);
    assert(screened(Seq::empty()) =~= Seq::<Seq<char>>::empty());
}

} // verus!
