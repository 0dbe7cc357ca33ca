//! The deploy of one service, step by step.
//!
//! A deploy is a sequence of phases. In each phase the program around this
//! library does one thing (clones, builds, asks systemd) and reports how it
//! went; [`deploy_service`] weighs the report and says which phase is next and
//! which lines to show.

use vstd::prelude::*;

use crate::hoster::deploy::steps;
use crate::hoster::models::{self, HostResult, RepoAnalysis, ResultText, ServiceEntry};
use crate::hoster::recipes::DemoRecipe;
use crate::hoster::toolcheck::Finding;
use crate::hoster::units::{self, StartOutcome, UnitSpec};
use crate::text;

verus! {

/// What a deploy is doing.
#[derive(Debug, Clone, Copy, PartialEq, Eq, Structural)]
pub enum Phase {
    /// Nothing yet.
    Start,
    /// Cloning the repository at the recipe's commit.
    Cloning,
    /// Reading the commit that the checkout was made from.
    Pinning,
    /// Holding the manifest's requirements against the installed tools.
    Doctor,
    /// Finding out which tools have to be provisioned.
    Probing,
    /// Provisioning pinned tools into the project cache.
    Provisioning,
    /// Running the prefetch step of this number on the host.
    Prefetching(usize),
    /// Seeding the pinned plugins.
    Seeding,
    /// Seeding the Go toolchain.
    Toolchain,
    /// Seeding the Go module cache.
    Modules,
    /// Pointing pip at the wheelhouse.
    PipEnv,
    /// Running the build step of this number in the sandbox.
    Building(usize),
    /// Stopping the instance that is to be replaced.
    Stopping,
    /// Looking for a free port.
    PickingPort,
    /// Patching the SearXNG settings.
    Configuring(u16),
    /// Writing the unit.
    Installing(u16),
    /// Starting the unit.
    Starting(u16),
    /// Waiting for the unit to become active.
    Waiting(u16),
    /// Looking for listeners beyond loopback.
    Checking(u16),
    /// Marking the journal entry `Registering`.
    MarkRegistering(u16),
    /// Registering the service.
    Registering(u16),
    /// Marking the journal entry `Registered`.
    MarkRegistered(u16),
    /// Removing everything the deploy has made, and waiting for this port.
    RollingBack(Option<u16>),
    /// Nothing left to do.
    Done,
}

/// How the Go module cache came out.
#[derive(Debug)]
pub struct ModuleSeed {
    pub ready: usize,
    pub total: usize,
    pub failed: Vec<String>,
}

/// How a build step came out.
#[derive(Debug)]
pub struct BuildRun {
    pub success: bool,
    pub stdout: String,
    pub stderr: String,
}

/// What a phase reports.
#[derive(Debug)]
pub enum DeployEvent {
    Begin,
    /// Whether the repository was cloned.
    Cloned(bool),
    /// The commit that the checkout is pinned to.
    Pin(Option<String>),
    Findings(Vec<Finding>),
    /// How many tools have to be provisioned.
    Needs(usize),
    /// The search path that leads with the pinned tools.
    Provisioned(Result<Option<String>, String>),
    Prefetched(Result<(), String>),
    Seeded(Result<(), String>),
    Toolchain(Result<Vec<(String, String)>, String>),
    Modules(Result<ModuleSeed, String>),
    PipEnv(Vec<(String, String)>),
    Built(Result<BuildRun, String>),
    Stopped,
    Port(Result<u16, String>),
    Configured(Result<(), String>),
    Installed(Result<(), String>),
    /// Whether systemctl accepted the start; `None` where it could not be run.
    Started(Option<bool>),
    /// The outcome, and the recent log lines where the service did not come up.
    Settled(StartOutcome, String),
    /// Whether the port is reachable beyond loopback.
    Listening(bool),
    Marked,
    Registered(Result<(), String>),
    /// Whether the project tree is gone.
    RolledBack(bool),
}

/// What a step does: where the deploy goes, which lines it shows and which
/// errors it adds.
#[verifier::ext_equal]
pub struct Step {
    pub next: Phase,
    pub lines: Seq<Seq<char>>,
    pub errors: Seq<Seq<char>>,
}

// ---------------------------------------------------------------------------
// The order of the phases
// ---------------------------------------------------------------------------

/// Last chance to stop before any systemd state is touched.
pub open spec fn before_install(exiting: bool) -> Phase {
    if exiting {
        Phase::RollingBack(None)
    } else {
        Phase::Stopping
    }
}

/// How many build steps a recipe has.
pub open spec fn build_count(r: DemoRecipe) -> int {
    (r.pre_build@.len() + r.build_steps@.len()) as int
}

/// The build step of number `i`.
pub open spec fn build_step(r: DemoRecipe, i: int) -> Seq<char> {
    if i < r.pre_build@.len() {
        r.pre_build@[i]@
    } else {
        r.build_steps@[i - r.pre_build@.len()]@
    }
}

pub open spec fn before_build(r: DemoRecipe, i: int, exiting: bool) -> Phase {
    if i < build_count(r) {
        if exiting {
            Phase::RollingBack(None)
        } else {
            Phase::Building(i as usize)
        }
    } else {
        before_install(exiting)
    }
}

pub open spec fn before_pip(r: DemoRecipe, exiting: bool) -> Phase {
    if r.language@ == "Python"@ {
        Phase::PipEnv
    } else {
        before_build(r, 0, exiting)
    }
}

pub open spec fn before_go(r: DemoRecipe, exiting: bool) -> Phase {
    if r.language@ == "Go"@ {
        Phase::Toolchain
    } else {
        before_pip(r, exiting)
    }
}

pub open spec fn before_plugins(r: DemoRecipe, exiting: bool) -> Phase {
    if r.plugins > 0 {
        Phase::Seeding
    } else {
        before_go(r, exiting)
    }
}

pub open spec fn before_prefetch(r: DemoRecipe, i: int, exiting: bool) -> Phase {
    if i < r.prefetch_steps@.len() {
        if exiting {
            Phase::RollingBack(None)
        } else {
            Phase::Prefetching(i as usize)
        }
    } else {
        before_plugins(r, exiting)
    }
}

// ---------------------------------------------------------------------------
// What is said
// ---------------------------------------------------------------------------

pub open spec fn wrong_pin_text(have: Seq<char>, commit: Seq<char>) -> Seq<char> {
    "checkout is pinned to "@ + have + ", recipe pins "@ + commit
        + " (anti-TOFU); refusing to build an unpinned tree."@
}

pub open spec fn no_pin_text(commit: Seq<char>) -> Seq<char> {
    "checkout carries no pin marker, recipe pins "@ + commit
        + " (anti-TOFU); refusing to build an unpinned tree."@
}

pub open spec fn provision_text(e: Seq<char>) -> Seq<char> {
    "Build-tool provisioning failed: "@ + e
        + "\nThe build sandbox has PrivateNetwork=yes; the pinned tools must be provisioned on the host."@
}

pub open spec fn prefetch_text(step: Seq<char>, e: Seq<char>) -> Seq<char> {
    "Prefetch step failed ("@ + step + "): "@ + e
        + "\nThe build sandbox has PrivateNetwork=yes, so dependencies must be pre-fetched on the host; fix the fetch, then re-deploy."@
}

pub open spec fn seeded_text(n: nat) -> Seq<char> {
    "build: seeded "@ + text::decimal(n) + " paraglide plugin(s) (SHA-256 verified)"@
}

pub open spec fn seed_failed_text(e: Seq<char>) -> Seq<char> {
    "Pinned paraglide plugin seed failed: "@ + e
        + "\nThe build sandbox has PrivateNetwork=yes; the plugins must be fetched and verified on the host. Refusing to build against unverified plugin bytes."@
}

pub open spec fn toolchain_text(e: Seq<char>) -> Seq<char> {
    "Go toolchain seed failed: "@ + e
        + "\nThe build sandbox has PrivateNetwork=yes; the toolchain must be pre-seeded on the host."@
}

pub open spec fn modules_ready_text(ready: nat) -> Seq<char> {
    "build: seeded Go module cache ("@ + text::decimal(ready) + " module(s) ready)"@
}

pub open spec fn modules_dead_text(failed: nat, total: nat, first: Seq<char>) -> Seq<char> {
    "Go module cache seed failed: "@ + text::decimal(failed) + " of "@ + text::decimal(total)
        + " module(s) failed; first: "@ + first
        + "\nThe build sandbox has PrivateNetwork=yes; modules must be fully pre-seeded on the host."@
}

pub open spec fn modules_partial_text(failed: nat, total: nat, first: Seq<char>) -> Seq<char> {
    "build: Go module cache partial: "@ + text::decimal(failed) + " of "@ + text::decimal(total)
        + " module(s) failed (best-effort, continuing); first: "@ + first
}

pub open spec fn modules_continue_text(ready: nat, failed: nat) -> Seq<char> {
    "build: "@ + text::decimal(ready) + " module(s) ready, "@ + text::decimal(failed)
        + " failed — deploy continues"@
}

pub open spec fn modules_error_text(e: Seq<char>) -> Seq<char> {
    "Go module cache seed failed: "@ + e
        + "\nThe build sandbox has PrivateNetwork=yes; modules must be fully pre-seeded on the host."@
}

pub open spec fn build_failed_text(step: Seq<char>, run: BuildRun) -> Seq<char> {
    "Build step failed ("@ + step + "):\n"@ + text::first_chars(run.stderr@, 300)
        + steps::tail_text(run.stdout@)
}

pub open spec fn build_error_text(step: Seq<char>, e: Seq<char>) -> Seq<char> {
    "Build step failed ("@ + step + "): "@ + e
}

pub open spec fn installing_text(service: Seq<char>) -> Seq<char> {
    "installing systemd unit "@ + service + "..."@
}

pub open spec fn start_rejected_text(service: Seq<char>) -> Seq<char> {
    "systemctl start rejected the unit "@ + service + " (non-zero exit)"@
}

pub open spec fn crashed_text(logs: Seq<char>) -> Seq<char> {
    "Service crashed immediately after start:\n"@ + text::first_chars(logs, 300)
}

pub open spec fn timeout_text(logs: Seq<char>) -> Seq<char> {
    "Service did not become active within "@ + text::decimal(
        (units::START_BUDGET / 1000) as nat,
    ) + "s:\n"@ + text::first_chars(logs, 300)
}

pub open spec fn exposed_text(service: Seq<char>, port: nat) -> Seq<char> {
    "warn: "@ + service + " is listening on a non-loopback address (port "@ + text::decimal(port)
        + ") — anything on your network can reach it. This recipe regression must be fixed: bind the app to 127.0.0.1 like the other services."@
}

pub open spec fn left_behind_text(project_dir: Seq<char>) -> Seq<char> {
    "cleanup: could not remove the project tree left behind by this failed deploy: "@
        + project_dir
}

/// An error as the output shows it.
pub open spec fn bang(msg: Seq<char>) -> Seq<char> {
    "! "@ + msg
}

// ---------------------------------------------------------------------------
// What a report leads to
// ---------------------------------------------------------------------------

/// Goes on without a word.
pub open spec fn goes(next: Phase) -> Step {
    Step { next, lines: Seq::empty(), errors: Seq::empty() }
}

/// Goes on with a line.
pub open spec fn says(next: Phase, line: Seq<char>) -> Step {
    Step { next, lines: seq![line], errors: Seq::empty() }
}

/// Fails: the error is shown and kept, and everything is rolled back.
pub open spec fn fails(msg: Seq<char>, port: Option<u16>) -> Step {
    Step { next: Phase::RollingBack(port), lines: seq![bang(msg)], errors: seq![msg] }
}

/// A deploy begins, unless a shutdown began before it did.
pub open spec fn begin_step(exiting: bool) -> Step {
    if exiting {
        goes(Phase::Done)
    } else {
        says(Phase::Cloning, "cloning repository..."@)
    }
}

/// A failed clone may have left a part of the tree: it is rolled back like any
/// other failure.
pub open spec fn clone_step(ok: bool) -> Step {
    if ok {
        goes(Phase::Pinning)
    } else {
        Step {
            next: Phase::RollingBack(None),
            lines: Seq::empty(),
            errors: seq!["git clone failed after retries (check network connection)"@],
        }
    }
}

/// Exactly the recipe's commit is built, never whichever the branch points at.
pub open spec fn pin_step(r: DemoRecipe, pin: Option<String>) -> Step {
    match pin {
        Some(have) => if have@ == r.commit@ {
            says(Phase::Doctor, "build..."@)
        } else {
            fails(wrong_pin_text(have@, r.commit@), None)
        },
        None => fails(no_pin_text(r.commit@), None),
    }
}

/// The lines of the first `n` findings.
pub open spec fn finding_lines(f: Seq<Finding>, n: int) -> Seq<Seq<char>>
    decreases n,
{
    if n <= 0 {
        Seq::empty()
    } else {
        finding_lines(f, n - 1).push(
            if f[n - 1].blocking {
                bang(f[n - 1].text@)
            } else {
                f[n - 1].text@
            },
        )
    }
}

/// The blocking ones among the first `n` findings.
pub open spec fn blockers(f: Seq<Finding>, n: int) -> Seq<Seq<char>>
    decreases n,
{
    if n <= 0 {
        Seq::empty()
    } else if f[n - 1].blocking {
        blockers(f, n - 1).push(f[n - 1].text@)
    } else {
        blockers(f, n - 1)
    }
}

/// Any blocking finding stops the deploy.
pub open spec fn doctor_step(f: Seq<Finding>) -> Step {
    let lines = finding_lines(f, f.len() as int);
    let errors = blockers(f, f.len() as int);
    if errors.len() == 0 {
        Step { next: Phase::Probing, lines, errors }
    } else {
        Step {
            next: Phase::RollingBack(None),
            lines: lines.push("! fix the tools above, then re-run the deployment"@),
            errors,
        }
    }
}

pub open spec fn needs_step(r: DemoRecipe, n: usize, exiting: bool) -> Step {
    if n == 0 {
        goes(before_prefetch(r, 0, exiting))
    } else {
        goes(Phase::Provisioning)
    }
}

pub open spec fn provision_step(
    r: DemoRecipe,
    out: Result<Option<String>, String>,
    exiting: bool,
) -> Step {
    match out {
        Ok(_) => goes(before_prefetch(r, 0, exiting)),
        Err(e) => fails(provision_text(e@), None),
    }
}

pub open spec fn prefetch_step(
    r: DemoRecipe,
    i: int,
    dir: Seq<char>,
    out: Result<(), String>,
    exiting: bool,
) -> Step {
    match out {
        Ok(_) => goes(before_prefetch(r, i + 1, exiting)),
        Err(e) => fails(
            prefetch_text(steps::project_step(r.prefetch_steps@[i]@, dir), e@),
            None,
        ),
    }
}

pub open spec fn seed_step(r: DemoRecipe, out: Result<(), String>, exiting: bool) -> Step {
    match out {
        Ok(_) => says(before_go(r, exiting), seeded_text(r.plugins as nat)),
        Err(e) => fails(seed_failed_text(e@), None),
    }
}

pub open spec fn toolchain_step(out: Result<Vec<(String, String)>, String>) -> Step {
    match out {
        Ok(_) => goes(Phase::Modules),
        Err(e) => fails(toolchain_text(e@), None),
    }
}

/// More than half of the modules failing is a dead network; fewer is worth a
/// warning, and the build tries with what is there.
pub open spec fn modules_step(
    r: DemoRecipe,
    out: Result<ModuleSeed, String>,
    exiting: bool,
) -> Step {
    match out {
        Ok(m) => {
            let failed = m.failed@.len();
            if failed == 0 {
                says(before_pip(r, exiting), modules_ready_text(m.ready as nat))
            } else if failed * 2 > m.total {
                fails(modules_dead_text(failed, m.total as nat, m.failed@[0]@), None)
            } else {
                Step {
                    next: before_pip(r, exiting),
                    lines: seq![
                        modules_partial_text(failed, m.total as nat, m.failed@[0]@),
                        modules_continue_text(m.ready as nat, failed),
                    ],
                    errors: Seq::empty(),
                }
            }
        },
        Err(e) => fails(modules_error_text(e@), None),
    }
}

pub open spec fn built_step(
    r: DemoRecipe,
    i: int,
    dir: Seq<char>,
    out: Result<BuildRun, String>,
    exiting: bool,
) -> Step {
    let step = steps::project_step(build_step(r, i), dir);
    match out {
        Ok(run) => if run.success {
            goes(before_build(r, i + 1, exiting))
        } else {
            fails(build_failed_text(step, run), None)
        },
        Err(e) => fails(build_error_text(step, e@), None),
    }
}

pub open spec fn port_step(r: DemoRecipe, out: Result<u16, String>) -> Step {
    match out {
        Ok(p) => if r.searxng {
            goes(Phase::Configuring(p))
        } else {
            says(Phase::Installing(p), installing_text(r.service_name@))
        },
        Err(e) => fails(e@, None),
    }
}

pub open spec fn configured_step(r: DemoRecipe, p: u16, out: Result<(), String>) -> Step {
    match out {
        Ok(_) => says(Phase::Installing(p), installing_text(r.service_name@)),
        Err(e) => fails("searxng config failed: "@ + e@, None),
    }
}

pub open spec fn installed_step(p: u16, out: Result<(), String>) -> Step {
    match out {
        Ok(_) => says(Phase::Starting(p), "starting service..."@),
        Err(e) => fails("unit creation failed: "@ + e@, None),
    }
}

/// A refused start is no slow start: it fails at once.
pub open spec fn started_step(r: DemoRecipe, p: u16, out: Option<bool>) -> Step {
    match out {
        Some(ok) => if ok {
            goes(Phase::Waiting(p))
        } else {
            fails(start_rejected_text(r.service_name@), Some(p))
        },
        None => fails("failed to invoke systemctl start"@, Some(p)),
    }
}

pub open spec fn settled_step(p: u16, out: StartOutcome, logs: Seq<char>) -> Step {
    match out {
        StartOutcome::Active => goes(Phase::Checking(p)),
        StartOutcome::Failed => fails(crashed_text(logs), Some(p)),
        StartOutcome::TimeoutWhileActivating => fails(timeout_text(logs), Some(p)),
        StartOutcome::SystemdUnavailable => fails("systemd user manager unavailable"@, Some(p)),
    }
}

/// A service that anything on the network can reach is warned of loudly.
pub open spec fn listening_step(r: DemoRecipe, p: u16, exposed: bool) -> Step {
    if exposed {
        says(Phase::MarkRegistering(p), exposed_text(r.service_name@, p as nat))
    } else {
        goes(Phase::MarkRegistering(p))
    }
}

/// A service that could not be registered is no deployed one: it is rolled
/// back.
pub open spec fn registered_step(p: u16, out: Result<(), String>) -> Step {
    match out {
        Ok(_) => goes(Phase::MarkRegistered(p)),
        Err(e) => fails("registering state: "@ + e@, Some(p)),
    }
}

pub open spec fn rolled_back_step(dir: Seq<char>, wiped: bool) -> Step {
    if wiped {
        goes(Phase::Done)
    } else {
        Step {
            next: Phase::Done,
            lines: seq![bang(left_behind_text(dir))],
            errors: seq![left_behind_text(dir)],
        }
    }
}

/// What a report leads to. A report that does not answer the phase changes
/// nothing.
pub open spec fn step_of(
    r: DemoRecipe,
    phase: Phase,
    ev: DeployEvent,
    dir: Seq<char>,
    exiting: bool,
) -> Step {
    match (phase, ev) {
        (Phase::Start, DeployEvent::Begin) => begin_step(exiting),
        (Phase::Cloning, DeployEvent::Cloned(ok)) => clone_step(ok),
        (Phase::Pinning, DeployEvent::Pin(pin)) => pin_step(r, pin),
        (Phase::Doctor, DeployEvent::Findings(f)) => doctor_step(f@),
        (Phase::Probing, DeployEvent::Needs(n)) => needs_step(r, n, exiting),
        (Phase::Provisioning, DeployEvent::Provisioned(out)) => provision_step(r, out, exiting),
        (Phase::Prefetching(i), DeployEvent::Prefetched(out)) => if i < r.prefetch_steps@.len() {
            prefetch_step(r, i as int, dir, out, exiting)
        } else {
            goes(phase)
        },
        (Phase::Seeding, DeployEvent::Seeded(out)) => seed_step(r, out, exiting),
        (Phase::Toolchain, DeployEvent::Toolchain(out)) => toolchain_step(out),
        (Phase::Modules, DeployEvent::Modules(out)) => modules_step(r, out, exiting),
        (Phase::PipEnv, DeployEvent::PipEnv(_)) => goes(before_build(r, 0, exiting)),
        (Phase::Building(i), DeployEvent::Built(out)) => if i < build_count(r) {
            built_step(r, i as int, dir, out, exiting)
        } else {
            goes(phase)
        },
        (Phase::Stopping, DeployEvent::Stopped) => goes(Phase::PickingPort),
        (Phase::PickingPort, DeployEvent::Port(out)) => port_step(r, out),
        (Phase::Configuring(p), DeployEvent::Configured(out)) => configured_step(r, p, out),
        (Phase::Installing(p), DeployEvent::Installed(out)) => installed_step(p, out),
        (Phase::Starting(p), DeployEvent::Started(out)) => started_step(r, p, out),
        (Phase::Waiting(p), DeployEvent::Settled(out, logs)) => settled_step(p, out, logs@),
        (Phase::Checking(p), DeployEvent::Listening(exposed)) => listening_step(r, p, exposed),
        (Phase::MarkRegistering(p), DeployEvent::Marked) => goes(Phase::Registering(p)),
        (Phase::Registering(p), DeployEvent::Registered(out)) => registered_step(p, out),
        (Phase::MarkRegistered(_), DeployEvent::Marked) => goes(Phase::Done),
        (Phase::RollingBack(_), DeployEvent::RolledBack(wiped)) => rolled_back_step(dir, wiped),
        _ => goes(phase),
    }
}

// ---------------------------------------------------------------------------
// Weighing a report
// ---------------------------------------------------------------------------

struct Outcome {
    next: Phase,
    lines: Vec<String>,
    errors: Vec<String>,
}

impl View for Outcome {
    type V = Step;

    closed spec fn view(&self) -> Step {
        Step {
            next: self.next,
            lines: text::texts(self.lines@),
            errors: text::texts(self.errors@),
        }
    }
}

fn go(next: Phase) -> (r: Outcome)
    ensures
        r@ == goes(next),
{
    Outcome { next, lines: text::no_texts(), errors: text::no_texts() }
}

fn say(next: Phase, line: &str) -> (r: Outcome)
    ensures
        r@ == says(next, line@),
{
    let mut lines = text::no_texts();
    text::push_text(&mut lines, line);
    Outcome { next, lines, errors: text::no_texts() }
}

fn fail(msg: &str, port: Option<u16>) -> (r: Outcome)
    ensures
        r@ == fails(msg@, port),
{
    let mut shown = "! ".to_owned();
    shown.append(msg);
    let mut lines = text::no_texts();
    text::push_text(&mut lines, shown.as_str());
    let mut errors = text::no_texts();
    text::push_text(&mut errors, msg);
    Outcome { next: Phase::RollingBack(port), lines, errors }
}

fn to_install(exiting: bool) -> (r: Phase)
    ensures
        r == before_install(exiting),
{
    if exiting {
        Phase::RollingBack(None)
    } else {
        Phase::Stopping
    }
}

fn to_build(r: &DemoRecipe, i: usize, exiting: bool) -> (p: Phase)
    requires
        build_count(*r) <= usize::MAX,
    ensures
        p == before_build(*r, i as int, exiting),
{
    if i < r.pre_build.len() + r.build_steps.len() {
        if exiting {
            Phase::RollingBack(None)
        } else {
            Phase::Building(i)
        }
    } else {
        to_install(exiting)
    }
}

fn to_pip(r: &DemoRecipe, exiting: bool) -> (p: Phase)
    requires
        build_count(*r) <= usize::MAX,
    ensures
        p == before_pip(*r, exiting),
{
    if text::same(r.language.as_str(), "Python") {
        Phase::PipEnv
    } else {
        to_build(r, 0, exiting)
    }
}

fn to_go(r: &DemoRecipe, exiting: bool) -> (p: Phase)
    requires
        build_count(*r) <= usize::MAX,
    ensures
        p == before_go(*r, exiting),
{
    if text::same(r.language.as_str(), "Go") {
        Phase::Toolchain
    } else {
        to_pip(r, exiting)
    }
}

fn to_plugins(r: &DemoRecipe, exiting: bool) -> (p: Phase)
    requires
        build_count(*r) <= usize::MAX,
    ensures
        p == before_plugins(*r, exiting),
{
    if r.plugins > 0 {
        Phase::Seeding
    } else {
        to_go(r, exiting)
    }
}

fn to_prefetch(r: &DemoRecipe, i: usize, exiting: bool) -> (p: Phase)
    requires
        build_count(*r) <= usize::MAX,
    ensures
        p == before_prefetch(*r, i as int, exiting),
{
    if i < r.prefetch_steps.len() {
        if exiting {
            Phase::RollingBack(None)
        } else {
            Phase::Prefetching(i)
        }
    } else {
        to_plugins(r, exiting)
    }
}

fn weigh_clone(ok: bool) -> (r: Outcome)
    ensures
        r@ == clone_step(ok),
{
    if ok {
        go(Phase::Pinning)
    } else {
        let mut errors = text::no_texts();
        text::push_text(&mut errors, "git clone failed after retries (check network connection)");
        Outcome { next: Phase::RollingBack(None), lines: text::no_texts(), errors }
    }
}

fn weigh_pin(r: &DemoRecipe, pin: &Option<String>) -> (o: Outcome)
    ensures
        o@ == pin_step(*r, *pin),
{
    match pin {
        Some(have) => if text::same(have.as_str(), r.commit.as_str()) {
            say(Phase::Doctor, "build...")
        } else {
            let mut m = "checkout is pinned to ".to_owned();
            m.append(have.as_str());
            m.append(", recipe pins ");
            m.append(r.commit.as_str());
            m.append(" (anti-TOFU); refusing to build an unpinned tree.");
            fail(m.as_str(), None)
        },
        None => {
            let mut m = "checkout carries no pin marker, recipe pins ".to_owned();
            m.append(r.commit.as_str());
            m.append(" (anti-TOFU); refusing to build an unpinned tree.");
            fail(m.as_str(), None)
        },
    }
}

fn weigh_findings(f: &Vec<Finding>) -> (r: Outcome)
    ensures
        r@ == doctor_step(f@),
{
    let mut lines = text::no_texts();
    let mut errors = text::no_texts();
    let mut i: usize = 0;
    while i < f.len()
        invariant
            i <= f@.len(),
            text::texts(lines@) == finding_lines(f@, i as int),
            text::texts(errors@) == blockers(f@, i as int),
            errors@.len() == text::texts(errors@).len(),
        decreases f@.len() - i,
    {
        if f[i].blocking {
            let mut shown = "! ".to_owned();
            shown.append(f[i].text.as_str());
            text::push_text(&mut lines, shown.as_str());
            text::push_text(&mut errors, f[i].text.as_str());
        } else {
            text::push_text(&mut lines, f[i].text.as_str());
        }
        i = i + 1;
    }
    if errors.len() == 0 {
        Outcome { next: Phase::Probing, lines, errors }
    } else {
        text::push_text(&mut lines, "! fix the tools above, then re-run the deployment");
        Outcome { next: Phase::RollingBack(None), lines, errors }
    }
}

fn weigh_provision(
    r: &DemoRecipe,
    out: &Result<Option<String>, String>,
    exiting: bool,
) -> (o: Outcome)
    requires
        build_count(*r) <= usize::MAX,
    ensures
        o@ == provision_step(*r, *out, exiting),
{
    match out {
        Ok(_) => go(to_prefetch(r, 0, exiting)),
        Err(e) => {
            let mut m = "Build-tool provisioning failed: ".to_owned();
            m.append(e.as_str());
            m.append("\nThe build sandbox has PrivateNetwork=yes; the pinned tools must be provisioned on the host.");
            fail(m.as_str(), None)
        },
    }
}

fn weigh_prefetch(
    r: &DemoRecipe,
    i: usize,
    dir: &str,
    out: &Result<(), String>,
    exiting: bool,
) -> (o: Outcome)
    requires
        build_count(*r) <= usize::MAX,
        i < r.prefetch_steps@.len(),
    ensures
        o@ == prefetch_step(*r, i as int, dir@, *out, exiting),
{
    let count: usize = r.prefetch_steps.len();
    assert(i < count);
    match out {
        Ok(_) => go(to_prefetch(r, i + 1, exiting)),
        Err(e) => {
            let step = steps::resolve_project_step(r.prefetch_steps[i].as_str(), dir);
            let mut m = "Prefetch step failed (".to_owned();
            m.append(step.as_str());
            m.append("): ");
            m.append(e.as_str());
            m.append("\nThe build sandbox has PrivateNetwork=yes, so dependencies must be pre-fetched on the host; fix the fetch, then re-deploy.");
            fail(m.as_str(), None)
        },
    }
}

fn weigh_seed(r: &DemoRecipe, out: &Result<(), String>, exiting: bool) -> (o: Outcome)
    requires
        build_count(*r) <= usize::MAX,
    ensures
        o@ == seed_step(*r, *out, exiting),
{
    match out {
        Ok(_) => {
            let n = text::decimal_of(r.plugins as u64);
            let mut m = "build: seeded ".to_owned();
            m.append(n.as_str());
            m.append(" paraglide plugin(s) (SHA-256 verified)");
            say(to_go(r, exiting), m.as_str())
        },
        Err(e) => {
            let mut m = "Pinned paraglide plugin seed failed: ".to_owned();
            m.append(e.as_str());
            m.append("\nThe build sandbox has PrivateNetwork=yes; the plugins must be fetched and verified on the host. Refusing to build against unverified plugin bytes.");
            fail(m.as_str(), None)
        },
    }
}

fn weigh_toolchain(out: &Result<Vec<(String, String)>, String>) -> (o: Outcome)
    ensures
        o@ == toolchain_step(*out),
{
    match out {
        Ok(_) => go(Phase::Modules),
        Err(e) => {
            let mut m = "Go toolchain seed failed: ".to_owned();
            m.append(e.as_str());
            m.append("\nThe build sandbox has PrivateNetwork=yes; the toolchain must be pre-seeded on the host.");
            fail(m.as_str(), None)
        },
    }
}

fn weigh_modules(r: &DemoRecipe, out: &Result<ModuleSeed, String>, exiting: bool) -> (o: Outcome)
    requires
        build_count(*r) <= usize::MAX,
    ensures
        o@ == modules_step(*r, *out, exiting),
{
    match out {
        Ok(m) => {
            let n: usize = m.failed.len();
            let failed = text::decimal_of(n as u64);
            let total = text::decimal_of(m.total as u64);
            let ready = text::decimal_of(m.ready as u64);
            if n == 0 {
                let mut t = "build: seeded Go module cache (".to_owned();
                t.append(ready.as_str());
                t.append(" module(s) ready)");
                say(to_pip(r, exiting), t.as_str())
            } else if n > m.total / 2 {
                let mut t = "Go module cache seed failed: ".to_owned();
                t.append(failed.as_str());
                t.append(" of ");
                t.append(total.as_str());
                t.append(" module(s) failed; first: ");
                t.append(m.failed[0].as_str());
                t.append("\nThe build sandbox has PrivateNetwork=yes; modules must be fully pre-seeded on the host.");
                fail(t.as_str(), None)
            } else {
                let mut t = "build: Go module cache partial: ".to_owned();
                t.append(failed.as_str());
                t.append(" of ");
                t.append(total.as_str());
                t.append(" module(s) failed (best-effort, continuing); first: ");
                t.append(m.failed[0].as_str());
                let mut u = "build: ".to_owned();
                u.append(ready.as_str());
                u.append(" module(s) ready, ");
                u.append(failed.as_str());
                u.append(" failed — deploy continues");
                let mut lines = text::no_texts();
                text::push_text(&mut lines, t.as_str());
                text::push_text(&mut lines, u.as_str());
                Outcome { next: to_pip(r, exiting), lines, errors: text::no_texts() }
            }
        },
        Err(e) => {
            let mut t = "Go module cache seed failed: ".to_owned();
            t.append(e.as_str());
            t.append("\nThe build sandbox has PrivateNetwork=yes; modules must be fully pre-seeded on the host.");
            fail(t.as_str(), None)
        },
    }
}

fn weigh_build(
    r: &DemoRecipe,
    i: usize,
    dir: &str,
    out: &Result<BuildRun, String>,
    exiting: bool,
) -> (o: Outcome)
    requires
        build_count(*r) <= usize::MAX,
        i < build_count(*r),
    ensures
        o@ == built_step(*r, i as int, dir@, *out, exiting),
{
    let step = build_command(r, i, dir);
    match out {
        Ok(run) => if run.success {
            go(to_build(r, i + 1, exiting))
        } else {
            let mut m = "Build step failed (".to_owned();
            m.append(step.as_str());
            m.append("):\n");
            let err = steps::short(run.stderr.as_str());
            m.append(err.as_str());
            let end = steps::tail(run.stdout.as_str());
            m.append(end.as_str());
            fail(m.as_str(), None)
        },
        Err(e) => {
            let mut m = "Build step failed (".to_owned();
            m.append(step.as_str());
            m.append("): ");
            m.append(e.as_str());
            fail(m.as_str(), None)
        },
    }
}

/// The command of the build step of number `i`, to be run in the sandbox.
pub fn build_command(r: &DemoRecipe, i: usize, dir: &str) -> (c: String)
    requires
        i < build_count(*r),
    ensures
        c@ == steps::project_step(build_step(*r, i as int), dir@),
        c@ == steps::project_step((r.pre_build@ + r.build_steps@)[i as int]@, dir@),
{
    if i < r.pre_build.len() {
        steps::resolve_project_step(r.pre_build[i].as_str(), dir)
    } else {
        steps::resolve_project_step(r.build_steps[i - r.pre_build.len()].as_str(), dir)
    }
}

fn installing(r: &DemoRecipe, p: u16) -> (o: Outcome)
    ensures
        o@ == says(Phase::Installing(p), installing_text(r.service_name@)),
{
    let mut m = "installing systemd unit ".to_owned();
    m.append(r.service_name.as_str());
    m.append("...");
    say(Phase::Installing(p), m.as_str())
}

fn weigh_port(r: &DemoRecipe, out: &Result<u16, String>) -> (o: Outcome)
    ensures
        o@ == port_step(*r, *out),
{
    match out {
        Ok(p) => if r.searxng {
            go(Phase::Configuring(*p))
        } else {
            installing(r, *p)
        },
        Err(e) => fail(e.as_str(), None),
    }
}

fn weigh_config(r: &DemoRecipe, p: u16, out: &Result<(), String>) -> (o: Outcome)
    ensures
        o@ == configured_step(*r, p, *out),
{
    match out {
        Ok(_) => installing(r, p),
        Err(e) => {
            let mut m = "searxng config failed: ".to_owned();
            m.append(e.as_str());
            fail(m.as_str(), None)
        },
    }
}

fn weigh_install(p: u16, out: &Result<(), String>) -> (o: Outcome)
    ensures
        o@ == installed_step(p, *out),
{
    match out {
        Ok(_) => say(Phase::Starting(p), "starting service..."),
        Err(e) => {
            let mut m = "unit creation failed: ".to_owned();
            m.append(e.as_str());
            fail(m.as_str(), None)
        },
    }
}

fn weigh_start(r: &DemoRecipe, p: u16, out: &Option<bool>) -> (o: Outcome)
    ensures
        o@ == started_step(*r, p, *out),
{
    match out {
        Some(ok) => if *ok {
            go(Phase::Waiting(p))
        } else {
            let mut m = "systemctl start rejected the unit ".to_owned();
            m.append(r.service_name.as_str());
            m.append(" (non-zero exit)");
            fail(m.as_str(), Some(p))
        },
        None => fail("failed to invoke systemctl start", Some(p)),
    }
}

fn weigh_settled(p: u16, out: StartOutcome, logs: &str) -> (o: Outcome)
    ensures
        o@ == settled_step(p, out, logs@),
{
    let cut = steps::short(logs);
    match out {
        StartOutcome::Active => go(Phase::Checking(p)),
        StartOutcome::Failed => {
            let mut m = "Service crashed immediately after start:\n".to_owned();
            m.append(cut.as_str());
            fail(m.as_str(), Some(p))
        },
        StartOutcome::TimeoutWhileActivating => {
            let secs = text::decimal_of(units::START_BUDGET / 1000);
            let mut m = "Service did not become active within ".to_owned();
            m.append(secs.as_str());
            m.append("s:\n");
            m.append(cut.as_str());
            fail(m.as_str(), Some(p))
        },
        StartOutcome::SystemdUnavailable => fail("systemd user manager unavailable", Some(p)),
    }
}

fn weigh_listening(r: &DemoRecipe, p: u16, exposed: bool) -> (o: Outcome)
    ensures
        o@ == listening_step(*r, p, exposed),
{
    if exposed {
        let port = text::decimal_of(p as u64);
        let mut m = "warn: ".to_owned();
        m.append(r.service_name.as_str());
        m.append(" is listening on a non-loopback address (port ");
        m.append(port.as_str());
        m.append(") — anything on your network can reach it. This recipe regression must be fixed: bind the app to 127.0.0.1 like the other services.");
        say(Phase::MarkRegistering(p), m.as_str())
    } else {
        go(Phase::MarkRegistering(p))
    }
}

fn weigh_registered(p: u16, out: &Result<(), String>) -> (o: Outcome)
    ensures
        o@ == registered_step(p, *out),
{
    match out {
        Ok(_) => go(Phase::MarkRegistered(p)),
        Err(e) => {
            let mut m = "registering state: ".to_owned();
            m.append(e.as_str());
            fail(m.as_str(), Some(p))
        },
    }
}

fn weigh_rollback(dir: &str, wiped: bool) -> (o: Outcome)
    ensures
        o@ == rolled_back_step(dir@, wiped),
{
    if wiped {
        go(Phase::Done)
    } else {
        let mut m = "cleanup: could not remove the project tree left behind by this failed deploy: ".to_owned();
        m.append(dir);
        let failed = fail(m.as_str(), None);
        Outcome { next: Phase::Done, lines: failed.lines, errors: failed.errors }
    }
}

fn weigh(r: &DemoRecipe, phase: Phase, ev: &DeployEvent, dir: &str, exiting: bool) -> (o: Outcome)
    requires
        build_count(*r) <= usize::MAX,
    ensures
        o@ == step_of(*r, phase, *ev, dir@, exiting),
{
    match (phase, ev) {
        (Phase::Start, DeployEvent::Begin) => if exiting {
            go(Phase::Done)
        } else {
            say(Phase::Cloning, "cloning repository...")
        },
        (Phase::Cloning, DeployEvent::Cloned(ok)) => weigh_clone(*ok),
        (Phase::Pinning, DeployEvent::Pin(pin)) => weigh_pin(r, pin),
        (Phase::Doctor, DeployEvent::Findings(f)) => weigh_findings(f),
        (Phase::Probing, DeployEvent::Needs(n)) => if *n == 0 {
            go(to_prefetch(r, 0, exiting))
        } else {
            go(Phase::Provisioning)
        },
        (Phase::Provisioning, DeployEvent::Provisioned(out)) => weigh_provision(r, out, exiting),
        (Phase::Prefetching(i), DeployEvent::Prefetched(out)) => if i < r.prefetch_steps.len() {
            weigh_prefetch(r, i, dir, out, exiting)
        } else {
            go(phase)
        },
        (Phase::Seeding, DeployEvent::Seeded(out)) => weigh_seed(r, out, exiting),
        (Phase::Toolchain, DeployEvent::Toolchain(out)) => weigh_toolchain(out),
        (Phase::Modules, DeployEvent::Modules(out)) => weigh_modules(r, out, exiting),
        (Phase::PipEnv, DeployEvent::PipEnv(_)) => go(to_build(r, 0, exiting)),
        (Phase::Building(i), DeployEvent::Built(out)) => if i < r.pre_build.len()
            + r.build_steps.len() {
            weigh_build(r, i, dir, out, exiting)
        } else {
            go(phase)
        },
        (Phase::Stopping, DeployEvent::Stopped) => go(Phase::PickingPort),
        (Phase::PickingPort, DeployEvent::Port(out)) => weigh_port(r, out),
        (Phase::Configuring(p), DeployEvent::Configured(out)) => weigh_config(r, p, out),
        (Phase::Installing(p), DeployEvent::Installed(out)) => weigh_install(p, out),
        (Phase::Starting(p), DeployEvent::Started(out)) => weigh_start(r, p, out),
        (Phase::Waiting(p), DeployEvent::Settled(out, logs)) => weigh_settled(
            p,
            *out,
            logs.as_str(),
        ),
        (Phase::Checking(p), DeployEvent::Listening(exposed)) => weigh_listening(r, p, *exposed),
        (Phase::MarkRegistering(p), DeployEvent::Marked) => go(Phase::Registering(p)),
        (Phase::Registering(p), DeployEvent::Registered(out)) => weigh_registered(p, out),
        (Phase::MarkRegistered(_), DeployEvent::Marked) => go(Phase::Done),
        (Phase::RollingBack(_), DeployEvent::RolledBack(wiped)) => weigh_rollback(dir, *wiped),
        _ => go(phase),
    }
}

// ---------------------------------------------------------------------------
// Rollback
// ---------------------------------------------------------------------------

/// What a rollback removes: every unit of the attempt, and that of the service
/// itself, though it was never reported.
pub open spec fn rolled_back(names: Seq<Seq<char>>, service: Seq<char>) -> Seq<Seq<char>> {
    if names.contains(service) {
        names
    } else {
        names.push(service)
    }
}

/// The units, each with its environment file, that the rollback of a failed
/// deploy removes.
pub fn rollback_failed(result: &HostResult, service: &str) -> (r: Vec<String>)
    ensures
        text::texts(r@) == rolled_back(result@.service_names, service@),
{
    let mut names = text::copy_list(&result.service_names);
    if !text::list_has(&names, service) {
        text::push_text(&mut names, service);
    }
    names
}

// ---------------------------------------------------------------------------
// What a deploy installs and registers
// ---------------------------------------------------------------------------

/// How many ports from the preferred one on are tried.
pub const PORT_ATTEMPTS: u16 = 50;

/// How many log lines of a service that did not come up are reported.
pub const CRASH_LOG_LINES: usize = 20;

/// The unit of a recipe's service, on a port: it runs the start command in the
/// project directory under the recipe's limits, and has no variables of its
/// own. `exec_start` is what [`steps::resolve_start`] gives, and `description`
/// what [`unit_description`] does.
pub fn unit_spec<'a>(
    recipe: &'a DemoRecipe,
    project_dir: &'a str,
    exec_start: &'a str,
    description: &'a str,
    env_file: Option<&'a str>,
) -> (r: UnitSpec<'a>)
    ensures
        r.service_name@ == recipe.service_name@,
        r.working_dir@ == project_dir@,
        r.exec_start@ == exec_start@,
        r.description@ == description@,
        r.env_file == env_file,
        r.extra_env@.len() == 0,
        r.res == recipe.res,
{
    UnitSpec {
        service_name: recipe.service_name.as_str(),
        working_dir: project_dir,
        exec_start,
        description,
        env_file,
        extra_env: &[],
        res: recipe.res,
    }
}

/// What the unit of a recipe's service is described as.
pub fn unit_description(recipe: &DemoRecipe) -> (r: String)
    ensures
        r@ == "demo: "@ + recipe.description@,
{
    let mut out = "demo: ".to_owned();
    out.append(recipe.description.as_str());
    out
}

/// What the registry remembers of a deployed service: where it was cloned from
/// and to, and where it answers.
pub fn registered_entry(recipe: &DemoRecipe, project_dir: &str, url: &str, port: u16) -> (r:
    ServiceEntry)
    ensures
        r.unit_name@ == recipe.service_name@,
        r.project_dir@ == project_dir@,
        r.url@ == url@,
        text::texts(r.urls@) == seq![steps::local_url(port as nat)],
{
    let mut urls = text::no_texts();
    let local = steps::local_url_of(port);
    text::push_text(&mut urls, local.as_str());
    ServiceEntry {
        unit_name: recipe.service_name.clone(),
        project_dir: project_dir.to_owned(),
        url: url.to_owned(),
        urls,
    }
}

// ---------------------------------------------------------------------------
// The deploy
// ---------------------------------------------------------------------------

/// What the caller wants of a deploy besides its result.
#[derive(Debug, Clone, Copy, PartialEq, Eq, Structural)]
pub struct DeployHooks {
    /// Hand the status lines on.
    pub on_status: bool,
}

/// A deploy under way.
#[derive(Debug)]
pub struct Deployment {
    pub phase: Phase,
    pub result: HostResult,
    /// The clone, or where it is to be.
    pub project_dir: String,
    /// The environment of the sandboxed build.
    pub build_env: Vec<(String, String)>,
}

/// A deploy under way, as texts.
#[verifier::ext_equal]
pub struct DeploymentText {
    pub phase: Phase,
    pub result: ResultText,
    pub project_dir: Seq<char>,
    pub build_env: Seq<(Seq<char>, Seq<char>)>,
}

/// The names and values of a list of variables.
pub open spec fn variables(env: Seq<(String, String)>) -> Seq<(Seq<char>, Seq<char>)> {
    env.map_values(|p: (String, String)| (p.0@, p.1@))
}

impl View for Deployment {
    type V = DeploymentText;

    open spec fn view(&self) -> DeploymentText {
        DeploymentText {
            phase: self.phase,
            result: self.result@,
            project_dir: self.project_dir@,
            build_env: variables(self.build_env@),
        }
    }
}

/// A deploy into a directory that has not begun.
pub open spec fn fresh(dir: Seq<char>) -> DeploymentText {
    DeploymentText {
        phase: Phase::Start,
        result: models::nothing(),
        project_dir: dir,
        build_env: Seq::empty(),
    }
}

impl Deployment {
    /// A deploy of a repository into the directory that it is cloned into.
    pub fn new(analysis: &RepoAnalysis, work_dir: Option<&str>, services_dir: &str) -> (r: Self)
        ensures
            r@ == fresh(
                steps::clone_dir(analysis.name@, steps::given(work_dir), services_dir@),
            ),
    {
        let target = steps::clone_repo(analysis, work_dir, services_dir);
        let r = Deployment {
            phase: Phase::Start,
            result: HostResult::new(),
            project_dir: target.dir,
            build_env: Vec::new(),
        };
        assert(r@ =~= fresh(target.dir@));
        r
    }
}

/// The variables that a report adds to the build environment.
pub open spec fn added_env(phase: Phase, ev: DeployEvent) -> Seq<(Seq<char>, Seq<char>)> {
    match (phase, ev) {
        (Phase::Provisioning, DeployEvent::Provisioned(Ok(Some(path)))) => seq![
            ("PATH"@, path@),
        ],
        (Phase::Toolchain, DeployEvent::Toolchain(Ok(env))) => variables(env@),
        (Phase::PipEnv, DeployEvent::PipEnv(env)) => variables(env@),
        _ => Seq::empty(),
    }
}

/// The port of the service that a report completes.
pub open spec fn completes(phase: Phase, ev: DeployEvent) -> Option<u16> {
    match (phase, ev) {
        (Phase::MarkRegistered(p), DeployEvent::Marked) => Some(p),
        _ => None,
    }
}

/// A deploy after a report.
pub open spec fn advanced(
    r: DemoRecipe,
    d: DeploymentText,
    ev: DeployEvent,
    exiting: bool,
) -> DeploymentText {
    let s = step_of(r, d.phase, ev, d.project_dir, exiting);
    DeploymentText {
        phase: s.next,
        result: ResultText {
            service_names: match completes(d.phase, ev) {
                Some(_) => seq![r.service_name@],
                None => d.result.service_names,
            },
            urls: match completes(d.phase, ev) {
                Some(p) => seq![steps::local_url(p as nat)],
                None => d.result.urls,
            },
            errors: d.result.errors + s.errors,
        },
        project_dir: d.project_dir,
        build_env: d.build_env + added_env(d.phase, ev),
    }
}

/// Build, install, and start one curated demo service: weighs the report of
/// the current phase, moves on to the next and gives the lines to show.
/// `exiting` tells whether a graceful exit is in progress when the report is
/// weighed: a step that has not started must then not start.
pub fn deploy_service(
    d: &mut Deployment,
    recipe: &DemoRecipe,
    event: DeployEvent,
    exiting: bool,
    hooks: DeployHooks,
) -> (r: Vec<String>)
    requires
        build_count(*recipe) <= usize::MAX,
    ensures
        final(d)@ == advanced(*recipe, old(d)@, event, exiting),
        text::texts(r@) == (if hooks.on_status {
            step_of(*recipe, old(d).phase, event, old(d).project_dir@, exiting).lines
        } else {
            Seq::empty()
        }),
{
    let ghost was = d@;
    let phase = d.phase;
    let o = weigh(recipe, phase, &event, d.project_dir.as_str(), exiting);
    let ghost step = o@;
    text::push_texts(&mut d.result.errors, &o.errors);
    d.phase = o.next;
    proof {
        assert(was.build_env + Seq::<(Seq<char>, Seq<char>)>::empty() =~= was.build_env);
    }
    match (phase, event) {
        (Phase::Provisioning, DeployEvent::Provisioned(Ok(Some(path)))) => {
            let key = "PATH".to_owned();
            d.build_env.push((key, path));
            assert(variables(d.build_env@) =~= was.build_env + seq![("PATH"@, path@)]);
        },
        (Phase::Toolchain, DeployEvent::Toolchain(Ok(env))) => {
            let mut more = env;
            d.build_env.append(&mut more);
            assert(variables(d.build_env@) =~= was.build_env + variables(env@));
        },
        (Phase::PipEnv, DeployEvent::PipEnv(env)) => {
            let mut more = env;
            d.build_env.append(&mut more);
            assert(variables(d.build_env@) =~= was.build_env + variables(env@));
        },
        (Phase::MarkRegistered(p), DeployEvent::Marked) => {
            let mut names = text::no_texts();
            text::push_text(&mut names, recipe.service_name.as_str());
            d.result.service_names = names;
            let mut urls = text::no_texts();
            let url = steps::local_url_of(p);
            text::push_text(&mut urls, url.as_str());
            d.result.urls = urls;
        },
        _ => {},
    }
    if hooks.on_status {
        o.lines
    } else {
        text::no_texts()
    }
}

// ---------------------------------------------------------------------------
// What holds of every deploy
// ---------------------------------------------------------------------------

/// A deploy into `dir` after a sequence of reports, each with the exit flag it was
/// weighed under.
pub open spec fn history(
    r: DemoRecipe,
    dir: Seq<char>,
    reports: Seq<(DeployEvent, bool)>,
) -> DeploymentText
    decreases reports.len(),
{
    if reports.len() == 0 {
        fresh(dir)
    } else {
        advanced(
            r,
            history(r, dir, reports.drop_last()),
            reports.last().0,
            reports.last().1,
        )
    }
}

/// Did the checkout turn out to be the recipe's commit?
pub open spec fn pin_checked(
    r: DemoRecipe,
    dir: Seq<char>,
    reports: Seq<(DeployEvent, bool)>,
) -> bool
    decreases reports.len(),
{
    reports.len() > 0 && (pin_checked(r, dir, reports.drop_last()) || (history(
        r,
        dir,
        reports.drop_last(),
    ).phase is Pinning && (reports.last().0 matches DeployEvent::Pin(Some(have)) && have@
        == r.commit@)))
}

/// How many build steps have succeeded.
pub open spec fn builds_done(
    r: DemoRecipe,
    dir: Seq<char>,
    reports: Seq<(DeployEvent, bool)>,
) -> nat
    decreases reports.len(),
{
    if reports.len() == 0 {
        0
    } else {
        builds_done(r, dir, reports.drop_last()) + (if history(
            r,
            dir,
            reports.drop_last(),
        ).phase is Building && (reports.last().0 matches DeployEvent::Built(Ok(run))
            && run.success) {
            1nat
        } else {
            0nat
        })
    }
}

/// Did the service become active?
pub open spec fn became_active(
    r: DemoRecipe,
    dir: Seq<char>,
    reports: Seq<(DeployEvent, bool)>,
) -> bool
    decreases reports.len(),
{
    reports.len() > 0 && (became_active(r, dir, reports.drop_last()) || (history(
        r,
        dir,
        reports.drop_last(),
    ).phase is Waiting && (reports.last().0 matches DeployEvent::Settled(out, _) && out
        == StartOutcome::Active)))
}

/// Did the deploy begin, before any exit?
pub open spec fn began(r: DemoRecipe, dir: Seq<char>, reports: Seq<(DeployEvent, bool)>) -> bool
    decreases reports.len(),
{
    reports.len() > 0 && (began(r, dir, reports.drop_last()) || (history(
        r,
        dir,
        reports.drop_last(),
    ).phase is Start && reports.last().0 is Begin && !reports.last().1))
}

/// Was everything that the deploy had made removed again, and is the tree
/// gone?
pub open spec fn rollback(
    r: DemoRecipe,
    dir: Seq<char>,
    reports: Seq<(DeployEvent, bool)>,
) -> Option<bool>
    decreases reports.len(),
{
    if reports.len() == 0 {
        None
    } else {
        match (history(r, dir, reports.drop_last()).phase, reports.last().0) {
            (Phase::RollingBack(_), DeployEvent::RolledBack(gone)) => Some(gone),
            _ => rollback(r, dir, reports.drop_last()),
        }
    }
}

/// The port that was picked.
pub open spec fn picked(
    r: DemoRecipe,
    dir: Seq<char>,
    reports: Seq<(DeployEvent, bool)>,
) -> Option<u16>
    decreases reports.len(),
{
    if reports.len() == 0 {
        None
    } else {
        match (history(r, dir, reports.drop_last()).phase, reports.last().0) {
            (Phase::PickingPort, DeployEvent::Port(Ok(p))) => Some(p),
            _ => picked(r, dir, reports.drop_last()),
        }
    }
}

/// Was the service registered, with success?
pub open spec fn registered(
    r: DemoRecipe,
    dir: Seq<char>,
    reports: Seq<(DeployEvent, bool)>,
) -> bool
    decreases reports.len(),
{
    reports.len() > 0 && (registered(r, dir, reports.drop_last()) || (history(
        r,
        dir,
        reports.drop_last(),
    ).phase is Registering && (reports.last().0 matches DeployEvent::Registered(Ok(_)))))
}

/// The port that a phase works on.
pub open spec fn port_at(p: Phase) -> Option<u16> {
    match p {
        Phase::Configuring(n) => Some(n),
        Phase::Installing(n) => Some(n),
        Phase::Starting(n) => Some(n),
        Phase::Waiting(n) => Some(n),
        Phase::Checking(n) => Some(n),
        Phase::MarkRegistering(n) => Some(n),
        Phase::Registering(n) => Some(n),
        Phase::MarkRegistered(n) => Some(n),
        _ => None,
    }
}

/// Phases between a checked pin and the end of a successful deploy.
pub open spec fn past_pin(p: Phase) -> bool {
    !(p is Start || p is Cloning || p is Pinning || p is RollingBack || p is Done)
}

/// Phases after the last build step.
pub open spec fn past_build(p: Phase) -> bool {
    p is Stopping || p is PickingPort || p is Configuring || p is Installing || p is Starting
        || p is Waiting || past_active(p)
}

/// Phases after the service has become active.
pub open spec fn past_active(p: Phase) -> bool {
    p is Checking || p is MarkRegistering || p is Registering || p is MarkRegistered
}

/// What the reports of a deploy have shown.
struct Seen {
    pinned: bool,
    builds: nat,
    active: bool,
    begun: bool,
    rollback: Option<bool>,
    picked: Option<u16>,
    registered: bool,
}

spec fn seen(r: DemoRecipe, dir: Seq<char>, reports: Seq<(DeployEvent, bool)>) -> Seen {
    Seen {
        pinned: pin_checked(r, dir, reports),
        builds: builds_done(r, dir, reports),
        active: became_active(r, dir, reports),
        begun: began(r, dir, reports),
        rollback: rollback(r, dir, reports),
        picked: picked(r, dir, reports),
        registered: registered(r, dir, reports),
    }
}

/// What has been shown once a phase has got one more report.
spec fn seen_next(r: DemoRecipe, s: Seen, phase: Phase, ev: DeployEvent, exiting: bool) -> Seen {
    match (phase, ev) {
        (Phase::Start, DeployEvent::Begin) => Seen { begun: s.begun || !exiting, ..s },
        (Phase::Pinning, DeployEvent::Pin(Some(have))) => Seen {
            pinned: s.pinned || have@ == r.commit@,
            ..s
        },
        (Phase::Building(_), DeployEvent::Built(Ok(run))) => Seen {
            builds: s.builds + (if run.success {
                1nat
            } else {
                0nat
            }),
            ..s
        },
        (Phase::PickingPort, DeployEvent::Port(Ok(p))) => Seen { picked: Some(p), ..s },
        (Phase::Waiting(_), DeployEvent::Settled(out, _)) => Seen {
            active: s.active || out == StartOutcome::Active,
            ..s
        },
        (Phase::Registering(_), DeployEvent::Registered(Ok(_))) => Seen { registered: true, ..s },
        (Phase::RollingBack(_), DeployEvent::RolledBack(gone)) => Seen {
            rollback: Some(gone),
            ..s
        },
        _ => s,
    }
}

proof fn lemma_seen(r: DemoRecipe, dir: Seq<char>, reports: Seq<(DeployEvent, bool)>)
    requires
        reports.len() > 0,
    ensures
        seen(r, dir, reports) == seen_next(
            r,
            seen(r, dir, reports.drop_last()),
            history(r, dir, reports.drop_last()).phase,
            reports.last().0,
            reports.last().1,
        ),
{
}

/// What holds of a deploy into `dir`, given what its reports have shown.
spec fn sound(r: DemoRecipe, dir: Seq<char>, d: DeploymentText, s: Seen) -> bool {
    &&& past_pin(d.phase) ==> s.pinned && d.result.errors.len() == 0
    &&& past_build(d.phase) ==> s.builds >= build_count(r)
    &&& (d.phase matches Phase::Building(i) ==> i <= s.builds)
    &&& past_active(d.phase) ==> s.active
    &&& (d.phase is Start || d.phase is Cloning || d.phase is Pinning) ==> d.result.errors.len()
        == 0
    &&& (d.result.service_names.len() == 0 <==> d.result.urls.len() == 0)
    &&& d.project_dir == dir
    &&& d.phase is Start ==> !s.begun
    &&& d.phase is Done && s.begun ==> d.result.service_names.len() > 0 || s.rollback is Some
    &&& s.rollback is Some ==> d.phase is Done && d.result.service_names.len() == 0
    &&& s.rollback == Some(false) ==> d.result.errors.len() > 0 && d.result.errors.last()
        == left_behind_text(dir)
    &&& port_at(d.phase) is Some ==> s.picked == port_at(d.phase)
    &&& d.phase is MarkRegistered ==> s.registered
    &&& d.result.service_names.len() > 0 ==> {
        &&& d.phase is Done
        &&& s.pinned
        &&& s.builds >= build_count(r)
        &&& s.active
        &&& s.registered
        &&& s.picked is Some
        &&& d.result.errors.len() == 0
        &&& d.result.service_names == seq![r.service_name@]
        &&& d.result.urls == seq![steps::local_url(s.picked.unwrap() as nat)]
    }
}

/// Phases up to the check of the pin.
spec fn opening(p: Phase) -> bool {
    p is Start || p is Cloning || p is Pinning
}

/// Phases that get ready what the build needs.
spec fn preparing(p: Phase) -> bool {
    p is Doctor || p is Probing || p is Provisioning || p is Prefetching || p is Seeding
        || p is Toolchain || p is Modules || p is PipEnv
}

/// Phases that build the service and put it in its place.
spec fn placing(p: Phase) -> bool {
    p is Building || p is Stopping || p is PickingPort || p is Configuring || p is Installing
}

/// Phases that bring the service up.
spec fn raising(p: Phase) -> bool {
    p is Starting || p is Waiting || past_active(p)
}

#[verifier::spinoff_prover]
proof fn lemma_sound_opening(
    r: DemoRecipe,
    dir: Seq<char>,
    d: DeploymentText,
    s: Seen,
    ev: DeployEvent,
    exiting: bool,
)
    requires
        opening(d.phase),
        sound(r, dir, d, s),
    ensures
        sound(r, dir, advanced(r, d, ev, exiting), seen_next(r, s, d.phase, ev, exiting)),
{
}

#[verifier::spinoff_prover]
proof fn lemma_sound_preparing(
    r: DemoRecipe,
    dir: Seq<char>,
    d: DeploymentText,
    s: Seen,
    ev: DeployEvent,
    exiting: bool,
)
    requires
        preparing(d.phase),
        sound(r, dir, d, s),
    ensures
        sound(r, dir, advanced(r, d, ev, exiting), seen_next(r, s, d.phase, ev, exiting)),
{
}

#[verifier::spinoff_prover]
proof fn lemma_sound_placing(
    r: DemoRecipe,
    dir: Seq<char>,
    d: DeploymentText,
    s: Seen,
    ev: DeployEvent,
    exiting: bool,
)
    requires
        build_count(r) <= usize::MAX,
        placing(d.phase),
        sound(r, dir, d, s),
    ensures
        sound(r, dir, advanced(r, d, ev, exiting), seen_next(r, s, d.phase, ev, exiting)),
{
}

#[verifier::spinoff_prover]
proof fn lemma_sound_raising(
    r: DemoRecipe,
    dir: Seq<char>,
    d: DeploymentText,
    s: Seen,
    ev: DeployEvent,
    exiting: bool,
)
    requires
        raising(d.phase),
        sound(r, dir, d, s),
    ensures
        sound(r, dir, advanced(r, d, ev, exiting), seen_next(r, s, d.phase, ev, exiting)),
{
}

#[verifier::spinoff_prover]
proof fn lemma_sound_closing(
    r: DemoRecipe,
    dir: Seq<char>,
    d: DeploymentText,
    s: Seen,
    ev: DeployEvent,
    exiting: bool,
)
    requires
        d.phase is RollingBack || d.phase is Done,
        sound(r, dir, d, s),
    ensures
        sound(r, dir, advanced(r, d, ev, exiting), seen_next(r, s, d.phase, ev, exiting)),
{
}

proof fn lemma_sound(r: DemoRecipe, dir: Seq<char>, reports: Seq<(DeployEvent, bool)>)
    requires
        build_count(r) <= usize::MAX,
    ensures
        sound(r, dir, history(r, dir, reports), seen(r, dir, reports)),
    decreases reports.len(),
{
    if reports.len() > 0 {
        let before = reports.drop_last();
        lemma_sound(r, dir, before);
        lemma_seen(r, dir, reports);
        let d = history(r, dir, before);
        let s = seen(r, dir, before);
        let (ev, exiting) = reports.last();
        if opening(d.phase) {
            lemma_sound_opening(r, dir, d, s, ev, exiting);
        } else if preparing(d.phase) {
            lemma_sound_preparing(r, dir, d, s, ev, exiting);
        } else if placing(d.phase) {
            lemma_sound_placing(r, dir, d, s, ev, exiting);
        } else if raising(d.phase) {
            lemma_sound_raising(r, dir, d, s, ev, exiting);
        } else {
            lemma_sound_closing(r, dir, d, s, ev, exiting);
        }
    }
}

/// Nothing but the recipe's commit is ever built, installed or started.
pub proof fn law_only_the_pinned_commit_is_built(
    r: DemoRecipe,
    dir: Seq<char>,
    reports: Seq<(DeployEvent, bool)>,
)
    requires
        build_count(r) <= usize::MAX,
    ensures
        past_pin(history(r, dir, reports).phase) ==> pin_checked(r, dir, reports),
{
    lemma_sound(r, dir, reports);
}

/// A deploy that announces a service has checked the pinned commit, run every
/// build step with success and seen the service active, and has no errors to
/// report.
pub proof fn law_deployed_means_built_and_active(
    r: DemoRecipe,
    dir: Seq<char>,
    reports: Seq<(DeployEvent, bool)>,
)
    requires
        build_count(r) <= usize::MAX,
        history(r, dir, reports).result.service_names.len() > 0,
    ensures
        history(r, dir, reports).phase is Done,
        pin_checked(r, dir, reports),
        builds_done(r, dir, reports) >= build_count(r),
        became_active(r, dir, reports),
        history(r, dir, reports).result.errors.len() == 0,
{
    lemma_sound(r, dir, reports);
}

/// No unit is written, started or registered before every build step has
/// succeeded, and no service is registered before it is active.
pub proof fn law_registered_means_active(
    r: DemoRecipe,
    dir: Seq<char>,
    reports: Seq<(DeployEvent, bool)>,
)
    requires
        build_count(r) <= usize::MAX,
    ensures
        past_build(history(r, dir, reports).phase) ==> builds_done(r, dir, reports) >= build_count(
            r,
        ),
        past_active(history(r, dir, reports).phase) ==> became_active(r, dir, reports),
{
    lemma_sound(r, dir, reports);
}

/// A deploy that has begun ends in one of two ways: with a registered service,
/// or after a rollback of the directory it was cloned into. Nothing of a failed
/// attempt is left behind, a failed clone included, unless the last error says
/// so.
pub proof fn law_failure_rolls_back(
    r: DemoRecipe,
    dir: Seq<char>,
    reports: Seq<(DeployEvent, bool)>,
)
    requires
        build_count(r) <= usize::MAX,
        began(r, dir, reports),
        history(r, dir, reports).phase is Done,
        history(r, dir, reports).result.service_names.len() == 0,
    ensures
        history(r, dir, reports).project_dir == dir,
        rollback(r, dir, reports) is Some,
        rollback(r, dir, reports) == Some(true) || history(r, dir, reports).result.errors.last()
            == left_behind_text(dir),
{
    lemma_sound(r, dir, reports);
}

/// The journal entry is marked `Registered` only once the service is.
pub proof fn law_marked_means_registered(
    r: DemoRecipe,
    dir: Seq<char>,
    reports: Seq<(DeployEvent, bool)>,
)
    requires
        build_count(r) <= usize::MAX,
    ensures
        history(r, dir, reports).phase is MarkRegistered ==> registered(r, dir, reports),
        history(r, dir, reports).result.service_names.len() > 0 ==> registered(r, dir, reports),
{
    lemma_sound(r, dir, reports);
}

/// What is announced is the service, at the port that was picked; names and
/// addresses are announced together, or not at all.
pub proof fn law_announced_port_is_the_picked_one(
    r: DemoRecipe,
    dir: Seq<char>,
    reports: Seq<(DeployEvent, bool)>,
)
    requires
        build_count(r) <= usize::MAX,
    ensures
        ({
            let d = history(r, dir, reports).result;
            &&& d.service_names.len() == 0 <==> d.urls.len() == 0
            &&& d.service_names.len() > 0 ==> {
                &&& picked(r, dir, reports) is Some
                &&& d.service_names == seq![r.service_name@]
                &&& d.urls == seq![
                    steps::local_url(picked(r, dir, reports).unwrap() as nat),
                ]
            }
        }),
{
    lemma_sound(r, dir, reports);
}

/// A report of success.
pub open spec fn good(r: DemoRecipe, ev: DeployEvent) -> bool {
    match ev {
        DeployEvent::Cloned(ok) => ok,
        DeployEvent::Pin(pin) => match pin {
            Some(have) => have@ == r.commit@,
            None => false,
        },
        DeployEvent::Findings(f) => forall|i: int| 0 <= i < f@.len() ==> !f@[i].blocking,
        DeployEvent::Provisioned(out) => out is Ok,
        DeployEvent::Prefetched(out) => out is Ok,
        DeployEvent::Seeded(out) => out is Ok,
        DeployEvent::Toolchain(out) => out is Ok,
        DeployEvent::Modules(out) => match out {
            Ok(m) => m.failed@.len() * 2 <= m.total,
            Err(_) => false,
        },
        DeployEvent::Built(out) => match out {
            Ok(run) => run.success,
            Err(_) => false,
        },
        DeployEvent::Port(out) => out is Ok,
        DeployEvent::Configured(out) => out is Ok,
        DeployEvent::Installed(out) => out is Ok,
        DeployEvent::Started(out) => out == Some(true),
        DeployEvent::Settled(out, _) => out == StartOutcome::Active,
        DeployEvent::Registered(out) => out is Ok,
        _ => true,
    }
}

proof fn lemma_no_blockers(f: Seq<Finding>, n: int)
    requires
        0 <= n <= f.len(),
        forall|i: int| 0 <= i < f.len() ==> !f[i].blocking,
    ensures
        blockers(f, n).len() == 0,
    decreases n,
{
    if n > 0 {
        lemma_no_blockers(f, n - 1);
    }
}

proof fn lemma_success(r: DemoRecipe, dir: Seq<char>, reports: Seq<(DeployEvent, bool)>)
    requires
        build_count(r) <= usize::MAX,
        forall|i: int|
            0 <= i < reports.len() ==> good(r, (#[trigger] reports[i]).0) && !reports[i].1,
    ensures
        !(history(r, dir, reports).phase is RollingBack),
        history(r, dir, reports).result.errors.len() == 0,
        history(r, dir, reports).phase is Done ==> history(
            r,
            dir,
            reports,
        ).result.service_names.len() > 0,
    decreases reports.len(),
{
    if reports.len() > 0 {
        let before = reports.drop_last();
        assert forall|i: int| 0 <= i < before.len() implies good(r, (#[trigger] before[i]).0)
            && !before[i].1 by {
            assert(before[i] == reports[i]);
        }
        lemma_success(r, dir, before);
        let d = history(r, dir, before);
        let ev = reports[reports.len() - 1].0;
        assert(good(r, ev));
        if let DeployEvent::Findings(f) = ev {
            lemma_no_blockers(f@, f@.len() as int);
        }
        assert(history(r, dir, reports) == advanced(r, d, ev, false));
    }
}

/// A deploy of which every step succeeds, and which no exit cuts short, is
/// never rolled back and has no errors. Where it ends, the service is
/// announced, at the port that was picked; until then neither a name nor an
/// address is.
pub proof fn law_success_is_announced(
    r: DemoRecipe,
    dir: Seq<char>,
    reports: Seq<(DeployEvent, bool)>,
)
    requires
        build_count(r) <= usize::MAX,
        forall|i: int|
            0 <= i < reports.len() ==> good(r, (#[trigger] reports[i]).0) && !reports[i].1,
    ensures
        !(history(r, dir, reports).phase is RollingBack),
        history(r, dir, reports).result.errors.len() == 0,
        history(r, dir, reports).phase is Done ==> {
            &&& picked(r, dir, reports) is Some
            &&& history(r, dir, reports).result.service_names == seq![r.service_name@]
            &&& history(r, dir, reports).result.urls == seq![
                steps::local_url(picked(r, dir, reports).unwrap() as nat),
            ]
        },
        !(history(r, dir, reports).phase is Done) ==> {
            &&& history(r, dir, reports).result.service_names.len() == 0
            &&& history(r, dir, reports).result.urls.len() == 0
        },
{
    lemma_success(r, dir, reports);
    lemma_sound(r, dir, reports);
}

/// A failed step shows its error and keeps it.
pub proof fn law_failure_is_reported(
    r: DemoRecipe,
    phase: Phase,
    ev: DeployEvent,
    dir: Seq<char>,
    exiting: bool,
)
    requires
        step_of(r, phase, ev, dir, exiting).next is RollingBack,
        !(phase is RollingBack),
        !exiting,
    ensures
        step_of(r, phase, ev, dir, exiting).errors.len() > 0,
{
}

/// Once a graceful exit has begun no new clone, fetch, build or install
/// starts.
pub proof fn law_exiting_starts_nothing(
    r: DemoRecipe,
    phase: Phase,
    ev: DeployEvent,
    dir: Seq<char>,
)
    ensures
        ({
            let next = step_of(r, phase, ev, dir, true).next;
            next == phase || !(next is Cloning || next is Prefetching || next is Building
                || next is Stopping)
        }),
{
}

/// A rollback waits for a port exactly when the unit on it had been told to
/// start.
pub proof fn law_rollback_frees_the_port(
    r: DemoRecipe,
    phase: Phase,
    ev: DeployEvent,
    dir: Seq<char>,
    exiting: bool,
)
    requires
        !(phase is RollingBack),
        step_of(r, phase, ev, dir, exiting).next is RollingBack,
    ensures
        step_of(r, phase, ev, dir, exiting).next == Phase::RollingBack(
            match phase {
                Phase::Starting(p) => Some(p),
                Phase::Waiting(p) => Some(p),
                Phase::Registering(p) => Some(p),
                _ => None,
            },
        ),
{
}

/// How far a phase is from the end.
pub open spec fn remaining(r: DemoRecipe, phase: Phase) -> int {
    let b = build_count(r);
    let p = r.prefetch_steps@.len();
    match phase {
        Phase::Done => 0,
        Phase::RollingBack(_) => 1,
        Phase::MarkRegistered(_) => 2,
        Phase::Registering(_) => 3,
        Phase::MarkRegistering(_) => 4,
        Phase::Checking(_) => 5,
        Phase::Waiting(_) => 6,
        Phase::Starting(_) => 7,
        Phase::Installing(_) => 8,
        Phase::Configuring(_) => 9,
        Phase::PickingPort => 10,
        Phase::Stopping => 11,
        Phase::Building(i) => 12 + b - i,
        Phase::PipEnv => 13 + b,
        Phase::Modules => 14 + b,
        Phase::Toolchain => 15 + b,
        Phase::Seeding => 16 + b,
        Phase::Prefetching(i) => 17 + b + p - i,
        Phase::Provisioning => 18 + b + p,
        Phase::Probing => 19 + b + p,
        Phase::Doctor => 20 + b + p,
        Phase::Pinning => 21 + b + p,
        Phase::Cloning => 22 + b + p,
        Phase::Start => 23 + b + p,
    }
}

/// From a place before the build, a deploy is at most as far from the end as
/// the first phase that may come next.
proof fn lemma_remaining_before(r: DemoRecipe, i: int, exiting: bool)
    requires
        0 <= i,
        build_count(r) <= usize::MAX,
        r.prefetch_steps@.len() <= usize::MAX,
    ensures
        0 <= remaining(r, before_build(r, i, exiting)),
        i <= build_count(r) ==> remaining(r, before_build(r, i, exiting)) <= 12 + build_count(r) - i,
        0 <= remaining(r, before_pip(r, exiting)) <= 13 + build_count(r),
        0 <= remaining(r, before_go(r, exiting)) <= 15 + build_count(r),
        0 <= remaining(r, before_plugins(r, exiting)) <= 16 + build_count(r),
        0 <= remaining(r, before_prefetch(r, i, exiting)),
        i <= r.prefetch_steps@.len() ==> remaining(r, before_prefetch(r, i, exiting)) <= 17
            + build_count(r) + r.prefetch_steps@.len() - i,
{
}

/// Is a phase nearer to the end than another, or the same one?
spec fn forward(r: DemoRecipe, from: Phase, to: Phase) -> bool {
    to == from || 0 <= remaining(r, to) < remaining(r, from)
}

#[verifier::spinoff_prover]
proof fn lemma_forward_preparing(
    r: DemoRecipe,
    phase: Phase,
    ev: DeployEvent,
    dir: Seq<char>,
    exiting: bool,
)
    requires
        build_count(r) <= usize::MAX,
        r.prefetch_steps@.len() <= usize::MAX,
        opening(phase) || preparing(phase),
    ensures
        forward(r, phase, step_of(r, phase, ev, dir, exiting).next),
{
    lemma_remaining_before(r, 0, exiting);
    if let Phase::Prefetching(i) = phase {
        lemma_remaining_before(r, i + 1, exiting);
    }
}

#[verifier::spinoff_prover]
proof fn lemma_forward_placing(
    r: DemoRecipe,
    phase: Phase,
    ev: DeployEvent,
    dir: Seq<char>,
    exiting: bool,
)
    requires
        build_count(r) <= usize::MAX,
        r.prefetch_steps@.len() <= usize::MAX,
        placing(phase),
    ensures
        forward(r, phase, step_of(r, phase, ev, dir, exiting).next),
{
    if let Phase::Building(i) = phase {
        lemma_remaining_before(r, i + 1, exiting);
    }
}

#[verifier::spinoff_prover]
proof fn lemma_forward_closing(
    r: DemoRecipe,
    phase: Phase,
    ev: DeployEvent,
    dir: Seq<char>,
    exiting: bool,
)
    requires
        raising(phase) || phase is RollingBack || phase is Done,
    ensures
        forward(r, phase, step_of(r, phase, ev, dir, exiting).next),
{
}

/// A deploy only moves forward: every report that answers its phase brings it
/// nearer to the end, so a deploy that keeps being answered ends.
pub proof fn law_deploy_moves_forward(
    r: DemoRecipe,
    phase: Phase,
    ev: DeployEvent,
    dir: Seq<char>,
    exiting: bool,
)
    requires
        build_count(r) <= usize::MAX,
        r.prefetch_steps@.len() <= usize::MAX,
    ensures
        step_of(r, phase, ev, dir, exiting).next == phase || 0 <= remaining(
            r,
            step_of(r, phase, ev, dir, exiting).next,
        ) < remaining(r, phase),
{
    if opening(phase) || preparing(phase) {
        lemma_forward_preparing(r, phase, ev, dir, exiting);
    } else if placing(phase) {
        lemma_forward_placing(r, phase, ev, dir, exiting);
    } else {
        lemma_forward_closing(r, phase, ev, dir, exiting);
    }
}

// ---------------------------------------------------------------------------
// What a deploy has done before it goes on
// ---------------------------------------------------------------------------

/// What a deploy has got ready.
pub struct Prepared {
    /// No finding of the tool doctor blocks the build.
    pub checked: bool,
    /// Nothing has to be provisioned, or it was.
    pub tools: bool,
    /// How many prefetch steps have succeeded.
    pub prefetched: nat,
    pub plugins: bool,
    pub toolchain: bool,
    pub modules: bool,
    pub pip: bool,
    pub configured: bool,
    pub installed: bool,
    /// The manager has accepted the start.
    pub started: bool,
    /// The listeners were looked at.
    pub looked: bool,
}

/// What is ready once a phase has got one more report.
pub open spec fn prepared_next(p: Prepared, phase: Phase, ev: DeployEvent) -> Prepared {
    match (phase, ev) {
        (Phase::Doctor, DeployEvent::Findings(f)) => Prepared {
            checked: p.checked || forall|i: int| 0 <= i < f@.len() ==> !(#[trigger] f@[i]).blocking,
            ..p
        },
        (Phase::Probing, DeployEvent::Needs(n)) => Prepared { tools: p.tools || n == 0, ..p },
        (Phase::Provisioning, DeployEvent::Provisioned(Ok(_))) => Prepared { tools: true, ..p },
        (Phase::Prefetching(_), DeployEvent::Prefetched(Ok(_))) => Prepared {
            prefetched: p.prefetched + 1,
            ..p
        },
        (Phase::Seeding, DeployEvent::Seeded(Ok(_))) => Prepared { plugins: true, ..p },
        (Phase::Toolchain, DeployEvent::Toolchain(Ok(_))) => Prepared { toolchain: true, ..p },
        (Phase::Modules, DeployEvent::Modules(Ok(m))) => Prepared {
            modules: p.modules || 2 * m.failed@.len() <= m.total,
            ..p
        },
        (Phase::PipEnv, DeployEvent::PipEnv(_)) => Prepared { pip: true, ..p },
        (Phase::Configuring(_), DeployEvent::Configured(Ok(_))) => Prepared {
            configured: true,
            ..p
        },
        (Phase::Installing(_), DeployEvent::Installed(Ok(_))) => Prepared { installed: true, ..p },
        (Phase::Starting(_), DeployEvent::Started(Some(ok))) => Prepared {
            started: p.started || ok,
            ..p
        },
        (Phase::Checking(_), DeployEvent::Listening(_)) => Prepared { looked: true, ..p },
        _ => p,
    }
}

/// What a deploy has got ready after its reports.
pub open spec fn prepared(
    r: DemoRecipe,
    dir: Seq<char>,
    reports: Seq<(DeployEvent, bool)>,
) -> Prepared
    decreases reports.len(),
{
    if reports.len() == 0 {
        Prepared {
            checked: false,
            tools: false,
            prefetched: 0,
            plugins: false,
            toolchain: false,
            modules: false,
            pip: false,
            configured: false,
            installed: false,
            started: false,
            looked: false,
        }
    } else {
        prepared_next(
            prepared(r, dir, reports.drop_last()),
            history(r, dir, reports.drop_last()).phase,
            reports.last().0,
        )
    }
}

/// Is everything ready that the recipe's build needs?
pub open spec fn build_ready(r: DemoRecipe, p: Prepared) -> bool {
    &&& p.checked
    &&& p.tools
    &&& p.prefetched >= r.prefetch_steps@.len()
    &&& r.plugins > 0 ==> p.plugins
    &&& r.language@ == "Go"@ ==> p.toolchain && p.modules
    &&& r.language@ == "Python"@ ==> p.pip
}

/// Is everything ready that a registration needs?
pub open spec fn service_ready(r: DemoRecipe, p: Prepared) -> bool {
    &&& build_ready(r, p)
    &&& r.searxng ==> p.configured
    &&& p.installed
    &&& p.started
    &&& p.looked
}

/// What is ready in a phase.
spec fn on_time(r: DemoRecipe, phase: Phase, p: Prepared) -> bool {
    match phase {
        Phase::Probing => p.checked,
        Phase::Provisioning => p.checked,
        Phase::Prefetching(i) => p.checked && p.tools && p.prefetched >= i,
        Phase::Seeding => p.checked && p.tools && p.prefetched >= r.prefetch_steps@.len(),
        Phase::Toolchain => p.checked && p.tools && p.prefetched >= r.prefetch_steps@.len() && (
        r.plugins > 0 ==> p.plugins),
        Phase::Modules => p.checked && p.tools && p.prefetched >= r.prefetch_steps@.len() && (
        r.plugins > 0 ==> p.plugins) && p.toolchain,
        Phase::PipEnv => p.checked && p.tools && p.prefetched >= r.prefetch_steps@.len() && (
        r.plugins > 0 ==> p.plugins) && (r.language@ == "Go"@ ==> p.toolchain && p.modules),
        Phase::Building(_) => build_ready(r, p),
        Phase::Stopping => build_ready(r, p),
        Phase::PickingPort => build_ready(r, p),
        Phase::Configuring(_) => build_ready(r, p),
        Phase::Installing(_) => build_ready(r, p) && (r.searxng ==> p.configured),
        Phase::Starting(_) => build_ready(r, p) && (r.searxng ==> p.configured) && p.installed,
        Phase::Waiting(_) => build_ready(r, p) && (r.searxng ==> p.configured) && p.installed
            && p.started,
        Phase::Checking(_) => build_ready(r, p) && (r.searxng ==> p.configured) && p.installed
            && p.started,
        Phase::MarkRegistering(_) => service_ready(r, p),
        Phase::Registering(_) => service_ready(r, p),
        Phase::MarkRegistered(_) => service_ready(r, p),
        _ => true,
    }
}

proof fn lemma_no_blocking(f: Seq<Finding>, n: int)
    requires
        0 <= n <= f.len(),
        blockers(f, n).len() == 0,
    ensures
        forall|i: int| 0 <= i < n ==> !(#[trigger] f[i]).blocking,
    decreases n,
{
    if n > 0 {
        lemma_no_blocking(f, n - 1);
    }
}

#[verifier::spinoff_prover]
proof fn lemma_on_time_preparing(
    r: DemoRecipe,
    phase: Phase,
    p: Prepared,
    ev: DeployEvent,
    dir: Seq<char>,
    exiting: bool,
)
    requires
        opening(phase) || preparing(phase),
        on_time(r, phase, p),
        r.prefetch_steps@.len() <= usize::MAX,
    ensures
        on_time(r, step_of(r, phase, ev, dir, exiting).next, prepared_next(p, phase, ev)),
{
    if let DeployEvent::Findings(f) = ev {
        if blockers(f@, f@.len() as int).len() == 0 {
            lemma_no_blocking(f@, f@.len() as int);
        }
    }
}

#[verifier::spinoff_prover]
proof fn lemma_on_time_placing(
    r: DemoRecipe,
    phase: Phase,
    p: Prepared,
    ev: DeployEvent,
    dir: Seq<char>,
    exiting: bool,
)
    requires
        placing(phase),
        on_time(r, phase, p),
    ensures
        on_time(r, step_of(r, phase, ev, dir, exiting).next, prepared_next(p, phase, ev)),
{
}

#[verifier::spinoff_prover]
proof fn lemma_on_time_raising(
    r: DemoRecipe,
    phase: Phase,
    p: Prepared,
    ev: DeployEvent,
    dir: Seq<char>,
    exiting: bool,
)
    requires
        raising(phase) || phase is RollingBack || phase is Done,
        on_time(r, phase, p),
    ensures
        on_time(r, step_of(r, phase, ev, dir, exiting).next, prepared_next(p, phase, ev)),
{
}

proof fn lemma_on_time(r: DemoRecipe, dir: Seq<char>, reports: Seq<(DeployEvent, bool)>)
    requires
        build_count(r) <= usize::MAX,
        r.prefetch_steps@.len() <= usize::MAX,
    ensures
        on_time(r, history(r, dir, reports).phase, prepared(r, dir, reports)),
        history(r, dir, reports).result.service_names.len() > 0 ==> service_ready(
            r,
            prepared(r, dir, reports),
        ),
    decreases reports.len(),
{
    if reports.len() > 0 {
        let before = reports.drop_last();
        lemma_on_time(r, dir, before);
        lemma_sound(r, dir, before);
        let d = history(r, dir, before);
        let p = prepared(r, dir, before);
        let (ev, exiting) = reports.last();
        assert(history(r, dir, reports) == advanced(r, d, ev, exiting));
        if opening(d.phase) || preparing(d.phase) {
            lemma_on_time_preparing(r, d.phase, p, ev, d.project_dir, exiting);
        } else if placing(d.phase) {
            lemma_on_time_placing(r, d.phase, p, ev, d.project_dir, exiting);
        } else {
            lemma_on_time_raising(r, d.phase, p, ev, d.project_dir, exiting);
        }
    }
}

/// Nothing is built before everything is ready that the recipe needs: no finding
/// blocks it, the tools are there, every prefetch step has succeeded, the plugins
/// are seeded, and so is the toolchain with its modules, or pip, by the recipe's
/// language.
pub proof fn law_nothing_is_built_unprepared(
    r: DemoRecipe,
    dir: Seq<char>,
    reports: Seq<(DeployEvent, bool)>,
)
    requires
        build_count(r) <= usize::MAX,
        r.prefetch_steps@.len() <= usize::MAX,
    ensures
        history(r, dir, reports).phase is Building ==> build_ready(r, prepared(r, dir, reports)),
        past_build(history(r, dir, reports).phase) ==> build_ready(r, prepared(r, dir, reports)),
{
    lemma_on_time(r, dir, reports);
}

/// A service is registered, and announced, only after its settings were patched
/// where it has any, its unit written, its start accepted and its listeners
/// looked at.
pub proof fn law_no_service_is_announced_unprepared(
    r: DemoRecipe,
    dir: Seq<char>,
    reports: Seq<(DeployEvent, bool)>,
)
    requires
        build_count(r) <= usize::MAX,
        r.prefetch_steps@.len() <= usize::MAX,
    ensures
        history(r, dir, reports).phase is Registering ==> service_ready(
            r,
            prepared(r, dir, reports),
        ),
        history(r, dir, reports).result.service_names.len() > 0 ==> service_ready(
            r,
            prepared(r, dir, reports),
        ),
{
    lemma_on_time(r, dir, reports);
}

/// The build steps of a recipe are its pre-build steps and then its build steps,
/// each list in its own order.
pub proof fn law_builds_run_in_listed_order(r: DemoRecipe, i: int)
    requires
        0 <= i < r.pre_build@.len() + r.build_steps@.len(),
    ensures
        build_count(r) == r.pre_build@.len() + r.build_steps@.len(),
        build_step(r, i) == (r.pre_build@ + r.build_steps@)[i]@,
{
}

/// One build step follows the other: a step that succeeds leads to the next one,
/// and the last one to the installation. The same goes for prefetch steps.
pub proof fn law_steps_run_one_by_one(
    r: DemoRecipe,
    i: usize,
    run: BuildRun,
    dir: Seq<char>,
)
    requires
        r.pre_build@.len() + r.build_steps@.len() <= usize::MAX,
        r.prefetch_steps@.len() <= usize::MAX,
        run.success,
    ensures
        i + 1 < r.pre_build@.len() + r.build_steps@.len() ==> step_of(
            r,
            Phase::Building(i),
            DeployEvent::Built(Ok(run)),
            dir,
            false,
        ).next == Phase::Building((i + 1) as usize),
        i + 1 == r.pre_build@.len() + r.build_steps@.len() ==> step_of(
            r,
            Phase::Building(i),
            DeployEvent::Built(Ok(run)),
            dir,
            false,
        ).next == Phase::Stopping,
        i + 1 < r.prefetch_steps@.len() ==> step_of(
            r,
            Phase::Prefetching(i),
            DeployEvent::Prefetched(Ok(())),
            dir,
            false,
        ).next == Phase::Prefetching((i + 1) as usize),
{
}

/// A deploy that is not cut short begins with the first prefetch step and the
/// first build step: none is skipped.
pub proof fn law_no_step_is_skipped(
    r: DemoRecipe,
    phase: Phase,
    ev: DeployEvent,
    dir: Seq<char>,
    exiting: bool,
    i: usize,
)
    requires
        r.pre_build@.len() + r.build_steps@.len() <= usize::MAX,
        r.prefetch_steps@.len() <= usize::MAX,
    ensures
        step_of(r, phase, ev, dir, exiting).next == Phase::Building(i) ==> phase
            == Phase::Building(i) || i == 0 || phase == Phase::Building((i - 1) as usize),
        step_of(r, phase, ev, dir, exiting).next == Phase::Prefetching(i) ==> phase
            == Phase::Prefetching(i) || i == 0 || phase == Phase::Prefetching((i - 1) as usize),
        step_of(r, phase, ev, dir, exiting).next == Phase::Stopping && !(phase is Stopping) ==> (
        phase matches Phase::Building(k) && k + 1 == r.pre_build@.len() + r.build_steps@.len())
            || r.pre_build@.len() + r.build_steps@.len() == 0,
{
}

/// A build sees the search path of the provisioned tools, and the variables of
/// the toolchain and of pip; nothing that it was given is taken away again.
pub proof fn law_build_environment(
    r: DemoRecipe,
    d: DeploymentText,
    ev: DeployEvent,
    exiting: bool,
    path: String,
    env: Vec<(String, String)>,
)
    ensures
        d.build_env.is_prefix_of(advanced(r, d, ev, exiting).build_env),
        d.phase is Provisioning && ev == DeployEvent::Provisioned(Ok(Some(path))) ==> advanced(
            r,
            d,
            ev,
            exiting,
        ).build_env.last() == ("PATH"@, path@),
        (d.phase is Toolchain && ev == DeployEvent::Toolchain(Ok(env))) || (d.phase is PipEnv && ev
            == DeployEvent::PipEnv(env)) ==> forall|i: int|
            0 <= i < env@.len() ==> advanced(r, d, ev, exiting).build_env.contains(
                ((#[trigger] env@[i]).0@, env@[i].1@),
            ),
{
    let after = advanced(r, d, ev, exiting).build_env;
    assert(d.build_env =~= after.subrange(0, d.build_env.len() as int));
    if (d.phase is Toolchain && ev == DeployEvent::Toolchain(Ok(env))) || (d.phase is PipEnv && ev
        == DeployEvent::PipEnv(env)) {
        assert forall|i: int| 0 <= i < env@.len() implies after.contains(
            ((#[trigger] env@[i]).0@, env@[i].1@),
        ) by {
            assert(after[d.build_env.len() + i] == (env@[i].0@, env@[i].1@));
        }
    }
}

/// The report that a phase waits for, where it is a failure with a cause.
pub open spec fn cause(phase: Phase, ev: DeployEvent) -> Option<Seq<char>> {
    match (phase, ev) {
        (Phase::Provisioning, DeployEvent::Provisioned(Err(e))) => Some(e@),
        (Phase::Seeding, DeployEvent::Seeded(Err(e))) => Some(e@),
        (Phase::Toolchain, DeployEvent::Toolchain(Err(e))) => Some(e@),
        (Phase::Modules, DeployEvent::Modules(Err(e))) => Some(e@),
        (Phase::PickingPort, DeployEvent::Port(Err(e))) => Some(e@),
        (Phase::Configuring(_), DeployEvent::Configured(Err(e))) => Some(e@),
        (Phase::Installing(_), DeployEvent::Installed(Err(e))) => Some(e@),
        (Phase::Registering(_), DeployEvent::Registered(Err(e))) => Some(e@),
        _ => None,
    }
}

/// A failure ends the deploy, and its one error names the cause; the screen shows
/// the same error, marked.
#[verifier::spinoff_prover]
pub proof fn law_failure_names_its_cause(
    r: DemoRecipe,
    phase: Phase,
    ev: DeployEvent,
    dir: Seq<char>,
    exiting: bool,
)
    requires
        cause(phase, ev) is Some,
    ensures
        ({
            let s = step_of(r, phase, ev, dir, exiting);
            &&& s.next is RollingBack
            &&& s.errors.len() == 1
            &&& exists|a: Seq<char>, b: Seq<char>|
                s.errors[0] == #[trigger] (a + cause(phase, ev).unwrap() + b)
            &&& s.lines == seq!["! "@ + s.errors[0]]
        }),
{
    let e = cause(phase, ev).unwrap();
    let none = Seq::<char>::empty();
    let error = step_of(r, phase, ev, dir, exiting).errors[0];
    match ev {
        DeployEvent::Provisioned(_) => {
            assert(error == "Build-tool provisioning failed: "@ + e
                + "\nThe build sandbox has PrivateNetwork=yes; the pinned tools must be provisioned on the host."@);
        },
        DeployEvent::Seeded(_) => {
            assert(error == "Pinned paraglide plugin seed failed: "@ + e
                + "\nThe build sandbox has PrivateNetwork=yes; the plugins must be fetched and verified on the host. Refusing to build against unverified plugin bytes."@);
        },
        DeployEvent::Toolchain(_) => {
            assert(error == "Go toolchain seed failed: "@ + e
                + "\nThe build sandbox has PrivateNetwork=yes; the toolchain must be pre-seeded on the host."@);
        },
        DeployEvent::Modules(_) => {
            assert(error == "Go module cache seed failed: "@ + e
                + "\nThe build sandbox has PrivateNetwork=yes; modules must be fully pre-seeded on the host."@);
        },
        DeployEvent::Port(_) => {
            assert(error =~= none + e + none);
        },
        DeployEvent::Configured(_) => {
            assert(error =~= "searxng config failed: "@ + e + none);
        },
        DeployEvent::Installed(_) => {
            assert(error =~= "unit creation failed: "@ + e + none);
        },
        _ => {
            assert(error =~= "registering state: "@ + e + none);
        },
    }
}

/// A build step that fails is named in the error, with the beginning of what it
/// complained of and the end of what it printed.
pub proof fn law_failed_build_is_explained(
    r: DemoRecipe,
    i: usize,
    run: BuildRun,
    dir: Seq<char>,
    exiting: bool,
)
    requires
        i < r.pre_build@.len() + r.build_steps@.len(),
        !run.success,
    ensures
        ({
            let s = step_of(r, Phase::Building(i), DeployEvent::Built(Ok(run)), dir, exiting);
            let command = steps::project_step((r.pre_build@ + r.build_steps@)[i as int]@, dir);
            &&& s.next == Phase::RollingBack(None)
            &&& s.errors == seq![
                "Build step failed ("@ + command + "):\n"@ + text::first_chars(run.stderr@, 300)
                    + steps::tail_text(run.stdout@),
            ]
            &&& s.lines == seq!["! "@ + s.errors[0]]
        }),
{
    law_builds_run_in_listed_order(r, i as int);
}

/// Every finding is shown, in order; the blocking ones are marked, and are the
/// errors of the deploy. The deploy goes on exactly where there are none of them.
pub proof fn law_findings_are_shown_and_weighed(f: Vec<Finding>, r: DemoRecipe, dir: Seq<char>)
    ensures
        ({
            let s = step_of(r, Phase::Doctor, DeployEvent::Findings(f), dir, false);
            &&& s.lines.len() >= f@.len()
            &&& forall|i: int|
                0 <= i < f@.len() ==> #[trigger] s.lines[i] == if f@[i].blocking {
                    "! "@ + f@[i].text@
                } else {
                    f@[i].text@
                }
            &&& forall|e: Seq<char>| #[trigger]
                s.errors.contains(e) <==> exists|i: int|
                    0 <= i < f@.len() && (#[trigger] f@[i]).blocking && f@[i].text@ == e
            &&& s.next == (if exists|i: int| 0 <= i < f@.len() && (#[trigger] f@[i]).blocking {
                Phase::RollingBack(None)
            } else {
                Phase::Probing
            })
        }),
{
    let n = f@.len() as int;
    lemma_finding_lines(f@, n);
    lemma_blockers(f@, n);
    let s = step_of(r, Phase::Doctor, DeployEvent::Findings(f), dir, false);
    let shown = finding_lines(f@, n);
    assert forall|i: int| 0 <= i < f@.len() implies #[trigger] s.lines[i] == if f@[i].blocking {
        "! "@ + f@[i].text@
    } else {
        f@[i].text@
    } by {
        assert(s.lines[i] == shown[i]);
    }
    if blockers(f@, n).len() == 0 {
        lemma_no_blocking(f@, n);
    } else {
        assert(blockers(f@, n).contains(blockers(f@, n)[0]));
    }
}

proof fn lemma_finding_lines(f: Seq<Finding>, n: int)
    requires
        0 <= n <= f.len(),
    ensures
        finding_lines(f, n).len() == n,
        forall|i: int|
            0 <= i < n ==> #[trigger] finding_lines(f, n)[i] == if f[i].blocking {
                "! "@ + f[i].text@
            } else {
                f[i].text@
            },
    decreases n,
{
    if n > 0 {
        lemma_finding_lines(f, n - 1);
    }
}

proof fn lemma_blockers(f: Seq<Finding>, n: int)
    requires
        0 <= n <= f.len(),
    ensures
        forall|e: Seq<char>| #[trigger]
            blockers(f, n).contains(e) <==> exists|i: int|
                0 <= i < n && (#[trigger] f[i]).blocking && f[i].text@ == e,
    decreases n,
{
    if n > 0 {
        lemma_blockers(f, n - 1);
        let before = blockers(f, n - 1);
        let all = blockers(f, n);
        assert forall|e: Seq<char>| #[trigger] all.contains(e) <==> exists|i: int|
            0 <= i < n && (#[trigger] f[i]).blocking && f[i].text@ == e by {
            if all.contains(e) {
                let k = choose|k: int| 0 <= k < all.len() && all[k] == e;
                if k < before.len() {
                    assert(before[k] == e);
                    assert(before.contains(e));
                } else {
                    assert(f[n - 1].blocking && f[n - 1].text@ == e);
                }
            }
            if exists|i: int| 0 <= i < n && (#[trigger] f[i]).blocking && f[i].text@ == e {
                let i = choose|i: int| 0 <= i < n && (#[trigger] f[i]).blocking && f[i].text@ == e;
                if i < n - 1 {
                    assert(before.contains(e));
                    let k = choose|k: int| 0 <= k < before.len() && before[k] == e;
                    assert(all[k] == e);
                } else {
                    assert(all[all.len() - 1] == e);
                }
            }
        }
    }
}

/// A service that the network can reach is warned of, and deployed all the same;
/// no other one is warned of.
pub proof fn law_exposed_service_is_warned_of(
    r: DemoRecipe,
    p: u16,
    exposed: bool,
    dir: Seq<char>,
    exiting: bool,
)
    ensures
        ({
            let s = step_of(r, Phase::Checking(p), DeployEvent::Listening(exposed), dir, exiting);
            &&& s.next == Phase::MarkRegistering(p)
            &&& s.lines.len() > 0 <==> exposed
            &&& exposed ==> "warn: "@.is_prefix_of(s.lines[0])
        }),
{
    let t = exposed_text(r.service_name@, p as nat);
    assert("warn: "@ =~= t.subrange(0, "warn: "@.len() as int));
}

/// A rollback removes every unit of the attempt, and the service's own, and no
/// other.
pub proof fn law_rollback_removes_every_unit(
    names: Seq<Seq<char>>,
    service: Seq<char>,
    name: Seq<char>,
)
    ensures
        rolled_back(names, service).contains(name) <==> names.contains(name) || name == service,
{
    let all = rolled_back(names, service);
    if names.contains(name) {
        let k = choose|k: int| 0 <= k < names.len() && names[k] == name;
        assert(all[k] == name);
    }
    if !names.contains(service) {
        assert(all[names.len() as int] == service);
        if all.contains(name) {
            let k = choose|k: int| 0 <= k < all.len() && all[k] == name;
            if k < names.len() {
                assert(names[k] == name);
            }
        }
    }
}

/// A clone leads to the check of its commit, and only the recipe's commit on to the
/// tool doctor; the line that refuses another one names it.
pub proof fn law_clone_and_pin(r: DemoRecipe, have: String, dir: Seq<char>, exiting: bool)
    ensures
        step_of(r, Phase::Cloning, DeployEvent::Cloned(true), dir, exiting).next == Phase::Pinning,
        ({
            let s = step_of(r, Phase::Cloning, DeployEvent::Cloned(false), dir, exiting);
            s.next == Phase::RollingBack(None) && s.errors.len() == 1
        }),
        ({
            let s = step_of(r, Phase::Pinning, DeployEvent::Pin(Some(have)), dir, exiting);
            &&& have@ == r.commit@ <==> s.next == Phase::Doctor
            &&& have@ == r.commit@ ==> s.lines == seq!["build..."@] && s.errors.len() == 0
            &&& have@ != r.commit@ ==> s.next == Phase::RollingBack(None) && s.errors.len() == 1
                && ("checkout is pinned to "@ + have@).is_prefix_of(s.errors[0])
        }),
        ({
            let s = step_of(r, Phase::Pinning, DeployEvent::Pin(None), dir, exiting);
            &&& s.next == Phase::RollingBack(None)
            &&& s.errors.len() == 1
            &&& ("checkout carries no pin marker, recipe pins "@ + r.commit@).is_prefix_of(
                s.errors[0],
            )
        }),
{
    let wrong = wrong_pin_text(have@, r.commit@);
    let start = "checkout is pinned to "@ + have@;
    assert(start =~= wrong.subrange(0, start.len() as int));
    let none = no_pin_text(r.commit@);
    let begin = "checkout carries no pin marker, recipe pins "@ + r.commit@;
    assert(begin =~= none.subrange(0, begin.len() as int));
}

/// A deploy that does not end on a shutdown begins with the clone; tools are
/// provisioned exactly where some are needed.
pub proof fn law_beginning_of_a_deploy(r: DemoRecipe, n: usize, dir: Seq<char>)
    ensures
        ({
            let s = step_of(r, Phase::Start, DeployEvent::Begin, dir, false);
            s.next == Phase::Cloning && s.lines == seq!["cloning repository..."@]
        }),
        step_of(r, Phase::Start, DeployEvent::Begin, dir, true).next == Phase::Done,
        step_of(r, Phase::Probing, DeployEvent::Needs(n), dir, false).next is Provisioning <==> n
            > 0,
{
}

/// What follows on the prefetch steps depends on the recipe: plugins are seeded where
/// it has some, the toolchain and the modules for Go, the wheelhouse for Python, and
/// then the builds run.
pub proof fn law_order_of_the_preparations(
    r: DemoRecipe,
    env: Vec<(String, String)>,
    path: Option<String>,
    m: ModuleSeed,
    dir: Seq<char>,
)
    requires
        m.failed@.len() == 0,
        r.pre_build@.len() + r.build_steps@.len() > 0,
    ensures
        ({
            let ready = step_of(r, Phase::Provisioning, DeployEvent::Provisioned(Ok(path)), dir, false).next;
            let seeded = step_of(r, Phase::Seeding, DeployEvent::Seeded(Ok(())), dir, false).next;
            let modules = step_of(r, Phase::Modules, DeployEvent::Modules(Ok(m)), dir, false).next;
            &&& r.prefetch_steps@.len() > 0 ==> ready == Phase::Prefetching(0)
            &&& r.prefetch_steps@.len() == 0 && r.plugins > 0 ==> ready == Phase::Seeding
            &&& r.prefetch_steps@.len() == 0 && r.plugins == 0 ==> ready == seeded
            &&& r.language@ == "Go"@ ==> seeded == Phase::Toolchain
            &&& r.language@ == "Python"@ ==> seeded == Phase::PipEnv
            &&& r.language@ != "Go"@ && r.language@ != "Python"@ ==> seeded == Phase::Building(0)
            &&& step_of(r, Phase::Toolchain, DeployEvent::Toolchain(Ok(env)), dir, false).next
                == Phase::Modules
            &&& r.language@ != "Python"@ ==> modules == Phase::Building(0)
            &&& step_of(r, Phase::PipEnv, DeployEvent::PipEnv(env), dir, false).next
                == Phase::Building(0)
        }),
{
    reveal_strlit("Go");
    reveal_strlit("Python");
    assert("Go"@.len() != "Python"@.len());
}

/// More failed modules than half of them end the deploy; fewer are told of, and the
/// deploy goes on. The first that failed is named either way.
#[verifier::spinoff_prover]
pub proof fn law_half_of_the_modules_must_be_there(
    r: DemoRecipe,
    m: ModuleSeed,
    dir: Seq<char>,
    exiting: bool,
)
    ensures
        ({
            let s = step_of(r, Phase::Modules, DeployEvent::Modules(Ok(m)), dir, exiting);
            let failed = m.failed@.len();
            &&& failed > 0 && failed > m.total - failed <==> s.errors.len() > 0
            &&& s.errors.len() > 0 ==> s.next == Phase::RollingBack(None)
            &&& s.errors.len() > 0 ==> text::holds(
                s.errors[0],
                text::decimal(failed) + " of "@ + text::decimal(m.total as nat),
            ) && text::holds(s.errors[0], m.failed@[0]@)
            &&& failed == 0 ==> s.lines.len() == 1 && text::holds(
                s.lines[0],
                text::decimal(m.ready as nat),
            )
            &&& failed > 0 && s.errors.len() == 0 ==> s.lines.len() == 2 && m.failed@[0]@.is_suffix_of(
                s.lines[0],
            )
            &&& s.errors.len() == 0 && !exiting && r.language@ != "Python"@ && r.pre_build@.len()
                + r.build_steps@.len() > 0 ==> s.next == Phase::Building(0)
        }),
{
    let failed = m.failed@.len();
    let total = m.total as nat;
    if failed == 0 {
        let t = modules_ready_text(m.ready as nat);
        text::law_parts(
            t,
            "build: seeded Go module cache ("@,
            " module(s) ready)"@,
            text::decimal(m.ready as nat),
        );
    } else {
        let first = m.failed@[0]@;
        let counted = text::decimal(failed) + " of "@ + text::decimal(total);
        let dead = modules_dead_text(failed, total, first);
        let a = "Go module cache seed failed: "@;
        let b = " module(s) failed; first: "@;
        let c = "\nThe build sandbox has PrivateNetwork=yes; modules must be fully pre-seeded on the host."@;
        assert(dead =~= a + counted + (b + first + c));
        text::law_parts(dead, a, b + first + c, counted);
        assert(dead =~= a + counted + b + first + c);
        text::law_parts(dead, a + counted + b, c, first);
        let part = modules_partial_text(failed, total, first);
        assert(first =~= part.subrange(part.len() - first.len(), part.len() as int));
    }
}

/// The port that was found is configured, where the service is SearXNG, then installed,
/// started, waited for and checked: always that port.
pub proof fn law_port_goes_through(
    r: DemoRecipe,
    p: u16,
    logs: String,
    dir: Seq<char>,
    exiting: bool,
)
    ensures
        step_of(r, Phase::Stopping, DeployEvent::Stopped, dir, exiting).next == Phase::PickingPort,
        step_of(r, Phase::PickingPort, DeployEvent::Port(Ok(p)), dir, exiting).next == if r.searxng {
            Phase::Configuring(p)
        } else {
            Phase::Installing(p)
        },
        step_of(r, Phase::Configuring(p), DeployEvent::Configured(Ok(())), dir, exiting).next
            == Phase::Installing(p),
        step_of(r, Phase::Installing(p), DeployEvent::Installed(Ok(())), dir, exiting).next
            == Phase::Starting(p),
        step_of(r, Phase::Starting(p), DeployEvent::Started(Some(true)), dir, exiting).next
            == Phase::Waiting(p),
        step_of(
            r,
            Phase::Waiting(p),
            DeployEvent::Settled(StartOutcome::Active, logs),
            dir,
            exiting,
        ).next == Phase::Checking(p),
        step_of(r, Phase::MarkRegistering(p), DeployEvent::Marked, dir, exiting).next
            == Phase::Registering(p),
        step_of(r, Phase::Registering(p), DeployEvent::Registered(Ok(())), dir, exiting).next
            == Phase::MarkRegistered(p),
        step_of(r, Phase::MarkRegistered(p), DeployEvent::Marked, dir, exiting).next == Phase::Done,
{
}

/// A service that does not come up is rolled back, and its port waited for; what it
/// logged stands in the error.
pub proof fn law_failed_start_is_rolled_back(
    r: DemoRecipe,
    p: u16,
    out: StartOutcome,
    logs: String,
    dir: Seq<char>,
    exiting: bool,
)
    requires
        out != StartOutcome::Active,
    ensures
        ({
            let s = step_of(r, Phase::Waiting(p), DeployEvent::Settled(out, logs), dir, exiting);
            &&& s.next == Phase::RollingBack(Some(p))
            &&& s.errors.len() == 1
            &&& out is Failed || out is TimeoutWhileActivating ==> text::first_chars(
                logs@,
                300,
            ).is_suffix_of(s.errors[0])
            &&& out is Failed <==> "Service crashed immediately after start:\n"@.is_prefix_of(
                s.errors[0],
            )
        }),
        ({
            let s = step_of(r, Phase::Starting(p), DeployEvent::Started(Some(false)), dir, exiting);
            &&& s.next == Phase::RollingBack(Some(p))
            &&& s.errors.len() == 1
            &&& text::holds(s.errors[0], r.service_name@)
        }),
        step_of(r, Phase::Starting(p), DeployEvent::Started(None), dir, exiting).next
            == Phase::RollingBack(Some(p)),
{
    let short = text::first_chars(logs@, 300);
    let crash = crashed_text(logs@);
    let head = "Service crashed immediately after start:\n"@;
    assert(head =~= crash.subrange(0, head.len() as int));
    assert(short =~= crash.subrange(crash.len() - short.len(), crash.len() as int));
    let late = timeout_text(logs@);
    assert(short =~= late.subrange(late.len() - short.len(), late.len() as int));
    let gone = "systemd user manager unavailable"@;
    assert(!head.is_prefix_of(late) && !head.is_prefix_of(gone)) by {
        reveal_strlit("Service crashed immediately after start:\n");
        reveal_strlit("Service did not become active within ");
        reveal_strlit("systemd user manager unavailable");
        assert(late[8] == 'd');
        assert(head[8] == 'c');
        assert(gone[0] != head[0]);
    }
    let rejected = start_rejected_text(r.service_name@);
    text::law_parts(
        rejected,
        "systemctl start rejected the unit "@,
        " (non-zero exit)"@,
        r.service_name@,
    );
}

/// A rollback ends the deploy. A tree that could not be removed is told of by its
/// directory.
pub proof fn law_rollback_ends_the_deploy(
    r: DemoRecipe,
    port: Option<u16>,
    wiped: bool,
    dir: Seq<char>,
    exiting: bool,
)
    ensures
        ({
            let s = step_of(
                r,
                Phase::RollingBack(port),
                DeployEvent::RolledBack(wiped),
                dir,
                exiting,
            );
            &&& s.next == Phase::Done
            &&& wiped ==> s.errors.len() == 0 && s.lines.len() == 0
            &&& !wiped ==> s.errors.len() == 1 && dir.is_suffix_of(s.errors[0]) && s.lines == seq![
                "! "@ + s.errors[0],
            ]
        }),
{
    let t = left_behind_text(dir);
    assert(dir =~= t.subrange(t.len() - dir.len(), t.len() as int));
}

/// The warning about a service that the network can reach names it and its port.
pub proof fn law_warning_names_service_and_port(
    r: DemoRecipe,
    p: u16,
    dir: Seq<char>,
    exiting: bool,
)
    ensures
        ({
            let s = step_of(r, Phase::Checking(p), DeployEvent::Listening(true), dir, exiting);
            &&& s.lines.len() == 1
            &&& ("warn: "@ + r.service_name@ + " is listening on a non-loopback address (port "@
                + text::decimal(p as nat) + ")"@).is_prefix_of(s.lines[0])
        }),
{
    let t = exposed_text(r.service_name@, p as nat);
    let head = "warn: "@ + r.service_name@ + " is listening on a non-loopback address (port "@
        + text::decimal(p as nat);
    let rest =
        ") — anything on your network can reach it. This recipe regression must be fixed: bind the app to 127.0.0.1 like the other services."@;
    assert(")"@ =~= rest.subrange(0, 1) && rest.len() >= 1) by {
        reveal_strlit(")");
        reveal_strlit(
            ") — anything on your network can reach it. This recipe regression must be fixed: bind the app to 127.0.0.1 like the other services.",
        );
    }
    assert(")"@.len() == 1) by {
        reveal_strlit(")");
    }
    assert(t == head + rest);
    let want = head + ")"@;
    assert forall|i: int| 0 <= i < want.len() implies want[i] == t[i] by {
        if i == head.len() {
            assert(rest[0] == rest.subrange(0, 1)[0]);
        }
    }
    assert(want =~= t.subrange(0, want.len() as int));
}

} // verus!
