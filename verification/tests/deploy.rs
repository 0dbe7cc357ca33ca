use demo_ghostprovider::crashlog;
use demo_ghostprovider::hoster::deploy::reconcile::{
    cleanup_cmd, quiesce, reconcile_stale, reconcile_stale_with_basis, remove_unit_and_state,
    sweep_stale, EntryReport, PanelLogs, ReconcileBasis, SweepEvent, SweepOutcome,
    SweepPhase,
};
use demo_ghostprovider::hoster::deploy::run::{
    deploy_in_flight, run_deployment, DeployOutcome, DeployRun, Pipelines, RunEvent, RunPhase,
    SandboxGrade,
};
use demo_ghostprovider::hoster::deploy::service::{
    build_command, deploy_service, registered_entry, rollback_failed, unit_description, unit_spec,
    BuildRun, DeployEvent, DeployHooks, Deployment, ModuleSeed, Phase,
};
use demo_ghostprovider::hoster::deploy::steps::{
    address_is_non_loopback, cleanup_stale, clone_repo, ghost_units, listens_non_loopback,
    local_url_of, parse_ghost_units, parse_ss_row, port_of_url, prepare_searxng_config,
    random_hex, read_listeners, removal_plan, resolve_project_step, resolve_start, safe_dirname,
    screen_line, short, stale_action, stale_tree, stop_ghost_units, tail, toolbox_needs,
    wait_port_released, wipe_project_dir, CleanResult, Listener,
};
use demo_ghostprovider::hoster::journal;
use demo_ghostprovider::hoster::journal::{DeployState, Journal};
use demo_ghostprovider::hoster::lock::LockAttempt;
use demo_ghostprovider::hoster::models::{HostResult, RepoAnalysis, ServiceEntry};
use demo_ghostprovider::hoster::recipes::{Curated, DemoRecipe};
use demo_ghostprovider::hoster::toolcheck::{Finding, ToolProbe, Ver};
use demo_ghostprovider::hoster::units::{render_unit, ResourceLimits, StartOutcome};
use demo_ghostprovider::tui::workers;

const MEMOS: &str = "https://github.com/usememos/memos";
const STAMP: &str = "2026-02-18T09:30:00Z";

// --- single steps -----------------------------------------------------------

#[test]
fn screen_line_keeps_verdicts_and_warnings_only() {
    let kept = [
        "! pre-flight failed, aborting",
        "sandbox: FULL",
        "! sandbox: ALMOST — GHOSTPROVIDER_BUILD_USER set but unusable; refusing to deploy without full isolation",
        "! sandbox: NO — refusing to build without isolation (the sandbox is mandatory)",
        "listening on http://localhost:8888",
        "! public-test-token leaked in output",
        "provision: bun 1.4.2 (glibc) → .ghost-cache/toolbox/bin",
    ];
    for line in kept {
        assert!(screen_line(line), "expected to keep: {line}");
    }
    let dropped = [
        "pre-flight checks...",
        "cloning repository...",
        "build...",
        "build: seeded Go module cache (193 module(s) ready)",
        "proceeding without pinned tools (host bun reaches the registry)",
        "installing systemd unit demo-memos...",
        "probing runtime egress...",
        "starting service...",
        "source tree download complete",
    ];
    for line in dropped {
        assert!(!screen_line(line), "expected to drop: {line}");
    }
}

#[test]
fn indented_lines_are_screened_like_others() {
    assert!(screen_line("  ! x"));
    assert!(screen_line("\twarn: x"));
    assert!(!screen_line("x warn: y"));
    assert!(screen_line("x is listening on y"));
    assert!(!screen_line(""));
}

/// A wildcard or LAN-IP listener must classify as exposed; loopback must
/// not. This is the classification behind the deploy-time `warn:`.
#[test]
fn non_loopback_classification() {
    assert!(address_is_non_loopback("*:23920"));
    assert!(address_is_non_loopback("[::]:23920"));
    assert!(address_is_non_loopback("0.0.0.0:5222"));
    assert!(address_is_non_loopback("192.168.0.5:8080"));
    assert!(!address_is_non_loopback("127.0.0.1:8080"));
    assert!(!address_is_non_loopback("[::1]:8080"));
    assert!(!address_is_non_loopback("localhost:8080"));
}

#[test]
fn an_exposed_port_is_found_among_the_listeners() {
    let row = |address: &str, port: u16| Listener { address: address.to_string(), port };
    let table = Some(vec![row("127.0.0.1:80", 80), row("*:81", 81), row("[::1]:81", 81)]);
    assert!(!listens_non_loopback(&table, 80));
    assert!(listens_non_loopback(&table, 81));
    assert!(!listens_non_loopback(&table, 82));
    assert!(!listens_non_loopback(&None, 81));
}

/// Reconciliation must clean only genuinely unfinished deploys; a finished
/// or already-registered service is never torn down.
#[test]
fn stale_action_cleans_unfinished_but_preserves_live_services() {
    // Registered: deploy finished; only forget the journal entry.
    assert!(!stale_action(DeployState::Registered, true));
    assert!(!stale_action(DeployState::Registered, false));
    // Registering with the registry slot present: service is live.
    assert!(!stale_action(DeployState::Registering, true));
    // Registering without the slot: registration never landed → clean.
    assert!(stale_action(DeployState::Registering, false));
    // Still cloning/building: always clean.
    assert!(stale_action(DeployState::Deploying, true));
    assert!(stale_action(DeployState::Deploying, false));
}

/// Synthetic `systemctl list-units --plain --no-legend` rows: only the
/// ghost build/egress units survive the filter, in sorted order.
#[test]
fn parse_ghost_units_picks_only_ghost_units() {
    let output = "\
demo-vert.service                        loaded active running   demo: VERT
ghost-build-1a2b.service                 loaded active running   (transient)
demo-searxng.service                     loaded inactive dead    demo: SearXNG
ghost-egress-9c0d.service                loaded active running   (transient)
run-user-1000.service                    loaded active exited    (transient)
ghost-build-1a2b.service                 loaded active running   (dup row)
";
    assert_eq!(
        parse_ghost_units(output),
        vec![
            "ghost-build-1a2b.service".to_string(),
            "ghost-egress-9c0d.service".to_string(),
        ]
    );
    assert!(parse_ghost_units("demo-vert.service\nrun-abc.service\n").is_empty());
    assert!(parse_ghost_units("").is_empty());
}

#[test]
fn a_failed_listing_has_no_ghosts() {
    let listing = "ghost-build-1.service x\n".to_string();
    assert_eq!(
        ghost_units(&Some((true, listing.clone()))),
        vec!["ghost-build-1.service".to_string()]
    );
    assert!(ghost_units(&Some((false, listing))).is_empty());
    assert!(ghost_units(&None).is_empty());
    assert_eq!(stop_ghost_units(&vec![true, false, true]), 2);
    assert_eq!(stop_ghost_units(&Vec::new()), 0);
}

/// Deleting a service wipes the clone together with its caches — but only
/// inside services_dir.
#[test]
fn wipe_removes_clone_inside_services_dir_only() {
    let base = "/data/demo-ghostprovider/services";
    assert!(wipe_project_dir("/data/demo-ghostprovider/services/memos", true, base));
    assert!(!wipe_project_dir("/data/demo-ghostprovider/services/memos", false, base));
}

#[test]
fn wipe_refuses_paths_outside_services_dir() {
    let base = "/data/demo-ghostprovider/services";
    assert!(!wipe_project_dir("/data/precious", true, base));
    // A bare services_dir itself is not a project clone either.
    assert!(!wipe_project_dir("/data", true, base));
    assert!(!wipe_project_dir(base, true, base));
    assert!(!wipe_project_dir("", true, base));
    assert!(!wipe_project_dir("/data/demo-ghostprovider/services/..", true, base));
    assert!(!wipe_project_dir("/data/demo-ghostprovider/services/../", true, base));
    assert!(!wipe_project_dir("/data/demo-ghostprovider/services/memos/..", true, base));
    assert!(wipe_project_dir("/a/../s/memos", true, "/a/../s"), "a root may be written so");
    assert!(!wipe_project_dir("/data/demo-ghostprovider/services/a/b", true, base));
}

#[test]
fn what_is_cloned_can_be_wiped() {
    for base in ["/s", "/s/", "rel/s", "/"] {
        for name in ["memos", "..", "a/b", "."] {
            let analysis = RepoAnalysis {
                url: MEMOS.to_string(),
                owner: "usememos".to_string(),
                name: name.to_string(),
            };
            let t = clone_repo(&analysis, None, base);
            assert!(wipe_project_dir(&t.dir, true, base), "{}", t.dir);
        }
    }
}

#[test]
fn released_port_is_detected_immediately() {
    assert_eq!(wait_port_released(true, 0, 2_000), Some(true));
    assert_eq!(wait_port_released(true, 5_000, 2_000), Some(true));
}

#[test]
fn occupied_port_times_out() {
    assert_eq!(wait_port_released(false, 0, 300), None);
    assert_eq!(wait_port_released(false, 299, 300), None);
    assert_eq!(wait_port_released(false, 300, 300), Some(false));
}

#[test]
fn clones_go_into_the_services_dir_under_a_safe_name() {
    assert_eq!(safe_dirname("memos"), "memos");
    assert_eq!(safe_dirname("../a.b c"), "___a_b_c");
    let analysis = RepoAnalysis {
        url: MEMOS.to_string(),
        owner: "usememos".to_string(),
        name: "me.mos".to_string(),
    };
    let t = clone_repo(&analysis, None, "/s");
    assert_eq!(t.base, "/s");
    assert_eq!(t.dir, "/s/me_mos");
    assert_eq!(t.url, "https://github.com/usememos/me.mos.git");
    assert_eq!(clone_repo(&analysis, Some("/w"), "/s").dir, "/w/me_mos");
    assert_eq!(stale_tree("/s", MEMOS).as_deref(), Some("/s/memos"));
    assert!(stale_tree("/s", "not a url").is_none());
}

fn recipe(language: &str) -> DemoRecipe {
    let steps = |v: &[&str]| v.iter().map(|s| s.to_string()).collect::<Vec<String>>();
    DemoRecipe {
        display_name: "Memos".to_string(),
        description: "notes".to_string(),
        language: language.to_string(),
        commit: "abc".to_string(),
        service_name: "demo-memos".to_string(),
        port: 23920,
        tools: steps(&["go"]),
        prefetch_steps: steps(&["fetch {project}/store"]),
        pre_build: steps(&["prepare"]),
        build_steps: steps(&["build {project}"]),
        plugins: 0,
        start_cmd: "{bin} {venv} {python} {self} {project} {port}".to_string(),
        searxng: false,
        res: ResourceLimits::none(),
    }
}

#[test]
fn start_commands_are_filled_in() {
    assert_eq!(
        resolve_start(&recipe("Go"), "/p", "/self", 8000),
        "/p/ghost-server /p/.venv/bin/python python3 /self /p 8000"
    );
    assert_eq!(
        resolve_start(&recipe("Python"), "/p", "/self", 8000),
        "{bin} /p/.venv/bin/python python3 /self /p 8000"
    );
    assert_eq!(resolve_project_step("a {project} b {project}", "/p"), "a /p b /p");
    assert_eq!(build_command(&recipe("Go"), 0, "/p"), "prepare");
    assert_eq!(build_command(&recipe("Go"), 1, "/p"), "build /p");
}

#[test]
fn searxng_settings_are_patched_line_by_line() {
    let content = "server:\n  secret_key: old\n  bind_address: 0.0.0.0\n\tport: 1\r\n  http_address: 0.0.0.0:1\n  other: x";
    assert_eq!(
        prepare_searxng_config(content, "00ff", 8888),
        "server:\n  secret_key: \"00ff\"\n  bind_address: \"127.0.0.1\"\n\tport: 8888\n  http_address: \"127.0.0.1:8888\"\n  other: x\n"
    );
    assert_eq!(prepare_searxng_config("", "k", 1), "\n");
}

#[test]
fn random_bytes_are_written_in_hex() {
    assert_eq!(random_hex(&vec![0, 1, 0x7f, 0xab, 0xff]), "00017fabff");
    assert_eq!(random_hex(&Vec::new()), "");
}

#[test]
fn build_output_is_cut_for_the_report() {
    assert_eq!(short(&"é".repeat(400)), "é".repeat(300));
    assert_eq!(short("a"), "a");
    assert_eq!(tail(" \n \n"), "");
    assert_eq!(tail("a\nb\n"), "\n--- stdout (tail) ---\na\nb");
    let many: String = (0..20).map(|i| format!("l{i}\n")).collect();
    let last: Vec<String> = (8..20).map(|i| format!("l{i}")).collect();
    assert_eq!(tail(&many), format!("\n--- stdout (tail) ---\n{}", last.join("\n")));
    assert_eq!(
        tail(&"x".repeat(700)),
        format!("\n--- stdout (tail) ---\n{}", "x".repeat(600))
    );
}

#[test]
fn tools_are_provisioned_where_they_are_missing_or_old() {
    let v = |minor: u64| Ver { major: 1, minor, patch: 0 };
    let probe = |is_go: bool, installed: Option<Ver>, floor: Option<Ver>| {
        Some(ToolProbe { provisionable: true, is_go, installed, floor })
    };
    let probes = vec![
        probe(true, None, Some(v(27))),
        probe(true, Some(v(26)), Some(v(27))),
        probe(false, None, Some(v(2))),
        probe(false, None, None),
        probe(false, Some(v(1)), Some(v(2))),
        probe(false, Some(v(2)), Some(v(2))),
        probe(false, Some(v(1)), None),
        None,
        Some(ToolProbe { provisionable: false, is_go: false, installed: None, floor: None }),
    ];
    assert_eq!(
        toolbox_needs(&probes),
        vec![(0, None), (2, Some(v(2))), (3, None), (4, Some(v(2)))]
    );
}

#[test]
fn announced_ports_are_found_again() {
    assert_eq!(local_url_of(23920), "http://localhost:23920");
    assert_eq!(port_of_url(&local_url_of(0)), Some(0));
    assert_eq!(port_of_url(&local_url_of(65535)), Some(65535));
    assert_eq!(port_of_url("http://localhost:65536"), None);
    assert_eq!(port_of_url("http://localhost"), None);
    assert_eq!(port_of_url("nothing"), None);
}

#[test]
fn a_removal_goes_by_the_registry() {
    let entry = ServiceEntry {
        unit_name: "demo-memos".to_string(),
        project_dir: "/s/memos".to_string(),
        url: MEMOS.to_string(),
        urls: vec!["http://localhost:1".to_string(), "x".to_string(), "y:2".to_string()],
    };
    let plan = removal_plan(&Some(entry));
    assert_eq!(plan.wipe.as_deref(), Some("/s/memos"));
    assert_eq!(plan.ports, vec![1, 2]);
    let plan = removal_plan(&None);
    assert!(plan.wipe.is_none());
    assert!(plan.ports.is_empty());
}

#[test]
fn cleanup_reports_what_was_there() {
    let c = cleanup_stale(true, false, Some(false));
    assert!(c.unit_removed && !c.env_removed && !c.tree_removed && c.did_anything());
    assert!(!cleanup_stale(false, false, None).did_anything());
    assert!(!cleanup_stale(false, false, Some(false)).did_anything());
    assert!(cleanup_stale(false, false, Some(true)).did_anything());
    assert!(cleanup_stale(false, true, None).did_anything());
}

// --- one deploy -------------------------------------------------------------

const LOUD: DeployHooks = DeployHooks { on_status: true };

/// A deploy of Memos below `/s`.
fn fresh() -> Deployment {
    let analysis = RepoAnalysis {
        url: MEMOS.to_string(),
        owner: "usememos".to_string(),
        name: "memos".to_string(),
    };
    Deployment::new(&analysis, None, "/s")
}

/// Runs a deploy through a list of reports, and gives the lines it showed.
fn play(d: &mut Deployment, r: &DemoRecipe, reports: Vec<DeployEvent>) -> Vec<String> {
    let mut lines = Vec::new();
    for ev in reports {
        lines.extend(deploy_service(d, r, ev, false, LOUD));
    }
    lines
}

fn built(success: bool) -> DeployEvent {
    DeployEvent::Built(Ok(BuildRun {
        success,
        stdout: "out".to_string(),
        stderr: "err".to_string(),
    }))
}

/// The reports of a deploy that goes well, up to the build.
fn up_to_build() -> Vec<DeployEvent> {
    vec![
        DeployEvent::Begin,
        DeployEvent::Cloned(true),
        DeployEvent::Pin(Some("abc".to_string())),
        DeployEvent::Findings(vec![Finding { text: "old go".to_string(), blocking: false }]),
        DeployEvent::Needs(1),
        DeployEvent::Provisioned(Ok(Some("/bin".to_string()))),
        DeployEvent::Prefetched(Ok(())),
        DeployEvent::Toolchain(Ok(vec![("GOPROXY".to_string(), "file:///x".to_string())])),
        DeployEvent::Modules(Ok(ModuleSeed { ready: 193, total: 193, failed: Vec::new() })),
    ]
}

#[test]
fn a_deploy_that_goes_well() {
    let r = recipe("Go");
    let mut d = fresh();
    let mut lines = play(&mut d, &r, up_to_build());
    assert_eq!(d.phase, Phase::Building(0));
    assert_eq!(
        d.build_env,
        vec![
            ("PATH".to_string(), "/bin".to_string()),
            ("GOPROXY".to_string(), "file:///x".to_string())
        ]
    );
    lines.extend(play(
        &mut d,
        &r,
        vec![
            built(true),
            built(true),
            DeployEvent::Stopped,
            DeployEvent::Port(Ok(23921)),
            DeployEvent::Installed(Ok(())),
            DeployEvent::Started(Some(true)),
            DeployEvent::Settled(StartOutcome::Active, String::new()),
            DeployEvent::Listening(false),
            DeployEvent::Marked,
            DeployEvent::Registered(Ok(())),
        ],
    ));
    assert_eq!(d.phase, Phase::MarkRegistered(23921));
    assert!(d.result.service_names.is_empty(), "not before it is registered");
    lines.extend(play(&mut d, &r, vec![DeployEvent::Marked]));
    assert_eq!(d.phase, Phase::Done);
    assert_eq!(d.result.service_names, vec!["demo-memos"]);
    assert_eq!(d.result.urls, vec!["http://localhost:23921"]);
    assert!(d.result.errors.is_empty());
    assert_eq!(
        lines,
        vec![
            "cloning repository...",
            "build...",
            "old go",
            "build: seeded Go module cache (193 module(s) ready)",
            "installing systemd unit demo-memos...",
            "starting service...",
        ]
    );
}

#[test]
fn a_python_deploy_points_pip_at_the_wheelhouse_and_is_configured() {
    let mut r = recipe("Python");
    r.searxng = true;
    r.plugins = 2;
    let mut d = fresh();
    let lines = play(
        &mut d,
        &r,
        vec![
            DeployEvent::Begin,
            DeployEvent::Cloned(true),
            DeployEvent::Pin(Some("abc".to_string())),
            DeployEvent::Findings(Vec::new()),
            DeployEvent::Needs(0),
            DeployEvent::Prefetched(Ok(())),
            DeployEvent::Seeded(Ok(())),
            DeployEvent::PipEnv(vec![("PIP_NO_INDEX".to_string(), "1".to_string())]),
            built(true),
            built(true),
            DeployEvent::Stopped,
            DeployEvent::Port(Ok(8888)),
        ],
    );
    assert_eq!(d.phase, Phase::Configuring(8888));
    assert_eq!(d.build_env, vec![("PIP_NO_INDEX".to_string(), "1".to_string())]);
    assert_eq!(
        lines,
        vec![
            "cloning repository...",
            "build...",
            "build: seeded 2 paraglide plugin(s) (SHA-256 verified)",
        ]
    );
    let lines = play(&mut d, &r, vec![DeployEvent::Configured(Ok(()))]);
    assert_eq!(d.phase, Phase::Installing(8888));
    assert_eq!(lines, vec!["installing systemd unit demo-memos..."]);
}

/// Plays `lead` and then a report that fails, and gives the error.
fn failure(r: &DemoRecipe, lead: Vec<DeployEvent>, last: DeployEvent) -> (Phase, String) {
    let mut d = fresh();
    play(&mut d, r, lead);
    let before = d.result.errors.len();
    let lines = play(&mut d, r, vec![last]);
    assert_eq!(d.result.errors.len(), before + 1);
    let error = d.result.errors[before].clone();
    assert_eq!(lines, vec![format!("! {error}")]);
    (d.phase, error)
}

#[test]
fn every_failure_is_shown_kept_and_rolled_back() {
    let r = recipe("Go");
    let none = Phase::RollingBack(None);
    let upto = |n: usize| up_to_build().into_iter().take(n).collect::<Vec<DeployEvent>>();
    assert_eq!(
        failure(&r, upto(2), DeployEvent::Pin(Some("def".to_string()))),
        (none, "checkout is pinned to def, recipe pins abc (anti-TOFU); refusing to build an unpinned tree.".to_string())
    );
    assert_eq!(
        failure(&r, upto(2), DeployEvent::Pin(None)),
        (none, "checkout carries no pin marker, recipe pins abc (anti-TOFU); refusing to build an unpinned tree.".to_string())
    );
    assert_eq!(
        failure(&r, upto(5), DeployEvent::Provisioned(Err("e".to_string()))),
        (none, "Build-tool provisioning failed: e\nThe build sandbox has PrivateNetwork=yes; the pinned tools must be provisioned on the host.".to_string())
    );
    assert_eq!(
        failure(&r, upto(6), DeployEvent::Prefetched(Err("e".to_string()))),
        (none, "Prefetch step failed (fetch /s/memos/store): e\nThe build sandbox has PrivateNetwork=yes, so dependencies must be pre-fetched on the host; fix the fetch, then re-deploy.".to_string())
    );
    assert_eq!(
        failure(&r, upto(7), DeployEvent::Toolchain(Err("e".to_string()))),
        (none, "Go toolchain seed failed: e\nThe build sandbox has PrivateNetwork=yes; the toolchain must be pre-seeded on the host.".to_string())
    );
    assert_eq!(
        failure(&r, upto(8), DeployEvent::Modules(Err("e".to_string()))),
        (none, "Go module cache seed failed: e\nThe build sandbox has PrivateNetwork=yes; modules must be fully pre-seeded on the host.".to_string())
    );
    assert_eq!(
        failure(
            &r,
            upto(8),
            DeployEvent::Modules(Ok(ModuleSeed {
                ready: 1,
                total: 3,
                failed: vec!["m1".to_string(), "m2".to_string()],
            }))
        ),
        (none, "Go module cache seed failed: 2 of 3 module(s) failed; first: m1\nThe build sandbox has PrivateNetwork=yes; modules must be fully pre-seeded on the host.".to_string())
    );
    assert_eq!(
        failure(&r, up_to_build(), built(false)),
        (none, "Build step failed (prepare):\nerr\n--- stdout (tail) ---\nout".to_string())
    );
    assert_eq!(
        failure(&r, up_to_build(), DeployEvent::Built(Err("e".to_string()))),
        (none, "Build step failed (prepare): e".to_string())
    );
    let late = |n: usize| {
        let mut v = up_to_build();
        v.extend(
            vec![
                built(true),
                built(true),
                DeployEvent::Stopped,
                DeployEvent::Port(Ok(9)),
                DeployEvent::Installed(Ok(())),
                DeployEvent::Started(Some(true)),
            ]
            .into_iter()
            .take(n),
        );
        v
    };
    assert_eq!(
        failure(&r, late(3), DeployEvent::Port(Err("no free port".to_string()))),
        (none, "no free port".to_string())
    );
    assert_eq!(
        failure(&r, late(4), DeployEvent::Installed(Err("e".to_string()))),
        (none, "unit creation failed: e".to_string())
    );
    let held = Phase::RollingBack(Some(9));
    assert_eq!(
        failure(&r, late(5), DeployEvent::Started(Some(false))),
        (held, "systemctl start rejected the unit demo-memos (non-zero exit)".to_string())
    );
    assert_eq!(
        failure(&r, late(5), DeployEvent::Started(None)),
        (held, "failed to invoke systemctl start".to_string())
    );
    let logs = || "x".repeat(301);
    assert_eq!(
        failure(&r, late(6), DeployEvent::Settled(StartOutcome::Failed, logs())),
        (held, format!("Service crashed immediately after start:\n{}", "x".repeat(300)))
    );
    assert_eq!(
        failure(&r, late(6), DeployEvent::Settled(StartOutcome::TimeoutWhileActivating, logs())),
        (held, format!("Service did not become active within 30s:\n{}", "x".repeat(300)))
    );
    assert_eq!(
        failure(&r, late(6), DeployEvent::Settled(StartOutcome::SystemdUnavailable, logs())),
        (held, "systemd user manager unavailable".to_string())
    );
    let mut s = recipe("Shell");
    s.searxng = true;
    s.plugins = 1;
    let lead = || {
        vec![
            DeployEvent::Begin,
            DeployEvent::Cloned(true),
            DeployEvent::Pin(Some("abc".to_string())),
            DeployEvent::Findings(Vec::new()),
            DeployEvent::Needs(0),
            DeployEvent::Prefetched(Ok(())),
        ]
    };
    assert_eq!(
        failure(&s, lead(), DeployEvent::Seeded(Err("e".to_string()))),
        (none, "Pinned paraglide plugin seed failed: e\nThe build sandbox has PrivateNetwork=yes; the plugins must be fetched and verified on the host. Refusing to build against unverified plugin bytes.".to_string())
    );
    let mut all = lead();
    all.extend(vec![
        DeployEvent::Seeded(Ok(())),
        built(true),
        built(true),
        DeployEvent::Stopped,
        DeployEvent::Port(Ok(9)),
    ]);
    assert_eq!(
        failure(&s, all, DeployEvent::Configured(Err("e".to_string()))),
        (none, "searxng config failed: e".to_string())
    );
}

#[test]
fn blocking_findings_stop_a_deploy() {
    let r = recipe("Go");
    let mut d = fresh();
    play(
        &mut d,
        &r,
        vec![
            DeployEvent::Begin,
            DeployEvent::Cloned(true),
            DeployEvent::Pin(Some("abc".to_string())),
        ],
    );
    let finding = |text: &str, blocking: bool| Finding { text: text.to_string(), blocking };
    let lines = play(
        &mut d,
        &r,
        vec![DeployEvent::Findings(vec![finding("a", true), finding("b", false)])],
    );
    assert_eq!(lines, vec!["! a", "b", "! fix the tools above, then re-run the deployment"]);
    assert_eq!(d.result.errors, vec!["a"]);
    assert_eq!(d.phase, Phase::RollingBack(None));
}

#[test]
fn a_few_missing_modules_are_only_warned_of() {
    let r = recipe("Go");
    let mut d = fresh();
    play(&mut d, &r, up_to_build().into_iter().take(8).collect());
    let lines = play(
        &mut d,
        &r,
        vec![DeployEvent::Modules(Ok(ModuleSeed {
            ready: 2,
            total: 4,
            failed: vec!["m1".to_string(), "m2".to_string()],
        }))],
    );
    assert_eq!(
        lines,
        vec![
            "build: Go module cache partial: 2 of 4 module(s) failed (best-effort, continuing); first: m1",
            "build: 2 module(s) ready, 2 failed — deploy continues",
        ]
    );
    assert_eq!(d.phase, Phase::Building(0));
}

#[test]
fn a_failed_clone_is_rolled_back() {
    let r = recipe("Go");
    let mut d = fresh();
    let lines = play(&mut d, &r, vec![DeployEvent::Begin, DeployEvent::Cloned(false)]);
    assert_eq!(lines, vec!["cloning repository..."]);
    assert_eq!(d.phase, Phase::RollingBack(None));
    assert_eq!(d.project_dir, "/s/memos", "what may be there in part");
    assert!(wipe_project_dir(&d.project_dir, true, "/s"));
    assert!(play(&mut d, &r, vec![DeployEvent::RolledBack(true)]).is_empty());
    assert_eq!(d.phase, Phase::Done);
    assert_eq!(
        d.result.errors,
        vec!["git clone failed after retries (check network connection)"]
    );
    assert!(d.result.service_names.is_empty() && d.result.urls.is_empty());
}

#[test]
fn a_service_that_is_not_registered_is_rolled_back() {
    let r = recipe("Go");
    let mut lead = up_to_build();
    lead.extend(vec![
        built(true),
        built(true),
        DeployEvent::Stopped,
        DeployEvent::Port(Ok(9)),
        DeployEvent::Installed(Ok(())),
        DeployEvent::Started(Some(true)),
        DeployEvent::Settled(StartOutcome::Active, String::new()),
        DeployEvent::Listening(false),
        DeployEvent::Marked,
    ]);
    assert_eq!(
        failure(&r, lead, DeployEvent::Registered(Err("disk full".to_string()))),
        (Phase::RollingBack(Some(9)), "registering state: disk full".to_string())
    );
}

/// A failed deployment's rollback keeps the original error, and says nothing
/// where everything is gone.
#[test]
fn rollback_failed_wipes_project_tree_on_failed_deploy() {
    let base = "/data/demo-ghostprovider/services";
    let project = "/data/demo-ghostprovider/services/memos";
    let r = recipe("Go");
    let mut d = Deployment {
        phase: Phase::RollingBack(None),
        result: HostResult {
            service_names: Vec::new(),
            urls: Vec::new(),
            errors: vec!["Build step failed".to_string()],
        },
        project_dir: project.to_string(),
        build_env: Vec::new(),
    };
    assert_eq!(rollback_failed(&d.result, "demo-memos"), vec!["demo-memos"]);
    assert!(
        wipe_project_dir(project, true, base),
        "failed deploy must wipe the project tree"
    );
    let notes = play(&mut d, &r, vec![DeployEvent::RolledBack(true)]);
    assert_eq!(
        d.result.errors,
        vec!["Build step failed".to_string()],
        "rollback must not swallow the original error"
    );
    assert!(notes.is_empty(), "no cleanup warnings on success");
    assert_eq!(d.phase, Phase::Done);
}

#[test]
fn a_tree_that_stays_is_reported() {
    let r = recipe("Go");
    let mut d = fresh();
    play(
        &mut d,
        &r,
        vec![
            DeployEvent::Begin,
            DeployEvent::Cloned(true),
            DeployEvent::Pin(None),
        ],
    );
    let lines = play(&mut d, &r, vec![DeployEvent::RolledBack(false)]);
    let error =
        "cleanup: could not remove the project tree left behind by this failed deploy: /s/memos";
    assert_eq!(lines, vec![format!("! {error}")]);
    assert_eq!(d.result.errors.len(), 2);
    assert_eq!(d.result.errors[1], error);
}

#[test]
fn a_rollback_removes_each_unit_once() {
    let mut result = HostResult::new();
    result.service_names = vec!["a".to_string(), "demo-memos".to_string()];
    assert_eq!(rollback_failed(&result, "demo-memos"), vec!["a", "demo-memos"]);
    assert_eq!(rollback_failed(&result, "b"), vec!["a", "demo-memos", "b"]);
}

#[test]
fn an_exit_starts_no_new_step() {
    let r = recipe("Go");
    let mut d = fresh();
    assert!(deploy_service(&mut d, &r, DeployEvent::Begin, true, LOUD).is_empty());
    assert_eq!(d.phase, Phase::Done);

    let mut d = fresh();
    play(&mut d, &r, up_to_build().into_iter().take(5).collect());
    deploy_service(&mut d, &r, DeployEvent::Provisioned(Ok(None)), true, LOUD);
    assert_eq!(d.phase, Phase::RollingBack(None));
    assert!(d.build_env.is_empty());

    let mut d = fresh();
    play(&mut d, &r, up_to_build());
    deploy_service(&mut d, &r, built(true), true, LOUD);
    assert_eq!(d.phase, Phase::RollingBack(None));

    let mut d = fresh();
    play(&mut d, &r, up_to_build());
    play(&mut d, &r, vec![built(true)]);
    deploy_service(&mut d, &r, built(true), true, LOUD);
    assert_eq!(d.phase, Phase::RollingBack(None), "no systemd state is touched");
}

#[test]
fn a_report_out_of_turn_changes_nothing() {
    let r = recipe("Go");
    let mut d = fresh();
    assert!(play(&mut d, &r, vec![DeployEvent::Registered(Ok(())), built(false)]).is_empty());
    assert_eq!(d.phase, Phase::Start);
    assert!(d.result.errors.is_empty());
}

#[test]
fn a_quiet_deploy_shows_no_lines() {
    let r = recipe("Go");
    let mut d = fresh();
    let quiet = DeployHooks { on_status: false };
    assert!(deploy_service(&mut d, &r, DeployEvent::Begin, false, quiet).is_empty());
    assert_eq!(d.phase, Phase::Cloning);
}

#[test]
fn an_exposed_service_is_warned_of() {
    let r = recipe("Go");
    let mut d = fresh();
    let mut reports = up_to_build();
    reports.extend(vec![
        built(true),
        built(true),
        DeployEvent::Stopped,
        DeployEvent::Port(Ok(9)),
        DeployEvent::Installed(Ok(())),
        DeployEvent::Started(Some(true)),
        DeployEvent::Settled(StartOutcome::Active, String::new()),
    ]);
    play(&mut d, &r, reports);
    let lines = play(&mut d, &r, vec![DeployEvent::Listening(true)]);
    assert_eq!(
        lines,
        vec!["warn: demo-memos is listening on a non-loopback address (port 9) — anything on your network can reach it. This recipe regression must be fixed: bind the app to 127.0.0.1 like the other services."]
    );
    assert_eq!(d.phase, Phase::MarkRegistering(9));
}

#[test]
fn what_is_installed_and_registered() {
    let r = recipe("Go");
    assert_eq!(unit_description(&r), "demo: notes");
    let exec = resolve_start(&r, "/s/memos", "/self", 7);
    let desc = unit_description(&r);
    let spec = unit_spec(&r, "/s/memos", &exec, &desc, None);
    let unit = render_unit(&spec, &Vec::new(), &Vec::new());
    assert!(unit.starts_with("[Unit]\nDescription=demo: notes\n"));
    assert!(unit.contains("\nWorkingDirectory=/s/memos\n"));
    assert!(unit.contains("\nExecStart=\"/s/memos/ghost-server\" "));
    let e = registered_entry(&r, "/s/memos", MEMOS, 7);
    assert_eq!(e.unit_name, "demo-memos");
    assert_eq!(e.project_dir, "/s/memos");
    assert_eq!(e.url, MEMOS);
    assert_eq!(e.urls, vec!["http://localhost:7"]);
}

// --- the pipeline -----------------------------------------------------------

/// A run, and the runs of the process, it alone.
type Run = (DeployRun, Pipelines);

fn step(run: &mut Run, url: &str, event: &RunEvent) -> Vec<String> {
    run_deployment(&mut run.0, &mut run.1, url, event)
}

fn graded(url: &str, grade: SandboxGrade, unlogged: bool) -> (Run, Vec<String>) {
    let mut run = (DeployRun::new(), Pipelines::new());
    let lines = step(&mut run, url, &RunEvent::Graded(grade, unlogged));
    (run, lines)
}

fn rejected(run: &Run, why: &str) -> bool {
    matches!(run.0.phase, RunPhase::Finished(DeployOutcome::Rejected(w)) if w == why)
}

#[test]
fn anything_short_of_full_isolation_is_rejected() {
    let (run, lines) = graded(MEMOS, SandboxGrade::Almost, false);
    assert!(rejected(&run, "sandbox-unavailable"));
    assert_eq!(
        lines,
        vec!["! sandbox: ALMOST — GHOSTPROVIDER_BUILD_USER set but unusable; refusing to deploy without full isolation"]
    );
    let (run, lines) = graded(MEMOS, SandboxGrade::No, false);
    assert!(rejected(&run, "sandbox-unavailable"));
    assert_eq!(
        lines,
        vec!["! sandbox: NO — refusing to build without isolation (the sandbox is mandatory)"]
    );
}

#[test]
fn only_curated_addresses_are_accepted() {
    let (run, lines) = graded("nonsense", SandboxGrade::Full, false);
    assert!(rejected(&run, "bad-url"));
    assert_eq!(lines, vec!["sandbox: FULL", "! invalid GitHub URL format"]);
    let (run, lines) = graded("https://github.com/foo/bar", SandboxGrade::Full, true);
    assert!(rejected(&run, "not-curated"));
    assert_eq!(
        lines,
        vec![
            "sandbox: FULL",
            "warn: GHOSTPROVIDER_NO_NETLOG — outbound requests are not written to net.log",
            "! this demo only supports three services:",
            "! VERT-sh/VERT · searxng/searxng · usememos/memos",
        ]
    );
    let (run, lines) = graded(MEMOS, SandboxGrade::Full, false);
    assert!(matches!(run.0.phase, RunPhase::Preflight(Curated::Memos)));
    assert_eq!(lines, vec!["sandbox: FULL"]);
    assert!(!deploy_in_flight(&run.1));
}

#[test]
fn missing_tools_and_a_held_lock_are_rejected() {
    let (mut run, _) = graded(MEMOS, SandboxGrade::Full, false);
    let lines = step(&mut run, MEMOS, &RunEvent::Issues(vec!["no go".to_string()]));
    assert_eq!(lines, vec!["! no go", "! pre-flight failed, aborting"]);
    assert!(rejected(&run, "preflight"));

    let (mut run, _) = graded(MEMOS, SandboxGrade::Full, false);
    step(&mut run, MEMOS, &RunEvent::Issues(Vec::new()));
    assert!(deploy_in_flight(&run.1));
    let lines = step(&mut run, MEMOS, &RunEvent::Lock(LockAttempt::Tried(-1)));
    assert_eq!(
        lines,
        vec!["! another deployment is already running (deploy.lock held) — refusing to start a second one"]
    );
    assert!(rejected(&run, "deploy-locked"));
    assert!(!deploy_in_flight(&run.1));
}

fn locked() -> Run {
    let (mut run, _) = graded(MEMOS, SandboxGrade::Full, false);
    step(&mut run, MEMOS, &RunEvent::Issues(Vec::new()));
    step(&mut run, MEMOS, &RunEvent::Lock(LockAttempt::Tried(0)));
    run
}

fn outcome(names: &[&str], errors: &[&str], urls: &[&str]) -> HostResult {
    let list = |v: &[&str]| v.iter().map(|s| s.to_string()).collect();
    HostResult { service_names: list(names), errors: list(errors), urls: list(urls) }
}

#[test]
fn a_pipeline_run_ends_with_its_entry_cleared() {
    let mut run = locked();
    assert!(matches!(run.0.phase, RunPhase::Journaling(Curated::Memos)));
    step(&mut run, MEMOS, &RunEvent::Journaled(false));
    assert!(matches!(run.0.phase, RunPhase::Deploying(Curated::Memos)));
    let done = outcome(&["demo-memos"], &[], &["http://localhost:7"]);
    let lines = step(&mut run, MEMOS, &RunEvent::Deployed(done, false));
    assert_eq!(lines, vec!["listening on http://localhost:7"]);
    assert!(matches!(run.0.phase, RunPhase::Clearing(Curated::Memos, DeployOutcome::Deployed)));
    assert!(deploy_in_flight(&run.1));
    step(&mut run, MEMOS, &RunEvent::Cleared);
    assert!(matches!(run.0.phase, RunPhase::Finished(DeployOutcome::Deployed)));
    assert!(!deploy_in_flight(&run.1));
}

#[test]
fn a_deploy_with_errors_has_failed() {
    for result in [outcome(&["demo-memos"], &["e"], &[]), outcome(&[], &[], &[])] {
        let mut run = locked();
        step(&mut run, MEMOS, &RunEvent::Journaled(false));
        step(&mut run, MEMOS, &RunEvent::Deployed(result, false));
        step(&mut run, MEMOS, &RunEvent::Cleared);
        assert!(matches!(run.0.phase, RunPhase::Finished(DeployOutcome::Failed)));
    }
}

#[test]
fn an_exit_settles_or_leaves_the_entry() {
    let mut run = locked();
    step(&mut run, MEMOS, &RunEvent::Journaled(true));
    assert!(matches!(run.0.phase, RunPhase::Clearing(_, DeployOutcome::Rejected("exiting"))));
    step(&mut run, MEMOS, &RunEvent::Cleared);
    assert!(rejected(&run, "exiting"));

    let mut run = locked();
    step(&mut run, MEMOS, &RunEvent::Journaled(false));
    step(&mut run, MEMOS, &RunEvent::Deployed(outcome(&[], &[], &[]), true));
    assert!(matches!(run.0.phase, RunPhase::Finished(DeployOutcome::Failed)), "not cleared");
    assert!(!deploy_in_flight(&run.1));
}

#[test]
fn a_refused_run_leaves_the_first_in_flight() {
    let mut all = Pipelines::new();
    let mut first = DeployRun::new();
    let mut second = DeployRun::new();
    for run in [&mut first, &mut second] {
        run_deployment(run, &mut all, MEMOS, &RunEvent::Graded(SandboxGrade::Full, false));
        run_deployment(run, &mut all, MEMOS, &RunEvent::Issues(Vec::new()));
    }
    assert_eq!(all.running, 2);
    run_deployment(&mut first, &mut all, MEMOS, &RunEvent::Lock(LockAttempt::Tried(0)));
    run_deployment(&mut second, &mut all, MEMOS, &RunEvent::Lock(LockAttempt::Tried(-1)));
    assert!(matches!(
        second.phase,
        RunPhase::Finished(DeployOutcome::Rejected("deploy-locked"))
    ));
    assert!(deploy_in_flight(&all), "the first run is not over");
    run_deployment(&mut first, &mut all, MEMOS, &RunEvent::Journaled(true));
    assert!(deploy_in_flight(&all));
    run_deployment(&mut first, &mut all, MEMOS, &RunEvent::Cleared);
    assert!(!deploy_in_flight(&all));
}

// --- reconciliation ---------------------------------------------------------

fn logs() -> PanelLogs {
    PanelLogs { crash: Vec::new(), deploy: Vec::new() }
}

fn report(registered: bool, tree_removed: bool) -> EntryReport {
    EntryReport {
        registered,
        clean: CleanResult { unit_removed: false, env_removed: false, tree_removed },
        stamp: STAMP.to_string(),
    }
}

fn begun() -> Journal {
    let mut j = Journal::new();
    journal::begin(&mut j, "demo-memos", MEMOS, STAMP);
    j
}

/// Leftovers wiped + entry cleared when a deploy finished unwinding.
#[test]
fn reconcile_wipes_leftovers_and_clears_entry() {
    let mut j = begun();
    let mut l = logs();
    let msgs = reconcile_stale(&mut j, &mut l, &vec![report(false, true)], false, false);
    assert!(journal::entries(&j).is_empty(), "entry settled after removal");
    assert!(
        msgs.iter()
            .any(|m| m.contains("demo-memos") && m.contains("removed")),
        "notices must report the removal: {msgs:?}"
    );
    assert_eq!(
        msgs,
        vec![
            format!("cleanup: interrupted deploy of demo-memos ({MEMOS}) — removing leftover unit, env file and project tree"),
            "cleanup: demo-memos: removed".to_string(),
        ]
    );
    assert_eq!(workers::read_deploy_log(&Some(l.deploy)), msgs);
    assert_eq!(
        crashlog::read(&Some(l.crash)),
        vec![format!("{STAMP} [recovered] unfinished deploy: demo-memos ({MEMOS}) — leftover unit/env/project tree removed")]
    );
}

/// Nothing left behind → the entry is settled without claiming a removal,
/// but with a visible closure line so the deferred flow stays traceable.
#[test]
fn reconcile_settles_empty_leftover_with_closure_line() {
    let mut j = begun();
    let mut l = logs();
    let msgs = reconcile_stale(&mut j, &mut l, &vec![report(false, false)], false, false);
    assert!(journal::entries(&j).is_empty(), "silent entries are settled");
    assert_eq!(msgs.len(), 1, "one closure line: {msgs:?}");
    assert!(
        msgs[0].contains("settled") && msgs[0].contains("no leftovers"),
        "closure must not claim a removal: {msgs:?}"
    );
}

#[test]
fn reconciling_twice_is_reconciling_once() {
    let mut j = begun();
    let mut l = logs();
    assert!(!reconcile_stale(&mut j, &mut l, &vec![report(false, true)], false, false).is_empty());
    let (crash, deploy) = (l.crash.clone(), l.deploy.clone());
    assert!(reconcile_stale(&mut j, &mut l, &Vec::new(), false, false).is_empty());
    assert_eq!((l.crash, l.deploy), (crash, deploy));
}

/// Early exit while the deploy worker is still alive must keep the journal
/// entry so the next launch re-verifies instead of leaving re-created
/// artifacts as permanent leftovers.
#[test]
fn reconcile_keeps_entry_while_deploy_in_flight() {
    let mut j = begun();
    let mut l = logs();
    let keep = reconcile_stale(&mut j, &mut l, &vec![report(false, true)], true, true);
    assert!(
        keep.iter().any(|m| m.contains("finalizing on next launch")),
        "exit path must announce deferred finalization: {keep:?}"
    );
    assert_eq!(journal::entries(&j).len(), 1, "entry retained for next launch");
    assert!(l.crash.is_empty(), "nothing is final yet");

    let settle = reconcile_stale(&mut j, &mut l, &vec![report(false, false)], false, false);
    assert!(journal::entries(&j).is_empty(), "next launch settles the entry");
    assert_eq!(settle.len(), 1, "one closure line: {settle:?}");
    assert!(
        settle[0].contains("settled") && settle[0].contains("no leftovers"),
        "closure must not claim a removal: {settle:?}"
    );
}

#[test]
fn a_reconciliation_leaves_live_services_alone() {
    let mut j = begun();
    journal::begin(&mut j, "demo-vert", "u", STAMP);
    journal::mark(&mut j, "demo-memos", DeployState::Registering);
    journal::mark(&mut j, "demo-vert", DeployState::Registered);
    let mut l = logs();
    let reports = vec![report(true, false), report(false, false)];
    let msgs = reconcile_stale(&mut j, &mut l, &reports, false, false);
    assert!(msgs.is_empty());
    assert!(journal::entries(&j).is_empty());
    assert!(l.crash.is_empty() && l.deploy.is_empty());
    assert!(reconcile_stale(&mut j, &mut l, &Vec::new(), false, false).is_empty());
}

#[test]
fn an_exit_pass_tags_the_deploy_as_interrupted() {
    let mut j = begun();
    let mut l = logs();
    reconcile_stale_with_basis(
        &mut j,
        &mut l,
        &vec![report(false, true)],
        true,
        false,
        ReconcileBasis::Exit,
    );
    let lines = crashlog::read(&Some(l.crash));
    assert_eq!(lines.len(), 1);
    assert!(lines[0].contains("[interrupted]"));
    assert!(journal::entries(&j).is_empty(), "not kept though a deploy is in flight");
}

/// A sweep with the lock free: what it stopped and found, and how it came out.
fn sweep(j: &mut Journal, l: &mut PanelLogs, killed: usize, found: Vec<EntryReport>) -> SweepOutcome {
    let mut phase = SweepPhase::Locking;
    let lock = SweepEvent::Lock(LockAttempt::Tried(0));
    assert!(sweep_stale(&mut phase, j, l, &lock).is_none());
    assert_eq!(phase, SweepPhase::Stopping);
    assert!(sweep_stale(&mut phase, j, l, &SweepEvent::Stopped(killed)).is_none());
    assert_eq!(phase, SweepPhase::Removing(killed));
    let removed = SweepEvent::Removed(found, STAMP.to_string());
    let outcome = sweep_stale(&mut phase, j, l, &removed).unwrap();
    assert_eq!(phase, SweepPhase::Finished);
    outcome
}

/// A sweep must never run while the deploy lock is held — that is the
/// invariant that keeps the background timer from tearing down a live
/// deploy in another process.
#[test]
fn sweep_defers_while_lock_held() {
    let mut j = begun();
    let mut l = logs();
    let mut phase = SweepPhase::Locking;
    let held = SweepEvent::Lock(LockAttempt::Tried(-1));
    let o = sweep_stale(&mut phase, &mut j, &mut l, &held).unwrap();
    assert!(matches!(o, SweepOutcome::Deferred));
    assert_eq!(phase, SweepPhase::Finished);
    assert_eq!(journal::entries(&j).len(), 1);
    assert!(l.crash.is_empty() && l.deploy.is_empty());
    assert_eq!(cleanup_cmd(&o), vec!["cleanup: deferred — a deployment is in progress"]);
}

/// A full sweep under a free lock cleans a stale journal entry and reports
/// the removal notice.
#[test]
fn sweep_cleans_interrupted_deploy_when_lock_free() {
    let mut j = begun();
    let mut l = logs();
    let outcome = sweep(&mut j, &mut l, 0, vec![report(false, true)]);
    let SweepOutcome::Cleaned(msgs) = outcome else {
        panic!("lock is free in this test, sweep must run, got {outcome:?}");
    };
    assert!(journal::entries(&j).is_empty(), "entry settled");
    assert!(
        msgs.iter()
            .any(|m| m.contains("demo-memos") && m.contains("removed")),
        "notices must report the removal: {msgs:?}"
    );
}

#[test]
fn nothing_is_removed_before_the_ghosts_are_stopped() {
    let mut j = begun();
    let mut l = logs();
    for phase in [SweepPhase::Locking, SweepPhase::Stopping, SweepPhase::Finished] {
        let mut at = phase;
        let early = SweepEvent::Removed(vec![report(false, true)], STAMP.to_string());
        assert!(sweep_stale(&mut at, &mut j, &mut l, &early).is_none());
        assert_eq!(at, phase);
    }
    assert_eq!(journal::entries(&j).len(), 1);
    assert!(l.crash.is_empty() && l.deploy.is_empty());
}

#[test]
fn a_sweep_reports_the_ghosts_first() {
    let mut j = begun();
    let mut l = logs();
    let outcome = sweep(&mut j, &mut l, 2, vec![report(false, false)]);
    let printed = cleanup_cmd(&outcome);
    assert_eq!(
        printed,
        vec![
            "cleanup: stopped 2 orphaned ghost build/probe unit(s)",
            "cleanup: demo-memos: no leftovers to remove; journal entry settled",
        ]
    );
    let history = crashlog::read(&Some(l.crash));
    assert!(history[0].contains("[recovered]"));
    assert!(history[1].ends_with("[ghost] orphaned ghost build/probe unit(s) stopped: 2"));
    let logged = workers::read_deploy_log(&Some(l.deploy));
    assert_eq!(logged, vec![printed[1].clone(), printed[0].clone()]);
    let clean = sweep(&mut j, &mut logs(), 0, Vec::new());
    assert_eq!(cleanup_cmd(&clean), vec!["cleanup: nothing to remove"]);
}

#[test]
fn a_deleted_service_is_recorded_and_forgotten() {
    let mut j = begun();
    let mut crash = Vec::new();
    let mut entry = registered_entry(&recipe("Go"), "/s/memos", MEMOS, 7);
    remove_unit_and_state(&mut j, &mut crash, "demo-memos", &None, STAMP);
    assert!(crash.is_empty());
    assert!(journal::entries(&j).is_empty());
    remove_unit_and_state(&mut j, &mut crash, "demo-memos", &Some(entry), STAMP);
    entry = registered_entry(&recipe("Go"), "/s/memos", MEMOS, 7);
    entry.urls.clear();
    remove_unit_and_state(&mut j, &mut crash, "demo-memos", &Some(entry), STAMP);
    let lines = crashlog::read(&Some(crash));
    assert!(lines[0].contains("full removal: demo-memos (http://localhost:7) —"));
    assert!(lines[1].contains("full removal: demo-memos (?) —"));
}

#[test]
fn quiescing_is_bounded() {
    assert!(quiesce(true, 0, 100));
    assert!(!quiesce(true, 100, 100));
    assert!(!quiesce(false, 0, 100));
    assert!(workers::wait_deploy_worker(Some(false), 0, 100));
    assert!(!workers::wait_deploy_worker(Some(false), 100, 100));
    assert!(!workers::wait_deploy_worker(Some(true), 0, 100));
    assert!(!workers::wait_deploy_worker(None, 0, 100));
}

#[test]
fn the_socket_table_is_read_row_by_row() {
    let out = "State  Recv-Q Send-Q Local Address:Port Peer Address:Port\n\
               LISTEN 0      128        127.0.0.1:631       0.0.0.0:*\n\
               LISTEN 0      128             [::]:22           [::]:*\n\
               short row\n\
               LISTEN 0 1 nowhere x\n";
    let table = read_listeners(&Some((true, out.to_string())));
    let rows: Vec<(String, u16)> =
        table.as_ref().unwrap().iter().map(|l| (l.address.clone(), l.port)).collect();
    assert_eq!(rows, vec![("127.0.0.1:631".to_string(), 631), ("[::]:22".to_string(), 22)]);
    assert!(listens_non_loopback(&table, 22));
    assert!(!listens_non_loopback(&table, 631));
    assert!(read_listeners(&Some((false, out.to_string()))).is_none());
    assert!(read_listeners(&None).is_none());
    assert!(parse_ss_row("a b c d:x").is_none());
    assert!(read_listeners(&Some((true, String::new()))).unwrap().is_empty());
}
