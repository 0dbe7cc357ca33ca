use demo_ghostprovider::hoster::units::{
    create_unit, current_uid, escape_unit_value, inaccessible_paths, list_units, quote_exec_args,
    remove_unit, render_unit, runtime_unset_environment, sanitize_service_name, secret_roots,
    service_logs, systemctl_args, validate_unit_name, wait_until_active, ResourceLimits,
    StartOutcome, UnitCommand, UnitSpec,
};

#[test]
fn unit_name_validation() {
    assert!(validate_unit_name(
        "demo-vert.service".trim_end_matches(".service")
    ));
    assert!(!validate_unit_name(""));
    assert!(!validate_unit_name("../evil"));
    assert!(!validate_unit_name("a b"));
    assert!(!validate_unit_name(&"x".repeat(256)));
}

#[test]
fn unit_names_end_at_their_limits() {
    assert!(validate_unit_name(&"x".repeat(255)));
    assert!(!validate_unit_name(".hidden"));
    assert!(validate_unit_name("a.b_c-D9"));
    assert!(!validate_unit_name("é"));
}

#[test]
fn sanitizes_hostile_names() {
    assert_eq!(
        sanitize_service_name("../../etc/passwd"),
        "../../etc/passwd".replace('/', "-")
    );
    assert_eq!(sanitize_service_name("demo vert"), "demo-vert");
}

#[test]
fn sanitized_names_are_cut_and_stable() {
    let long = "é".repeat(100);
    let s = sanitize_service_name(&long);
    assert_eq!(s, "-".repeat(64));
    assert_eq!(sanitize_service_name(&s), s);
    let valid = "x".repeat(200);
    assert_eq!(sanitize_service_name(&valid), valid);
    assert_eq!(sanitize_service_name(""), "");
    let hostile = sanitize_service_name("../../etc/passwd");
    assert_eq!(sanitize_service_name(&hostile), hostile);
}

/// Unit-file context escaping differs from EnvironmentFile context.
#[test]
fn unit_value_escaping() {
    assert_eq!(escape_unit_value("a$b"), "a$$b");
    assert_eq!(escape_unit_value("100%"), "100%%");
    assert_eq!(escape_unit_value("q\"q"), "q\\\"q");
    assert_eq!(escape_unit_value("l1\nl2"), "l1\\nl2");
}

#[test]
fn escaped_values_stay_apart_and_on_one_line() {
    assert_eq!(escape_unit_value("\\n"), "\\\\n");
    assert_eq!(escape_unit_value("\n"), "\\n");
    assert_eq!(escape_unit_value("\\\"$%"), "\\\\\\\"$$%%");
    assert_eq!(escape_unit_value(""), "");
    assert!(!escape_unit_value("a\nb\n").contains('\n'));
}

/// Every ExecStart word is double-quoted so paths/spaces round-trip.
#[test]
fn exec_start_words_are_quoted() {
    let plain = quote_exec_args("/home/u bin/serve --port 8000");
    assert_eq!(plain, "\"/home/u\" \"bin/serve\" \"--port\" \"8000\"");
    let speced = quote_exec_args("/x/%h-demo --flag");
    assert_eq!(speced, "\"/x/%%h-demo\" \"--flag\"");
}

#[test]
fn an_empty_command_quotes_to_nothing() {
    assert_eq!(quote_exec_args(" \t "), "");
}

fn scrubbed() -> Vec<String> {
    vec!["GITHUB_TOKEN".to_string(), "SSH_AUTH_SOCK".to_string(), "DATABASE_URL".to_string()]
}

/// Resource caps from the recipe are rendered as real directives, and a
/// `none()` spec emits no resource section at all.
#[test]
fn resource_limits_are_rendered_when_opted_in() {
    let spec = UnitSpec {
        service_name: "demo-vert",
        working_dir: "/tmp/vert",
        exec_start: "/x/serve 8000",
        description: "demo",
        env_file: None,
        extra_env: &[],
        res: ResourceLimits {
            memory_high: Some("256M"),
            memory_max: Some("384M"),
            tasks_max: Some("300"),
            cpu_quota: Some("100%"),
            limit_nofile: Some(4096),
            oom_score_adjust: Some(-100),
        },
    };
    let present: Vec<String> = secret_roots("/home/runner", Some(1000))
        .into_iter()
        .filter(|p| !p.ends_with(".kube"))
        .collect();
    let content = render_unit(&spec, &present, &scrubbed());
    for needle in [
        "# -- Resource Limits --\n",
        "MemoryHigh=256M\n",
        "MemoryMax=384M\n",
        "TasksMax=300\n",
        "CPUQuota=100%\n",
        "LimitNOFILE=4096\n",
        "OOMScoreAdjust=-100\n",
        "ProtectHome=read-only\n",
        "Environment=\"HOME=/tmp/vert/.ghost-cache/home\"\n",
        "PrivateDevices=yes\n",
        "ProcSubset=pid\n",
        "RestrictAddressFamilies=AF_UNIX AF_INET AF_INET6\n",
        "SystemCallFilter=~@mount @swap @reboot @cpu-emulation @obsolete @module @raw-io @clock @debug\n",
        "IPAddressDeny=any\n",
        "IPAddressAllow=127.0.0.1 ::1\n",
    ] {
        assert!(content.contains(needle), "missing {needle:?}");
    }
    // Only the roots that exist are listed, and every one of them is.
    let ins = content
        .lines()
        .find(|l| l.starts_with("InaccessiblePaths="))
        .expect("InaccessiblePaths directive must be present");
    for candidate in [".ssh", ".config", ".local/state/demo-ghostprovider"] {
        let p = format!("/home/runner/{candidate}");
        assert!(ins.contains(&p), "missing {} in {}", p, ins);
    }
    assert!(!ins.contains(".kube"));
    assert!(!content.contains("ProtectHome=tmpfs"));

    let bare = UnitSpec {
        res: ResourceLimits::none(),
        ..spec
    };
    let content = render_unit(&bare, &present, &scrubbed());
    assert!(!content.contains("MemoryHigh="));
    assert!(!content.contains("MemoryMax="));
    assert!(!content.contains("TasksMax="));
    assert!(!content.contains("CPUQuota="));
    assert!(!content.contains("OOMScoreAdjust="));
}

/// Runtime `UnsetEnvironment=` must always cover the scrub lists (otherwise
/// the applied credential policy would widen at runtime) and the enumerated
/// cloud/panel secret names, whatever the host env looks like.
#[test]
fn runtime_unset_env_covers_sandbox_scrub_and_panel_secret() {
    let content = render_unit(
        &UnitSpec {
            service_name: "demo-vert",
            working_dir: "/tmp/vert",
            exec_start: "/x/serve 8000",
            description: "demo",
            env_file: None,
            extra_env: &[],
            res: ResourceLimits::none(),
        },
        &Vec::new(),
        &scrubbed(),
    );
    let line = content
        .lines()
        .find(|l| l.starts_with("UnsetEnvironment="))
        .expect("UnsetEnvironment directive must be present");
    for name in scrubbed() {
        assert!(line.contains(&name), "runtime UnsetEnvironment misses {name:?}");
    }
    for name in [
        "OPENCHAMBER_TOKEN",
        "OPENCODE_TOKEN",
        "AWS_ACCESS_KEY_ID",
        "DATABASE_URL",
        "PGPASSWORD",
    ] {
        assert!(line.contains(name), "runtime UnsetEnvironment misses {name:?}");
    }
    assert!(!line.contains("*"), "no globs tolerated in UnsetEnvironment");
}

#[test]
fn unset_names_are_listed_once_in_order() {
    let value = runtime_unset_environment(&scrubbed());
    assert_eq!(
        value,
        "GITHUB_TOKEN SSH_AUTH_SOCK DATABASE_URL OPENCHAMBER_AGENT_TOOL_TOKEN OPENCHAMBER_TOKEN \
         OPENCHAMBER_SESSION_ID OPENCODE_SERVER_PASSWORD OPENCODE_TOKEN OPENCODE_AUTH_TOKEN \
         AWS_ACCESS_KEY_ID AWS_SECRET_ACCESS_KEY AWS_SESSION_TOKEN AWS_PROFILE \
         GOOGLE_APPLICATION_CREDENTIALS AZURE_CLIENT_ID AZURE_CLIENT_SECRET AZURE_TENANT_ID \
         MYSQL_PWD PGPASSWORD REDIS_URL REDIS_PASSWORD"
    );
}

/// The whole unit, letter for letter.
#[test]
fn a_unit_reads_exactly() {
    let env = [("A KEY".to_string(), "v\"1$".to_string())];
    let content = render_unit(
        &UnitSpec {
            service_name: "demo vert",
            working_dir: "/w d",
            exec_start: "/x/serve  8000",
            description: "",
            env_file: Some("/e%f"),
            extra_env: &env,
            res: ResourceLimits { tasks_max: Some("9"), ..ResourceLimits::none() },
        },
        &vec!["/home/u/.ssh".to_string(), "/tmp/a b".to_string()],
        &Vec::new(),
    );
    let unset = runtime_unset_environment(&Vec::new());
    let expected = [
        "[Unit]",
        "Description=demo-vert",
        "After=network.target",
        "",
        "[Service]",
        "Type=simple",
        "WorkingDirectory=/w d",
        "ExecStart=\"/x/serve\" \"8000\"",
        "Restart=always",
        "RestartSec=5",
        "Environment=\"AKEY=v\\\"1$$\" ",
        "EnvironmentFile=/e%%f",
        "",
        "# A service must never inherit ambient CI credentials (GITHUB_TOKEN,",
        "              # GH_TOKEN, package-manager tokens, openchamber/opencode session",
        "              # secrets) or ambient session endpoints (SSH agent, D-Bus, X11)",
        "              # via the manager environment. systemd rejects globs here, so",
        "              # the known names are enumerated explicitly (see",
        "              # runtime_unset_environment()).",
        &format!("UnsetEnvironment={unset}"),
        "# -- Privacy & Security Hardening --",
        "NoNewPrivileges=yes",
        "ProtectHome=read-only",
        "ProtectSystem=full",
        "ReadWritePaths=\"/w d\"",
        "Environment=\"HOME=/w d/.ghost-cache/home\"",
        "Environment=\"XDG_CACHE_HOME=/w d/.ghost-cache\"",
        "Environment=\"XDG_RUNTIME_DIR=/w d/.ghost-cache/runtime\"",
        "InaccessiblePaths=/home/u/.ssh /tmp/a b",
        "ProtectKernelTunables=yes",
        "ProtectKernelModules=yes",
        "ProtectControlGroups=yes",
        "ProtectClock=yes",
        "ProtectHostname=yes",
        "ProtectKernelLogs=yes",
        "PrivateIPC=yes",
        "RestrictNamespaces=yes",
        "LockPersonality=yes",
        "RestrictRealtime=yes",
        "RestrictSUIDSGID=yes",
        "ProtectProc=invisible",
        "PrivateDevices=yes",
        "ProcSubset=pid",
        "RestrictAddressFamilies=AF_UNIX AF_INET AF_INET6",
        "CapabilityBoundingSet=",
        "UMask=0077",
        "SystemCallFilter=~@mount @swap @reboot @cpu-emulation @obsolete @module @raw-io @clock @debug",
        "# -- Resource Limits --",
        "TasksMax=9",
        "IPAddressDeny=any",
        "IPAddressAllow=127.0.0.1 ::1",
        "[Install]",
        "WantedBy=default.target",
        "",
    ]
    .join("\n");
    assert_eq!(content, expected);
}

#[test]
fn secret_roots_cover_the_home_and_the_session() {
    let roots = secret_roots("/home/u", Some(1000));
    assert_eq!(roots.len(), 16);
    assert_eq!(roots[0], "/home/u/.ssh");
    assert_eq!(roots[6], "/home/u/.local/state/demo-ghostprovider");
    assert_eq!(roots[12], "/home/u/.kube");
    assert_eq!(roots[13], "/run/user/1000");
    assert_eq!(roots[14], "/tmp/.X11-unix");
    assert_eq!(roots[15], "/run/dbus/system_bus_socket");
    assert_eq!(secret_roots("/home/u", None).len(), 15);
    assert_eq!(inaccessible_paths(&Vec::new()), "");
}

#[test]
fn uid_is_read_from_what_id_prints() {
    let run = |ok: bool, out: &str| current_uid(&Some((ok, out.to_string())));
    assert_eq!(run(true, "1000\n"), Some(1000));
    assert_eq!(run(false, "1000\n"), None);
    assert_eq!(run(true, "root\n"), None);
    assert_eq!(current_uid(&None), None);
}

#[test]
fn a_unit_is_installed_under_its_sanitized_name() {
    let plan = create_unit(
        &UnitSpec {
            service_name: "demo vert",
            working_dir: "/w",
            exec_start: "/x",
            description: "d",
            env_file: None,
            extra_env: &[],
            res: ResourceLimits::none(),
        },
        "/c/systemd/user",
        &Vec::new(),
        &Vec::new(),
    );
    assert_eq!(plan.service_name, "demo-vert");
    assert_eq!(plan.unit_dir, "/c/systemd/user");
    assert_eq!(plan.unit_path, "/c/systemd/user/demo-vert.service");
    assert_eq!(plan.cache_dirs, vec!["/w/.ghost-cache/", "/w/.ghost-cache/home", "/w/.ghost-cache/runtime"]);
    assert!(plan.content.starts_with("[Unit]\nDescription=d\n"));
    assert_eq!(remove_unit("/c/systemd/user", "demo-vert"), "/c/systemd/user/demo-vert.service");
}

#[test]
fn units_are_listed_sorted_and_once() {
    let out = "  b.service loaded\na.service x\n\nb.service again\n";
    assert_eq!(
        list_units(&Some((true, out.to_string()))),
        vec!["a.service".to_string(), "b.service".to_string()]
    );
    assert!(list_units(&Some((false, out.to_string()))).is_empty());
    assert!(list_units(&None).is_empty());
}

#[test]
fn a_start_is_weighed_by_state_and_time() {
    let poll = |state: &str, at: u64| wait_until_active(&Some(state.to_string()), at, at);
    assert_eq!(poll("active\n", 0), Some(StartOutcome::Active));
    assert_eq!(poll("active", 60_000), Some(StartOutcome::Active));
    assert_eq!(poll("failed", 0), None);
    assert_eq!(poll("failed", 1_499), None);
    assert_eq!(poll("failed", 1_500), Some(StartOutcome::Failed));
    assert_eq!(poll("inactive", 2_000), Some(StartOutcome::Failed));
    assert_eq!(poll("activating", 29_999), None);
    assert_eq!(poll("activating", 30_000), Some(StartOutcome::TimeoutWhileActivating));
    assert_eq!(wait_until_active(&None, 0, 0), Some(StartOutcome::SystemdUnavailable));
}

#[test]
fn service_logs_are_trimmed() {
    assert_eq!(service_logs(&Some((true, " a\nb \n".to_string()))), "a\nb");
    assert_eq!(service_logs(&Some((false, "a".to_string()))), "");
    assert_eq!(service_logs(&None), "");
}

#[test]
fn no_limits_is_the_default() {
    assert_eq!(ResourceLimits::default(), ResourceLimits::none());
}

#[test]
fn only_the_user_manager_is_told() {
    let words = |c: UnitCommand| systemctl_args(c, "demo-memos").join(" ");
    assert_eq!(words(UnitCommand::Reload), "--user daemon-reload");
    assert_eq!(
        words(UnitCommand::ListServices),
        "--user list-units --all --type=service --plain --no-legend"
    );
    assert_eq!(words(UnitCommand::Enable), "--user enable demo-memos");
    assert_eq!(words(UnitCommand::Disable), "--user disable demo-memos");
    assert_eq!(words(UnitCommand::Stop), "--user stop demo-memos");
    assert_eq!(words(UnitCommand::Start), "--user start demo-memos");
    assert_eq!(words(UnitCommand::StartQueued), "--user start --no-block demo-memos");
    assert_eq!(words(UnitCommand::Restart), "--user restart demo-memos");
    assert_eq!(words(UnitCommand::ResetFailed), "--user reset-failed demo-memos");
    assert_eq!(words(UnitCommand::IsActive), "--user is-active demo-memos");
}
