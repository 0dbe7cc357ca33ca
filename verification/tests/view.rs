use demo_ghostprovider::tui::paint::{hue_of, Color, Line, Role, Style};
use demo_ghostprovider::tui::state::{Flavor, LogView, Screen, ServiceRow};
use demo_ghostprovider::tui::view::{
    choice_spans, colorize_scan, cursor_span, doctor_body_markers, doctor_lines, draw_confirm,
    draw_confirm_clear, draw_confirm_delete, draw_deploy, draw_logs, draw_main_menu,
    draw_menu_cell, draw_scan, draw_services, draw_services_title, draw_tab_bar, draw_url_input,
    fmt_time, hint_line, log_lines, net_line, spinner_char, verdict_line,
};
use demo_ghostprovider::tui_v2;

const NEON: Flavor = Flavor::Neon;
const RED: Flavor = Flavor::Red;
const VIOLET: Color = Color::Rgb(171, 130, 255);
const WARN_YELLOW: Color = Color::Rgb(255, 184, 0);
const ERR_RED: Color = Color::Rgb(255, 85, 85);
const OK_GREEN: Color = Color::Rgb(80, 250, 123);
const ACCENT: Color = Color::Rgb(64, 220, 255);
const DIM: Color = Color::Rgb(110, 118, 129);
const BODY: Color = Color::Rgb(205, 213, 224);

/// The text of a line.
fn said(l: &Line) -> String {
    l.spans.iter().map(|s| s.content.as_str()).collect()
}

fn all_said(v: &[Line]) -> Vec<String> {
    v.iter().map(said).collect()
}

fn plain(fg: Color) -> Style {
    Style { fg: Some(fg), bg: None, bold: false, reversed: false }
}

fn bold(fg: Color) -> Style {
    Style { fg: Some(fg), bg: None, bold: true, reversed: false }
}

fn styles(l: &Line) -> Vec<Style> {
    l.spans.iter().map(|s| s.style).collect()
}

/// Port rows: our deployments render yellow bold; anonymous occupied
/// ports render violet bold — both without any owner data.
#[test]
fn scan_report_colors_deployed_yellow_and_foreign_violet() {
    let report = "Listening ports:\n  5432   \n  23920  demo-memos (deployed)\n";
    let lines = colorize_scan(NEON, report);

    // Line layout: header, then one line per port row.
    let foreign = &lines[1];
    let deployed = &lines[2];

    assert!(
        foreign
            .spans
            .iter()
            .skip(1) // leading indent span carries no color
            .all(|s| s.style.fg == Some(VIOLET) && s.style.bold),
        "foreign occupied ports must be violet bold, got {:?}",
        foreign.spans.iter().map(|s| s.style.fg).collect::<Vec<_>>()
    );
    assert!(
        deployed
            .spans
            .iter()
            .skip(1)
            .all(|s| s.style.fg == Some(WARN_YELLOW) && s.style.bold),
        "deployed rows must be yellow bold, got {:?}",
        deployed.spans.iter().map(|s| s.style.fg).collect::<Vec<_>>()
    );
}

#[test]
fn a_scan_report_is_coloured_line_by_line() {
    let report = "  scanned at t\n[x] git   found\n[ ] systemd   MISSING\nnode missing\n\nInterfaces:\n  lo   127.0.0.1   up\n  eth0\n  a:b\n\nListening ports:\n  (none)\n  PORT   SERVICE\n! broken\n";
    let lines = colorize_scan(NEON, report);
    assert_eq!(
        all_said(&lines),
        vec![
            "  scanned at t",
            " +  git   found",
            " x  systemd   MISSING",
            "node missing",
            "",
            " Interfaces:",
            "   lo   127.0.0.1   up",
            "   eth0",
            "  a:b",
            "",
            " Listening ports:",
            "   (none)",
            "  PORT   SERVICE",
            " ! broken",
        ]
    );
    assert_eq!(styles(&lines[1])[1], bold(OK_GREEN));
    assert_eq!(styles(&lines[1])[2], plain(BODY));
    assert_eq!(styles(&lines[2])[1], bold(ERR_RED));
    assert_eq!(styles(&lines[2])[2], plain(DIM));
    assert_eq!(styles(&lines[3]), vec![plain(ERR_RED)]);
    assert_eq!(styles(&colorize_scan(RED, "node missing")[0]), vec![plain(Color::Rgb(255, 0, 18))]);
    assert_eq!(styles(&lines[6])[1], bold(BODY));
    assert_eq!(styles(&lines[6])[3], plain(OK_GREEN));
    // In the port section anything that is no heading is a port row.
    assert_eq!(styles(&lines[13])[1], bold(VIOLET));
}

#[test]
fn red_port_rows_are_bold_only_in_the_port() {
    let lines = colorize_scan(RED, "Listening ports:\n  7 demo (deployed)\n  8 x\n");
    let red = Color::Rgb(255, 0, 18);
    let dim_red = Color::Rgb(170, 0, 12);
    assert_eq!(styles(&lines[1])[1..], [bold(red), plain(red)]);
    assert_eq!(styles(&lines[2])[1..], [bold(dim_red), plain(dim_red)]);
}

#[test]
fn doctor_line_is_split_into_problem_fix_note() {
    let src = "! Memos needs Go >= 1.27.0, found 1.26.6 — update first: sudo pacman -S --needed go  (this software never runs sudo commands by itself)";
    let body = src.trim_start().strip_prefix("! ").unwrap();
    let lines = doctor_lines(NEON, body).unwrap();
    assert_eq!(lines.len(), 3);
    assert!(lines[1].spans.iter().any(|s| s.content.contains("fix » ")));
    assert!(
        lines[1]
            .spans
            .iter()
            .any(|s| s.content == "sudo pacman -S --needed go")
    );
    assert!(lines[2].spans.iter().any(|s| s.content.starts_with('(')));
}

#[test]
fn doctor_line_without_note_has_two_rows() {
    let lines = doctor_lines(NEON, "VERT needs Bun >= 1.2.0 but 'bun' is not installed — install: curl -fsSL https://bun.sh/install | bash").unwrap();
    assert_eq!(lines.len(), 2);
}

#[test]
fn marker_detection_matches_only_doctor_issues() {
    assert!(doctor_body_markers(
        "! X needs Go >= 1.27.0 — update first: cmd"
    ));
    assert!(!doctor_body_markers("! invalid GitHub URL format"));
}

#[test]
fn no_doctor_line_has_no_rows() {
    assert!(doctor_lines(RED, "nothing to fix").is_none());
    assert!(!doctor_body_markers("X needs Go — update first: cmd"));
}

#[test]
fn log_lines_are_coloured_by_what_they_say() {
    let one = |f: Flavor, s: &str| {
        let v = log_lines(f, s);
        assert_eq!(v.len(), 1, "{s}");
        (said(&v[0]), styles(&v[0]))
    };
    assert_eq!(one(NEON, "! bad"), (" ✖ bad".to_string(), vec![bold(ERR_RED), plain(ERR_RED)]));
    assert_eq!(
        one(NEON, " warn: careful"),
        (" ! careful".to_string(), vec![bold(WARN_YELLOW), plain(WARN_YELLOW)])
    );
    assert_eq!(
        one(NEON, "listening on http://localhost:7"),
        (
            " ✔ listening on http://localhost:7".to_string(),
            vec![plain(OK_GREEN), bold(OK_GREEN)]
        )
    );
    assert_eq!(one(NEON, "it failed"), (" it failed".to_string(), vec![plain(ERR_RED)]));
    assert_eq!(one(NEON, "an ERROR"), (" an ERROR".to_string(), vec![plain(ERR_RED)]));
    assert_eq!(one(NEON, " build..."), ("  build...".to_string(), vec![plain(WARN_YELLOW)]));
    assert_eq!(one(NEON, "=> step"), (" => step".to_string(), vec![plain(ACCENT)]));
    assert_eq!(one(NEON, "text"), (" text".to_string(), vec![plain(BODY)]));
    assert_eq!(one(NEON, "provision: x").0, " provision: x");
    assert_eq!(one(RED, "provision: x").0, " ● x");
    assert_eq!(log_lines(NEON, "! A — install: b  (c)").len(), 3);
}

fn list(v: &[&str]) -> Vec<String> {
    v.iter().map(|s| s.to_string()).collect()
}

#[test]
fn doctor_lines_stand_under_a_heading() {
    let lines = draw_deploy(
        NEON,
        &list(&["one", "! A — install: b", "  ! C — install: d", "two", "! E — install: f"]),
    );
    let heading = " ── TOOL DOCTOR ────────────────";
    assert_eq!(
        all_said(&lines),
        vec![
            " one", "", heading, " ! A", "   fix » b", " ! C", "   fix » d", " two", "", heading,
            " ! E", "   fix » f",
        ]
    );
    assert_eq!(all_said(&draw_deploy(NEON, &list(&["! A — install: b"])))[0], heading);
    assert!(draw_deploy(NEON, &Vec::new()).is_empty());
}

#[test]
fn verdicts_are_badges() {
    let l = verdict_line(NEON, true);
    assert_eq!(said(&l), " ✔ DEPLOYED ✔ ");
    assert_eq!(
        styles(&l),
        vec![Style { fg: Some(Color::Black), bg: Some(OK_GREEN), bold: true, reversed: false }]
    );
    let l = verdict_line(RED, false);
    assert_eq!(said(&l), " ✖ FAILED ✖ ");
    assert_eq!(l.spans[0].style.fg, Some(Color::Rgb(0, 0, 0)));
    assert_eq!(l.spans[0].style.bg, Some(Color::Rgb(255, 48, 48)));
}

#[test]
fn times_are_shown_in_two_units() {
    assert_eq!(fmt_time(0), "0s");
    assert_eq!(fmt_time(59), "59s");
    assert_eq!(fmt_time(60), "1m0s");
    assert_eq!(fmt_time(3599), "59m59s");
    assert_eq!(fmt_time(3600), "1h0m");
    assert_eq!(fmt_time(7325), "2h2m");
    assert_eq!(
        said(&net_line(NEON, 2, 61)),
        " ⚠ NET  2 host(s) unreachable — permanent retry, next probe is automatic (since 1m1s)"
    );
}

fn rows() -> Vec<ServiceRow> {
    let row = |name: &str, status: &str| ServiceRow {
        name: name.to_string(),
        status: status.to_string(),
        url: "http://localhost:7".to_string(),
    };
    vec![row("demo-vert", "active"), row("demo-memos", "activating"), row("x", "failed")]
}

#[test]
fn services_are_listed_row_by_row() {
    let lines = draw_services(NEON, &rows(), 0);
    assert_eq!(
        all_said(&lines),
        vec![
            format!(" » {:<16}{:<12}● active  http://localhost:7", "demo-vert", ""),
            format!("   {:<16}{:<12}● activating  http://localhost:7", "demo-memos", ""),
            format!("   {:<16}{:<12}● failed  http://localhost:7", "x", ""),
        ]
    );
    assert_eq!(styles(&lines[0])[1], bold(Color::White));
    assert_eq!(styles(&lines[1])[1], plain(Color::Rgb(150, 160, 174)));
    assert_eq!(styles(&lines[2])[1], plain(BODY));
    assert_eq!(styles(&lines[0])[3], plain(OK_GREEN));
    assert_eq!(styles(&lines[1])[3], plain(WARN_YELLOW));
    assert_eq!(styles(&lines[2])[3], plain(ERR_RED));
    let lines = draw_services(RED, &rows(), 9);
    assert_eq!(styles(&lines[1])[1], plain(Color::Rgb(255, 0, 18)), "no zebra");
}

#[test]
fn an_empty_service_list_invites() {
    assert_eq!(
        all_said(&draw_services(NEON, &Vec::new(), 0)),
        vec![" No services deployed yet.", "", " Use “Deploy Service” from the menu."]
    );
    assert_eq!(
        all_said(&draw_services(RED, &Vec::new(), 0))[2],
        " Use \"Deploy Service\" from the menu."
    );
    assert_eq!(
        said(&draw_services_title(NEON, &Some("m".to_string()))),
        " My Services [s]top star[t] [d]elete [r]efresh  — m"
    );
    assert_eq!(
        said(&draw_services_title(NEON, &None)),
        " My Services [s]top star[t] [d]elete [r]efresh"
    );
}

#[test]
fn logs_are_shown_from_where_they_are_scrolled_to() {
    let lines = list(&["a", "! b", "✔ c", "warn: d", "sandbox: e", "x failed"]);
    let v = draw_logs(NEON, LogView::Deploy, &lines, 1);
    assert_eq!(all_said(&v), lines[1..].to_vec());
    assert_eq!(styles(&v[0]), vec![plain(ERR_RED)]);
    assert_eq!(styles(&v[1]), vec![bold(OK_GREEN)]);
    assert_eq!(styles(&v[2]), vec![plain(WARN_YELLOW)]);
    assert_eq!(styles(&v[3]), vec![plain(BODY)]);
    assert_eq!(styles(&v[4]), vec![plain(ERR_RED)]);
    let red = draw_logs(RED, LogView::Deploy, &lines, 4);
    assert_eq!(styles(&red[0]), vec![plain(Color::Rgb(90, 0, 9))]);
    assert!(draw_logs(NEON, LogView::Deploy, &lines, 99).is_empty());
    assert_eq!(
        all_said(&draw_logs(NEON, LogView::Deploy, &Vec::new(), 0)),
        vec!["No deploy logs yet. Start a deployment to see output here."]
    );
    assert_eq!(
        all_said(&draw_logs(NEON, LogView::Software, &Vec::new(), 3)),
        vec!["No software logs yet. Journal output will appear here."]
    );
    assert_eq!(
        said(&draw_tab_bar(NEON, LogView::Deploy)),
        " [DEPLOY]  ·   SOFTWARE    (Tab to switch)"
    );
    assert_eq!(
        said(&draw_tab_bar(NEON, LogView::Software)),
        "  DEPLOY   ·  [SOFTWARE]   (Tab to switch)"
    );
}

#[test]
fn questions_show_their_choices() {
    let v = draw_confirm(NEON, "u", "Memos", true);
    assert_eq!(
        all_said(&v),
        vec![
            "",
            " Host Memos on this machine?",
            " URL: u",
            "",
            "   » [Y]es — deploy",
            "     [N]o — cancel",
            "",
            " ←→ select · Enter confirm",
        ]
    );
    let yes = choice_spans(NEON, "[Y]es", " — deploy", Role::Good, true);
    assert!(yes.spans[2].style.reversed);
    let v = draw_confirm_delete(NEON, "demo-memos", false);
    assert_eq!(said(&v[1]), " Remove demo-memos?");
    assert!(said(&v[5]).contains("» [N]o — keep"));
    let v = draw_confirm_clear(NEON, LogView::Deploy, false);
    assert!(said(&v[1]).starts_with(" Clear "));
    assert!(said(&v[5]).contains("» [N]o — keep"));
}

#[test]
fn an_address_is_judged_while_it_is_typed() {
    let last = |buffer: &str, error: Option<&str>, busy: bool| {
        let v = draw_url_input(NEON, buffer, &error.map(str::to_string), busy, 0);
        (said(&v[3]), said(v.last().unwrap()), v.len())
    };
    assert_eq!(
        last("", None, false),
        (" GitHub URL: █".to_string(), " GitHub URL: █".to_string(), 4)
    );
    assert_eq!(last("https://x", None, false).1, " + looks like a GitHub URL");
    assert_eq!(
        last("x", None, false).1,
        " △ expected https://github.com/<owner>/<repo>"
    );
    assert_eq!(last("x", Some("bad"), false).1, " x bad");
    assert!(last("x", None, true).1.ends_with(" resolving..."));
}

#[test]
fn the_scan_screen_spins_until_the_report_is_there() {
    let v = draw_scan(NEON, &None, true, 0);
    assert_eq!(
        all_said(&v),
        vec![
            format!("{} scanning local system...", spinner_char(0)).as_str(),
            "  (this lists interfaces and occupied ports)",
        ]
    );
    assert_eq!(draw_scan(RED, &None, true, 0).len(), 1);
    assert!(draw_scan(NEON, &None, false, 0).is_empty());
    assert_eq!(all_said(&draw_scan(NEON, &Some("a\nb".to_string()), true, 0)), vec!["a", "b"]);
    assert_eq!(spinner_char(0), spinner_char(1));
    assert_ne!(spinner_char(0), spinner_char(2));
    assert_eq!(cursor_span(NEON, 0).content, "█");
    assert_eq!(cursor_span(NEON, 4).content, " ");
    assert_eq!(cursor_span(NEON, 8).content, "█");
}

#[test]
fn menus_mark_what_is_selected() {
    let v = draw_main_menu(1);
    assert_eq!(
        all_said(&v),
        vec![
            "   @ System Scan — probe interfaces and occupied ports",
            " » ^ Deploy Service — deploy one of the three curated services",
            "   # My Services — manage deployed units",
            "   ≡ Logs — deploy + software logs (2 screens)",
        ]
    );
    assert_eq!(styles(&v[1])[2], bold(Color::White));
    let cells: Vec<String> = (0..4).map(|i| said(&draw_menu_cell(i, 0).label)).collect();
    assert_eq!(cells, vec!["СИСТЕМА", "РАЗВЁРТЫВАНИЕ", "СЕРВИСЫ", "ЛОГИ"]);
    let cell = draw_menu_cell(2, 2);
    assert!(cell.label.spans[0].style.bold);
    assert_eq!(
        all_said(&cell.boxed),
        vec!["┌┄┄┄┄┄┄┐", "┆       ┆", "┆   ⬇   ┆", "┆       ┆", "└┄┄┄┄┄┄┘"]
    );
    assert_eq!(cell.boxed[0].spans[0].style, plain(Color::Rgb(255, 0, 18)));
    assert_eq!(draw_menu_cell(2, 1).boxed[0].spans[0].style, plain(Color::Rgb(170, 0, 12)));
}

#[test]
fn hints_follow_the_screen() {
    assert_eq!(
        said(&hint_line(NEON, &Screen::Main { selected: 0 })),
        " ↑↓ select ·  Enter choose ·  q quit"
    );
    let blank = hint_line(RED, &Screen::Main { selected: 0 });
    assert_eq!(said(&blank), "");
    assert_eq!(blank.spans.len(), 1);
    assert_eq!(blank.spans[0].style.bg, Some(Color::Rgb(0, 0, 0)));
    let deploy = |done: Option<bool>| Screen::Deploy { lines: Vec::new(), done };
    assert_eq!(said(&hint_line(NEON, &deploy(None))), " working…");
    assert_eq!(said(&hint_line(NEON, &deploy(Some(true)))), " Enter back");
    let logs = || Screen::Logs {
        view: LogView::Deploy,
        deploy_lines: Vec::new(),
        software_lines: Vec::new(),
        scroll: 0,
    };
    assert_eq!(
        said(&hint_line(NEON, &logs())),
        " Tab switch ·  ↑↓ scroll ·  [d]elete ·  Esc back"
    );
    assert_eq!(said(&hint_line(RED, &logs())), " Tab switch view ·  ↑↓ scroll ·  Esc back");
}

#[test]
fn each_design_has_its_palette() {
    assert_eq!(hue_of(NEON, Role::Accent), ACCENT);
    assert_eq!(hue_of(NEON, Role::Services), Color::Rgb(97, 143, 255));
    assert_eq!(hue_of(NEON, Role::Deploy), Color::Rgb(255, 92, 200));
    assert_eq!(hue_of(RED, Role::Body), Color::Rgb(255, 0, 18));
    assert_eq!(hue_of(RED, Role::Dim), Color::Rgb(90, 0, 9));
}

#[test]
fn the_red_header_has_an_eye_in_its_globe() {
    let v = tui_v2::draw_header();
    assert_eq!(v.len(), 26);
    for i in 0..23 {
        let eye = (11..=13).contains(&i);
        let expected = if eye { tui_v2::EYE_LINES[i - 11] } else { tui_v2::GLOBE[i] };
        assert_eq!(said(&v[i]), expected);
        assert_eq!(v[i].spans[0].style.bold, eye);
    }
    assert_eq!(said(&v[23]), "");
    assert_eq!(said(&v[24]), "GHOST PROVIDER");
    assert_eq!(said(&v[25]), "Программное обеспечение для самохостинга");
}
