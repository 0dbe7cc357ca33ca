//! What the screens show, line by line.

use vstd::prelude::*;

use crate::hoster::toolcheck;
use crate::text;
use crate::tui::paint;
use crate::tui::paint::{add_line, add_lines, hue_of, no_lines, Line, Role, Span, SpanText, Style};
use crate::tui::state;
use crate::tui::state::{Flavor, LogView, PanelScreen, RowText, Screen, ServiceRow};
use crate::tui::workers;

verus! {

// ---------------------------------------------------------------------------
// The scan report
// ---------------------------------------------------------------------------

pub open spec fn scan_heading(t: Seq<char>) -> bool {
    t == "Interfaces:"@ || t == "Listening ports:"@
}

/// Which section the first `n` lines of a report end in: that of the ports,
/// and that of the interfaces.
pub open spec fn scan_section(lines: Seq<Seq<char>>, n: int) -> (bool, bool)
    decreases n,
{
    if n <= 0 {
        (false, false)
    } else {
        let t = text::trimmed_start(lines[n - 1]);
        if scan_heading(t) {
            (t == "Listening ports:"@, t == "Interfaces:"@)
        } else {
            scan_section(lines, n - 1)
        }
    }
}

/// A text cut at its first white space, which is dropped.
pub open spec fn first_word(t: Seq<char>) -> (Seq<char>, Seq<char>) {
    match text::white_from(t, 0) {
        Some(i) => (t.subrange(0, i), t.subrange(i + 1, t.len() as int)),
        None => (t, Seq::empty()),
    }
}

/// A port row: those of our own deployments carry a tag. Every other row is an
/// anonymous occupied port, with no owner attribution ever.
pub open spec fn port_row(f: Flavor, t: Seq<char>) -> Seq<SpanText> {
    let c = if text::holds(t, "(deployed)"@) {
        paint::hue(f, Role::Input)
    } else {
        paint::hue(f, Role::Foreign)
    };
    let (port, rest) = first_word(t);
    let head = seq![paint::plain(" "@), paint::strong(port, c)];
    if rest.len() > 0 {
        head.push(paint::weighted(" "@ + rest, c, f == Flavor::Neon))
    } else {
        head
    }
}

/// A text cut at its last white space, which is dropped.
pub open spec fn last_word(t: Seq<char>) -> (Seq<char>, Seq<char>) {
    match text::white_before(t, t.len() as int) {
        Some(i) => (t.subrange(0, i), t.subrange(i + 1, t.len() as int)),
        None => (t, Seq::empty()),
    }
}

/// A text cut before its first white space.
pub open spec fn name_and_gap(t: Seq<char>) -> (Seq<char>, Seq<char>) {
    match text::white_from(t, 0) {
        Some(i) => (t.subrange(0, i), t.subrange(i, t.len() as int)),
        None => (t, Seq::empty()),
    }
}

/// An interface row: name, address, state; the columns keep their gaps.
pub open spec fn interface_row(f: Flavor, t: Seq<char>) -> Seq<SpanText> {
    let (head, status) = last_word(t);
    let (name, rest) = name_and_gap(head);
    let c = if status == "up"@ {
        paint::hue(f, Role::Good)
    } else if status == "down"@ {
        paint::hue(f, Role::Bad)
    } else {
        paint::hue(f, Role::Warn)
    };
    let first = seq![paint::plain("   "@), paint::strong(name, paint::hue(f, Role::Body))];
    let second = if rest.len() > 0 {
        first.push(paint::colored(rest, paint::hue(f, Role::Dim)))
    } else {
        first
    };
    if status.len() > 0 {
        second.push(paint::colored(" "@ + status, c))
    } else {
        second
    }
}

/// A prerequisite row, ticked or not.
pub open spec fn check_row(f: Flavor, t: Seq<char>) -> Seq<SpanText> {
    let rest = " "@ + t.subrange(3, t.len() as int);
    if text::begins(t, "[x]"@) {
        seq![paint::plain(" "@), paint::strong("+"@, paint::hue(f, Role::Good)), paint::colored(rest, paint::hue(f, Role::Body))]
    } else {
        seq![paint::plain(" "@), paint::strong("x"@, paint::hue(f, Role::Bad)), paint::colored(rest, paint::hue(f, Role::Dim))]
    }
}

/// Does a line report that something is missing?
pub open spec fn lacking(f: Flavor, t: Seq<char>) -> bool {
    text::holds(t, "MISSING"@) || text::holds(t, "not installed"@) || text::holds(t, "offline"@)
        || (f == Flavor::Neon && text::holds(t, "missing"@))
}

/// One line of a report, in the section it stands in.
pub open spec fn scan_line(
    f: Flavor,
    line: Seq<char>,
    in_ports: bool,
    in_interfaces: bool,
) -> Seq<SpanText> {
    let t = text::trimmed_start(line);
    if scan_heading(t) {
        seq![paint::strong(" "@ + line, paint::hue(f, Role::Section))]
    } else if text::begins(t, "PORT "@) {
        seq![paint::colored(line, paint::hue(f, Role::Dim))]
    } else if in_ports && t.len() > 0 {
        if t == "(none)"@ {
            seq![paint::colored(" "@ + line, paint::hue(f, Role::Dim))]
        } else {
            port_row(f, t)
        }
    } else if in_interfaces && t.len() > 0 && !text::holds(t, ":"@) {
        interface_row(f, t)
    } else if text::begins(t, "[x]"@) || text::begins(t, "[ ]"@) {
        check_row(f, t)
    } else if text::begins(t, "!"@) {
        seq![paint::strong(line, paint::hue(f, Role::Bad))]
    } else if lacking(f, t) {
        seq![paint::colored(line, paint::hue(f, Role::Bad))]
    } else {
        seq![paint::colored(line, paint::hue(f, Role::Body))]
    }
}

/// A report in colour: line by line.
pub open spec fn scan_lines(f: Flavor, report: Seq<char>) -> Seq<Seq<SpanText>> {
    let lines = text::lines(report);
    Seq::new(
        lines.len(),
        |i: int| scan_line(f, lines[i], scan_section(lines, i).0, scan_section(lines, i).1),
    )
}

fn paint_port_row(f: Flavor, t: &str) -> (r: Line)
    ensures
        r@ == port_row(f, t@),
{
    let c = if text::contains(t, "(deployed)") {
        hue_of(f, Role::Input)
    } else {
        hue_of(f, Role::Foreign)
    };
    let v = text::chars_of(t);
    let mut line = Line::new();
    line.add_span(Span::raw(" "));
    match text::find_white(&v) {
        Some(i) => {
            let n: usize = v.len();
            let port = text::string_range(&v, 0, i);
            let rest = text::string_range(&v, i + 1, n);
            line.add_span(Span::strong(port.as_str(), c));
            if !rest.as_str().is_empty() {
                let mut s = " ".to_owned();
                s.append(rest.as_str());
                line.add_span(Span::weighted(s.as_str(), c, f == Flavor::Neon));
            }
        },
        None => {
            line.add_span(Span::strong(t, c));
        },
    }
    line
}

fn paint_interface_row(f: Flavor, t: &str) -> (r: Line)
    ensures
        r@ == interface_row(f, t@),
{
    let v = text::chars_of(t);
    let n: usize = v.len();
    let (head, status) = match text::rfind_white(&v) {
        Some(i) => (text::string_range(&v, 0, i), text::string_range(&v, i + 1, n)),
        None => (t.to_owned(), String::new()),
    };
    assert((head@, status@) == last_word(t@));
    let h = text::chars_of(head.as_str());
    let (name, rest) = match text::find_white(&h) {
        Some(i) => (text::string_range(&h, 0, i), text::string_range(&h, i, h.len())),
        None => (head, String::new()),
    };
    assert((name@, rest@) == name_and_gap(h@));
    let c = if text::same(status.as_str(), "up") {
        hue_of(f, Role::Good)
    } else if text::same(status.as_str(), "down") {
        hue_of(f, Role::Bad)
    } else {
        hue_of(f, Role::Warn)
    };
    let mut line = Line::new();
    line.add_span(Span::raw("   "));
    line.add_span(Span::strong(name.as_str(), hue_of(f, Role::Body)));
    if !rest.as_str().is_empty() {
        line.add_span(Span::colored(rest.as_str(), hue_of(f, Role::Dim)));
    }
    if !status.as_str().is_empty() {
        let mut s = " ".to_owned();
        s.append(status.as_str());
        line.add_span(Span::colored(s.as_str(), c));
    }
    line
}

fn paint_check_row(f: Flavor, t: &str) -> (r: Line)
    requires
        t@.len() >= 3,
    ensures
        r@ == check_row(f, t@),
{
    let v = text::chars_of(t);
    let tail = text::string_range(&v, 3, v.len());
    let mut rest = " ".to_owned();
    rest.append(tail.as_str());
    let mut line = Line::new();
    line.add_span(Span::raw(" "));
    if text::starts_with(t, "[x]") {
        line.add_span(Span::strong("+", hue_of(f, Role::Good)));
        line.add_span(Span::colored(rest.as_str(), hue_of(f, Role::Body)));
    } else {
        line.add_span(Span::strong("x", hue_of(f, Role::Bad)));
        line.add_span(Span::colored(rest.as_str(), hue_of(f, Role::Dim)));
    }
    line
}

fn spaced(line: &str) -> (r: String)
    ensures
        r@ == " "@ + line@,
{
    let mut s = " ".to_owned();
    s.append(line);
    s
}

fn paint_scan_line(f: Flavor, line: &str, in_ports: bool, in_interfaces: bool) -> (r: Line)
    ensures
        r@ == scan_line(f, line@, in_ports, in_interfaces),
{
    let t = text::trim_start(line);
    let t = t.as_str();
    if text::same(t, "Interfaces:") || text::same(t, "Listening ports:") {
        Line::of(Span::strong(spaced(line).as_str(), hue_of(f, Role::Section)))
    } else if text::starts_with(t, "PORT ") {
        Line::of(Span::colored(line, hue_of(f, Role::Dim)))
    } else if in_ports && !t.is_empty() {
        if text::same(t, "(none)") {
            Line::of(Span::colored(spaced(line).as_str(), hue_of(f, Role::Dim)))
        } else {
            paint_port_row(f, t)
        }
    } else if in_interfaces && !t.is_empty() && !text::contains(t, ":") {
        paint_interface_row(f, t)
    } else if text::starts_with(t, "[x]") || text::starts_with(t, "[ ]") {
        proof {
            reveal_strlit("[x]");
            reveal_strlit("[ ]");
        }
        paint_check_row(f, t)
    } else if text::starts_with(t, "!") {
        Line::of(Span::strong(line, hue_of(f, Role::Bad)))
    } else if text::contains(t, "MISSING") || text::contains(t, "not installed")
        || text::contains(t, "offline") || (f == Flavor::Neon && text::contains(t, "missing")) {
        Line::of(Span::colored(line, hue_of(f, Role::Bad)))
    } else {
        Line::of(Span::colored(line, hue_of(f, Role::Body)))
    }
}

/// Heuristic colorizer for the scan report.
pub fn colorize_scan(f: Flavor, report: &str) -> (r: Vec<Line>)
    ensures
        paint::painted(r@) == scan_lines(f, report@),
{
    let rows = text::lines_of(report);
    let ghost all = text::lines(report@);
    assert(text::texts(rows@).len() == rows@.len());
    let mut out = no_lines();
    let mut in_ports = false;
    let mut in_interfaces = false;
    let mut i: usize = 0;
    while i < rows.len()
        invariant
            i <= rows@.len(),
            all == text::texts(rows@),
            all == text::lines(report@),
            all.len() == rows@.len(),
            (in_ports, in_interfaces) == scan_section(all, i as int),
            paint::painted(out@) == scan_lines(f, report@).take(i as int),
        decreases rows@.len() - i,
    {
        assert(all[i as int] == rows@[i as int]@);
        let line = paint_scan_line(f, rows[i].as_str(), in_ports, in_interfaces);
        assert(line@ == scan_lines(f, report@)[i as int]);
        add_line(&mut out, line);
        assert(scan_lines(f, report@).take(i + 1) =~= scan_lines(f, report@).take(i as int).push(
            scan_lines(f, report@)[i as int],
        ));
        let t = text::trim_start(rows[i].as_str());
        if text::same(t.as_str(), "Interfaces:") || text::same(t.as_str(), "Listening ports:") {
            in_ports = text::same(t.as_str(), "Listening ports:");
            in_interfaces = text::same(t.as_str(), "Interfaces:");
        }
        i = i + 1;
    }
    assert(scan_lines(f, report@).take(i as int) =~= scan_lines(f, report@));
    out
}

/// A row of a deployed port is painted as ours, any other as foreign, and
/// nothing in it is painted otherwise.
pub proof fn law_port_rows_tell_ours_from_foreign(f: Flavor, t: Seq<char>, i: int)
    requires
        0 < i < port_row(f, t).len(),
    ensures
        port_row(f, t)[i].style.fg == Some(
            if text::holds(t, "(deployed)"@) {
                paint::hue(f, Role::Input)
            } else {
                paint::hue(f, Role::Foreign)
            },
        ),
{
}

// ---------------------------------------------------------------------------
// Animation
// ---------------------------------------------------------------------------

/// A frame of the spinner.
pub open spec fn spinner(n: int) -> Seq<char> {
    if n == 0 {
        "⠋"@
    } else if n == 1 {
        "⠙"@
    } else if n == 2 {
        "⠹"@
    } else if n == 3 {
        "⠸"@
    } else if n == 4 {
        "⠼"@
    } else if n == 5 {
        "⠴"@
    } else if n == 6 {
        "⠦"@
    } else if n == 7 {
        "⠧"@
    } else if n == 8 {
        "⠇"@
    } else {
        "⠏"@
    }
}

/// The frame at a tick: each lasts two.
pub fn spinner_char(tick: u64) -> (r: &'static str)
    ensures
        r@ == spinner((tick / 2) as int % 10),
{
    let n: u64 = (tick / 2) % 10;
    match n {
        0 => "⠋",
        1 => "⠙",
        2 => "⠹",
        3 => "⠸",
        4 => "⠼",
        5 => "⠴",
        6 => "⠦",
        7 => "⠧",
        8 => "⠇",
        _ => "⠏",
    }
}

/// The colour of the spinner at a tick. The neon one runs through three.
pub open spec fn spinner_hue(f: Flavor, tick: u64) -> Role {
    if f == Flavor::Red || (tick / 6) as int % 3 == 0 {
        Role::Accent
    } else if (tick / 6) as int % 3 == 1 {
        Role::Deploy
    } else {
        Role::Warn
    }
}

fn spinner_span(f: Flavor, tick: u64) -> (r: Span)
    ensures
        r@ == paint::strong(spinner((tick / 2) as int % 10), paint::hue(f, spinner_hue(f, tick))),
{
    let k: u64 = (tick / 6) % 3;
    let role = if f == Flavor::Red || k == 0 {
        Role::Accent
    } else if k == 1 {
        Role::Deploy
    } else {
        Role::Warn
    };
    Span::strong(spinner_char(tick), hue_of(f, role))
}

/// The blinking cursor at a tick.
pub open spec fn cursor(f: Flavor, tick: u64) -> SpanText {
    if (tick / 4) as int % 2 == 0 {
        paint::colored("█"@, paint::hue(f, Role::Input))
    } else {
        paint::plain(" "@)
    }
}

pub fn cursor_span(f: Flavor, tick: u64) -> (r: Span)
    ensures
        r@ == cursor(f, tick),
{
    if (tick / 4) % 2 == 0 {
        Span::colored("█", hue_of(f, Role::Input))
    } else {
        Span::raw(" ")
    }
}

// ---------------------------------------------------------------------------
// Scan and address
// ---------------------------------------------------------------------------

/// The scan screen.
pub open spec fn scan_body(
    f: Flavor,
    report: Option<Seq<char>>,
    running: bool,
    tick: u64,
) -> Seq<Seq<SpanText>> {
    match report {
        Some(r) => scan_lines(f, r),
        None => if running {
            let busy = seq![
                paint::strong(spinner((tick / 2) as int % 10), paint::hue(f, spinner_hue(f, tick))),
                paint::colored(" scanning local system..."@, paint::hue(f, Role::Dim)),
            ];
            if f == Flavor::Neon {
                seq![
                    busy,
                    seq![
                        paint::colored(
                            "  (this lists interfaces and occupied ports)"@,
                            paint::hue(f, Role::Dim),
                        ),
                    ],
                ]
            } else {
                seq![busy]
            }
        } else {
            Seq::empty()
        },
    }
}

pub fn draw_scan(f: Flavor, report: &Option<String>, running: bool, tick: u64) -> (r: Vec<Line>)
    ensures
        paint::painted(r@) == scan_body(f, text::opt_text(*report), running, tick),
{
    match report {
        Some(r) => colorize_scan(f, r.as_str()),
        None => {
            let mut out = no_lines();
            if running {
                let mut busy = Line::of(spinner_span(f, tick));
                busy.add_span(Span::colored(" scanning local system...", hue_of(f, Role::Dim)));
                add_line(&mut out, busy);
                if f == Flavor::Neon {
                    add_line(
                        &mut out,
                        Line::of(
                            Span::colored(
                                "  (this lists interfaces and occupied ports)",
                                hue_of(f, Role::Dim),
                            ),
                        ),
                    );
                }
            }
            assert(paint::painted(out@) =~~= scan_body(f, None, running, tick));
            out
        },
    }
}

/// The services on offer.
pub open spec fn offer_line(f: Flavor) -> Seq<SpanText> {
    let dot = paint::colored(" · "@, paint::hue(f, Role::Dim));
    seq![
        paint::plain("  "@),
        paint::colored("VERT-sh/VERT"@, paint::hue(f, Role::Accent)),
        dot,
        paint::colored("searxng/searxng"@, paint::hue(f, Role::Warn)),
        dot,
        paint::colored("usememos/memos"@, paint::hue(f, Role::Good)),
    ]
}

/// The address screen: what is on offer, the address with its cursor, what is
/// wrong or right with it, and whether it is being looked at.
pub open spec fn url_body(
    f: Flavor,
    buffer: Seq<char>,
    error: Option<Seq<char>>,
    busy: bool,
    tick: u64,
) -> Seq<Seq<SpanText>> {
    let head = seq![
        seq![paint::colored(" Supported demo services:"@, paint::hue(f, Role::Dim))],
        offer_line(f),
        Seq::empty(),
        seq![
            paint::colored(" GitHub URL: "@, paint::hue(f, Role::Prompt)),
            paint::colored(buffer, paint::hue(f, Role::Strong)),
            cursor(f, tick),
        ],
    ];
    let typed = text::trimmed(buffer);
    let judged = match error {
        Some(e) => head.push(seq![paint::colored(" x "@ + e, paint::hue(f, Role::Bad))]),
        None => if typed.len() == 0 {
            head
        } else if text::begins(typed, "https://"@) {
            head.push(seq![paint::colored(" + looks like a GitHub URL"@, paint::hue(f, Role::Good))])
        } else {
            head.push(
                seq![
                    paint::colored(
                        " △ expected https://github.com/<owner>/<repo>"@,
                        paint::hue(f, Role::Warn),
                    ),
                ],
            )
        },
    };
    if busy {
        judged.push(
            seq![
                paint::strong(spinner((tick / 2) as int % 10), paint::hue(f, spinner_hue(f, tick))),
                paint::colored(" resolving..."@, paint::hue(f, Role::Prompt)),
            ],
        )
    } else {
        judged
    }
}

pub fn draw_url_input(
    f: Flavor,
    buffer: &str,
    error: &Option<String>,
    busy: bool,
    tick: u64,
) -> (r: Vec<Line>)
    ensures
        paint::painted(r@) == url_body(f, buffer@, text::opt_text(*error), busy, tick),
{
    let mut out = no_lines();
    add_line(
        &mut out,
        Line::of(Span::colored(" Supported demo services:", hue_of(f, Role::Dim))),
    );
    let mut offer = Line::of(Span::raw("  "));
    offer.add_span(Span::colored("VERT-sh/VERT", hue_of(f, Role::Accent)));
    offer.add_span(Span::colored(" · ", hue_of(f, Role::Dim)));
    offer.add_span(Span::colored("searxng/searxng", hue_of(f, Role::Warn)));
    offer.add_span(Span::colored(" · ", hue_of(f, Role::Dim)));
    offer.add_span(Span::colored("usememos/memos", hue_of(f, Role::Good)));
    add_line(&mut out, offer);
    add_line(&mut out, Line::new());
    let mut input = Line::of(Span::colored(" GitHub URL: ", hue_of(f, Role::Prompt)));
    input.add_span(Span::colored(buffer, hue_of(f, Role::Strong)));
    input.add_span(cursor_span(f, tick));
    add_line(&mut out, input);
    let typed = text::trim(buffer);
    match error {
        Some(e) => {
            let mut m = " x ".to_owned();
            m.append(e.as_str());
            add_line(&mut out, Line::of(Span::colored(m.as_str(), hue_of(f, Role::Bad))));
        },
        None => {
            if !typed.as_str().is_empty() {
                if text::starts_with(typed.as_str(), "https://") {
                    add_line(
                        &mut out,
                        Line::of(
                            Span::colored(" + looks like a GitHub URL", hue_of(f, Role::Good)),
                        ),
                    );
                } else {
                    add_line(
                        &mut out,
                        Line::of(
                            Span::colored(
                                " △ expected https://github.com/<owner>/<repo>",
                                hue_of(f, Role::Warn),
                            ),
                        ),
                    );
                }
            }
        },
    }
    if busy {
        let mut line = Line::of(spinner_span(f, tick));
        line.add_span(Span::colored(" resolving...", hue_of(f, Role::Prompt)));
        add_line(&mut out, line);
    }
    assert(paint::painted(out@) =~~= url_body(f, buffer@, text::opt_text(*error), busy, tick));
    out
}

// ---------------------------------------------------------------------------
// Gates
// ---------------------------------------------------------------------------

/// One selectable YES/NO button.
pub open spec fn choice(
    f: Flavor,
    marker: Seq<char>,
    label: Seq<char>,
    role: Role,
    selected: bool,
) -> Seq<SpanText> {
    if selected {
        seq![
            paint::plain("   "@),
            paint::strong("» "@, paint::hue(f, role)),
            SpanText {
                content: marker,
                style: Style { fg: Some(paint::hue(f, role)), bg: None, bold: true, reversed: true },
            },
            paint::strong(label, paint::hue(f, Role::Strong)),
        ]
    } else {
        seq![
            paint::plain("   "@),
            paint::plain("  "@),
            paint::colored(marker, paint::hue(f, Role::Dim)),
            paint::colored(label, paint::hue(f, Role::Faint)),
        ]
    }
}

/// One selectable YES/NO button; the arrow keys move the highlight.
pub fn choice_spans(f: Flavor, marker: &str, label: &str, role: Role, selected: bool) -> (r: Line)
    ensures
        r@ == choice(f, marker@, label@, role, selected),
{
    let mut line = Line::of(Span::raw("   "));
    if selected {
        line.add_span(Span::strong("» ", hue_of(f, role)));
        line.add_span(
            Span {
                content: marker.to_owned(),
                style: Style { fg: Some(hue_of(f, role)), bg: None, bold: true, reversed: true },
            },
        );
        line.add_span(Span::strong(label, hue_of(f, Role::Strong)));
    } else {
        line.add_span(Span::raw("  "));
        line.add_span(Span::colored(marker, hue_of(f, Role::Dim)));
        line.add_span(Span::colored(label, hue_of(f, Role::Faint)));
    }
    line
}

pub open spec fn gate_hint(f: Flavor) -> Seq<SpanText> {
    seq![paint::colored(" ←→ select · Enter confirm"@, paint::hue(f, Role::Dim))]
}

/// The question before a deploy.
pub open spec fn confirm_body(
    f: Flavor,
    url: Seq<char>,
    service_label: Seq<char>,
    yes: bool,
) -> Seq<Seq<SpanText>> {
    seq![
        Seq::empty(),
        seq![
            paint::strong(" Host "@, paint::hue(f, Role::Prompt)),
            paint::colored(service_label, paint::hue(f, Role::Strong)),
            paint::colored(" on this machine?"@, paint::hue(f, Role::Body)),
        ],
        seq![paint::colored(" URL: "@, paint::hue(f, Role::Dim)), paint::colored(url, paint::hue(f, Role::Accent))],
        Seq::empty(),
        choice(f, "[Y]es"@, " — deploy"@, Role::Good, yes),
        choice(f, "[N]o"@, " — cancel"@, Role::Warn, !yes),
        Seq::empty(),
        gate_hint(f),
    ]
}

pub fn draw_confirm(f: Flavor, url: &str, service_label: &str, yes: bool) -> (r: Vec<Line>)
    ensures
        paint::painted(r@) == confirm_body(f, url@, service_label@, yes),
{
    let mut out = no_lines();
    add_line(&mut out, Line::new());
    let mut question = Line::of(Span::strong(" Host ", hue_of(f, Role::Prompt)));
    question.add_span(Span::colored(service_label, hue_of(f, Role::Strong)));
    question.add_span(Span::colored(" on this machine?", hue_of(f, Role::Body)));
    add_line(&mut out, question);
    let mut address = Line::of(Span::colored(" URL: ", hue_of(f, Role::Dim)));
    address.add_span(Span::colored(url, hue_of(f, Role::Accent)));
    add_line(&mut out, address);
    add_line(&mut out, Line::new());
    add_line(&mut out, choice_spans(f, "[Y]es", " — deploy", Role::Good, yes));
    add_line(&mut out, choice_spans(f, "[N]o", " — cancel", Role::Warn, !yes));
    add_line(&mut out, Line::new());
    add_line(
        &mut out,
        Line::of(Span::colored(" ←→ select · Enter confirm", hue_of(f, Role::Dim))),
    );
    assert(paint::painted(out@) =~~= confirm_body(f, url@, service_label@, yes));
    out
}

/// A gate before something is destroyed: the question, what it means, and the
/// two buttons.
pub open spec fn destroy_body(
    f: Flavor,
    verb: Seq<char>,
    what: Seq<char>,
    note: Seq<char>,
    yes_label: Seq<char>,
    yes: bool,
) -> Seq<Seq<SpanText>> {
    seq![
        Seq::empty(),
        seq![
            paint::strong(verb, paint::hue(f, Role::Bad)),
            paint::colored(what, paint::hue(f, Role::Strong)),
            paint::colored("?"@, paint::hue(f, Role::Bad)),
        ],
        seq![paint::colored(note, paint::hue(f, Role::Dim))],
        Seq::empty(),
        choice(f, "[Y]es"@, yes_label, Role::Bad, yes),
        choice(f, "[N]o"@, " — keep"@, Role::Good, !yes),
        Seq::empty(),
        gate_hint(f),
    ]
}

fn draw_destroy(
    f: Flavor,
    verb: &str,
    what: &str,
    note: &str,
    yes_label: &str,
    yes: bool,
) -> (r: Vec<Line>)
    ensures
        paint::painted(r@) == destroy_body(f, verb@, what@, note@, yes_label@, yes),
{
    let mut out = no_lines();
    add_line(&mut out, Line::new());
    let mut question = Line::of(Span::strong(verb, hue_of(f, Role::Bad)));
    question.add_span(Span::colored(what, hue_of(f, Role::Strong)));
    question.add_span(Span::colored("?", hue_of(f, Role::Bad)));
    add_line(&mut out, question);
    add_line(&mut out, Line::of(Span::colored(note, hue_of(f, Role::Dim))));
    add_line(&mut out, Line::new());
    add_line(&mut out, choice_spans(f, "[Y]es", yes_label, Role::Bad, yes));
    add_line(&mut out, choice_spans(f, "[N]o", " — keep", Role::Good, !yes));
    add_line(&mut out, Line::new());
    add_line(
        &mut out,
        Line::of(Span::colored(" ←→ select · Enter confirm", hue_of(f, Role::Dim))),
    );
    assert(paint::painted(out@) =~~= destroy_body(f, verb@, what@, note@, yes_label@, yes));
    out
}

pub fn draw_confirm_delete(f: Flavor, name: &str, yes: bool) -> (r: Vec<Line>)
    ensures
        paint::painted(r@) == destroy_body(
            f,
            " Remove "@,
            name@,
            " This deletes the unit, the cloned repository and its caches."@,
            " — remove"@,
            yes,
        ),
{
    draw_destroy(
        f,
        " Remove ",
        name,
        " This deletes the unit, the cloned repository and its caches.",
        " — remove",
        yes,
    )
}

pub open spec fn clear_what(target: LogView) -> Seq<char> {
    match target {
        LogView::Deploy => "deploy logs"@,
        LogView::Software => "software logs"@,
    }
}

pub open spec fn clear_note(target: LogView) -> Seq<char> {
    match target {
        LogView::Deploy => "This truncates ~/.local/state/demo-ghostprovider/deploy.log and clears the view."@,
        LogView::Software => "This clears the displayed journal view (systemd journal itself is kept)."@,
    }
}

pub fn draw_confirm_clear(f: Flavor, target: LogView, yes: bool) -> (r: Vec<Line>)
    ensures
        paint::painted(r@) == destroy_body(
            f,
            " Clear "@,
            clear_what(target),
            clear_note(target),
            " — clear"@,
            yes,
        ),
{
    match target {
        LogView::Deploy => draw_destroy(
            f,
            " Clear ",
            "deploy logs",
            "This truncates ~/.local/state/demo-ghostprovider/deploy.log and clears the view.",
            " — clear",
            yes,
        ),
        LogView::Software => draw_destroy(
            f,
            " Clear ",
            "software logs",
            "This clears the displayed journal view (systemd journal itself is kept).",
            " — clear",
            yes,
        ),
    }
}

// ---------------------------------------------------------------------------
// The deploy screen
// ---------------------------------------------------------------------------

/// A doctor line: the problem, the fix command, and the note.
pub open spec fn doctor_rows(f: Flavor, i: toolcheck::IssueText) -> Seq<Seq<SpanText>> {
    let head = seq![
        seq![paint::strong(" ! "@, paint::hue(f, Role::Warn)), paint::colored(i.problem, paint::hue(f, Role::Bad))],
        seq![paint::colored("   fix » "@, paint::hue(f, Role::Dim)), paint::strong(i.fix, paint::hue(f, Role::Accent))],
    ];
    match i.note {
        Some(n) => head.push(
            seq![paint::colored("      "@, paint::hue(f, Role::Dim)), paint::colored(n, paint::hue(f, Role::Dim))],
        ),
        None => head,
    }
}

pub fn doctor_lines(f: Flavor, body: &str) -> (r: Option<Vec<Line>>)
    ensures
        match r {
            Some(v) => toolcheck::issue_of(body@) is Some && paint::painted(v@) == doctor_rows(
                f,
                toolcheck::issue_of(body@).unwrap(),
            ),
            None => toolcheck::issue_of(body@) is None,
        },
{
    match toolcheck::split_issue(body) {
        Some(i) => {
            let mut out = no_lines();
            let mut problem = Line::of(Span::strong(" ! ", hue_of(f, Role::Warn)));
            problem.add_span(Span::colored(i.problem.as_str(), hue_of(f, Role::Bad)));
            add_line(&mut out, problem);
            let mut fix = Line::of(Span::colored("   fix » ", hue_of(f, Role::Dim)));
            fix.add_span(Span::strong(i.fix.as_str(), hue_of(f, Role::Accent)));
            add_line(&mut out, fix);
            match &i.note {
                Some(n) => {
                    let mut note = Line::of(Span::colored("      ", hue_of(f, Role::Dim)));
                    note.add_span(Span::colored(n.as_str(), hue_of(f, Role::Dim)));
                    add_line(&mut out, note);
                },
                None => {},
            }
            assert(paint::painted(out@) =~~= doctor_rows(f, i@));
            Some(out)
        },
        None => None,
    }
}

/// A doctor issue carries a problem statement plus an explicit fix command.
pub fn doctor_body_markers(s: &str) -> (r: bool)
    ensures
        r == toolcheck::issue_line(s@),
{
    toolcheck::is_issue_line(s)
}

/// The colour of a log line that is nothing special.
pub open spec fn log_role(s: Seq<char>) -> Role {
    if text::holds(s, "failed"@) || text::holds(s, "ERROR"@) {
        Role::Bad
    } else if text::ends(s, "..."@) {
        Role::Warn
    } else if text::begins(s, "=>"@) {
        Role::Accent
    } else {
        Role::Body
    }
}

/// A mark and what it marks, in a colour.
pub open spec fn marked_row(
    f: Flavor,
    mark: Seq<char>,
    body: Seq<char>,
    role: Role,
) -> Seq<Seq<SpanText>> {
    seq![seq![paint::strong(mark, paint::hue(f, role)), paint::colored(body, paint::hue(f, role))]]
}

/// One deployment log line in colour; doctor lines make several.
pub open spec fn log_rows(f: Flavor, line: Seq<char>) -> Seq<Seq<SpanText>> {
    let s = text::trimmed_start(line);
    match text::after_prefix(s, "! "@) {
        Some(body) => match toolcheck::issue_of(body) {
            Some(i) => doctor_rows(f, i),
            None => marked_row(f, " ✖ "@, body, Role::Bad),
        },
        None => match text::after_prefix(s, "warn: "@) {
            Some(body) => marked_row(f, " ! "@, body, Role::Warn),
            None => match (f, text::after_prefix(s, "provision: "@)) {
                (Flavor::Red, Some(body)) => marked_row(f, " ● "@, body, Role::Good),
                _ => match text::after_prefix(s, "listening on "@) {
                    Some(url) => seq![
                        seq![
                            paint::colored(" ✔ listening on "@, paint::hue(f, Role::Good)),
                            paint::strong(url, paint::hue(f, Role::Good)),
                        ],
                    ],
                    None => seq![seq![paint::colored(" "@ + line, paint::hue(f, log_role(s)))]],
                },
            },
        },
    }
}

fn paint_marked(f: Flavor, mark: &str, body: &str, role: Role) -> (r: Vec<Line>)
    ensures
        paint::painted(r@) == marked_row(f, mark@, body@, role),
{
    let mut line = Line::of(Span::strong(mark, hue_of(f, role)));
    line.add_span(Span::colored(body, hue_of(f, role)));
    let mut out = no_lines();
    add_line(&mut out, line);
    assert(paint::painted(out@) =~~= marked_row(f, mark@, body@, role));
    out
}

/// Colorize one deployment log line; tool-doctor issues get structured
/// multi-line treatment (problem / fix command / note).
pub fn log_lines(f: Flavor, line: &str) -> (r: Vec<Line>)
    ensures
        paint::painted(r@) == log_rows(f, line@),
{
    let t = text::trim_start(line);
    let s = t.as_str();
    match text::strip_prefix(s, "! ") {
        Some(body) => {
            return match doctor_lines(f, body.as_str()) {
                Some(rows) => rows,
                None => paint_marked(f, " ✖ ", body.as_str(), Role::Bad),
            };
        },
        None => {},
    }
    match text::strip_prefix(s, "warn: ") {
        Some(body) => {
            return paint_marked(f, " ! ", body.as_str(), Role::Warn);
        },
        None => {},
    }
    if f == Flavor::Red {
        match text::strip_prefix(s, "provision: ") {
            Some(body) => {
                return paint_marked(f, " ● ", body.as_str(), Role::Good);
            },
            None => {},
        }
    }
    let mut out = no_lines();
    match text::strip_prefix(s, "listening on ") {
        Some(url) => {
            let mut l = Line::of(Span::colored(" ✔ listening on ", hue_of(f, Role::Good)));
            l.add_span(Span::strong(url.as_str(), hue_of(f, Role::Good)));
            add_line(&mut out, l);
        },
        None => {
            let role = if text::contains(s, "failed") || text::contains(s, "ERROR") {
                Role::Bad
            } else if text::ends_with(s, "...") {
                Role::Warn
            } else if text::starts_with(s, "=>") {
                Role::Accent
            } else {
                Role::Body
            };
            add_line(&mut out, Line::of(Span::colored(spaced(line).as_str(), hue_of(f, role))));
        },
    }
    assert(paint::painted(out@) =~~= log_rows(f, line@));
    out
}

/// Is a log line a doctor line?
pub open spec fn doctor_line(line: Seq<char>) -> bool {
    toolcheck::issue_line(text::trimmed_start(line))
}

pub open spec fn doctor_heading(f: Flavor) -> Seq<SpanText> {
    seq![
        paint::colored(" ──"@, paint::hue(f, Role::Dim)),
        paint::strong(" TOOL DOCTOR "@, paint::hue(f, Role::Warn)),
        paint::colored("────────────────"@, paint::hue(f, Role::Dim)),
    ]
}

/// The first `n` lines of a deploy in colour. Each run of doctor lines stands
/// under a heading, set off by an empty line.
pub open spec fn deploy_rows(f: Flavor, lines: Seq<Seq<char>>, n: int) -> Seq<Seq<SpanText>>
    decreases n,
{
    if n <= 0 {
        Seq::empty()
    } else {
        let before = deploy_rows(f, lines, n - 1);
        let opens = doctor_line(lines[n - 1]) && !(n >= 2 && doctor_line(lines[n - 2]));
        let gap = if opens && before.len() > 0 {
            before.push(Seq::empty())
        } else {
            before
        };
        let headed = if opens {
            gap.push(doctor_heading(f))
        } else {
            gap
        };
        headed + log_rows(f, lines[n - 1])
    }
}

/// The body of the deploy screen.
pub fn draw_deploy(f: Flavor, lines: &Vec<String>) -> (r: Vec<Line>)
    ensures
        paint::painted(r@) == deploy_rows(f, text::texts(lines@), lines@.len() as int),
{
    let ghost all = text::texts(lines@);
    let mut out = no_lines();
    let mut prev_doctor = false;
    let mut i: usize = 0;
    while i < lines.len()
        invariant
            i <= lines@.len(),
            all == text::texts(lines@),
            paint::painted(out@) == deploy_rows(f, all, i as int),
            out@.len() == paint::painted(out@).len(),
            prev_doctor == (i >= 1 && doctor_line(all[i - 1])),
        decreases lines@.len() - i,
    {
        assert(all[i as int] == lines@[i as int]@);
        let t = text::trim_start(lines[i].as_str());
        let is_doctor = doctor_body_markers(t.as_str());
        if is_doctor && !prev_doctor {
            if out.len() > 0 {
                add_line(&mut out, Line::new());
            }
            let mut h = Line::of(Span::colored(" ──", hue_of(f, Role::Dim)));
            h.add_span(Span::strong(" TOOL DOCTOR ", hue_of(f, Role::Warn)));
            h.add_span(Span::colored("────────────────", hue_of(f, Role::Dim)));
            assert(h@ =~= doctor_heading(f));
            add_line(&mut out, h);
        }
        add_lines(&mut out, log_lines(f, lines[i].as_str()));
        prev_doctor = is_doctor;
        i = i + 1;
    }
    out
}

/// The verdict under a finished deploy.
pub open spec fn verdict_row(f: Flavor, ok: bool) -> Seq<SpanText> {
    if ok {
        seq![paint::badge(" ✔ DEPLOYED ✔ "@, paint::hue(f, Role::Ink), paint::hue(f, Role::Good))]
    } else {
        seq![paint::badge(" ✖ FAILED ✖ "@, paint::hue(f, Role::Ink), paint::hue(f, Role::Bad))]
    }
}

pub fn verdict_line(f: Flavor, ok: bool) -> (r: Line)
    ensures
        r@ == verdict_row(f, ok),
{
    if ok {
        Line::of(Span::badge(" ✔ DEPLOYED ✔ ", hue_of(f, Role::Ink), hue_of(f, Role::Good)))
    } else {
        Line::of(Span::badge(" ✖ FAILED ✖ ", hue_of(f, Role::Ink), hue_of(f, Role::Bad)))
    }
}

/// A time span in its two largest units.
pub open spec fn span_text(total: nat) -> Seq<char> {
    if total >= 3600 {
        text::decimal(total / 3600) + "h"@ + text::decimal((total % 3600) / 60) + "m"@
    } else if total >= 60 {
        text::decimal(total / 60) + "m"@ + text::decimal(total % 60) + "s"@
    } else {
        text::decimal(total) + "s"@
    }
}

pub fn fmt_time(total: u64) -> (r: String)
    ensures
        r@ == span_text(total as nat),
{
    if total >= 3600 {
        let mut out = text::decimal_of(total / 3600);
        out.append("h");
        let m = text::decimal_of((total % 3600) / 60);
        out.append(m.as_str());
        out.append("m");
        out
    } else if total >= 60 {
        let mut out = text::decimal_of(total / 60);
        out.append("m");
        let s = text::decimal_of(total % 60);
        out.append(s.as_str());
        out.append("s");
        out
    } else {
        let mut out = text::decimal_of(total);
        out.append("s");
        out
    }
}

/// The banner over a deploy while hosts are unreachable.
pub open spec fn net_row(f: Flavor, down_hosts: nat, since: nat) -> Seq<SpanText> {
    seq![
        paint::badge(" ⚠ NET "@, paint::hue(f, Role::Ink), paint::hue(f, Role::Warn)),
        paint::colored(
            " "@ + text::decimal(down_hosts)
                + " host(s) unreachable — permanent retry, next probe is automatic (since "@
                + span_text(since) + ")"@,
            paint::hue(f, Role::Warn),
        ),
    ]
}

pub fn net_line(f: Flavor, down_hosts: u64, since: u64) -> (r: Line)
    ensures
        r@ == net_row(f, down_hosts as nat, since as nat),
{
    let mut line = Line::of(Span::badge(" ⚠ NET ", hue_of(f, Role::Ink), hue_of(f, Role::Warn)));
    let mut m = " ".to_owned();
    let n = text::decimal_of(down_hosts);
    m.append(n.as_str());
    m.append(" host(s) unreachable — permanent retry, next probe is automatic (since ");
    let t = fmt_time(since);
    m.append(t.as_str());
    m.append(")");
    line.add_span(Span::colored(m.as_str(), hue_of(f, Role::Warn)));
    assert(line@ =~= net_row(f, down_hosts as nat, since as nat));
    line
}

// ---------------------------------------------------------------------------
// The services screen
// ---------------------------------------------------------------------------

/// The title of the services screen, with its commands.
pub open spec fn services_title(f: Flavor, message: Option<Seq<char>>) -> Seq<SpanText> {
    let dim = paint::hue(f, Role::Dim);
    let title = seq![
        paint::colored(" My Services "@, paint::hue(f, Role::Services)),
        paint::colored("["@, dim),
        paint::colored("s"@, paint::hue(f, Role::Warn)),
        paint::colored("]top "@, dim),
        paint::colored("star"@, dim),
        paint::colored("["@, dim),
        paint::colored("t"@, paint::hue(f, Role::Good)),
        paint::colored("] "@, dim),
        paint::colored("["@, dim),
        paint::colored("d"@, paint::hue(f, Role::Bad)),
        paint::colored("]elete "@, dim),
        paint::colored("["@, dim),
        paint::colored("r"@, paint::hue(f, Role::Accent)),
        paint::colored("]efresh"@, dim),
    ];
    match message {
        Some(m) => title.push(paint::colored("  — "@ + m, paint::hue(f, Role::Warn))),
        None => title,
    }
}

pub fn draw_services_title(f: Flavor, message: &Option<String>) -> (r: Line)
    ensures
        r@ == services_title(f, text::opt_text(*message)),
{
    let dim = hue_of(f, Role::Dim);
    let mut t = Line::of(Span::colored(" My Services ", hue_of(f, Role::Services)));
    t.add_span(Span::colored("[", dim));
    t.add_span(Span::colored("s", hue_of(f, Role::Warn)));
    t.add_span(Span::colored("]top ", dim));
    t.add_span(Span::colored("star", dim));
    t.add_span(Span::colored("[", dim));
    t.add_span(Span::colored("t", hue_of(f, Role::Good)));
    t.add_span(Span::colored("] ", dim));
    t.add_span(Span::colored("[", dim));
    t.add_span(Span::colored("d", hue_of(f, Role::Bad)));
    t.add_span(Span::colored("]elete ", dim));
    t.add_span(Span::colored("[", dim));
    t.add_span(Span::colored("r", hue_of(f, Role::Accent)));
    t.add_span(Span::colored("]efresh", dim));
    match message {
        Some(m) => {
            let mut s = "  — ".to_owned();
            s.append(m.as_str());
            t.add_span(Span::colored(s.as_str(), hue_of(f, Role::Warn)));
        },
        None => {},
    }
    assert(t@ =~= services_title(f, text::opt_text(*message)));
    t
}

/// The colour of a unit's state.
pub open spec fn status_role(status: Seq<char>) -> Role {
    if status == "active"@ {
        Role::Good
    } else if status == "activating"@ || status == "reloading"@ {
        Role::Warn
    } else {
        Role::Bad
    }
}

/// The row of a service.
pub open spec fn service_item(f: Flavor, i: int, row: RowText, selected: bool) -> Seq<SpanText> {
    let c = paint::hue(f, status_role(row.status));
    let name = if selected {
        Role::Strong
    } else if i % 2 == 1 {
        Role::Zebra
    } else {
        Role::Body
    };
    seq![
        paint::weighted(
            if selected {
                " » "@
            } else {
                "   "@
            },
            paint::hue(f, Role::Accent),
            selected,
        ),
        paint::weighted(workers::padded(row.name, 16), paint::hue(f, name), selected),
        paint::plain("            "@),
        paint::colored("● "@, c),
        paint::colored(row.status, c),
        paint::colored("  "@ + row.url, paint::hue(f, Role::Dim)),
    ]
}

/// The body of the services screen.
pub open spec fn services_body(
    f: Flavor,
    rows: Seq<RowText>,
    selected: usize,
) -> Seq<Seq<SpanText>> {
    if rows.len() == 0 {
        seq![
            seq![paint::colored(" No services deployed yet."@, paint::hue(f, Role::Dim))],
            Seq::empty(),
            seq![
                paint::colored(
                    if f == Flavor::Neon {
                        " Use “Deploy Service” from the menu."@
                    } else {
                        " Use \"Deploy Service\" from the menu."@
                    },
                    paint::hue(f, Role::Invite),
                ),
            ],
        ]
    } else {
        Seq::new(rows.len(), |i: int| service_item(f, i, rows[i], i == selected))
    }
}

fn paint_service(f: Flavor, i: usize, row: &ServiceRow, selected: bool) -> (r: Line)
    ensures
        r@ == service_item(f, i as int, row@, selected),
{
    let role = if text::same(row.status.as_str(), "active") {
        Role::Good
    } else if text::same(row.status.as_str(), "activating") || text::same(
        row.status.as_str(),
        "reloading",
    ) {
        Role::Warn
    } else {
        Role::Bad
    };
    let c = hue_of(f, role);
    let name_role = if selected {
        Role::Strong
    } else if i % 2 == 1 {
        Role::Zebra
    } else {
        Role::Body
    };
    let arrow = if selected {
        " » "
    } else {
        "   "
    };
    let mut line = Line::of(Span::weighted(arrow, hue_of(f, Role::Accent), selected));
    let name = workers::pad(row.name.as_str(), 16);
    line.add_span(Span::weighted(name.as_str(), hue_of(f, name_role), selected));
    line.add_span(Span::raw("            "));
    line.add_span(Span::colored("● ", c));
    line.add_span(Span::colored(row.status.as_str(), c));
    let mut url = "  ".to_owned();
    url.append(row.url.as_str());
    line.add_span(Span::colored(url.as_str(), hue_of(f, Role::Dim)));
    assert(line@ =~= service_item(f, i as int, row@, selected));
    line
}

pub fn draw_services(f: Flavor, rows: &Vec<ServiceRow>, selected: usize) -> (r: Vec<Line>)
    ensures
        paint::painted(r@) == services_body(f, state::row_texts(rows@), selected),
{
    let ghost all = state::row_texts(rows@);
    assert(all.len() == rows@.len());
    let mut out = no_lines();
    if rows.len() == 0 {
        add_line(
            &mut out,
            Line::of(Span::colored(" No services deployed yet.", hue_of(f, Role::Dim))),
        );
        add_line(&mut out, Line::new());
        let invite = if f == Flavor::Neon {
            " Use “Deploy Service” from the menu."
        } else {
            " Use \"Deploy Service\" from the menu."
        };
        add_line(&mut out, Line::of(Span::colored(invite, hue_of(f, Role::Invite))));
        assert(paint::painted(out@) =~~= services_body(f, all, selected));
        return out;
    }
    let ghost body = services_body(f, all, selected);
    let mut i: usize = 0;
    while i < rows.len()
        invariant
            i <= rows@.len(),
            all == state::row_texts(rows@),
            body == services_body(f, all, selected),
            all.len() == rows@.len(),
            rows@.len() > 0,
            paint::painted(out@) == body.take(i as int),
        decreases rows@.len() - i,
    {
        assert(all[i as int] == rows@[i as int]@);
        let line = paint_service(f, i, &rows[i], i == selected);
        add_line(&mut out, line);
        assert(body.take(i + 1) =~= body.take(i as int).push(body[i as int]));
        i = i + 1;
    }
    assert(body.take(i as int) =~= body);
    out
}

// ---------------------------------------------------------------------------
// The logs screen
// ---------------------------------------------------------------------------

/// The bar that tells which log is shown.
pub open spec fn tab_bar(f: Flavor, view: LogView) -> Seq<SpanText> {
    let deploy = view == LogView::Deploy;
    seq![
        paint::weighted(
            if deploy {
                " [DEPLOY] "@
            } else {
                "  DEPLOY  "@
            },
            paint::hue(
                f,
                if deploy {
                    Role::Input
                } else {
                    Role::Dim
                },
            ),
            deploy,
        ),
        paint::colored(" · "@, paint::hue(f, Role::Dim)),
        paint::weighted(
            if deploy {
                "  SOFTWARE  "@
            } else {
                " [SOFTWARE] "@
            },
            paint::hue(
                f,
                if deploy {
                    Role::Dim
                } else {
                    Role::Good
                },
            ),
            !deploy,
        ),
        paint::colored("  (Tab to switch)"@, paint::hue(f, Role::Dim)),
    ]
}

pub fn draw_tab_bar(f: Flavor, view: LogView) -> (r: Line)
    ensures
        r@ == tab_bar(f, view),
{
    let mut line = Line::new();
    match view {
        LogView::Deploy => {
            line.add_span(Span::weighted(" [DEPLOY] ", hue_of(f, Role::Input), true));
            line.add_span(Span::colored(" · ", hue_of(f, Role::Dim)));
            line.add_span(Span::weighted("  SOFTWARE  ", hue_of(f, Role::Dim), false));
        },
        LogView::Software => {
            line.add_span(Span::weighted("  DEPLOY  ", hue_of(f, Role::Dim), false));
            line.add_span(Span::colored(" · ", hue_of(f, Role::Dim)));
            line.add_span(Span::weighted(" [SOFTWARE] ", hue_of(f, Role::Good), true));
        },
    }
    line.add_span(Span::colored("  (Tab to switch)", hue_of(f, Role::Dim)));
    assert(line@ =~= tab_bar(f, view));
    line
}

/// A line of a log in colour.
pub open spec fn log_view_row(f: Flavor, line: Seq<char>) -> Seq<SpanText> {
    let s = text::trimmed_start(line);
    if text::holds(s, "failed"@) || text::holds(s, "ERROR"@) || text::begins(s, "!"@) {
        seq![paint::colored(line, paint::hue(f, Role::Bad))]
    } else if text::begins(s, "✔"@) {
        seq![paint::strong(line, paint::hue(f, Role::Good))]
    } else if text::begins(s, "provision:"@) || text::begins(s, "warn:"@) {
        seq![paint::colored(line, paint::hue(f, Role::Warn))]
    } else if f == Flavor::Red && text::begins(s, "sandbox:"@) {
        seq![paint::colored(line, paint::hue(f, Role::Dim))]
    } else {
        seq![paint::colored(line, paint::hue(f, Role::Body))]
    }
}

pub open spec fn empty_log_text(view: LogView) -> Seq<char> {
    match view {
        LogView::Deploy => "No deploy logs yet. Start a deployment to see output here."@,
        LogView::Software => "No software logs yet. Journal output will appear here."@,
    }
}

/// The log that is shown, from the line it is scrolled to.
pub open spec fn logs_body(
    f: Flavor,
    view: LogView,
    lines: Seq<Seq<char>>,
    scroll: usize,
) -> Seq<Seq<SpanText>> {
    if lines.len() == 0 {
        seq![seq![paint::colored(empty_log_text(view), paint::hue(f, Role::Dim))]]
    } else {
        let from = if scroll <= lines.len() {
            scroll as int
        } else {
            lines.len() as int
        };
        lines.subrange(from, lines.len() as int).map_values(|l: Seq<char>| log_view_row(f, l))
    }
}

fn paint_log_view(f: Flavor, line: &str) -> (r: Line)
    ensures
        r@ == log_view_row(f, line@),
{
    let t = text::trim_start(line);
    let s = t.as_str();
    if text::contains(s, "failed") || text::contains(s, "ERROR") || text::starts_with(s, "!") {
        Line::of(Span::colored(line, hue_of(f, Role::Bad)))
    } else if text::starts_with(s, "✔") {
        Line::of(Span::strong(line, hue_of(f, Role::Good)))
    } else if text::starts_with(s, "provision:") || text::starts_with(s, "warn:") {
        Line::of(Span::colored(line, hue_of(f, Role::Warn)))
    } else if f == Flavor::Red && text::starts_with(s, "sandbox:") {
        Line::of(Span::colored(line, hue_of(f, Role::Dim)))
    } else {
        Line::of(Span::colored(line, hue_of(f, Role::Body)))
    }
}

pub fn draw_logs(f: Flavor, view: LogView, lines: &Vec<String>, scroll: usize) -> (r: Vec<Line>)
    ensures
        paint::painted(r@) == logs_body(f, view, text::texts(lines@), scroll),
{
    let ghost all = text::texts(lines@);
    assert(all.len() == lines@.len());
    let mut out = no_lines();
    if lines.len() == 0 {
        let m = match view {
            LogView::Deploy => "No deploy logs yet. Start a deployment to see output here.",
            LogView::Software => "No software logs yet. Journal output will appear here.",
        };
        add_line(&mut out, Line::of(Span::colored(m, hue_of(f, Role::Dim))));
        assert(paint::painted(out@) =~~= logs_body(f, view, all, scroll));
        return out;
    }
    let n: usize = lines.len();
    let from: usize = if scroll <= n {
        scroll
    } else {
        n
    };
    let ghost paint = |l: Seq<char>| log_view_row(f, l);
    let mut i: usize = from;
    assert(paint::painted(out@) =~= all.subrange(from as int, from as int).map_values(paint));
    while i < n
        invariant
            n == lines@.len(),
            from <= i <= n,
            all == text::texts(lines@),
            paint == (|l: Seq<char>| log_view_row(f, l)),
            paint::painted(out@) == all.subrange(from as int, i as int).map_values(paint),
        decreases n - i,
    {
        assert(all[i as int] == lines@[i as int]@);
        add_line(&mut out, paint_log_view(f, lines[i].as_str()));
        assert(all.subrange(from as int, i + 1).map_values(paint) =~= all.subrange(
            from as int,
            i as int,
        ).map_values(paint).push(paint(all[i as int])));
        i = i + 1;
    }
    out
}

// ---------------------------------------------------------------------------
// The main menu and the hint bar
// ---------------------------------------------------------------------------

/// An entry of the main menu.
pub open spec fn menu_item(
    f: Flavor,
    icon: Seq<char>,
    title: Seq<char>,
    what: Seq<char>,
    role: Role,
    selected: bool,
) -> Seq<SpanText> {
    seq![
        paint::weighted(
            if selected {
                " » "@
            } else {
                "   "@
            },
            paint::hue(f, role),
            selected,
        ),
        paint::colored(icon + " "@, paint::hue(f, role)),
        paint::weighted(
            title + " "@,
            paint::hue(
                f,
                if selected {
                    Role::Strong
                } else {
                    Role::Body
                },
            ),
            selected,
        ),
        paint::colored(
            "— "@ + what,
            paint::hue(
                f,
                if selected {
                    role
                } else {
                    Role::Dim
                },
            ),
        ),
    ]
}

/// The main menu of the neon panel.
pub open spec fn menu_body(selected: usize) -> Seq<Seq<SpanText>> {
    let f = Flavor::Neon;
    seq![
        menu_item(
            f,
            "@"@,
            "System Scan"@,
            "probe interfaces and occupied ports"@,
            Role::Accent,
            selected == 0,
        ),
        menu_item(
            f,
            "^"@,
            "Deploy Service"@,
            "deploy one of the three curated services"@,
            Role::Deploy,
            selected == 1,
        ),
        menu_item(
            f,
            "#"@,
            "My Services"@,
            "manage deployed units"@,
            Role::Good,
            selected == 2,
        ),
        menu_item(
            f,
            "≡"@,
            "Logs"@,
            "deploy + software logs (2 screens)"@,
            Role::Warn,
            selected == 3,
        ),
    ]
}

fn paint_menu_item(
    f: Flavor,
    icon: &str,
    title: &str,
    what: &str,
    role: Role,
    selected: bool,
) -> (r: Line)
    ensures
        r@ == menu_item(f, icon@, title@, what@, role, selected),
{
    let arrow = if selected {
        " » "
    } else {
        "   "
    };
    let mut line = Line::of(Span::weighted(arrow, hue_of(f, role), selected));
    let mut i = icon.to_owned();
    i.append(" ");
    line.add_span(Span::colored(i.as_str(), hue_of(f, role)));
    let mut t = title.to_owned();
    t.append(" ");
    let title_role = if selected {
        Role::Strong
    } else {
        Role::Body
    };
    line.add_span(Span::weighted(t.as_str(), hue_of(f, title_role), selected));
    let mut w = "— ".to_owned();
    w.append(what);
    let what_role = if selected {
        role
    } else {
        Role::Dim
    };
    line.add_span(Span::colored(w.as_str(), hue_of(f, what_role)));
    assert(line@ =~= menu_item(f, icon@, title@, what@, role, selected));
    line
}

pub fn draw_main_menu(selected: usize) -> (r: Vec<Line>)
    ensures
        paint::painted(r@) == menu_body(selected),
{
    let f = Flavor::Neon;
    let mut out = no_lines();
    add_line(
        &mut out,
        paint_menu_item(
            f,
            "@",
            "System Scan",
            "probe interfaces and occupied ports",
            Role::Accent,
            selected == 0,
        ),
    );
    add_line(
        &mut out,
        paint_menu_item(
            f,
            "^",
            "Deploy Service",
            "deploy one of the three curated services",
            Role::Deploy,
            selected == 1,
        ),
    );
    add_line(
        &mut out,
        paint_menu_item(
            f,
            "#",
            "My Services",
            "manage deployed units",
            Role::Good,
            selected == 2,
        ),
    );
    add_line(
        &mut out,
        paint_menu_item(
            f,
            "≡",
            "Logs",
            "deploy + software logs (2 screens)",
            Role::Warn,
            selected == 3,
        ),
    );
    assert(paint::painted(out@) =~= menu_body(selected));
    out
}

/// A cell of the main menu of the red panel: its label, and the box under it.
pub struct MenuCell {
    pub label: Line,
    pub boxed: Vec<Line>,
}

pub open spec fn cell_label(i: int) -> Seq<char> {
    if i == 0 {
        "СИСТЕМА"@
    } else if i == 1 {
        "РАЗВЁРТЫВАНИЕ"@
    } else if i == 2 {
        "СЕРВИСЫ"@
    } else {
        "ЛОГИ"@
    }
}

/// A box with an arrow in it.
pub open spec fn cell_box(selected: bool) -> Seq<Seq<SpanText>> {
    let f = Flavor::Red;
    let c = paint::hue(
        f,
        if selected {
            Role::Accent
        } else {
            Role::Warn
        },
    );
    seq![
        seq![paint::colored("┌┄┄┄┄┄┄┐"@, c)],
        seq![paint::colored("┆       ┆"@, c)],
        seq![
            paint::colored("┆   "@, c),
            paint::strong("⬇"@, paint::hue(f, Role::Accent)),
            paint::colored("   ┆"@, c),
        ],
        seq![paint::colored("┆       ┆"@, c)],
        seq![paint::colored("└┄┄┄┄┄┄┘"@, c)],
    ]
}

/// Draws a cell of the main menu of the red panel.
pub fn draw_menu_cell(i: usize, selected: usize) -> (r: MenuCell)
    requires
        i < 4,
    ensures
        r.label@ == seq![
            paint::weighted(
                cell_label(i as int),
                paint::hue(Flavor::Red, Role::Accent),
                i == selected,
            ),
        ],
        paint::painted(r.boxed@) == cell_box(i == selected),
{
    let f = Flavor::Red;
    let label = if i == 0 {
        "СИСТЕМА"
    } else if i == 1 {
        "РАЗВЁРТЫВАНИЕ"
    } else if i == 2 {
        "СЕРВИСЫ"
    } else {
        "ЛОГИ"
    };
    let c = if i == selected {
        hue_of(f, Role::Accent)
    } else {
        hue_of(f, Role::Warn)
    };
    let mut boxed = no_lines();
    add_line(&mut boxed, Line::of(Span::colored("┌┄┄┄┄┄┄┐", c)));
    add_line(&mut boxed, Line::of(Span::colored("┆       ┆", c)));
    let mut middle = Line::of(Span::colored("┆   ", c));
    middle.add_span(Span::strong("⬇", hue_of(f, Role::Accent)));
    middle.add_span(Span::colored("   ┆", c));
    add_line(&mut boxed, middle);
    add_line(&mut boxed, Line::of(Span::colored("┆       ┆", c)));
    add_line(&mut boxed, Line::of(Span::colored("└┄┄┄┄┄┄┘", c)));
    assert(paint::painted(boxed@) =~~= cell_box(i == selected));
    MenuCell {
        label: Line::of(Span::weighted(label, hue_of(f, Role::Accent), i == selected)),
        boxed,
    }
}

/// The hints of a screen.
pub open spec fn hints(f: Flavor, s: PanelScreen) -> Seq<(Seq<char>, Role)> {
    match s {
        Screen::Main { .. } => if f == Flavor::Neon {
            seq![
                ("↑↓ select"@, Role::Accent),
                ("Enter choose"@, Role::Good),
                ("q quit"@, Role::Deploy),
            ]
        } else {
            Seq::empty()
        },
        Screen::Scan { .. } => seq![("Esc back"@, Role::Section)],
        Screen::UrlInput { busy, .. } => if busy {
            seq![("working…"@, Role::Warn)]
        } else {
            seq![("Enter deploy"@, Role::Good), ("Esc back"@, Role::Warn)]
        },
        Screen::Confirm { .. } => seq![
            ("←→ select"@, Role::Accent),
            ("Y/N"@, Role::Good),
            ("Enter confirm"@, Role::Good),
            ("Esc cancel"@, Role::Warn),
        ],
        Screen::ConfirmDelete { .. } => seq![
            ("←→ select"@, Role::Accent),
            ("Y/N"@, Role::Bad),
            ("Enter confirm"@, Role::Good),
            ("Esc keep"@, Role::Good),
        ],
        Screen::Deploy { done, .. } => if done is Some {
            seq![("Enter back"@, Role::Deploy)]
        } else {
            seq![("working…"@, Role::Warn)]
        },
        Screen::Services { .. } => seq![
            ("↑↓ select"@, Role::Services),
            ("[s]top star[t] [d]elete [r]efresh"@, Role::Services),
            ("Esc back"@, Role::Services),
        ],
        Screen::Logs { .. } => if f == Flavor::Neon {
            seq![
                ("Tab switch"@, Role::Input),
                ("↑↓ scroll"@, Role::Services),
                ("[d]elete"@, Role::Bad),
                ("Esc back"@, Role::Section),
            ]
        } else {
            seq![
                ("Tab switch view"@, Role::Input),
                ("↑↓ scroll"@, Role::Services),
                ("Esc back"@, Role::Section),
            ]
        },
        Screen::ConfirmClear { .. } => seq![
            ("←→ select"@, Role::Accent),
            ("Y/N"@, Role::Bad),
            ("Enter confirm"@, Role::Good),
            ("Esc cancel"@, Role::Warn),
        ],
    }
}

/// The first `n` hints, with dots between them.
pub open spec fn hint_spans(f: Flavor, h: Seq<(Seq<char>, Role)>, n: int) -> Seq<SpanText>
    decreases n,
{
    if n <= 0 {
        Seq::empty()
    } else {
        let before = hint_spans(f, h, n - 1);
        let dotted = if n > 1 {
            before.push(paint::colored(" · "@, paint::hue(f, Role::Dim)))
        } else {
            before
        };
        dotted.push(paint::colored(" "@ + h[n - 1].0, paint::hue(f, h[n - 1].1)))
    }
}

fn add_hint(h: &mut Vec<(&'static str, Role)>, t: &'static str, r: Role)
    ensures
        hint_texts(final(h)@) == hint_texts(old(h)@).push((t@, r)),
{
    let ghost before = hint_texts(h@);
    h.push((t, r));
    assert(hint_texts(h@) =~= before.push((t@, r)));
}

/// What a list of hints says.
pub open spec fn hint_texts(v: Seq<(&'static str, Role)>) -> Seq<(Seq<char>, Role)> {
    v.map_values(|p: (&'static str, Role)| (p.0@, p.1))
}

fn hint_list(f: Flavor, s: &PanelScreen) -> (r: Vec<(&'static str, Role)>)
    ensures
        hint_texts(r@) == hints(f, *s),
{
    let mut h: Vec<(&'static str, Role)> = Vec::new();
    assert(hint_texts(h@) =~= Seq::<(Seq<char>, Role)>::empty());
    match s {
        Screen::Main { .. } => {
            if f == Flavor::Neon {
                add_hint(&mut h, "↑↓ select", Role::Accent);
                add_hint(&mut h, "Enter choose", Role::Good);
                add_hint(&mut h, "q quit", Role::Deploy);
            }
        },
        Screen::Scan { .. } => {
            add_hint(&mut h, "Esc back", Role::Section);
        },
        Screen::UrlInput { busy, .. } => {
            if *busy {
                add_hint(&mut h, "working…", Role::Warn);
            } else {
                add_hint(&mut h, "Enter deploy", Role::Good);
                add_hint(&mut h, "Esc back", Role::Warn);
            }
        },
        Screen::Confirm { .. } => {
            add_hint(&mut h, "←→ select", Role::Accent);
            add_hint(&mut h, "Y/N", Role::Good);
            add_hint(&mut h, "Enter confirm", Role::Good);
            add_hint(&mut h, "Esc cancel", Role::Warn);
        },
        Screen::ConfirmDelete { .. } => {
            add_hint(&mut h, "←→ select", Role::Accent);
            add_hint(&mut h, "Y/N", Role::Bad);
            add_hint(&mut h, "Enter confirm", Role::Good);
            add_hint(&mut h, "Esc keep", Role::Good);
        },
        Screen::Deploy { done, .. } => {
            if done.is_some() {
                add_hint(&mut h, "Enter back", Role::Deploy);
            } else {
                add_hint(&mut h, "working…", Role::Warn);
            }
        },
        Screen::Services { .. } => {
            add_hint(&mut h, "↑↓ select", Role::Services);
            add_hint(&mut h, "[s]top star[t] [d]elete [r]efresh", Role::Services);
            add_hint(&mut h, "Esc back", Role::Services);
        },
        Screen::Logs { .. } => {
            if f == Flavor::Neon {
                add_hint(&mut h, "Tab switch", Role::Input);
                add_hint(&mut h, "↑↓ scroll", Role::Services);
                add_hint(&mut h, "[d]elete", Role::Bad);
                add_hint(&mut h, "Esc back", Role::Section);
            } else {
                add_hint(&mut h, "Tab switch view", Role::Input);
                add_hint(&mut h, "↑↓ scroll", Role::Services);
                add_hint(&mut h, "Esc back", Role::Section);
            }
        },
        Screen::ConfirmClear { .. } => {
            add_hint(&mut h, "←→ select", Role::Accent);
            add_hint(&mut h, "Y/N", Role::Bad);
            add_hint(&mut h, "Enter confirm", Role::Good);
            add_hint(&mut h, "Esc cancel", Role::Warn);
        },
    }
    assert(hint_texts(h@) =~= hints(f, *s));
    h
}

/// The bar at the foot of the panel. Where there is nothing to hint at it is
/// left blank.
pub open spec fn hint_bar(f: Flavor, s: PanelScreen) -> Seq<SpanText> {
    let h = hints(f, s);
    if h.len() == 0 {
        seq![paint::blank(paint::hue(f, Role::Ink))]
    } else {
        hint_spans(f, h, h.len() as int)
    }
}

pub fn hint_line(f: Flavor, s: &PanelScreen) -> (r: Line)
    ensures
        r@ == hint_bar(f, *s),
{
    let h = hint_list(f, s);
    if h.len() == 0 {
        assert(hint_texts(h@).len() == 0);
        return Line::of(Span::blank(hue_of(f, Role::Ink)));
    }
    let ghost all = hints(f, *s);
    assert(hint_texts(h@).len() == h@.len());
    let mut line = Line::new();
    let mut i: usize = 0;
    while i < h.len()
        invariant
            i <= h@.len(),
            all == hint_texts(h@),
            line@ == hint_spans(f, all, i as int),
        decreases h@.len() - i,
    {
        assert(all[i as int] == (h@[i as int].0@, h@[i as int].1));
        if i > 0 {
            line.add_span(Span::colored(" · ", hue_of(f, Role::Dim)));
        }
        line.add_span(Span::colored(spaced(h[i].0).as_str(), hue_of(f, h[i].1)));
        i = i + 1;
    }
    line
}

// ---------------------------------------------------------------------------
// Laws of the scan report
// ---------------------------------------------------------------------------

proof fn lemma_first_white(a: Seq<char>, c: char, b: Seq<char>, i: int)
    requires
        forall|k: int| 0 <= k < a.len() ==> !text::white(#[trigger] a[k]),
        text::white(c),
        0 <= i <= a.len(),
    ensures
        text::white_from(a.push(c) + b, i) == Some(a.len() as int),
    decreases a.len() - i,
{
    let whole = a.push(c) + b;
    if i < a.len() {
        assert(whole[i] == a[i]);
        lemma_first_white(a, c, b, i + 1);
    } else {
        assert(whole[i] == c);
    }
}

proof fn lemma_last_white(a: Seq<char>, c: char, b: Seq<char>, i: int)
    requires
        forall|k: int| 0 <= k < b.len() ==> !text::white(#[trigger] b[k]),
        text::white(c),
        a.len() < i <= a.len() + 1 + b.len(),
    ensures
        text::white_before(a.push(c) + b, i) == Some(a.len() as int),
    decreases i,
{
    let whole = a.push(c) + b;
    if i > a.len() + 1 {
        assert(whole[i - 1] == b[i - 2 - a.len()]);
        lemma_last_white(a, c, b, i - 1);
    } else {
        assert(whole[i - 1] == c);
    }
}

/// A row of the ports shows the port and, behind a space, what follows it, both in
/// the colour that tells our own services from others.
pub proof fn law_port_row_says_port_and_owner(f: Flavor, port: Seq<char>, owner: Seq<char>)
    requires
        forall|k: int| 0 <= k < port.len() ==> !text::white(#[trigger] port[k]),
        owner.len() > 0,
    ensures
        ({
            let row = port_row(f, port.push(' ') + owner);
            let ours = exists|x: Seq<char>, y: Seq<char>|
                port.push(' ') + owner == #[trigger] (x + "(deployed)"@ + y);
            &&& row.len() == 3
            &&& row[1].content == port
            &&& row[1].style.bold
            &&& row[2].content == " "@ + owner
            &&& ours ==> row[1].style.fg == Some(paint::hue(f, Role::Input))
            &&& !ours ==> row[1].style.fg == Some(paint::hue(f, Role::Foreign))
            &&& row[2].style.fg == row[1].style.fg
        }),
{
    let t = port.push(' ') + owner;
    lemma_first_white(port, ' ', owner, 0);
    assert(t.subrange(0, port.len() as int) =~= port);
    assert(t.subrange(port.len() as int + 1, t.len() as int) =~= owner);
    text::law_parts(t, Seq::empty(), Seq::empty(), "(deployed)"@);
    if exists|x: Seq<char>, y: Seq<char>| t == #[trigger] (x + "(deployed)"@ + y) {
        let (x, y) = choose|x: Seq<char>, y: Seq<char>| t == #[trigger] (x + "(deployed)"@ + y);
        text::law_parts(t, x, y, "(deployed)"@);
    }
}

/// A row of the interfaces shows the name, what stands between, and the state in its
/// colour.
pub proof fn law_interface_row_says_name_and_state(
    f: Flavor,
    name: Seq<char>,
    between: Seq<char>,
    state: Seq<char>,
)
    requires
        forall|k: int| 0 <= k < name.len() ==> !text::white(#[trigger] name[k]),
        forall|k: int| 0 <= k < state.len() ==> !text::white(#[trigger] state[k]),
        state.len() > 0,
    ensures
        ({
            let row = interface_row(f, name.push(' ') + between + " "@ + state);
            &&& row.len() == 4
            &&& row[1].content == name
            &&& row[2].content == " "@ + between
            &&& row[3].content == " "@ + state
            &&& state == "up"@ ==> row[3].style.fg == Some(paint::hue(f, Role::Good))
            &&& state == "down"@ ==> row[3].style.fg == Some(paint::hue(f, Role::Bad))
            &&& state != "up"@ && state != "down"@ ==> row[3].style.fg == Some(
                paint::hue(f, Role::Warn),
            )
        }),
{
    reveal_strlit(" ");
    reveal_strlit("up");
    reveal_strlit("down");
    assert("up"@[0] != "down"@[0]);
    let head = name.push(' ') + between;
    let t = head + " "@ + state;
    assert(t =~= head.push(' ') + state);
    lemma_last_white(head, ' ', state, t.len() as int);
    assert(t.subrange(0, head.len() as int) =~= head);
    assert(t.subrange(head.len() as int + 1, t.len() as int) =~= state);
    lemma_first_white(name, ' ', between, 0);
    assert(head.subrange(0, name.len() as int) =~= name);
    assert(head.subrange(name.len() as int, head.len() as int) =~= " "@ + between);
}

/// A prerequisite that is met is marked with a plus, one that is not with a cross; the
/// text behind the box is kept.
pub proof fn law_checks_are_marked(f: Flavor, what: Seq<char>)
    ensures
        ({
            let row = check_row(f, "[x]"@ + what);
            &&& row.len() == 3
            &&& row[1].content == "+"@
            &&& row[1].style.fg == Some(paint::hue(f, Role::Good))
            &&& row[2].content == " "@ + what
        }),
        ({
            let row = check_row(f, "[ ]"@ + what);
            &&& row.len() == 3
            &&& row[1].content == "x"@
            &&& row[1].style.fg == Some(paint::hue(f, Role::Bad))
            &&& row[2].content == " "@ + what
        }),
{
    reveal_strlit("[x]");
    reveal_strlit("[ ]");
    text::law_parts(what, what, what, "[x]"@);
    assert(("[x]"@ + what).subrange(3, ("[x]"@ + what).len() as int) =~= what);
    assert(("[ ]"@ + what).subrange(3, ("[ ]"@ + what).len() as int) =~= what);
    assert(("[ ]"@ + what).subrange(0, 3)[1] == ' ');
}

/// Every line of the report has its line on the screen, in order.
pub proof fn law_scan_is_shown_line_by_line(f: Flavor, report: Seq<char>)
    ensures
        scan_lines(f, report).len() == text::lines(report).len(),
{
}

proof fn lemma_section(lines: Seq<Seq<char>>, h: int, i: int)
    requires
        0 <= h < i <= lines.len(),
        scan_heading(text::trimmed_start(lines[h])),
        forall|k: int|
            h < k < i ==> !scan_heading(text::trimmed_start(#[trigger] lines[k])),
    ensures
        scan_section(lines, i).0 <==> text::trimmed_start(lines[h]) == "Listening ports:"@,
        scan_section(lines, i).1 <==> text::trimmed_start(lines[h]) == "Interfaces:"@,
    decreases i,
{
    if i > h + 1 {
        assert(!scan_heading(text::trimmed_start(lines[i - 1])));
        lemma_section(lines, h, i - 1);
    }
}

/// Below the heading of the ports, up to the next heading, stand rows of ports; below
/// that of the interfaces, rows of interfaces.
pub proof fn law_rows_belong_to_their_heading(f: Flavor, report: Seq<char>, h: int, i: int)
    requires
        0 <= h < i < text::lines(report).len(),
        ({
            let t = text::trimmed_start(text::lines(report)[h]);
            t == "Listening ports:"@ || t == "Interfaces:"@
        }),
        forall|k: int|
            h < k <= i ==> {
                let t = text::trimmed_start(#[trigger] text::lines(report)[k]);
                t != "Listening ports:"@ && t != "Interfaces:"@
            },
        text::trimmed_start(text::lines(report)[i]).len() > 0,
        !"PORT "@.is_prefix_of(text::trimmed_start(text::lines(report)[i])),
    ensures
        ({
            let head = text::trimmed_start(text::lines(report)[h]);
            let t = text::trimmed_start(text::lines(report)[i]);
            let row = scan_lines(f, report)[i];
            &&& head == "Listening ports:"@ && t != "(none)"@ ==> row == port_row(f, t)
            &&& head == "Listening ports:"@ && t == "(none)"@ ==> row.len() == 1
                && row[0].content == " "@ + text::lines(report)[i]
            &&& head == "Interfaces:"@ && !t.contains(':') ==> row == interface_row(f, t)
        }),
{
    let lines = text::lines(report);
    let t = text::trimmed_start(lines[i]);
    lemma_section(lines, h, i);
    reveal_strlit("Listening ports:");
    reveal_strlit("Interfaces:");
    assert("Listening ports:"@[0] != "Interfaces:"@[0]);
    reveal_strlit(":");
    if text::begins(t, "PORT "@) {
        assert("PORT "@.is_prefix_of(t));
    }
    if text::holds(t, ":"@) {
        let at = choose|at: int| text::occurs_at(t, ":"@, at);
        assert(t.subrange(at, at + 1)[0] == t[at]);
        assert(t.contains(':'));
    }
}

/// A heading is shown as it is, in bold; a line with an exclamation mark, or one that
/// says that something is missing, in the colour of failures; the others keep their
/// text too.
pub proof fn law_other_scan_lines_are_kept(f: Flavor, line: Seq<char>)
    requires
        ({
            let t = text::trimmed_start(line);
            !"[x]"@.is_prefix_of(t) && !"[ ]"@.is_prefix_of(t)
        }),
    ensures
        ({
            let t = text::trimmed_start(line);
            let row = scan_line(f, line, false, false);
            let heading = t == "Interfaces:"@ || t == "Listening ports:"@;
            &&& row.len() == 1
            &&& heading ==> row[0].content == " "@ + line && row[0].style.bold
            &&& !heading ==> row[0].content == line
            &&& t.len() > 0 && t[0] == '!' ==> row[0].style.fg == Some(paint::hue(f, Role::Bad))
        }),
        forall|x: Seq<char>, y: Seq<char>|
            text::trimmed_start(line) == #[trigger] (x + "MISSING"@ + y)
                && !"PORT "@.is_prefix_of(text::trimmed_start(line))
                && text::trimmed_start(line) != "Interfaces:"@
                && text::trimmed_start(line) != "Listening ports:"@ ==> scan_line(
                f,
                line,
                false,
                false,
            )[0].style.fg == Some(paint::hue(f, Role::Bad)),
{
    let t = text::trimmed_start(line);
    reveal_strlit("!");
    reveal_strlit("PORT ");
    reveal_strlit("Interfaces:");
    reveal_strlit("Listening ports:");
    if text::begins(t, "[x]"@) {
        assert("[x]"@.is_prefix_of(t));
    }
    if text::begins(t, "[ ]"@) {
        assert("[ ]"@.is_prefix_of(t));
    }
    if text::begins(t, "PORT "@) {
        assert("PORT "@.is_prefix_of(t));
        assert(t.subrange(0, 5)[0] == 'P');
    }
    if t.len() > 0 && t[0] == '!' {
        assert(t.subrange(0, 1) =~= "!"@);
        assert(t != "Interfaces:"@);
        assert(t != "Listening ports:"@);
    }
    assert forall|x: Seq<char>, y: Seq<char>| t == #[trigger] (x + "MISSING"@ + y) implies text::holds(
        t,
        "MISSING"@,
    ) by {
        text::law_parts(t, x, y, "MISSING"@);
    }
}

/// A finished scan is shown; a running one is announced; otherwise nothing is.
pub proof fn law_scan_screen(f: Flavor, report: Seq<char>, running: bool, tick: u64)
    ensures
        scan_body(f, Some(report), running, tick) == scan_lines(f, report),
        scan_body(f, None, false, tick).len() == 0,
        scan_body(f, None, true, tick).len() > 0,
        scan_body(f, None, true, tick)[0].len() == 2,
        scan_body(f, None, true, tick)[0][0].content == spinner((tick / 2) as int % 10),
        scan_body(f, None, true, tick)[0][1].content == " scanning local system..."@,
{
}

/// The wheel shows another character every other tick, and each of its ten in turn.
pub proof fn law_wheel_turns(i: int, j: int)
    requires
        0 <= i < 10,
        0 <= j < 10,
        i != j,
    ensures
        spinner(i) != spinner(j),
        spinner(i).len() == 1,
{
    reveal_strlit("⠋");
    reveal_strlit("⠙");
    reveal_strlit("⠹");
    reveal_strlit("⠸");
    reveal_strlit("⠼");
    reveal_strlit("⠴");
    reveal_strlit("⠦");
    reveal_strlit("⠧");
    reveal_strlit("⠇");
    reveal_strlit("⠏");
    assert(spinner(i)[0] != spinner(j)[0]);
}

/// The cursor blinks: four ticks on, four ticks off.
pub proof fn law_cursor_blinks(f: Flavor, tick: u64)
    ensures
        tick % 8 < 4 <==> cursor(f, tick).content == "█"@,
        tick % 8 >= 4 <==> cursor(f, tick).content == " "@,
{
    reveal_strlit("█");
    reveal_strlit(" ");
    assert("█"@[0] != " "@[0]);
}

// ---------------------------------------------------------------------------
// Laws of the questions
// ---------------------------------------------------------------------------

/// What was typed is shown behind the prompt, in front of the cursor; below it stands
/// the error, or else a word on the address, and last that it is being looked up.
pub proof fn law_address_is_shown(
    f: Flavor,
    buffer: Seq<char>,
    error: Option<Seq<char>>,
    busy: bool,
    tick: u64,
)
    ensures
        ({
            let body = url_body(f, buffer, error, busy, tick);
            let idle = url_body(f, buffer, error, false, tick);
            let typed = text::trimmed(buffer);
            &&& body.len() >= 4
            &&& body[3].len() == 3
            &&& body[3][0].content == " GitHub URL: "@
            &&& body[3][1].content == buffer
            &&& body[3][2] == cursor(f, tick)
            &&& error matches Some(e) ==> idle.len() == 5 && idle[4].len() == 1
                && idle[4][0].content == " x "@ + e && idle[4][0].style.fg == Some(
                paint::hue(f, Role::Bad),
            )
            &&& error is None && typed.len() == 0 ==> idle.len() == 4
            &&& error is None && typed.len() > 0 ==> idle.len() == 5 && idle[4].len() == 1
            &&& error is None && typed.len() > 0 && "https://"@.is_prefix_of(typed)
                ==> idle[4][0].content == " + looks like a GitHub URL"@
                && idle[4][0].style.fg == Some(paint::hue(f, Role::Good))
            &&& error is None && typed.len() > 0 && !"https://"@.is_prefix_of(typed)
                ==> idle[4][0].content == " △ expected https://github.com/<owner>/<repo>"@
                && idle[4][0].style.fg == Some(paint::hue(f, Role::Warn))
            &&& busy ==> body.drop_last() == idle && body.last().len() == 2
                && body.last()[0].content == spinner((tick / 2) as int % 10)
                && body.last()[1].content == " resolving..."@
            &&& !busy ==> body == idle
        }),
{
    let body = url_body(f, buffer, error, busy, tick);
    let idle = url_body(f, buffer, error, false, tick);
    let typed = text::trimmed(buffer);
    if "https://"@.is_prefix_of(typed) {
        assert(text::begins(typed, "https://"@));
    }
    if text::begins(typed, "https://"@) {
        assert("https://"@.is_prefix_of(typed));
    }
    if busy {
        assert(body.drop_last() =~= idle);
    }
}

/// The three services on offer are named above the prompt.
pub proof fn law_offer_names_the_services(
    f: Flavor,
    buffer: Seq<char>,
    error: Option<Seq<char>>,
    busy: bool,
    tick: u64,
)
    ensures
        ({
            let offer = url_body(f, buffer, error, busy, tick)[1];
            &&& offer.len() == 6
            &&& offer[1].content == "VERT-sh/VERT"@
            &&& offer[3].content == "searxng/searxng"@
            &&& offer[5].content == "usememos/memos"@
        }),
{
}

/// A choice says its mark and its label; the selected one alone is pointed at.
pub proof fn law_selected_choice_is_pointed_at(
    f: Flavor,
    marker: Seq<char>,
    label: Seq<char>,
    role: Role,
    selected: bool,
)
    ensures
        ({
            let row = choice(f, marker, label, role, selected);
            &&& row.len() == 4
            &&& row[2].content == marker
            &&& row[3].content == label
            &&& selected <==> row[1].content == "» "@
            &&& selected <==> row[2].style.reversed
            &&& selected <==> row[3].style.bold
            &&& selected ==> row[2].style.fg == Some(paint::hue(f, role))
        }),
{
    reveal_strlit("» ");
    reveal_strlit("  ");
    assert("» "@[0] != "  "@[0]);
}

/// The question names the service and its address, and points at exactly one of yes
/// and no.
pub proof fn law_question_is_shown(f: Flavor, url: Seq<char>, label: Seq<char>, yes: bool)
    ensures
        ({
            let body = confirm_body(f, url, label, yes);
            &&& body.len() == 8
            &&& body[1].len() == 3
            &&& body[1][0].content == " Host "@
            &&& body[1][1].content == label
            &&& body[1][2].content == " on this machine?"@
            &&& body[2][1].content == url
            &&& body[4][2].content == "[Y]es"@
            &&& body[5][2].content == "[N]o"@
            &&& yes <==> body[4][1].content == "» "@
            &&& !yes <==> body[5][1].content == "» "@
        }),
{
    law_selected_choice_is_pointed_at(f, "[Y]es"@, " — deploy"@, Role::Good, yes);
    law_selected_choice_is_pointed_at(f, "[N]o"@, " — cancel"@, Role::Warn, !yes);
}

/// A question before something is lost names what, says what goes with it, and points
/// at exactly one of yes and no.
pub proof fn law_loss_is_asked_about(
    f: Flavor,
    verb: Seq<char>,
    what: Seq<char>,
    note: Seq<char>,
    yes_label: Seq<char>,
    yes: bool,
)
    ensures
        ({
            let body = destroy_body(f, verb, what, note, yes_label, yes);
            &&& body.len() == 8
            &&& body[1].len() == 3
            &&& body[1][0].content == verb
            &&& body[1][0].style.fg == Some(paint::hue(f, Role::Bad))
            &&& body[1][1].content == what
            &&& body[1][2].content == "?"@
            &&& body[2][0].content == note
            &&& body[4][2].content == "[Y]es"@
            &&& body[4][3].content == yes_label
            &&& body[5][2].content == "[N]o"@
            &&& body[5][3].content == " — keep"@
            &&& yes <==> body[4][1].content == "» "@
            &&& !yes <==> body[5][1].content == "» "@
        }),
{
    law_selected_choice_is_pointed_at(f, "[Y]es"@, yes_label, Role::Bad, yes);
    law_selected_choice_is_pointed_at(f, "[N]o"@, " — keep"@, Role::Good, !yes);
}

/// The log to be cleared is named; only that of the deploys goes from the disk too.
pub proof fn law_cleared_log_is_named(target: LogView)
    ensures
        target == LogView::Deploy <==> clear_what(target) == "deploy logs"@,
        target == LogView::Software <==> clear_what(target) == "software logs"@,
        target == LogView::Deploy <==> text::holds(clear_note(target), "truncates"@),
        target == LogView::Software <==> text::holds(clear_note(target), "is kept"@),
{
    reveal_strlit("deploy logs");
    reveal_strlit("software logs");
    assert("deploy logs"@[0] != "software logs"@[0]);
    let gone = "This truncates ~/.local/state/demo-ghostprovider/deploy.log and clears the view."@;
    let kept = "This clears the displayed journal view (systemd journal itself is kept)."@;
    assert(text::holds(gone, "truncates"@) && !text::holds(gone, "is kept"@)) by {
        reveal_strlit(
            "This truncates ~/.local/state/demo-ghostprovider/deploy.log and clears the view.",
        );
        reveal_strlit("truncates");
        reveal_strlit("is kept");
        assert(gone.subrange(5, 14) =~= "truncates"@);
        assert(text::occurs_at(gone, "truncates"@, 5));
        assert forall|i: int| !text::occurs_at(gone, "is kept"@, i) by {
            if text::occurs_at(gone, "is kept"@, i) {
                assert(gone.subrange(i, i + 7)[3] == gone[i + 3]);
            }
        }
    }
    assert(text::holds(kept, "is kept"@) && !text::holds(kept, "truncates"@)) by {
        reveal_strlit("This clears the displayed journal view (systemd journal itself is kept).");
        reveal_strlit("truncates");
        reveal_strlit("is kept");
        assert(kept.subrange(63, 70) =~= "is kept"@);
        assert(text::occurs_at(kept, "is kept"@, 63));
        assert forall|i: int| !text::occurs_at(kept, "truncates"@, i) by {
            if text::occurs_at(kept, "truncates"@, i) {
                assert(kept.subrange(i, i + 9)[1] == kept[i + 1]);
                assert(kept.subrange(i, i + 9)[2] == kept[i + 2]);
            }
        }
    }
}

// ---------------------------------------------------------------------------
// Laws of the deploy screen
// ---------------------------------------------------------------------------

/// A finding of the tool doctor is shown as the problem, the command that mends it and
/// the note, where there is one.
pub proof fn law_finding_is_shown(f: Flavor, i: toolcheck::IssueText)
    ensures
        ({
            let rows = doctor_rows(f, i);
            &&& rows.len() == if i.note is Some {
                3int
            } else {
                2int
            }
            &&& rows[0].len() == 2 && rows[0][1].content == i.problem
            &&& rows[0][1].style.fg == Some(paint::hue(f, Role::Bad))
            &&& rows[1].len() == 2 && rows[1][0].content == "   fix » "@
            &&& rows[1][1].content == i.fix && rows[1][1].style.bold
            &&& i.note matches Some(n) ==> rows[2].len() == 2 && rows[2][1].content == n
        }),
{
}

/// A failure is marked with a cross and a warning with an exclamation mark; where the
/// service listens is marked with a tick. What is said behind the mark is kept.
pub proof fn law_marked_log_lines(f: Flavor, body: Seq<char>)
    ensures
        toolcheck::issue_of(body) is None ==> {
            let rows = log_rows(f, "! "@ + body);
            &&& rows.len() == 1 && rows[0].len() == 2
            &&& rows[0][0].content == " ✖ "@
            &&& rows[0][1].content == body
            &&& rows[0][1].style.fg == Some(paint::hue(f, Role::Bad))
        },
        toolcheck::issue_of(body) matches Some(i) ==> log_rows(f, "! "@ + body) == doctor_rows(f, i),
        ({
            let rows = log_rows(f, "warn: "@ + body);
            &&& rows.len() == 1 && rows[0].len() == 2
            &&& rows[0][0].content == " ! "@
            &&& rows[0][1].content == body
            &&& rows[0][1].style.fg == Some(paint::hue(f, Role::Warn))
        }),
        ({
            let rows = log_rows(f, "listening on "@ + body);
            &&& rows.len() == 1 && rows[0].len() == 2
            &&& rows[0][0].content == " ✔ listening on "@
            &&& rows[0][1].content == body
            &&& rows[0][1].style.fg == Some(paint::hue(f, Role::Good))
        }),
        ({
            let rows = log_rows(Flavor::Red, "provision: "@ + body);
            &&& rows.len() == 1 && rows[0].len() == 2
            &&& rows[0][0].content == " ● "@
            &&& rows[0][1].content == body
            &&& rows[0][1].style.fg == Some(paint::hue(Flavor::Red, Role::Good))
        }),
{
    lemma_marks_differ(body);
}

proof fn lemma_marks_differ(body: Seq<char>)
    ensures
        text::trimmed_start("! "@ + body) == "! "@ + body,
        text::trimmed_start("warn: "@ + body) == "warn: "@ + body,
        text::trimmed_start("listening on "@ + body) == "listening on "@ + body,
        text::trimmed_start("provision: "@ + body) == "provision: "@ + body,
        text::after_prefix("! "@ + body, "! "@) == Some(body),
        text::after_prefix("warn: "@ + body, "! "@) is None,
        text::after_prefix("warn: "@ + body, "warn: "@) == Some(body),
        text::after_prefix("listening on "@ + body, "! "@) is None,
        text::after_prefix("listening on "@ + body, "warn: "@) is None,
        text::after_prefix("listening on "@ + body, "provision: "@) is None,
        text::after_prefix("listening on "@ + body, "listening on "@) == Some(body),
        text::after_prefix("provision: "@ + body, "! "@) is None,
        text::after_prefix("provision: "@ + body, "warn: "@) is None,
        text::after_prefix("provision: "@ + body, "provision: "@) == Some(body),
{
    assert("! "@[0] == '!' && "! "@.len() == 2) by {
        reveal_strlit("! ");
    }
    assert("warn: "@[0] == 'w' && "warn: "@.len() == 6) by {
        reveal_strlit("warn: ");
    }
    assert("listening on "@[0] == 'l' && "listening on "@.len() == 13) by {
        reveal_strlit("listening on ");
    }
    assert("provision: "@[0] == 'p' && "provision: "@.len() == 11) by {
        reveal_strlit("provision: ");
    }
    lemma_marked("! "@, "! "@, body);
    lemma_marked("warn: "@, "! "@, body);
    lemma_marked("listening on "@, "! "@, body);
    lemma_marked("listening on "@, "warn: "@, body);
    lemma_marked("listening on "@, "provision: "@, body);
    lemma_marked("provision: "@, "! "@, body);
    lemma_marked("provision: "@, "warn: "@, body);
}

proof fn lemma_marked(mark: Seq<char>, other: Seq<char>, body: Seq<char>)
    requires
        mark.len() > 0,
        other.len() > 0,
        !text::white(mark[0]),
    ensures
        text::trimmed_start(mark + body) == mark + body,
        text::after_prefix(mark + body, mark) == Some(body),
        mark[0] != other[0] ==> text::after_prefix(mark + body, other) is None,
{
    let s = mark + body;
    assert(s[0] == mark[0]);
    text::law_parts(s, body, body, mark);
    if text::begins(s, other) {
        assert(s.subrange(0, other.len() as int)[0] == s[0]);
    }
}

/// Any other line of the log is shown whole, in a colour that tells failures, steps
/// under way and commands from the rest.
pub proof fn law_plain_log_lines_are_kept(f: Flavor, line: Seq<char>)
    requires
        ({
            let s = text::trimmed_start(line);
            &&& !"! "@.is_prefix_of(s)
            &&& !"warn: "@.is_prefix_of(s)
            &&& !"listening on "@.is_prefix_of(s)
            &&& !"provision: "@.is_prefix_of(s)
        }),
    ensures
        ({
            let s = text::trimmed_start(line);
            let rows = log_rows(f, line);
            let failed = (exists|x: Seq<char>, y: Seq<char>| s == #[trigger] (x + "failed"@ + y))
                || (exists|x: Seq<char>, y: Seq<char>| s == #[trigger] (x + "ERROR"@ + y));
            let going = "..."@.is_suffix_of(s);
            let command = "=>"@.is_prefix_of(s);
            &&& rows.len() == 1 && rows[0].len() == 1
            &&& rows[0][0].content == " "@ + line
            &&& failed ==> rows[0][0].style.fg == Some(paint::hue(f, Role::Bad))
            &&& !failed && going ==> rows[0][0].style.fg == Some(paint::hue(f, Role::Warn))
            &&& !failed && !going && command ==> rows[0][0].style.fg == Some(
                paint::hue(f, Role::Accent),
            )
            &&& !failed && !going && !command ==> rows[0][0].style.fg == Some(
                paint::hue(f, Role::Body),
            )
        }),
{
    let s = text::trimmed_start(line);
    lemma_affix(s, "! "@);
    lemma_affix(s, "warn: "@);
    lemma_affix(s, "listening on "@);
    lemma_affix(s, "provision: "@);
    lemma_affix(s, "..."@);
    lemma_affix(s, "=>"@);
    lemma_affix(s, "failed"@);
    lemma_affix(s, "ERROR"@);
}

proof fn lemma_affix(s: Seq<char>, p: Seq<char>)
    ensures
        text::begins(s, p) <==> p.is_prefix_of(s),
        text::ends(s, p) <==> p.is_suffix_of(s),
        text::holds(s, p) <==> exists|x: Seq<char>, y: Seq<char>| s == #[trigger] (x + p + y),
{
    text::law_parts(s, s, s, p);
    if exists|x: Seq<char>, y: Seq<char>| s == #[trigger] (x + p + y) {
        let (x, y) = choose|x: Seq<char>, y: Seq<char>| s == #[trigger] (x + p + y);
        text::law_parts(s, x, y, p);
    }
    if p.is_prefix_of(s) {
        assert(s.subrange(0, p.len() as int) =~= p);
    }
    if text::begins(s, p) {
        assert(p =~= s.subrange(0, p.len() as int));
    }
    if p.is_suffix_of(s) {
        assert(s.subrange(s.len() - p.len(), s.len() as int) =~= p);
    }
    if text::ends(s, p) {
        assert(p =~= s.subrange(s.len() - p.len(), s.len() as int));
    }
}

proof fn lemma_deploy_push(f: Flavor, lines: Seq<Seq<char>>, l: Seq<char>, n: int)
    requires
        0 <= n <= lines.len(),
    ensures
        deploy_rows(f, lines.push(l), n) == deploy_rows(f, lines, n),
    decreases n,
{
    if n > 0 {
        lemma_deploy_push(f, lines, l, n - 1);
        assert(lines.push(l)[n - 1] == lines[n - 1]);
        if n >= 2 {
            assert(lines.push(l)[n - 2] == lines[n - 2]);
        }
    }
}

/// The rows of the log follow one another in the order of its lines. A finding of the
/// tool doctor that follows on none gets the doctor's heading first, set off by an empty
/// line from what stands above.
pub proof fn law_deploy_log_is_shown_in_order(f: Flavor, lines: Seq<Seq<char>>, l: Seq<char>)
    ensures
        ({
            let n = lines.len() as int;
            let before = deploy_rows(f, lines, n);
            let after = deploy_rows(f, lines.push(l), n + 1);
            let finding = toolcheck::issue_line(text::trimmed_start(l));
            let following = n > 0 && toolcheck::issue_line(text::trimmed_start(lines[n - 1]));
            &&& deploy_rows(f, Seq::empty(), 0).len() == 0
            &&& !finding || following ==> after == before + log_rows(f, l)
            &&& finding && !following ==> {
                let gap = if before.len() > 0 {
                    1int
                } else {
                    0int
                };
                &&& after.len() == before.len() + gap + 1 + log_rows(f, l).len()
                &&& before.is_prefix_of(after)
                &&& gap == 1 ==> after[before.len() as int].len() == 0
                &&& after[before.len() + gap].len() == 3
                &&& after[before.len() + gap][1].content == " TOOL DOCTOR "@
                &&& log_rows(f, l).is_suffix_of(after)
            }
        }),
{
    let n = lines.len() as int;
    let before = deploy_rows(f, lines, n);
    let after = deploy_rows(f, lines.push(l), n + 1);
    lemma_deploy_push(f, lines, l, n);
    assert(lines.push(l)[n] == l);
    if n > 0 {
        assert(lines.push(l)[n - 1] == lines[n - 1]);
    }
    assert(before =~= after.subrange(0, before.len() as int));
    let rows = log_rows(f, l);
    assert(rows =~= after.subrange(after.len() - rows.len(), after.len() as int));
}

/// The verdict says which of the two it is, on a ground of its colour.
pub proof fn law_verdict_is_told(f: Flavor, ok: bool)
    ensures
        verdict_row(f, ok).len() == 1,
        ok <==> verdict_row(f, ok)[0].content == " ✔ DEPLOYED ✔ "@,
        !ok <==> verdict_row(f, ok)[0].content == " ✖ FAILED ✖ "@,
        verdict_row(f, ok)[0].style.bg == Some(
            paint::hue(
                f,
                if ok {
                    Role::Good
                } else {
                    Role::Bad
                },
            ),
        ),
{
    reveal_strlit(" ✔ DEPLOYED ✔ ");
    reveal_strlit(" ✖ FAILED ✖ ");
    assert(" ✔ DEPLOYED ✔ "@[1] != " ✖ FAILED ✖ "@[1]);
}

/// A span of time is told in hours and minutes, in minutes and seconds, or in seconds:
/// in the two largest units that it fills.
pub proof fn law_span_of_time(h: nat, m: nat, s: nat)
    requires
        m < 60,
        s < 60,
    ensures
        h > 0 ==> span_text(h * 3600 + m * 60 + s) == text::decimal(h) + "h"@ + text::decimal(m)
            + "m"@,
        m > 0 ==> span_text(m * 60 + s) == text::decimal(m) + "m"@ + text::decimal(s) + "s"@,
        span_text(s) == text::decimal(s) + "s"@,
{
    let all = h * 3600 + m * 60 + s;
    assert(all / 3600 == h && (all % 3600) / 60 == m);
    let few = m * 60 + s;
    assert(few / 60 == m && few % 60 == s);
}

/// The notice says how many hosts are out of reach and since when.
pub proof fn law_outage_is_told(f: Flavor, hosts: nat, since: nat)
    ensures
        net_row(f, hosts, since).len() == 2,
        net_row(f, hosts, since)[0].content == " ⚠ NET "@,
        (" "@ + text::decimal(hosts) + " host(s) unreachable"@).is_prefix_of(
            net_row(f, hosts, since)[1].content,
        ),
        ("(since "@ + span_text(since) + ")"@).is_suffix_of(net_row(f, hosts, since)[1].content),
{
    let c = net_row(f, hosts, since)[1].content;
    let mid = " host(s) unreachable — permanent retry, next probe is automatic (since "@;
    let short = " host(s) unreachable"@;
    let open = "(since "@;
    assert(mid == mid.subrange(0, short.len() as int) + mid.skip(short.len() as int)
        && short == mid.subrange(0, short.len() as int) && short.len() <= mid.len()) by {
        reveal_strlit(
            " host(s) unreachable — permanent retry, next probe is automatic (since ",
        );
        reveal_strlit(" host(s) unreachable");
        assert(short =~= mid.subrange(0, short.len() as int));
        assert(mid =~= mid.subrange(0, short.len() as int) + mid.skip(short.len() as int));
    }
    assert(open == mid.subrange(mid.len() - open.len(), mid.len() as int) && open.len()
        <= mid.len()) by {
        reveal_strlit(
            " host(s) unreachable — permanent retry, next probe is automatic (since ",
        );
        reveal_strlit("(since ");
        assert(open =~= mid.subrange(mid.len() - open.len(), mid.len() as int));
    }
    let first = " "@ + text::decimal(hosts) + short;
    let last = open + span_text(since) + ")"@;
    assert(first =~= c.subrange(0, first.len() as int));
    assert(last =~= c.subrange(c.len() - last.len(), c.len() as int));
}

// ---------------------------------------------------------------------------
// Laws of the lists
// ---------------------------------------------------------------------------

/// The title names the four commands on a service, each letter in its own colour, and
/// then what the last one came to.
pub proof fn law_services_title(f: Flavor, m: Seq<char>)
    ensures
        ({
            let plain = services_title(f, None);
            let told = services_title(f, Some(m));
            &&& paint::said(plain)
                == " My Services [s]top star[t] [d]elete [r]efresh"@
            &&& told.drop_last() == plain
            &&& told.last().content == "  — "@ + m
        }),
{
    let plain = services_title(f, None);
    let told = services_title(f, Some(m));
    assert(told.drop_last() =~= plain);
    lemma_title_said(f);
}

proof fn lemma_title_said(f: Flavor)
    ensures
        paint::said(services_title(f, None))
            == " My Services [s]top star[t] [d]elete [r]efresh"@,
{
    let line = services_title(f, None);
    reveal_strlit(" My Services [s]top star[t] [d]elete [r]efresh");
    reveal_strlit(" My Services ");
    reveal_strlit("[");
    reveal_strlit("s");
    reveal_strlit("]top ");
    reveal_strlit("star");
    reveal_strlit("t");
    reveal_strlit("] ");
    reveal_strlit("d");
    reveal_strlit("]elete ");
    reveal_strlit("r");
    reveal_strlit("]efresh");
    lemma_said_step(line, 1);
    lemma_said_step(line, 2);
    lemma_said_step(line, 3);
    lemma_said_step(line, 4);
    lemma_said_step(line, 5);
    lemma_said_step(line, 6);
    lemma_said_step(line, 7);
    lemma_said_step(line, 8);
    lemma_said_step(line, 9);
    lemma_said_step(line, 10);
    lemma_said_step(line, 11);
    lemma_said_step(line, 12);
    lemma_said_step(line, 13);
    lemma_said_step(line, 14);
    assert(line.take(0).len() == 0);
    assert(line.take(14) =~= line);
    assert(paint::said(line) =~= " My Services [s]top star[t] [d]elete [r]efresh"@);
}

proof fn lemma_said_step(line: Seq<SpanText>, n: int)
    requires
        0 < n <= line.len(),
    ensures
        paint::said(line.take(n)) == paint::said(line.take(n - 1)) + line[n - 1].content,
{
    assert(line.take(n).drop_last() =~= line.take(n - 1));
    assert(line.take(n).last() == line[n - 1]);
}

/// Every service has its line, in the order of the list: its name, then its state in
/// the colour of that state, then its address. The selected line alone is pointed at.
pub proof fn law_every_service_has_its_line(
    f: Flavor,
    rows: Seq<RowText>,
    selected: usize,
    i: int,
)
    requires
        0 <= i < rows.len(),
    ensures
        ({
            let body = services_body(f, rows, selected);
            let line = body[i];
            let state = rows[i].status;
            &&& body.len() == rows.len()
            &&& line.len() == 6
            &&& rows[i].name.is_prefix_of(line[1].content)
            &&& rows[i].name.len() >= 16 ==> line[1].content == rows[i].name
            &&& rows[i].name.len() < 16 ==> line[1].content.len() == 16
            &&& line[3].content == "● "@
            &&& line[4].content == state
            &&& line[5].content == "  "@ + rows[i].url
            &&& i == selected <==> line[0].content == " » "@
            &&& i == selected <==> line[1].style.bold
            &&& i == selected ==> line[1].style.fg == Some(paint::hue(f, Role::Strong))
            &&& state == "active"@ ==> line[4].style.fg == Some(paint::hue(f, Role::Good))
            &&& state == "activating"@ || state == "reloading"@ ==> line[4].style.fg == Some(
                paint::hue(f, Role::Warn),
            )
            &&& state != "active"@ && state != "activating"@ && state != "reloading"@
                ==> line[4].style.fg == Some(paint::hue(f, Role::Bad))
            &&& line[3].style.fg == line[4].style.fg
        }),
{
    workers::law_padding(rows[i].name, 16);
    reveal_strlit(" » ");
    reveal_strlit("   ");
    assert(" » "@[1] != "   "@[1]);
    let state = rows[i].status;
    assert("active"@ != "activating"@ && "active"@ != "reloading"@) by {
        reveal_strlit("active");
        reveal_strlit("activating");
        reveal_strlit("reloading");
        assert("active"@.len() != "activating"@.len());
        assert("active"@.len() != "reloading"@.len());
    }
}

/// Lines that are not selected take turns in two shades.
pub proof fn law_lines_take_turns(f: Flavor, rows: Seq<RowText>, selected: usize, i: int)
    requires
        0 <= i < rows.len(),
        i != selected,
    ensures
        services_body(f, rows, selected)[i][1].style.fg == Some(
            if i % 2 == 0 {
                paint::hue(f, Role::Body)
            } else {
                paint::hue(f, Role::Zebra)
            },
        ),
{
}

/// Where nothing is deployed, the screen says so.
pub proof fn law_empty_list_is_told(f: Flavor, selected: usize)
    ensures
        services_body(f, Seq::empty(), selected).len() == 3,
        services_body(f, Seq::empty(), selected)[0][0].content == " No services deployed yet."@,
{
}

/// The view that is shown stands in brackets and in bold, the other does not.
pub proof fn law_shown_view_is_marked(f: Flavor, view: LogView)
    ensures
        tab_bar(f, view).len() == 4,
        view == LogView::Deploy ==> tab_bar(f, view)[0].content == " [DEPLOY] "@
            && tab_bar(f, view)[2].content == "  SOFTWARE  "@,
        view == LogView::Software ==> tab_bar(f, view)[0].content == "  DEPLOY  "@
            && tab_bar(f, view)[2].content == " [SOFTWARE] "@,
        tab_bar(f, view)[0].style.bold <==> view == LogView::Deploy,
        tab_bar(f, view)[2].style.bold <==> view == LogView::Software,
{
}

/// A line of a log is shown whole; its colour tells failures, successes and warnings
/// from the rest.
pub proof fn law_log_line_is_shown_whole(f: Flavor, line: Seq<char>)
    ensures
        ({
            let s = text::trimmed_start(line);
            let row = log_view_row(f, line);
            let bad = (exists|x: Seq<char>, y: Seq<char>| s == #[trigger] (x + "failed"@ + y))
                || (exists|x: Seq<char>, y: Seq<char>| s == #[trigger] (x + "ERROR"@ + y))
                || "!"@.is_prefix_of(s);
            let good = "✔"@.is_prefix_of(s);
            let warned = "provision:"@.is_prefix_of(s) || "warn:"@.is_prefix_of(s);
            let aside = f == Flavor::Red && "sandbox:"@.is_prefix_of(s);
            &&& row.len() == 1
            &&& row[0].content == line
            &&& bad ==> row[0].style.fg == Some(paint::hue(f, Role::Bad))
            &&& !bad && good ==> row[0].style.fg == Some(paint::hue(f, Role::Good))
                && row[0].style.bold
            &&& !bad && !good && warned ==> row[0].style.fg == Some(paint::hue(f, Role::Warn))
            &&& !bad && !good && !warned && aside ==> row[0].style.fg == Some(
                paint::hue(f, Role::Dim),
            )
            &&& !bad && !good && !warned && !aside ==> row[0].style.fg == Some(
                paint::hue(f, Role::Body),
            )
        }),
{
    let s = text::trimmed_start(line);
    lemma_affix(s, "failed"@);
    lemma_affix(s, "ERROR"@);
    lemma_affix(s, "!"@);
    lemma_affix(s, "✔"@);
    lemma_affix(s, "provision:"@);
    lemma_affix(s, "warn:"@);
    lemma_affix(s, "sandbox:"@);
}

/// A log is shown from the line scrolled to down to its end, line by line; scrolling
/// one further takes the uppermost line away. An empty log is told to be one.
pub proof fn law_log_is_shown_from_where_it_is_scrolled_to(
    f: Flavor,
    view: LogView,
    lines: Seq<Seq<char>>,
    scroll: usize,
    i: int,
)
    requires
        lines.len() > 0,
    ensures
        ({
            let body = logs_body(f, view, lines, scroll);
            &&& scroll < lines.len() ==> body.len() == lines.len() - scroll
            &&& scroll >= lines.len() ==> body.len() == 0
            &&& scroll <= i < lines.len() ==> body[i - scroll].len() == 1 && body[i
                - scroll][0].content == lines[i]
            &&& scroll < lines.len() && scroll < usize::MAX ==> logs_body(
                f,
                view,
                lines,
                (scroll + 1) as usize,
            ) == body.skip(1)
            &&& logs_body(f, view, Seq::empty(), scroll).len() == 1
            &&& logs_body(f, LogView::Deploy, Seq::empty(), scroll)[0][0].content
                == "No deploy logs yet. Start a deployment to see output here."@
            &&& logs_body(f, LogView::Software, Seq::empty(), scroll)[0][0].content
                == "No software logs yet. Journal output will appear here."@
        }),
{
    let body = logs_body(f, view, lines, scroll);
    if scroll < lines.len() && scroll < usize::MAX {
        assert(logs_body(f, view, lines, (scroll + 1) as usize) =~= body.skip(1));
    }
}

// ---------------------------------------------------------------------------
// Laws of the menu and the hints
// ---------------------------------------------------------------------------

/// The menu lists the scan, the deploy, the services and the logs, in the order in
/// which the selection counts them; the selected entry alone is pointed at.
pub proof fn law_menu_is_listed(selected: usize, i: int)
    requires
        0 <= i < 4,
    ensures
        ({
            let body = menu_body(selected);
            &&& body.len() == 4
            &&& body[0][2].content == "System Scan "@
            &&& body[1][2].content == "Deploy Service "@
            &&& body[2][2].content == "My Services "@
            &&& body[3][2].content == "Logs "@
            &&& body[i].len() == 4
            &&& i == selected <==> body[i][0].content == " » "@
            &&& i == selected <==> body[i][2].style.bold
        }),
{
    let body = menu_body(selected);
    reveal_strlit(" » ");
    reveal_strlit("   ");
    assert(" » "@[1] != "   "@[1]);
    reveal_strlit(" ");
    assert(body[0][2].content == "System Scan "@) by {
        reveal_strlit("System Scan");
        reveal_strlit("System Scan ");
        assert("System Scan"@ + " "@ =~= "System Scan "@);
    }
    assert(body[1][2].content == "Deploy Service "@) by {
        reveal_strlit("Deploy Service");
        reveal_strlit("Deploy Service ");
        assert("Deploy Service"@ + " "@ =~= "Deploy Service "@);
    }
    assert(body[2][2].content == "My Services "@) by {
        reveal_strlit("My Services");
        reveal_strlit("My Services ");
        assert("My Services"@ + " "@ =~= "My Services "@);
    }
    assert(body[3][2].content == "Logs "@) by {
        reveal_strlit("Logs");
        reveal_strlit("Logs ");
        assert("Logs"@ + " "@ =~= "Logs "@);
    }
}

/// An entry of the menu says its sign, its title and, behind a dash, what it is for.
pub proof fn law_menu_entry(
    f: Flavor,
    icon: Seq<char>,
    title: Seq<char>,
    what: Seq<char>,
    role: Role,
    selected: bool,
)
    ensures
        ({
            let row = menu_item(f, icon, title, what, role, selected);
            &&& row.len() == 4
            &&& row[1].content == icon + " "@
            &&& row[2].content == title + " "@
            &&& row[3].content == "— "@ + what
            &&& row[1].style.fg == Some(paint::hue(f, role))
            &&& selected ==> row[3].style.fg == Some(paint::hue(f, role))
            &&& !selected ==> row[3].style.fg == Some(paint::hue(f, Role::Dim))
        }),
{
}

/// The four boxes of the red menu carry four labels; the selected box is the brighter
/// one.
pub proof fn law_boxes_of_the_menu(i: int, j: int)
    requires
        0 <= i < 4,
        0 <= j < 4,
        i != j,
    ensures
        cell_label(0) == "СИСТЕМА"@,
        cell_label(1) == "РАЗВЁРТЫВАНИЕ"@,
        cell_label(2) == "СЕРВИСЫ"@,
        cell_label(3) == "ЛОГИ"@,
        cell_label(i) != cell_label(j),
        cell_box(true).len() == 5,
        cell_box(false).len() == 5,
        cell_box(true)[0][0].style.fg == Some(paint::hue(Flavor::Red, Role::Accent)),
        cell_box(false)[0][0].style.fg == Some(paint::hue(Flavor::Red, Role::Warn)),
        cell_box(true)[2][1].content == "⬇"@,
{
    reveal_strlit("СИСТЕМА");
    reveal_strlit("РАЗВЁРТЫВАНИЕ");
    reveal_strlit("СЕРВИСЫ");
    reveal_strlit("ЛОГИ");
    assert("СИСТЕМА"@[0] != "РАЗВЁРТЫВАНИЕ"@[0]);
    assert("СИСТЕМА"@[1] != "СЕРВИСЫ"@[1]);
    assert("СИСТЕМА"@[0] != "ЛОГИ"@[0]);
    assert("РАЗВЁРТЫВАНИЕ"@[0] != "СЕРВИСЫ"@[0]);
    assert("РАЗВЁРТЫВАНИЕ"@[0] != "ЛОГИ"@[0]);
    assert("СЕРВИСЫ"@[0] != "ЛОГИ"@[0]);
}

proof fn lemma_hints_push(f: Flavor, h: Seq<(Seq<char>, Role)>, x: (Seq<char>, Role), n: int)
    requires
        0 <= n <= h.len(),
    ensures
        hint_spans(f, h.push(x), n) == hint_spans(f, h, n),
    decreases n,
{
    if n > 0 {
        lemma_hints_push(f, h, x, n - 1);
        assert(h.push(x)[n - 1] == h[n - 1]);
    }
}

/// Hints stand one after the other, each in its colour, with a dot between two.
pub proof fn law_hints_are_listed(f: Flavor, h: Seq<(Seq<char>, Role)>, t: Seq<char>, r: Role)
    ensures
        ({
            let n = h.len() as int;
            let before = hint_spans(f, h, n);
            let after = hint_spans(f, h.push((t, r)), n + 1);
            let hint = paint::colored(" "@ + t, paint::hue(f, r));
            &&& n == 0 ==> after == seq![hint]
            &&& n > 0 ==> after == before.push(
                paint::colored(" · "@, paint::hue(f, Role::Dim)),
            ).push(hint)
        }),
{
    let n = h.len() as int;
    lemma_hints_push(f, h, (t, r), n);
    assert(h.push((t, r))[n] == (t, r));
    if n == 0 {
        assert(hint_spans(f, h.push((t, r)), 1) =~= seq![
            paint::colored(" "@ + t, paint::hue(f, r)),
        ]);
    }
}

/// While something is under way the screen offers no key; a finished deploy is left
/// with Enter, and the scan, the address, the services and the logs with Esc.
pub proof fn law_hints_tell_the_way_back(f: Flavor, s: PanelScreen)
    ensures
        s is Scan ==> hints(f, s).len() == 1 && hints(f, s)[0].0 == "Esc back"@,
        s matches Screen::UrlInput { busy, .. } ==> {
            &&& busy ==> hints(f, s).len() == 1 && hints(f, s)[0].0 == "working…"@
            &&& !busy ==> hints(f, s).len() == 2 && hints(f, s)[0].0 == "Enter deploy"@ && hints(
                f,
                s,
            )[1].0 == "Esc back"@
        },
        s matches Screen::Deploy { done, .. } ==> hints(f, s).len() == 1 && hints(f, s)[0].0 == if done
            is Some {
            "Enter back"@
        } else {
            "working…"@
        },
        s is Services ==> hints(f, s).len() == 3 && hints(f, s)[1].0
            == "[s]top star[t] [d]elete [r]efresh"@ && hints(f, s)[2].0 == "Esc back"@,
        s is Logs ==> hints(f, s).last().0 == "Esc back"@ && hints(f, s)[1].0 == "↑↓ scroll"@,
        s is Logs && f == Flavor::Neon ==> hints(f, s).len() == 4 && hints(f, s)[2].0
            == "[d]elete"@,
        s is Logs && f == Flavor::Red ==> hints(f, s).len() == 3,
{
}

/// A question is answered with the arrows and Enter, or with Y and N; Esc leaves
/// everything as it is.
pub proof fn law_hints_on_questions(f: Flavor, s: PanelScreen)
    requires
        s is Confirm || s is ConfirmDelete || s is ConfirmClear,
    ensures
        hints(f, s).len() == 4,
        hints(f, s)[0].0 == "←→ select"@,
        hints(f, s)[1].0 == "Y/N"@,
        hints(f, s)[2].0 == "Enter confirm"@,
        hints(f, s)[3].0 == if s is ConfirmDelete {
            "Esc keep"@
        } else {
            "Esc cancel"@
        },
        s is Confirm <==> hints(f, s)[1].1 != Role::Bad,
{
}

/// The neon menu tells its keys below; the red one has an empty bar.
pub proof fn law_hints_on_the_menu(selected: usize)
    ensures
        ({
            let bar = hint_bar(Flavor::Red, Screen::Main { selected });
            bar.len() == 1 && bar[0].content.len() == 0
        }),
        hints(Flavor::Neon, Screen::Main { selected }).len() == 3,
        hints(Flavor::Neon, Screen::Main { selected })[0].0 == "↑↓ select"@,
        hints(Flavor::Neon, Screen::Main { selected })[1].0 == "Enter choose"@,
        hints(Flavor::Neon, Screen::Main { selected })[2].0 == "q quit"@,
{
}

/// An interface without an address is shown as its name and its state.
pub proof fn law_interface_without_address(f: Flavor, name: Seq<char>, state: Seq<char>)
    requires
        forall|k: int| 0 <= k < name.len() ==> !text::white(#[trigger] name[k]),
        forall|k: int| 0 <= k < state.len() ==> !text::white(#[trigger] state[k]),
        state.len() > 0,
    ensures
        ({
            let row = interface_row(f, name.push(' ') + state);
            &&& row.len() == 3
            &&& row[1].content == name
            &&& row[2].content == " "@ + state
        }),
{
    let t = name.push(' ') + state;
    lemma_last_white(name, ' ', state, t.len() as int);
    assert(t.subrange(0, name.len() as int) =~= name);
    assert(t.subrange(name.len() as int + 1, t.len() as int) =~= state);
    lemma_no_white(name, 0);
}

proof fn lemma_no_white(s: Seq<char>, i: int)
    requires
        forall|k: int| 0 <= k < s.len() ==> !text::white(#[trigger] s[k]),
        0 <= i <= s.len(),
    ensures
        text::white_from(s, i) is None,
    decreases s.len() - i,
{
    if i < s.len() {
        assert(!text::white(s[i]));
        lemma_no_white(s, i + 1);
    }
}

/// A line that says that something is missing, not installed or offline is shown in the
/// colour of failures.
pub proof fn law_lacking_things_are_marked(f: Flavor, x: Seq<char>, y: Seq<char>)
    ensures
        lacking(f, x + "MISSING"@ + y),
        lacking(f, x + "not installed"@ + y),
        lacking(f, x + "offline"@ + y),
        lacking(Flavor::Neon, x + "missing"@ + y),
        forall|line: Seq<char>|
            #![trigger lacking(f, text::trimmed_start(line))]
            {
                let t = text::trimmed_start(line);
                &&& lacking(f, t)
                &&& t != "Interfaces:"@
                &&& t != "Listening ports:"@
                &&& !text::begins(t, "PORT "@)
                &&& !text::begins(t, "[x]"@)
                &&& !text::begins(t, "[ ]"@)
            } ==> scan_line(f, line, false, false)[0].style.fg == Some(paint::hue(f, Role::Bad)),
{
    text::law_parts(x, x, y, "MISSING"@);
    text::law_parts(x, x, y, "not installed"@);
    text::law_parts(x, x, y, "offline"@);
    text::law_parts(x, x, y, "missing"@);
}

} // verus!
