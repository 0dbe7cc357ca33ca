//! What the panel's workers compute: the deploy log, the scan report, service
//! rows and service actions.

use std::collections::HashMap;

use vstd::prelude::*;

use crate::hoster::deploy::steps;
use crate::hoster::models::ServiceEntry;
use crate::hoster::units::UnitCommand;
use crate::logfile;
use crate::text;
use crate::tui::state::ServiceRow;

verus! {

// ---------------------------------------------------------------------------
// The deploy log
// ---------------------------------------------------------------------------

/// Cap on `deploy.log` size before the oldest bytes are dropped.
pub const MAX_DEPLOY_LOG_BYTES: usize = 1_048_576;

/// Bytes of the newest lines kept after a truncation.
pub const DEPLOY_LOG_KEEP_BYTES: usize = 65_536;

/// The deploy log with a line added.
pub open spec fn deploy_logged(log: Seq<u8>, line: Seq<char>) -> Seq<u8> {
    logfile::appended(log, line, MAX_DEPLOY_LOG_BYTES as nat, DEPLOY_LOG_KEEP_BYTES as nat)
}

/// The deploy log with lines added, one after the other.
pub open spec fn deploy_logged_all(log: Seq<u8>, lines: Seq<Seq<char>>) -> Seq<u8>
    decreases lines.len(),
{
    if lines.len() == 0 {
        log
    } else {
        deploy_logged(deploy_logged_all(log, lines.drop_last()), lines.last())
    }
}

pub fn append_deploy_log(log: &mut Vec<u8>, line: &str)
    ensures
        final(log)@ == deploy_logged(old(log)@, line@),
{
    logfile::append_line(log, line, MAX_DEPLOY_LOG_BYTES, DEPLOY_LOG_KEEP_BYTES);
}

pub fn append_deploy_lines(log: &mut Vec<u8>, lines: &Vec<String>)
    ensures
        final(log)@ == deploy_logged_all(old(log)@, text::texts(lines@)),
{
    let ghost before = log@;
    let ghost all = text::texts(lines@);
    let mut i: usize = 0;
    assert(all.take(0) =~= Seq::<Seq<char>>::empty());
    while i < lines.len()
        invariant
            i <= lines@.len(),
            all == text::texts(lines@),
            log@ == deploy_logged_all(before, all.take(i as int)),
        decreases lines@.len() - i,
    {
        append_deploy_log(log, lines[i].as_str());
        assert(all[i as int] == lines@[i as int]@);
        assert(all.take(i + 1).drop_last() =~= all.take(i as int));
        i = i + 1;
    }
    assert(all.take(i as int) =~= all);
}

/// The lines of the deploy log; `None` is a log that could not be read.
pub fn read_deploy_log(log: &Option<Vec<u8>>) -> (r: Vec<String>)
    ensures
        text::texts(r@) == match *log {
            Some(content) => logfile::log_texts(content@),
            None => Seq::empty(),
        },
{
    match log {
        Some(content) => logfile::log_lines(content),
        None => text::no_texts(),
    }
}

/// Drops the deploy log entirely.
pub fn clear_deploy_log(log: &mut Option<Vec<u8>>)
    ensures
        *final(log) is None,
{
    *log = None;
}

// ---------------------------------------------------------------------------
// Ports
// ---------------------------------------------------------------------------

/// Ports and their owners once the first `n` URLs of a unit are counted in; a
/// later claim to a port replaces an earlier one.
pub open spec fn unit_ports(
    m: Map<u16, Seq<char>>,
    unit: Seq<char>,
    urls: Seq<Seq<char>>,
    n: int,
) -> Map<u16, Seq<char>>
    decreases n,
{
    if n <= 0 {
        m
    } else {
        let before = unit_ports(m, unit, urls, n - 1);
        match steps::url_port(urls[n - 1]) {
            Some(p) => before.insert(p as u16, unit),
            None => before,
        }
    }
}

/// Ports and their owners among the first `n` registered services.
pub open spec fn owners_upto(entries: Seq<(String, ServiceEntry)>, n: int) -> Map<u16, Seq<char>>
    decreases n,
{
    if n <= 0 {
        Map::empty()
    } else {
        let e = entries[n - 1].1;
        unit_ports(
            owners_upto(entries, n - 1),
            e.unit_name@,
            text::texts(e.urls@),
            e.urls@.len() as int,
        )
    }
}

/// Ports and their owners among the registered services.
pub open spec fn owners(entries: Seq<(String, ServiceEntry)>) -> Map<u16, Seq<char>> {
    owners_upto(entries, entries.len() as int)
}

/// What a map of strings says.
pub open spec fn map_texts(m: Map<u16, String>) -> Map<u16, Seq<char>> {
    m.map_values(|s: String| s@)
}

fn add_unit_ports(map: &mut HashMap<u16, String>, e: &ServiceEntry)
    ensures
        map_texts(final(map)@) == unit_ports(
            map_texts(old(map)@),
            e.unit_name@,
            text::texts(e.urls@),
            e.urls@.len() as int,
        ),
{
    broadcast use vstd::std_specs::hash::group_hash_axioms;

    let ghost start = map_texts(map@);
    let ghost urls = text::texts(e.urls@);
    let mut i: usize = 0;
    while i < e.urls.len()
        invariant
            i <= e.urls@.len(),
            urls == text::texts(e.urls@),
            map_texts(map@) == unit_ports(start, e.unit_name@, urls, i as int),
        decreases e.urls@.len() - i,
    {
        assert(urls[i as int] == e.urls@[i as int]@);
        match steps::port_of_url(e.urls[i].as_str()) {
            Some(p) => {
                let ghost before = map@;
                let unit = e.unit_name.clone();
                map.insert(p, unit);
                assert(map_texts(map@) =~= map_texts(before).insert(p, unit@));
            },
            None => {},
        }
        i = i + 1;
    }
}

/// Port → unit name for every URL registered by our deployments.
pub fn deployed_port_map(entries: &Vec<(String, ServiceEntry)>) -> (r: HashMap<u16, String>)
    ensures
        map_texts(r@) == owners(entries@),
{
    broadcast use vstd::std_specs::hash::group_hash_axioms;

    let mut map: HashMap<u16, String> = HashMap::new();
    let mut i: usize = 0;
    assert(map_texts(map@) =~= Map::<u16, Seq<char>>::empty());
    while i < entries.len()
        invariant
            i <= entries@.len(),
            map_texts(map@) == owners_upto(entries@, i as int),
        decreases entries@.len() - i,
    {
        add_unit_ports(&mut map, &entries[i].1);
        i = i + 1;
    }
    map
}

/// Ports in strictly rising order.
pub open spec fn rising(s: Seq<u16>) -> bool {
    forall|i: int, j: int| 0 <= i < j < s.len() ==> s[i] < s[j]
}

fn insert_rising(v: &mut Vec<u16>, p: u16)
    requires
        rising(old(v)@),
    ensures
        rising(final(v)@),
        forall|q: u16| #[trigger] final(v)@.contains(q) <==> old(v)@.contains(q) || q == p,
{
    let ghost before = v@;
    let mut i: usize = 0;
    while i < v.len() && v[i] < p
        invariant
            i <= v@.len(),
            v@ == before,
            forall|k: int| 0 <= k < i ==> before[k] < p,
        decreases v@.len() - i,
    {
        i = i + 1;
    }
    if i < v.len() && v[i] == p {
        assert(before[i as int] == p);
        return;
    }
    v.insert(i, p);
    proof {
        assert forall|q: u16| #[trigger] v@.contains(q) <==> before.contains(q) || q == p by {
            if v@.contains(q) {
                let k = choose|k: int| 0 <= k < v@.len() && v@[k] == q;
                if k < i {
                    assert(before[k] == q);
                } else if k > i {
                    assert(before[k - 1] == q);
                }
            }
            if before.contains(q) {
                let k = choose|k: int| 0 <= k < before.len() && before[k] == q;
                if k < i {
                    assert(v@[k] == q);
                } else {
                    assert(v@[k + 1] == q);
                }
            }
            assert(v@[i as int] == p);
        }
    }
}

/// A row of the port table: the port, and the unit that owns it.
pub open spec fn row_of(p: u16, deployed: Map<u16, Seq<char>>) -> (u16, Option<Seq<char>>) {
    (
        p,
        if deployed.contains_key(p) {
            Some(deployed[p])
        } else {
            None
        },
    )
}

/// What the port table says.
pub open spec fn port_texts(v: Seq<(u16, Option<String>)>) -> Seq<(u16, Option<Seq<char>>)> {
    v.map_values(|r: (u16, Option<String>)| (r.0, text::opt_text(r.1)))
}

/// The ports of a table.
pub open spec fn row_ports(v: Seq<(u16, Option<String>)>) -> Seq<u16> {
    v.map_values(|r: (u16, Option<String>)| r.0)
}

/// Every live listener, sorted and deduplicated. A port gets `Some(unit)`
/// when it belongs to one of our deployments; foreign listeners stay
/// anonymous — `None`, no owner ever attributed.
pub fn port_rows_from(listening: &Vec<u16>, deployed: &HashMap<u16, String>) -> (r: Vec<
    (u16, Option<String>),
>)
    ensures
        rising(row_ports(r@)),
        forall|p: u16| #[trigger] row_ports(r@).contains(p) <==> listening@.contains(p),
        forall|i: int|
            0 <= i < r@.len() ==> #[trigger] port_texts(r@)[i] == row_of(
                r@[i].0,
                map_texts(deployed@),
            ),
{
    broadcast use vstd::std_specs::hash::group_hash_axioms;

    let mut ports: Vec<u16> = Vec::new();
    let mut i: usize = 0;
    while i < listening.len()
        invariant
            i <= listening@.len(),
            rising(ports@),
            forall|p: u16| #[trigger]
                ports@.contains(p) <==> exists|k: int| 0 <= k < i && #[trigger] listening@[k] == p,
        decreases listening@.len() - i,
    {
        insert_rising(&mut ports, listening[i]);
        i = i + 1;
    }
    let mut out: Vec<(u16, Option<String>)> = Vec::new();
    let mut j: usize = 0;
    while j < ports.len()
        invariant
            j <= ports@.len(),
            row_ports(out@) == ports@.take(j as int),
            out@.len() == j,
            forall|k: int|
                0 <= k < j ==> #[trigger] port_texts(out@)[k] == row_of(
                    out@[k].0,
                    map_texts(deployed@),
                ),
        decreases ports@.len() - j,
    {
        let p = ports[j];
        let unit = match deployed.get(&p) {
            Some(u) => Some(u.clone()),
            None => None,
        };
        let ghost before = out@;
        out.push((p, unit));
        proof {
            assert(row_ports(out@) =~= row_ports(before).push(p));
            assert(ports@.take(j + 1) =~= ports@.take(j as int).push(p));
            assert forall|k: int| 0 <= k < j + 1 implies #[trigger] port_texts(out@)[k] == row_of(
                out@[k].0,
                map_texts(deployed@),
            ) by {
                if k < j {
                    assert(port_texts(before)[k] == row_of(before[k].0, map_texts(deployed@)));
                }
            }
        }
        j = j + 1;
    }
    assert(ports@.take(j as int) =~= ports@);
    out
}

/// A foreign listener is never attributed to anyone.
pub proof fn law_foreign_ports_stay_anonymous(p: u16, deployed: Map<u16, Seq<char>>)
    requires
        !deployed.contains_key(p),
    ensures
        row_of(p, deployed).1 is None,
{
}

// ---------------------------------------------------------------------------
// The scan report
// ---------------------------------------------------------------------------

/// One network interface.
#[derive(Debug)]
pub struct Interface {
    pub name: String,
    pub ip: String,
    pub status: String,
}

/// What a scan found out.
#[derive(Debug)]
pub struct ScanResult {
    /// When it began.
    pub started: String,
    pub systemd: bool,
    pub systemd_nspawn: bool,
    pub git: bool,
    pub python3: bool,
    pub node: bool,
    /// Is there a `python3` on the search path?
    pub python3_on_path: bool,
    /// Is there a `node` on the search path?
    pub node_on_path: bool,
    pub network: bool,
    pub interfaces: Vec<Interface>,
    pub listening_ports: Vec<u16>,
    pub errors: Vec<String>,
}

/// One text or another.
pub open spec fn either(cond: bool, yes: Seq<char>, no: Seq<char>) -> Seq<char> {
    if cond {
        yes
    } else {
        no
    }
}

fn yesno(cond: bool, yes: &'static str, no: &'static str) -> (r: &'static str)
    ensures
        r@ == either(cond, yes@, no@),
{
    if cond {
        yes
    } else {
        no
    }
}

fn mark(ok: bool) -> (r: &'static str)
    ensures
        r@ == either(ok, "[x]"@, "[ ]"@),
{
    yesno(ok, "[x]", "[ ]")
}

fn found(on_path: bool) -> (r: &'static str)
    ensures
        r@ == either(on_path, "found"@, "missing"@),
{
    yesno(on_path, "found", "missing")
}

/// `n` spaces.
pub open spec fn spaces(n: int) -> Seq<char> {
    Seq::new(n as nat, |i: int| ' ')
}

/// A text filled up with spaces to a width.
pub open spec fn padded(s: Seq<char>, width: int) -> Seq<char> {
    if s.len() < width {
        s + spaces(width - s.len())
    } else {
        s
    }
}

pub(crate) fn pad(s: &str, width: usize) -> (r: String)
    ensures
        r@ == padded(s@, width as int),
{
    let n: usize = text::chars_of(s).len();
    let mut out = s.to_owned();
    let mut i: usize = n;
    assert(s@ + spaces(0) =~= s@);
    while i < width
        invariant
            n == s@.len(),
            n <= i,
            i <= width || i == n,
            out@ == s@ + spaces(i - n),
        decreases width - i,
    {
        out.push(' ');
        assert(s@ + spaces(i + 1 - n) =~= (s@ + spaces(i - n)).push(' '));
        i = i + 1;
    }
    out
}

/// The prerequisites.
pub open spec fn tools_text(r: ScanResult) -> Seq<char> {
    either(r.systemd, "[x]"@, "[ ]"@) + " systemd          "@ + either(
        r.systemd,
        "found"@,
        "MISSING"@,
    ) + "\n"@ + either(r.systemd_nspawn, "[x]"@, "[ ]"@) + " systemd-nspawn   "@ + either(
        r.systemd_nspawn,
        "available"@,
        "not installed"@,
    ) + "\n"@ + either(r.git, "[x]"@, "[ ]"@) + " git              "@ + either(
        r.git,
        "found"@,
        "MISSING"@,
    ) + "\n"@ + either(r.python3 && r.node, "[x]"@, "[ ]"@) + " python3 / node   "@ + either(
        r.python3_on_path,
        "found"@,
        "missing"@,
    ) + " / "@ + either(r.node_on_path, "found"@, "missing"@) + "\n"@ + either(
        r.network,
        "[x]"@,
        "[ ]"@,
    ) + " network          "@ + either(r.network, "online"@, "offline"@) + "\n"@
}

pub open spec fn interface_text(i: Interface) -> Seq<char> {
    "  "@ + padded(i.name@, 14) + " "@ + padded(i.ip@, 18) + " "@ + i.status@ + "\n"@
}

/// The first `n` interfaces.
pub open spec fn interfaces_upto(v: Seq<Interface>, n: int) -> Seq<char>
    decreases n,
{
    if n <= 0 {
        Seq::empty()
    } else {
        interfaces_upto(v, n - 1) + interface_text(v[n - 1])
    }
}

/// The interface section; without interfaces there is none.
pub open spec fn interfaces_text(v: Seq<Interface>) -> Seq<char> {
    if v.len() == 0 {
        Seq::empty()
    } else {
        "\nInterfaces:\n"@ + interfaces_upto(v, v.len() as int)
    }
}

pub open spec fn port_row_text(row: (u16, Option<Seq<char>>)) -> Seq<char> {
    let port = padded(text::decimal(row.0 as nat), 6);
    match row.1 {
        Some(unit) => "  "@ + port + " "@ + unit + " (deployed)\n"@,
        None => "  "@ + port + "\n"@,
    }
}

/// The first `n` rows of the port table.
pub open spec fn port_rows_upto(v: Seq<(u16, Option<Seq<char>>)>, n: int) -> Seq<char>
    decreases n,
{
    if n <= 0 {
        Seq::empty()
    } else {
        port_rows_upto(v, n - 1) + port_row_text(v[n - 1])
    }
}

/// The port section: an empty list is information too.
pub open spec fn ports_text(v: Seq<(u16, Option<Seq<char>>)>) -> Seq<char> {
    if v.len() == 0 {
        "\nListening ports:\n"@ + "  (none)\n"@
    } else {
        "\nListening ports:\n"@ + "  PORT   SERVICE\n"@ + port_rows_upto(v, v.len() as int)
    }
}

/// The first `n` errors.
pub open spec fn errors_upto(v: Seq<Seq<char>>, n: int) -> Seq<char>
    decreases n,
{
    if n <= 0 {
        Seq::empty()
    } else {
        errors_upto(v, n - 1) + "\n! "@ + v[n - 1] + "\n"@
    }
}

/// The report of a scan.
pub open spec fn report_text(r: ScanResult, rows: Seq<(u16, Option<Seq<char>>)>) -> Seq<char> {
    "  scanned at "@ + r.started@ + "\n"@ + tools_text(r) + interfaces_text(r.interfaces@)
        + ports_text(rows) + errors_upto(text::texts(r.errors@), r.errors@.len() as int)
}

fn render_tools(r: &ScanResult) -> (out: String)
    ensures
        out@ == tools_text(*r),
{
    let mut out = mark(r.systemd).to_owned();
    out.append(" systemd          ");
    out.append(yesno(r.systemd, "found", "MISSING"));
    out.append("\n");
    out.append(mark(r.systemd_nspawn));
    out.append(" systemd-nspawn   ");
    out.append(yesno(r.systemd_nspawn, "available", "not installed"));
    out.append("\n");
    out.append(mark(r.git));
    out.append(" git              ");
    out.append(yesno(r.git, "found", "MISSING"));
    out.append("\n");
    out.append(mark(r.python3 && r.node));
    out.append(" python3 / node   ");
    out.append(found(r.python3_on_path));
    out.append(" / ");
    out.append(found(r.node_on_path));
    out.append("\n");
    out.append(mark(r.network));
    out.append(" network          ");
    out.append(yesno(r.network, "online", "offline"));
    out.append("\n");
    out
}

fn render_interfaces(v: &Vec<Interface>) -> (out: String)
    ensures
        out@ == interfaces_text(v@),
{
    let mut out = String::new();
    if v.len() == 0 {
        assert(out@ =~= interfaces_text(v@));
        return out;
    }
    out.append("\nInterfaces:\n");
    let ghost head = "\nInterfaces:\n"@;
    let mut i: usize = 0;
    assert(out@ =~= head + interfaces_upto(v@, 0));
    while i < v.len()
        invariant
            i <= v@.len(),
            out@ == head + interfaces_upto(v@, i as int),
        decreases v@.len() - i,
    {
        let ghost before = out@;
        let mut row = "  ".to_owned();
        let name = pad(v[i].name.as_str(), 14);
        row.append(name.as_str());
        row.append(" ");
        let ip = pad(v[i].ip.as_str(), 18);
        row.append(ip.as_str());
        row.append(" ");
        row.append(v[i].status.as_str());
        row.append("\n");
        out.append(row.as_str());
        assert(out@ =~= head + (interfaces_upto(v@, i as int) + interface_text(v@[i as int])));
        i = i + 1;
    }
    out
}

fn render_ports(rows: &Vec<(u16, Option<String>)>) -> (out: String)
    ensures
        out@ == ports_text(port_texts(rows@)),
{
    let ghost all = port_texts(rows@);
    assert(all.len() == rows@.len());
    let mut out = "\nListening ports:\n".to_owned();
    if rows.len() == 0 {
        out.append("  (none)\n");
        return out;
    }
    out.append("  PORT   SERVICE\n");
    let ghost head = "\nListening ports:\n"@ + "  PORT   SERVICE\n"@;
    let mut i: usize = 0;
    assert(out@ =~= head + port_rows_upto(all, 0));
    while i < rows.len()
        invariant
            i <= rows@.len(),
            all == port_texts(rows@),
            out@ == head + port_rows_upto(all, i as int),
        decreases rows@.len() - i,
    {
        let d = text::decimal_of(rows[i].0 as u64);
        let port = pad(d.as_str(), 6);
        let mut row = "  ".to_owned();
        row.append(port.as_str());
        assert(all[i as int] == (rows@[i as int].0, text::opt_text(rows@[i as int].1)));
        match &rows[i].1 {
            Some(unit) => {
                row.append(" ");
                row.append(unit.as_str());
                row.append(" (deployed)\n");
            },
            None => {
                row.append("\n");
            },
        }
        assert(row@ == port_row_text(all[i as int]));
        out.append(row.as_str());
        assert(out@ =~= head + (port_rows_upto(all, i as int) + port_row_text(all[i as int])));
        i = i + 1;
    }
    out
}

/// The report of a scan. Every occupied port is listed, but ownership is
/// resolved only from the panel's own registry: anything else stays an
/// anonymous occupied port — never a process name.
pub fn scan_report(r: &ScanResult, rows: &Vec<(u16, Option<String>)>) -> (out: String)
    ensures
        out@ == report_text(*r, port_texts(rows@)),
{
    let mut out = "  scanned at ".to_owned();
    out.append(r.started.as_str());
    out.append("\n");
    let tools = render_tools(r);
    out.append(tools.as_str());
    let interfaces = render_interfaces(&r.interfaces);
    out.append(interfaces.as_str());
    let ports = render_ports(rows);
    out.append(ports.as_str());
    let ghost head = out@;
    let ghost errors = text::texts(r.errors@);
    let mut i: usize = 0;
    assert(out@ =~= head + errors_upto(errors, 0));
    while i < r.errors.len()
        invariant
            i <= r.errors@.len(),
            errors == text::texts(r.errors@),
            out@ == head + errors_upto(errors, i as int),
        decreases r.errors@.len() - i,
    {
        out.append("\n! ");
        out.append(r.errors[i].as_str());
        out.append("\n");
        assert(errors[i as int] == r.errors@[i as int]@);
        assert(out@ =~= head + (errors_upto(errors, i as int) + "\n! "@ + errors[i as int]
            + "\n"@));
        i = i + 1;
    }
    out
}

// ---------------------------------------------------------------------------
// Services
// ---------------------------------------------------------------------------

/// A row of the services screen. `active` is what `systemctl is-active`
/// printed, `None` where it could not be run.
pub fn service_row(name: &str, entry: &ServiceEntry, active: &Option<String>) -> (r: ServiceRow)
    ensures
        r.name@ == name@,
        r.status@ == match *active {
            Some(s) => text::trimmed(s@),
            None => "unknown"@,
        },
        r.url@ == (if entry.urls@.len() > 0 {
            entry.urls@[0]@
        } else {
            Seq::empty()
        }),
{
    let status = match active {
        Some(s) => text::trim(s.as_str()),
        None => "unknown".to_owned(),
    };
    let url = if entry.urls.len() > 0 {
        entry.urls[0].clone()
    } else {
        let none = String::new();
        assert(none@ =~= Seq::<char>::empty());
        none
    };
    ServiceRow { name: name.to_owned(), status, url }
}

/// What can be done to a service.
#[derive(Debug, Clone, Copy, PartialEq, Eq, Structural)]
pub enum Action {
    Stop,
    Start,
    Restart,
    Delete,
}

pub open spec fn action_name(a: Action) -> Seq<char> {
    match a {
        Action::Stop => "stop"@,
        Action::Start => "start"@,
        Action::Restart => "restart"@,
        Action::Delete => "delete"@,
    }
}

/// The commands of an action, of which the last one decides how it came out. A
/// unit may have been left failed or disabled: that is cleared first, so that a
/// single start is enough. A deletion is no command.
pub open spec fn commands_of(a: Action) -> Seq<UnitCommand> {
    match a {
        Action::Stop => seq![UnitCommand::Stop],
        Action::Start => seq![UnitCommand::ResetFailed, UnitCommand::Enable, UnitCommand::Start],
        Action::Restart => seq![UnitCommand::Restart],
        Action::Delete => Seq::empty(),
    }
}

pub fn action_commands(a: Action) -> (r: Vec<UnitCommand>)
    ensures
        r@ == commands_of(a),
{
    match a {
        Action::Stop => vec![UnitCommand::Stop],
        Action::Start => vec![UnitCommand::ResetFailed, UnitCommand::Enable, UnitCommand::Start],
        Action::Restart => vec![UnitCommand::Restart],
        Action::Delete => Vec::new(),
    }
}

/// How a call of systemctl came out.
#[derive(Debug)]
pub enum SystemctlRun {
    Succeeded,
    /// It failed, and complained with this.
    Failed(String),
    /// It could not be run, for this reason.
    Unavailable(String),
}

/// What the panel says of an action. A deletion always succeeds.
pub open spec fn action_text(name: Seq<char>, a: Action, run: SystemctlRun) -> Seq<char> {
    if a == Action::Delete {
        name + ": deleted"@
    } else {
        match run {
            SystemctlRun::Succeeded => name + ": "@ + action_name(a) + "ed"@,
            SystemctlRun::Failed(e) => name + ": "@ + action_name(a) + " failed — "@
                + text::trimmed(e@),
            SystemctlRun::Unavailable(e) => name + ": "@ + action_name(a) + " failed — "@ + e@,
        }
    }
}

/// The message after an action on a service.
pub fn service_action(name: &str, a: Action, run: &SystemctlRun) -> (r: String)
    ensures
        r@ == action_text(name@, a, *run),
{
    let mut m = name.to_owned();
    if a == Action::Delete {
        m.append(": deleted");
        return m;
    }
    m.append(": ");
    m.append(
        match a {
            Action::Stop => "stop",
            Action::Start => "start",
            Action::Restart => "restart",
            Action::Delete => "delete",
        },
    );
    match run {
        SystemctlRun::Succeeded => {
            m.append("ed");
        },
        SystemctlRun::Failed(e) => {
            m.append(" failed — ");
            let t = text::trim(e.as_str());
            m.append(t.as_str());
        },
        SystemctlRun::Unavailable(e) => {
            m.append(" failed — ");
            m.append(e.as_str());
        },
    }
    m
}

/// A service is called stopped, started or restarted only where systemctl
/// succeeded.
pub proof fn law_success_is_said_of_success_only(
    name: Seq<char>,
    a: Action,
    run: SystemctlRun,
)
    requires
        a != Action::Delete,
    ensures
        action_text(name, a, run) == name + ": "@ + action_name(a) + "ed"@ <==> run is Succeeded,
{
    reveal_strlit("ed");
    reveal_strlit(" failed — ");
    let n = (name + ": "@ + action_name(a)).len() as int;
    let said = name + ": "@ + action_name(a) + "ed"@;
    assert(said[n] == 'e');
    match run {
        SystemctlRun::Succeeded => {},
        SystemctlRun::Failed(_) => {
            assert(action_text(name, a, run)[n] == ' ');
        },
        SystemctlRun::Unavailable(_) => {
            assert(action_text(name, a, run)[n] == ' ');
        },
    }
}

/// What journalctl gave for one service.
#[derive(Debug)]
pub enum JournalRead {
    /// It succeeded, and printed this.
    Printed(String),
    /// It failed, and complained with this.
    Failed(String),
    /// It could not be run.
    Unavailable(String),
}

/// The lines of a service's journal, or what there is to say instead.
pub open spec fn journal_lines(j: JournalRead) -> Seq<Seq<char>> {
    match j {
        JournalRead::Printed(out) => if text::lines(out@).len() == 0 {
            seq!["(no log output yet)"@]
        } else {
            text::lines(out@)
        },
        JournalRead::Failed(err) => if text::trimmed(err@).len() == 0 {
            seq!["(no journal entries)"@]
        } else {
            seq!["(journalctl: "@ + text::trimmed(err@) + ")"@]
        },
        JournalRead::Unavailable(e) => seq!["(journalctl not available: "@ + e@ + ")"@],
    }
}

/// The heading of a service's log.
pub open spec fn log_heading(name: Seq<char>, unit: Seq<char>) -> Seq<char> {
    "== "@ + name + " ("@ + unit + ") =="@
}

/// One service's part of the software logs.
#[derive(Debug)]
pub struct ServiceLog {
    pub name: String,
    pub unit_name: String,
    pub journal: JournalRead,
}

/// The software logs of the first `n` services.
pub open spec fn software_upto(v: Seq<ServiceLog>, n: int) -> Seq<Seq<char>>
    decreases n,
{
    if n <= 0 {
        Seq::empty()
    } else {
        let s = v[n - 1];
        (software_upto(v, n - 1).push(log_heading(s.name@, s.unit_name@)) + journal_lines(
            s.journal,
        )).push(Seq::empty())
    }
}

/// The software logs.
pub open spec fn software_text(v: Seq<ServiceLog>) -> Seq<Seq<char>> {
    if v.len() == 0 {
        seq!["No services deployed yet."@, "Deploy a service to see its journal here."@]
    } else {
        software_upto(v, v.len() as int)
    }
}

pub(crate) fn heading(name: &str, unit: &str) -> (r: String)
    ensures
        r@ == log_heading(name@, unit@),
{
    let mut h = "== ".to_owned();
    h.append(name);
    h.append(" (");
    h.append(unit);
    h.append(") ==");
    h
}

fn lines_of_journal(j: &JournalRead) -> (r: Vec<String>)
    ensures
        text::texts(r@) == journal_lines(*j),
{
    match j {
        JournalRead::Printed(out) => {
            let rows = text::lines_of(out.as_str());
            assert(text::texts(rows@).len() == rows@.len());
            if rows.len() == 0 {
                let mut r = text::no_texts();
                text::push_text(&mut r, "(no log output yet)");
                r
            } else {
                rows
            }
        },
        JournalRead::Failed(err) => {
            let t = text::trim(err.as_str());
            let mut r = text::no_texts();
            if t.as_str().is_empty() {
                text::push_text(&mut r, "(no journal entries)");
            } else {
                let mut m = "(journalctl: ".to_owned();
                m.append(t.as_str());
                m.append(")");
                text::push_text(&mut r, m.as_str());
            }
            r
        },
        JournalRead::Unavailable(e) => {
            let mut m = "(journalctl not available: ".to_owned();
            m.append(e.as_str());
            m.append(")");
            let mut r = text::no_texts();
            text::push_text(&mut r, m.as_str());
            r
        },
    }
}

/// The lines of the software logs, from the journals of the registered
/// services.
pub fn fetch_software_logs(v: &Vec<ServiceLog>) -> (r: Vec<String>)
    ensures
        text::texts(r@) == software_text(v@),
{
    let mut out = text::no_texts();
    if v.len() == 0 {
        text::push_text(&mut out, "No services deployed yet.");
        text::push_text(&mut out, "Deploy a service to see its journal here.");
        return out;
    }
    let mut i: usize = 0;
    while i < v.len()
        invariant
            i <= v@.len(),
            text::texts(out@) == software_upto(v@, i as int),
        decreases v@.len() - i,
    {
        let h = heading(v[i].name.as_str(), v[i].unit_name.as_str());
        text::push_text(&mut out, h.as_str());
        let lines = lines_of_journal(&v[i].journal);
        text::push_texts(&mut out, &lines);
        text::push_text(&mut out, "");
        proof {
            reveal_strlit("");
            assert(""@ =~= Seq::<char>::empty());
        }
        i = i + 1;
    }
    out
}

/// The raw journal lines of a unit, for following it; none where journalctl
/// failed.
pub fn journal_raw_for(j: &JournalRead) -> (r: Vec<String>)
    ensures
        text::texts(r@) == match *j {
            JournalRead::Printed(out) => text::lines(out@),
            _ => Seq::empty(),
        },
{
    match j {
        JournalRead::Printed(out) => text::lines_of(out.as_str()),
        _ => text::no_texts(),
    }
}

// ---------------------------------------------------------------------------
// Deploy markers
// ---------------------------------------------------------------------------

/// The line that opens a deploy in the shared log.
pub fn started_line(url: &str, stamp: &str) -> (r: String)
    ensures
        r@ == "== deploy "@ + url@ + " started at "@ + stamp@ + " =="@,
{
    let mut m = "== deploy ".to_owned();
    m.append(url);
    m.append(" started at ");
    m.append(stamp);
    m.append(" ==");
    m
}

/// The line that closes a deploy in the shared log. A deploy that is being
/// torn down by an exit writes none: the exit path writes [`interrupted_line`],
/// so every deploy has exactly one marker.
pub fn done_line(url: &str, ok: bool, exiting: bool) -> (r: Option<String>)
    ensures
        text::opt_text(r) == (if exiting {
            None
        } else {
            Some("== deploy "@ + url@ + " done: "@ + either(ok, "ok"@, "failed"@) + " =="@)
        }),
{
    if exiting {
        return None;
    }
    let mut m = "== deploy ".to_owned();
    m.append(url);
    m.append(" done: ");
    m.append(yesno(ok, "ok", "failed"));
    m.append(" ==");
    Some(m)
}

/// The line with which the exit path closes a deploy that it has torn down.
pub fn interrupted_line(url: &str) -> (r: String)
    ensures
        r@ == "== deploy "@ + url@ + " done: interrupted =="@,
{
    let mut m = "== deploy ".to_owned();
    m.append(url);
    m.append(" done: interrupted ==");
    m
}

/// Must the exit path go on waiting for the deploy worker? It waits, after the
/// writers were stopped, until the worker has unwound: only then has it written
/// the last line of the deploy. `finished` is `None` where there is no worker.
pub fn wait_deploy_worker(finished: Option<bool>, elapsed: u64, timeout: u64) -> (r: bool)
    ensures
        r == (finished == Some(false) && elapsed < timeout),
{
    match finished {
        Some(done) => !done && elapsed < timeout,
        None => false,
    }
}

// ---------------------------------------------------------------------------
// What the reports say
// ---------------------------------------------------------------------------

/// The deploy log loses nothing while it is within a mebibyte: a line is added at
/// its end.
pub proof fn law_deploy_log_grows_at_its_end(log: Seq<u8>, line: Seq<char>)
    requires
        log.len() <= 1_048_576,
    ensures
        deploy_logged(log, line) == log + vstd::utf8::encode_utf8(line) + seq![10u8],
{
}

/// Beyond that the newest 64 kibibytes are kept, from the first whole line on.
pub proof fn law_deploy_log_keeps_its_end(log: Seq<u8>, line: Seq<char>, p: int)
    requires
        log.len() > 1_048_576,
        log.len() - 65_536 <= p < log.len(),
        log[p] == 10,
        forall|q: int| log.len() - 65_536 <= q < p ==> #[trigger] log[q] != 10,
    ensures
        deploy_logged(log, line) == log.skip(p + 1) + vstd::utf8::encode_utf8(line) + seq![10u8],
{
    logfile::law_bounding_keeps_as_much_as_fits(log, 1_048_576, 65_536, p);
}

/// Lines are added to the deploy log one after the other, in their order.
pub proof fn law_deploy_lines_are_added_in_order(
    log: Seq<u8>,
    lines: Seq<Seq<char>>,
    line: Seq<char>,
)
    ensures
        deploy_logged_all(log, Seq::empty()) == log,
        deploy_logged_all(log, lines.push(line)) == deploy_logged(
            deploy_logged_all(log, lines),
            line,
        ),
{
    assert(lines.push(line).drop_last() =~= lines);
}

proof fn lemma_unit_ports(
    m: Map<u16, Seq<char>>,
    unit: Seq<char>,
    urls: Seq<Seq<char>>,
    n: int,
    p: u16,
)
    requires
        0 <= n <= urls.len(),
    ensures
        ({
            let after = unit_ports(m, unit, urls, n);
            let claimed = exists|k: int|
                0 <= k < n && steps::url_port(#[trigger] urls[k]) == Some(p as nat);
            &&& claimed ==> after.contains_key(p) && after[p] == unit
            &&& !claimed ==> after.contains_key(p) == m.contains_key(p) && (m.contains_key(p)
                ==> after[p] == m[p])
        }),
    decreases n,
{
    if n > 0 {
        lemma_unit_ports(m, unit, urls, n - 1, p);
        let before = unit_ports(m, unit, urls, n - 1);
        let claimed = exists|k: int|
            0 <= k < n && steps::url_port(#[trigger] urls[k]) == Some(p as nat);
        let earlier = exists|k: int|
            0 <= k < n - 1 && steps::url_port(#[trigger] urls[k]) == Some(p as nat);
        if let Some(q) = steps::url_port(urls[n - 1]) {
            assert(q <= u16::MAX);
            if q == p as nat {
                assert(steps::url_port(urls[n - 1]) == Some(p as nat));
                assert(claimed);
            } else {
                assert(claimed ==> earlier) by {
                    if claimed {
                        let k = choose|k: int|
                            0 <= k < n && steps::url_port(#[trigger] urls[k]) == Some(p as nat);
                        assert(k < n - 1);
                    }
                }
            }
        } else {
            assert(claimed ==> earlier) by {
                if claimed {
                    let k = choose|k: int|
                        0 <= k < n && steps::url_port(#[trigger] urls[k]) == Some(p as nat);
                    assert(k < n - 1);
                }
            }
        }
    }
}

/// Does a registered service announce a port?
pub open spec fn announces(e: ServiceEntry, p: u16) -> bool {
    exists|k: int|
        0 <= k < e.urls@.len() && steps::url_port(#[trigger] e.urls@[k]@) == Some(p as nat)
}

proof fn lemma_owners(entries: Seq<(String, ServiceEntry)>, n: int, p: u16)
    requires
        0 <= n <= entries.len(),
    ensures
        owners_upto(entries, n).contains_key(p) <==> exists|i: int|
            0 <= i < n && announces((#[trigger] entries[i]).1, p),
        forall|i: int|
            0 <= i < n && announces((#[trigger] entries[i]).1, p) && (forall|j: int|
                i < j < n ==> !announces((#[trigger] entries[j]).1, p)) ==> owners_upto(
                entries,
                n,
            ).contains_key(p) && owners_upto(entries, n)[p] == entries[i].1.unit_name@,
    decreases n,
{
    if n > 0 {
        lemma_owners(entries, n - 1, p);
        let e = entries[n - 1].1;
        let urls = text::texts(e.urls@);
        let before = owners_upto(entries, n - 1);
        lemma_unit_ports(before, e.unit_name@, urls, urls.len() as int, p);
        let claimed = exists|k: int|
            0 <= k < urls.len() && steps::url_port(#[trigger] urls[k]) == Some(p as nat);
        assert(claimed <==> announces(e, p)) by {
            if claimed {
                let k = choose|k: int|
                    0 <= k < urls.len() && steps::url_port(#[trigger] urls[k]) == Some(p as nat);
                assert(steps::url_port(e.urls@[k]@) == Some(p as nat));
            }
            if announces(e, p) {
                let k = choose|k: int|
                    0 <= k < e.urls@.len() && steps::url_port(#[trigger] e.urls@[k]@) == Some(
                        p as nat,
                    );
                assert(steps::url_port(urls[k]) == Some(p as nat));
            }
        }
        assert forall|i: int|
            0 <= i < n && announces((#[trigger] entries[i]).1, p) && (forall|j: int|
                i < j < n ==> !announces((#[trigger] entries[j]).1, p)) implies owners_upto(
            entries,
            n,
        ).contains_key(p) && owners_upto(entries, n)[p] == entries[i].1.unit_name@ by {
            if i < n - 1 {
                assert(!announces(entries[n - 1].1, p));
                assert(forall|j: int|
                    i < j < n - 1 ==> !announces((#[trigger] entries[j]).1, p));
            }
        }
        if owners_upto(entries, n).contains_key(p) && !claimed {
            let i = choose|i: int| 0 <= i < n - 1 && announces((#[trigger] entries[i]).1, p);
            assert(announces(entries[i].1, p));
        }
        if exists|i: int| 0 <= i < n && announces((#[trigger] entries[i]).1, p) {
            let i = choose|i: int| 0 <= i < n && announces((#[trigger] entries[i]).1, p);
            if i < n - 1 {
                assert(announces(entries[i].1, p));
            }
        }
    }
}

/// A port belongs to the registered service that announces it, the last one where
/// there are several; a port that none announces belongs to no one.
pub proof fn law_ports_belong_to_who_announces_them(
    entries: Seq<(String, ServiceEntry)>,
    p: u16,
)
    ensures
        owners(entries).contains_key(p) <==> exists|i: int|
            0 <= i < entries.len() && announces((#[trigger] entries[i]).1, p),
        forall|i: int|
            0 <= i < entries.len() && announces((#[trigger] entries[i]).1, p) && (forall|j: int|
                i < j < entries.len() ==> !announces((#[trigger] entries[j]).1, p))
                ==> owners(entries)[p] == entries[i].1.unit_name@,
{
    lemma_owners(entries, entries.len() as int, p);
}

/// A port of ours is listed with its unit.
pub proof fn law_own_ports_are_attributed(p: u16, deployed: Map<u16, Seq<char>>)
    requires
        deployed.contains_key(p),
    ensures
        row_of(p, deployed) == (p, Some(deployed[p])),
{
}

/// Padding adds spaces at the end of a text that is too short, and never cuts.
pub proof fn law_padding(s: Seq<char>, width: nat)
    ensures
        s.is_prefix_of(padded(s, width as int)),
        padded(s, width as int).len() == if s.len() < width {
            width
        } else {
            s.len()
        },
        forall|i: int|
            s.len() <= i < padded(s, width as int).len() ==> #[trigger] padded(s, width as int)[i]
                == ' ',
{
    assert(padded(s, width as int).subrange(0, s.len() as int) =~= s);
}

proof fn lemma_interfaces_push(v: Seq<Interface>, i: Interface, n: int)
    requires
        0 <= n <= v.len(),
    ensures
        interfaces_upto(v.push(i), n) == interfaces_upto(v, n),
    decreases n,
{
    if n > 0 {
        lemma_interfaces_push(v, i, n - 1);
        assert(v.push(i)[n - 1] == v[n - 1]);
    }
}

/// The interface section has a heading and one row for every interface, in their
/// order: the name, the address and the state, in columns.
pub proof fn law_every_interface_has_its_row(v: Seq<Interface>, i: Interface)
    ensures
        interfaces_text(Seq::empty()).len() == 0,
        interfaces_text(v.push(i)) == (if v.len() == 0 {
            "\nInterfaces:\n"@
        } else {
            interfaces_text(v)
        }) + ("  "@ + padded(i.name@, 14) + " "@ + padded(i.ip@, 18) + " "@ + i.status@ + "\n"@),
{
    lemma_interfaces_push(v, i, v.len() as int);
    let row = "  "@ + padded(i.name@, 14) + " "@ + padded(i.ip@, 18) + " "@ + i.status@ + "\n"@;
    assert(v.push(i)[v.len() as int] == i);
    assert(interfaces_text(v.push(i)) =~= "\nInterfaces:\n"@ + (interfaces_upto(v, v.len() as int)
        + row));
    if v.len() == 0 {
        assert(interfaces_upto(v, 0) + row =~= row);
    } else {
        assert(interfaces_text(v) + row =~= "\nInterfaces:\n"@ + (interfaces_upto(
            v,
            v.len() as int,
        ) + row));
    }
}

proof fn lemma_port_rows_push(
    v: Seq<(u16, Option<Seq<char>>)>,
    row: (u16, Option<Seq<char>>),
    n: int,
)
    requires
        0 <= n <= v.len(),
    ensures
        port_rows_upto(v.push(row), n) == port_rows_upto(v, n),
    decreases n,
{
    if n > 0 {
        lemma_port_rows_push(v, row, n - 1);
        assert(v.push(row)[n - 1] == v[n - 1]);
    }
}

/// The port section has one row for every occupied port, in their order: its
/// number, and the unit where it is one of ours. Without any it says so.
pub proof fn law_every_port_has_its_row(
    v: Seq<(u16, Option<Seq<char>>)>,
    port: u16,
    unit: Seq<char>,
)
    ensures
        ports_text(Seq::empty()) == "\nListening ports:\n"@ + "  (none)\n"@,
        ({
            let above = if v.len() == 0 {
                "\nListening ports:\n"@ + "  PORT   SERVICE\n"@
            } else {
                ports_text(v)
            };
            let number = padded(text::decimal(port as nat), 6);
            &&& ports_text(v.push((port, None))) == above + ("  "@ + number + "\n"@)
            &&& ports_text(v.push((port, Some(unit)))) == above + ("  "@ + number + " "@ + unit
                + " (deployed)\n"@)
        }),
{
    let head = "\nListening ports:\n"@ + "  PORT   SERVICE\n"@;
    let a = (port, None::<Seq<char>>);
    let b = (port, Some(unit));
    lemma_port_rows_push(v, a, v.len() as int);
    lemma_port_rows_push(v, b, v.len() as int);
    let above = if v.len() == 0 {
        head
    } else {
        ports_text(v)
    };
    let before = port_rows_upto(v, v.len() as int);
    assert(above =~= head + before);
    assert(v.push(a)[v.len() as int] == a);
    assert(v.push(b)[v.len() as int] == b);
    assert(ports_text(v.push(a)) =~= above + port_row_text(a));
    assert(ports_text(v.push(b)) =~= above + port_row_text(b));
}

proof fn lemma_errors_push(v: Seq<Seq<char>>, e: Seq<char>, n: int)
    requires
        0 <= n <= v.len(),
    ensures
        errors_upto(v.push(e), n) == errors_upto(v, n),
    decreases n,
{
    if n > 0 {
        lemma_errors_push(v, e, n - 1);
        assert(v.push(e)[n - 1] == v[n - 1]);
    }
}

/// Every error of a scan is reported, marked, in their order.
pub proof fn law_every_scan_error_is_reported(v: Seq<Seq<char>>, e: Seq<char>)
    ensures
        errors_upto(Seq::empty(), 0).len() == 0,
        errors_upto(v.push(e), v.len() as int + 1) == errors_upto(v, v.len() as int) + "\n! "@ + e + "\n"@,
{
    lemma_errors_push(v, e, v.len() as int);
}

/// A prerequisite is marked and called present exactly where it is; python and
/// node share a row, marked where both are there.
pub proof fn law_prerequisites_are_marked(r: ScanResult)
    ensures
        ({
            let say = |ok: bool, yes: Seq<char>, no: Seq<char>|
                if ok {
                    yes
                } else {
                    no
                };
            tools_text(r) == say(r.systemd, "[x]"@, "[ ]"@) + " systemd          "@ + say(
                r.systemd,
                "found"@,
                "MISSING"@,
            ) + "\n"@ + say(r.systemd_nspawn, "[x]"@, "[ ]"@) + " systemd-nspawn   "@ + say(
                r.systemd_nspawn,
                "available"@,
                "not installed"@,
            ) + "\n"@ + say(r.git, "[x]"@, "[ ]"@) + " git              "@ + say(
                r.git,
                "found"@,
                "MISSING"@,
            ) + "\n"@ + say(r.python3 && r.node, "[x]"@, "[ ]"@) + " python3 / node   "@ + say(
                r.python3_on_path,
                "found"@,
                "missing"@,
            ) + " / "@ + say(r.node_on_path, "found"@, "missing"@) + "\n"@ + say(
                r.network,
                "[x]"@,
                "[ ]"@,
            ) + " network          "@ + say(r.network, "online"@, "offline"@) + "\n"@
        }),
{
}

/// The report has all its sections, in this order, and each of them whole: when
/// the scan began, the prerequisites, the interfaces, the ports and the errors.
pub proof fn law_report_has_all_sections(r: ScanResult, rows: Seq<(u16, Option<Seq<char>>)>)
    ensures
        report_text(r, rows) == ("  scanned at "@ + r.started@ + "\n"@) + tools_text(r)
            + interfaces_text(r.interfaces@) + ports_text(rows) + errors_upto(
            text::texts(r.errors@),
            r.errors@.len() as int,
        ),
{
}

/// Every interface stands in the report with its own row.
pub proof fn law_report_lists_every_interface(
    r: ScanResult,
    rows: Seq<(u16, Option<Seq<char>>)>,
    k: int,
)
    requires
        0 <= k < r.interfaces@.len(),
    ensures
        ({
            let i = r.interfaces@[k];
            let row = "  "@ + padded(i.name@, 14) + " "@ + padded(i.ip@, 18) + " "@ + i.status@
                + "\n"@;
            exists|a: Seq<char>, b: Seq<char>| report_text(r, rows) == #[trigger] (a + row + b)
        }),
{
    let v = r.interfaces@;
    let row = interface_text(v[k]);
    lemma_interface_row(v, v.len() as int, k);
    let (x, y) = choose|x: Seq<char>, y: Seq<char>|
        interfaces_upto(v, v.len() as int) == #[trigger] (x + row + y);
    let a = "  scanned at "@ + r.started@ + "\n"@ + tools_text(r) + "\nInterfaces:\n"@ + x;
    let b = y + ports_text(rows) + errors_upto(text::texts(r.errors@), r.errors@.len() as int);
    assert(report_text(r, rows) =~= a + row + b);
}

proof fn lemma_interface_row(v: Seq<Interface>, n: int, k: int)
    requires
        0 <= k < n <= v.len(),
    ensures
        exists|x: Seq<char>, y: Seq<char>|
            interfaces_upto(v, n) == #[trigger] (x + interface_text(v[k]) + y),
    decreases n,
{
    let row = interface_text(v[k]);
    if k == n - 1 {
        assert(interfaces_upto(v, n) =~= interfaces_upto(v, n - 1) + row + Seq::<char>::empty());
    } else {
        lemma_interface_row(v, n - 1, k);
        let (x, y) = choose|x: Seq<char>, y: Seq<char>|
            interfaces_upto(v, n - 1) == #[trigger] (x + row + y);
        assert(interfaces_upto(v, n) =~= x + row + (y + interface_text(v[n - 1])));
    }
}

/// An action is one of its commands, or, for a start, follows what clears its
/// way: the start itself comes last.
pub proof fn law_actions_end_with_their_command(a: Action)
    ensures
        a == Action::Delete <==> commands_of(a).len() == 0,
        a == Action::Stop ==> commands_of(a).last() == UnitCommand::Stop,
        a == Action::Start ==> commands_of(a).last() == UnitCommand::Start,
        a == Action::Restart ==> commands_of(a).last() == UnitCommand::Restart,
        a == Action::Start ==> commands_of(a).contains(UnitCommand::ResetFailed) && commands_of(
            a,
        ).contains(UnitCommand::Enable),
        a != Action::Start ==> commands_of(a).len() <= 1,
{
    let s = commands_of(Action::Start);
    assert(s[0] == UnitCommand::ResetFailed);
    assert(s[1] == UnitCommand::Enable);
}

/// What is said of an action names the service first, then the action, and then
/// what systemctl complained of, where it failed.
pub proof fn law_actions_are_reported_by_name(
    name: Seq<char>,
    a: Action,
    x: Seq<char>,
    err: String,
    e: Seq<char>,
    y: Seq<char>,
)
    requires
        a != Action::Delete,
        forall|i: int| 0 <= i < x.len() ==> text::white(#[trigger] x[i]),
        forall|i: int| 0 <= i < y.len() ==> text::white(#[trigger] y[i]),
        e.len() > 0 && !text::white(e[0]) && !text::white(e.last()),
        err@ == x + e + y,
    ensures
        ({
            let act = match a {
                Action::Stop => "stop"@,
                Action::Start => "start"@,
                _ => "restart"@,
            };
            &&& action_text(name, a, SystemctlRun::Succeeded) == name + ": "@ + act + "ed"@
            &&& action_text(name, a, SystemctlRun::Failed(err)) == name + ": "@ + act
                + " failed — "@ + e
            &&& action_text(name, a, SystemctlRun::Unavailable(err)) == name + ": "@ + act
                + " failed — "@ + err@
        }),
{
    text::law_trimming(x, e, y);
}

/// A journal is shown line by line as it was printed; where there is nothing to
/// show, one line says why.
pub proof fn law_journal_is_shown_whole(j: JournalRead)
    ensures
        j matches JournalRead::Printed(out) ==> {
            &&& text::lines(out@).len() > 0 ==> journal_lines(j) == text::lines(out@)
            &&& text::lines(out@).len() == 0 ==> journal_lines(j).len() == 1
        },
        !(j is Printed) ==> journal_lines(j).len() == 1,
        j matches JournalRead::Unavailable(e) ==> exists|a: Seq<char>, b: Seq<char>|
            journal_lines(j)[0] == #[trigger] (a + e@ + b),
        j matches JournalRead::Failed(e) ==> text::trimmed(e@).len() > 0 ==> exists|
            a: Seq<char>,
            b: Seq<char>,
        | journal_lines(j)[0] == #[trigger] (a + text::trimmed(e@) + b),
{
}

proof fn lemma_software_push(v: Seq<ServiceLog>, s: ServiceLog, n: int)
    requires
        0 <= n <= v.len(),
    ensures
        software_upto(v.push(s), n) == software_upto(v, n),
    decreases n,
{
    if n > 0 {
        lemma_software_push(v, s, n - 1);
        assert(v.push(s)[n - 1] == v[n - 1]);
    }
}

/// The software log shows every service, in their order: a heading with its name
/// and its unit, its journal, and a blank line.
pub proof fn law_every_service_shows_its_journal(v: Seq<ServiceLog>, s: ServiceLog)
    ensures
        software_text(v.push(s)) == (if v.len() == 0 {
            Seq::<Seq<char>>::empty()
        } else {
            software_text(v)
        }) + seq!["== "@ + s.name@ + " ("@ + s.unit_name@ + ") =="@] + journal_lines(s.journal)
            + seq![Seq::<char>::empty()],
        software_text(Seq::empty()).len() > 0,
{
    lemma_software_push(v, s, v.len() as int);
    assert(v.push(s)[v.len() as int] == s);
    let before = software_upto(v, v.len() as int);
    assert(software_text(v.push(s)) =~= before + seq![log_heading(s.name@, s.unit_name@)]
        + journal_lines(s.journal) + seq![Seq::<char>::empty()]);
    if v.len() == 0 {
        assert(before =~= Seq::<Seq<char>>::empty());
    }
}

/// Where nothing is deployed, the software logs say so.
pub proof fn law_empty_software_logs_are_told()
    ensures
        software_text(Seq::empty()) == seq![
            "No services deployed yet."@,
            "Deploy a service to see its journal here."@,
        ],
{
}

/// Ports in rising order stand in the list once each, the smaller ones first.
pub proof fn law_rising_ports_are_listed_once(s: Seq<u16>, p: u16)
    requires
        rising(s),
    ensures
        s.no_duplicates(),
        s.len() > 0 && s.last() < p ==> rising(s.push(p)),
        s.len() > 0 && s.last() >= p ==> !rising(s.push(p)),
{
    let t = s.push(p);
    if s.len() > 0 {
        assert(t[s.len() - 1] == s.last());
        assert(t[s.len() as int] == p);
    }
}

} // verus!
