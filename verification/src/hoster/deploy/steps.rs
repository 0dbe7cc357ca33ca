//! The parts of a deploy that only compute: names, commands, settings,
//! classifications and texts.

use vstd::prelude::*;

use crate::hoster::journal::DeployState;
use crate::hoster::models::{RepoAnalysis, ServiceEntry};
use crate::hoster::recipes::DemoRecipe;
use crate::hoster::toolcheck::{ToolProbe, Ver};
use crate::hoster::units;
use crate::paths;
use crate::text;

verus! {

// ---------------------------------------------------------------------------
// Names and commands
// ---------------------------------------------------------------------------

/// A character that a directory name may hold.
pub open spec fn dir_char(c: char) -> bool {
    text::alphanumeric(c) || c == '_' || c == '-'
}

/// The directory a repository is cloned into: every other character becomes
/// an underscore.
pub open spec fn dirname(name: Seq<char>) -> Seq<char> {
    name.map_values(
        |c: char|
            if dir_char(c) {
                c
            } else {
                '_'
            },
    )
}

pub fn safe_dirname(name: &str) -> (r: String)
    ensures
        r@ == dirname(name@),
{
    let v = text::chars_of(name);
    let mut out = String::new();
    let mut i: usize = 0;
    while i < v.len()
        invariant
            i <= v@.len(),
            v@ == name@,
            out@ == dirname(name@).take(i as int),
        decreases v@.len() - i,
    {
        if text::is_alphanumeric(v[i]) || v[i] == '_' || v[i] == '-' {
            out.push(v[i]);
        } else {
            out.push('_');
        }
        assert(dirname(name@).take(i + 1) =~= dirname(name@).take(i as int).push(
            dirname(name@)[i as int],
        ));
        i = i + 1;
    }
    assert(dirname(name@).take(i as int) =~= dirname(name@));
    out
}

/// A clone directory is one entry of the services directory: its name leads
/// nowhere else.
pub proof fn law_dirname_stays_inside(name: Seq<char>)
    ensures
        forall|i: int| 0 <= i < dirname(name).len() ==> #[trigger] dirname(name)[i] != '/'
            && dirname(name)[i] != '.',
{
}

/// Where a repository is cloned from and to.
#[derive(Debug)]
pub struct CloneTarget {
    /// The directory that holds all clones, to be created.
    pub base: String,
    pub dir: String,
    pub url: String,
}

/// The address git clones a repository from.
pub open spec fn clone_url(owner: Seq<char>, name: Seq<char>) -> Seq<char> {
    "https://github.com/"@ + owner + "/"@ + name + ".git"@
}

/// The directory a repository is cloned into: below the work directory, or
/// else below the services directory.
pub open spec fn clone_dir(
    name: Seq<char>,
    work_dir: Option<Seq<char>>,
    services_dir: Seq<char>,
) -> Seq<char> {
    paths::joined_path(
        match work_dir {
            Some(d) => d,
            None => services_dir,
        },
        dirname(name),
    )
}

/// The text of an optional reference.
pub open spec fn given(o: Option<&str>) -> Option<Seq<char>> {
    match o {
        Some(s) => Some(s@),
        None => None,
    }
}

/// Clone (or reuse) the repository into the permanent services directory:
/// what to clone, and where to.
pub fn clone_repo(analysis: &RepoAnalysis, work_dir: Option<&str>, services_dir: &str) -> (r:
    CloneTarget)
    ensures
        r.base@ == match work_dir {
            Some(d) => d@,
            None => services_dir@,
        },
        r.dir@ == clone_dir(analysis.name@, given(work_dir), services_dir@),
        r.url@ == clone_url(analysis.owner@, analysis.name@),
{
    let base = match work_dir {
        Some(d) => d.to_owned(),
        None => services_dir.to_owned(),
    };
    let name = safe_dirname(analysis.name.as_str());
    let dir = paths::join(base.as_str(), name.as_str());
    let mut url = "https://github.com/".to_owned();
    url.append(analysis.owner.as_str());
    url.append("/");
    url.append(analysis.name.as_str());
    url.append(".git");
    CloneTarget { base, dir, url }
}

/// A recipe's start command with its placeholders filled in, one after the
/// other.
pub open spec fn start_command(
    cmd: Seq<char>,
    go: bool,
    project_dir: Seq<char>,
    self_exe: Seq<char>,
    port: nat,
) -> Seq<char> {
    let bin = if go {
        text::replaced(cmd, "{bin}"@, paths::joined_path(project_dir, "ghost-server"@))
    } else {
        cmd
    };
    let venv = text::replaced(
        bin,
        "{venv}"@,
        paths::joined_path(project_dir, ".venv/bin/python"@),
    );
    let python = text::replaced(venv, "{python}"@, "python3"@);
    let this = text::replaced(python, "{self}"@, self_exe);
    let project = text::replaced(this, "{project}"@, project_dir);
    text::replaced(project, "{port}"@, text::decimal(port))
}

/// Fill recipe start command placeholders with concrete paths. `self_exe` is
/// the path of this program.
pub fn resolve_start(recipe: &DemoRecipe, project_dir: &str, self_exe: &str, port: u16) -> (r:
    String)
    ensures
        r@ == start_command(
            recipe.start_cmd@,
            recipe.language@ == "Go"@,
            project_dir@,
            self_exe@,
            port as nat,
        ),
{
    proof {
        reveal_strlit("{bin}");
        reveal_strlit("{venv}");
        reveal_strlit("{python}");
        reveal_strlit("{self}");
        reveal_strlit("{project}");
        reveal_strlit("{port}");
    }
    let mut cmd = recipe.start_cmd.clone();
    if text::same(recipe.language.as_str(), "Go") {
        let bin = paths::join(project_dir, "ghost-server");
        cmd = text::replace(cmd.as_str(), "{bin}", bin.as_str());
    }
    let venv = paths::join(project_dir, ".venv/bin/python");
    cmd = text::replace(cmd.as_str(), "{venv}", venv.as_str());
    cmd = text::replace(cmd.as_str(), "{python}", "python3");
    cmd = text::replace(cmd.as_str(), "{self}", self_exe);
    cmd = text::replace(cmd.as_str(), "{project}", project_dir);
    let p = text::decimal_of(port as u64);
    text::replace(cmd.as_str(), "{port}", p.as_str())
}

/// A build step with the project directory filled in.
pub open spec fn project_step(step: Seq<char>, project_dir: Seq<char>) -> Seq<char> {
    text::replaced(step, "{project}"@, project_dir)
}

/// Fill the `{project}` placeholder in a build/prefetch step with the
/// concrete project directory.
pub fn resolve_project_step(step: &str, project_dir: &str) -> (r: String)
    ensures
        r@ == project_step(step@, project_dir@),
{
    proof {
        reveal_strlit("{project}");
    }
    text::replace(step, "{project}", project_dir)
}

// ---------------------------------------------------------------------------
// SearXNG settings
// ---------------------------------------------------------------------------

/// The white space a line begins with.
pub open spec fn indent(line: Seq<char>) -> Seq<char> {
    line.subrange(0, line.len() - text::trimmed_start(line).len())
}

/// A settings line with the real secret key, loopback bind and chosen port.
pub open spec fn patched_line(line: Seq<char>, secret_key: Seq<char>, port: nat) -> Seq<char> {
    let trimmed = text::trimmed_start(line);
    if text::begins(trimmed, "secret_key:"@) {
        indent(line) + "secret_key: \""@ + secret_key + "\""@
    } else if text::begins(trimmed, "bind_address:"@) {
        indent(line) + "bind_address: \"127.0.0.1\""@
    } else if text::begins(trimmed, "http_address:"@) {
        indent(line) + "http_address: \"127.0.0.1:"@ + text::decimal(port) + "\""@
    } else if text::begins(trimmed, "port:"@) {
        indent(line) + "port: "@ + text::decimal(port)
    } else {
        line
    }
}

/// A settings file with every line patched.
pub open spec fn patched_settings(
    content: Seq<char>,
    secret_key: Seq<char>,
    port: nat,
) -> Seq<char> {
    text::joined(
        text::lines(content).map_values(|l: Seq<char>| patched_line(l, secret_key, port)),
        "\n"@,
    ) + "\n"@
}

fn patch_line(line: &str, secret_key: &str, port: u16) -> (r: String)
    ensures
        r@ == patched_line(line@, secret_key@, port as nat),
{
    let v = text::chars_of(line);
    let black = text::first_black(&v);
    let mut out = text::string_range(&v, 0, black);
    let trimmed = text::string_range(&v, black, v.len());
    assert(out@ =~= indent(line@));
    let p = text::decimal_of(port as u64);
    if text::starts_with(trimmed.as_str(), "secret_key:") {
        out.append("secret_key: \"");
        out.append(secret_key);
        out.append("\"");
        out
    } else if text::starts_with(trimmed.as_str(), "bind_address:") {
        out.append("bind_address: \"127.0.0.1\"");
        out
    } else if text::starts_with(trimmed.as_str(), "http_address:") {
        out.append("http_address: \"127.0.0.1:");
        out.append(p.as_str());
        out.append("\"");
        out
    } else if text::starts_with(trimmed.as_str(), "port:") {
        out.append("port: ");
        out.append(p.as_str());
        out
    } else {
        line.to_owned()
    }
}

/// Patch SearXNG settings.yml: real secret key, loopback bind, chosen port.
pub fn prepare_searxng_config(content: &str, secret_key: &str, port: u16) -> (r: String)
    ensures
        r@ == patched_settings(content@, secret_key@, port as nat),
{
    let rows = text::lines_of(content);
    let ghost all = text::lines(content@);
    let ghost patch = |l: Seq<char>| patched_line(l, secret_key@, port as nat);
    assert(text::texts(rows@).len() == rows@.len());
    let mut patched = text::no_texts();
    let mut i: usize = 0;
    while i < rows.len()
        invariant
            i <= rows@.len(),
            all == text::texts(rows@),
            patch == (|l: Seq<char>| patched_line(l, secret_key@, port as nat)),
            text::texts(patched@) == all.take(i as int).map_values(patch),
        decreases rows@.len() - i,
    {
        let line = patch_line(rows[i].as_str(), secret_key, port);
        assert(all[i as int] == rows@[i as int]@);
        text::push_text(&mut patched, line.as_str());
        assert(all.take(i + 1).map_values(patch) =~= all.take(i as int).map_values(patch).push(
            line@,
        ));
        i = i + 1;
    }
    assert(all.take(i as int) =~= all);
    let mut out = text::join(&patched, "\n");
    out.append("\n");
    out
}

/// Whatever the settings file said, a line that sets the bind address binds
/// to loopback.
pub proof fn law_patched_settings_bind_loopback(line: Seq<char>, secret_key: Seq<char>, port: nat)
    requires
        text::begins(text::trimmed_start(line), "bind_address:"@),
        !text::begins(text::trimmed_start(line), "secret_key:"@),
    ensures
        text::ends(patched_line(line, secret_key, port), "bind_address: \"127.0.0.1\""@),
{
    let tail = "bind_address: \"127.0.0.1\""@;
    let p = patched_line(line, secret_key, port);
    assert(p.subrange(p.len() - tail.len(), p.len() as int) =~= tail);
}

/// The hexadecimal digit of value `d`.
pub open spec fn hex_digit(d: int) -> char {
    if d == 10 {
        'a'
    } else if d == 11 {
        'b'
    } else if d == 12 {
        'c'
    } else if d == 13 {
        'd'
    } else if d == 14 {
        'e'
    } else if d == 15 {
        'f'
    } else {
        text::digit_char(d)
    }
}

/// Bytes in lowercase hexadecimal, two digits each.
pub open spec fn hex(bytes: Seq<u8>) -> Seq<char>
    decreases bytes.len(),
{
    if bytes.len() == 0 {
        Seq::empty()
    } else {
        hex(bytes.drop_last()).push(hex_digit((bytes.last() / 16) as int)).push(
            hex_digit((bytes.last() % 16) as int),
        )
    }
}

fn hex_digit_of(d: u8) -> (c: char)
    requires
        d < 16,
    ensures
        c == hex_digit(d as int),
{
    match d {
        0 => '0',
        1 => '1',
        2 => '2',
        3 => '3',
        4 => '4',
        5 => '5',
        6 => '6',
        7 => '7',
        8 => '8',
        9 => '9',
        10 => 'a',
        11 => 'b',
        12 => 'c',
        13 => 'd',
        14 => 'e',
        _ => 'f',
    }
}

/// Random bytes as lowercase hex.
pub fn random_hex(bytes: &Vec<u8>) -> (r: String)
    ensures
        r@ == hex(bytes@),
        r@.len() == 2 * bytes@.len(),
{
    let mut out = String::new();
    let mut i: usize = 0;
    while i < bytes.len()
        invariant
            i <= bytes@.len(),
            out@ == hex(bytes@.take(i as int)),
            out@.len() == 2 * i,
        decreases bytes@.len() - i,
    {
        assert(bytes@.take(i + 1).drop_last() =~= bytes@.take(i as int));
        let b = bytes[i];
        out.push(hex_digit_of(b / 16));
        out.push(hex_digit_of(b % 16));
        i = i + 1;
    }
    assert(bytes@.take(i as int) =~= bytes@);
    out
}

// ---------------------------------------------------------------------------
// Output
// ---------------------------------------------------------------------------

/// A line that earns a spot in the deploy output.
pub open spec fn on_screen(line: Seq<char>) -> bool {
    let t = text::trimmed_start(line);
    text::begins(t, "!"@) || text::begins(t, "warn: "@) || text::begins(t, "sandbox: "@)
        || text::begins(t, "provision: "@) || text::holds(t, "listening on "@)
}

/// Lines that earn a spot in the (deliberately laconic) deploy output:
/// verification and warning lines plus the final reachable URL. Pure progress
/// chatter is dropped; the final verdict line is what matters.
pub fn screen_line(line: &str) -> (r: bool)
    ensures
        r == on_screen(line@),
{
    let t = text::trim_start(line);
    text::starts_with(t.as_str(), "!") || text::starts_with(t.as_str(), "warn: ")
        || text::starts_with(t.as_str(), "sandbox: ") || text::starts_with(
        t.as_str(),
        "provision: ",
    ) || text::contains(t.as_str(), "listening on ")
}

/// At most the first 300 characters.
pub fn short(s: &str) -> (r: String)
    ensures
        r@ == text::first_chars(s@, 300),
{
    text::take_chars(s, 300)
}

/// At most the last `n` of a list.
pub open spec fn last_of<A>(s: Seq<A>, n: int) -> Seq<A> {
    if s.len() <= n {
        s
    } else {
        s.subrange(s.len() - n, s.len() as int)
    }
}

/// The last twelve lines, cut at 600 characters.
pub open spec fn tail_body(s: Seq<char>) -> Seq<char> {
    text::first_chars(text::joined(last_of(text::lines(s), 12), "\n"@), 600)
}

/// The end of a step's output, under a heading, where it holds anything.
pub open spec fn tail_text(s: Seq<char>) -> Seq<char> {
    if text::trimmed(tail_body(s)).len() == 0 {
        Seq::empty()
    } else {
        "\n--- stdout (tail) ---\n"@ + tail_body(s)
    }
}

/// The last few lines of a step's stdout, so a failure that was printed there
/// is visible in the report even when stderr only carried a status block.
pub fn tail(s: &str) -> (r: String)
    ensures
        r@ == tail_text(s@),
{
    let rows = text::lines_of(s);
    let ghost all = text::lines(s@);
    assert(text::texts(rows@).len() == rows@.len());
    let n: usize = rows.len();
    let from: usize = if n > 12 {
        n - 12
    } else {
        0
    };
    let mut kept = text::no_texts();
    let mut i: usize = from;
    assert(text::texts(kept@) =~= all.subrange(from as int, from as int));
    while i < n
        invariant
            n == rows@.len(),
            from <= i <= n,
            all == text::texts(rows@),
            text::texts(kept@) == all.subrange(from as int, i as int),
        decreases n - i,
    {
        text::push_text(&mut kept, rows[i].as_str());
        assert(all[i as int] == rows@[i as int]@);
        assert(all.subrange(from as int, i + 1) =~= all.subrange(from as int, i as int).push(
            all[i as int],
        ));
        i = i + 1;
    }
    assert(text::texts(kept@) =~= last_of(all, 12));
    let joined = text::join(&kept, "\n");
    let body = text::take_chars(joined.as_str(), 600);
    if text::trim(body.as_str()).as_str().is_empty() {
        String::new()
    } else {
        let mut out = "\n--- stdout (tail) ---\n".to_owned();
        out.append(body.as_str());
        out
    }
}

// ---------------------------------------------------------------------------
// Tools
// ---------------------------------------------------------------------------

/// Whether a tool needs provisioning, and the version it then has to have.
pub open spec fn need(p: ToolProbe) -> Option<Option<Ver>> {
    if !p.provisionable {
        None
    } else {
        match p.installed {
            None => Some(
                if p.is_go {
                    None
                } else {
                    p.floor
                },
            ),
            Some(have) => if p.is_go {
                None
            } else {
                match p.floor {
                    Some(min) => if have.older(min) {
                        Some(Some(min))
                    } else {
                        None
                    },
                    None => None,
                }
            },
        }
    }
}

/// The needs among the first `n` tools, with their positions.
pub open spec fn needs_upto(probes: Seq<Option<ToolProbe>>, n: int) -> Seq<(int, Option<Ver>)>
    decreases n,
{
    if n <= 0 {
        Seq::empty()
    } else {
        let before = needs_upto(probes, n - 1);
        match probes[n - 1] {
            Some(p) => match need(p) {
                Some(v) => before.push((n - 1, v)),
                None => before,
            },
            None => before,
        }
    }
}

/// Which of the recipe's tools need provisioning into the project cache, in
/// the order of the recipe: their positions, and the version each has to
/// have. `probes` tells what is known of each tool, `None` for an unknown one.
///
/// A tool is provisioned when it is missing, or older than the manifest floor.
/// Go is special: an installed-but-old `go` is left to its own toolchain mode,
/// while a *missing* `go` always gets the pinned baseline (`None`).
pub fn toolbox_needs(probes: &Vec<Option<ToolProbe>>) -> (r: Vec<(usize, Option<Ver>)>)
    ensures
        r@.map_values(|x: (usize, Option<Ver>)| (x.0 as int, x.1)) == needs_upto(
            probes@,
            probes@.len() as int,
        ),
{
    let mut out: Vec<(usize, Option<Ver>)> = Vec::new();
    let mut i: usize = 0;
    let ghost at = |x: (usize, Option<Ver>)| (x.0 as int, x.1);
    assert(out@.map_values(at) =~= needs_upto(probes@, 0));
    while i < probes.len()
        invariant
            i <= probes@.len(),
            at == (|x: (usize, Option<Ver>)| (x.0 as int, x.1)),
            out@.map_values(at) == needs_upto(probes@, i as int),
        decreases probes@.len() - i,
    {
        let ghost before = out@;
        match probes[i] {
            Some(p) => {
                if p.provisionable {
                    match p.installed {
                        None => {
                            let v: Option<Ver> = if p.is_go {
                                None
                            } else {
                                p.floor
                            };
                            out.push((i, v));
                            assert(out@.map_values(at) =~= before.map_values(at).push(
                                (i as int, v),
                            ));
                        },
                        Some(have) => {
                            if !p.is_go {
                                match p.floor {
                                    Some(min) => {
                                        if have.is_older(&min) {
                                            let v: Option<Ver> = Some(min);
                                            out.push((i, v));
                                            assert(out@.map_values(at) =~= before.map_values(
                                                at,
                                            ).push((i as int, v)));
                                        }
                                    },
                                    None => {},
                                }
                            }
                        },
                    }
                }
            },
            None => {},
        }
        i = i + 1;
    }
    out
}

// ---------------------------------------------------------------------------
// Listeners
// ---------------------------------------------------------------------------

/// The host part of `addr:port`.
pub open spec fn address_host(addr: Seq<char>) -> Seq<char> {
    match text::split_last(addr, ':') {
        Some((host, _)) => host,
        None => addr,
    }
}

/// Does an address fall on loopback?
pub open spec fn loopback(addr: Seq<char>) -> bool {
    let host = address_host(addr);
    host == "127.0.0.1"@ || host == "[::1]"@ || host == "localhost"@
}

/// True when a local-address column (`addr:port`) does not fall on loopback.
/// `*` is the v4 wildcard, `[::]` the v6 one.
pub fn address_is_non_loopback(addr: &str) -> (r: bool)
    ensures
        r == !loopback(addr@),
{
    let host = match text::rsplit_once(addr, ':') {
        Some(pair) => pair.0,
        None => addr.to_owned(),
    };
    !(text::same(host.as_str(), "127.0.0.1") || text::same(host.as_str(), "[::1]") || text::same(
        host.as_str(),
        "localhost",
    ))
}

/// One listening socket: its local address with the port, and the port.
#[derive(Debug)]
pub struct Listener {
    pub address: String,
    pub port: u16,
}

/// Does a socket listen on `port` beyond loopback?
pub open spec fn exposed(rows: Seq<Listener>, port: u16) -> bool {
    exists|i: int|
        0 <= i < rows.len() && (#[trigger] rows[i]).port == port && !loopback(rows[i].address@)
}

fn is_exposed(rows: &Vec<Listener>, port: u16) -> (r: bool)
    ensures
        r == exposed(rows@, port),
{
    let mut i: usize = 0;
    while i < rows.len()
        invariant
            i <= rows@.len(),
            forall|k: int|
                0 <= k < i ==> (#[trigger] rows@[k]).port != port || loopback(rows@[k].address@),
        decreases rows@.len() - i,
    {
        if rows[i].port == port && address_is_non_loopback(rows[i].address.as_str()) {
            return true;
        }
        i = i + 1;
    }
    false
}

/// True when some process is listening on `port` on a non-loopback address.
/// `None` is a socket table that could not be read.
pub fn listens_non_loopback(table: &Option<Vec<Listener>>, port: u16) -> (r: bool)
    ensures
        r == match *table {
            Some(rows) => exposed(rows@, port),
            None => false,
        },
{
    match table {
        Some(rows) => is_exposed(rows, port),
        None => false,
    }
}

/// The port that a URL ends with.
pub open spec fn url_port(url: Seq<char>) -> Option<nat> {
    match text::split_last(url, ':') {
        Some((_, p)) => text::parsed(p, u16::MAX as nat),
        None => None,
    }
}

pub fn port_of_url(url: &str) -> (r: Option<u16>)
    ensures
        match r {
            Some(p) => url_port(url@) == Some(p as nat),
            None => url_port(url@) is None,
        },
{
    match text::rsplit_once(url, ':') {
        Some(pair) => match text::parse_uint(pair.1.as_str(), u16::MAX as u64) {
            Some(n) => Some(n as u16),
            None => None,
        },
        None => None,
    }
}

/// What a row of the socket table says: the local address, and its port.
pub open spec fn socket_row(line: Seq<char>) -> Option<(Seq<char>, nat)> {
    let w = text::words(line);
    if w.len() > 3 {
        match url_port(w[3]) {
            Some(p) => Some((w[3], p)),
            None => None,
        }
    } else {
        None
    }
}

/// Reads a row of the socket table: the fourth column is the local address.
pub fn parse_ss_row(line: &str) -> (r: Option<Listener>)
    ensures
        match r {
            Some(l) => socket_row(line@) == Some((l.address@, l.port as nat)),
            None => socket_row(line@) is None,
        },
{
    let w = text::words_of(line);
    assert(text::texts(w@).len() == w@.len());
    if w.len() > 3 {
        assert(text::texts(w@)[3] == w@[3]@);
        match port_of_url(w[3].as_str()) {
            Some(port) => Some(Listener { address: w[3].clone(), port }),
            None => None,
        }
    } else {
        None
    }
}

/// What a list of sockets says.
pub open spec fn socket_texts(v: Seq<Listener>) -> Seq<(Seq<char>, nat)> {
    v.map_values(|l: Listener| (l.address@, l.port as nat))
}

/// The sockets in the first `n` lines of a table; the first line is its head.
pub open spec fn sockets_upto(lines: Seq<Seq<char>>, n: int) -> Seq<(Seq<char>, nat)>
    decreases n,
{
    if n <= 1 {
        Seq::empty()
    } else {
        match socket_row(lines[n - 1]) {
            Some(row) => sockets_upto(lines, n - 1).push(row),
            None => sockets_upto(lines, n - 1),
        }
    }
}

/// The socket table, from what `ss` printed; `None` where it could not be run
/// or failed.
pub fn read_listeners(printed: &Option<(bool, String)>) -> (r: Option<Vec<Listener>>)
    ensures
        match *printed {
            Some((true, out)) => r is Some && socket_texts(r.unwrap()@) == sockets_upto(
                text::lines(out@),
                text::lines(out@).len() as int,
            ),
            _ => r is None,
        },
{
    match printed {
        Some((ok, out)) => {
            if !*ok {
                return None;
            }
            let rows = text::lines_of(out.as_str());
            let ghost all = text::lines(out@);
            assert(text::texts(rows@).len() == rows@.len());
            let mut found: Vec<Listener> = Vec::new();
            assert(socket_texts(found@) =~= Seq::<(Seq<char>, nat)>::empty());
            let n: usize = rows.len();
            if n > 0 {
                let mut i: usize = 1;
                while i < n
                    invariant
                        1 <= i <= n,
                        n == rows@.len(),
                        all == text::texts(rows@),
                        socket_texts(found@) == sockets_upto(all, i as int),
                    decreases n - i,
                {
                    assert(all[i as int] == rows@[i as int]@);
                    match parse_ss_row(rows[i].as_str()) {
                        Some(l) => {
                            let ghost before = socket_texts(found@);
                            found.push(l);
                            assert(socket_texts(found@) =~= before.push((l.address@, l.port as nat)));
                        },
                        None => {},
                    }
                    i = i + 1;
                }
            }
            Some(found)
        },
        None => None,
    }
}

/// The URL a service answers at.
pub open spec fn local_url(port: nat) -> Seq<char> {
    "http://localhost:"@ + text::decimal(port)
}

pub fn local_url_of(port: u16) -> (r: String)
    ensures
        r@ == local_url(port as nat),
{
    let mut out = "http://localhost:".to_owned();
    let p = text::decimal_of(port as u64);
    out.append(p.as_str());
    out
}

proof fn lemma_split_last_after(a: Seq<char>, b: Seq<char>, c: char)
    requires
        forall|i: int| 0 <= i < b.len() ==> b[i] != c,
    ensures
        text::split_last(a.push(c) + b, c) == Some((a, b)),
    decreases b.len(),
{
    let s = a.push(c) + b;
    if b.len() == 0 {
        assert(s.last() == c);
        assert(s.drop_last() =~= a);
        assert(b =~= Seq::<char>::empty());
    } else {
        lemma_split_last_after(a, b.drop_last(), c);
        assert(s.drop_last() =~= a.push(c) + b.drop_last());
        assert(s.last() == b.last());
        assert(b.drop_last().push(b.last()) =~= b);
    }
}

/// The announced URL names the port the service was given: what a removal
/// waits for is the port the deploy chose.
pub proof fn law_announced_port_is_found(port: u16)
    ensures
        url_port(local_url(port as nat)) == Some(port as nat),
{
    text::lemma_decimal_parsed(port as nat, u16::MAX as nat);
    let d = text::decimal(port as nat);
    text::lemma_decimal_all_digits(port as nat);
    reveal_strlit("http://localhost:");
    let host = "http://localhost:"@.drop_last();
    assert("http://localhost:"@ =~= host.push(':'));
    assert forall|i: int| 0 <= i < d.len() implies d[i] != ':' by {
        assert(text::digit(d[i]));
    }
    lemma_split_last_after(host, d, ':');
}

// ---------------------------------------------------------------------------
// Removal
// ---------------------------------------------------------------------------

/// May a project directory be wiped? Only one that actually lives directly
/// under the services directory.
pub fn wipe_project_dir(project_dir: &str, is_dir: bool, services_dir: &str) -> (r: bool)
    ensures
        r == (is_dir && paths::child_of(project_dir@, services_dir@)),
{
    is_dir && paths::is_child(project_dir, services_dir)
}

/// The clone of a repository below the services directory may be wiped: what a
/// deploy makes there, a rollback or a later cleanup can remove.
pub proof fn law_clone_can_be_wiped(services_dir: Seq<char>, name: Seq<char>)
    requires
        services_dir.len() > 0,
        name.len() > 0,
    ensures
        paths::child_of(clone_dir(name, None, services_dir), services_dir),
{
    let entry = dirname(name);
    law_dirname_stays_inside(name);
    assert(entry[0] != '/' && entry[0] != '.');
    paths::lemma_entry_is_child(services_dir, entry);
}

/// What a removal has to undo for a registered service.
#[derive(Debug)]
pub struct RemovalPlan {
    /// The clone to wipe, subject to [`wipe_project_dir`].
    pub wipe: Option<String>,
    /// Ports to wait for.
    pub ports: Vec<u16>,
}

/// The ports that the first `n` URLs name.
pub open spec fn url_ports(urls: Seq<Seq<char>>, n: int) -> Seq<nat>
    decreases n,
{
    if n <= 0 {
        Seq::empty()
    } else {
        match url_port(urls[n - 1]) {
            Some(p) => url_ports(urls, n - 1).push(p),
            None => url_ports(urls, n - 1),
        }
    }
}

/// The ports that a list of URLs names, in order.
pub fn ports_of_urls(urls: &Vec<String>) -> (r: Vec<u16>)
    ensures
        r@.map_values(|p: u16| p as nat) == url_ports(text::texts(urls@), urls@.len() as int),
{
    let ghost all = text::texts(urls@);
    let mut out: Vec<u16> = Vec::new();
    let ghost wide = |p: u16| p as nat;
    let mut i: usize = 0;
    assert(out@.map_values(wide) =~= url_ports(all, 0));
    while i < urls.len()
        invariant
            i <= urls@.len(),
            all == text::texts(urls@),
            wide == (|p: u16| p as nat),
            out@.map_values(wide) == url_ports(all, i as int),
        decreases urls@.len() - i,
    {
        assert(all[i as int] == urls@[i as int]@);
        let ghost before = out@;
        match port_of_url(urls[i].as_str()) {
            Some(p) => {
                out.push(p);
                assert(out@.map_values(wide) =~= before.map_values(wide).push(p as nat));
            },
            None => {},
        }
        i = i + 1;
    }
    out
}

/// What deleting a service has to undo, from its registry entry.
pub fn removal_plan(entry: &Option<ServiceEntry>) -> (r: RemovalPlan)
    ensures
        text::opt_text(r.wipe) == match *entry {
            Some(e) => Some(e.project_dir@),
            None => None,
        },
        r.ports@.map_values(|p: u16| p as nat) == match *entry {
            Some(e) => url_ports(text::texts(e.urls@), e.urls@.len() as int),
            None => Seq::empty(),
        },
{
    match entry {
        Some(e) => RemovalPlan {
            wipe: Some(e.project_dir.clone()),
            ports: ports_of_urls(&e.urls),
        },
        None => {
            let ports: Vec<u16> = Vec::new();
            assert(ports@.map_values(|p: u16| p as nat) =~= Seq::<nat>::empty());
            RemovalPlan { wipe: None, ports }
        },
    }
}

/// Milliseconds between two attempts at a port.
pub const PORT_POLL: u64 = 200;

/// Milliseconds a removal waits for a port.
pub const PORT_BUDGET: u64 = 3_000;

/// Wait (best-effort) until a port on loopback is bindable again after a
/// service stop: what one attempt decides. `None` is to sleep [`PORT_POLL`]
/// and try again.
pub fn wait_port_released(bindable: bool, elapsed: u64, budget: u64) -> (r: Option<bool>)
    ensures
        r == (if bindable {
            Some(true)
        } else if elapsed >= budget {
            Some(false)
        } else {
            None
        }),
{
    if bindable {
        Some(true)
    } else if elapsed >= budget {
        Some(false)
    } else {
        None
    }
}

/// Does a leftover journal entry require actual cleanup, or only be forgot?
pub open spec fn stale(state: DeployState, registered: bool) -> bool {
    match state {
        DeployState::Registered => false,
        DeployState::Registering => !registered,
        DeployState::Deploying => true,
    }
}

/// Reconciliation must never tear down a *live* service: `Registered` entries
/// are settlements of a finished deploy, and a `Registering` entry whose
/// registration already landed belongs to a service that is up and should keep
/// running. Only truly unfinished deploys are returned as needing cleanup.
pub fn stale_action(state: DeployState, registered: bool) -> (r: bool)
    ensures
        r == stale(state, registered),
{
    match state {
        DeployState::Registered => false,
        DeployState::Registering => !registered,
        DeployState::Deploying => true,
    }
}

/// What a single cleanup actually removed, so the caller can tell "leftovers
/// wiped" from "nothing was there".
#[derive(Debug, Clone, Copy, PartialEq, Eq, Structural)]
pub struct CleanResult {
    pub unit_removed: bool,
    pub env_removed: bool,
    pub tree_removed: bool,
}

impl CleanResult {
    /// Was anything removed?
    pub open spec fn any(self) -> bool {
        self.unit_removed || self.env_removed || self.tree_removed
    }

    pub fn did_anything(&self) -> (r: bool)
        ensures
            r == self.any(),
    {
        self.unit_removed || self.env_removed || self.tree_removed
    }
}

/// The clone that a deploy of `url` would have made.
pub open spec fn leftover_tree(services_dir: Seq<char>, url: Seq<char>) -> Option<Seq<char>> {
    match crate::hoster::github::repository(url) {
        Some((_, repo)) => Some(paths::joined_path(services_dir, dirname(repo))),
        None => None,
    }
}

/// Everything a *single* in-flight deploy recorded in the journal may have
/// left behind: its project tree, derived from the repository URL exactly as
/// the clone names it. Its unit and env file are named after the service.
pub fn stale_tree(services_dir: &str, url: &str) -> (r: Option<String>)
    ensures
        text::opt_text(r) == leftover_tree(services_dir@, url@),
{
    match crate::hoster::github::parse_github_url(url) {
        Some(pair) => {
            let name = safe_dirname(pair.1.as_str());
            Some(paths::join(services_dir, name.as_str()))
        },
        None => None,
    }
}

/// Reports what the cleanup of one interrupted deploy found and removed.
/// `tree` tells whether the project tree, where it was there, could be wiped.
pub fn cleanup_stale(unit_existed: bool, env_existed: bool, tree: Option<bool>) -> (r: CleanResult)
    ensures
        r.unit_removed == unit_existed,
        r.env_removed == env_existed,
        r.tree_removed == (tree == Some(true)),
{
    CleanResult {
        unit_removed: unit_existed,
        env_removed: env_existed,
        tree_removed: match tree {
            Some(wiped) => wiped,
            None => false,
        },
    }
}

// ---------------------------------------------------------------------------
// Transient units
// ---------------------------------------------------------------------------

/// A transient unit this program creates while deploying.
pub open spec fn ghost_unit(name: Seq<char>) -> bool {
    text::begins(name, "ghost-build-"@) || text::begins(name, "ghost-egress-"@)
}

/// Map `systemctl --user list-units --plain --no-legend` output to the ghost
/// unit names in it, sorted, each once.
pub fn parse_ghost_units(output: &str) -> (r: Vec<String>)
    ensures
        text::ascending(text::texts(r@)),
        text::texts(r@).to_set() == units::line_heads(output@).filter(
            |n: Seq<char>| ghost_unit(n),
        ),
{
    let heads = units::line_heads_of(output);
    let ghost all = text::texts(heads@);
    assert(all.len() == heads@.len());
    let mut out = text::no_texts();
    let mut i: usize = 0;
    assert(text::texts(out@).to_set() =~= Set::<Seq<char>>::empty());
    while i < heads.len()
        invariant
            i <= heads@.len(),
            all == text::texts(heads@),
            text::ascending(text::texts(out@)),
            forall|w: Seq<char>| #[trigger]
                text::texts(out@).to_set().contains(w) <==> ghost_unit(w) && exists|k: int|
                    0 <= k < i && #[trigger] all[k] == w,
        decreases heads@.len() - i,
    {
        assert(all[i as int] == heads@[i as int]@);
        if text::starts_with(heads[i].as_str(), "ghost-build-") || text::starts_with(
            heads[i].as_str(),
            "ghost-egress-",
        ) {
            let name = heads[i].clone();
            text::insert_ascending(&mut out, name);
        }
        i = i + 1;
    }
    proof {
        let goal = units::line_heads(output@).filter(|n: Seq<char>| ghost_unit(n));
        assert forall|w: Seq<char>| text::texts(out@).to_set().contains(w) <==> goal.contains(
            w,
        ) by {
            assert(all.to_set() == units::line_heads(output@));
            assert(all.to_set().contains(w) == all.contains(w));
        }
        assert(text::texts(out@).to_set() =~= goal);
    }
    out
}

/// The ghost units to stop, from what `systemctl` printed; none where it could
/// not be run or failed.
pub fn ghost_units(listing: &Option<(bool, String)>) -> (r: Vec<String>)
    ensures
        text::ascending(text::texts(r@)),
        text::texts(r@).to_set() == match *listing {
            Some((true, out)) => units::line_heads(out@).filter(|n: Seq<char>| ghost_unit(n)),
            _ => Set::empty(),
        },
{
    match listing {
        Some((ok, out)) => {
            if *ok {
                return parse_ghost_units(out.as_str());
            }
        },
        None => {},
    }
    let r = text::no_texts();
    assert(text::texts(r@).to_set() =~= Set::<Seq<char>>::empty());
    r
}

/// How many of the ghost units were stopped: those whose stop succeeded.
pub fn stop_ghost_units(stops: &Vec<bool>) -> (r: usize)
    ensures
        r == stops@.filter(|ok: bool| ok).len(),
{
    let ghost ok = |ok: bool| ok;
    let mut stopped: usize = 0;
    let mut i: usize = 0;
    proof {
        reveal(Seq::filter);
    }
    while i < stops.len()
        invariant
            i <= stops@.len(),
            stopped <= i,
            ok == (|ok: bool| ok),
            stopped == stops@.take(i as int).filter(ok).len(),
        decreases stops@.len() - i,
    {
        proof {
            reveal(Seq::filter);
            assert(stops@.take(i + 1).drop_last() =~= stops@.take(i as int));
        }
        if stops[i] {
            stopped = stopped + 1;
        }
        i = i + 1;
    }
    assert(stops@.take(i as int) =~= stops@);
    stopped
}

/// A deployed service is no ghost unit: a sweep of those never stops it.
pub proof fn law_deployed_units_are_no_ghosts(name: Seq<char>)
    requires
        text::begins(name, "demo-"@),
    ensures
        !ghost_unit(name),
{
    reveal_strlit("demo-");
    reveal_strlit("ghost-build-");
    reveal_strlit("ghost-egress-");
    assert("demo-"@[0] == name.subrange(0, "demo-"@.len() as int)[0]);
    if text::begins(name, "ghost-build-"@) {
        assert("ghost-build-"@[0] == name.subrange(0, "ghost-build-"@.len() as int)[0]);
    }
    if text::begins(name, "ghost-egress-"@) {
        assert("ghost-egress-"@[0] == name.subrange(0, "ghost-egress-"@.len() as int)[0]);
    }
}

// ---------------------------------------------------------------------------
// What holds of every step
// ---------------------------------------------------------------------------

/// A clone directory's name keeps letters, digits, underscores and dashes, and
/// has an underscore for every other character.
pub proof fn law_dirname_keeps_plain_characters(name: Seq<char>)
    ensures
        dirname(name).len() == name.len(),
        forall|i: int|
            0 <= i < name.len() ==> #[trigger] dirname(name)[i]
                == if "abcdefghijklmnopqrstuvwxyzABCDEFGHIJKLMNOPQRSTUVWXYZ0123456789"@.contains(
                name[i],
            ) || name[i] == '_' || name[i] == '-' {
                name[i]
            } else {
                '_'
            },
{
    assert forall|i: int| 0 <= i < name.len() implies #[trigger] dirname(name)[i]
        == if "abcdefghijklmnopqrstuvwxyzABCDEFGHIJKLMNOPQRSTUVWXYZ0123456789"@.contains(name[i])
        || name[i] == '_' || name[i] == '-' {
        name[i]
    } else {
        '_'
    } by {
        text::law_letters_and_digits(name[i]);
    }
}

/// Every `{project}` of a step becomes the project directory; the text around it
/// is kept.
pub proof fn law_project_is_filled_in(a: Seq<char>, rest: Seq<char>, dir: Seq<char>)
    requires
        forall|i: int| 0 <= i < a.len() ==> #[trigger] a[i] != '{',
    ensures
        project_step(a, dir) == a,
        project_step(a + "{project}"@ + rest, dir) == a + dir + project_step(rest, dir),
{
    reveal_strlit("{project}");
    text::law_replacing(a, "{project}"@, dir, rest);
}

/// What holds no placeholder stays in a start command as it is.
pub proof fn law_start_command_keeps_plain_words(
    a: Seq<char>,
    go: bool,
    dir: Seq<char>,
    this: Seq<char>,
    port: nat,
)
    requires
        forall|i: int| 0 <= i < a.len() ==> #[trigger] a[i] != '{',
    ensures
        start_command(a, go, dir, this, port) == a,
{
    reveal_strlit("{bin}");
    reveal_strlit("{venv}");
    reveal_strlit("{python}");
    reveal_strlit("{self}");
    reveal_strlit("{project}");
    reveal_strlit("{port}");
    let none = Seq::<char>::empty();
    text::law_replacing(a, "{bin}"@, paths::joined_path(dir, "ghost-server"@), none);
    text::law_replacing(a, "{venv}"@, paths::joined_path(dir, ".venv/bin/python"@), none);
    text::law_replacing(a, "{python}"@, "python3"@, none);
    text::law_replacing(a, "{self}"@, this, none);
    text::law_replacing(a, "{project}"@, dir, none);
    text::law_replacing(a, "{port}"@, text::decimal(port), none);
}

/// A placeholder that is not the one looked for is left alone.
proof fn lemma_other_placeholder(hole: Seq<char>, p: Seq<char>, with: Seq<char>)
    requires
        hole.len() > 1,
        p.len() > 1,
        p[0] == '{',
        hole[0] == '{',
        !text::begins(hole, p),
        forall|i: int| 0 < i < hole.len() ==> #[trigger] hole[i] != '{',
    ensures
        text::replaced(hole, p, with) == hole,
{
    let t = hole.subrange(1, hole.len() as int);
    assert forall|i: int| 0 <= i < t.len() implies #[trigger] t[i] != p[0] by {
        assert(t[i] == hole[i + 1]);
    }
    text::law_replacing(t, p, with, Seq::empty());
    assert(seq![hole[0]] + t =~= hole);
}

proof fn lemma_whole_placeholder(p: Seq<char>, with: Seq<char>)
    requires
        p.len() > 0,
    ensures
        text::replaced(p, p, with) == with,
{
    let none = Seq::<char>::empty();
    text::law_replacing(none, p, with, none);
    assert(none + p + none =~= p);
    assert(none + with + text::replaced(none, p, with) =~= with);
}

/// Each placeholder of a start command becomes what it stands for, as a word of
/// its own. `{bin}` stands for the built program of a Go service only.
pub proof fn law_start_command_words(go: bool, dir: Seq<char>, this: Seq<char>, port: nat)
    requires
        forall|i: int| 0 <= i < dir.len() ==> #[trigger] dir[i] != '{',
        forall|i: int| 0 <= i < this.len() ==> #[trigger] this[i] != '{',
        dir.len() > 0,
    ensures
        start_command("{port}"@, go, dir, this, port) == text::decimal(port),
        start_command("{project}"@, go, dir, this, port) == dir,
        start_command("{self}"@, go, dir, this, port) == this,
        start_command("{python}"@, go, dir, this, port) == "python3"@,
        start_command("{venv}"@, go, dir, this, port) == paths::joined_path(
            dir,
            ".venv/bin/python"@,
        ),
        start_command("{bin}"@, true, dir, this, port) == paths::joined_path(
            dir,
            "ghost-server"@,
        ),
        start_command("{bin}"@, false, dir, this, port) == "{bin}"@,
{
    reveal_strlit("{bin}");
    reveal_strlit("{venv}");
    reveal_strlit("{python}");
    reveal_strlit("{self}");
    reveal_strlit("{project}");
    reveal_strlit("{port}");
    reveal_strlit("python3");
    reveal_strlit("ghost-server");
    reveal_strlit(".venv/bin/python");
    let bin = paths::joined_path(dir, "ghost-server"@);
    let venv = paths::joined_path(dir, ".venv/bin/python"@);
    let number = text::decimal(port);
    let holes = seq!["{bin}"@, "{venv}"@, "{python}"@, "{self}"@, "{project}"@, "{port}"@];
    let fillings = seq![bin, venv, "python3"@, this, dir, number];
    assert forall|k: int| 0 <= k < 6 implies text::replaced(
        #[trigger] holes[k],
        holes[k],
        fillings[k],
    ) == fillings[k] by {
        lemma_whole_placeholder(holes[k], fillings[k]);
    }
    assert forall|k: int, m: int| 0 <= k < 6 && 0 <= m < 6 && k != m implies text::replaced(
        #[trigger] holes[k],
        #[trigger] holes[m],
        fillings[m],
    ) == holes[k] by {
        let hole = holes[k];
        let p = holes[m];
        if text::begins(hole, p) {
            assert(hole.subrange(0, p.len() as int)[1] == hole[1]);
            assert(hole.subrange(0, p.len() as int)[2] == hole[2]);
            assert(hole.subrange(0, p.len() as int)[p.len() - 1] == hole[p.len() - 1]);
            assert(p[1] == hole[1]);
            assert(p[2] == hole[2]);
            assert(p[p.len() - 1] == '}');
        }
        lemma_other_placeholder(hole, p, fillings[m]);
    }
    text::lemma_decimal_all_digits(port);
    assert forall|k: int, i: int| 0 <= k < 6 && 0 <= i < fillings[k].len() implies #[trigger]
        fillings[k][i] != '{' by {
        if k == 5 {
            assert(text::digit(number[i]));
        } else if k == 0 || k == 1 {
            let rel = if k == 0 {
                "ghost-server"@
            } else {
                ".venv/bin/python"@
            };
            if i < dir.len() {
                assert(fillings[k][i] == dir[i]);
            } else if dir.last() == '/' {
                assert(fillings[k][i] == rel[i - dir.len()]);
            } else if i > dir.len() {
                assert(fillings[k][i] == rel[i - dir.len() - 1]);
            }
        } else if k == 4 {
            assert(fillings[k][i] == dir[i]);
        } else if k == 3 {
            assert(fillings[k][i] == this[i]);
        }
    }
    assert forall|k: int, m: int| 0 <= k < 6 && 0 <= m < 6 implies text::replaced(
        #[trigger] fillings[k],
        #[trigger] holes[m],
        fillings[m],
    ) == fillings[k] by {
        assert forall|i: int| 0 <= i < fillings[k].len() implies #[trigger] fillings[k][i]
            != holes[m][0] by {}
        text::law_replacing(fillings[k], holes[m], fillings[m], Seq::empty());
    }
    assert(holes[0] == "{bin}"@ && holes[1] == "{venv}"@ && holes[2] == "{python}"@ && holes[3]
        == "{self}"@ && holes[4] == "{project}"@ && holes[5] == "{port}"@);
    assert(fillings[0] == bin && fillings[1] == venv && fillings[2] == "python3"@ && fillings[3]
        == this && fillings[4] == dir && fillings[5] == number);
}

/// A start command is filled in word by word, in the order of its words.
pub proof fn law_start_command_is_filled_word_by_word(
    x: Seq<char>,
    y: Seq<char>,
    go: bool,
    dir: Seq<char>,
    this: Seq<char>,
    port: nat,
)
    ensures
        start_command(x + seq![' '] + y, go, dir, this, port) == start_command(
            x,
            go,
            dir,
            this,
            port,
        ) + seq![' '] + start_command(y, go, dir, this, port),
{
    reveal_strlit("{bin}");
    reveal_strlit("{venv}");
    reveal_strlit("{python}");
    reveal_strlit("{self}");
    reveal_strlit("{project}");
    reveal_strlit("{port}");
    let bin = paths::joined_path(dir, "ghost-server"@);
    let venv = paths::joined_path(dir, ".venv/bin/python"@);
    let number = text::decimal(port);
    if go {
        lemma_replaced_around_space(x, y, "{bin}"@, bin);
    }
    let x1 = if go {
        text::replaced(x, "{bin}"@, bin)
    } else {
        x
    };
    let y1 = if go {
        text::replaced(y, "{bin}"@, bin)
    } else {
        y
    };
    lemma_replaced_around_space(x1, y1, "{venv}"@, venv);
    let x2 = text::replaced(x1, "{venv}"@, venv);
    let y2 = text::replaced(y1, "{venv}"@, venv);
    lemma_replaced_around_space(x2, y2, "{python}"@, "python3"@);
    let x3 = text::replaced(x2, "{python}"@, "python3"@);
    let y3 = text::replaced(y2, "{python}"@, "python3"@);
    lemma_replaced_around_space(x3, y3, "{self}"@, this);
    let x4 = text::replaced(x3, "{self}"@, this);
    let y4 = text::replaced(y3, "{self}"@, this);
    lemma_replaced_around_space(x4, y4, "{project}"@, dir);
    let x5 = text::replaced(x4, "{project}"@, dir);
    let y5 = text::replaced(y4, "{project}"@, dir);
    lemma_replaced_around_space(x5, y5, "{port}"@, number);
}

proof fn lemma_replaced_around_space(x: Seq<char>, y: Seq<char>, p: Seq<char>, with: Seq<char>)
    requires
        p.len() > 0,
        !p.contains(' '),
    ensures
        text::replaced(x + seq![' '] + y, p, with) == text::replaced(x, p, with) + seq![' ']
            + text::replaced(y, p, with),
{
    let t = seq![' '] + y;
    text::law_replacing_in_parts(x, t, p, with);
    assert(t.skip(1) =~= y);
    assert(x + seq![' '] + y =~= x + t);
    let r = text::replaced(t, p, with);
    assert(r =~= seq![' '] + r.skip(1));
    assert(text::replaced(x, p, with) + r =~= text::replaced(x, p, with) + seq![' ']
        + text::replaced(y, p, with));
}

/// Does a settings line set a key? Its indentation does not matter.
pub open spec fn sets(line: Seq<char>, key: Seq<char>) -> bool {
    exists|n: int|
        0 <= n <= line.len() && (forall|i: int|
            0 <= i < n ==> text::white(#[trigger] line[i])) && key.is_prefix_of(
            #[trigger] line.skip(n),
        )
}

pub proof fn lemma_trimmed_start_split(line: Seq<char>)
    ensures
        text::trimmed_start(line).len() <= line.len(),
        line == indent(line) + text::trimmed_start(line),
        forall|i: int| 0 <= i < indent(line).len() ==> text::white(#[trigger] indent(line)[i]),
    decreases line.len(),
{
    if line.len() > 0 && text::white(line[0]) {
        let rest = line.subrange(1, line.len() as int);
        lemma_trimmed_start_split(rest);
        assert(indent(line) =~= seq![line[0]] + indent(rest));
        assert(line =~= seq![line[0]] + rest);
        assert(line =~= indent(line) + text::trimmed_start(line));
    } else {
        assert(line =~= indent(line) + text::trimmed_start(line));
    }
}

pub proof fn lemma_sets(line: Seq<char>, key: Seq<char>)
    requires
        key.len() > 0,
        !text::white(key[0]),
    ensures
        sets(line, key) <==> text::begins(text::trimmed_start(line), key),
{
    lemma_trimmed_start_split(line);
    let n = indent(line).len() as int;
    let rest = text::trimmed_start(line);
    assert(line.skip(n) =~= rest);
    if text::begins(rest, key) {
        assert forall|i: int| 0 <= i < n implies text::white(#[trigger] line[i]) by {
            assert(line[i] == indent(line)[i]);
        }
        assert(key.is_prefix_of(line.skip(n)));
    }
    if sets(line, key) {
        let m = choose|m: int|
            0 <= m <= line.len() && (forall|i: int|
                0 <= i < m ==> text::white(#[trigger] line[i])) && key.is_prefix_of(
                #[trigger] line.skip(m),
            );
        let tail = line.skip(m);
        assert(tail[0] == key[0]);
        assert forall|i: int| 0 <= i < m implies text::white(#[trigger] line.take(m)[i]) by {}
        text::law_trimming(line.take(m), tail, Seq::empty());
        assert(line =~= line.take(m) + tail);
    }
}

/// A settings line that sets none of the four patched keys is kept letter for
/// letter.
pub proof fn law_other_settings_are_kept(line: Seq<char>, secret_key: Seq<char>, port: nat)
    requires
        !sets(line, "secret_key:"@),
        !sets(line, "bind_address:"@),
        !sets(line, "http_address:"@),
        !sets(line, "port:"@),
    ensures
        patched_line(line, secret_key, port) == line,
{
    reveal_strlit("secret_key:");
    reveal_strlit("bind_address:");
    reveal_strlit("http_address:");
    reveal_strlit("port:");
    lemma_sets(line, "secret_key:"@);
    lemma_sets(line, "bind_address:"@);
    lemma_sets(line, "http_address:"@);
    lemma_sets(line, "port:"@);
}

proof fn lemma_patched_head(white: Seq<char>, key: Seq<char>, rest: Seq<char>)
    requires
        forall|i: int| 0 <= i < white.len() ==> text::white(#[trigger] white[i]),
        key.len() > 0,
        !text::white(key[0]),
    ensures
        text::trimmed_start(white + key + rest) == key + rest,
        indent(white + key + rest) == white,
        text::begins(key + rest, key),
{
    let line = white + key + rest;
    assert(line =~= white + (key + rest));
    assert((key + rest)[0] == key[0]);
    text::law_trimming(white, key + rest, Seq::empty());
    assert(indent(line) =~= white);
    assert((key + rest).subrange(0, key.len() as int) =~= key);
}

/// A settings line that sets one of the four patched keys keeps its indentation
/// and its key, whatever its value was, and gets the new value: the secret, the
/// loopback address, or the port.
pub proof fn law_patched_settings_keep_their_key(
    white: Seq<char>,
    rest: Seq<char>,
    secret_key: Seq<char>,
    port: nat,
)
    requires
        forall|i: int| 0 <= i < white.len() ==> text::white(#[trigger] white[i]),
    ensures
        patched_line(white + "secret_key:"@ + rest, secret_key, port) == white + "secret_key:"@
            + " \""@ + secret_key + "\""@,
        patched_line(white + "bind_address:"@ + rest, secret_key, port) == white + "bind_address:"@
            + " \"127.0.0.1\""@,
        patched_line(white + "http_address:"@ + rest, secret_key, port) == white + "http_address:"@
            + " \"127.0.0.1:"@ + text::decimal(port) + "\""@,
        patched_line(white + "port:"@ + rest, secret_key, port) == white + "port:"@ + " "@
            + text::decimal(port),
{
    reveal_strlit("secret_key:");
    reveal_strlit("bind_address:");
    reveal_strlit("http_address:");
    reveal_strlit("port:");
    reveal_strlit("secret_key: \"");
    reveal_strlit("bind_address: \"127.0.0.1\"");
    reveal_strlit("http_address: \"127.0.0.1:");
    reveal_strlit("port: ");
    reveal_strlit(" \"");
    reveal_strlit(" \"127.0.0.1\"");
    reveal_strlit(" \"127.0.0.1:");
    reveal_strlit(" ");
    lemma_patched_head(white, "secret_key:"@, rest);
    lemma_patched_head(white, "bind_address:"@, rest);
    lemma_patched_head(white, "http_address:"@, rest);
    lemma_patched_head(white, "port:"@, rest);
    assert("secret_key: \""@ =~= "secret_key:"@ + " \""@);
    assert("bind_address: \"127.0.0.1\""@ =~= "bind_address:"@ + " \"127.0.0.1\""@);
    assert("http_address: \"127.0.0.1:"@ =~= "http_address:"@ + " \"127.0.0.1:"@);
    assert("port: "@ =~= "port:"@ + " "@);
    let b = "bind_address:"@ + rest;
    let h = "http_address:"@ + rest;
    let p = "port:"@ + rest;
    assert(b[0] == 'b' && h[0] == 'h' && p[0] == 'p');
    lemma_first_differs(b, "secret_key:"@);
    lemma_first_differs(h, "secret_key:"@);
    lemma_first_differs(h, "bind_address:"@);
    lemma_first_differs(p, "secret_key:"@);
    lemma_first_differs(p, "bind_address:"@);
    lemma_first_differs(p, "http_address:"@);
    let s = patched_line(white + "secret_key:"@ + rest, secret_key, port);
    assert(s =~= white + "secret_key:"@ + " \""@ + secret_key + "\""@);
    let s = patched_line(white + "bind_address:"@ + rest, secret_key, port);
    assert(s =~= white + "bind_address:"@ + " \"127.0.0.1\""@);
    let s = patched_line(white + "http_address:"@ + rest, secret_key, port);
    assert(s =~= white + "http_address:"@ + " \"127.0.0.1:"@ + text::decimal(port) + "\""@);
    let s = patched_line(white + "port:"@ + rest, secret_key, port);
    assert(s =~= white + "port:"@ + " "@ + text::decimal(port));
}

proof fn lemma_first_differs(s: Seq<char>, p: Seq<char>)
    requires
        s.len() > 0,
        p.len() > 0,
        s[0] != p[0],
    ensures
        !text::begins(s, p),
{
    if text::begins(s, p) {
        assert(s.subrange(0, p.len() as int)[0] == s[0]);
    }
}

/// The settings are patched line by line, each line where it was.
pub proof fn law_settings_are_patched_line_by_line(
    l: Seq<char>,
    rest: Seq<char>,
    secret_key: Seq<char>,
    port: nat,
)
    requires
        forall|i: int| 0 <= i < l.len() ==> #[trigger] l[i] != '\n',
        l.len() == 0 || l.last() != '\r',
    ensures
        patched_settings(l + seq!['\n'], secret_key, port) == patched_line(l, secret_key, port)
            + seq!['\n'],
        rest.len() > 0 ==> patched_settings(l + seq!['\n'] + rest, secret_key, port)
            == patched_line(l, secret_key, port) + seq!['\n'] + patched_settings(
            rest,
            secret_key,
            port,
        ),
{
    reveal_strlit("\n");
    let patch = |x: Seq<char>| patched_line(x, secret_key, port);
    let none = Seq::<char>::empty();
    assert("\n"@ =~= seq!['\n']);
    text::law_lines(l, none);
    text::law_lines(none, none);
    assert(l + seq!['\n'] + none =~= l + seq!['\n']);
    assert(text::lines(l + seq!['\n']) =~= seq![l]);
    assert(seq![l].map_values(patch) =~= seq![patched_line(l, secret_key, port)]);
    text::law_joining(patched_line(l, secret_key, port), Seq::empty(), "\n"@);
    if rest.len() > 0 {
        text::law_lines(l, rest);
        let more = text::lines(rest);
        lemma_some_line(rest);
        assert((seq![l] + more).map_values(patch) =~= seq![patched_line(l, secret_key, port)]
            + more.map_values(patch));
        text::law_joining(patched_line(l, secret_key, port), more.map_values(patch), "\n"@);
        assert(patched_settings(l + seq!['\n'] + rest, secret_key, port) =~= patched_line(
            l,
            secret_key,
            port,
        ) + seq!['\n'] + patched_settings(rest, secret_key, port));
    }
}

proof fn lemma_some_line(s: Seq<char>)
    requires
        s.len() > 0,
    ensures
        text::lines(s).len() > 0,
{
    text::lemma_split_nonempty(s, '\n');
    if text::split(s, '\n').len() == 1 {
        text::law_split_is_undone_by_joining(s, '\n');
        assert(text::split(s, '\n').last() == s);
    }
}

/// Bytes are written in order, two lower-case hexadecimal digits each.
pub proof fn law_hex_writes_every_byte(bytes: Seq<u8>)
    ensures
        hex(bytes).len() == 2 * bytes.len(),
        forall|i: int|
            0 <= i < bytes.len() ==> hex(bytes)[2 * i] == "0123456789abcdef"@[(#[trigger] bytes[i]
                / 16) as int] && hex(bytes)[2 * i + 1] == "0123456789abcdef"@[(bytes[i]
                % 16) as int],
    decreases bytes.len(),
{
    reveal_strlit("0123456789abcdef");
    if bytes.len() > 0 {
        let front = bytes.drop_last();
        law_hex_writes_every_byte(front);
        assert forall|i: int| 0 <= i < bytes.len() implies hex(bytes)[2 * i]
            == "0123456789abcdef"@[(#[trigger] bytes[i] / 16) as int] && hex(bytes)[2 * i + 1]
            == "0123456789abcdef"@[(bytes[i] % 16) as int] by {
            if i < front.len() {
                assert(front[i] == bytes[i]);
                assert(hex(bytes)[2 * i] == hex(front)[2 * i]);
                assert(hex(bytes)[2 * i + 1] == hex(front)[2 * i + 1]);
            }
        }
    }
}

/// Warnings, failures, and what is said of the sandbox, of provisioned tools and
/// of exposed services are for the screen.
pub proof fn law_screen_lines(white: Seq<char>, rest: Seq<char>, before: Seq<char>)
    requires
        forall|i: int| 0 <= i < white.len() ==> text::white(#[trigger] white[i]),
        before.len() > 0 && !text::white(before[0]),
    ensures
        on_screen(white + "!"@ + rest),
        on_screen(white + "warn: "@ + rest),
        on_screen(white + "sandbox: "@ + rest),
        on_screen(white + "provision: "@ + rest),
        on_screen(white + before + "listening on "@ + rest),
        on_screen(white + "listening on "@ + rest),
{
    assert(!text::white('!') && !text::white('w') && !text::white('s') && !text::white('p')
        && !text::white('l'));
    assert("!"@.len() > 0 && "!"@[0] == '!') by {
        reveal_strlit("!");
    }
    lemma_patched_head(white, "!"@, rest);
    assert("warn: "@.len() > 0 && "warn: "@[0] == 'w') by {
        reveal_strlit("warn: ");
    }
    lemma_patched_head(white, "warn: "@, rest);
    assert("sandbox: "@.len() > 0 && "sandbox: "@[0] == 's') by {
        reveal_strlit("sandbox: ");
    }
    lemma_patched_head(white, "sandbox: "@, rest);
    assert("provision: "@.len() > 0 && "provision: "@[0] == 'p') by {
        reveal_strlit("provision: ");
    }
    lemma_patched_head(white, "provision: "@, rest);
    assert("listening on "@.len() > 0 && "listening on "@[0] == 'l') by {
        reveal_strlit("listening on ");
    }
    lemma_patched_head(white, "listening on "@, rest);
    let none = Seq::<char>::empty();
    text::law_parts(none, none, rest, "listening on "@);
    assert(none + "listening on "@ + rest =~= "listening on "@ + rest);
    let m = before + "listening on "@ + rest;
    assert(m[0] == before[0]);
    text::law_trimming(white, m, none);
    assert(white + before + "listening on "@ + rest =~= white + m);
    text::law_parts(m, before, rest, "listening on "@);
}

/// No other line is for the screen.
pub proof fn law_other_lines_are_not_for_the_screen(line: Seq<char>)
    requires
        on_screen(line),
    ensures
        sets(line, "!"@) || sets(line, "warn: "@) || sets(line, "sandbox: "@) || sets(
            line,
            "provision: "@,
        ) || exists|a: Seq<char>, b: Seq<char>| line == #[trigger] (a + "listening on "@ + b),
{
    assert(!text::white('!') && !text::white('w') && !text::white('s') && !text::white('p'));
    assert("!"@.len() > 0 && "!"@[0] == '!') by {
        reveal_strlit("!");
    }
    lemma_sets(line, "!"@);
    assert("warn: "@.len() > 0 && "warn: "@[0] == 'w') by {
        reveal_strlit("warn: ");
    }
    lemma_sets(line, "warn: "@);
    assert("sandbox: "@.len() > 0 && "sandbox: "@[0] == 's') by {
        reveal_strlit("sandbox: ");
    }
    lemma_sets(line, "sandbox: "@);
    assert("provision: "@.len() > 0 && "provision: "@[0] == 'p') by {
        reveal_strlit("provision: ");
    }
    lemma_sets(line, "provision: "@);
    let t = text::trimmed_start(line);
    if text::holds(t, "listening on "@) {
        text::law_parts(t, t, t, "listening on "@);
        let (x, y) = choose|x: Seq<char>, y: Seq<char>| t == #[trigger] (x + "listening on "@ + y);
        lemma_trimmed_start_split(line);
        assert(line =~= (indent(line) + x) + "listening on "@ + y);
    }
}

/// Is there nothing but white space?
pub open spec fn blank(s: Seq<char>) -> bool {
    forall|i: int| 0 <= i < s.len() ==> text::white(#[trigger] s[i])
}

/// Of a build's output the last twelve lines are shown, in order, and of them at
/// most six hundred characters; blank output is not shown at all.
pub proof fn law_tail_is_the_end_of_the_output(s: Seq<char>, from: Seq<Seq<char>>, cut: Seq<char>)
    requires
        from.is_suffix_of(text::lines(s)),
        from.len() == 12 || (from.len() < 12 && from == text::lines(s)),
        cut.is_prefix_of(text::joined(from, "\n"@)),
        cut.len() == 600 || (cut.len() < 600 && cut == text::joined(from, "\n"@)),
    ensures
        blank(cut) ==> tail_text(s).len() == 0,
        !blank(cut) ==> tail_text(s) == "\n--- stdout (tail) ---\n"@ + cut,
{
    assert(last_of(text::lines(s), 12) =~= from);
    assert(tail_body(s) =~= cut);
    lemma_blank(cut);
}

proof fn lemma_blank(s: Seq<char>)
    ensures
        text::trimmed(s).len() == 0 <==> blank(s),
{
    lemma_trimmed_start_split(s);
    let a = indent(s);
    let m = text::trimmed_start(s);
    if blank(s) {
        text::law_trimming(s, m, Seq::empty());
    }
    if text::trimmed(s).len() == 0 {
        lemma_end_blank(m);
        assert forall|i: int| 0 <= i < s.len() implies text::white(#[trigger] s[i]) by {
            if i < a.len() {
                assert(s[i] == a[i]);
            } else {
                assert(s[i] == m[i - a.len()]);
            }
        }
    }
}

proof fn lemma_end_blank(m: Seq<char>)
    requires
        text::trimmed_end(m).len() == 0,
    ensures
        forall|i: int| 0 <= i < m.len() ==> text::white(#[trigger] m[i]),
    decreases m.len(),
{
    if m.len() > 0 {
        lemma_end_blank(m.drop_last());
        assert forall|i: int| 0 <= i < m.len() implies text::white(#[trigger] m[i]) by {
            if i < m.len() - 1 {
                assert(m[i] == m.drop_last()[i]);
            }
        }
    }
}

/// A tool is provisioned where it is missing, or older than the project accepts;
/// a Go toolchain only where it is missing. What is fetched is the oldest version
/// that the project accepts.
pub proof fn law_tools_are_provisioned_where_needed(p: ToolProbe)
    ensures
        need(p) is Some <==> p.provisionable && (p.installed is None || (!p.is_go && p.floor is Some
            && p.installed.unwrap().older(p.floor.unwrap()))),
        need(p) is Some && !p.is_go ==> need(p) == Some(p.floor),
        need(p) is Some && p.is_go ==> need(p) == Some(None::<Ver>),
{
}

/// Every probe that asks for a tool is on the list, under its own number, and
/// nothing else is; the numbers rise.
pub proof fn law_needs_list_every_need(probes: Seq<Option<ToolProbe>>, n: int)
    requires
        0 <= n <= probes.len(),
    ensures
        forall|i: int, v: Option<Ver>|
            #![trigger needs_upto(probes, n).contains((i, v))]
            needs_upto(probes, n).contains((i, v)) <==> 0 <= i < n && probes[i] is Some && need(
                probes[i].unwrap(),
            ) == Some(v),
        forall|a: int, b: int|
            0 <= a < b < needs_upto(probes, n).len() ==> (#[trigger] needs_upto(probes, n)[a]).0 < (
            #[trigger] needs_upto(probes, n)[b]).0,
    decreases n,
{
    let all = needs_upto(probes, n);
    if n > 0 {
        law_needs_list_every_need(probes, n - 1);
        let before = needs_upto(probes, n - 1);
        assert forall|a: int| 0 <= a < before.len() implies (#[trigger] before[a]).0 < n - 1 by {
            assert(before.contains((before[a].0, before[a].1)));
        }
        assert forall|i: int, v: Option<Ver>|
            #![trigger all.contains((i, v))]
            all.contains((i, v)) <==> 0 <= i < n && probes[i] is Some && need(probes[i].unwrap())
                == Some(v) by {
            if all.contains((i, v)) {
                let k = choose|k: int| 0 <= k < all.len() && all[k] == (i, v);
                if k < before.len() {
                    assert(before[k] == (i, v));
                    assert(before.contains((i, v)));
                }
            }
            if 0 <= i < n && probes[i] is Some && need(probes[i].unwrap()) == Some(v) {
                if i < n - 1 {
                    assert(before.contains((i, v)));
                    let k = choose|k: int| 0 <= k < before.len() && before[k] == (i, v);
                    assert(all[k] == (i, v));
                } else {
                    assert(all[all.len() - 1] == (i, v));
                }
            }
        }
    }
}

/// A socket is private exactly where its host is the loopback address, of either
/// family, or `localhost`; its port does not matter.
pub proof fn law_loopback_is_told_by_the_host(host: Seq<char>, port: Seq<char>)
    requires
        forall|i: int| 0 <= i < port.len() ==> #[trigger] port[i] != ':',
    ensures
        loopback(host + seq![':'] + port) <==> host == "127.0.0.1"@ || host == "[::1]"@ || host
            == "localhost"@,
{
    text::law_split_around_the_last(host, port, ':');
}

/// The port of an address is the number behind its last colon, where there is
/// one of at most sixteen bits.
pub proof fn law_port_stands_behind_the_last_colon(a: Seq<char>, b: Seq<char>, port: u16)
    requires
        forall|i: int| 0 <= i < b.len() ==> #[trigger] b[i] != ':',
    ensures
        url_port(a + seq![':'] + text::decimal(port as nat)) == Some(port as nat),
        url_port(a + seq![':'] + b) == text::parsed(b, 65535),
        url_port(b) is None,
{
    let d = text::decimal(port as nat);
    text::lemma_decimal_all_digits(port as nat);
    text::lemma_decimal_parsed(port as nat, u16::MAX as nat);
    assert forall|i: int| 0 <= i < d.len() implies #[trigger] d[i] != ':' by {
        assert(text::digit(d[i]));
    }
    text::law_split_around_the_last(a, d, ':');
    text::law_split_around_the_last(a, b, ':');
}

/// A row of the socket table is read by its fourth word, the local address.
pub proof fn law_socket_row_is_read_by_its_fourth_word(line: Seq<char>, host: Seq<char>, port: u16)
    ensures
        text::words(line).len() < 4 ==> socket_row(line) is None,
        text::words(line).len() >= 4 && text::words(line)[3] == host + seq![':'] + text::decimal(
            port as nat,
        ) ==> socket_row(line) == Some((host + seq![':'] + text::decimal(port as nat), port as nat)),
{
    law_port_stands_behind_the_last_colon(host, Seq::empty(), port);
}

/// Every row of the socket table is read, but for its heading.
pub proof fn law_every_socket_is_read(lines: Seq<Seq<char>>, n: int, row: (Seq<char>, nat))
    requires
        0 <= n <= lines.len(),
    ensures
        sockets_upto(lines, n).contains(row) <==> exists|i: int|
            1 <= i < n && socket_row(#[trigger] lines[i]) == Some(row),
    decreases n,
{
    let all = sockets_upto(lines, n);
    if n > 1 {
        law_every_socket_is_read(lines, n - 1, row);
        let before = sockets_upto(lines, n - 1);
        if all.contains(row) {
            let k = choose|k: int| 0 <= k < all.len() && all[k] == row;
            if k < before.len() {
                assert(before[k] == row);
            } else {
                assert(socket_row(lines[n - 1]) == Some(row));
            }
        }
        if exists|i: int| 1 <= i < n && socket_row(#[trigger] lines[i]) == Some(row) {
            let i = choose|i: int| 1 <= i < n && socket_row(#[trigger] lines[i]) == Some(row);
            if i < n - 1 {
                let k = choose|k: int| 0 <= k < before.len() && before[k] == row;
                assert(all[k] == row);
            } else {
                assert(all[all.len() - 1] == row);
            }
        }
    }
}

/// A removal waits for the port of every address, and for no other.
pub proof fn law_every_announced_port_is_waited_for(urls: Seq<Seq<char>>, n: int, p: nat)
    requires
        0 <= n <= urls.len(),
    ensures
        url_ports(urls, n).contains(p) <==> exists|i: int|
            0 <= i < n && url_port(#[trigger] urls[i]) == Some(p),
    decreases n,
{
    let all = url_ports(urls, n);
    if n > 0 {
        law_every_announced_port_is_waited_for(urls, n - 1, p);
        let before = url_ports(urls, n - 1);
        if all.contains(p) {
            let k = choose|k: int| 0 <= k < all.len() && all[k] == p;
            if k < before.len() {
                assert(before[k] == p);
            } else {
                assert(url_port(urls[n - 1]) == Some(p));
            }
        }
        if exists|i: int| 0 <= i < n && url_port(#[trigger] urls[i]) == Some(p) {
            let i = choose|i: int| 0 <= i < n && url_port(#[trigger] urls[i]) == Some(p);
            if i < n - 1 {
                let k = choose|k: int| 0 <= k < before.len() && before[k] == p;
                assert(all[k] == p);
            } else {
                assert(all[all.len() - 1] == p);
            }
        }
    }
}

/// What a cleanup looks for after a deploy of a repository is the directory that
/// the deploy cloned it into.
pub proof fn law_leftover_tree_is_the_clone(
    services_dir: Seq<char>,
    owner: Seq<char>,
    repo: Seq<char>,
)
    requires
        owner.len() > 0,
        repo.len() > 0,
        forall|i: int| 0 <= i < owner.len() ==> #[trigger] owner[i] != '/',
        forall|i: int| 0 <= i < repo.len() ==> #[trigger] repo[i] != '/',
    ensures
        leftover_tree(services_dir, "https://github.com/"@ + owner + "/"@ + repo) == Some(
            clone_dir(repo, None, services_dir),
        ),
{
    crate::hoster::github::law_repository_address(owner, repo);
}

/// A service that is registered, or being registered and already known, is live;
/// everything else that the journal holds is stale.
pub proof fn law_only_live_services_are_not_stale(state: DeployState, registered: bool)
    ensures
        !stale(state, registered) <==> state == DeployState::Registered || (state
            == DeployState::Registering && registered),
{
}

/// The transient units are those of builds and of probes.
pub proof fn law_ghost_units_are_told_by_their_name(rest: Seq<char>, name: Seq<char>)
    ensures
        ghost_unit("ghost-build-"@ + rest),
        ghost_unit("ghost-egress-"@ + rest),
        ghost_unit(name) ==> "ghost-build-"@.is_prefix_of(name) || "ghost-egress-"@.is_prefix_of(
            name,
        ),
{
    text::law_parts(name, name, rest, "ghost-build-"@);
    text::law_parts(name, name, rest, "ghost-egress-"@);
}

/// The address that is cloned from is that of the owner's repository, with the ending
/// of a git directory.
pub proof fn law_clone_address_names_the_repository(owner: Seq<char>, name: Seq<char>)
    requires
        owner.len() > 0,
        forall|i: int| 0 <= i < owner.len() ==> #[trigger] owner[i] != '/',
        forall|i: int| 0 <= i < name.len() ==> #[trigger] name[i] != '/',
    ensures
        crate::hoster::github::repository(clone_url(owner, name)) == Some((owner, name + ".git"@)),
{
    reveal_strlit(".git");
    let repo = name + ".git"@;
    assert forall|i: int| 0 <= i < repo.len() implies #[trigger] repo[i] != '/' by {
        if i < name.len() {
            assert(repo[i] == name[i]);
        }
    }
    assert(clone_url(owner, name) =~= "https://github.com/"@ + owner + "/"@ + repo);
    crate::hoster::github::law_repository_address(owner, repo);
}

/// A repository is cloned into a directory of its own below the work directory, where
/// there is one, and else below that of the services.
pub proof fn law_clone_goes_below_its_base(
    name: Seq<char>,
    base: Seq<char>,
    other: Seq<char>,
)
    requires
        base.len() > 0,
        base.last() != '/',
        dirname(name).len() > 0,
        dirname(name)[0] != '/',
    ensures
        clone_dir(name, Some(base), other) == base.push('/') + dirname(name),
        clone_dir(name, None, base) == base.push('/') + dirname(name),
{
    paths::law_joining_paths(base, dirname(name));
}

/// One socket that listens on the port beyond loopback exposes the service, whatever the
/// others do; without any there is nothing to expose.
pub proof fn law_one_open_socket_exposes(rows: Seq<Listener>, l: Listener, port: u16)
    ensures
        !exposed(Seq::empty(), port),
        exposed(rows.push(l), port) <==> exposed(rows, port) || (l.port == port && !loopback(
            l.address@,
        )),
{
    let all = rows.push(l);
    assert(all[rows.len() as int] == l);
    if exposed(rows, port) {
        let i = choose|i: int|
            0 <= i < rows.len() && (#[trigger] rows[i]).port == port && !loopback(rows[i].address@);
        assert(all[i] == rows[i]);
    }
    if exposed(all, port) {
        let i = choose|i: int|
            0 <= i < all.len() && (#[trigger] all[i]).port == port && !loopback(all[i].address@);
        if i < rows.len() {
            assert(rows[i] == all[i]);
        }
    }
}

} // verus!
