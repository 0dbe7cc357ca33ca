//! systemd user unit generation and service start verification.
//!
//! Start verification polls `systemctl --user is-active`:
//!
//! * `activating` and `failed` both exit with the same code — the state string
//!   is the only reliable signal.
//! * A slow service stays `activating` for many seconds, so a single late
//!   check would produce false "crashed" reports.

use vstd::prelude::*;
use vstd::utf8::encode_utf8;

use crate::paths;
use crate::text;

verus! {

/// Milliseconds between two polls of a starting service.
pub const POLL_INTERVAL: u64 = 500;

/// Milliseconds a service has to become active.
pub const START_BUDGET: u64 = 30_000;

// ---------------------------------------------------------------------------
// Names
// ---------------------------------------------------------------------------

/// A character that a unit name may hold.
pub open spec fn unit_char(c: char) -> bool {
    text::alphanumeric(c) || c == '_' || c == '-' || c == '.'
}

/// A safe systemd unit name.
pub open spec fn valid_unit_name(name: Seq<char>) -> bool {
    &&& name.len() > 0
    &&& encode_utf8(name).len() <= 255
    &&& forall|i: int| 0 <= i < name.len() ==> unit_char(#[trigger] name[i])
    &&& name[0] != '.'
}

fn is_unit_char(c: char) -> (r: bool)
    ensures
        r == unit_char(c),
{
    text::is_alphanumeric(c) || c == '_' || c == '-' || c == '.'
}

/// Validate that a string is a safe systemd unit name.
pub fn validate_unit_name(name: &str) -> (r: bool)
    ensures
        r == valid_unit_name(name@),
{
    let v = text::chars_of(name);
    if v.len() == 0 || name.as_bytes().len() > 255 || v[0] == '.' {
        return false;
    }
    let mut i: usize = 0;
    while i < v.len()
        invariant
            i <= v@.len(),
            v@ == name@,
            name@.len() > 0,
            name@[0] != '.',
            encode_utf8(name@).len() <= 255,
            forall|k: int| 0 <= k < i ==> unit_char(#[trigger] name@[k]),
        decreases v@.len() - i,
    {
        if !is_unit_char(v[i]) {
            assert(!unit_char(name@[i as int]));
            return false;
        }
        i = i + 1;
    }
    true
}

/// A name with every character that a unit name may not hold replaced by `-`.
pub open spec fn dashed(name: Seq<char>) -> Seq<char> {
    name.map_values(
        |c: char|
            if unit_char(c) {
                c
            } else {
                '-'
            },
    )
}

/// The unit name that a string becomes.
pub open spec fn sanitized(name: Seq<char>) -> Seq<char> {
    if valid_unit_name(name) {
        name
    } else {
        text::first_chars(dashed(name), 64)
    }
}

/// Sanitize an arbitrary string into a safe unit-name fragment.
pub fn sanitize_service_name(name: &str) -> (r: String)
    ensures
        r@ == sanitized(name@),
{
    if validate_unit_name(name) {
        return name.to_owned();
    }
    let v = text::chars_of(name);
    let mut out = String::new();
    let mut i: usize = 0;
    while i < v.len()
        invariant
            i <= v@.len(),
            v@ == name@,
            out@ == dashed(name@).take(i as int),
        decreases v@.len() - i,
    {
        if is_unit_char(v[i]) {
            out.push(v[i]);
        } else {
            out.push('-');
        }
        assert(dashed(name@).take(i + 1) =~= dashed(name@).take(i as int).push(
            dashed(name@)[i as int],
        ));
        i = i + 1;
    }
    assert(dashed(name@).take(i as int) =~= dashed(name@));
    text::take_chars(out.as_str(), 64)
}

/// A sanitized name holds safe characters only: no slash, no white space.
pub proof fn law_sanitized_is_safe(name: Seq<char>)
    ensures
        forall|i: int| 0 <= i < sanitized(name).len() ==> unit_char(#[trigger] sanitized(name)[i]),
{
}

/// Sanitizing a name twice changes nothing more.
pub proof fn law_sanitize_is_idempotent(name: Seq<char>)
    ensures
        sanitized(sanitized(name)) == sanitized(name),
{
    let s = sanitized(name);
    law_sanitized_is_safe(name);
    if !valid_unit_name(s) {
        assert(dashed(s) =~= s);
    }
}

// ---------------------------------------------------------------------------
// Escaping
// ---------------------------------------------------------------------------

/// A character as a unit file value writes it.
pub open spec fn escape_char(c: char) -> Seq<char> {
    if c == '\\' {
        seq!['\\', '\\']
    } else if c == '\n' {
        seq!['\\', 'n']
    } else if c == '"' {
        seq!['\\', '"']
    } else if c == '$' {
        seq!['$', '$']
    } else if c == '%' {
        seq!['%', '%']
    } else {
        seq![c]
    }
}

/// A value as a unit file writes it.
pub open spec fn escaped(value: Seq<char>) -> Seq<char>
    decreases value.len(),
{
    if value.len() == 0 {
        Seq::empty()
    } else {
        escape_char(value[0]) + escaped(value.subrange(1, value.len() as int))
    }
}

/// The value that an escaped text stands for.
pub open spec fn unescaped(s: Seq<char>) -> Seq<char>
    decreases s.len(),
{
    if s.len() == 0 {
        Seq::empty()
    } else if s.len() == 1 {
        s
    } else if s[0] == '\\' {
        seq![
            if s[1] == 'n' {
                '\n'
            } else {
                s[1]
            },
        ] + unescaped(s.subrange(2, s.len() as int))
    } else if s[0] == '$' || s[0] == '%' {
        seq![s[0]] + unescaped(s.subrange(2, s.len() as int))
    } else {
        seq![s[0]] + unescaped(s.subrange(1, s.len() as int))
    }
}

/// Escape a value for use *inside the unit file* (Environment=/ExecStart=).
/// In this context `$` and `%` are special: `$$` → literal `$`, `%%` →
/// literal `%`.
pub fn escape_unit_value(value: &str) -> (r: String)
    ensures
        r@ == escaped(value@),
{
    let v = text::chars_of(value);
    let ghost n = v@.len() as int;
    let mut out = String::new();
    let mut i: usize = 0;
    assert(v@.subrange(0, n) =~= v@);
    assert(out@ + escaped(v@) =~= escaped(v@));
    while i < v.len()
        invariant
            n == v@.len(),
            i <= n,
            out@ + escaped(v@.subrange(i as int, n)) == escaped(v@),
        decreases n - i,
    {
        let ghost rest = v@.subrange(i as int, n);
        let ghost before = out@;
        let c = v[i];
        if c == '\\' {
            out.push('\\');
            out.push('\\');
        } else if c == '\n' {
            out.push('\\');
            out.push('n');
        } else if c == '"' {
            out.push('\\');
            out.push('"');
        } else if c == '$' {
            out.push('$');
            out.push('$');
        } else if c == '%' {
            out.push('%');
            out.push('%');
        } else {
            out.push(c);
        }
        proof {
            assert(rest.subrange(1, rest.len() as int) =~= v@.subrange(i + 1, n));
            assert(out@ =~= before + escape_char(c));
            assert(out@ + escaped(v@.subrange(i + 1, n)) =~= before + escaped(rest));
        }
        i = i + 1;
    }
    assert(v@.subrange(i as int, n) =~= Seq::<char>::empty());
    assert(out@ + Seq::<char>::empty() =~= out@);
    out
}

/// An escaped value stands for the value: nothing is lost, and no two values
/// are written alike.
pub proof fn law_escape_roundtrips(value: Seq<char>)
    ensures
        unescaped(escaped(value)) == value,
    decreases value.len(),
{
    if value.len() > 0 {
        let rest = value.subrange(1, value.len() as int);
        law_escape_roundtrips(rest);
        let s = escaped(value);
        let head = escape_char(value[0]);
        assert(s =~= head + escaped(rest));
        assert(s.subrange(head.len() as int, s.len() as int) =~= escaped(rest));
        assert(value =~= seq![value[0]] + rest);
        if s.len() == 1 {
            assert(rest.len() == 0) by {
                if rest.len() > 0 {
                    assert(escape_char(rest[0]).len() > 0);
                }
            }
            assert(s =~= value);
        }
    } else {
        assert(value =~= Seq::<char>::empty());
    }
}

/// An escaped value stays on its line.
pub proof fn law_escaped_has_no_newline(value: Seq<char>)
    ensures
        forall|i: int| 0 <= i < escaped(value).len() ==> #[trigger] escaped(value)[i] != '\n',
    decreases value.len(),
{
    if value.len() > 0 {
        let rest = value.subrange(1, value.len() as int);
        law_escaped_has_no_newline(rest);
        let head = escape_char(value[0]);
        assert forall|i: int| 0 <= i < escaped(value).len() implies #[trigger] escaped(value)[i]
            != '\n' by {
            if i < head.len() {
                assert(escaped(value)[i] == head[i]);
            } else {
                assert(escaped(value)[i] == escaped(rest)[i - head.len()]);
            }
        }
    }
}

/// A word of a command line as the unit file writes it.
pub open spec fn quoted(word: Seq<char>) -> Seq<char> {
    "\""@ + escaped(word) + "\""@
}

/// A command line as the unit file writes it: each word in quotes.
pub open spec fn quoted_command(cmd: Seq<char>) -> Seq<char> {
    text::joined(text::words(cmd).map_values(|w: Seq<char>| quoted(w)), " "@)
}

/// Quote every whitespace-separated argument of an ExecStart command line so
/// that systemd's splitter sees the same arguments.
pub fn quote_exec_args(cmd: &str) -> (r: String)
    ensures
        r@ == quoted_command(cmd@),
{
    let words = text::words_of(cmd);
    let ghost all = text::words(cmd@);
    assert(text::texts(words@).len() == words@.len());
    let mut out = text::no_texts();
    let mut i: usize = 0;
    while i < words.len()
        invariant
            i <= words@.len(),
            all == text::texts(words@),
            text::texts(out@) == all.take(i as int).map_values(|w: Seq<char>| quoted(w)),
        decreases words@.len() - i,
    {
        let mut q = "\"".to_owned();
        let e = escape_unit_value(words[i].as_str());
        q.append(e.as_str());
        q.append("\"");
        text::push_text(&mut out, q.as_str());
        assert(all[i as int] == words@[i as int]@);
        assert(all.take(i + 1).map_values(|w: Seq<char>| quoted(w)) =~= all.take(
            i as int,
        ).map_values(|w: Seq<char>| quoted(w)).push(quoted(all[i as int])));
        i = i + 1;
    }
    assert(all.take(i as int) =~= all);
    text::join(&out, " ")
}

// ---------------------------------------------------------------------------
// Listings
// ---------------------------------------------------------------------------

/// Is `w` the first word of some line?
pub open spec fn heads_a_line(output: Seq<char>, w: Seq<char>) -> bool {
    exists|i: int|
        0 <= i < text::lines(output).len() && text::words(#[trigger] text::lines(output)[i]).len() > 0
            && text::words(text::lines(output)[i])[0] == w
}

/// The first words of the lines.
pub open spec fn line_heads(output: Seq<char>) -> Set<Seq<char>> {
    Set::new(|w: Seq<char>| heads_a_line(output, w))
}

/// The first words of the lines, sorted, each once.
pub(crate) fn line_heads_of(output: &str) -> (r: Vec<String>)
    ensures
        text::ascending(text::texts(r@)),
        text::texts(r@).to_set() == line_heads(output@),
{
    let rows = text::lines_of(output);
    let ghost all = text::lines(output@);
    assert(text::texts(rows@).len() == rows@.len());
    let mut names = text::no_texts();
    let mut i: usize = 0;
    assert(text::texts(names@).to_set() =~= Set::<Seq<char>>::empty());
    while i < rows.len()
        invariant
            i <= rows@.len(),
            all == text::texts(rows@),
            text::ascending(text::texts(names@)),
            forall|w: Seq<char>| #[trigger]
                text::texts(names@).to_set().contains(w) <==> exists|k: int|
                    0 <= k < i && text::words(#[trigger] all[k]).len() > 0 && text::words(all[k])[0]
                        == w,
        decreases rows@.len() - i,
    {
        assert(all[i as int] == rows@[i as int]@);
        let words = text::words_of(rows[i].as_str());
        assert(text::texts(words@).len() == words@.len());
        if words.len() > 0 {
            let head = words[0].clone();
            assert(head@ == text::words(all[i as int])[0]);
            text::insert_ascending(&mut names, head);
        }
        i = i + 1;
    }
    assert(text::texts(names@).to_set() =~= line_heads(output@));
    names
}

/// Names of every service unit loaded (or previously loaded) in the user
/// manager, sorted and de-duplicated, from what `systemctl` printed; `None`
/// where it could not be run, and nothing where it failed.
pub fn list_units(listing: &Option<(bool, String)>) -> (r: Vec<String>)
    ensures
        text::ascending(text::texts(r@)),
        text::texts(r@).to_set() == match *listing {
            Some((true, out)) => line_heads(text::trimmed(out@)),
            _ => Set::empty(),
        },
{
    match listing {
        Some((ok, out)) => {
            if *ok {
                return line_heads_of(text::trim(out.as_str()).as_str());
            }
        },
        None => {},
    }
    let r = text::no_texts();
    assert(text::texts(r@).to_set() =~= Set::<Seq<char>>::empty());
    r
}

// ---------------------------------------------------------------------------
// Unit files
// ---------------------------------------------------------------------------

/// Optional systemd resource-limit knobs rendered into a unit. Values are
/// literal directives (e.g. `"512M"`, `"300"`); `None` leaves systemd's
/// defaults in place.
#[derive(Debug, Clone, Copy, PartialEq, Eq)]
pub struct ResourceLimits {
    /// `MemoryHigh=` — memory soft cap (reclaim pressure first).
    pub memory_high: Option<&'static str>,
    /// `MemoryMax=` — hard OOM ceiling for the unit's cgroup.
    pub memory_max: Option<&'static str>,
    /// `TasksMax=` — process/thread count cap for the unit's cgroup.
    pub tasks_max: Option<&'static str>,
    /// `CPUQuota=` — CPU-time cap for the unit's cgroup.
    pub cpu_quota: Option<&'static str>,
    /// `LimitNOFILE=` — file-descriptor cap (applied to soft and hard).
    pub limit_nofile: Option<u32>,
    /// `OOMScoreAdjust=` — OOM-killer bias vs sibling units.
    pub oom_score_adjust: Option<i32>,
}

impl ResourceLimits {
    /// No limits at all.
    pub fn none() -> (r: Self)
        ensures
            r == (ResourceLimits {
                memory_high: None,
                memory_max: None,
                tasks_max: None,
                cpu_quota: None,
                limit_nofile: None,
                oom_score_adjust: None,
            }),
    {
        ResourceLimits {
            memory_high: None,
            memory_max: None,
            tasks_max: None,
            cpu_quota: None,
            limit_nofile: None,
            oom_score_adjust: None,
        }
    }

    /// Is any knob set?
    pub open spec fn any(self) -> bool {
        self.memory_high is Some || self.memory_max is Some || self.tasks_max is Some
            || self.cpu_quota is Some || self.limit_nofile is Some || self.oom_score_adjust is Some
    }
}

impl Default for ResourceLimits {
    fn default() -> (r: Self)
        ensures
            !r.any(),
    {
        ResourceLimits::none()
    }
}

/// What a hardened user unit is made from.
pub struct UnitSpec<'a> {
    pub service_name: &'a str,
    pub working_dir: &'a str,
    pub exec_start: &'a str,
    pub description: &'a str,
    /// The canonical path of the environment file, where there is such a file.
    pub env_file: Option<&'a str>,
    pub extra_env: &'a [(String, String)],
    /// Resource caps rendered into the unit (see `ResourceLimits`).
    pub res: ResourceLimits,
}

/// One directive, where it has a value.
pub open spec fn directive(key: Seq<char>, value: Option<Seq<char>>) -> Seq<char> {
    match value {
        Some(v) => key + v + "\n"@,
        None => Seq::empty(),
    }
}

/// The text of an optional literal.
pub open spec fn literal(o: Option<&'static str>) -> Option<Seq<char>> {
    match o {
        Some(s) => Some(s@),
        None => None,
    }
}

/// The resource section of a unit.
pub open spec fn limits_text(l: ResourceLimits) -> Seq<char> {
    (if l.any() {
        "# -- Resource Limits --\n"@
    } else {
        Seq::<char>::empty()
    }) + directive("MemoryHigh="@, literal(l.memory_high)) + directive(
        "MemoryMax="@,
        literal(l.memory_max),
    ) + directive("TasksMax="@, literal(l.tasks_max)) + directive(
        "CPUQuota="@,
        literal(l.cpu_quota),
    ) + directive(
        "LimitNOFILE="@,
        match l.limit_nofile {
            Some(n) => Some(text::decimal(n as nat)),
            None => None,
        },
    ) + directive(
        "OOMScoreAdjust="@,
        match l.oom_score_adjust {
            Some(n) => Some(text::signed_decimal(n as int)),
            None => None,
        },
    )
}

fn add_directive(out: &mut String, key: &str, value: Option<&str>)
    ensures
        final(out)@ == old(out)@ + directive(
            key@,
            match value {
                Some(v) => Some(v@),
                None => None,
            },
        ),
{
    let ghost before = out@;
    match value {
        Some(v) => {
            out.append(key);
            out.append(v);
            out.append("\n");
            assert(out@ =~= before + (key@ + v@ + "\n"@));
        },
        None => {
            assert(before + Seq::<char>::empty() =~= before);
        },
    }
}

fn render_limits(l: &ResourceLimits) -> (r: String)
    ensures
        r@ == limits_text(*l),
{
    let mut out = String::new();
    if l.memory_high.is_some() || l.memory_max.is_some() || l.tasks_max.is_some()
        || l.cpu_quota.is_some() || l.limit_nofile.is_some() || l.oom_score_adjust.is_some() {
        out.append("# -- Resource Limits --\n");
        assert(out@ =~= "# -- Resource Limits --\n"@);
    } else {
        assert(out@ =~= Seq::<char>::empty());
    }
    add_directive(&mut out, "MemoryHigh=", l.memory_high);
    add_directive(&mut out, "MemoryMax=", l.memory_max);
    add_directive(&mut out, "TasksMax=", l.tasks_max);
    add_directive(&mut out, "CPUQuota=", l.cpu_quota);
    match l.limit_nofile {
        Some(n) => {
            let t = text::decimal_of(n as u64);
            add_directive(&mut out, "LimitNOFILE=", Some(t.as_str()));
        },
        None => add_directive(&mut out, "LimitNOFILE=", None),
    }
    match l.oom_score_adjust {
        Some(n) => {
            let t = text::signed_decimal_of(n);
            add_directive(&mut out, "OOMScoreAdjust=", Some(t.as_str()));
        },
        None => add_directive(&mut out, "OOMScoreAdjust=", None),
    }
    out
}

/// The characters of a variable's name that may stand in a unit file.
pub open spec fn env_name(k: Seq<char>) -> Seq<char> {
    k.filter(|c: char| text::alphanumeric(c) || c == '_')
}

/// The line that sets one variable.
pub open spec fn env_line(k: Seq<char>, v: Seq<char>) -> Seq<char> {
    "Environment=\""@ + env_name(k) + "="@ + escaped(v) + "\" \n"@
}

/// The lines that set the first `n` variables.
pub open spec fn env_text(env: Seq<(String, String)>, n: int) -> Seq<char>
    decreases n,
{
    if n <= 0 {
        Seq::empty()
    } else {
        env_text(env, n - 1) + env_line(env[n - 1].0@, env[n - 1].1@)
    }
}

fn safe_env_name(k: &str) -> (r: String)
    ensures
        r@ == env_name(k@),
{
    let v = text::chars_of(k);
    let ghost keep = |c: char| text::alphanumeric(c) || c == '_';
    let mut out = String::new();
    let mut i: usize = 0;
    proof {
        reveal(Seq::filter);
        assert(v@.take(0).filter(keep) =~= out@);
    }
    while i < v.len()
        invariant
            i <= v@.len(),
            keep == (|c: char| text::alphanumeric(c) || c == '_'),
            out@ == v@.take(i as int).filter(keep),
        decreases v@.len() - i,
    {
        proof {
            reveal(Seq::filter);
            assert(v@.take(i + 1).drop_last() =~= v@.take(i as int));
        }
        if text::is_alphanumeric(v[i]) || v[i] == '_' {
            out.push(v[i]);
        }
        i = i + 1;
    }
    assert(v@.take(i as int) =~= v@);
    out
}

fn render_env(env: &[(String, String)]) -> (r: String)
    ensures
        r@ == env_text(env@, env@.len() as int),
{
    let mut out = String::new();
    let mut i: usize = 0;
    assert(out@ =~= env_text(env@, 0));
    while i < env.len()
        invariant
            i <= env@.len(),
            out@ == env_text(env@, i as int),
        decreases env@.len() - i,
    {
        let ghost before = out@;
        let name = safe_env_name(env[i].0.as_str());
        let value = escape_unit_value(env[i].1.as_str());
        out.append("Environment=\"");
        out.append(name.as_str());
        out.append("=");
        out.append(value.as_str());
        out.append("\" \n");
        assert(out@ =~= before + env_line(env@[i as int].0@, env@[i as int].1@));
        i = i + 1;
    }
    out
}

/// Home entries and session endpoints a runtime service must never be able to
/// touch: secret stores plus the ambient session sockets.
pub open spec fn secret_root_names() -> Seq<Seq<char>> {
    seq![
        ".ssh"@,
        ".config"@,
        ".gnupg"@,
        ".netrc"@,
        ".aws"@,
        ".cache"@,
        ".local/state/demo-ghostprovider"@,
        ".Xauthority"@,
        ".git-credentials"@,
        ".npmrc"@,
        ".pypirc"@,
        ".docker"@,
        ".kube"@,
    ]
}

/// All roots to blank, present or not: the user's secret stores, the user's
/// runtime directory, the X11 sockets and the system bus.
pub open spec fn secret_root_paths(home: Seq<char>, uid: Option<u32>) -> Seq<Seq<char>> {
    secret_root_names().map_values(|n: Seq<char>| paths::joined_path(home, n)) + (match uid {
        Some(u) => seq!["/run/user/"@ + text::decimal(u as nat)],
        None => Seq::<Seq<char>>::empty(),
    }) + seq!["/tmp/.X11-unix"@, "/run/dbus/system_bus_socket"@]
}

/// The roots to look for before a unit is rendered.
pub fn secret_roots(home: &str, uid: Option<u32>) -> (r: Vec<String>)
    ensures
        text::texts(r@) == secret_root_paths(home@, uid),
{
    let mut names = text::no_texts();
    text::push_text(&mut names, ".ssh");
    text::push_text(&mut names, ".config");
    text::push_text(&mut names, ".gnupg");
    text::push_text(&mut names, ".netrc");
    text::push_text(&mut names, ".aws");
    text::push_text(&mut names, ".cache");
    text::push_text(&mut names, ".local/state/demo-ghostprovider");
    text::push_text(&mut names, ".Xauthority");
    text::push_text(&mut names, ".git-credentials");
    text::push_text(&mut names, ".npmrc");
    text::push_text(&mut names, ".pypirc");
    text::push_text(&mut names, ".docker");
    text::push_text(&mut names, ".kube");
    let ghost all = secret_root_names();
    assert(text::texts(names@) == all);
    assert(text::texts(names@).len() == names@.len());
    let mut out = text::no_texts();
    let mut i: usize = 0;
    while i < names.len()
        invariant
            i <= names@.len(),
            all == text::texts(names@),
            text::texts(out@) == all.take(i as int).map_values(
                |n: Seq<char>| paths::joined_path(home@, n),
            ),
        decreases names@.len() - i,
    {
        let p = paths::join(home, names[i].as_str());
        assert(all[i as int] == names@[i as int]@);
        text::push_text(&mut out, p.as_str());
        assert(all.take(i + 1).map_values(|n: Seq<char>| paths::joined_path(home@, n)) =~= all.take(
            i as int,
        ).map_values(|n: Seq<char>| paths::joined_path(home@, n)).push(p@));
        i = i + 1;
    }
    assert(all.take(i as int) =~= all);
    match uid {
        Some(u) => {
            let mut p = "/run/user/".to_owned();
            let d = text::decimal_of(u as u64);
            p.append(d.as_str());
            text::push_text(&mut out, p.as_str());
        },
        None => {},
    }
    text::push_text(&mut out, "/tmp/.X11-unix");
    text::push_text(&mut out, "/run/dbus/system_bus_socket");
    assert(text::texts(out@) =~= secret_root_paths(home@, uid));
    out
}

/// Numeric UID of the invoking user, from what `id -u` printed; `None` where
/// it could not be run or failed.
pub fn current_uid(printed: &Option<(bool, String)>) -> (r: Option<u32>)
    ensures
        match *printed {
            Some((true, out)) => match r {
                Some(u) => text::parsed(text::trimmed(out@), u32::MAX as nat) == Some(u as nat),
                None => text::parsed(text::trimmed(out@), u32::MAX as nat) is None,
            },
            _ => r is None,
        },
{
    match printed {
        Some((ok, out)) => {
            if *ok {
                let t = text::trim(out.as_str());
                return match text::parse_uint(t.as_str(), u32::MAX as u64) {
                    Some(n) => Some(n as u32),
                    None => None,
                };
            }
            None
        },
        None => None,
    }
}

/// The value of `InaccessiblePaths=`: the roots that are present.
pub open spec fn inaccessible_text(present: Seq<Seq<char>>) -> Seq<char> {
    text::joined(present.map_values(|p: Seq<char>| escaped(p)), " "@)
}

/// Renders the roots that are present. systemd refuses to set up the namespace
/// if a listed path does not exist, so the others must not be handed in.
pub fn inaccessible_paths(present: &Vec<String>) -> (r: String)
    ensures
        r@ == inaccessible_text(text::texts(present@)),
{
    let ghost all = text::texts(present@);
    let mut out = text::no_texts();
    let mut i: usize = 0;
    while i < present.len()
        invariant
            i <= present@.len(),
            all == text::texts(present@),
            text::texts(out@) == all.take(i as int).map_values(|p: Seq<char>| escaped(p)),
        decreases present@.len() - i,
    {
        let e = escape_unit_value(present[i].as_str());
        assert(all[i as int] == present@[i as int]@);
        text::push_text(&mut out, e.as_str());
        assert(all.take(i + 1).map_values(|p: Seq<char>| escaped(p)) =~= all.take(
            i as int,
        ).map_values(|p: Seq<char>| escaped(p)).push(e@));
        i = i + 1;
    }
    assert(all.take(i as int) =~= all);
    text::join(&out, " ")
}

/// Session, cloud and database credentials with well-known names.
pub open spec fn credential_names() -> Seq<Seq<char>> {
    seq![
        "OPENCHAMBER_AGENT_TOOL_TOKEN"@,
        "OPENCHAMBER_TOKEN"@,
        "OPENCHAMBER_SESSION_ID"@,
        "OPENCODE_SERVER_PASSWORD"@,
        "OPENCODE_TOKEN"@,
        "OPENCODE_AUTH_TOKEN"@,
        "AWS_ACCESS_KEY_ID"@,
        "AWS_SECRET_ACCESS_KEY"@,
        "AWS_SESSION_TOKEN"@,
        "AWS_PROFILE"@,
        "GOOGLE_APPLICATION_CREDENTIALS"@,
        "AZURE_CLIENT_ID"@,
        "AZURE_CLIENT_SECRET"@,
        "AZURE_TENANT_ID"@,
        "DATABASE_URL"@,
        "MYSQL_PWD"@,
        "PGPASSWORD"@,
        "REDIS_URL"@,
        "REDIS_PASSWORD"@,
    ]
}

/// The first occurrence of each text of a list.
pub open spec fn without_repeats(s: Seq<Seq<char>>) -> Seq<Seq<char>>
    decreases s.len(),
{
    if s.len() == 0 {
        Seq::empty()
    } else {
        let d = without_repeats(s.drop_last());
        if d.contains(s.last()) {
            d
        } else {
            d.push(s.last())
        }
    }
}

/// The variables a runtime service must never inherit: those scrubbed from
/// builds, then the well-known credentials.
pub open spec fn unset_names(scrubbed: Seq<Seq<char>>) -> Seq<Seq<char>> {
    without_repeats(scrubbed + credential_names())
}

/// Dropping repeats drops no name.
pub proof fn law_unset_covers(scrubbed: Seq<Seq<char>>, name: Seq<char>)
    requires
        scrubbed.contains(name) || credential_names().contains(name),
    ensures
        unset_names(scrubbed).contains(name),
{
    let all = scrubbed + credential_names();
    if scrubbed.contains(name) {
        let i = choose|i: int| 0 <= i < scrubbed.len() && scrubbed[i] == name;
        assert(all[i] == name);
    } else {
        let i = choose|i: int|
            0 <= i < credential_names().len() && credential_names()[i] == name;
        assert(all[scrubbed.len() + i] == name);
    }
    lemma_without_repeats_keeps(all, name);
}

proof fn lemma_without_repeats_keeps(s: Seq<Seq<char>>, name: Seq<char>)
    requires
        s.contains(name),
    ensures
        without_repeats(s).contains(name),
    decreases s.len(),
{
    let d = without_repeats(s.drop_last());
    let i = choose|i: int| 0 <= i < s.len() && s[i] == name;
    if i < s.len() - 1 {
        assert(s.drop_last()[i] == name);
        lemma_without_repeats_keeps(s.drop_last(), name);
        let j = choose|j: int| 0 <= j < d.len() && d[j] == name;
        assert(without_repeats(s)[j] == name);
    } else if !d.contains(s.last()) {
        assert(without_repeats(s).last() == name);
    }
}

/// The value of `UnsetEnvironment=`. systemd takes no globs there, so every
/// name is listed.
pub fn runtime_unset_environment(scrubbed: &Vec<String>) -> (r: String)
    ensures
        r@ == text::joined(unset_names(text::texts(scrubbed@)), " "@),
{
    let mut names = text::copy_list(scrubbed);
    text::push_text(&mut names, "OPENCHAMBER_AGENT_TOOL_TOKEN");
    text::push_text(&mut names, "OPENCHAMBER_TOKEN");
    text::push_text(&mut names, "OPENCHAMBER_SESSION_ID");
    text::push_text(&mut names, "OPENCODE_SERVER_PASSWORD");
    text::push_text(&mut names, "OPENCODE_TOKEN");
    text::push_text(&mut names, "OPENCODE_AUTH_TOKEN");
    text::push_text(&mut names, "AWS_ACCESS_KEY_ID");
    text::push_text(&mut names, "AWS_SECRET_ACCESS_KEY");
    text::push_text(&mut names, "AWS_SESSION_TOKEN");
    text::push_text(&mut names, "AWS_PROFILE");
    text::push_text(&mut names, "GOOGLE_APPLICATION_CREDENTIALS");
    text::push_text(&mut names, "AZURE_CLIENT_ID");
    text::push_text(&mut names, "AZURE_CLIENT_SECRET");
    text::push_text(&mut names, "AZURE_TENANT_ID");
    text::push_text(&mut names, "DATABASE_URL");
    text::push_text(&mut names, "MYSQL_PWD");
    text::push_text(&mut names, "PGPASSWORD");
    text::push_text(&mut names, "REDIS_URL");
    text::push_text(&mut names, "REDIS_PASSWORD");
    let ghost all = text::texts(scrubbed@) + credential_names();
    assert(text::texts(names@) =~= all);
    assert(text::texts(names@).len() == names@.len());
    let mut out = text::no_texts();
    let mut i: usize = 0;
    while i < names.len()
        invariant
            i <= names@.len(),
            all == text::texts(names@),
            text::texts(out@) == without_repeats(all.take(i as int)),
        decreases names@.len() - i,
    {
        assert(all.take(i + 1).drop_last() =~= all.take(i as int));
        assert(all[i as int] == names@[i as int]@);
        if !text::list_has(&out, names[i].as_str()) {
            text::push_text(&mut out, names[i].as_str());
        }
        i = i + 1;
    }
    assert(all.take(i as int) =~= all);
    text::join(&out, " ")
}

/// The line that names the environment file, where there is one.
pub open spec fn env_file_text(file: Option<Seq<char>>) -> Seq<char> {
    match file {
        Some(p) => "EnvironmentFile="@ + escaped(p) + "\n"@,
        None => Seq::empty(),
    }
}

/// Removes egress: `IPAddressAllow` takes precedence over `IPAddressDeny`, so
/// the unit may only talk to loopback.
pub open spec fn ip_filter() -> Seq<char> {
    "IPAddressDeny=any\nIPAddressAllow=127.0.0.1 ::1\n"@
}

/// The description a unit carries.
pub open spec fn unit_description(spec: UnitSpec) -> Seq<char> {
    if spec.description@.len() == 0 {
        sanitized(spec.service_name@)
    } else {
        spec.description@
    }
}

/// The hardened user unit of a service.
pub open spec fn unit_text(
    spec: UnitSpec,
    present: Seq<Seq<char>>,
    scrubbed: Seq<Seq<char>>,
) -> Seq<char> {
    let working = escaped(spec.working_dir@);
    "[Unit]\nDescription="@ + escaped(unit_description(spec))
        + "\nAfter=network.target\n\n[Service]\nType=simple\nWorkingDirectory="@ + working
        + "\nExecStart="@ + quoted_command(spec.exec_start@)
        + "\nRestart=always\nRestartSec=5\n"@ + env_text(
        spec.extra_env@,
        spec.extra_env@.len() as int,
    ) + env_file_text(
        match spec.env_file {
            Some(p) => Some(p@),
            None => None,
        },
    ) + "\n# A service must never inherit ambient CI credentials (GITHUB_TOKEN,\n              # GH_TOKEN, package-manager tokens, openchamber/opencode session\n              # secrets) or ambient session endpoints (SSH agent, D-Bus, X11)\n              # via the manager environment. systemd rejects globs here, so\n              # the known names are enumerated explicitly (see\n              # runtime_unset_environment()).\nUnsetEnvironment="@
        + text::joined(unset_names(scrubbed), " "@)
        + "\n# -- Privacy & Security Hardening --\nNoNewPrivileges=yes\nProtectHome=read-only\nProtectSystem=full\nReadWritePaths=\""@
        + working + "\"\nEnvironment=\"HOME="@ + working
        + "/.ghost-cache/home\"\nEnvironment=\"XDG_CACHE_HOME="@ + working
        + "/.ghost-cache\"\nEnvironment=\"XDG_RUNTIME_DIR="@ + working
        + "/.ghost-cache/runtime\"\nInaccessiblePaths="@ + inaccessible_text(present)
        + "\nProtectKernelTunables=yes\nProtectKernelModules=yes\nProtectControlGroups=yes\nProtectClock=yes\nProtectHostname=yes\nProtectKernelLogs=yes\nPrivateIPC=yes\nRestrictNamespaces=yes\nLockPersonality=yes\nRestrictRealtime=yes\nRestrictSUIDSGID=yes\nProtectProc=invisible\nPrivateDevices=yes\nProcSubset=pid\nRestrictAddressFamilies=AF_UNIX AF_INET AF_INET6\nCapabilityBoundingSet=\nUMask=0077\nSystemCallFilter=~@mount @swap @reboot @cpu-emulation @obsolete @module @raw-io @clock @debug\n"@
        + limits_text(spec.res) + ip_filter() + "[Install]\nWantedBy=default.target\n"@
}

/// Renders the hardened user unit of a service: no new privileges, read-only
/// home + inaccessible secret roots, filesystem protection with a writable
/// working dir, kernel/control-group locks, seccomp deny-list, empty
/// capability bounding set, per-recipe CPU/memory/tasks caps, and no IP
/// traffic but loopback. `present` are those of [`secret_roots`] that exist,
/// `scrubbed` the variables scrubbed from builds.
pub fn render_unit(spec: &UnitSpec, present: &Vec<String>, scrubbed: &Vec<String>) -> (r: String)
    ensures
        r@ == unit_text(*spec, text::texts(present@), text::texts(scrubbed@)),
{
    let service_name = sanitize_service_name(spec.service_name);
    let env_lines = render_env(spec.extra_env);
    let env_file_line = match spec.env_file {
        Some(p) => {
            let mut l = "EnvironmentFile=".to_owned();
            let e = escape_unit_value(p);
            l.append(e.as_str());
            l.append("\n");
            l
        },
        None => String::new(),
    };
    assert(env_file_line@ =~= env_file_text(
        match spec.env_file {
            Some(p) => Some(p@),
            None => None,
        },
    ));
    let res_lines = render_limits(&spec.res);
    let working = escape_unit_value(spec.working_dir);
    let inaccessible = inaccessible_paths(present);
    let unset_env = runtime_unset_environment(scrubbed);
    let desc = if spec.description.is_empty() {
        escape_unit_value(service_name.as_str())
    } else {
        escape_unit_value(spec.description)
    };
    let exec = quote_exec_args(spec.exec_start);
    let mut out = "[Unit]\nDescription=".to_owned();
    out.append(desc.as_str());
    out.append("\nAfter=network.target\n\n[Service]\nType=simple\nWorkingDirectory=");
    out.append(working.as_str());
    out.append("\nExecStart=");
    out.append(exec.as_str());
    out.append("\nRestart=always\nRestartSec=5\n");
    out.append(env_lines.as_str());
    out.append(env_file_line.as_str());
    out.append("\n# A service must never inherit ambient CI credentials (GITHUB_TOKEN,\n              # GH_TOKEN, package-manager tokens, openchamber/opencode session\n              # secrets) or ambient session endpoints (SSH agent, D-Bus, X11)\n              # via the manager environment. systemd rejects globs here, so\n              # the known names are enumerated explicitly (see\n              # runtime_unset_environment()).\nUnsetEnvironment=");
    out.append(unset_env.as_str());
    out.append("\n# -- Privacy & Security Hardening --\nNoNewPrivileges=yes\nProtectHome=read-only\nProtectSystem=full\nReadWritePaths=\"");
    out.append(working.as_str());
    out.append("\"\nEnvironment=\"HOME=");
    out.append(working.as_str());
    out.append("/.ghost-cache/home\"\nEnvironment=\"XDG_CACHE_HOME=");
    out.append(working.as_str());
    out.append("/.ghost-cache\"\nEnvironment=\"XDG_RUNTIME_DIR=");
    out.append(working.as_str());
    out.append("/.ghost-cache/runtime\"\nInaccessiblePaths=");
    out.append(inaccessible.as_str());
    out.append("\nProtectKernelTunables=yes\nProtectKernelModules=yes\nProtectControlGroups=yes\nProtectClock=yes\nProtectHostname=yes\nProtectKernelLogs=yes\nPrivateIPC=yes\nRestrictNamespaces=yes\nLockPersonality=yes\nRestrictRealtime=yes\nRestrictSUIDSGID=yes\nProtectProc=invisible\nPrivateDevices=yes\nProcSubset=pid\nRestrictAddressFamilies=AF_UNIX AF_INET AF_INET6\nCapabilityBoundingSet=\nUMask=0077\nSystemCallFilter=~@mount @swap @reboot @cpu-emulation @obsolete @module @raw-io @clock @debug\n");
    out.append(res_lines.as_str());
    out.append("IPAddressDeny=any\nIPAddressAllow=127.0.0.1 ::1\n");
    out.append("[Install]\nWantedBy=default.target\n");
    out
}

/// Every unit is locked to loopback, whatever else it says.
pub proof fn law_unit_is_locked_to_loopback(
    spec: UnitSpec,
    present: Seq<Seq<char>>,
    scrubbed: Seq<Seq<char>>,
)
    ensures
        text::holds(unit_text(spec, present, scrubbed), ip_filter()),
{
    let t = unit_text(spec, present, scrubbed);
    let tail = "[Install]\nWantedBy=default.target\n"@;
    let i = t.len() - tail.len() - ip_filter().len();
    assert(t.subrange(i, i + ip_filter().len()) =~= ip_filter());
    assert(text::occurs_at(t, ip_filter(), i));
}

/// Every unit gives up new privileges and sees the home directory and the
/// system read-only.
pub proof fn law_unit_is_hardened(
    spec: UnitSpec,
    present: Seq<Seq<char>>,
    scrubbed: Seq<Seq<char>>,
)
    ensures
        text::holds(
            unit_text(spec, present, scrubbed),
            "NoNewPrivileges=yes\nProtectHome=read-only\nProtectSystem=full\n"@,
        ),
{
    let t = unit_text(spec, present, scrubbed);
    let p = "NoNewPrivileges=yes\nProtectHome=read-only\nProtectSystem=full\n"@;
    let title = "\n# -- Privacy & Security Hardening --\n"@;
    let section = "\n# -- Privacy & Security Hardening --\nNoNewPrivileges=yes\nProtectHome=read-only\nProtectSystem=full\nReadWritePaths=\""@;
    reveal_strlit("NoNewPrivileges=yes\nProtectHome=read-only\nProtectSystem=full\n");
    reveal_strlit("\n# -- Privacy & Security Hardening --\n");
    reveal_strlit(
        "\n# -- Privacy & Security Hardening --\nNoNewPrivileges=yes\nProtectHome=read-only\nProtectSystem=full\nReadWritePaths=\"",
    );
    assert(section.subrange(title.len() as int, (title.len() + p.len()) as int) =~= p);
    let working = escaped(spec.working_dir@);
    let front = "[Unit]\nDescription="@ + escaped(unit_description(spec))
        + "\nAfter=network.target\n\n[Service]\nType=simple\nWorkingDirectory="@ + working
        + "\nExecStart="@ + quoted_command(spec.exec_start@)
        + "\nRestart=always\nRestartSec=5\n"@ + env_text(
        spec.extra_env@,
        spec.extra_env@.len() as int,
    ) + env_file_text(
        match spec.env_file {
            Some(p) => Some(p@),
            None => None,
        },
    ) + "\n# A service must never inherit ambient CI credentials (GITHUB_TOKEN,\n              # GH_TOKEN, package-manager tokens, openchamber/opencode session\n              # secrets) or ambient session endpoints (SSH agent, D-Bus, X11)\n              # via the manager environment. systemd rejects globs here, so\n              # the known names are enumerated explicitly (see\n              # runtime_unset_environment()).\nUnsetEnvironment="@
        + text::joined(unset_names(scrubbed), " "@);
    let i = (front.len() + title.len()) as int;
    assert(t.subrange(i, i + p.len()) =~= p) by {
        assert forall|k: int| 0 <= k < p.len() implies t[i + k] == p[k] by {
            assert(t[i + k] == section[title.len() + k]);
            assert(section.subrange(title.len() as int, (title.len() + p.len()) as int)[k] == p[k]);
        }
    }
    assert(text::occurs_at(t, p, i));
}

/// What installing a unit writes.
pub struct UnitPlan {
    /// The name the unit is enabled under.
    pub service_name: String,
    /// The directory of user units, to be created.
    pub unit_dir: String,
    /// Directories the service's environment points at, to be created.
    pub cache_dirs: Vec<String>,
    /// The unit file, to be replaced whole.
    pub unit_path: String,
    pub content: String,
}

/// The path of a service's unit file.
pub open spec fn unit_file_path(unit_dir: Seq<char>, service: Seq<char>) -> Seq<char> {
    paths::joined_path(unit_dir, service + ".service"@)
}

pub fn unit_file(unit_dir: &str, service: &str) -> (r: String)
    ensures
        r@ == unit_file_path(unit_dir@, service@),
{
    let mut name = service.to_owned();
    name.append(".service");
    paths::join(unit_dir, name.as_str())
}

/// Prepare the hardened user unit for `service_name`: what to write, and
/// where. The manager is to be reloaded and the unit enabled afterwards.
pub fn create_unit(
    spec: &UnitSpec,
    unit_dir: &str,
    present: &Vec<String>,
    scrubbed: &Vec<String>,
) -> (r: UnitPlan)
    ensures
        r.service_name@ == sanitized(spec.service_name@),
        r.unit_dir@ == unit_dir@,
        text::texts(r.cache_dirs@) == seq![
            paths::joined_path(paths::joined_path(spec.working_dir@, ".ghost-cache"@), ""@),
            paths::joined_path(paths::joined_path(spec.working_dir@, ".ghost-cache"@), "home"@),
            paths::joined_path(paths::joined_path(spec.working_dir@, ".ghost-cache"@), "runtime"@),
        ],
        r.unit_path@ == unit_file_path(unit_dir@, sanitized(spec.service_name@)),
        r.content@ == unit_text(*spec, text::texts(present@), text::texts(scrubbed@)),
{
    let service_name = sanitize_service_name(spec.service_name);
    let cache_root = paths::join(spec.working_dir, ".ghost-cache");
    let mut cache_dirs = text::no_texts();
    let top = paths::join(cache_root.as_str(), "");
    text::push_text(&mut cache_dirs, top.as_str());
    let home = paths::join(cache_root.as_str(), "home");
    text::push_text(&mut cache_dirs, home.as_str());
    let runtime = paths::join(cache_root.as_str(), "runtime");
    text::push_text(&mut cache_dirs, runtime.as_str());
    let unit_path = unit_file(unit_dir, service_name.as_str());
    let content = render_unit(spec, present, scrubbed);
    UnitPlan { service_name, unit_dir: unit_dir.to_owned(), cache_dirs, unit_path, content }
}

// ---------------------------------------------------------------------------
// Starting
// ---------------------------------------------------------------------------

#[derive(Debug, PartialEq, Eq, Clone, Copy, Structural)]
pub enum StartOutcome {
    Active,
    Failed,
    TimeoutWhileActivating,
    SystemdUnavailable,
}

/// Give the queued start job time to actually run before the first fatal
/// verdict.
pub open spec fn grace() -> int {
    POLL_INTERVAL * 3
}

/// What one poll of a starting service decides; `None` is to poll again.
/// `at_verdict` and `at_deadline` are the milliseconds since the wait began,
/// read when a failed state is weighed and when the budget is.
pub open spec fn poll_verdict(
    state: Option<Seq<char>>,
    at_verdict: int,
    at_deadline: int,
) -> Option<StartOutcome> {
    match state {
        None => Some(StartOutcome::SystemdUnavailable),
        Some(s) => if s == "active"@ {
            Some(StartOutcome::Active)
        } else if (s == "failed"@ || s == "inactive"@) && at_verdict >= grace() {
            Some(StartOutcome::Failed)
        } else if at_deadline >= START_BUDGET {
            Some(StartOutcome::TimeoutWhileActivating)
        } else {
            None
        },
    }
}

/// Weighs one poll of a service that was told to start. `state` is what
/// `systemctl is-active` printed, `None` where it could not be run; the caller
/// sleeps [`POLL_INTERVAL`] and polls again until there is an outcome.
pub fn wait_until_active(state: &Option<String>, at_verdict: u64, at_deadline: u64) -> (r: Option<
    StartOutcome,
>)
    ensures
        r == poll_verdict(
            match *state {
                Some(s) => Some(text::trimmed(s@)),
                None => None,
            },
            at_verdict as int,
            at_deadline as int,
        ),
{
    match state {
        None => Some(StartOutcome::SystemdUnavailable),
        Some(printed) => {
            let s = text::trim(printed.as_str());
            if text::same(s.as_str(), "active") {
                return Some(StartOutcome::Active);
            }
            if (text::same(s.as_str(), "failed") || text::same(s.as_str(), "inactive"))
                && at_verdict >= POLL_INTERVAL * 3 {
                return Some(StartOutcome::Failed);
            }
            if at_deadline >= START_BUDGET {
                return Some(StartOutcome::TimeoutWhileActivating);
            }
            None
        },
    }
}

/// A service that reads as active is never called anything else, and one that
/// is still activating is never called failed.
pub proof fn law_activating_is_not_failed(
    state: Option<Seq<char>>,
    at_verdict: int,
    at_deadline: int,
)
    ensures
        poll_verdict(state, at_verdict, at_deadline) == Some(StartOutcome::Failed) ==> (state
            == Some("failed"@) || state == Some("inactive"@)) && at_verdict >= grace(),
        state == Some("active"@) ==> poll_verdict(state, at_verdict, at_deadline) == Some(
            StartOutcome::Active,
        ),
{
}

/// A wait ends: once the budget is spent every poll has an outcome.
pub proof fn law_wait_ends(state: Option<Seq<char>>, at_verdict: int, at_deadline: int)
    requires
        at_deadline >= START_BUDGET,
    ensures
        poll_verdict(state, at_verdict, at_deadline) is Some,
{
}

/// Recent journal lines for a user unit, from what `journalctl` printed;
/// nothing where it could not be run or failed.
pub fn service_logs(printed: &Option<(bool, String)>) -> (r: String)
    ensures
        r@ == match *printed {
            Some((true, out)) => text::trimmed(out@),
            _ => Seq::empty(),
        },
{
    match printed {
        Some((ok, out)) => {
            if *ok {
                text::trim(out.as_str())
            } else {
                String::new()
            }
        },
        None => String::new(),
    }
}

/// The file to delete once a user unit is stopped and disabled.
pub fn remove_unit(unit_dir: &str, service: &str) -> (r: String)
    ensures
        r@ == unit_file_path(unit_dir@, service@),
{
    unit_file(unit_dir, service)
}

// ---------------------------------------------------------------------------
// Commands to the user manager
// ---------------------------------------------------------------------------

/// What systemctl is told.
#[derive(Debug, Clone, Copy, PartialEq, Eq, Structural)]
pub enum UnitCommand {
    /// Read the unit files anew.
    Reload,
    /// Print every loaded service.
    ListServices,
    Enable,
    Disable,
    Stop,
    /// Start, and wait for the job.
    Start,
    /// Queue the start, and return at once.
    StartQueued,
    Restart,
    ResetFailed,
    /// Print the state.
    IsActive,
}

/// The words of a command, after the program's name.
pub open spec fn command_words(c: UnitCommand, unit: Seq<char>) -> Seq<Seq<char>> {
    match c {
        UnitCommand::Reload => seq!["--user"@, "daemon-reload"@],
        UnitCommand::ListServices => seq![
            "--user"@,
            "list-units"@,
            "--all"@,
            "--type=service"@,
            "--plain"@,
            "--no-legend"@,
        ],
        UnitCommand::Enable => seq!["--user"@, "enable"@, unit],
        UnitCommand::Disable => seq!["--user"@, "disable"@, unit],
        UnitCommand::Stop => seq!["--user"@, "stop"@, unit],
        UnitCommand::Start => seq!["--user"@, "start"@, unit],
        UnitCommand::StartQueued => seq!["--user"@, "start"@, "--no-block"@, unit],
        UnitCommand::Restart => seq!["--user"@, "restart"@, unit],
        UnitCommand::ResetFailed => seq!["--user"@, "reset-failed"@, unit],
        UnitCommand::IsActive => seq!["--user"@, "is-active"@, unit],
    }
}

/// The arguments of systemctl for a command. The commands to the manager as a
/// whole name no unit.
pub fn systemctl_args(c: UnitCommand, unit: &str) -> (r: Vec<String>)
    ensures
        text::texts(r@) == command_words(c, unit@),
{
    let mut args = text::no_texts();
    text::push_text(&mut args, "--user");
    match c {
        UnitCommand::Reload => {
            text::push_text(&mut args, "daemon-reload");
        },
        UnitCommand::ListServices => {
            text::push_text(&mut args, "list-units");
            text::push_text(&mut args, "--all");
            text::push_text(&mut args, "--type=service");
            text::push_text(&mut args, "--plain");
            text::push_text(&mut args, "--no-legend");
        },
        UnitCommand::Enable => {
            text::push_text(&mut args, "enable");
            text::push_text(&mut args, unit);
        },
        UnitCommand::Disable => {
            text::push_text(&mut args, "disable");
            text::push_text(&mut args, unit);
        },
        UnitCommand::Stop => {
            text::push_text(&mut args, "stop");
            text::push_text(&mut args, unit);
        },
        UnitCommand::Start => {
            text::push_text(&mut args, "start");
            text::push_text(&mut args, unit);
        },
        UnitCommand::StartQueued => {
            text::push_text(&mut args, "start");
            text::push_text(&mut args, "--no-block");
            text::push_text(&mut args, unit);
        },
        UnitCommand::Restart => {
            text::push_text(&mut args, "restart");
            text::push_text(&mut args, unit);
        },
        UnitCommand::ResetFailed => {
            text::push_text(&mut args, "reset-failed");
            text::push_text(&mut args, unit);
        },
        UnitCommand::IsActive => {
            text::push_text(&mut args, "is-active");
            text::push_text(&mut args, unit);
        },
    }
    args
}

/// Only the user's own manager is ever told anything.
pub proof fn law_only_the_user_manager_is_told(c: UnitCommand, unit: Seq<char>)
    ensures
        command_words(c, unit).len() > 1,
        command_words(c, unit)[0] == "--user"@,
{
}

// ---------------------------------------------------------------------------
// What holds of every unit
// ---------------------------------------------------------------------------

/// A unit may be named with letters, digits, underscores, dashes and dots, with no
/// dot in front, in 1 to 255 bytes.
pub proof fn law_unit_names(name: Seq<char>)
    ensures
        valid_unit_name(name) <==> name.len() > 0 && encode_utf8(name).len() <= 255 && name[0]
            != '.' && forall|i: int|
            0 <= i < name.len()
                ==> "abcdefghijklmnopqrstuvwxyzABCDEFGHIJKLMNOPQRSTUVWXYZ0123456789"@.contains(
                #[trigger] name[i],
            ) || name[i] == '_' || name[i] == '-' || name[i] == '.',
{
    assert forall|i: int| 0 <= i < name.len() implies (unit_char(#[trigger] name[i])
        <==> "abcdefghijklmnopqrstuvwxyzABCDEFGHIJKLMNOPQRSTUVWXYZ0123456789"@.contains(name[i])
        || name[i] == '_' || name[i] == '-' || name[i] == '.') by {
        text::law_letters_and_digits(name[i]);
    }
}

/// A valid name is kept as it is. Any other is cut to 64 characters, with a dash
/// for every character that a name may not hold.
pub proof fn law_sanitizing(name: Seq<char>)
    ensures
        valid_unit_name(name) ==> sanitized(name) == name,
        !valid_unit_name(name) ==> {
            &&& sanitized(name).len() == vstd::math::min(64, name.len() as int)
            &&& forall|i: int|
                0 <= i < sanitized(name).len() ==> #[trigger] sanitized(name)[i]
                    == if "abcdefghijklmnopqrstuvwxyzABCDEFGHIJKLMNOPQRSTUVWXYZ0123456789"@.contains(
                    name[i],
                ) || name[i] == '_' || name[i] == '-' || name[i] == '.' {
                    name[i]
                } else {
                    '-'
                }
        },
{
    assert forall|i: int| 0 <= i < name.len() implies (unit_char(#[trigger] name[i])
        <==> "abcdefghijklmnopqrstuvwxyzABCDEFGHIJKLMNOPQRSTUVWXYZ0123456789"@.contains(name[i])
        || name[i] == '_' || name[i] == '-' || name[i] == '.') by {
        text::law_letters_and_digits(name[i]);
    }
    assert forall|i: int| 0 <= i < name.len() implies #[trigger] dashed(name)[i] == if unit_char(
        name[i],
    ) {
        name[i]
    } else {
        '-'
    } by {}
    if !valid_unit_name(name) {
        assert forall|i: int| 0 <= i < sanitized(name).len() implies #[trigger] sanitized(name)[i]
            == if "abcdefghijklmnopqrstuvwxyzABCDEFGHIJKLMNOPQRSTUVWXYZ0123456789"@.contains(
            name[i],
        ) || name[i] == '_' || name[i] == '-' || name[i] == '.' {
            name[i]
        } else {
            '-'
        } by {
            assert(sanitized(name)[i] == dashed(name)[i]);
            assert(unit_char(name[i])
                <==> "abcdefghijklmnopqrstuvwxyzABCDEFGHIJKLMNOPQRSTUVWXYZ0123456789"@.contains(
                name[i],
            ) || name[i] == '_' || name[i] == '-' || name[i] == '.');
        }
    }
}

/// In a unit's values a backslash, a quote, a line feed, a dollar and a percent
/// sign are escaped; every other character stands for itself, and all keep their
/// place.
pub proof fn law_escaping(c: char, rest: Seq<char>)
    ensures
        escaped(Seq::empty()).len() == 0,
        escaped(seq!['\\'] + rest) == seq!['\\', '\\'] + escaped(rest),
        escaped(seq!['"'] + rest) == seq!['\\', '"'] + escaped(rest),
        escaped(seq!['\n'] + rest) == seq!['\\', 'n'] + escaped(rest),
        escaped(seq!['$'] + rest) == seq!['$', '$'] + escaped(rest),
        escaped(seq!['%'] + rest) == seq!['%', '%'] + escaped(rest),
        c != '\\' && c != '"' && c != '\n' && c != '$' && c != '%' ==> escaped(seq![c] + rest)
            == seq![c] + escaped(rest),
{
    assert((seq!['\\'] + rest).subrange(1, rest.len() as int + 1) =~= rest);
    assert((seq!['"'] + rest).subrange(1, rest.len() as int + 1) =~= rest);
    assert((seq!['\n'] + rest).subrange(1, rest.len() as int + 1) =~= rest);
    assert((seq!['$'] + rest).subrange(1, rest.len() as int + 1) =~= rest);
    assert((seq!['%'] + rest).subrange(1, rest.len() as int + 1) =~= rest);
    assert((seq![c] + rest).subrange(1, rest.len() as int + 1) =~= rest);
}

/// A command is quoted word by word, in the order of its words.
pub proof fn law_command_is_quoted_word_by_word(w: Seq<char>, c: char, rest: Seq<char>)
    requires
        w.len() > 0,
        forall|i: int| 0 <= i < w.len() ==> !text::white(#[trigger] w[i]),
        text::white(c),
    ensures
        quoted_command(w) == "\""@ + escaped(w) + "\""@,
        text::words(rest).len() > 0 ==> quoted_command(w + seq![c] + rest) == "\""@ + escaped(w)
            + "\""@ + " "@ + quoted_command(rest),
        quoted_command(seq![c] + rest) == quoted_command(rest),
{
    let quote = |x: Seq<char>| quoted(x);
    let nothing = Seq::<Seq<char>>::empty();
    text::law_words(c, w, rest);
    assert(seq![w].map_values(quote) =~= seq![quoted(w)]);
    text::law_joining(quoted(w), nothing, " "@);
    let more = text::words(rest).map_values(quote);
    assert((seq![w] + text::words(rest)).map_values(quote) =~= seq![quoted(w)] + more);
    text::law_joining(quoted(w), more, " "@);
}

/// A listing is read by the first word of every line, blank lines aside.
pub proof fn law_listing_is_read_line_by_line(l: Seq<char>, rest: Seq<char>, name: Seq<char>)
    requires
        forall|i: int| 0 <= i < l.len() ==> #[trigger] l[i] != '\n',
        l.len() == 0 || l.last() != '\r',
    ensures
        line_heads(l + seq!['\n'] + rest).contains(name) <==> (text::words(l).len() > 0
            && text::words(l)[0] == name) || line_heads(rest).contains(name),
        !line_heads(Seq::empty()).contains(name),
{
    text::law_lines(l, rest);
    let none = Seq::<char>::empty();
    text::law_lines(none, none);
    let all = text::lines(l + seq!['\n'] + rest);
    let more = text::lines(rest);
    assert(all[0] == l);
    assert forall|i: int| 0 <= i < more.len() implies all[i + 1] == #[trigger] more[i] by {}
    if heads_a_line(rest, name) {
        let i = choose|i: int|
            0 <= i < text::lines(rest).len() && text::words(#[trigger] text::lines(rest)[i]).len()
                > 0 && text::words(text::lines(rest)[i])[0] == name;
        assert(all[i + 1] == more[i]);
    }
    if heads_a_line(l + seq!['\n'] + rest, name) {
        let i = choose|i: int|
            0 <= i < all.len() && text::words(#[trigger] all[i]).len() > 0 && text::words(all[i])[0]
                == name;
        if i > 0 {
            assert(all[i] == more[i - 1]);
        }
    }
}

/// A resource limit that is set stands in the unit with its value, on a line of
/// its own, in this order; without any there is not even a heading.
pub proof fn law_limits_are_written(l: ResourceLimits)
    ensures
        ({
            let line = |key: Seq<char>, value: Option<&'static str>|
                match value {
                    Some(v) => key + v@ + "\n"@,
                    None => Seq::<char>::empty(),
                };
            let none = l.memory_high is None && l.memory_max is None && l.tasks_max is None
                && l.cpu_quota is None && l.limit_nofile is None && l.oom_score_adjust is None;
            limits_text(l) == (if none {
                Seq::<char>::empty()
            } else {
                "# -- Resource Limits --\n"@
            }) + line("MemoryHigh="@, l.memory_high) + line("MemoryMax="@, l.memory_max) + line(
                "TasksMax="@,
                l.tasks_max,
            ) + line("CPUQuota="@, l.cpu_quota) + (match l.limit_nofile {
                Some(n) => "LimitNOFILE="@ + text::decimal(n as nat) + "\n"@,
                None => Seq::<char>::empty(),
            }) + (match l.oom_score_adjust {
                Some(n) => "OOMScoreAdjust="@ + text::signed_decimal(n as int) + "\n"@,
                None => Seq::<char>::empty(),
            })
        }),
{
}

/// A variable's name keeps its letters, digits and underscores, in order, and
/// loses everything else.
pub proof fn law_variable_names(k: Seq<char>, c: char)
    ensures
        env_name(Seq::empty()).len() == 0,
        env_name(k.push(c)) == if c == '_'
            || "abcdefghijklmnopqrstuvwxyzABCDEFGHIJKLMNOPQRSTUVWXYZ0123456789"@.contains(c) {
            env_name(k).push(c)
        } else {
            env_name(k)
        },
{
    reveal(Seq::filter);
    text::law_letters_and_digits(c);
    assert(k.push(c).drop_last() =~= k);
    assert(env_name(Seq::empty()) =~= Seq::<char>::empty());
}

proof fn lemma_env_push(env: Seq<(String, String)>, v: (String, String), n: int)
    requires
        0 <= n <= env.len(),
    ensures
        env_text(env.push(v), n) == env_text(env, n),
    decreases n,
{
    if n > 0 {
        lemma_env_push(env, v, n - 1);
        assert(env.push(v)[n - 1] == env[n - 1]);
    }
}

/// Every variable has a line of its own, in their order, with its value escaped.
pub proof fn law_every_variable_is_written(env: Seq<(String, String)>, v: (String, String))
    ensures
        env_text(env.push(v), env.len() as int + 1) == env_text(env, env.len() as int) + (
        "Environment=\""@ + env_name(v.0@) + "="@ + escaped(v.1@) + "\" \n"@),
        env_text(Seq::empty(), 0).len() == 0,
{
    lemma_env_push(env, v, env.len() as int);
    assert(env.push(v)[env.len() as int] == v);
}

/// The places that hold secrets, below the home directory and beyond it, are kept
/// from a service.
pub proof fn law_secret_roots_are_covered(home: Seq<char>, uid: Option<u32>, k: int)
    ensures
        ({
            let names = seq![
                ".ssh"@,
                ".config"@,
                ".gnupg"@,
                ".netrc"@,
                ".aws"@,
                ".cache"@,
                ".local/state/demo-ghostprovider"@,
                ".Xauthority"@,
                ".git-credentials"@,
                ".npmrc"@,
                ".pypirc"@,
                ".docker"@,
                ".kube"@,
            ];
            let all = secret_root_paths(home, uid);
            &&& 0 <= k < names.len() ==> all.contains(paths::joined_path(home, names[k]))
            &&& uid matches Some(u) ==> all.contains("/run/user/"@ + text::decimal(u as nat))
            &&& all.contains("/tmp/.X11-unix"@)
            &&& all.contains("/run/dbus/system_bus_socket"@)
            &&& all.len() == names.len() + (if uid is Some {
                3int
            } else {
                2
            })
        }),
{
    let all = secret_root_paths(home, uid);
    if 0 <= k < 13 {
        assert(all[k] == paths::joined_path(home, secret_root_names()[k]));
    }
    assert(all[all.len() - 2] == "/tmp/.X11-unix"@);
    assert(all[all.len() - 1] == "/run/dbus/system_bus_socket"@);
    if let Some(u) = uid {
        assert(all[13] == "/run/user/"@ + text::decimal(u as nat));
    }
}

/// Every path that is kept from a service is named, escaped, in their order.
pub proof fn law_every_path_is_named(p: Seq<char>, more: Seq<Seq<char>>)
    ensures
        inaccessible_text(Seq::empty()).len() == 0,
        inaccessible_text(seq![p]) == escaped(p),
        more.len() > 0 ==> inaccessible_text(seq![p] + more) == escaped(p) + " "@
            + inaccessible_text(more),
{
    let escape = |x: Seq<char>| escaped(x);
    assert(Seq::<Seq<char>>::empty().map_values(escape) =~= Seq::<Seq<char>>::empty());
    assert(seq![p].map_values(escape) =~= seq![escaped(p)]);
    assert((seq![p] + more).map_values(escape) =~= seq![escaped(p)] + more.map_values(escape));
    text::law_joining(escaped(p), more.map_values(escape), " "@);
    text::law_joining(escaped(p), Seq::empty(), " "@);
}

/// The variables with ambient credentials are all taken from a service, and each
/// is named once; nothing but them and what else is to be scrubbed is taken.
pub proof fn law_credentials_are_unset(scrubbed: Seq<Seq<char>>, k: int, name: Seq<char>)
    ensures
        ({
            let known = seq![
                "OPENCHAMBER_AGENT_TOOL_TOKEN"@,
                "OPENCHAMBER_TOKEN"@,
                "OPENCHAMBER_SESSION_ID"@,
                "OPENCODE_SERVER_PASSWORD"@,
                "OPENCODE_TOKEN"@,
                "OPENCODE_AUTH_TOKEN"@,
                "AWS_ACCESS_KEY_ID"@,
                "AWS_SECRET_ACCESS_KEY"@,
                "AWS_SESSION_TOKEN"@,
                "AWS_PROFILE"@,
                "GOOGLE_APPLICATION_CREDENTIALS"@,
                "AZURE_CLIENT_ID"@,
                "AZURE_CLIENT_SECRET"@,
                "AZURE_TENANT_ID"@,
                "DATABASE_URL"@,
                "MYSQL_PWD"@,
                "PGPASSWORD"@,
                "REDIS_URL"@,
                "REDIS_PASSWORD"@,
            ];
            &&& 0 <= k < known.len() ==> unset_names(scrubbed).contains(known[k])
            &&& unset_names(scrubbed).contains(name) <==> scrubbed.contains(name) || known.contains(
                name,
            )
            &&& unset_names(scrubbed).no_duplicates()
        }),
{
    let known = credential_names();
    if 0 <= k < known.len() {
        assert(known.contains(known[k]));
        law_unset_covers(scrubbed, known[k]);
    }
    if scrubbed.contains(name) || known.contains(name) {
        law_unset_covers(scrubbed, name);
    }
    lemma_without_repeats(scrubbed + known, name);
    if (scrubbed + known).contains(name) {
        let i = choose|i: int| 0 <= i < (scrubbed + known).len() && (scrubbed + known)[i] == name;
        if i < scrubbed.len() {
            assert(scrubbed[i] == name);
        } else {
            assert(known[i - scrubbed.len()] == name);
        }
    }
}

proof fn lemma_without_repeats(s: Seq<Seq<char>>, name: Seq<char>)
    ensures
        without_repeats(s).no_duplicates(),
        without_repeats(s).contains(name) ==> s.contains(name),
    decreases s.len(),
{
    if s.len() > 0 {
        let t = s.drop_last();
        lemma_without_repeats(t, name);
        let d = without_repeats(s);
        let before = without_repeats(t);
        if d.contains(name) {
            let k = choose|k: int| 0 <= k < d.len() && d[k] == name;
            if k < before.len() {
                assert(before[k] == name);
                assert(t.contains(name));
                let i = choose|i: int| 0 <= i < t.len() && t[i] == name;
                assert(s[i] == name);
            } else {
                assert(s[s.len() - 1] == name);
            }
        }
    }
}

/// Pieces of text, one after the other.
spec fn together(pieces: Seq<Seq<char>>) -> Seq<char>
    decreases pieces.len(),
{
    if pieces.len() == 0 {
        Seq::empty()
    } else {
        together(pieces.drop_last()) + pieces.last()
    }
}

proof fn lemma_together(pieces: Seq<Seq<char>>, k: int)
    requires
        0 <= k < pieces.len(),
    ensures
        together(pieces) == together(pieces.take(k)) + pieces[k] + together(pieces.skip(k + 1)),
    decreases pieces.len(),
{
    let n = pieces.len() - 1;
    if k == n {
        assert(pieces.take(k) =~= pieces.drop_last());
        assert(pieces.skip(k + 1) =~= Seq::<Seq<char>>::empty());
        assert(together(pieces) =~= together(pieces.take(k)) + pieces[k] + together(
            pieces.skip(k + 1),
        ));
    } else {
        let front = pieces.drop_last();
        lemma_together(front, k);
        assert(front.take(k) =~= pieces.take(k));
        assert(pieces.skip(k + 1).drop_last() =~= front.skip(k + 1));
        assert(together(pieces) =~= together(pieces.take(k)) + pieces[k] + together(
            pieces.skip(k + 1),
        ));
    }
}

/// A piece stands in the whole with what comes before and after it.
proof fn lemma_span(pieces: Seq<Seq<char>>, k: int, before: Seq<char>, after: Seq<char>)
    requires
        0 < k < pieces.len() - 1,
        text::ends(pieces[k - 1], before),
        text::begins(pieces[k + 1], after),
    ensures
        text::holds(together(pieces), before + pieces[k] + after),
{
    lemma_together(pieces, k);
    let a = pieces.take(k);
    let b = pieces.skip(k + 1);
    assert(a.last() == pieces[k - 1]);
    lemma_together(b, 0);
    assert(b.take(0) =~= Seq::<Seq<char>>::empty());
    assert(b[0] == pieces[k + 1]);
    text::law_parts(pieces[k - 1], pieces[k - 1], pieces[k - 1], before);
    text::law_parts(pieces[k + 1], pieces[k + 1], pieces[k + 1], after);
    let x = together(a.drop_last()) + pieces[k - 1].take(pieces[k - 1].len() - before.len());
    let y = pieces[k + 1].skip(after.len() as int) + together(b.skip(1));
    let p = before + pieces[k] + after;
    assert(together(a) =~= x + before);
    assert(together(b) =~= after + y);
    assert(together(pieces) =~= x + p + y);
    text::law_parts(p, x, y, p);
}

proof fn lemma_piece(pieces: Seq<Seq<char>>, k: int)
    requires
        0 <= k < pieces.len(),
    ensures
        text::holds(together(pieces), pieces[k]),
{
    lemma_together(pieces, k);
    let p = pieces[k];
    text::law_parts(p, together(pieces.take(k)), together(pieces.skip(k + 1)), p);
}

spec fn unit_pieces(
    spec: UnitSpec,
    present: Seq<Seq<char>>,
    scrubbed: Seq<Seq<char>>,
) -> Seq<Seq<char>> {
    let working = escaped(spec.working_dir@);
    seq![
        "[Unit]\nDescription="@,
        escaped(unit_description(spec)),
        "\nAfter=network.target\n\n[Service]\nType=simple\nWorkingDirectory="@,
        working,
        "\nExecStart="@,
        quoted_command(spec.exec_start@),
        "\nRestart=always\nRestartSec=5\n"@,
        env_text(spec.extra_env@, spec.extra_env@.len() as int),
        env_file_text(
            match spec.env_file {
                Some(p) => Some(p@),
                None => None,
            },
        ),
        "\n# A service must never inherit ambient CI credentials (GITHUB_TOKEN,\n              # GH_TOKEN, package-manager tokens, openchamber/opencode session\n              # secrets) or ambient session endpoints (SSH agent, D-Bus, X11)\n              # via the manager environment. systemd rejects globs here, so\n              # the known names are enumerated explicitly (see\n              # runtime_unset_environment()).\nUnsetEnvironment="@,
        text::joined(unset_names(scrubbed), " "@),
        "\n# -- Privacy & Security Hardening --\nNoNewPrivileges=yes\nProtectHome=read-only\nProtectSystem=full\nReadWritePaths=\""@,
        working,
        "\"\nEnvironment=\"HOME="@,
        working,
        "/.ghost-cache/home\"\nEnvironment=\"XDG_CACHE_HOME="@,
        working,
        "/.ghost-cache\"\nEnvironment=\"XDG_RUNTIME_DIR="@,
        working,
        "/.ghost-cache/runtime\"\nInaccessiblePaths="@,
        inaccessible_text(present),
        "\nProtectKernelTunables=yes\nProtectKernelModules=yes\nProtectControlGroups=yes\nProtectClock=yes\nProtectHostname=yes\nProtectKernelLogs=yes\nPrivateIPC=yes\nRestrictNamespaces=yes\nLockPersonality=yes\nRestrictRealtime=yes\nRestrictSUIDSGID=yes\nProtectProc=invisible\nPrivateDevices=yes\nProcSubset=pid\nRestrictAddressFamilies=AF_UNIX AF_INET AF_INET6\nCapabilityBoundingSet=\nUMask=0077\nSystemCallFilter=~@mount @swap @reboot @cpu-emulation @obsolete @module @raw-io @clock @debug\n"@,
        limits_text(spec.res),
        ip_filter(),
        "[Install]\nWantedBy=default.target\n"@,
    ]
}

proof fn lemma_unit_pieces(spec: UnitSpec, present: Seq<Seq<char>>, scrubbed: Seq<Seq<char>>)
    ensures
        together(unit_pieces(spec, present, scrubbed)) == unit_text(spec, present, scrubbed),
{
    let p = unit_pieces(spec, present, scrubbed);
    assert(together(p.take(0)) =~= Seq::<char>::empty());
    lemma_together_step(p, 1);
    assert(together(p.take(1)) =~= p[0]);
    lemma_together_step(p, 2);
    lemma_together_step(p, 3);
    lemma_together_step(p, 4);
    lemma_together_step(p, 5);
    lemma_together_step(p, 6);
    lemma_together_step(p, 7);
    lemma_together_step(p, 8);
    lemma_together_step(p, 9);
    lemma_together_step(p, 10);
    lemma_together_step(p, 11);
    lemma_together_step(p, 12);
    lemma_together_step(p, 13);
    lemma_together_step(p, 14);
    lemma_together_step(p, 15);
    lemma_together_step(p, 16);
    lemma_together_step(p, 17);
    lemma_together_step(p, 18);
    lemma_together_step(p, 19);
    lemma_together_step(p, 20);
    lemma_together_step(p, 21);
    lemma_together_step(p, 22);
    lemma_together_step(p, 23);
    lemma_together_step(p, 24);
    lemma_together_step(p, 25);
    assert(p.take(25) =~= p);
}

proof fn lemma_together_step(p: Seq<Seq<char>>, n: int)
    requires
        0 < n <= p.len(),
    ensures
        together(p.take(n)) == together(p.take(n - 1)) + p[n - 1],
{
    assert(p.take(n).drop_last() =~= p.take(n - 1));
}

/// A unit says what it was made for: its description, where it works, what it
/// runs, and that it is started again whenever it ends.
pub proof fn law_unit_says_what_it_runs(
    spec: UnitSpec,
    present: Seq<Seq<char>>,
    scrubbed: Seq<Seq<char>>,
)
    ensures
        ({
            let unit = unit_text(spec, present, scrubbed);
            &&& text::holds(
                unit,
                "\nDescription="@ + escaped(
                    if spec.description@.len() == 0 {
                        sanitized(spec.service_name@)
                    } else {
                        spec.description@
                    },
                ) + "\n"@,
            )
            &&& text::holds(unit, "\nWorkingDirectory="@ + escaped(spec.working_dir@) + "\n"@)
            &&& text::holds(unit, "\nExecStart="@ + quoted_command(spec.exec_start@) + "\n"@)
            &&& text::holds(unit, "\nRestart=always\nRestartSec=5\n"@)
            &&& text::holds(unit, env_text(spec.extra_env@, spec.extra_env@.len() as int))
            &&& spec.env_file matches Some(f) ==> text::holds(
                unit,
                "EnvironmentFile="@ + escaped(f@) + "\n"@,
            )
            &&& text::holds(unit, limits_text(spec.res))
            &&& text::ends(unit, "[Install]\nWantedBy=default.target\n"@)
        }),
{
    let p = unit_pieces(spec, present, scrubbed);
    lemma_unit_pieces(spec, present, scrubbed);
    assert(text::ends(p[0], "\nDescription="@)) by {
        reveal_strlit("[Unit]\nDescription=");
        reveal_strlit("\nDescription=");
        let s = "[Unit]\nDescription="@;
        let e = "\nDescription="@;
        assert(s.subrange(s.len() - e.len(), s.len() as int) =~= e);
    }
    assert(text::begins(p[2], "\n"@) && text::ends(p[2], "\nWorkingDirectory="@)) by {
        reveal_strlit("\nAfter=network.target\n\n[Service]\nType=simple\nWorkingDirectory=");
        reveal_strlit("\nWorkingDirectory=");
        reveal_strlit("\n");
        let s = "\nAfter=network.target\n\n[Service]\nType=simple\nWorkingDirectory="@;
        let e = "\nWorkingDirectory="@;
        assert(s.subrange(s.len() - e.len(), s.len() as int) =~= e);
        assert(s.subrange(0, 1) =~= "\n"@);
    }
    assert(text::begins(p[4], "\n"@) && text::ends(p[4], "\nExecStart="@)) by {
        reveal_strlit("\nExecStart=");
        reveal_strlit("\n");
        let s = "\nExecStart="@;
        assert(s.subrange(0, s.len() as int) =~= s);
        assert(s.subrange(0, 1) =~= "\n"@);
    }
    assert(text::begins(p[6], "\n"@)) by {
        reveal_strlit("\nRestart=always\nRestartSec=5\n");
        reveal_strlit("\n");
        assert("\nRestart=always\nRestartSec=5\n"@.subrange(0, 1) =~= "\n"@);
    }
    lemma_span(p, 1, "\nDescription="@, "\n"@);
    lemma_span(p, 3, "\nWorkingDirectory="@, "\n"@);
    lemma_span(p, 5, "\nExecStart="@, "\n"@);
    lemma_piece(p, 6);
    lemma_piece(p, 7);
    lemma_piece(p, 8);
    lemma_piece(p, 22);
    let tail = "[Install]\nWantedBy=default.target\n"@;
    let unit = unit_text(spec, present, scrubbed);
    assert(unit.subrange(unit.len() - tail.len(), unit.len() as int) =~= tail);
}

/// A unit may write only where it works, lives there, and sees neither the
/// secrets around it nor the credentials of its surroundings.
pub proof fn law_unit_is_confined(
    spec: UnitSpec,
    present: Seq<Seq<char>>,
    scrubbed: Seq<Seq<char>>,
)
    ensures
        ({
            let unit = unit_text(spec, present, scrubbed);
            let working = escaped(spec.working_dir@);
            &&& text::holds(
                unit,
                "\nUnsetEnvironment="@ + text::joined(unset_names(scrubbed), " "@) + "\n"@,
            )
            &&& text::holds(unit, "\nReadWritePaths=\""@ + working + "\"\n"@)
            &&& text::holds(
                unit,
                "\nEnvironment=\"HOME="@ + working + "/.ghost-cache/home\"\n"@,
            )
            &&& text::holds(
                unit,
                "\nEnvironment=\"XDG_CACHE_HOME="@ + working + "/.ghost-cache\"\n"@,
            )
            &&& text::holds(
                unit,
                "\nEnvironment=\"XDG_RUNTIME_DIR="@ + working + "/.ghost-cache/runtime\"\n"@,
            )
            &&& text::holds(
                unit,
                "\nInaccessiblePaths="@ + inaccessible_text(present) + "\n"@,
            )
        }),
{
    let p = unit_pieces(spec, present, scrubbed);
    lemma_unit_pieces(spec, present, scrubbed);
    assert(text::ends(p[9], "\nUnsetEnvironment="@)) by {
        reveal_strlit(
            "\n# A service must never inherit ambient CI credentials (GITHUB_TOKEN,\n              # GH_TOKEN, package-manager tokens, openchamber/opencode session\n              # secrets) or ambient session endpoints (SSH agent, D-Bus, X11)\n              # via the manager environment. systemd rejects globs here, so\n              # the known names are enumerated explicitly (see\n              # runtime_unset_environment()).\nUnsetEnvironment=",
        );
        reveal_strlit("\nUnsetEnvironment=");
        let s = p[9];
        let e = "\nUnsetEnvironment="@;
        assert(s.subrange(s.len() - e.len(), s.len() as int) =~= e);
    }
    assert(text::begins(p[11], "\n"@) && text::ends(p[11], "\nReadWritePaths=\""@)) by {
        reveal_strlit(
            "\n# -- Privacy & Security Hardening --\nNoNewPrivileges=yes\nProtectHome=read-only\nProtectSystem=full\nReadWritePaths=\"",
        );
        reveal_strlit("\nReadWritePaths=\"");
        reveal_strlit("\n");
        let s = p[11];
        let e = "\nReadWritePaths=\""@;
        assert(s.subrange(s.len() - e.len(), s.len() as int) =~= e);
        assert(s.subrange(0, 1) =~= "\n"@);
    }
    assert(text::begins(p[13], "\"\n"@) && text::ends(p[13], "\nEnvironment=\"HOME="@)) by {
        reveal_strlit("\"\nEnvironment=\"HOME=");
        reveal_strlit("\nEnvironment=\"HOME=");
        reveal_strlit("\"\n");
        let s = p[13];
        let e = "\nEnvironment=\"HOME="@;
        assert(s.subrange(s.len() - e.len(), s.len() as int) =~= e);
        assert(s.subrange(0, 2) =~= "\"\n"@);
    }
    assert(text::begins(p[15], "/.ghost-cache/home\"\n"@) && text::ends(
        p[15],
        "\nEnvironment=\"XDG_CACHE_HOME="@,
    )) by {
        reveal_strlit("/.ghost-cache/home\"\nEnvironment=\"XDG_CACHE_HOME=");
        reveal_strlit("\nEnvironment=\"XDG_CACHE_HOME=");
        reveal_strlit("/.ghost-cache/home\"\n");
        let s = p[15];
        let e = "\nEnvironment=\"XDG_CACHE_HOME="@;
        let b = "/.ghost-cache/home\"\n"@;
        assert(s.subrange(s.len() - e.len(), s.len() as int) =~= e);
        assert(s.subrange(0, b.len() as int) =~= b);
    }
    assert(text::begins(p[17], "/.ghost-cache\"\n"@) && text::ends(
        p[17],
        "\nEnvironment=\"XDG_RUNTIME_DIR="@,
    )) by {
        reveal_strlit("/.ghost-cache\"\nEnvironment=\"XDG_RUNTIME_DIR=");
        reveal_strlit("\nEnvironment=\"XDG_RUNTIME_DIR=");
        reveal_strlit("/.ghost-cache\"\n");
        let s = p[17];
        let e = "\nEnvironment=\"XDG_RUNTIME_DIR="@;
        let b = "/.ghost-cache\"\n"@;
        assert(s.subrange(s.len() - e.len(), s.len() as int) =~= e);
        assert(s.subrange(0, b.len() as int) =~= b);
    }
    assert(text::begins(p[19], "/.ghost-cache/runtime\"\n"@) && text::ends(
        p[19],
        "\nInaccessiblePaths="@,
    )) by {
        reveal_strlit("/.ghost-cache/runtime\"\nInaccessiblePaths=");
        reveal_strlit("\nInaccessiblePaths=");
        reveal_strlit("/.ghost-cache/runtime\"\n");
        let s = p[19];
        let e = "\nInaccessiblePaths="@;
        let b = "/.ghost-cache/runtime\"\n"@;
        assert(s.subrange(s.len() - e.len(), s.len() as int) =~= e);
        assert(s.subrange(0, b.len() as int) =~= b);
    }
    assert(text::begins(p[21], "\n"@)) by {
        reveal_strlit(
            "\nProtectKernelTunables=yes\nProtectKernelModules=yes\nProtectControlGroups=yes\nProtectClock=yes\nProtectHostname=yes\nProtectKernelLogs=yes\nPrivateIPC=yes\nRestrictNamespaces=yes\nLockPersonality=yes\nRestrictRealtime=yes\nRestrictSUIDSGID=yes\nProtectProc=invisible\nPrivateDevices=yes\nProcSubset=pid\nRestrictAddressFamilies=AF_UNIX AF_INET AF_INET6\nCapabilityBoundingSet=\nUMask=0077\nSystemCallFilter=~@mount @swap @reboot @cpu-emulation @obsolete @module @raw-io @clock @debug\n",
        );
        reveal_strlit("\n");
        assert(p[21].subrange(0, 1) =~= "\n"@);
    }
    lemma_span(p, 10, "\nUnsetEnvironment="@, "\n"@);
    lemma_span(p, 12, "\nReadWritePaths=\""@, "\"\n"@);
    lemma_span(p, 14, "\nEnvironment=\"HOME="@, "/.ghost-cache/home\"\n"@);
    lemma_span(p, 16, "\nEnvironment=\"XDG_CACHE_HOME="@, "/.ghost-cache\"\n"@);
    lemma_span(p, 18, "\nEnvironment=\"XDG_RUNTIME_DIR="@, "/.ghost-cache/runtime\"\n"@);
    lemma_span(p, 20, "\nInaccessiblePaths="@, "\n"@);
}

/// Every unit carries the whole of the kernel, namespace, device and system call
/// hardening, and is denied every address but loopback.
pub proof fn law_unit_carries_all_hardening(
    spec: UnitSpec,
    present: Seq<Seq<char>>,
    scrubbed: Seq<Seq<char>>,
)
    ensures
        text::holds(
            unit_text(spec, present, scrubbed),
            "\nProtectKernelTunables=yes\nProtectKernelModules=yes\nProtectControlGroups=yes\nProtectClock=yes\nProtectHostname=yes\nProtectKernelLogs=yes\nPrivateIPC=yes\nRestrictNamespaces=yes\nLockPersonality=yes\nRestrictRealtime=yes\nRestrictSUIDSGID=yes\nProtectProc=invisible\nPrivateDevices=yes\nProcSubset=pid\nRestrictAddressFamilies=AF_UNIX AF_INET AF_INET6\nCapabilityBoundingSet=\nUMask=0077\nSystemCallFilter=~@mount @swap @reboot @cpu-emulation @obsolete @module @raw-io @clock @debug\n"@,
        ),
        text::holds(
            unit_text(spec, present, scrubbed),
            "IPAddressDeny=any\nIPAddressAllow=127.0.0.1 ::1\n"@,
        ),
{
    lemma_unit_pieces(spec, present, scrubbed);
    lemma_piece(unit_pieces(spec, present, scrubbed), 21);
    lemma_piece(unit_pieces(spec, present, scrubbed), 23);
}

/// The file of a unit lies in the units' directory, under the service's name.
pub proof fn law_unit_file_is_named_after_the_service(unit_dir: Seq<char>, service: Seq<char>)
    requires
        unit_dir.len() > 0,
        service.len() > 0,
        service[0] != '/',
    ensures
        unit_file_path(unit_dir, service) == if unit_dir.last() == '/' {
            unit_dir + service + ".service"@
        } else {
            unit_dir + "/"@ + service + ".service"@
        },
{
    reveal_strlit("/");
    assert("/"@ =~= seq!['/']);
    assert(unit_dir + (service + ".service"@) =~= unit_dir + service + ".service"@);
    assert(unit_dir + seq!['/'] + (service + ".service"@) =~= unit_dir + "/"@ + service
        + ".service"@);
}

/// A start is judged by the state that systemd reports: an active service is up
/// at once; a failed or inactive one is given up after a second and a half, any
/// other after half a minute; without an answer systemd is unavailable.
pub proof fn law_start_is_judged_by_its_state(s: Seq<char>, at_verdict: int, at_deadline: int)
    ensures
        poll_verdict(None, at_verdict, at_deadline) == Some(StartOutcome::SystemdUnavailable),
        poll_verdict(Some(s), at_verdict, at_deadline) == Some(StartOutcome::Active) <==> s
            == "active"@,
        poll_verdict(Some(s), at_verdict, at_deadline) == Some(StartOutcome::Failed) <==> s
            != "active"@ && (s == "failed"@ || s == "inactive"@) && at_verdict >= 1_500,
        poll_verdict(Some(s), at_verdict, at_deadline) is None <==> s != "active"@ && !((s
            == "failed"@ || s == "inactive"@) && at_verdict >= 1_500) && at_deadline < 30_000,
{
}

} // verus!
