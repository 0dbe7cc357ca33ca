//! XDG-based filesystem layout.
//!
//! All paths live under the user's home; nothing is written outside
//! `$XDG_DATA_HOME`, `$XDG_STATE_HOME` and `$XDG_CONFIG_HOME`. A path is the
//! text it is written with.

use vstd::prelude::*;

use crate::text;

verus! {

/// The environment variables that place the panel's files.
pub struct Env {
    pub home: Option<String>,
    pub xdg_data_home: Option<String>,
    pub xdg_state_home: Option<String>,
    pub xdg_config_home: Option<String>,
}

/// `rel` below `base`: an absolute `rel` replaces the base.
pub open spec fn joined_path(base: Seq<char>, rel: Seq<char>) -> Seq<char> {
    if (rel.len() > 0 && rel[0] == '/') || base.len() == 0 {
        rel
    } else if base.last() == '/' {
        base + rel
    } else {
        base + seq!['/'] + rel
    }
}

pub fn join(base: &str, rel: &str) -> (r: String)
    ensures
        r@ == joined_path(base@, rel@),
{
    let b = text::chars_of(base);
    let c = text::chars_of(rel);
    if (c.len() > 0 && c[0] == '/') || b.len() == 0 {
        rel.to_owned()
    } else {
        let mut out = base.to_owned();
        if b[b.len() - 1] != '/' {
            out.push('/');
        }
        assert(base@ + seq!['/'] =~= base@.push('/'));
        out.append(rel);
        out
    }
}

/// The directory a variable names, or `rel` below the home directory.
pub open spec fn xdg_dir(var: Option<String>, home: Option<String>, rel: Seq<char>) -> Seq<char> {
    match var {
        Some(dir) => dir@,
        None => joined_path(home.unwrap()@, rel),
    }
}

fn dir_or_home(var: &Option<String>, home: &Option<String>, rel: &str) -> (r: String)
    requires
        *var is Some || *home is Some,
    ensures
        r@ == xdg_dir(*var, *home, rel@),
{
    match var {
        Some(dir) => dir.clone(),
        None => match home {
            Some(h) => join(h.as_str(), rel),
            None => String::new(),
        },
    }
}

impl Env {
    /// Root of user data files.
    pub open spec fn data_home(self) -> Seq<char> {
        xdg_dir(self.xdg_data_home, self.home, ".local/share"@)
    }

    /// Root of user state files.
    pub open spec fn state_home(self) -> Seq<char> {
        xdg_dir(self.xdg_state_home, self.home, ".local/state"@)
    }

    /// Root of user configuration files.
    pub open spec fn config_home(self) -> Seq<char> {
        xdg_dir(self.xdg_config_home, self.home, ".config"@)
    }

    /// Can the data directory be placed?
    pub open spec fn has_data(self) -> bool {
        self.xdg_data_home is Some || self.home is Some
    }

    /// Can the state directory be placed?
    pub open spec fn has_state(self) -> bool {
        self.xdg_state_home is Some || self.home is Some
    }

    /// Can the configuration directory be placed?
    pub open spec fn has_config(self) -> bool {
        self.xdg_config_home is Some || self.home is Some
    }
}

fn data_home(env: &Env) -> (r: String)
    requires
        env.has_data(),
    ensures
        r@ == env.data_home(),
{
    dir_or_home(&env.xdg_data_home, &env.home, ".local/share")
}

fn state_home(env: &Env) -> (r: String)
    requires
        env.has_state(),
    ensures
        r@ == env.state_home(),
{
    dir_or_home(&env.xdg_state_home, &env.home, ".local/state")
}

/// The user's home directory.
pub fn home(env: &Env) -> (r: String)
    requires
        env.home is Some,
    ensures
        r@ == env.home.unwrap()@,
{
    match &env.home {
        Some(h) => h.clone(),
        None => String::new(),
    }
}

/// Root for deployed service clones: ~/.local/share/demo-ghostprovider/services
pub fn services_dir(env: &Env) -> (r: String)
    requires
        env.has_data(),
    ensures
        r@ == joined_path(env.data_home(), "demo-ghostprovider/services"@),
{
    join(data_home(env).as_str(), "demo-ghostprovider/services")
}

/// Registry of deployed services: ~/.local/state/demo-ghostprovider/state.json
pub fn state_file(env: &Env) -> (r: String)
    requires
        env.has_state(),
    ensures
        r@ == joined_path(env.state_home(), "demo-ghostprovider/state.json"@),
{
    join(state_home(env).as_str(), "demo-ghostprovider/state.json")
}

/// Local network contact log (transparency): net.log lives next to state.
pub fn netlog_file(env: &Env) -> (r: String)
    requires
        env.has_state(),
    ensures
        r@ == joined_path(env.state_home(), "demo-ghostprovider/net.log"@),
{
    join(state_home(env).as_str(), "demo-ghostprovider/net.log")
}

/// Shared deploy log streamed to every window's Logs screen.
pub fn deploy_log_file(env: &Env) -> (r: String)
    requires
        env.has_state(),
    ensures
        r@ == joined_path(env.state_home(), "demo-ghostprovider/deploy.log"@),
{
    join(state_home(env).as_str(), "demo-ghostprovider/deploy.log")
}

/// Persistent history of deploy interruptions and full clean removals: the
/// "Crash" screen in Logs.
pub fn crash_log_file(env: &Env) -> (r: String)
    requires
        env.has_state(),
    ensures
        r@ == joined_path(env.state_home(), "demo-ghostprovider/crash.log"@),
{
    join(state_home(env).as_str(), "demo-ghostprovider/crash.log")
}

/// In-flight deploy journal: records a deploy that started but has not
/// finished, so that an interruption can be reconciled into a clean removal on
/// the next launch.
pub fn deploy_journal_file(env: &Env) -> (r: String)
    requires
        env.has_state(),
    ensures
        r@ == joined_path(env.state_home(), "demo-ghostprovider/deploy-journal.json"@),
{
    join(state_home(env).as_str(), "demo-ghostprovider/deploy-journal.json")
}

/// Cross-process deploy lock: held for the whole lifetime of a journaled
/// deploy, free as soon as the deploying process dies.
pub fn deploy_lock_file(env: &Env) -> (r: String)
    requires
        env.has_state(),
    ensures
        r@ == joined_path(env.state_home(), "demo-ghostprovider/deploy.lock"@),
{
    join(state_home(env).as_str(), "demo-ghostprovider/deploy.lock")
}

/// systemd user unit directory.
pub fn user_unit_dir(env: &Env) -> (r: String)
    requires
        env.has_config(),
    ensures
        r@ == joined_path(env.config_home(), "systemd/user"@),
{
    let cfg = dir_or_home(&env.xdg_config_home, &env.home, ".config");
    join(cfg.as_str(), "systemd/user")
}

/// A relative path joined to a directory lies below it.
proof fn lemma_joined_below(base: Seq<char>, rel: Seq<char>)
    requires
        rel.len() > 0,
        rel[0] != '/',
    ensures
        text::begins(joined_path(base, rel), base),
{
    assert(joined_path(base, rel).subrange(0, base.len() as int) =~= base);
}

/// Nothing is placed outside the three roots: every path begins with the root
/// it belongs to.
pub proof fn law_paths_stay_below_their_roots(env: Env)
    ensures
        text::begins(joined_path(env.data_home(), "demo-ghostprovider/services"@), env.data_home()),
        text::begins(
            joined_path(env.state_home(), "demo-ghostprovider/state.json"@),
            env.state_home(),
        ),
        text::begins(
            joined_path(env.state_home(), "demo-ghostprovider/net.log"@),
            env.state_home(),
        ),
        text::begins(
            joined_path(env.state_home(), "demo-ghostprovider/deploy.log"@),
            env.state_home(),
        ),
        text::begins(
            joined_path(env.state_home(), "demo-ghostprovider/crash.log"@),
            env.state_home(),
        ),
        text::begins(
            joined_path(env.state_home(), "demo-ghostprovider/deploy-journal.json"@),
            env.state_home(),
        ),
        text::begins(
            joined_path(env.state_home(), "demo-ghostprovider/deploy.lock"@),
            env.state_home(),
        ),
        text::begins(joined_path(env.config_home(), "systemd/user"@), env.config_home()),
{
    reveal_strlit("demo-ghostprovider/services");
    reveal_strlit("demo-ghostprovider/state.json");
    reveal_strlit("demo-ghostprovider/net.log");
    reveal_strlit("demo-ghostprovider/deploy.log");
    reveal_strlit("demo-ghostprovider/crash.log");
    reveal_strlit("demo-ghostprovider/deploy-journal.json");
    reveal_strlit("demo-ghostprovider/deploy.lock");
    reveal_strlit("systemd/user");
    lemma_joined_below(env.data_home(), "demo-ghostprovider/services"@);
    lemma_joined_below(env.state_home(), "demo-ghostprovider/state.json"@);
    lemma_joined_below(env.state_home(), "demo-ghostprovider/net.log"@);
    lemma_joined_below(env.state_home(), "demo-ghostprovider/deploy.log"@);
    lemma_joined_below(env.state_home(), "demo-ghostprovider/crash.log"@);
    lemma_joined_below(env.state_home(), "demo-ghostprovider/deploy-journal.json"@);
    lemma_joined_below(env.state_home(), "demo-ghostprovider/deploy.lock"@);
    lemma_joined_below(env.config_home(), "systemd/user"@);
}

// ---------------------------------------------------------------------------
// Components
// ---------------------------------------------------------------------------

/// Does a path start at the root?
pub open spec fn rooted(p: Seq<char>) -> bool {
    p.len() > 0 && p[0] == '/'
}

/// Does the `i`-th piece between slashes count as a component? Empty pieces
/// and `.` do not, but for a `.` that a relative path begins with.
pub open spec fn counts(p: Seq<char>, pieces: Seq<Seq<char>>, i: int) -> bool {
    pieces[i].len() > 0 && (pieces[i] != seq!['.'] || (i == 0 && !rooted(p)))
}

/// The components among the first `n` pieces.
pub open spec fn components_upto(p: Seq<char>, pieces: Seq<Seq<char>>, n: int) -> Seq<Seq<char>>
    decreases n,
{
    if n <= 0 {
        Seq::empty()
    } else if counts(p, pieces, n - 1) {
        components_upto(p, pieces, n - 1).push(pieces[n - 1])
    } else {
        components_upto(p, pieces, n - 1)
    }
}

/// The components of a path.
pub open spec fn components(p: Seq<char>) -> Seq<Seq<char>> {
    let pieces = text::split(p, '/');
    components_upto(p, pieces, pieces.len() as int)
}

/// Is `dir` an entry directly inside `base`? The parent of a directory, written
/// `..`, is no entry of it.
pub open spec fn child_of(dir: Seq<char>, base: Seq<char>) -> bool {
    &&& components(dir).len() > 0
    &&& components(dir).last() != seq!['.', '.']
    &&& rooted(dir) == rooted(base)
    &&& components(dir).drop_last() == components(base)
}

fn is_rooted(p: &str) -> (r: bool)
    ensures
        r == rooted(p@),
{
    let v = text::chars_of(p);
    v.len() > 0 && v[0] == '/'
}

fn components_of(p: &str) -> (r: Vec<String>)
    ensures
        text::texts(r@) == components(p@),
{
    let pieces = text::split_at_char(p, '/');
    let absolute = is_rooted(p);
    let ghost all = text::split(p@, '/');
    assert(text::texts(pieces@).len() == pieces@.len());
    let mut out: Vec<String> = Vec::new();
    assert(text::texts(out@) =~= Seq::<Seq<char>>::empty());
    let mut i: usize = 0;
    while i < pieces.len()
        invariant
            i <= pieces@.len(),
            all == text::texts(pieces@),
            absolute == rooted(p@),
            text::texts(out@) == components_upto(p@, all, i as int),
        decreases pieces@.len() - i,
    {
        assert(all[i as int] == pieces@[i as int]@);
        proof {
            reveal_strlit(".");
            assert("."@ =~= seq!['.']);
        }
        if !pieces[i].as_str().is_empty() && (!text::same(pieces[i].as_str(), ".") || (i == 0
            && !absolute)) {
            let piece = pieces[i].clone();
            proof {
                text::lemma_texts_push(out@, piece);
            }
            out.push(piece);
        }
        i = i + 1;
    }
    out
}

fn same_list(a: &Vec<String>, b: &Vec<String>, n: usize) -> (r: bool)
    requires
        n <= a@.len(),
    ensures
        r == (text::texts(a@).take(n as int) == text::texts(b@)),
{
    if b.len() != n {
        assert(text::texts(b@).len() != n);
        return false;
    }
    let mut i: usize = 0;
    while i < n
        invariant
            i <= n <= a@.len(),
            n == b@.len(),
            forall|k: int| 0 <= k < i ==> a@[k]@ == b@[k]@,
        decreases n - i,
    {
        if !text::same(a[i].as_str(), b[i].as_str()) {
            assert(text::texts(a@).take(n as int)[i as int] != text::texts(b@)[i as int]);
            return false;
        }
        i = i + 1;
    }
    assert(text::texts(a@).take(n as int) =~= text::texts(b@));
    true
}

/// Is `dir` an entry directly inside `base`?
pub fn is_child(dir: &str, base: &str) -> (r: bool)
    ensures
        r == child_of(dir@, base@),
{
    let d = components_of(dir);
    let b = components_of(base);
    assert(text::texts(d@).len() == d@.len());
    if d.len() == 0 || is_rooted(dir) != is_rooted(base) {
        return false;
    }
    let n: usize = d.len() - 1;
    assert(text::texts(d@)[n as int] == d@[n as int]@);
    proof {
        reveal_strlit("..");
        assert(".."@ =~= seq!['.', '.']);
    }
    if text::same(d[n].as_str(), "..") {
        return false;
    }
    assert(components(dir@).take(n as int) =~= components(dir@).drop_last());
    same_list(&d, &b, n)
}

proof fn lemma_same_components(
    p: Seq<char>,
    q: Seq<char>,
    a: Seq<Seq<char>>,
    b: Seq<Seq<char>>,
    n: int,
)
    requires
        rooted(p) == rooted(q),
        0 <= n <= a.len(),
        n <= b.len(),
        forall|i: int| 0 <= i < n ==> a[i] == b[i],
    ensures
        components_upto(p, a, n) == components_upto(q, b, n),
    decreases n,
{
    if n > 0 {
        lemma_same_components(p, q, a, b, n - 1);
    }
}

/// A name joined to a directory is an entry directly inside it.
pub proof fn lemma_entry_is_child(base: Seq<char>, name: Seq<char>)
    requires
        base.len() > 0,
        name.len() > 0,
        name[0] != '.',
        forall|i: int| 0 <= i < name.len() ==> name[i] != '/',
    ensures
        child_of(joined_path(base, name), base),
{
    let p = joined_path(base, name);
    let front = if base.last() == '/' {
        base.drop_last()
    } else {
        base
    };
    assert(p =~= front.push('/') + name);
    text::lemma_split_pieces(front, name, '/');
    assert(text::split(name, '/') == seq![name]) by {
        let none = Seq::<char>::empty();
        text::lemma_split_plain(none, name, '/');
        assert(none + name =~= name);
        assert(text::split(name, '/') =~= seq![name]);
    }
    let pieces = text::split(p, '/');
    let fronts = text::split(front, '/');
    let bases = text::split(base, '/');
    let n = fronts.len() as int;
    assert(pieces =~= fronts.push(name));
    assert(rooted(p) == rooted(base));
    assert(counts(p, pieces, n));
    if base.last() == '/' {
        assert(bases =~= fronts.push(Seq::<char>::empty()));
        assert(!counts(base, bases, n));
    }
    lemma_same_components(p, base, pieces, bases, n);
    assert(components(p) == components_upto(p, pieces, n).push(name));
    assert(components(p).last()[0] != seq!['.', '.'][0]);
    assert(components(p).drop_last() =~= components(base));
}

/// No `..` behind a directory leads out of it: the path is no entry.
pub proof fn law_parent_is_no_child(base: Seq<char>)
    requires
        base.len() > 0,
    ensures
        !child_of(joined_path(base, seq!['.', '.']), base),
{
    let up = seq!['.', '.'];
    let p = joined_path(base, up);
    let front = if base.last() == '/' {
        base.drop_last()
    } else {
        base
    };
    assert(p =~= front.push('/') + up);
    text::lemma_split_pieces(front, up, '/');
    assert(text::split(up, '/') == seq![up]) by {
        let none = Seq::<char>::empty();
        text::lemma_split_plain(none, up, '/');
        assert(none + up =~= up);
        assert(text::split(up, '/') =~= seq![up]);
    }
    let pieces = text::split(p, '/');
    let n = text::split(front, '/').len() as int;
    assert(pieces =~= text::split(front, '/').push(up));
    assert(pieces[n].len() == 2);
    assert(seq!['.'].len() == 1);
    assert(counts(p, pieces, n));
    assert(components(p) == components_upto(p, pieces, n).push(up));
}

/// A path below a directory has the directory, one slash, and the rest; an
/// absolute path is below nothing.
pub proof fn law_joining_paths(base: Seq<char>, rel: Seq<char>)
    requires
        base.len() > 0,
        base.last() != '/',
        rel.len() > 0,
        rel[0] != '/',
    ensures
        joined_path(base, rel) == base + seq!['/'] + rel,
        joined_path(base + seq!['/'], rel) == base + seq!['/'] + rel,
        joined_path(base, seq!['/'] + rel) == seq!['/'] + rel,
{
}

/// A directory of the user's is the one that its variable names, and else lies at
/// its usual place below the home directory.
pub proof fn law_user_directories(env: Env)
    ensures
        env.xdg_data_home matches Some(d) ==> env.data_home() == d@,
        env.xdg_state_home matches Some(d) ==> env.state_home() == d@,
        env.xdg_config_home matches Some(d) ==> env.config_home() == d@,
        env.xdg_data_home is None ==> env.data_home() == joined_path(
            env.home.unwrap()@,
            ".local/share"@,
        ),
        env.xdg_state_home is None ==> env.state_home() == joined_path(
            env.home.unwrap()@,
            ".local/state"@,
        ),
        env.xdg_config_home is None ==> env.config_home() == joined_path(
            env.home.unwrap()@,
            ".config"@,
        ),
{
}

proof fn lemma_components_step(base: Seq<char>, name: Seq<char>)
    requires
        base.len() > 0,
        forall|i: int| 0 <= i < name.len() ==> #[trigger] name[i] != '/',
    ensures
        components(base + seq!['/'] + name) == (if name.len() == 0 || name == seq!['.'] {
            components(base)
        } else {
            components(base).push(name)
        }),
        rooted(base + seq!['/'] + name) == rooted(base),
{
    let p = base + seq!['/'] + name;
    assert(p =~= base.push('/') + name);
    text::lemma_split_pieces(base, name, '/');
    let none = Seq::<char>::empty();
    text::lemma_split_plain(none, name, '/');
    assert(none + name =~= name);
    assert(text::split(none, '/') =~= seq![none]);
    assert(text::split(name, '/') =~= seq![name]);
    let pieces = text::split(p, '/');
    let bases = text::split(base, '/');
    let n = bases.len() as int;
    text::lemma_split_nonempty(base, '/');
    assert(pieces =~= bases.push(name));
    assert(p[0] == base[0]);
    lemma_same_components(p, base, pieces, bases, n);
}

/// A path is made of the names between its slashes; empty ones and single dots do
/// not count.
pub proof fn law_components(base: Seq<char>, name: Seq<char>)
    requires
        base.len() > 0,
        name.len() > 0,
        name != seq!['.'],
        forall|i: int| 0 <= i < name.len() ==> #[trigger] name[i] != '/',
    ensures
        components(base + seq!['/'] + name) == components(base).push(name),
        components(base + seq!['/']) == components(base),
        components(base + seq!['/', '.']) == components(base),
        components(seq!['/']).len() == 0,
{
    let none = Seq::<char>::empty();
    lemma_components_step(base, name);
    lemma_components_step(base, none);
    lemma_components_step(base, seq!['.']);
    assert(base + seq!['/'] + none =~= base + seq!['/']);
    assert(base + seq!['/'] + seq!['.'] =~= base + seq!['/', '.']);
    let root = seq!['/'];
    text::lemma_split_pieces(none, none, '/');
    assert(none.push('/') + none =~= root);
    assert(text::split(none, '/') =~= seq![none]);
    assert(text::split(root, '/') =~= seq![none, none]);
    reveal_with_fuel(components_upto, 3);
    assert(components(root) =~= Seq::<Seq<char>>::empty());
}

/// Only what lies directly in a directory may be wiped from it: not the directory
/// itself, not what lies deeper, and not what lies beside it.
pub proof fn law_only_entries_are_children(
    base: Seq<char>,
    a: Seq<char>,
    b: Seq<char>,
    dir: Seq<char>,
)
    requires
        base.len() > 0,
        a.len() > 0,
        a != seq!['.'],
        forall|i: int| 0 <= i < a.len() ==> #[trigger] a[i] != '/',
        b.len() > 0,
        b != seq!['.'],
        forall|i: int| 0 <= i < b.len() ==> #[trigger] b[i] != '/',
    ensures
        !child_of(base, base),
        a != seq!['.', '.'] ==> child_of(base + seq!['/'] + a, base),
        !child_of(base + seq!['/'] + a + seq!['/'] + b, base),
        a != b && b != seq!['.', '.'] ==> !child_of(
            base + seq!['/'] + a + seq!['/'] + b,
            base + seq!['/'] + b,
        ),
        child_of(dir, base) ==> components(dir).len() == components(base).len() + 1 && components(
            base,
        ).is_prefix_of(components(dir)) && rooted(dir) == rooted(base),
{
    let x = base + seq!['/'] + a;
    lemma_components_step(base, a);
    lemma_components_step(base, b);
    lemma_components_step(x, b);
    assert(components(x).drop_last() =~= components(base));
    let deep = components(x + seq!['/'] + b);
    assert(deep.drop_last() =~= components(x));
    assert(deep.len() == components(base).len() + 2);
    if a != b {
        assert(components(x).last() == a);
        assert(components(base + seq!['/'] + b).last() == b);
    }
    if child_of(dir, base) {
        assert(components(base) =~= components(dir).subrange(0, components(base).len() as int));
    }
}

/// A path is absolute where it begins with a slash, and only there.
pub proof fn law_absolute_paths(c: char, rest: Seq<char>)
    ensures
        rooted(seq!['/'] + rest),
        c != '/' ==> !rooted(seq![c] + rest),
        !rooted(Seq::empty()),
{
    assert((seq!['/'] + rest)[0] == '/');
    assert((seq![c] + rest)[0] == c);
}

} // verus!
