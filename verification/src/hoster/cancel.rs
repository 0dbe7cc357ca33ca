//! Cooperative shutdown for an in-flight deploy.
//!
//! The panel's clean-removal promise is that an interrupted deploy leaves
//! nothing behind. When the interruption is a *graceful* exit the removal must
//! happen *before the process dies*: a worker that is still running can
//! re-create artifacts in the window between the cleanup and process death.
//!
//! The deploy pipeline runs inside this process, so every writer it owns is a
//! *descendant* of this process. Setting [`request_exit`] makes the pipeline
//! stop starting new steps (it polls [`is_exiting`] between phases); killing
//! the descendant tree tears down whatever is mid-flight. The wipe that
//! follows is then final.

use vstd::prelude::*;

use crate::text;

verus! {

/// Whether this process has begun to exit.
#[derive(Debug, Clone, Copy, PartialEq, Eq, Structural)]
pub struct Shutdown {
    pub exiting: bool,
}

impl Shutdown {
    /// A process that is not exiting.
    pub fn new() -> (r: Self)
        ensures
            !r.exiting,
    {
        Shutdown { exiting: false }
    }
}

/// Whether a graceful exit is in progress.
pub fn is_exiting(s: &Shutdown) -> (r: bool)
    ensures
        r == s.exiting,
{
    s.exiting
}

/// Mark that the process is exiting and any in-flight deploy must wind down.
pub fn request_exit(s: &mut Shutdown)
    ensures
        final(s).exiting,
{
    s.exiting = true;
}

// ---------------------------------------------------------------------------
// The process tree
// ---------------------------------------------------------------------------

/// One process: its pid, and the pid of its parent.
#[derive(Debug, Clone, Copy, PartialEq, Eq, Structural)]
pub struct Process {
    pub pid: u32,
    pub parent: u32,
}

/// No pid is listed twice.
pub open spec fn distinct_pids(table: Seq<Process>) -> bool {
    forall|i: int, j: int|
        0 <= i < j < table.len() ==> (#[trigger] table[i]).pid != (#[trigger] table[j]).pid
}

/// Is `child` listed as a child of `parent`?
pub open spec fn child_of(table: Seq<Process>, child: u32, parent: u32) -> bool {
    table.contains(Process { pid: child, parent })
}

/// Does the parent chain of `p` reach `root` in `steps` steps?
pub open spec fn reaches(table: Seq<Process>, p: u32, root: u32, steps: nat) -> bool
    decreases steps,
{
    if steps == 0 {
        p == root
    } else {
        exists|parent: u32| #[trigger] child_of(table, p, parent) && reaches(
            table,
            parent,
            root,
            (steps - 1) as nat,
        )
    }
}

/// Does the parent chain of `p` lead back to `root`?
pub open spec fn descends(table: Seq<Process>, p: u32, root: u32) -> bool {
    exists|steps: nat| steps > 0 && #[trigger] reaches(table, p, root, steps)
}

/// Each process in `order` comes before its parent.
pub open spec fn children_first(table: Seq<Process>, order: Seq<u32>) -> bool {
    forall|i: int, j: int|
        0 <= i < order.len() && 0 <= j < order.len() && child_of(
            table,
            #[trigger] order[i],
            #[trigger] order[j],
        ) ==> i < j
}

proof fn lemma_child_descends(table: Seq<Process>, child: u32, parent: u32, root: u32)
    requires
        child_of(table, child, parent),
        parent == root || descends(table, parent, root),
    ensures
        descends(table, child, root),
{
    if parent == root {
        assert(reaches(table, parent, root, 0));
        assert(reaches(table, child, root, 1));
    } else {
        let n = choose|n: nat| n > 0 && #[trigger] reaches(table, parent, root, n);
        assert(reaches(table, child, root, n + 1));
    }
}

/// A set of processes that holds the children of its members and of the root
/// holds every descendant.
proof fn lemma_closed_holds_descendants(
    table: Seq<Process>,
    found: Seq<u32>,
    root: u32,
    p: u32,
    steps: nat,
)
    requires
        forall|c: u32, q: u32|
            #![trigger child_of(table, c, q)]
            child_of(table, c, q) && (q == root || found.contains(q)) && c != root
                ==> found.contains(c),
        steps > 0,
        reaches(table, p, root, steps),
        p != root,
    ensures
        found.contains(p),
    decreases steps,
{
    let parent = choose|parent: u32| #[trigger]
        child_of(table, p, parent) && reaches(table, parent, root, (steps - 1) as nat);
    if parent != root {
        lemma_closed_holds_descendants(table, found, root, parent, (steps - 1) as nat);
    }
}

fn seen(v: &Vec<u32>, x: u32) -> (r: bool)
    ensures
        r == v@.contains(x),
{
    let mut i: usize = 0;
    while i < v.len()
        invariant
            i <= v@.len(),
            forall|k: int| 0 <= k < i ==> v@[k] != x,
        decreases v@.len() - i,
    {
        if v[i] == x {
            return true;
        }
        i = i + 1;
    }
    false
}

/// The parent of the `k`-th discovered process is the root, or was discovered
/// earlier.
spec fn parent_earlier(table: Seq<Process>, found: Seq<u32>, root: u32, k: int) -> bool {
    exists|q: u32| #[trigger]
        child_of(table, found[k], q) && (q == root || found.take(k).contains(q))
}

spec fn parents_earlier(table: Seq<Process>, found: Seq<u32>, root: u32) -> bool {
    forall|k: int| 0 <= k < found.len() ==> #[trigger] parent_earlier(table, found, root, k)
}

proof fn lemma_found_is_bounded(table: Seq<Process>, found: Seq<u32>, root: u32)
    requires
        found.no_duplicates(),
        parents_earlier(table, found, root),
    ensures
        found.len() <= table.len(),
{
    let listed = table.map_values(|p: Process| p.pid).to_set();
    assert forall|x: u32| found.to_set().contains(x) implies listed.contains(x) by {
        let k = choose|k: int| 0 <= k < found.len() && found[k] == x;
        assert(parent_earlier(table, found, root, k));
        let q = choose|q: u32| child_of(table, found[k], q);
        let row = Process { pid: x, parent: q };
        let i = choose|i: int| 0 <= i < table.len() && table[i] == row;
        assert(table.map_values(|p: Process| p.pid)[i] == x);
    }
    found.unique_seq_to_set();
    table.map_values(|p: Process| p.pid).lemma_cardinality_of_set();
    vstd::set_lib::lemma_len_subset(found.to_set(), listed);
}

/// The processes to `SIGKILL`, in order: every descendant of `root` (this
/// process), deepest-first, from a snapshot of the process table.
///
/// Only processes whose parent chain leads back to `root` are named, and the
/// root itself never is. This is what lets a host clone/build step be stopped
/// *now* instead of surviving as a reparented orphan that keeps writing into a
/// tree the exit path is about to remove.
pub fn kill_descendants(root: u32, table: &Vec<Process>) -> (r: Vec<u32>)
    requires
        distinct_pids(table@),
    ensures
        r@.no_duplicates(),
        forall|p: u32| #[trigger]
            r@.contains(p) <==> p != root && descends(table@, p, root),
        children_first(table@, r@),
{
    let ghost t = table@;
    let mut stack: Vec<u32> = Vec::new();
    stack.push(root);
    let mut found: Vec<u32> = Vec::new();
    assert(stack@[0] == root);
    while stack.len() > 0
        invariant
            t == table@,
            distinct_pids(t),
            found@.no_duplicates(),
            !found@.contains(root),
            forall|k: int| 0 <= k < found@.len() ==> descends(t, #[trigger] found@[k], root),
            parents_earlier(t, found@, root),
            forall|k: int|
                0 <= k < stack@.len() ==> #[trigger] stack@[k] == root || found@.contains(stack@[k]),
            forall|c: u32, q: u32|
                #![trigger child_of(t, c, q)]
                child_of(t, c, q) && (q == root || found@.contains(q)) && c != root
                    && !stack@.contains(q) ==> found@.contains(c),
            found@.len() <= t.len(),
        decreases t.len() - found@.len(), stack@.len(),
    {
        let ghost stack0 = stack@;
        let ghost found0 = found@;
        let top: usize = stack.len() - 1;
        let pid = stack[top];
        stack.pop();
        assert(stack0[stack0.len() - 1] == pid);
        assert forall|q: u32| stack0.contains(q) && q != pid implies stack@.contains(q) by {
            let k = choose|k: int| 0 <= k < stack0.len() && stack0[k] == q;
            assert(stack@[k] == q);
        }
        assert forall|k: int| 0 <= k < stack@.len() implies #[trigger] stack@[k] == root
            || found@.contains(stack@[k]) by {
            assert(stack0[k] == stack@[k]);
        }
        let mut i: usize = 0;
        while i < table.len()
            invariant
                i <= t.len(),
                t == table@,
                distinct_pids(t),
                pid == root || found0.contains(pid),
                pid == root || descends(t, pid, root),
                found@.no_duplicates(),
                !found@.contains(root),
                found0.len() <= found@.len(),
                found@.take(found0.len() as int) == found0,
                found@.len() > found0.len() || stack@ == stack0.drop_last(),
                stack0.len() > 0,
                stack0.last() == pid,
                forall|k: int| 0 <= k < found@.len() ==> descends(t, #[trigger] found@[k], root),
                parents_earlier(t, found@, root),
                forall|k: int|
                    0 <= k < stack@.len() ==> #[trigger] stack@[k] == root || found@.contains(
                        stack@[k],
                    ),
                forall|q: u32| stack0.contains(q) && q != pid ==> stack@.contains(q),
                forall|q: u32|
                    found@.contains(q) && !found0.contains(q) ==> #[trigger] stack@.contains(q),
                forall|c: u32, q: u32|
                    #![trigger child_of(t, c, q)]
                    child_of(t, c, q) && (q == root || found0.contains(q)) && c != root
                        && !stack0.contains(q) ==> found@.contains(c),
                forall|k: int|
                    0 <= k < i && (#[trigger] t[k]).parent == pid && t[k].pid != root
                        ==> found@.contains(t[k].pid),
                found@.len() <= t.len(),
            decreases t.len() - i,
        {
            let row = table[i];
            if row.parent == pid && row.pid != root && !seen(&found, row.pid) {
                let ghost before = found@;
                let ghost stack1 = stack@;
                found.push(row.pid);
                stack.push(row.pid);
                proof {
                    assert(t[i as int] == (Process { pid: row.pid, parent: pid }));
                    assert(child_of(t, row.pid, pid));
                    lemma_child_descends(t, row.pid, pid, root);
                    assert(found@[found@.len() - 1] == row.pid);
                    assert(found@.take(found0.len() as int) =~= found0);
                    assert forall|q: u32| before.contains(q) implies found@.contains(q) by {
                        let k = choose|k: int| 0 <= k < before.len() && before[k] == q;
                        assert(found@[k] == q);
                    }
                    assert forall|q: u32| found@.contains(q) implies q == row.pid || before.contains(
                        q,
                    ) by {
                        let k = choose|k: int| 0 <= k < found@.len() && found@[k] == q;
                        if k < before.len() {
                            assert(before[k] == q);
                        }
                    }
                    assert forall|q: u32| stack1.contains(q) implies stack@.contains(q) by {
                        let k = choose|k: int| 0 <= k < stack1.len() && stack1[k] == q;
                        assert(stack@[k] == q);
                    }
                    assert(stack@[stack@.len() - 1] == row.pid);
                    assert forall|q: u32|
                        found@.contains(q) && !found0.contains(q) implies #[trigger] stack@.contains(
                        q,
                    ) by {
                        if q != row.pid {
                            assert(stack1.contains(q));
                        }
                    }
                    assert forall|k: int| 0 <= k < found@.len() implies #[trigger] parent_earlier(
                        t,
                        found@,
                        root,
                        k,
                    ) by {
                        if k < before.len() {
                            assert(parent_earlier(t, before, root, k));
                            assert(found@.take(k) =~= before.take(k));
                            assert(before[k] == found@[k]);
                        } else {
                            assert(found@.take(k) =~= before);
                            if pid != root {
                                let j = choose|j: int| 0 <= j < found0.len() && found0[j] == pid;
                                assert(before.take(found0.len() as int)[j] == before[j]);
                                assert(before[j] == pid);
                            }
                            assert(child_of(t, found@[k], pid));
                        }
                    }
                    assert forall|k: int| 0 <= k < stack@.len() implies #[trigger] stack@[k] == root
                        || found@.contains(stack@[k]) by {
                        if k < stack1.len() {
                            assert(stack1[k] == stack@[k]);
                        }
                    }
                    lemma_found_is_bounded(t, found@, root);
                }
            } else {
                proof {
                    if row.parent == pid && row.pid != root {
                        assert(found@.contains(row.pid));
                    }
                }
            }
            i = i + 1;
        }
        proof {
            assert forall|c: u32, q: u32|
                #![trigger child_of(t, c, q)]
                child_of(t, c, q) && (q == root || found@.contains(q)) && c != root
                    && !stack@.contains(q) implies found@.contains(c) by {
                if q == pid {
                    let k = choose|k: int|
                        0 <= k < t.len() && t[k] == (Process { pid: c, parent: q });
                    assert(t[k].parent == pid);
                } else if q == root || found0.contains(q) {
                    assert(!stack0.contains(q));
                } else {
                    assert(stack@.contains(q));
                }
            }
        }
    }
    let ghost all = found@;
    let mut out: Vec<u32> = Vec::new();
    let mut i: usize = found.len();
    while i > 0
        invariant
            i <= all.len(),
            found@ == all,
            out@.len() == all.len() - i,
            forall|k: int| 0 <= k < out@.len() ==> out@[k] == all[all.len() - 1 - k],
        decreases i,
    {
        i = i - 1;
        out.push(found[i]);
    }
    proof {
        assert forall|p: u32| #[trigger] out@.contains(p) <==> all.contains(p) by {
            if out@.contains(p) {
                let k = choose|k: int| 0 <= k < out@.len() && out@[k] == p;
                assert(all[all.len() - 1 - k] == p);
            }
            if all.contains(p) {
                let k = choose|k: int| 0 <= k < all.len() && all[k] == p;
                assert(out@[all.len() - 1 - k] == p);
            }
        }
        assert forall|p: u32| #[trigger] out@.contains(p) <==> p != root && descends(
            t,
            p,
            root,
        ) by {
            if all.contains(p) {
                let k = choose|k: int| 0 <= k < all.len() && all[k] == p;
                assert(descends(t, all[k], root));
            }
            if p != root && descends(t, p, root) {
                let n = choose|n: nat| n > 0 && #[trigger] reaches(t, p, root, n);
                lemma_closed_holds_descendants(t, all, root, p, n);
            }
        }
        assert forall|i: int, j: int|
            0 <= i < out@.len() && 0 <= j < out@.len() && child_of(
                t,
                #[trigger] out@[i],
                #[trigger] out@[j],
            ) implies i < j by {
            let a = all.len() - 1 - i;
            let b = all.len() - 1 - j;
            assert(parent_earlier(t, all, root, a));
            let q = choose|q: u32| #[trigger]
                child_of(t, all[a], q) && (q == root || all.take(a).contains(q));
            let r1 = Process { pid: all[a], parent: q };
            let r2 = Process { pid: all[a], parent: all[b] };
            let k1 = choose|k: int| 0 <= k < t.len() && t[k] == r1;
            let k2 = choose|k: int| 0 <= k < t.len() && t[k] == r2;
            assert(t[k1].pid == t[k2].pid);
            assert(k1 == k2);
            assert(q == all[b]);
            assert(all.contains(all[b]));
            let m = choose|m: int| 0 <= m < all.take(a).len() && all.take(a)[m] == q;
            assert(all[m] == all[b]);
            assert(m == b);
        }
    }
    out
}

/// How many of the kills succeeded: those that returned zero. A process that
/// vanished mid-kill is simply not counted.
pub open spec fn succeeded(rcs: Seq<i32>) -> nat {
    rcs.filter(|rc: i32| rc == 0).len()
}

pub fn count_killed(rcs: &Vec<i32>) -> (r: usize)
    ensures
        r == succeeded(rcs@),
{
    let ghost ok = |rc: i32| rc == 0;
    let mut n: usize = 0;
    let mut i: usize = 0;
    proof {
        reveal(Seq::filter);
    }
    while i < rcs.len()
        invariant
            i <= rcs@.len(),
            n <= i,
            ok == (|rc: i32| rc == 0),
            n == rcs@.take(i as int).filter(ok).len(),
        decreases rcs@.len() - i,
    {
        proof {
            reveal(Seq::filter);
            assert(rcs@.take(i + 1).drop_last() =~= rcs@.take(i as int));
        }
        if rcs[i] == 0 {
            n = n + 1;
        }
        i = i + 1;
    }
    assert(rcs@.take(i as int) =~= rcs@);
    n
}

/// The parent pid that a `/proc/<pid>/stat` line names: the second word after
/// its last closing parenthesis.
pub open spec fn stat_parent(stat: Seq<char>) -> Option<nat> {
    match text::split_last(stat, ')') {
        Some((_, rest)) => if text::words(rest).len() > 1 {
            text::parsed(text::words(rest)[1], u32::MAX as nat)
        } else {
            None
        },
        None => None,
    }
}

/// Extract the parent pid from a `/proc/<pid>/stat` line. `comm` is wrapped in
/// parentheses and may itself contain spaces and parentheses, so split after
/// the *final* `)`; the next token is the state, the one after is `ppid`.
pub fn parse_ppid(stat: &str) -> (r: Option<u32>)
    ensures
        match r {
            Some(p) => stat_parent(stat@) == Some(p as nat),
            None => stat_parent(stat@) is None,
        },
{
    match text::rsplit_once(stat, ')') {
        Some(pair) => {
            let words = text::words_of(pair.1.as_str());
            assert(text::texts(words@).len() == words@.len());
            if words.len() > 1 {
                assert(text::texts(words@)[1] == words@[1]@);
                match text::parse_uint(words[1].as_str(), u32::MAX as u64) {
                    Some(n) => Some(n as u32),
                    None => None,
                }
            } else {
                None
            }
        },
        None => None,
    }
}

/// A process descends from another where that is its parent, or where its parent
/// descends from it.
pub proof fn law_descent_goes_from_child_to_parent(table: Seq<Process>, p: u32, root: u32)
    ensures
        descends(table, p, root) <==> table.contains(Process { pid: p, parent: root }) || exists|
            q: u32,
        | table.contains(Process { pid: p, parent: q }) && #[trigger] descends(table, q, root),
{
    if descends(table, p, root) {
        let steps = choose|steps: nat| steps > 0 && #[trigger] reaches(table, p, root, steps);
        let q = choose|q: u32| #[trigger]
            child_of(table, p, q) && reaches(table, q, root, (steps - 1) as nat);
        if steps > 1 {
            assert(reaches(table, q, root, (steps - 1) as nat));
            assert(descends(table, q, root));
        }
    }
    if table.contains(Process { pid: p, parent: root }) {
        assert(child_of(table, p, root));
        lemma_child_descends(table, p, root, root);
    }
    if exists|q: u32|
        table.contains(Process { pid: p, parent: q }) && #[trigger] descends(table, q, root) {
        let q = choose|q: u32|
            table.contains(Process { pid: p, parent: q }) && #[trigger] descends(table, q, root);
        assert(child_of(table, p, q));
        lemma_child_descends(table, p, q, root);
    }
}

/// The parent of a process is the second word behind its name, which may itself
/// hold spaces and brackets.
pub proof fn law_parent_stands_behind_the_name(
    front: Seq<char>,
    state: Seq<char>,
    parent: u32,
    rest: Seq<char>,
)
    requires
        state.len() > 0,
        forall|i: int|
            0 <= i < state.len() ==> !text::white(#[trigger] state[i]) && state[i] != ')',
        forall|i: int| 0 <= i < rest.len() ==> #[trigger] rest[i] != ')',
    ensures
        stat_parent(
            front + seq![')'] + (seq![' '] + state + seq![' '] + text::decimal(parent as nat)
                + seq![' '] + rest),
        ) == Some(parent as nat),
{
    let d = text::decimal(parent as nat);
    let tail = seq![' '] + state + seq![' '] + d + seq![' '] + rest;
    text::lemma_decimal_all_digits(parent as nat);
    text::lemma_decimal_parsed(parent as nat, u32::MAX as nat);
    assert forall|i: int| 0 <= i < d.len() implies #[trigger] d[i] != ')' && !text::white(
        d[i],
    ) by {
        assert(text::digit(d[i]));
    }
    assert forall|i: int| 0 <= i < tail.len() implies #[trigger] tail[i] != ')' by {
        if i == 0 {
        } else if i <= state.len() {
            assert(tail[i] == state[i - 1]);
        } else if i == state.len() + 1 {
        } else if i < state.len() + 2 + d.len() {
            assert(tail[i] == d[i - state.len() - 2]);
        } else if i > state.len() + 2 + d.len() {
            assert(tail[i] == rest[i - state.len() - 3 - d.len()]);
        }
    }
    text::law_split_around_the_last(front, tail, ')');
    let second = d + seq![' '] + rest;
    let first = state + seq![' '] + second;
    text::law_words(' ', d, rest);
    text::law_words(' ', state, second);
    text::law_words(' ', state, first);
    assert(tail =~= seq![' '] + first);
    assert(text::words(tail) == seq![state] + (seq![d] + text::words(rest)));
    assert(text::words(tail)[1] == d);
}

/// Every signal that was sent with success counts.
pub proof fn law_successes_are_counted(rcs: Seq<i32>, rc: i32)
    ensures
        succeeded(Seq::empty()) == 0,
        succeeded(rcs.push(rc)) == succeeded(rcs) + (if rc == 0 {
            1nat
        } else {
            0nat
        }),
{
    reveal(Seq::filter);
    assert(rcs.push(rc).drop_last() =~= rcs);
}

} // verus!
