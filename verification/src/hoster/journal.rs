//! Journal of in-flight deployments.
//!
//! A deploy writes an entry (`Deploying`) before it begins, advances it at the
//! registration step (`Registering`, then `Registered`), and the pipeline
//! removes the entry when the deploy finishes — successfully or after the
//! in-process rollback. An entry still present at the next launch therefore
//! means the previous run was interrupted out-of-band (user exited the panel,
//! the process was killed, or the machine shut down / rebooted), and the
//! orphaned artifacts must be removed. See
//! [`crate::hoster::deploy::reconcile_stale`].

use vstd::prelude::*;

use crate::text;

verus! {

/// Lifecycle of an in-flight deploy as seen by the journal.
#[derive(Debug, Clone, Copy, PartialEq, Eq, Structural)]
pub enum DeployState {
    /// Clone/build/start in progress; nothing is guaranteed to exist yet.
    Deploying,
    /// Unit created and starting; registration is imminent (or already
    /// happened). A service that is already registered is live and must not be
    /// cleaned up.
    Registering,
    /// The service was registered successfully.
    Registered,
}

#[derive(Debug)]
pub struct JournalEntry {
    pub url: String,
    pub state: DeployState,
    pub started_at: String,
}

/// What an entry says.
pub struct EntryText {
    pub url: Seq<char>,
    pub state: DeployState,
    pub started_at: Seq<char>,
}

impl View for JournalEntry {
    type V = EntryText;

    open spec fn view(&self) -> EntryText {
        EntryText { url: self.url@, state: self.state, started_at: self.started_at@ }
    }
}

impl Clone for JournalEntry {
    fn clone(&self) -> (r: Self)
        ensures
            r@ == self@,
    {
        JournalEntry {
            url: self.url.clone(),
            state: self.state,
            started_at: self.started_at.clone(),
        }
    }
}

/// The entries of all tracked services, in the order of their names, each
/// name once.
#[derive(Debug)]
pub struct Journal {
    entries: Vec<(String, JournalEntry)>,
}

/// The names and entries of a list.
pub open spec fn pairs(v: Seq<(String, JournalEntry)>) -> Seq<(Seq<char>, EntryText)> {
    v.map_values(|p: (String, JournalEntry)| (p.0@, p.1@))
}

/// The names of a list of pairs.
pub open spec fn names(p: Seq<(Seq<char>, EntryText)>) -> Seq<Seq<char>> {
    p.map_values(|q: (Seq<char>, EntryText)| q.0)
}

/// The position of a name in a list of pairs.
pub open spec fn index_of(p: Seq<(Seq<char>, EntryText)>, name: Seq<char>) -> int {
    choose|i: int| 0 <= i < p.len() && p[i].0 == name
}

/// The entries of a list of pairs, by name.
pub open spec fn by_name(p: Seq<(Seq<char>, EntryText)>) -> Map<Seq<char>, EntryText> {
    Map::new(|name: Seq<char>| names(p).contains(name), |name: Seq<char>| p[index_of(p, name)].1)
}

proof fn lemma_by_name(p: Seq<(Seq<char>, EntryText)>, i: int)
    requires
        text::ascending(names(p)),
        0 <= i < p.len(),
    ensures
        by_name(p).contains_key(p[i].0),
        by_name(p)[p[i].0] == p[i].1,
{
    assert(names(p)[i] == p[i].0);
    let j = index_of(p, p[i].0);
    assert(0 <= j < p.len() && p[j].0 == p[i].0);
    assert(names(p)[j] == p[j].0);
    text::lemma_before_irreflexive(p[i].0);
}

impl View for Journal {
    type V = Map<Seq<char>, EntryText>;

    closed spec fn view(&self) -> Map<Seq<char>, EntryText> {
        by_name(pairs(self.entries@))
    }
}

impl Journal {
    /// The names stand in rising order.
    pub closed spec fn wf(self) -> bool {
        text::ascending(names(pairs(self.entries@)))
    }

    /// The names and entries, in order.
    pub closed spec fn listing(self) -> Seq<(Seq<char>, EntryText)> {
        pairs(self.entries@)
    }

    /// A journal that tracks nothing.
    pub fn new() -> (r: Self)
        ensures
            r.wf(),
            r@ == Map::<Seq<char>, EntryText>::empty(),
    {
        let r = Journal { entries: Vec::new() };
        assert(r@ =~= Map::<Seq<char>, EntryText>::empty());
        r
    }

    /// Sets the entry of `service`.
    pub fn insert(&mut self, service: &str, entry: JournalEntry)
        requires
            old(self).wf(),
        ensures
            final(self).wf(),
            final(self)@ == old(self)@.insert(service@, entry@),
    {
        let ghost p = pairs(self.entries@);
        let i = self.position(service);
        if i < self.entries.len() && text::same(self.entries[i].0.as_str(), service) {
            let key = service.to_owned();
            self.entries.set(i, (key, entry));
            proof {
                let q = pairs(self.entries@);
                assert(q =~= p.update(i as int, (service@, entry@)));
                assert(names(q) =~= names(p));
                assert forall|k: Seq<char>| by_name(q).contains_key(k) implies by_name(q)[k]
                    == by_name(p).insert(service@, entry@)[k] by {
                    let j = choose|j: int| 0 <= j < names(q).len() && names(q)[j] == k;
                    lemma_by_name(q, j);
                    lemma_by_name(p, j);
                    if k == service@ {
                        text::lemma_before_irreflexive(k);
                        assert(names(q)[i as int] == k);
                        assert(j == i);
                    }
                }
                lemma_by_name(q, i as int);
                assert(by_name(q) =~= by_name(p).insert(service@, entry@));
            }
        } else {
            let key = service.to_owned();
            proof {
                let q = p.insert(i as int, (service@, entry@));
                lemma_inserted(p, i as int, service@, entry@);
                assert(pairs(self.entries@.insert(i as int, (key, entry))) =~= q);
            }
            self.entries.insert(i, (key, entry));
        }
    }

    /// The first position whose name does not come before `service`.
    fn position(&self, service: &str) -> (r: usize)
        requires
            self.wf(),
        ensures
            r <= self.entries@.len(),
            forall|k: int| 0 <= k < r ==> text::before(#[trigger] names(pairs(self.entries@))[k], service@),
            forall|k: int|
                r <= k < self.entries@.len() ==> (#[trigger] names(pairs(self.entries@))[k] == service@
                    && k == r) || text::before(service@, names(pairs(self.entries@))[k]),
    {
        let ghost ns = names(pairs(self.entries@));
        let mut i: usize = 0;
        while i < self.entries.len() && text::is_before(self.entries[i].0.as_str(), service)
            invariant
                i <= self.entries@.len(),
                ns == names(pairs(self.entries@)),
                forall|k: int| 0 <= k < i ==> text::before(#[trigger] ns[k], service@),
            decreases self.entries@.len() - i,
        {
            assert(ns[i as int] == self.entries@[i as int].0@);
            i = i + 1;
        }
        proof {
            if i < self.entries@.len() {
                assert(ns[i as int] == self.entries@[i as int].0@);
                text::lemma_before_total(ns[i as int], service@);
                assert forall|k: int| i < k < self.entries@.len() implies text::before(
                    service@,
                    #[trigger] ns[k],
                ) by {
                    if ns[i as int] != service@ {
                        text::lemma_before_transitive(service@, ns[i as int], ns[k]);
                    }
                }
            }
        }
        i
    }

    fn find(&self, service: &str) -> (r: Option<usize>)
        requires
            self.wf(),
        ensures
            match r {
                Some(i) => i < self.entries@.len() && names(pairs(self.entries@))[i as int]
                    == service@,
                None => !names(pairs(self.entries@)).contains(service@),
            },
    {
        let i = self.position(service);
        let ghost ns = names(pairs(self.entries@));
        if i < self.entries.len() && text::same(self.entries[i].0.as_str(), service) {
            return Some(i);
        }
        proof {
            text::lemma_before_irreflexive(service@);
            if ns.contains(service@) {
                let k = choose|k: int| 0 <= k < ns.len() && ns[k] == service@;
                assert(k == i);
                assert(ns[i as int] == self.entries@[i as int].0@);
            }
        }
        None
    }
}

proof fn lemma_inserted(p: Seq<(Seq<char>, EntryText)>, i: int, name: Seq<char>, e: EntryText)
    requires
        text::ascending(names(p)),
        0 <= i <= p.len(),
        forall|k: int| 0 <= k < i ==> text::before(#[trigger] names(p)[k], name),
        forall|k: int| i <= k < p.len() ==> text::before(name, #[trigger] names(p)[k]),
    ensures
        text::ascending(names(p.insert(i, (name, e)))),
        by_name(p.insert(i, (name, e))) == by_name(p).insert(name, e),
{
    let q = p.insert(i, (name, e));
    let np = names(p);
    let nq = names(q);
    assert(nq =~= np.insert(i, name));
    assert forall|a: int, b: int| 0 <= a < b < nq.len() implies text::before(
        #[trigger] nq[a],
        #[trigger] nq[b],
    ) by {
        if a < i && b > i {
            assert(text::before(np[a], np[b - 1]));
        } else if a == i {
            assert(text::before(name, np[b - 1]));
        } else if a > i {
            assert(text::before(np[a - 1], np[b - 1]));
        } else if b == i {
            assert(text::before(np[a], name));
        } else {
            assert(text::before(np[a], np[b]));
        }
    }
    let goal = by_name(p).insert(name, e);
    assert forall|k: Seq<char>| by_name(q).contains_key(k) <==> goal.contains_key(k) by {
        if np.contains(k) {
            let j = choose|j: int| 0 <= j < np.len() && np[j] == k;
            if j < i {
                assert(nq[j] == k);
            } else {
                assert(nq[j + 1] == k);
            }
        }
        if nq.contains(k) {
            let j = choose|j: int| 0 <= j < nq.len() && nq[j] == k;
            if j < i {
                assert(np[j] == k);
            } else if j > i {
                assert(np[j - 1] == k);
            }
        }
        assert(nq[i] == name);
    }
    assert forall|k: Seq<char>| by_name(q).contains_key(k) implies by_name(q)[k] == goal[k] by {
        let j = choose|j: int| 0 <= j < nq.len() && nq[j] == k;
        lemma_by_name(q, j);
        if j < i {
            lemma_by_name(p, j);
            assert(np[j] == k);
            text::lemma_before_irreflexive(k);
        } else if j > i {
            lemma_by_name(p, j - 1);
            assert(np[j - 1] == k);
            text::lemma_before_irreflexive(k);
        }
    }
    assert(by_name(q) =~= goal);
}

/// Record that a deploy for `service` (from `url`) is starting.
pub fn begin(journal: &mut Journal, service: &str, url: &str, started_at: &str)
    requires
        old(journal).wf(),
    ensures
        final(journal).wf(),
        final(journal)@ == old(journal)@.insert(
            service@,
            (EntryText { url: url@, state: DeployState::Deploying, started_at: started_at@ }),
        ),
{
    journal.insert(
        service,
        JournalEntry {
            url: url.to_owned(),
            state: DeployState::Deploying,
            started_at: started_at.to_owned(),
        },
    );
}

/// Advance an existing entry to `state`. Tells whether there was one: without
/// one nothing changes.
pub fn mark(journal: &mut Journal, service: &str, state: DeployState) -> (r: bool)
    requires
        old(journal).wf(),
    ensures
        final(journal).wf(),
        r == old(journal)@.contains_key(service@),
        final(journal)@ == (if r {
            old(journal)@.insert(service@, (EntryText { state, ..old(journal)@[service@] }))
        } else {
            old(journal)@
        }),
{
    match journal.find(service) {
        Some(i) => {
            proof {
                lemma_by_name(pairs(journal.entries@), i as int);
            }
            let e = &journal.entries[i].1;
            let next = JournalEntry {
                url: e.url.clone(),
                state,
                started_at: e.started_at.clone(),
            };
            journal.insert(service, next);
            true
        },
        None => false,
    }
}

/// Forget a service's entry (idempotent). Tells whether there was one.
pub fn clear(journal: &mut Journal, service: &str) -> (r: bool)
    requires
        old(journal).wf(),
    ensures
        final(journal).wf(),
        r == old(journal)@.contains_key(service@),
        final(journal)@ == old(journal)@.remove(service@),
{
    match journal.find(service) {
        Some(i) => {
            let ghost p = pairs(journal.entries@);
            let ghost np = names(p);
            let _gone = journal.entries.remove(i);
            proof {
                lemma_by_name(p, i as int);
                let q = pairs(journal.entries@);
                assert(q =~= p.remove(i as int));
                let nq = names(q);
                assert(nq =~= np.remove(i as int));
                assert forall|a: int, b: int| 0 <= a < b < nq.len() implies text::before(
                    #[trigger] nq[a],
                    #[trigger] nq[b],
                ) by {
                    let a2 = if a < i {
                        a
                    } else {
                        a + 1
                    };
                    let b2 = if b < i {
                        b
                    } else {
                        b + 1
                    };
                    assert(text::before(np[a2], np[b2]));
                }
                let goal = by_name(p).remove(service@);
                assert forall|k: Seq<char>| by_name(q).contains_key(k) <==> goal.contains_key(
                    k,
                ) by {
                    text::lemma_before_irreflexive(service@);
                    if nq.contains(k) {
                        let j = choose|j: int| 0 <= j < nq.len() && nq[j] == k;
                        if j < i {
                            assert(np[j] == k);
                        } else {
                            assert(np[j + 1] == k);
                        }
                    }
                    if np.contains(k) && k != service@ {
                        let j = choose|j: int| 0 <= j < np.len() && np[j] == k;
                        if j < i {
                            assert(nq[j] == k);
                        } else {
                            assert(nq[j - 1] == k);
                        }
                    }
                }
                assert forall|k: Seq<char>| by_name(q).contains_key(k) implies by_name(q)[k]
                    == goal[k] by {
                    let j = choose|j: int| 0 <= j < nq.len() && nq[j] == k;
                    lemma_by_name(q, j);
                    assert(q[j].0 == k);
                    assert(goal.contains_key(k));
                    if j < i {
                        lemma_by_name(p, j);
                        assert(p[j] == q[j]);
                    } else {
                        lemma_by_name(p, j + 1);
                        assert(p[j + 1] == q[j]);
                    }
                }
                assert(by_name(q) =~= goal);
            }
            true
        },
        None => {
            assert(journal@ =~= journal@.remove(service@));
            false
        },
    }
}

/// All tracked `(service, entry)` pairs, sorted by service.
pub fn entries(journal: &Journal) -> (r: Vec<(String, JournalEntry)>)
    requires
        journal.wf(),
    ensures
        pairs(r@) == journal.listing(),
        text::ascending(names(pairs(r@))),
        by_name(pairs(r@)) == journal@,
{
    let mut out: Vec<(String, JournalEntry)> = Vec::new();
    let ghost all = pairs(journal.entries@);
    let mut i: usize = 0;
    while i < journal.entries.len()
        invariant
            i <= journal.entries@.len(),
            all == pairs(journal.entries@),
            pairs(out@) == all.take(i as int),
        decreases journal.entries@.len() - i,
    {
        let e = &journal.entries[i];
        let copy = (e.0.clone(), e.1.clone());
        assert(pairs(out@.push(copy)) =~= pairs(out@).push((copy.0@, copy.1@)));
        assert(all[i as int] == (copy.0@, copy.1@));
        out.push(copy);
        assert(all.take(i + 1) =~= all.take(i as int).push(all[i as int]));
        i = i + 1;
    }
    assert(all.take(i as int) =~= all);
    out
}

/// The listing names each tracked service once, in order.
pub proof fn lemma_listing(journal: Journal)
    requires
        journal.wf(),
    ensures
        text::ascending(names(journal.listing())),
        by_name(journal.listing()) == journal@,
{
}

/// A sorted list of entries is determined by what it says of each service.
pub proof fn law_entries_are_determined(
    a: Seq<(Seq<char>, EntryText)>,
    b: Seq<(Seq<char>, EntryText)>,
)
    requires
        text::ascending(names(a)),
        text::ascending(names(b)),
        by_name(a) == by_name(b),
    ensures
        a == b,
{
    assert forall|k: Seq<char>| names(a).to_set().contains(k) <==> names(b).to_set().contains(
        k,
    ) by {
        assert(by_name(a).contains_key(k) == names(a).contains(k));
        assert(by_name(b).contains_key(k) == names(b).contains(k));
    }
    assert(names(a).to_set() =~= names(b).to_set());
    text::lemma_ascending_unique(names(a), names(b));
    assert(names(a).len() == a.len() && names(b).len() == b.len());
    assert forall|i: int| 0 <= i < a.len() implies a[i] == b[i] by {
        lemma_by_name(a, i);
        lemma_by_name(b, i);
        assert(names(a)[i] == a[i].0 && names(b)[i] == b[i].0);
    }
    assert(a =~= b);
}

/// Clearing what was begun leaves every other service as it was, and nothing
/// of this one.
pub proof fn law_begin_then_clear(
    m: Map<Seq<char>, EntryText>,
    service: Seq<char>,
    e: EntryText,
)
    ensures
        m.insert(service, e).remove(service) == m.remove(service),
        forall|other: Seq<char>|
            other != service && m.contains_key(other) ==> #[trigger] m.insert(service, e).remove(
                service,
            )[other] == m[other],
{
    assert(m.insert(service, e).remove(service) =~= m.remove(service));
}

} // verus!
