//! Following the shared deploy log and the journals of the services.

use vstd::prelude::*;

use crate::logfile;
use crate::text;
use crate::tui::workers;

verus! {

// ---------------------------------------------------------------------------
// The deploy log
// ---------------------------------------------------------------------------

/// What one look at the deploy log brought.
#[derive(Debug)]
pub struct TailStep {
    /// The log was removed or cut back.
    pub cleared: bool,
    /// The new lines.
    pub lines: Vec<String>,
    /// How far the log has been read.
    pub pos: usize,
}

/// Does a text hold an empty line?
pub open spec fn has_gap(t: Seq<char>) -> bool {
    text::holds(t, "\n\n"@)
}

/// The new lines worth showing: empty ones only where the text holds a gap.
pub open spec fn fresh_lines(t: Seq<char>) -> Seq<Seq<char>> {
    text::lines(t).filter(|l: Seq<char>| l.len() > 0 || has_gap(t))
}

/// The lines worth showing of what was added to the deploy log.
pub fn tail_lines(t: &str) -> (r: Vec<String>)
    ensures
        text::texts(r@) == fresh_lines(t@),
{
    let gap = text::contains(t, "\n\n");
    let rows = text::lines_of(t);
    let ghost all = text::lines(t@);
    let ghost keep = |l: Seq<char>| l.len() > 0 || has_gap(t@);
    assert(text::texts(rows@).len() == rows@.len());
    let mut out = text::no_texts();
    let mut i: usize = 0;
    proof {
        reveal(Seq::filter);
        assert(all.take(0).filter(keep) =~= Seq::<Seq<char>>::empty());
    }
    while i < rows.len()
        invariant
            i <= rows@.len(),
            all == text::texts(rows@),
            gap == has_gap(t@),
            keep == (|l: Seq<char>| l.len() > 0 || has_gap(t@)),
            text::texts(out@) == all.take(i as int).filter(keep),
        decreases rows@.len() - i,
    {
        proof {
            reveal(Seq::filter);
            assert(all.take(i + 1).drop_last() =~= all.take(i as int));
            assert(all[i as int] == rows@[i as int]@);
        }
        if gap || !rows[i].as_str().is_empty() {
            text::push_text(&mut out, rows[i].as_str());
        }
        i = i + 1;
    }
    assert(all.take(i as int) =~= all);
    out
}

/// Looks at the deploy log once more: `pos` is how far it was read, `content`
/// what it holds now (`None` where it cannot be read).
pub fn tail_step(pos: usize, content: &Option<Vec<u8>>) -> (r: TailStep)
    ensures
        match *content {
            None => {
                &&& r.cleared == (pos != 0)
                &&& r.lines@.len() == 0
                &&& r.pos == 0
            },
            Some(c) => {
                &&& r.cleared == (c@.len() < pos)
                &&& text::texts(r.lines@) == (if c@.len() > pos {
                    fresh_lines(logfile::lossy(c@.subrange(pos as int, c@.len() as int)))
                } else {
                    Seq::empty()
                })
                &&& r.pos == c@.len()
            },
        },
{
    match content {
        None => TailStep { cleared: pos != 0, lines: Vec::new(), pos: 0 },
        Some(c) => {
            let n: usize = c.len();
            if n < pos {
                return TailStep { cleared: true, lines: text::no_texts(), pos: n };
            }
            if n == pos {
                return TailStep { cleared: false, lines: text::no_texts(), pos: n };
            }
            let mut slice: Vec<u8> = Vec::new();
            let mut i: usize = pos;
            while i < n
                invariant
                    n == c@.len(),
                    pos <= i <= n,
                    slice@ == c@.subrange(pos as int, i as int),
                decreases n - i,
            {
                slice.push(c[i]);
                i = i + 1;
            }
            let t = logfile::lossy_text(&slice);
            TailStep { cleared: false, lines: tail_lines(t.as_str()), pos: n }
        },
    }
}

// ---------------------------------------------------------------------------
// Journals
// ---------------------------------------------------------------------------

/// Is `prev` what `cur` begins with?
pub open spec fn extends(cur: Seq<Seq<char>>, prev: Seq<Seq<char>>) -> bool {
    prev.len() <= cur.len() && cur.subrange(0, prev.len() as int) == prev
}

pub open spec fn rotated_text(name: Seq<char>) -> Seq<char> {
    "-- "@ + name + " log rotated --"@
}

/// The lines to add for a journal: all of it under a heading where it is new,
/// what was added where it grew, all of it again where it was rotated.
pub open spec fn journal_news(
    name: Seq<char>,
    unit: Seq<char>,
    prev: Option<Seq<Seq<char>>>,
    cur: Seq<Seq<char>>,
) -> Seq<Seq<char>> {
    match prev {
        None => seq![workers::log_heading(name, unit)] + cur,
        Some(p) => if extends(cur, p) {
            cur.subrange(p.len() as int, cur.len() as int)
        } else {
            seq![rotated_text(name)] + cur
        },
    }
}

fn begins_with(cur: &Vec<String>, prev: &Vec<String>) -> (r: bool)
    ensures
        r == extends(text::texts(cur@), text::texts(prev@)),
{
    let ghost c = text::texts(cur@);
    let ghost p = text::texts(prev@);
    assert(c.len() == cur@.len() && p.len() == prev@.len());
    if prev.len() > cur.len() {
        return false;
    }
    let mut i: usize = 0;
    while i < prev.len()
        invariant
            i <= prev@.len() <= cur@.len(),
            c == text::texts(cur@),
            p == text::texts(prev@),
            c.len() == cur@.len(),
            p.len() == prev@.len(),
            forall|k: int| 0 <= k < i ==> c[k] == p[k],
        decreases prev@.len() - i,
    {
        assert(c[i as int] == cur@[i as int]@ && p[i as int] == prev@[i as int]@);
        if !text::same(cur[i].as_str(), prev[i].as_str()) {
            assert(c.subrange(0, p.len() as int)[i as int] != p[i as int]);
            return false;
        }
        i = i + 1;
    }
    assert(c.subrange(0, p.len() as int) =~= p);
    true
}

/// What to show of a journal that was read again.
pub fn journal_diff(
    name: &str,
    unit: &str,
    prev: &Option<Vec<String>>,
    cur: &Vec<String>,
) -> (r: Vec<String>)
    ensures
        text::texts(r@) == journal_news(
            name@,
            unit@,
            match *prev {
                Some(p) => Some(text::texts(p@)),
                None => None,
            },
            text::texts(cur@),
        ),
{
    let ghost c = text::texts(cur@);
    assert(c.len() == cur@.len());
    let mut out = text::no_texts();
    match prev {
        None => {
            let h = workers::heading(name, unit);
            text::push_text(&mut out, h.as_str());
            text::push_texts(&mut out, cur);
        },
        Some(p) => {
            assert(text::texts(p@).len() == p@.len());
            if begins_with(cur, p) {
                let from: usize = p.len();
                let mut i: usize = from;
                assert(text::texts(out@) =~= c.subrange(from as int, from as int));
                while i < cur.len()
                    invariant
                        from <= i <= cur@.len(),
                        c == text::texts(cur@),
                        c.len() == cur@.len(),
                        text::texts(out@) == c.subrange(from as int, i as int),
                    decreases cur@.len() - i,
                {
                    text::push_text(&mut out, cur[i].as_str());
                    assert(c[i as int] == cur@[i as int]@);
                    assert(c.subrange(from as int, i + 1) =~= c.subrange(
                        from as int,
                        i as int,
                    ).push(c[i as int]));
                    i = i + 1;
                }
            } else {
                let mut h = "-- ".to_owned();
                h.append(name);
                h.append(" log rotated --");
                text::push_text(&mut out, h.as_str());
                text::push_texts(&mut out, cur);
            }
        },
    }
    out
}

/// A list of services with the lines of their journals, by name.
pub open spec fn held(v: Seq<(String, Vec<String>)>) -> Map<Seq<char>, Seq<Seq<char>>>
    decreases v.len(),
{
    if v.len() == 0 {
        Map::empty()
    } else {
        held(v.drop_last()).insert(v.last().0@, text::texts(v.last().1@))
    }
}

/// What was last seen of the journal of each service.
#[derive(Debug)]
pub struct JournalTail {
    seen: Vec<(String, Vec<String>)>,
}

impl View for JournalTail {
    type V = Map<Seq<char>, Seq<Seq<char>>>;

    closed spec fn view(&self) -> Map<Seq<char>, Seq<Seq<char>>> {
        held(self.seen@)
    }
}

fn hold(v: &mut Vec<(String, Vec<String>)>, name: &str, lines: &Vec<String>)
    ensures
        held(final(v)@) == held(old(v)@).insert(name@, text::texts(lines@)),
{
    let ghost before = v@;
    v.push((name.to_owned(), text::copy_list(lines)));
    assert(v@.drop_last() =~= before);
}

impl JournalTail {
    /// Nothing was seen yet.
    pub fn new() -> (r: Self)
        ensures
            r@ == Map::<Seq<char>, Seq<Seq<char>>>::empty(),
    {
        JournalTail { seen: Vec::new() }
    }

    fn forget(&mut self, name: &str)
        ensures
            final(self)@ == old(self)@.remove(name@),
    {
        let ghost all = self.seen@;
        let mut out: Vec<(String, Vec<String>)> = Vec::new();
        let mut i: usize = 0;
        assert(held(out@) =~= held(all.take(0)).remove(name@));
        while i < self.seen.len()
            invariant
                i <= all.len(),
                all == self.seen@,
                held(out@) == held(all.take(i as int)).remove(name@),
            decreases all.len() - i,
        {
            proof {
                assert(all.take(i + 1).drop_last() =~= all.take(i as int));
            }
            if !text::same(self.seen[i].0.as_str(), name) {
                hold(&mut out, self.seen[i].0.as_str(), &self.seen[i].1);
            }
            assert(held(out@) =~= held(all.take(i + 1)).remove(name@));
            i = i + 1;
        }
        assert(all.take(i as int) =~= all);
        self.seen = out;
    }

    fn last_seen(&self, name: &str) -> (r: Option<Vec<String>>)
        ensures
            self@.get(name@) == (match r {
                Some(l) => Some(text::texts(l@)),
                None => None,
            }),
    {
        let ghost all = self.seen@;
        let mut at: Option<usize> = None;
        let mut i: usize = 0;
        while i < self.seen.len()
            invariant
                i <= all.len(),
                all == self.seen@,
                match at {
                    Some(k) => k < i && held(all.take(i as int)).get(name@) == Some(
                        text::texts(all[k as int].1@),
                    ),
                    None => held(all.take(i as int)).get(name@) is None,
                },
            decreases all.len() - i,
        {
            proof {
                assert(all.take(i + 1).drop_last() =~= all.take(i as int));
            }
            if text::same(self.seen[i].0.as_str(), name) {
                at = Some(i);
            }
            i = i + 1;
        }
        assert(all.take(i as int) =~= all);
        match at {
            Some(k) => Some(text::copy_list(&self.seen[k].1)),
            None => None,
        }
    }

    /// Drops the services that are no longer registered.
    pub fn keep_only(&mut self, names: &Vec<String>)
        ensures
            final(self)@ == old(self)@.restrict(text::texts(names@).to_set()),
    {
        let ghost all = self.seen@;
        let ghost kept = text::texts(names@).to_set();
        let mut out: Vec<(String, Vec<String>)> = Vec::new();
        let mut i: usize = 0;
        assert(held(out@) =~= held(all.take(0)).restrict(kept));
        while i < self.seen.len()
            invariant
                i <= all.len(),
                all == self.seen@,
                kept == text::texts(names@).to_set(),
                held(out@) == held(all.take(i as int)).restrict(kept),
            decreases all.len() - i,
        {
            proof {
                assert(all.take(i + 1).drop_last() =~= all.take(i as int));
            }
            if text::list_has(names, self.seen[i].0.as_str()) {
                hold(&mut out, self.seen[i].0.as_str(), &self.seen[i].1);
            }
            assert(held(out@) =~= held(all.take(i + 1)).restrict(kept));
            i = i + 1;
        }
        assert(all.take(i as int) =~= all);
        self.seen = out;
    }

    /// Takes what a journal holds now, without showing it.
    pub fn seed(&mut self, name: &str, cur: &Vec<String>)
        ensures
            final(self)@ == old(self)@.insert(name@, text::texts(cur@)),
    {
        self.forget(name);
        hold(&mut self.seen, name, cur);
        assert(self@ =~= old(self)@.insert(name@, text::texts(cur@)));
    }

    /// Takes what a journal holds now, and gives the lines to show of it.
    pub fn follow(&mut self, name: &str, unit: &str, cur: &Vec<String>) -> (r: Vec<String>)
        ensures
            text::texts(r@) == journal_news(
                name@,
                unit@,
                old(self)@.get(name@),
                text::texts(cur@),
            ),
            final(self)@ == old(self)@.insert(name@, text::texts(cur@)),
    {
        let prev = self.last_seen(name);
        let news = journal_diff(name, unit, &prev, cur);
        self.seed(name, cur);
        news
    }
}

/// A journal that only grew is shown without loss and without repetition: what
/// was seen and what is added make up the whole.
pub proof fn law_grown_journal_is_complete(
    name: Seq<char>,
    unit: Seq<char>,
    prev: Seq<Seq<char>>,
    cur: Seq<Seq<char>>,
)
    requires
        extends(cur, prev),
    ensures
        prev + journal_news(name, unit, Some(prev), cur) == cur,
{
    assert(prev + cur.subrange(prev.len() as int, cur.len() as int) =~= cur);
}

/// A journal that did not change adds nothing.
pub proof fn law_unchanged_journal_is_silent(
    name: Seq<char>,
    unit: Seq<char>,
    lines: Seq<Seq<char>>,
)
    ensures
        journal_news(name, unit, Some(lines), lines).len() == 0,
{
    assert(lines.subrange(0, lines.len() as int) =~= lines);
}

/// A service that was dropped and comes back is shown from the start, under
/// its heading.
pub proof fn law_returning_service_is_introduced(
    seen: Map<Seq<char>, Seq<Seq<char>>>,
    registered: Set<Seq<char>>,
    name: Seq<char>,
    unit: Seq<char>,
    cur: Seq<Seq<char>>,
)
    requires
        !registered.contains(name),
    ensures
        journal_news(name, unit, seen.restrict(registered).get(name), cur) == seq![
            workers::log_heading(name, unit),
        ] + cur,
{
}

/// What was added to a log is shown line by line. Empty lines are left out,
/// unless they were written on purpose: as a gap.
pub proof fn law_fresh_lines_are_shown(t: Seq<char>, l: Seq<char>)
    ensures
        (exists|i: int| 0 <= i < t.len() - 1 && t[i] == '\n' && #[trigger] t[i + 1] == '\n')
            ==> fresh_lines(t) == text::lines(t),
        (forall|i: int| 0 <= i < text::lines(t).len() ==> (#[trigger] text::lines(t)[i]).len() > 0)
            ==> fresh_lines(t) == text::lines(t),
        l.len() > 0 ==> (fresh_lines(t).contains(l) <==> text::lines(t).contains(l)),
{
    reveal_strlit("\n\n");
    let all = text::lines(t);
    let keep = |x: Seq<char>| x.len() > 0 || has_gap(t);
    if exists|i: int| 0 <= i < t.len() - 1 && t[i] == '\n' && #[trigger] t[i + 1] == '\n' {
        let i = choose|i: int| 0 <= i < t.len() - 1 && t[i] == '\n' && #[trigger] t[i + 1] == '\n';
        assert(t.subrange(i, i + 2) =~= "\n\n"@);
        assert(text::occurs_at(t, "\n\n"@, i));
        lemma_filter_keeps_all(all, keep);
    }
    if forall|i: int| 0 <= i < all.len() ==> (#[trigger] all[i]).len() > 0 {
        lemma_filter_keeps_all(all, keep);
    }
    if l.len() > 0 {
        lemma_filter_keeps(all, keep, l);
    }
}

proof fn lemma_filter_keeps_all(s: Seq<Seq<char>>, keep: spec_fn(Seq<char>) -> bool)
    requires
        forall|i: int| 0 <= i < s.len() ==> keep(#[trigger] s[i]),
    ensures
        s.filter(keep) == s,
    decreases s.len(),
{
    reveal(Seq::filter);
    if s.len() > 0 {
        let t = s.drop_last();
        assert forall|i: int| 0 <= i < t.len() implies keep(#[trigger] t[i]) by {
            assert(keep(s[i]));
        }
        lemma_filter_keeps_all(t, keep);
        assert(keep(s[s.len() - 1]));
        assert(t.push(s.last()) =~= s);
    } else {
        assert(s.filter(keep) =~= s);
    }
}

proof fn lemma_filter_keeps(
    s: Seq<Seq<char>>,
    keep: spec_fn(Seq<char>) -> bool,
    l: Seq<char>,
)
    requires
        keep(l),
    ensures
        s.filter(keep).contains(l) <==> s.contains(l),
    decreases s.len(),
{
    reveal(Seq::filter);
    if s.len() > 0 {
        let t = s.drop_last();
        lemma_filter_keeps(t, keep, l);
        let f = s.filter(keep);
        if s.contains(l) {
            let k = choose|k: int| 0 <= k < s.len() && s[k] == l;
            if k < t.len() {
                assert(t[k] == l);
                let m = choose|m: int|
                    0 <= m < t.filter(keep).len() && t.filter(keep)[m] == l;
                assert(f[m] == l);
            } else {
                assert(f[f.len() - 1] == l);
            }
        }
        if f.contains(l) {
            let m = choose|m: int| 0 <= m < f.len() && f[m] == l;
            if m < t.filter(keep).len() {
                assert(t.filter(keep)[m] == l);
                assert(t.contains(l));
                let k = choose|k: int| 0 <= k < t.len() && t[k] == l;
                assert(s[k] == l);
            } else {
                assert(s[s.len() - 1] == l);
            }
        }
    } else {
        assert(s.filter(keep) =~= s);
    }
}

/// A journal that is not the one seen before with more lines was rotated: that is
/// said, and it is shown whole.
pub proof fn law_rotated_journal_is_shown_whole(
    name: Seq<char>,
    unit: Seq<char>,
    prev: Seq<Seq<char>>,
    cur: Seq<Seq<char>>,
)
    ensures
        extends(cur, prev) <==> prev.is_prefix_of(cur),
        !prev.is_prefix_of(cur) ==> journal_news(name, unit, Some(prev), cur) == seq![
            "-- "@ + name + " log rotated --"@,
        ] + cur,
        journal_news(name, unit, None, cur) == seq!["== "@ + name + " ("@ + unit + ") =="@] + cur,
{
}

} // verus!
