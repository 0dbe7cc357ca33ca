//! Build tools: versions, and which of them have to be provisioned.

use vstd::prelude::*;

use crate::text;

verus! {

/// A tool's version.
#[derive(Debug, Clone, Copy, PartialEq, Eq, Structural)]
pub struct Ver {
    pub major: u64,
    pub minor: u64,
    pub patch: u64,
}

impl Ver {
    /// Is this version older than another?
    pub open spec fn older(self, other: Ver) -> bool {
        self.major < other.major || (self.major == other.major && (self.minor < other.minor || (
        self.minor == other.minor && self.patch < other.patch)))
    }

    pub fn is_older(&self, other: &Ver) -> (r: bool)
        ensures
            r == self.older(*other),
    {
        self.major < other.major || (self.major == other.major && (self.minor < other.minor || (
        self.minor == other.minor && self.patch < other.patch)))
    }
}

/// What is known of one of a recipe's tools on this machine.
#[derive(Debug, Clone, Copy, PartialEq, Eq, Structural)]
pub struct ToolProbe {
    /// Is it a tool with a pin that can be provisioned?
    pub provisionable: bool,
    pub is_go: bool,
    pub installed: Option<Ver>,
    /// The oldest version the project's manifest accepts.
    pub floor: Option<Ver>,
}

/// One line of the tool doctor's report.
#[derive(Debug)]
pub struct Finding {
    pub text: String,
    /// Does the deploy have to stop?
    pub blocking: bool,
}

/// A doctor line taken apart.
#[derive(Debug)]
pub struct Issue {
    pub problem: String,
    pub fix: String,
    pub note: Option<String>,
}

/// What a doctor line says.
pub struct IssueText {
    pub problem: Seq<char>,
    pub fix: Seq<char>,
    pub note: Option<Seq<char>>,
}

impl View for Issue {
    type V = IssueText;

    open spec fn view(&self) -> IssueText {
        IssueText { problem: self.problem@, fix: self.fix@, note: text::opt_text(self.note) }
    }
}

/// The problem of a doctor line, and what follows its marker.
pub open spec fn marked(body: Seq<char>) -> Option<(Seq<char>, Seq<char>)> {
    match text::split_first(body, " — update first: "@) {
        Some(pair) => Some(pair),
        None => text::split_first(body, " — install: "@),
    }
}

/// A doctor line taken apart: the problem, the fix command, and the note in
/// parentheses behind two spaces.
pub open spec fn issue_of(body: Seq<char>) -> Option<IssueText> {
    match marked(body) {
        Some((problem, rest)) => Some(
            match text::split_first(rest, "  ("@) {
                Some((fix, note)) => IssueText { problem, fix, note: Some("("@ + note) },
                None => IssueText { problem, fix: rest, note: None },
            },
        ),
        None => None,
    }
}

/// Takes a doctor line apart; `None` where it is none.
pub fn split_issue(body: &str) -> (r: Option<Issue>)
    ensures
        match r {
            Some(i) => issue_of(body@) == Some(i@),
            None => issue_of(body@) is None,
        },
{
    let found = match text::split_once(body, " — update first: ") {
        Some(pair) => Some(pair),
        None => text::split_once(body, " — install: "),
    };
    match found {
        Some(pair) => {
            let problem = pair.0;
            let rest = pair.1;
            match text::split_once(rest.as_str(), "  (") {
                Some(cut) => {
                    let mut note = "(".to_owned();
                    note.append(cut.1.as_str());
                    Some(Issue { problem, fix: cut.0, note: Some(note) })
                },
                None => Some(Issue { problem, fix: rest, note: None }),
            }
        },
        None => None,
    }
}

/// Is a log line a doctor line? It is an error with a problem and an explicit
/// fix command.
pub open spec fn issue_line(s: Seq<char>) -> bool {
    match text::after_prefix(s, "! "@) {
        Some(body) => issue_of(body) is Some,
        None => false,
    }
}

pub fn is_issue_line(s: &str) -> (r: bool)
    ensures
        r == issue_line(s@),
{
    match text::strip_prefix(s, "! ") {
        Some(body) => split_issue(body.as_str()).is_some(),
        None => false,
    }
}

/// Versions are compared by their major number first, then by the minor one, then
/// by the patch level.
pub proof fn law_versions_are_ordered(a: Ver, b: Ver)
    ensures
        a.major < b.major ==> a.older(b) && !b.older(a),
        a.major == b.major && a.minor < b.minor ==> a.older(b) && !b.older(a),
        a.major == b.major && a.minor == b.minor ==> (a.older(b) <==> a.patch < b.patch),
        !a.older(a),
        a.older(b) || b.older(a) || a == b,
{
}

/// An issue says what is wrong, and, behind a marker, what mends it; a note in
/// brackets may follow.
pub proof fn law_issues_are_taken_apart(
    problem: Seq<char>,
    fix: Seq<char>,
    note: Seq<char>,
)
    requires
        forall|i: int| 0 <= i < problem.len() ==> #[trigger] problem[i] != '—',
        forall|i: int| 0 <= i < fix.len() ==> #[trigger] fix[i] != '—' && fix[i] != '(',
        forall|i: int| 0 <= i < note.len() ==> #[trigger] note[i] != '—',
    ensures
        issue_of(problem + " — update first: "@ + fix) == Some(
            IssueText { problem, fix, note: None },
        ),
        issue_of(problem + " — install: "@ + fix) == Some(IssueText { problem, fix, note: None }),
        issue_of(problem + " — update first: "@ + fix + "  ("@ + note) == Some(
            IssueText { problem, fix, note: Some("("@ + note) },
        ),
        issue_of(problem + " — install: "@ + fix + "  ("@ + note) == Some(
            IssueText { problem, fix, note: Some("("@ + note) },
        ),
        issue_of(problem) is None,
{
    let update = " — update first: "@;
    let install = " — install: "@;
    let open = "  ("@;
    reveal_strlit(" — update first: ");
    reveal_strlit(" — install: ");
    reveal_strlit("  (");
    let noted = fix + open + note;
    assert forall|i: int| 0 <= i < noted.len() implies #[trigger] noted[i] != '—' by {
        if i < fix.len() {
            assert(noted[i] == fix[i]);
        } else if i >= fix.len() + open.len() {
            assert(noted[i] == note[i - fix.len() - open.len()]);
        }
    }
    lemma_split_at_sign(problem, update, 1, '—', fix);
    lemma_split_at_sign(problem, update, 1, '—', noted);
    lemma_split_at_sign(problem, install, 1, '—', fix);
    lemma_split_at_sign(problem, install, 1, '—', noted);
    lemma_no_other_marker(problem, fix);
    lemma_no_other_marker(problem, noted);
    lemma_split_at_sign(fix, open, 2, '(', note);
    lemma_sign_missing(fix, open, 2);
    lemma_sign_missing(problem, update, 1);
    lemma_sign_missing(problem, install, 1);
    assert(problem + update + fix + open + note =~= problem + update + noted);
    assert(problem + install + fix + open + note =~= problem + install + noted);
}

/// A text without one of a marker's characters does not hold the marker.
proof fn lemma_sign_missing(s: Seq<char>, p: Seq<char>, k: int)
    requires
        0 <= k < p.len(),
        forall|i: int| 0 <= i < s.len() ==> #[trigger] s[i] != p[k],
    ensures
        text::split_first(s, p) is None,
{
    text::law_split_around_the_first(s, p);
    if let Some((a, b)) = text::split_first(s, p) {
        assert((a + p + b)[a.len() + k] == p[k]);
        assert(s[a.len() + k] == p[k]);
    }
}

/// A text is split at a marker whose sign stands nowhere before it.
proof fn lemma_split_at_sign(a: Seq<char>, p: Seq<char>, k: int, sign: char, b: Seq<char>)
    requires
        0 <= k < p.len(),
        p[k] == sign,
        forall|i: int| 0 <= i < p.len() && i != k ==> #[trigger] p[i] != sign,
        forall|i: int| 0 <= i < a.len() ==> #[trigger] a[i] != sign,
    ensures
        text::split_first(a + p + b, p) == Some((a, b)),
{
    let s = a + p + b;
    text::law_split_around_the_first(s, p);
    assert(s.skip(a.len() as int).subrange(0, p.len() as int) =~= p);
    assert(p.is_prefix_of(s.skip(a.len() as int)));
    let (x, y) = text::split_first(s, p).unwrap();
    assert(x.len() <= a.len());
    assert((x + p + y)[x.len() + k] == sign);
    assert(s[x.len() + k] == sign);
    if x.len() < a.len() {
        if x.len() + k < a.len() {
            assert(a[x.len() + k] != sign);
        } else {
            assert(s[x.len() + k] == p[x.len() + k - a.len()]);
        }
    }
    assert(x =~= s.take(x.len() as int));
    assert(x =~= a);
    assert((x + p + y).skip((x.len() + p.len()) as int) =~= y);
    assert((a + p + b).skip((a.len() + p.len()) as int) =~= b);
}

/// What is to be installed is not to be updated.
proof fn lemma_no_other_marker(problem: Seq<char>, rest: Seq<char>)
    requires
        forall|i: int| 0 <= i < problem.len() ==> #[trigger] problem[i] != '—',
        forall|i: int| 0 <= i < rest.len() ==> #[trigger] rest[i] != '—',
    ensures
        text::split_first(problem + " — install: "@ + rest, " — update first: "@) is None,
{
    let update = " — update first: "@;
    let install = " — install: "@;
    reveal_strlit(" — update first: ");
    reveal_strlit(" — install: ");
    let s = problem + install + rest;
    text::law_split_around_the_first(s, update);
    if let Some((a, b)) = text::split_first(s, update) {
        let m = a.len() as int;
        assert((a + update + b)[m + 1] == '—');
        assert((a + update + b)[m + 3] == 'u');
        assert(s[m + 1] == '—');
        if m + 1 < problem.len() {
            assert(problem[m + 1] != '—');
        } else if m + 1 >= problem.len() + install.len() {
            assert(s[m + 1] == rest[m + 1 - problem.len() - install.len()]);
        } else {
            assert(s[m + 1] == install[m + 1 - problem.len()]);
            assert(m + 1 - problem.len() == 1);
            assert(s[m + 3] == install[3]);
        }
    }
}

} // verus!
