//! Persistent history for the Logs → Crash screen: deploy interruptions and
//! full clean removals.
//!
//! Every line carries a UTC timestamp (same format as the deploy log) and a
//! kind tag so the screen can colour it without re-parsing:
//!
//! ```text
//! [interrupted]  a live in-flight deploy was aborted while this panel was
//!                alive, and its leftovers were removed immediately.
//! [recovered]    leftovers of a deploy whose process died out-of-band were
//!                found later and removed.
//! [removed]      a deliberate full removal (My Services → delete).
//! [ghost]        orphaned `ghost-build-*` / `ghost-egress-*` transient units
//!                left by a dead deploy, stopped by the background sweep.
//! ```
//!
//! The log is the content of its file; `stamp` is the time of the record,
//! already formatted.

use vstd::prelude::*;

use crate::logfile;
use crate::text;

verus! {

/// Cap on `crash.log` size before the oldest bytes are dropped.
pub const MAX_CRASH_LOG_BYTES: usize = 1_048_576;

/// Bytes of the newest history kept after a truncation.
pub const CRASH_LOG_KEEP_BYTES: usize = 262_144;

/// One history line.
pub open spec fn history_line(stamp: Seq<char>, kind: Seq<char>, message: Seq<char>) -> Seq<char> {
    stamp + " ["@ + kind + "] "@ + message
}

/// The history with one line added at its end.
pub open spec fn recorded(
    log: Seq<u8>,
    stamp: Seq<char>,
    kind: Seq<char>,
    message: Seq<char>,
) -> Seq<u8> {
    logfile::appended(
        log,
        history_line(stamp, kind, message),
        MAX_CRASH_LOG_BYTES as nat,
        CRASH_LOG_KEEP_BYTES as nat,
    )
}

/// What the history says of a deploy aborted at exit.
pub open spec fn interrupted_text(service: Seq<char>, url: Seq<char>) -> Seq<char> {
    "deploy aborted at exit: "@ + service + " ("@ + url
        + ") — unit, env, project tree and journal removed"@
}

/// What the history says of leftovers found later.
pub open spec fn recovered_text(
    service: Seq<char>,
    url: Seq<char>,
    had_artifacts: bool,
) -> Seq<char> {
    "unfinished deploy: "@ + service + " ("@ + url + (if had_artifacts {
        ") — leftover unit/env/project tree removed"@
    } else {
        ") — no leftovers; journal entry settled"@
    })
}

/// What the history says of a deliberate removal.
pub open spec fn removed_text(service: Seq<char>, url: Seq<char>) -> Seq<char> {
    "full removal: "@ + service + " ("@ + url
        + ") — unit, env, project tree, ports and registry"@
}

/// What the history says of stopped transient units.
pub open spec fn ghost_text(n: nat) -> Seq<char> {
    "orphaned ghost build/probe unit(s) stopped: "@ + text::decimal(n)
}

/// Append one kind-tagged, timestamped history line. Bounded by dropping the
/// oldest lines once the log exceeds [`MAX_CRASH_LOG_BYTES`].
pub fn record(log: &mut Vec<u8>, stamp: &str, kind: &str, message: &str)
    ensures
        final(log)@ == recorded(old(log)@, stamp@, kind@, message@),
{
    let mut line = stamp.to_owned();
    line.append(" [");
    line.append(kind);
    line.append("] ");
    line.append(message);
    logfile::append_line(log, line.as_str(), MAX_CRASH_LOG_BYTES, CRASH_LOG_KEEP_BYTES);
}

/// A deploy that was interrupted while this panel was alive (user exited or a
/// termination signal arrived): its leftovers were removed immediately.
pub fn interrupted(log: &mut Vec<u8>, stamp: &str, service: &str, url: &str)
    ensures
        final(log)@ == recorded(
            old(log)@,
            stamp@,
            "interrupted"@,
            interrupted_text(service@, url@),
        ),
{
    let mut m = "deploy aborted at exit: ".to_owned();
    m.append(service);
    m.append(" (");
    m.append(url);
    m.append(") — unit, env, project tree and journal removed");
    record(log, stamp, "interrupted", m.as_str());
}

/// Leftovers of a deploy whose process died out-of-band were found later
/// (next launch or background sweep) and removed.
pub fn recovered(log: &mut Vec<u8>, stamp: &str, service: &str, url: &str, had_artifacts: bool)
    ensures
        final(log)@ == recorded(
            old(log)@,
            stamp@,
            "recovered"@,
            recovered_text(service@, url@, had_artifacts),
        ),
{
    let mut m = "unfinished deploy: ".to_owned();
    m.append(service);
    m.append(" (");
    m.append(url);
    if had_artifacts {
        m.append(") — leftover unit/env/project tree removed");
    } else {
        m.append(") — no leftovers; journal entry settled");
    }
    record(log, stamp, "recovered", m.as_str());
}

/// A deliberate full removal from "My Services" → delete.
pub fn removed(log: &mut Vec<u8>, stamp: &str, service: &str, url: &str)
    ensures
        final(log)@ == recorded(old(log)@, stamp@, "removed"@, removed_text(service@, url@)),
{
    let mut m = "full removal: ".to_owned();
    m.append(service);
    m.append(" (");
    m.append(url);
    m.append(") — unit, env, project tree, ports and registry");
    record(log, stamp, "removed", m.as_str());
}

/// Orphaned `ghost-*` transient build/probe units were stopped by a sweep.
pub fn ghost_stopped(log: &mut Vec<u8>, stamp: &str, n: usize)
    ensures
        final(log)@ == recorded(old(log)@, stamp@, "ghost"@, ghost_text(n as nat)),
{
    let mut m = "orphaned ghost build/probe unit(s) stopped: ".to_owned();
    let count = text::decimal_of(n as u64);
    m.append(count.as_str());
    record(log, stamp, "ghost", m.as_str());
}

/// All history lines (newest last), for seeding the Crash screen. `None` is a
/// log that could not be read.
pub fn read(log: &Option<Vec<u8>>) -> (r: Vec<String>)
    ensures
        text::texts(r@) == match *log {
            Some(content) => logfile::log_texts(content@),
            None => Seq::empty(),
        },
{
    match log {
        Some(content) => logfile::log_lines(content),
        None => {
            let out: Vec<String> = Vec::new();
            assert(text::texts(out@) =~= Seq::<Seq<char>>::empty());
            out
        },
    }
}

/// Drop the history entirely (Logs → Crash → delete).
pub fn clear(log: &mut Option<Vec<u8>>)
    ensures
        *final(log) is None,
{
    *log = None;
}

/// A recorded line is the last one read back, and the lines before it are the
/// newest that the log had: all of them, while it is within its cap. So it is
/// for a log of whole lines and a record of one line.
pub proof fn law_record_then_read(
    log: Seq<u8>,
    stamp: Seq<char>,
    kind: Seq<char>,
    message: Seq<char>,
)
    requires
        vstd::utf8::valid_utf8(log),
        logfile::whole_lines(vstd::utf8::decode_utf8(log)),
        forall|i: int|
            0 <= i < history_line(stamp, kind, message).len() ==> history_line(
                stamp,
                kind,
                message,
            )[i] != '\n',
        message.len() > 0 ==> message.last() != '\r',
    ensures
        vstd::utf8::valid_utf8(recorded(log, stamp, kind, message)),
        logfile::whole_lines(vstd::utf8::decode_utf8(recorded(log, stamp, kind, message))),
        ({
            let before = logfile::log_texts(log);
            let after = logfile::log_texts(recorded(log, stamp, kind, message));
            &&& 0 < after.len() <= before.len() + 1
            &&& after == before.subrange(before.len() + 1 - after.len(), before.len() as int).push(
                history_line(stamp, kind, message),
            )
            &&& log.len() <= MAX_CRASH_LOG_BYTES ==> after.len() == before.len() + 1
        }),
{
    let line = history_line(stamp, kind, message);
    reveal_strlit("] ");
    assert(line.last() != '\r') by {
        if message.len() > 0 {
            assert(line.last() == message.last());
        } else {
            assert(message =~= Seq::<char>::empty());
            assert(line =~= stamp + " ["@ + kind + "] "@);
            assert(line.last() == ' ');
        }
    }
    let max = MAX_CRASH_LOG_BYTES as nat;
    let keep = CRASH_LOG_KEEP_BYTES as nat;
    logfile::law_bounding_keeps_the_newest_lines(log, max, keep);
    logfile::law_append_then_read(log, line, max, keep);
}

/// Every record names the service and its address, and says what became of it.
pub proof fn law_records_name_the_service(service: Seq<char>, url: Seq<char>, n: nat)
    ensures
        interrupted_text(service, url) == "deploy aborted at exit: "@ + service + " ("@ + url
            + ") — unit, env, project tree and journal removed"@,
        recovered_text(service, url, true) == "unfinished deploy: "@ + service + " ("@ + url
            + ") — leftover unit/env/project tree removed"@,
        recovered_text(service, url, false) == "unfinished deploy: "@ + service + " ("@ + url
            + ") — no leftovers; journal entry settled"@,
        removed_text(service, url) == "full removal: "@ + service + " ("@ + url
            + ") — unit, env, project tree, ports and registry"@,
        ghost_text(n) == "orphaned ghost build/probe unit(s) stopped: "@ + text::decimal(n),
{
}

/// The history loses nothing while it is within a mebibyte, and beyond that keeps
/// its newest quarter of one, from the first whole line on.
pub proof fn law_history_keeps_its_end(
    log: Seq<u8>,
    stamp: Seq<char>,
    kind: Seq<char>,
    message: Seq<char>,
    p: int,
)
    ensures
        ({
            let line = vstd::utf8::encode_utf8(stamp + " ["@ + kind + "] "@ + message) + seq![10u8];
            &&& log.len() <= 1_048_576 ==> recorded(log, stamp, kind, message) == log + line
            &&& log.len() > 1_048_576 && log.len() - 262_144 <= p < log.len() && log[p] == 10 && (
            forall|q: int| log.len() - 262_144 <= q < p ==> #[trigger] log[q] != 10) ==> recorded(
                log,
                stamp,
                kind,
                message,
            ) == log.skip(p + 1) + line
        }),
{
    logfile::law_bounding_keeps_as_much_as_fits(log, 1_048_576, 262_144, p);
    let text = vstd::utf8::encode_utf8(stamp + " ["@ + kind + "] "@ + message);
    assert(log + text + seq![10u8] =~= log + (text + seq![10u8]));
    assert(log.skip(p + 1) + text + seq![10u8] =~= log.skip(p + 1) + (text + seq![10u8]));
}

} // verus!
