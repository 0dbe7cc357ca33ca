//! The local network contact log: every outbound request leaves one line.

use vstd::prelude::*;

verus! {

/// One outbound request, and how it came out.
#[derive(Debug)]
pub struct NetRecord {
    pub host: String,
    pub path: String,
    pub outcome: Result<(), String>,
}

/// What a record says; `error` is `None` for a request that succeeded.
#[verifier::ext_equal]
pub struct RecordText {
    pub host: Seq<char>,
    pub path: Seq<char>,
    pub error: Option<Seq<char>>,
}

impl View for NetRecord {
    type V = RecordText;

    open spec fn view(&self) -> RecordText {
        RecordText {
            host: self.host@,
            path: self.path@,
            error: match self.outcome {
                Ok(_) => None,
                Err(e) => Some(e@),
            },
        }
    }
}

/// The line that a record leaves in the log.
pub open spec fn record_text(stamp: Seq<char>, r: RecordText) -> Seq<char> {
    stamp + " "@ + r.host + r.path + (match r.error {
        None => " ok"@,
        Some(e) => " error: "@ + e,
    })
}

/// Renders a record for the log.
pub fn record_line(stamp: &str, r: &NetRecord) -> (line: String)
    ensures
        line@ == record_text(stamp@, r@),
{
    let mut line = stamp.to_owned();
    line.append(" ");
    line.append(r.host.as_str());
    line.append(r.path.as_str());
    let ghost head = line@;
    match &r.outcome {
        Ok(_) => {
            line.append(" ok");
        },
        Err(e) => {
            line.append(" error: ");
            line.append(e.as_str());
            assert(line@ =~= head + (" error: "@ + e@));
        },
    }
    line
}

/// A record says when, where to and what for, and whether it succeeded.
pub proof fn law_record_says_what_was_asked(
    stamp: Seq<char>,
    host: Seq<char>,
    path: Seq<char>,
    e: Seq<char>,
)
    ensures
        record_text(stamp, RecordText { host, path, error: None }) == stamp + " "@ + host + path
            + " ok"@,
        record_text(stamp, RecordText { host, path, error: Some(e) }) == stamp + " "@ + host + path
            + (" error: "@ + e),
{
}

} // verus!
