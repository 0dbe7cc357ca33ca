//! Smart name resolution — system DNS first, DNS-over-HTTPS fallback.
//!
//! On a broken or flaky resolver the right fix is not to retry it but to
//! *change resolvers*. The system resolver is asked first; only when that
//! fails does a lookup fall back to a DoH bootstrap:
//!
//! * a TLS socket straight to a pinned anycast address — no system DNS
//!   involved, works whenever port-443 traffic flows;
//! * `GET /dns-query?name=<host>&type=A|AAAA`, `Accept: application/dns-json`;
//! * short budgets, per-host cooldown, short-TTL cache, and a record of every
//!   query for the network log.
//!
//! Times are milliseconds on a clock that never goes back.

use vstd::prelude::*;
use vstd::utf8::encode_utf8;

use crate::hoster::ip::{self, IpAddr, Ipv4Addr, SocketAddr};
use crate::netlog::{NetRecord, RecordText};
use crate::text;

verus! {

/// DoH hostname used for TLS SNI + the Host header.
pub const DOH_HOST: &'static str = "cloudflare-dns.com";

/// Successful lookups are cached for this long.
pub const CACHE_TTL: u64 = 30_000;

/// Per-host cooldown between DoH bootstrap attempts.
pub const COOLDOWN: u64 = 10_000;

/// Whole-fallback budget.
pub const BUDGET: u64 = 4_000;

/// Per TCP connect to the pinned DoH address.
pub const CONNECT_TIMEOUT: u64 = 2_000;

/// Per TLS/read step.
pub const IO_BUDGET: u64 = 2_000;

/// How many pinned servers there are.
pub const DOH_SERVERS: usize = 2;

/// The pinned server of number `i`.
pub open spec fn doh_server(i: int) -> IpAddr {
    if i == 0 {
        IpAddr::V4(Ipv4Addr { a: 1, b: 1, c: 1, d: 1 })
    } else {
        IpAddr::V4(Ipv4Addr { a: 1, b: 0, c: 0, d: 1 })
    }
}

/// The record types asked for: addresses of version 4, then of version 6.
pub open spec fn doh_type(i: int) -> u16 {
    if i == 0 {
        1
    } else {
        28
    }
}

// ---------------------------------------------------------------------------
// Where a request goes
// ---------------------------------------------------------------------------

/// What a request's address says of its destination.
#[derive(Debug)]
pub struct Target {
    pub host: Option<String>,
    pub scheme: Option<String>,
    pub port: Option<u16>,
}

/// The port a request goes to.
pub open spec fn target_port(t: Target) -> u16 {
    match t.port {
        Some(p) => p,
        None => if text::opt_text(t.scheme) == Some("http"@) {
            80
        } else {
            443
        },
    }
}

impl SmartResolver {
    pub fn port_of(t: &Target) -> (r: u16)
        ensures
            r == target_port(*t),
    {
        match t.port {
            Some(p) => p,
            None => match &t.scheme {
                Some(s) => if text::same(s.as_str(), "http") {
                    80
                } else {
                    443
                },
                None => 443,
            },
        }
    }
}

/// Can a bootstrap help? A literal address (a bracketed one holds a colon)
/// needs no assistance.
pub open spec fn bootstrappable(host: Option<Seq<char>>) -> bool {
    match host {
        Some(h) => !h.contains(':') && ip::ip_of(h) is None,
        None => false,
    }
}

fn has_colon(s: &str) -> (r: bool)
    ensures
        r == s@.contains(':'),
{
    let v = text::chars_of(s);
    let mut i: usize = 0;
    while i < v.len()
        invariant
            i <= v@.len(),
            v@ == s@,
            forall|k: int| 0 <= k < i ==> s@[k] != ':',
        decreases v@.len() - i,
    {
        if v[i] == ':' {
            assert(s@[i as int] == ':');
            return true;
        }
        i = i + 1;
    }
    false
}

/// The host to bootstrap, where a bootstrap can help.
pub fn bootstrap_host(t: &Target) -> (r: Option<String>)
    ensures
        text::opt_text(r) == (if bootstrappable(text::opt_text(t.host)) {
            text::opt_text(t.host)
        } else {
            None
        }),
{
    match &t.host {
        Some(h) => if has_colon(h.as_str()) || ip::parse_ip(h.as_str()).is_some() {
            None
        } else {
            Some(h.clone())
        },
        None => None,
    }
}

// ---------------------------------------------------------------------------
// The question
// ---------------------------------------------------------------------------

/// A byte that stands for itself in a query.
pub open spec fn plain_byte(b: u8) -> bool {
    (65 <= b <= 90) || (97 <= b <= 122) || (48 <= b <= 57) || b == 45 || b == 46 || b == 95
}

/// The upper-case hexadecimal digit of value `d`.
pub open spec fn upper_hex(d: int) -> char {
    if d == 10 {
        'A'
    } else if d == 11 {
        'B'
    } else if d == 12 {
        'C'
    } else if d == 13 {
        'D'
    } else if d == 14 {
        'E'
    } else if d == 15 {
        'F'
    } else {
        text::digit_char(d)
    }
}

/// A byte as a query writes it.
pub open spec fn query_byte(b: u8) -> Seq<char> {
    if plain_byte(b) {
        seq![b as char]
    } else {
        seq!['%', upper_hex((b / 16) as int), upper_hex((b % 16) as int)]
    }
}

/// Bytes as a query writes them.
pub open spec fn query_bytes(bytes: Seq<u8>) -> Seq<char>
    decreases bytes.len(),
{
    if bytes.len() == 0 {
        Seq::empty()
    } else {
        query_bytes(bytes.drop_last()) + query_byte(bytes.last())
    }
}

fn upper_hex_of(d: u8) -> (c: char)
    requires
        d < 16,
    ensures
        c == upper_hex(d as int),
{
    match d {
        0 => '0',
        1 => '1',
        2 => '2',
        3 => '3',
        4 => '4',
        5 => '5',
        6 => '6',
        7 => '7',
        8 => '8',
        9 => '9',
        10 => 'A',
        11 => 'B',
        12 => 'C',
        13 => 'D',
        14 => 'E',
        _ => 'F',
    }
}

pub fn percent_encode(host: &str) -> (r: String)
    ensures
        r@ == query_bytes(encode_utf8(host@)),
{
    let bytes = host.as_bytes();
    let ghost all = encode_utf8(host@);
    let mut out = String::new();
    let mut i: usize = 0;
    while i < bytes.len()
        invariant
            i <= bytes@.len(),
            bytes@ == all,
            out@ == query_bytes(all.take(i as int)),
        decreases bytes@.len() - i,
    {
        let b = bytes[i];
        let ghost before = out@;
        if (65 <= b && b <= 90) || (97 <= b && b <= 122) || (48 <= b && b <= 57) || b == 45 || b
            == 46 || b == 95 {
            out.push(b as char);
        } else {
            out.push('%');
            out.push(upper_hex_of(b / 16));
            out.push(upper_hex_of(b % 16));
        }
        assert(out@ =~= before + query_byte(b));
        assert(all.take(i + 1).drop_last() =~= all.take(i as int));
        i = i + 1;
    }
    assert(all.take(i as int) =~= all);
    out
}

/// A character that can stand in a query without ending it.
pub open spec fn query_char(c: char) -> bool {
    text::alphanumeric(c) || c == '-' || c == '.' || c == '_' || c == '%'
}

/// An encoded host never ends the request line it stands in.
pub proof fn law_encoded_host_is_one_word(bytes: Seq<u8>)
    ensures
        forall|i: int| 0 <= i < query_bytes(bytes).len() ==> query_char(
            #[trigger] query_bytes(bytes)[i],
        ),
    decreases bytes.len(),
{
    if bytes.len() > 0 {
        let rest = bytes.drop_last();
        law_encoded_host_is_one_word(rest);
        let last = query_byte(bytes.last());
        assert forall|i: int| 0 <= i < query_bytes(bytes).len() implies query_char(
            #[trigger] query_bytes(bytes)[i],
        ) by {
            if i < query_bytes(rest).len() {
                assert(query_bytes(bytes)[i] == query_bytes(rest)[i]);
            } else {
                assert(query_bytes(bytes)[i] == last[i - query_bytes(rest).len()]);
            }
        }
    }
}

/// One DoH request.
pub open spec fn request_text(host: Seq<char>, typ: nat) -> Seq<char> {
    "GET /dns-query?name="@ + query_bytes(encode_utf8(host)) + "&type="@ + text::decimal(typ)
        + " HTTP/1.1\r\nHost: "@ + DOH_HOST@
        + "\r\nAccept: application/dns-json\r\nAccept-Encoding: identity\r\nConnection: close\r\n\r\n"@
}

/// The request for one DoH query (`type` 1 = A, 28 = AAAA).
pub fn doh_request(host: &str, typ: u16) -> (r: String)
    ensures
        r@ == request_text(host@, typ as nat),
{
    let name = percent_encode(host);
    let t = text::decimal_of(typ as u64);
    let mut out = "GET /dns-query?name=".to_owned();
    out.append(name.as_str());
    out.append("&type=");
    out.append(t.as_str());
    out.append(" HTTP/1.1\r\nHost: ");
    out.append(DOH_HOST);
    out.append("\r\nAccept: application/dns-json\r\nAccept-Encoding: identity\r\nConnection: close\r\n\r\n");
    out
}

// ---------------------------------------------------------------------------
// The answer
// ---------------------------------------------------------------------------

/// Why a query brought no addresses.
#[derive(Debug)]
pub enum DohError {
    /// The server could not be reached or asked, for this reason.
    Unreachable(String),
    /// The status line says that the query failed.
    Status(String),
    /// There is no end of the header.
    Malformed,
    /// The body is no JSON, for this reason.
    Json(String),
}

/// An error as the network log shows it.
pub open spec fn error_text(e: DohError) -> Seq<char> {
    match e {
        DohError::Unreachable(why) => why@,
        DohError::Status(line) => "doh status: "@ + line@,
        DohError::Malformed => "doh malformed response"@,
        DohError::Json(why) => "doh json: "@ + why@,
    }
}

impl DohError {
    pub fn message(&self) -> (r: String)
        ensures
            r@ == error_text(*self),
    {
        match self {
            DohError::Unreachable(why) => why.clone(),
            DohError::Status(line) => {
                let mut out = "doh status: ".to_owned();
                out.append(line.as_str());
                out
            },
            DohError::Malformed => "doh malformed response".to_owned(),
            DohError::Json(why) => {
                let mut out = "doh json: ".to_owned();
                out.append(why.as_str());
                out
            },
        }
    }
}

/// Does a header report success?
pub open spec fn status_ok(head: Seq<char>) -> bool {
    text::begins(head, "HTTP/1.1 200"@) || text::begins(head, "HTTP/2 200"@)
}

/// The first line of a header.
pub open spec fn status_line(head: Seq<char>) -> Seq<char> {
    let l = text::lines(head);
    if l.len() > 0 {
        l[0]
    } else {
        head
    }
}

/// The body of a reply, where it reports success.
pub fn doh_body(reply: &str) -> (r: Result<String, DohError>)
    ensures
        match text::split_first(reply@, "\r\n\r\n"@) {
            Some((head, body)) => if status_ok(head) {
                r matches Ok(b) && b@ == body
            } else {
                r matches Err(DohError::Status(line)) && line@ == status_line(head)
            },
            None => r == Err::<String, DohError>(DohError::Malformed),
        },
{
    match text::split_once(reply, "\r\n\r\n") {
        Some(pair) => {
            let head = pair.0;
            if text::starts_with(head.as_str(), "HTTP/1.1 200") || text::starts_with(
                head.as_str(),
                "HTTP/2 200",
            ) {
                Ok(pair.1)
            } else {
                let rows = text::lines_of(head.as_str());
                assert(text::texts(rows@).len() == rows@.len());
                if rows.len() > 0 {
                    assert(text::texts(rows@)[0] == rows@[0]@);
                    Err(DohError::Status(rows[0].clone()))
                } else {
                    Err(DohError::Status(head))
                }
            }
        },
        None => Err(DohError::Malformed),
    }
}

/// What a JSON document holds.
#[verifier::ext_equal]
pub enum Json {
    Null,
    Bool(bool),
    /// A number: its value, where it is a whole one from zero to the largest
    /// of 64 bits.
    Number(Option<u64>),
    Text(Seq<char>),
    Array(Seq<Json>),
    Object(Map<Seq<char>, Json>),
}

/// A parsed JSON document.
#[verifier::external_type_specification]
#[verifier::external_body]
pub struct ExJsonValue(serde_json::Value);

/// What a parsed document holds.
pub uninterp spec fn json_held(v: serde_json::Value) -> Json;

/// What `serde_json::from_str` makes of a text: what the document holds, or
/// the message that says why it is none.
pub uninterp spec fn json_of(body: Seq<char>) -> Result<Json, Seq<char>>;

/// `serde_json::from_str` into a `serde_json::Value`: what the document holds
/// depends on the text alone, and so does the message of an error.
#[verifier::external_body]
fn parse_json(body: &str) -> (r: Result<serde_json::Value, String>)
    ensures
        match r {
            Ok(v) => json_of(body@) == Ok::<Json, Seq<char>>(json_held(v)),
            Err(e) => json_of(body@) == Err::<Json, Seq<char>>(e@),
        },
{
    serde_json::from_str::<serde_json::Value>(body).map_err(|e| e.to_string())
}

/// The member of a document under a key.
pub open spec fn member(j: Json, key: Seq<char>) -> Option<Json> {
    match j {
        Json::Object(m) => if m.contains_key(key) {
            Some(m[key])
        } else {
            None
        },
        _ => None,
    }
}

/// `serde_json::Value::get` with a string for a key: the member under that key
/// of an object that has one; nothing of anything else.
#[verifier::external_body]
fn json_get<'a>(v: &'a serde_json::Value, key: &str) -> (r: Option<&'a serde_json::Value>)
    ensures
        match r {
            Some(m) => member(json_held(*v), key@) == Some(json_held(*m)),
            None => member(json_held(*v), key@) is None,
        },
{
    v.get(key)
}

/// What each of a list of parsed documents holds.
pub open spec fn all_held(v: Seq<serde_json::Value>) -> Seq<Json> {
    v.map_values(|e: serde_json::Value| json_held(e))
}

/// `serde_json::Value::as_array`: the elements of an array, in order; nothing
/// of anything else.
#[verifier::external_body]
fn json_array<'a>(v: &'a serde_json::Value) -> (r: Option<&'a Vec<serde_json::Value>>)
    ensures
        match r {
            Some(a) => json_held(*v) == Json::Array(all_held(a@)),
            None => !(json_held(*v) is Array),
        },
{
    v.as_array()
}

/// The value of a document that is a whole number of 64 bits.
pub open spec fn whole(j: Json) -> Option<u64> {
    match j {
        Json::Number(n) => n,
        _ => None,
    }
}

/// `serde_json::Value::as_u64`: the value of a number that is a whole one from
/// zero to the largest of 64 bits; nothing of anything else.
#[verifier::external_body]
fn json_u64(v: &serde_json::Value) -> (r: Option<u64>)
    ensures
        r == whole(json_held(*v)),
{
    v.as_u64()
}

/// `serde_json::Value::as_str`: the text of a string; nothing of anything else.
#[verifier::external_body]
fn json_str<'a>(v: &'a serde_json::Value) -> (r: Option<&'a str>)
    ensures
        match r {
            Some(s) => json_held(*v) == Json::Text(s@),
            None => !(json_held(*v) is Text),
        },
{
    v.as_str()
}

/// One answer record: its type, and its data where that is a string.
#[derive(Debug)]
pub struct Answer {
    pub typ: u16,
    pub data: Option<String>,
}

/// What an answer record says.
#[verifier::ext_equal]
pub struct AnswerText {
    pub typ: u16,
    pub data: Option<Seq<char>>,
}

impl View for Answer {
    type V = AnswerText;

    open spec fn view(&self) -> AnswerText {
        AnswerText { typ: self.typ, data: text::opt_text(self.data) }
    }
}

pub open spec fn answer_texts(v: Seq<Answer>) -> Seq<AnswerText> {
    v.map_values(|a: Answer| a@)
}

/// The record that an element of the answer section holds. Without a type it
/// has type zero; of a larger number the low sixteen bits count.
pub open spec fn answer_of(e: Json) -> AnswerText {
    AnswerText {
        typ: match member(e, "type"@) {
            Some(t) => match whole(t) {
                Some(n) => (n % 65536) as u16,
                None => 0,
            },
            None => 0,
        },
        data: match member(e, "data"@) {
            Some(Json::Text(s)) => Some(s),
            _ => None,
        },
    }
}

/// The answer section of a reply; without one it is empty.
pub open spec fn answer_section(j: Json) -> Seq<AnswerText> {
    match member(j, "Answer"@) {
        Some(Json::Array(elements)) => elements.map_values(|e: Json| answer_of(e)),
        _ => Seq::empty(),
    }
}

fn read_answer(e: &serde_json::Value) -> (r: Answer)
    ensures
        r@ == answer_of(json_held(*e)),
{
    let typ: u16 = match json_get(e, "type") {
        Some(t) => match json_u64(t) {
            Some(n) => (n % 65536) as u16,
            None => 0,
        },
        None => 0,
    };
    let data = match json_get(e, "data") {
        Some(d) => match json_str(d) {
            Some(s) => Some(s.to_owned()),
            None => None,
        },
        None => None,
    };
    Answer { typ, data }
}

fn read_elements(elements: &Vec<serde_json::Value>) -> (r: Vec<Answer>)
    ensures
        answer_texts(r@) == all_held(elements@).map_values(|e: Json| answer_of(e)),
{
    let mut out: Vec<Answer> = Vec::new();
    let ghost of = |e: Json| answer_of(e);
    let ghost all = all_held(elements@);
    let mut i: usize = 0;
    while i < elements.len()
        invariant
            i <= elements@.len(),
            of == (|e: Json| answer_of(e)),
            all == all_held(elements@),
            answer_texts(out@) == all.take(i as int).map_values(of),
        decreases elements@.len() - i,
    {
        let a = read_answer(&elements[i]);
        assert(answer_texts(out@.push(a)) =~= answer_texts(out@).push(a@));
        out.push(a);
        assert(all[i as int] == json_held(elements@[i as int]));
        assert(all.take(i + 1).map_values(of) =~= all.take(i as int).map_values(of).push(
            of(all[i as int]),
        ));
        i = i + 1;
    }
    assert(all.take(i as int) =~= all);
    out
}

/// The answer records of a parsed reply.
pub fn doh_answers(v: &serde_json::Value) -> (r: Vec<Answer>)
    ensures
        answer_texts(r@) == answer_section(json_held(*v)),
{
    match json_get(v, "Answer") {
        Some(a) => match json_array(a) {
            Some(elements) => read_elements(elements),
            None => {
                let out: Vec<Answer> = Vec::new();
                assert(answer_texts(out@) =~= Seq::<AnswerText>::empty());
                out
            },
        },
        None => {
            let out: Vec<Answer> = Vec::new();
            assert(answer_texts(out@) =~= Seq::<AnswerText>::empty());
            out
        },
    }
}

/// The addresses that the first `n` records of a type write down.
pub open spec fn addresses_upto(answers: Seq<AnswerText>, typ: u16, n: int) -> Seq<IpAddr>
    decreases n,
{
    if n <= 0 {
        Seq::empty()
    } else {
        let before = addresses_upto(answers, typ, n - 1);
        match answers[n - 1].data {
            Some(d) => match ip::ip_of(d) {
                Some(a) => if answers[n - 1].typ == typ {
                    before.push(a)
                } else {
                    before
                },
                None => before,
            },
            None => before,
        }
    }
}

/// The addresses that the records of a type write down.
pub open spec fn addresses(answers: Seq<AnswerText>, typ: u16) -> Seq<IpAddr> {
    addresses_upto(answers, typ, answers.len() as int)
}

/// The addresses among the answers of type `typ`; anything else is skipped.
pub fn select_addresses(answers: &Vec<Answer>, typ: u16) -> (r: Vec<IpAddr>)
    ensures
        r@ == addresses(answer_texts(answers@), typ),
{
    let ghost all = answer_texts(answers@);
    let mut out: Vec<IpAddr> = Vec::new();
    let mut i: usize = 0;
    assert(out@ =~= addresses_upto(all, typ, 0));
    while i < answers.len()
        invariant
            i <= answers@.len(),
            all == answer_texts(answers@),
            out@ == addresses_upto(all, typ, i as int),
        decreases answers@.len() - i,
    {
        assert(all[i as int] == answers@[i as int]@);
        if answers[i].typ == typ {
            match &answers[i].data {
                Some(d) => match ip::parse_ip(d.as_str()) {
                    Some(a) => {
                        out.push(a);
                    },
                    None => {},
                },
                None => {},
            }
        }
        i = i + 1;
    }
    out
}

/// Parse an `application/dns-json` reply.
pub fn parse_doh_json(body: &str, typ: u16) -> (r: Result<Vec<IpAddr>, DohError>)
    ensures
        match json_of(body@) {
            Ok(j) => r matches Ok(ips) && ips@ == addresses(answer_section(j), typ),
            Err(why) => r matches Err(DohError::Json(e)) && e@ == why,
        },
{
    match parse_json(body) {
        Ok(v) => {
            let answers = doh_answers(&v);
            Ok(select_addresses(&answers, typ))
        },
        Err(e) => Err(DohError::Json(e)),
    }
}

/// The addresses in the reply to a query of type `typ`.
pub fn doh_reply(reply: &str, typ: u16) -> (r: Result<Vec<IpAddr>, DohError>)
    ensures
        match text::split_first(reply@, "\r\n\r\n"@) {
            Some((head, body)) => if status_ok(head) {
                match json_of(body) {
                    Ok(j) => r matches Ok(ips) && ips@ == addresses(answer_section(j), typ),
                    Err(why) => r matches Err(DohError::Json(e)) && e@ == why,
                }
            } else {
                r matches Err(DohError::Status(line)) && line@ == status_line(head)
            },
            None => r == Err::<Vec<IpAddr>, DohError>(DohError::Malformed),
        },
{
    match doh_body(reply) {
        Ok(body) => parse_doh_json(body.as_str(), typ),
        Err(e) => Err(e),
    }
}

// ---------------------------------------------------------------------------
// When to ask, and whom
// ---------------------------------------------------------------------------

#[derive(Debug)]
struct CoolRow {
    host: String,
    at: u64,
}

#[derive(Debug)]
struct CacheRow {
    host: String,
    at: u64,
    addrs: Vec<SocketAddr>,
}

/// What the fallback remembers: when each host was last bootstrapped, and what
/// came of it.
#[derive(Debug)]
pub struct SmartResolver {
    cache: Vec<CacheRow>,
    cooldown: Vec<CoolRow>,
}

/// The first of `n` rows or later that is about a host.
spec fn cool_at(rows: Seq<CoolRow>, host: Seq<char>, n: int) -> Option<u64>
    decreases rows.len() - n,
{
    if n < 0 || n >= rows.len() {
        None
    } else if rows[n].host@ == host {
        Some(rows[n].at)
    } else {
        cool_at(rows, host, n + 1)
    }
}

spec fn cache_at(rows: Seq<CacheRow>, host: Seq<char>, n: int) -> Option<(u64, Seq<SocketAddr>)>
    decreases rows.len() - n,
{
    if n < 0 || n >= rows.len() {
        None
    } else if rows[n].host@ == host {
        Some((rows[n].at, rows[n].addrs@))
    } else {
        cache_at(rows, host, n + 1)
    }
}

proof fn lemma_cool_changed(
    old_rows: Seq<CoolRow>,
    new_rows: Seq<CoolRow>,
    at: int,
    row: CoolRow,
    host: Seq<char>,
    n: int,
)
    requires
        0 <= n <= at <= old_rows.len(),
        at < old_rows.len() ==> new_rows == old_rows.update(at, row) && old_rows[at].host@
            == row.host@,
        at == old_rows.len() ==> new_rows == old_rows.push(row),
        forall|k: int| 0 <= k < at ==> (#[trigger] old_rows[k]).host@ != row.host@,
    ensures
        cool_at(new_rows, host, n) == (if host == row.host@ {
            Some(row.at)
        } else {
            cool_at(old_rows, host, n)
        }),
    decreases at - n,
{
    if n < at {
        lemma_cool_changed(old_rows, new_rows, at, row, host, n + 1);
        assert(new_rows[n] == old_rows[n]);
    } else {
        assert(new_rows[at] == row);
        if host != row.host@ {
            lemma_cool_same(old_rows, new_rows, host, at + 1);
            if at == old_rows.len() {
                assert(cool_at(new_rows, host, at + 1) is None);
            }
        }
    }
}

proof fn lemma_cool_same(a: Seq<CoolRow>, b: Seq<CoolRow>, host: Seq<char>, n: int)
    requires
        0 <= n,
        n > a.len() && n == b.len() || (a.len() == b.len() && forall|k: int|
            n <= k < a.len() ==> a[k] == b[k]),
    ensures
        cool_at(a, host, n) == cool_at(b, host, n),
    decreases a.len() - n,
{
    if n < a.len() {
        lemma_cool_same(a, b, host, n + 1);
    }
}

proof fn lemma_cache_changed(
    old_rows: Seq<CacheRow>,
    new_rows: Seq<CacheRow>,
    at: int,
    row: CacheRow,
    host: Seq<char>,
    n: int,
)
    requires
        0 <= n <= at <= old_rows.len(),
        at < old_rows.len() ==> new_rows == old_rows.update(at, row) && old_rows[at].host@
            == row.host@,
        at == old_rows.len() ==> new_rows == old_rows.push(row),
        forall|k: int| 0 <= k < at ==> (#[trigger] old_rows[k]).host@ != row.host@,
    ensures
        cache_at(new_rows, host, n) == (if host == row.host@ {
            Some((row.at, row.addrs@))
        } else {
            cache_at(old_rows, host, n)
        }),
    decreases at - n,
{
    if n < at {
        lemma_cache_changed(old_rows, new_rows, at, row, host, n + 1);
        assert(new_rows[n] == old_rows[n]);
    } else {
        assert(new_rows[at] == row);
        if host != row.host@ {
            lemma_cache_same(old_rows, new_rows, host, at + 1);
            if at == old_rows.len() {
                assert(cache_at(new_rows, host, at + 1) is None);
            }
        }
    }
}

proof fn lemma_cache_same(a: Seq<CacheRow>, b: Seq<CacheRow>, host: Seq<char>, n: int)
    requires
        0 <= n,
        n > a.len() && n == b.len() || (a.len() == b.len() && forall|k: int|
            n <= k < a.len() ==> a[k] == b[k]),
    ensures
        cache_at(a, host, n) == cache_at(b, host, n),
    decreases a.len() - n,
{
    if n < a.len() {
        lemma_cache_same(a, b, host, n + 1);
    }
}

fn copy_addrs(v: &Vec<SocketAddr>) -> (r: Vec<SocketAddr>)
    ensures
        r@ == v@,
{
    let mut out: Vec<SocketAddr> = Vec::new();
    let mut i: usize = 0;
    while i < v.len()
        invariant
            i <= v@.len(),
            out@ == v@.take(i as int),
        decreases v@.len() - i,
    {
        out.push(v[i]);
        assert(v@.take(i + 1) =~= v@.take(i as int).push(v@[i as int]));
        i = i + 1;
    }
    assert(v@.take(i as int) =~= v@);
    out
}

/// Milliseconds from `earlier` to `now`; none where the clock says otherwise.
pub open spec fn since(now: u64, earlier: u64) -> int {
    if now >= earlier {
        now - earlier
    } else {
        0
    }
}

fn time_since(now: u64, earlier: u64) -> (r: u64)
    ensures
        r == since(now, earlier),
{
    if now >= earlier {
        now - earlier
    } else {
        0
    }
}

/// Is a host that was bootstrapped then left alone now?
pub open spec fn cooling(last: Option<u64>, now: u64) -> bool {
    last matches Some(at) && since(now, at) < COOLDOWN
}

/// Is a cached result still good?
pub open spec fn usable(entry: Option<(u64, Seq<SocketAddr>)>, now: u64) -> bool {
    entry matches Some(e) && since(now, e.0) < CACHE_TTL
}

/// How a lookup begins.
pub enum LookupBegin {
    /// From the cache.
    Served(Seq<SocketAddr>),
    /// Not at all: the host was bootstrapped a moment ago.
    LeftAlone,
    /// With a query.
    Asks,
}

/// How a lookup begins, from what is cached of the host and when it was last
/// bootstrapped: a usable result is served whatever the cooldown says.
pub open spec fn lookup_begin(
    cached: Option<(u64, Seq<SocketAddr>)>,
    tried: Option<u64>,
    now: u64,
    start: u64,
) -> LookupBegin {
    if usable(cached, start) {
        LookupBegin::Served(cached.unwrap().1)
    } else if cooling(tried, now) {
        LookupBegin::LeftAlone
    } else {
        LookupBegin::Asks
    }
}

/// A bootstrap under way: what was asked, and what came of it.
#[derive(Debug)]
pub struct DohLookup {
    /// When it began.
    pub start: u64,
    /// The server to ask next.
    pub server: usize,
    /// The record type to ask next.
    pub kind: usize,
    pub attempted: bool,
    pub found: Vec<SocketAddr>,
}

/// How a bootstrap begins.
#[derive(Debug)]
pub enum DohStart {
    /// The host was bootstrapped a moment ago.
    Refused,
    Cached(Vec<SocketAddr>),
    Ask(DohLookup),
}

/// One query to make.
#[derive(Debug, Clone, Copy, PartialEq, Eq, Structural)]
pub struct DohQuery {
    pub server: IpAddr,
    pub typ: u16,
}

/// The query that a bootstrap makes next, if any: each server is asked for
/// both types, the next one only where the last gave nothing, and none once
/// the budget is spent.
pub open spec fn query_next(l: DohLookup, now: u64) -> Option<DohQuery> {
    if since(now, l.start) >= BUDGET || l.server >= DOH_SERVERS || (l.kind == 0
        && l.found@.len() > 0) {
        None
    } else {
        Some(DohQuery { server: doh_server(l.server as int), typ: doh_type(l.kind as int) })
    }
}

/// A time limit cut down to what is left of the budget.
pub open spec fn within_budget(l: DohLookup, now: u64, limit: u64) -> int {
    let left = if since(now, l.start) < BUDGET {
        BUDGET - since(now, l.start)
    } else {
        0
    };
    if left < limit {
        left
    } else {
        limit as int
    }
}

/// Addresses with a port.
pub open spec fn with_port(ips: Seq<IpAddr>, port: u16) -> Seq<SocketAddr> {
    ips.map_values(|a: IpAddr| SocketAddr { ip: a, port })
}

/// What a reply adds.
pub open spec fn reply_addrs(reply: Result<Vec<IpAddr>, DohError>, port: u16) -> Seq<SocketAddr> {
    match reply {
        Ok(ips) => with_port(ips@, port),
        Err(_) => Seq::empty(),
    }
}

/// What the network log records of a query: the server asked, the host asked
/// for, and the error, where there was one. A query that succeeds is recorded
/// too.
pub open spec fn query_record(
    host: Seq<char>,
    reply: Result<Vec<IpAddr>, DohError>,
) -> RecordText {
    RecordText {
        host: DOH_HOST@,
        path: "/dns-query?name="@ + host,
        error: match reply {
            Ok(_) => None,
            Err(e) => Some("doh fallback: "@ + error_text(e)),
        },
    }
}

fn record_query(host: &str, reply: &Result<Vec<IpAddr>, DohError>) -> (r: NetRecord)
    ensures
        r@ == query_record(host@, *reply),
{
    let mut path = "/dns-query?name=".to_owned();
    path.append(host);
    let outcome = match reply {
        Ok(_) => Ok(()),
        Err(e) => {
            let mut why = "doh fallback: ".to_owned();
            let m = e.message();
            why.append(m.as_str());
            Err(why)
        },
    };
    NetRecord { host: DOH_HOST.to_owned(), path, outcome }
}

impl DohLookup {
    /// Server and type are known ones, or all have been asked.
    pub open spec fn wf(self) -> bool {
        self.server <= DOH_SERVERS && self.kind < 2
    }

    /// How many queries are left.
    pub open spec fn left(self) -> int {
        2 * (DOH_SERVERS - self.server) - self.kind
    }

    /// How long a connection to a server may take.
    pub fn connect_timeout(&self, now: u64) -> (r: u64)
        ensures
            r == within_budget(*self, now, CONNECT_TIMEOUT),
    {
        let spent = time_since(now, self.start);
        if spent >= BUDGET {
            0
        } else if BUDGET - spent < CONNECT_TIMEOUT {
            BUDGET - spent
        } else {
            CONNECT_TIMEOUT
        }
    }

    /// How long each step on that connection may take.
    pub fn io_timeout(&self, now: u64) -> (r: u64)
        ensures
            r == within_budget(*self, now, IO_BUDGET),
    {
        let spent = time_since(now, self.start);
        if spent >= BUDGET {
            0
        } else if BUDGET - spent < IO_BUDGET {
            BUDGET - spent
        } else {
            IO_BUDGET
        }
    }

    /// The query to make next, if any.
    pub fn next_query(&self, now: u64) -> (r: Option<DohQuery>)
        ensures
            r == query_next(*self, now),
    {
        if time_since(now, self.start) >= BUDGET || self.server >= DOH_SERVERS || (self.kind == 0
            && self.found.len() > 0) {
            return None;
        }
        let server = if self.server == 0 {
            IpAddr::V4(Ipv4Addr { a: 1, b: 1, c: 1, d: 1 })
        } else {
            IpAddr::V4(Ipv4Addr { a: 1, b: 0, c: 0, d: 1 })
        };
        let typ: u16 = if self.kind == 0 {
            1
        } else {
            28
        };
        Some(DohQuery { server, typ })
    }

    /// Takes the reply to the query that was made for `host`: an error adds
    /// nothing. Gives what the network log is to record of the query.
    #[must_use]
    pub fn take_reply(
        &mut self,
        host: &str,
        reply: &Result<Vec<IpAddr>, DohError>,
        port: u16,
    ) -> (r: NetRecord)
        requires
            old(self).wf(),
            old(self).server < DOH_SERVERS,
        ensures
            r@ == query_record(host@, *reply),
            final(self).wf(),
            final(self).attempted,
            final(self).start == old(self).start,
            final(self).found@ == old(self).found@ + reply_addrs(*reply, port),
            final(self).left() == old(self).left() - 1,
            old(self).kind == 0 ==> final(self).kind == 1 && final(self).server
                == old(self).server,
            old(self).kind == 1 ==> final(self).kind == 0 && final(self).server
                == old(self).server + 1,
    {
        self.attempted = true;
        let ghost before = self.found@;
        match reply {
            Ok(ips) => {
                let mut i: usize = 0;
                assert(before + with_port(ips@.take(0), port) =~= before);
                while i < ips.len()
                    invariant
                        i <= ips@.len(),
                        self.found@ == before + with_port(ips@.take(i as int), port),
                        self.start == old(self).start,
                        self.server == old(self).server,
                        self.kind == old(self).kind,
                        self.attempted,
                    decreases ips@.len() - i,
                {
                    self.found.push(SocketAddr { ip: ips[i], port });
                    assert(before + with_port(ips@.take(i + 1), port) =~= (before + with_port(
                        ips@.take(i as int),
                        port,
                    )).push(SocketAddr { ip: ips@[i as int], port }));
                    i = i + 1;
                }
                assert(ips@.take(i as int) =~= ips@);
            },
            Err(_) => {
                assert(before + Seq::<SocketAddr>::empty() =~= before);
            },
        }
        if self.kind == 0 {
            self.kind = 1;
        } else {
            self.kind = 0;
            self.server = self.server + 1;
        }
        record_query(host, reply)
    }
}

impl SmartResolver {
    /// When a host was last bootstrapped.
    pub closed spec fn last_tried(self, host: Seq<char>) -> Option<u64> {
        cool_at(self.cooldown@, host, 0)
    }

    /// What is cached of a host, and since when.
    pub closed spec fn cached(self, host: Seq<char>) -> Option<(u64, Seq<SocketAddr>)> {
        cache_at(self.cache@, host, 0)
    }

    /// A resolver that remembers nothing.
    pub fn new() -> (r: Self)
        ensures
            forall|h: Seq<char>| #[trigger] r.last_tried(h) is None,
            forall|h: Seq<char>| #[trigger] r.cached(h) is None,
    {
        SmartResolver { cache: Vec::new(), cooldown: Vec::new() }
    }

    fn find_tried(&self, host: &str) -> (r: usize)
        ensures
            r <= self.cooldown@.len(),
            r < self.cooldown@.len() ==> self.cooldown@[r as int].host@ == host@
                && self.last_tried(host@) == Some(self.cooldown@[r as int].at),
            r == self.cooldown@.len() ==> self.last_tried(host@) is None,
            forall|k: int| 0 <= k < r ==> (#[trigger] self.cooldown@[k]).host@ != host@,
    {
        let mut i: usize = 0;
        while i < self.cooldown.len()
            invariant
                i <= self.cooldown@.len(),
                self.last_tried(host@) == cool_at(self.cooldown@, host@, i as int),
                forall|k: int| 0 <= k < i ==> (#[trigger] self.cooldown@[k]).host@ != host@,
            decreases self.cooldown@.len() - i,
        {
            if text::same(self.cooldown[i].host.as_str(), host) {
                return i;
            }
            i = i + 1;
        }
        i
    }

    fn find_cached(&self, host: &str) -> (r: usize)
        ensures
            r <= self.cache@.len(),
            r < self.cache@.len() ==> self.cache@[r as int].host@ == host@ && self.cached(host@)
                == Some((self.cache@[r as int].at, self.cache@[r as int].addrs@)),
            r == self.cache@.len() ==> self.cached(host@) is None,
            forall|k: int| 0 <= k < r ==> (#[trigger] self.cache@[k]).host@ != host@,
    {
        let mut i: usize = 0;
        while i < self.cache.len()
            invariant
                i <= self.cache@.len(),
                self.cached(host@) == cache_at(self.cache@, host@, i as int),
                forall|k: int| 0 <= k < i ==> (#[trigger] self.cache@[k]).host@ != host@,
            decreases self.cache@.len() - i,
        {
            if text::same(self.cache[i].host.as_str(), host) {
                return i;
            }
            i = i + 1;
        }
        i
    }

    /// Begins a bootstrap of `host`: a fresh result is taken from the cache,
    /// else a host that was bootstrapped a moment ago is left alone. `now` is
    /// when the cooldown is weighed, `start` when the cache is and the queries
    /// begin. Only a bootstrap that asks counts for the cooldown.
    pub fn doh_resolve(&mut self, host: &str, now: u64, start: u64) -> (r: DohStart)
        ensures
            match lookup_begin(
                old(self).cached(host@),
                old(self).last_tried(host@),
                now,
                start,
            ) {
                LookupBegin::Served(found) => {
                    &&& r matches DohStart::Cached(addrs) && addrs@ == found
                    &&& *final(self) == *old(self)
                },
                LookupBegin::LeftAlone => r is Refused && *final(self) == *old(self),
                LookupBegin::Asks => {
                    &&& r matches DohStart::Ask(l) && l.start == start && l.server == 0 && l.kind
                        == 0 && !l.attempted && l.found@.len() == 0
                    &&& forall|h: Seq<char>| #[trigger]
                        final(self).last_tried(h) == (if h == host@ {
                            Some(now)
                        } else {
                            old(self).last_tried(h)
                        })
                    &&& forall|h: Seq<char>| #[trigger]
                        final(self).cached(h) == old(self).cached(h)
                },
            },
    {
        let k = self.find_cached(host);
        if k < self.cache.len() {
            if time_since(start, self.cache[k].at) < CACHE_TTL {
                return DohStart::Cached(copy_addrs(&self.cache[k].addrs));
            }
        }
        let i = self.find_tried(host);
        if i < self.cooldown.len() {
            if time_since(now, self.cooldown[i].at) < COOLDOWN {
                return DohStart::Refused;
            }
        }
        let ghost before = self.cooldown@;
        let row = CoolRow { host: host.to_owned(), at: now };
        let ghost added = row;
        if i < self.cooldown.len() {
            self.cooldown.set(i, row);
        } else {
            self.cooldown.push(row);
        }
        proof {
            assert forall|h: Seq<char>| #[trigger] self.last_tried(h) == (if h == host@ {
                Some(now)
            } else {
                old(self).last_tried(h)
            }) by {
                lemma_cool_changed(before, self.cooldown@, i as int, added, h, 0);
            }
        }
        DohStart::Ask(
            DohLookup { start, server: 0, kind: 0, attempted: false, found: Vec::new() },
        )
    }

    /// Ends a bootstrap: what was found is cached. `None` means that nothing
    /// could be asked.
    pub fn finish(&mut self, host: &str, lookup: &DohLookup, now: u64) -> (r: Option<
        Vec<SocketAddr>,
    >)
        ensures
            match r {
                Some(addrs) => lookup.attempted && addrs@ == lookup.found@,
                None => !lookup.attempted,
            },
            forall|h: Seq<char>| #[trigger]
                final(self).cached(h) == (if lookup.attempted && lookup.found@.len() > 0 && h
                    == host@ {
                    Some((now, lookup.found@))
                } else {
                    old(self).cached(h)
                }),
            forall|h: Seq<char>| #[trigger]
                final(self).last_tried(h) == old(self).last_tried(h),
    {
        if !lookup.attempted {
            return None;
        }
        if lookup.found.len() > 0 {
            let k = self.find_cached(host);
            let ghost before = self.cache@;
            let row = CacheRow { host: host.to_owned(), at: now, addrs: copy_addrs(&lookup.found) };
            let ghost added = row;
            if k < self.cache.len() {
                self.cache.set(k, row);
            } else {
                self.cache.push(row);
            }
            proof {
                assert forall|h: Seq<char>| #[trigger] self.cached(h) == (if h == host@ {
                    Some((now, lookup.found@))
                } else {
                    old(self).cached(h)
                }) by {
                    lemma_cache_changed(before, self.cache@, k as int, added, h, 0);
                }
            }
        }
        Some(copy_addrs(&lookup.found))
    }
}

impl Default for SmartResolver {
    fn default() -> (r: Self)
        ensures
            forall|h: Seq<char>| #[trigger] r.last_tried(h) is None,
            forall|h: Seq<char>| #[trigger] r.cached(h) is None,
    {
        SmartResolver::new()
    }
}

/// What a failed system lookup becomes: the addresses of the bootstrap where
/// it found any, else the system's own error (`None`).
pub fn fallback(found: Option<Vec<SocketAddr>>) -> (r: Option<Vec<SocketAddr>>)
    ensures
        r == (match found {
            Some(addrs) => if addrs@.len() > 0 {
                Some(addrs)
            } else {
                None
            },
            None => None,
        }),
{
    match found {
        Some(addrs) => if addrs.len() > 0 {
            Some(addrs)
        } else {
            None
        },
        None => None,
    }
}

// ---------------------------------------------------------------------------
// What holds of every lookup
// ---------------------------------------------------------------------------

/// A lookup asks at most four times: each query leaves one less, and none is
/// made once none is left.
pub proof fn law_queries_run_out(l: DohLookup, now: u64)
    requires
        l.wf(),
    ensures
        query_next(l, now) is Some ==> l.left() > 0,
        l.server == 0 && l.kind == 0 ==> l.left() == 4,
{
}

/// The mirror is asked only where the first server gave nothing.
pub proof fn law_mirror_is_a_last_resort(l: DohLookup, now: u64)
    requires
        l.wf(),
        l.server == 1,
        l.kind == 0,
        query_next(l, now) is Some,
    ensures
        l.found@.len() == 0,
{
}

/// No query is made once the budget is spent.
pub proof fn law_budget_is_kept(l: DohLookup, now: u64)
    requires
        since(now, l.start) >= BUDGET,
    ensures
        query_next(l, now) is None,
{
}

/// What was found is served from the cache until its time is over, however
/// recently the host was bootstrapped.
pub proof fn law_success_is_served_again(
    at: u64,
    addrs: Seq<SocketAddr>,
    tried: Option<u64>,
    now: u64,
    start: u64,
)
    requires
        at <= start,
    ensures
        start < at + CACHE_TTL ==> lookup_begin(Some((at, addrs)), tried, now, start)
            == LookupBegin::Served(addrs),
        start >= at + CACHE_TTL ==> !(lookup_begin(Some((at, addrs)), tried, now, start) is Served),
{
}

/// A host whose bootstrap brought nothing is left alone for the cooldown, and
/// asked for again after it.
pub proof fn law_cooldown_is_kept(tried: u64, now: u64, start: u64)
    requires
        tried <= now,
    ensures
        lookup_begin(None, Some(tried), now, start) == (if now < tried + COOLDOWN {
            LookupBegin::LeftAlone
        } else {
            LookupBegin::Asks
        }),
{
}

// ---------------------------------------------------------------------------
// What is asked, and what is made of the answer
// ---------------------------------------------------------------------------

/// Only a name is looked up: an address, of either family, needs no lookup.
pub proof fn law_only_names_are_bootstrapped(host: Seq<char>, v: Ipv4Addr)
    ensures
        !bootstrappable(None),
        host.contains(':') ==> !bootstrappable(Some(host)),
        !bootstrappable(Some(ip::dotted(v))),
        !host.contains(':') && (forall|a: Ipv4Addr| host != #[trigger] ip::dotted(a))
            ==> bootstrappable(Some(host)),
{
    ip::law_dotted_address_is_read_back(ip::dotted(v), v);
    if !host.contains(':') && (forall|a: Ipv4Addr| host != #[trigger] ip::dotted(a)) {
        ip::law_names_are_no_addresses(host);
    }
}

/// A port that is given is taken; without one it is that of the scheme.
pub proof fn law_port_of_a_target(t: Target)
    ensures
        t.port matches Some(p) ==> target_port(t) == p,
        t.port is None && t.scheme is Some && t.scheme.unwrap()@ == "http"@ ==> target_port(t)
            == 80,
        t.port is None && !(t.scheme is Some && t.scheme.unwrap()@ == "http"@) ==> target_port(t)
            == 443,
{
}

/// In a query letters, digits, dashes, dots and underscores stand for themselves;
/// every other byte is written as a percent sign and two upper-case hexadecimal
/// digits. The bytes keep their order.
pub proof fn law_query_encoding(bytes: Seq<u8>, b: u8)
    ensures
        query_bytes(Seq::empty()).len() == 0,
        query_bytes(bytes.push(b)) == query_bytes(bytes) + (if b < 128
            && "ABCDEFGHIJKLMNOPQRSTUVWXYZabcdefghijklmnopqrstuvwxyz0123456789-._"@.contains(
            b as char,
        ) {
            seq![b as char]
        } else {
            seq![
                '%',
                "0123456789ABCDEF"@[(b / 16) as int],
                "0123456789ABCDEF"@[(b % 16) as int],
            ]
        }),
{
    reveal_strlit("ABCDEFGHIJKLMNOPQRSTUVWXYZabcdefghijklmnopqrstuvwxyz0123456789-._");
    reveal_strlit("0123456789ABCDEF");
    assert(bytes.push(b).drop_last() =~= bytes);
    let all = "ABCDEFGHIJKLMNOPQRSTUVWXYZabcdefghijklmnopqrstuvwxyz0123456789-._"@;
    if plain_byte(b) {
        let k = if b == 45 {
            62
        } else if b == 46 {
            63
        } else if b == 95 {
            64
        } else if 65 <= b <= 90 {
            b as int - 65
        } else if 97 <= b <= 122 {
            26 + (b as int - 97)
        } else {
            52 + (b as int - 48)
        };
        assert(all[k] == b as char);
    }
}

/// A request asks for the host and the record type that it is about, and is sent
/// to the resolver by name.
pub proof fn law_request_names_host_and_type(host: Seq<char>, typ: nat)
    ensures
        request_text(host, typ) == "GET /dns-query?name="@ + query_bytes(encode_utf8(host))
            + "&type="@ + text::decimal(typ) + " HTTP/1.1\r\nHost: "@ + "cloudflare-dns.com"@
            + "\r\nAccept: application/dns-json\r\nAccept-Encoding: identity\r\nConnection: close\r\n\r\n"@,
{
}

/// A reply counts where its first line says 200.
pub proof fn law_status_is_read_off_the_first_line(rest: Seq<char>, head: Seq<char>)
    ensures
        status_ok("HTTP/1.1 200"@ + rest),
        status_ok("HTTP/2 200"@ + rest),
        status_ok(head) ==> "HTTP/1.1 200"@.is_prefix_of(head) || "HTTP/2 200"@.is_prefix_of(head),
{
    text::law_parts(head, head, rest, "HTTP/1.1 200"@);
    text::law_parts(head, head, rest, "HTTP/2 200"@);
}

/// An answer is read by the members of its object: its type, and its data where
/// that is a text.
pub proof fn law_answer_is_read_by_its_members(
    m: Map<Seq<char>, Json>,
    n: u64,
    data: Seq<char>,
)
    ensures
        m.contains_key("type"@) && m["type"@] == Json::Number(Some(n)) && n < 65536 ==> answer_of(
            Json::Object(m),
        ).typ == n,
        !m.contains_key("type"@) ==> answer_of(Json::Object(m)).typ == 0,
        m.contains_key("data"@) && m["data"@] == Json::Text(data) ==> answer_of(
            Json::Object(m),
        ).data == Some(data),
        !m.contains_key("data"@) ==> answer_of(Json::Object(m)).data is None,
{
}

/// Every element of the answer section is read, in their order; a reply without
/// one has no answers.
pub proof fn law_every_answer_is_read(m: Map<Seq<char>, Json>, elements: Seq<Json>, i: int)
    ensures
        m.contains_key("Answer"@) && m["Answer"@] == Json::Array(elements) ==> {
            &&& answer_section(Json::Object(m)).len() == elements.len()
            &&& 0 <= i < elements.len() ==> answer_section(Json::Object(m))[i] == answer_of(
                elements[i],
            )
        },
        !m.contains_key("Answer"@) ==> answer_section(Json::Object(m)).len() == 0,
{
}

proof fn lemma_addresses_push(answers: Seq<AnswerText>, a: AnswerText, typ: u16, n: int)
    requires
        0 <= n <= answers.len(),
    ensures
        addresses_upto(answers.push(a), typ, n) == addresses_upto(answers, typ, n),
    decreases n,
{
    if n > 0 {
        lemma_addresses_push(answers, a, typ, n - 1);
        assert(answers.push(a)[n - 1] == answers[n - 1]);
    }
}

/// The addresses of a reply are those of the answers of the type that was asked
/// for, in their order; an answer that holds no address is passed over.
pub proof fn law_addresses_of_the_asked_type(
    answers: Seq<AnswerText>,
    typ: u16,
    a: AnswerText,
    addr: IpAddr,
)
    ensures
        addresses(Seq::empty(), typ).len() == 0,
        a.typ == typ && a.data is Some && ip::ip_of(a.data.unwrap()) == Some(addr) ==> addresses(
            answers.push(a),
            typ,
        ) == addresses(answers, typ).push(addr),
        a.typ != typ || a.data is None || ip::ip_of(a.data.unwrap()) is None ==> addresses(
            answers.push(a),
            typ,
        ) == addresses(answers, typ),
{
    lemma_addresses_push(answers, a, typ, answers.len() as int);
    assert(answers.push(a)[answers.len() as int] == a);
}

/// The pinned servers are asked one after the other, each for addresses of
/// version 4 and then of version 6, while there is time; the second one only
/// where the first had none.
pub proof fn law_order_of_the_queries(l: DohLookup, now: u64)
    requires
        l.wf(),
    ensures
        query_next(l, now) is Some <==> since(now, l.start) < 4_000 && l.server < 2 && !(l.kind == 0
            && l.found@.len() > 0),
        query_next(l, now) matches Some(q) ==> {
            &&& q.server == IpAddr::V4(
                if l.server == 0 {
                    Ipv4Addr { a: 1, b: 1, c: 1, d: 1 }
                } else {
                    Ipv4Addr { a: 1, b: 0, c: 0, d: 1 }
                },
            )
            &&& l.kind == 0 ==> q.typ == 1
            &&& l.kind == 1 ==> q.typ == 28
        },
{
}

/// A query waits two seconds at most to connect and two to be answered, and never
/// longer than the lookup has left of its four.
pub proof fn law_queries_fit_the_budget(l: DohLookup, now: u64)
    requires
        l.start <= now,
    ensures
        CONNECT_TIMEOUT == 2_000 && IO_BUDGET == 2_000,
        forall|limit: u64| #[trigger]
            within_budget(l, now, limit) == vstd::math::min(
                limit as int,
                vstd::math::max(0, 4_000 - (now - l.start)),
            ),
{
}

/// A result is served again for thirty seconds, and a host that was asked for is
/// left alone for ten.
pub proof fn law_times_of_the_resolver(
    at: u64,
    addrs: Seq<SocketAddr>,
    tried: u64,
    now: u64,
    start: u64,
)
    requires
        at <= start,
        tried <= now,
    ensures
        lookup_begin(Some((at, addrs)), Some(tried), now, start) is Served <==> start - at < 30_000,
        lookup_begin(None, Some(tried), now, start) is LeftAlone <==> now - tried < 10_000,
        lookup_begin(None, None, now, start) is Asks,
{
}

/// Every address of a reply is found, in their order, with the port that was asked
/// for; a failed query finds none.
pub proof fn law_found_addresses_carry_the_port(
    reply: Result<Vec<IpAddr>, DohError>,
    port: u16,
    i: int,
)
    ensures
        reply matches Ok(ips) ==> {
            &&& reply_addrs(reply, port).len() == ips@.len()
            &&& 0 <= i < ips@.len() ==> reply_addrs(reply, port)[i] == (SocketAddr {
                ip: ips@[i],
                port,
            })
        },
        reply is Err ==> reply_addrs(reply, port).len() == 0,
{
}

/// A query is recorded with the resolver's name and the host that was asked for;
/// the record holds an error exactly where the query failed, and names the cause.
pub proof fn law_queries_are_recorded(
    host: Seq<char>,
    reply: Result<Vec<IpAddr>, DohError>,
    why: String,
)
    ensures
        query_record(host, reply).host == "cloudflare-dns.com"@,
        host.is_suffix_of(query_record(host, reply).path),
        query_record(host, reply).error is Some <==> reply is Err,
        reply == Err::<Vec<IpAddr>, DohError>(DohError::Unreachable(why)) || reply == Err::<
            Vec<IpAddr>,
            DohError,
        >(DohError::Status(why)) || reply == Err::<Vec<IpAddr>, DohError>(DohError::Json(why))
            ==> why@.is_suffix_of(query_record(host, reply).error.unwrap()),
{
    let path = query_record(host, reply).path;
    assert(host =~= path.subrange(path.len() - host.len(), path.len() as int));
    if let Err(e) = reply {
        let said = query_record(host, reply).error.unwrap();
        let n = said.len() - why@.len();
        if reply == Err::<Vec<IpAddr>, DohError>(DohError::Unreachable(why)) || reply == Err::<
            Vec<IpAddr>,
            DohError,
        >(DohError::Status(why)) || reply == Err::<Vec<IpAddr>, DohError>(DohError::Json(why)) {
            assert(why@ =~= said.subrange(n, said.len() as int));
        }
    }
}

/// A refusal is told by the first line of the reply.
pub proof fn law_refusal_is_told_by_the_first_line(l: Seq<char>, rest: Seq<char>)
    requires
        forall|i: int| 0 <= i < l.len() ==> #[trigger] l[i] != '\n',
    ensures
        status_line(l) == l,
        status_line(l + seq!['\r', '\n'] + rest) == l,
{
    text::law_lines(l, rest);
}

/// The time that passed is what was added to the clock; a clock that went back tells
/// of none.
pub proof fn law_time_that_passed(earlier: u64, passed: u64)
    ensures
        earlier + passed <= u64::MAX ==> since((earlier + passed) as u64, earlier) == passed,
        passed < earlier ==> since(passed, earlier) == 0,
{
}

} // verus!
