//! Internet addresses and their textual form.

use vstd::prelude::*;

use crate::text;

verus! {

/// An internet address.
#[derive(Debug, Clone, Copy, PartialEq, Eq, Structural)]
pub enum IpAddr {
    V4(Ipv4Addr),
    V6(Ipv6Addr),
}

/// Four octets.
#[derive(Debug, Clone, Copy, PartialEq, Eq, Structural)]
pub struct Ipv4Addr {
    pub a: u8,
    pub b: u8,
    pub c: u8,
    pub d: u8,
}

/// Eight groups of sixteen bits.
#[derive(Debug, Clone, Copy, PartialEq, Eq, Structural)]
pub struct Ipv6Addr {
    pub g0: u16,
    pub g1: u16,
    pub g2: u16,
    pub g3: u16,
    pub g4: u16,
    pub g5: u16,
    pub g6: u16,
    pub g7: u16,
}

/// An address and a port.
#[derive(Debug, Clone, Copy, PartialEq, Eq, Structural)]
pub struct SocketAddr {
    pub ip: IpAddr,
    pub port: u16,
}

// ---------------------------------------------------------------------------
// Version 4
// ---------------------------------------------------------------------------

/// An octet: one to three digits, no leading zero, at most 255.
pub open spec fn octet(s: Seq<char>) -> Option<nat> {
    if text::all_digits(s) && s.len() <= 3 && (s.len() == 1 || s[0] != '0') && text::digits_value(s)
        <= 255 {
        Some(text::digits_value(s))
    } else {
        None
    }
}

/// Four octets between dots.
pub open spec fn v4_of(s: Seq<char>) -> Option<Ipv4Addr> {
    let p = text::split(s, '.');
    if p.len() == 4 {
        match (octet(p[0]), octet(p[1]), octet(p[2]), octet(p[3])) {
            (Some(a), Some(b), Some(c), Some(d)) => Some(
                Ipv4Addr { a: a as u8, b: b as u8, c: c as u8, d: d as u8 },
            ),
            _ => None,
        }
    } else {
        None
    }
}

fn parse_octet(s: &str) -> (r: Option<u8>)
    ensures
        match r {
            Some(n) => octet(s@) == Some(n as nat),
            None => octet(s@) is None,
        },
{
    let v = text::chars_of(s);
    if v.len() == 0 || v.len() > 3 || (v.len() > 1 && v[0] == '0') || v[0] == '+' {
        assert(v@.len() > 0 && v@[0] == '+' ==> !text::digit(s@[0]));
        return None;
    }
    assert(text::unsigned_digits(s@) == s@);
    match text::parse_uint(s, 255) {
        Some(n) => Some(n as u8),
        None => None,
    }
}

pub fn parse_v4(s: &str) -> (r: Option<Ipv4Addr>)
    ensures
        r == v4_of(s@),
{
    let p = text::split_at_char(s, '.');
    let ghost all = text::split(s@, '.');
    assert(text::texts(p@).len() == p@.len());
    if p.len() != 4 {
        return None;
    }
    assert(all[0] == p@[0]@ && all[1] == p@[1]@ && all[2] == p@[2]@ && all[3] == p@[3]@);
    let a = parse_octet(p[0].as_str());
    let b = parse_octet(p[1].as_str());
    let c = parse_octet(p[2].as_str());
    let d = parse_octet(p[3].as_str());
    match (a, b, c, d) {
        (Some(a), Some(b), Some(c), Some(d)) => Some(Ipv4Addr { a, b, c, d }),
        _ => None,
    }
}

// ---------------------------------------------------------------------------
// Version 6
// ---------------------------------------------------------------------------

/// The value of a hexadecimal digit.
pub open spec fn hex_value(c: char) -> Option<nat> {
    if '0' <= c <= '9' {
        Some((c as int - '0' as int) as nat)
    } else if 'a' <= c <= 'f' {
        Some((c as int - 'a' as int + 10) as nat)
    } else if 'A' <= c <= 'F' {
        Some((c as int - 'A' as int + 10) as nat)
    } else {
        None
    }
}

/// The value of a run of hexadecimal digits.
pub open spec fn hex_run(s: Seq<char>) -> Option<nat>
    decreases s.len(),
{
    if s.len() == 0 {
        Some(0nat)
    } else {
        match (hex_run(s.drop_last()), hex_value(s.last())) {
            (Some(n), Some(d)) => Some(n * 16 + d),
            _ => None,
        }
    }
}

/// A group: one to four hexadecimal digits.
pub open spec fn hex_group(s: Seq<char>) -> Option<nat> {
    if 1 <= s.len() <= 4 {
        hex_run(s)
    } else {
        None
    }
}

/// The groups that the first `n` pieces between colons write down. The last
/// piece of all may be an address of version 4, which makes two groups.
pub open spec fn groups_upto(
    pieces: Seq<Seq<char>>,
    n: int,
    embedded: bool,
) -> Option<Seq<u16>>
    decreases n,
{
    if n <= 0 {
        Some(Seq::empty())
    } else {
        match groups_upto(pieces, n - 1, embedded) {
            None => None,
            Some(before) => match hex_group(pieces[n - 1]) {
                Some(g) => Some(before.push(g as u16)),
                None => if embedded && n == pieces.len() {
                    match v4_of(pieces[n - 1]) {
                        Some(v) => Some(
                            before.push((v.a * 256 + v.b) as u16).push((v.c * 256 + v.d) as u16),
                        ),
                        None => None,
                    }
                } else {
                    None
                },
            },
        }
    }
}

/// The groups that a text writes down; an empty text writes none.
pub open spec fn groups_of(s: Seq<char>, embedded: bool) -> Option<Seq<u16>> {
    if s.len() == 0 {
        Some(Seq::empty())
    } else {
        let pieces = text::split(s, ':');
        groups_upto(pieces, pieces.len() as int, embedded)
    }
}

/// `n` groups of zero.
pub open spec fn zeros(n: int) -> Seq<u16> {
    Seq::new(n as nat, |i: int| 0u16)
}

/// The eight groups of an address: all written down, or with one run of at
/// least one zero group written as two colons.
pub open spec fn eight_groups(s: Seq<char>) -> Option<Seq<u16>> {
    match text::split_first(s, "::"@) {
        Some((head, tail)) => match (groups_of(head, false), groups_of(tail, true)) {
            (Some(h), Some(t)) => if h.len() + t.len() <= 7 {
                Some(h + zeros(8 - h.len() - t.len()) + t)
            } else {
                None
            },
            _ => None,
        },
        None => match groups_of(s, true) {
            Some(g) => if g.len() == 8 {
                Some(g)
            } else {
                None
            },
            None => None,
        },
    }
}

pub open spec fn v6_of(s: Seq<char>) -> Option<Ipv6Addr> {
    match eight_groups(s) {
        Some(g) => Some(
            Ipv6Addr {
                g0: g[0],
                g1: g[1],
                g2: g[2],
                g3: g[3],
                g4: g[4],
                g5: g[5],
                g6: g[6],
                g7: g[7],
            },
        ),
        None => None,
    }
}

/// The address that a text writes down.
pub open spec fn ip_of(s: Seq<char>) -> Option<IpAddr> {
    match v4_of(s) {
        Some(a) => Some(IpAddr::V4(a)),
        None => match v6_of(s) {
            Some(a) => Some(IpAddr::V6(a)),
            None => None,
        },
    }
}

fn parse_hex_digit(c: char) -> (r: Option<u16>)
    ensures
        match r {
            Some(d) => hex_value(c) == Some(d as nat) && d < 16,
            None => hex_value(c) is None,
        },
{
    if '0' <= c && c <= '9' {
        Some((c as u32 - '0' as u32) as u16)
    } else if 'a' <= c && c <= 'f' {
        Some((c as u32 - 'a' as u32 + 10) as u16)
    } else if 'A' <= c && c <= 'F' {
        Some((c as u32 - 'A' as u32 + 10) as u16)
    } else {
        None
    }
}

/// Sixteen to the power of `n`, for up to four.
spec fn hex_bound(n: int) -> int {
    if n <= 0 {
        1
    } else if n == 1 {
        16
    } else if n == 2 {
        256
    } else if n == 3 {
        4096
    } else {
        65536
    }
}

proof fn lemma_hex_run_prefix(s: Seq<char>, i: int)
    requires
        0 <= i <= s.len(),
        hex_run(s.take(i)) is None,
    ensures
        hex_run(s) is None,
    decreases s.len() - i,
{
    if i == s.len() {
        assert(s.take(i) =~= s);
    } else {
        assert(s.take(i + 1).drop_last() =~= s.take(i));
        lemma_hex_run_prefix(s, i + 1);
    }
}

fn parse_group(s: &str) -> (r: Option<u16>)
    ensures
        match r {
            Some(g) => hex_group(s@) == Some(g as nat),
            None => hex_group(s@) is None,
        },
{
    let v = text::chars_of(s);
    if v.len() == 0 || v.len() > 4 {
        return None;
    }
    let mut n: u16 = 0;
    let mut i: usize = 0;
    while i < v.len()
        invariant
            i <= v@.len() <= 4,
            v@.len() > 0,
            v@ == s@,
            hex_run(v@.take(i as int)) == Some(n as nat),
            n < hex_bound(i as int),
        decreases v@.len() - i,
    {
        assert(v@.take(i + 1).drop_last() =~= v@.take(i as int));
        match parse_hex_digit(v[i]) {
            Some(d) => {
                n = n * 16 + d;
            },
            None => {
                proof {
                    lemma_hex_run_prefix(v@, i + 1);
                }
                return None;
            },
        }
        i = i + 1;
    }
    assert(v@.take(i as int) =~= v@);
    Some(n)
}

proof fn lemma_groups_prefix(pieces: Seq<Seq<char>>, i: int, embedded: bool)
    requires
        0 <= i <= pieces.len(),
        groups_upto(pieces, i, embedded) is None,
    ensures
        groups_upto(pieces, pieces.len() as int, embedded) is None,
    decreases pieces.len() - i,
{
    if i < pieces.len() {
        lemma_groups_prefix(pieces, i + 1, embedded);
    }
}

fn parse_groups(s: &str, embedded: bool) -> (r: Option<Vec<u16>>)
    ensures
        match r {
            Some(g) => groups_of(s@, embedded) == Some(g@),
            None => groups_of(s@, embedded) is None,
        },
{
    let mut out: Vec<u16> = Vec::new();
    if s.is_empty() {
        assert(out@ =~= Seq::<u16>::empty());
        return Some(out);
    }
    let p = text::split_at_char(s, ':');
    let ghost all = text::split(s@, ':');
    assert(text::texts(p@).len() == p@.len());
    assert(out@ =~= Seq::<u16>::empty());
    let n: usize = p.len();
    let mut i: usize = 0;
    while i < n
        invariant
            n == p@.len(),
            i <= n,
            s@.len() > 0,
            all == text::split(s@, ':'),
            all == text::texts(p@),
            all.len() == n,
            groups_upto(all, i as int, embedded) == Some(out@),
        decreases n - i,
    {
        assert(all[i as int] == p@[i as int]@);
        match parse_group(p[i].as_str()) {
            Some(g) => {
                out.push(g);
            },
            None => {
                let v4 = if embedded && i + 1 == n {
                    parse_v4(p[i].as_str())
                } else {
                    None
                };
                match v4 {
                    Some(v) => {
                        out.push((v.a as u16) * 256 + v.b as u16);
                        out.push((v.c as u16) * 256 + v.d as u16);
                    },
                    None => {
                        proof {
                            lemma_groups_prefix(all, i + 1, embedded);
                        }
                        return None;
                    },
                }
            },
        }
        i = i + 1;
    }
    Some(out)
}

fn parse_eight(s: &str) -> (r: Option<Vec<u16>>)
    ensures
        match r {
            Some(g) => eight_groups(s@) == Some(g@) && g@.len() == 8,
            None => eight_groups(s@) is None,
        },
{
    match text::split_once(s, "::") {
        Some(pair) => {
            let head = parse_groups(pair.0.as_str(), false);
            let tail = parse_groups(pair.1.as_str(), true);
            match (head, tail) {
                (Some(h), Some(t)) => {
                    if h.len() > 7 || t.len() > 7 || h.len() + t.len() > 7 {
                        return None;
                    }
                    let ghost hs = h@;
                    let ghost ts = t@;
                    let gap: usize = 8 - h.len() - t.len();
                    let mut out = h;
                    let mut i: usize = 0;
                    while i < gap
                        invariant
                            i <= gap,
                            out@ == hs + zeros(i as int),
                        decreases gap - i,
                    {
                        out.push(0);
                        assert(hs + zeros(i + 1) =~= (hs + zeros(i as int)).push(0u16));
                        i = i + 1;
                    }
                    let mut rest = t;
                    out.append(&mut rest);
                    assert(out@ =~= hs + zeros(8 - hs.len() - ts.len()) + ts);
                    Some(out)
                },
                _ => None,
            }
        },
        None => match parse_groups(s, true) {
            Some(g) => if g.len() == 8 {
                Some(g)
            } else {
                None
            },
            None => None,
        },
    }
}

/// Reads an address.
pub fn parse_ip(s: &str) -> (r: Option<IpAddr>)
    ensures
        r == ip_of(s@),
{
    match parse_v4(s) {
        Some(a) => Some(IpAddr::V4(a)),
        None => match parse_eight(s) {
            Some(g) => Some(
                IpAddr::V6(
                    Ipv6Addr {
                        g0: g[0],
                        g1: g[1],
                        g2: g[2],
                        g3: g[3],
                        g4: g[4],
                        g5: g[5],
                        g6: g[6],
                        g7: g[7],
                    },
                ),
            ),
            None => None,
        },
    }
}

// ---------------------------------------------------------------------------
// Reading inverts writing
// ---------------------------------------------------------------------------

/// Each of the sixteen hexadecimal digits has its own value, in either case, and
/// there are no others.
pub proof fn law_hex_digits(c: char)
    ensures
        forall|d: int|
            0 <= d < 16 ==> hex_value(#[trigger] "0123456789abcdef"@[d]) == Some(d as nat),
        forall|d: int|
            0 <= d < 16 ==> hex_value(#[trigger] "0123456789ABCDEF"@[d]) == Some(d as nat),
        hex_value(c) is Some ==> "0123456789abcdef"@.contains(c) || "0123456789ABCDEF"@.contains(c),
{
    reveal_strlit("0123456789abcdef");
    reveal_strlit("0123456789ABCDEF");
    if let Some(v) = hex_value(c) {
        if 'A' <= c <= 'F' {
            assert("0123456789ABCDEF"@[v as int] == c);
        } else {
            assert("0123456789abcdef"@[v as int] == c);
        }
    }
}

/// A number in lower-case hexadecimal notation.
pub open spec fn hex_text(n: nat) -> Seq<char>
    decreases n,
{
    if n < 16 {
        seq!["0123456789abcdef"@[n as int]]
    } else {
        hex_text(n / 16).push("0123456789abcdef"@[(n % 16) as int])
    }
}

proof fn lemma_hex_text(n: nat)
    ensures
        hex_run(hex_text(n)) == Some(n),
        hex_text(n).len() > 0,
        forall|i: int|
            0 <= i < hex_text(n).len() ==> #[trigger] hex_text(n)[i] != ':' && hex_text(n)[i] != '.',
    decreases n,
{
    reveal_strlit("0123456789abcdef");
    law_hex_digits('0');
    let s = hex_text(n);
    let d = "0123456789abcdef"@[(n % 16) as int];
    assert(hex_value(d) == Some(n % 16));
    assert(d != ':' && d != '.');
    if n < 16 {
        assert(s.drop_last() =~= Seq::<char>::empty());
        assert(hex_run(s.drop_last()) == Some(0nat));
        assert(n % 16 == n);
        assert(s.last() == d);
    } else {
        lemma_hex_text(n / 16);
        assert(s.drop_last() =~= hex_text(n / 16));
        assert(s.last() == d);
        assert((n / 16) * 16 + n % 16 == n);
        assert forall|i: int| 0 <= i < s.len() implies #[trigger] s[i] != ':' && s[i] != '.' by {
            if i < s.len() - 1 {
                assert(s[i] == hex_text(n / 16)[i]);
            }
        }
    }
}

/// A group is read back as what was written.
pub proof fn law_group_is_read_back(g: u16)
    ensures
        hex_group(hex_text(g as nat)) == Some(g as nat),
{
    let n = g as nat;
    lemma_hex_text(n);
    reveal_with_fuel(hex_text, 4);
    assert(n / 16 / 16 / 16 < 16);
}

/// The texts of groups.
pub open spec fn group_texts(g: Seq<u16>) -> Seq<Seq<char>> {
    g.map_values(|x: u16| hex_text(x as nat))
}

/// Groups in lower-case hexadecimal notation between colons.
pub open spec fn written(g: Seq<u16>) -> Seq<char> {
    text::joined(group_texts(g), seq![':'])
}

proof fn lemma_groups_read(g: Seq<u16>, n: int, embedded: bool)
    requires
        0 <= n <= g.len(),
    ensures
        groups_upto(group_texts(g), n, embedded) == Some(g.take(n)),
    decreases n,
{
    if n > 0 {
        lemma_groups_read(g, n - 1, embedded);
        law_group_is_read_back(g[n - 1]);
        assert(group_texts(g)[n - 1] == hex_text(g[n - 1] as nat));
        assert(g.take(n) =~= g.take(n - 1).push(g[n - 1]));
    } else {
        assert(g.take(0) =~= Seq::<u16>::empty());
    }
}

proof fn lemma_written(g: Seq<u16>)
    ensures
        g.len() > 0 ==> text::split(written(g), ':') == group_texts(g),
        g.len() > 0 ==> written(g).len() > 0 && written(g)[0] != ':' && written(g).last() != ':',
        g.len() == 0 ==> written(g).len() == 0,
        forall|i: int| 0 <= i < written(g).len() ==> #[trigger] written(g)[i] != '.',
    decreases g.len(),
{
    let parts = group_texts(g);
    assert forall|i: int, j: int| 0 <= i < parts.len() && 0 <= j < parts[i].len() implies #[trigger]
        parts[i][j] != ':' by {
        lemma_hex_text(g[i] as nat);
        assert(parts[i] == hex_text(g[i] as nat));
    }
    if g.len() > 0 {
        text::law_joining_is_undone_by_split(parts, ':');
        let last = hex_text(g.last() as nat);
        lemma_hex_text(g.last() as nat);
        assert(parts.last() == last);
        if g.len() == 1 {
            assert(written(g) == last);
        } else {
            let front = g.drop_last();
            lemma_written(front);
            assert(parts.drop_last() =~= group_texts(front));
            assert(written(g) =~= written(front) + seq![':'] + last);
            assert(written(g).last() == last.last());
            assert forall|i: int| 0 <= i < written(g).len() implies #[trigger] written(g)[i]
                != '.' by {
                if i < written(front).len() {
                    assert(written(g)[i] == written(front)[i]);
                } else if i > written(front).len() {
                    assert(written(g)[i] == last[i - written(front).len() - 1]);
                }
            }
        }
    }
}

/// Where two colons stand, there is an empty piece between them.
proof fn lemma_two_colons(a: Seq<char>, b: Seq<char>)
    ensures
        text::split(a + seq![':', ':'] + b, ':').contains(Seq::<char>::empty()),
{
    let none = Seq::<char>::empty();
    text::lemma_split_pieces(a, none.push(':') + b, ':');
    text::lemma_split_pieces(none, b, ':');
    text::lemma_split_nonempty(a, ':');
    assert(a + seq![':', ':'] + b =~= a.push(':') + (none.push(':') + b));
    let whole = text::split(a, ':') + (text::split(none, ':') + text::split(b, ':'));
    assert(text::split(none, ':') =~= seq![none]);
    assert(whole[text::split(a, ':').len() as int] == none);
}

proof fn lemma_written_has_no_gap(g: Seq<u16>, i: int)
    requires
        0 <= i < written(g).len() - 1,
    ensures
        !(written(g)[i] == ':' && written(g)[i + 1] == ':'),
{
    lemma_written(g);
    let s = written(g);
    if s[i] == ':' && s[i + 1] == ':' {
        assert(s =~= s.take(i) + seq![':', ':'] + s.skip(i + 2));
        lemma_two_colons(s.take(i), s.skip(i + 2));
        let parts = group_texts(g);
        let k = choose|k: int| 0 <= k < parts.len() && parts[k] == Seq::<char>::empty();
        lemma_hex_text(g[k] as nat);
        assert(parts[k] == hex_text(g[k] as nat));
    }
}

proof fn lemma_groups_of_written(g: Seq<u16>, embedded: bool)
    ensures
        groups_of(written(g), embedded) == Some(g),
{
    lemma_written(g);
    if g.len() > 0 {
        lemma_groups_read(g, g.len() as int, embedded);
        assert(g.take(g.len() as int) =~= g);
    } else {
        assert(g =~= Seq::<u16>::empty());
    }
}

proof fn lemma_no_dots(s: Seq<char>)
    requires
        forall|i: int| 0 <= i < s.len() ==> #[trigger] s[i] != '.',
    ensures
        v4_of(s) is None,
{
    let none = Seq::<char>::empty();
    text::lemma_split_plain(none, s, '.');
    assert(none + s =~= s);
    assert(text::split(none, '.') =~= seq![none]);
    assert(text::split(s, '.').len() == 1);
}

/// Eight groups that are written down are read as the address with exactly these
/// groups.
pub proof fn law_address_is_read_back(g: Seq<u16>)
    requires
        g.len() == 8,
    ensures
        ip_of(written(g)) == Some(
            IpAddr::V6(
                Ipv6Addr {
                    g0: g[0],
                    g1: g[1],
                    g2: g[2],
                    g3: g[3],
                    g4: g[4],
                    g5: g[5],
                    g6: g[6],
                    g7: g[7],
                },
            ),
        ),
{
    let s = written(g);
    lemma_written(g);
    lemma_no_dots(s);
    lemma_groups_of_written(g, true);
    reveal_strlit("::");
    text::law_split_around_the_first(s, "::"@);
    if let Some((a, b)) = text::split_first(s, "::"@) {
        assert(s[a.len() as int] == ':' && s[a.len() as int + 1] == ':');
        lemma_written_has_no_gap(g, a.len() as int);
    }
}

/// Two colons stand for as many groups of zero as are missing.
pub proof fn law_gap_is_filled_with_zeros(h: Seq<u16>, t: Seq<u16>)
    requires
        h.len() + t.len() <= 7,
    ensures
        ({
            let g = h + Seq::new((8 - h.len() - t.len()) as nat, |i: int| 0u16) + t;
            ip_of(written(h) + seq![':', ':'] + written(t)) == Some(
                IpAddr::V6(
                    Ipv6Addr {
                        g0: g[0],
                        g1: g[1],
                        g2: g[2],
                        g3: g[3],
                        g4: g[4],
                        g5: g[5],
                        g6: g[6],
                        g7: g[7],
                    },
                ),
            )
        }),
{
    let a = written(h);
    let b = written(t);
    let s = a + seq![':', ':'] + b;
    lemma_written(h);
    lemma_written(t);
    lemma_groups_of_written(h, false);
    lemma_groups_of_written(t, true);
    assert forall|i: int| 0 <= i < s.len() implies #[trigger] s[i] != '.' by {
        if i < a.len() {
            assert(s[i] == a[i]);
        } else if i >= a.len() + 2 {
            assert(s[i] == b[i - a.len() - 2]);
        }
    }
    lemma_no_dots(s);
    reveal_strlit("::");
    assert("::"@ =~= seq![':', ':']);
    text::law_split_around_the_first(s, "::"@);
    assert(s.skip(a.len() as int).subrange(0, 2) =~= "::"@);
    assert("::"@.is_prefix_of(s.skip(a.len() as int)));
    let (x, y) = text::split_first(s, "::"@).unwrap();
    assert(x.len() <= a.len());
    assert(s[x.len() as int] == ':' && s[x.len() as int + 1] == ':');
    if x.len() < a.len() {
        if x.len() + 1 < a.len() {
            lemma_written_has_no_gap(h, x.len() as int);
        } else {
            assert(a.last() == s[x.len() as int]);
        }
    }
    assert(x =~= s.take(x.len() as int));
    assert(x =~= a);
    assert(y =~= s.skip(x.len() as int + 2));
    assert(y =~= b);
    assert(zeros(8 - h.len() - t.len()) =~= Seq::new(
        (8 - h.len() - t.len()) as nat,
        |i: int| 0u16,
    ));
}

proof fn lemma_decimal_of_digits(s: Seq<char>)
    requires
        text::all_digits(s),
        s.len() == 1 || s[0] != '0',
    ensures
        text::decimal(text::digits_value(s)) == s,
    decreases s.len(),
{
    let t = s.drop_last();
    let d = text::digit_value(s.last());
    assert(text::digit(s[s.len() - 1]));
    if s.len() == 1 {
        assert(t =~= Seq::<char>::empty());
        assert(text::digits_value(t) == 0);
        assert(text::decimal(d) =~= s);
    } else {
        assert forall|i: int| 0 <= i < t.len() implies text::digit(#[trigger] t[i]) by {
            assert(text::digit(s[i]));
        }
        lemma_decimal_of_digits(t);
        let v = text::digits_value(t);
        assert(t[0] == s[0]);
        if v == 0 {
            assert(t[0] == '0');
        }
        assert((v * 10 + d) / 10 == v);
        assert((v * 10 + d) % 10 == d);
        assert(t.push(s.last()) =~= s);
    }
}

proof fn lemma_octet(s: Seq<char>, n: nat)
    ensures
        octet(s) == Some(n) <==> n <= 255 && s == text::decimal(n),
{
    if octet(s) is Some {
        lemma_decimal_of_digits(s);
    }
    if n <= 255 {
        text::lemma_decimal_all_digits(n);
        reveal_with_fuel(text::decimal, 3);
    }
}

/// The four octets of an address, in decimal notation between dots.
pub open spec fn dotted(v: Ipv4Addr) -> Seq<char> {
    text::joined(
        seq![
            text::decimal(v.a as nat),
            text::decimal(v.b as nat),
            text::decimal(v.c as nat),
            text::decimal(v.d as nat),
        ],
        seq!['.'],
    )
}

/// A dotted address is read back as what was written, and nothing else is read
/// as one: no octet above 255, no leading zero, no sign, no white space.
pub proof fn law_dotted_address_is_read_back(s: Seq<char>, v: Ipv4Addr)
    ensures
        ip_of(s) == Some(IpAddr::V4(v)) <==> s == dotted(v),
{
    let parts = seq![
        text::decimal(v.a as nat),
        text::decimal(v.b as nat),
        text::decimal(v.c as nat),
        text::decimal(v.d as nat),
    ];
    assert forall|i: int, j: int| 0 <= i < parts.len() && 0 <= j < parts[i].len() implies #[trigger]
        parts[i][j] != '.' by {
        let n = if i == 0 {
            v.a
        } else if i == 1 {
            v.b
        } else if i == 2 {
            v.c
        } else {
            v.d
        };
        assert(parts[i] == text::decimal(n as nat));
        text::lemma_decimal_all_digits(n as nat);
        assert(text::digit(parts[i][j]));
    }
    text::law_joining_is_undone_by_split(parts, '.');
    lemma_octet(parts[0], v.a as nat);
    lemma_octet(parts[1], v.b as nat);
    lemma_octet(parts[2], v.c as nat);
    lemma_octet(parts[3], v.d as nat);
    assert(v4_of(dotted(v)) == Some(v));
    if v4_of(s) == Some(v) {
        let p = text::split(s, '.');
        lemma_octet(p[0], octet(p[0]).unwrap());
        lemma_octet(p[1], octet(p[1]).unwrap());
        lemma_octet(p[2], octet(p[2]).unwrap());
        lemma_octet(p[3], octet(p[3]).unwrap());
        assert(p =~= parts);
        text::law_split_is_undone_by_joining(s, '.');
    }
}

/// What is no dotted address and holds no colon is no address.
pub proof fn law_names_are_no_addresses(s: Seq<char>)
    requires
        !s.contains(':'),
        forall|v: Ipv4Addr| s != #[trigger] dotted(v),
    ensures
        ip_of(s) is None,
{
    if let Some(v) = v4_of(s) {
        law_dotted_address_is_read_back(s, v);
        assert(s == dotted(v));
    }
    reveal_strlit("::");
    text::law_split_around_the_first(s, "::"@);
    if let Some((a, b)) = text::split_first(s, "::"@) {
        assert(s[a.len() as int] == ':');
        assert(s.contains(':'));
    }
    let none = Seq::<char>::empty();
    assert forall|i: int| 0 <= i < s.len() implies s[i] != ':' by {
        if s[i] == ':' {
            assert(s.contains(':'));
        }
    }
    text::lemma_split_plain(none, s, ':');
    assert(none + s =~= s);
    assert(text::split(none, ':') =~= seq![none]);
    let pieces = text::split(s, ':');
    assert(pieces =~= seq![s]);
    reveal_with_fuel(groups_upto, 2);
}

/// A group is one to four hexadecimal digits, and nothing else is one.
pub proof fn law_group_has_one_to_four_digits(s: Seq<char>)
    ensures
        hex_group(s) is Some <==> 1 <= s.len() <= 4 && forall|i: int|
            0 <= i < s.len() ==> "0123456789abcdef"@.contains(#[trigger] s[i])
                || "0123456789ABCDEF"@.contains(s[i]),
{
    lemma_hex_run(s);
}

proof fn lemma_hex_run(s: Seq<char>)
    ensures
        hex_run(s) is Some <==> forall|i: int|
            0 <= i < s.len() ==> "0123456789abcdef"@.contains(#[trigger] s[i])
                || "0123456789ABCDEF"@.contains(s[i]),
    decreases s.len(),
{
    if s.len() > 0 {
        let t = s.drop_last();
        lemma_hex_run(t);
        lemma_hex_digit(s.last());
        assert(s[s.len() - 1] == s.last());
        if hex_run(s) is Some {
            assert forall|i: int| 0 <= i < s.len() implies "0123456789abcdef"@.contains(
                #[trigger] s[i],
            ) || "0123456789ABCDEF"@.contains(s[i]) by {
                if i < t.len() {
                    assert(s[i] == t[i]);
                }
            }
        }
        if forall|i: int|
            0 <= i < s.len() ==> "0123456789abcdef"@.contains(#[trigger] s[i])
                || "0123456789ABCDEF"@.contains(s[i]) {
            assert forall|i: int| 0 <= i < t.len() implies "0123456789abcdef"@.contains(
                #[trigger] t[i],
            ) || "0123456789ABCDEF"@.contains(t[i]) by {
                assert(t[i] == s[i]);
            }
        }
    }
}

proof fn lemma_hex_digit(c: char)
    ensures
        hex_value(c) is Some <==> "0123456789abcdef"@.contains(c) || "0123456789ABCDEF"@.contains(c),
{
    law_hex_digits(c);
    reveal_strlit("0123456789abcdef");
    reveal_strlit("0123456789ABCDEF");
    if "0123456789abcdef"@.contains(c) {
        let d = choose|d: int| 0 <= d < 16 && "0123456789abcdef"@[d] == c;
        assert(hex_value("0123456789abcdef"@[d]) is Some);
    }
    if "0123456789ABCDEF"@.contains(c) {
        let d = choose|d: int| 0 <= d < 16 && "0123456789ABCDEF"@[d] == c;
        assert(hex_value("0123456789ABCDEF"@[d]) is Some);
    }
}

/// Without a gap there are eight groups: fewer or more are no address.
pub proof fn law_other_numbers_of_groups_are_refused(g: Seq<u16>)
    requires
        g.len() != 8,
    ensures
        ip_of(written(g)) is None,
{
    let s = written(g);
    lemma_written(g);
    lemma_no_dots(s);
    lemma_groups_of_written(g, true);
    reveal_strlit("::");
    text::law_split_around_the_first(s, "::"@);
    if let Some((a, b)) = text::split_first(s, "::"@) {
        assert(s[a.len() as int] == ':' && s[a.len() as int + 1] == ':');
        lemma_written_has_no_gap(g, a.len() as int);
    }
}

/// The first two colons behind written groups are where the address is taken apart.
proof fn lemma_gap_stands_behind(h: Seq<u16>, b: Seq<char>)
    ensures
        text::split_first(written(h) + seq![':', ':'] + b, "::"@) == Some((written(h), b)),
{
    let a = written(h);
    let s = a + seq![':', ':'] + b;
    lemma_written(h);
    reveal_strlit("::");
    assert("::"@ =~= seq![':', ':']);
    text::law_split_around_the_first(s, "::"@);
    assert(s.skip(a.len() as int).subrange(0, 2) =~= "::"@);
    assert("::"@.is_prefix_of(s.skip(a.len() as int)));
    let (x, y) = text::split_first(s, "::"@).unwrap();
    assert(s[x.len() as int] == ':' && s[x.len() as int + 1] == ':');
    if x.len() < a.len() {
        if x.len() + 1 < a.len() {
            lemma_written_has_no_gap(h, x.len() as int);
        } else {
            assert(a.last() == s[x.len() as int]);
        }
    }
    assert(x =~= s.take(x.len() as int));
    assert(x =~= a);
    assert(y =~= s.skip(x.len() as int + 2));
    assert(y =~= b);
}

/// Two colons stand for one group at least: where eight or more are written, there is
/// no place for them.
pub proof fn law_gap_needs_a_missing_group(h: Seq<u16>, t: Seq<u16>)
    requires
        h.len() + t.len() >= 8,
    ensures
        ip_of(written(h) + seq![':', ':'] + written(t)) is None,
{
    let a = written(h);
    let b = written(t);
    let s = a + seq![':', ':'] + b;
    lemma_written(h);
    lemma_written(t);
    lemma_groups_of_written(h, false);
    lemma_groups_of_written(t, true);
    assert forall|i: int| 0 <= i < s.len() implies #[trigger] s[i] != '.' by {
        if i < a.len() {
            assert(s[i] == a[i]);
        } else if i >= a.len() + 2 {
            assert(s[i] == b[i - a.len() - 2]);
        }
    }
    lemma_no_dots(s);
    lemma_gap_stands_behind(h, b);
}

proof fn lemma_dotted(v: Ipv4Addr)
    ensures
        dotted(v) == text::decimal(v.a as nat) + seq!['.'] + text::decimal(v.b as nat) + seq!['.']
            + text::decimal(v.c as nat) + seq!['.'] + text::decimal(v.d as nat),
        dotted(v).len() > 0,
        forall|i: int| 0 <= i < dotted(v).len() ==> #[trigger] dotted(v)[i] != ':',
        hex_group(dotted(v)) is None,
{
    let a = text::decimal(v.a as nat);
    let b = text::decimal(v.b as nat);
    let c = text::decimal(v.c as nat);
    let d = text::decimal(v.d as nat);
    let sep = seq!['.'];
    text::lemma_decimal_all_digits(v.a as nat);
    text::lemma_decimal_all_digits(v.b as nat);
    text::lemma_decimal_all_digits(v.c as nat);
    text::lemma_decimal_all_digits(v.d as nat);
    text::law_joining(a, seq![b, c, d], sep);
    text::law_joining(b, seq![c, d], sep);
    text::law_joining(c, seq![d], sep);
    text::law_joining(d, Seq::empty(), sep);
    assert(seq![a, b, c, d] =~= seq![a] + seq![b, c, d]);
    assert(seq![b, c, d] =~= seq![b] + seq![c, d]);
    assert(seq![c, d] =~= seq![c] + seq![d]);
    assert(seq![d] =~= seq![d] + Seq::<Seq<char>>::empty());
    let s = dotted(v);
    assert(s =~= a + sep + b + sep + c + sep + d);
    assert forall|i: int| 0 <= i < s.len() implies #[trigger] s[i] != ':' by {
        let na = a.len() as int;
        let nb = na + 1 + b.len();
        let nc = nb + 1 + c.len();
        if i < na {
            assert(text::digit(a[i]));
        } else if na < i < nb {
            assert(text::digit(b[i - na - 1]));
        } else if nb < i < nc {
            assert(text::digit(c[i - nb - 1]));
        } else if i > nc {
            assert(text::digit(d[i - nc - 1]));
        }
    }
    law_group_has_one_to_four_digits(s);
    assert(s[a.len() as int] == '.');
    lemma_hex_digit('.');
    assert(hex_value('.') is None);
}

proof fn lemma_groups_before_dotted(t: Seq<u16>, last: Seq<char>, n: int)
    requires
        0 <= n <= t.len(),
    ensures
        groups_upto(group_texts(t).push(last), n, true) == Some(t.take(n)),
    decreases n,
{
    if n > 0 {
        lemma_groups_before_dotted(t, last, n - 1);
        law_group_is_read_back(t[n - 1]);
        assert(group_texts(t).push(last)[n - 1] == hex_text(t[n - 1] as nat));
        assert(t.take(n) =~= t.take(n - 1).push(t[n - 1]));
    } else {
        assert(t.take(0) =~= Seq::<u16>::empty());
    }
}

proof fn lemma_groups_with_dotted(t: Seq<u16>, v: Ipv4Addr)
    requires
        t.len() > 0,
    ensures
        groups_of(written(t) + seq![':'] + dotted(v), true) == Some(
            t.push((v.a * 256 + v.b) as u16).push((v.c * 256 + v.d) as u16),
        ),
{
    let d = dotted(v);
    let s = written(t) + seq![':'] + d;
    let none = Seq::<char>::empty();
    lemma_written(t);
    lemma_dotted(v);
    assert(s =~= written(t).push(':') + d);
    text::lemma_split_pieces(written(t), d, ':');
    text::lemma_split_plain(none, d, ':');
    assert(none + d =~= d);
    assert(text::split(none, ':') =~= seq![none]);
    assert(text::split(d, ':') =~= seq![d]);
    let pieces = group_texts(t).push(d);
    assert(text::split(s, ':') =~= pieces);
    lemma_groups_before_dotted(t, d, t.len() as int);
    assert(t.take(t.len() as int) =~= t);
    law_dotted_address_is_read_back(d, v);
    assert(pieces[t.len() as int] == d);
}

proof fn lemma_colon_is_not_dotted(s: Seq<char>)
    requires
        s.contains(':'),
    ensures
        v4_of(s) is None,
{
    if let Some(v) = v4_of(s) {
        law_dotted_address_is_read_back(s, v);
        lemma_dotted(v);
    }
}

/// The last two groups may be written as a dotted address: behind six groups, or behind
/// a gap and at most five.
pub proof fn law_dotted_end_makes_two_groups(h: Seq<u16>, t: Seq<u16>, v: Ipv4Addr)
    requires
        t.len() > 0,
        h.len() + t.len() <= 5,
    ensures
        ({
            let g = h + Seq::new((6 - h.len() - t.len()) as nat, |i: int| 0u16) + t;
            ip_of(written(h) + seq![':', ':'] + (written(t) + seq![':'] + dotted(v))) == Some(
                IpAddr::V6(
                    Ipv6Addr {
                        g0: g[0],
                        g1: g[1],
                        g2: g[2],
                        g3: g[3],
                        g4: g[4],
                        g5: g[5],
                        g6: (v.a * 256 + v.b) as u16,
                        g7: (v.c * 256 + v.d) as u16,
                    },
                ),
            )
        }),
{
    let b = written(t) + seq![':'] + dotted(v);
    let s = written(h) + seq![':', ':'] + b;
    assert(s[written(h).len() as int] == ':');
    assert(s.contains(':'));
    lemma_colon_is_not_dotted(s);
    lemma_groups_of_written(h, false);
    lemma_groups_with_dotted(t, v);
    lemma_gap_stands_behind(h, b);
    assert(zeros(6 - h.len() - t.len()) =~= Seq::new(
        (6 - h.len() - t.len()) as nat,
        |i: int| 0u16,
    ));
}

} // verus!
