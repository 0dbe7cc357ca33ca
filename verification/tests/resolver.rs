use demo_ghostprovider::hoster::ip::{parse_ip, parse_v4, IpAddr, Ipv4Addr, Ipv6Addr, SocketAddr};
use demo_ghostprovider::hoster::resolver::{
    bootstrap_host, doh_body, doh_reply, doh_request, fallback, parse_doh_json, percent_encode,
    select_addresses, Answer, DohError, DohStart, SmartResolver, Target,
};
use demo_ghostprovider::netlog::record_line;

fn v4(a: u8, b: u8, c: u8, d: u8) -> IpAddr {
    IpAddr::V4(Ipv4Addr { a, b, c, d })
}

fn v6(g: [u16; 8]) -> IpAddr {
    IpAddr::V6(Ipv6Addr {
        g0: g[0],
        g1: g[1],
        g2: g[2],
        g3: g[3],
        g4: g[4],
        g5: g[5],
        g6: g[6],
        g7: g[7],
    })
}

#[test]
fn percent_encoding_leaves_host_safe_chars() {
    assert_eq!(percent_encode("github.com"), "github.com");
    assert_eq!(percent_encode("a-b_c.d"), "a-b_c.d");
    assert_eq!(percent_encode("x y"), "x%20y");
}

#[test]
fn percent_encoding_goes_byte_by_byte() {
    assert_eq!(percent_encode("é"), "%C3%A9");
    assert_eq!(percent_encode("a&b=c\r\n"), "a%26b%3Dc%0D%0A");
    assert_eq!(percent_encode("%"), "%25");
    assert_eq!(percent_encode(""), "");
}

#[test]
fn parses_cloudflare_doh_json_a_and_aaaa() {
    let body = r#"{
            "Status": 0,
            "Answer": [
                {"name":"github.com.","type":1,"TTL":20,"data":"140.82.112.4"},
                {"name":"github.com.","type":1,"TTL":20,"data":"140.82.113.4"},
                {"name":"github.com.","type":28,"TTL":20,"data":"2606:50c0:8001::153"},
                {"name":"github.com.","type":5,"TTL":20,"data":"ignored-cname"}
            ]
        }"#;
    let a = parse_doh_json(body, 1).unwrap();
    assert_eq!(a.len(), 2);
    assert_eq!(a[0], v4(140, 82, 112, 4));
    let aaaa = parse_doh_json(body, 28).unwrap();
    assert_eq!(aaaa.len(), 1);
    assert_eq!(aaaa[0], v6([0x2606, 0x50c0, 0x8001, 0, 0, 0, 0, 0x153]));
    let other = parse_doh_json(body, 5).unwrap();
    assert!(other.is_empty());
}

#[test]
fn odd_documents_hold_no_addresses() {
    for body in [
        "{}",
        "[]",
        "null",
        "\"Answer\"",
        r#"{"Answer": {}}"#,
        r#"{"Answer": [1, null, "x"]}"#,
        r#"{"Answer": [{"type": 1}]}"#,
        r#"{"Answer": [{"type": 1, "data": 7}]}"#,
        r#"{"Answer": [{"type": "1", "data": "1.2.3.4"}]}"#,
        r#"{"Answer": [{"type": 1.5, "data": "1.2.3.4"}]}"#,
        r#"{"Answer": [{"type": -1, "data": "1.2.3.4"}]}"#,
        r#"{"answer": [{"type": 1, "data": "1.2.3.4"}]}"#,
    ] {
        assert!(parse_doh_json(body, 1).unwrap().is_empty(), "{body}");
    }
    // Without a type a record has type zero; of a larger number the low
    // sixteen bits count.
    let body = r#"{"Answer": [{"data": "1.2.3.4"}, {"type": 65537, "data": "5.6.7.8"}]}"#;
    assert_eq!(parse_doh_json(body, 0).unwrap(), vec![v4(1, 2, 3, 4)]);
    assert_eq!(parse_doh_json(body, 1).unwrap(), vec![v4(5, 6, 7, 8)]);
}

#[test]
fn a_body_that_is_no_json_is_an_error() {
    let e = parse_doh_json("{", 1).unwrap_err();
    match &e {
        DohError::Json(why) => assert!(why.contains("EOF"), "{why}"),
        other => panic!("{other:?}"),
    }
    assert!(e.message().starts_with("doh json: EOF"));
}

#[test]
fn records_are_selected_by_type() {
    let answer = |typ: u16, data: Option<&str>| Answer { typ, data: data.map(str::to_string) };
    let all = vec![
        answer(1, Some("1.2.3.4")),
        answer(28, Some("::1")),
        answer(1, None),
        answer(1, Some("no address")),
        answer(1, Some("::2")),
    ];
    assert_eq!(
        select_addresses(&all, 1),
        vec![v4(1, 2, 3, 4), v6([0, 0, 0, 0, 0, 0, 0, 2])]
    );
    assert_eq!(select_addresses(&all, 28), vec![v6([0, 0, 0, 0, 0, 0, 0, 1])]);
}

#[test]
fn replies_are_judged_by_their_status() {
    let ok = "HTTP/1.1 200 OK\r\nServer: x\r\n\r\nbody\r\n\r\nmore";
    assert_eq!(doh_body(ok).unwrap(), "body\r\n\r\nmore");
    assert_eq!(doh_body("HTTP/2 200\r\n\r\n").unwrap(), "");
    let e = doh_body("HTTP/1.1 503 Busy\r\nServer: x\r\n\r\nbody").unwrap_err();
    assert_eq!(e.message(), "doh status: HTTP/1.1 503 Busy");
    let e = doh_body("\r\n\r\nbody").unwrap_err();
    assert_eq!(e.message(), "doh status: ");
    let e = doh_body("HTTP/1.1 200 OK\r\nServer: x\r\n").unwrap_err();
    assert_eq!(e.message(), "doh malformed response");
    let reply = "HTTP/1.1 200 OK\r\n\r\n{\"Answer\":[{\"type\":1,\"data\":\"9.9.9.9\"}]}";
    assert_eq!(doh_reply(reply, 1).unwrap(), vec![v4(9, 9, 9, 9)]);
    assert!(doh_reply("HTTP/1.1 200 OK\r\n\r\n?", 1).is_err());
    assert!(doh_reply("HTTP/1.1 404\r\n\r\n{}", 1).is_err());
    assert!(doh_reply("", 1).is_err());
}

#[test]
fn a_request_reads_exactly() {
    assert_eq!(
        doh_request("a b.org", 28),
        "GET /dns-query?name=a%20b.org&type=28 HTTP/1.1\r\nHost: cloudflare-dns.com\r\nAccept: application/dns-json\r\nAccept-Encoding: identity\r\nConnection: close\r\n\r\n"
    );
}

fn target(uri: &str) -> Target {
    let uri: ureq::http::Uri = uri.parse().unwrap();
    Target {
        host: uri.host().map(str::to_string),
        scheme: uri.scheme_str().map(str::to_string),
        port: uri.port_u16(),
    }
}

#[test]
fn port_of_knows_http_https() {
    let https = target("https://github.com/x");
    assert_eq!(SmartResolver::port_of(&https), 443);
    let http = target("http://10.0.0.1:3128");
    assert_eq!(SmartResolver::port_of(&http), 3128);
}

#[test]
fn ports_default_by_scheme() {
    assert_eq!(SmartResolver::port_of(&target("http://github.com/x")), 80);
    assert_eq!(SmartResolver::port_of(&Target { host: None, scheme: None, port: None }), 443);
}

#[test]
fn ip_literals_are_skipped() {
    // The resolver rejects bracketed literals from the DoH path: the
    // check that ``host.contains(':')`` keeps `[::1]:port` away.
    let host = "[::1]:8080";
    assert!(host.contains(':'));
    let skipped = |h: &str| {
        bootstrap_host(&Target { host: Some(h.to_string()), scheme: None, port: None }).is_none()
    };
    assert!(skipped(host));
    assert!(skipped("::1"));
    assert!(skipped("10.0.0.1"));
    assert!(!skipped("10.0.0.1.example"));
    assert_eq!(bootstrap_host(&target("https://github.com/x")).as_deref(), Some("github.com"));
    assert!(bootstrap_host(&Target { host: None, scheme: None, port: None }).is_none());
}

#[test]
fn agent_with_parts_compiles_with_smart_resolver() {
    let resolver = SmartResolver::new();
    let _ = std::format!("{resolver:?}");
}

fn at(ip: IpAddr) -> SocketAddr {
    SocketAddr { ip, port: 443 }
}

#[test]
fn a_lookup_asks_both_types_and_the_mirror_last() {
    let mut r = SmartResolver::new();
    let DohStart::Ask(mut l) = r.doh_resolve("github.com", 1_000, 1_000) else {
        panic!("nothing is cached yet");
    };
    let mut asked = Vec::new();
    while let Some(q) = l.next_query(1_500) {
        asked.push((q.server, q.typ));
        let record = l.take_reply("github.com", &Err(DohError::Malformed), 443);
        assert_eq!(record.outcome, Err("doh fallback: doh malformed response".to_string()));
    }
    let (first, mirror) = (v4(1, 1, 1, 1), v4(1, 0, 0, 1));
    assert_eq!(asked, vec![(first, 1), (first, 28), (mirror, 1), (mirror, 28)]);
    let found = r.finish("github.com", &l, 1_500);
    assert_eq!(found.as_ref().map(Vec::len), Some(0));
    assert!(fallback(found).is_none());
}

#[test]
fn a_found_address_spares_the_mirror_and_is_cached() {
    let mut r = SmartResolver::new();
    let DohStart::Ask(mut l) = r.doh_resolve("github.com", 0, 0) else {
        panic!("nothing is cached yet");
    };
    assert_eq!(l.next_query(0).unwrap().typ, 1);
    let record = l.take_reply("github.com", &Ok(vec![v4(9, 9, 9, 9)]), 443);
    assert_eq!(record.host, "cloudflare-dns.com");
    assert_eq!(record.path, "/dns-query?name=github.com");
    assert_eq!(record.outcome, Ok(()), "a success is recorded too");
    assert_eq!(l.next_query(0).unwrap().typ, 28);
    let _ = l.take_reply("github.com", &Ok(vec![v6([0, 0, 0, 0, 0, 0, 0, 1])]), 443);
    assert!(l.next_query(0).is_none());
    let expected = vec![at(v4(9, 9, 9, 9)), at(v6([0, 0, 0, 0, 0, 0, 0, 1]))];
    assert_eq!(r.finish("github.com", &l, 1_000), Some(expected.clone()));

    // What was found is served again at once, and until its time is over.
    for now in [1_000, 9_999, 10_000, 30_999] {
        match r.doh_resolve("github.com", now, now) {
            DohStart::Cached(addrs) => assert_eq!(addrs, expected),
            other => panic!("{other:?}"),
        }
    }
    assert!(matches!(r.doh_resolve("github.com", 31_000, 31_000), DohStart::Ask(_)));
    assert!(matches!(r.doh_resolve("other.org", 10_001, 10_001), DohStart::Ask(_)));
    assert_eq!(fallback(Some(expected.clone())), Some(expected));
}

#[test]
fn a_failed_host_is_left_alone_for_the_cooldown() {
    let mut r = SmartResolver::new();
    let DohStart::Ask(mut l) = r.doh_resolve("github.com", 0, 0) else {
        panic!("nothing is cached yet");
    };
    let why = Err(DohError::Unreachable("tls connect 1.1.1.1: refused".to_string()));
    let record = l.take_reply("github.com", &why, 443);
    assert_eq!(
        record_line("2026-02-18T09:30:00Z", &record),
        "2026-02-18T09:30:00Z cloudflare-dns.com/dns-query?name=github.com error: doh fallback: tls connect 1.1.1.1: refused"
    );
    let fine = l.take_reply("github.com", &Ok(Vec::new()), 443);
    assert_eq!(
        record_line("2026-02-18T09:30:00Z", &fine),
        "2026-02-18T09:30:00Z cloudflare-dns.com/dns-query?name=github.com ok"
    );
    assert_eq!(r.finish("github.com", &l, 100), Some(Vec::new()));
    assert!(matches!(r.doh_resolve("github.com", 9_999, 9_999), DohStart::Refused));
    assert!(matches!(r.doh_resolve("github.com", 10_000, 10_000), DohStart::Ask(_)));
}

#[test]
fn a_spent_budget_ends_a_lookup() {
    let mut r = SmartResolver::new();
    let DohStart::Ask(l) = r.doh_resolve("github.com", 0, 100) else {
        panic!("nothing is cached yet");
    };
    assert!(l.next_query(4_099).is_some());
    assert!(l.next_query(4_100).is_none());
    assert!(r.finish("github.com", &l, 4_100).is_none(), "nothing was asked");
    assert!(fallback(None).is_none());
    assert_eq!(l.connect_timeout(100), 2_000);
    assert_eq!(l.connect_timeout(3_000), 1_100);
    assert_eq!(l.io_timeout(2_099), 2_000);
    assert_eq!(l.io_timeout(9_000), 0);
}

#[test]
fn addresses_of_version_four() {
    let some = |s: &str, a: u8, b: u8, c: u8, d: u8| {
        let p = parse_v4(s).unwrap();
        assert_eq!((p.a, p.b, p.c, p.d), (a, b, c, d), "{s}");
    };
    some("0.0.0.0", 0, 0, 0, 0);
    some("255.255.255.255", 255, 255, 255, 255);
    some("140.82.112.4", 140, 82, 112, 4);
    for s in [
        "", "1", "1.2.3", "1.2.3.4.5", "1.2.3.256", "01.2.3.4", "1.2.3.04", "1..2.3", "1.2.3.",
        ".1.2.3", " 1.2.3.4", "1.2.3.4 ", "1.2.3.x", "+1.2.3.4", "1.2.3.1000",
    ] {
        assert!(parse_v4(s).is_none(), "{s:?}");
    }
}

#[test]
fn addresses_of_version_six() {
    let some = |s: &str, g: [u16; 8]| assert_eq!(parse_ip(s), Some(v6(g)), "{s}");
    some("::", [0; 8]);
    some("::1", [0, 0, 0, 0, 0, 0, 0, 1]);
    some("1::", [1, 0, 0, 0, 0, 0, 0, 0]);
    some("1:2:3:4:5:6:7:8", [1, 2, 3, 4, 5, 6, 7, 8]);
    some("2606:50C0:8001::153", [0x2606, 0x50c0, 0x8001, 0, 0, 0, 0, 0x153]);
    some("::ffff:1.2.3.4", [0, 0, 0, 0, 0, 0xffff, 0x0102, 0x0304]);
    some("1:2:3:4:5:6:7::", [1, 2, 3, 4, 5, 6, 7, 0]);
    some("::2:3:4:5:6:7:8", [0, 2, 3, 4, 5, 6, 7, 8]);
    some("::1.2.3.4", [0, 0, 0, 0, 0, 0, 0x0102, 0x0304]);
    some("1:2:3:4:5:6:1.2.3.4", [1, 2, 3, 4, 5, 6, 0x0102, 0x0304]);
    for s in [
        ":", ":::", "1:2:3:4:5:6:7", "1:2:3:4:5:6:7:8:9", "1::2::3", "12345::", "g::", "[::1]",
        "1:2:3:4:5:6:7:1.2.3.4", "::1.2.3", "1:2:3:4:5:6:7:8::", "::1%eth0", "1::2:3:4:5:6:7:8",
        "1.2.3.4::", "::1:2:3:4:5:6:1.2.3.4", "00001::", "1:", ":1", "::1:",
    ] {
        assert!(parse_ip(s).is_none(), "{s:?}");
    }
    assert_eq!(parse_ip("1.2.3.4"), Some(v4(1, 2, 3, 4)));
}

#[test]
fn names_are_no_addresses() {
    for s in ["github.com", "localhost", "a.b.c.d", "1.2.3.4.example", "cafe"] {
        assert!(parse_ip(s).is_none(), "{s:?}");
    }
}
