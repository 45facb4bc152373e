use echo_backend::config::{parse_header, Config, SocketOptions};
use echo_backend::handler::{response_status, HandleError};
use echo_backend::headers::Headers;

fn config(statics: &[&str], echoes: &[&str], delay_us: u64) -> Config {
    let lines: Vec<Vec<u8>> = statics.iter().map(|s| s.as_bytes().to_vec()).collect();
    let names: Vec<Vec<u8>> = echoes.iter().map(|s| s.as_bytes().to_vec()).collect();
    Config::new(&lines, names, delay_us).expect("configuration should be well formed")
}

fn request(headers: &[(&str, &str)]) -> Headers {
    let mut h = Headers::new();
    for (name, value) in headers {
        h.insert(name.as_bytes().to_vec(), value.as_bytes().to_vec());
    }
    h
}

fn get<'a>(h: &'a Headers, name: &str) -> Option<&'a Vec<u8>> {
    h.get(&name.as_bytes().to_vec())
}

#[test]
fn scenario_static_and_echoed_header() {
    let cfg = config(&["X-Test: 1"], &["X-Trace"], 0);
    let req = request(&[("X-Trace", "abc")]);
    let r = cfg.handle(&req, b"hello".to_vec());
    assert_eq!(response_status(&r), 200);
    let resp = r.unwrap_or_else(|_| panic!("expected a successful echo"));
    assert_eq!(resp.body, b"hello".to_vec());
    assert_eq!(get(&resp.headers, "X-Test"), Some(&b"1".to_vec()));
    assert_eq!(get(&resp.headers, "X-Trace"), Some(&b"abc".to_vec()));
}

#[test]
fn scenario_echo_overrides_static() {
    let cfg = config(&["X-Trace: server"], &["X-Trace"], 0);
    let req = request(&[("X-Trace", "client")]);
    let resp = cfg
        .handle(&req, b"body".to_vec())
        .unwrap_or_else(|_| panic!("expected a successful echo"));
    assert_eq!(get(&resp.headers, "X-Trace"), Some(&b"client".to_vec()));
}

#[test]
fn scenario_invalid_body_is_bad_request() {
    let cfg = config(&["X-Test: 1"], &["X-Trace"], 0);
    let req = request(&[("X-Trace", "abc")]);
    let r = cfg.handle(&req, vec![0xff, 0xfe, 0x00]);
    assert!(matches!(r, Err(HandleError::BadRequest)));
    let r2 = cfg.handle(&req, vec![0xff, 0xfe, 0x00]);
    assert_eq!(response_status(&r2), 400);
}

#[test]
fn unechoed_request_header_is_dropped() {
    let cfg = config(&["X-Test: 1"], &["X-Trace"], 0);
    let req = request(&[("X-Other", "nope"), ("X-Trace", "abc")]);
    let resp = cfg
        .handle(&req, b"x".to_vec())
        .unwrap_or_else(|_| panic!("expected a successful echo"));
    assert_eq!(get(&resp.headers, "X-Other"), None);
    assert_eq!(resp.headers.len(), 2);
}

#[test]
fn echo_name_matches_case_insensitively() {
    let cfg = config(&[], &["x-trace"], 0);
    let req = request(&[("X-TRACE", "v")]);
    let resp = cfg
        .handle(&req, b"".to_vec())
        .unwrap_or_else(|_| panic!("expected a successful echo"));
    assert_eq!(get(&resp.headers, "X-Trace"), Some(&b"v".to_vec()));
}

#[test]
fn later_static_token_overwrites_earlier_same_name() {
    let cfg = config(&["A: 1", "a: 2"], &[], 0);
    let req = request(&[]);
    let resp = cfg
        .handle(&req, b"".to_vec())
        .unwrap_or_else(|_| panic!("expected a successful echo"));
    assert_eq!(resp.headers.len(), 1);
    assert_eq!(get(&resp.headers, "A"), Some(&b"2".to_vec()));
}

#[test]
fn empty_configuration_echoes_nothing() {
    let cfg = config(&[], &[], 0);
    let req = request(&[("X-Trace", "abc")]);
    let resp = cfg
        .handle(&req, b"hi".to_vec())
        .unwrap_or_else(|_| panic!("expected a successful echo"));
    assert_eq!(resp.headers.len(), 0);
    assert_eq!(resp.body, b"hi".to_vec());
}

#[test]
fn absent_echo_header_adds_nothing() {
    let cfg = config(&["X-Test: 1"], &["X-Trace"], 0);
    let req = request(&[("X-Other", "v")]);
    let resp = cfg
        .handle(&req, b"x".to_vec())
        .unwrap_or_else(|_| panic!("expected a successful echo"));
    assert_eq!(resp.headers.len(), 1);
    assert_eq!(get(&resp.headers, "X-Trace"), None);
    assert_eq!(get(&resp.headers, "X-Test"), Some(&b"1".to_vec()));
}

#[test]
fn malformed_static_token_refuses_configuration() {
    let lines = vec![b"no-colon-here".to_vec()];
    assert!(Config::new(&lines, vec![], 0).is_none());
    let lines2 = vec![b"Name:".to_vec()];
    assert!(Config::new(&lines2, vec![], 0).is_none());
}

#[test]
fn header_token_parsing() {
    let p = parse_header(&b"X-Test: 1".to_vec()).unwrap();
    assert_eq!(p.0, b"X-Test".to_vec());
    assert_eq!(p.1, b"1".to_vec());
    let q = parse_header(&b" Name : Value ".to_vec()).unwrap();
    assert_eq!(q.0, b"Name".to_vec());
    assert_eq!(q.1, b"Value".to_vec());
    let s = parse_header(&b"a: b : c".to_vec()).unwrap();
    assert_eq!(s.0, b"a".to_vec());
    assert_eq!(s.1, b"b".to_vec());
    let t = parse_header(&b"a::b".to_vec()).unwrap();
    assert_eq!(t.0, b"a".to_vec());
    assert_eq!(t.1, b"".to_vec());
    assert!(parse_header(&b"bad".to_vec()).is_none());
    assert!(parse_header(&b"a:".to_vec()).is_none());
}

#[test]
fn headers_insert_replaces_case_insensitively() {
    let mut h = Headers::new();
    h.insert(b"X-A".to_vec(), b"1".to_vec());
    h.insert(b"x-a".to_vec(), b"2".to_vec());
    assert_eq!(h.len(), 1);
    assert_eq!(get(&h, "X-A"), Some(&b"2".to_vec()));
    assert_eq!(get(&h, "X-B"), None);
}

#[test]
fn delay_configuration_is_kept() {
    let cfg = config(&[], &[], 50000);
    assert!(cfg.needs_delay());
    assert_eq!(cfg.delay(), 50000);
    let zero = config(&[], &[], 0);
    assert!(!zero.needs_delay());
    assert_eq!(zero.delay(), 0);
}

#[test]
fn standard_socket_options() {
    let opts = SocketOptions::standard();
    assert!(opts.nodelay);
    assert_eq!(opts.keepalive_idle_secs, 10);
}
