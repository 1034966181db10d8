use rustbox::error::NetworkError;
use rustbox::network::{NetworkMode, NetworkPolicy, TransformRule};
use rustbox::policy::{NetworkPolicyEvaluator, PolicyDecision};
use rustbox::proxy::{
    connect_start, connect_start_of, connection_decision, extract_host, extract_port, header_read_step, http_error_response,
    inject_headers, is_connect, needs_domain_proxy, plain_http_forward, plain_http_start, plain_start_of, tunnel_plan,
    Forward, HeaderReadStep, RequestHead, RequestStart, TunnelPlan,
};
use rustbox::string_map::StringMap;

fn headers(pairs: &[(&str, &str)]) -> StringMap {
    let mut m = StringMap::new();
    for (k, v) in pairs {
        m.insert(k.to_string(), v.to_string());
    }
    m
}

#[test]
fn extract_host_from_request() {
    let raw = b"GET / HTTP/1.1\r\nHost: example.com\r\nAccept: */*\r\n\r\n";
    assert_eq!(
        plain_http_start(raw),
        Ok(RequestStart::Proceed { host: "example.com".to_string(), domain: "example.com".to_string() })
    );
}

#[test]
fn extract_host_missing() {
    let raw = b"GET / HTTP/1.1\r\nAccept: */*\r\n\r\n";
    assert_eq!(
        plain_http_start(raw),
        Ok(RequestStart::Reject(400, "Bad Request: missing Host header".to_string()))
    );
}

#[test]
fn extract_host_any_case_first_header() {
    let head = RequestHead {
        path: Some("/".to_string()),
        headers: vec![
            ("Accept".to_string(), b"*/*".to_vec()),
            ("hOsT".to_string(), b"a.com:81".to_vec()),
            ("Host".to_string(), b"b.com".to_vec()),
        ],
    };
    assert_eq!(extract_host(&head), Some("a.com:81".to_string()));
    let bad = RequestHead { path: None, headers: vec![("Host".to_string(), vec![0xff, 0xfe])] };
    assert_eq!(extract_host(&bad), None);
}

#[test]
fn plain_http_start_with_port_and_parse_error() {
    let raw = b"GET / HTTP/1.1\r\nHost: example.com:8080\r\n\r\n";
    assert_eq!(
        plain_http_start(raw),
        Ok(RequestStart::Proceed { host: "example.com:8080".to_string(), domain: "example.com".to_string() })
    );
    assert!(matches!(plain_http_start(b"GET / HTTP/1.1\r\nBad Header\r\n\r\n"), Err(NetworkError::Io(_))));
}

#[test]
fn connect_start_reads_target() {
    let raw = b"CONNECT api.example.com:443 HTTP/1.1\r\nHost: api.example.com:443\r\n\r\n";
    assert_eq!(
        connect_start(raw),
        Ok(RequestStart::Proceed { host: "api.example.com:443".to_string(), domain: "api.example.com".to_string() })
    );
    assert_eq!(extract_port("api.example.com:443", 443), 443);
}

#[test]
fn extract_port_with_port() {
    assert_eq!(extract_port("example.com:8080", 80), 8080);
}

#[test]
fn extract_port_without_port() {
    assert_eq!(extract_port("example.com", 80), 80);
}

#[test]
fn extract_port_bad_or_out_of_range() {
    assert_eq!(extract_port("example.com:http", 80), 80);
    assert_eq!(extract_port("example.com:70000", 80), 80);
    assert_eq!(extract_port("[::1]:9000", 80), 9000);
    assert_eq!(extract_port("example.com:+8", 80), 8);
}

#[test]
fn inject_headers_adds_to_request() {
    let raw = b"GET / HTTP/1.1\r\nHost: example.com\r\n\r\n";
    let h = headers(&[("Authorization", "Bearer tok123")]);
    let result = inject_headers(raw, &h).unwrap();
    let result_str = String::from_utf8(result).unwrap();
    assert!(result_str.contains("Authorization: Bearer tok123\r\n"));
    assert!(result_str.contains("Host: example.com\r\n"));
    assert!(result_str.ends_with("\r\n\r\n"));
}

#[test]
fn inject_headers_empty_is_noop() {
    let raw = b"GET / HTTP/1.1\r\nHost: example.com\r\n\r\n";
    let h = StringMap::new();
    let result = inject_headers(raw, &h).unwrap();
    assert_eq!(result, raw);
}

#[test]
fn inject_headers_preserves_body() {
    let raw = b"POST / HTTP/1.1\r\nHost: example.com\r\nContent-Length: 5\r\n\r\nhello";
    let h = headers(&[("X-Key", "val")]);
    let result = inject_headers(raw, &h).unwrap();
    let result_str = String::from_utf8(result).unwrap();
    assert!(result_str.ends_with("\r\n\r\nhello"));
    assert!(result_str.contains("X-Key: val\r\n"));
}

#[test]
fn inject_headers_exact_bytes_and_missing_terminator() {
    let raw = b"GET / HTTP/1.1\r\nHost: a\r\n\r\nbody";
    let h = headers(&[("A", "1"), ("B", "2")]);
    assert_eq!(inject_headers(raw, &h).unwrap(), b"GET / HTTP/1.1\r\nHost: a\r\nA: 1\r\nB: 2\r\n\r\nbody".to_vec());
    let err = inject_headers(b"GET / HTTP/1.1\r\n", &h).unwrap_err();
    assert_eq!(err, NetworkError::Io("no header terminator".to_string()));
    assert_eq!(err.message(), "io error: no header terminator");
}

#[test]
fn needs_domain_proxy_with_allow_domains() {
    let mut policy = NetworkPolicy::default();
    policy.mode = NetworkMode::DenyAll;
    policy.allow_domains = vec!["*.github.com".to_string()];
    assert!(needs_domain_proxy(&policy));
}

#[test]
fn needs_domain_proxy_with_transform_rules() {
    let mut rule = TransformRule::new("api.example.com");
    rule.headers.insert("Authorization".to_string(), "Bearer tok".to_string());
    let mut policy = NetworkPolicy::default();
    policy.transform_rules = vec![rule];
    assert!(needs_domain_proxy(&policy));
}

#[test]
fn no_proxy_for_subnet_only_deny_all() {
    let mut policy = NetworkPolicy::default();
    policy.mode = NetworkMode::DenyAll;
    policy.subnets_allow = vec![rustbox::network::Cidr::parse("10.0.0.0/8").unwrap()];
    assert!(!needs_domain_proxy(&policy));
}

#[test]
fn no_proxy_for_default_policy() {
    assert!(!needs_domain_proxy(&NetworkPolicy::default()));
}

#[test]
fn error_response_text() {
    let r = http_error_response(403, "Forbidden by network policy");
    let body = "<html><body><h1>403 Forbidden</h1><p>Forbidden by network policy</p></body></html>";
    assert_eq!(
        r,
        format!(
            "HTTP/1.1 403 Forbidden\r\nContent-Type: text/html\r\nContent-Length: {}\r\nConnection: close\r\n\r\n{}",
            body.len(),
            body
        )
    );
    assert!(http_error_response(418, "x").starts_with("HTTP/1.1 418 Error\r\n"));
}

#[test]
fn header_reading_steps() {
    let mut buf = Vec::new();
    assert_eq!(header_read_step(&mut buf, b"GET / HTTP/1.1\r\n"), HeaderReadStep::Continue);
    assert_eq!(header_read_step(&mut buf, b"Host: a\r\n\r\nrest"), HeaderReadStep::Done);
    assert!(buf.ends_with(b"rest"));
    assert_eq!(header_read_step(&mut buf, b""), HeaderReadStep::Done);
    let mut big = vec![b'a'; 65536];
    assert_eq!(header_read_step(&mut big, b"b"), HeaderReadStep::TooLarge);
}

#[test]
fn connect_detection() {
    assert!(is_connect(b"CONNECT example.com:443 HTTP/1.1"));
    assert!(!is_connect(b"GET / HT"));
    assert!(!is_connect(b"CONNECT"));
}

#[test]
fn forwarding_decisions() {
    let raw = b"GET / HTTP/1.1\r\nHost: a.com:8080\r\n\r\n";
    assert_eq!(
        plain_http_forward(&PolicyDecision::Deny, raw, "a.com:8080"),
        Ok(Forward::Refuse(403, "Forbidden by network policy".to_string()))
    );
    assert_eq!(
        plain_http_forward(&PolicyDecision::Allow, raw, "a.com:8080"),
        Ok(Forward::Send { data: raw.to_vec(), port: 8080 })
    );
    let mut rule = TransformRule::new("a.com");
    rule.headers.insert("K".to_string(), "v".to_string());
    let sent = plain_http_forward(&PolicyDecision::AllowWithTransform(rule), raw, "a.com");
    assert_eq!(
        sent,
        Ok(Forward::Send { data: b"GET / HTTP/1.1\r\nHost: a.com:8080\r\nK: v\r\n\r\n".to_vec(), port: 80 })
    );
    assert!(matches!(tunnel_plan(PolicyDecision::Allow), TunnelPlan::Relay));
    assert!(matches!(tunnel_plan(PolicyDecision::Deny), TunnelPlan::Refuse(403, _)));
}

#[test]
fn unresolved_domain_uses_domain_verdict() {
    let mut p = NetworkPolicy::default();
    p.mode = NetworkMode::DenyAll;
    p.allow_domains = vec!["ok.com".to_string()];
    let e = NetworkPolicyEvaluator::new(p);
    assert_eq!(connection_decision(&e, "ok.com", None), PolicyDecision::Allow);
    assert_eq!(connection_decision(&e, "no.com", None), PolicyDecision::Deny);
}

#[test]
fn request_starts_decided_from_parse_results() {
    let head = RequestHead {
        path: Some("/x".to_string()),
        headers: vec![("Accept".to_string(), b"*/*".to_vec()), ("HOST".to_string(), b"api.example.com:8080".to_vec())],
    };
    assert_eq!(
        plain_start_of(Ok(head)),
        Ok(RequestStart::Proceed { host: "api.example.com:8080".to_string(), domain: "api.example.com".to_string() })
    );
    let no_host = RequestHead { path: Some("/".to_string()), headers: vec![] };
    assert_eq!(
        plain_start_of(Ok(no_host)),
        Ok(RequestStart::Reject(400, "Bad Request: missing Host header".to_string()))
    );
    assert_eq!(
        plain_start_of(Err("invalid token".to_string())),
        Err(NetworkError::Io("HTTP parse error: invalid token".to_string()))
    );
    let target = RequestHead { path: Some("example.com:443".to_string()), headers: vec![] };
    assert_eq!(
        connect_start_of(Ok(target)),
        Ok(RequestStart::Proceed { host: "example.com:443".to_string(), domain: "example.com".to_string() })
    );
    let none = RequestHead { path: None, headers: vec![] };
    assert_eq!(connect_start_of(Ok(none)), Ok(RequestStart::Reject(400, "Bad Request".to_string())));
    assert_eq!(
        connect_start_of(Err("bad".to_string())),
        Err(NetworkError::Io("CONNECT parse: bad".to_string()))
    );
}
