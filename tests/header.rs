use pingap_core::header::{
    convert_header, convert_header_value, convert_headers, http_header_content_html,
    http_header_content_json, http_header_name_x_request_id, http_header_no_cache,
    http_header_no_store, http_header_transfer_chunked, Error,
};
use pingap_core::state::{AttrValue, ProcessInfo, RequestHeader, State, SystemInfo};

fn request(headers: &[(&str, &str)]) -> RequestHeader {
    RequestHeader {
        host: Some("pingap.io".to_string()),
        path: "/vicanso/pingap".to_string(),
        headers: headers
            .iter()
            .map(|(k, v)| (k.to_string(), v.to_string()))
            .collect(),
    }
}

fn system() -> SystemInfo {
    SystemInfo {
        memory_mb: 10,
        memory: "10 MB".to_string(),
        arch: "x86_64".to_string(),
        cpus: 4,
        physical_cpus: 2,
        total_memory: "8 GB".to_string(),
        used_memory: "1 GB".to_string(),
        threads: 8,
        fd_count: 12,
        tcp_count: 3,
        tcp6_count: 1,
    }
}

fn process() -> ProcessInfo {
    ProcessInfo {
        system: system(),
        hostname: "proxy-1".to_string(),
        env: vec![
            ("HOME".to_string(), "/root".to_string()),
            ("USER".to_string(), "root".to_string()),
        ],
        version: "0.1.0".to_string(),
        rustc_version: "1.80.0".to_string(),
        start_time: 100,
        now: 190,
        processing: 1,
        accepted: 5,
    }
}

fn empty_state() -> State {
    State::new(None, None, None, None, None, 0)
}

fn default_state() -> State {
    let mut s = State::new(
        Some("tls1.3".to_string()),
        Some("10.1.1.1".to_string()),
        Some(6000),
        Some("10.1.1.2".to_string()),
        Some(6001),
        102,
    );
    s.upstream_address = "10.1.1.3:4123".to_string();
    s
}

fn resolve(value: &str, req: &RequestHeader, ctx: &State) -> Option<String> {
    convert_header_value(value, req, ctx, &process())
}

#[test]
fn test_convert_headers() {
    let headers = convert_headers(&[
        "Content-Type: application/octet-stream".to_string(),
        "X-Server: $hostname".to_string(),
        "X-User: $USER".to_string(),
    ])
    .ok()
    .unwrap();
    assert_eq!(3, headers.len());
    assert_eq!("content-type", headers[0].0);
    assert_eq!("application/octet-stream", headers[0].1);
    assert_eq!("x-server", headers[1].0);
    assert_eq!(false, headers[1].1.is_empty());
    assert_eq!("x-user", headers[2].0);
    assert_eq!(false, headers[2].1.is_empty());
}

#[test]
fn test_convert_header_value() {
    let session = request(&[("Host", "pingap.io")]);

    let value = resolve("$host", &session, &empty_state());
    assert_eq!(true, value.is_some());
    assert_eq!("pingap.io", value.unwrap());

    let value = resolve("$scheme", &session, &empty_state());
    assert_eq!(true, value.is_some());
    assert_eq!("http", value.unwrap());
    let value = resolve("$scheme", &session, &default_state());
    assert_eq!(true, value.is_some());
    assert_eq!("https", value.unwrap());

    let value = resolve("$remote_addr", &session, &default_state());
    assert_eq!(true, value.is_some());
    assert_eq!("10.1.1.1", value.unwrap());

    let value = resolve("$remote_port", &session, &default_state());
    assert_eq!(true, value.is_some());
    assert_eq!("6000", value.unwrap());

    let value = resolve("$server_addr", &session, &default_state());
    assert_eq!(true, value.is_some());
    assert_eq!("10.1.1.2", value.unwrap());

    let value = resolve("$server_port", &session, &default_state());
    assert_eq!(true, value.is_some());
    assert_eq!("6001", value.unwrap());

    let value = resolve("$upstream_addr", &session, &default_state());
    assert_eq!(true, value.is_some());
    assert_eq!("10.1.1.3:4123", value.unwrap());

    let value = resolve(":connection_id", &session, &default_state());
    assert_eq!(true, value.is_some());
    assert_eq!("102", value.unwrap());

    let session = request(&[("X-Forwarded-For", "1.1.1.1, 2.2.2.2")]);
    let mut ctx = empty_state();
    ctx.remote_addr = Some("10.1.1.1".to_string());
    let value = resolve("$proxy_add_x_forwarded_for", &session, &ctx);
    assert_eq!(true, value.is_some());
    assert_eq!("1.1.1.1, 2.2.2.2, 10.1.1.1", value.unwrap());

    let session = request(&[]);
    let value = resolve("$proxy_add_x_forwarded_for", &session, &ctx);
    assert_eq!(true, value.is_some());
    assert_eq!("10.1.1.1", value.unwrap());

    let mut ctx = empty_state();
    ctx.upstream_address = "10.1.1.1:8001".to_string();
    let value = resolve("$upstream_addr", &session, &ctx);
    assert_eq!(true, value.is_some());
    assert_eq!("10.1.1.1:8001", value.unwrap());

    let session = request(&[("Origin", "https://github.com")]);
    let value = resolve("$http_origin", &session, &empty_state());
    assert_eq!(true, value.is_some());
    assert_eq!("https://github.com", value.unwrap());

    let value = resolve("$hostname", &session, &empty_state());
    assert_eq!(true, value.is_some());

    let value = resolve("$HOME", &session, &empty_state());
    assert_eq!(true, value.is_some());

    // A value with no recognised prefix is a literal, kept as it is.
    let value = resolve("UUID", &session, &empty_state());
    assert_eq!(Some("UUID".to_string()), value);
}

#[test]
fn colonless_directive_is_skipped() {
    assert!(matches!(convert_header("no colon here"), Ok(None)));
    assert!(matches!(convert_header(""), Ok(None)));
    let headers = convert_headers(&["garbage".to_string(), "X-A: 1".to_string()]).ok().unwrap();
    assert_eq!(1, headers.len());
    assert_eq!(("x-a".to_string(), "1".to_string()), headers[0]);
}

#[test]
fn directive_splits_on_first_colon_and_trims() {
    let h = convert_header("  Location :  http://a:80/x  ").ok().unwrap().unwrap();
    assert_eq!("location", h.0);
    assert_eq!("http://a:80/x", h.1);
}

#[test]
fn directive_with_illegal_name_is_an_error() {
    match convert_header("Bad Name: x") {
        Err(Error::InvalidHeaderName { value, line }) => {
            assert_eq!("Bad Name", value);
            assert_eq!("Bad Name: x", line);
        }
        _ => panic!("expected a name error"),
    }
    let e = convert_headers(&["X-A: 1".to_string(), ": x".to_string()]);
    assert!(matches!(e, Err(Error::InvalidHeaderName { .. })));
}

#[test]
fn directive_with_illegal_value_is_an_error() {
    match convert_header("X-A: a\u{7f}b") {
        Err(e) => {
            assert!(matches!(e, Error::InvalidHeaderValue { .. }));
            assert_eq!("Invalid header value a\u{7f}b, line: X-A: a\u{7f}b", e.to_string());
        }
        _ => panic!("expected a value error"),
    }
}

#[test]
fn scheme_follows_tls_version() {
    let session = request(&[]);
    let mut ctx = empty_state();
    assert_eq!(Some("http".to_string()), resolve("$scheme", &session, &ctx));
    ctx.tls_version = Some(String::new());
    assert_eq!(Some("http".to_string()), resolve("$scheme", &session, &ctx));
    ctx.tls_version = Some("tls1.2".to_string());
    assert_eq!(Some("https".to_string()), resolve("$scheme", &session, &ctx));
}

#[test]
fn absent_facts_are_omitted() {
    let session = RequestHeader { host: None, path: "/".to_string(), headers: vec![] };
    let ctx = empty_state();
    for tag in [
        "$host",
        "$remote_addr",
        "$remote_port",
        "$server_addr",
        "$server_port",
        "$upstream_addr",
        "$proxy_add_x_forwarded_for",
        "$http_origin",
        "$NO_SUCH_VARIABLE",
        ":missing",
    ] {
        assert_eq!(None, resolve(tag, &session, &ctx), "{}", tag);
    }
}

#[test]
fn header_lookup_ignores_case() {
    let session = request(&[("ORIGIN", "https://a.example")]);
    assert_eq!(Some("https://a.example".to_string()), resolve("$http_Origin", &session, &empty_state()));
}

#[test]
fn forwarded_for_keeps_existing_value_verbatim() {
    let session = request(&[("X-Forwarded-For", "caf\u{e9}")]);
    let mut ctx = empty_state();
    ctx.remote_addr = Some("10.0.0.9".to_string());
    assert_eq!(Some("caf\u{e9}, 10.0.0.9".to_string()), resolve("$proxy_add_x_forwarded_for", &session, &ctx));
}

#[test]
fn context_attributes_resolve_by_name() {
    let session = request(&[]);
    let mut ctx = empty_state();
    ctx.set_attr("user", AttrValue::Str("alice".to_string()));
    ctx.set_attr("retries", AttrValue::Int(-3));
    ctx.set_attr("cached", AttrValue::Bool(true));
    assert_eq!(Some("alice".to_string()), resolve(":user", &session, &ctx));
    assert_eq!(Some("-3".to_string()), resolve(":retries", &session, &ctx));
    assert_eq!(Some("true".to_string()), resolve(":cached", &session, &ctx));
    ctx.set_attr("user", AttrValue::Str(String::new()));
    assert_eq!(None, resolve(":user", &session, &ctx));
    ctx.location_accepted = 18446744073709551615;
    assert_eq!(Some("18446744073709551615".to_string()), resolve(":location_accepted", &session, &ctx));
    ctx.location_processing = -2147483648;
    assert_eq!(Some("-2147483648".to_string()), resolve(":location_processing", &session, &ctx));
}

#[test]
fn environment_values_are_checked() {
    let session = request(&[]);
    let mut p = process();
    p.env.push(("BAD".to_string(), "a\nb".to_string()));
    assert_eq!(None, convert_header_value("$BAD", &session, &empty_state(), &p));
    assert_eq!(Some("root".to_string()), convert_header_value("$USER", &session, &empty_state(), &p));
}

#[test]
fn test_static_value() {
    let show = |h: (String, String)| format!("{}: {}", h.0, h.1);
    assert_eq!("cache-control: private, no-store", show(http_header_no_store()));
    assert_eq!("cache-control: private, no-cache", show(http_header_no_cache()));
    assert_eq!("content-type: application/json; charset=utf-8", show(http_header_content_json()));
    assert_eq!("content-type: text/html; charset=utf-8", show(http_header_content_html()));
    assert_eq!("transfer-encoding: chunked", show(http_header_transfer_chunked()));
    assert_eq!("x-request-id", format!("{}", http_header_name_x_request_id()));
}

#[test]
fn directive_trims_unicode_white_space() {
    let h = convert_header("\u{a0}\tX-Trace\u{3000}:\u{2003} on \r\n").ok().unwrap().unwrap();
    assert_eq!("x-trace", h.0);
    assert_eq!("on", h.1);
}

#[test]
fn hostname_is_never_omitted() {
    let session = request(&[]);
    assert_eq!(Some("proxy-1".to_string()), resolve("$hostname", &session, &empty_state()));
}
