use wave_proxy::config::{Config, DEFAULT_BACKEND_PORT};
use wave_proxy::forward::{
    filter_headers, health_target, is_hop_by_hop_header, is_success_status, proxy_target,
    unavailable_response, BodyRelay, Header, SERVICE_UNAVAILABLE,
};
use wave_proxy::supervisor::{BeginOutcome, PollReport, ProcessHandle, Supervisor};

fn header(name: &str, value: &str) -> Header {
    Header { name: String::from(name), value: value.as_bytes().to_vec() }
}

#[test]
fn hop_by_hop_names_match_any_casing() {
    for name in [
        "connection",
        "Connection",
        "CONNECTION",
        "keep-alive",
        "Keep-Alive",
        "proxy-authenticate",
        "Proxy-Authenticate",
        "proxy-authorization",
        "te",
        "TE",
        "trailers",
        "Trailers",
        "transfer-encoding",
        "Transfer-Encoding",
        "upgrade",
        "UpGrAdE",
        "host",
        "hOsT",
    ] {
        assert!(is_hop_by_hop_header(name), "{name} must be hop-by-hop");
    }
}

#[test]
fn ordinary_names_are_not_hop_by_hop() {
    for name in [
        "content-type",
        "content-length",
        "accept",
        "x-custom",
        "connectionx",
        "keep_alive",
        "hosts",
        "",
        "übergrade",
    ] {
        assert!(!is_hop_by_hop_header(name), "{name} must be forwarded");
    }
}

#[test]
fn filter_strips_denylist_and_preserves_the_rest() {
    let headers = vec![
        header("Content-Type", "application/json"),
        header("Connection", "keep-alive"),
        header("X-Request-Id", "abc-123"),
        header("Upgrade", "h2c"),
        header("Transfer-Encoding", "chunked"),
        header("Accept", "*/*"),
        header("Host", "example.com"),
    ];
    let kept = filter_headers(headers);
    let names: Vec<&str> = kept.iter().map(|h| h.name.as_str()).collect();
    assert_eq!(names, vec!["Content-Type", "X-Request-Id", "Accept"]);
    assert_eq!(kept[0].value, b"application/json".to_vec());
    assert_eq!(kept[1].value, b"abc-123".to_vec());
    assert_eq!(kept[2].value, b"*/*".to_vec());
}

#[test]
fn filter_keeps_everything_without_denylisted_names() {
    let headers = vec![header("accept", "text/html"), header("x-a", "1")];
    let kept = filter_headers(headers);
    assert_eq!(kept.len(), 2);
    assert_eq!(kept[0].name, "accept");
    assert_eq!(kept[1].name, "x-a");
}

#[test]
fn proxy_target_builds_the_local_uri() {
    assert_eq!(
        proxy_target(8080, Some("/api/items?page=2")),
        "http://127.0.0.1:8080/api/items?page=2"
    );
    assert_eq!(proxy_target(8080, None), "http://127.0.0.1:8080/");
    assert_eq!(proxy_target(80, Some("/")), "http://127.0.0.1:80/");
    assert_eq!(proxy_target(65535, Some("/x")), "http://127.0.0.1:65535/x");
}

#[test]
fn health_target_appends_the_configured_path() {
    assert_eq!(health_target(8080, "/health"), "http://127.0.0.1:8080/health");
    assert_eq!(health_target(3000, "/ready"), "http://127.0.0.1:3000/ready");
}

#[test]
fn success_statuses_are_the_two_hundreds() {
    assert!(!is_success_status(199));
    assert!(is_success_status(200));
    assert!(is_success_status(204));
    assert!(is_success_status(299));
    assert!(!is_success_status(300));
    assert!(!is_success_status(404));
    assert!(!is_success_status(503));
}

#[test]
fn relay_passes_every_frame_through_unchanged() {
    let mut relay = BodyRelay::new();
    // A body far larger than any single frame, forwarded frame by frame.
    let frames: Vec<Vec<u8>> = (0u32..64)
        .map(|i| vec![(i % 256) as u8; 4096])
        .collect();
    for frame in frames {
        let expected = frame.clone();
        let out = relay.relay_frame(frame);
        assert_eq!(out, expected);
    }
    let out = relay.relay_frame(Vec::new());
    assert!(out.is_empty());
}

#[test]
fn unavailable_response_is_503_with_the_error_text() {
    let err = wave_proxy::supervisor::StartupError::BackendMissing {
        path: String::from("./backend/dist/main"),
    };
    let (status, body) = unavailable_response(&err);
    assert_eq!(status, SERVICE_UNAVAILABLE);
    assert_eq!(status, 503);
    assert_eq!(body, "go binary not found at ./backend/dist/main");
}

#[test]
fn config_locates_the_executable_and_default_port() {
    let cfg = Config::new(String::from("backend/dist"), String::from("/health"));
    assert_eq!(cfg.executable_path(), "./backend/dist/main");
    assert_eq!(cfg.port, DEFAULT_BACKEND_PORT);
    assert_eq!(cfg.port, 8080);
    assert_eq!(cfg.healthcheck_endpoint, "/health");
    let custom = Config::with_port(String::from("d"), String::from("/h"), 9000);
    assert_eq!(custom.port, 9000);
    assert_eq!(custom.executable_path(), "./d/main");
}

#[test]
fn ready_backend_serves_health_request() {
    // Scenario: GET /health with the backend already ready.
    let mut sup = Supervisor::new();
    sup.begin_startup();
    sup.on_executable_check("./backend/dist/main", true).unwrap();
    sup.on_spawn_result(Ok(ProcessHandle { pid: 1 })).unwrap();
    assert!(matches!(sup.on_poll(true), PollReport::Ready));
    // ensure_ready: fast path, no lock, no work.
    assert!(sup.is_ready());
    // The forwarder rewrites the target and sanitizes headers.
    let target = proxy_target(8080, Some("/health"));
    assert_eq!(target, "http://127.0.0.1:8080/health");
    let response_headers = filter_headers(vec![
        header("Content-Type", "text/plain"),
        header("Connection", "close"),
        header("Content-Length", "2"),
    ]);
    let names: Vec<&str> = response_headers.iter().map(|h| h.name.as_str()).collect();
    assert_eq!(names, vec!["Content-Type", "Content-Length"]);
    // The backend's 200 and body pass through, frame by frame.
    assert!(is_success_status(200));
    let mut relay = BodyRelay::new();
    assert_eq!(relay.relay_frame(b"ok".to_vec()), b"ok".to_vec());
}

#[test]
fn backend_unreachable_mid_forward_drops_readiness() {
    // Scenario: the backend dies while a request is being forwarded. The
    // forwarder marks the supervisor unready before aborting the attempt; no
    // partial response is assembled from the failed outbound call.
    let mut sup = Supervisor::new();
    sup.begin_startup();
    sup.on_executable_check("./backend/dist/main", true).unwrap();
    sup.on_spawn_result(Ok(ProcessHandle { pid: 3 })).unwrap();
    assert!(matches!(sup.on_poll(true), PollReport::Ready));
    assert!(sup.is_ready());
    sup.mark_unready();
    assert!(!sup.is_ready());
    // The dead process is still tracked, so the next request's startup run
    // begins by terminating it.
    match sup.begin_startup() {
        BeginOutcome::Proceed { stale } => assert_eq!(stale, Some(ProcessHandle { pid: 3 })),
        BeginOutcome::AlreadyReady => panic!("readiness must have dropped"),
    }
}

#[test]
fn missing_backend_request_gets_503_and_no_spawn() {
    // Scenario: a request arrives, the backend never started, the executable
    // is missing.
    let mut sup = Supervisor::new();
    sup.begin_startup();
    let cfg = Config::new(String::from("backend/dist"), String::from("/health"));
    let path = cfg.executable_path();
    let err = sup.on_executable_check(path.as_str(), false).unwrap_err();
    let (status, body) = unavailable_response(&err);
    assert_eq!(status, 503);
    assert!(body.contains("./backend/dist/main"));
    assert_eq!(body, "go binary not found at ./backend/dist/main");
    assert_eq!(sup.spawn_count, 0);
    assert!(!sup.is_ready());
}
