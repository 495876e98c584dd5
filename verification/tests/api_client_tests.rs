use print_agent::api_client::{
    check_reply, health_from_reply, status_line, ApiClient, ClaimBody, DoneBody, Endpoint,
    HttpMethod,
};

fn headers(req: &print_agent::api_client::HttpRequest) -> Vec<(String, String)> {
    req.headers.clone()
}

#[test]
fn new_strips_trailing_slashes() {
    let c = ApiClient::new("https://print.example.com//", "k1");
    assert_eq!(c.server_url, "https://print.example.com");
    assert_eq!(c.api_key, "k1");
    let again = ApiClient::new(&c.server_url, &c.api_key);
    assert_eq!(again.server_url, c.server_url);
}

#[test]
fn queue_request_is_a_get_with_the_key() {
    let c = ApiClient::new("http://localhost:5050/", "SECRET-REDACTED");
    let r = c.queue_request();
    assert_eq!(r.method, HttpMethod::Get);
    assert_eq!(r.url, "http://localhost:5050/api/print/queue");
    assert_eq!(headers(&r), vec![("X-Agent-API-Key".to_string(), "SECRET-REDACTED".to_string())]);
    assert!(r.body.is_none());
}

#[test]
fn claim_request_posts_the_agent_id() {
    let c = ApiClient::new("http://h", "k");
    let r = c.claim_request("q-17", "ab12cd34");
    assert_eq!(r.method, HttpMethod::Post);
    assert_eq!(r.url, "http://h/api/print/claim/q-17");
    assert_eq!(r.body.as_deref(), Some("{\"agent_id\":\"ab12cd34\"}"));
    assert_eq!(
        headers(&r),
        vec![
            ("X-Agent-API-Key".to_string(), "k".to_string()),
            ("content-type".to_string(), "application/json".to_string()),
        ]
    );
}

#[test]
fn file_and_config_requests() {
    let c = ApiClient::new("http://h/", "k");
    assert_eq!(c.file_request("q1").url, "http://h/api/print/file/q1");
    assert_eq!(c.file_request("q1").method, HttpMethod::Get);
    assert_eq!(c.config_request().url, "http://h/api/print/config");
}

#[test]
fn done_request_bodies() {
    let c = ApiClient::new("http://h", "k");
    let ok = c.done_request("q1", true, None);
    assert_eq!(ok.url, "http://h/api/print/done/q1");
    assert_eq!(ok.body.as_deref(), Some("{\"success\":true,\"error\":null}"));
    let failed = c.done_request("q1", false, Some("Kein Drucker konfiguriert".to_string()));
    assert_eq!(
        failed.body.as_deref(),
        Some("{\"success\":false,\"error\":\"Kein Drucker konfiguriert\"}")
    );
}

#[test]
fn bodies_escape_like_serde_json() {
    let id = "a\"b\\c\nd\te\u{1}f\u{1f}ü";
    let body = ClaimBody { agent_id: id.to_string() }.to_json();
    let want = format!("{{\"agent_id\":{}}}", serde_json::to_string(id).unwrap());
    assert_eq!(body, want);
    assert_eq!(body, "{\"agent_id\":\"a\\\"b\\\\c\\nd\\te\\u0001f\\u001fü\"}");
    let done = DoneBody { success: false, error: Some("x\ry".to_string()) }.to_json();
    assert_eq!(done, "{\"success\":false,\"error\":\"x\\ry\"}");
}

#[test]
fn status_lines() {
    assert_eq!(status_line(404), "404 Not Found");
    assert_eq!(status_line(200), "200 OK");
    assert_eq!(status_line(599), "599 <unknown status code>");
}

#[test]
fn queue_replies() {
    assert_eq!(check_reply(Endpoint::Queue, Ok(200)), Ok(()));
    assert_eq!(check_reply(Endpoint::Queue, Ok(204)), Ok(()));
    assert_eq!(
        check_reply(Endpoint::Queue, Ok(500)),
        Err("Server-Fehler: 500 Internal Server Error".to_string())
    );
    assert_eq!(
        check_reply(Endpoint::Queue, Err("connection refused".to_string())),
        Err("Verbindung fehlgeschlagen: connection refused".to_string())
    );
}

#[test]
fn other_replies() {
    assert_eq!(
        check_reply(Endpoint::Claim, Ok(409)),
        Err("Claim fehlgeschlagen: 409 Conflict".to_string())
    );
    assert_eq!(
        check_reply(Endpoint::File, Ok(404)),
        Err("Download fehlgeschlagen: 404 Not Found".to_string())
    );
    assert_eq!(
        check_reply(Endpoint::Done, Ok(301)),
        Err("Report fehlgeschlagen: 301 Moved Permanently".to_string())
    );
    assert_eq!(check_reply(Endpoint::Config, Ok(500)), Ok(()));
    assert_eq!(check_reply(Endpoint::Claim, Err("timeout".to_string())), Err("timeout".to_string()));
    assert_eq!(check_reply(Endpoint::Config, Err("dns".to_string())), Err("dns".to_string()));
}

#[test]
fn health_replies() {
    assert_eq!(health_from_reply(Ok(200)), Ok(true));
    assert_eq!(health_from_reply(Ok(299)), Ok(true));
    assert_eq!(health_from_reply(Ok(300)), Ok(false));
    assert_eq!(health_from_reply(Ok(401)), Ok(false));
    assert_eq!(
        health_from_reply(Err("refused".to_string())),
        Err("Verbindung fehlgeschlagen: refused".to_string())
    );
}
