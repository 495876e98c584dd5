use print_agent::api_client::{ClaimResponse, HttpMethod, QueueItem};
use print_agent::config::AgentConfig;
use print_agent::polling::{
    get_label_size, next_backoff, poll_delay, AgentStatus, PollAction, PollEvent, PollPhase,
    Poller,
};

fn cfg(server: &str, key: &str, printer: &str, poll: u64) -> AgentConfig {
    AgentConfig {
        server_url: server.to_string(),
        api_key: key.to_string(),
        printer_name: printer.to_string(),
        poll_interval_seconds: poll,
        auto_start: true,
        agent_id: "a1b2c3d4".to_string(),
    }
}

fn job(id: &str) -> QueueItem {
    QueueItem { queue_id: id.to_string(), job_id: format!("job-{}", id), label_format: None }
}

fn step(p: Poller, ev: PollEvent) -> (Poller, PollAction) {
    assert!(p.accepts(&ev), "{:?} does not take {:?}", p.phase, ev);
    p.step(ev)
}

/// Runs a machine from between polls up to the point where it fetched the queue.
fn to_queue(p: Poller, c: AgentConfig) -> Poller {
    let (p, a) = step(p, PollEvent::Ack);
    assert!(matches!(a, PollAction::CheckStop));
    let (p, a) = step(p, PollEvent::StopFlag(false));
    assert!(matches!(a, PollAction::LoadConfig));
    let (p, a) = step(p, PollEvent::ConfigLoaded(c));
    assert!(matches!(a, PollAction::FetchQueue(_)));
    p
}

#[test]
fn label_size_is_fixed() {
    assert_eq!(get_label_size(""), (103, 199));
    assert_eq!(get_label_size("62x29"), (103, 199));
}

#[test]
fn delays() {
    assert_eq!(poll_delay(0), 5);
    assert_eq!(poll_delay(5), 5);
    assert_eq!(poll_delay(30), 30);
    assert_eq!(next_backoff(5), 10);
    assert_eq!(next_backoff(29), 58);
    assert_eq!(next_backoff(30), 60);
    assert_eq!(next_backoff(60), 60);
    assert_eq!(next_backoff(u64::MAX), 60);
}

#[test]
fn agent_status_values() {
    assert_eq!(AgentStatus::Printing("q1".to_string()), AgentStatus::Printing("q1".to_string()));
    assert_ne!(AgentStatus::Connected, AgentStatus::Unconfigured);
    assert_ne!(AgentStatus::Disconnected("x".to_string()), AgentStatus::Connected);
}

#[test]
fn stop_flag_ends_the_loop() {
    let p = Poller::new();
    let (p, _) = step(p, PollEvent::Ack);
    let (p, a) = step(p, PollEvent::StopFlag(true));
    assert!(matches!(a, PollAction::Exit));
    assert!(matches!(p.phase, PollPhase::Stopped));
    assert!(!p.accepts(&PollEvent::Ack));
}

#[test]
fn unconfigured_agent_sleeps_without_network() {
    let p = Poller::new();
    let (p, _) = step(p, PollEvent::Ack);
    let (p, _) = step(p, PollEvent::StopFlag(false));
    let (p, a) = step(p, PollEvent::ConfigLoaded(cfg("http://h", "", "", 2)));
    assert!(matches!(a, PollAction::SetConnected(false)));
    let (p, a) = step(p, PollEvent::Ack);
    assert!(matches!(a, PollAction::Sleep(5)));
    assert_eq!(p.backoff, 5);
    let (p, _) = step(p, PollEvent::Ack);
    let (p, _) = step(p, PollEvent::StopFlag(false));
    let (_, a) = step(p, PollEvent::ConfigLoaded(cfg("", "key", "", 40)));
    assert!(matches!(a, PollAction::SetConnected(false)));
}

#[test]
fn failed_polls_back_off_to_a_minute() {
    let mut p = Poller::new();
    let mut sleeps = Vec::new();
    for _ in 0..5 {
        p = to_queue(p, cfg("http://h/", "k", "", 5));
        let (q, a) = step(p, PollEvent::QueueFetched(Err("Verbindung fehlgeschlagen: refused".to_string())));
        assert!(matches!(a, PollAction::SetConnected(false)));
        let (q, a) = step(q, PollEvent::Ack);
        match a {
            PollAction::Sleep(s) => sleeps.push(s),
            other => panic!("{:?}", other),
        }
        p = q;
    }
    assert_eq!(sleeps, vec![10, 20, 40, 60, 60]);
    p = to_queue(p, cfg("http://h/", "k", "", 7));
    let (p, a) = step(p, PollEvent::QueueFetched(Ok(vec![])));
    assert!(matches!(a, PollAction::SetConnected(true)));
    let (p, a) = step(p, PollEvent::Ack);
    assert!(matches!(a, PollAction::Sleep(7)));
    assert_eq!(p.backoff, 7);
}

#[test]
fn fetch_uses_normalised_server() {
    let p = Poller::new();
    let (p, _) = step(p, PollEvent::Ack);
    let (p, _) = step(p, PollEvent::StopFlag(false));
    let (_, a) = step(p, PollEvent::ConfigLoaded(cfg("http://srv:5050///", "key", "", 5)));
    match a {
        PollAction::FetchQueue(req) => {
            assert_eq!(req.method, HttpMethod::Get);
            assert_eq!(req.url, "http://srv:5050/api/print/queue");
            assert_eq!(req.headers[0], ("X-Agent-API-Key".to_string(), "key".to_string()));
        },
        other => panic!("{:?}", other),
    }
}

#[test]
fn full_cycle_with_configured_printer() {
    let p = to_queue(Poller::new(), cfg("http://h", "k", "Zebra", 5));
    let (p, _) = step(p, PollEvent::QueueFetched(Ok(vec![job("q1"), job("q2"), job("q3")])));
    // q1: claim refused by the server
    let (p, a) = step(p, PollEvent::Ack);
    match &a {
        PollAction::ClaimJob { queue_id, request: req } => {
            assert_eq!(queue_id, "q1");
            assert_eq!(req.url, "http://h/api/print/claim/q1");
            assert_eq!(req.body.as_deref(), Some("{\"agent_id\":\"a1b2c3d4\"}"));
        },
        other => panic!("{:?}", other),
    }
    let (p, a) = step(p, PollEvent::JobClaimed(Ok(ClaimResponse { ok: false, file_url: None, label_format: None })));
    // q2: claimed, printed, reported, removed
    match &a {
        PollAction::ClaimJob { request: req, .. } => assert_eq!(req.url, "http://h/api/print/claim/q2"),
        other => panic!("{:?}", other),
    }
    let (p, a) = step(p, PollEvent::JobClaimed(Ok(ClaimResponse { ok: true, file_url: None, label_format: Some("103x199".to_string()) })));
    match &a {
        PollAction::DownloadPdf(req) => assert_eq!(req.url, "http://h/api/print/file/q2"),
        other => panic!("{:?}", other),
    }
    let (p, a) = step(p, PollEvent::PdfDownloaded(Ok("/tmp/x.pdf".to_string())));
    match &a {
        PollAction::PrintPdf { queue_id, pdf_path, printer, width_mm, height_mm } => {
            assert_eq!(queue_id, "q2");
            assert_eq!(pdf_path, "/tmp/x.pdf");
            assert_eq!(printer, "Zebra");
            assert_eq!((*width_mm, *height_mm), (103, 199));
        },
        other => panic!("{:?}", other),
    }
    let (p, a) = step(p, PollEvent::PdfPrinted(Ok(())));
    match &a {
        PollAction::ReportDone(req) => {
            assert_eq!(req.url, "http://h/api/print/done/q2");
            assert_eq!(req.body.as_deref(), Some("{\"success\":true,\"error\":null}"));
        },
        other => panic!("{:?}", other),
    }
    let (p, a) = step(p, PollEvent::Ack);
    match &a {
        PollAction::RemoveFile(path) => assert_eq!(path, "/tmp/x.pdf"),
        other => panic!("{:?}", other),
    }
    // q3: claim request fails, then the agent sleeps
    let (p, a) = step(p, PollEvent::Ack);
    match &a {
        PollAction::ClaimJob { request: req, .. } => assert_eq!(req.url, "http://h/api/print/claim/q3"),
        other => panic!("{:?}", other),
    }
    let (p, a) = step(p, PollEvent::JobClaimed(Err("timeout".to_string())));
    assert!(matches!(a, PollAction::Sleep(5)));
    assert!(matches!(p.phase, PollPhase::Idle));
}

#[test]
fn print_failure_is_reported_and_file_removed() {
    let p = to_queue(Poller::new(), cfg("http://h", "k", "Zebra", 5));
    let (p, _) = step(p, PollEvent::QueueFetched(Ok(vec![job("q9")])));
    let (p, _) = step(p, PollEvent::Ack);
    let (p, _) = step(p, PollEvent::JobClaimed(Ok(ClaimResponse { ok: true, file_url: None, label_format: None })));
    let (p, _) = step(p, PollEvent::PdfDownloaded(Ok("/tmp/y.pdf".to_string())));
    let (p, a) = step(p, PollEvent::PdfPrinted(Err("Druckfehler: offline".to_string())));
    match &a {
        PollAction::ReportDone(req) => assert_eq!(req.body.as_deref(), Some("{\"success\":false,\"error\":\"Druckfehler: offline\"}")),
        other => panic!("{:?}", other),
    }
    let (p, a) = step(p, PollEvent::Ack);
    assert!(matches!(a, PollAction::RemoveFile(ref f) if f == "/tmp/y.pdf"));
    let (_, a) = step(p, PollEvent::Ack);
    assert!(matches!(a, PollAction::Sleep(5)));
}

#[test]
fn download_failure_is_reported() {
    let p = to_queue(Poller::new(), cfg("http://h", "k", "Zebra", 5));
    let (p, _) = step(p, PollEvent::QueueFetched(Ok(vec![job("q5")])));
    let (p, _) = step(p, PollEvent::Ack);
    let (p, _) = step(p, PollEvent::JobClaimed(Ok(ClaimResponse { ok: true, file_url: None, label_format: None })));
    let (p, a) = step(p, PollEvent::PdfDownloaded(Err("Download fehlgeschlagen: 404 Not Found".to_string())));
    match &a {
        PollAction::ReportDone(req) => {
            assert_eq!(req.url, "http://h/api/print/done/q5");
            assert_eq!(req.body.as_deref(), Some("{\"success\":false,\"error\":\"Download: Download fehlgeschlagen: 404 Not Found\"}"));
        },
        other => panic!("{:?}", other),
    }
    let (_, a) = step(p, PollEvent::Ack);
    assert!(matches!(a, PollAction::Sleep(5)));
}

#[test]
fn first_local_printer_is_the_fallback() {
    let p = to_queue(Poller::new(), cfg("http://h", "k", "", 5));
    let (p, _) = step(p, PollEvent::QueueFetched(Ok(vec![job("q1")])));
    let (p, _) = step(p, PollEvent::Ack);
    let (p, _) = step(p, PollEvent::JobClaimed(Ok(ClaimResponse { ok: true, file_url: None, label_format: None })));
    let (p, a) = step(p, PollEvent::PdfDownloaded(Ok("/tmp/z.pdf".to_string())));
    assert!(matches!(a, PollAction::ListPrinters));
    let (_, a) = step(p, PollEvent::PrintersListed(vec!["Brother".to_string(), "HP".to_string()]));
    match &a {
        PollAction::PrintPdf { printer, pdf_path, .. } => {
            assert_eq!(printer, "Brother");
            assert_eq!(pdf_path, "/tmp/z.pdf");
        },
        other => panic!("{:?}", other),
    }
}

#[test]
fn no_printer_is_reported_and_file_kept() {
    let p = to_queue(Poller::new(), cfg("http://h", "k", "", 5));
    let (p, _) = step(p, PollEvent::QueueFetched(Ok(vec![job("q1"), job("q2")])));
    let (p, _) = step(p, PollEvent::Ack);
    let (p, _) = step(p, PollEvent::JobClaimed(Ok(ClaimResponse { ok: true, file_url: None, label_format: None })));
    let (p, _) = step(p, PollEvent::PdfDownloaded(Ok("/tmp/z.pdf".to_string())));
    let (p, a) = step(p, PollEvent::PrintersListed(vec![]));
    match &a {
        PollAction::ReportDone(req) => assert_eq!(req.body.as_deref(), Some("{\"success\":false,\"error\":\"Kein Drucker konfiguriert\"}")),
        other => panic!("{:?}", other),
    }
    let (_, a) = step(p, PollEvent::Ack);
    match &a {
        PollAction::ClaimJob { request: req, .. } => assert_eq!(req.url, "http://h/api/print/claim/q2"),
        other => panic!("{:?}", other),
    }
}

#[test]
fn events_out_of_turn_are_refused() {
    let p = Poller::new();
    assert!(p.accepts(&PollEvent::Ack));
    assert!(!p.accepts(&PollEvent::StopFlag(false)));
    let (p, _) = p.step(PollEvent::Ack);
    assert!(!p.accepts(&PollEvent::Ack));
    assert!(p.accepts(&PollEvent::StopFlag(true)));
}
