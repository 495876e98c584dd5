//! The polling loop's decisions, as a state machine: the agent asks for the
//! open jobs, claims each in turn, downloads and prints it, reports the
//! result, and sleeps; after a failed poll it backs off exponentially.
//!
//! The loop that runs the machine performs each `PollAction` and hands back
//! the `PollEvent` it came to; the machine decides the next action.
use vstd::prelude::*;
use crate::api_client::{
    claim_json, claim_path, done_json, lemma_done_json_tells_success, done_path, file_path, queue_path, ApiClient, ClaimResponse,
    HttpMethod, HttpRequest, QueueItem,
};
use crate::config::AgentConfig;
use crate::text::{lemma_trim_end_char, trim_end_char};

verus! {

/// The state of the agent as a user would see it.
#[derive(Debug, Clone, PartialEq)]
pub enum AgentStatus {
    Connected,
    Printing(String),
    Disconnected(String),
    Unconfigured,
}

/// The label size, in millimetres, for a label format: every format the
/// server uses is 103 x 199 mm.
pub open spec fn label_size_of(format: Seq<char>) -> (u32, u32) {
    (103, 199)
}

/// The label size (width, height) in millimetres for the label format `format`.
pub fn get_label_size(format: &str) -> (size: (u32, u32))
    ensures
        size == label_size_of(format@),
{
    (103, 199)
}

/// The pause between polls for the configured interval: never less than five seconds.
pub open spec fn settle_delay(poll_interval_seconds: u64) -> u64 {
    if poll_interval_seconds < 5 {
        5
    } else {
        poll_interval_seconds
    }
}

/// The pause between polls for the configured interval (at least five seconds).
pub fn poll_delay(poll_interval_seconds: u64) -> (d: u64)
    ensures
        d == settle_delay(poll_interval_seconds),
{
    if poll_interval_seconds < 5 {
        5
    } else {
        poll_interval_seconds
    }
}

/// The pause after another failed poll: twice the last one, at most a minute.
pub open spec fn doubled_backoff(backoff: u64) -> u64 {
    if 2 * backoff < 60 {
        (2 * backoff) as u64
    } else {
        60
    }
}

/// The pause after another failed poll, given the last pause.
pub fn next_backoff(backoff: u64) -> (b: u64)
    ensures
        b == doubled_backoff(backoff),
{
    if backoff < 30 {
        backoff * 2
    } else {
        60
    }
}

/// The jobs of one poll, and which of them is at hand.
#[derive(Debug)]
pub struct JobRun {
    pub cfg: AgentConfig,
    pub client: ApiClient,
    pub jobs: Vec<QueueItem>,
    pub index: usize,
}

/// Where the agent stands in its loop, and what it waits for.
#[derive(Debug)]
pub enum PollPhase {
    /// Between two polls: next it reads the stop flag.
    Idle,
    /// Waits for the stop flag.
    AwaitStopFlag,
    /// Waits for the settings.
    AwaitConfig,
    /// Has no server or key: after marking itself disconnected, sleeps `delay` seconds.
    Unconfigured { delay: u64 },
    /// Waits for the open jobs.
    AwaitQueue { cfg: AgentConfig, client: ApiClient },
    /// Got the jobs: after marking itself connected, takes the first.
    Connected { run: JobRun },
    /// Could not get the jobs: after marking itself disconnected, backs off.
    Disconnected,
    /// Waits for the answer to the claim of the job at hand.
    AwaitClaim { run: JobRun },
    /// Waits for the PDF of the claimed job.
    AwaitDownload { run: JobRun, label_format: Option<String> },
    /// Has the PDF but no configured printer: waits for the local printers.
    AwaitPrinters { run: JobRun, pdf_path: String, size: (u32, u32) },
    /// Waits for the printer.
    AwaitPrint { run: JobRun, pdf_path: String },
    /// Reported the job's result; then removes `leftover`, if any, or takes the next job.
    AwaitReport { run: JobRun, leftover: Option<String> },
    /// Removes the printed PDF; then takes the next job.
    AwaitRemoval { run: JobRun },
    /// Was told to stop.
    Stopped,
}

/// The polling machine: the current pause after a poll, and the phase.
#[derive(Debug)]
pub struct Poller {
    pub backoff: u64,
    pub phase: PollPhase,
}

/// What the loop came to after performing an action.
#[derive(Debug)]
pub enum PollEvent {
    /// The action is done (and has nothing to tell).
    Ack,
    /// The stop flag's value.
    StopFlag(bool),
    /// The settings.
    ConfigLoaded(AgentConfig),
    /// The open jobs, or the message of the failed request.
    QueueFetched(Result<Vec<QueueItem>, String>),
    /// The server's answer to the claim, or the message of the failed request.
    JobClaimed(Result<ClaimResponse, String>),
    /// Where the downloaded PDF was saved, or the message of the failed download.
    PdfDownloaded(Result<String, String>),
    /// The local printers.
    PrintersListed(Vec<String>),
    /// The printer's result.
    PdfPrinted(Result<(), String>),
}

/// What the loop is to do next.
#[derive(Debug)]
pub enum PollAction {
    /// Read the stop flag.
    CheckStop,
    /// Read the settings.
    LoadConfig,
    /// Mark the agent connected or not.
    SetConnected(bool),
    /// Sleep this many seconds.
    Sleep(u64),
    /// Send this request for the open jobs.
    FetchQueue(HttpRequest),
    /// Send this claim of the job `queue_id`.
    ClaimJob { queue_id: String, request: HttpRequest },
    /// Send this download request and save the PDF.
    DownloadPdf(HttpRequest),
    /// List the local printers.
    ListPrinters,
    /// Print the PDF of the job `queue_id` on the printer, on labels of the given size.
    PrintPdf { queue_id: String, pdf_path: String, printer: String, width_mm: u32, height_mm: u32 },
    /// Send this report (its outcome does not matter).
    ReportDone(HttpRequest),
    /// Remove this file (its outcome does not matter).
    RemoveFile(String),
    /// Stop polling.
    Exit,
}

/// `client` talks to the server and with the key that `cfg` names.
pub open spec fn is_client_for(client: ApiClient, cfg: AgentConfig) -> bool {
    &&& client.server_url@ == trim_end_char(cfg.server_url@, '/')
    &&& client.api_key@ == cfg.api_key@
}

/// The queue id of the job at hand.
pub open spec fn current_id(run: JobRun) -> Seq<char> {
    run.jobs@[run.index as int].queue_id@
}

/// `act` asks the server behind `client` for the open jobs.
pub open spec fn fetches_queue(client: ApiClient, act: PollAction) -> bool {
    act matches PollAction::FetchQueue(req) && req.is_request(
        HttpMethod::Get,
        client.server_url@ + queue_path(),
        client.api_key@,
        None,
    )
}

/// `act` claims the job at hand for this agent.
pub open spec fn claims_current(run: JobRun, act: PollAction) -> bool {
    act matches PollAction::ClaimJob { queue_id, request } && queue_id@ == current_id(run)
        && request.is_request(
        HttpMethod::Post,
        run.client.server_url@ + claim_path() + current_id(run),
        run.client.api_key@,
        Some(claim_json(run.cfg.agent_id@)),
    )
}

/// `act` downloads the PDF of the job at hand.
pub open spec fn downloads_current(run: JobRun, act: PollAction) -> bool {
    act matches PollAction::DownloadPdf(req) && req.is_request(
        HttpMethod::Get,
        run.client.server_url@ + file_path() + current_id(run),
        run.client.api_key@,
        None,
    )
}

/// `act` reports the result `success`, with the message `error`, of the job at hand.
pub open spec fn reports_current(
    run: JobRun,
    success: bool,
    error: Option<Seq<char>>,
    act: PollAction,
) -> bool {
    act matches PollAction::ReportDone(req) && req.is_request(
        HttpMethod::Post,
        run.client.server_url@ + done_path() + current_id(run),
        run.client.api_key@,
        Some(done_json(success, error)),
    )
}

/// `run` moved on to its next job.
pub open spec fn next_job(run: JobRun) -> JobRun {
    JobRun { cfg: run.cfg, client: run.client, jobs: run.jobs, index: (run.index + 1) as usize }
}

/// Taking the job at `run.index`: claim it if there is one, else sleep for
/// the pause `backoff`.
pub open spec fn advances(run: JobRun, backoff: u64, new: Poller, act: PollAction) -> bool {
    if run.index < run.jobs@.len() {
        &&& new == Poller { backoff, phase: PollPhase::AwaitClaim { run } }
        &&& claims_current(run, act)
    } else {
        &&& new == Poller { backoff, phase: PollPhase::Idle }
        &&& act == PollAction::Sleep(backoff)
    }
}

/// The message of a report for a failed download.
pub open spec fn download_failure_text(e: Seq<char>) -> Seq<char> {
    "Download: "@ + e
}

/// The message of a report for a job that no printer could take.
pub open spec fn no_printer_text() -> Seq<char> {
    "Kein Drucker konfiguriert"@
}

/// The job run a phase is busy with, if any.
pub open spec fn active_run(phase: PollPhase) -> Option<JobRun> {
    match phase {
        PollPhase::AwaitClaim { run } => Some(run),
        PollPhase::AwaitDownload { run, .. } => Some(run),
        PollPhase::AwaitPrinters { run, .. } => Some(run),
        PollPhase::AwaitPrint { run, .. } => Some(run),
        PollPhase::AwaitReport { run, .. } => Some(run),
        PollPhase::AwaitRemoval { run } => Some(run),
        _ => None,
    }
}

impl Poller {
    /// The machine's invariant: every pause is at least five seconds, a job
    /// at hand is one of the polled jobs, labels have the one label size, and
    /// the client that works on a poll's jobs is the one built from the
    /// settings of that poll.
    pub open spec fn wf(self) -> bool {
        &&& self.backoff >= 5
        &&& active_run(self.phase) matches Some(run) ==> run.index < run.jobs@.len()
        &&& self.phase matches PollPhase::Unconfigured { delay } ==> delay >= 5
        &&& self.phase matches PollPhase::AwaitPrinters { size, .. } ==> size == label_size_of(
            Seq::<char>::empty(),
        )
        &&& self.phase matches PollPhase::AwaitQueue { cfg, client } ==> is_client_for(client, cfg)
        &&& self.phase matches PollPhase::Connected { run } ==> is_client_for(run.client, run.cfg)
        &&& active_run(self.phase) matches Some(run) ==> is_client_for(run.client, run.cfg)
    }

    /// The event the machine waits for in its current phase.
    pub open spec fn expects(self, ev: PollEvent) -> bool {
        match self.phase {
            PollPhase::AwaitStopFlag => ev is StopFlag,
            PollPhase::AwaitConfig => ev is ConfigLoaded,
            PollPhase::AwaitQueue { .. } => ev is QueueFetched,
            PollPhase::AwaitClaim { .. } => ev is JobClaimed,
            PollPhase::AwaitDownload { .. } => ev is PdfDownloaded,
            PollPhase::AwaitPrinters { .. } => ev is PrintersListed,
            PollPhase::AwaitPrint { .. } => ev is PdfPrinted,
            PollPhase::Stopped => false,
            _ => ev is Ack,
        }
    }

    /// The machine in state `self` goes, on event `ev`, to `new` and asks for `act`.
    pub open spec fn transition(self, ev: PollEvent, new: Poller, act: PollAction) -> bool {
        let b = self.backoff;
        match self.phase {
            PollPhase::Idle => {
                &&& new == Poller { backoff: b, phase: PollPhase::AwaitStopFlag }
                &&& act == PollAction::CheckStop
            },
            PollPhase::AwaitStopFlag => match ev {
                PollEvent::StopFlag(stop) => if stop {
                    &&& new == Poller { backoff: b, phase: PollPhase::Stopped }
                    &&& act == PollAction::Exit
                } else {
                    &&& new == Poller { backoff: b, phase: PollPhase::AwaitConfig }
                    &&& act == PollAction::LoadConfig
                },
                _ => false,
            },
            PollPhase::AwaitConfig => match ev {
                PollEvent::ConfigLoaded(cfg) => if cfg.api_key@.len() == 0
                    || cfg.server_url@.len() == 0 {
                    &&& new == Poller {
                        backoff: b,
                        phase: PollPhase::Unconfigured {
                            delay: settle_delay(cfg.poll_interval_seconds),
                        },
                    }
                    &&& act == PollAction::SetConnected(false)
                } else {
                    &&& new.backoff == b
                    &&& match new.phase {
                        PollPhase::AwaitQueue { cfg: c, client } => {
                            &&& c == cfg
                            &&& is_client_for(client, cfg)
                            &&& fetches_queue(client, act)
                        },
                        _ => false,
                    }
                },
                _ => false,
            },
            PollPhase::Unconfigured { delay } => {
                &&& new == Poller { backoff: b, phase: PollPhase::Idle }
                &&& act == PollAction::Sleep(delay)
            },
            PollPhase::AwaitQueue { cfg, client } => match ev {
                PollEvent::QueueFetched(Ok(jobs)) => {
                    &&& new == Poller {
                        backoff: settle_delay(cfg.poll_interval_seconds),
                        phase: PollPhase::Connected { run: JobRun { cfg, client, jobs, index: 0 } },
                    }
                    &&& act == PollAction::SetConnected(true)
                },
                PollEvent::QueueFetched(Err(_)) => {
                    &&& new == Poller { backoff: doubled_backoff(b), phase: PollPhase::Disconnected }
                    &&& act == PollAction::SetConnected(false)
                },
                _ => false,
            },
            PollPhase::Connected { run } => advances(run, b, new, act),
            PollPhase::Disconnected => {
                &&& new == Poller { backoff: b, phase: PollPhase::Idle }
                &&& act == PollAction::Sleep(b)
            },
            PollPhase::AwaitClaim { run } => match ev {
                PollEvent::JobClaimed(Ok(claim)) => if claim.ok {
                    &&& new == Poller {
                        backoff: b,
                        phase: PollPhase::AwaitDownload { run, label_format: claim.label_format },
                    }
                    &&& downloads_current(run, act)
                } else {
                    advances(next_job(run), b, new, act)
                },
                PollEvent::JobClaimed(Err(_)) => advances(next_job(run), b, new, act),
                _ => false,
            },
            PollPhase::AwaitDownload { run, label_format } => match ev {
                PollEvent::PdfDownloaded(Err(e)) => {
                    &&& new == Poller {
                        backoff: b,
                        phase: PollPhase::AwaitReport { run, leftover: None },
                    }
                    &&& reports_current(run, false, Some(download_failure_text(e@)), act)
                },
                PollEvent::PdfDownloaded(Ok(path)) => {
                    let size = label_size_of(
                        match label_format {
                            Some(f) => f@,
                            None => Seq::<char>::empty(),
                        },
                    );
                    if run.cfg.printer_name@.len() > 0 {
                        &&& new == Poller {
                            backoff: b,
                            phase: PollPhase::AwaitPrint { run, pdf_path: path },
                        }
                        &&& act == PollAction::PrintPdf {
                            queue_id: run.jobs@[run.index as int].queue_id,
                            pdf_path: path,
                            printer: run.cfg.printer_name,
                            width_mm: size.0,
                            height_mm: size.1,
                        }
                    } else {
                        &&& new == Poller {
                            backoff: b,
                            phase: PollPhase::AwaitPrinters { run, pdf_path: path, size },
                        }
                        &&& act == PollAction::ListPrinters
                    }
                },
                _ => false,
            },
            PollPhase::AwaitPrinters { run, pdf_path, size } => match ev {
                PollEvent::PrintersListed(names) => if names@.len() > 0 && names@[0]@.len() > 0 {
                    &&& new == Poller { backoff: b, phase: PollPhase::AwaitPrint { run, pdf_path } }
                    &&& act == PollAction::PrintPdf {
                        queue_id: run.jobs@[run.index as int].queue_id,
                        pdf_path,
                        printer: names@[0],
                        width_mm: size.0,
                        height_mm: size.1,
                    }
                } else {
                    &&& new == Poller {
                        backoff: b,
                        phase: PollPhase::AwaitReport { run, leftover: None },
                    }
                    &&& reports_current(run, false, Some(no_printer_text()), act)
                },
                _ => false,
            },
            PollPhase::AwaitPrint { run, pdf_path } => match ev {
                PollEvent::PdfPrinted(Ok(())) => {
                    &&& new == Poller {
                        backoff: b,
                        phase: PollPhase::AwaitReport { run, leftover: Some(pdf_path) },
                    }
                    &&& reports_current(run, true, None, act)
                },
                PollEvent::PdfPrinted(Err(e)) => {
                    &&& new == Poller {
                        backoff: b,
                        phase: PollPhase::AwaitReport { run, leftover: Some(pdf_path) },
                    }
                    &&& reports_current(run, false, Some(e@), act)
                },
                _ => false,
            },
            PollPhase::AwaitReport { run, leftover } => match leftover {
                Some(path) => {
                    &&& new == Poller { backoff: b, phase: PollPhase::AwaitRemoval { run } }
                    &&& act == PollAction::RemoveFile(path)
                },
                None => advances(next_job(run), b, new, act),
            },
            PollPhase::AwaitRemoval { run } => advances(next_job(run), b, new, act),
            PollPhase::Stopped => false,
        }
    }

    /// A machine between polls, with a five-second pause. Feed it `Ack` to start.
    pub fn new() -> (p: Poller)
        ensures
            p == (Poller { backoff: 5, phase: PollPhase::Idle }),
            p.wf(),
    {
        Poller { backoff: 5, phase: PollPhase::Idle }
    }

    /// Whether the machine waits for `ev` now.
    pub fn accepts(&self, ev: &PollEvent) -> (b: bool)
        ensures
            b == self.expects(*ev),
    {
        match &self.phase {
            PollPhase::AwaitStopFlag => matches!(ev, PollEvent::StopFlag(_)),
            PollPhase::AwaitConfig => matches!(ev, PollEvent::ConfigLoaded(_)),
            PollPhase::AwaitQueue { .. } => matches!(ev, PollEvent::QueueFetched(_)),
            PollPhase::AwaitClaim { .. } => matches!(ev, PollEvent::JobClaimed(_)),
            PollPhase::AwaitDownload { .. } => matches!(ev, PollEvent::PdfDownloaded(_)),
            PollPhase::AwaitPrinters { .. } => matches!(ev, PollEvent::PrintersListed(_)),
            PollPhase::AwaitPrint { .. } => matches!(ev, PollEvent::PdfPrinted(_)),
            PollPhase::Stopped => false,
            _ => matches!(ev, PollEvent::Ack),
        }
    }

    /// Starts the job at `run.index`, or sleeps when the jobs are done.
    fn advance(run: JobRun, backoff: u64) -> (r: (Poller, PollAction))
        requires
            backoff >= 5,
            is_client_for(run.client, run.cfg),
        ensures
            advances(run, backoff, r.0, r.1),
            r.0.wf(),
    {
        if run.index < run.jobs.len() {
            let queue_id = run.jobs[run.index].queue_id.clone();
            let request = run.client.claim_request(queue_id.as_str(), run.cfg.agent_id.as_str());
            (
                Poller { backoff, phase: PollPhase::AwaitClaim { run } },
                PollAction::ClaimJob { queue_id, request },
            )
        } else {
            (Poller { backoff, phase: PollPhase::Idle }, PollAction::Sleep(backoff))
        }
    }

    /// Done with the job at hand: starts the next one, or sleeps when it was the last.
    fn take_next(run: JobRun, backoff: u64) -> (r: (Poller, PollAction))
        requires
            backoff >= 5,
            is_client_for(run.client, run.cfg),
            run.index < run.jobs@.len(),
        ensures
            advances(next_job(run), backoff, r.0, r.1),
            r.0.wf(),
    {
        let count = run.jobs.len();
        let index = run.index + 1;
        if index < count {
            let queue_id = run.jobs[index].queue_id.clone();
            let request = run.client.claim_request(queue_id.as_str(), run.cfg.agent_id.as_str());
            let next = JobRun { index, ..run };
            (
                Poller { backoff, phase: PollPhase::AwaitClaim { run: next } },
                PollAction::ClaimJob { queue_id, request },
            )
        } else {
            (Poller { backoff, phase: PollPhase::Idle }, PollAction::Sleep(backoff))
        }
    }

    fn report(run: JobRun, backoff: u64, success: bool, error: Option<String>, leftover: Option<String>) -> (r: (Poller, PollAction))
        requires
            backoff >= 5,
            run.index < run.jobs@.len(),
            is_client_for(run.client, run.cfg),
        ensures
            r.0 == (Poller { backoff, phase: PollPhase::AwaitReport { run, leftover } }),
            reports_current(
                run,
                success,
                match error {
                    Some(e) => Some(e@),
                    None => None,
                },
                r.1,
            ),
            r.0.wf(),
    {
        let req = run.client.done_request(run.jobs[run.index].queue_id.as_str(), success, error);
        (
            Poller { backoff, phase: PollPhase::AwaitReport { run, leftover } },
            PollAction::ReportDone(req),
        )
    }

    /// The machine's move on event `ev`: its next state and the action to perform.
    pub fn step(self, ev: PollEvent) -> (r: (Poller, PollAction))
        requires
            self.wf(),
            self.expects(ev),
        ensures
            self.transition(ev, r.0, r.1),
            r.0.wf(),
    {
        let b = self.backoff;
        match self.phase {
            PollPhase::Idle => (
                Poller { backoff: b, phase: PollPhase::AwaitStopFlag },
                PollAction::CheckStop,
            ),
            PollPhase::AwaitStopFlag => match ev {
                PollEvent::StopFlag(stop) => if stop {
                    (Poller { backoff: b, phase: PollPhase::Stopped }, PollAction::Exit)
                } else {
                    (Poller { backoff: b, phase: PollPhase::AwaitConfig }, PollAction::LoadConfig)
                },
                _ => {
                    proof {
                        assert(false);
                    }
                    (Poller { backoff: b, phase: PollPhase::Stopped }, PollAction::Exit)
                },
            },
            PollPhase::AwaitConfig => match ev {
                PollEvent::ConfigLoaded(cfg) => if cfg.api_key.as_str().is_empty()
                    || cfg.server_url.as_str().is_empty() {
                    let delay = poll_delay(cfg.poll_interval_seconds);
                    (
                        Poller { backoff: b, phase: PollPhase::Unconfigured { delay } },
                        PollAction::SetConnected(false),
                    )
                } else {
                    let client = ApiClient::new(cfg.server_url.as_str(), cfg.api_key.as_str());
                    let req = client.queue_request();
                    (
                        Poller { backoff: b, phase: PollPhase::AwaitQueue { cfg, client } },
                        PollAction::FetchQueue(req),
                    )
                },
                _ => {
                    proof {
                        assert(false);
                    }
                    (Poller { backoff: b, phase: PollPhase::Stopped }, PollAction::Exit)
                },
            },
            PollPhase::Unconfigured { delay } => (
                Poller { backoff: b, phase: PollPhase::Idle },
                PollAction::Sleep(delay),
            ),
            PollPhase::AwaitQueue { cfg, client } => match ev {
                PollEvent::QueueFetched(Ok(jobs)) => {
                    let backoff = poll_delay(cfg.poll_interval_seconds);
                    (
                        Poller {
                            backoff,
                            phase: PollPhase::Connected {
                                run: JobRun { cfg, client, jobs, index: 0 },
                            },
                        },
                        PollAction::SetConnected(true),
                    )
                },
                PollEvent::QueueFetched(Err(_)) => (
                    Poller { backoff: next_backoff(b), phase: PollPhase::Disconnected },
                    PollAction::SetConnected(false),
                ),
                _ => {
                    proof {
                        assert(false);
                    }
                    (Poller { backoff: b, phase: PollPhase::Stopped }, PollAction::Exit)
                },
            },
            PollPhase::Connected { run } => Self::advance(run, b),
            PollPhase::Disconnected => (
                Poller { backoff: b, phase: PollPhase::Idle },
                PollAction::Sleep(b),
            ),
            PollPhase::AwaitClaim { run } => match ev {
                PollEvent::JobClaimed(Ok(claim)) => if claim.ok {
                    let req = run.client.file_request(run.jobs[run.index].queue_id.as_str());
                    (
                        Poller {
                            backoff: b,
                            phase: PollPhase::AwaitDownload {
                                run,
                                label_format: claim.label_format,
                            },
                        },
                        PollAction::DownloadPdf(req),
                    )
                } else {
                    Self::take_next(run, b)
                },
                PollEvent::JobClaimed(Err(_)) => Self::take_next(run, b),
                _ => {
                    proof {
                        assert(false);
                    }
                    (Poller { backoff: b, phase: PollPhase::Stopped }, PollAction::Exit)
                },
            },
            PollPhase::AwaitDownload { run, label_format } => match ev {
                PollEvent::PdfDownloaded(Err(e)) => {
                    let mut m = "Download: ".to_string();
                    m.append(e.as_str());
                    Self::report(run, b, false, Some(m), None)
                },
                PollEvent::PdfDownloaded(Ok(path)) => {
                    let size = match &label_format {
                        Some(f) => get_label_size(f.as_str()),
                        None => get_label_size(""),
                    };
                    if !run.cfg.printer_name.as_str().is_empty() {
                        let printer = run.cfg.printer_name.clone();
                        let act = PollAction::PrintPdf {
                            queue_id: run.jobs[run.index].queue_id.clone(),
                            pdf_path: path.clone(),
                            printer,
                            width_mm: size.0,
                            height_mm: size.1,
                        };
                        (Poller { backoff: b, phase: PollPhase::AwaitPrint { run, pdf_path: path } }, act)
                    } else {
                        (
                            Poller {
                                backoff: b,
                                phase: PollPhase::AwaitPrinters { run, pdf_path: path, size },
                            },
                            PollAction::ListPrinters,
                        )
                    }
                },
                _ => {
                    proof {
                        assert(false);
                    }
                    (Poller { backoff: b, phase: PollPhase::Stopped }, PollAction::Exit)
                },
            },
            PollPhase::AwaitPrinters { run, pdf_path, size } => match ev {
                PollEvent::PrintersListed(names) => if names.len() > 0 && !names[0].as_str().is_empty() {
                    let printer = names[0].clone();
                    let act = PollAction::PrintPdf {
                        queue_id: run.jobs[run.index].queue_id.clone(),
                        pdf_path: pdf_path.clone(),
                        printer,
                        width_mm: size.0,
                        height_mm: size.1,
                    };
                    (Poller { backoff: b, phase: PollPhase::AwaitPrint { run, pdf_path } }, act)
                } else {
                    Self::report(run, b, false, Some("Kein Drucker konfiguriert".to_string()), None)
                },
                _ => {
                    proof {
                        assert(false);
                    }
                    (Poller { backoff: b, phase: PollPhase::Stopped }, PollAction::Exit)
                },
            },
            PollPhase::AwaitPrint { run, pdf_path } => match ev {
                PollEvent::PdfPrinted(Ok(())) => Self::report(run, b, true, None, Some(pdf_path)),
                PollEvent::PdfPrinted(Err(e)) => Self::report(run, b, false, Some(e), Some(pdf_path)),
                _ => {
                    proof {
                        assert(false);
                    }
                    (Poller { backoff: b, phase: PollPhase::Stopped }, PollAction::Exit)
                },
            },
            PollPhase::AwaitReport { run, leftover } => match leftover {
                Some(path) => (
                    Poller { backoff: b, phase: PollPhase::AwaitRemoval { run } },
                    PollAction::RemoveFile(path),
                ),
                None => Self::take_next(run, b),
            },
            PollPhase::AwaitRemoval { run } => Self::take_next(run, b),
            PollPhase::Stopped => {
                proof {
                    assert(false);
                }
                (Poller { backoff: b, phase: PollPhase::Stopped }, PollAction::Exit)
            },
        }
    }
}


/// The machine's invariant holds in every state it reaches: a move from a
/// well-formed state, on the event it waits for, leads to a well-formed state.
pub proof fn lemma_transition_keeps_wf(old: Poller, ev: PollEvent, new: Poller, act: PollAction)
    requires
        old.wf(),
        old.expects(ev),
        old.transition(ev, new, act),
    ensures
        new.wf(),
{
}

/// The agent never sleeps less than five seconds between polls.
pub proof fn lemma_sleeps_at_least_five(old: Poller, ev: PollEvent, new: Poller, act: PollAction)
    requires
        old.wf(),
        old.transition(ev, new, act),
    ensures
        act matches PollAction::Sleep(secs) ==> secs >= 5,
{
}

/// A failed poll marks the agent disconnected and doubles the pause, up to a
/// minute; the agent then sleeps for that pause before polling again.
pub proof fn lemma_failed_poll_backs_off(
    old: Poller,
    e: String,
    mid: Poller,
    act: PollAction,
    new: Poller,
    act2: PollAction,
)
    requires
        old.wf(),
        old.phase is AwaitQueue,
        old.transition(PollEvent::QueueFetched(Err(e)), mid, act),
        mid.transition(PollEvent::Ack, new, act2),
    ensures
        act == PollAction::SetConnected(false),
        mid.backoff == (if 2 * old.backoff < 60 {
            2 * old.backoff
        } else {
            60
        }),
        10 <= mid.backoff <= 60,
        act2 == PollAction::Sleep(mid.backoff),
        new == (Poller { backoff: mid.backoff, phase: PollPhase::Idle }),
{
}

/// However many polls fail in a row, the pause stays between five seconds and
/// a minute once it is at most a minute, and a minute is a fixed point.
pub proof fn lemma_backoff_bounded(backoff: u64)
    requires
        5 <= backoff <= 60,
    ensures
        5 <= doubled_backoff(backoff) <= 60,
        backoff <= doubled_backoff(backoff),
        doubled_backoff(60) == 60,
{
}

/// A successful poll marks the agent connected and resets the pause to the
/// configured interval (at least five seconds).
pub proof fn lemma_successful_poll_resets_backoff(
    old: Poller,
    jobs: Vec<QueueItem>,
    new: Poller,
    act: PollAction,
)
    requires
        old.phase is AwaitQueue,
        old.transition(PollEvent::QueueFetched(Ok(jobs)), new, act),
    ensures
        act == PollAction::SetConnected(true),
        old.phase matches PollPhase::AwaitQueue { cfg, .. } && new.backoff == settle_delay(
            cfg.poll_interval_seconds,
        ),
        new.phase matches PollPhase::Connected { run } && run.jobs == jobs && run.index == 0,
{
}

/// Without a server URL or an API key the agent sends nothing: it marks
/// itself disconnected and sleeps for the configured interval (at least five
/// seconds), keeping its pause.
pub proof fn lemma_unconfigured_sends_nothing(
    old: Poller,
    cfg: AgentConfig,
    mid: Poller,
    act: PollAction,
    new: Poller,
    act2: PollAction,
)
    requires
        old.phase is AwaitConfig,
        cfg.api_key@.len() == 0 || cfg.server_url@.len() == 0,
        old.transition(PollEvent::ConfigLoaded(cfg), mid, act),
        mid.transition(PollEvent::Ack, new, act2),
    ensures
        act == PollAction::SetConnected(false),
        act2 == PollAction::Sleep(settle_delay(cfg.poll_interval_seconds)),
        new == (Poller { backoff: old.backoff, phase: PollPhase::Idle }),
{
}

/// A configured agent asks the server named in its settings (without trailing
/// slashes) for the open jobs, with its API key.
pub proof fn lemma_configured_fetches_queue(
    old: Poller,
    cfg: AgentConfig,
    new: Poller,
    act: PollAction,
)
    requires
        old.phase is AwaitConfig,
        cfg.api_key@.len() > 0,
        cfg.server_url@.len() > 0,
        old.transition(PollEvent::ConfigLoaded(cfg), new, act),
    ensures
        act matches PollAction::FetchQueue(req) && req.is_request(
            HttpMethod::Get,
            trim_end_char(cfg.server_url@, '/') + queue_path(),
            cfg.api_key@,
            None,
        ),
{
}

/// Once told to stop, the agent exits and takes no further event.
pub proof fn lemma_stop_is_final(old: Poller, new: Poller, act: PollAction, ev: PollEvent)
    requires
        old.phase is AwaitStopFlag,
        old.transition(PollEvent::StopFlag(true), new, act),
    ensures
        act == PollAction::Exit,
        new.phase is Stopped,
        !new.expects(ev),
{
}

/// The jobs of a poll are taken one after the other, in the server's order:
/// from one move to the next the job at hand stays or is the next one, and
/// the list of jobs does not change.
pub proof fn lemma_jobs_in_order(old: Poller, ev: PollEvent, new: Poller, act: PollAction)
    requires
        old.wf(),
        old.transition(ev, new, act),
        active_run(old.phase) is Some,
        active_run(old.phase)->0.jobs@.len() <= usize::MAX,
        active_run(new.phase) is Some,
    ensures
        active_run(new.phase)->0.jobs == active_run(old.phase)->0.jobs,
        active_run(new.phase)->0.index == active_run(old.phase)->0.index
            || active_run(new.phase)->0.index == active_run(old.phase)->0.index + 1,
{
}

/// A job is only ever claimed for this agent, and only the job at hand.
pub proof fn lemma_claims_current_job(old: Poller, ev: PollEvent, new: Poller, act: PollAction)
    requires
        old.transition(ev, new, act),
        act is ClaimJob,
    ensures
        new.phase matches PollPhase::AwaitClaim { run } && claims_current(run, act),
{
}

/// A result is reported only for a job whose claim the server granted, for
/// the job at hand; success is reported only for a job the printer took.
pub proof fn lemma_reports_only_granted_jobs(
    old: Poller,
    ev: PollEvent,
    new: Poller,
    act: PollAction,
)
    requires
        old.transition(ev, new, act),
        act is ReportDone,
    ensures
        old.phase is AwaitDownload || old.phase is AwaitPrinters || old.phase is AwaitPrint,
        new.phase is AwaitReport,
        active_run(new.phase) == active_run(old.phase),
        reports_current(active_run(new.phase)->0, true, None, act) <==> ev matches PollEvent::PdfPrinted(
            Ok(_),
        ),
{
    match old.phase {
        PollPhase::AwaitDownload { .. } => {
            if let PollEvent::PdfDownloaded(Err(e)) = ev {
                lemma_done_json_tells_success(None, Some(download_failure_text(e@)));
            }
        },
        PollPhase::AwaitPrinters { .. } => {
            lemma_done_json_tells_success(None, Some(no_printer_text()));
        },
        PollPhase::AwaitPrint { .. } => {
            if let PollEvent::PdfPrinted(Err(e)) = ev {
                lemma_done_json_tells_success(None, Some(e@));
            }
        },
        _ => {},
    }
}

/// Every label is printed at 103 x 199 mm.
pub proof fn lemma_label_size(old: Poller, ev: PollEvent, new: Poller, act: PollAction)
    requires
        old.wf(),
        old.transition(ev, new, act),
        act is PrintPdf,
    ensures
        act matches PollAction::PrintPdf { width_mm, height_mm, .. } && width_mm == 103
            && height_mm == 199,
{
}

/// The printer: the configured one when the settings name one; else the first
/// local printer; with none, the job is reported failed with "Kein Drucker
/// konfiguriert" and nothing is printed.
pub proof fn lemma_printer_choice(
    old: Poller,
    path: String,
    mid: Poller,
    act: PollAction,
    names: Vec<String>,
    new: Poller,
    act2: PollAction,
)
    requires
        old.phase is AwaitDownload,
        old.transition(PollEvent::PdfDownloaded(Ok(path)), mid, act),
    ensures
        ({
            let run = active_run(old.phase)->0;
            if run.cfg.printer_name@.len() > 0 {
                act matches PollAction::PrintPdf { pdf_path, printer, .. } && pdf_path == path
                    && printer == run.cfg.printer_name
            } else {
                &&& act == PollAction::ListPrinters
                &&& mid.transition(PollEvent::PrintersListed(names), new, act2) ==> if names@.len()
                    > 0 && names@[0]@.len() > 0 {
                    act2 matches PollAction::PrintPdf { pdf_path, printer, .. } && pdf_path == path
                        && printer == names@[0]
                } else {
                    &&& reports_current(run, false, Some(no_printer_text()), act2)
                    &&& new.phase == PollPhase::AwaitReport { run, leftover: None }
                }
            }
        }),
{
}

/// A PDF that went to the printer is removed once the result is reported,
/// whatever the printer said.
pub proof fn lemma_printed_pdf_removed(
    old: Poller,
    result: Result<(), String>,
    mid: Poller,
    act: PollAction,
    new: Poller,
    act2: PollAction,
)
    requires
        old.phase is AwaitPrint,
        old.transition(PollEvent::PdfPrinted(result), mid, act),
        mid.transition(PollEvent::Ack, new, act2),
    ensures
        act is ReportDone,
        old.phase matches PollPhase::AwaitPrint { pdf_path, .. } && act2 == PollAction::RemoveFile(
            pdf_path,
        ),
{
}


/// Every request for a poll's jobs goes to the server named in that poll's
/// settings, without its trailing slashes, so that no URL holds a doubled
/// slash before the endpoint path: a claim to `/api/print/claim/<id>`, a
/// download to `/api/print/file/<id>` and a report to `/api/print/done/<id>`,
/// each for the job at hand and with the settings' API key.
pub proof fn lemma_requests_go_to_configured_server(
    old: Poller,
    ev: PollEvent,
    new: Poller,
    act: PollAction,
)
    requires
        old.wf(),
        old.transition(ev, new, act),
    ensures
        act matches PollAction::ClaimJob { request, .. } ==> active_run(new.phase) matches Some(run)
            && request.url@ == trim_end_char(run.cfg.server_url@, '/') + claim_path()
            + run.jobs@[run.index as int].queue_id@ && request.headers@[0].1@ == run.cfg.api_key@,
        act matches PollAction::DownloadPdf(request) ==> active_run(new.phase) matches Some(run)
            && request.url@ == trim_end_char(run.cfg.server_url@, '/') + file_path()
            + run.jobs@[run.index as int].queue_id@ && request.headers@[0].1@ == run.cfg.api_key@,
        act matches PollAction::ReportDone(request) ==> active_run(new.phase) matches Some(run)
            && request.url@ == trim_end_char(run.cfg.server_url@, '/') + done_path()
            + run.jobs@[run.index as int].queue_id@ && request.headers@[0].1@ == run.cfg.api_key@,
        active_run(new.phase) matches Some(run) ==> {
            let base = trim_end_char(run.cfg.server_url@, '/');
            base.len() == 0 || base.last() != '/'
        },
{
    if let Some(run) = active_run(new.phase) {
        lemma_trim_end_char(run.cfg.server_url@, '/');
    }
}


/// The pause for a configured interval is the larger of the interval and five
/// seconds; the pause after a failed poll is the smaller of twice the last
/// pause and a minute.
pub proof fn lemma_delays(poll_interval_seconds: u64, backoff: u64)
    ensures
        settle_delay(poll_interval_seconds) >= 5,
        settle_delay(poll_interval_seconds) >= poll_interval_seconds,
        settle_delay(poll_interval_seconds) == 5 || settle_delay(poll_interval_seconds)
            == poll_interval_seconds,
        doubled_backoff(backoff) <= 60,
        doubled_backoff(backoff) <= 2 * backoff,
        doubled_backoff(backoff) == 60 || doubled_backoff(backoff) == 2 * backoff,
{
}

} // verus!
