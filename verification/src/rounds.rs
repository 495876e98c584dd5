//! Laws over runs of the polling machine: what holds across many moves, not
//! just one.
use vstd::prelude::*;
use crate::api_client::{claim_path, done_path, file_path, QueueItem};
use crate::polling::{
    active_run, current_id, doubled_backoff, lemma_requests_go_to_configured_server,
    lemma_transition_keeps_wf, settle_delay, JobRun,
    PollAction, PollEvent, PollPhase, Poller,
};

use crate::text::trim_end_char;

verus! {

/// Move `i` of a run: `states[i]` takes `events[i]` (the event it waits for),
/// asks for `actions[i]` and becomes `states[i + 1]`.
pub open spec fn moves(
    states: Seq<Poller>,
    events: Seq<PollEvent>,
    actions: Seq<PollAction>,
    i: int,
) -> bool {
    &&& states[i].expects(events[i])
    &&& states[i].transition(events[i], states[i + 1], actions[i])
}

/// A run of the machine: a sequence of moves, each from the state the last one left.
pub open spec fn is_run(states: Seq<Poller>, events: Seq<PollEvent>, actions: Seq<PollAction>) -> bool {
    &&& states.len() == events.len() + 1
    &&& actions.len() == events.len()
    &&& forall|i: int| 0 <= i < events.len() ==> #[trigger] moves(states, events, actions, i)
}

/// Every state of a run that starts well-formed is well-formed.
pub proof fn lemma_run_keeps_wf(
    states: Seq<Poller>,
    events: Seq<PollEvent>,
    actions: Seq<PollAction>,
    n: int,
)
    requires
        is_run(states, events, actions),
        states[0].wf(),
        0 <= n <= events.len(),
    ensures
        states[n].wf(),
    decreases n,
{
    if n > 0 {
        lemma_run_keeps_wf(states, events, actions, n - 1);
        assert(moves(states, events, actions, n - 1));
        lemma_transition_keeps_wf(states[n - 1], events[n - 1], states[n], actions[n - 1]);
    }
}

/// How many polls in a row have failed by the end of the first `n` moves of a
/// run: a successful poll sets the count back to zero; moves that do not poll
/// (such as those of a round without settings) leave it as it is.
pub open spec fn failed_polls_in_a_row(states: Seq<Poller>, events: Seq<PollEvent>, n: int) -> nat
    decreases n,
{
    if n <= 0 {
        0
    } else {
        let k = failed_polls_in_a_row(states, events, n - 1);
        if states[n - 1].phase is AwaitQueue {
            match events[n - 1] {
                PollEvent::QueueFetched(Ok(_)) => 0,
                PollEvent::QueueFetched(Err(_)) => k + 1,
                _ => k,
            }
        } else {
            k
        }
    }
}

/// The least pause after `k` failed polls in a row: 5, 10, 20, 40, then 60 seconds.
pub open spec fn backoff_floor(k: nat) -> u64 {
    if k == 0 {
        5
    } else if k == 1 {
        10
    } else if k == 2 {
        20
    } else if k == 3 {
        40
    } else {
        60
    }
}

proof fn lemma_backoff_step(old: Poller, ev: PollEvent, new: Poller, act: PollAction)
    requires
        old.transition(ev, new, act),
    ensures
        old.phase is AwaitQueue ==> match ev {
            PollEvent::QueueFetched(Ok(_)) => new.backoff >= 5,
            PollEvent::QueueFetched(Err(_)) => new.backoff == doubled_backoff(old.backoff),
            _ => false,
        },
        !(old.phase is AwaitQueue) ==> new.backoff == old.backoff,
{
}

/// In a run, after `k` failed polls in a row the pause is at least
/// `backoff_floor(k)`, and after at least one it is at most a minute.
pub proof fn lemma_backoff_after_failed_polls(
    states: Seq<Poller>,
    events: Seq<PollEvent>,
    actions: Seq<PollAction>,
    n: int,
)
    requires
        is_run(states, events, actions),
        states[0].wf(),
        0 <= n <= events.len(),
    ensures
        states[n].backoff >= backoff_floor(failed_polls_in_a_row(states, events, n)),
        failed_polls_in_a_row(states, events, n) >= 1 ==> states[n].backoff <= 60,
    decreases n,
{
    if n > 0 {
        lemma_backoff_after_failed_polls(states, events, actions, n - 1);
        assert(moves(states, events, actions, n - 1));
        lemma_backoff_step(states[n - 1], events[n - 1], states[n], actions[n - 1]);
    }
}

/// Once four polls in a row have failed, the pause is exactly a minute, and
/// the sleep after a failed poll lasts exactly a minute.
pub proof fn lemma_four_failed_polls(
    states: Seq<Poller>,
    events: Seq<PollEvent>,
    actions: Seq<PollAction>,
    n: int,
)
    requires
        is_run(states, events, actions),
        states[0].wf(),
        0 <= n <= events.len(),
        failed_polls_in_a_row(states, events, n) >= 4,
    ensures
        states[n].backoff == 60,
        n < events.len() && states[n].phase is Disconnected ==> actions[n] == PollAction::Sleep(60),
{
    lemma_backoff_after_failed_polls(states, events, actions, n);
    if n < events.len() {
        assert(moves(states, events, actions, n));
    }
}

/// The job run of a phase that is busy with the jobs of a poll: the run just
/// fetched, or the one whose job is at hand.
pub open spec fn round_run(phase: PollPhase) -> Option<JobRun> {
    match phase {
        PollPhase::Connected { run } => Some(run),
        _ => active_run(phase),
    }
}

/// How many jobs of the poll have been claimed in a phase busy with them.
pub open spec fn claims_issued(phase: PollPhase) -> int {
    match phase {
        PollPhase::Connected { run } => run.index as int,
        _ => active_run(phase)->0.index + 1,
    }
}

/// The queue ids of `jobs`, in order.
pub open spec fn queue_ids(jobs: Seq<QueueItem>) -> Seq<Seq<char>> {
    jobs.map_values(|q: QueueItem| q.queue_id@)
}

/// The queue ids claimed by moves `s` to `k - 1` of a run, in order.
pub open spec fn claimed_ids(states: Seq<Poller>, actions: Seq<PollAction>, s: int, k: int) -> Seq<
    Seq<char>,
>
    decreases k - s,
{
    if k <= s {
        Seq::<Seq<char>>::empty()
    } else {
        let before = claimed_ids(states, actions, s, k - 1);
        if actions[k - 1] is ClaimJob {
            before.push(current_id(active_run(states[k].phase)->0))
        } else {
            before
        }
    }
}

/// A phase busy with the poll of `jobs`, `claims` of them claimed so far.
pub open spec fn in_round(phase: PollPhase, jobs: Seq<QueueItem>) -> bool {
    &&& round_run(phase) matches Some(run) && run.jobs@ == jobs
    &&& 0 <= claims_issued(phase) <= jobs.len()
    &&& phase matches PollPhase::Connected { run } ==> run.index == 0
    &&& active_run(phase) matches Some(run) ==> run.index < jobs.len()
}

proof fn lemma_round_step(old: Poller, ev: PollEvent, new: Poller, act: PollAction, jobs: Seq<QueueItem>)
    requires
        old.transition(ev, new, act),
        in_round(old.phase, jobs),
        jobs.len() <= usize::MAX,
    ensures
        new.phase is Idle ==> !(act is ClaimJob) && claims_issued(old.phase) == jobs.len(),
        !(new.phase is Idle) ==> {
            &&& in_round(new.phase, jobs)
            &&& act is ClaimJob ==> claims_issued(new.phase) == claims_issued(old.phase) + 1
                && current_id(active_run(new.phase)->0) == jobs[claims_issued(old.phase)].queue_id@
            &&& !(act is ClaimJob) ==> claims_issued(new.phase) == claims_issued(old.phase)
        },
{
}

proof fn lemma_round_claims(
    states: Seq<Poller>,
    events: Seq<PollEvent>,
    actions: Seq<PollAction>,
    s: int,
    k: int,
    e: int,
    jobs: Seq<QueueItem>,
)
    requires
        is_run(states, events, actions),
        0 <= s <= k < e <= events.len(),
        in_round(states[s].phase, jobs),
        claims_issued(states[s].phase) == 0,
        jobs.len() <= usize::MAX,
        forall|t: int| s < t < e ==> !(#[trigger] states[t].phase is Idle),
    ensures
        in_round(states[k].phase, jobs),
        claimed_ids(states, actions, s, k) == queue_ids(jobs).take(claims_issued(states[k].phase)),
    decreases k - s,
{
    if k == s {
        assert(queue_ids(jobs).take(0) =~= Seq::<Seq<char>>::empty());
    } else {
        lemma_round_claims(states, events, actions, s, k - 1, e, jobs);
        assert(moves(states, events, actions, k - 1));
        assert(!(states[k].phase is Idle));
        let old = states[k - 1].phase;
        lemma_round_step(states[k - 1], events[k - 1], states[k], actions[k - 1], jobs);
        if actions[k - 1] is ClaimJob {
            let c = claims_issued(old);
            assert(queue_ids(jobs).take(c + 1) =~= queue_ids(jobs).take(c).push(
                jobs[c].queue_id@,
            ));
        }
    }
}

/// Every job of a poll is claimed exactly once, in the server's order: over
/// the moves from the poll's success (`states[s]`, connected) to the next
/// sleep between polls (`states[e]`, idle), the claimed queue ids are the
/// polled jobs' queue ids, in order.
pub proof fn lemma_each_job_claimed_once_in_order(
    states: Seq<Poller>,
    events: Seq<PollEvent>,
    actions: Seq<PollAction>,
    s: int,
    e: int,
)
    requires
        is_run(states, events, actions),
        0 <= s < e <= events.len(),
        states[s].phase matches PollPhase::Connected { run } && run.index == 0
            && run.jobs@.len() <= usize::MAX,
        forall|t: int| s < t < e ==> !(#[trigger] states[t].phase is Idle),
        states[e].phase is Idle,
    ensures
        claimed_ids(states, actions, s, e) == queue_ids(round_run(states[s].phase)->0.jobs@),
{
    let jobs = round_run(states[s].phase)->0.jobs@;
    lemma_round_claims(states, events, actions, s, e - 1, e, jobs);
    assert(moves(states, events, actions, e - 1));
    lemma_round_step(states[e - 1], events[e - 1], states[e], actions[e - 1], jobs);
    assert(queue_ids(jobs).take(jobs.len() as int) =~= queue_ids(jobs));
}

/// How far a phase is, in its round, from the next check of the stop flag
/// (first part of the distance).
pub open spec fn round_stage(phase: PollPhase) -> nat {
    match phase {
        PollPhase::AwaitStopFlag => 6,
        PollPhase::AwaitConfig => 5,
        PollPhase::AwaitQueue { .. } => 4,
        PollPhase::Unconfigured { .. } => 3,
        PollPhase::Disconnected => 3,
        PollPhase::Idle => 1,
        PollPhase::Stopped => 0,
        _ => 2,
    }
}

/// The work left on a poll's jobs in a phase busy with them (second part of the distance).
pub open spec fn round_work(phase: PollPhase) -> nat {
    let rest = |run: JobRun| if run.jobs@.len() > run.index + 1 {
        (run.jobs@.len() - run.index - 1) as nat
    } else {
        0nat
    };
    match phase {
        PollPhase::Connected { run } => 6 * run.jobs@.len(),
        PollPhase::AwaitClaim { run } => 6 * rest(run) + 5,
        PollPhase::AwaitDownload { run, .. } => 6 * rest(run) + 4,
        PollPhase::AwaitPrinters { run, .. } => 6 * rest(run) + 3,
        PollPhase::AwaitPrint { run, .. } => 6 * rest(run) + 2,
        PollPhase::AwaitReport { run, .. } => 6 * rest(run) + 1,
        PollPhase::AwaitRemoval { run } => 6 * rest(run),
        _ => 0,
    }
}

/// `new` is nearer than `old` to the next check of the stop flag, in the
/// lexicographic (well-founded) order of stage and work.
pub open spec fn nearer_to_stop_check(new: Poller, old: Poller) -> bool {
    ||| round_stage(new.phase) < round_stage(old.phase)
    ||| round_stage(new.phase) == round_stage(old.phase) && round_work(new.phase) < round_work(
        old.phase,
    )
}

/// Every round returns to the stop check: the move out of `Idle` checks the
/// stop flag, and it is the only move that does; every other move brings the
/// machine strictly nearer to the next check, in a well-founded order, so the
/// check comes after finitely many moves (and a stop seen there ends the loop,
/// as `lemma_stop_is_final` says).
pub proof fn lemma_round_returns_to_stop_check(
    old: Poller,
    ev: PollEvent,
    new: Poller,
    act: PollAction,
)
    requires
        old.wf(),
        old.expects(ev),
        old.transition(ev, new, act),
        round_run(old.phase) matches Some(run) ==> run.jobs@.len() <= usize::MAX,
    ensures
        old.phase is Idle ==> act == PollAction::CheckStop && new.phase is AwaitStopFlag,
        act == PollAction::CheckStop ==> old.phase is Idle,
        !(old.phase is Idle) ==> nearer_to_stop_check(new, old),
{
}


/// The pause that the last successful poll of the first `n` moves of a run
/// set (the configured interval, at least five seconds), or the starting
/// pause when no poll has succeeded yet.
pub open spec fn pause_set_by_last_success(states: Seq<Poller>, events: Seq<PollEvent>, n: int) -> u64
    decreases n,
{
    if n <= 0 {
        states[0].backoff
    } else {
        match (states[n - 1].phase, events[n - 1]) {
            (PollPhase::AwaitQueue { cfg, .. }, PollEvent::QueueFetched(Ok(_))) => settle_delay(
                cfg.poll_interval_seconds,
            ),
            _ => pause_set_by_last_success(states, events, n - 1),
        }
    }
}

/// The pause never exceeds a minute or the pause that the last successful
/// poll set, whichever is larger; so when every successful poll's interval is
/// at most half of `u64::MAX`, doubling the pause can never overflow.
pub proof fn lemma_pause_bounded(
    states: Seq<Poller>,
    events: Seq<PollEvent>,
    actions: Seq<PollAction>,
    n: int,
)
    requires
        is_run(states, events, actions),
        0 <= n <= events.len(),
    ensures
        states[n].backoff <= 60 || states[n].backoff <= pause_set_by_last_success(states, events, n),
        pause_set_by_last_success(states, events, n) <= u64::MAX / 2 ==> 2 * states[n].backoff
            <= u64::MAX,
    decreases n,
{
    if n > 0 {
        lemma_pause_bounded(states, events, actions, n - 1);
        assert(moves(states, events, actions, n - 1));
        lemma_backoff_step(states[n - 1], events[n - 1], states[n], actions[n - 1]);
    }
}


/// In every run from a fresh machine (`Poller::new`), every claim, download
/// and report goes to the server named in the settings of the poll it serves,
/// without that URL's trailing slashes, for the job at hand, with the
/// settings' API key.
pub proof fn lemma_run_requests_go_to_configured_server(
    states: Seq<Poller>,
    events: Seq<PollEvent>,
    actions: Seq<PollAction>,
    i: int,
)
    requires
        is_run(states, events, actions),
        states[0] == (Poller { backoff: 5, phase: PollPhase::Idle }),
        0 <= i < events.len(),
    ensures
        actions[i] matches PollAction::ClaimJob { request, .. } ==> active_run(states[i + 1].phase)
            matches Some(run) && request.url@ == trim_end_char(run.cfg.server_url@, '/')
            + claim_path() + run.jobs@[run.index as int].queue_id@ && request.headers@[0].1@
            == run.cfg.api_key@,
        actions[i] matches PollAction::DownloadPdf(request) ==> active_run(states[i + 1].phase)
            matches Some(run) && request.url@ == trim_end_char(run.cfg.server_url@, '/')
            + file_path() + run.jobs@[run.index as int].queue_id@ && request.headers@[0].1@
            == run.cfg.api_key@,
        actions[i] matches PollAction::ReportDone(request) ==> active_run(states[i + 1].phase)
            matches Some(run) && request.url@ == trim_end_char(run.cfg.server_url@, '/')
            + done_path() + run.jobs@[run.index as int].queue_id@ && request.headers@[0].1@
            == run.cfg.api_key@,
{
    lemma_run_keeps_wf(states, events, actions, i);
    assert(moves(states, events, actions, i));
    lemma_requests_go_to_configured_server(states[i], events[i], states[i + 1], actions[i]);
}

} // verus!
