use crate::ready::{is_ready_line, is_ready_text, lemma_ready_exactly_with_marker, READY_MARKER};
use vstd::utf8::encode_utf8;
use vstd::prelude::*;

verus! {

/// Where the start-up of the oracle process stands.
#[derive(Debug, PartialEq, Eq, Structural, Clone, Copy)]
pub enum Phase {
    /// A process is being spawned; `retries` more spawns are allowed after this one.
    Spawning { retries: u8 },
    /// A process runs and its log is watched for the ready line until the
    /// deadline; `retries` more spawns are allowed.
    Waiting { retries: u8 },
    /// The oracle serves HTTP.
    Up,
    /// The start failed (spawn error, or the deadline passed on the last attempt).
    Failed,
    /// No attempt was allowed.
    Exhausted,
}

/// What the caller observed since the last action.
#[derive(Debug)]
pub enum Event {
    /// The process was spawned.
    Spawned,
    /// Spawning the process failed.
    SpawnFailed,
    /// The start-up deadline of the running process has passed (checked before the log is read).
    Deadline,
    /// No log line was waiting.
    Quiet,
    /// The process logged this line.
    Log(String),
}

/// What the caller is to do next.
#[derive(Debug, PartialEq, Eq, Structural, Clone, Copy)]
pub enum Action {
    /// Spawn the oracle process and report `Spawned` or `SpawnFailed`.
    Spawn,
    /// Check the deadline, then read one waiting log line, and report what was seen.
    Poll,
    /// Wait a short while, then poll.
    SleepThenPoll,
    /// The oracle is up: keep the process.
    Accept,
    /// Kill the process; then, on another free port unless a port is configured,
    /// write the configuration again and spawn anew, reporting `Spawned` or `SpawnFailed`.
    KillAndRetry,
    /// Kill the process and fail the start: no attempt is left.
    KillAndFail,
    /// Fail the start with the spawn error.
    Abort,
    /// No attempt is allowed: the start cannot proceed.
    GiveUp,
    /// The start-up is over; nothing is left to do.
    Halt,
}

/// The model of an [`Event`], log lines taken as characters.
pub enum EventView {
    Spawned,
    SpawnFailed,
    Deadline,
    Quiet,
    Log(Seq<char>),
}

impl View for Event {
    type V = EventView;

    open spec fn view(&self) -> EventView {
        match self {
            Event::Spawned => EventView::Spawned,
            Event::SpawnFailed => EventView::SpawnFailed,
            Event::Deadline => EventView::Deadline,
            Event::Quiet => EventView::Quiet,
            Event::Log(line) => EventView::Log(line@),
        }
    }
}

/// The action starts a new oracle process.
pub open spec fn spawns(action: Action) -> bool {
    action == Action::Spawn || action == Action::KillAndRetry
}

/// How many more processes may still be spawned from this phase.
pub open spec fn spawn_budget(phase: Phase) -> nat {
    match phase {
        Phase::Spawning { retries } => retries as nat,
        Phase::Waiting { retries } => retries as nat,
        _ => 0,
    }
}

/// The first phase and action of a start-up allowed `attempts` spawns.
pub open spec fn begin_spec(attempts: u8) -> (Phase, Action) {
    if attempts == 0 {
        (Phase::Exhausted, Action::GiveUp)
    } else {
        (Phase::Spawning { retries: (attempts - 1) as u8 }, Action::Spawn)
    }
}

/// The start-up decision: from a phase and what was observed, the next phase and action.
pub open spec fn step_spec(phase: Phase, event: EventView) -> (Phase, Action) {
    match (phase, event) {
        (Phase::Spawning { retries }, EventView::Spawned) => (Phase::Waiting { retries }, Action::Poll),
        (Phase::Spawning { retries }, EventView::SpawnFailed) => (Phase::Failed, Action::Abort),
        (Phase::Waiting { retries }, EventView::Deadline) => if retries > 0 {
            (Phase::Spawning { retries: (retries - 1) as u8 }, Action::KillAndRetry)
        } else {
            (Phase::Failed, Action::KillAndFail)
        },
        (Phase::Waiting { retries }, EventView::Quiet) => (Phase::Waiting { retries }, Action::Poll),
        (Phase::Waiting { retries }, EventView::Log(line)) => if is_ready_text(line) {
            (Phase::Up, Action::Accept)
        } else {
            (Phase::Waiting { retries }, Action::SleepThenPoll)
        },
        _ => (phase, Action::Halt),
    }
}

/// Starts the start-up of the oracle, allowed `attempts` spawns.
pub fn begin(attempts: u8) -> (next: (Phase, Action))
    ensures
        next == begin_spec(attempts),
{
    if attempts == 0 {
        (Phase::Exhausted, Action::GiveUp)
    } else {
        (Phase::Spawning { retries: attempts - 1 }, Action::Spawn)
    }
}

/// Decides the next phase and action of the start-up from what was observed.
pub fn step(phase: Phase, event: &Event) -> (next: (Phase, Action))
    ensures
        next == step_spec(phase, event@),
{
    match phase {
        Phase::Spawning { retries } => match event {
            Event::Spawned => (Phase::Waiting { retries }, Action::Poll),
            Event::SpawnFailed => (Phase::Failed, Action::Abort),
            _ => (phase, Action::Halt),
        },
        Phase::Waiting { retries } => match event {
            Event::Deadline => {
                if retries > 0 {
                    (Phase::Spawning { retries: retries - 1 }, Action::KillAndRetry)
                } else {
                    (Phase::Failed, Action::KillAndFail)
                }
            },
            Event::Quiet => (Phase::Waiting { retries }, Action::Poll),
            Event::Log(line) => {
                if is_ready_line(line.as_str()) {
                    (Phase::Up, Action::Accept)
                } else {
                    (Phase::Waiting { retries }, Action::SleepThenPoll)
                }
            },
            _ => (phase, Action::Halt),
        },
        _ => (phase, Action::Halt),
    }
}

/// The phase reached and the number of processes spawned when the
/// observations `events` are fed to the start-up from `phase`.
pub open spec fn run(phase: Phase, events: Seq<EventView>) -> (Phase, nat)
    decreases events.len(),
{
    if events.len() == 0 {
        (phase, 0)
    } else {
        let (next, action) = step_spec(phase, events[0]);
        let (last, count) = run(next, events.drop_first());
        (last, count + if spawns(action) {
            1nat
        } else {
            0nat
        })
    }
}

/// Every spawning action uses up one unit of the budget, and no observation adds to it.
pub proof fn lemma_step_budget(phase: Phase, event: EventView)
    ensures
        spawns(step_spec(phase, event).1) ==> spawn_budget(step_spec(phase, event).0) + 1
            == spawn_budget(phase),
        !spawns(step_spec(phase, event).1) ==> spawn_budget(step_spec(phase, event).0)
            <= spawn_budget(phase),
{
}

/// Along any run, at most the budget of processes is spawned.
pub proof fn lemma_run_within_budget(phase: Phase, events: Seq<EventView>)
    ensures
        run(phase, events).1 <= spawn_budget(phase),
    decreases events.len(),
{
    if events.len() > 0 {
        lemma_step_budget(phase, events[0]);
        lemma_run_within_budget(step_spec(phase, events[0]).0, events.drop_first());
    }
}

/// A start-up allowed `attempts` spawns spawns at most `attempts` processes,
/// whatever the processes log and however the deadlines fall.
pub proof fn lemma_spawns_at_most_attempts(attempts: u8, events: Seq<EventView>)
    ensures
        run(begin_spec(attempts).0, events).1 + (if spawns(begin_spec(attempts).1) {
            1nat
        } else {
            0nat
        }) <= attempts,
{
    lemma_run_within_budget(begin_spec(attempts).0, events);
}

/// `k` processes in turn that start but never announce HTTP service before their deadline.
pub open spec fn silent_attempts(k: nat) -> Seq<EventView>
    decreases k,
{
    if k == 0 {
        Seq::empty()
    } else {
        seq![EventView::Spawned, EventView::Deadline] + silent_attempts((k - 1) as nat)
    }
}

proof fn lemma_silent_run(retries: u8)
    ensures
        run(Phase::Spawning { retries }, silent_attempts(retries as nat + 1)) == (
            Phase::Failed,
            retries as nat,
        ),
    decreases retries,
{
    let events = silent_attempts(retries as nat + 1);
    let rest = silent_attempts(retries as nat);
    assert(events[0] == EventView::Spawned);
    assert(events.drop_first() =~= seq![EventView::Deadline] + rest);
    assert(events.drop_first()[0] == EventView::Deadline);
    assert(events.drop_first().drop_first() =~= rest);
    let d = events.drop_first();
    assert(run(Phase::Spawning { retries }, events) == run(Phase::Waiting { retries }, d));
    if retries > 0 {
        let r1 = (retries - 1) as u8;
        lemma_silent_run(r1);
        assert(r1 as nat + 1 == retries as nat);
        assert(run(Phase::Waiting { retries }, d) == (
            run(Phase::Spawning { retries: r1 }, rest).0,
            run(Phase::Spawning { retries: r1 }, rest).1 + 1,
        ));
    } else {
        assert(rest.len() == 0);
        assert(run(Phase::Failed, rest) == (Phase::Failed, 0nat));
        assert(run(Phase::Waiting { retries }, d) == (Phase::Failed, 0nat));
    }
}

/// A failed attempt is retried while attempts are left: when every process starts
/// but none announces HTTP service before its deadline, a start-up allowed
/// `attempts` (at least one) spawns exactly `attempts` processes, then fails.
pub proof fn lemma_retries_until_attempts_run_out(attempts: u8)
    requires
        attempts >= 1,
    ensures
        begin_spec(attempts).1 == Action::Spawn,
        run(begin_spec(attempts).0, silent_attempts(attempts as nat)) == (
            Phase::Failed,
            (attempts - 1) as nat,
        ),
{
    lemma_silent_run((attempts - 1) as u8);
}

/// The start-up accepts the process only when, while waiting, it logged a
/// line that announces HTTP service; such a line is always accepted; and the
/// oracle counts as up exactly when it was accepted.
pub proof fn lemma_accepts_exactly_ready_lines(phase: Phase, event: EventView)
    ensures
        step_spec(phase, event).1 == Action::Accept <==> (phase is Waiting && (
        event matches EventView::Log(line) && is_ready_text(line))),
        phase != Phase::Up ==> (step_spec(phase, event).1 == Action::Accept <==> step_spec(
            phase,
            event,
        ).0 == Phase::Up),
{
}

/// When the deadline passes, the process is killed; it is replaced by a new one
/// while retries are left, and the start fails otherwise.
pub proof fn lemma_deadline_retries_or_fails(retries: u8)
    ensures
        retries > 0 ==> step_spec(Phase::Waiting { retries }, EventView::Deadline) == (
            Phase::Spawning { retries: (retries - 1) as u8 },
            Action::KillAndRetry,
        ),
        retries == 0 ==> step_spec(Phase::Waiting { retries }, EventView::Deadline) == (
            Phase::Failed,
            Action::KillAndFail,
        ),
{
}

/// A finished start-up stays finished: from `Up`, `Failed` or `Exhausted`
/// every observation leaves the phase unchanged and asks for nothing.
pub proof fn lemma_finished_stays(phase: Phase, event: EventView)
    requires
        phase == Phase::Up || phase == Phase::Failed || phase == Phase::Exhausted,
    ensures
        step_spec(phase, event) == (phase, Action::Halt),
{
}

/// A log line never ends an attempt: it neither kills the process nor spawns nor
/// fails the start. While waiting, a line in whose bytes those of [`READY_MARKER`]
/// occur makes the oracle up, and any other line keeps the phase and only asks to
/// sleep and poll again.
pub proof fn lemma_log_lines_accept_or_wait(phase: Phase, line: Seq<char>)
    ensures
        step_spec(phase, EventView::Log(line)).1 != Action::KillAndRetry,
        step_spec(phase, EventView::Log(line)).1 != Action::KillAndFail,
        step_spec(phase, EventView::Log(line)).1 != Action::Spawn,
        step_spec(phase, EventView::Log(line)).1 != Action::Abort,
        step_spec(phase, EventView::Log(line)).0 != Phase::Failed || phase == Phase::Failed,
        phase matches Phase::Waiting { retries } ==> step_spec(phase, EventView::Log(line)) == (
        if exists|i: int|
            0 <= i && i + encode_utf8(READY_MARKER@).len() <= encode_utf8(line).len()
                && #[trigger] encode_utf8(line).subrange(
                i,
                i + encode_utf8(READY_MARKER@).len(),
            ) == encode_utf8(READY_MARKER@) {
            (Phase::Up, Action::Accept)
        } else {
            (Phase::Waiting { retries }, Action::SleepThenPoll)
        }),
{
    lemma_ready_exactly_with_marker(line);
}

} // verus!
