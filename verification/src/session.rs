//! The stream transcoding supervisor: a state machine owning the lifecycle
//! of at most one transcoding process, the singleton delivery server flag,
//! and the workspace purge/prepare sequencing.
//!
//! The machine is driven from outside: each call of [`Session::step`] takes
//! the event that concluded the previous action and returns the next action
//! to perform (kill, purge, bind, spawn, poll, ...).  The caller performs
//! the real process and file work and reports back what happened.

use vstd::prelude::*;
use vstd::string::StringExecFns;

use crate::args::{
    get_ffmpeg_args, playback_url, playlist_path, segment_pattern, spec_ffmpeg_args,
    spec_playback_url, spec_playlist_path, spec_segment_pattern,
};

verus! {

/// Ceiling on readiness polls for one spawned session.
pub const MAX_POLL_ATTEMPTS: u64 = 15;

/// Pause after each readiness poll, in milliseconds.
pub const POLL_INTERVAL_MS: u64 = 300;

/// Pause after the listener is ensured, before spawning, in milliseconds.
pub const SERVER_WARMUP_MS: u64 = 300;

/// Settling pause after termination, before the workspace is purged, in
/// milliseconds.
pub const SETTLE_DELAY_MS: u64 = 100;

/// Lifecycle phase of the single stream session.
#[derive(Clone, Copy, PartialEq, Eq, Structural, Debug)]
pub enum Phase {
    /// No session is active and none is being torn down.
    Idle,
    /// A stop request: the transcoder (and any orphan) is being terminated.
    StopKilling,
    /// A stop request: waiting for the system to release file handles
    /// before the purge.
    StopSettling,
    /// A stop request: the workspace is being emptied.
    StopPurging,
    /// A start request: the previous session's process is being terminated.
    StartKilling,
    /// A start request: waiting for the system to release file handles
    /// before the purge.
    StartSettling,
    /// A start request: the previous session's output is being removed.
    StartPurging,
    /// The workspace directory is being created and emptied.
    Preparing,
    /// The delivery server's one listener is being bound.
    Binding,
    /// Waiting briefly for the listener to become reachable.
    Delaying,
    /// The bundled transcoder candidate is being spawned.
    SpawningPrimary,
    /// The system transcoder candidate is being spawned.
    SpawningFallback,
    /// Polling the workspace for playable output.
    Polling,
    /// The playback URL has been delivered.
    Ready,
    /// Both spawn candidates failed; the error was delivered.
    Failed,
}

/// What the driver reports back to the machine.
pub enum Event {
    /// A client asked to start playing the given source URL.
    StartRequested(String),
    /// A client asked to stop the session.
    StopRequested,
    /// Termination finished: no transcoding process is alive any more.
    Killed,
    /// Every file directly inside the workspace was removed.
    Purged,
    /// The settling pause elapsed.
    Settled,
    /// The workspace directory exists and holds no files.
    Prepared,
    /// The bind attempt finished; `true` means a listener was bound.
    Bound(bool),
    /// The listener warm-up pause elapsed.
    Delayed,
    /// The requested spawn succeeded.
    SpawnedOk,
    /// The requested spawn failed, with the spawn error's text.
    SpawnedErr(String),
    /// One readiness poll of the workspace, with what it saw.
    Observed { manifest: bool, segment: bool, files: u64 },
}

/// What the driver must do next.
pub enum Action {
    /// Nothing; the machine is at rest.
    Nothing,
    /// Terminate the held transcoding process and any orphan matching the
    /// transcoder's name or the workspace marker, then report `Killed`.
    Kill,
    /// Remove every file directly inside the workspace (best effort), then
    /// report `Purged`.
    Purge,
    /// Sleep [`SETTLE_DELAY_MS`], then report `Settled`.
    Settle,
    /// Create the workspace directory if missing and empty it, then report
    /// `Prepared`.
    Prepare,
    /// Bind the delivery server's listener on the fixed loopback address,
    /// serving the workspace with permissive cross-origin headers; report
    /// `Bound` with the outcome.
    Bind,
    /// Sleep [`SERVER_WARMUP_MS`], then report `Delayed`.
    Delay,
    /// Spawn the transcoder with the given argument list: the bundled
    /// candidate when `fallback` is false, the system one when true.
    /// Standard input is disabled and standard output discarded.
    Spawn { fallback: bool, args: Vec<String> },
    /// Sleep [`POLL_INTERVAL_MS`], inspect the workspace, and report
    /// `Observed`.
    Poll,
    /// Hand the playback URL to the requesting client.
    Deliver(String),
    /// Hand the start failure message to the requesting client.
    Fail(String),
}

/// Mathematical state of the supervisor.
pub struct SessionModel {
    pub phase: Phase,
    /// Source URL of the current or pending session.
    pub url: Seq<char>,
    /// The fixed workspace directory.
    pub dir: Seq<char>,
    /// Transcoding processes alive system-wide.
    pub procs: nat,
    /// Listeners the delivery server has bound.
    pub listeners: nat,
    /// The initialize-once delivery server flag.
    pub server_started: bool,
    /// Files directly inside the workspace.
    pub files: nat,
    /// Readiness polls spent on the current session.
    pub polls_used: nat,
    /// Message of the last start failure.
    pub error: Seq<char>,
}

/// Event as the model sees it.
pub enum EventModel {
    StartRequested(Seq<char>),
    StopRequested,
    Killed,
    Purged,
    Settled,
    Prepared,
    Bound(bool),
    Delayed,
    SpawnedOk,
    SpawnedErr(Seq<char>),
    Observed { manifest: bool, segment: bool, files: nat },
}

/// Action as the model sees it.
pub enum ActionModel {
    Nothing,
    Kill,
    Purge,
    Settle,
    Prepare,
    Bind,
    Delay,
    Spawn { fallback: bool, args: Seq<Seq<char>> },
    Poll,
    Deliver(Seq<char>),
    Fail(Seq<char>),
}

impl View for Event {
    type V = EventModel;

    open spec fn view(&self) -> EventModel {
        match self {
            Event::StartRequested(u) => EventModel::StartRequested(u@),
            Event::StopRequested => EventModel::StopRequested,
            Event::Killed => EventModel::Killed,
            Event::Purged => EventModel::Purged,
            Event::Settled => EventModel::Settled,
            Event::Prepared => EventModel::Prepared,
            Event::Bound(ok) => EventModel::Bound(*ok),
            Event::Delayed => EventModel::Delayed,
            Event::SpawnedOk => EventModel::SpawnedOk,
            Event::SpawnedErr(m) => EventModel::SpawnedErr(m@),
            Event::Observed { manifest, segment, files } => EventModel::Observed {
                manifest: *manifest,
                segment: *segment,
                files: *files as nat,
            },
        }
    }
}

impl View for Action {
    type V = ActionModel;

    open spec fn view(&self) -> ActionModel {
        match self {
            Action::Nothing => ActionModel::Nothing,
            Action::Kill => ActionModel::Kill,
            Action::Purge => ActionModel::Purge,
            Action::Settle => ActionModel::Settle,
            Action::Prepare => ActionModel::Prepare,
            Action::Bind => ActionModel::Bind,
            Action::Delay => ActionModel::Delay,
            Action::Spawn { fallback, args } => ActionModel::Spawn {
                fallback: *fallback,
                args: args.deep_view(),
            },
            Action::Poll => ActionModel::Poll,
            Action::Deliver(u) => ActionModel::Deliver(u@),
            Action::Fail(m) => ActionModel::Fail(m@),
        }
    }
}

/// Message delivered when both spawn candidates failed, around the second
/// candidate's own error text.
pub open spec fn spec_spawn_failure(err: Seq<char>) -> Seq<char> {
    "FFmpeg not found: "@ + err + ". Please install ffmpeg."@
}

/// State after construction: idle, nothing spawned, nothing bound.
pub open spec fn init_model(dir: Seq<char>) -> SessionModel {
    SessionModel {
        phase: Phase::Idle,
        url: Seq::<char>::empty(),
        dir: dir,
        procs: 0,
        listeners: 0,
        server_started: false,
        files: 0,
        polls_used: 0,
        error: Seq::<char>::empty(),
    }
}

/// The transition function: next state and next action for a state and an
/// event.  An event that does not belong to the current phase leaves the
/// state unchanged and asks for nothing; a start or stop request is obeyed
/// in every phase (latest request wins).
pub open spec fn spec_step(s: SessionModel, ev: EventModel) -> (SessionModel, ActionModel) {
    match ev {
        EventModel::StartRequested(u) => (
            SessionModel {
                phase: Phase::StartKilling,
                url: u,
                polls_used: 0,
                error: Seq::<char>::empty(),
                ..s
            },
            ActionModel::Kill,
        ),
        EventModel::StopRequested => (
            SessionModel { phase: Phase::StopKilling, ..s },
            ActionModel::Kill,
        ),
        EventModel::Killed => match s.phase {
            Phase::StartKilling => (
                SessionModel { phase: Phase::StartSettling, procs: 0, ..s },
                ActionModel::Settle,
            ),
            Phase::StopKilling => (
                SessionModel { phase: Phase::StopSettling, procs: 0, ..s },
                ActionModel::Settle,
            ),
            _ => (s, ActionModel::Nothing),
        },
        EventModel::Settled => match s.phase {
            Phase::StartSettling => (
                SessionModel { phase: Phase::StartPurging, ..s },
                ActionModel::Purge,
            ),
            Phase::StopSettling => (
                SessionModel { phase: Phase::StopPurging, ..s },
                ActionModel::Purge,
            ),
            _ => (s, ActionModel::Nothing),
        },
        EventModel::Purged => match s.phase {
            Phase::StartPurging => (
                SessionModel { phase: Phase::Preparing, files: 0, ..s },
                ActionModel::Prepare,
            ),
            Phase::StopPurging => (
                SessionModel { phase: Phase::Idle, files: 0, ..s },
                ActionModel::Nothing,
            ),
            _ => (s, ActionModel::Nothing),
        },
        EventModel::Prepared => match s.phase {
            Phase::Preparing => if s.server_started {
                (SessionModel { phase: Phase::Delaying, files: 0, ..s }, ActionModel::Delay)
            } else {
                (
                    SessionModel {
                        phase: Phase::Binding,
                        files: 0,
                        server_started: true,
                        ..s
                    },
                    ActionModel::Bind,
                )
            },
            _ => (s, ActionModel::Nothing),
        },
        EventModel::Bound(ok) => match s.phase {
            Phase::Binding => (
                SessionModel {
                    phase: Phase::Delaying,
                    listeners: if ok {
                        s.listeners + 1
                    } else {
                        s.listeners
                    },
                    ..s
                },
                ActionModel::Delay,
            ),
            _ => (s, ActionModel::Nothing),
        },
        EventModel::Delayed => match s.phase {
            Phase::Delaying => (
                SessionModel { phase: Phase::SpawningPrimary, ..s },
                ActionModel::Spawn {
                    fallback: false,
                    args: spec_ffmpeg_args(
                        s.url,
                        spec_segment_pattern(s.dir),
                        spec_playlist_path(s.dir),
                    ),
                },
            ),
            _ => (s, ActionModel::Nothing),
        },
        EventModel::SpawnedOk => match s.phase {
            Phase::SpawningPrimary | Phase::SpawningFallback => (
                SessionModel { phase: Phase::Polling, procs: 1, polls_used: 0, ..s },
                ActionModel::Poll,
            ),
            _ => (s, ActionModel::Nothing),
        },
        EventModel::SpawnedErr(m) => match s.phase {
            Phase::SpawningPrimary => (
                SessionModel { phase: Phase::SpawningFallback, ..s },
                ActionModel::Spawn {
                    fallback: true,
                    args: spec_ffmpeg_args(
                        s.url,
                        spec_segment_pattern(s.dir),
                        spec_playlist_path(s.dir),
                    ),
                },
            ),
            Phase::SpawningFallback => (
                SessionModel { phase: Phase::Failed, error: spec_spawn_failure(m), ..s },
                ActionModel::Fail(spec_spawn_failure(m)),
            ),
            _ => (s, ActionModel::Nothing),
        },
        EventModel::Observed { manifest, segment, files } => match s.phase {
            Phase::Polling => if (manifest && segment) || s.polls_used + 1
                >= MAX_POLL_ATTEMPTS as nat {
                (
                    SessionModel {
                        phase: Phase::Ready,
                        files: files,
                        polls_used: s.polls_used + 1,
                        ..s
                    },
                    ActionModel::Deliver(spec_playback_url()),
                )
            } else {
                (
                    SessionModel { files: files, polls_used: s.polls_used + 1, ..s },
                    ActionModel::Poll,
                )
            },
            _ => (s, ActionModel::Nothing),
        },
    }
}

/// Well-formedness: the resource counts the design promises.  At most one
/// transcoding process, at most one bound listener (and only after the
/// flag was set), the poll budget never overdrawn, and nothing alive and
/// no stale file where the sequencing forbids it.
pub open spec fn session_wf(s: SessionModel) -> bool {
    &&& s.procs <= 1
    &&& s.listeners <= 1
    &&& (s.listeners >= 1 ==> s.server_started)
    &&& s.polls_used <= MAX_POLL_ATTEMPTS as nat
    &&& (s.phase == Phase::Polling ==> s.polls_used < MAX_POLL_ATTEMPTS as nat)
    &&& (match s.phase {
        Phase::StartPurging | Phase::StartSettling | Phase::StopPurging | Phase::StopSettling
            | Phase::Preparing | Phase::Binding | Phase::Delaying | Phase::SpawningPrimary
            | Phase::SpawningFallback => s.procs == 0,
        _ => true,
    })
    &&& (match s.phase {
        Phase::Preparing | Phase::Binding | Phase::Delaying | Phase::SpawningPrimary
            | Phase::SpawningFallback => s.files == 0,
        _ => true,
    })
    &&& (s.phase == Phase::Binding ==> s.listeners == 0 && s.server_started)
}

/// One step keeps the state well formed.
pub proof fn lemma_step_wf(s: SessionModel, ev: EventModel)
    requires
        session_wf(s),
    ensures
        session_wf(spec_step(s, ev).0),
{
}

/// State after a whole sequence of events, fed in one by one.
pub open spec fn run_steps(s: SessionModel, evs: Seq<EventModel>) -> SessionModel
    decreases evs.len(),
{
    if evs.len() == 0 {
        s
    } else {
        run_steps(spec_step(s, evs[0]).0, evs.drop_first())
    }
}

/// How many bind actions a sequence of events provokes.
pub open spec fn count_binds(s: SessionModel, evs: Seq<EventModel>) -> nat
    decreases evs.len(),
{
    if evs.len() == 0 {
        0
    } else {
        (if spec_step(s, evs[0]).1 == ActionModel::Bind {
            1nat
        } else {
            0nat
        }) + count_binds(spec_step(s, evs[0]).0, evs.drop_first())
    }
}

/// How many readiness polls a sequence of events provokes.
pub open spec fn count_polls(s: SessionModel, evs: Seq<EventModel>) -> nat
    decreases evs.len(),
{
    if evs.len() == 0 {
        0
    } else {
        (if spec_step(s, evs[0]).1 == ActionModel::Poll {
            1nat
        } else {
            0nat
        }) + count_polls(spec_step(s, evs[0]).0, evs.drop_first())
    }
}

/// Well-formedness survives any sequence of events.
pub proof fn lemma_run_wf(s: SessionModel, evs: Seq<EventModel>)
    requires
        session_wf(s),
    ensures
        session_wf(run_steps(s, evs)),
    decreases evs.len(),
{
    if evs.len() > 0 {
        lemma_step_wf(s, evs[0]);
        lemma_run_wf(spec_step(s, evs[0]).0, evs.drop_first());
    }
}

/// For every sequence of start and stop calls and their reported
/// outcomes, at most one transcoding process is alive at the end.
pub proof fn lemma_at_most_one_process(s: SessionModel, evs: Seq<EventModel>)
    requires
        session_wf(s),
    ensures
        run_steps(s, evs).procs <= 1,
{
    lemma_run_wf(s, evs);
}

/// However often the delivery server is asked for, at most one listener
/// is ever bound.
pub proof fn lemma_at_most_one_listener(s: SessionModel, evs: Seq<EventModel>)
    requires
        session_wf(s),
    ensures
        run_steps(s, evs).listeners <= 1,
{
    lemma_run_wf(s, evs);
}

/// Once the initialize-once flag is set, no sequence of events ever asks
/// for another bind; before it is set, at most one bind is ever asked for.
pub proof fn lemma_bind_once(s: SessionModel, evs: Seq<EventModel>)
    requires
        session_wf(s),
    ensures
        count_binds(s, evs) <= (if s.server_started {
            0nat
        } else {
            1nat
        }),
    decreases evs.len(),
{
    if evs.len() > 0 {
        lemma_step_wf(s, evs[0]);
        lemma_bind_once(spec_step(s, evs[0]).0, evs.drop_first());
    }
}

/// Readiness polls left before the configured ceiling is reached.
pub open spec fn poll_budget(s: SessionModel) -> nat {
    if s.phase == Phase::Polling {
        (MAX_POLL_ATTEMPTS as nat - s.polls_used) as nat
    } else {
        0
    }
}

/// Readiness polling never exceeds its attempt bound: as long as no new
/// transcoder is spawned, no more polls are asked for than the budget
/// allows — and the budget never exceeds [`MAX_POLL_ATTEMPTS`].
pub proof fn lemma_poll_bound(s: SessionModel, evs: Seq<EventModel>)
    requires
        session_wf(s),
        forall|i: int| 0 <= i < evs.len() ==> !(evs[i] is SpawnedOk),
    ensures
        count_polls(s, evs) <= poll_budget(s),
        poll_budget(s) <= MAX_POLL_ATTEMPTS as nat,
    decreases evs.len(),
{
    if evs.len() > 0 {
        lemma_step_wf(s, evs[0]);
        assert(forall|i: int|
            0 <= i < evs.drop_first().len() ==> evs.drop_first()[i] == evs[i + 1]);
        lemma_poll_bound(spec_step(s, evs[0]).0, evs.drop_first());
    }
}

/// A spawn is only ever asked for when no process is alive and the
/// workspace holds no file from an earlier session.
pub proof fn lemma_spawn_into_clean_workspace(s: SessionModel, ev: EventModel)
    requires
        session_wf(s),
    ensures
        spec_step(s, ev).1 is Spawn ==> spec_step(s, ev).0.files == 0 && spec_step(
            s,
            ev,
        ).0.procs == 0,
{
}

/// The canonical event sequence of one stop request, every outcome
/// reported in order.
pub open spec fn stop_events() -> Seq<EventModel> {
    seq![
        EventModel::StopRequested,
        EventModel::Killed,
        EventModel::Settled,
        EventModel::Purged,
    ]
}

/// A completed stop leaves no process alive and no file in the workspace,
/// whatever went before.
pub proof fn lemma_stop_clears(s: SessionModel)
    ensures
        run_steps(s, stop_events()) == (SessionModel {
            phase: Phase::Idle,
            procs: 0,
            files: 0,
            ..s
        }),
{
    reveal_with_fuel(run_steps, 6);
}

/// The canonical event sequence of one successful start request for
/// source `u`: the old session is torn down, the workspace prepared, the
/// server ensured (the bind report is ignored when the flag was already
/// set), the transcoder spawned, and the first poll sees playable output
/// with `f` files in the workspace.
pub open spec fn start_events(u: Seq<char>, f: nat) -> Seq<EventModel> {
    seq![
        EventModel::StartRequested(u),
        EventModel::Killed,
        EventModel::Settled,
        EventModel::Purged,
        EventModel::Prepared,
        EventModel::Bound(true),
        EventModel::Delayed,
        EventModel::SpawnedOk,
        EventModel::Observed { manifest: true, segment: true, files: f },
    ]
}

/// Where one successful start lands: ready, exactly one process, the
/// server flag set, and only the new session's files in the workspace.
pub open spec fn started_model(s: SessionModel, u: Seq<char>, f: nat) -> SessionModel {
    SessionModel {
        phase: Phase::Ready,
        url: u,
        dir: s.dir,
        procs: 1,
        listeners: if s.server_started {
            s.listeners
        } else {
            s.listeners + 1
        },
        server_started: true,
        files: f,
        polls_used: 1,
        error: Seq::<char>::empty(),
    }
}

/// Closed form of one successful start: the outcome depends only on the
/// workspace directory and on whether the server flag was already set —
/// nothing else of the previous history survives.
pub proof fn lemma_start_run(s: SessionModel, u: Seq<char>, f: nat)
    ensures
        run_steps(s, start_events(u, f)) == started_model(s, u, f),
{
    reveal_with_fuel(run_steps, 11);
}

/// Running one sequence of events after another.
pub proof fn lemma_run_append(s: SessionModel, a: Seq<EventModel>, b: Seq<EventModel>)
    ensures
        run_steps(s, a + b) == run_steps(run_steps(s, a), b),
    decreases a.len(),
{
    if a.len() == 0 {
        assert(a + b =~= b);
    } else {
        assert((a + b)[0] == a[0]);
        assert((a + b).drop_first() =~= a.drop_first() + b);
        lemma_run_append(spec_step(s, a[0]).0, a.drop_first(), b);
    }
}

/// Round trip: start, stop, start again lands exactly where a single
/// start would have landed — no residual state from the first session.
pub proof fn lemma_round_trip(s: SessionModel, u: Seq<char>, f1: nat, f2: nat)
    ensures
        run_steps(s, start_events(u, f1) + stop_events() + start_events(u, f2)) == run_steps(
            s,
            start_events(u, f2),
        ),
{
    let a = start_events(u, f1);
    let b = stop_events();
    let c = start_events(u, f2);
    lemma_run_append(s, a + b, c);
    lemma_run_append(s, a, b);
    lemma_start_run(s, u, f1);
    let s1 = started_model(s, u, f1);
    lemma_stop_clears(s1);
    let s2 = SessionModel { phase: Phase::Idle, procs: 0, files: 0, ..s1 };
    lemma_start_run(s2, u, f2);
    lemma_start_run(s, u, f2);
    assert(started_model(s2, u, f2) == started_model(s, u, f2));
}

/// The supervisor.  Holds the model state in plain fields; the real
/// processes and files are handled by the caller of [`Session::step`].
pub struct Session {
    phase: Phase,
    url: String,
    dir: String,
    procs: u64,
    listeners: u64,
    server_started: bool,
    files: u64,
    polls_used: u64,
    error: String,
}

impl View for Session {
    type V = SessionModel;

    closed spec fn view(&self) -> SessionModel {
        SessionModel {
            phase: self.phase,
            url: self.url@,
            dir: self.dir@,
            procs: self.procs as nat,
            listeners: self.listeners as nat,
            server_started: self.server_started,
            files: self.files as nat,
            polls_used: self.polls_used as nat,
            error: self.error@,
        }
    }
}

impl Session {
    /// A fresh supervisor over the given workspace directory.
    pub fn new(dir: String) -> (s: Session)
        ensures
            s@ == init_model(dir@),
            session_wf(s@),
    {
        Session {
            phase: Phase::Idle,
            url: String::new(),
            dir,
            procs: 0,
            listeners: 0,
            server_started: false,
            files: 0,
            polls_used: 0,
            error: String::new(),
        }
    }

    /// Feed one event in; get the next action out.  Follows the transition
    /// function exactly.
    pub fn step(&mut self, ev: Event) -> (a: Action)
        requires
            session_wf(old(self)@),
        ensures
            final(self)@ == spec_step(old(self)@, ev@).0,
            a@ == spec_step(old(self)@, ev@).1,
            session_wf(final(self)@),
    {
        proof {
            lemma_step_wf(old(self)@, ev@);
        }
        match ev {
            Event::StartRequested(u) => {
                self.phase = Phase::StartKilling;
                self.url = u;
                self.polls_used = 0;
                self.error = String::new();
                Action::Kill
            },
            Event::StopRequested => {
                self.phase = Phase::StopKilling;
                Action::Kill
            },
            Event::Killed => match self.phase {
                Phase::StartKilling => {
                    self.procs = 0;
                    self.phase = Phase::StartSettling;
                    Action::Settle
                },
                Phase::StopKilling => {
                    self.procs = 0;
                    self.phase = Phase::StopSettling;
                    Action::Settle
                },
                _ => Action::Nothing,
            },
            Event::Settled => match self.phase {
                Phase::StartSettling => {
                    self.phase = Phase::StartPurging;
                    Action::Purge
                },
                Phase::StopSettling => {
                    self.phase = Phase::StopPurging;
                    Action::Purge
                },
                _ => Action::Nothing,
            },
            Event::Purged => match self.phase {
                Phase::StartPurging => {
                    self.files = 0;
                    self.phase = Phase::Preparing;
                    Action::Prepare
                },
                Phase::StopPurging => {
                    self.files = 0;
                    self.phase = Phase::Idle;
                    Action::Nothing
                },
                _ => Action::Nothing,
            },
            Event::Prepared => match self.phase {
                Phase::Preparing => {
                    self.files = 0;
                    if self.server_started {
                        self.phase = Phase::Delaying;
                        Action::Delay
                    } else {
                        self.server_started = true;
                        self.phase = Phase::Binding;
                        Action::Bind
                    }
                },
                _ => Action::Nothing,
            },
            Event::Bound(ok) => match self.phase {
                Phase::Binding => {
                    if ok {
                        self.listeners = self.listeners + 1;
                    }
                    self.phase = Phase::Delaying;
                    Action::Delay
                },
                _ => Action::Nothing,
            },
            Event::Delayed => match self.phase {
                Phase::Delaying => {
                    let seg = segment_pattern(self.dir.as_str());
                    let pl = playlist_path(self.dir.as_str());
                    let args = get_ffmpeg_args(self.url.as_str(), seg.as_str(), pl.as_str());
                    self.phase = Phase::SpawningPrimary;
                    Action::Spawn { fallback: false, args }
                },
                _ => Action::Nothing,
            },
            Event::SpawnedOk => match self.phase {
                Phase::SpawningPrimary | Phase::SpawningFallback => {
                    self.procs = 1;
                    self.polls_used = 0;
                    self.phase = Phase::Polling;
                    Action::Poll
                },
                _ => Action::Nothing,
            },
            Event::SpawnedErr(m) => match self.phase {
                Phase::SpawningPrimary => {
                    let seg = segment_pattern(self.dir.as_str());
                    let pl = playlist_path(self.dir.as_str());
                    let args = get_ffmpeg_args(self.url.as_str(), seg.as_str(), pl.as_str());
                    self.phase = Phase::SpawningFallback;
                    Action::Spawn { fallback: true, args }
                },
                Phase::SpawningFallback => {
                    let mut msg = String::from_str("FFmpeg not found: ");
                    msg.append(m.as_str());
                    msg.append(". Please install ffmpeg.");
                    self.phase = Phase::Failed;
                    self.error = msg.clone();
                    Action::Fail(msg)
                },
                _ => Action::Nothing,
            },
            Event::Observed { manifest, segment, files } => match self.phase {
                Phase::Polling => {
                    self.files = files;
                    self.polls_used = self.polls_used + 1;
                    if (manifest && segment) || self.polls_used >= MAX_POLL_ATTEMPTS {
                        self.phase = Phase::Ready;
                        Action::Deliver(playback_url())
                    } else {
                        Action::Poll
                    }
                },
                _ => Action::Nothing,
            },
        }
    }

    /// Whether the delivery server's initialize-once flag is set.
    pub fn is_server_started(&self) -> (r: bool)
        ensures
            r == self@.server_started,
    {
        self.server_started
    }

    /// Current lifecycle phase.
    pub fn phase(&self) -> (r: Phase)
        ensures
            r == self@.phase,
    {
        self.phase
    }

    /// Transcoding processes alive, as the model counts them.
    pub fn processes_alive(&self) -> (r: u64)
        ensures
            r as nat == self@.procs,
    {
        self.procs
    }

    /// Listeners the delivery server has bound.
    pub fn listeners_bound(&self) -> (r: u64)
        ensures
            r as nat == self@.listeners,
    {
        self.listeners
    }

    /// Files directly inside the workspace, as last reported.
    pub fn workspace_files(&self) -> (r: u64)
        ensures
            r as nat == self@.files,
    {
        self.files
    }

    /// Readiness polls spent on the current session.
    pub fn polls_used(&self) -> (r: u64)
        ensures
            r as nat == self@.polls_used,
    {
        self.polls_used
    }

    /// Source URL of the current or pending session.
    pub fn source_url(&self) -> (r: &str)
        ensures
            r@ == self@.url,
    {
        self.url.as_str()
    }

    /// Message of the last start failure.
    pub fn error_message(&self) -> (r: String)
        ensures
            r@ == self@.error,
    {
        self.error.clone()
    }
}

} // verus!
