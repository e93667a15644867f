//! Decisions of the connection engine: which device to open, when a silent
//! board counts as lost, when the virtual controller is cleared or fed, and
//! what the user is told. [`EngineState::step`] takes each event of the
//! connection loop and answers with what to do; stance capture and weight
//! zeroing within it are decided in [`crate::tare`] and [`crate::zero`].
//!
//! The loop itself performs the I/O (opening boards, polling, driving the
//! virtual controller) and the floating-point sums.
use vstd::prelude::*;
use std::sync::atomic::{AtomicBool, Ordering};
use crate::tare::{
    has_loaded_run, lemma_trailing_all_loaded, spec_tare_step, trailing_loaded, all_loaded, Tare, TareStep,
    TARE_SAMPLES,
};
use crate::zero::{spec_zero_step, WeightZero, ZeroState, ZeroStep};

verus! {

/// Settings applied when starting a connection.
#[derive(Clone, Copy, Debug, Default, PartialEq, Eq, Structural)]
pub struct Config {
    /// Create a game controller. Monitoring alone needs no output driver.
    pub gamepad: bool,
    /// Skip stance centering.
    pub no_tare: bool,
    /// Disable smoothing.
    pub no_smooth: bool,
    /// Ignore the per-device calibration cache.
    pub no_cache: bool,
}

/// Thread-safe controls; callers request actions without touching hardware.
#[derive(Default)]
pub struct Control {
    stop: AtomicBool,
    center: AtomicBool,
}

impl Control {
    /// Requests that the engine stop and release the board and controller.
    pub fn stop(&self) {
        self.stop.store(true, Ordering::Relaxed);
    }

    /// Requests a new centered-stance capture without restarting.
    pub fn center(&self) {
        self.center.store(true, Ordering::Relaxed);
    }

    /// Whether a stop has been requested. The answer is the flag's value at
    /// the moment of the load, which any thread holding this control may set,
    /// so no clause ties it to earlier calls.
    pub fn stopped(&self) -> bool {
        self.stop.load(Ordering::Relaxed)
    }

    /// Whether a recentering was requested since the last call; clears the
    /// request. Like [`Control::stopped`], the answer is the flag's value at
    /// the moment of the swap, which other threads may change at any time.
    pub fn take_center_request(&self) -> bool {
        self.center.swap(false, Ordering::Relaxed)
    }
}

/// Connection stage displayed by the application.
#[derive(Clone, Copy, Debug, PartialEq, Eq, Structural)]
pub enum Phase {
    /// Discovering a board or waiting for it to reconnect.
    Waiting,
    /// Measuring a loaded, centered stance.
    Centering,
    /// Sensor data is available and any requested game output is active.
    Live,
    /// The connection loop has exited.
    Stopped,
}

/// Which board to ask for next, across reconnections.
pub struct Session {
    identity: Option<String>,
    no_cache: bool,
}

impl View for Session {
    type V = (Option<Seq<char>>, bool);

    /// The identity of the board opened last, if any, and whether the
    /// calibration cache is to be ignored.
    closed spec fn view(&self) -> (Option<Seq<char>>, bool) {
        (
            match self.identity {
                Some(s) => Some(s@),
                None => None,
            },
            self.no_cache,
        )
    }
}

impl Session {
    /// A session that has not opened a board yet.
    pub fn new(config: Config) -> (res: Self)
        ensures
            res@ == (None::<Seq<char>>, config.no_cache),
    {
        Session { identity: None, no_cache: config.no_cache }
    }

    /// What to ask the backend for: the board opened before (any board when
    /// none was), and whether to read calibration fresh from the board
    /// rather than from the cache. A reconnection always reads it fresh.
    pub fn open_request(&self) -> (res: (Option<String>, bool))
        ensures
            (match res.0 {
                Some(s) => Some(s@),
                None => None,
            }, res.1) == spec_open_request(self@),
    {
        let fresh = self.no_cache || self.identity.is_some();
        (self.identity.clone(), fresh)
    }

    /// Records the identity of the board just opened.
    pub fn opened(&mut self, identity: String)
        ensures
            final(self)@ == spec_opened(old(self)@, identity@),
    {
        self.identity = Some(identity);
    }
}

/// The request made in a session: the identity recorded, if any, and
/// whether calibration is read fresh.
pub open spec fn spec_open_request(s: (Option<Seq<char>>, bool)) -> (Option<Seq<char>>, bool) {
    (s.0, s.1 || s.0 is Some)
}

/// A session after a board with `id` was opened.
pub open spec fn spec_opened(s: (Option<Seq<char>>, bool), id: Seq<char>) -> (Option<Seq<char>>, bool) {
    (Some(id), s.1)
}

/// Once a board has been opened, the next request asks for that same board
/// and reads its calibration fresh, whatever the settings; opening it again
/// keeps asking for it.
pub proof fn lemma_reconnects_to_same_board(s: (Option<Seq<char>>, bool), id: Seq<char>)
    ensures
        spec_open_request(spec_opened(s, id)) == (Some(id), true),
        spec_open_request(spec_opened(spec_opened(s, id), id)) == (Some(id), true),
{
}

/// How long a connected board may send nothing before it counts as lost:
/// three seconds, in nanoseconds.
pub const SILENCE_LIMIT_NS: u64 = 3_000_000_000;

/// What one poll of the board produced.
#[derive(Clone, Copy, Debug, PartialEq, Eq, Structural)]
pub enum PollOutcome {
    /// A new sample.
    Sample,
    /// Nothing new yet.
    Nothing,
    /// The transport failed.
    Failed,
}

/// What the engine does after a poll.
#[derive(Clone, Copy, Debug, PartialEq, Eq, Structural)]
pub enum PollAction {
    /// Process the new sample.
    Process,
    /// Poll again.
    Wait,
    /// Treat the board as lost: clear the controller, report, reconnect.
    /// `timed_out` tells a silent board from a transport failure.
    Disconnect { timed_out: bool },
}

/// A silent board is lost once three seconds have passed since its last
/// sample; a transport failure loses it at once.
pub open spec fn spec_poll_action(outcome: PollOutcome, since_last_sample_ns: u64) -> PollAction {
    match outcome {
        PollOutcome::Sample => PollAction::Process,
        PollOutcome::Nothing => if since_last_sample_ns < SILENCE_LIMIT_NS {
            PollAction::Wait
        } else {
            PollAction::Disconnect { timed_out: true }
        },
        PollOutcome::Failed => PollAction::Disconnect { timed_out: false },
    }
}

/// Decides what to do after a poll, given the time since the last sample.
pub fn poll_action(outcome: PollOutcome, since_last_sample_ns: u64) -> (res: PollAction)
    ensures
        res == spec_poll_action(outcome, since_last_sample_ns),
{
    match outcome {
        PollOutcome::Sample => PollAction::Process,
        PollOutcome::Nothing => if since_last_sample_ns < SILENCE_LIMIT_NS {
            PollAction::Wait
        } else {
            PollAction::Disconnect { timed_out: true }
        },
        PollOutcome::Failed => PollAction::Disconnect { timed_out: false },
    }
}

/// The message shown while looking for a board.
pub open spec fn looking_text() -> Seq<char> {
    "Looking for your board. Press Power if it is already paired. Retrying automatically; Ctrl+C to stop."@
}

/// The message shown when a silent board is given up.
pub open spec fn silent_text() -> Seq<char> {
    "No sensor data. Wake the board with Power; reconnecting."@
}

/// The message shown when the engine has stopped.
pub open spec fn stopped_text() -> Seq<char> {
    "Disconnected"@
}

/// The phase and message shown for a processed sample: live once stance
/// capture is complete (noting an unloaded board), centering before.
pub open spec fn spec_sample_status(ready: bool, loaded: bool) -> (Phase, Seq<char>) {
    if ready && !loaded {
        (Phase::Live, "Connected — board unloaded."@)
    } else if ready {
        (Phase::Live, "Connected — live readings."@)
    } else {
        (Phase::Centering, "Stand comfortably centered while your stance is measured."@)
    }
}

/// The message shown while looking for a board.
pub fn looking_message() -> (res: String)
    ensures
        res@ == looking_text(),
{
    let mut s = String::new();
    s.append("Looking for your board. Press Power if it is already paired. Retrying automatically; Ctrl+C to stop.");
    s
}

/// The message shown when a silent board is given up.
pub fn silent_message() -> (res: String)
    ensures
        res@ == silent_text(),
{
    let mut s = String::new();
    s.append("No sensor data. Wake the board with Power; reconnecting.");
    s
}

/// The message shown when the engine has stopped.
pub fn stopped_message() -> (res: String)
    ensures
        res@ == stopped_text(),
{
    let mut s = String::new();
    s.append("Disconnected");
    s
}

/// The phase and message for a processed sample.
pub fn sample_status(ready: bool, loaded: bool) -> (res: (Phase, String))
    ensures
        (res.0, res.1@) == spec_sample_status(ready, loaded),
{
    let mut s = String::new();
    if ready && !loaded {
        s.append("Connected — board unloaded.");
        (Phase::Live, s)
    } else if ready {
        s.append("Connected — live readings.");
        (Phase::Live, s)
    } else {
        s.append("Stand comfortably centered while your stance is measured.");
        (Phase::Centering, s)
    }
}


/// The message shown when a new weight baseline has been taken.
pub open spec fn zeroed_text() -> Seq<char> {
    "Weight zeroed"@
}

/// The message shown when a new weight baseline has been taken.
pub fn zeroed_message() -> (res: String)
    ensures
        res@ == zeroed_text(),
{
    let mut s = String::new();
    s.append("Weight zeroed");
    s
}

/// What happened, as the connection loop reports it to the engine.
#[derive(Debug)]
pub enum EngineEvent {
    /// The engine starts looking for a board.
    Started,
    /// Opening a board failed.
    OpenFailed,
    /// A board was opened; it reports this identity.
    Opened { identity: String },
    /// The user asked for a new centered stance.
    CenterRequested,
    /// A poll of the board finished, this long after the last sample.
    Polled { outcome: PollOutcome, since_last_sample_ns: u64 },
    /// A sample arrived: the front button's state, and the time in
    /// nanoseconds on a clock that never goes back.
    Sample { button: bool, now_ns: u64 },
    /// The sample, corrected by the weight baseline, was weighed: whether it
    /// holds enough weight for a center of gravity.
    Weighed { loaded: bool },
    /// A stop was requested.
    Stopping,
    /// Sending to or clearing the virtual controller failed.
    OutputFailed,
}

/// An event, with the identity as characters.
pub enum EventView {
    Started,
    OpenFailed,
    Opened { identity: Seq<char> },
    CenterRequested,
    Polled { outcome: PollOutcome, since_last_sample_ns: u64 },
    Sample { button: bool, now_ns: u64 },
    Weighed { loaded: bool },
    Stopping,
    OutputFailed,
}

impl View for EngineEvent {
    type V = EventView;

    open spec fn view(&self) -> EventView {
        match self {
            EngineEvent::Started => EventView::Started,
            EngineEvent::OpenFailed => EventView::OpenFailed,
            EngineEvent::Opened { identity } => EventView::Opened { identity: identity@ },
            EngineEvent::CenterRequested => EventView::CenterRequested,
            EngineEvent::Polled { outcome, since_last_sample_ns } => EventView::Polled {
                outcome: *outcome,
                since_last_sample_ns: *since_last_sample_ns,
            },
            EngineEvent::Sample { button, now_ns } => EventView::Sample { button: *button, now_ns: *now_ns },
            EngineEvent::Weighed { loaded } => EventView::Weighed { loaded: *loaded },
            EngineEvent::Stopping => EventView::Stopping,
            EngineEvent::OutputFailed => EventView::OutputFailed,
        }
    }
}

/// What the user is told after an event.
#[derive(Debug)]
pub enum Notice {
    /// Nothing new.
    Quiet,
    /// This phase and message.
    Show(Phase, String),
    /// The waiting phase, with the failure's own description.
    Failure,
}

/// A notice, with the message as characters.
pub enum NoticeView {
    Quiet,
    Show(Phase, Seq<char>),
    Failure,
}

impl View for Notice {
    type V = NoticeView;

    open spec fn view(&self) -> NoticeView {
        match self {
            Notice::Quiet => NoticeView::Quiet,
            Notice::Show(phase, message) => NoticeView::Show(*phase, message@),
            Notice::Failure => NoticeView::Failure,
        }
    }
}

/// What the connection loop does after an event.
#[derive(Debug)]
pub struct EngineActions {
    /// Return the virtual controller to neutral.
    pub neutralize: bool,
    /// Start the lean smoothing afresh.
    pub reset_filter: bool,
    /// Stance capture starts over: discard its running sums.
    pub restart_stance: bool,
    /// Send the processed sample to the virtual controller.
    pub send: bool,
    /// Give up the board (or the attempt) and, unless stopped, wait and open again.
    pub reconnect: bool,
    /// Leave the loop.
    pub finish: bool,
    /// The stance-capture step the sample took, for the running sums.
    pub tare: Option<TareStep>,
    /// The zeroing step the sample took, for the running sums.
    pub zero: Option<ZeroStep>,
    /// What the user is told.
    pub notice: Notice,
}

/// The actions, with the notice by its view.
pub struct ActionsView {
    pub neutralize: bool,
    pub reset_filter: bool,
    pub restart_stance: bool,
    pub send: bool,
    pub reconnect: bool,
    pub finish: bool,
    pub tare: Option<TareStep>,
    pub zero: Option<ZeroStep>,
    pub notice: NoticeView,
}

impl View for EngineActions {
    type V = ActionsView;

    open spec fn view(&self) -> ActionsView {
        ActionsView {
            neutralize: self.neutralize,
            reset_filter: self.reset_filter,
            restart_stance: self.restart_stance,
            send: self.send,
            reconnect: self.reconnect,
            finish: self.finish,
            tare: self.tare,
            zero: self.zero,
            notice: self.notice@,
        }
    }
}

/// The engine's state: the session, stance capture and weight zeroing.
pub struct EngineView {
    pub session: (Option<Seq<char>>, bool),
    /// Loaded samples still needed for the stance.
    pub tare: nat,
    pub zero: ZeroState,
}

/// No baseline capture in progress, button up.
pub open spec fn idle_zero() -> ZeroState {
    ZeroState { pending: false, held: false, released: None, count: 0 }
}

/// Stance capture as configured: a full set of samples, or none.
pub open spec fn configured_tare(config: Config) -> nat {
    if config.no_tare { 0 } else { TARE_SAMPLES as nat }
}

/// Doing nothing and saying nothing.
pub open spec fn no_action() -> ActionsView {
    ActionsView {
        neutralize: false,
        reset_filter: false,
        restart_stance: false,
        send: false,
        reconnect: false,
        finish: false,
        tare: None,
        zero: None,
        notice: NoticeView::Quiet,
    }
}

/// The engine's state before anything has happened.
pub open spec fn spec_engine_start(config: Config) -> EngineView {
    EngineView {
        session: (None::<Seq<char>>, config.no_cache),
        tare: configured_tare(config),
        zero: idle_zero(),
    }
}

/// One event: the engine's next state and what the loop does.
///
/// - Loss of the board (a failed poll or three silent seconds), a center
///   request, a stop and an output failure all return the controller to
///   neutral.
/// - A sample is sent only once the stance is known and no weight baseline
///   is being taken.
/// - A new baseline in controller mode, with stance capture on, measures the
///   stance again.
pub open spec fn spec_engine_step(st: EngineView, config: Config, ev: EventView) -> (EngineView, ActionsView) {
    match ev {
        EventView::Started => (st, ActionsView { notice: NoticeView::Show(Phase::Waiting, looking_text()), ..no_action() }),
        EventView::OpenFailed => (st, ActionsView { reconnect: true, notice: NoticeView::Failure, ..no_action() }),
        EventView::Opened { identity } => (
            EngineView { session: spec_opened(st.session, identity), tare: configured_tare(config), zero: idle_zero() },
            ActionsView { reset_filter: true, restart_stance: true, ..no_action() },
        ),
        EventView::CenterRequested => (
            EngineView { tare: TARE_SAMPLES as nat, ..st },
            ActionsView { neutralize: true, reset_filter: true, restart_stance: true, ..no_action() },
        ),
        EventView::Polled { outcome, since_last_sample_ns } => match spec_poll_action(outcome, since_last_sample_ns) {
            PollAction::Disconnect { timed_out } => (st, ActionsView {
                neutralize: true,
                reconnect: true,
                notice: if timed_out { NoticeView::Show(Phase::Waiting, silent_text()) } else { NoticeView::Failure },
                ..no_action()
            }),
            _ => (st, no_action()),
        },
        EventView::Sample { button, now_ns } => {
            let (zero, step) = spec_zero_step(st.zero, button, now_ns);
            let recenter = step.complete && config.gamepad && !config.no_tare;
            (
                EngineView { zero, tare: if recenter { TARE_SAMPLES as nat } else { st.tare }, ..st },
                ActionsView {
                    zero: Some(step),
                    restart_stance: recenter,
                    notice: if step.complete { NoticeView::Show(Phase::Centering, zeroed_text()) } else { NoticeView::Quiet },
                    ..no_action()
                },
            )
        },
        EventView::Weighed { loaded } => {
            let (step, remaining) = spec_tare_step(st.tare, loaded);
            let ready = remaining == 0 && !st.zero.pending;
            (
                EngineView { tare: remaining, ..st },
                ActionsView {
                    tare: Some(step),
                    send: ready,
                    reset_filter: ready && st.tare > 0,
                    notice: NoticeView::Show(spec_sample_status(ready, loaded).0, spec_sample_status(ready, loaded).1),
                    ..no_action()
                },
            )
        },
        EventView::Stopping | EventView::OutputFailed => (st, ActionsView {
            neutralize: true,
            finish: true,
            notice: NoticeView::Show(Phase::Stopped, stopped_text()),
            ..no_action()
        }),
    }
}

/// The decisions of the connection loop, across connections.
pub struct EngineState {
    session: Session,
    tare: Tare,
    zero: WeightZero,
}

impl View for EngineState {
    type V = EngineView;

    closed spec fn view(&self) -> EngineView {
        EngineView { session: self.session@, tare: self.tare@, zero: self.zero@ }
    }
}

impl EngineState {
    /// Stance capture never needs more than a full set of samples.
    pub open spec fn wf(&self) -> bool {
        self@.tare <= TARE_SAMPLES
    }

    /// The engine before anything has happened.
    pub fn new(config: Config) -> (res: Self)
        ensures
            res@ == spec_engine_start(config),
            res.wf(),
    {
        EngineState { session: Session::new(config), tare: Tare::new(!config.no_tare), zero: WeightZero::new() }
    }

    /// Which board to open next, and whether to read its calibration fresh.
    pub fn open_request(&self) -> (res: (Option<String>, bool))
        ensures
            (match res.0 {
                Some(s) => Some(s@),
                None => None,
            }, res.1) == spec_open_request(self@.session),
    {
        self.session.open_request()
    }

    /// Samples in the weight baseline being taken.
    pub fn zero_count(&self) -> (res: usize)
        ensures
            res == self@.zero.count,
    {
        self.zero.count()
    }

    /// Takes one event and says what the loop does next.
    pub fn step(&mut self, config: Config, ev: EngineEvent) -> (res: EngineActions)
        requires
            old(self).wf(),
        ensures
            final(self).wf(),
            (final(self)@, res@) == spec_engine_step(old(self)@, config, ev@),
    {
        let quiet = EngineActions {
            neutralize: false,
            reset_filter: false,
            restart_stance: false,
            send: false,
            reconnect: false,
            finish: false,
            tare: None,
            zero: None,
            notice: Notice::Quiet,
        };
        match ev {
            EngineEvent::Started => EngineActions { notice: Notice::Show(Phase::Waiting, looking_message()), ..quiet },
            EngineEvent::OpenFailed => EngineActions { reconnect: true, notice: Notice::Failure, ..quiet },
            EngineEvent::Opened { identity } => {
                self.session.opened(identity);
                self.tare = Tare::new(!config.no_tare);
                self.zero = WeightZero::new();
                EngineActions { reset_filter: true, restart_stance: true, ..quiet }
            },
            EngineEvent::CenterRequested => {
                self.tare = Tare::new(true);
                EngineActions { neutralize: true, reset_filter: true, restart_stance: true, ..quiet }
            },
            EngineEvent::Polled { outcome, since_last_sample_ns } => match poll_action(outcome, since_last_sample_ns) {
                PollAction::Disconnect { timed_out } => EngineActions {
                    neutralize: true,
                    reconnect: true,
                    notice: if timed_out { Notice::Show(Phase::Waiting, silent_message()) } else { Notice::Failure },
                    ..quiet
                },
                _ => quiet,
            },
            EngineEvent::Sample { button, now_ns } => {
                let step = self.zero.observe(button, now_ns);
                let recenter = step.complete && config.gamepad && !config.no_tare;
                if recenter {
                    self.tare = Tare::new(true);
                }
                let notice = if step.complete { Notice::Show(Phase::Centering, zeroed_message()) } else { Notice::Quiet };
                EngineActions { zero: Some(step), restart_stance: recenter, notice, ..quiet }
            },
            EngineEvent::Weighed { loaded } => {
                let was_centering = !self.tare.is_ready();
                let step = self.tare.observe(loaded);
                let ready = self.tare.is_ready() && !self.zero.pending();
                let (phase, message) = sample_status(ready, loaded);
                EngineActions {
                    tare: Some(step),
                    send: ready,
                    reset_filter: ready && was_centering,
                    notice: Notice::Show(phase, message),
                    ..quiet
                }
            },
            EngineEvent::Stopping | EngineEvent::OutputFailed => EngineActions {
                neutralize: true,
                finish: true,
                notice: Notice::Show(Phase::Stopped, stopped_message()),
                ..quiet
            },
        }
    }
}

/// What each event promises on its own: a sample reaches the controller only
/// once the stance is known and while no weight baseline is being taken;
/// losing the board, a center request, a stop and an output failure clear
/// the controller; a stop or an output failure ends the loop; a center
/// request sends nothing and measures the stance again; a new baseline in
/// controller mode with stance capture on measures the stance again too.
pub proof fn lemma_engine_step_promises(st: EngineView, config: Config, ev: EventView)
    ensures
        ({
            let (next, act) = spec_engine_step(st, config, ev);
            &&& act.send ==> ev is Weighed && next.tare == 0 && !next.zero.pending
            &&& (ev is Polled && act.reconnect) ==> act.neutralize
            &&& (ev is Stopping || ev is OutputFailed) ==> act.neutralize && act.finish && !act.send
                && act.notice == NoticeView::Show(Phase::Stopped, stopped_text())
            &&& ev is CenterRequested ==> act.neutralize && act.restart_stance && !act.send && next.tare == TARE_SAMPLES
            &&& act.restart_stance ==> next.tare == TARE_SAMPLES || (ev is Opened && config.no_tare)
            &&& (ev is Sample && act.zero is Some && act.zero->0.complete && config.gamepad && !config.no_tare)
                ==> next.tare == TARE_SAMPLES
            &&& (ev is Sample && next.zero.pending) ==> !act.send
        }),
{
}

/// The engine's state after a run of events.
pub open spec fn run_events(st: EngineView, config: Config, evs: Seq<EventView>) -> EngineView
    decreases evs.len(),
{
    if evs.len() == 0 {
        st
    } else {
        spec_engine_step(run_events(st, config, evs.drop_last()), config, evs.last()).0
    }
}

/// Whether each weighed sample in a run of events was loaded, in order.
pub open spec fn weighings(evs: Seq<EventView>) -> Seq<bool>
    decreases evs.len(),
{
    if evs.len() == 0 {
        Seq::empty()
    } else {
        match evs.last() {
            EventView::Weighed { loaded } => weighings(evs.drop_last()).push(loaded),
            _ => weighings(evs.drop_last()),
        }
    }
}

/// No board is opened in the run, or every opening measures the stance.
pub open spec fn keeps_capture(config: Config, evs: Seq<EventView>) -> bool {
    !config.no_tare || forall|i: int| 0 <= i < evs.len() ==> !(#[trigger] evs[i] is Opened)
}

/// Through a run that starts with a center request: the stance is known only
/// after a full set of loaded samples in a row, and until then the samples
/// still needed and the loaded samples at the end make up at least a full set.
proof fn lemma_capture_after_center(st: EngineView, config: Config, evs: Seq<EventView>)
    requires
        st.tare <= TARE_SAMPLES,
        evs.len() > 0,
        evs[0] is CenterRequested,
        keeps_capture(config, evs),
    ensures
        ({
            let s = run_events(st, config, evs);
            let w = weighings(evs);
            &&& s.tare <= TARE_SAMPLES
            &&& s.tare == 0 ==> has_loaded_run(w, TARE_SAMPLES as nat)
            &&& s.tare > 0 ==> s.tare + trailing_loaded(w) >= TARE_SAMPLES
        }),
    decreases evs.len(),
{
    let n = TARE_SAMPLES as nat;
    if evs.len() == 1 {
        assert(evs.drop_last().len() == 0);
        assert(weighings(evs.drop_last()) =~= Seq::<bool>::empty());
    } else {
        let prev = evs.drop_last();
        assert(prev[0] == evs[0]);
        assert(keeps_capture(config, prev)) by {
            if config.no_tare {
                assert forall|i: int| 0 <= i < prev.len() implies !(#[trigger] prev[i] is Opened) by {
                    assert(prev[i] == evs[i]);
                }
            }
        }
        lemma_capture_after_center(st, config, prev);
        let s0 = run_events(st, config, prev);
        let w0 = weighings(prev);
        let ev = evs.last();
        let s = run_events(st, config, evs);
        let w = weighings(evs);
        if config.no_tare {
            assert(!(evs[evs.len() - 1] is Opened));
        }
        match ev {
            EventView::Weighed { loaded } => {
                assert(w == w0.push(loaded));
                lemma_trailing_all_loaded(w);
                if s0.tare == 0 {
                    let i = choose|i: int| 0 <= i && i + n <= w0.len() && #[trigger] all_loaded(w0, i, i + n);
                    assert forall|k: int| i <= k < i + n implies #[trigger] w[k] by {
                        assert(w0[k] == w[k]);
                    }
                    assert(all_loaded(w, i, i + n));
                } else if loaded {
                    assert(w.drop_last() =~= w0);
                    assert(trailing_loaded(w) == trailing_loaded(w0) + 1);
                    if s.tare == 0 {
                        let i = w.len() - n;
                        assert forall|k: int| i <= k < i + n implies #[trigger] w[k] by {}
                        assert(all_loaded(w, i, i + n));
                    }
                }
            },
            _ => {
                assert(w == w0);
            },
        }
    }
}

/// After a center request, no sample reaches the controller until a full
/// set of loaded samples has been weighed in a row, whatever else happens in
/// between, as long as no board is opened without stance capture.
pub proof fn lemma_center_waits_for_stance(st: EngineView, config: Config, evs: Seq<EventView>)
    requires
        st.tare <= TARE_SAMPLES,
        evs.len() > 1,
        evs[0] is CenterRequested,
        keeps_capture(config, evs),
        spec_engine_step(run_events(st, config, evs.drop_last()), config, evs.last()).1.send,
    ensures
        has_loaded_run(weighings(evs), TARE_SAMPLES as nat),
{
    lemma_capture_after_center(st, config, evs);
}

/// What the engine answers to event `i` of a run, in the state the events
/// before it left.
pub open spec fn answer_at(st: EngineView, config: Config, evs: Seq<EventView>, i: int) -> ActionsView {
    spec_engine_step(run_events(st, config, evs.subrange(0, i)), config, evs[i]).1
}

/// A whole run of the connection loop, from its start to a stop or an
/// output failure:
/// - the first thing shown is the waiting phase, looking for the board;
/// - only a stop or an output failure ends the loop;
/// - the last answer clears the controller, sends nothing and shows the
///   stopped phase with "Disconnected", so every send comes before that
///   last clearing;
/// - a failed open or a failed poll never ends the run: it is shown as a
///   waiting notice with the failure's own text, and the loop opens again;
///   a failed open clears nothing, as nothing was connected.
pub proof fn lemma_run_shape(st: EngineView, config: Config, evs: Seq<EventView>)
    requires
        evs.len() >= 2,
        evs[0] is Started,
        evs.last() is Stopping || evs.last() is OutputFailed,
    ensures
        answer_at(st, config, evs, 0).notice == NoticeView::Show(Phase::Waiting, looking_text()),
        ({
            let last = answer_at(st, config, evs, evs.len() - 1);
            &&& last.neutralize
            &&& last.finish
            &&& !last.send
            &&& last.notice == NoticeView::Show(Phase::Stopped, stopped_text())
        }),
        forall|i: int| 0 <= i < evs.len() ==> (#[trigger] answer_at(st, config, evs, i).finish
            <==> (evs[i] is Stopping || evs[i] is OutputFailed)),
        forall|i: int| 0 <= i < evs.len() && #[trigger] answer_at(st, config, evs, i).send ==> evs[i] is Weighed,
        forall|i: int| 0 <= i < evs.len() && (evs[i] is OpenFailed || evs[i] matches EventView::Polled {
            outcome: PollOutcome::Failed,
            ..
        }) ==> {
            let a = #[trigger] answer_at(st, config, evs, i);
            &&& a.notice == NoticeView::Failure
            &&& a.reconnect
            &&& !a.finish
            &&& !a.send
            &&& (evs[i] is OpenFailed ==> !a.neutralize)
        },
{
    assert forall|i: int| 0 <= i < evs.len() implies (#[trigger] answer_at(st, config, evs, i).finish
        <==> (evs[i] is Stopping || evs[i] is OutputFailed)) by {
        lemma_engine_step_promises(run_events(st, config, evs.subrange(0, i)), config, evs[i]);
    }
    assert forall|i: int| 0 <= i < evs.len() && #[trigger] answer_at(st, config, evs, i).send implies evs[i] is Weighed by {
        lemma_engine_step_promises(run_events(st, config, evs.subrange(0, i)), config, evs[i]);
    }
    assert(evs[evs.len() - 1] == evs.last());
}

/// What the controller and stance capture get from each event, in terms of
/// the event and the state before it:
/// - a sample is sent exactly when it is weighed with the stance known and
///   no weight baseline pending, loaded or not (an unloaded board sends its
///   neutral frame, so the controller never sticks at the last lean);
/// - once the stance is known, weighing keeps it known;
/// - before that, a loaded sample brings it one sample closer and an
///   unloaded one starts the count over;
/// - opening a board, whatever came before, remembers that board, starts
///   stance capture afresh (a full set of samples, none without capture)
///   and an idle weight baseline, and discards the stance sums.
pub proof fn lemma_engine_step_answers(st: EngineView, config: Config, ev: EventView)
    ensures
        ({
            let (next, act) = spec_engine_step(st, config, ev);
            &&& act.send <==> (ev is Weighed && next.tare == 0 && !next.zero.pending)
            &&& (ev is Weighed && st.tare == 0 && !st.zero.pending) ==> act.send && next.tare == 0
            &&& ev matches EventView::Weighed { loaded } ==> (st.tare > 0 ==> next.tare == (if loaded {
                st.tare - 1
            } else {
                TARE_SAMPLES as int
            }))
            &&& ev is Weighed ==> next.zero == st.zero && next.session == st.session
            &&& ev matches EventView::Opened { identity } ==> {
                &&& next.tare == (if config.no_tare { 0 } else { TARE_SAMPLES as int })
                &&& act.restart_stance
                &&& act.reset_filter
                &&& !act.send
                &&& next.session == (Some(identity), st.session.1)
                &&& !next.zero.pending
                &&& !next.zero.held
                &&& next.zero.count == 0
            }
        }),
{
}

/// When a board counts as lost: a failed poll at once; a poll with nothing
/// new only once three seconds (3 000 000 000 ns) have passed since the last
/// sample, and it is then a timeout; a new sample is always processed.
/// A center request asks for a hundred loaded samples; the phase shown for
/// a weighed sample is live exactly when it was sent.
pub proof fn lemma_loss_and_status(since_ns: u64, ready: bool, loaded: bool)
    ensures
        spec_poll_action(PollOutcome::Sample, since_ns) == PollAction::Process,
        spec_poll_action(PollOutcome::Failed, since_ns) == (PollAction::Disconnect { timed_out: false }),
        since_ns < 3_000_000_000 ==> spec_poll_action(PollOutcome::Nothing, since_ns) == PollAction::Wait,
        since_ns >= 3_000_000_000 ==> spec_poll_action(PollOutcome::Nothing, since_ns)
            == (PollAction::Disconnect { timed_out: true }),
        TARE_SAMPLES == 100,
        (spec_sample_status(ready, loaded).0 == Phase::Live) == ready,
        !ready ==> spec_sample_status(ready, loaded).0 == Phase::Centering,
{
}

} // verus!
