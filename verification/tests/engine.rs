use balance_board::linux::{has_board_axes, is_board_vendor, BOARD_AXIS_CODES};
use balance_board::cache_key::{cache_dir_name, fnv1a_hash, format_hex16};
use balance_board::cli::{menu_choice, parse_args, ArgError, Invocation, MenuChoice};
use balance_board::engine::{
    looking_message, poll_action, sample_status, silent_message, stopped_message, EngineEvent,
    EngineState, Notice, PollAction, PollOutcome, Session,
};
use balance_board::linux::{
    identity_accepted, input_identity, is_board_device_name, is_event_node, open_failure,
    LinuxOpenFailure,
};
use balance_board::tare::{Tare, TareStep, TARE_SAMPLES};
use balance_board::zero::WeightZero;
use balance_board::{Config, Control, Phase, VJoyAxis};

#[test]
fn reconnect_asks_for_the_same_board_with_fresh_calibration() {
    let mut session = Session::new(Config::default());
    assert_eq!(session.open_request(), (None, false));
    session.opened("same-board".to_string());
    assert_eq!(session.open_request(), (Some("same-board".to_string()), true));

    let cached = Session::new(Config { no_cache: true, ..Config::default() });
    assert_eq!(cached.open_request(), (None, true));
}

#[test]
fn silent_board_is_lost_after_three_seconds() {
    assert_eq!(poll_action(PollOutcome::Sample, 10_000_000_000), PollAction::Process);
    assert_eq!(poll_action(PollOutcome::Nothing, 2_999_999_999), PollAction::Wait);
    assert_eq!(
        poll_action(PollOutcome::Nothing, 3_000_000_000),
        PollAction::Disconnect { timed_out: true }
    );
    assert_eq!(poll_action(PollOutcome::Failed, 0), PollAction::Disconnect { timed_out: false });
}

#[test]
fn status_texts() {
    assert_eq!(sample_status(true, false), (Phase::Live, "Connected — board unloaded.".to_string()));
    assert_eq!(sample_status(true, true), (Phase::Live, "Connected — live readings.".to_string()));
    assert_eq!(sample_status(false, true).0, Phase::Centering);
    assert!(looking_message().starts_with("Looking for your board."));
    assert_eq!(silent_message(), "No sensor data. Wake the board with Power; reconnecting.");
    assert_eq!(stopped_message(), "Disconnected");
}

#[test]
fn control_requests() {
    let control = Control::default();
    assert!(!control.stopped());
    assert!(!control.take_center_request());
    control.center();
    assert!(control.take_center_request());
    assert!(!control.take_center_request());
    control.stop();
    assert!(control.stopped());
}

#[test]
fn stepping_off_resets_partial_tare() {
    let mut tare = Tare::new(true);
    let cog_x = 1.0f32 / 3.0;
    let mut sum = 0.0f32;
    let mut offset = None;
    let mut observe = |tare: &mut Tare, loaded: bool, sum: &mut f32| -> bool {
        match tare.observe(loaded) {
            TareStep::Ready => {}
            TareStep::Accumulate => *sum += cog_x,
            TareStep::Complete => {
                *sum += cog_x;
                offset = Some(*sum / TARE_SAMPLES as f32);
            }
            TareStep::Restart => *sum = 0.0,
        }
        tare.is_ready()
    };
    for _ in 0..50 {
        assert!(!observe(&mut tare, true, &mut sum));
    }
    assert!(!observe(&mut tare, false, &mut sum));
    for _ in 0..99 {
        assert!(!observe(&mut tare, true, &mut sum));
    }
    assert!(observe(&mut tare, true, &mut sum));
    assert!((offset.unwrap() - 1.0 / 3.0).abs() < 1e-5);
}

#[test]
fn disabled_tare_is_ready_at_once() {
    let mut tare = Tare::new(false);
    assert!(tare.is_ready());
    assert_eq!(tare.observe(false), TareStep::Ready);
    assert!(tare.is_ready());
}

/// Mirrors how the weights are corrected with the zeroing decisions.
struct Zeroed {
    zero: WeightZero,
    sum: f32,
    offset: f32,
}

impl Zeroed {
    fn observe(&mut self, kg: f32, button: bool, now_ns: u64) -> (f32, bool) {
        let step = self.zero.observe(button, now_ns);
        if step.restart {
            self.sum = 0.0;
        }
        if step.accumulate {
            self.sum += kg;
        }
        if step.complete {
            self.offset = self.sum / self.zero.count() as f32;
        }
        (4.0 * (kg - self.offset).max(0.0), step.complete)
    }
}

const MS: u64 = 1_000_000;
const S: u64 = 1_000_000_000;

#[test]
fn waits_for_release_and_settling_then_subtracts_baseline_from_future_load() {
    let mut zero = Zeroed { zero: WeightZero::default(), sum: 0.0, offset: 0.0 };
    let start = 1_000 * S;
    zero.observe(5.0, true, start);
    zero.observe(5.0, true, start + 2 * S);
    assert!(zero.zero.pending());
    zero.observe(5.0, false, start + 3 * S);
    zero.observe(0.25, false, start + 3500 * MS);
    let (reading, done) = zero.observe(0.25, false, start + 4500 * MS);
    assert!(done);
    assert_eq!(reading, 0.0);
    assert!(!zero.zero.pending());
    let (loaded, done) = zero.observe(10.25, false, start + 5 * S);
    assert!(!done);
    assert_eq!(loaded, 40.0);
    assert_eq!(zero.observe(0.1, false, start + 6 * S).0, 0.0);
}

#[test]
fn repeated_press_replaces_baseline_using_original_weights() {
    let mut zero = Zeroed { zero: WeightZero::new(), sum: 0.0, offset: 0.0 };
    let start = 1_000 * S;
    for (seconds, baseline) in [(0u64, 0.25f32), (4, 0.5)] {
        let now = start + seconds * S;
        zero.observe(5.0, true, now);
        zero.observe(baseline, false, now + 100 * MS);
        zero.observe(baseline, false, now + 600 * MS);
        assert!(zero.observe(baseline, false, now + 1600 * MS).1);
    }
    assert_eq!(zero.observe(10.5, false, start + 7 * S).0, 40.0);
}

#[test]
fn zeroing_never_samples_while_held_or_settling() {
    let mut zero = WeightZero::new();
    let step = zero.observe(true, 0);
    assert!(step.restart && !step.accumulate);
    assert!(!zero.observe(true, 5 * S).accumulate);
    assert!(!zero.observe(false, 6 * S).accumulate);
    assert!(!zero.observe(false, 6 * S + 499 * MS).accumulate);
    let step = zero.observe(false, 6 * S + 500 * MS);
    assert!(step.accumulate && !step.complete);
    let step = zero.observe(false, 7 * S + 500 * MS);
    assert!(step.accumulate && step.complete);
    assert_eq!(zero.count(), 2);
}

fn args(list: &[&str]) -> Vec<String> {
    list.iter().map(|s| s.to_string()).collect()
}

#[test]
fn command_line_modes_and_options() {
    assert_eq!(parse_args(&args(&[]), true), Ok(Invocation::Menu));
    assert_eq!(
        parse_args(&args(&[]), false),
        Ok(Invocation::Run(Config { gamepad: true, ..Config::default() }))
    );
    assert_eq!(
        parse_args(&args(&["--monitor", "--no-smooth"]), false),
        Ok(Invocation::Run(Config { no_tare: true, no_smooth: true, ..Config::default() }))
    );
    assert_eq!(
        parse_args(&args(&["--gamepad", "--no-cache", "-v"]), true),
        Ok(Invocation::Run(Config { gamepad: true, no_cache: true, ..Config::default() }))
    );
    assert_eq!(parse_args(&args(&["--pair"]), true), Ok(Invocation::Pair));
    assert_eq!(parse_args(&args(&["--doctor"]), true), Ok(Invocation::Doctor));
    assert_eq!(parse_args(&args(&["--bogus", "-h"]), true), Ok(Invocation::Help));
    assert_eq!(parse_args(&args(&["--pair", "--doctor"]), true), Err(ArgError::MultipleModes));
    let bad = args(&["--no-tare", "--bogus"]);
    let err = parse_args(&bad, true).unwrap_err();
    assert_eq!(err, ArgError::UnknownOption(1));
    assert_eq!(err.message(&bad), "Unknown option --bogus. Use --help.");
    assert_eq!(ArgError::MultipleModes.message(&bad), "Choose only one mode.");
}

#[test]
fn menu_answers() {
    assert_eq!(menu_choice(&"1".to_string()), MenuChoice::Monitor);
    assert_eq!(menu_choice(&"2".to_string()), MenuChoice::Gamepad);
    assert_eq!(menu_choice(&"3".to_string()), MenuChoice::Pair);
    assert_eq!(menu_choice(&"4".to_string()), MenuChoice::Doctor);
    assert_eq!(menu_choice(&"Q".to_string()), MenuChoice::Quit);
    assert_eq!(menu_choice(&"q".to_string()), MenuChoice::Quit);
    assert_eq!(menu_choice(&"5".to_string()), MenuChoice::Invalid);
}

#[test]
fn cache_directory_names_hash_the_path() {
    assert_eq!(fnv1a_hash(b""), 0xcbf29ce484222325);
    assert_eq!(fnv1a_hash(b"a"), 0xaf63dc4c8601ec8c);
    assert_eq!(format_hex16(0xab), "00000000000000ab");
    assert_eq!(cache_dir_name(b"a"), "af63dc4c8601ec8c");
    assert_ne!(cache_dir_name(b"\\\\?\\hid#one"), cache_dir_name(b"\\\\?\\hid#two"));
}

#[test]
fn vjoy_axis_usages() {
    let axes = [VJoyAxis::X, VJoyAxis::Y, VJoyAxis::Z, VJoyAxis::Rx, VJoyAxis::Ry, VJoyAxis::Rz];
    let usages: Vec<u32> = axes.iter().map(|a| a.usage()).collect();
    assert_eq!(usages, [0x30, 0x31, 0x32, 0x33, 0x34, 0x35]);
}

#[test]
fn linux_input_selection() {
    assert!(is_event_node("event12"));
    assert!(!is_event_node("mouse0"));
    assert!(!is_event_node("even"));
    assert!(is_board_device_name("Nintendo Wii Remote Balance Board\n"));
    assert!(!is_board_device_name("Nintendo Wii Remote"));
    assert_eq!(input_identity(Some("00:11"), "/dev/input/event3"), "00:11");
    assert_eq!(input_identity(Some(""), "/dev/input/event3"), "/dev/input/event3");
    assert_eq!(input_identity(None, "/dev/input/event3"), "/dev/input/event3");
    let id = "00:11".to_string();
    assert!(identity_accepted(None, &id));
    assert!(identity_accepted(Some(&id), &"00:11".to_string()));
    assert!(!identity_accepted(Some(&id), &"22:33".to_string()));
    assert_eq!(open_failure(true), LinuxOpenFailure::PermissionDenied);
    assert_eq!(open_failure(false), LinuxOpenFailure::NotFound);
    assert!(LinuxOpenFailure::PermissionDenied.message().contains("setup-linux.sh"));
}

fn sample_events(engine: &mut EngineState, config: Config, button: bool, now_ns: u64, loaded: bool) -> bool {
    let polled = engine.step(config, EngineEvent::Polled { outcome: PollOutcome::Sample, since_last_sample_ns: 0 });
    assert!(!polled.reconnect && !polled.neutralize && !polled.send);
    engine.step(config, EngineEvent::Sample { button, now_ns });
    engine.step(config, EngineEvent::Weighed { loaded }).send
}

#[test]
fn reconnect_neutralizes_before_reopening_same_device_and_stop_cleans_up() {
    let config = Config { no_tare: true, ..Config::default() };
    let mut engine = EngineState::new(config);
    let mut events: Vec<&str> = Vec::new();
    let started = engine.step(config, EngineEvent::Started);
    assert!(matches!(started.notice, Notice::Show(Phase::Waiting, _)));
    let (identity, fresh) = engine.open_request();
    assert_eq!(identity, None);
    assert!(!fresh);
    events.push("open");
    engine.step(config, EngineEvent::Opened { identity: "same-board".to_string() });
    let lost = engine.step(config, EngineEvent::Polled { outcome: PollOutcome::Failed, since_last_sample_ns: 0 });
    assert!(lost.reconnect);
    assert!(matches!(lost.notice, Notice::Failure));
    if lost.neutralize {
        events.push("neutral");
    }
    let (identity, fresh) = engine.open_request();
    assert_eq!(identity.as_deref(), Some("same-board"));
    assert!(fresh);
    assert_eq!(&events, &["open", "neutral"]);
    events.push("open");
    engine.step(config, EngineEvent::Opened { identity: "same-board".to_string() });
    if sample_events(&mut engine, config, false, 1, true) {
        events.push("send");
    }
    let stop = engine.step(config, EngineEvent::Stopping);
    assert!(stop.finish);
    if stop.neutralize {
        events.push("neutral");
    }
    assert_eq!(&events, &["open", "neutral", "open", "send", "neutral"]);
}

#[test]
fn output_failure_is_fatal_and_still_clears_controller() {
    let config = Config { no_tare: true, ..Config::default() };
    let mut engine = EngineState::new(config);
    let mut events: Vec<&str> = Vec::new();
    engine.step(config, EngineEvent::Started);
    engine.step(config, EngineEvent::Opened { identity: "same-board".to_string() });
    assert!(sample_events(&mut engine, config, false, 1, true));
    events.push("send");
    let failed = engine.step(config, EngineEvent::OutputFailed);
    assert!(failed.finish && !failed.reconnect);
    if failed.neutralize {
        events.push("neutral");
    }
    assert_eq!(&events, &["send", "neutral"]);
}

#[test]
fn stop_while_waiting_does_not_open_again() {
    let config = Config::default();
    let control = Control::default();
    let mut engine = EngineState::new(config);
    engine.step(config, EngineEvent::Started);
    let mut attempts = 0;
    while !control.stopped() {
        attempts += 1;
        let failed = engine.step(config, EngineEvent::OpenFailed);
        assert!(failed.reconnect && !failed.neutralize);
        assert!(matches!(failed.notice, Notice::Failure));
        control.stop();
    }
    assert_eq!(attempts, 1);
    let stop = engine.step(config, EngineEvent::Stopping);
    assert!(stop.finish && stop.neutralize);
    match stop.notice {
        Notice::Show(phase, message) => {
            assert_eq!(phase, Phase::Stopped);
            assert_eq!(message, "Disconnected");
        }
        _ => panic!("a stop is announced"),
    }
}

#[test]
fn center_request_clears_controller_until_a_full_stance_is_measured() {
    let config = Config { gamepad: true, ..Config::default() };
    let mut engine = EngineState::new(config);
    engine.step(config, EngineEvent::Opened { identity: "board".to_string() });
    for i in 0..TARE_SAMPLES {
        assert_eq!(sample_events(&mut engine, config, false, i as u64, true), i == TARE_SAMPLES - 1);
    }
    let center = engine.step(config, EngineEvent::CenterRequested);
    assert!(center.neutralize && center.reset_filter && center.restart_stance && !center.send);
    for i in 0..50 {
        assert!(!sample_events(&mut engine, config, false, i, true));
    }
    assert!(!sample_events(&mut engine, config, false, 60, false));
    for i in 0..TARE_SAMPLES {
        assert_eq!(sample_events(&mut engine, config, false, 100 + i as u64, true), i == TARE_SAMPLES - 1);
    }
}

#[test]
fn silent_board_clears_controller_and_reconnects() {
    let config = Config { gamepad: true, no_tare: true, ..Config::default() };
    let mut engine = EngineState::new(config);
    engine.step(config, EngineEvent::Opened { identity: "board".to_string() });
    let waiting = engine.step(config, EngineEvent::Polled { outcome: PollOutcome::Nothing, since_last_sample_ns: 2_999_999_999 });
    assert!(!waiting.reconnect && !waiting.neutralize);
    let lost = engine.step(config, EngineEvent::Polled { outcome: PollOutcome::Nothing, since_last_sample_ns: 3_000_000_000 });
    assert!(lost.reconnect && lost.neutralize);
    match lost.notice {
        Notice::Show(phase, message) => {
            assert_eq!(phase, Phase::Waiting);
            assert_eq!(message, "No sensor data. Wake the board with Power; reconnecting.");
        }
        _ => panic!("a silent board is announced"),
    }
}

#[test]
fn output_pauses_while_zeroing_and_stance_is_measured_again() {
    let config = Config { gamepad: true, ..Config::default() };
    let mut engine = EngineState::new(config);
    engine.step(config, EngineEvent::Opened { identity: "board".to_string() });
    let mut now: u64 = 0;
    for _ in 0..TARE_SAMPLES {
        now += 10_000_000;
        sample_events(&mut engine, config, false, now, true);
    }
    now += 10_000_000;
    assert!(sample_events(&mut engine, config, false, now, true));
    // press and release the front button: output pauses until the baseline is taken
    now += 10_000_000;
    assert!(!sample_events(&mut engine, config, true, now, true));
    let mut zeroed = false;
    while !zeroed {
        now += 100_000_000;
        engine.step(config, EngineEvent::Polled { outcome: PollOutcome::Sample, since_last_sample_ns: 0 });
        let acts = engine.step(config, EngineEvent::Sample { button: false, now_ns: now });
        zeroed = acts.zero.map(|z| z.complete).unwrap_or(false);
        if zeroed {
            assert!(acts.restart_stance);
            assert!(matches!(acts.notice, Notice::Show(Phase::Centering, ref m) if m == "Weight zeroed"));
        }
        assert!(!engine.step(config, EngineEvent::Weighed { loaded: true }).send || zeroed);
    }
    assert!(engine.zero_count() >= 2);
    // the stance is measured again before output resumes
    for i in 1..TARE_SAMPLES {
        now += 10_000_000;
        assert_eq!(sample_events(&mut engine, config, false, now, true), i == TARE_SAMPLES - 1);
    }
}

#[test]
fn linux_vendor_and_corner_axes() {
    assert!(is_board_vendor(0x057e));
    assert!(!is_board_vendor(0x045e));
    assert_eq!(BOARD_AXIS_CODES, [0x10, 0x11, 0x12, 0x13]);
    assert!(has_board_axes(&[0x00, 0x13, 0x12, 0x11, 0x10]));
    assert!(!has_board_axes(&[0x10, 0x11, 0x12]));
    assert!(!has_board_axes(&[]));
}
