//! How a native stream is started, replaced and restarted.

use moonlight_web::adaptive_bitrate::BitrateReduction;
use moonlight_web::input::ActiveGamepads;
use moonlight_web::lifecycle::{AdaptiveRestartRequest, NativeStartExpectation, StreamLifecycle};
use moonlight_web::native_start::{
    HostStart, NativeReplace, NativeStart, ReplaceAction, ReplaceEvent, ReplaceFailure,
    ReplaceOutcome, SettingsVerdict,
};
use moonlight_web::permissions::StreamSettings;
use moonlight_web::stream_start::{
    announce_restart, AdaptiveRestart, RestartAction, RestartOutcome, StartAction, StartEvent,
    StartStreamOutcome, StreamStart,
};
use moonlight_web::time::{Duration, Instant};

fn now() -> Instant {
    Instant::at(Duration::from_secs(100))
}

fn settings() -> StreamSettings {
    StreamSettings {
        bitrate_kbps: 10_000,
        adaptive_bitrate: true,
        minimum_bitrate_kbps: 2_000,
        width: 1920,
        height: 1080,
        fps: 60,
        play_audio_local: false,
        encrypt_host_video: true,
        encrypt_host_audio: true,
        supported_codecs: 1,
        hdr: false,
    }
}

fn ready_lifecycle(media_as_data: bool) -> (StreamLifecycle, NativeStartExpectation) {
    let mut lifecycle = StreamLifecycle::new();
    let generation = lifecycle.set_transport(media_as_data);
    lifecycle.transport_present = true;
    let expectation = lifecycle.request_start(generation);
    (lifecycle, expectation)
}

/// Runs the events through, and returns the last action.
fn run(
    lifecycle: &mut StreamLifecycle,
    replace: &mut NativeReplace,
    events: &[ReplaceEvent],
) -> ReplaceAction {
    let mut action = ReplaceAction::Ignore;
    for event in events {
        action = replace.advance(lifecycle, *event);
    }
    action
}

const UP_TO_THE_NATIVE_START: [ReplaceEvent; 4] = [
    ReplaceEvent::Announced { delivered: true },
    ReplaceEvent::HostQueried { answered: true, attached: ActiveGamepads { bits: 3 } },
    ReplaceEvent::SettingsAdjusted(SettingsVerdict::Accepted),
    ReplaceEvent::HostStarted(HostStart::Started),
];

#[test]
fn native_stream_is_started_step_by_step() {
    let (mut lifecycle, expectation) = ready_lifecycle(false);
    let (mut replace, action) = NativeReplace::begin(&mut lifecycle, expectation, true);
    assert_eq!(action, ReplaceAction::AnnounceStart);
    assert_eq!(
        run(&mut lifecycle, &mut replace, &UP_TO_THE_NATIVE_START),
        ReplaceAction::StartNative
    );
    let action = run(
        &mut lifecycle,
        &mut replace,
        &[ReplaceEvent::NativeStarted(NativeStart::Started), ReplaceEvent::GateHeld],
    );
    assert_eq!(action, ReplaceAction::QueueCompletion);
    let action = run(
        &mut lifecycle,
        &mut replace,
        &[
            ReplaceEvent::CompletionQueued { queued: true },
            ReplaceEvent::TransportSetUp { succeeded: true },
            ReplaceEvent::GateHeld,
        ],
    );
    match action {
        ReplaceAction::Finish {
            outcome: ReplaceOutcome::Ready { configured_gamepads, native_generation },
            shut_down: false,
        } => {
            assert_eq!(configured_gamepads, ActiveGamepads { bits: 3 });
            assert!(lifecycle.is_current_native_generation(native_generation));
            assert!(lifecycle.is_native_media_ready(native_generation));
        }
        other => panic!("unexpected action: {other:?}"),
    }
    assert!(lifecycle.stream_present);
}

#[test]
fn start_that_nobody_wants_any_more_is_given_up() {
    let (mut lifecycle, expectation) = ready_lifecycle(false);
    let (mut replace, _) = NativeReplace::begin(&mut lifecycle, expectation, true);
    lifecycle.set_transport(false);
    assert_eq!(
        replace.advance(&mut lifecycle, ReplaceEvent::Announced { delivered: true }),
        ReplaceAction::Finish { outcome: ReplaceOutcome::Superseded, shut_down: false }
    );
}

#[test]
fn host_without_hdr_is_reported() {
    let (mut lifecycle, expectation) = ready_lifecycle(false);
    let (mut replace, _) = NativeReplace::begin(&mut lifecycle, expectation, true);
    run(&mut lifecycle, &mut replace, &UP_TO_THE_NATIVE_START[..2]);
    assert_eq!(
        replace.advance(
            &mut lifecycle,
            ReplaceEvent::SettingsAdjusted(SettingsVerdict::HdrUnsupported)
        ),
        ReplaceAction::AnnounceHdrFailure
    );
    assert_eq!(
        replace.advance(&mut lifecycle, ReplaceEvent::Announced { delivered: true }),
        ReplaceAction::Finish {
            outcome: ReplaceOutcome::Failed(ReplaceFailure::HdrUnsupported),
            shut_down: false,
        }
    );
}

#[test]
fn stuck_native_call_brings_the_streamer_down() {
    let (mut lifecycle, expectation) = ready_lifecycle(false);
    let (mut replace, _) = NativeReplace::begin(&mut lifecycle, expectation, true);
    run(&mut lifecycle, &mut replace, &UP_TO_THE_NATIVE_START);
    assert_eq!(
        replace.advance(&mut lifecycle, ReplaceEvent::NativeStarted(NativeStart::Stuck)),
        ReplaceAction::Finish {
            outcome: ReplaceOutcome::Failed(ReplaceFailure::NativeStuck),
            shut_down: true,
        }
    );
    assert!(lifecycle.terminating);
}

#[test]
fn other_failures_have_their_names() {
    let failure_after = |events: &[ReplaceEvent]| {
        let (mut lifecycle, expectation) = ready_lifecycle(false);
        let (mut replace, _) = NativeReplace::begin(&mut lifecycle, expectation, false);
        match run(&mut lifecycle, &mut replace, events) {
            ReplaceAction::Finish { outcome: ReplaceOutcome::Failed(failure), .. } => failure,
            other => panic!("unexpected action: {other:?}"),
        }
    };
    let told = UP_TO_THE_NATIVE_START[0];
    let queried = UP_TO_THE_NATIVE_START[1];
    let adjusted = UP_TO_THE_NATIVE_START[2];
    assert_eq!(
        failure_after(&[
            told,
            ReplaceEvent::HostQueried { answered: false, attached: ActiveGamepads { bits: 0 } }
        ]),
        ReplaceFailure::HostQuery
    );
    assert_eq!(
        failure_after(&[told, queried, ReplaceEvent::SettingsAdjusted(SettingsVerdict::Rejected)]),
        ReplaceFailure::SettingsRejected
    );
    assert_eq!(
        failure_after(&[
            told,
            queried,
            adjusted,
            ReplaceEvent::HostStarted(HostStart::Refused)
        ]),
        ReplaceFailure::HostRefused
    );
}

#[test]
fn running_stream_is_stopped_before_it_is_replaced() {
    let (mut lifecycle, expectation) = ready_lifecycle(false);
    lifecycle.stream_present = true;
    let (mut replace, action) = NativeReplace::begin(&mut lifecycle, expectation, true);
    assert_eq!(action, ReplaceAction::StopOldStream);
    assert_eq!(
        replace.advance(&mut lifecycle, ReplaceEvent::Stopped { stuck: false }),
        ReplaceAction::AnnounceStart
    );
}

fn ready(generation: u64) -> StartEvent {
    StartEvent::Replaced(ReplaceOutcome::Ready {
        configured_gamepads: ActiveGamepads { bits: 0 },
        native_generation: generation,
    })
}

#[test]
fn started_stream_gets_the_held_input() {
    let (mut lifecycle, expectation) = ready_lifecycle(true);
    let (mut start, action) = StreamStart::begin(&mut lifecycle, settings(), expectation, now());
    assert_eq!(action, StartAction::Replace { settings: settings(), report_fatal_errors: true });
    assert!(lifecycle.replay_pending);
    lifecycle.native_generation = 4;
    lifecycle.stream_present = true;
    lifecycle.registered = expectation;
    assert_eq!(start.advance(&mut lifecycle, ready(4)), StartAction::TakeInputGate);
    assert!(matches!(
        start.advance(&mut lifecycle, StartEvent::InputGateHeld),
        StartAction::Replay { .. }
    ));
    assert_eq!(
        start.advance(&mut lifecycle, StartEvent::Replayed { succeeded: true }),
        StartAction::Finish { outcome: StartStreamOutcome::Started, shut_down: false }
    );
    assert!(!lifecycle.replay_pending);
}

#[test]
fn superseded_start_lets_input_through_again() {
    let (mut lifecycle, expectation) = ready_lifecycle(true);
    let (mut start, _) = StreamStart::begin(&mut lifecycle, settings(), expectation, now());
    assert_eq!(
        start.advance(&mut lifecycle, StartEvent::Replaced(ReplaceOutcome::Superseded)),
        StartAction::Finish { outcome: StartStreamOutcome::Superseded, shut_down: false }
    );
    assert!(!lifecycle.replay_pending);
}

fn restart_request(lifecycle: &StreamLifecycle) -> AdaptiveRestartRequest {
    AdaptiveRestartRequest {
        session_generation: lifecycle.session.generation,
        expectation: NativeStartExpectation::adaptive(
            lifecycle.start_request_generation,
            lifecycle.transport_generation,
        ),
        reduction: BitrateReduction { previous_bitrate_kbps: 10_000, bitrate_kbps: 7_500 },
    }
}

#[test]
fn failed_reduction_goes_back_to_the_previous_bitrate() {
    let (mut lifecycle, _) = ready_lifecycle(true);
    lifecycle.open_session(settings(), now());
    lifecycle.adaptive_restart_pending = true;
    lifecycle.session.controller.current_bitrate_kbps = 7_500;
    let request = restart_request(&lifecycle);
    let (restart, action) = AdaptiveRestart::begin(&mut lifecycle, request);
    let mut restart = restart.expect("the restart is wanted");
    match action {
        RestartAction::Replace { settings } => assert_eq!(settings.bitrate_kbps, 7_500),
        other => panic!("unexpected action: {other:?}"),
    }
    match restart.advance(
        &mut lifecycle,
        StartEvent::Replaced(ReplaceOutcome::Failed(ReplaceFailure::HostRefused)),
    ) {
        RestartAction::Replace { settings } => assert_eq!(settings.bitrate_kbps, 10_000),
        other => panic!("unexpected action: {other:?}"),
    }
}

#[test]
fn outdated_restart_is_discarded() {
    let (mut lifecycle, _) = ready_lifecycle(true);
    lifecycle.open_session(settings(), now());
    lifecycle.adaptive_restart_pending = true;
    let request = restart_request(&lifecycle);
    lifecycle.set_transport(false);
    let (restart, action) = AdaptiveRestart::begin(&mut lifecycle, request);
    assert!(restart.is_none());
    assert_eq!(
        action,
        RestartAction::Finish { outcome: RestartOutcome::Discarded, shut_down: false }
    );
    assert!(!lifecycle.adaptive_restart_pending);
}

#[test]
fn restart_is_announced_in_words() {
    let reduction = BitrateReduction { previous_bitrate_kbps: 10_000, bitrate_kbps: 7_500 };
    assert_eq!(
        announce_restart(reduction, 7_500),
        "Adaptive bitrate adjusted the stream from 10000 to 7500 Kbps for network stability"
    );
    assert_eq!(
        announce_restart(reduction, 10_000),
        "Adaptive bitrate reconnect failed; restored the previous 10000 Kbps stream"
    );
}

#[test]
fn end_of_the_native_stream_ends_the_streamer_once() {
    let mut lifecycle = StreamLifecycle::new();
    let generation = lifecycle.native_generation;
    assert!(!lifecycle.begin_native_termination(generation + 1));
    assert!(lifecycle.begin_native_termination(generation));
    assert!(!lifecycle.begin_native_termination(generation));
    assert!(lifecycle.terminating);
}
