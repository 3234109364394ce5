//! Starts a stream that the browser asked for, and restarts a running one at
//! another bitrate.
//!
//! Both replace the native stream with the steps of
//! [`NativeReplace`](crate::native_start::NativeReplace) and then bring the new
//! stream to the held input state. While they run, input is noted but not
//! dispatched.

use crate::adaptive_bitrate::{BitrateReduction, STARTUP_WARMUP_SECS};
use crate::input::ActiveGamepads;
use crate::lifecycle::{
    AdaptiveRestartRequest, AdaptiveSession, NativeStartExpectation, StreamLifecycle,
};
use crate::native_start::{ReplaceFailure, ReplaceOutcome};
use crate::permissions::StreamSettings;
use crate::text::{decimal, decimal_digits};
use crate::time::Instant;
use vstd::prelude::*;

verus! {

/// What became of a start.
#[derive(Clone, Copy, Debug, PartialEq, Eq, Structural)]
pub enum StartStreamOutcome {
    Started,
    /// A newer request or transport took over, or the streamer is going down.
    Superseded,
    Failed(StartFailure),
}

#[derive(Clone, Copy, Debug, PartialEq, Eq, Structural)]
pub enum StartFailure {
    Replace(ReplaceFailure),
    Replay,
    StopStuck,
}

/// A native stream that runs and waits for its input state.
#[derive(Clone, Copy, Debug, PartialEq, Eq, Structural)]
pub struct ReadyStream {
    pub configured_gamepads: ActiveGamepads,
    pub native_generation: u64,
}

#[derive(Clone, Copy, Debug, PartialEq, Eq, Structural)]
pub enum StartStep {
    Replacing,
    /// Stops what the failed start left behind.
    StoppingFailed,
    /// Waits for the packets under way to be through.
    TakingInputGate { stream: ReadyStream },
    Replaying { stream: ReadyStream },
    StoppingSuperseded,
    Finished,
}

/// The result of a step.
#[allow(inconsistent_fields)]
#[derive(Clone, Copy, Debug, PartialEq, Eq, Structural)]
pub enum StartEvent {
    Replaced(ReplaceOutcome),
    Stopped { stuck: bool },
    InputGateHeld,
    Replayed { succeeded: bool },
}

/// The work to do next.
#[derive(Clone, Copy, Debug, PartialEq, Eq, Structural)]
pub enum StartAction {
    /// Replaces the native stream by one with these settings.
    Replace { settings: StreamSettings, report_fatal_errors: bool },
    StopStream,
    TakeInputGate,
    /// Replays the held state while the input lock is held.
    Replay { configured_gamepads: ActiveGamepads },
    /// The start is over. With `shut_down`, the caller has to bring the whole
    /// streamer down.
    Finish { outcome: StartStreamOutcome, shut_down: bool },
    Ignore,
}

#[derive(Clone, Copy, Debug, PartialEq, Eq, Structural)]
pub struct StreamStart {
    pub expectation: NativeStartExpectation,
    pub step: StartStep,
}

/// A step's effect.
pub struct StartTransition {
    pub machine: StreamStart,
    pub lifecycle: StreamLifecycle,
    pub action: StartAction,
}

/// The lifecycle with input dispatched again.
pub open spec fn input_resumed(lifecycle: StreamLifecycle) -> StreamLifecycle {
    StreamLifecycle { replay_pending: false, ..lifecycle }
}

pub open spec fn input_paused(lifecycle: StreamLifecycle) -> StreamLifecycle {
    StreamLifecycle { replay_pending: true, ..lifecycle }
}

pub open spec fn shutting_down(lifecycle: StreamLifecycle) -> StreamLifecycle {
    StreamLifecycle { terminating: true, ..lifecycle }
}

/// A ready stream is still the one that is wanted.
pub open spec fn still_wanted(
    lifecycle: StreamLifecycle,
    expectation: NativeStartExpectation,
    native_generation: u64,
) -> bool {
    lifecycle.wants(expectation) && lifecycle.native_generation == native_generation
}

fn is_still_wanted(
    lifecycle: &StreamLifecycle,
    expectation: NativeStartExpectation,
    native_generation: u64,
) -> (wanted: bool)
    ensures
        wanted == still_wanted(*lifecycle, expectation, native_generation),
{
    lifecycle.is_current(expectation) && lifecycle.native_generation == native_generation
}

impl StreamStart {
    pub open spec fn at(self, step: StartStep) -> Self {
        StreamStart { step, ..self }
    }

    pub open spec fn then_do(
        self,
        lifecycle: StreamLifecycle,
        step: StartStep,
        action: StartAction,
    ) -> StartTransition {
        StartTransition { machine: self.at(step), lifecycle, action }
    }

    pub open spec fn end(
        self,
        lifecycle: StreamLifecycle,
        outcome: StartStreamOutcome,
        shut_down: bool,
    ) -> StartTransition {
        self.then_do(lifecycle, StartStep::Finished, StartAction::Finish { outcome, shut_down })
    }

    /// How a start begins: with a fresh adaptive session and input on hold, or
    /// not at all where it is not wanted any more.
    pub fn begin(
        lifecycle: &mut StreamLifecycle,
        settings: StreamSettings,
        expectation: NativeStartExpectation,
        now: Instant,
    ) -> (begun: (StreamStart, StartAction))
        requires
            now.has_room(STARTUP_WARMUP_SECS * 1_000_000_000),
        ensures
            begun.0.expectation == expectation,
            !old(lifecycle).wants(expectation) ==> {
                &&& *final(lifecycle) == *old(lifecycle)
                &&& begun.0.step == StartStep::Finished
                &&& begun.1 == (StartAction::Finish {
                    outcome: StartStreamOutcome::Superseded,
                    shut_down: false,
                })
            },
            old(lifecycle).wants(expectation) ==> {
                &&& begun.0.step == StartStep::Replacing
                &&& begun.1 == (StartAction::Replace { settings, report_fatal_errors: true })
                &&& *final(lifecycle) == input_paused(
                    StreamLifecycle { session: final(lifecycle).session, ..*old(lifecycle) },
                )
                &&& final(lifecycle).session.generation == crate::lifecycle::next_generation(
                    old(lifecycle).session.generation,
                )
                &&& final(lifecycle).session.settings == Some(settings)
                &&& final(lifecycle).session.controller.current_bitrate_kbps
                    == settings.bitrate_kbps
                &&& final(lifecycle).session.controller.startup_warmup_until is Some
                &&& final(lifecycle).session.controller.startup_warmup_until->0.nanos()
                    == now.nanos() + STARTUP_WARMUP_SECS * 1_000_000_000
                &&& final(lifecycle).session.controller == (
                crate::adaptive_bitrate::AdaptiveBitrateController {
                    startup_warmup_until: final(lifecycle).session.controller.startup_warmup_until,
                    ..crate::adaptive_bitrate::AdaptiveBitrateController::fresh(
                        settings.adaptive_bitrate,
                        settings.bitrate_kbps,
                        settings.minimum_bitrate_kbps,
                    )
                })
            },
    {
        if !lifecycle.is_current(expectation) {
            return (
                StreamStart { expectation, step: StartStep::Finished },
                StartAction::Finish { outcome: StartStreamOutcome::Superseded, shut_down: false },
            );
        }
        lifecycle.open_session(settings, now);
        lifecycle.replay_pending = true;
        (
            StreamStart { expectation, step: StartStep::Replacing },
            StartAction::Replace { settings, report_fatal_errors: true },
        )
    }

    /// What the outcome of the replacement leads to.
    pub open spec fn replaced(
        self,
        lifecycle: StreamLifecycle,
        outcome: ReplaceOutcome,
    ) -> StartTransition {
        match outcome {
            ReplaceOutcome::Ready { configured_gamepads, native_generation } => self.then_do(
                lifecycle,
                StartStep::TakingInputGate {
                    stream: ReadyStream { configured_gamepads, native_generation },
                },
                StartAction::TakeInputGate,
            ),
            ReplaceOutcome::Superseded => self.end(
                input_resumed(lifecycle),
                StartStreamOutcome::Superseded,
                false,
            ),
            ReplaceOutcome::Failed(failure) => if lifecycle.wants(self.expectation) {
                self.end(
                    input_resumed(lifecycle),
                    StartStreamOutcome::Failed(StartFailure::Replace(failure)),
                    false,
                )
            } else if leaves_stream_behind(lifecycle) {
                self.then_do(
                    lifecycle.discarded_in_progress(),
                    StartStep::StoppingFailed,
                    StartAction::StopStream,
                )
            } else {
                self.end(
                    input_resumed(lifecycle.discarded_in_progress()),
                    StartStreamOutcome::Superseded,
                    false,
                )
            },
        }
    }

    /// What comes after stopping what an unwanted, failed start left behind.
    pub open spec fn leftovers_stopped(
        self,
        lifecycle: StreamLifecycle,
        stuck: bool,
    ) -> StartTransition {
        self.end(
            input_resumed(
                if stuck {
                    shutting_down(lifecycle)
                } else {
                    lifecycle
                },
            ),
            StartStreamOutcome::Superseded,
            stuck && !lifecycle.terminating,
        )
    }

    /// Takes back a stream that was superseded before its input state was restored.
    pub open spec fn taken_back(
        self,
        lifecycle: StreamLifecycle,
        native_generation: u64,
    ) -> StartTransition {
        let resumed = input_resumed(lifecycle);
        if resumed.native_generation == native_generation && resumed.stream_present {
            self.then_do(
                resumed.discarded(native_generation),
                StartStep::StoppingSuperseded,
                StartAction::StopStream,
            )
        } else {
            self.end(
                resumed.discarded(native_generation),
                StartStreamOutcome::Superseded,
                false,
            )
        }
    }

    pub open spec fn gate_held(
        self,
        lifecycle: StreamLifecycle,
        stream: ReadyStream,
    ) -> StartTransition {
        if still_wanted(lifecycle, self.expectation, stream.native_generation) {
            self.then_do(
                lifecycle,
                StartStep::Replaying { stream },
                StartAction::Replay { configured_gamepads: stream.configured_gamepads },
            )
        } else {
            self.taken_back(lifecycle, stream.native_generation)
        }
    }

    pub open spec fn replayed(
        self,
        lifecycle: StreamLifecycle,
        stream: ReadyStream,
        succeeded: bool,
    ) -> StartTransition {
        if !still_wanted(lifecycle, self.expectation, stream.native_generation) {
            self.taken_back(lifecycle, stream.native_generation)
        } else if succeeded {
            self.end(input_resumed(lifecycle), StartStreamOutcome::Started, false)
        } else {
            self.end(
                input_resumed(lifecycle),
                StartStreamOutcome::Failed(StartFailure::Replay),
                false,
            )
        }
    }

    pub open spec fn superseded_stopped(
        self,
        lifecycle: StreamLifecycle,
        stuck: bool,
    ) -> StartTransition {
        if stuck {
            self.end(
                shutting_down(lifecycle),
                StartStreamOutcome::Failed(StartFailure::StopStuck),
                !lifecycle.terminating,
            )
        } else {
            self.end(lifecycle, StartStreamOutcome::Superseded, false)
        }
    }

    /// What the result of the step under way leads to.
    pub open spec fn transition(
        self,
        lifecycle: StreamLifecycle,
        event: StartEvent,
    ) -> StartTransition {
        match (self.step, event) {
            (StartStep::Replacing, StartEvent::Replaced(outcome)) => self.replaced(
                lifecycle,
                outcome,
            ),
            (StartStep::StoppingFailed, StartEvent::Stopped { stuck }) => self.leftovers_stopped(
                lifecycle,
                stuck,
            ),
            (StartStep::TakingInputGate { stream }, StartEvent::InputGateHeld) => self.gate_held(
                lifecycle,
                stream,
            ),
            (StartStep::Replaying { stream }, StartEvent::Replayed { succeeded }) => self.replayed(
                lifecycle,
                stream,
                succeeded,
            ),
            (StartStep::StoppingSuperseded, StartEvent::Stopped { stuck }) => {
                self.superseded_stopped(lifecycle, stuck)
            },
            _ => StartTransition { machine: self, lifecycle, action: StartAction::Ignore },
        }
    }

    fn finish(&mut self, outcome: StartStreamOutcome, shut_down: bool) -> (action: StartAction)
        ensures
            *final(self) == old(self).at(StartStep::Finished),
            action == (StartAction::Finish { outcome, shut_down }),
    {
        self.step = StartStep::Finished;
        StartAction::Finish { outcome, shut_down }
    }

    fn on_replaced(&mut self, lifecycle: &mut StreamLifecycle, outcome: ReplaceOutcome) -> (action:
        StartAction)
        ensures
            *final(self) == old(self).replaced(*old(lifecycle), outcome).machine,
            *final(lifecycle) == old(self).replaced(*old(lifecycle), outcome).lifecycle,
            action == old(self).replaced(*old(lifecycle), outcome).action,
    {
        match outcome {
            ReplaceOutcome::Ready { configured_gamepads, native_generation } => {
                self.step =
                StartStep::TakingInputGate {
                    stream: ReadyStream { configured_gamepads, native_generation },
                };
                StartAction::TakeInputGate
            },
            ReplaceOutcome::Superseded => {
                lifecycle.replay_pending = false;
                self.finish(StartStreamOutcome::Superseded, false)
            },
            ReplaceOutcome::Failed(failure) => {
                if lifecycle.is_current(self.expectation) {
                    lifecycle.replay_pending = false;
                    self.finish(
                        StartStreamOutcome::Failed(StartFailure::Replace(failure)),
                        false,
                    )
                } else if lifecycle.discard_in_progress_native_start() {
                    self.step = StartStep::StoppingFailed;
                    StartAction::StopStream
                } else {
                    lifecycle.replay_pending = false;
                    self.finish(StartStreamOutcome::Superseded, false)
                }
            },
        }
    }

    fn on_leftovers_stopped(&mut self, lifecycle: &mut StreamLifecycle, stuck: bool) -> (action:
        StartAction)
        ensures
            *final(self) == old(self).leftovers_stopped(*old(lifecycle), stuck).machine,
            *final(lifecycle) == old(self).leftovers_stopped(*old(lifecycle), stuck).lifecycle,
            action == old(self).leftovers_stopped(*old(lifecycle), stuck).action,
    {
        lifecycle.replay_pending = false;
        let began: bool = if stuck {
            lifecycle.begin_termination()
        } else {
            false
        };
        self.finish(StartStreamOutcome::Superseded, began)
    }

    fn take_back(&mut self, lifecycle: &mut StreamLifecycle, native_generation: u64) -> (action:
        StartAction)
        ensures
            *final(self) == old(self).taken_back(*old(lifecycle), native_generation).machine,
            *final(lifecycle) == old(self).taken_back(
                *old(lifecycle),
                native_generation,
            ).lifecycle,
            action == old(self).taken_back(*old(lifecycle), native_generation).action,
    {
        lifecycle.replay_pending = false;
        if lifecycle.discard_native_generation(native_generation) {
            self.step = StartStep::StoppingSuperseded;
            StartAction::StopStream
        } else {
            self.finish(StartStreamOutcome::Superseded, false)
        }
    }

    fn on_gate_held(&mut self, lifecycle: &mut StreamLifecycle, stream: ReadyStream) -> (action:
        StartAction)
        ensures
            *final(self) == old(self).gate_held(*old(lifecycle), stream).machine,
            *final(lifecycle) == old(self).gate_held(*old(lifecycle), stream).lifecycle,
            action == old(self).gate_held(*old(lifecycle), stream).action,
    {
        if is_still_wanted(lifecycle, self.expectation, stream.native_generation) {
            self.step = StartStep::Replaying { stream };
            StartAction::Replay { configured_gamepads: stream.configured_gamepads }
        } else {
            self.take_back(lifecycle, stream.native_generation)
        }
    }

    fn on_replayed(
        &mut self,
        lifecycle: &mut StreamLifecycle,
        stream: ReadyStream,
        succeeded: bool,
    ) -> (action: StartAction)
        ensures
            *final(self) == old(self).replayed(*old(lifecycle), stream, succeeded).machine,
            *final(lifecycle) == old(self).replayed(
                *old(lifecycle),
                stream,
                succeeded,
            ).lifecycle,
            action == old(self).replayed(*old(lifecycle), stream, succeeded).action,
    {
        if !is_still_wanted(lifecycle, self.expectation, stream.native_generation) {
            return self.take_back(lifecycle, stream.native_generation);
        }
        lifecycle.replay_pending = false;
        if succeeded {
            self.finish(StartStreamOutcome::Started, false)
        } else {
            self.finish(StartStreamOutcome::Failed(StartFailure::Replay), false)
        }
    }

    fn on_superseded_stopped(&mut self, lifecycle: &mut StreamLifecycle, stuck: bool) -> (action:
        StartAction)
        ensures
            *final(self) == old(self).superseded_stopped(*old(lifecycle), stuck).machine,
            *final(lifecycle) == old(self).superseded_stopped(*old(lifecycle), stuck).lifecycle,
            action == old(self).superseded_stopped(*old(lifecycle), stuck).action,
    {
        if stuck {
            let began: bool = lifecycle.begin_termination();
            self.finish(StartStreamOutcome::Failed(StartFailure::StopStuck), began)
        } else {
            self.finish(StartStreamOutcome::Superseded, false)
        }
    }

    /// Takes the result of the step under way and says what comes next.
    pub fn advance(&mut self, lifecycle: &mut StreamLifecycle, event: StartEvent) -> (action:
        StartAction)
        ensures
            *final(self) == old(self).transition(*old(lifecycle), event).machine,
            *final(lifecycle) == old(self).transition(*old(lifecycle), event).lifecycle,
            action == old(self).transition(*old(lifecycle), event).action,
    {
        match (self.step, event) {
            (StartStep::Replacing, StartEvent::Replaced(outcome)) => self.on_replaced(
                lifecycle,
                outcome,
            ),
            (StartStep::StoppingFailed, StartEvent::Stopped { stuck }) => {
                self.on_leftovers_stopped(lifecycle, stuck)
            },
            (StartStep::TakingInputGate { stream }, StartEvent::InputGateHeld) => {
                self.on_gate_held(lifecycle, stream)
            },
            (StartStep::Replaying { stream }, StartEvent::Replayed { succeeded }) => {
                self.on_replayed(lifecycle, stream, succeeded)
            },
            (StartStep::StoppingSuperseded, StartEvent::Stopped { stuck }) => {
                self.on_superseded_stopped(lifecycle, stuck)
            },
            _ => StartAction::Ignore,
        }
    }
}

/// A start that is in progress has put a stream in its place.
pub open spec fn leaves_stream_behind(lifecycle: StreamLifecycle) -> bool {
    &&& lifecycle.start_in_progress_generation != 0
    &&& lifecycle.native_generation == lifecycle.start_in_progress_generation
    &&& lifecycle.stream_present
}

/// What became of a restart at another bitrate.
#[derive(Clone, Copy, Debug, PartialEq, Eq, Structural)]
pub enum RestartOutcome {
    /// The stream runs at this bitrate.
    Applied { bitrate_kbps: u32 },
    /// The restart was not wanted, or not wanted any more.
    Discarded,
    /// Neither the lower nor the previous bitrate could be started.
    Failed,
}

#[derive(Clone, Copy, Debug, PartialEq, Eq, Structural)]
pub enum RestartStep {
    ReplacingReduced,
    ReplacingRestored,
    /// Stops what the failed start left behind.
    StoppingFailed { roll_back: bool },
    TakingInputGate { stream: ReadyStream, bitrate_kbps: u32 },
    Replaying { stream: ReadyStream, bitrate_kbps: u32 },
    StoppingSuperseded,
    Finished,
}

/// The work to do next.
#[derive(Clone, Copy, Debug, PartialEq, Eq, Structural)]
pub enum RestartAction {
    Replace { settings: StreamSettings },
    StopStream,
    TakeInputGate,
    Replay { configured_gamepads: ActiveGamepads },
    Finish { outcome: RestartOutcome, shut_down: bool },
    Ignore,
}

#[derive(Clone, Copy, Debug, PartialEq, Eq, Structural)]
pub struct AdaptiveRestart {
    pub request: AdaptiveRestartRequest,
    pub settings: StreamSettings,
    pub step: RestartStep,
}

/// A step's effect.
pub struct RestartTransition {
    pub machine: AdaptiveRestart,
    pub lifecycle: StreamLifecycle,
    pub action: RestartAction,
}

/// `settings` at another bitrate.
pub open spec fn at_bitrate(settings: StreamSettings, bitrate_kbps: u32) -> StreamSettings {
    StreamSettings { bitrate_kbps, ..settings }
}

fn with_bitrate(settings: StreamSettings, bitrate_kbps: u32) -> (changed: StreamSettings)
    ensures
        changed == at_bitrate(settings, bitrate_kbps),
{
    let mut changed: StreamSettings = settings;
    changed.bitrate_kbps = bitrate_kbps;
    changed
}

/// The settings of the session that a restart was decided for, as long as the
/// session runs and its controller still aims at the lower bitrate.
pub open spec fn restart_settings(
    lifecycle: StreamLifecycle,
    request: AdaptiveRestartRequest,
) -> Option<StreamSettings> {
    if lifecycle.wants(request.expectation) && request.expectation.require_adaptive_transport
        && lifecycle.session.generation == request.session_generation
        && lifecycle.session.controller.current_bitrate_kbps == request.reduction.bitrate_kbps {
        lifecycle.session.settings
    } else {
        None
    }
}

/// The lifecycle with no restart pending.
pub open spec fn settled(lifecycle: StreamLifecycle) -> StreamLifecycle {
    StreamLifecycle { adaptive_restart_pending: false, ..lifecycle }
}

/// The lifecycle with the controller back at the bitrate before the reduction.
pub open spec fn restored(
    lifecycle: StreamLifecycle,
    reduction: BitrateReduction,
) -> StreamLifecycle {
    StreamLifecycle {
        session: AdaptiveSession {
            controller: lifecycle.session.controller.rolled_back(reduction.previous_bitrate_kbps),
            ..lifecycle.session
        },
        ..lifecycle
    }
}

impl AdaptiveRestart {
    pub open spec fn at(self, step: RestartStep) -> Self {
        AdaptiveRestart { step, ..self }
    }

    pub open spec fn then_do(
        self,
        lifecycle: StreamLifecycle,
        step: RestartStep,
        action: RestartAction,
    ) -> RestartTransition {
        RestartTransition { machine: self.at(step), lifecycle, action }
    }

    pub open spec fn end(
        self,
        lifecycle: StreamLifecycle,
        outcome: RestartOutcome,
        shut_down: bool,
    ) -> RestartTransition {
        self.then_do(
            settled(lifecycle),
            RestartStep::Finished,
            RestartAction::Finish { outcome, shut_down },
        )
    }

    pub open spec fn rolled_back(self, lifecycle: StreamLifecycle) -> StreamLifecycle {
        lifecycle.reduction_rolled_back(self.request.session_generation, self.request.reduction)
    }

    /// Begins a restart. Without a session that still wants it, the reduction is
    /// taken back.
    pub fn begin(lifecycle: &mut StreamLifecycle, request: AdaptiveRestartRequest) -> (begun: (
        Option<AdaptiveRestart>,
        RestartAction,
    ))
        ensures
            match restart_settings(*old(lifecycle), request) {
                Some(settings) => {
                    &&& begun.0 == Some(
                        AdaptiveRestart { request, settings, step: RestartStep::ReplacingReduced },
                    )
                    &&& begun.1 == (RestartAction::Replace {
                        settings: at_bitrate(settings, request.reduction.bitrate_kbps),
                    })
                    &&& *final(lifecycle) == input_paused(*old(lifecycle))
                },
                None => {
                    &&& begun.0 is None
                    &&& begun.1 == (RestartAction::Finish {
                        outcome: RestartOutcome::Discarded,
                        shut_down: false,
                    })
                    &&& *final(lifecycle) == settled(
                        old(lifecycle).reduction_rolled_back(
                            request.session_generation,
                            request.reduction,
                        ),
                    )
                },
            },
    {
        let wanted: bool = request.expectation.require_adaptive_transport && lifecycle.is_current(
            request.expectation,
        ) && lifecycle.session.generation == request.session_generation
            && lifecycle.session.controller.current_bitrate_kbps()
            == request.reduction.bitrate_kbps;
        if wanted {
            if let Some(settings) = lifecycle.session.settings {
                lifecycle.replay_pending = true;
                return (
                    Some(
                        AdaptiveRestart { request, settings, step: RestartStep::ReplacingReduced },
                    ),
                    RestartAction::Replace {
                        settings: with_bitrate(settings, request.reduction.bitrate_kbps),
                    },
                );
            }
        }
        lifecycle.rollback_pending_adaptive_reduction(
            request.session_generation,
            request.reduction,
        );
        lifecycle.adaptive_restart_pending = false;
        (None, RestartAction::Finish { outcome: RestartOutcome::Discarded, shut_down: false })
    }

    /// Goes on to the input state of a stream that runs at `bitrate_kbps`.
    pub open spec fn ready(
        self,
        lifecycle: StreamLifecycle,
        stream: ReadyStream,
        bitrate_kbps: u32,
    ) -> RestartTransition {
        self.then_do(
            lifecycle,
            RestartStep::TakingInputGate { stream, bitrate_kbps },
            RestartAction::TakeInputGate,
        )
    }

    /// Cleans up after a failed start that is not wanted any more.
    pub open spec fn cleared(
        self,
        lifecycle: StreamLifecycle,
        roll_back: bool,
    ) -> RestartTransition {
        let discarded = lifecycle.discarded_in_progress();
        if leaves_stream_behind(lifecycle) {
            self.then_do(
                discarded,
                RestartStep::StoppingFailed { roll_back },
                RestartAction::StopStream,
            )
        } else {
            self.given_up(discarded, roll_back, false)
        }
    }

    /// Ends without a new stream.
    pub open spec fn given_up(
        self,
        lifecycle: StreamLifecycle,
        roll_back: bool,
        shut_down: bool,
    ) -> RestartTransition {
        let resumed = input_resumed(lifecycle);
        self.end(
            if roll_back {
                self.rolled_back(resumed)
            } else {
                resumed
            },
            RestartOutcome::Discarded,
            shut_down,
        )
    }

    pub open spec fn reduced_replaced(
        self,
        lifecycle: StreamLifecycle,
        outcome: ReplaceOutcome,
    ) -> RestartTransition {
        match outcome {
            ReplaceOutcome::Ready { configured_gamepads, native_generation } => self.ready(
                lifecycle,
                ReadyStream { configured_gamepads, native_generation },
                self.request.reduction.bitrate_kbps,
            ),
            ReplaceOutcome::Superseded => self.given_up(lifecycle, true, false),
            ReplaceOutcome::Failed(_) => if !lifecycle.wants(self.request.expectation) {
                self.cleared(lifecycle, true)
            } else if lifecycle.session.generation != self.request.session_generation {
                self.given_up(lifecycle, false, false)
            } else {
                self.then_do(
                    restored(lifecycle, self.request.reduction),
                    RestartStep::ReplacingRestored,
                    RestartAction::Replace {
                        settings: at_bitrate(
                            self.settings,
                            self.request.reduction.previous_bitrate_kbps,
                        ),
                    },
                )
            },
        }
    }

    pub open spec fn restored_replaced(
        self,
        lifecycle: StreamLifecycle,
        outcome: ReplaceOutcome,
    ) -> RestartTransition {
        match outcome {
            ReplaceOutcome::Ready { configured_gamepads, native_generation } => self.ready(
                lifecycle,
                ReadyStream { configured_gamepads, native_generation },
                self.request.reduction.previous_bitrate_kbps,
            ),
            ReplaceOutcome::Superseded => self.given_up(lifecycle, false, false),
            ReplaceOutcome::Failed(_) => if lifecycle.wants(self.request.expectation) {
                self.end(shutting_down(lifecycle), RestartOutcome::Failed, true)
            } else {
                self.cleared(lifecycle, false)
            },
        }
    }

    pub open spec fn leftovers_stopped(
        self,
        lifecycle: StreamLifecycle,
        roll_back: bool,
        stuck: bool,
    ) -> RestartTransition {
        self.given_up(
            if stuck {
                shutting_down(lifecycle)
            } else {
                lifecycle
            },
            roll_back,
            stuck && !lifecycle.terminating,
        )
    }

    /// Takes back a stream that was superseded before its input state was restored.
    pub open spec fn taken_back(
        self,
        lifecycle: StreamLifecycle,
        native_generation: u64,
    ) -> RestartTransition {
        let resumed = input_resumed(lifecycle);
        let discarded = resumed.discarded(native_generation);
        if resumed.native_generation == native_generation && resumed.stream_present {
            self.then_do(discarded, RestartStep::StoppingSuperseded, RestartAction::StopStream)
        } else {
            self.end(self.rolled_back(discarded), RestartOutcome::Discarded, false)
        }
    }

    pub open spec fn gate_held(
        self,
        lifecycle: StreamLifecycle,
        stream: ReadyStream,
        bitrate_kbps: u32,
    ) -> RestartTransition {
        if still_wanted(lifecycle, self.request.expectation, stream.native_generation) {
            self.then_do(
                lifecycle,
                RestartStep::Replaying { stream, bitrate_kbps },
                RestartAction::Replay { configured_gamepads: stream.configured_gamepads },
            )
        } else {
            self.taken_back(lifecycle, stream.native_generation)
        }
    }

    pub open spec fn replayed(
        self,
        lifecycle: StreamLifecycle,
        stream: ReadyStream,
        bitrate_kbps: u32,
        succeeded: bool,
    ) -> RestartTransition {
        if !still_wanted(lifecycle, self.request.expectation, stream.native_generation) {
            self.taken_back(lifecycle, stream.native_generation)
        } else if succeeded {
            self.end(input_resumed(lifecycle), RestartOutcome::Applied { bitrate_kbps }, false)
        } else {
            self.end(shutting_down(input_resumed(lifecycle)), RestartOutcome::Failed, true)
        }
    }

    pub open spec fn superseded_stopped(
        self,
        lifecycle: StreamLifecycle,
        stuck: bool,
    ) -> RestartTransition {
        if stuck {
            self.end(shutting_down(lifecycle), RestartOutcome::Failed, !lifecycle.terminating)
        } else {
            self.end(self.rolled_back(lifecycle), RestartOutcome::Discarded, false)
        }
    }

    /// What the result of the step under way leads to.
    pub open spec fn transition(
        self,
        lifecycle: StreamLifecycle,
        event: StartEvent,
    ) -> RestartTransition {
        match (self.step, event) {
            (RestartStep::ReplacingReduced, StartEvent::Replaced(outcome)) => {
                self.reduced_replaced(lifecycle, outcome)
            },
            (RestartStep::ReplacingRestored, StartEvent::Replaced(outcome)) => {
                self.restored_replaced(lifecycle, outcome)
            },
            (RestartStep::StoppingFailed { roll_back }, StartEvent::Stopped { stuck }) => {
                self.leftovers_stopped(lifecycle, roll_back, stuck)
            },
            (RestartStep::TakingInputGate { stream, bitrate_kbps }, StartEvent::InputGateHeld) => {
                self.gate_held(lifecycle, stream, bitrate_kbps)
            },
            (RestartStep::Replaying { stream, bitrate_kbps }, StartEvent::Replayed { succeeded }) => {
                self.replayed(lifecycle, stream, bitrate_kbps, succeeded)
            },
            (RestartStep::StoppingSuperseded, StartEvent::Stopped { stuck }) => {
                self.superseded_stopped(lifecycle, stuck)
            },
            _ => RestartTransition { machine: self, lifecycle, action: RestartAction::Ignore },
        }
    }

    fn finish(
        &mut self,
        lifecycle: &mut StreamLifecycle,
        outcome: RestartOutcome,
        shut_down: bool,
    ) -> (action: RestartAction)
        ensures
            *final(self) == old(self).end(*old(lifecycle), outcome, shut_down).machine,
            *final(lifecycle) == old(self).end(*old(lifecycle), outcome, shut_down).lifecycle,
            action == old(self).end(*old(lifecycle), outcome, shut_down).action,
    {
        self.step = RestartStep::Finished;
        lifecycle.adaptive_restart_pending = false;
        RestartAction::Finish { outcome, shut_down }
    }

    fn give_up(&mut self, lifecycle: &mut StreamLifecycle, roll_back: bool, shut_down: bool) -> (
    action: RestartAction)
        ensures
            *final(self) == old(self).given_up(*old(lifecycle), roll_back, shut_down).machine,
            *final(lifecycle) == old(self).given_up(
                *old(lifecycle),
                roll_back,
                shut_down,
            ).lifecycle,
            action == old(self).given_up(*old(lifecycle), roll_back, shut_down).action,
    {
        lifecycle.replay_pending = false;
        if roll_back {
            lifecycle.rollback_pending_adaptive_reduction(
                self.request.session_generation,
                self.request.reduction,
            );
        }
        self.finish(lifecycle, RestartOutcome::Discarded, shut_down)
    }

    fn clear(&mut self, lifecycle: &mut StreamLifecycle, roll_back: bool) -> (action: RestartAction)
        ensures
            *final(self) == old(self).cleared(*old(lifecycle), roll_back).machine,
            *final(lifecycle) == old(self).cleared(*old(lifecycle), roll_back).lifecycle,
            action == old(self).cleared(*old(lifecycle), roll_back).action,
    {
        if lifecycle.discard_in_progress_native_start() {
            self.step = RestartStep::StoppingFailed { roll_back };
            RestartAction::StopStream
        } else {
            self.give_up(lifecycle, roll_back, false)
        }
    }

    fn on_reduced_replaced(
        &mut self,
        lifecycle: &mut StreamLifecycle,
        outcome: ReplaceOutcome,
    ) -> (action: RestartAction)
        ensures
            *final(self) == old(self).reduced_replaced(*old(lifecycle), outcome).machine,
            *final(lifecycle) == old(self).reduced_replaced(*old(lifecycle), outcome).lifecycle,
            action == old(self).reduced_replaced(*old(lifecycle), outcome).action,
    {
        match outcome {
            ReplaceOutcome::Ready { configured_gamepads, native_generation } => {
                self.step =
                RestartStep::TakingInputGate {
                    stream: ReadyStream { configured_gamepads, native_generation },
                    bitrate_kbps: self.request.reduction.bitrate_kbps,
                };
                RestartAction::TakeInputGate
            },
            ReplaceOutcome::Superseded => self.give_up(lifecycle, true, false),
            ReplaceOutcome::Failed(_) => {
                if !lifecycle.is_current(self.request.expectation) {
                    return self.clear(lifecycle, true);
                }
                if lifecycle.session.generation != self.request.session_generation {
                    return self.give_up(lifecycle, false, false);
                }
                lifecycle.session.controller.rollback(
                    self.request.reduction.previous_bitrate_kbps,
                );
                self.step = RestartStep::ReplacingRestored;
                RestartAction::Replace {
                    settings: with_bitrate(
                        self.settings,
                        self.request.reduction.previous_bitrate_kbps,
                    ),
                }
            },
        }
    }

    fn on_restored_replaced(
        &mut self,
        lifecycle: &mut StreamLifecycle,
        outcome: ReplaceOutcome,
    ) -> (action: RestartAction)
        ensures
            *final(self) == old(self).restored_replaced(*old(lifecycle), outcome).machine,
            *final(lifecycle) == old(self).restored_replaced(*old(lifecycle), outcome).lifecycle,
            action == old(self).restored_replaced(*old(lifecycle), outcome).action,
    {
        match outcome {
            ReplaceOutcome::Ready { configured_gamepads, native_generation } => {
                self.step =
                RestartStep::TakingInputGate {
                    stream: ReadyStream { configured_gamepads, native_generation },
                    bitrate_kbps: self.request.reduction.previous_bitrate_kbps,
                };
                RestartAction::TakeInputGate
            },
            ReplaceOutcome::Superseded => self.give_up(lifecycle, false, false),
            ReplaceOutcome::Failed(_) => {
                if lifecycle.begin_termination_for_expected_start(self.request.expectation) {
                    self.finish(lifecycle, RestartOutcome::Failed, true)
                } else {
                    self.clear(lifecycle, false)
                }
            },
        }
    }

    fn on_leftovers_stopped(
        &mut self,
        lifecycle: &mut StreamLifecycle,
        roll_back: bool,
        stuck: bool,
    ) -> (action: RestartAction)
        ensures
            *final(self) == old(self).leftovers_stopped(
                *old(lifecycle),
                roll_back,
                stuck,
            ).machine,
            *final(lifecycle) == old(self).leftovers_stopped(
                *old(lifecycle),
                roll_back,
                stuck,
            ).lifecycle,
            action == old(self).leftovers_stopped(*old(lifecycle), roll_back, stuck).action,
    {
        let began: bool = if stuck {
            lifecycle.begin_termination()
        } else {
            false
        };
        self.give_up(lifecycle, roll_back, began)
    }

    fn take_back(&mut self, lifecycle: &mut StreamLifecycle, native_generation: u64) -> (action:
        RestartAction)
        ensures
            *final(self) == old(self).taken_back(*old(lifecycle), native_generation).machine,
            *final(lifecycle) == old(self).taken_back(
                *old(lifecycle),
                native_generation,
            ).lifecycle,
            action == old(self).taken_back(*old(lifecycle), native_generation).action,
    {
        lifecycle.replay_pending = false;
        if lifecycle.discard_native_generation(native_generation) {
            self.step = RestartStep::StoppingSuperseded;
            RestartAction::StopStream
        } else {
            lifecycle.rollback_pending_adaptive_reduction(
                self.request.session_generation,
                self.request.reduction,
            );
            self.finish(lifecycle, RestartOutcome::Discarded, false)
        }
    }

    fn on_gate_held(
        &mut self,
        lifecycle: &mut StreamLifecycle,
        stream: ReadyStream,
        bitrate_kbps: u32,
    ) -> (action: RestartAction)
        ensures
            *final(self) == old(self).gate_held(*old(lifecycle), stream, bitrate_kbps).machine,
            *final(lifecycle) == old(self).gate_held(
                *old(lifecycle),
                stream,
                bitrate_kbps,
            ).lifecycle,
            action == old(self).gate_held(*old(lifecycle), stream, bitrate_kbps).action,
    {
        if is_still_wanted(lifecycle, self.request.expectation, stream.native_generation) {
            self.step = RestartStep::Replaying { stream, bitrate_kbps };
            RestartAction::Replay { configured_gamepads: stream.configured_gamepads }
        } else {
            self.take_back(lifecycle, stream.native_generation)
        }
    }

    fn on_replayed(
        &mut self,
        lifecycle: &mut StreamLifecycle,
        stream: ReadyStream,
        bitrate_kbps: u32,
        succeeded: bool,
    ) -> (action: RestartAction)
        ensures
            *final(self) == old(self).replayed(
                *old(lifecycle),
                stream,
                bitrate_kbps,
                succeeded,
            ).machine,
            *final(lifecycle) == old(self).replayed(
                *old(lifecycle),
                stream,
                bitrate_kbps,
                succeeded,
            ).lifecycle,
            action == old(self).replayed(*old(lifecycle), stream, bitrate_kbps, succeeded).action,
    {
        if !is_still_wanted(lifecycle, self.request.expectation, stream.native_generation) {
            return self.take_back(lifecycle, stream.native_generation);
        }
        lifecycle.replay_pending = false;
        if succeeded {
            self.finish(lifecycle, RestartOutcome::Applied { bitrate_kbps }, false)
        } else {
            lifecycle.terminating = true;
            self.finish(lifecycle, RestartOutcome::Failed, true)
        }
    }

    fn on_superseded_stopped(&mut self, lifecycle: &mut StreamLifecycle, stuck: bool) -> (action:
        RestartAction)
        ensures
            *final(self) == old(self).superseded_stopped(*old(lifecycle), stuck).machine,
            *final(lifecycle) == old(self).superseded_stopped(*old(lifecycle), stuck).lifecycle,
            action == old(self).superseded_stopped(*old(lifecycle), stuck).action,
    {
        if stuck {
            let began: bool = lifecycle.begin_termination();
            self.finish(lifecycle, RestartOutcome::Failed, began)
        } else {
            lifecycle.rollback_pending_adaptive_reduction(
                self.request.session_generation,
                self.request.reduction,
            );
            self.finish(lifecycle, RestartOutcome::Discarded, false)
        }
    }

    /// Takes the result of the step under way and says what comes next.
    pub fn advance(&mut self, lifecycle: &mut StreamLifecycle, event: StartEvent) -> (action:
        RestartAction)
        ensures
            *final(self) == old(self).transition(*old(lifecycle), event).machine,
            *final(lifecycle) == old(self).transition(*old(lifecycle), event).lifecycle,
            action == old(self).transition(*old(lifecycle), event).action,
    {
        match (self.step, event) {
            (RestartStep::ReplacingReduced, StartEvent::Replaced(outcome)) => {
                self.on_reduced_replaced(lifecycle, outcome)
            },
            (RestartStep::ReplacingRestored, StartEvent::Replaced(outcome)) => {
                self.on_restored_replaced(lifecycle, outcome)
            },
            (RestartStep::StoppingFailed { roll_back }, StartEvent::Stopped { stuck }) => {
                self.on_leftovers_stopped(lifecycle, roll_back, stuck)
            },
            (RestartStep::TakingInputGate { stream, bitrate_kbps }, StartEvent::InputGateHeld) => {
                self.on_gate_held(lifecycle, stream, bitrate_kbps)
            },
            (RestartStep::Replaying { stream, bitrate_kbps }, StartEvent::Replayed { succeeded }) => {
                self.on_replayed(lifecycle, stream, bitrate_kbps, succeeded)
            },
            (RestartStep::StoppingSuperseded, StartEvent::Stopped { stuck }) => {
                self.on_superseded_stopped(lifecycle, stuck)
            },
            _ => RestartAction::Ignore,
        }
    }
}

/// What the browser is told after a restart that ended with a running stream.
pub open spec fn restart_announcement(
    reduction: BitrateReduction,
    applied_bitrate_kbps: u32,
) -> Seq<char> {
    let previous = decimal_digits(reduction.previous_bitrate_kbps as nat);
    if applied_bitrate_kbps == reduction.bitrate_kbps {
        "Adaptive bitrate adjusted the stream from "@ + previous + " to "@ + decimal_digits(
            reduction.bitrate_kbps as nat,
        ) + " Kbps for network stability"@
    } else {
        "Adaptive bitrate reconnect failed; restored the previous "@ + previous
            + " Kbps stream"@
    }
}

/// [`restart_announcement`], computed.
pub fn announce_restart(reduction: BitrateReduction, applied_bitrate_kbps: u32) -> (message: String)
    ensures
        message@ == restart_announcement(reduction, applied_bitrate_kbps),
{
    let previous: String = decimal(reduction.previous_bitrate_kbps as u64);
    if applied_bitrate_kbps == reduction.bitrate_kbps {
        let reduced: String = decimal(reduction.bitrate_kbps as u64);
        let mut message: String = "Adaptive bitrate adjusted the stream from ".to_owned();
        message.append(previous.as_str());
        message.append(" to ");
        message.append(reduced.as_str());
        message.append(" Kbps for network stability");
        message
    } else {
        let mut message: String =
            "Adaptive bitrate reconnect failed; restored the previous ".to_owned();
        message.append(previous.as_str());
        message.append(" Kbps stream");
        message
    }
}

/// However a start ends, input is dispatched again, unless a stuck shutdown of
/// the streamer overtook it.
pub proof fn law_ended_start_resumes_input(
    machine: StreamStart,
    lifecycle: StreamLifecycle,
    event: StartEvent,
)
    requires
        machine.step == StartStep::StoppingSuperseded ==> !lifecycle.replay_pending,
    ensures
        ({
            let t = machine.transition(lifecycle, event);
            &&& t.action is Finish ==> !t.lifecycle.replay_pending
            &&& t.machine.step == StartStep::StoppingSuperseded && !(t.action is Ignore)
                ==> !t.lifecycle.replay_pending
        }),
{
}

/// A start reports success only while it is wanted and its stream is the one in force.
pub proof fn law_started_stream_is_wanted(
    machine: StreamStart,
    lifecycle: StreamLifecycle,
    event: StartEvent,
)
    ensures
        ({
            let t = machine.transition(lifecycle, event);
            t.action == (StartAction::Finish {
                outcome: StartStreamOutcome::Started,
                shut_down: false,
            }) ==> {
                &&& machine.step matches StartStep::Replaying { stream }
                &&& still_wanted(lifecycle, machine.expectation, stream.native_generation)
                &&& event == (StartEvent::Replayed { succeeded: true })
            }
        }),
{
}

/// A superseded start never brings the streamer down, unless a native call is stuck.
pub proof fn law_superseded_start_is_harmless(
    machine: StreamStart,
    lifecycle: StreamLifecycle,
    event: StartEvent,
)
    requires
        event != (StartEvent::Stopped { stuck: true }),
    ensures
        machine.transition(lifecycle, event).lifecycle.terminating == lifecycle.terminating,
{
}

/// However a restart ends, none is pending afterwards.
pub proof fn law_ended_restart_is_not_pending(
    machine: AdaptiveRestart,
    lifecycle: StreamLifecycle,
    event: StartEvent,
)
    ensures
        ({
            let t = machine.transition(lifecycle, event);
            t.action is Finish ==> !t.lifecycle.adaptive_restart_pending
        }),
{
}

/// A restart that was superseded before it had a stream leaves its session at the
/// bitrate before the reduction.
pub proof fn law_superseded_restart_takes_the_reduction_back(
    machine: AdaptiveRestart,
    lifecycle: StreamLifecycle,
)
    requires
        machine.step == RestartStep::ReplacingReduced,
        lifecycle.session.generation == machine.request.session_generation,
        lifecycle.session.controller.wf(),
        lifecycle.session.controller.current_bitrate_kbps
            == machine.request.reduction.bitrate_kbps,
        lifecycle.session.controller.floor_bitrate_kbps
            <= machine.request.reduction.previous_bitrate_kbps
            <= lifecycle.session.controller.ceiling_bitrate_kbps,
    ensures
        ({
            let t = machine.transition(
                lifecycle,
                StartEvent::Replaced(ReplaceOutcome::Superseded),
            );
            &&& t.lifecycle.session.controller.current_bitrate_kbps
                == machine.request.reduction.previous_bitrate_kbps
            &&& t.action == (RestartAction::Finish {
                outcome: RestartOutcome::Discarded,
                shut_down: false,
            })
        }),
{
}

/// When the lower bitrate cannot be started, the previous one is tried before
/// anything is given up.
pub proof fn law_failed_reduction_is_retried_at_the_previous_bitrate(
    machine: AdaptiveRestart,
    lifecycle: StreamLifecycle,
    failure: ReplaceFailure,
)
    requires
        machine.step == RestartStep::ReplacingReduced,
        lifecycle.wants(machine.request.expectation),
        lifecycle.session.generation == machine.request.session_generation,
    ensures
        machine.transition(
            lifecycle,
            StartEvent::Replaced(ReplaceOutcome::Failed(failure)),
        ).action == (RestartAction::Replace {
            settings: at_bitrate(
                machine.settings,
                machine.request.reduction.previous_bitrate_kbps,
            ),
        }),
{
}

/// A start that goes well: once the native stream is ready, the input lock is taken,
/// what is held is replayed to the controllers that were configured, and the stream
/// has started. Input flows again, and nothing else changed.
pub proof fn law_ready_stream_is_started(
    machine: StreamStart,
    lifecycle: StreamLifecycle,
    configured_gamepads: ActiveGamepads,
)
    requires
        machine.step == StartStep::Replacing,
        lifecycle.wants(machine.expectation),
    ensures
        ({
            let replaced = machine.transition(
                lifecycle,
                StartEvent::Replaced(
                    ReplaceOutcome::Ready {
                        configured_gamepads,
                        native_generation: lifecycle.native_generation,
                    },
                ),
            );
            let held = replaced.machine.transition(replaced.lifecycle, StartEvent::InputGateHeld);
            let replayed = |succeeded: bool|
                held.machine.transition(held.lifecycle, StartEvent::Replayed { succeeded });
            &&& replaced.action is TakeInputGate
            &&& held.action == (StartAction::Replay { configured_gamepads })
            &&& replayed(true).action == (StartAction::Finish {
                outcome: StartStreamOutcome::Started,
                shut_down: false,
            })
            &&& replayed(false).action == (StartAction::Finish {
                outcome: StartStreamOutcome::Failed(StartFailure::Replay),
                shut_down: false,
            })
            &&& replayed(true).lifecycle == StreamLifecycle { replay_pending: false, ..lifecycle }
            &&& replayed(false).lifecycle == replayed(true).lifecycle
        }),
{
}

/// A failed start is told as it failed while it is wanted. One that is not wanted any
/// more counts as superseded, and a stream it left behind is stopped first.
pub proof fn law_how_a_start_ends_early(
    machine: StreamStart,
    lifecycle: StreamLifecycle,
    failure: ReplaceFailure,
)
    requires
        machine.step == StartStep::Replacing,
    ensures
        ({
            let failed = machine.transition(
                lifecycle,
                StartEvent::Replaced(ReplaceOutcome::Failed(failure)),
            );
            let superseded = StartAction::Finish {
                outcome: StartStreamOutcome::Superseded,
                shut_down: false,
            };
            let left = lifecycle.start_in_progress_generation != 0 && lifecycle.native_generation
                == lifecycle.start_in_progress_generation && lifecycle.stream_present;
            &&& machine.transition(
                lifecycle,
                StartEvent::Replaced(ReplaceOutcome::Superseded),
            ).action == superseded
            &&& lifecycle.wants(machine.expectation) ==> failed.action == (StartAction::Finish {
                outcome: StartStreamOutcome::Failed(StartFailure::Replace(failure)),
                shut_down: false,
            }) && failed.lifecycle == StreamLifecycle { replay_pending: false, ..lifecycle }
            &&& !lifecycle.wants(machine.expectation) && !left ==> failed.action == superseded
            &&& !lifecycle.wants(machine.expectation) && left ==> {
                &&& failed.action is StopStream
                &&& !failed.lifecycle.stream_present
                &&& failed.machine.transition(
                    failed.lifecycle,
                    StartEvent::Stopped { stuck: false },
                ).action == superseded
                &&& failed.machine.transition(
                    failed.lifecycle,
                    StartEvent::Stopped { stuck: true },
                ).action == (StartAction::Finish {
                    outcome: StartStreamOutcome::Superseded,
                    shut_down: !lifecycle.terminating,
                })
                &&& failed.machine.transition(
                    failed.lifecycle,
                    StartEvent::Stopped { stuck: true },
                ).lifecycle.terminating
            }
        }),
{
}

/// A ready stream that is not wanted any more is stopped and counts as superseded; if
/// another stream took its place, that one is left alone. A stop that hangs ends the
/// streamer, once.
pub proof fn law_late_stream_is_stopped(
    machine: StreamStart,
    lifecycle: StreamLifecycle,
    stream: ReadyStream,
    succeeded: bool,
)
    requires
        !lifecycle.wants(machine.expectation) || lifecycle.native_generation
            != stream.native_generation,
    ensures
        ({
            let held = (StreamStart {
                step: StartStep::TakingInputGate { stream },
                ..machine
            }).transition(lifecycle, StartEvent::InputGateHeld);
            let replayed = (StreamStart {
                step: StartStep::Replaying { stream },
                ..machine
            }).transition(lifecycle, StartEvent::Replayed { succeeded });
            let own = lifecycle.native_generation == stream.native_generation
                && lifecycle.stream_present;
            let stopped = |stuck: bool|
                held.machine.transition(held.lifecycle, StartEvent::Stopped { stuck });
            &&& held == replayed
            &&& own ==> {
                &&& held.action is StopStream
                &&& !held.lifecycle.stream_present
                &&& stopped(false).action == (StartAction::Finish {
                    outcome: StartStreamOutcome::Superseded,
                    shut_down: false,
                })
                &&& stopped(true).action == (StartAction::Finish {
                    outcome: StartStreamOutcome::Failed(StartFailure::StopStuck),
                    shut_down: !lifecycle.terminating,
                })
                &&& stopped(true).lifecycle.terminating
            }
            &&& !own ==> held.action == (StartAction::Finish {
                outcome: StartStreamOutcome::Superseded,
                shut_down: false,
            })
            &&& lifecycle.native_generation != stream.native_generation
                ==> held.lifecycle.stream_present == lifecycle.stream_present
        }),
{
}

/// A restart is for the session that asked for it and for its last reduction: then it
/// runs with the settings of the session, and with none otherwise.
pub proof fn law_restart_is_for_its_session(
    lifecycle: StreamLifecycle,
    request: AdaptiveRestartRequest,
)
    ensures
        ({
            let due = lifecycle.wants(request.expectation)
                && request.expectation.require_adaptive_transport && lifecycle.session.generation
                == request.session_generation && lifecycle.session.controller.current_bitrate_kbps
                == request.reduction.bitrate_kbps;
            &&& due ==> restart_settings(lifecycle, request) == lifecycle.session.settings
            &&& !due ==> restart_settings(lifecycle, request) is None
        }),
{
}

/// A restart that goes well: the input lock is taken, what is held is replayed, and the
/// lower bitrate is in effect. Where the lower one cannot be started, the previous one
/// is, with all other settings as they were, and that one is in effect.
pub proof fn law_restart_takes_effect(
    machine: AdaptiveRestart,
    lifecycle: StreamLifecycle,
    configured_gamepads: ActiveGamepads,
    native_generation: u64,
    failure: ReplaceFailure,
)
    requires
        machine.step == RestartStep::ReplacingReduced,
        lifecycle.wants(machine.request.expectation),
        lifecycle.session.generation == machine.request.session_generation,
        lifecycle.native_generation == native_generation,
    ensures
        ({
            let ready = StartEvent::Replaced(
                ReplaceOutcome::Ready { configured_gamepads, native_generation },
            );
            let reduced = machine.transition(lifecycle, ready);
            let failed = machine.transition(
                lifecycle,
                StartEvent::Replaced(ReplaceOutcome::Failed(failure)),
            );
            let again = failed.machine.transition(failed.lifecycle, ready);
            let replay = |t: RestartTransition|
                t.machine.transition(t.lifecycle, StartEvent::InputGateHeld);
            let done = |t: RestartTransition|
                replay(t).machine.transition(
                    replay(t).lifecycle,
                    StartEvent::Replayed { succeeded: true },
                );
            &&& reduced.action is TakeInputGate && again.action is TakeInputGate
            &&& replay(reduced).action == (RestartAction::Replay { configured_gamepads })
            &&& replay(again).action == (RestartAction::Replay { configured_gamepads })
            &&& done(reduced).action == (RestartAction::Finish {
                outcome: RestartOutcome::Applied {
                    bitrate_kbps: machine.request.reduction.bitrate_kbps,
                },
                shut_down: false,
            })
            &&& done(again).action == (RestartAction::Finish {
                outcome: RestartOutcome::Applied {
                    bitrate_kbps: machine.request.reduction.previous_bitrate_kbps,
                },
                shut_down: false,
            })
            &&& done(reduced).lifecycle == StreamLifecycle {
                replay_pending: false,
                adaptive_restart_pending: false,
                ..lifecycle
            }
            &&& failed.action == (RestartAction::Replace {
                settings: StreamSettings {
                    bitrate_kbps: machine.request.reduction.previous_bitrate_kbps,
                    ..machine.settings
                },
            })
            &&& failed.lifecycle.session.controller == lifecycle.session.controller.rolled_back(
                machine.request.reduction.previous_bitrate_kbps,
            )
            &&& failed.lifecycle.session.generation == lifecycle.session.generation
            &&& failed.lifecycle.session.settings == lifecycle.session.settings
        }),
{
}

/// The streamer ends when neither bitrate can be started, or when what is held cannot
/// be replayed, as long as the restart is wanted. An unwanted restart is discarded.
pub proof fn law_how_a_restart_ends_early(
    machine: AdaptiveRestart,
    lifecycle: StreamLifecycle,
    stream: ReadyStream,
    bitrate_kbps: u32,
    failure: ReplaceFailure,
)
    ensures
        ({
            let at = |step: RestartStep, event: StartEvent|
                (AdaptiveRestart { step, ..machine }).transition(lifecycle, event);
            let failed = StartEvent::Replaced(ReplaceOutcome::Failed(failure));
            let superseded = StartEvent::Replaced(ReplaceOutcome::Superseded);
            let replayed = at(
                RestartStep::Replaying { stream, bitrate_kbps },
                StartEvent::Replayed { succeeded: false },
            );
            let wanted = lifecycle.wants(machine.request.expectation);
            let fatal = RestartAction::Finish { outcome: RestartOutcome::Failed, shut_down: true };
            let discarded = RestartAction::Finish {
                outcome: RestartOutcome::Discarded,
                shut_down: false,
            };
            &&& wanted ==> at(RestartStep::ReplacingRestored, failed).action == fatal
            &&& wanted ==> at(RestartStep::ReplacingRestored, failed).lifecycle.terminating
            &&& wanted && lifecycle.native_generation == stream.native_generation
                ==> replayed.action == fatal && replayed.lifecycle.terminating
            &&& at(RestartStep::ReplacingReduced, superseded).action == discarded
            &&& at(RestartStep::ReplacingRestored, superseded).action == discarded
            &&& wanted && lifecycle.session.generation != machine.request.session_generation
                ==> at(RestartStep::ReplacingReduced, failed).action == discarded && at(
                RestartStep::ReplacingReduced,
                failed,
            ).lifecycle.session == lifecycle.session
            &&& !wanted && !leaves_stream_behind(lifecycle) ==> at(
                RestartStep::ReplacingReduced,
                failed,
            ).action == discarded && at(RestartStep::ReplacingRestored, failed).action == discarded
            &&& !wanted && leaves_stream_behind(lifecycle) ==> at(
                RestartStep::ReplacingReduced,
                failed,
            ).action is StopStream && at(RestartStep::ReplacingRestored, failed).action
                is StopStream
            &&& (!wanted || lifecycle.native_generation != stream.native_generation)
                ==> replayed.action == (if lifecycle.native_generation == stream.native_generation
                && lifecycle.stream_present {
                RestartAction::StopStream
            } else {
                discarded
            })
            &&& at(RestartStep::StoppingSuperseded, StartEvent::Stopped { stuck: false }).action
                == discarded
            &&& at(RestartStep::StoppingSuperseded, StartEvent::Stopped { stuck: true }).action
                == (RestartAction::Finish {
                outcome: RestartOutcome::Failed,
                shut_down: !lifecycle.terminating,
            })
            &&& at(
                RestartStep::StoppingSuperseded,
                StartEvent::Stopped { stuck: true },
            ).lifecycle.terminating
        }),
{
}

/// A restart that was given up takes its reduction back, before or after a stop of what
/// it left behind, unless the previous bitrate was already in effect again.
pub proof fn law_given_up_restart_takes_the_reduction_back(
    machine: AdaptiveRestart,
    lifecycle: StreamLifecycle,
    failure: ReplaceFailure,
    stuck: bool,
)
    requires
        !lifecycle.wants(machine.request.expectation),
        lifecycle.session.generation == machine.request.session_generation,
        lifecycle.session.controller.current_bitrate_kbps
            == machine.request.reduction.bitrate_kbps,
    ensures
        ({
            let failed = StartEvent::Replaced(ReplaceOutcome::Failed(failure));
            let first = (AdaptiveRestart {
                step: RestartStep::ReplacingReduced,
                ..machine
            }).transition(lifecycle, failed);
            let second = (AdaptiveRestart {
                step: RestartStep::ReplacingRestored,
                ..machine
            }).transition(lifecycle, failed);
            let stopped = |t: RestartTransition|
                if t.action is StopStream {
                    t.machine.transition(t.lifecycle, StartEvent::Stopped { stuck })
                } else {
                    t
                };
            let back = lifecycle.session.controller.rolled_back(
                machine.request.reduction.previous_bitrate_kbps,
            );
            &&& stopped(first).action is Finish && stopped(second).action is Finish
            &&& stopped(first).lifecycle.session.controller == back
            &&& stopped(second).lifecycle.session.controller == lifecycle.session.controller
            &&& !stopped(first).lifecycle.replay_pending
            &&& !stopped(second).lifecycle.replay_pending
            &&& stopped(first).action == (RestartAction::Finish {
                outcome: RestartOutcome::Discarded,
                shut_down: first.action is StopStream && stuck && !lifecycle.terminating,
            })
            &&& first.action is StopStream && stuck ==> stopped(first).lifecycle.terminating
        }),
{
}

/// The announcement of a restart names the bitrate that is in effect last among its
/// numbers: the lower one where that was applied, and the previous one otherwise.
pub proof fn law_restart_announcements(previous: u32, lower: u32, applied: u32)
    requires
        applied != lower,
    ensures
        ({
            let reduction = BitrateReduction {
                previous_bitrate_kbps: previous,
                bitrate_kbps: lower,
            };
            let from = decimal_digits(previous as nat);
            let to = decimal_digits(lower as nat);
            let adjusted = restart_announcement(reduction, lower);
            let restored = restart_announcement(reduction, applied);
            &&& adjusted.subrange(42, 42 + from.len() as int) == from
            &&& adjusted.subrange(46 + from.len() as int, 46 + from.len() + to.len() as int) == to
            &&& restored.subrange(57, 57 + from.len() as int) == from
            &&& adjusted[17] == 'a' && restored[17] == 'r'
        }),
{
    reveal_strlit("Adaptive bitrate adjusted the stream from ");
    reveal_strlit(" to ");
    reveal_strlit(" Kbps for network stability");
    reveal_strlit("Adaptive bitrate reconnect failed; restored the previous ");
    reveal_strlit(" Kbps stream");
    let reduction = BitrateReduction { previous_bitrate_kbps: previous, bitrate_kbps: lower };
    let from = decimal_digits(previous as nat);
    let to = decimal_digits(lower as nat);
    let adjusted = restart_announcement(reduction, lower);
    let restored = restart_announcement(reduction, applied);
    assert(adjusted.subrange(42, 42 + from.len() as int) =~= from);
    assert(adjusted.subrange(46 + from.len() as int, 46 + from.len() + to.len() as int) =~= to);
    assert(restored.subrange(57, 57 + from.len() as int) =~= from);
}

/// A wanted start replaces the stream by one with the settings it was asked for, holds
/// input back and opens a session at their bitrate. One that is not wanted is over at
/// once and leaves everything as it was.
pub proof fn law_how_a_start_begins(
    lifecycle: &mut StreamLifecycle,
    settings: StreamSettings,
    expectation: NativeStartExpectation,
    now: Instant,
    begun: (StreamStart, StartAction),
)
    requires
        call_ensures(StreamStart::begin, (lifecycle, settings, expectation, now), begun),
    ensures
        begun.0.expectation == expectation,
        !old(lifecycle).wants(expectation) ==> *final(lifecycle) == *old(lifecycle) && begun.1 == (
        StartAction::Finish { outcome: StartStreamOutcome::Superseded, shut_down: false }),
        old(lifecycle).wants(expectation) ==> {
            &&& begun.1 == (StartAction::Replace { settings, report_fatal_errors: true })
            &&& begun.0.step is Replacing
            &&& final(lifecycle).replay_pending
            &&& final(lifecycle).wants(expectation)
            &&& final(lifecycle).session.settings == Some(settings)
            &&& final(lifecycle).session.generation != old(lifecycle).session.generation
            &&& final(lifecycle).session.controller.current_bitrate_kbps == settings.bitrate_kbps
            &&& final(lifecycle).native_generation == old(lifecycle).native_generation
            &&& final(lifecycle).stream_present == old(lifecycle).stream_present
        },
{
}

/// A restart that is due replaces the stream by one at the lower bitrate, with the other
/// settings of the session, and holds input back. One that is not due is discarded: no
/// restart is pending, and its reduction is taken back if it is still the last one.
pub proof fn law_how_a_restart_begins(
    lifecycle: &mut StreamLifecycle,
    request: AdaptiveRestartRequest,
    begun: (Option<AdaptiveRestart>, RestartAction),
)
    requires
        call_ensures(AdaptiveRestart::begin, (lifecycle, request), begun),
    ensures
        ({
            let due = old(lifecycle).wants(request.expectation)
                && request.expectation.require_adaptive_transport && old(
                lifecycle,
            ).session.generation == request.session_generation && old(
                lifecycle,
            ).session.controller.current_bitrate_kbps == request.reduction.bitrate_kbps && old(
                lifecycle,
            ).session.settings is Some;
            &&& begun.0 is Some <==> due
            &&& due ==> {
                &&& begun.1 == (RestartAction::Replace {
                    settings: StreamSettings {
                        bitrate_kbps: request.reduction.bitrate_kbps,
                        ..old(lifecycle).session.settings->0
                    },
                })
                &&& begun.0->0.request == request
                &&& begun.0->0.settings == old(lifecycle).session.settings->0
                &&& begun.0->0.step is ReplacingReduced
                &&& *final(lifecycle) == StreamLifecycle { replay_pending: true, ..*old(lifecycle) }
            }
            &&& !due ==> begun.1 == (RestartAction::Finish {
                outcome: RestartOutcome::Discarded,
                shut_down: false,
            }) && !final(lifecycle).adaptive_restart_pending && final(lifecycle).replay_pending
                == old(lifecycle).replay_pending && final(lifecycle).session.settings == old(
                lifecycle,
            ).session.settings
        }),
{
}

} // verus!
