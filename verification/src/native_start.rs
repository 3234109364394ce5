//! Replaces the native stream, step by step.
//!
//! Each step is work that takes time: stopping a stream, asking the host,
//! starting a connection. [`NativeReplace`] says which step comes next and what
//! its result means. Between any two steps a newer request or transport may
//! have made the whole start unwanted, and then what was started is stopped
//! again and never shown to the browser.

use crate::input::ActiveGamepads;
use crate::lifecycle::{next_generation, NativeStartExpectation, StreamLifecycle};
use vstd::prelude::*;

verus! {

/// The work that is under way.
#[derive(Clone, Copy, Debug, PartialEq, Eq, Structural)]
pub enum ReplaceStep {
    StoppingOld,
    AnnouncingStart,
    QueryingHost,
    AdjustingSettings,
    AnnouncingHdrFailure,
    StartingHost,
    AnnouncingDuplicate,
    StartingNative,
    Preparing,
    QueueingCompletion,
    SettingUpTransport,
    Committing,
    /// Stops the new stream, and then ends with the outcome.
    StoppingNew { outcome: ReplaceOutcome },
    Finished,
}

/// Why a start failed.
#[derive(Clone, Copy, Debug, PartialEq, Eq, Structural)]
pub enum ReplaceFailure {
    StopStuck,
    Cancelled,
    HostQuery,
    HdrUnsupported,
    SettingsRejected,
    HostRefused,
    AlreadyStreaming,
    NativeFailed,
    NativeStuck,
    CompletionBackpressured,
    TransportMissing,
    TransportSetup,
}

#[derive(Clone, Copy, Debug, PartialEq, Eq, Structural)]
pub enum ReplaceOutcome {
    /// The stream runs, and was set up with these controllers.
    Ready { configured_gamepads: ActiveGamepads, native_generation: u64 },
    /// The start was not wanted any more.
    Superseded,
    Failed(ReplaceFailure),
}

#[derive(Clone, Copy, Debug, PartialEq, Eq, Structural)]
pub enum SettingsVerdict {
    Accepted,
    HdrUnsupported,
    Rejected,
}

#[derive(Clone, Copy, Debug, PartialEq, Eq, Structural)]
pub enum HostStart {
    Started,
    AlreadyStreaming,
    Refused,
    Cancelled,
}

#[derive(Clone, Copy, Debug, PartialEq, Eq, Structural)]
pub enum NativeStart {
    Started,
    Failed,
    /// The blocking call did not return, or its thread panicked.
    Stuck,
}

/// The result of a step.
#[allow(inconsistent_fields)]
#[derive(Clone, Copy, Debug, PartialEq, Eq, Structural)]
pub enum ReplaceEvent {
    Stopped { stuck: bool },
    Announced { delivered: bool },
    HostQueried { answered: bool, attached: ActiveGamepads },
    SettingsAdjusted(SettingsVerdict),
    HostStarted(HostStart),
    NativeStarted(NativeStart),
    GateHeld,
    CompletionQueued { queued: bool },
    TransportSetUp { succeeded: bool },
}

/// The work to do next.
#[derive(Clone, Copy, Debug, PartialEq, Eq, Structural)]
pub enum ReplaceAction {
    StopOldStream,
    AnnounceStart,
    QueryHost,
    AdjustSettings,
    AnnounceHdrFailure,
    StartHost,
    AnnounceDuplicate,
    StartNative,
    /// Collects what the browser is told, then takes the lock that no transport
    /// change and no start request can pass.
    PreparePublication,
    /// Queues the announcement of the stream while that lock is held.
    QueueCompletion,
    SetUpTransport,
    /// Takes that lock once more.
    Commit,
    StopNewStream,
    /// The start is over. With `shut_down`, the caller has to bring the whole
    /// streamer down.
    Finish { outcome: ReplaceOutcome, shut_down: bool },
    /// The event does not belong to the step under way.
    Ignore,
}

#[derive(Clone, Copy, Debug, PartialEq, Eq, Structural)]
pub struct NativeReplace {
    pub generation: u64,
    pub expectation: NativeStartExpectation,
    pub report_fatal_errors: bool,
    pub configured_gamepads: ActiveGamepads,
    pub step: ReplaceStep,
}

/// A step's effect: the machine, the lifecycle and the next work.
pub struct Transition {
    pub machine: NativeReplace,
    pub lifecycle: StreamLifecycle,
    pub action: ReplaceAction,
}

impl NativeReplace {
    /// Whether the start is the one in progress and still wanted.
    pub open spec fn current(self, lifecycle: StreamLifecycle) -> bool {
        lifecycle.starting(self.generation, self.expectation)
    }

    pub open spec fn at(self, step: ReplaceStep) -> Self {
        NativeReplace { step, ..self }
    }

    /// Goes on with other work.
    pub open spec fn then_do(
        self,
        lifecycle: StreamLifecycle,
        step: ReplaceStep,
        action: ReplaceAction,
    ) -> Transition {
        Transition { machine: self.at(step), lifecycle, action }
    }

    pub open spec fn end(self, lifecycle: StreamLifecycle, outcome: ReplaceOutcome) -> Transition {
        Transition {
            machine: self.at(ReplaceStep::Finished),
            lifecycle,
            action: ReplaceAction::Finish { outcome, shut_down: false },
        }
    }

    pub open spec fn fail(self, lifecycle: StreamLifecycle, failure: ReplaceFailure) -> Transition {
        self.end(lifecycle, ReplaceOutcome::Failed(failure))
    }

    /// A blocking native call that does not return cannot be cancelled, so the
    /// streamer has to go down.
    pub open spec fn stuck(
        self,
        lifecycle: StreamLifecycle,
        failure: ReplaceFailure,
    ) -> Transition {
        Transition {
            machine: self.at(ReplaceStep::Finished),
            lifecycle: StreamLifecycle { terminating: true, ..lifecycle },
            action: ReplaceAction::Finish {
                outcome: ReplaceOutcome::Failed(failure),
                shut_down: !lifecycle.terminating,
            },
        }
    }

    /// Gives up a start that is not wanted any more.
    pub open spec fn give_up(self, lifecycle: StreamLifecycle) -> Transition {
        self.end(lifecycle.invalidated(self.generation), ReplaceOutcome::Superseded)
    }

    /// Gives up a start whose stream runs but was not published.
    pub open spec fn give_up_running(self, lifecycle: StreamLifecycle) -> Transition {
        self.then_do(
            lifecycle.invalidated(self.generation),
            ReplaceStep::StoppingNew { outcome: ReplaceOutcome::Superseded },
            ReplaceAction::StopNewStream,
        )
    }

    /// Takes a published stream back and ends with `outcome`.
    pub open spec fn take_back(
        self,
        lifecycle: StreamLifecycle,
        outcome: ReplaceOutcome,
    ) -> Transition {
        let after = lifecycle.discarded(self.generation);
        if lifecycle.native_generation == self.generation && lifecycle.stream_present {
            self.then_do(
                after,
                ReplaceStep::StoppingNew { outcome },
                ReplaceAction::StopNewStream,
            )
        } else {
            self.end(after, outcome)
        }
    }

    /// Goes on if the start is still wanted, and gives it up otherwise.
    pub open spec fn then_if_current(
        self,
        lifecycle: StreamLifecycle,
        step: ReplaceStep,
        action: ReplaceAction,
    ) -> Transition {
        if self.current(lifecycle) {
            self.then_do(lifecycle, step, action)
        } else {
            self.give_up(lifecycle)
        }
    }

    pub open spec fn fail_if_current(
        self,
        lifecycle: StreamLifecycle,
        failure: ReplaceFailure,
    ) -> Transition {
        if self.current(lifecycle) {
            self.fail(lifecycle, failure)
        } else {
            self.give_up(lifecycle)
        }
    }

    pub open spec fn old_stopped(self, lifecycle: StreamLifecycle, stuck: bool) -> Transition {
        if stuck {
            self.stuck(lifecycle, ReplaceFailure::StopStuck)
        } else {
            self.then_if_current(
                lifecycle,
                ReplaceStep::AnnouncingStart,
                ReplaceAction::AnnounceStart,
            )
        }
    }

    pub open spec fn start_announced(
        self,
        lifecycle: StreamLifecycle,
        delivered: bool,
    ) -> Transition {
        if delivered {
            self.then_if_current(lifecycle, ReplaceStep::QueryingHost, ReplaceAction::QueryHost)
        } else {
            self.fail(lifecycle, ReplaceFailure::Cancelled)
        }
    }

    pub open spec fn host_queried(
        self,
        lifecycle: StreamLifecycle,
        answered: bool,
        attached: ActiveGamepads,
    ) -> Transition {
        let machine = NativeReplace { configured_gamepads: attached, ..self };
        if answered {
            machine.then_if_current(
                lifecycle,
                ReplaceStep::AdjustingSettings,
                ReplaceAction::AdjustSettings,
            )
        } else {
            machine.fail(lifecycle, ReplaceFailure::HostQuery)
        }
    }

    pub open spec fn settings_adjusted(
        self,
        lifecycle: StreamLifecycle,
        verdict: SettingsVerdict,
    ) -> Transition {
        match verdict {
            SettingsVerdict::Accepted => self.then_if_current(
                lifecycle,
                ReplaceStep::StartingHost,
                ReplaceAction::StartHost,
            ),
            SettingsVerdict::HdrUnsupported => if self.report_fatal_errors {
                self.then_if_current(
                    lifecycle,
                    ReplaceStep::AnnouncingHdrFailure,
                    ReplaceAction::AnnounceHdrFailure,
                )
            } else {
                self.fail(lifecycle, ReplaceFailure::HdrUnsupported)
            },
            SettingsVerdict::Rejected => self.fail(lifecycle, ReplaceFailure::SettingsRejected),
        }
    }

    pub open spec fn hdr_failure_announced(
        self,
        lifecycle: StreamLifecycle,
        delivered: bool,
    ) -> Transition {
        self.fail(
            lifecycle,
            if delivered {
                ReplaceFailure::HdrUnsupported
            } else {
                ReplaceFailure::Cancelled
            },
        )
    }

    pub open spec fn host_started(self, lifecycle: StreamLifecycle, start: HostStart) -> Transition {
        match start {
            HostStart::Started => self.then_do(
                lifecycle,
                ReplaceStep::StartingNative,
                ReplaceAction::StartNative,
            ),
            HostStart::AlreadyStreaming => self.then_if_current(
                lifecycle,
                ReplaceStep::AnnouncingDuplicate,
                ReplaceAction::AnnounceDuplicate,
            ),
            HostStart::Refused => self.fail_if_current(lifecycle, ReplaceFailure::HostRefused),
            HostStart::Cancelled => self.fail(lifecycle, ReplaceFailure::Cancelled),
        }
    }

    pub open spec fn native_started(
        self,
        lifecycle: StreamLifecycle,
        start: NativeStart,
    ) -> Transition {
        match start {
            NativeStart::Started => if self.current(lifecycle) {
                self.then_do(lifecycle, ReplaceStep::Preparing, ReplaceAction::PreparePublication)
            } else {
                self.give_up_running(lifecycle)
            },
            NativeStart::Failed => self.fail_if_current(lifecycle, ReplaceFailure::NativeFailed),
            NativeStart::Stuck => self.stuck(lifecycle, ReplaceFailure::NativeStuck),
        }
    }

    pub open spec fn published(self, lifecycle: StreamLifecycle) -> Transition {
        if self.current(lifecycle) {
            self.then_do(
                StreamLifecycle { stream_present: true, ..lifecycle },
                ReplaceStep::QueueingCompletion,
                ReplaceAction::QueueCompletion,
            )
        } else {
            self.give_up_running(lifecycle)
        }
    }

    pub open spec fn completion_queued(
        self,
        lifecycle: StreamLifecycle,
        queued: bool,
    ) -> Transition {
        let announced = StreamLifecycle { media_ready_generation: self.generation, ..lifecycle };
        if !queued {
            self.take_back(
                lifecycle,
                ReplaceOutcome::Failed(ReplaceFailure::CompletionBackpressured),
            )
        } else if lifecycle.transport_present {
            self.then_do(
                announced,
                ReplaceStep::SettingUpTransport,
                ReplaceAction::SetUpTransport,
            )
        } else if self.current(announced) {
            self.take_back(announced, ReplaceOutcome::Failed(ReplaceFailure::TransportMissing))
        } else {
            self.take_back(announced, ReplaceOutcome::Superseded)
        }
    }

    pub open spec fn transport_set_up(
        self,
        lifecycle: StreamLifecycle,
        succeeded: bool,
    ) -> Transition {
        if !self.current(lifecycle) {
            self.take_back(lifecycle, ReplaceOutcome::Superseded)
        } else if succeeded {
            self.then_do(lifecycle, ReplaceStep::Committing, ReplaceAction::Commit)
        } else {
            self.fail(lifecycle, ReplaceFailure::TransportSetup)
        }
    }

    pub open spec fn committed(self, lifecycle: StreamLifecycle) -> Transition {
        if self.current(lifecycle) {
            self.end(
                StreamLifecycle { start_in_progress_generation: 0, ..lifecycle },
                ReplaceOutcome::Ready {
                    configured_gamepads: self.configured_gamepads,
                    native_generation: self.generation,
                },
            )
        } else {
            self.take_back(lifecycle, ReplaceOutcome::Superseded)
        }
    }

    pub open spec fn new_stopped(
        self,
        lifecycle: StreamLifecycle,
        outcome: ReplaceOutcome,
        stuck: bool,
    ) -> Transition {
        if stuck {
            self.stuck(lifecycle, ReplaceFailure::StopStuck)
        } else {
            self.end(lifecycle, outcome)
        }
    }

    /// What the result of the step under way leads to.
    pub open spec fn transition(
        self,
        lifecycle: StreamLifecycle,
        event: ReplaceEvent,
    ) -> Transition {
        match (self.step, event) {
            (ReplaceStep::StoppingOld, ReplaceEvent::Stopped { stuck }) => self.old_stopped(
                lifecycle,
                stuck,
            ),
            (ReplaceStep::AnnouncingStart, ReplaceEvent::Announced { delivered }) => {
                self.start_announced(lifecycle, delivered)
            },
            (ReplaceStep::QueryingHost, ReplaceEvent::HostQueried { answered, attached }) => {
                self.host_queried(lifecycle, answered, attached)
            },
            (ReplaceStep::AdjustingSettings, ReplaceEvent::SettingsAdjusted(verdict)) => {
                self.settings_adjusted(lifecycle, verdict)
            },
            (ReplaceStep::AnnouncingHdrFailure, ReplaceEvent::Announced { delivered }) => {
                self.hdr_failure_announced(lifecycle, delivered)
            },
            (ReplaceStep::StartingHost, ReplaceEvent::HostStarted(start)) => self.host_started(
                lifecycle,
                start,
            ),
            (ReplaceStep::AnnouncingDuplicate, ReplaceEvent::Announced { .. }) => {
                self.fail_if_current(lifecycle, ReplaceFailure::AlreadyStreaming)
            },
            (ReplaceStep::StartingNative, ReplaceEvent::NativeStarted(start)) => {
                self.native_started(lifecycle, start)
            },
            (ReplaceStep::Preparing, ReplaceEvent::GateHeld) => self.published(lifecycle),
            (ReplaceStep::QueueingCompletion, ReplaceEvent::CompletionQueued { queued }) => {
                self.completion_queued(lifecycle, queued)
            },
            (ReplaceStep::SettingUpTransport, ReplaceEvent::TransportSetUp { succeeded }) => {
                self.transport_set_up(lifecycle, succeeded)
            },
            (ReplaceStep::Committing, ReplaceEvent::GateHeld) => self.committed(lifecycle),
            (ReplaceStep::StoppingNew { outcome }, ReplaceEvent::Stopped { stuck }) => {
                self.new_stopped(lifecycle, outcome, stuck)
            },
            _ => Transition { machine: self, lifecycle, action: ReplaceAction::Ignore },
        }
    }

    /// The machine for a start that has just been begun.
    pub open spec fn fresh(
        lifecycle: StreamLifecycle,
        expectation: NativeStartExpectation,
        report_fatal_errors: bool,
        step: ReplaceStep,
    ) -> Self {
        NativeReplace {
            generation: next_generation(lifecycle.native_generation),
            expectation,
            report_fatal_errors,
            configured_gamepads: ActiveGamepads { bits: 0 },
            step,
        }
    }

    /// How a start begins: the present stream loses its place and its
    /// generation at once, so that nothing it still says is heard.
    pub open spec fn beginning(
        lifecycle: StreamLifecycle,
        expectation: NativeStartExpectation,
        report_fatal_errors: bool,
    ) -> Transition {
        let generation = next_generation(lifecycle.native_generation);
        let begun = StreamLifecycle {
            native_generation: generation,
            media_ready_generation: 0,
            stream_present: false,
            ..lifecycle.marked_in_progress(generation, expectation)
        };
        if !lifecycle.wants(expectation) {
            Self::fresh(lifecycle, expectation, report_fatal_errors, ReplaceStep::Finished).end(
                lifecycle,
                ReplaceOutcome::Superseded,
            )
        } else if lifecycle.stream_present {
            Transition {
                machine: Self::fresh(
                    lifecycle,
                    expectation,
                    report_fatal_errors,
                    ReplaceStep::StoppingOld,
                ),
                lifecycle: begun,
                action: ReplaceAction::StopOldStream,
            }
        } else {
            Transition {
                machine: Self::fresh(
                    lifecycle,
                    expectation,
                    report_fatal_errors,
                    ReplaceStep::AnnouncingStart,
                ),
                lifecycle: begun,
                action: ReplaceAction::AnnounceStart,
            }
        }
    }

    /// Begins a start.
    pub fn begin(
        lifecycle: &mut StreamLifecycle,
        expectation: NativeStartExpectation,
        report_fatal_errors: bool,
    ) -> (begun: (NativeReplace, ReplaceAction))
        ensures
            ({
                let t = Self::beginning(*old(lifecycle), expectation, report_fatal_errors);
                &&& begun.0 == t.machine
                &&& begun.1 == t.action
                &&& *final(lifecycle) == t.lifecycle
            }),
    {
        let generation: u64 = if lifecycle.native_generation == u64::MAX {
            0
        } else {
            lifecycle.native_generation + 1
        };
        let mut machine = NativeReplace {
            generation,
            expectation,
            report_fatal_errors,
            configured_gamepads: ActiveGamepads::empty(),
            step: ReplaceStep::Finished,
        };
        if !lifecycle.is_current(expectation) {
            return (
                machine,
                ReplaceAction::Finish { outcome: ReplaceOutcome::Superseded, shut_down: false },
            );
        }
        lifecycle.native_generation = generation;
        lifecycle.mark_native_start_in_progress(generation, expectation);
        lifecycle.media_ready_generation = 0;
        if lifecycle.stream_present {
            lifecycle.stream_present = false;
            machine.step = ReplaceStep::StoppingOld;
            (machine, ReplaceAction::StopOldStream)
        } else {
            machine.step = ReplaceStep::AnnouncingStart;
            (machine, ReplaceAction::AnnounceStart)
        }
    }

    fn finish(&mut self, outcome: ReplaceOutcome) -> (action: ReplaceAction)
        ensures
            *final(self) == old(self).at(ReplaceStep::Finished),
            action == (ReplaceAction::Finish { outcome, shut_down: false }),
    {
        self.step = ReplaceStep::Finished;
        ReplaceAction::Finish { outcome, shut_down: false }
    }

    fn shut_down(&mut self, lifecycle: &mut StreamLifecycle, failure: ReplaceFailure) -> (action:
        ReplaceAction)
        ensures
            *final(self) == old(self).stuck(*old(lifecycle), failure).machine,
            *final(lifecycle) == old(self).stuck(*old(lifecycle), failure).lifecycle,
            action == old(self).stuck(*old(lifecycle), failure).action,
    {
        self.step = ReplaceStep::Finished;
        let began: bool = lifecycle.begin_termination();
        ReplaceAction::Finish { outcome: ReplaceOutcome::Failed(failure), shut_down: began }
    }

    fn go_on_or_give_up(
        &mut self,
        lifecycle: &mut StreamLifecycle,
        step: ReplaceStep,
        action: ReplaceAction,
    ) -> (next: ReplaceAction)
        ensures
            *final(self) == old(self).then_if_current(*old(lifecycle), step, action).machine,
            *final(lifecycle) == old(self).then_if_current(
                *old(lifecycle),
                step,
                action,
            ).lifecycle,
            next == old(self).then_if_current(*old(lifecycle), step, action).action,
    {
        if lifecycle.native_start_context_current(self.generation, self.expectation) {
            self.step = step;
            action
        } else {
            lifecycle.invalidate_native_start_generation(self.generation);
            self.finish(ReplaceOutcome::Superseded)
        }
    }

    fn fail_or_give_up(
        &mut self,
        lifecycle: &mut StreamLifecycle,
        failure: ReplaceFailure,
    ) -> (next: ReplaceAction)
        ensures
            *final(self) == old(self).fail_if_current(*old(lifecycle), failure).machine,
            *final(lifecycle) == old(self).fail_if_current(*old(lifecycle), failure).lifecycle,
            next == old(self).fail_if_current(*old(lifecycle), failure).action,
    {
        if lifecycle.native_start_context_current(self.generation, self.expectation) {
            self.finish(ReplaceOutcome::Failed(failure))
        } else {
            lifecycle.invalidate_native_start_generation(self.generation);
            self.finish(ReplaceOutcome::Superseded)
        }
    }

    fn stop_unpublished(&mut self, lifecycle: &mut StreamLifecycle) -> (next: ReplaceAction)
        ensures
            *final(self) == old(self).give_up_running(*old(lifecycle)).machine,
            *final(lifecycle) == old(self).give_up_running(*old(lifecycle)).lifecycle,
            next == old(self).give_up_running(*old(lifecycle)).action,
    {
        lifecycle.invalidate_native_start_generation(self.generation);
        self.step = ReplaceStep::StoppingNew { outcome: ReplaceOutcome::Superseded };
        ReplaceAction::StopNewStream
    }

    fn withdraw(&mut self, lifecycle: &mut StreamLifecycle, outcome: ReplaceOutcome) -> (next:
        ReplaceAction)
        ensures
            *final(self) == old(self).take_back(*old(lifecycle), outcome).machine,
            *final(lifecycle) == old(self).take_back(*old(lifecycle), outcome).lifecycle,
            next == old(self).take_back(*old(lifecycle), outcome).action,
    {
        if lifecycle.discard_native_generation(self.generation) {
            self.step = ReplaceStep::StoppingNew { outcome };
            ReplaceAction::StopNewStream
        } else {
            self.finish(outcome)
        }
    }

    fn on_old_stopped(&mut self, lifecycle: &mut StreamLifecycle, stuck: bool) -> (action: ReplaceAction)
        ensures
            *final(self) == old(self).old_stopped(*old(lifecycle), stuck).machine,
            *final(lifecycle) == old(self).old_stopped(*old(lifecycle), stuck).lifecycle,
            action == old(self).old_stopped(*old(lifecycle), stuck).action,
    {
        if stuck {
            return self.shut_down(lifecycle, ReplaceFailure::StopStuck);
        }
        self.go_on_or_give_up(lifecycle, ReplaceStep::AnnouncingStart, ReplaceAction::AnnounceStart)
    }

    fn on_start_announced(&mut self, lifecycle: &mut StreamLifecycle, delivered: bool) -> (action: ReplaceAction)
        ensures
            *final(self) == old(self).start_announced(*old(lifecycle), delivered).machine,
            *final(lifecycle) == old(self).start_announced(*old(lifecycle), delivered).lifecycle,
            action == old(self).start_announced(*old(lifecycle), delivered).action,
    {
        if !delivered {
            return self.finish(ReplaceOutcome::Failed(ReplaceFailure::Cancelled));
        }
        self.go_on_or_give_up(lifecycle, ReplaceStep::QueryingHost, ReplaceAction::QueryHost)
    }

    fn on_host_queried(&mut self, lifecycle: &mut StreamLifecycle, answered: bool, attached: ActiveGamepads) -> (action: ReplaceAction)
        ensures
            *final(self) == old(self).host_queried(*old(lifecycle), answered, attached).machine,
            *final(lifecycle) == old(self).host_queried(*old(lifecycle), answered, attached).lifecycle,
            action == old(self).host_queried(*old(lifecycle), answered, attached).action,
    {
        self.configured_gamepads = attached;
        if !answered {
            return self.finish(ReplaceOutcome::Failed(ReplaceFailure::HostQuery));
        }
        self.go_on_or_give_up(
            lifecycle,
            ReplaceStep::AdjustingSettings,
            ReplaceAction::AdjustSettings,
        )
    }

    fn on_settings_adjusted(&mut self, lifecycle: &mut StreamLifecycle, verdict: SettingsVerdict) -> (action: ReplaceAction)
        ensures
            *final(self) == old(self).settings_adjusted(*old(lifecycle), verdict).machine,
            *final(lifecycle) == old(self).settings_adjusted(*old(lifecycle), verdict).lifecycle,
            action == old(self).settings_adjusted(*old(lifecycle), verdict).action,
    {
        match verdict {
            SettingsVerdict::Accepted => self.go_on_or_give_up(
                lifecycle,
                ReplaceStep::StartingHost,
                ReplaceAction::StartHost,
            ),
            SettingsVerdict::HdrUnsupported => if self.report_fatal_errors {
                self.go_on_or_give_up(
                    lifecycle,
                    ReplaceStep::AnnouncingHdrFailure,
                    ReplaceAction::AnnounceHdrFailure,
                )
            } else {
                self.finish(ReplaceOutcome::Failed(ReplaceFailure::HdrUnsupported))
            },
            SettingsVerdict::Rejected => self.finish(
                ReplaceOutcome::Failed(ReplaceFailure::SettingsRejected),
            ),
        }
    }

    fn on_hdr_failure_announced(&mut self, lifecycle: &mut StreamLifecycle, delivered: bool) -> (action: ReplaceAction)
        ensures
            *final(self) == old(self).hdr_failure_announced(*old(lifecycle), delivered).machine,
            *final(lifecycle) == old(self).hdr_failure_announced(*old(lifecycle), delivered).lifecycle,
            action == old(self).hdr_failure_announced(*old(lifecycle), delivered).action,
    {
        if delivered {
            self.finish(ReplaceOutcome::Failed(ReplaceFailure::HdrUnsupported))
        } else {
            self.finish(ReplaceOutcome::Failed(ReplaceFailure::Cancelled))
        }
    }

    fn on_host_started(&mut self, lifecycle: &mut StreamLifecycle, start: HostStart) -> (action: ReplaceAction)
        ensures
            *final(self) == old(self).host_started(*old(lifecycle), start).machine,
            *final(lifecycle) == old(self).host_started(*old(lifecycle), start).lifecycle,
            action == old(self).host_started(*old(lifecycle), start).action,
    {
        match start {
            HostStart::Started => {
                self.step = ReplaceStep::StartingNative;
                ReplaceAction::StartNative
            },
            HostStart::AlreadyStreaming => self.go_on_or_give_up(
                lifecycle,
                ReplaceStep::AnnouncingDuplicate,
                ReplaceAction::AnnounceDuplicate,
            ),
            HostStart::Refused => self.fail_or_give_up(lifecycle, ReplaceFailure::HostRefused),
            HostStart::Cancelled => self.finish(ReplaceOutcome::Failed(ReplaceFailure::Cancelled)),
        }
    }

    fn on_native_started(&mut self, lifecycle: &mut StreamLifecycle, start: NativeStart) -> (action: ReplaceAction)
        ensures
            *final(self) == old(self).native_started(*old(lifecycle), start).machine,
            *final(lifecycle) == old(self).native_started(*old(lifecycle), start).lifecycle,
            action == old(self).native_started(*old(lifecycle), start).action,
    {
        match start {
            NativeStart::Started => {
                if lifecycle.native_start_context_current(self.generation, self.expectation) {
                    self.step = ReplaceStep::Preparing;
                    ReplaceAction::PreparePublication
                } else {
                    self.stop_unpublished(lifecycle)
                }
            },
            NativeStart::Failed => self.fail_or_give_up(lifecycle, ReplaceFailure::NativeFailed),
            NativeStart::Stuck => self.shut_down(lifecycle, ReplaceFailure::NativeStuck),
        }
    }

    fn publish(&mut self, lifecycle: &mut StreamLifecycle) -> (action: ReplaceAction)
        ensures
            *final(self) == old(self).published(*old(lifecycle)).machine,
            *final(lifecycle) == old(self).published(*old(lifecycle)).lifecycle,
            action == old(self).published(*old(lifecycle)).action,
    {
        if lifecycle.native_start_context_current(self.generation, self.expectation) {
            lifecycle.stream_present = true;
            self.step = ReplaceStep::QueueingCompletion;
            ReplaceAction::QueueCompletion
        } else {
            self.stop_unpublished(lifecycle)
        }
    }

    fn on_completion_queued(&mut self, lifecycle: &mut StreamLifecycle, queued: bool) -> (action: ReplaceAction)
        ensures
            *final(self) == old(self).completion_queued(*old(lifecycle), queued).machine,
            *final(lifecycle) == old(self).completion_queued(*old(lifecycle), queued).lifecycle,
            action == old(self).completion_queued(*old(lifecycle), queued).action,
    {
        if !queued {
            return self.withdraw(
                lifecycle,
                ReplaceOutcome::Failed(ReplaceFailure::CompletionBackpressured),
            );
        }
        lifecycle.media_ready_generation = self.generation;
        if lifecycle.transport_present {
            self.step = ReplaceStep::SettingUpTransport;
            return ReplaceAction::SetUpTransport;
        }
        if lifecycle.native_start_context_current(self.generation, self.expectation) {
            self.withdraw(lifecycle, ReplaceOutcome::Failed(ReplaceFailure::TransportMissing))
        } else {
            self.withdraw(lifecycle, ReplaceOutcome::Superseded)
        }
    }

    fn on_transport_set_up(&mut self, lifecycle: &mut StreamLifecycle, succeeded: bool) -> (action: ReplaceAction)
        ensures
            *final(self) == old(self).transport_set_up(*old(lifecycle), succeeded).machine,
            *final(lifecycle) == old(self).transport_set_up(*old(lifecycle), succeeded).lifecycle,
            action == old(self).transport_set_up(*old(lifecycle), succeeded).action,
    {
        if !lifecycle.native_start_context_current(self.generation, self.expectation) {
            return self.withdraw(lifecycle, ReplaceOutcome::Superseded);
        }
        if succeeded {
            self.step = ReplaceStep::Committing;
            ReplaceAction::Commit
        } else {
            self.finish(ReplaceOutcome::Failed(ReplaceFailure::TransportSetup))
        }
    }

    fn commit(&mut self, lifecycle: &mut StreamLifecycle) -> (action: ReplaceAction)
        ensures
            *final(self) == old(self).committed(*old(lifecycle)).machine,
            *final(lifecycle) == old(self).committed(*old(lifecycle)).lifecycle,
            action == old(self).committed(*old(lifecycle)).action,
    {
        if lifecycle.native_start_context_current(self.generation, self.expectation) {
            lifecycle.start_in_progress_generation = 0;
            let outcome = ReplaceOutcome::Ready {
                configured_gamepads: self.configured_gamepads,
                native_generation: self.generation,
            };
            self.finish(outcome)
        } else {
            self.withdraw(lifecycle, ReplaceOutcome::Superseded)
        }
    }

    fn on_new_stopped(&mut self, lifecycle: &mut StreamLifecycle, outcome: ReplaceOutcome, stuck: bool) -> (action: ReplaceAction)
        ensures
            *final(self) == old(self).new_stopped(*old(lifecycle), outcome, stuck).machine,
            *final(lifecycle) == old(self).new_stopped(*old(lifecycle), outcome, stuck).lifecycle,
            action == old(self).new_stopped(*old(lifecycle), outcome, stuck).action,
    {
        if stuck {
            self.shut_down(lifecycle, ReplaceFailure::StopStuck)
        } else {
            self.finish(outcome)
        }
    }

    /// Takes the result of the step under way and says what comes next.
    pub fn advance(&mut self, lifecycle: &mut StreamLifecycle, event: ReplaceEvent) -> (action:
        ReplaceAction)
        ensures
            *final(self) == old(self).transition(*old(lifecycle), event).machine,
            *final(lifecycle) == old(self).transition(*old(lifecycle), event).lifecycle,
            action == old(self).transition(*old(lifecycle), event).action,
    {
        match (self.step, event) {
            (ReplaceStep::StoppingOld, ReplaceEvent::Stopped { stuck }) => self.on_old_stopped(
                lifecycle,
                stuck,
            ),
            (ReplaceStep::AnnouncingStart, ReplaceEvent::Announced { delivered }) => {
                self.on_start_announced(lifecycle, delivered)
            },
            (ReplaceStep::QueryingHost, ReplaceEvent::HostQueried { answered, attached }) => {
                self.on_host_queried(lifecycle, answered, attached)
            },
            (ReplaceStep::AdjustingSettings, ReplaceEvent::SettingsAdjusted(verdict)) => {
                self.on_settings_adjusted(lifecycle, verdict)
            },
            (ReplaceStep::AnnouncingHdrFailure, ReplaceEvent::Announced { delivered }) => {
                self.on_hdr_failure_announced(lifecycle, delivered)
            },
            (ReplaceStep::StartingHost, ReplaceEvent::HostStarted(start)) => self.on_host_started(
                lifecycle,
                start,
            ),
            (ReplaceStep::AnnouncingDuplicate, ReplaceEvent::Announced { .. }) => {
                self.fail_or_give_up(lifecycle, ReplaceFailure::AlreadyStreaming)
            },
            (ReplaceStep::StartingNative, ReplaceEvent::NativeStarted(start)) => {
                self.on_native_started(lifecycle, start)
            },
            (ReplaceStep::Preparing, ReplaceEvent::GateHeld) => self.publish(lifecycle),
            (ReplaceStep::QueueingCompletion, ReplaceEvent::CompletionQueued { queued }) => {
                self.on_completion_queued(lifecycle, queued)
            },
            (ReplaceStep::SettingUpTransport, ReplaceEvent::TransportSetUp { succeeded }) => {
                self.on_transport_set_up(lifecycle, succeeded)
            },
            (ReplaceStep::Committing, ReplaceEvent::GateHeld) => self.commit(lifecycle),
            (ReplaceStep::StoppingNew { outcome }, ReplaceEvent::Stopped { stuck }) => {
                self.on_new_stopped(lifecycle, outcome, stuck)
            },
            _ => ReplaceAction::Ignore,
        }
    }
}

/// A start ends ready only while it is wanted, and its stream is then the one in force.
pub proof fn law_only_a_wanted_start_gets_ready(
    machine: NativeReplace,
    lifecycle: StreamLifecycle,
    event: ReplaceEvent,
)
    requires
        !(machine.step is StoppingNew),
    ensures
        ({
            let t = machine.transition(lifecycle, event);
            t.action matches ReplaceAction::Finish {
                outcome: ReplaceOutcome::Ready { configured_gamepads, native_generation },
                ..
            } ==> {
                &&& machine.current(lifecycle)
                &&& native_generation == machine.generation
                &&& configured_gamepads == machine.configured_gamepads
                &&& t.lifecycle.in_force(native_generation)
            }
        }),
{
}

/// A step of a machine never plans to end ready by stopping its stream.
pub open spec fn stops_for_no_success(machine: NativeReplace) -> bool {
    machine.step matches ReplaceStep::StoppingNew { outcome } ==> !(outcome is Ready)
}

/// A stream that is being stopped never ends ready, whatever the steps.
pub proof fn law_stopped_stream_is_not_ready(
    machine: NativeReplace,
    lifecycle: StreamLifecycle,
    event: ReplaceEvent,
    expectation: NativeStartExpectation,
    report_fatal_errors: bool,
)
    requires
        stops_for_no_success(machine),
    ensures
        stops_for_no_success(
            NativeReplace::beginning(lifecycle, expectation, report_fatal_errors).machine,
        ),
        stops_for_no_success(machine.transition(lifecycle, event).machine),
        machine.step is StoppingNew ==> !(machine.transition(lifecycle, event).action matches
            ReplaceAction::Finish { outcome: ReplaceOutcome::Ready { .. }, .. }),
{
}

/// An unwanted start begins no further work but stopping what it started. The
/// one exception is a host that has just accepted the stream: its connection is
/// still made, and stopped afterwards.
pub proof fn law_unwanted_start_does_no_more_work(
    machine: NativeReplace,
    lifecycle: StreamLifecycle,
    event: ReplaceEvent,
)
    requires
        !machine.current(lifecycle),
        !(machine.step == ReplaceStep::StartingHost && event == ReplaceEvent::HostStarted(
            HostStart::Started,
        )),
        !(machine.step == ReplaceStep::QueueingCompletion && event == (
        ReplaceEvent::CompletionQueued { queued: true }) && lifecycle.transport_present),
    ensures
        ({
            let action = machine.transition(lifecycle, event).action;
            action is StopNewStream || action is Finish || action is Ignore
        }),
{
}

/// A start that is given up is out of force, so that none of its callbacks is heard.
pub proof fn law_given_up_start_is_out_of_force(
    machine: NativeReplace,
    lifecycle: StreamLifecycle,
    event: ReplaceEvent,
)
    requires
        !(machine.step is StoppingNew),
    ensures
        ({
            let t = machine.transition(lifecycle, event);
            t.action is StopNewStream || t.action == (ReplaceAction::Finish {
                outcome: ReplaceOutcome::Superseded,
                shut_down: false,
            }) ==> !t.lifecycle.in_force(machine.generation) && !t.lifecycle.hears(
                machine.generation,
                machine.expectation,
            )
        }),
{
}

/// Beginning a start silences the stream before it, and nothing of the new one
/// is sent before it was announced.
pub proof fn law_beginning_silences_the_old_stream(
    lifecycle: StreamLifecycle,
    expectation: NativeStartExpectation,
    report_fatal_errors: bool,
)
    requires
        lifecycle.wants(expectation),
    ensures
        ({
            let t = NativeReplace::beginning(lifecycle, expectation, report_fatal_errors);
            &&& !t.lifecycle.in_force(lifecycle.native_generation)
            &&& !t.lifecycle.stream_present
            &&& t.machine.generation != lifecycle.native_generation
            &&& t.lifecycle.adaptive_transport_active && t.machine.generation != 0
                ==> !t.lifecycle.media_ready(t.machine.generation)
            &&& t.machine.current(t.lifecycle)
        }),
{
}

/// What a start does while everything goes well.
pub open spec fn goes_to(
    machine: NativeReplace,
    lifecycle: StreamLifecycle,
    event: ReplaceEvent,
    step: ReplaceStep,
    action: ReplaceAction,
) -> bool {
    let t = machine.transition(lifecycle, event);
    &&& t.machine == NativeReplace { step, ..machine }
    &&& t.action == action
    &&& t.lifecycle == lifecycle
}

/// A wanted start that nothing hinders takes its steps in this order: the old stream
/// is stopped, the start is announced, the host is asked, the settings are adjusted,
/// the host and then the native stream are started, and the publication is prepared.
/// None of this changes the lifecycle.
pub proof fn law_wanted_start_makes_progress(
    machine: NativeReplace,
    lifecycle: StreamLifecycle,
    attached: ActiveGamepads,
)
    requires
        lifecycle.starting(machine.generation, machine.expectation),
    ensures
        goes_to(
            NativeReplace { step: ReplaceStep::StoppingOld, ..machine },
            lifecycle,
            ReplaceEvent::Stopped { stuck: false },
            ReplaceStep::AnnouncingStart,
            ReplaceAction::AnnounceStart,
        ),
        goes_to(
            NativeReplace { step: ReplaceStep::AnnouncingStart, ..machine },
            lifecycle,
            ReplaceEvent::Announced { delivered: true },
            ReplaceStep::QueryingHost,
            ReplaceAction::QueryHost,
        ),
        ({
            let t = (NativeReplace { step: ReplaceStep::QueryingHost, ..machine }).transition(
                lifecycle,
                ReplaceEvent::HostQueried { answered: true, attached },
            );
            &&& t.machine == NativeReplace {
                step: ReplaceStep::AdjustingSettings,
                configured_gamepads: attached,
                ..machine
            }
            &&& t.action is AdjustSettings
            &&& t.lifecycle == lifecycle
        }),
        goes_to(
            NativeReplace { step: ReplaceStep::AdjustingSettings, ..machine },
            lifecycle,
            ReplaceEvent::SettingsAdjusted(SettingsVerdict::Accepted),
            ReplaceStep::StartingHost,
            ReplaceAction::StartHost,
        ),
        goes_to(
            NativeReplace { step: ReplaceStep::StartingHost, ..machine },
            lifecycle,
            ReplaceEvent::HostStarted(HostStart::Started),
            ReplaceStep::StartingNative,
            ReplaceAction::StartNative,
        ),
        goes_to(
            NativeReplace { step: ReplaceStep::StartingNative, ..machine },
            lifecycle,
            ReplaceEvent::NativeStarted(NativeStart::Started),
            ReplaceStep::Preparing,
            ReplaceAction::PreparePublication,
        ),
{
}

/// A stream that runs is published, announced, set up on the transport and committed.
/// At the end it is there, its media are ready, its start is through, and the caller
/// learns its generation and the controllers that it was configured with.
pub proof fn law_running_stream_is_published(machine: NativeReplace, lifecycle: StreamLifecycle)
    requires
        lifecycle.starting(machine.generation, machine.expectation),
        lifecycle.transport_present,
        machine.step == ReplaceStep::Preparing,
    ensures
        ({
            let published = machine.transition(lifecycle, ReplaceEvent::GateHeld);
            let queued = published.machine.transition(
                published.lifecycle,
                ReplaceEvent::CompletionQueued { queued: true },
            );
            let set_up = queued.machine.transition(
                queued.lifecycle,
                ReplaceEvent::TransportSetUp { succeeded: true },
            );
            let committed = set_up.machine.transition(set_up.lifecycle, ReplaceEvent::GateHeld);
            &&& published.action is QueueCompletion
            &&& published.lifecycle.stream_present
            &&& queued.action is SetUpTransport
            &&& queued.lifecycle.media_ready(machine.generation)
            &&& set_up.action is Commit
            &&& committed.action == (ReplaceAction::Finish {
                outcome: ReplaceOutcome::Ready {
                    configured_gamepads: machine.configured_gamepads,
                    native_generation: machine.generation,
                },
                shut_down: false,
            })
            &&& committed.lifecycle == StreamLifecycle {
                stream_present: true,
                media_ready_generation: machine.generation,
                start_in_progress_generation: 0,
                ..lifecycle
            }
        }),
{
}

/// How a start fails while it is wanted, step by step: each failure has its name, a
/// stop that hangs brings the streamer down, and what the host and the native stream
/// refuse is told as such.
pub proof fn law_how_a_wanted_start_fails(
    machine: NativeReplace,
    lifecycle: StreamLifecycle,
    attached: ActiveGamepads,
)
    requires
        lifecycle.starting(machine.generation, machine.expectation),
    ensures
        ({
            let at = |step: ReplaceStep, event: ReplaceEvent|
                (NativeReplace { step, ..machine }).transition(lifecycle, event).action;
            let failed = |failure: ReplaceFailure, shut_down: bool|
                ReplaceAction::Finish { outcome: ReplaceOutcome::Failed(failure), shut_down };
            &&& at(ReplaceStep::StoppingOld, ReplaceEvent::Stopped { stuck: true }) == failed(
                ReplaceFailure::StopStuck,
                true,
            )
            &&& at(ReplaceStep::AnnouncingStart, ReplaceEvent::Announced { delivered: false })
                == failed(ReplaceFailure::Cancelled, false)
            &&& at(
                ReplaceStep::QueryingHost,
                ReplaceEvent::HostQueried { answered: false, attached },
            ) == failed(ReplaceFailure::HostQuery, false)
            &&& at(
                ReplaceStep::AdjustingSettings,
                ReplaceEvent::SettingsAdjusted(SettingsVerdict::Rejected),
            ) == failed(ReplaceFailure::SettingsRejected, false)
            &&& at(
                ReplaceStep::AdjustingSettings,
                ReplaceEvent::SettingsAdjusted(SettingsVerdict::HdrUnsupported),
            ) == (if machine.report_fatal_errors {
                ReplaceAction::AnnounceHdrFailure
            } else {
                failed(ReplaceFailure::HdrUnsupported, false)
            })
            &&& at(ReplaceStep::AnnouncingHdrFailure, ReplaceEvent::Announced { delivered: true })
                == failed(ReplaceFailure::HdrUnsupported, false)
            &&& at(ReplaceStep::AnnouncingHdrFailure, ReplaceEvent::Announced { delivered: false })
                == failed(ReplaceFailure::Cancelled, false)
            &&& at(ReplaceStep::StartingHost, ReplaceEvent::HostStarted(HostStart::Refused))
                == failed(ReplaceFailure::HostRefused, false)
            &&& at(ReplaceStep::StartingHost, ReplaceEvent::HostStarted(HostStart::Cancelled))
                == failed(ReplaceFailure::Cancelled, false)
            &&& at(
                ReplaceStep::StartingHost,
                ReplaceEvent::HostStarted(HostStart::AlreadyStreaming),
            ) is AnnounceDuplicate
            &&& at(ReplaceStep::AnnouncingDuplicate, ReplaceEvent::Announced { delivered: true })
                == failed(ReplaceFailure::AlreadyStreaming, false)
            &&& at(ReplaceStep::StartingNative, ReplaceEvent::NativeStarted(NativeStart::Failed))
                == failed(ReplaceFailure::NativeFailed, false)
            &&& at(ReplaceStep::StartingNative, ReplaceEvent::NativeStarted(NativeStart::Stuck))
                == failed(ReplaceFailure::NativeStuck, true)
            &&& at(
                ReplaceStep::SettingUpTransport,
                ReplaceEvent::TransportSetUp { succeeded: false },
            ) == failed(ReplaceFailure::TransportSetup, false)
        }),
{
}

/// A stop that hangs ends the streamer once: it is terminating from then on, and only
/// the one that began that is told to bring it down.
pub proof fn law_stop_that_hangs_ends_the_streamer_once(
    machine: NativeReplace,
    lifecycle: StreamLifecycle,
    outcome: ReplaceOutcome,
)
    ensures
        ({
            let at = |step: ReplaceStep, event: ReplaceEvent|
                (NativeReplace { step, ..machine }).transition(lifecycle, event);
            let old = at(ReplaceStep::StoppingOld, ReplaceEvent::Stopped { stuck: true });
            let native = at(
                ReplaceStep::StartingNative,
                ReplaceEvent::NativeStarted(NativeStart::Stuck),
            );
            let new = at(
                ReplaceStep::StoppingNew { outcome },
                ReplaceEvent::Stopped { stuck: true },
            );
            let finish = |failure: ReplaceFailure|
                ReplaceAction::Finish {
                    outcome: ReplaceOutcome::Failed(failure),
                    shut_down: !lifecycle.terminating,
                };
            &&& old.lifecycle == StreamLifecycle { terminating: true, ..lifecycle }
            &&& native.lifecycle == old.lifecycle && new.lifecycle == old.lifecycle
            &&& old.action == finish(ReplaceFailure::StopStuck)
            &&& native.action == finish(ReplaceFailure::NativeStuck)
            &&& new.action == finish(ReplaceFailure::StopStuck)
        }),
{
}

/// A stream that was published and cannot be completed is stopped before the outcome
/// is told, and the outcome is the one it was stopped for.
pub proof fn law_published_stream_is_taken_back(
    machine: NativeReplace,
    lifecycle: StreamLifecycle,
)
    requires
        lifecycle.starting(machine.generation, machine.expectation),
        lifecycle.stream_present,
        machine.generation != 0,
    ensures
        ({
            let queueing = NativeReplace { step: ReplaceStep::QueueingCompletion, ..machine };
            let full = queueing.transition(
                lifecycle,
                ReplaceEvent::CompletionQueued { queued: false },
            );
            let after_full = full.machine.transition(
                full.lifecycle,
                ReplaceEvent::Stopped { stuck: false },
            );
            let bare = StreamLifecycle { transport_present: false, ..lifecycle };
            let gone = queueing.transition(bare, ReplaceEvent::CompletionQueued { queued: true });
            let after_gone = gone.machine.transition(
                gone.lifecycle,
                ReplaceEvent::Stopped { stuck: false },
            );
            &&& full.action is StopNewStream && !full.lifecycle.stream_present
            &&& after_full.action == (ReplaceAction::Finish {
                outcome: ReplaceOutcome::Failed(ReplaceFailure::CompletionBackpressured),
                shut_down: false,
            })
            &&& gone.action is StopNewStream && !gone.lifecycle.stream_present
            &&& after_gone.action == (ReplaceAction::Finish {
                outcome: ReplaceOutcome::Failed(ReplaceFailure::TransportMissing),
                shut_down: false,
            })
            &&& !full.lifecycle.in_force(machine.generation)
            &&& !gone.lifecycle.in_force(machine.generation)
        }),
{
}

/// A start that is not wanted any more ends as superseded: at once while nothing runs,
/// and after its stream was stopped once one does.
pub proof fn law_unwanted_start_is_superseded(
    machine: NativeReplace,
    lifecycle: StreamLifecycle,
    attached: ActiveGamepads,
)
    requires
        !lifecycle.starting(machine.generation, machine.expectation),
        lifecycle.native_generation == machine.generation,
        lifecycle.stream_present,
    ensures
        ({
            let at = |step: ReplaceStep, event: ReplaceEvent|
                (NativeReplace { step, ..machine }).transition(lifecycle, event).action;
            let stopped = |step: ReplaceStep, event: ReplaceEvent|
                {
                    let t = (NativeReplace { step, ..machine }).transition(lifecycle, event);
                    t.machine.transition(
                        t.lifecycle,
                        ReplaceEvent::Stopped { stuck: false },
                    ).action
                };
            let superseded = ReplaceAction::Finish {
                outcome: ReplaceOutcome::Superseded,
                shut_down: false,
            };
            &&& at(ReplaceStep::StoppingOld, ReplaceEvent::Stopped { stuck: false }) == superseded
            &&& at(ReplaceStep::AnnouncingStart, ReplaceEvent::Announced { delivered: true })
                == superseded
            &&& at(
                ReplaceStep::QueryingHost,
                ReplaceEvent::HostQueried { answered: true, attached },
            ) == superseded
            &&& at(
                ReplaceStep::AdjustingSettings,
                ReplaceEvent::SettingsAdjusted(SettingsVerdict::Accepted),
            ) == superseded
            &&& at(ReplaceStep::StartingHost, ReplaceEvent::HostStarted(HostStart::Refused))
                == superseded
            &&& at(ReplaceStep::StartingNative, ReplaceEvent::NativeStarted(NativeStart::Failed))
                == superseded
            &&& at(ReplaceStep::StartingNative, ReplaceEvent::NativeStarted(NativeStart::Started))
                is StopNewStream
            &&& at(ReplaceStep::Preparing, ReplaceEvent::GateHeld) is StopNewStream
            &&& at(
                ReplaceStep::SettingUpTransport,
                ReplaceEvent::TransportSetUp { succeeded: true },
            ) is StopNewStream
            &&& at(ReplaceStep::Committing, ReplaceEvent::GateHeld) is StopNewStream
            &&& stopped(ReplaceStep::Preparing, ReplaceEvent::GateHeld) == superseded
            &&& stopped(ReplaceStep::Committing, ReplaceEvent::GateHeld) == superseded
            &&& stopped(
                ReplaceStep::StartingNative,
                ReplaceEvent::NativeStarted(NativeStart::Started),
            ) == superseded
            &&& stopped(
                ReplaceStep::SettingUpTransport,
                ReplaceEvent::TransportSetUp { succeeded: true },
            ) == superseded
        }),
{
}

/// A start that is not wanted ends at once and changes nothing. A wanted one stops the
/// stream that is there, or announces itself where there is none; it takes the next
/// generation, carries what it was asked for, and no controller is configured yet.
pub proof fn law_how_a_start_begins(
    lifecycle: StreamLifecycle,
    expectation: NativeStartExpectation,
    report_fatal_errors: bool,
)
    ensures
        ({
            let t = NativeReplace::beginning(lifecycle, expectation, report_fatal_errors);
            &&& !lifecycle.wants(expectation) ==> t.lifecycle == lifecycle && t.action == (
            ReplaceAction::Finish { outcome: ReplaceOutcome::Superseded, shut_down: false })
            &&& lifecycle.wants(expectation) ==> {
                &&& t.action == (if lifecycle.stream_present {
                    ReplaceAction::StopOldStream
                } else {
                    ReplaceAction::AnnounceStart
                })
                &&& t.machine.step == (if lifecycle.stream_present {
                    ReplaceStep::StoppingOld
                } else {
                    ReplaceStep::AnnouncingStart
                })
                &&& t.lifecycle.starting(t.machine.generation, expectation)
                &&& t.lifecycle.media_ready_generation == 0
                &&& t.lifecycle.transport_present == lifecycle.transport_present
                &&& t.lifecycle.session == lifecycle.session
                &&& t.lifecycle.replay_pending == lifecycle.replay_pending
            }
            &&& t.machine.generation == (if lifecycle.native_generation == 0xffff_ffff_ffff_ffff {
                0
            } else {
                lifecycle.native_generation + 1
            })
            &&& t.machine.expectation == expectation
            &&& t.machine.report_fatal_errors == report_fatal_errors
            &&& t.machine.configured_gamepads.bits == 0
        }),
{
}

} // verus!
