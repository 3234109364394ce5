//! Which native stream, which start request and which transport are in force.
//!
//! Starting a native stream takes seconds, and meanwhile the browser may ask
//! again, change its transport or leave. Each native stream, each start request
//! and each transport therefore has a generation number, and work that was
//! begun for one generation has no effect once another is in force.

use crate::adaptive_bitrate::{
    AdaptiveBitrateController, BitrateReduction, FeedbackSample, STARTUP_WARMUP_SECS,
};
use crate::permissions::StreamSettings;
use crate::time::Instant;
use vstd::prelude::*;

verus! {

/// How long a lost transport may stay lost.
pub const TERMINATE_TIMEOUT_NANOS: u128 = 10_000_000_000;

/// The request and the transport that a native start was begun for.
#[derive(Clone, Copy, Debug, PartialEq, Eq, Structural)]
pub struct NativeStartExpectation {
    pub request_generation: u64,
    pub transport_generation: u64,
    pub require_adaptive_transport: bool,
}

impl NativeStartExpectation {
    /// A start that the browser asked for.
    pub fn browser(request_generation: u64, transport_generation: u64) -> (expectation: Self)
        ensures
            expectation == (NativeStartExpectation {
                request_generation,
                transport_generation,
                require_adaptive_transport: false,
            }),
    {
        NativeStartExpectation {
            request_generation,
            transport_generation,
            require_adaptive_transport: false,
        }
    }

    /// A restart at another bitrate, which only a data transport calls for.
    pub fn adaptive(request_generation: u64, transport_generation: u64) -> (expectation: Self)
        ensures
            expectation == (NativeStartExpectation {
                request_generation,
                transport_generation,
                require_adaptive_transport: true,
            }),
    {
        NativeStartExpectation {
            request_generation,
            transport_generation,
            require_adaptive_transport: true,
        }
    }

    /// Whether the start is still wanted.
    pub open spec fn matches(
        self,
        terminating: bool,
        adaptive_transport_active: bool,
        request_generation: u64,
        transport_generation: u64,
    ) -> bool {
        &&& !terminating
        &&& self.request_generation == request_generation
        &&& self.transport_generation == transport_generation
        &&& self.require_adaptive_transport ==> adaptive_transport_active
    }
}

pub fn native_start_expectation_matches(
    expectation: NativeStartExpectation,
    terminating: bool,
    adaptive_transport_active: bool,
    request_generation: u64,
    transport_generation: u64,
) -> (current: bool)
    ensures
        current == expectation.matches(
            terminating,
            adaptive_transport_active,
            request_generation,
            transport_generation,
        ),
{
    !terminating && expectation.request_generation == request_generation
        && expectation.transport_generation == transport_generation && (
    !expectation.require_adaptive_transport || adaptive_transport_active)
}

/// Whether a callback of a native stream still counts: the stream is the current
/// one, and the start that it belongs to is the registered one and still wanted.
pub fn native_callback_context_matches(
    callback_generation: u64,
    current_native_generation: u64,
    callback_expectation: NativeStartExpectation,
    registered_expectation: NativeStartExpectation,
    terminating: bool,
    adaptive_transport_active: bool,
    request_generation: u64,
    transport_generation: u64,
) -> (current: bool)
    ensures
        current == (callback_generation == current_native_generation && callback_expectation
            == registered_expectation && callback_expectation.matches(
            terminating,
            adaptive_transport_active,
            request_generation,
            transport_generation,
        )),
{
    callback_generation == current_native_generation && callback_expectation
        == registered_expectation && native_start_expectation_matches(
        callback_expectation,
        terminating,
        adaptive_transport_active,
        request_generation,
        transport_generation,
    )
}

/// Whether audio and video of a generation may be sent. A data transport waits
/// until its setup is announced; a WebRTC track recovers a lost start by itself.
pub fn native_media_ready_for_transport(
    current_generation: bool,
    data_transport_media_gate: bool,
    ready_generation: u64,
    generation: u64,
) -> (ready: bool)
    ensures
        ready == (current_generation && (data_transport_media_gate ==> ready_generation
            == generation)),
{
    current_generation && (!data_transport_media_gate || ready_generation == generation)
}

/// The settings of the running stream and the controller of its bitrate.
#[derive(Debug)]
pub struct AdaptiveSession {
    pub generation: u64,
    pub settings: Option<StreamSettings>,
    pub controller: AdaptiveBitrateController,
}

#[derive(Debug)]
pub struct StreamLifecycle {
    pub native_generation: u64,
    /// The generation whose setup was announced, zero for none.
    pub media_ready_generation: u64,
    /// The generation whose start is not through, zero for none.
    pub start_in_progress_generation: u64,
    /// The expectation of the start that ran last.
    pub registered: NativeStartExpectation,
    pub start_request_generation: u64,
    pub transport_generation: u64,
    /// The transport carries media as data, and its feedback steers the bitrate.
    pub adaptive_transport_active: bool,
    pub adaptive_restart_pending: bool,
    pub terminating: bool,
    pub stream_present: bool,
    pub transport_present: bool,
    pub terminate_requested_at: Option<Instant>,
    /// Input is noted but not dispatched, because a replay is due.
    pub replay_pending: bool,
    pub session: AdaptiveSession,
}

/// The number after `generation`; after the largest comes zero.
pub open spec fn next_generation(generation: u64) -> u64 {
    if generation == u64::MAX {
        0
    } else {
        (generation + 1) as u64
    }
}

fn following(generation: u64) -> (next: u64)
    ensures
        next == next_generation(generation),
{
    if generation == u64::MAX {
        0
    } else {
        generation + 1
    }
}

/// A lower bitrate that was decided on, and the context of the decision.
#[derive(Clone, Copy, Debug, PartialEq, Eq, Structural)]
pub struct AdaptiveRestartRequest {
    pub session_generation: u64,
    pub expectation: NativeStartExpectation,
    pub reduction: BitrateReduction,
}

/// What a report of the transport leads to.
#[derive(Clone, Copy, Debug, PartialEq, Eq, Structural)]
pub struct FeedbackReaction {
    /// The round trip time to show to the user.
    pub shown_rtt_ms: Option<u32>,
    pub restart: Option<AdaptiveRestartRequest>,
}

impl StreamLifecycle {
    pub fn new() -> (lifecycle: StreamLifecycle)
        ensures
            lifecycle == Self::initial(),
    {
        StreamLifecycle {
            native_generation: 0,
            media_ready_generation: 0,
            start_in_progress_generation: 0,
            registered: NativeStartExpectation::browser(0, 0),
            start_request_generation: 0,
            transport_generation: 0,
            adaptive_transport_active: false,
            adaptive_restart_pending: false,
            terminating: false,
            stream_present: false,
            transport_present: false,
            terminate_requested_at: None,
            replay_pending: false,
            session: AdaptiveSession {
                generation: 0,
                settings: None,
                controller: AdaptiveBitrateController::default(),
            },
        }
    }

    /// Nothing was started and no transport is there.
    pub open spec fn initial() -> StreamLifecycle {
        StreamLifecycle {
            native_generation: 0,
            media_ready_generation: 0,
            start_in_progress_generation: 0,
            registered: NativeStartExpectation {
                request_generation: 0,
                transport_generation: 0,
                require_adaptive_transport: false,
            },
            start_request_generation: 0,
            transport_generation: 0,
            adaptive_transport_active: false,
            adaptive_restart_pending: false,
            terminating: false,
            stream_present: false,
            transport_present: false,
            terminate_requested_at: None,
            replay_pending: false,
            session: AdaptiveSession {
                generation: 0,
                settings: None,
                controller: AdaptiveBitrateController::fresh(false, 0, 0),
            },
        }
    }

    /// Whether a start is still wanted.
    pub open spec fn wants(self, expectation: NativeStartExpectation) -> bool {
        expectation.matches(
            self.terminating,
            self.adaptive_transport_active,
            self.start_request_generation,
            self.transport_generation,
        )
    }

    pub fn is_current(&self, expectation: NativeStartExpectation) -> (current: bool)
        ensures
            current == self.wants(expectation),
    {
        native_start_expectation_matches(
            expectation,
            self.terminating,
            self.adaptive_transport_active,
            self.start_request_generation,
            self.transport_generation,
        )
    }

    /// Whether the native stream `generation` is being started and still wanted.
    pub open spec fn starting(self, generation: u64, expectation: NativeStartExpectation) -> bool {
        &&& self.native_generation == generation
        &&& self.start_in_progress_generation == generation
        &&& self.registered == expectation
        &&& self.wants(expectation)
    }

    pub fn native_start_context_current(
        &self,
        generation: u64,
        expectation: NativeStartExpectation,
    ) -> (current: bool)
        ensures
            current == self.starting(generation, expectation),
    {
        self.native_generation == generation && self.start_in_progress_generation == generation
            && self.registered == expectation && self.is_current(expectation)
    }

    pub open spec fn hears(self, generation: u64, expectation: NativeStartExpectation) -> bool {
        &&& self.native_generation == generation
        &&& self.registered == expectation
        &&& self.wants(expectation)
    }

    /// Whether a callback that native stream `generation` made for
    /// `expectation` may still be passed on.
    pub fn native_callback_context_current(
        &self,
        generation: u64,
        expectation: NativeStartExpectation,
    ) -> (current: bool)
        ensures
            current == self.hears(generation, expectation),
    {
        native_callback_context_matches(
            generation,
            self.native_generation,
            expectation,
            self.registered,
            self.terminating,
            self.adaptive_transport_active,
            self.start_request_generation,
            self.transport_generation,
        )
    }

    /// The native stream `generation` is the one in force; while it is being
    /// started, only as long as the start is wanted.
    pub open spec fn in_force(self, generation: u64) -> bool {
        &&& !self.terminating
        &&& self.native_generation == generation
        &&& self.start_in_progress_generation == generation ==> self.wants(self.registered)
    }

    pub fn is_current_native_generation(&self, generation: u64) -> (current: bool)
        ensures
            current == self.in_force(generation),
    {
        if self.terminating || self.native_generation != generation {
            return false;
        }
        self.start_in_progress_generation != generation || self.is_current(self.registered)
    }

    pub open spec fn media_ready(self, generation: u64) -> bool {
        &&& self.in_force(generation)
        &&& self.adaptive_transport_active ==> self.media_ready_generation == generation
    }

    pub fn is_native_media_ready(&self, generation: u64) -> (ready: bool)
        ensures
            ready == self.media_ready(generation),
    {
        native_media_ready_for_transport(
            self.is_current_native_generation(generation),
            self.adaptive_transport_active,
            self.media_ready_generation,
            generation,
        )
    }

    /// Puts a new transport in place of the present one and returns its generation.
    pub fn set_transport(&mut self, data_transport_media_gate: bool) -> (generation: u64)
        ensures
            generation == next_generation(old(self).transport_generation),
            *final(self) == (StreamLifecycle {
                transport_generation: generation,
                transport_present: true,
                adaptive_transport_active: data_transport_media_gate,
                terminate_requested_at: None,
                ..*old(self)
            }),
    {
        self.transport_generation = following(self.transport_generation);
        self.transport_present = true;
        self.adaptive_transport_active = data_transport_media_gate;
        self.terminate_requested_at = None;
        self.transport_generation
    }

    /// Registers a start that the browser asked for over transport `generation`.
    pub fn request_start(&mut self, generation: u64) -> (expectation: NativeStartExpectation)
        ensures
            expectation.request_generation == next_generation(old(self).start_request_generation),
            expectation.transport_generation == generation,
            !expectation.require_adaptive_transport,
            *final(self) == (StreamLifecycle {
                start_request_generation: expectation.request_generation,
                ..*old(self)
            }),
    {
        self.start_request_generation = following(self.start_request_generation);
        NativeStartExpectation::browser(self.start_request_generation, generation)
    }

    pub open spec fn marked_in_progress(
        self,
        generation: u64,
        expectation: NativeStartExpectation,
    ) -> Self {
        StreamLifecycle {
            registered: expectation,
            start_in_progress_generation: generation,
            ..self
        }
    }

    pub fn mark_native_start_in_progress(
        &mut self,
        generation: u64,
        expectation: NativeStartExpectation,
    )
        ensures
            *final(self) == old(self).marked_in_progress(generation, expectation),
    {
        self.registered = expectation;
        self.start_in_progress_generation = generation;
    }

    /// The lifecycle with `generation` out of force, if it was in force.
    pub open spec fn invalidated(self, generation: u64) -> Self {
        if self.native_generation == generation {
            StreamLifecycle {
                native_generation: next_generation(generation),
                media_ready_generation: 0,
                start_in_progress_generation: if self.start_in_progress_generation == generation {
                    0
                } else {
                    self.start_in_progress_generation
                },
                ..self
            }
        } else {
            self
        }
    }

    pub fn invalidate_native_start_generation(&mut self, generation: u64)
        ensures
            *final(self) == old(self).invalidated(generation),
    {
        if self.native_generation == generation {
            self.native_generation = following(generation);
            self.media_ready_generation = 0;
            if self.start_in_progress_generation == generation {
                self.start_in_progress_generation = 0;
            }
        }
    }

    /// The lifecycle without the native stream `generation`.
    pub open spec fn discarded(self, generation: u64) -> Self {
        if self.native_generation == generation {
            StreamLifecycle { stream_present: false, ..self.invalidated(generation) }
        } else {
            self
        }
    }

    /// Takes the native stream `generation` out of force. The result says
    /// whether there is a stream, removed from its place, that has to be stopped.
    pub fn discard_native_generation(&mut self, generation: u64) -> (stop: bool)
        ensures
            *final(self) == old(self).discarded(generation),
            stop == (old(self).native_generation == generation && old(self).stream_present),
    {
        if self.native_generation != generation {
            return false;
        }
        let stop: bool = self.stream_present;
        self.stream_present = false;
        self.invalidate_native_start_generation(generation);
        stop
    }

    pub open spec fn discarded_in_progress(self) -> Self {
        if self.start_in_progress_generation == 0 {
            self
        } else {
            self.discarded(self.start_in_progress_generation)
        }
    }

    /// Discards the native stream that is being started, if there is one.
    pub fn discard_in_progress_native_start(&mut self) -> (stop: bool)
        ensures
            *final(self) == old(self).discarded_in_progress(),
            stop == (old(self).start_in_progress_generation != 0 && old(self).native_generation
                == old(self).start_in_progress_generation && old(self).stream_present),
    {
        let generation: u64 = self.start_in_progress_generation;
        if generation == 0 {
            return false;
        }
        self.discard_native_generation(generation)
    }

    /// Commits to shutting down; only the first call does.
    pub fn begin_termination(&mut self) -> (began: bool)
        ensures
            began == !old(self).terminating,
            *final(self) == (StreamLifecycle { terminating: true, ..*old(self) }),
    {
        let began: bool = !self.terminating;
        self.terminating = true;
        began
    }

    /// Commits to shutting down because of a start, if that start is still wanted.
    pub fn begin_termination_for_expected_start(
        &mut self,
        expectation: NativeStartExpectation,
    ) -> (began: bool)
        ensures
            began == old(self).wants(expectation),
            *final(self) == (StreamLifecycle {
                terminating: old(self).terminating || began,
                ..*old(self)
            }),
    {
        if self.is_current(expectation) {
            self.begin_termination()
        } else {
            false
        }
    }

    /// Commits to shutting down because the native stream `generation` ended, if
    /// it is the one in force.
    pub fn begin_native_termination(&mut self, generation: u64) -> (began: bool)
        ensures
            began == old(self).in_force(generation),
            *final(self) == (StreamLifecycle {
                terminating: old(self).terminating || began,
                ..*old(self)
            }),
    {
        if !self.is_current_native_generation(generation) {
            return false;
        }
        self.begin_termination()
    }

    /// Takes stream and transport out of their places, so that the caller can
    /// close them. The result says which of the two were there.
    pub fn detach_for_stop(&mut self) -> (detached: (bool, bool))
        ensures
            detached.0 == old(self).stream_present,
            detached.1 == old(self).transport_present,
            *final(self) == (StreamLifecycle {
                adaptive_transport_active: false,
                native_generation: next_generation(old(self).native_generation),
                stream_present: false,
                transport_present: false,
                ..*old(self)
            }),
    {
        self.adaptive_transport_active = false;
        self.native_generation = following(self.native_generation);
        let stream: bool = self.stream_present;
        let transport: bool = self.transport_present;
        self.stream_present = false;
        self.transport_present = false;
        (stream, transport)
    }

    /// Notes that the transport is gone. The result names the transport that
    /// [`StreamLifecycle::take_expired_terminate_request`] is to be asked about.
    pub fn request_terminate(&mut self, now: Instant) -> (generation: u64)
        ensures
            generation == old(self).transport_generation,
            *final(self) == (StreamLifecycle { terminate_requested_at: Some(now), ..*old(self) }),
    {
        self.terminate_requested_at = Some(now);
        self.transport_generation
    }

    pub fn clear_terminate_request(&mut self)
        ensures
            *final(self) == (StreamLifecycle { terminate_requested_at: None, ..*old(self) }),
    {
        self.terminate_requested_at = None;
    }

    /// The transport `generation` is still in place, and has been gone for too long.
    pub open spec fn terminate_expired(self, generation: u64, now: Instant) -> bool {
        &&& self.transport_generation == generation
        &&& self.terminate_requested_at is Some
        &&& now.elapsed_since(self.terminate_requested_at->0) > TERMINATE_TIMEOUT_NANOS
    }

    /// Whether the stream has to stop because transport `generation` was lost.
    pub fn take_expired_terminate_request(&mut self, generation: u64, now: Instant) -> (expired:
        bool)
        ensures
            expired == old(self).terminate_expired(generation, now),
            *final(self) == (StreamLifecycle {
                terminate_requested_at: if expired {
                    None
                } else {
                    old(self).terminate_requested_at
                },
                ..*old(self)
            }),
    {
        if self.transport_generation != generation {
            return false;
        }
        let expired: bool = match self.terminate_requested_at {
            Some(requested_at) => now.nanos_since(requested_at) > TERMINATE_TIMEOUT_NANOS,
            None => false,
        };
        if expired {
            self.terminate_requested_at = None;
        }
        expired
    }

    /// Starts an adaptive session for settings that the browser asked for.
    pub fn open_session(&mut self, settings: StreamSettings, now: Instant)
        requires
            now.has_room(STARTUP_WARMUP_SECS * 1_000_000_000),
        ensures
            final(self).session.generation == next_generation(old(self).session.generation),
            final(self).session.settings == Some(settings),
            final(self).session.controller.startup_warmup_until is Some,
            final(self).session.controller.startup_warmup_until->0.nanos() == now.nanos()
                + STARTUP_WARMUP_SECS * 1_000_000_000,
            final(self).session.controller == (AdaptiveBitrateController {
                startup_warmup_until: final(self).session.controller.startup_warmup_until,
                ..AdaptiveBitrateController::fresh(
                    settings.adaptive_bitrate,
                    settings.bitrate_kbps,
                    settings.minimum_bitrate_kbps,
                )
            }),
            *final(self) == (StreamLifecycle { session: final(self).session, ..*old(self) }),
    {
        self.session.generation = following(self.session.generation);
        self.session.controller.reset(
            settings.adaptive_bitrate,
            settings.bitrate_kbps,
            settings.minimum_bitrate_kbps,
            now,
        );
        self.session.settings = Some(settings);
    }

    /// The reports of the transport are taken note of.
    pub open spec fn takes_feedback(self) -> bool {
        !self.terminating && self.adaptive_transport_active && self.session.settings is Some
    }

    /// The lifecycle after a report of the transport.
    pub open spec fn after_feedback(self, feedback: FeedbackSample, now: Instant) -> Self {
        let controller = self.session.controller;
        if !self.takes_feedback() {
            self
        } else if self.adaptive_restart_pending {
            StreamLifecycle {
                session: AdaptiveSession {
                    controller: controller.observed_while_restart_pending(feedback, now),
                    ..self.session
                },
                ..self
            }
        } else {
            StreamLifecycle {
                session: AdaptiveSession {
                    controller: controller.observed(feedback, now),
                    ..self.session
                },
                adaptive_restart_pending: controller.reduction(feedback, now) is Some,
                ..self
            }
        }
    }

    /// The restart that a report of the transport leads to.
    pub open spec fn restart_for(
        self,
        feedback: FeedbackSample,
        now: Instant,
    ) -> Option<AdaptiveRestartRequest> {
        if !self.takes_feedback() || self.adaptive_restart_pending {
            None
        } else {
            match self.session.controller.reduction(feedback, now) {
                Some(reduction) => Some(
                    AdaptiveRestartRequest {
                        session_generation: self.session.generation,
                        expectation: NativeStartExpectation {
                            request_generation: self.start_request_generation,
                            transport_generation: self.transport_generation,
                            require_adaptive_transport: true,
                        },
                        reduction,
                    },
                ),
                None => None,
            }
        }
    }

    /// Takes a report of the transport.
    pub fn on_network_feedback(&mut self, feedback: FeedbackSample, now: Instant) -> (reaction:
        FeedbackReaction)
        ensures
            reaction.shown_rtt_ms == (if !old(self).terminating && feedback.rtt_ms > 0 {
                Some(feedback.rtt_ms)
            } else {
                None
            }),
            reaction.restart == old(self).restart_for(feedback, now),
            *final(self) == old(self).after_feedback(feedback, now),
    {
        if self.terminating {
            return FeedbackReaction { shown_rtt_ms: None, restart: None };
        }
        let shown_rtt_ms: Option<u32> = if feedback.rtt_ms > 0 {
            Some(feedback.rtt_ms)
        } else {
            None
        };
        if !self.adaptive_transport_active || self.session.settings.is_none() {
            return FeedbackReaction { shown_rtt_ms, restart: None };
        }
        if self.adaptive_restart_pending {
            self.session.controller.observe_while_restart_pending(feedback, now);
            return FeedbackReaction { shown_rtt_ms, restart: None };
        }
        match self.session.controller.observe(feedback, now) {
            Some(reduction) => {
                // The controller is at its new target already. The mark keeps a
                // second reduction from piling up behind it.
                self.adaptive_restart_pending = true;
                FeedbackReaction {
                    shown_rtt_ms,
                    restart: Some(
                        AdaptiveRestartRequest {
                            session_generation: self.session.generation,
                            expectation: NativeStartExpectation::adaptive(
                                self.start_request_generation,
                                self.transport_generation,
                            ),
                            reduction,
                        },
                    ),
                }
            },
            None => FeedbackReaction { shown_rtt_ms, restart: None },
        }
    }

    /// The lifecycle with `reduction` taken back, if it belongs to the present
    /// session and is the one in force.
    pub open spec fn reduction_rolled_back(
        self,
        session_generation: u64,
        reduction: BitrateReduction,
    ) -> Self {
        if self.session.generation == session_generation
            && self.session.controller.current_bitrate_kbps == reduction.bitrate_kbps {
            StreamLifecycle {
                session: AdaptiveSession {
                    controller: self.session.controller.rolled_back(
                        reduction.previous_bitrate_kbps,
                    ),
                    ..self.session
                },
                ..self
            }
        } else {
            self
        }
    }

    pub fn rollback_pending_adaptive_reduction(
        &mut self,
        session_generation: u64,
        reduction: BitrateReduction,
    )
        ensures
            *final(self) == old(self).reduction_rolled_back(session_generation, reduction),
    {
        if self.session.generation == session_generation {
            self.session.controller.cancel_reduction(reduction);
        }
    }
}

/// A start that another request has followed is not wanted any more.
pub proof fn law_newer_request_supersedes(
    lifecycle: StreamLifecycle,
    expectation: NativeStartExpectation,
)
    requires
        lifecycle.wants(expectation),
    ensures
        !(StreamLifecycle {
            start_request_generation: next_generation(lifecycle.start_request_generation),
            ..lifecycle
        }).wants(expectation),
{
}

/// Nothing that was begun for one transport is wanted after another took its place.
pub proof fn law_newer_transport_supersedes(
    lifecycle: StreamLifecycle,
    expectation: NativeStartExpectation,
    data_transport_media_gate: bool,
)
    requires
        lifecycle.wants(expectation),
    ensures
        ({
            let after = StreamLifecycle {
                transport_generation: next_generation(lifecycle.transport_generation),
                transport_present: true,
                adaptive_transport_active: data_transport_media_gate,
                terminate_requested_at: None,
                ..lifecycle
            };
            &&& !after.wants(expectation)
            &&& forall|generation: u64| !#[trigger] after.starting(generation, expectation)
            &&& forall|generation: u64| !#[trigger] after.hears(generation, expectation)
        }),
{
}

/// Once the shutdown is committed to, no start is wanted and no native stream is in force.
pub proof fn law_termination_ends_everything(
    lifecycle: StreamLifecycle,
    expectation: NativeStartExpectation,
    generation: u64,
)
    requires
        lifecycle.terminating,
    ensures
        !lifecycle.wants(expectation),
        !lifecycle.starting(generation, expectation),
        !lifecycle.in_force(generation),
        !lifecycle.media_ready(generation),
{
}

/// A discarded native stream is out of force, and media and callbacks of it are ignored.
pub proof fn law_discarded_stream_is_silent(
    lifecycle: StreamLifecycle,
    generation: u64,
    expectation: NativeStartExpectation,
)
    ensures
        ({
            let after = lifecycle.discarded(generation);
            &&& !after.in_force(generation)
            &&& !after.media_ready(generation)
            &&& !after.hears(generation, expectation)
            &&& lifecycle.native_generation == generation ==> !after.stream_present
        }),
{
}

/// A timeout that an old transport armed never stops the stream under a new one.
pub proof fn law_replaced_transport_cannot_time_out(
    lifecycle: StreamLifecycle,
    generation: u64,
    now: Instant,
)
    requires
        generation == lifecycle.transport_generation,
    ensures
        !(StreamLifecycle {
            transport_generation: next_generation(lifecycle.transport_generation),
            ..lifecycle
        }).terminate_expired(generation, now),
{
}

/// Reports while a restart is pending ask for no second one and leave the bitrate alone.
pub proof fn law_pending_restart_is_not_stacked(
    lifecycle: StreamLifecycle,
    feedback: FeedbackSample,
    now: Instant,
)
    requires
        lifecycle.adaptive_restart_pending,
    ensures
        lifecycle.restart_for(feedback, now) is None,
        lifecycle.after_feedback(feedback, now).session.controller.current_bitrate_kbps
            == lifecycle.session.controller.current_bitrate_kbps,
        lifecycle.after_feedback(feedback, now).adaptive_restart_pending,
{
}

/// A start is wanted while the streamer runs and nothing newer was asked for. One
/// that needs a transport with media as data is wanted on such a transport only; the
/// others are wanted on any transport.
pub proof fn law_when_a_start_is_wanted(lifecycle: StreamLifecycle)
    ensures
        ({
            let any = NativeStartExpectation {
                request_generation: lifecycle.start_request_generation,
                transport_generation: lifecycle.transport_generation,
                require_adaptive_transport: false,
            };
            let adaptive = NativeStartExpectation { require_adaptive_transport: true, ..any };
            &&& lifecycle.wants(any) <==> !lifecycle.terminating
            &&& lifecycle.wants(adaptive) <==> !lifecycle.terminating
                && lifecycle.adaptive_transport_active
        }),
        forall|expectation: NativeStartExpectation| #[trigger]
            lifecycle.wants(expectation) ==> expectation.request_generation
                == lifecycle.start_request_generation && expectation.transport_generation
                == lifecycle.transport_generation,
{
}

/// A start that was marked and is still wanted goes on: its callbacks are heard, its
/// stream is in force, and no other stream is.
pub proof fn law_marked_start_goes_on(
    lifecycle: StreamLifecycle,
    expectation: NativeStartExpectation,
    other: u64,
)
    requires
        lifecycle.wants(expectation),
        other != lifecycle.native_generation,
    ensures
        ({
            let generation = lifecycle.native_generation;
            let marked = lifecycle.marked_in_progress(generation, expectation);
            &&& marked.starting(generation, expectation)
            &&& marked.hears(generation, expectation)
            &&& marked.in_force(generation)
            &&& !marked.starting(other, expectation)
            &&& !marked.hears(other, expectation)
            &&& !marked.in_force(other)
            &&& marked.native_generation == lifecycle.native_generation
            &&& marked.session == lifecycle.session
            &&& marked.stream_present == lifecycle.stream_present
            &&& marked.wants(expectation)
        }),
{
}

/// A stream whose start is through is in force until the streamer ends, whatever was
/// asked for since. Its media are ready at once, or, where media travel as data, once
/// its setup was announced.
pub proof fn law_running_stream_stays_in_force(lifecycle: StreamLifecycle, requests: u64)
    requires
        !lifecycle.terminating,
        lifecycle.start_in_progress_generation != lifecycle.native_generation,
    ensures
        ({
            let later = StreamLifecycle { start_request_generation: requests, ..lifecycle };
            let generation = lifecycle.native_generation;
            &&& later.in_force(generation)
            &&& later.media_ready(generation) <==> (!lifecycle.adaptive_transport_active
                || lifecycle.media_ready_generation == generation)
            &&& !(StreamLifecycle { terminating: true, ..later }).in_force(generation)
        }),
{
}

/// A start under way that is not wanted any more has no stream in force.
pub proof fn law_unwanted_start_is_out_of_force(lifecycle: StreamLifecycle)
    requires
        lifecycle.start_in_progress_generation == lifecycle.native_generation,
        !lifecycle.wants(lifecycle.registered),
    ensures
        !lifecycle.in_force(lifecycle.native_generation),
        !lifecycle.media_ready(lifecycle.native_generation),
{
}

/// Giving a stream up takes it, and nothing else, out of force: the next generation
/// follows, no start is under way for the old one and nothing of it is ready. A
/// stream of another generation is left alone.
pub proof fn law_giving_up_touches_one_stream(lifecycle: StreamLifecycle, generation: u64)
    ensures
        ({
            let given_up = lifecycle.invalidated(generation);
            let discarded = lifecycle.discarded(generation);
            &&& lifecycle.native_generation != generation ==> given_up == lifecycle && discarded
                == lifecycle
            &&& lifecycle.native_generation == generation ==> {
                &&& given_up.native_generation == (if generation == 0xffff_ffff_ffff_ffff {
                    0
                } else {
                    generation + 1
                })
                &&& given_up.media_ready_generation == 0
                &&& generation != 0 ==> given_up.start_in_progress_generation != generation
                &&& lifecycle.start_in_progress_generation != generation
                    ==> given_up.start_in_progress_generation
                    == lifecycle.start_in_progress_generation
                &&& given_up.stream_present == lifecycle.stream_present
                &&& !discarded.stream_present
                &&& discarded.native_generation == given_up.native_generation
                &&& discarded.start_in_progress_generation
                    == given_up.start_in_progress_generation
                &&& discarded.media_ready_generation == 0
            }
            &&& given_up.session == lifecycle.session && discarded.session == lifecycle.session
            &&& given_up.terminating == lifecycle.terminating
            &&& discarded.terminating == lifecycle.terminating
            &&& given_up.start_request_generation == lifecycle.start_request_generation
            &&& discarded.start_request_generation == lifecycle.start_request_generation
            &&& given_up.transport_generation == lifecycle.transport_generation
            &&& discarded.transport_generation == lifecycle.transport_generation
            &&& given_up.replay_pending == lifecycle.replay_pending
            &&& discarded.replay_pending == lifecycle.replay_pending
        }),
{
}

/// Only a start that is under way can be left behind: without one nothing is thrown
/// away, and with one its stream is gone and out of force.
pub proof fn law_leftovers_are_thrown_away(lifecycle: StreamLifecycle)
    ensures
        lifecycle.start_in_progress_generation == 0 ==> lifecycle.discarded_in_progress()
            == lifecycle,
        lifecycle.start_in_progress_generation != 0 && lifecycle.native_generation
            == lifecycle.start_in_progress_generation ==> ({
            let after = lifecycle.discarded_in_progress();
            &&& !after.stream_present
            &&& after.start_in_progress_generation == 0
            &&& !after.in_force(lifecycle.native_generation)
        }),
        lifecycle.native_generation != lifecycle.start_in_progress_generation
            ==> lifecycle.discarded_in_progress() == lifecycle,
{
}

/// Generations follow one another: none is repeated before all others were used.
pub proof fn law_generations_follow_one_another(generation: u64, other: u64)
    ensures
        next_generation(generation) != generation,
        next_generation(generation) == next_generation(other) ==> generation == other,
        generation < 0xffff_ffff_ffff_ffff ==> next_generation(generation) == generation + 1,
{
}

/// A browser that left has ten seconds to come back: the request to end expires
/// later than that and not before, and only on the transport that it was made for.
pub proof fn law_browser_has_ten_seconds_to_come_back(
    lifecycle: StreamLifecycle,
    asked: Instant,
    now: Instant,
    generation: u64,
)
    ensures
        ({
            let waiting = StreamLifecycle { terminate_requested_at: Some(asked), ..lifecycle };
            let back = StreamLifecycle { terminate_requested_at: None, ..lifecycle };
            &&& waiting.terminate_expired(generation, now) <==> generation
                == lifecycle.transport_generation && now.nanos() > asked.nanos() + 10_000_000_000
            &&& !back.terminate_expired(generation, now)
        }),
{
}

/// Reports count only on a running adaptive session. Where the controller lowers the
/// bitrate, one restart is asked for: with what the controller computed, for this
/// session, and on the request and the transport of now, which it stays wanted on.
pub proof fn law_reports_lead_to_one_restart(
    lifecycle: StreamLifecycle,
    feedback: FeedbackSample,
    now: Instant,
)
    ensures
        ({
            let after = lifecycle.after_feedback(feedback, now);
            let listening = !lifecycle.terminating && lifecycle.adaptive_transport_active
                && lifecycle.session.settings is Some;
            let lowered = lifecycle.session.controller.reduction(feedback, now);
            &&& !listening ==> after == lifecycle && lifecycle.restart_for(feedback, now) is None
            &&& listening && !lifecycle.adaptive_restart_pending ==> {
                &&& lifecycle.restart_for(feedback, now) is Some <==> lowered is Some
                &&& after.adaptive_restart_pending <==> lowered is Some
                &&& after.session.controller == lifecycle.session.controller.observed(
                    feedback,
                    now,
                )
            }
            &&& lifecycle.restart_for(feedback, now) matches Some(request) ==> {
                &&& Some(request.reduction) == lowered
                &&& request.session_generation == after.session.generation
                &&& after.wants(request.expectation)
                &&& request.expectation.require_adaptive_transport
                &&& after.restart_for(feedback, now) is None
            }
            &&& after.session.generation == lifecycle.session.generation
            &&& after.session.settings == lifecycle.session.settings
            &&& after.native_generation == lifecycle.native_generation
            &&& after.start_request_generation == lifecycle.start_request_generation
            &&& after.transport_generation == lifecycle.transport_generation
            &&& after.terminating == lifecycle.terminating
        }),
{
}

/// A reduction is taken back only in its own session and only while it is the last
/// one; what is taken back leaves the session and everything else as they were.
pub proof fn law_only_the_last_reduction_is_taken_back(
    lifecycle: StreamLifecycle,
    session_generation: u64,
    reduction: BitrateReduction,
)
    ensures
        ({
            let after = lifecycle.reduction_rolled_back(session_generation, reduction);
            let own = lifecycle.session.generation == session_generation
                && lifecycle.session.controller.current_bitrate_kbps == reduction.bitrate_kbps;
            &&& !own ==> after == lifecycle
            &&& own ==> after.session.controller == lifecycle.session.controller.rolled_back(
                reduction.previous_bitrate_kbps,
            )
            &&& after.session.generation == lifecycle.session.generation
            &&& after.session.settings == lifecycle.session.settings
            &&& after.terminating == lifecycle.terminating
            &&& after.adaptive_restart_pending == lifecycle.adaptive_restart_pending
            &&& after.native_generation == lifecycle.native_generation
        }),
{
}

/// A streamer begins idle: it runs no stream, has no transport, and waits for nothing.
pub proof fn law_streamer_begins_idle(feedback: FeedbackSample, now: Instant)
    ensures
        ({
            let idle = StreamLifecycle::initial();
            &&& !idle.terminating && !idle.stream_present && !idle.transport_present
            &&& !idle.replay_pending && !idle.adaptive_restart_pending
            &&& idle.start_in_progress_generation == 0 && idle.media_ready_generation == 0
            &&& idle.native_generation == 0 && idle.start_request_generation == 0
            &&& idle.transport_generation == 0 && idle.session.generation == 0
            &&& !idle.adaptive_transport_active
            &&& idle.terminate_requested_at is None
            &&& idle.restart_for(feedback, now) is None
            &&& idle.discarded_in_progress() == idle
            &&& idle.session.settings is None
        }),
{
}

/// A new transport takes the place of the old one: it is there, it carries media as data
/// or not, starts for the old one are not wanted any more, and nothing waits to end the
/// session.
pub proof fn law_new_transport_takes_over(lifecycle: &mut StreamLifecycle, gate: bool, generation: u64)
    requires
        call_ensures(StreamLifecycle::set_transport, (lifecycle, gate), generation),
    ensures
        final(lifecycle).transport_generation == generation,
        generation != old(lifecycle).transport_generation,
        final(lifecycle).transport_present,
        final(lifecycle).adaptive_transport_active == gate,
        final(lifecycle).terminate_requested_at is None,
        final(lifecycle).stream_present == old(lifecycle).stream_present,
        final(lifecycle).native_generation == old(lifecycle).native_generation,
        final(lifecycle).session == old(lifecycle).session,
        final(lifecycle).terminating == old(lifecycle).terminating,
{
}

/// A start that was just asked for on the transport in place is wanted, on any kind of
/// transport, and the one before it is not.
pub proof fn law_requested_start_is_wanted(
    lifecycle: &mut StreamLifecycle,
    generation: u64,
    expectation: NativeStartExpectation,
    earlier: NativeStartExpectation,
)
    requires
        generation == old(lifecycle).transport_generation,
        old(lifecycle).wants(earlier),
        call_ensures(StreamLifecycle::request_start, (lifecycle, generation), expectation),
    ensures
        final(lifecycle).wants(expectation),
        !final(lifecycle).wants(earlier),
        !expectation.require_adaptive_transport,
        final(lifecycle).native_generation == old(lifecycle).native_generation,
        final(lifecycle).session == old(lifecycle).session,
{
}

/// A failed start ends the streamer only while it is wanted, and a stream only while it
/// is in force. Whoever began the end is told so, and an end once begun stays.
pub proof fn law_who_may_end_the_streamer(
    lifecycle: &mut StreamLifecycle,
    other: &mut StreamLifecycle,
    expectation: NativeStartExpectation,
    generation: u64,
    began: bool,
    ended: bool,
)
    requires
        call_ensures(
            StreamLifecycle::begin_termination_for_expected_start,
            (lifecycle, expectation),
            began,
        ),
        call_ensures(StreamLifecycle::begin_native_termination, (other, generation), ended),
    ensures
        began <==> old(lifecycle).wants(expectation),
        ended <==> old(other).in_force(generation),
        began ==> !old(lifecycle).terminating && final(lifecycle).terminating,
        ended ==> !old(other).terminating && final(other).terminating,
        !began ==> *final(lifecycle) == *old(lifecycle),
        !ended ==> *final(other) == *old(other),
        final(lifecycle).stream_present == old(lifecycle).stream_present,
        final(other).session == old(other).session,
{
}

/// What is detached is gone from the lifecycle and handed to the caller.
pub proof fn law_what_is_detached_is_gone(lifecycle: &mut StreamLifecycle, detached: (bool, bool))
    requires
        call_ensures(StreamLifecycle::detach_for_stop, (lifecycle,), detached),
    ensures
        detached.0 == old(lifecycle).stream_present,
        detached.1 == old(lifecycle).transport_present,
        !final(lifecycle).stream_present && !final(lifecycle).transport_present,
        !final(lifecycle).adaptive_transport_active,
        final(lifecycle).native_generation != old(lifecycle).native_generation,
        final(lifecycle).transport_generation == old(lifecycle).transport_generation,
        final(lifecycle).session == old(lifecycle).session,
{
}

/// A request to end that has expired is taken once; one that has not stays.
pub proof fn law_expired_request_is_taken_once(
    lifecycle: &mut StreamLifecycle,
    generation: u64,
    now: Instant,
    later: Instant,
    expired: bool,
)
    requires
        call_ensures(
            StreamLifecycle::take_expired_terminate_request,
            (lifecycle, generation, now),
            expired,
        ),
    ensures
        expired ==> !final(lifecycle).terminate_expired(generation, later),
        expired ==> old(lifecycle).terminate_requested_at is Some && now.nanos() > old(
            lifecycle,
        ).terminate_requested_at->0.nanos() + 10_000_000_000,
        !expired ==> *final(lifecycle) == *old(lifecycle),
        final(lifecycle).transport_generation == old(lifecycle).transport_generation,
        final(lifecycle).terminating == old(lifecycle).terminating,
{
}

/// A new session has the settings that it was opened with, begins at their bitrate and
/// is left alone for its first five seconds; requests of the session before are not
/// its own.
pub proof fn law_session_begins_with_its_settings(
    lifecycle: &mut StreamLifecycle,
    settings: StreamSettings,
    now: Instant,
)
    requires
        call_ensures(StreamLifecycle::open_session, (lifecycle, settings, now), ()),
    ensures
        final(lifecycle).session.settings == Some(settings),
        final(lifecycle).session.generation != old(lifecycle).session.generation,
        final(lifecycle).session.controller.current_bitrate_kbps == settings.bitrate_kbps,
        final(lifecycle).session.controller.startup_warmup_until is Some,
        final(lifecycle).session.controller.startup_warmup_until->0.nanos() == now.nanos()
            + 5 * 1_000_000_000,
        final(lifecycle).native_generation == old(lifecycle).native_generation,
        final(lifecycle).terminating == old(lifecycle).terminating,
{
}

/// The user sees a round trip time whenever one was measured and the streamer runs.
pub proof fn law_when_a_round_trip_is_shown(
    lifecycle: &mut StreamLifecycle,
    feedback: FeedbackSample,
    now: Instant,
    reaction: FeedbackReaction,
)
    requires
        call_ensures(StreamLifecycle::on_network_feedback, (lifecycle, feedback, now), reaction),
    ensures
        reaction.shown_rtt_ms is Some <==> feedback.rtt_ms > 0 && !old(lifecycle).terminating,
        reaction.shown_rtt_ms is Some ==> reaction.shown_rtt_ms->0 == feedback.rtt_ms,
        reaction.restart == old(lifecycle).restart_for(feedback, now),
        *final(lifecycle) == old(lifecycle).after_feedback(feedback, now),
{
}

} // verus!
