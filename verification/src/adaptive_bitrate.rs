//! Lowers the encoder bitrate of a running stream when the transport reports
//! sustained congestion.
//!
//! Reports carry cumulative counters. A report is compared with the one before
//! it, and the round trip time with the smallest one seen lately. Three
//! congested reports in a row, far enough apart to be independent, cost a
//! quarter of the bitrate, down to a floor.

use crate::time::{Duration, Instant};
use vstd::prelude::*;

verus! {

pub const REQUIRED_CONGESTED_SAMPLES: u8 = 3;

pub const DOWNSHIFT_NUMERATOR: u64 = 3;

pub const DOWNSHIFT_DENOMINATOR: u64 = 4;

pub const MIN_PACKETS_FOR_LOSS_SIGNAL: u64 = 32;

pub const LOSS_PERCENT_THRESHOLD: u64 = 2;

pub const MIN_CONGESTION_SAMPLE_GAP_NANOS: u128 = 250_000_000;

pub const CONGESTION_STREAK_MAX_GAP_NANOS: u128 = 2_000_000_000;

pub const RTT_BASELINE_WINDOW_NANOS: u128 = 10_000_000_000;

pub const RTT_PATH_CHANGE_FACTOR: u32 = 4;

pub const RTT_PATH_CHANGE_MIN_DELTA_MS: u32 = 100;

pub const RTT_ALLOWANCE_MS: u32 = 20;

pub const STARTUP_WARMUP_SECS: u64 = 5;

pub const ADAPTIVE_RESTART_COOLDOWN_NANOS: u128 = 15_000_000_000;

/// One report of the transport. All but the round trip time are totals since
/// the connection was made.
#[derive(Clone, Copy, Debug, PartialEq, Eq, Structural)]
pub struct FeedbackSample {
    pub rtt_ms: u32,
    pub sent_packets: u64,
    pub lost_packets: u64,
    pub congestion_events: u64,
    pub admission_drops: u64,
    pub video_write_timeouts: u64,
    pub recovery_requests: u64,
}

impl Default for FeedbackSample {
    fn default() -> (sample: Self)
        ensures
            sample.rtt_ms == 0,
            sample.sent_packets == 0,
            sample.lost_packets == 0,
            sample.congestion_events == 0,
            sample.admission_drops == 0,
            sample.video_write_timeouts == 0,
            sample.recovery_requests == 0,
    {
        FeedbackSample {
            rtt_ms: 0,
            sent_packets: 0,
            lost_packets: 0,
            congestion_events: 0,
            admission_drops: 0,
            video_write_timeouts: 0,
            recovery_requests: 0,
        }
    }
}

/// A step down from one bitrate to a lower one.
#[derive(Clone, Copy, Debug, PartialEq, Eq, Structural)]
pub struct BitrateReduction {
    pub previous_bitrate_kbps: u32,
    pub bitrate_kbps: u32,
}

#[derive(Debug)]
pub struct AdaptiveBitrateController {
    pub enabled: bool,
    pub ceiling_bitrate_kbps: u32,
    pub current_bitrate_kbps: u32,
    pub floor_bitrate_kbps: u32,
    pub previous_feedback: Option<FeedbackSample>,
    pub minimum_rtt_ms: Option<u32>,
    pub current_rtt_window_min_ms: Option<u32>,
    pub previous_rtt_window_min_ms: Option<u32>,
    pub rtt_window_started: Option<Instant>,
    pub congested_samples: u8,
    pub last_observation: Option<Instant>,
    pub last_reduction: Option<Instant>,
    pub startup_warmup_until: Option<Instant>,
}

/// What a report says about the connection.
pub enum Assessment {
    /// It came while the stream was still starting.
    WarmingUp { counters_reset: bool },
    /// The controller is off, or already at its floor.
    Idle,
    /// There is no report to compare it with.
    FirstReport,
    /// A total fell: the connection was replaced.
    CountersReset,
    /// The round trip time jumped without any other sign of congestion.
    PathChanged,
    /// It came right behind the report before it.
    TooClose { congested: bool },
    /// It counts.
    Counted { congested: bool },
}

pub open spec fn smaller(a: int, b: int) -> int {
    if a <= b {
        a
    } else {
        b
    }
}

pub open spec fn larger(a: int, b: int) -> int {
    if a >= b {
        a
    } else {
        b
    }
}

/// The smaller of the two where both are known, else the one that is known.
pub open spec fn smaller_known(a: Option<u32>, b: Option<u32>) -> Option<u32> {
    match (a, b) {
        (Some(x), Some(y)) => Some(smaller(x as int, y as int) as u32),
        (Some(x), None) => Some(x),
        (None, y) => y,
    }
}

impl FeedbackSample {
    /// Some total is smaller than it was.
    pub open spec fn spec_counters_reset_since(self, previous: Self) -> bool {
        ||| self.sent_packets < previous.sent_packets
        ||| self.lost_packets < previous.lost_packets
        ||| self.congestion_events < previous.congestion_events
        ||| self.admission_drops < previous.admission_drops
        ||| self.video_write_timeouts < previous.video_write_timeouts
        ||| self.recovery_requests < previous.recovery_requests
    }

    pub fn counters_reset_since(self, previous: Self) -> (reset: bool)
        ensures
            reset == self.spec_counters_reset_since(previous),
    {
        self.sent_packets < previous.sent_packets || self.lost_packets < previous.lost_packets
            || self.congestion_events < previous.congestion_events || self.admission_drops
            < previous.admission_drops || self.video_write_timeouts < previous.video_write_timeouts
            || self.recovery_requests < previous.recovery_requests
    }

    /// What the report adds to the one before it.
    pub open spec fn spec_delta_since(self, previous: Self) -> FeedbackDelta {
        FeedbackDelta {
            rtt_ms: self.rtt_ms,
            sent_packets: spec_cumulative_delta(self.sent_packets, previous.sent_packets),
            lost_packets: spec_cumulative_delta(self.lost_packets, previous.lost_packets),
            congestion_events: spec_cumulative_delta(
                self.congestion_events,
                previous.congestion_events,
            ),
            admission_drops: spec_cumulative_delta(self.admission_drops, previous.admission_drops),
            video_write_timeouts: spec_cumulative_delta(
                self.video_write_timeouts,
                previous.video_write_timeouts,
            ),
            recovery_requests: spec_cumulative_delta(
                self.recovery_requests,
                previous.recovery_requests,
            ),
        }
    }

    pub fn delta_since(self, previous: Self) -> (delta: FeedbackDelta)
        ensures
            delta == self.spec_delta_since(previous),
    {
        FeedbackDelta {
            rtt_ms: self.rtt_ms,
            sent_packets: cumulative_delta(self.sent_packets, previous.sent_packets),
            lost_packets: cumulative_delta(self.lost_packets, previous.lost_packets),
            congestion_events: cumulative_delta(self.congestion_events, previous.congestion_events),
            admission_drops: cumulative_delta(self.admission_drops, previous.admission_drops),
            video_write_timeouts: cumulative_delta(
                self.video_write_timeouts,
                previous.video_write_timeouts,
            ),
            recovery_requests: cumulative_delta(self.recovery_requests, previous.recovery_requests),
        }
    }
}

/// What happened between two reports.
#[derive(Clone, Copy, Debug, PartialEq, Eq, Structural)]
pub struct FeedbackDelta {
    pub rtt_ms: u32,
    pub sent_packets: u64,
    pub lost_packets: u64,
    pub congestion_events: u64,
    pub admission_drops: u64,
    pub video_write_timeouts: u64,
    pub recovery_requests: u64,
}

/// The product, or the largest `u64` where it is larger.
pub open spec fn saturated_product(a: u64, b: u64) -> int {
    smaller(a * b, u64::MAX as int)
}

fn saturating_product(a: u64, b: u64) -> (product: u64)
    ensures
        product == saturated_product(a, b),
{
    proof {
        assert(0 <= a * b <= u64::MAX * u64::MAX) by (nonlinear_arith)
            requires
                0 <= a <= u64::MAX,
                0 <= b <= u64::MAX,
        ;
    }
    let product: u128 = a as u128 * b as u128;
    if product <= u64::MAX as u128 {
        product as u64
    } else {
        u64::MAX
    }
}

impl FeedbackDelta {
    /// Enough packets were sent to judge by, and the threshold share of them was lost.
    pub open spec fn loss_signal(self) -> bool {
        &&& self.sent_packets >= MIN_PACKETS_FOR_LOSS_SIGNAL
        &&& saturated_product(self.lost_packets, 100) >= saturated_product(
            self.sent_packets,
            LOSS_PERCENT_THRESHOLD,
        )
    }

    pub open spec fn transport_congestion(self) -> bool {
        ||| self.video_write_timeouts > 0
        ||| self.admission_drops > 0
        ||| self.congestion_events > 0
        ||| self.recovery_requests > 0
        ||| self.loss_signal()
    }

    pub fn indicates_transport_congestion(self) -> (congested: bool)
        ensures
            congested == self.transport_congestion(),
    {
        let loss_signal: bool = self.sent_packets >= MIN_PACKETS_FOR_LOSS_SIGNAL
            && saturating_product(self.lost_packets, 100) >= saturating_product(
            self.sent_packets,
            LOSS_PERCENT_THRESHOLD,
        );
        self.video_write_timeouts > 0 || self.admission_drops > 0 || self.congestion_events > 0
            || self.recovery_requests > 0 || loss_signal
    }

    /// The round trip time is above the baseline by more than half of it, and
    /// by more than [`RTT_ALLOWANCE_MS`].
    pub open spec fn rtt_congestion(self, minimum_rtt_ms: u32) -> bool {
        &&& self.rtt_ms > 0
        &&& minimum_rtt_ms > 0
        &&& self.rtt_ms > minimum_rtt_ms + larger(
            RTT_ALLOWANCE_MS as int,
            minimum_rtt_ms as int / 2,
        )
    }

    pub fn indicates_rtt_congestion(self, minimum_rtt_ms: u32) -> (congested: bool)
        ensures
            congested == self.rtt_congestion(minimum_rtt_ms),
    {
        let rtt_allowance: u32 = RTT_ALLOWANCE_MS.max(minimum_rtt_ms / 2);
        self.rtt_ms > 0 && minimum_rtt_ms > 0 && self.rtt_ms > minimum_rtt_ms.saturating_add(
            rtt_allowance,
        )
    }
}

/// The growth of a total; a total that fell started again from zero, so all of
/// it is growth.
pub open spec fn spec_cumulative_delta(current: u64, previous: u64) -> u64 {
    if current >= previous {
        (current - previous) as u64
    } else {
        current
    }
}

fn cumulative_delta(current: u64, previous: u64) -> (delta: u64)
    ensures
        delta == spec_cumulative_delta(current, previous),
{
    if current >= previous {
        current - previous
    } else {
        current
    }
}

impl Default for AdaptiveBitrateController {
    fn default() -> (controller: Self)
        ensures
            controller == Self::fresh(false, 0, 0),
    {
        Self::new(false, 0, 0)
    }
}

impl AdaptiveBitrateController {
    /// The bitrate lies between floor and ceiling.
    pub open spec fn wf(self) -> bool {
        self.floor_bitrate_kbps <= self.current_bitrate_kbps <= self.ceiling_bitrate_kbps
    }

    /// A controller at its ceiling that has seen nothing.
    pub open spec fn fresh(enabled: bool, ceiling_kbps: u32, floor_kbps: u32) -> Self {
        AdaptiveBitrateController {
            enabled,
            ceiling_bitrate_kbps: ceiling_kbps,
            current_bitrate_kbps: ceiling_kbps,
            floor_bitrate_kbps: smaller(floor_kbps as int, ceiling_kbps as int) as u32,
            previous_feedback: None,
            minimum_rtt_ms: None,
            current_rtt_window_min_ms: None,
            previous_rtt_window_min_ms: None,
            rtt_window_started: None,
            congested_samples: 0,
            last_observation: None,
            last_reduction: None,
            startup_warmup_until: None,
        }
    }

    pub fn new(enabled: bool, ceiling_bitrate_kbps: u32, floor_bitrate_kbps: u32) -> (controller:
        Self)
        ensures
            controller == Self::fresh(enabled, ceiling_bitrate_kbps, floor_bitrate_kbps),
            controller.wf(),
    {
        AdaptiveBitrateController {
            enabled,
            ceiling_bitrate_kbps,
            current_bitrate_kbps: ceiling_bitrate_kbps,
            floor_bitrate_kbps: floor_bitrate_kbps.min(ceiling_bitrate_kbps),
            previous_feedback: None,
            minimum_rtt_ms: None,
            current_rtt_window_min_ms: None,
            previous_rtt_window_min_ms: None,
            rtt_window_started: None,
            congested_samples: 0,
            last_observation: None,
            last_reduction: None,
            startup_warmup_until: None,
        }
    }

    /// Starts over for a stream that starts at `now`.
    pub fn reset(
        &mut self,
        enabled: bool,
        ceiling_bitrate_kbps: u32,
        floor_bitrate_kbps: u32,
        now: Instant,
    )
        requires
            now.has_room(STARTUP_WARMUP_SECS * 1_000_000_000),
        ensures
            final(self).wf(),
            final(self).startup_warmup_until is Some,
            final(self).startup_warmup_until->0.nanos() == now.nanos() + STARTUP_WARMUP_SECS
                * 1_000_000_000,
            *final(self) == (AdaptiveBitrateController {
                startup_warmup_until: final(self).startup_warmup_until,
                ..Self::fresh(enabled, ceiling_bitrate_kbps, floor_bitrate_kbps)
            }),
    {
        *self = Self::new(enabled, ceiling_bitrate_kbps, floor_bitrate_kbps);
        self.startup_warmup_until = Some(now.after(Duration::from_secs(STARTUP_WARMUP_SECS)));
    }

    pub fn current_bitrate_kbps(&self) -> (kbps: u32)
        ensures
            kbps == self.current_bitrate_kbps,
    {
        self.current_bitrate_kbps
    }

    /// The controller with its bitrate at `kbps`, kept between floor and ceiling.
    pub open spec fn rolled_back(self, kbps: u32) -> Self {
        AdaptiveBitrateController {
            current_bitrate_kbps: smaller(
                larger(kbps as int, self.floor_bitrate_kbps as int),
                self.ceiling_bitrate_kbps as int,
            ) as u32,
            congested_samples: 0,
            ..self
        }
    }

    pub fn rollback(&mut self, bitrate_kbps: u32)
        ensures
            *final(self) == old(self).rolled_back(bitrate_kbps),
    {
        self.current_bitrate_kbps =
        bitrate_kbps.max(self.floor_bitrate_kbps).min(self.ceiling_bitrate_kbps);
        self.congested_samples = 0;
    }

    /// Takes `reduction` back, if it is the one in force.
    pub fn cancel_reduction(&mut self, reduction: BitrateReduction) -> (cancelled: bool)
        ensures
            cancelled == (old(self).current_bitrate_kbps == reduction.bitrate_kbps),
            *final(self) == (if cancelled {
                old(self).rolled_back(reduction.previous_bitrate_kbps)
            } else {
                *old(self)
            }),
    {
        if self.current_bitrate_kbps != reduction.bitrate_kbps {
            return false;
        }
        self.rollback(reduction.previous_bitrate_kbps);
        true
    }

    /// The controller after a pending report: totals and baseline move on, and
    /// nothing else does.
    pub open spec fn observed_while_restart_pending(
        self,
        feedback: FeedbackSample,
        now: Instant,
    ) -> Self {
        let noted = AdaptiveBitrateController {
            previous_feedback: Some(feedback),
            last_observation: Some(now),
            congested_samples: 0,
            ..self
        };
        if self.counters_reset(feedback) {
            noted.rtt_rebased(feedback.rtt_ms, now)
        } else {
            noted.rtt_recorded(feedback.rtt_ms, now)
        }
    }

    /// Keeps totals and the round trip baseline current while a restart at a
    /// lower bitrate is pending, without queuing a second step down behind it.
    pub fn observe_while_restart_pending(&mut self, feedback: FeedbackSample, now: Instant)
        ensures
            *final(self) == old(self).observed_while_restart_pending(feedback, now),
    {
        let previous = self.previous_feedback;
        self.previous_feedback = Some(feedback);
        self.last_observation = Some(now);
        self.congested_samples = 0;

        let counters_reset: bool = match previous {
            Some(previous) => feedback.counters_reset_since(previous),
            None => false,
        };
        if counters_reset {
            self.reset_rtt_baseline(feedback.rtt_ms, now);
        } else {
            self.record_rtt(feedback.rtt_ms, now);
        }
    }

    pub open spec fn counters_reset(self, feedback: FeedbackSample) -> bool {
        self.previous_feedback is Some && feedback.spec_counters_reset_since(
            self.previous_feedback->0,
        )
    }

    /// The report came within `nanos` of the one before it.
    pub open spec fn follows_within(self, now: Instant, nanos: u128) -> bool {
        self.last_observation is Some && now.elapsed_since(self.last_observation->0) < nanos
    }

    /// The congested reports in a row so far; a long silence forgets them.
    pub open spec fn streak(self, now: Instant) -> u8 {
        if self.last_observation is Some && now.elapsed_since(self.last_observation->0)
            > CONGESTION_STREAK_MAX_GAP_NANOS {
            0
        } else {
            self.congested_samples
        }
    }

    pub open spec fn warming_up(self, now: Instant) -> bool {
        self.startup_warmup_until is Some && now.nanos() < self.startup_warmup_until->0.nanos()
    }

    pub open spec fn cooling_down(self, now: Instant) -> bool {
        self.last_reduction is Some && now.elapsed_since(self.last_reduction->0)
            < ADAPTIVE_RESTART_COOLDOWN_NANOS
    }

    /// The smallest recent round trip time, this report included.
    pub open spec fn baseline_rtt_ms(self, feedback: FeedbackSample, now: Instant) -> u32 {
        match self.rtt_recorded(feedback.rtt_ms, now).minimum_rtt_ms {
            Some(minimum) => minimum,
            None => 0,
        }
    }

    /// How the controller, before it has taken note of the report, sees it.
    pub open spec fn assess(self, feedback: FeedbackSample, now: Instant) -> Assessment {
        if self.warming_up(now) {
            Assessment::WarmingUp { counters_reset: self.counters_reset(feedback) }
        } else if !self.enabled || self.current_bitrate_kbps <= self.floor_bitrate_kbps {
            Assessment::Idle
        } else if self.previous_feedback is None {
            Assessment::FirstReport
        } else if self.counters_reset(feedback) {
            Assessment::CountersReset
        } else {
            let delta = feedback.spec_delta_since(self.previous_feedback->0);
            let baseline = self.baseline_rtt_ms(feedback, now);
            let congested = delta.transport_congestion() || delta.rtt_congestion(baseline);
            if !delta.transport_congestion() && baseline > 0 && feedback.rtt_ms > larger(
                baseline * RTT_PATH_CHANGE_FACTOR,
                baseline + RTT_PATH_CHANGE_MIN_DELTA_MS,
            ) {
                Assessment::PathChanged
            } else if self.follows_within(now, MIN_CONGESTION_SAMPLE_GAP_NANOS) {
                Assessment::TooClose { congested }
            } else {
                Assessment::Counted { congested }
            }
        }
    }

    /// The congested reports in a row, this one included.
    pub open spec fn streak_with(self, congested: bool, now: Instant) -> u8 {
        if !congested {
            0
        } else if self.streak(now) == u8::MAX {
            u8::MAX
        } else {
            (self.streak(now) + 1) as u8
        }
    }

    /// The step down that a report causes, if it causes one.
    pub open spec fn reduction(self, feedback: FeedbackSample, now: Instant) -> Option<
        BitrateReduction,
    > {
        match self.assess(feedback, now) {
            Assessment::Counted { congested } if self.streak_with(congested, now)
                >= REQUIRED_CONGESTED_SAMPLES && !self.cooling_down(now) => Some(
                BitrateReduction {
                    previous_bitrate_kbps: self.current_bitrate_kbps,
                    bitrate_kbps: larger(
                        self.current_bitrate_kbps * DOWNSHIFT_NUMERATOR
                            / DOWNSHIFT_DENOMINATOR as int,
                        self.floor_bitrate_kbps as int,
                    ) as u32,
                },
            ),
            _ => None,
        }
    }

    /// The controller after a report.
    pub open spec fn observed(self, feedback: FeedbackSample, now: Instant) -> Self {
        let noted = AdaptiveBitrateController {
            previous_feedback: Some(feedback),
            last_observation: Some(now),
            ..self.rtt_recorded(feedback.rtt_ms, now)
        };
        let judged = AdaptiveBitrateController { startup_warmup_until: None, ..noted };
        match self.assess(feedback, now) {
            Assessment::WarmingUp { counters_reset } => AdaptiveBitrateController {
                congested_samples: 0,
                ..if counters_reset {
                    noted.rtt_rebased(feedback.rtt_ms, now)
                } else {
                    noted
                }
            },
            Assessment::Idle => AdaptiveBitrateController { congested_samples: 0, ..judged },
            Assessment::FirstReport => AdaptiveBitrateController {
                congested_samples: self.streak(now),
                ..judged
            },
            Assessment::CountersReset | Assessment::PathChanged => AdaptiveBitrateController {
                congested_samples: 0,
                ..judged.rtt_rebased(feedback.rtt_ms, now)
            },
            Assessment::TooClose { congested } => AdaptiveBitrateController {
                congested_samples: if congested {
                    self.streak(now)
                } else {
                    0
                },
                ..judged
            },
            Assessment::Counted { congested } => match self.reduction(feedback, now) {
                Some(reduction) => AdaptiveBitrateController {
                    congested_samples: 0,
                    last_reduction: Some(now),
                    current_bitrate_kbps: reduction.bitrate_kbps,
                    ..judged
                },
                None => AdaptiveBitrateController {
                    congested_samples: self.streak_with(congested, now),
                    ..judged
                },
            },
        }
    }

    /// Takes a report and says whether the bitrate has to go down.
    pub fn observe(&mut self, feedback: FeedbackSample, now: Instant) -> (reduction: Option<
        BitrateReduction,
    >)
        ensures
            reduction == old(self).reduction(feedback, now),
            *final(self) == old(self).observed(feedback, now),
    {
        let previous = self.previous_feedback;
        self.previous_feedback = Some(feedback);
        self.record_rtt(feedback.rtt_ms, now);

        let observation_gap: Option<u128> = match self.last_observation {
            Some(last) => Some(now.nanos_since(last)),
            None => None,
        };
        self.last_observation = Some(now);
        if let Some(gap) = observation_gap {
            if gap > CONGESTION_STREAK_MAX_GAP_NANOS {
                self.congested_samples = 0;
            }
        }
        // Decoder setup, the first key frame and fresh counters are noisy, but
        // they are no evidence against the chosen bitrate.

        if let Some(warmup_until) = self.startup_warmup_until {
            if now.as_nanos() < warmup_until.as_nanos() {
                if let Some(previous) = previous {
                    if feedback.counters_reset_since(previous) {
                        self.reset_rtt_baseline(feedback.rtt_ms, now);
                    }
                }
                self.congested_samples = 0;
                return None;
            }
        }
        self.startup_warmup_until = None;

        if !self.enabled || self.current_bitrate_kbps <= self.floor_bitrate_kbps {
            self.congested_samples = 0;
            return None;
        }
        // A connection may have moved many packets before its first report, so
        // that one only sets the totals to compare with.

        let previous: FeedbackSample = match previous {
            Some(previous) => previous,
            None => {
                return None;
            },
        };
        if feedback.counters_reset_since(previous) {
            self.reset_rtt_baseline(feedback.rtt_ms, now);
            self.congested_samples = 0;
            return None;
        }
        let delta = feedback.delta_since(previous);
        let transport_congestion: bool = delta.indicates_transport_congestion();
        let baseline_rtt_ms: u32 = match self.minimum_rtt_ms {
            Some(minimum) => minimum,
            None => 0,
        };
        let rtt_congestion: bool = delta.indicates_rtt_congestion(baseline_rtt_ms);
        let path_change_ms: u64 = (baseline_rtt_ms as u64 * RTT_PATH_CHANGE_FACTOR as u64).max(
            baseline_rtt_ms as u64 + RTT_PATH_CHANGE_MIN_DELTA_MS as u64,
        );
        if !transport_congestion && baseline_rtt_ms > 0 && feedback.rtt_ms as u64 > path_change_ms {
            self.reset_rtt_baseline(feedback.rtt_ms, now);
            self.congested_samples = 0;
            return None;
        }
        // Two reports that arrive together are no independent evidence of
        // sustained congestion; a clean one is evidence of recovery.

        if let Some(gap) = observation_gap {
            if gap < MIN_CONGESTION_SAMPLE_GAP_NANOS {
                if !transport_congestion && !rtt_congestion {
                    self.congested_samples = 0;
                }
                return None;
            }
        }
        if transport_congestion || rtt_congestion {
            self.congested_samples = self.congested_samples.saturating_add(1);
        } else {
            self.congested_samples = 0;
        }

        if self.congested_samples < REQUIRED_CONGESTED_SAMPLES {
            return None;
        }
        if let Some(last) = self.last_reduction {
            if now.nanos_since(last) < ADAPTIVE_RESTART_COOLDOWN_NANOS {
                return None;
            }
        }
        let previous_bitrate_kbps: u32 = self.current_bitrate_kbps;
        let reduced: u64 = previous_bitrate_kbps as u64 * DOWNSHIFT_NUMERATOR
            / DOWNSHIFT_DENOMINATOR;
        let bitrate_kbps: u32 = (reduced as u32).max(self.floor_bitrate_kbps);
        self.congested_samples = 0;
        self.last_reduction = Some(now);
        self.current_bitrate_kbps = bitrate_kbps;
        Some(BitrateReduction { previous_bitrate_kbps, bitrate_kbps })
    }

    /// The controller after a round trip time was measured: the baseline is the
    /// minimum over the running window and the one before it. Zero is no
    /// measurement.
    pub open spec fn rtt_recorded(self, rtt_ms: u32, now: Instant) -> Self {
        if rtt_ms == 0 {
            self
        } else {
            let rolled = match self.rtt_window_started {
                None => AdaptiveBitrateController {
                    rtt_window_started: Some(now),
                    current_rtt_window_min_ms: Some(rtt_ms),
                    ..self
                },
                Some(started) => if now.elapsed_since(started) >= RTT_BASELINE_WINDOW_NANOS {
                    AdaptiveBitrateController {
                        previous_rtt_window_min_ms: if now.elapsed_since(started) < 2
                            * RTT_BASELINE_WINDOW_NANOS {
                            self.current_rtt_window_min_ms
                        } else {
                            None
                        },
                        rtt_window_started: Some(now),
                        current_rtt_window_min_ms: Some(rtt_ms),
                        ..self
                    }
                } else {
                    AdaptiveBitrateController {
                        current_rtt_window_min_ms: smaller_known(
                            self.current_rtt_window_min_ms,
                            Some(rtt_ms),
                        ),
                        ..self
                    }
                },
            };
            AdaptiveBitrateController {
                minimum_rtt_ms: smaller_known(
                    rolled.previous_rtt_window_min_ms,
                    rolled.current_rtt_window_min_ms,
                ),
                ..rolled
            }
        }
    }

    pub fn record_rtt(&mut self, rtt_ms: u32, now: Instant)
        ensures
            *final(self) == old(self).rtt_recorded(rtt_ms, now),
    {
        if rtt_ms == 0 {
            return;
        }
        match self.rtt_window_started {
            None => {
                self.rtt_window_started = Some(now);
                self.current_rtt_window_min_ms = Some(rtt_ms);
            },
            Some(started) => {
                let elapsed: u128 = now.nanos_since(started);
                if elapsed >= RTT_BASELINE_WINDOW_NANOS {
                    self.previous_rtt_window_min_ms = if elapsed < RTT_BASELINE_WINDOW_NANOS * 2 {
                        self.current_rtt_window_min_ms
                    } else {
                        None
                    };
                    self.current_rtt_window_min_ms = Some(rtt_ms);
                    self.rtt_window_started = Some(now);
                } else {
                    self.current_rtt_window_min_ms = match self.current_rtt_window_min_ms {
                        Some(minimum) => Some(minimum.min(rtt_ms)),
                        None => Some(rtt_ms),
                    };
                }
            },
        }
        self.minimum_rtt_ms =
        match (self.previous_rtt_window_min_ms, self.current_rtt_window_min_ms) {
            (Some(previous), Some(current)) => Some(previous.min(current)),
            (Some(value), None) => Some(value),
            (None, value) => value,
        };
    }

    /// The controller with this one measurement as its whole baseline.
    pub open spec fn rtt_rebased(self, rtt_ms: u32, now: Instant) -> Self {
        AdaptiveBitrateController {
            previous_rtt_window_min_ms: None,
            current_rtt_window_min_ms: if rtt_ms > 0 {
                Some(rtt_ms)
            } else {
                None
            },
            minimum_rtt_ms: if rtt_ms > 0 {
                Some(rtt_ms)
            } else {
                None
            },
            rtt_window_started: if rtt_ms > 0 {
                Some(now)
            } else {
                None
            },
            ..self
        }
    }

    fn reset_rtt_baseline(&mut self, rtt_ms: u32, now: Instant)
        ensures
            *final(self) == old(self).rtt_rebased(rtt_ms, now),
    {
        self.previous_rtt_window_min_ms = None;
        if rtt_ms > 0 {
            self.current_rtt_window_min_ms = Some(rtt_ms);
            self.rtt_window_started = Some(now);
        } else {
            self.current_rtt_window_min_ms = None;
            self.rtt_window_started = None;
        }
        self.minimum_rtt_ms = self.current_rtt_window_min_ms;
    }
}

/// A report never moves the bitrate out of its bounds and never moves the bounds.
pub proof fn law_observe_keeps_bounds(
    controller: AdaptiveBitrateController,
    feedback: FeedbackSample,
    now: Instant,
)
    requires
        controller.wf(),
    ensures
        controller.observed(feedback, now).wf(),
        controller.observed(feedback, now).enabled == controller.enabled,
        controller.observed(feedback, now).ceiling_bitrate_kbps == controller.ceiling_bitrate_kbps,
        controller.observed(feedback, now).floor_bitrate_kbps == controller.floor_bitrate_kbps,
{
}

/// A reported reduction starts at the bitrate in force, ends strictly below it
/// and not below the floor, and is in force afterwards; without one the bitrate
/// stays.
pub proof fn law_reduction_lowers_bitrate(
    controller: AdaptiveBitrateController,
    feedback: FeedbackSample,
    now: Instant,
)
    ensures
        match controller.reduction(feedback, now) {
            Some(reduction) => {
                &&& reduction.previous_bitrate_kbps == controller.current_bitrate_kbps
                &&& controller.floor_bitrate_kbps <= reduction.bitrate_kbps
                &&& reduction.bitrate_kbps < reduction.previous_bitrate_kbps
                &&& controller.observed(feedback, now).current_bitrate_kbps
                    == reduction.bitrate_kbps
            },
            None => controller.observed(feedback, now).current_bitrate_kbps
                == controller.current_bitrate_kbps,
        },
{
}

/// A reduction takes an enabled controller past its warm-up, two congested
/// reports in a row behind it, and no reduction within the cooldown.
pub proof fn law_reduction_needs_sustained_congestion(
    controller: AdaptiveBitrateController,
    feedback: FeedbackSample,
    now: Instant,
)
    requires
        controller.reduction(feedback, now) is Some,
    ensures
        controller.enabled,
        controller.previous_feedback is Some,
        controller.congested_samples + 1 >= REQUIRED_CONGESTED_SAMPLES,
        !controller.warming_up(now),
        !controller.cooling_down(now),
{
}

/// The controller after a series of reports, each with the time it came.
pub open spec fn after_reports(
    controller: AdaptiveBitrateController,
    reports: Seq<(FeedbackSample, Instant)>,
) -> AdaptiveBitrateController
    decreases reports.len(),
{
    if reports.len() == 0 {
        controller
    } else {
        after_reports(controller, reports.drop_last()).observed(reports.last().0, reports.last().1)
    }
}

/// After a reduction the next one comes no sooner than the cooldown, whatever
/// is reported between the two.
pub proof fn law_reductions_are_spaced(
    controller: AdaptiveBitrateController,
    feedback: FeedbackSample,
    now: Instant,
    reports: Seq<(FeedbackSample, Instant)>,
    next_feedback: FeedbackSample,
    later: Instant,
)
    requires
        controller.reduction(feedback, now) is Some,
        forall|i: int|
            0 <= i < reports.len() ==> (#[trigger] reports[i]).1.elapsed_since(now)
                < ADAPTIVE_RESTART_COOLDOWN_NANOS,
        later.elapsed_since(now) < ADAPTIVE_RESTART_COOLDOWN_NANOS,
    ensures
        ({
            let between = after_reports(controller.observed(feedback, now), reports);
            &&& between.last_reduction == Some(now)
            &&& between.reduction(next_feedback, later) is None
            &&& between.current_bitrate_kbps == (controller.reduction(
                feedback,
                now,
            )->0).bitrate_kbps
        }),
    decreases reports.len(),
{
    if reports.len() > 0 {
        let last = reports.last();
        assert(reports[reports.len() - 1] == last);
        law_reductions_are_spaced(
            controller,
            feedback,
            now,
            reports.drop_last(),
            last.0,
            last.1,
        );
    }
}

/// Cancelling a reduction that was just reported brings the bitrate back.
pub proof fn law_cancel_undoes_reduction(
    controller: AdaptiveBitrateController,
    feedback: FeedbackSample,
    now: Instant,
)
    requires
        controller.wf(),
        controller.reduction(feedback, now) is Some,
    ensures
        ({
            let reduction = controller.reduction(feedback, now)->0;
            let reduced = controller.observed(feedback, now);
            &&& reduced.current_bitrate_kbps == reduction.bitrate_kbps
            &&& reduced.rolled_back(reduction.previous_bitrate_kbps).current_bitrate_kbps
                == controller.current_bitrate_kbps
        }),
{
}

/// Rolling back to any bitrate keeps the bounds, and reaches a bitrate within them.
pub proof fn law_rollback_stays_in_bounds(controller: AdaptiveBitrateController, kbps: u32)
    requires
        controller.wf(),
    ensures
        controller.rolled_back(kbps).wf(),
        controller.floor_bitrate_kbps <= kbps <= controller.ceiling_bitrate_kbps
            ==> controller.rolled_back(kbps).current_bitrate_kbps == kbps,
{
}

/// Reports during a pending restart leave bitrate and bounds alone and end any streak.
pub proof fn law_pending_reports_queue_nothing(
    controller: AdaptiveBitrateController,
    feedback: FeedbackSample,
    now: Instant,
)
    ensures
        ({
            let noted = controller.observed_while_restart_pending(feedback, now);
            &&& noted.current_bitrate_kbps == controller.current_bitrate_kbps
            &&& noted.floor_bitrate_kbps == controller.floor_bitrate_kbps
            &&& noted.ceiling_bitrate_kbps == controller.ceiling_bitrate_kbps
            &&& noted.last_reduction == controller.last_reduction
            &&& noted.congested_samples == 0
        }),
{
}

/// The baseline is never a zero round trip time.
pub open spec fn baseline_measured(controller: AdaptiveBitrateController) -> bool {
    &&& controller.minimum_rtt_ms != Some(0u32)
    &&& controller.current_rtt_window_min_ms != Some(0u32)
    &&& controller.previous_rtt_window_min_ms != Some(0u32)
}

/// Reports keep the baseline free of zero round trip times.
pub proof fn law_zero_rtt_is_no_baseline(
    controller: AdaptiveBitrateController,
    feedback: FeedbackSample,
    now: Instant,
)
    requires
        baseline_measured(controller),
    ensures
        baseline_measured(controller.observed(feedback, now)),
        baseline_measured(controller.observed_while_restart_pending(feedback, now)),
{
}

/// A measured round trip time and the moment it was measured.
pub struct RttSample {
    pub rtt_ms: u32,
    pub at: Instant,
}

impl AdaptiveBitrateController {
    /// The controller after measurements, one behind the other.
    pub open spec fn rtts_recorded(self, samples: Seq<RttSample>) -> Self
        decreases samples.len(),
    {
        if samples.len() == 0 {
            self
        } else {
            self.rtts_recorded(samples.drop_last()).rtt_recorded(
                samples.last().rtt_ms,
                samples.last().at,
            )
        }
    }
}

/// The first measurement that counts, as a time of zero says nothing.
pub open spec fn is_first_rtt(samples: Seq<RttSample>, first: int) -> bool {
    &&& 0 <= first < samples.len()
    &&& samples[first].rtt_ms > 0
    &&& forall|i: int| 0 <= i < first ==> (#[trigger] samples[i]).rtt_ms == 0
}

/// No measurement comes a window or more after the first that counts.
pub open spec fn within_one_window(samples: Seq<RttSample>) -> bool {
    forall|first: int, i: int|
        #[trigger] is_first_rtt(samples, first) && first <= i < samples.len() ==> (
        #[trigger] samples[i]).at.elapsed_since(samples[first].at) < RTT_BASELINE_WINDOW_NANOS
}

/// The smallest of the measurements that count, where there are any.
pub open spec fn is_least_rtt(samples: Seq<RttSample>, least: Option<u32>) -> bool {
    match least {
        Some(least) => {
            &&& least > 0
            &&& exists|i: int| 0 <= i < samples.len() && (#[trigger] samples[i]).rtt_ms == least
            &&& forall|i: int|
                0 <= i < samples.len() && (#[trigger] samples[i]).rtt_ms > 0 ==> least
                    <= samples[i].rtt_ms
        },
        None => forall|i: int| 0 <= i < samples.len() ==> (#[trigger] samples[i]).rtt_ms == 0,
    }
}

proof fn lemma_least_rtt(controller: AdaptiveBitrateController, samples: Seq<RttSample>)
    requires
        controller.rtt_window_started is None,
        controller.previous_rtt_window_min_ms is None,
        controller.minimum_rtt_ms is None,
        within_one_window(samples),
    ensures
        ({
            let after = controller.rtts_recorded(samples);
            &&& is_least_rtt(samples, after.minimum_rtt_ms)
            &&& after == (AdaptiveBitrateController {
                minimum_rtt_ms: after.minimum_rtt_ms,
                current_rtt_window_min_ms: after.current_rtt_window_min_ms,
                rtt_window_started: after.rtt_window_started,
                ..controller
            })
            &&& after.minimum_rtt_ms is None ==> after == controller
            &&& after.minimum_rtt_ms is Some ==> after.current_rtt_window_min_ms
                == after.minimum_rtt_ms && exists|first: int| #[trigger]
                is_first_rtt(samples, first) && after.rtt_window_started == Some(samples[first].at)
        }),
    decreases samples.len(),
{
    if samples.len() > 0 {
        let rest = samples.drop_last();
        let last = samples.last();
        let end = samples.len() - 1;
        assert forall|first: int, i: int|
            #[trigger] is_first_rtt(rest, first) && first <= i < rest.len() implies (
        #[trigger] rest[i]).at.elapsed_since(rest[first].at) < RTT_BASELINE_WINDOW_NANOS by {
            assert forall|k: int| 0 <= k < first implies (#[trigger] samples[k]).rtt_ms == 0 by {
                assert(rest[k] == samples[k]);
            }
            assert(is_first_rtt(samples, first));
            assert(samples[i] == rest[i]);
        }
        lemma_least_rtt(controller, rest);
        let before = controller.rtts_recorded(rest);
        let after = controller.rtts_recorded(samples);
        assert(after == before.rtt_recorded(last.rtt_ms, last.at));
        assert forall|i: int| 0 <= i < rest.len() implies samples[i] == #[trigger] rest[i] by {}
        assert(samples[end] == last);
        if before.minimum_rtt_ms is Some {
            let first = choose|first: int| #[trigger]
                is_first_rtt(rest, first) && before.rtt_window_started == Some(rest[first].at);
            assert forall|k: int| 0 <= k < first implies (#[trigger] samples[k]).rtt_ms == 0 by {
                assert(rest[k] == samples[k]);
            }
            assert(is_first_rtt(samples, first));
            assert(samples[end].at.elapsed_since(samples[first].at) < RTT_BASELINE_WINDOW_NANOS);
            let k = choose|k: int|
                0 <= k < rest.len() && (#[trigger] rest[k]).rtt_ms == before.minimum_rtt_ms->0;
            assert(samples[k].rtt_ms == before.minimum_rtt_ms->0);
        } else if last.rtt_ms > 0 {
            assert forall|k: int| 0 <= k < end implies (#[trigger] samples[k]).rtt_ms == 0 by {
                assert(rest[k] == samples[k]);
            }
            assert(is_first_rtt(samples, end));
        }
        assert forall|i: int| 0 <= i < samples.len() && i != end implies #[trigger] samples[i]
            == rest[i] by {}
    }
}

/// As long as the measurements of a new controller fall into one window, its
/// baseline is the smallest of them, and there is none as long as all are zero.
/// A measurement of zero changes nothing, and none moves the bitrate or its bounds.
pub proof fn law_baseline_is_the_least_rtt(
    enabled: bool,
    ceiling_bitrate_kbps: u32,
    floor_bitrate_kbps: u32,
    samples: Seq<RttSample>,
    at: Instant,
)
    requires
        within_one_window(samples),
    ensures
        ({
            let fresh = AdaptiveBitrateController::fresh(
                enabled,
                ceiling_bitrate_kbps,
                floor_bitrate_kbps,
            );
            let after = fresh.rtts_recorded(samples);
            &&& is_least_rtt(samples, after.minimum_rtt_ms)
            &&& after.rtt_recorded(0, at) == after
            &&& after.enabled == fresh.enabled
            &&& after.ceiling_bitrate_kbps == fresh.ceiling_bitrate_kbps
            &&& after.current_bitrate_kbps == fresh.current_bitrate_kbps
            &&& after.floor_bitrate_kbps == fresh.floor_bitrate_kbps
        }),
{
    lemma_least_rtt(
        AdaptiveBitrateController::fresh(enabled, ceiling_bitrate_kbps, floor_bitrate_kbps),
        samples,
    );
}

/// No total of a report is smaller than in the report before it.
pub open spec fn totals_grow(before: FeedbackSample, report: FeedbackSample) -> bool {
    &&& before.sent_packets <= report.sent_packets
    &&& before.lost_packets <= report.lost_packets
    &&& before.congestion_events <= report.congestion_events
    &&& before.admission_drops <= report.admission_drops
    &&& before.video_write_timeouts <= report.video_write_timeouts
    &&& before.recovery_requests <= report.recovery_requests
}

/// Of 32 packets or more that were sent between two reports, two in a hundred or
/// more were lost.
pub open spec fn packets_were_lost(before: FeedbackSample, report: FeedbackSample) -> bool {
    let sent = report.sent_packets - before.sent_packets;
    let lost = report.lost_packets - before.lost_packets;
    sent >= 32 && lost * 100 >= 2 * sent
}

/// Something was dropped, given up or asked for again between two reports, or
/// the path itself said that it is congested.
pub open spec fn trouble_was_counted(before: FeedbackSample, report: FeedbackSample) -> bool {
    ||| report.congestion_events > before.congestion_events
    ||| report.admission_drops > before.admission_drops
    ||| report.video_write_timeouts > before.video_write_timeouts
    ||| report.recovery_requests > before.recovery_requests
}

/// A controller that may step down at `now`: it is on, above its floor, past its
/// warm-up, and its last step lies fifteen seconds or more behind.
pub open spec fn may_step_down(controller: AdaptiveBitrateController, now: Instant) -> bool {
    &&& controller.enabled
    &&& controller.current_bitrate_kbps > controller.floor_bitrate_kbps
    &&& controller.startup_warmup_until matches Some(until) ==> now.nanos() >= until.nanos()
    &&& controller.last_reduction matches Some(last) ==> now.nanos() >= last.nanos()
        + 15_000_000_000
}

/// A quarter of a second or more and two seconds or less lie between two moments.
pub open spec fn well_spaced(before: Instant, now: Instant) -> bool {
    250_000_000 <= now.nanos() - before.nanos() <= 2_000_000_000
}

/// Three quarters of the bitrate in whole kilobits, but not less than the floor.
pub open spec fn steps_down_to(controller: AdaptiveBitrateController, bitrate_kbps: u32) -> bool {
    &&& bitrate_kbps >= controller.floor_bitrate_kbps
    &&& 4 * bitrate_kbps <= 3 * controller.current_bitrate_kbps || bitrate_kbps
        == controller.floor_bitrate_kbps
    &&& 4 * (bitrate_kbps + 1) > 3 * controller.current_bitrate_kbps
}

/// Three reports in a row that show trouble, each well behind the one before it,
/// cost a controller that starts from a clean one a quarter of its bitrate, with
/// the third and not before. It is trouble when packets are lost, and when
/// something else is counted, whatever the rest of the report says.
pub proof fn law_sustained_trouble_lowers_the_bitrate(
    controller: AdaptiveBitrateController,
    first: FeedbackSample,
    second: FeedbackSample,
    third: FeedbackSample,
    t1: Instant,
    t2: Instant,
    t3: Instant,
)
    requires
        controller.previous_feedback is Some,
        controller.last_observation is Some,
        controller.congested_samples == 0,
        may_step_down(controller, t1),
        well_spaced(controller.last_observation->0, t1),
        well_spaced(t1, t2),
        well_spaced(t2, t3),
        totals_grow(controller.previous_feedback->0, first),
        totals_grow(first, second),
        totals_grow(second, third),
        packets_were_lost(controller.previous_feedback->0, first) || trouble_was_counted(
            controller.previous_feedback->0,
            first,
        ),
        packets_were_lost(first, second) || trouble_was_counted(first, second),
        packets_were_lost(second, third) || trouble_was_counted(second, third),
    ensures
        controller.reduction(first, t1) is None,
        controller.observed(first, t1).reduction(second, t2) is None,
        ({
            let twice = controller.observed(first, t1).observed(second, t2);
            &&& twice.current_bitrate_kbps == controller.current_bitrate_kbps
            &&& twice.reduction(third, t3) matches Some(reduction)
            &&& reduction.previous_bitrate_kbps == controller.current_bitrate_kbps
            &&& steps_down_to(controller, reduction.bitrate_kbps)
            &&& twice.observed(third, t3).current_bitrate_kbps == reduction.bitrate_kbps
        }),
{
    let zero = controller.previous_feedback->0;
    lemma_trouble_is_congestion(zero, first);
    lemma_trouble_is_congestion(first, second);
    lemma_trouble_is_congestion(second, third);
    let once = controller.observed(first, t1);
    assert(once.congested_samples == 1);
    let twice = once.observed(second, t2);
    assert(twice.congested_samples == 2);
}

proof fn lemma_trouble_is_congestion(before: FeedbackSample, report: FeedbackSample)
    requires
        totals_grow(before, report),
        packets_were_lost(before, report) || trouble_was_counted(before, report),
    ensures
        report.spec_delta_since(before).transport_congestion(),
{
}

/// A round trip time that lies above the baseline by more than 20 ms and by more
/// than half of it, but not so far that the path must have changed, is trouble
/// too: three such reports in a row lower the bitrate.
pub proof fn law_sustained_delay_lowers_the_bitrate(
    controller: AdaptiveBitrateController,
    first: FeedbackSample,
    second: FeedbackSample,
    third: FeedbackSample,
    t1: Instant,
    t2: Instant,
    t3: Instant,
    baseline: u32,
)
    requires
        controller.previous_feedback is Some,
        controller.last_observation is Some,
        controller.congested_samples == 0,
        may_step_down(controller, t1),
        well_spaced(controller.last_observation->0, t1),
        well_spaced(t1, t2),
        well_spaced(t2, t3),
        totals_grow(controller.previous_feedback->0, first),
        totals_grow(first, second),
        totals_grow(second, third),
        baseline > 0,
        controller.rtt_window_started matches Some(started) && t3.nanos() < started.nanos()
            + 10_000_000_000,
        controller.current_rtt_window_min_ms == Some(baseline),
        controller.previous_rtt_window_min_ms matches Some(older) ==> older >= baseline,
        delays(baseline, first.rtt_ms),
        delays(baseline, second.rtt_ms),
        delays(baseline, third.rtt_ms),
    ensures
        controller.reduction(first, t1) is None,
        controller.observed(first, t1).reduction(second, t2) is None,
        controller.observed(first, t1).observed(second, t2).reduction(third, t3) matches Some(
            reduction,
        ) && steps_down_to(controller, reduction.bitrate_kbps),
{
    let once = controller.observed(first, t1);
    assert(once.minimum_rtt_ms == Some(baseline));
    assert(once.congested_samples == 1);
    let twice = once.observed(second, t2);
    assert(twice.minimum_rtt_ms == Some(baseline));
    assert(twice.congested_samples == 2);
}

/// A round trip time that shows a queue on the path, and not another path.
pub open spec fn delays(baseline: u32, rtt_ms: u32) -> bool {
    &&& rtt_ms > baseline + 20
    &&& rtt_ms > baseline + baseline as int / 2
    &&& rtt_ms <= 4 * baseline || rtt_ms <= baseline + 100
}

/// Nothing was lost to speak of and nothing was counted between two reports.
pub open spec fn all_went_well(before: FeedbackSample, report: FeedbackSample) -> bool {
    let sent = report.sent_packets - before.sent_packets;
    let lost = report.lost_packets - before.lost_packets;
    &&& totals_grow(before, report)
    &&& !trouble_was_counted(before, report)
    &&& sent < 32 || lost * 100 < 2 * sent
    &&& sent * 2 <= u64::MAX
}

/// A report without any trouble costs nothing and ends what was counted so far,
/// and so does one behind which the path is another one: neither lowers the
/// bitrate.
pub proof fn law_clean_report_ends_the_trouble(
    controller: AdaptiveBitrateController,
    report: FeedbackSample,
    now: Instant,
    baseline: u32,
)
    requires
        controller.previous_feedback matches Some(before) && all_went_well(before, report),
        controller.baseline_rtt_ms(report, now) == baseline,
        report.rtt_ms <= baseline + 20 || report.rtt_ms <= baseline + baseline as int / 2 || (
        report.rtt_ms > 4 * baseline && report.rtt_ms > baseline + 100) || baseline == 0,
    ensures
        controller.reduction(report, now) is None,
        controller.observed(report, now).congested_samples == 0,
        controller.observed(report, now).current_bitrate_kbps == controller.current_bitrate_kbps,
{
}

/// A step down needs a controller that is on and above its floor, past its
/// warm-up and fifteen seconds behind its last step, a report that is not the
/// first and whose totals did not fall, a quarter of a second behind the one
/// before it, and two reports with trouble within the last seconds.
pub proof fn law_when_a_step_down_is_possible(
    controller: AdaptiveBitrateController,
    report: FeedbackSample,
    now: Instant,
)
    requires
        controller.reduction(report, now) is Some,
    ensures
        controller.enabled,
        controller.current_bitrate_kbps > controller.floor_bitrate_kbps,
        controller.startup_warmup_until matches Some(until) ==> now.nanos() >= until.nanos(),
        controller.last_reduction matches Some(last) ==> now.nanos() >= last.nanos()
            + 15_000_000_000,
        controller.previous_feedback matches Some(before) && totals_grow(before, report),
        controller.last_observation matches Some(last) ==> 250_000_000 <= now.nanos()
            - last.nanos() <= 2_000_000_000,
        controller.congested_samples >= 2,
        controller.reduction(report, now) matches Some(reduction) && steps_down_to(
            controller,
            reduction.bitrate_kbps,
        ),
{
}

/// Reports that come together count once: one within a quarter of a second of
/// the one before it adds nothing to the trouble so far.
pub proof fn law_reports_that_come_together_count_once(
    controller: AdaptiveBitrateController,
    report: FeedbackSample,
    now: Instant,
)
    requires
        controller.last_observation matches Some(last) && last.nanos() <= now.nanos()
            < last.nanos() + 250_000_000,
    ensures
        controller.reduction(report, now) is None,
        controller.observed(report, now).congested_samples <= controller.congested_samples,
{
}

/// Totals that fall belong to another connection: nothing is held against the
/// bitrate, and the baseline begins anew with that report.
pub proof fn law_new_connection_starts_over(
    controller: AdaptiveBitrateController,
    report: FeedbackSample,
    now: Instant,
)
    requires
        may_step_down(controller, now),
        controller.previous_feedback matches Some(before) && !totals_grow(before, report),
    ensures
        controller.reduction(report, now) is None,
        ({
            let after = controller.observed(report, now);
            &&& after.congested_samples == 0
            &&& after.current_bitrate_kbps == controller.current_bitrate_kbps
            &&& after.minimum_rtt_ms == (if report.rtt_ms > 0 {
                Some(report.rtt_ms)
            } else {
                None
            })
            &&& after.previous_feedback == Some(report)
        }),
{
}

/// Whatever a report says, it is what the next one is compared with, and the
/// moment from which the next one is reckoned. That holds while a restart is
/// pending as well.
pub proof fn law_each_report_is_compared_with_the_one_before(
    controller: AdaptiveBitrateController,
    report: FeedbackSample,
    now: Instant,
)
    ensures
        controller.observed(report, now).previous_feedback == Some(report),
        controller.observed(report, now).last_observation == Some(now),
        controller.observed_while_restart_pending(report, now).previous_feedback == Some(report),
        controller.observed_while_restart_pending(report, now).last_observation == Some(now),
{
}

/// The baseline looks back over the running window and the one before it: what
/// was measured in neither does not count, and what was measured in one of them
/// does.
pub proof fn law_baseline_forgets_old_windows(
    controller: AdaptiveBitrateController,
    rtt_ms: u32,
    now: Instant,
)
    requires
        rtt_ms > 0,
        controller.rtt_window_started is Some,
        controller.current_rtt_window_min_ms is Some,
        now.nanos() >= controller.rtt_window_started->0.nanos(),
    ensures
        ({
            let after = controller.rtt_recorded(rtt_ms, now);
            let age = now.nanos() - controller.rtt_window_started->0.nanos();
            let current = controller.current_rtt_window_min_ms->0;
            &&& after.minimum_rtt_ms matches Some(least)
            &&& least <= rtt_ms
            &&& age >= 20_000_000_000 ==> least == rtt_ms
            &&& 10_000_000_000 <= age < 20_000_000_000 ==> (least == rtt_ms || least == current)
                && least <= current
            &&& age < 10_000_000_000 ==> least <= current && (
            controller.previous_rtt_window_min_ms matches Some(previous) ==> least <= previous)
            &&& age < 10_000_000_000 ==> least == rtt_ms || least == current
                || controller.previous_rtt_window_min_ms == Some(least)
        }),
{
}

/// A stream that starts is left alone for five seconds, whatever was before it.
pub proof fn law_warm_up_is_left_alone(
    controller: AdaptiveBitrateController,
    report: FeedbackSample,
    now: Instant,
    until: Instant,
)
    requires
        controller.startup_warmup_until == Some(until),
        now.nanos() < until.nanos(),
    ensures
        controller.reduction(report, now) is None,
        controller.observed(report, now).congested_samples == 0,
        controller.observed(report, now).startup_warmup_until == Some(until),
        controller.observed(report, now).current_bitrate_kbps == controller.current_bitrate_kbps,
{
}

/// A new controller begins at its ceiling, and its floor is not above that.
pub proof fn law_new_controller_begins_at_its_ceiling(enabled: bool, ceiling: u32, floor: u32)
    ensures
        ({
            let fresh = AdaptiveBitrateController::fresh(enabled, ceiling, floor);
            &&& fresh.enabled == enabled
            &&& fresh.current_bitrate_kbps == ceiling
            &&& fresh.ceiling_bitrate_kbps == ceiling
            &&& fresh.floor_bitrate_kbps <= ceiling
            &&& fresh.floor_bitrate_kbps <= floor
            &&& fresh.floor_bitrate_kbps == floor || fresh.floor_bitrate_kbps == ceiling
            &&& fresh.previous_feedback is None
            &&& fresh.last_reduction is None
            &&& fresh.congested_samples == 0
        }),
{
}

/// A rollback sets the bitrate that was asked for, or the nearest bound.
pub proof fn law_rollback_sets_the_nearest_bitrate(
    controller: AdaptiveBitrateController,
    kbps: u32,
)
    requires
        controller.wf(),
    ensures
        ({
            let after = controller.rolled_back(kbps);
            &&& kbps < controller.floor_bitrate_kbps ==> after.current_bitrate_kbps
                == controller.floor_bitrate_kbps
            &&& kbps > controller.ceiling_bitrate_kbps ==> after.current_bitrate_kbps
                == controller.ceiling_bitrate_kbps
            &&& after.congested_samples == 0
            &&& after.last_reduction == controller.last_reduction
            &&& after.enabled == controller.enabled
        }),
{
}

/// A controller that is reset forgets everything and leaves the first five seconds
/// alone. A reduction is cancelled only while it is the last one.
pub proof fn law_resetting_and_cancelling(
    controller: &mut AdaptiveBitrateController,
    other: &mut AdaptiveBitrateController,
    enabled: bool,
    ceiling: u32,
    floor: u32,
    now: Instant,
    reduction: BitrateReduction,
    cancelled: bool,
)
    requires
        call_ensures(
            AdaptiveBitrateController::reset,
            (controller, enabled, ceiling, floor, now),
            (),
        ),
        call_ensures(AdaptiveBitrateController::cancel_reduction, (other, reduction), cancelled),
    ensures
        final(controller).current_bitrate_kbps == ceiling,
        final(controller).startup_warmup_until is Some,
        final(controller).startup_warmup_until->0.nanos() == now.nanos() + 5_000_000_000,
        cancelled <==> old(other).current_bitrate_kbps == reduction.bitrate_kbps,
        !cancelled ==> *final(other) == *old(other),
        cancelled ==> *final(other) == old(other).rolled_back(reduction.previous_bitrate_kbps),
{
}

/// Trouble counts only in a row: after more than two seconds of silence a report is the
/// first one of its row again, and before that it adds to the row. The first report of
/// all adds to what is there.
pub proof fn law_long_silence_forgets_trouble(
    controller: AdaptiveBitrateController,
    now: Instant,
)
    requires
        controller.congested_samples < 255,
    ensures
        controller.last_observation is Some && now.nanos() > (controller.last_observation->0).nanos()
            + 2_000_000_000 ==> controller.streak_with(true, now) == 1,
        controller.last_observation is Some && now.nanos() <= (controller.last_observation->0).nanos()
            + 2_000_000_000 ==> controller.streak_with(true, now) == controller.congested_samples + 1,
        controller.last_observation is None ==> controller.streak_with(true, now)
            == controller.congested_samples + 1,
        controller.streak_with(false, now) == 0,
{
}

/// A round trip time that jumps to more than four times the baseline, and by more than a
/// tenth of a second, means another path unless something was lost or held up as well:
/// then it is no sign of trouble, and the bitrate stays.
pub proof fn law_another_path_is_no_trouble(
    controller: AdaptiveBitrateController,
    report: FeedbackSample,
    now: Instant,
)
    requires
        !controller.warming_up(now),
        controller.enabled,
        controller.current_bitrate_kbps > controller.floor_bitrate_kbps,
        controller.previous_feedback is Some,
        !controller.counters_reset(report),
    ensures
        ({
            let delta = report.spec_delta_since(controller.previous_feedback->0);
            let baseline = controller.baseline_rtt_ms(report, now);
            let jumped = baseline > 0 && report.rtt_ms > 4 * baseline && report.rtt_ms > baseline
                + 100;
            &&& controller.assess(report, now) is PathChanged <==> jumped
                && !delta.transport_congestion()
            &&& jumped && !delta.transport_congestion() ==> controller.reduction(report, now)
                is None && controller.observed(report, now).current_bitrate_kbps
                == controller.current_bitrate_kbps
        }),
{
}

} // verus!
