//! The bitrate follows what the network reports.

use moonlight_web::adaptive_bitrate::{AdaptiveBitrateController, BitrateReduction, FeedbackSample};
use moonlight_web::time::{Duration, Instant};

fn feedback(sent: u64, lost: u64, congestion_events: u64) -> FeedbackSample {
    FeedbackSample {
        rtt_ms: 20,
        sent_packets: sent,
        lost_packets: lost,
        congestion_events,
        ..FeedbackSample::default()
    }
}

#[test]
fn startup_warmup_ignores_initial_connection_noise() {
    let start = Instant::at(Duration::from_secs(100));
    let mut controller = AdaptiveBitrateController::new(false, 0, 0);
    controller.reset(true, 10_000, 2_000, start);

    assert_eq!(controller.observe(feedback(100, 0, 0), start), None);
    for half_second in 1..10 {
        assert_eq!(
            controller.observe(
                feedback(100 + half_second * 100, half_second * 5, half_second,),
                start.after(Duration::from_millis(half_second * 500)),
            ),
            None
        );
    }
    assert_eq!(controller.current_bitrate_kbps(), 10_000);

    // Three independently spaced congested reports are still required
    // after the grace period expires.
    for half_second in 10..=11 {
        assert_eq!(
            controller.observe(
                feedback(100 + half_second * 100, half_second * 5, half_second,),
                start.after(Duration::from_millis(half_second * 500)),
            ),
            None
        );
    }
    assert_eq!(
        controller.observe(feedback(1_300, 60, 12), start.after(Duration::from_secs(6)),),
        Some(BitrateReduction {
            previous_bitrate_kbps: 10_000,
            bitrate_kbps: 7_500,
        })
    );
}

#[test]
fn isolated_congestion_burst_is_ignored() {
    let start = Instant::at(Duration::from_secs(100));
    let mut controller = AdaptiveBitrateController::new(true, 10_000, 2_000);

    assert_eq!(controller.observe(feedback(100, 0, 0), start), None);
    assert_eq!(
        controller.observe(feedback(200, 0, 1), start.after(Duration::from_secs(1))),
        None
    );
    assert_eq!(
        controller.observe(feedback(300, 0, 1), start.after(Duration::from_secs(2))),
        None
    );
    assert_eq!(controller.current_bitrate_kbps(), 10_000);
}

#[test]
fn sustained_congestion_reduces_bitrate_by_one_quarter() {
    let start = Instant::at(Duration::from_secs(100));
    let mut controller = AdaptiveBitrateController::new(true, 10_000, 2_000);
    assert_eq!(controller.ceiling_bitrate_kbps, 10_000);
    assert_eq!(controller.observe(feedback(100, 0, 0), start), None);

    for second in 1..=2 {
        assert_eq!(
            controller.observe(
                feedback(100 + second * 100, 0, second),
                start.after(Duration::from_secs(second)),
            ),
            None
        );
    }
    assert_eq!(
        controller.observe(feedback(400, 0, 3), start.after(Duration::from_secs(3))),
        Some(BitrateReduction {
            previous_bitrate_kbps: 10_000,
            bitrate_kbps: 7_500,
        })
    );
}

#[test]
fn cooldown_suppresses_repeated_restarts() {
    let start = Instant::at(Duration::from_secs(100));
    let mut controller = AdaptiveBitrateController::new(true, 10_000, 2_000);
    controller.observe(feedback(100, 0, 0), start);
    for second in 1..=3 {
        controller.observe(
            feedback(100 + second * 100, 0, second),
            start.after(Duration::from_secs(second)),
        );
    }
    assert_eq!(controller.current_bitrate_kbps(), 7_500);

    for second in 4..=17 {
        assert_eq!(
            controller.observe(
                feedback(100 + second * 100, 0, second),
                start.after(Duration::from_secs(second)),
            ),
            None
        );
    }
    assert_eq!(
        controller.observe(feedback(1_900, 0, 18), start.after(Duration::from_secs(18))),
        Some(BitrateReduction {
            previous_bitrate_kbps: 7_500,
            bitrate_kbps: 5_625,
        })
    );
}

#[test]
fn reductions_stop_at_configured_floor() {
    let start = Instant::at(Duration::from_secs(100));
    let mut controller = AdaptiveBitrateController::new(true, 3_000, 2_500);
    controller.observe(feedback(100, 0, 0), start);
    for second in 1..=3 {
        controller.observe(
            feedback(100 + second * 100, 0, second),
            start.after(Duration::from_secs(second)),
        );
    }
    assert_eq!(controller.current_bitrate_kbps(), 2_500);

    for second in 20..=24 {
        assert_eq!(
            controller.observe(
                feedback(100 + second * 100, 0, second),
                start.after(Duration::from_secs(second)),
            ),
            None
        );
    }
    assert_eq!(controller.current_bitrate_kbps(), 2_500);
}

#[test]
fn cumulative_counters_use_deltas_and_handle_reset() {
    let start = Instant::at(Duration::from_secs(100));
    let mut controller = AdaptiveBitrateController::new(true, 8_000, 2_000);
    assert_eq!(controller.observe(feedback(10_000, 500, 90), start), None);

    // Unchanged totals are clean even though the lifetime loss count is high.
    assert_eq!(
        controller.observe(feedback(10_100, 500, 90), start.after(Duration::from_secs(1))),
        None
    );

    // A server-side counter reset establishes a new baseline. Subsequent
    // deltas still trigger after three independently spaced samples.
    for second in 2..=5 {
        assert_eq!(
            controller.observe(
                feedback((second - 1) * 100, (second - 1) * 5, second - 1),
                start.after(Duration::from_secs(second)),
            ),
            if second == 5 {
                Some(BitrateReduction {
                    previous_bitrate_kbps: 8_000,
                    bitrate_kbps: 6_000,
                })
            } else {
                None
            }
        );
    }
}

#[test]
fn rollback_restores_previous_known_good_rate() {
    let mut controller = AdaptiveBitrateController::new(true, 8_000, 2_000);
    controller.current_bitrate_kbps = 6_000;
    controller.rollback(8_000);
    assert_eq!(controller.current_bitrate_kbps(), 8_000);
}

#[test]
fn pending_restart_observations_do_not_stack_downshifts() {
    let start = Instant::at(Duration::from_secs(100));
    let mut controller = AdaptiveBitrateController::new(true, 8_000, 2_000);
    controller.observe(feedback(100, 0, 0), start);
    for second in 1..=3 {
        controller.observe(
            feedback(100 + second * 100, 0, second),
            start.after(Duration::from_secs(second)),
        );
    }
    assert_eq!(controller.current_bitrate_kbps(), 6_000);

    for second in 4..=40 {
        controller.observe_while_restart_pending(
            feedback(100 + second * 100, 0, second),
            start.after(Duration::from_secs(second)),
        );
    }
    assert_eq!(controller.current_bitrate_kbps(), 6_000);

    // Cancelling the stale pending restart restores the only committed
    // target; none of the reports above queued another reduction.
    assert!(controller.cancel_reduction(BitrateReduction {
        previous_bitrate_kbps: 8_000,
        bitrate_kbps: 6_000,
    }));
    assert_eq!(controller.current_bitrate_kbps(), 8_000);
}

#[test]
fn expired_restart_only_rolls_back_its_own_pending_target() {
    let mut controller = AdaptiveBitrateController::new(true, 8_000, 2_000);
    controller.current_bitrate_kbps = 6_000;

    assert!(!controller.cancel_reduction(BitrateReduction {
        previous_bitrate_kbps: 6_000,
        bitrate_kbps: 4_500,
    }));
    assert_eq!(controller.current_bitrate_kbps(), 6_000);

    assert!(controller.cancel_reduction(BitrateReduction {
        previous_bitrate_kbps: 8_000,
        bitrate_kbps: 6_000,
    }));
    assert_eq!(controller.current_bitrate_kbps(), 8_000);
}

#[test]
fn congestion_streak_expires_and_zero_rtt_is_not_a_baseline() {
    let start = Instant::at(Duration::from_secs(100));
    let mut controller = AdaptiveBitrateController::new(true, 8_000, 2_000);
    let mut sample = feedback(100, 0, 0);
    sample.rtt_ms = 0;
    controller.observe(sample, start);

    sample.recovery_requests = 1;
    assert_eq!(
        controller.observe(sample, start.after(Duration::from_millis(500))),
        None
    );
    sample.recovery_requests = 2;
    assert_eq!(
        controller.observe(sample, start.after(Duration::from_secs(4))),
        None
    );
    sample.recovery_requests = 3;
    assert_eq!(
        controller.observe(sample, start.after(Duration::from_secs(8))),
        None
    );
    assert_eq!(controller.current_bitrate_kbps(), 8_000);
    assert_eq!(controller.minimum_rtt_ms, None);
}

#[test]
fn back_to_back_coalesced_reports_do_not_look_sustained() {
    let start = Instant::at(Duration::from_secs(100));
    let mut controller = AdaptiveBitrateController::new(true, 8_000, 2_000);
    controller.observe(feedback(100, 0, 0), start);
    assert_eq!(
        controller.observe(feedback(200, 0, 1), start.after(Duration::from_millis(500))),
        None
    );
    assert_eq!(
        controller.observe(feedback(300, 0, 2), start.after(Duration::from_millis(501))),
        None
    );
    assert_eq!(
        controller.observe(feedback(400, 0, 3), start.after(Duration::from_millis(502))),
        None
    );
    assert_eq!(
        controller.observe(feedback(500, 0, 4), start.after(Duration::from_millis(1_000))),
        None
    );
    assert_eq!(
        controller.observe(feedback(600, 0, 5), start.after(Duration::from_millis(1_500))),
        Some(BitrateReduction {
            previous_bitrate_kbps: 8_000,
            bitrate_kbps: 6_000,
        })
    );
}

#[test]
fn healthy_lan_to_wan_path_change_rebases_rtt() {
    let start = Instant::at(Duration::from_secs(100));
    let mut controller = AdaptiveBitrateController::new(true, 8_000, 2_000);
    let mut sample = feedback(100, 0, 0);
    sample.rtt_ms = 5;
    controller.observe(sample, start);

    for index in 1..=40 {
        sample.sent_packets += 100;
        sample.rtt_ms = 250;
        assert_eq!(
            controller.observe(sample, start.after(Duration::from_millis(index * 500))),
            None
        );
    }
    assert_eq!(controller.current_bitrate_kbps(), 8_000);
    assert_eq!(controller.minimum_rtt_ms, Some(250));
}

#[test]
fn counter_reset_immediately_rebases_rtt() {
    let start = Instant::at(Duration::from_secs(100));
    let mut controller = AdaptiveBitrateController::new(true, 8_000, 2_000);
    let mut sample = feedback(10_000, 100, 10);
    sample.rtt_ms = 5;
    controller.observe(sample, start);

    sample = feedback(10, 0, 0);
    sample.rtt_ms = 250;
    assert_eq!(
        controller.observe(sample, start.after(Duration::from_millis(500))),
        None
    );
    assert_eq!(controller.minimum_rtt_ms, Some(250));
    assert_eq!(controller.current_bitrate_kbps(), 8_000);
}

#[test]
fn back_to_back_clean_report_clears_congestion_streak() {
    let start = Instant::at(Duration::from_secs(100));
    let mut controller = AdaptiveBitrateController::new(true, 8_000, 2_000);
    controller.observe(feedback(100, 0, 0), start);

    let samples = [
        (500, feedback(200, 0, 1)),
        (501, feedback(201, 0, 1)),
        (1_000, feedback(300, 0, 2)),
        (1_001, feedback(301, 0, 2)),
        (1_500, feedback(400, 0, 3)),
    ];
    for (millis, sample) in samples {
        assert_eq!(
            controller.observe(sample, start.after(Duration::from_millis(millis))),
            None
        );
    }
    assert_eq!(controller.current_bitrate_kbps(), 8_000);
}

#[test]
fn rtt_window_rollover_does_not_hide_bufferbloat() {
    let start = Instant::at(Duration::from_secs(100));
    let mut controller = AdaptiveBitrateController::new(true, 8_000, 2_000);
    let mut sample = feedback(100, 0, 0);
    sample.rtt_ms = 20;
    controller.observe(sample, start);

    for (index, millis) in [9_500, 10_000, 10_500].into_iter().enumerate() {
        sample.sent_packets += 100;
        sample.rtt_ms = 80;
        assert_eq!(
            controller.observe(sample, start.after(Duration::from_millis(millis))),
            if index == 2 {
                Some(BitrateReduction {
                    previous_bitrate_kbps: 8_000,
                    bitrate_kbps: 6_000,
                })
            } else {
                None
            }
        );
    }
}

#[test]
fn baseline_is_the_least_round_trip_time_of_a_window() {
    let mut controller = AdaptiveBitrateController::new(true, 20_000, 5_000);
    let at = |secs: u64| Instant::at(Duration::from_secs(100 + secs));
    controller.record_rtt(0, at(0));
    assert_eq!(controller.minimum_rtt_ms, None);
    for (rtt_ms, secs, least) in [(40, 1, 40), (25, 3, 25), (0, 4, 25), (60, 9, 25)] {
        controller.record_rtt(rtt_ms, at(secs));
        assert_eq!(controller.minimum_rtt_ms, Some(least));
    }
    assert_eq!(controller.current_bitrate_kbps, 20_000);
}
