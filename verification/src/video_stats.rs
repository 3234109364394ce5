//! The time of video frames, and how long they take through host and streamer.

use crate::time::{Duration, Instant, MAX_DURATION_NANOS};
use vstd::prelude::*;

verus! {

pub const UPSTREAM_TIMESTAMP_TICKS_PER_SECOND: u128 = 90_000;

pub const NANOS_PER_SECOND: u128 = 1_000_000_000;

/// How often the statistics are sent.
pub const STATS_INTERVAL_NANOS: u64 = 1_000_000_000;

/// The microseconds that were read as ticks of a clock of 90 kHz.
pub open spec fn original_micros(nanos: nat) -> int {
    let rounded = (nanos * UPSTREAM_TIMESTAMP_TICKS_PER_SECOND + NANOS_PER_SECOND / 2)
        / NANOS_PER_SECOND as int;
    if rounded > u64::MAX {
        u64::MAX as int
    } else {
        rounded as int
    }
}

/// The presentation time of a frame. The native library hands out microseconds
/// as if they were ticks of a clock of 90 kHz, which is undone here.
pub fn normalize_pinned_c_timestamp(timestamp: Duration) -> (normalized: Duration)
    ensures
        normalized.nanos() == original_micros(timestamp.nanos()) * 1_000,
{
    let nanos: u128 = timestamp.as_nanos();
    let rounded: u128 = (nanos * UPSTREAM_TIMESTAMP_TICKS_PER_SECOND + NANOS_PER_SECOND / 2)
        / NANOS_PER_SECOND;
    let micros: u64 = if rounded > u64::MAX as u128 {
        u64::MAX
    } else {
        rounded as u64
    };
    Duration::from_micros(micros)
}

/// The shortest, the longest and the average of some spans.
#[derive(Clone, Copy, Debug, PartialEq, Eq, Structural)]
pub struct SpanSummary {
    pub shortest: Duration,
    pub longest: Duration,
    pub average: Duration,
}

/// What is sent of the statistics.
#[derive(Clone, Copy, Debug, PartialEq, Eq, Structural)]
pub struct VideoStatsReport {
    /// Missing where the host did not tell.
    pub host_processing_latency: Option<SpanSummary>,
    pub streamer_processing_time: SpanSummary,
}

/// Spans as they come in.
#[derive(Clone, Copy, Debug, PartialEq, Eq, Structural)]
pub struct SpanSeries {
    pub shortest: Duration,
    pub longest: Duration,
    pub total: Duration,
    pub count: u32,
}

/// A series in numbers: the shortest, the longest, the sum and how many.
pub struct SeriesNumbers {
    pub shortest: nat,
    pub longest: nat,
    pub total: nat,
    pub count: nat,
}

impl SeriesNumbers {
    pub open spec fn with(self, span: nat) -> SeriesNumbers {
        SeriesNumbers {
            shortest: if span < self.shortest {
                span
            } else {
                self.shortest
            },
            longest: if span > self.longest {
                span
            } else {
                self.longest
            },
            total: self.total + span,
            count: self.count + 1,
        }
    }

    pub open spec fn average(self) -> nat {
        if self.count == 0 {
            0
        } else {
            self.total / self.count
        }
    }

    /// Every span lies between the shortest and the longest.
    pub open spec fn is_sound(self) -> bool {
        self.shortest * self.count <= self.total <= self.longest * self.count
    }

    /// A series without any span, whose first span will be the shortest.
    pub open spec fn cleared() -> SeriesNumbers {
        SeriesNumbers { shortest: MAX_DURATION_NANOS as nat, longest: 0, total: 0, count: 0 }
    }
}

impl SpanSeries {
    pub open spec fn numbers(self) -> SeriesNumbers {
        SeriesNumbers {
            shortest: self.shortest.nanos(),
            longest: self.longest.nanos(),
            total: self.total.nanos(),
            count: self.count as nat,
        }
    }

    /// The series that a stream begins with.
    pub fn new() -> (series: Self)
        ensures
            series.numbers() == (SeriesNumbers { shortest: 0, longest: 0, total: 0, count: 0 }),
    {
        let zero = Duration::from_nanos(0);
        SpanSeries { shortest: zero, longest: zero, total: zero, count: 0 }
    }

    /// Whether one more span can be taken.
    pub open spec fn has_room(self, span: nat) -> bool {
        self.total.nanos() + span <= MAX_DURATION_NANOS && self.count < u32::MAX
    }

    fn take(&mut self, span: Duration)
        requires
            old(self).has_room(span.nanos()),
        ensures
            final(self).numbers() == old(self).numbers().with(span.nanos()),
    {
        if span.as_nanos() < self.shortest.as_nanos() {
            self.shortest = span;
        }
        if span.as_nanos() > self.longest.as_nanos() {
            self.longest = span;
        }
        if let Some(total) = self.total.checked_add(span) {
            self.total = total;
        }
        self.count = self.count + 1;
    }

    fn clear(&mut self)
        ensures
            final(self).numbers() == SeriesNumbers::cleared(),
    {
        self.shortest = Duration::longest();
        self.longest = Duration::from_nanos(0);
        self.total = Duration::from_nanos(0);
        self.count = 0;
    }

    fn summary(&self) -> (summary: SpanSummary)
        ensures
            summary.shortest == self.shortest,
            summary.longest == self.longest,
            summary.average.nanos() == self.numbers().average(),
    {
        let total: u128 = self.total.as_nanos();
        let average: Duration = if self.count == 0 {
            Duration::from_nanos(0)
        } else {
            let nanos: u128 = total / self.count as u128;
            proof {
                vstd::arithmetic::div_mod::lemma_div_is_ordered_by_denominator(
                    total as int,
                    1,
                    self.count as int,
                );
            }
            Duration::new((nanos / 1_000_000_000) as u64, (nanos % 1_000_000_000) as u32)
        };
        SpanSummary { shortest: self.shortest, longest: self.longest, average }
    }
}

/// The statistics of a video stream.
#[derive(Clone, Copy, Debug, PartialEq, Eq, Structural)]
pub struct VideoStats {
    pub last_send: Option<Instant>,
    pub host: SpanSeries,
    pub streamer: SpanSeries,
}

impl VideoStats {
    pub fn new() -> (stats: Self)
        ensures
            stats.last_send is None,
            stats.host.numbers() == (SeriesNumbers { shortest: 0, longest: 0, total: 0, count: 0 }),
            stats.streamer.numbers() == (SeriesNumbers {
                shortest: 0,
                longest: 0,
                total: 0,
                count: 0,
            }),
    {
        VideoStats { last_send: None, host: SpanSeries::new(), streamer: SpanSeries::new() }
    }

    /// Whether it is time to send.
    pub open spec fn is_due(self, now: Instant) -> bool {
        match self.last_send {
            Some(last_send) => last_send.nanos() + STATS_INTERVAL_NANOS < now.nanos(),
            None => true,
        }
    }

    /// The spans of the host, with that of the next frame.
    pub open spec fn host_with(self, host_processing_latency: Option<Duration>) -> SeriesNumbers {
        match host_processing_latency {
            Some(latency) => self.host.numbers().with(latency.nanos()),
            None => self.host.numbers(),
        }
    }

    /// Takes the times of a frame, and once per second gives the statistics.
    pub fn analyze(
        &mut self,
        host_processing_latency: Option<Duration>,
        frame_processing_time: Duration,
        now: Instant,
    ) -> (report: Option<VideoStatsReport>)
        requires
            old(self).streamer.has_room(frame_processing_time.nanos()),
            host_processing_latency is Some ==> old(self).host.has_room(
                host_processing_latency->0.nanos(),
            ),
        ensures
            ({
                let host = old(self).host_with(host_processing_latency);
                let streamer = old(self).streamer.numbers().with(frame_processing_time.nanos());
                if old(self).is_due(now) {
                    &&& report matches Some(report)
                    &&& report.host_processing_latency is Some == (host.count > 0)
                    &&& report.host_processing_latency is Some ==> summarizes(
                        report.host_processing_latency->0,
                        host,
                    )
                    &&& summarizes(report.streamer_processing_time, streamer)
                    &&& final(self).last_send == Some(now)
                    &&& final(self).host.numbers() == SeriesNumbers::cleared()
                    &&& final(self).streamer.numbers() == SeriesNumbers::cleared()
                } else {
                    &&& report is None
                    &&& final(self).last_send == old(self).last_send
                    &&& final(self).host.numbers() == host
                    &&& final(self).streamer.numbers() == streamer
                }
            }),
    {
        if let Some(latency) = host_processing_latency {
            self.host.take(latency);
        }
        self.streamer.take(frame_processing_time);
        let due: bool = match self.last_send {
            Some(last_send) => last_send.as_nanos() + (STATS_INTERVAL_NANOS as u128)
                < now.as_nanos(),
            None => true,
        };
        if !due {
            return None;
        }
        let report = VideoStatsReport {
            host_processing_latency: if self.host.count > 0 {
                Some(self.host.summary())
            } else {
                None
            },
            streamer_processing_time: self.streamer.summary(),
        };
        self.host.clear();
        self.streamer.clear();
        self.last_send = Some(now);
        Some(report)
    }
}

pub open spec fn summarizes(summary: SpanSummary, series: SeriesNumbers) -> bool {
    &&& summary.shortest.nanos() == series.shortest
    &&& summary.longest.nanos() == series.longest
    &&& summary.average.nanos() == series.average()
}

/// A time in microseconds that was read as ticks of a clock of 90 kHz comes out
/// again, as long as it was not cut off on the way.
pub proof fn law_timestamp_is_restored(micros: nat)
    requires
        micros <= u64::MAX,
    ensures
        original_micros(micros * 1_000_000_000 / 90_000) == micros,
{
    let nanos = micros * 1_000_000_000 / 90_000;
    assert(nanos * 90_000 <= micros * 1_000_000_000 < nanos * 90_000 + 90_000);
    let scaled = nanos * 90_000 + 500_000_000;
    assert(micros * 1_000_000_000 <= scaled < micros * 1_000_000_000 + 1_000_000_000);
    assert(scaled / 1_000_000_000 == micros);
}

/// However many frames are counted, the average lies between the shortest and
/// the longest span.
pub proof fn law_average_lies_between(series: SeriesNumbers, span: nat)
    requires
        series.is_sound(),
    ensures
        SeriesNumbers::cleared().is_sound(),
        (SeriesNumbers { shortest: 0, longest: 0, total: 0, count: 0 }).is_sound(),
        series.with(span).is_sound(),
        series.count > 0 ==> series.shortest <= series.average() <= series.longest,
{
    let next = series.with(span);
    let (s, l, c, t) = (series.shortest, series.longest, series.count, series.total);
    let (least, most) = (next.shortest, next.longest);
    assert(least * (c + 1) <= t + span <= most * (c + 1)) by (nonlinear_arith)
        requires
            s * c <= t <= l * c,
            least <= s,
            least <= span,
            most >= l,
            most >= span,
            c >= 0,
    {
        assert(least * c <= s * c);
        assert(l * c <= most * c);
    }
    if c > 0 {
        assert(s <= t / c <= l) by (nonlinear_arith)
            requires
                s * c <= t <= l * c,
                c > 0,
        ;
    }
}

/// A series knows the shortest, the longest and the sum of what it was given, whatever
/// the order, and begins with none of it.
pub proof fn law_series_keeps_what_it_was_given(series: SeriesNumbers, one: nat, other: nat)
    ensures
        series.with(one).with(other) == series.with(other).with(one),
        series.with(one).count == series.count + 1,
        series.with(one).total == series.total + one,
        series.with(one).shortest <= one <= series.with(one).longest,
        series.with(one).shortest <= series.shortest,
        series.with(one).longest >= series.longest,
        series.with(one).shortest == one || series.with(one).shortest == series.shortest,
        series.with(one).longest == one || series.with(one).longest == series.longest,
        one <= MAX_DURATION_NANOS ==> SeriesNumbers::cleared().with(one) == (SeriesNumbers {
            shortest: one,
            longest: one,
            total: one,
            count: 1,
        }),
{
}

/// The average is the sum divided by the count, rounded down.
pub proof fn law_average_of_a_series(series: SeriesNumbers)
    requires
        series.count > 0,
    ensures
        series.average() * series.count <= series.total,
        series.total < (series.average() + 1) * series.count,
        (SeriesNumbers { count: 0, ..series }).average() == 0,
{
    let total = series.total as int;
    let count = series.count as int;
    vstd::arithmetic::div_mod::lemma_fundamental_div_mod(total, count);
    vstd::arithmetic::div_mod::lemma_mod_bound(total, count);
    assert((total / count) * count == count * (total / count)) by (nonlinear_arith);
    assert((total / count + 1) * count == (total / count) * count + count) by (nonlinear_arith);
}

/// A report is due at first, and then whenever more than a second has passed since the
/// last one.
pub proof fn law_when_a_report_is_due(stats: VideoStats, sent: Instant, now: Instant)
    ensures
        (VideoStats { last_send: None, ..stats }).is_due(now),
        (VideoStats { last_send: Some(sent), ..stats }).is_due(now) <==> now.nanos() > sent.nanos()
            + 1_000_000_000,
{
}

/// A frame for which the host told nothing leaves the series of the host alone.
pub proof fn law_silent_host_is_not_counted(stats: VideoStats, latency: Duration)
    ensures
        stats.host_with(None) == stats.host.numbers(),
        stats.host_with(Some(latency)).count == stats.host.numbers().count + 1,
        stats.host_with(Some(latency)).total == stats.host.numbers().total + latency.nanos(),
{
}

/// A report that is due tells of every frame since the last one, this one included, and
/// begins anew; the host is left out where it told nothing. Until then frames are
/// counted.
pub proof fn law_what_a_report_tells(
    stats: &mut VideoStats,
    host: Option<Duration>,
    time: Duration,
    now: Instant,
    report: Option<VideoStatsReport>,
)
    requires
        call_ensures(VideoStats::analyze, (stats, host, time, now), report),
    ensures
        ({
            let series = old(stats).streamer.numbers().with(time.nanos());
            let hosts = old(stats).host_with(host);
            &&& report is Some <==> old(stats).is_due(now)
            &&& report matches Some(report) ==> {
                &&& report.streamer_processing_time.shortest.nanos() == series.shortest
                &&& report.streamer_processing_time.longest.nanos() == series.longest
                &&& report.streamer_processing_time.average.nanos() == series.average()
                &&& report.host_processing_latency is Some <==> hosts.count > 0
                &&& report.host_processing_latency matches Some(summary) ==> summary.average.nanos()
                    == hosts.average() && summary.shortest.nanos() == hosts.shortest
                    && summary.longest.nanos() == hosts.longest
                &&& final(stats).last_send == Some(now)
                &&& final(stats).streamer.numbers().count == 0
                &&& final(stats).host.numbers().count == 0
            }
            &&& report is None ==> final(stats).streamer.numbers().count == old(
                stats,
            ).streamer.numbers().count + 1 && final(stats).streamer.numbers().total == old(
                stats,
            ).streamer.numbers().total + time.nanos() && final(stats).last_send == old(
                stats,
            ).last_send
        }),
{
}

/// A time that was counted in ticks of 90 kHz comes back as the nearest whole number of
/// microseconds that it was made from.
pub proof fn law_timestamps_are_rounded(nanos: nat)
    requires
        nanos * 90_000 + 500_000_000 < 0x1_0000_0000_0000_0000 * 1_000_000_000,
    ensures
        -500_000_000 <= nanos * 90_000 - original_micros(nanos) * 1_000_000_000 < 500_000_000,
{
}

} // verus!
