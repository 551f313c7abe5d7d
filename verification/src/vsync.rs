//! Vertical-sync clocks of the task displays.
//!
//! Denial reports when a frame was shown. Each display that `SurfaceFlinger`
//! listens to has its own free-running clock, seeded from that host phase. The
//! service thread waits, calls back and reports how long that took; everything
//! that it decides stands here.

use std::collections::BTreeMap;

use vstd::arithmetic::div_mod::{
    lemma_fundamental_div_mod, lemma_mod_multiples_basic, lemma_mod_multiples_vanish,
};
use vstd::prelude::*;

use crate::composer::hwc3::ErrorCode;
use crate::composer::DisplayId;
use crate::ordered::{in_order, lists, ordered_keys, value_mut};

verus! {

broadcast use vstd::laws_cmp::group_laws_cmp;

/// Length of one audit window.
pub const AUDIT_WINDOW_NANOS: u64 = 1_000_000_000;

/// A number that stops at the highest value of its type.
pub open spec fn capped(value: int, limit: int) -> int {
    if value > limit {
        limit
    } else {
        value
    }
}

/// Larger of two numbers.
pub open spec fn larger(first: u64, second: u64) -> u64 {
    if first >= second {
        first
    } else {
        second
    }
}

fn greater_of(first: u64, second: u64) -> (result: u64)
    ensures
        result == larger(first, second),
{
    if first >= second {
        first
    } else {
        second
    }
}

/// Distance of two numbers.
pub open spec fn distance(first: u64, second: u64) -> u64 {
    if first >= second {
        (first - second) as u64
    } else {
        (second - first) as u64
    }
}

fn difference(first: u64, second: u64) -> (result: u64)
    ensures
        result == distance(first, second),
{
    if first >= second {
        first - second
    } else {
        second - first
    }
}

/// First tick after a moment of a clock with a phase and a period.
pub open spec fn tick_after(now: u64, phase: u64, period: u64) -> u64 {
    if phase > now {
        phase
    } else {
        capped(phase + ((now - phase) / period as int + 1) * period, u64::MAX as int) as u64
    }
}

/// First tick after a moment of a clock with a phase and a period.
pub fn next_vsync_after(now: u64, phase: u64, period: u64) -> (tick: u64)
    requires
        phase <= now ==> period > 0,
    ensures
        tick == tick_after(now, phase, period),
{
    if phase > now {
        return phase;
    }
    let elapsed: u64 = now - phase;
    let past: u64 = elapsed % period;
    proof {
        lemma_fundamental_div_mod(elapsed as int, period as int);
        let periods = elapsed as int / period as int;
        assert((periods + 1) * period == period * periods + period) by (nonlinear_arith);
    }
    (now - past).saturating_add(period)
}

/// Distance of two moments in the phase of a clock.
pub open spec fn phase_gap(first: u64, second: u64, period: u64) -> u64 {
    let remainder = distance(first, second) % period;
    if remainder <= period - remainder {
        remainder
    } else {
        (period - remainder) as u64
    }
}

/// Distance of two moments in the phase of a clock.
pub fn phase_distance(first: u64, second: u64, period: u64) -> (gap: u64)
    requires
        period > 0,
    ensures
        gap == phase_gap(first, second, period),
{
    let remainder: u64 = difference(first, second) % period;
    if remainder <= period - remainder {
        remainder
    } else {
        period - remainder
    }
}

/// Whether two refresh periods are those of one clock: they differ by a
/// hundredth of the first, or by a nanosecond, at most.
pub open spec fn compatible(first: u64, second: u64) -> bool {
    distance(first, second) <= larger(first / 100, 1)
}

/// Whether two refresh periods are those of one clock.
pub fn periods_compatible(first: u64, second: u64) -> (same: bool)
    ensures
        same == compatible(first, second),
{
    difference(first, second) <= greater_of(first / 100, 1)
}

/// Average in microseconds of a total in nanoseconds.
pub open spec fn average(total_nanos: u128, count: u64) -> u128 {
    if count == 0 {
        0
    } else {
        total_nanos / (count as u128) / 1_000
    }
}

/// Average in microseconds of a total in nanoseconds.
pub fn average_micros(total_nanos: u128, count: u64) -> (micros: u128)
    ensures
        micros == average(total_nanos, count),
{
    if count == 0 {
        return 0;
    }
    total_nanos / (count as u128) / 1_000
}

/// A clock keeps the phase of its seed without drift: its next tick comes after
/// now, at most one period later, a whole number of periods after the seed.
pub proof fn law_ticks_keep_their_phase(now: u64, phase: u64, period: u64)
    requires
        period > 0,
        phase <= now,
        now + period <= u64::MAX,
    ensures
        now < tick_after(now, phase, period) <= now + period,
        (tick_after(now, phase, period) - phase) % period as int == 0,
{
    let periods = (now - phase) / period as int;
    lemma_fundamental_div_mod(now - phase, period as int);
    assert((periods + 1) * period == period * periods + period) by (nonlinear_arith);
    assert((now - phase) % period as int >= 0);
    lemma_mod_multiples_basic(periods + 1, period as int);
}

/// The next tick of a clock does not change when the clock is seeded again from
/// one of its own ticks.
pub proof fn law_ticks_do_not_drift(now: u64, later: u64, phase: u64, period: u64)
    requires
        period > 0,
        phase <= now <= later,
        later + period <= u64::MAX,
        tick_after(now, phase, period) <= later,
    ensures
        tick_after(later, tick_after(now, phase, period), period) == tick_after(
            later,
            phase,
            period,
        ),
{
    let seed = tick_after(now, phase, period);
    law_ticks_keep_their_phase(now, phase, period);
    law_ticks_keep_their_phase(later, phase, period);
    law_ticks_keep_their_phase(later, seed, period);
    let direct = tick_after(later, phase, period);
    let seeded = tick_after(later, seed, period);
    let p = period as int;
    lemma_fundamental_div_mod(seed - phase, p);
    lemma_fundamental_div_mod(direct - phase, p);
    lemma_fundamental_div_mod(seeded - seed, p);
    let (a, b, c) = ((seed - phase) / p, (direct - phase) / p, (seeded - seed) / p);
    assert(direct - seeded == p * b - p * a - p * c);
    assert(p * b - p * a - p * c == p * (b - a - c)) by (nonlinear_arith);
    assert(b - a - c == 0) by (nonlinear_arith)
        requires
            p > 0,
            -p < p * (b - a - c) < p,
    ;
}

/// Distance of a difference from the nearest whole number of periods.
spec fn nearest_gap(difference: int, period: int) -> int {
    let remainder = difference % period;
    if remainder <= period - remainder {
        remainder
    } else {
        period - remainder
    }
}

proof fn lemma_gap_of_difference(first: u64, second: u64, period: u64)
    requires
        period > 0,
    ensures
        phase_gap(first, second, period) == nearest_gap(first - second, period as int),
{
    let p = period as int;
    let difference = first - second;
    if difference < 0 {
        lemma_fundamental_div_mod(difference, p);
        lemma_fundamental_div_mod(-difference, p);
        let (a, b) = (difference / p, (-difference) / p);
        let total = difference % p + (-difference) % p;
        assert(total == p * (-(a + b))) by (nonlinear_arith)
            requires
                difference == p * a + difference % p,
                -difference == p * b + (-difference) % p,
                total == difference % p + (-difference) % p,
        ;
        assert(-(a + b) == 0 || -(a + b) == 1) by (nonlinear_arith)
            requires
                p > 0,
                0 <= p * (-(a + b)) < 2 * p,
        ;
        assert(total == 0 || total == p) by (nonlinear_arith)
            requires
                total == p * (-(a + b)),
                -(a + b) == 0 || -(a + b) == 1,
        ;
    }
}

/// The distance in phase ignores whole periods between the two moments, is the
/// same in both directions, and is half a period at most.
pub proof fn law_phase_ignores_whole_periods(first: u64, second: u64, period: u64, periods: u64)
    requires
        period > 0,
    ensures
        first + periods * period <= u64::MAX ==> phase_gap(
            (first + periods * period) as u64,
            second,
            period,
        ) == phase_gap(first, second, period),
        second + periods * period <= u64::MAX ==> phase_gap(
            first,
            (second + periods * period) as u64,
            period,
        ) == phase_gap(first, second, period),
        phase_gap(first, second, period) == phase_gap(second, first, period),
        phase_gap(first, second, period) <= period / 2,
{
    let shift = periods * period;
    assert(shift >= 0) by (nonlinear_arith)
        requires
            shift == periods * period,
    ;
    assert(period as int * periods as int == shift) by (nonlinear_arith)
        requires
            shift == periods * period,
    ;
    lemma_gap_of_difference(first, second, period);
    lemma_gap_of_difference(second, first, period);
    if first + shift <= u64::MAX {
        lemma_mod_multiples_vanish(periods as int, first - second, period as int);
        lemma_gap_of_difference((first + shift) as u64, second, period);
    }
    if second + shift <= u64::MAX {
        lemma_mod_multiples_vanish(periods as int, second - first, period as int);
        lemma_gap_of_difference((second + shift) as u64, first, period);
        lemma_gap_of_difference(first, (second + shift) as u64, period);
    }
}

/// Clock of one display.
#[derive(Clone, Copy, Debug, PartialEq, Eq, Structural)]
pub struct ScheduledVsync {
    /// Refresh period.
    pub period_nanos: u64,
    /// Next tick.
    pub next_nanos: u64,
}

/// One tick to report.
#[derive(Clone, Copy, Debug, PartialEq, Eq, Structural)]
pub struct DueVsync {
    /// Display of the clock.
    pub display: DisplayId,
    /// Time of the tick.
    pub timestamp_nanos: u64,
    /// Refresh period.
    pub period_nanos: u64,
}

/// Timing of one audit window.
#[derive(Clone, Copy, Debug, PartialEq, Eq, Structural)]
pub struct VsyncAudit {
    /// Start of the window, zero before the first event.
    pub window_started_nanos: u64,
    /// Ticks that were due.
    pub scheduler_ticks: u64,
    /// Whole periods that went by before a tick was served.
    pub skipped_periods: u64,
    /// Sum of the delays of ticks.
    pub wake_late_total_nanos: u128,
    /// Longest delay of a tick.
    pub wake_late_max_nanos: u64,
    /// Sum of the durations of callbacks.
    pub callback_total_nanos: u128,
    /// Longest callback.
    pub callback_max_nanos: u64,
    /// Presentations that Denial reported.
    pub presentations: u64,
    /// Reports with the timestamp of the one before.
    pub duplicate_presentations: u64,
    /// Intervals between presentations.
    pub presentation_interval_count: u64,
    /// Sum of the intervals.
    pub presentation_interval_total_nanos: u128,
    /// Longest interval.
    pub presentation_interval_max_nanos: u64,
    /// Sum of the delays of reports.
    pub delivery_late_total_nanos: u128,
    /// Longest delay of a report.
    pub delivery_late_max_nanos: u64,
    /// Clocks compared with the host phase.
    pub phase_observations: u64,
    /// Sum of their distances from it.
    pub phase_error_total_nanos: u128,
    /// Largest distance.
    pub phase_error_max_nanos: u64,
    /// Timestamp of the last report.
    pub last_presentation_nanos: Option<u64>,
}

/// Audit of a window that has just started.
pub open spec fn fresh_audit(started: u64, last: Option<u64>) -> VsyncAudit {
    VsyncAudit {
        window_started_nanos: started,
        scheduler_ticks: 0,
        skipped_periods: 0,
        wake_late_total_nanos: 0,
        wake_late_max_nanos: 0,
        callback_total_nanos: 0,
        callback_max_nanos: 0,
        presentations: 0,
        duplicate_presentations: 0,
        presentation_interval_count: 0,
        presentation_interval_total_nanos: 0,
        presentation_interval_max_nanos: 0,
        delivery_late_total_nanos: 0,
        delivery_late_max_nanos: 0,
        phase_observations: 0,
        phase_error_total_nanos: 0,
        phase_error_max_nanos: 0,
        last_presentation_nanos: last,
    }
}

fn new_audit(started: u64, last: Option<u64>) -> (audit: VsyncAudit)
    ensures
        audit == fresh_audit(started, last),
{
    VsyncAudit {
        window_started_nanos: started,
        scheduler_ticks: 0,
        skipped_periods: 0,
        wake_late_total_nanos: 0,
        wake_late_max_nanos: 0,
        callback_total_nanos: 0,
        callback_max_nanos: 0,
        presentations: 0,
        duplicate_presentations: 0,
        presentation_interval_count: 0,
        presentation_interval_total_nanos: 0,
        presentation_interval_max_nanos: 0,
        delivery_late_total_nanos: 0,
        delivery_late_max_nanos: 0,
        phase_observations: 0,
        phase_error_total_nanos: 0,
        phase_error_max_nanos: 0,
        last_presentation_nanos: last,
    }
}

/// Numbers of one audit line, averages and maxima in microseconds.
#[derive(Clone, Copy, Debug, PartialEq, Eq, Structural)]
pub struct AuditReport {
    pub interval_ms: u64,
    pub ticks: u64,
    pub skipped: u64,
    pub wake_late_avg_us: u128,
    pub wake_late_max_us: u64,
    pub callback_avg_us: u128,
    pub callback_max_us: u64,
    pub presentations: u64,
    pub duplicate_presentations: u64,
    pub present_interval_avg_us: u128,
    pub present_interval_max_us: u64,
    pub delivery_late_avg_us: u128,
    pub delivery_late_max_us: u64,
    pub phase_observations: u64,
    pub phase_error_avg_us: u128,
    pub phase_error_max_us: u64,
}

/// Report of a window that has lasted some time.
pub open spec fn report_of(audit: VsyncAudit, elapsed: u64) -> AuditReport {
    AuditReport {
        interval_ms: elapsed / 1_000_000,
        ticks: audit.scheduler_ticks,
        skipped: audit.skipped_periods,
        wake_late_avg_us: average(audit.wake_late_total_nanos, audit.scheduler_ticks),
        wake_late_max_us: audit.wake_late_max_nanos / 1_000,
        callback_avg_us: average(audit.callback_total_nanos, audit.scheduler_ticks),
        callback_max_us: audit.callback_max_nanos / 1_000,
        presentations: audit.presentations,
        duplicate_presentations: audit.duplicate_presentations,
        present_interval_avg_us: average(
            audit.presentation_interval_total_nanos,
            audit.presentation_interval_count,
        ),
        present_interval_max_us: audit.presentation_interval_max_nanos / 1_000,
        delivery_late_avg_us: average(audit.delivery_late_total_nanos, audit.presentations),
        delivery_late_max_us: audit.delivery_late_max_nanos / 1_000,
        phase_observations: audit.phase_observations,
        phase_error_avg_us: average(audit.phase_error_total_nanos, audit.phase_observations),
        phase_error_max_us: audit.phase_error_max_nanos / 1_000,
    }
}

/// Saturating sum.
pub open spec fn sum64(first: u64, second: int) -> u64 {
    capped(first + second, u64::MAX as int) as u64
}

/// Saturating sum.
pub open spec fn sum128(first: u128, second: int) -> u128 {
    capped(first + second, u128::MAX as int) as u128
}

/// Elapsed time, zero where the clock went backwards.
pub open spec fn since(now: u64, earlier: u64) -> u64 {
    if now >= earlier {
        (now - earlier) as u64
    } else {
        0
    }
}

/// Totals over a number of clocks.
pub struct Totals {
    pub count: int,
    pub skipped: int,
    pub late: int,
    pub worst: u64,
}

/// Totals over the listed clocks that are due.
pub open spec fn due_totals(displays: Map<u64, ScheduledVsync>, keys: Seq<u64>, now: u64) -> Totals
    decreases keys.len(),
{
    if keys.len() == 0 {
        Totals { count: 0, skipped: 0, late: 0, worst: 0 }
    } else {
        let earlier = due_totals(displays, keys.drop_last(), now);
        let clock = displays[keys.last()];
        if clock.next_nanos <= now {
            let late = (now - clock.next_nanos) as u64;
            Totals {
                count: earlier.count + 1,
                skipped: earlier.skipped + late / clock.period_nanos,
                late: earlier.late + late,
                worst: larger(earlier.worst, late),
            }
        } else {
            earlier
        }
    }
}

/// Ticks of the listed clocks that are due.
pub open spec fn due_ticks(displays: Map<u64, ScheduledVsync>, keys: Seq<u64>, now: u64) -> Seq<
    DueVsync,
>
    decreases keys.len(),
{
    if keys.len() == 0 {
        Seq::empty()
    } else {
        let earlier = due_ticks(displays, keys.drop_last(), now);
        let clock = displays[keys.last()];
        if clock.next_nanos <= now {
            earlier.push(
                DueVsync {
                    display: DisplayId(keys.last()),
                    timestamp_nanos: clock.next_nanos,
                    period_nanos: clock.period_nanos,
                },
            )
        } else {
            earlier
        }
    }
}

/// Clock after its tick was taken, if it was due.
pub open spec fn advanced(clock: ScheduledVsync, now: u64) -> ScheduledVsync {
    if clock.next_nanos <= now {
        ScheduledVsync {
            next_nanos: tick_after(now, clock.next_nanos, clock.period_nanos),
            ..clock
        }
    } else {
        clock
    }
}

/// Totals of the distances of the listed clocks from a host phase.
pub open spec fn phase_totals(
    displays: Map<u64, ScheduledVsync>,
    keys: Seq<u64>,
    now: u64,
    timestamp: u64,
    period: u64,
) -> Totals
    decreases keys.len(),
{
    if keys.len() == 0 {
        Totals { count: 0, skipped: 0, late: 0, worst: 0 }
    } else {
        let earlier = phase_totals(displays, keys.drop_last(), now, timestamp, period);
        let clock = displays[keys.last()];
        if compatible(clock.period_nanos, period) {
            let gap = phase_gap(
                tick_after(now, timestamp, clock.period_nanos),
                clock.next_nanos,
                clock.period_nanos,
            );
            Totals {
                count: earlier.count + 1,
                late: earlier.late + gap,
                worst: larger(earlier.worst, gap),
                ..earlier
            }
        } else {
            earlier
        }
    }
}

/// Earliest next tick of the listed clocks.
pub open spec fn earliest(displays: Map<u64, ScheduledVsync>, keys: Seq<u64>) -> Option<u64>
    decreases keys.len(),
{
    if keys.len() == 0 {
        None
    } else {
        let next = displays[keys.last()].next_nanos;
        match earliest(displays, keys.drop_last()) {
            Some(other) => Some(
                if other <= next {
                    other
                } else {
                    next
                },
            ),
            None => Some(next),
        }
    }
}

/// What the service thread does next.
#[derive(Clone, Copy, Debug, PartialEq, Eq, Structural)]
pub enum VsyncWait {
    /// Wait until a display is enabled.
    Idle,
    /// Wait this many nanoseconds, or until the schedule changes.
    For(u64),
    /// Serve the ticks that are due.
    Due,
}

/// Clocks of the displays, the host phase and the audit.
#[derive(Debug)]
pub struct VsyncSchedule {
    displays: BTreeMap<u64, ScheduledVsync>,
    presentation_phase: Option<(u64, u64)>,
    audit: VsyncAudit,
}

/// Model of a [`VsyncSchedule`].
#[verifier::ext_equal]
pub struct ScheduleModel {
    /// Clocks by display.
    pub displays: Map<u64, ScheduledVsync>,
    /// Timestamp and period of the last presentation.
    pub presentation_phase: Option<(u64, u64)>,
    pub audit: VsyncAudit,
}

impl View for VsyncSchedule {
    type V = ScheduleModel;

    closed spec fn view(&self) -> ScheduleModel {
        ScheduleModel {
            displays: self.displays@,
            presentation_phase: self.presentation_phase,
            audit: self.audit,
        }
    }
}

impl ScheduleModel {
    /// The invariant of every reachable schedule: no clock has the period zero.
    pub open spec fn wf(self) -> bool {
        forall|display: u64| #[trigger]
            self.displays.contains_key(display) ==> self.displays[display].period_nanos > 0
    }

    /// Clock of a display that is enabled now: it takes the host phase where the
    /// host runs at its period, and starts anew otherwise.
    pub open spec fn started(self, period: u64, now: u64) -> ScheduledVsync {
        ScheduledVsync {
            period_nanos: period,
            next_nanos: match self.presentation_phase {
                Some((phase, phase_period)) => if compatible(period, phase_period) {
                    tick_after(now, phase, period)
                } else {
                    sum64(now, period as int)
                },
                None => sum64(now, period as int),
            },
        }
    }

    /// State with a display enabled or disabled.
    pub open spec fn enabled(self, display: DisplayId, enabled: bool, period: u64, now: u64) -> ScheduleModel {
        ScheduleModel {
            displays: if enabled {
                self.displays.insert(display.0, self.started(period, now))
            } else {
                self.displays.remove(display.0)
            },
            ..self
        }
    }

    /// Whether a period is news to the clock of a display.
    pub open spec fn changes_period(self, display: DisplayId, period: u64) -> bool {
        self.displays.contains_key(display.0) && self.displays[display.0].period_nanos != period
    }

    /// Audit with its window open.
    pub open spec fn opened(self, now: u64) -> VsyncAudit {
        VsyncAudit {
            window_started_nanos: if self.audit.window_started_nanos == 0 {
                now
            } else {
                self.audit.window_started_nanos
            },
            ..self.audit
        }
    }

    /// State after Denial reported a presentation. Running clocks go on: the
    /// report comes well after the tick, and to move a clock by it could delete
    /// its imminent tick.
    pub open spec fn observed(self, timestamp: u64, period: u64, now: u64) -> ScheduleModel {
        let audit = self.opened(now);
        let late = since(now, timestamp);
        let totals = phase_totals(
            self.displays,
            in_order(self.displays.dom()),
            now,
            timestamp,
            period,
        );
        let last = audit.last_presentation_nanos;
        let repeated = last == Some(timestamp);
        let forward = last is Some && timestamp > last->0;
        let interval = (timestamp - last->0) as u64;
        ScheduleModel {
            presentation_phase: Some((timestamp, period)),
            audit: VsyncAudit {
                presentations: sum64(audit.presentations, 1),
                delivery_late_total_nanos: sum128(audit.delivery_late_total_nanos, late as int),
                delivery_late_max_nanos: larger(audit.delivery_late_max_nanos, late),
                duplicate_presentations: if repeated {
                    sum64(audit.duplicate_presentations, 1)
                } else {
                    audit.duplicate_presentations
                },
                presentation_interval_count: if forward {
                    sum64(audit.presentation_interval_count, 1)
                } else {
                    audit.presentation_interval_count
                },
                presentation_interval_total_nanos: if forward {
                    sum128(audit.presentation_interval_total_nanos, interval as int)
                } else {
                    audit.presentation_interval_total_nanos
                },
                presentation_interval_max_nanos: if forward {
                    larger(audit.presentation_interval_max_nanos, interval)
                } else {
                    audit.presentation_interval_max_nanos
                },
                last_presentation_nanos: Some(timestamp),
                phase_observations: sum64(audit.phase_observations, totals.count),
                phase_error_total_nanos: sum128(audit.phase_error_total_nanos, totals.late),
                phase_error_max_nanos: larger(audit.phase_error_max_nanos, totals.worst),
                ..audit
            },
            ..self
        }
    }

    /// State after the ticks that are due were taken.
    pub open spec fn ticked(self, now: u64) -> ScheduleModel {
        let audit = self.opened(now);
        let totals = due_totals(self.displays, in_order(self.displays.dom()), now);
        ScheduleModel {
            displays: self.displays.map_values(|clock: ScheduledVsync| advanced(clock, now)),
            audit: VsyncAudit {
                scheduler_ticks: sum64(audit.scheduler_ticks, totals.count),
                skipped_periods: sum64(audit.skipped_periods, totals.skipped),
                wake_late_total_nanos: sum128(audit.wake_late_total_nanos, totals.late),
                wake_late_max_nanos: larger(audit.wake_late_max_nanos, totals.worst),
                ..audit
            },
            ..self
        }
    }

    /// What the service thread does at a moment.
    pub open spec fn wait(self, now: u64) -> VsyncWait {
        match earliest(self.displays, in_order(self.displays.dom())) {
            None => VsyncWait::Idle,
            Some(next) => if next > now {
                VsyncWait::For((next - now) as u64)
            } else {
                VsyncWait::Due
            },
        }
    }
}

/// The totals of delays are not negative.
proof fn lemma_due_totals(displays: Map<u64, ScheduledVsync>, keys: Seq<u64>, now: u64)
    requires
        forall|i: int| 0 <= i < keys.len() ==> displays[#[trigger] keys[i]].period_nanos > 0,
    ensures
        due_totals(displays, keys, now).count >= 0,
        due_totals(displays, keys, now).skipped >= 0,
        due_totals(displays, keys, now).late >= 0,
    decreases keys.len(),
{
    if keys.len() > 0 {
        assert(forall|i: int| 0 <= i < keys.len() - 1 ==> keys.drop_last()[i] == keys[i]);
        assert(keys[keys.len() - 1] == keys.last());
        lemma_due_totals(displays, keys.drop_last(), now);
        vstd::arithmetic::div_mod::lemma_div_pos_is_pos(
            since(now, displays[keys.last()].next_nanos) as int,
            displays[keys.last()].period_nanos as int,
        );
    }
}

/// The totals of distances are not negative.
proof fn lemma_phase_totals(
    displays: Map<u64, ScheduledVsync>,
    keys: Seq<u64>,
    now: u64,
    timestamp: u64,
    period: u64,
)
    ensures
        phase_totals(displays, keys, now, timestamp, period).count >= 0,
        phase_totals(displays, keys, now, timestamp, period).late >= 0,
    decreases keys.len(),
{
    if keys.len() > 0 {
        lemma_phase_totals(displays, keys.drop_last(), now, timestamp, period);
    }
}

impl VsyncSchedule {
    /// Schedule without displays.
    pub fn new() -> (schedule: VsyncSchedule)
        ensures
            schedule@.wf(),
            schedule@ == (ScheduleModel {
                displays: Map::empty(),
                presentation_phase: None,
                audit: fresh_audit(0, None),
            }),
    {
        let schedule = VsyncSchedule {
            displays: BTreeMap::new(),
            presentation_phase: None,
            audit: new_audit(0, None),
        };
        assert(schedule@.displays =~= Map::empty());
        schedule
    }

    /// Start or stop the clock of a display at a moment.
    pub fn set_enabled(&mut self, display: DisplayId, enabled: bool, period_nanos: u64, now: u64) -> (result:
        Result<(), ErrorCode>)
        requires
            old(self)@.wf(),
        ensures
            final(self)@.wf(),
            if period_nanos == 0 {
                &&& result == Err::<(), ErrorCode>(ErrorCode::BadConfig)
                &&& final(self)@ == old(self)@
            } else {
                &&& result == Ok::<(), ErrorCode>(())
                &&& final(self)@ == old(self)@.enabled(display, enabled, period_nanos, now)
            },
    {
        if period_nanos == 0 {
            return Err(ErrorCode::BadConfig);
        }
        if enabled {
            let next_nanos: u64 = match self.presentation_phase {
                Some((phase, phase_period)) => {
                    if periods_compatible(period_nanos, phase_period) {
                        next_vsync_after(now, phase, period_nanos)
                    } else {
                        now.saturating_add(period_nanos)
                    }
                },
                None => now.saturating_add(period_nanos),
            };
            self.displays.insert(display.0, ScheduledVsync { period_nanos, next_nanos });
        } else {
            self.displays.remove(&display.0);
        }
        assert(self@.displays =~= old(self)@.enabled(
            display,
            enabled,
            period_nanos,
            now,
        ).displays);
        Ok(())
    }

    /// Give the running clock of a display a new period: whether the service
    /// thread must look at the schedule again. A configure does not enable a
    /// clock that `SurfaceFlinger` disabled.
    pub fn update_period(&mut self, display: DisplayId, period_nanos: u64, now: u64) -> (result: Result<
        bool,
        ErrorCode,
    >)
        requires
            old(self)@.wf(),
        ensures
            final(self)@.wf(),
            if period_nanos == 0 {
                &&& result == Err::<bool, ErrorCode>(ErrorCode::BadConfig)
                &&& final(self)@ == old(self)@
            } else {
                &&& result == Ok::<bool, ErrorCode>(
                    !old(self)@.displays.contains_key(display.0) || old(self)@.changes_period(
                        display,
                        period_nanos,
                    ),
                )
                &&& final(self)@ == (if old(self)@.changes_period(display, period_nanos) {
                    ScheduleModel {
                        displays: old(self)@.displays.insert(
                            display.0,
                            ScheduledVsync {
                                period_nanos,
                                next_nanos: sum64(now, period_nanos as int),
                            },
                        ),
                        ..old(self)@
                    }
                } else {
                    old(self)@
                })
            },
    {
        if period_nanos == 0 {
            return Err(ErrorCode::BadConfig);
        }
        let ghost before = self@;
        let same: bool = match value_mut(&mut self.displays, display.0) {
            Some(active) => {
                if active.period_nanos == period_nanos {
                    true
                } else {
                    active.period_nanos = period_nanos;
                    active.next_nanos = now.saturating_add(period_nanos);
                    false
                }
            },
            None => false,
        };
        proof {
            if before.displays.contains_key(display.0) && !before.changes_period(
                display,
                period_nanos,
            ) {
                assert(self@.displays =~= before.displays);
            }
            assert forall|key: u64| #[trigger] self@.displays.contains_key(key) implies self@.displays[key].period_nanos
                > 0 by {
                assert(before.displays.contains_key(key));
            }
        }
        Ok(!same)
    }

    /// Stop the clock of a display.
    pub fn disable(&mut self, display: DisplayId)
        requires
            old(self)@.wf(),
        ensures
            final(self)@.wf(),
            final(self)@ == (ScheduleModel {
                displays: old(self)@.displays.remove(display.0),
                ..old(self)@
            }),
    {
        self.displays.remove(&display.0);
        assert(self@.displays =~= old(self)@.displays.remove(display.0));
    }

    /// Stop every clock.
    pub fn clear(&mut self)
        requires
            old(self)@.wf(),
        ensures
            final(self)@.wf(),
            final(self)@ == (ScheduleModel { displays: Map::empty(), ..old(self)@ }),
    {
        self.displays = BTreeMap::new();
        assert(self@.displays =~= Map::empty());
    }

    /// Take note of a presentation that Denial reported at a moment.
    pub fn observe_presentation(&mut self, timestamp_nanos: u64, period_nanos: u64, now: u64)
        requires
            old(self)@.wf(),
        ensures
            final(self)@.wf(),
            final(self)@ == (if period_nanos == 0 {
                old(self)@
            } else {
                old(self)@.observed(timestamp_nanos, period_nanos, now)
            }),
    {
        if period_nanos == 0 {
            return ;
        }
        let mut audit: VsyncAudit = self.audit;
        if audit.window_started_nanos == 0 {
            audit.window_started_nanos = now;
        }
        audit.presentations = audit.presentations.saturating_add(1);
        let delivery_late: u64 = now.saturating_sub(timestamp_nanos);
        audit.delivery_late_total_nanos = audit.delivery_late_total_nanos.saturating_add(
            delivery_late as u128,
        );
        audit.delivery_late_max_nanos = greater_of(audit.delivery_late_max_nanos, delivery_late);
        if let Some(previous) = audit.last_presentation_nanos {
            if timestamp_nanos == previous {
                audit.duplicate_presentations = audit.duplicate_presentations.saturating_add(1);
            } else if timestamp_nanos > previous {
                let interval: u64 = timestamp_nanos - previous;
                audit.presentation_interval_count = audit.presentation_interval_count.saturating_add(
                    1,
                );
                audit.presentation_interval_total_nanos =
                audit.presentation_interval_total_nanos.saturating_add(interval as u128);
                audit.presentation_interval_max_nanos = greater_of(
                    audit.presentation_interval_max_nanos,
                    interval,
                );
            }
        }
        audit.last_presentation_nanos = Some(timestamp_nanos);
        self.presentation_phase = Some((timestamp_nanos, period_nanos));
        let (observations, total, worst): (u64, u128, u64) = self.phase_errors(
            timestamp_nanos,
            period_nanos,
            now,
        );
        proof {
            lemma_phase_totals(
                self@.displays,
                in_order(self@.displays.dom()),
                now,
                timestamp_nanos,
                period_nanos,
            );
        }
        audit.phase_observations = audit.phase_observations.saturating_add(observations);
        audit.phase_error_total_nanos = audit.phase_error_total_nanos.saturating_add(total);
        audit.phase_error_max_nanos = greater_of(audit.phase_error_max_nanos, worst);
        self.audit = audit;
    }

    fn phase_errors(&self, timestamp_nanos: u64, period_nanos: u64, now: u64) -> (totals: (
        u64,
        u128,
        u64,
    ))
        requires
            self@.wf(),
        ensures
            ({
                let expected = phase_totals(
                    self@.displays,
                    in_order(self@.displays.dom()),
                    now,
                    timestamp_nanos,
                    period_nanos,
                );
                &&& totals.0 == capped(expected.count, u64::MAX as int)
                &&& totals.1 == capped(expected.late, u128::MAX as int)
                &&& totals.2 == expected.worst
            }),
    {
        let keys = ordered_keys(&self.displays);
        let mut observations: u64 = 0;
        let mut total: u128 = 0;
        let mut worst: u64 = 0;
        let mut index: usize = 0;
        assert(keys@.take(0) =~= Seq::empty());
        while index < keys.len()
            invariant
                index <= keys@.len(),
                self@.wf(),
                lists(keys@, self@.displays.dom()),
                ({
                    let expected = phase_totals(
                        self@.displays,
                        keys@.take(index as int),
                        now,
                        timestamp_nanos,
                        period_nanos,
                    );
                    &&& observations == capped(expected.count, u64::MAX as int)
                    &&& total == capped(expected.late, u128::MAX as int)
                    &&& worst == expected.worst
                }),
            decreases keys@.len() - index,
        {
            let key: u64 = keys[index];
            proof {
                assert(keys@.contains(key));
                assert(self@.displays.dom().contains(key));
                assert(self@.displays.contains_key(key));
                assert(keys@.take(index + 1).drop_last() =~= keys@.take(index as int));
                assert(keys@.take(index + 1).last() == key);
                lemma_phase_totals(
                    self@.displays,
                    keys@.take(index as int),
                    now,
                    timestamp_nanos,
                    period_nanos,
                );
            }
            if let Some(scheduled) = self.displays.get(&key) {
                if periods_compatible(scheduled.period_nanos, period_nanos) {
                    let host_next: u64 = next_vsync_after(
                        now,
                        timestamp_nanos,
                        scheduled.period_nanos,
                    );
                    let gap: u64 = phase_distance(
                        host_next,
                        scheduled.next_nanos,
                        scheduled.period_nanos,
                    );
                    observations = observations.saturating_add(1);
                    total = total.saturating_add(gap as u128);
                    worst = greater_of(worst, gap);
                }
            }
            index = index + 1;
        }
        assert(keys@.take(index as int) =~= keys@);
        (observations, total, worst)
    }

    /// What the service thread does at a moment.
    pub fn wait(&self, now: u64) -> (wait: VsyncWait)
        ensures
            wait == self@.wait(now),
    {
        let keys = ordered_keys(&self.displays);
        let mut next: Option<u64> = None;
        let mut index: usize = 0;
        assert(keys@.take(0) =~= Seq::empty());
        while index < keys.len()
            invariant
                index <= keys@.len(),
                lists(keys@, self@.displays.dom()),
                next == earliest(self@.displays, keys@.take(index as int)),
            decreases keys@.len() - index,
        {
            let key: u64 = keys[index];
            proof {
                assert(keys@.contains(key));
                assert(self@.displays.dom().contains(key));
                assert(keys@.take(index + 1).drop_last() =~= keys@.take(index as int));
                assert(keys@.take(index + 1).last() == key);
            }
            if let Some(scheduled) = self.displays.get(&key) {
                let candidate: u64 = scheduled.next_nanos;
                next = match next {
                    Some(other) => if other <= candidate {
                        Some(other)
                    } else {
                        Some(candidate)
                    },
                    None => Some(candidate),
                };
            }
            index = index + 1;
        }
        assert(keys@.take(index as int) =~= keys@);
        match next {
            None => VsyncWait::Idle,
            Some(next) => if next > now {
                VsyncWait::For(next - now)
            } else {
                VsyncWait::Due
            },
        }
    }

    /// Take the ticks that are due at a moment.
    pub fn tick(&mut self, now: u64) -> (due: Vec<DueVsync>)
        requires
            old(self)@.wf(),
        ensures
            final(self)@.wf(),
            final(self)@ == old(self)@.ticked(now),
            due@ == due_ticks(old(self)@.displays, in_order(old(self)@.displays.dom()), now),
    {
        let ghost before = self@;
        let keys = ordered_keys(&self.displays);
        let mut due: Vec<DueVsync> = Vec::new();
        let mut ticks: u64 = 0;
        let mut skipped: u64 = 0;
        let mut late_total: u128 = 0;
        let mut late_max: u64 = 0;
        let mut index: usize = 0;
        proof {
            assert(keys@.take(0) =~= Seq::empty());
            assert forall|i: int| 0 <= i < keys@.len() implies before.displays[#[trigger] keys@[i]].period_nanos
                > 0 by {
                assert(keys@.contains(keys@[i]));
                assert(before.displays.dom().contains(keys@[i]));
                assert(before.displays.contains_key(keys@[i]));
            }
        }
        while index < keys.len()
            invariant
                index <= keys@.len(),
                forall|i: int|
                    0 <= i < keys@.len() ==> before.displays[#[trigger] keys@[i]].period_nanos > 0,
                before == old(self)@,
                before.wf(),
                lists(keys@, before.displays.dom()),
                self@.presentation_phase == before.presentation_phase,
                self@.audit == before.audit,
                self@.displays.dom() == before.displays.dom(),
                forall|i: int|
                    0 <= i < index ==> self@.displays[#[trigger] keys@[i]] == advanced(
                        before.displays[keys@[i]],
                        now,
                    ),
                forall|i: int|
                    index <= i < keys@.len() ==> self@.displays[#[trigger] keys@[i]]
                        == before.displays[keys@[i]],
                due@ == due_ticks(before.displays, keys@.take(index as int), now),
                ({
                    let totals = due_totals(before.displays, keys@.take(index as int), now);
                    &&& ticks == capped(totals.count, u64::MAX as int)
                    &&& skipped == capped(totals.skipped, u64::MAX as int)
                    &&& late_total == capped(totals.late, u128::MAX as int)
                    &&& late_max == totals.worst
                }),
            decreases keys@.len() - index,
        {
            let key: u64 = keys[index];
            let ghost current = self@;
            proof {
                assert(keys@.contains(key));
                assert(before.displays.dom().contains(key));
                assert(before.displays.contains_key(key));
                assert(current.displays.dom().contains(key));
                assert(keys@.take(index + 1).drop_last() =~= keys@.take(index as int));
                assert(keys@.take(index + 1).last() == key);
                lemma_due_totals(before.displays, keys@.take(index as int), now);
            }
            if let Some(scheduled) = value_mut(&mut self.displays, key) {
                let timestamp_nanos: u64 = scheduled.next_nanos;
                let period_nanos: u64 = scheduled.period_nanos;
                if timestamp_nanos <= now {
                    let late: u64 = now - timestamp_nanos;
                    scheduled.next_nanos = next_vsync_after(now, timestamp_nanos, period_nanos);
                    due.push(DueVsync { display: DisplayId(key), timestamp_nanos, period_nanos });
                    ticks = ticks.saturating_add(1);
                    skipped = skipped.saturating_add(late / period_nanos);
                    late_total = late_total.saturating_add(late as u128);
                    late_max = greater_of(late_max, late);
                }
            }
            proof {
                assert(self@.displays =~= current.displays.insert(
                    key,
                    advanced(before.displays[key], now),
                ));
                assert(self@.displays.dom() =~= before.displays.dom());
                assert forall|i: int|
                    index + 1 <= i < keys@.len() implies self@.displays[#[trigger] keys@[i]]
                    == before.displays[keys@[i]] by {
                    assert(keys@[i] != keys@[index as int]);
                }
                assert forall|i: int| 0 <= i < index + 1 implies self@.displays[#[trigger] keys@[i]]
                    == advanced(before.displays[keys@[i]], now) by {
                    if i < index {
                        assert(keys@[i] != keys@[index as int]);
                    }
                }
            }
            index = index + 1;
        }
        assert(keys@.take(index as int) =~= keys@);
        let mut audit: VsyncAudit = self.audit;
        if audit.window_started_nanos == 0 {
            audit.window_started_nanos = now;
        }
        proof {
            lemma_due_totals(before.displays, keys@, now);
        }
        audit.scheduler_ticks = audit.scheduler_ticks.saturating_add(ticks);
        audit.skipped_periods = audit.skipped_periods.saturating_add(skipped);
        audit.wake_late_total_nanos = audit.wake_late_total_nanos.saturating_add(late_total);
        audit.wake_late_max_nanos = greater_of(audit.wake_late_max_nanos, late_max);
        self.audit = audit;
        proof {
            let after = before.ticked(now);
            assert forall|key: u64| #[trigger] after.displays.contains_key(key) implies self@.displays[key]
                == after.displays[key] by {
                assert(before.displays.dom().contains(key));
                let i = choose|i: int| 0 <= i < keys@.len() && keys@[i] == key;
                assert(keys@[i] == key);
            }
            assert(self@.displays =~= after.displays);
            assert forall|key: u64| #[trigger] after.displays.contains_key(key) implies after.displays[key].period_nanos
                > 0 by {
                assert(before.displays.contains_key(key));
            }
        }
        due
    }

    /// Take note of the callbacks: how long they took, and which displays could
    /// not be called.
    pub fn callbacks_done(&mut self, total_nanos: u128, max_nanos: u64, failed: &Vec<DisplayId>)
        requires
            old(self)@.wf(),
        ensures
            final(self)@.wf(),
            final(self)@ == (ScheduleModel {
                displays: without(old(self)@.displays, failed@),
                audit: VsyncAudit {
                    callback_total_nanos: sum128(
                        old(self)@.audit.callback_total_nanos,
                        total_nanos as int,
                    ),
                    callback_max_nanos: larger(old(self)@.audit.callback_max_nanos, max_nanos),
                    ..old(self)@.audit
                },
                ..old(self)@
            }),
    {
        self.audit.callback_total_nanos = self.audit.callback_total_nanos.saturating_add(
            total_nanos,
        );
        self.audit.callback_max_nanos = greater_of(self.audit.callback_max_nanos, max_nanos);
        let mut index: usize = 0;
        assert(failed@.take(0) =~= Seq::empty());
        let ghost audit = self.audit;
        while index < failed.len()
            invariant
                index <= failed@.len(),
                self@.wf(),
                self@.audit == audit,
                self@.presentation_phase == old(self)@.presentation_phase,
                self@.displays == without(old(self)@.displays, failed@.take(index as int)),
            decreases failed@.len() - index,
        {
            proof {
                assert(failed@.take(index + 1).drop_last() =~= failed@.take(index as int));
                assert(failed@.take(index + 1).last() == failed@[index as int]);
            }
            let display = failed[index];
            let ghost current = self@;
            self.displays.remove(&display.0);
            assert(self@.displays =~= current.displays.remove(display.0));
            index = index + 1;
        }
        assert(failed@.take(index as int) =~= failed@);
    }

    /// Numbers of the audit window, once it has lasted long enough; the next
    /// window starts then.
    pub fn report(&mut self, now: u64) -> (report: Option<AuditReport>)
        requires
            old(self)@.wf(),
        ensures
            final(self)@.wf(),
            ({
                let audit = old(self)@.audit;
                let elapsed = since(now, audit.window_started_nanos);
                if audit.window_started_nanos == 0 {
                    &&& report is None
                    &&& final(self)@ == (ScheduleModel {
                        audit: VsyncAudit { window_started_nanos: now, ..audit },
                        ..old(self)@
                    })
                } else if elapsed < AUDIT_WINDOW_NANOS {
                    &&& report is None
                    &&& final(self)@ == old(self)@
                } else {
                    &&& report == Some(report_of(audit, elapsed))
                    &&& final(self)@ == (ScheduleModel {
                        audit: fresh_audit(now, audit.last_presentation_nanos),
                        ..old(self)@
                    })
                }
            }),
    {
        let audit: VsyncAudit = self.audit;
        if audit.window_started_nanos == 0 {
            self.audit.window_started_nanos = now;
            return None;
        }
        let elapsed: u64 = now.saturating_sub(audit.window_started_nanos);
        if elapsed < AUDIT_WINDOW_NANOS {
            return None;
        }
        let report = AuditReport {
            interval_ms: elapsed / 1_000_000,
            ticks: audit.scheduler_ticks,
            skipped: audit.skipped_periods,
            wake_late_avg_us: average_micros(audit.wake_late_total_nanos, audit.scheduler_ticks),
            wake_late_max_us: audit.wake_late_max_nanos / 1_000,
            callback_avg_us: average_micros(audit.callback_total_nanos, audit.scheduler_ticks),
            callback_max_us: audit.callback_max_nanos / 1_000,
            presentations: audit.presentations,
            duplicate_presentations: audit.duplicate_presentations,
            present_interval_avg_us: average_micros(
                audit.presentation_interval_total_nanos,
                audit.presentation_interval_count,
            ),
            present_interval_max_us: audit.presentation_interval_max_nanos / 1_000,
            delivery_late_avg_us: average_micros(
                audit.delivery_late_total_nanos,
                audit.presentations,
            ),
            delivery_late_max_us: audit.delivery_late_max_nanos / 1_000,
            phase_observations: audit.phase_observations,
            phase_error_avg_us: average_micros(
                audit.phase_error_total_nanos,
                audit.phase_observations,
            ),
            phase_error_max_us: audit.phase_error_max_nanos / 1_000,
        };
        self.audit = new_audit(now, audit.last_presentation_nanos);
        Some(report)
    }
}

/// Clocks without those of some displays.
pub open spec fn without(displays: Map<u64, ScheduledVsync>, failed: Seq<DisplayId>) -> Map<
    u64,
    ScheduledVsync,
>
    decreases failed.len(),
{
    if failed.len() == 0 {
        displays
    } else {
        without(displays, failed.drop_last()).remove(failed.last().0)
    }
}

/// Arguments of the callback for a tick, unless one does not fit: display,
/// timestamp and period.
pub fn callback_arguments(due: &DueVsync) -> (arguments: Option<(i64, i64, i32)>)
    ensures
        arguments == (if due.display.0 <= i64::MAX && due.timestamp_nanos <= i64::MAX
            && due.period_nanos <= i32::MAX {
            Some((due.display.0 as i64, due.timestamp_nanos as i64, due.period_nanos as i32))
        } else {
            None
        }),
{
    if due.display.0 > i64::MAX as u64 || due.timestamp_nanos > i64::MAX as u64 || due.period_nanos
        > i32::MAX as u64 {
        return None;
    }
    Some((due.display.0 as i64, due.timestamp_nanos as i64, due.period_nanos as i32))
}

/// Durations of the callbacks of one round.
#[derive(Clone, Copy, Debug, PartialEq, Eq, Structural)]
pub struct CallbackTally {
    /// Sum of the durations.
    pub total_nanos: u128,
    /// Longest callback.
    pub max_nanos: u64,
}

impl CallbackTally {
    /// Nothing called yet.
    pub fn new() -> (tally: CallbackTally)
        ensures
            tally == (CallbackTally { total_nanos: 0, max_nanos: 0 }),
    {
        CallbackTally { total_nanos: 0, max_nanos: 0 }
    }

    /// Count one callback from its start to its end.
    pub fn count(&mut self, started: u64, finished: u64)
        ensures
            *final(self) == (CallbackTally {
                total_nanos: sum128(old(self).total_nanos, since(finished, started) as int),
                max_nanos: larger(old(self).max_nanos, since(finished, started)),
            }),
    {
        let elapsed: u64 = finished.saturating_sub(started);
        self.total_nanos = self.total_nanos.saturating_add(elapsed as u128);
        self.max_nanos = greater_of(self.max_nanos, elapsed);
    }
}

/// The earliest tick of some clocks is that of one of them, and no clock has an
/// earlier one.
proof fn lemma_earliest(displays: Map<u64, ScheduledVsync>, keys: Seq<u64>)
    ensures
        match earliest(displays, keys) {
            Some(next) => {
                &&& forall|i: int|
                    0 <= i < keys.len() ==> displays[#[trigger] keys[i]].next_nanos >= next
                &&& exists|i: int|
                    0 <= i < keys.len() && displays[#[trigger] keys[i]].next_nanos == next
            },
            None => keys.len() == 0,
        },
    decreases keys.len(),
{
    if keys.len() > 0 {
        let rest = keys.drop_last();
        lemma_earliest(displays, rest);
        assert(keys[keys.len() - 1] == keys.last());
        let next = earliest(displays, keys)->0;
        assert forall|i: int| 0 <= i < keys.len() implies displays[#[trigger] keys[i]].next_nanos
            >= next by {
            if i < rest.len() {
                assert(rest[i] == keys[i]);
            }
        }
        if let Some(other) = earliest(displays, rest) {
            let i = choose|i: int|
                0 <= i < rest.len() && displays[#[trigger] rest[i]].next_nanos == other;
            assert(keys[i] == rest[i]);
        }
    }
}

/// The service thread waits only while no tick is due, and no longer than until
/// the next one.
pub proof fn law_no_tick_is_waited_over(schedule: ScheduleModel, now: u64, display: u64)
    requires
        schedule.displays.dom().finite(),
        schedule.displays.contains_key(display),
    ensures
        match schedule.wait(now) {
            VsyncWait::Idle => false,
            VsyncWait::For(nanos) => now + nanos <= schedule.displays[display].next_nanos,
            VsyncWait::Due => true,
        },
{
    let keys = in_order(schedule.displays.dom());
    crate::ordered::lemma_in_order_lists(schedule.displays.dom());
    lemma_earliest(schedule.displays, keys);
    assert(schedule.displays.dom().contains(display));
    let i = choose|i: int| 0 <= i < keys.len() && keys[i] == display;
    assert(keys[i] == display);
}

/// After the due ticks were taken, no clock is due at the same moment, unless
/// its time ran out.
pub proof fn law_taken_ticks_are_over(schedule: ScheduleModel, now: u64, display: u64)
    requires
        schedule.wf(),
        schedule.displays.contains_key(display),
        now + schedule.displays[display].period_nanos <= u64::MAX,
    ensures
        schedule.ticked(now).displays.contains_key(display),
        schedule.ticked(now).displays[display].next_nanos > now,
{
    let clock = schedule.displays[display];
    if clock.next_nanos <= now {
        law_ticks_keep_their_phase(now, clock.next_nanos, clock.period_nanos);
    }
}

/// A presentation report moves no running clock.
pub proof fn law_reports_move_no_clock(
    schedule: ScheduleModel,
    timestamp: u64,
    period: u64,
    now: u64,
)
    ensures
        schedule.observed(timestamp, period, now).displays == schedule.displays,
{
}

/// A display that is enabled while the host runs at its refresh period, to a
/// hundredth or a nanosecond, ticks in the host's phase: its next tick lies a
/// whole number of periods after the reported presentation, after now and at
/// most one period later. A presentation that is reported ahead of time is
/// itself the next tick.
pub proof fn law_enabled_clocks_take_the_host_phase(
    schedule: ScheduleModel,
    display: DisplayId,
    period: u64,
    now: u64,
    phase: u64,
    host_period: u64,
)
    requires
        period > 0,
        schedule.presentation_phase == Some((phase, host_period)),
        -period <= 100 * (period - host_period) <= period || -1 <= period - host_period <= 1,
        now + period <= u64::MAX,
    ensures
        ({
            let after = schedule.enabled(display, true, period, now);
            let next = after.displays[display.0].next_nanos;
            &&& after.displays.contains_key(display.0)
            &&& after.displays[display.0].period_nanos == period
            &&& phase <= now ==> now < next <= now + period && (next - phase) % period as int == 0
            &&& phase > now ==> next == phase
        }),
{
    if phase <= now {
        law_ticks_keep_their_phase(now, phase, period);
    }
}

/// A display that is enabled after a presentation was reported ticks in the
/// phase of that presentation, whatever was reported before and whichever
/// displays run.
pub proof fn law_reports_seed_the_next_clock(
    schedule: ScheduleModel,
    timestamp: u64,
    period: u64,
    reported: u64,
    display: DisplayId,
    now: u64,
)
    requires
        period > 0,
        timestamp <= now,
        now + period <= u64::MAX,
    ensures
        ({
            let after = schedule.observed(timestamp, period, reported).enabled(
                display,
                true,
                period,
                now,
            );
            let next = after.displays[display.0].next_nanos;
            now < next <= now + period && (next - timestamp) % period as int == 0
        }),
{
    law_enabled_clocks_take_the_host_phase(
        schedule.observed(timestamp, period, reported),
        display,
        period,
        now,
        timestamp,
        period,
    );
}

/// A display that is enabled before any presentation was reported, or while the
/// host runs at another period, ticks one period from now.
pub proof fn law_other_clocks_start_now(
    schedule: ScheduleModel,
    display: DisplayId,
    period: u64,
    now: u64,
)
    requires
        now + period <= u64::MAX,
        schedule.presentation_phase matches Some((_, host)) ==> {
            &&& 100 * (period - host) > period || 100 * (host - period) > period
            &&& period - host > 1 || host - period > 1
        },
    ensures
        ({
            let after = schedule.enabled(display, true, period, now);
            after.displays.contains_key(display.0) && after.displays[display.0] == (
            ScheduledVsync { period_nanos: period, next_nanos: (now + period) as u64 })
        }),
{
}

/// To enable or disable a display touches no other display, nor what the host
/// reported; a disabled display has no clock.
pub proof fn law_displays_are_switched_alone(
    schedule: ScheduleModel,
    display: DisplayId,
    enabled: bool,
    period: u64,
    now: u64,
    other: u64,
)
    ensures
        ({
            let after = schedule.enabled(display, enabled, period, now);
            &&& after.displays.contains_key(display.0) == enabled
            &&& after.presentation_phase == schedule.presentation_phase
            &&& after.audit == schedule.audit
            &&& other != display.0 ==> after.displays.contains_key(other)
                == schedule.displays.contains_key(other)
            &&& other != display.0 && schedule.displays.contains_key(other)
                ==> after.displays[other] == schedule.displays[other]
        }),
{
}

/// A report keeps the moment and the period of its presentation for clocks that
/// are enabled later.
pub proof fn law_reports_are_remembered(
    schedule: ScheduleModel,
    timestamp: u64,
    period: u64,
    now: u64,
)
    ensures
        schedule.observed(timestamp, period, now).presentation_phase == Some((timestamp, period)),
        schedule.observed(timestamp, period, now).audit.last_presentation_nanos == Some(timestamp),
        schedule.audit.presentations < u64::MAX ==> schedule.observed(
            timestamp,
            period,
            now,
        ).audit.presentations == schedule.audit.presentations + 1,
        timestamp <= now ==> schedule.observed(
            timestamp,
            period,
            now,
        ).audit.delivery_late_max_nanos >= now - timestamp,
        schedule.audit.last_presentation_nanos == Some(timestamp)
            && schedule.audit.duplicate_presentations < u64::MAX ==> schedule.observed(
            timestamp,
            period,
            now,
        ).audit.duplicate_presentations == schedule.audit.duplicate_presentations + 1,
        schedule.audit.last_presentation_nanos matches Some(last) && timestamp > last
            ==> schedule.observed(
            timestamp,
            period,
            now,
        ).audit.presentation_interval_max_nanos >= timestamp - schedule.audit.last_presentation_nanos->0,
{
}

/// The ticks that are due are those of the clocks whose time has come, each with
/// the moment that its clock announced and with the period of that clock; a
/// clock whose time has not come gives none.
pub proof fn law_due_ticks_are_those_of_due_clocks(
    displays: Map<u64, ScheduledVsync>,
    keys: Seq<u64>,
    now: u64,
    at: int,
)
    requires
        keys.no_duplicates(),
        0 <= at < keys.len(),
    ensures
        ({
            let due = due_ticks(displays, keys, now);
            let clock = displays[keys[at]];
            if clock.next_nanos <= now {
                exists|i: int|
                    0 <= i < due.len() && (#[trigger] due[i]).display.0 == keys[at]
                        && due[i].timestamp_nanos == clock.next_nanos && due[i].period_nanos
                        == clock.period_nanos
            } else {
                forall|i: int| 0 <= i < due.len() ==> (#[trigger] due[i]).display.0 != keys[at]
            }
        }),
    decreases keys.len(),
{
    let rest = keys.drop_last();
    let before = due_ticks(displays, rest, now);
    let due = due_ticks(displays, keys, now);
    let clock = displays[keys[at]];
    lemma_due_are_listed(displays, rest, now);
    if at < rest.len() {
        assert(rest[at] == keys[at]);
        law_due_ticks_are_those_of_due_clocks(displays, rest, now, at);
        if clock.next_nanos <= now {
            let i = choose|i: int|
                0 <= i < before.len() && (#[trigger] before[i]).display.0 == keys[at]
                    && before[i].timestamp_nanos == clock.next_nanos && before[i].period_nanos
                    == clock.period_nanos;
            assert(due[i] == before[i]);
        } else {
            assert forall|i: int| 0 <= i < due.len() implies (#[trigger] due[i]).display.0
                != keys[at] by {
                if i < before.len() {
                    assert(due[i] == before[i]);
                } else {
                    assert(due[i].display.0 == keys[keys.len() - 1]);
                }
            }
        }
    } else {
        assert(keys.last() == keys[at]);
        if clock.next_nanos <= now {
            assert(due[before.len() as int].display.0 == keys[at]);
        } else {
            assert forall|i: int| 0 <= i < due.len() implies (#[trigger] due[i]).display.0
                != keys[at] by {
                let k = choose|k: int| 0 <= k < rest.len() && rest[k] == before[i].display.0;
                assert(rest.contains(before[i].display.0));
                assert(keys[k] == rest[k]);
            }
        }
    }
}

proof fn lemma_due_are_listed(displays: Map<u64, ScheduledVsync>, keys: Seq<u64>, now: u64)
    ensures
        forall|i: int|
            0 <= i < due_ticks(displays, keys, now).len() ==> keys.contains(
                (#[trigger] due_ticks(displays, keys, now)[i]).display.0,
            ),
    decreases keys.len(),
{
    if keys.len() > 0 {
        let rest = keys.drop_last();
        lemma_due_are_listed(displays, rest, now);
        let before = due_ticks(displays, rest, now);
        let due = due_ticks(displays, keys, now);
        assert forall|i: int| 0 <= i < due.len() implies keys.contains(
            (#[trigger] due[i]).display.0,
        ) by {
            if i < before.len() {
                assert(due[i] == before[i]);
                assert(rest.contains(before[i].display.0));
                let k = choose|k: int| 0 <= k < rest.len() && rest[k] == before[i].display.0;
                assert(keys[k] == before[i].display.0);
            } else {
                assert(keys[keys.len() - 1] == due[i].display.0);
            }
        }
    }
}

/// A tick that is taken moves its clock by whole periods to the first tick
/// after now. A clock that is not due stays as it is, and no clock changes its
/// period.
pub proof fn law_ticks_move_clocks_by_whole_periods(schedule: ScheduleModel, now: u64, display: u64)
    requires
        schedule.wf(),
        schedule.displays.contains_key(display),
        now + schedule.displays[display].period_nanos <= u64::MAX,
    ensures
        ({
            let before = schedule.displays[display];
            let after = schedule.ticked(now).displays[display];
            &&& after.period_nanos == before.period_nanos
            &&& before.next_nanos > now ==> after.next_nanos == before.next_nanos
            &&& before.next_nanos <= now ==> {
                &&& now < after.next_nanos <= now + before.period_nanos
                &&& (after.next_nanos - before.next_nanos) % before.period_nanos as int == 0
            }
        }),
        schedule.ticked(now).displays.dom() == schedule.displays.dom(),
        schedule.ticked(now).presentation_phase == schedule.presentation_phase,
{
    let clock = schedule.displays[display];
    if clock.next_nanos <= now {
        law_ticks_keep_their_phase(now, clock.next_nanos, clock.period_nanos);
    }
    assert(schedule.ticked(now).displays.dom() =~= schedule.displays.dom());
}

/// The service thread is idle exactly without clocks, serves exactly where a
/// clock is due, and else waits exactly until the earliest tick.
pub proof fn law_waits_end_with_the_earliest_tick(schedule: ScheduleModel, now: u64)
    requires
        schedule.displays.dom().finite(),
    ensures
        schedule.wait(now) is Idle <==> forall|display: u64|
            !(#[trigger] schedule.displays.contains_key(display)),
        schedule.wait(now) is Due <==> exists|display: u64| #[trigger]
            schedule.displays.contains_key(display) && schedule.displays[display].next_nanos <= now,
        schedule.wait(now) matches VsyncWait::For(nanos) ==> nanos > 0 && exists|display: u64| #[trigger]
            schedule.displays.contains_key(display) && schedule.displays[display].next_nanos == now
                + nanos,
{
    let keys = in_order(schedule.displays.dom());
    crate::ordered::lemma_in_order_lists(schedule.displays.dom());
    lemma_earliest(schedule.displays, keys);
    if let Some(next) = earliest(schedule.displays, keys) {
        let i = choose|i: int|
            0 <= i < keys.len() && schedule.displays[#[trigger] keys[i]].next_nanos == next;
        assert(keys.contains(keys[i]));
        assert(schedule.displays.dom().contains(keys[i]));
        assert(schedule.displays.contains_key(keys[i]));
        assert forall|display: u64| #[trigger]
            schedule.displays.contains_key(display) implies schedule.displays[display].next_nanos
            >= next by {
            assert(schedule.displays.dom().contains(display));
            assert(keys.contains(display));
            let k = choose|k: int| 0 <= k < keys.len() && keys[k] == display;
            assert(schedule.displays[keys[k]].next_nanos >= next);
        }
    } else {
        assert forall|display: u64| !(#[trigger] schedule.displays.contains_key(display)) by {
            if schedule.displays.contains_key(display) {
                assert(schedule.displays.dom().contains(display));
                assert(keys.contains(display));
            }
        }
    }
}

/// Two refresh periods are those of one clock where they differ by a hundredth
/// of the first at most, or by a nanosecond.
pub proof fn law_compatible_periods_differ_by_a_hundredth(first: u64, second: u64)
    ensures
        compatible(first, second) <==> (-first <= 100 * (first - second) <= first || -1 <= first
            - second <= 1),
{
}

/// The distance in phase leads from one moment to the phase of the other,
/// forwards or backwards; it is zero exactly where the moments lie whole periods
/// apart.
pub proof fn law_phase_distance_leads_to_the_phase(first: u64, second: u64, period: u64)
    requires
        period > 0,
    ensures
        ({
            let gap = phase_gap(first, second, period);
            &&& (first - second - gap) % period as int == 0 || (first - second + gap) % period as int
                == 0
            &&& gap == 0 <==> (first - second) % period as int == 0
        }),
{
    let p = period as int;
    let d = first - second;
    let r = d % p;
    lemma_gap_of_difference(first, second, period);
    lemma_fundamental_div_mod(d, p);
    lemma_mod_multiples_basic(d / p, p);
    assert(d - r == (d / p) * p) by (nonlinear_arith)
        requires
            d == p * (d / p) + r,
    ;
    lemma_mod_multiples_basic(d / p + 1, p);
    assert(d + (p - r) == (d / p + 1) * p) by (nonlinear_arith)
        requires
            d == p * (d / p) + r,
    ;
}

/// An average in microseconds is the total in nanoseconds over the count,
/// rounded down, and zero where nothing was counted.
pub proof fn law_averages_are_rounded_down(total: u128, count: u64)
    ensures
        count == 0 ==> average(total, count) == 0,
        count > 0 ==> average(total, count) * 1000 * count <= total < (average(total, count) + 1)
            * 1000 * count,
{
    if count > 0 {
        let (t, c) = (total as int, count as int);
        let each = t / c;
        let average = each / 1000;
        lemma_fundamental_div_mod(t, c);
        lemma_fundamental_div_mod(each, 1000);
        assert(average * 1000 * c <= t < (average + 1) * 1000 * c) by (nonlinear_arith)
            requires
                c > 0,
                t == c * each + t % c,
                0 <= t % c < c,
                average * 1000 <= each < (average + 1) * 1000,
        ;
    }
}

/// Clocks of displays that could not be called are removed, and no others.
pub proof fn law_only_failed_displays_are_stopped(
    displays: Map<u64, ScheduledVsync>,
    failed: Seq<DisplayId>,
    display: u64,
)
    ensures
        without(displays, failed).contains_key(display) <==> displays.contains_key(display)
            && !failed.contains(DisplayId(display)),
        without(displays, failed).contains_key(display) ==> without(displays, failed)[display]
            == displays[display],
    decreases failed.len(),
{
    if failed.len() > 0 {
        let rest = failed.drop_last();
        law_only_failed_displays_are_stopped(displays, rest, display);
        assert(failed[failed.len() - 1] == failed.last());
        if rest.contains(DisplayId(display)) {
            let i = choose|i: int| 0 <= i < rest.len() && rest[i] == DisplayId(display);
            assert(failed[i] == DisplayId(display));
        }
        if failed.contains(DisplayId(display)) && failed.last().0 != display {
            let i = choose|i: int| 0 <= i < failed.len() && failed[i] == DisplayId(display);
            assert(rest[i] == failed[i]);
        }
    }
}

/// The audit counts each tick that was due, the periods that it came too late,
/// and how late it was.
pub proof fn law_audits_count_what_was_due(
    displays: Map<u64, ScheduledVsync>,
    keys: Seq<u64>,
    now: u64,
    at: int,
)
    requires
        0 <= at < keys.len(),
        forall|i: int| 0 <= i < keys.len() ==> displays[#[trigger] keys[i]].period_nanos > 0,
    ensures
        ({
            let totals = due_totals(displays, keys, now);
            let clock = displays[keys[at]];
            &&& totals.count == due_ticks(displays, keys, now).len()
            &&& clock.next_nanos <= now ==> {
                &&& totals.worst >= now - clock.next_nanos
                &&& totals.late >= now - clock.next_nanos
                &&& totals.skipped * clock.period_nanos + clock.period_nanos > now
                    - clock.next_nanos
            }
        }),
    decreases keys.len(),
{
    let rest = keys.drop_last();
    assert(forall|i: int| 0 <= i < rest.len() ==> rest[i] == keys[i]);
    assert(keys[keys.len() - 1] == keys.last());
    lemma_due_totals(displays, rest, now);
    let before = due_totals(displays, rest, now);
    let totals = due_totals(displays, keys, now);
    if rest.len() > 0 {
        law_audits_count_what_was_due(
            displays,
            rest,
            now,
            if at < rest.len() {
                at
            } else {
                0
            },
        );
    }
    let clock = displays[keys[at]];
    let last = displays[keys.last()];
    if last.next_nanos <= now {
        let late = now - last.next_nanos;
        vstd::arithmetic::div_mod::lemma_div_pos_is_pos(late, last.period_nanos as int);
    }
    if clock.next_nanos <= now {
        let late = now - clock.next_nanos;
        let p = clock.period_nanos as int;
        lemma_fundamental_div_mod(late, p);
        if at == keys.len() - 1 {
            assert(totals.skipped >= late / p);
        } else {
            assert(totals.skipped >= before.skipped);
        }
        if at == keys.len() - 1 {
            assert(totals.skipped * p + p > late) by (nonlinear_arith)
                requires
                    totals.skipped >= late / p,
                    late == p * (late / p) + late % p,
                    late % p < p,
                    p > 0,
            ;
        } else {
            assert(totals.skipped * p >= before.skipped * p) by (nonlinear_arith)
                requires
                    totals.skipped >= before.skipped,
                    p > 0,
            ;
        }
    }
}

/// A report carries the numbers of its window: the counts as they are, the
/// longest times in microseconds and the averages over what they count. The next
/// window starts empty, but knows the last presentation.
pub proof fn law_reports_carry_their_window(audit: VsyncAudit, elapsed: u64, now: u64)
    ensures
        ({
            let report = report_of(audit, elapsed);
            &&& report.interval_ms * 1_000_000 <= elapsed < report.interval_ms * 1_000_000
                + 1_000_000
            &&& report.ticks == audit.scheduler_ticks
            &&& report.skipped == audit.skipped_periods
            &&& report.presentations == audit.presentations
            &&& report.duplicate_presentations == audit.duplicate_presentations
            &&& report.phase_observations == audit.phase_observations
            &&& report.wake_late_max_us == audit.wake_late_max_nanos / 1000
            &&& report.callback_max_us == audit.callback_max_nanos / 1000
            &&& report.present_interval_max_us == audit.presentation_interval_max_nanos / 1000
            &&& report.delivery_late_max_us == audit.delivery_late_max_nanos / 1000
            &&& report.phase_error_max_us == audit.phase_error_max_nanos / 1000
            &&& report.wake_late_avg_us == average(
                audit.wake_late_total_nanos,
                audit.scheduler_ticks,
            )
            &&& report.callback_avg_us == average(
                audit.callback_total_nanos,
                audit.scheduler_ticks,
            )
            &&& report.present_interval_avg_us == average(
                audit.presentation_interval_total_nanos,
                audit.presentation_interval_count,
            )
            &&& report.delivery_late_avg_us == average(
                audit.delivery_late_total_nanos,
                audit.presentations,
            )
            &&& report.phase_error_avg_us == average(
                audit.phase_error_total_nanos,
                audit.phase_observations,
            )
        }),
        ({
            let next = fresh_audit(now, audit.last_presentation_nanos);
            &&& next.window_started_nanos == now
            &&& next.last_presentation_nanos == audit.last_presentation_nanos
            &&& next.scheduler_ticks == 0 && next.presentations == 0 && next.skipped_periods == 0
            &&& next.wake_late_total_nanos == 0 && next.callback_total_nanos == 0
        }),
        AUDIT_WINDOW_NANOS == 1_000_000_000,
{
}

/// Each tick that is due adds one to the count, its lateness to the sum and the
/// whole periods in it to those that were skipped; the worst is the largest.
pub proof fn law_late_ticks_add_up(
    displays: Map<u64, ScheduledVsync>,
    keys: Seq<u64>,
    now: u64,
    display: u64,
)
    ensures
        ({
            let before = due_totals(displays, keys, now);
            let after = due_totals(displays, keys.push(display), now);
            let clock = displays[display];
            &&& clock.next_nanos > now ==> after == before
            &&& clock.next_nanos <= now ==> {
                let late = now - clock.next_nanos;
                &&& after.count == before.count + 1
                &&& after.late == before.late + late
                &&& after.skipped == before.skipped + late / clock.period_nanos as int
                &&& after.worst >= before.worst && after.worst >= late
                &&& after.worst == before.worst || after.worst == late
            }
        }),
        due_totals(displays, Seq::empty(), now) == (Totals { count: 0, skipped: 0, late: 0, worst: 0 }),
{
    assert(keys.push(display).drop_last() =~= keys);
}

/// Each clock of a compatible period adds one observation of how far its next
/// tick is from the host's phase.
pub proof fn law_phase_errors_add_up(
    displays: Map<u64, ScheduledVsync>,
    keys: Seq<u64>,
    now: u64,
    timestamp: u64,
    period: u64,
    display: u64,
)
    ensures
        ({
            let before = phase_totals(displays, keys, now, timestamp, period);
            let after = phase_totals(displays, keys.push(display), now, timestamp, period);
            let clock = displays[display];
            let gap = phase_gap(
                tick_after(now, timestamp, clock.period_nanos),
                clock.next_nanos,
                clock.period_nanos,
            );
            &&& !compatible(clock.period_nanos, period) ==> after == before
            &&& compatible(clock.period_nanos, period) ==> {
                &&& after.count == before.count + 1
                &&& after.late == before.late + gap
                &&& after.worst >= before.worst && after.worst >= gap
                &&& after.worst == before.worst || after.worst == gap
            }
        }),
        phase_totals(displays, Seq::empty(), now, timestamp, period) == (Totals {
            count: 0,
            skipped: 0,
            late: 0,
            worst: 0,
        }),
{
    assert(keys.push(display).drop_last() =~= keys);
}

/// A report adds one presentation with its lateness, one interval where it comes
/// after the last one, one duplicate where it repeats it, and what its phase says
/// of the clocks; a window that was not open opens with it.
pub proof fn law_reports_are_counted(
    schedule: ScheduleModel,
    timestamp: u64,
    period: u64,
    now: u64,
)
    requires
        schedule.audit.presentations < u64::MAX,
        schedule.audit.presentation_interval_count < u64::MAX,
        schedule.audit.duplicate_presentations < u64::MAX,
        schedule.audit.delivery_late_total_nanos + u64::MAX <= u128::MAX,
        schedule.audit.presentation_interval_total_nanos + u64::MAX <= u128::MAX,
    ensures
        ({
            let before = schedule.audit;
            let after = schedule.observed(timestamp, period, now).audit;
            let totals = phase_totals(
                schedule.displays,
                in_order(schedule.displays.dom()),
                now,
                timestamp,
                period,
            );
            let late = if now >= timestamp {
                now - timestamp
            } else {
                0
            };
            &&& after.presentations == before.presentations + 1
            &&& after.delivery_late_total_nanos == before.delivery_late_total_nanos + late
            &&& after.delivery_late_max_nanos >= late && after.delivery_late_max_nanos
                >= before.delivery_late_max_nanos
            &&& after.delivery_late_max_nanos == late || after.delivery_late_max_nanos
                == before.delivery_late_max_nanos
            &&& before.last_presentation_nanos matches Some(last) ==> {
                &&& timestamp > last ==> {
                    &&& after.presentation_interval_count == before.presentation_interval_count + 1
                    &&& after.presentation_interval_total_nanos
                        == before.presentation_interval_total_nanos + (timestamp - last)
                    &&& after.duplicate_presentations == before.duplicate_presentations
                }
                &&& timestamp == last ==> {
                    &&& after.duplicate_presentations == before.duplicate_presentations + 1
                    &&& after.presentation_interval_count == before.presentation_interval_count
                }
                &&& timestamp <= last ==> after.presentation_interval_total_nanos
                    == before.presentation_interval_total_nanos
                &&& timestamp < last ==> after.duplicate_presentations
                    == before.duplicate_presentations
            }
            &&& before.last_presentation_nanos is None ==> {
                &&& after.presentation_interval_count == before.presentation_interval_count
                &&& after.duplicate_presentations == before.duplicate_presentations
            }
            &&& before.phase_observations + totals.count <= u64::MAX ==> after.phase_observations
                == before.phase_observations + totals.count
            &&& before.phase_error_total_nanos + totals.late <= u128::MAX
                ==> after.phase_error_total_nanos == before.phase_error_total_nanos + totals.late
            &&& before.window_started_nanos == 0 ==> after.window_started_nanos == now
            &&& before.window_started_nanos != 0 ==> after.window_started_nanos
                == before.window_started_nanos
            &&& after.scheduler_ticks == before.scheduler_ticks
            &&& after.wake_late_total_nanos == before.wake_late_total_nanos
        }),
{
    lemma_phase_totals(
        schedule.displays,
        in_order(schedule.displays.dom()),
        now,
        timestamp,
        period,
    );
}

/// Taking the due ticks adds them, their lateness and what was skipped to the
/// window, and leaves what was said of presentations.
pub proof fn law_ticks_are_counted(schedule: ScheduleModel, now: u64)
    requires
        schedule.wf(),
        schedule.displays.dom().finite(),
    ensures
        ({
            let before = schedule.audit;
            let after = schedule.ticked(now).audit;
            let totals = due_totals(schedule.displays, in_order(schedule.displays.dom()), now);
            &&& before.scheduler_ticks + totals.count <= u64::MAX ==> after.scheduler_ticks
                == before.scheduler_ticks + totals.count
            &&& before.skipped_periods + totals.skipped <= u64::MAX ==> after.skipped_periods
                == before.skipped_periods + totals.skipped
            &&& before.wake_late_total_nanos + totals.late <= u128::MAX
                ==> after.wake_late_total_nanos == before.wake_late_total_nanos + totals.late
            &&& after.wake_late_max_nanos >= totals.worst && after.wake_late_max_nanos
                >= before.wake_late_max_nanos
            &&& after.wake_late_max_nanos == totals.worst || after.wake_late_max_nanos
                == before.wake_late_max_nanos
            &&& before.window_started_nanos == 0 ==> after.window_started_nanos == now
            &&& before.window_started_nanos != 0 ==> after.window_started_nanos
                == before.window_started_nanos
            &&& after.presentations == before.presentations
            &&& after.last_presentation_nanos == before.last_presentation_nanos
        }),
        schedule.ticked(now).presentation_phase == schedule.presentation_phase,
{
    let keys = in_order(schedule.displays.dom());
    crate::ordered::lemma_in_order_lists(schedule.displays.dom());
    assert forall|i: int| 0 <= i < keys.len() implies schedule.displays[#[trigger] keys[i]].period_nanos
        > 0 by {
        assert(keys.contains(keys[i]));
        assert(schedule.displays.dom().contains(keys[i]));
        assert(schedule.displays.contains_key(keys[i]));
    }
    lemma_due_totals(schedule.displays, keys, now);
}

} // verus!
