//! Keeping the duty of the fan from falling too eagerly.
//!
//! With a fan curve, a duty that falls by no more than the hysteresis is not
//! followed, and a fall beyond that may be limited to a rate. A duty that rises,
//! and one of zero, is followed at once.

use vstd::arithmetic::div_mod::lemma_div_is_ordered;
use vstd::prelude::*;

use crate::config::FanCurveConfig;

verus! {

/// The number of nanoseconds in a second.
pub const SECOND: u128 = 1_000_000_000;

/// The duty that the fan was last given, and what is left of the fall that was
/// allowed up to then.
#[derive(Debug, Clone, Copy)]
pub struct DutyStabilizer {
    pub output: Option<u8>,
    /// The fall that is still allowed, in billionths of a percentage point; less
    /// than one point.
    pub credit: u128,
    /// When the duty was last decided, in nanoseconds.
    pub updated_at: u128,
}

impl DutyStabilizer {
    /// Less than one percentage point is carried over.
    pub open spec fn consistent(self) -> bool {
        self.credit < SECOND
    }

    /// The time since the last decision.
    pub open spec fn elapsed(self, now: u128) -> int {
        if now >= self.updated_at {
            now - self.updated_at
        } else {
            0
        }
    }

    /// The whole of the fall that is allowed, in billionths of a point.
    pub open spec fn allowance(self, curve: FanCurveConfig, now: u128) -> int {
        self.credit + curve.ramp_down * self.elapsed(now)
    }

    /// The stabilizer after a duty was decided and nothing is carried over.
    pub open spec fn settled(duty: u8, now: u128) -> DutyStabilizer {
        DutyStabilizer { output: Some(duty), credit: 0, updated_at: now }
    }

    /// The duty that may be given for a target: no more than the maximum.
    pub open spec fn goal(target: u8, curve: FanCurveConfig) -> u8 {
        if curve.enabled && target > curve.max_duty {
            curve.max_duty
        } else {
            target
        }
    }

    /// The stabilizer after a target was given at `now`.
    pub open spec fn updated(self, target: u8, curve: FanCurveConfig, now: u128) -> DutyStabilizer {
        let goal = Self::goal(target, curve);
        match self.output {
            None => Self::settled(goal, now),
            Some(output) => if !curve.enabled || goal >= output || goal == 0 {
                Self::settled(goal, now)
            } else if output - goal <= curve.hysteresis {
                Self::settled(output, now)
            } else if curve.ramp_down == 0 {
                Self::settled(goal, now)
            } else {
                let allowance = self.allowance(curve, now);
                let points = allowance / 1_000_000_000;
                if points >= output - goal {
                    Self::settled(goal, now)
                } else {
                    DutyStabilizer {
                        output: Some((output - points) as u8),
                        credit: (allowance % 1_000_000_000) as u128,
                        updated_at: now,
                    }
                }
            },
        }
    }

    /// Takes a target, and gives the duty to run at.
    pub fn update(&mut self, target: u8, curve: FanCurveConfig, now: u128) -> (r: u8)
        requires
            old(self).consistent(),
        ensures
            *final(self) == old(self).updated(target, curve, now),
            final(self).output == Some(r),
            final(self).consistent(),
    {
        let goal: u8 = if curve.enabled && target > curve.max_duty {
            curve.max_duty
        } else {
            target
        };
        let output: u8 = match self.output {
            Some(output) => output,
            None => {
                return self.settle(goal, now);
            },
        };
        if !curve.enabled || goal >= output || goal == 0 {
            return self.settle(goal, now);
        }
        if output - goal <= curve.hysteresis {
            return self.settle(output, now);
        }
        if curve.ramp_down == 0 {
            return self.settle(goal, now);
        }
        let elapsed: u128 = if now >= self.updated_at {
            now - self.updated_at
        } else {
            0
        };
        let ghost rate = curve.ramp_down as int;
        if elapsed >= 256 * SECOND {
            proof {
                assert(rate * elapsed >= 256 * 1_000_000_000) by (nonlinear_arith)
                    requires
                        rate >= 1,
                        elapsed >= 256 * 1_000_000_000,
                ;
                lemma_div_is_ordered(256int * 1_000_000_000, self.allowance(curve, now), 1_000_000_000);
            }
            return self.settle(goal, now);
        }
        assert(0 <= rate * elapsed <= 255 * 256 * 1_000_000_000) by (nonlinear_arith)
            requires
                0 <= rate <= 255,
                0 <= elapsed <= 256 * 1_000_000_000,
        ;
        let allowance: u128 = self.credit + curve.ramp_down as u128 * elapsed;
        let points: u128 = allowance / SECOND;
        if points >= (output - goal) as u128 {
            return self.settle(goal, now);
        }
        let next: u8 = output - points as u8;
        self.output = Some(next);
        self.credit = allowance % SECOND;
        self.updated_at = now;
        next
    }

    /// Gives a duty at once, and starts afresh from it.
    pub fn force(&mut self, target: u8, curve: FanCurveConfig, now: u128) -> (r: u8)
        ensures
            r == Self::goal(target, curve),
            *final(self) == Self::settled(r, now),
            final(self).consistent(),
    {
        let goal: u8 = if curve.enabled && target > curve.max_duty {
            curve.max_duty
        } else {
            target
        };
        self.settle(goal, now)
    }

    fn settle(&mut self, duty: u8, now: u128) -> (r: u8)
        ensures
            r == duty,
            *final(self) == Self::settled(duty, now),
    {
        self.output = Some(duty);
        self.credit = 0;
        self.updated_at = now;
        duty
    }
}

impl Default for DutyStabilizer {
    fn default() -> (r: Self)
        ensures
            r.output is None,
            r.consistent(),
            r.credit == 0,
            r.updated_at == 0,
    {
        DutyStabilizer { output: None, credit: 0, updated_at: 0 }
    }
}

/// The maximum of a curve is honored from the first duty on.
pub proof fn output_honors_maximum(s: DutyStabilizer, target: u8, curve: FanCurveConfig, now: u128)
    requires
        curve.enabled,
        s.output matches Some(output) ==> output <= curve.max_duty,
    ensures
        s.updated(target, curve, now).output matches Some(output) && output <= curve.max_duty,
{
    lemma_points(s, curve, now);
}

proof fn lemma_points(s: DutyStabilizer, curve: FanCurveConfig, now: u128)
    ensures
        0 <= s.allowance(curve, now),
        0 <= s.allowance(curve, now) / 1_000_000_000,
{
    let rate = curve.ramp_down as int;
    let elapsed = s.elapsed(now);
    assert(0 <= rate * elapsed) by (nonlinear_arith)
        requires
            0 <= rate,
            0 <= elapsed,
    ;
}

/// A target that is no lower than the duty, and one of zero, is followed at
/// once, up to the maximum.
pub proof fn rise_and_zero_are_immediate(
    s: DutyStabilizer,
    target: u8,
    curve: FanCurveConfig,
    now: u128,
)
    requires
        target == 0 || (s.output matches Some(output) ==> DutyStabilizer::goal(target, curve)
            >= output),
    ensures
        s.updated(target, curve, now).output == Some(DutyStabilizer::goal(target, curve)),
{
}

/// A fall within the hysteresis is not followed.
pub proof fn fall_within_hysteresis_is_held(
    s: DutyStabilizer,
    output: u8,
    target: u8,
    curve: FanCurveConfig,
    now: u128,
)
    requires
        curve.enabled,
        s.output == Some(output),
        output <= curve.max_duty,
        0 < target <= output,
        output - target <= curve.hysteresis,
    ensures
        s.updated(target, curve, now).output == Some(output),
{
}

/// A duty is never below its target, and never above both its target and the
/// duty before.
pub proof fn output_stays_between(
    s: DutyStabilizer,
    output: u8,
    target: u8,
    curve: FanCurveConfig,
    now: u128,
)
    requires
        s.output == Some(output),
    ensures
        s.updated(target, curve, now).output matches Some(next) && {
            &&& next >= DutyStabilizer::goal(target, curve)
            &&& next <= output || next <= DutyStabilizer::goal(target, curve)
        },
{
    lemma_points(s, curve, now);
}

/// Without a curve every target is followed at once.
pub proof fn steps_are_immediate(s: DutyStabilizer, target: u8, curve: FanCurveConfig, now: u128)
    requires
        !curve.enabled,
    ensures
        s.updated(target, curve, now).output == Some(target),
{
}

/// The stabilizer after a row of targets, each with its time.
pub open spec fn after_targets(
    s: DutyStabilizer,
    targets: Seq<(u8, u128)>,
    curve: FanCurveConfig,
) -> DutyStabilizer
    decreases targets.len(),
{
    if targets.len() == 0 {
        s
    } else {
        after_targets(s, targets.drop_last(), curve).updated(
            targets.last().0,
            curve,
            targets.last().1,
        )
    }
}

/// Whether the times of a row of targets do not run backward from a given time.
pub open spec fn in_order(from: u128, targets: Seq<(u8, u128)>) -> bool {
    &&& forall|i: int| 0 <= i < targets.len() ==> from <= (#[trigger] targets[i]).1
    &&& forall|i: int, j: int|
        0 <= i <= j < targets.len() ==> (#[trigger] targets[i]).1 <= (#[trigger] targets[j]).1
}

/// The duty falls no faster than the rate that is set, over any row of targets
/// other than zero: from a duty that was just given, it falls by no more than
/// the rate times the seconds that have passed.
pub proof fn fall_is_limited_to_rate(
    s: DutyStabilizer,
    output: u8,
    targets: Seq<(u8, u128)>,
    curve: FanCurveConfig,
)
    requires
        curve.enabled,
        curve.ramp_down > 0,
        s.output == Some(output),
        s.credit == 0,
        output <= curve.max_duty,
        targets.len() > 0,
        in_order(s.updated_at, targets),
        forall|i: int|
            0 <= i < targets.len() ==> DutyStabilizer::goal((#[trigger] targets[i]).0, curve) > 0,
    ensures
        after_targets(s, targets, curve).output matches Some(end) && (output - end) * 1_000_000_000
            <= curve.ramp_down * (targets.last().1 - s.updated_at),
{
    lemma_fall(s, output, targets, curve);
}

proof fn lemma_fall(s: DutyStabilizer, output: u8, targets: Seq<(u8, u128)>, curve: FanCurveConfig)
    requires
        curve.enabled,
        curve.ramp_down > 0,
        s.output == Some(output),
        s.credit == 0,
        in_order(s.updated_at, targets),
        forall|i: int|
            0 <= i < targets.len() ==> DutyStabilizer::goal((#[trigger] targets[i]).0, curve) > 0,
    ensures
        ({
            let end = after_targets(s, targets, curve);
            let since = if targets.len() == 0 {
                0
            } else {
                targets.last().1 - s.updated_at
            };
            &&& end.output is Some
            &&& end.updated_at == s.updated_at + since
            &&& (output - end.output->0) * 1_000_000_000 + end.credit <= curve.ramp_down * since
        }),
    decreases targets.len(),
{
    let rate = curve.ramp_down as int;
    if targets.len() == 0 {
        assert(rate * 0 == 0);
    } else {
        let before = targets.drop_last();
        assert(forall|i: int| 0 <= i < before.len() ==> before[i] == targets[i]);
        lemma_fall(s, output, before, curve);
        let middle = after_targets(s, before, curve);
        let (target, now) = targets.last();
        assert(targets[targets.len() - 1] == (target, now));
        assert(DutyStabilizer::goal(targets[targets.len() - 1].0, curve) > 0);
        let earlier = if before.len() == 0 {
            0
        } else {
            before.last().1 - s.updated_at
        };
        if before.len() > 0 {
            assert(before.last() == targets[before.len() - 1]);
            assert(targets[before.len() - 1].1 <= targets[targets.len() - 1].1);
        } else {
            assert(s.updated_at <= targets[0].1);
        }
        let since = now - s.updated_at;
        let elapsed = middle.elapsed(now);
        assert(elapsed == since - earlier);
        assert(rate * since == rate * earlier + rate * elapsed) by (nonlinear_arith)
            requires
                elapsed == since - earlier,
        ;
        lemma_points(middle, curve, now);
        assert(rate * elapsed >= 0) by (nonlinear_arith)
            requires
                rate >= 0,
                elapsed >= 0,
        ;
        let last = middle.output->0;
        let next = middle.updated(target, curve, now);
        let allowance = middle.allowance(curve, now);
        assert(allowance == 1_000_000_000 * (allowance / 1_000_000_000) + allowance % 1_000_000_000);
        assert((last - next.output->0) * 1_000_000_000 + next.credit <= allowance);
    }
}

/// What is given for a target is the target, but with a curve never more than its
/// maximum.
pub proof fn goal_is_the_target_up_to_the_maximum(target: u8, curve: FanCurveConfig)
    ensures
        !curve.enabled ==> DutyStabilizer::goal(target, curve) == target,
        curve.enabled && target <= curve.max_duty ==> DutyStabilizer::goal(target, curve) == target,
        curve.enabled && target > curve.max_duty ==> DutyStabilizer::goal(target, curve)
            == curve.max_duty,
{
}

/// A fall makes progress. For a target that is further below the duty than the
/// hysteresis, and not zero, the duty falls by the whole percentage points that
/// the time since the last decision allows at the set rate, together with what
/// was left over, but not below the target. What is less than a point is left
/// over for the next time, until the target is reached. Without a rate the
/// target is followed at once.
pub proof fn fall_goes_as_far_as_allowed(
    s: DutyStabilizer,
    output: u8,
    target: u8,
    curve: FanCurveConfig,
    now: u128,
)
    requires
        curve.enabled,
        s.output == Some(output),
        0 < target <= curve.max_duty,
        output - target > curve.hysteresis,
        now >= s.updated_at,
    ensures
        ({
            let next = s.updated(target, curve, now);
            let allowed = s.credit + curve.ramp_down * (now - s.updated_at);
            &&& next.output matches Some(duty) && {
                let fall = output - duty;
                &&& target <= duty <= output
                &&& next.updated_at == now
                &&& curve.ramp_down == 0 ==> duty == target && next.credit == 0
                &&& curve.ramp_down > 0 ==> fall * 1_000_000_000 <= allowed
                &&& curve.ramp_down > 0 && duty > target ==> next.credit == allowed - fall
                    * 1_000_000_000 && next.credit < 1_000_000_000
                &&& curve.ramp_down > 0 && duty == target ==> next.credit == 0
                &&& curve.ramp_down > 0 && allowed >= (output - target) * 1_000_000_000 ==> duty
                    == target
            }
        }),
{
    lemma_points(s, curve, now);
    let allowance = s.allowance(curve, now);
    let points = allowance / 1_000_000_000;
    assert(allowance == 1_000_000_000 * points + allowance % 1_000_000_000);
    assert(0 <= allowance % 1_000_000_000 < 1_000_000_000);
}

/// A target that is given again and again is reached, to within the hysteresis,
/// by the time that the rate needs for the way.
pub proof fn repeated_target_is_reached(
    s: DutyStabilizer,
    output: u8,
    target: u8,
    targets: Seq<(u8, u128)>,
    curve: FanCurveConfig,
)
    requires
        curve.enabled,
        curve.ramp_down > 0,
        s.output == Some(output),
        s.consistent(),
        0 < target <= curve.max_duty,
        target <= output,
        in_order(s.updated_at, targets),
        targets.len() > 0,
        forall|i: int| 0 <= i < targets.len() ==> (#[trigger] targets[i]).0 == target,
        curve.ramp_down * (targets.last().1 - s.updated_at) >= (output - target) * 1_000_000_000,
    ensures
        after_targets(s, targets, curve).output matches Some(end) && target <= end <= output && end
            - target <= curve.hysteresis,
{
    lemma_way_down(s, output, target, targets, curve);
}

proof fn lemma_way_down(
    s: DutyStabilizer,
    output: u8,
    target: u8,
    targets: Seq<(u8, u128)>,
    curve: FanCurveConfig,
)
    requires
        curve.enabled,
        curve.ramp_down > 0,
        s.output == Some(output),
        s.consistent(),
        0 < target <= curve.max_duty,
        target <= output,
        in_order(s.updated_at, targets),
        forall|i: int| 0 <= i < targets.len() ==> (#[trigger] targets[i]).0 == target,
    ensures
        ({
            let end = after_targets(s, targets, curve);
            let since = if targets.len() == 0 {
                0
            } else {
                targets.last().1 - s.updated_at
            };
            &&& end.consistent()
            &&& end.updated_at == s.updated_at + since
            &&& end.output matches Some(duty) && target <= duty <= output
            &&& end.output->0 - target <= curve.hysteresis || (output - end.output->0)
                * 1_000_000_000 + end.credit == s.credit + curve.ramp_down * since
        }),
    decreases targets.len(),
{
    let rate = curve.ramp_down as int;
    if targets.len() == 0 {
        assert(rate * 0 == 0);
    } else {
        let before = targets.drop_last();
        assert(forall|i: int| 0 <= i < before.len() ==> before[i] == targets[i]);
        lemma_way_down(s, output, target, before, curve);
        let middle = after_targets(s, before, curve);
        let now = targets.last().1;
        assert(targets[targets.len() - 1] == targets.last());
        assert(targets.last().0 == target);
        let earlier = if before.len() == 0 {
            0
        } else {
            before.last().1 - s.updated_at
        };
        if before.len() > 0 {
            assert(before.last() == targets[before.len() - 1]);
            assert(targets[before.len() - 1].1 <= targets[targets.len() - 1].1);
        } else {
            assert(s.updated_at <= targets[0].1);
        }
        let since = now - s.updated_at;
        let elapsed = middle.elapsed(now);
        assert(elapsed == since - earlier);
        assert(rate * since == rate * earlier + rate * elapsed) by (nonlinear_arith)
            requires
                elapsed == since - earlier,
        ;
        lemma_points(middle, curve, now);
        let allowance = middle.allowance(curve, now);
        assert(allowance == 1_000_000_000 * (allowance / 1_000_000_000) + allowance % 1_000_000_000);
        let last = middle.output->0;
        if last - target > curve.hysteresis {
            fall_goes_as_far_as_allowed(middle, last, target, curve, now);
        }
    }
}

/// Every decision counts from when it was made, and only a fall under way leaves
/// anything over: a duty that is held or reached starts afresh.
pub proof fn decisions_start_afresh(
    s: DutyStabilizer,
    output: u8,
    target: u8,
    curve: FanCurveConfig,
    now: u128,
)
    requires
        s.output == Some(output),
        target <= curve.max_duty,
    ensures
        s.updated(target, curve, now).updated_at == now,
        s.updated(target, curve, now).output == Some(output) && output - target <= curve.hysteresis
            ==> s.updated(target, curve, now).credit == 0,
        s.updated(target, curve, now).output == Some(target) ==> s.updated(
            target,
            curve,
            now,
        ).credit == 0,
{
    lemma_points(s, curve, now);
}

/// A time before that of the last decision allows no more than what was left over.
pub proof fn earlier_times_allow_nothing_more(
    s: DutyStabilizer,
    target: u8,
    curve: FanCurveConfig,
    now: u128,
)
    requires
        now < s.updated_at,
    ensures
        s.updated(target, curve, now).output == s.updated(target, curve, s.updated_at).output,
        s.updated(target, curve, now).credit == s.updated(target, curve, s.updated_at).credit,
        s.updated(target, curve, now).updated_at == now,
{
}

} // verus!
