//! From temperatures to the duty of the fan.

use vstd::arithmetic::div_mod::lemma_div_is_ordered;
use vstd::prelude::*;

use crate::binary64::{lemma_micros_ordered, Binary64};
use crate::config::{FanConfig, FanCurveConfig, FanCurveTail};

verus! {

/// How much is asked of the fan where it runs in steps.
#[derive(Debug, Clone, Copy, PartialEq, Eq, PartialOrd, Ord, Structural)]
pub enum FanLevel {
    Off,
    Lv0,
    Lv1,
    Lv2,
    Lv3,
}

/// The number of thresholds that a level stands above.
pub open spec fn rank(level: FanLevel) -> int {
    match level {
        FanLevel::Off => 0,
        FanLevel::Lv0 => 1,
        FanLevel::Lv1 => 2,
        FanLevel::Lv2 => 3,
        FanLevel::Lv3 => 4,
    }
}

/// The level for a temperature: the highest whose threshold is reached. What is
/// not a number stands for a sensor that failed, and asks for the highest.
pub open spec fn level_of(celsius: Binary64, config: FanConfig) -> FanLevel {
    if celsius.is_nan() || celsius.at_least(config.lv3) {
        FanLevel::Lv3
    } else if celsius.at_least(config.lv2) {
        FanLevel::Lv2
    } else if celsius.at_least(config.lv1) {
        FanLevel::Lv1
    } else if celsius.at_least(config.lv0) {
        FanLevel::Lv0
    } else {
        FanLevel::Off
    }
}

impl FanLevel {
    /// The duty of the level: a quarter of the full duty for each threshold.
    pub fn duty_percent(self) -> (r: u8)
        ensures
            r == 25 * rank(self),
    {
        match self {
            FanLevel::Off => 0,
            FanLevel::Lv0 => 25,
            FanLevel::Lv1 => 50,
            FanLevel::Lv2 => 75,
            FanLevel::Lv3 => 100,
        }
    }

    /// The higher of two levels.
    pub fn higher(self, other: FanLevel) -> (r: FanLevel)
        ensures
            r == higher_level(self, other),
    {
        if self.duty_percent() >= other.duty_percent() {
            self
        } else {
            other
        }
    }

    /// The short name of the level in the log.
    pub fn label(self) -> (r: &'static str)
        ensures
            r@ == level_label(self),
    {
        match self {
            FanLevel::Off => "off",
            FanLevel::Lv0 => "L0",
            FanLevel::Lv1 => "L1",
            FanLevel::Lv2 => "L2",
            FanLevel::Lv3 => "L3",
        }
    }
}

/// The short name of a level.
pub open spec fn level_label(level: FanLevel) -> Seq<char> {
    match level {
        FanLevel::Off => "off"@,
        FanLevel::Lv0 => "L0"@,
        FanLevel::Lv1 => "L1"@,
        FanLevel::Lv2 => "L2"@,
        FanLevel::Lv3 => "L3"@,
    }
}

/// The higher of two levels.
pub open spec fn higher_level(a: FanLevel, b: FanLevel) -> FanLevel {
    if rank(a) >= rank(b) {
        a
    } else {
        b
    }
}

/// Finds the level for a temperature.
pub fn level_for_temperature(celsius: Binary64, config: FanConfig) -> (r: FanLevel)
    ensures
        r == level_of(celsius, config),
{
    if celsius.nan_test() || celsius.ge(config.lv3) {
        FanLevel::Lv3
    } else if celsius.ge(config.lv2) {
        FanLevel::Lv2
    } else if celsius.ge(config.lv1) {
        FanLevel::Lv1
    } else if celsius.ge(config.lv0) {
        FanLevel::Lv0
    } else {
        FanLevel::Off
    }
}

/// The quotient `n / d`, rounded to the nearest whole number, upward from the
/// middle.
pub open spec fn rounded(n: int, d: int) -> int {
    (2 * n + d) / (2 * d)
}

/// The duty between two points, on the line through them. Temperatures are in
/// millionths of a degree; points that close together are one.
pub open spec fn between(at: int, low: int, high: int, low_duty: int, high_duty: int) -> int {
    if high <= low {
        low_duty
    } else {
        low_duty + rounded((high_duty - low_duty) * (at - low), high - low)
    }
}

/// The duty above two points, on the line through them.
pub open spec fn beyond(at: int, low: int, high: int, low_duty: int, high_duty: int) -> int {
    if high <= low {
        high_duty
    } else {
        high_duty + rounded((high_duty - low_duty) * (at - high), high - low)
    }
}

/// The duty that a curve has for a temperature, before the maximum is applied.
pub open spec fn curve_line(celsius: Binary64, thresholds: FanConfig, curve: FanCurveConfig) -> int {
    let at = celsius.whole_micros();
    let t0 = thresholds.lv0.whole_micros();
    let t1 = thresholds.lv1.whole_micros();
    let t2 = thresholds.lv2.whole_micros();
    let t3 = thresholds.lv3.whole_micros();
    if celsius.at_least(thresholds.lv3) {
        match curve.tail {
            FanCurveTail::Hold => curve.duty3 as int,
            FanCurveTail::Extrapolate => beyond(at, t2, t3, curve.duty2 as int, curve.duty3 as int),
        }
    } else if celsius.at_least(thresholds.lv2) {
        between(at, t2, t3, curve.duty2 as int, curve.duty3 as int)
    } else if celsius.at_least(thresholds.lv1) {
        between(at, t1, t2, curve.duty1 as int, curve.duty2 as int)
    } else if celsius.at_least(thresholds.lv0) {
        between(at, t0, t1, curve.duty0 as int, curve.duty1 as int)
    } else {
        0
    }
}

/// The duty for a temperature: the curve, up to its maximum, or the steps where
/// there is no curve. What is not a number asks for the most there is.
pub open spec fn duty_of(celsius: Binary64, thresholds: FanConfig, curve: FanCurveConfig) -> int {
    if !curve.enabled {
        25 * rank(level_of(celsius, thresholds))
    } else if celsius.is_nan() {
        curve.max_duty as int
    } else if curve_line(celsius, thresholds, curve) > curve.max_duty {
        curve.max_duty as int
    } else {
        curve_line(celsius, thresholds, curve)
    }
}

proof fn lemma_rounded(n: int, m: int, d: int)
    requires
        0 < d,
        0 <= n <= m,
    ensures
        0 <= rounded(n, d) <= rounded(m, d),
        rounded(0, d) == 0,
        forall|k: int| n == #[trigger] (k * d) ==> rounded(n, d) == k,
{
    lemma_div_is_ordered(2 * n + d, 2 * m + d, 2 * d);
    assert(d / (2 * d) == 0) by (nonlinear_arith)
        requires
            0 < d,
    ;
    lemma_div_is_ordered(d, 2 * n + d, 2 * d);
    assert forall|k: int| n == #[trigger] (k * d) implies rounded(n, d) == k by {
        assert((2 * (k * d) + d) / (2 * d) == k) by (nonlinear_arith)
            requires
                0 < d,
        ;
    }
}

/// A line between two points stays between their duties, and rises.
proof fn lemma_between(a: int, b: int, low: int, high: int, low_duty: int, high_duty: int)
    requires
        low <= a <= b <= high,
        low_duty <= high_duty,
    ensures
        low_duty <= between(a, low, high, low_duty, high_duty) <= high_duty,
        between(a, low, high, low_duty, high_duty) <= between(b, low, high, low_duty, high_duty),
        a == low ==> between(a, low, high, low_duty, high_duty) == low_duty,
{
    if low < high {
        let rise = high_duty - low_duty;
        let d = high - low;
        assert(0 <= rise * (a - low) <= rise * (b - low) <= rise * d) by (nonlinear_arith)
            requires
                0 <= rise,
                0 <= a - low,
                a - low <= b - low,
                b - low <= d,
        ;
        lemma_rounded(rise * (a - low), rise * (b - low), d);
        lemma_rounded(rise * (a - low), rise * d, d);
        lemma_rounded(rise * d, rise * d, d);
        if a == low {
            assert(rise * (a - low) == 0) by (nonlinear_arith)
                requires
                    a == low,
            ;
        }
    }
}

/// A line beyond two points starts at the upper duty, and rises.
proof fn lemma_beyond(a: int, b: int, low: int, high: int, low_duty: int, high_duty: int)
    requires
        high <= a <= b,
        low_duty <= high_duty,
    ensures
        high_duty <= beyond(a, low, high, low_duty, high_duty),
        beyond(a, low, high, low_duty, high_duty) <= beyond(b, low, high, low_duty, high_duty),
        a == high ==> beyond(a, low, high, low_duty, high_duty) == high_duty,
{
    if low < high {
        let rise = high_duty - low_duty;
        let d = high - low;
        assert(0 <= rise * (a - high) <= rise * (b - high)) by (nonlinear_arith)
            requires
                0 <= rise,
                0 <= a - high,
                a - high <= b - high,
        ;
        lemma_rounded(rise * (a - high), rise * (b - high), d);
        if a == high {
            assert(rise * (a - high) == 0) by (nonlinear_arith)
                requires
                    a == high,
            ;
        }
    }
}

/// The temperatures of ascending thresholds, in millionths, ascend too.
proof fn lemma_threshold_micros(thresholds: FanConfig)
    requires
        thresholds.ascending(),
    ensures
        thresholds.lv0.whole_micros() <= thresholds.lv1.whole_micros(),
        thresholds.lv1.whole_micros() <= thresholds.lv2.whole_micros(),
        thresholds.lv2.whole_micros() <= thresholds.lv3.whole_micros(),
{
    lemma_micros_ordered(thresholds.lv0, thresholds.lv1);
    lemma_micros_ordered(thresholds.lv1, thresholds.lv2);
    lemma_micros_ordered(thresholds.lv2, thresholds.lv3);
}

/// Computes the duty between or beyond two points, from that of the point that
/// the distance is counted from.
fn along(base: u8, distance: u128, span: u128, rise: u8) -> (r: u128)
    requires
        distance <= 0x8000_0000_0000_0000,
        0 < span <= 0x8000_0000_0000_0000,
    ensures
        r == base + rounded(rise as int * distance as int, span as int),
{
    assert(0 <= rise as int * distance as int <= 255 * 0x8000_0000_0000_0000) by (nonlinear_arith)
        requires
            0 <= rise <= 255,
            0 <= distance <= 0x8000_0000_0000_0000,
    ;
    let n: u128 = rise as u128 * distance;
    let d: u128 = span;
    let quotient: u128 = (2 * n + d) / (2 * d);
    assert(quotient <= 2 * n + d) by (nonlinear_arith)
        requires
            quotient == (2 * n + d) / (2 * d),
            d >= 1,
    ;
    base as u128 + quotient
}

/// Computes the duty on the line between two points.
fn duty_between(celsius: Binary64, low: Binary64, high: Binary64, low_duty: u8, high_duty: u8) -> (r:
    u128)
    requires
        celsius.at_least(low),
        high.is_finite(),
        low_duty <= high_duty,
    ensures
        r == between(
            celsius.whole_micros(),
            low.whole_micros(),
            high.whole_micros(),
            low_duty as int,
            high_duty as int,
        ),
{
    let at: i64 = celsius.micros();
    let from: i64 = low.micros();
    let to: i64 = high.micros();
    proof {
        lemma_micros_ordered(low, celsius);
    }
    if to <= from {
        return low_duty as u128;
    }
    // The distances are taken in twice the width of the temperatures.
    let distance: i128 = at as i128 - from as i128;
    let span: i128 = to as i128 - from as i128;
    along(low_duty, distance as u128, span as u128, high_duty - low_duty)
}

/// Computes the duty on the line beyond two points.
fn duty_beyond(celsius: Binary64, low: Binary64, high: Binary64, low_duty: u8, high_duty: u8) -> (r:
    u128)
    requires
        celsius.at_least(high),
        low_duty <= high_duty,
    ensures
        r == beyond(
            celsius.whole_micros(),
            low.whole_micros(),
            high.whole_micros(),
            low_duty as int,
            high_duty as int,
        ),
{
    let at: i64 = celsius.micros();
    let from: i64 = low.micros();
    let to: i64 = high.micros();
    proof {
        lemma_micros_ordered(high, celsius);
    }
    if to <= from {
        return high_duty as u128;
    }
    let distance: i128 = at as i128 - to as i128;
    let span: i128 = to as i128 - from as i128;
    along(high_duty, distance as u128, span as u128, high_duty - low_duty)
}

/// Finds the duty for a temperature.
pub fn duty_for_temperature(celsius: Binary64, thresholds: FanConfig, curve: FanCurveConfig) -> (r:
    u8)
    requires
        curve.enabled ==> thresholds.ascending() && curve.nondecreasing(),
    ensures
        r == duty_of(celsius, thresholds, curve),
{
    if !curve.enabled {
        return level_for_temperature(celsius, thresholds).duty_percent();
    }
    if celsius.nan_test() {
        return curve.max_duty;
    }
    let line: u128 = if celsius.ge(thresholds.lv3) {
        match curve.tail {
            FanCurveTail::Hold => curve.duty3 as u128,
            FanCurveTail::Extrapolate => duty_beyond(
                celsius,
                thresholds.lv2,
                thresholds.lv3,
                curve.duty2,
                curve.duty3,
            ),
        }
    } else if celsius.ge(thresholds.lv2) {
        duty_between(celsius, thresholds.lv2, thresholds.lv3, curve.duty2, curve.duty3)
    } else if celsius.ge(thresholds.lv1) {
        duty_between(celsius, thresholds.lv1, thresholds.lv2, curve.duty1, curve.duty2)
    } else if celsius.ge(thresholds.lv0) {
        duty_between(celsius, thresholds.lv0, thresholds.lv1, curve.duty0, curve.duty1)
    } else {
        0
    };
    if line > curve.max_duty as u128 {
        curve.max_duty
    } else {
        line as u8
    }
}

/// The line of a curve between two temperatures of which neither is below the
/// other.
proof fn lemma_line(a: Binary64, b: Binary64, thresholds: FanConfig, curve: FanCurveConfig)
    requires
        thresholds.ascending(),
        curve.nondecreasing(),
        !a.is_nan(),
        !b.is_nan(),
        a.value() <= b.value(),
    ensures
        0 <= curve_line(a, thresholds, curve) <= curve_line(b, thresholds, curve),
        a.at_least(thresholds.lv0) ==> curve.duty0 <= curve_line(a, thresholds, curve),
        a.at_least(thresholds.lv1) ==> curve.duty1 <= curve_line(a, thresholds, curve),
        a.at_least(thresholds.lv2) ==> curve.duty2 <= curve_line(a, thresholds, curve),
        a.at_least(thresholds.lv3) ==> curve.duty3 <= curve_line(a, thresholds, curve),
        !a.at_least(thresholds.lv1) ==> curve_line(a, thresholds, curve) <= curve.duty1,
        !a.at_least(thresholds.lv2) ==> curve_line(a, thresholds, curve) <= curve.duty2,
        !a.at_least(thresholds.lv3) ==> curve_line(a, thresholds, curve) <= curve.duty3,
        a.value() == thresholds.lv0.value() ==> curve_line(a, thresholds, curve) == curve.duty0,
        a.value() == thresholds.lv1.value() ==> curve_line(a, thresholds, curve) == curve.duty1,
        a.value() == thresholds.lv2.value() ==> curve_line(a, thresholds, curve) == curve.duty2,
        a.value() == thresholds.lv3.value() ==> curve_line(a, thresholds, curve) == curve.duty3,
{
    lemma_threshold_micros(thresholds);
    lemma_line_bounds(a, thresholds, curve);
    lemma_line_bounds(b, thresholds, curve);
    let x = a.whole_micros();
    let y = b.whole_micros();
    lemma_micros_ordered(a, b);
    let t0 = thresholds.lv0.whole_micros();
    let t1 = thresholds.lv1.whole_micros();
    let t2 = thresholds.lv2.whole_micros();
    let t3 = thresholds.lv3.whole_micros();
    let d0 = curve.duty0 as int;
    let d1 = curve.duty1 as int;
    let d2 = curve.duty2 as int;
    let d3 = curve.duty3 as int;
    if a.at_least(thresholds.lv3) {
        lemma_micros_ordered(thresholds.lv3, a);
        lemma_beyond(x, y, t2, t3, d2, d3);
    } else if a.at_least(thresholds.lv2) {
        if !b.at_least(thresholds.lv3) {
            lemma_micros_ordered(thresholds.lv2, a);
            lemma_micros_ordered(b, thresholds.lv3);
            lemma_between(x, y, t2, t3, d2, d3);
        }
    } else if a.at_least(thresholds.lv1) {
        if !b.at_least(thresholds.lv2) {
            lemma_micros_ordered(thresholds.lv1, a);
            lemma_micros_ordered(b, thresholds.lv2);
            lemma_between(x, y, t1, t2, d1, d2);
        }
    } else if a.at_least(thresholds.lv0) {
        if !b.at_least(thresholds.lv1) {
            lemma_micros_ordered(thresholds.lv0, a);
            lemma_micros_ordered(b, thresholds.lv1);
            lemma_between(x, y, t0, t1, d0, d1);
        }
    }
}

/// The line of a curve at one temperature lies between the duties of the points
/// around it, and is the duty of a point at that point.
proof fn lemma_line_bounds(a: Binary64, thresholds: FanConfig, curve: FanCurveConfig)
    requires
        thresholds.ascending(),
        curve.nondecreasing(),
        !a.is_nan(),
    ensures
        0 <= curve_line(a, thresholds, curve),
        a.at_least(thresholds.lv0) ==> curve.duty0 <= curve_line(a, thresholds, curve),
        a.at_least(thresholds.lv1) ==> curve.duty1 <= curve_line(a, thresholds, curve),
        a.at_least(thresholds.lv2) ==> curve.duty2 <= curve_line(a, thresholds, curve),
        a.at_least(thresholds.lv3) ==> curve.duty3 <= curve_line(a, thresholds, curve),
        !a.at_least(thresholds.lv0) ==> curve_line(a, thresholds, curve) == 0,
        !a.at_least(thresholds.lv1) ==> curve_line(a, thresholds, curve) <= curve.duty1,
        !a.at_least(thresholds.lv2) ==> curve_line(a, thresholds, curve) <= curve.duty2,
        !a.at_least(thresholds.lv3) ==> curve_line(a, thresholds, curve) <= curve.duty3,
        a.value() == thresholds.lv0.value() ==> curve_line(a, thresholds, curve) == curve.duty0,
        a.value() == thresholds.lv1.value() ==> curve_line(a, thresholds, curve) == curve.duty1,
        a.value() == thresholds.lv2.value() ==> curve_line(a, thresholds, curve) == curve.duty2,
        a.value() == thresholds.lv3.value() ==> curve_line(a, thresholds, curve) == curve.duty3,
{
    lemma_threshold_micros(thresholds);
    let x = a.whole_micros();
    let t0 = thresholds.lv0.whole_micros();
    let t1 = thresholds.lv1.whole_micros();
    let t2 = thresholds.lv2.whole_micros();
    let t3 = thresholds.lv3.whole_micros();
    let d0 = curve.duty0 as int;
    let d1 = curve.duty1 as int;
    let d2 = curve.duty2 as int;
    let d3 = curve.duty3 as int;
    if a.at_least(thresholds.lv3) {
        lemma_micros_ordered(thresholds.lv3, a);
        if a.value() == thresholds.lv3.value() {
            lemma_micros_ordered(a, thresholds.lv3);
        }
        lemma_beyond(x, x, t2, t3, d2, d3);
    } else if a.at_least(thresholds.lv2) {
        lemma_micros_ordered(thresholds.lv2, a);
        lemma_micros_ordered(a, thresholds.lv3);
        if a.value() == thresholds.lv2.value() {
            lemma_micros_ordered(a, thresholds.lv2);
        }
        lemma_between(x, x, t2, t3, d2, d3);
    } else if a.at_least(thresholds.lv1) {
        lemma_micros_ordered(thresholds.lv1, a);
        lemma_micros_ordered(a, thresholds.lv2);
        if a.value() == thresholds.lv1.value() {
            lemma_micros_ordered(a, thresholds.lv1);
        }
        lemma_between(x, x, t1, t2, d1, d2);
    } else if a.at_least(thresholds.lv0) {
        lemma_micros_ordered(thresholds.lv0, a);
        lemma_micros_ordered(a, thresholds.lv1);
        if a.value() == thresholds.lv0.value() {
            lemma_micros_ordered(a, thresholds.lv0);
        }
        lemma_between(x, x, t0, t1, d0, d1);
    }
}

/// Every duty is from zero to the most there is.
pub proof fn lemma_duty_range(celsius: Binary64, thresholds: FanConfig, curve: FanCurveConfig)
    requires
        curve.enabled ==> thresholds.ascending() && curve.nondecreasing(),
    ensures
        0 <= duty_of(celsius, thresholds, curve) <= curve.ceiling(),
{
    if curve.enabled && !celsius.is_nan() {
        lemma_line_bounds(celsius, thresholds, curve);
    }
}

/// A hotter reading never asks for less.
pub proof fn hotter_asks_no_less(
    a: Binary64,
    b: Binary64,
    thresholds: FanConfig,
    curve: FanCurveConfig,
)
    requires
        thresholds.ascending(),
        curve.nondecreasing(),
        !a.is_nan(),
        !b.is_nan(),
        a.value() <= b.value(),
    ensures
        rank(level_of(a, thresholds)) <= rank(level_of(b, thresholds)),
        duty_of(a, thresholds, curve) <= duty_of(b, thresholds, curve),
{
    lemma_line(a, b, thresholds, curve);
}

/// The maximum of a curve is never exceeded, whatever the temperature.
pub proof fn maximum_is_a_hard_cap(
    celsius: Binary64,
    thresholds: FanConfig,
    curve: FanCurveConfig,
)
    ensures
        duty_of(celsius, thresholds, curve) <= curve.ceiling(),
{
}

/// A curve goes through its points: at each threshold it has the duty of that
/// threshold, up to the maximum.
pub proof fn curve_goes_through_its_points(thresholds: FanConfig, curve: FanCurveConfig)
    requires
        curve.enabled,
        thresholds.ascending(),
        curve.nondecreasing(),
    ensures
        duty_of(thresholds.lv0, thresholds, curve) == capped(curve.duty0, curve),
        duty_of(thresholds.lv1, thresholds, curve) == capped(curve.duty1, curve),
        duty_of(thresholds.lv2, thresholds, curve) == capped(curve.duty2, curve),
        duty_of(thresholds.lv3, thresholds, curve) == capped(curve.duty3, curve),
{
    lemma_line_bounds(thresholds.lv0, thresholds, curve);
    lemma_line_bounds(thresholds.lv1, thresholds, curve);
    lemma_line_bounds(thresholds.lv2, thresholds, curve);
    lemma_line_bounds(thresholds.lv3, thresholds, curve);
}

/// A duty up to the maximum of a curve.
pub open spec fn capped(duty: u8, curve: FanCurveConfig) -> int {
    if duty > curve.max_duty {
        curve.max_duty as int
    } else {
        duty as int
    }
}

/// Below the first threshold nothing is asked of the fan.
pub proof fn cold_asks_for_nothing(
    celsius: Binary64,
    thresholds: FanConfig,
    curve: FanCurveConfig,
)
    requires
        thresholds.ascending(),
        celsius.less(thresholds.lv0),
    ensures
        level_of(celsius, thresholds) == FanLevel::Off,
        duty_of(celsius, thresholds, curve) == 0,
{
}

/// From the last threshold on, a curve that holds keeps its last duty, and one
/// that extrapolates asks for no less than that.
pub proof fn tail_starts_at_last_duty(
    celsius: Binary64,
    thresholds: FanConfig,
    curve: FanCurveConfig,
)
    requires
        curve.enabled,
        thresholds.ascending(),
        curve.nondecreasing(),
        celsius.at_least(thresholds.lv3),
    ensures
        curve.tail == FanCurveTail::Hold ==> duty_of(celsius, thresholds, curve) == capped(
            curve.duty3,
            curve,
        ),
        duty_of(celsius, thresholds, curve) >= capped(curve.duty3, curve),
{
    lemma_line_bounds(celsius, thresholds, curve);
}

/// A temperature that is not a number asks for the most there is.
pub proof fn failed_sensor_asks_for_the_most(
    celsius: Binary64,
    thresholds: FanConfig,
    curve: FanCurveConfig,
)
    requires
        celsius.is_nan(),
    ensures
        level_of(celsius, thresholds) == FanLevel::Lv3,
        duty_of(celsius, thresholds, curve) == curve.ceiling(),
{
}

/// The level is the number of thresholds that a temperature has reached.
pub proof fn level_counts_thresholds(celsius: Binary64, thresholds: FanConfig)
    requires
        thresholds.ascending(),
        !celsius.is_nan(),
    ensures
        rank(level_of(celsius, thresholds)) == reached(celsius, thresholds.lv0) + reached(
            celsius,
            thresholds.lv1,
        ) + reached(celsius, thresholds.lv2) + reached(celsius, thresholds.lv3),
{
}

/// One for a threshold that is reached, else zero.
pub open spec fn reached(celsius: Binary64, threshold: Binary64) -> int {
    if celsius.at_least(threshold) {
        1
    } else {
        0
    }
}

/// Whether a duty is the one on the line through two points at `at`, to within
/// half a percentage point and upward from the middle, or the maximum where the
/// line is there or above. Temperatures are in millionths of a degree; points
/// that close together are one, and the duty lies between theirs.
pub open spec fn is_near_line(
    duty: int,
    max: int,
    at: int,
    low: int,
    high: int,
    low_duty: int,
    high_duty: int,
) -> bool {
    let span = high - low;
    let rise = high_duty - low_duty;
    &&& duty <= max
    &&& span > 0 ==> 2 * ((duty - low_duty) * span) - 2 * (rise * (at - low)) <= span
    &&& span > 0 && duty < max ==> -span < 2 * ((duty - low_duty) * span) - 2 * (rise * (at - low))
    &&& span <= 0 ==> duty <= high_duty && (low_duty <= duty || duty == max)
}

proof fn lemma_rounded_is_near(n: int, d: int)
    requires
        d > 0,
    ensures
        -d < 2 * (rounded(n, d) * d) - 2 * n <= d,
{
    let q = rounded(n, d);
    vstd::arithmetic::div_mod::lemma_fundamental_div_mod(2 * n + d, 2 * d);
    vstd::arithmetic::div_mod::lemma_mod_bound(2 * n + d, 2 * d);
    assert((2 * d) * q == 2 * (q * d)) by (nonlinear_arith);
}

proof fn lemma_near(
    line: int,
    max: int,
    at: int,
    low: int,
    high: int,
    low_duty: int,
    high_duty: int,
)
    requires
        high > low,
        line == between(at, low, high, low_duty, high_duty) || line == beyond(
            at,
            low,
            high,
            low_duty,
            high_duty,
        ),
    ensures
        is_near_line(
            if line > max {
                max
            } else {
                line
            },
            max,
            at,
            low,
            high,
            low_duty,
            high_duty,
        ),
{
    let span = high - low;
    let rise = high_duty - low_duty;
    if line == between(at, low, high, low_duty, high_duty) {
        lemma_rounded_is_near(rise * (at - low), span);
        assert(line - low_duty == rounded(rise * (at - low), span));
    } else {
        let q = rounded(rise * (at - high), span);
        lemma_rounded_is_near(rise * (at - high), span);
        assert(line - low_duty == q + rise);
        assert((q + rise) * span == q * span + rise * span) by (nonlinear_arith);
        assert(rise * (at - low) == rise * (at - high) + rise * span) by (nonlinear_arith)
            requires
                span == high - low,
        ;
    }
    if line > max {
        assert((max - low_duty) * span <= (line - low_duty) * span) by (nonlinear_arith)
            requires
                max <= line,
                span > 0,
        ;
    }
}

/// Between two neighbouring points a curve is the straight line through them, to
/// within half a percentage point. Above the last point the tail either holds the
/// last duty or goes on along the last line. Nothing is above the maximum, and
/// below the first point nothing is asked for.
pub proof fn curve_follows_straight_lines(
    celsius: Binary64,
    thresholds: FanConfig,
    curve: FanCurveConfig,
)
    requires
        curve.enabled,
        thresholds.ascending(),
        curve.nondecreasing(),
        !celsius.is_nan(),
    ensures
        ({
            let duty = duty_of(celsius, thresholds, curve);
            let max = curve.max_duty as int;
            let at = celsius.whole_micros();
            let t0 = thresholds.lv0.whole_micros();
            let t1 = thresholds.lv1.whole_micros();
            let t2 = thresholds.lv2.whole_micros();
            let t3 = thresholds.lv3.whole_micros();
            let d0 = curve.duty0 as int;
            let d1 = curve.duty1 as int;
            let d2 = curve.duty2 as int;
            let d3 = curve.duty3 as int;
            let v = celsius.value();
            &&& v < thresholds.lv0.value() ==> duty == 0
            &&& thresholds.lv0.value() <= v < thresholds.lv1.value() ==> is_near_line(
                duty,
                max,
                at,
                t0,
                t1,
                d0,
                d1,
            )
            &&& thresholds.lv1.value() <= v < thresholds.lv2.value() ==> is_near_line(
                duty,
                max,
                at,
                t1,
                t2,
                d1,
                d2,
            )
            &&& thresholds.lv2.value() <= v < thresholds.lv3.value() ==> is_near_line(
                duty,
                max,
                at,
                t2,
                t3,
                d2,
                d3,
            )
            &&& thresholds.lv3.value() <= v && curve.tail == FanCurveTail::Extrapolate
                ==> is_near_line(duty, max, at, t2, t3, d2, d3)
            &&& thresholds.lv3.value() <= v && curve.tail == FanCurveTail::Hold ==> duty <= max
                && duty <= d3 && (duty == max || duty == d3)
        }),
{
    lemma_line_bounds(celsius, thresholds, curve);
    lemma_threshold_micros(thresholds);
    let line = curve_line(celsius, thresholds, curve);
    let max = curve.max_duty as int;
    let at = celsius.whole_micros();
    let t0 = thresholds.lv0.whole_micros();
    let t1 = thresholds.lv1.whole_micros();
    let t2 = thresholds.lv2.whole_micros();
    let t3 = thresholds.lv3.whole_micros();
    if celsius.at_least(thresholds.lv2) {
        if t2 < t3 && !(celsius.at_least(thresholds.lv3) && curve.tail == FanCurveTail::Hold) {
            lemma_near(line, max, at, t2, t3, curve.duty2 as int, curve.duty3 as int);
        }
    } else if celsius.at_least(thresholds.lv1) {
        if t1 < t2 {
            lemma_near(line, max, at, t1, t2, curve.duty1 as int, curve.duty2 as int);
        }
    } else if celsius.at_least(thresholds.lv0) {
        if t0 < t1 {
            lemma_near(line, max, at, t0, t1, curve.duty0 as int, curve.duty1 as int);
        }
    }
}

/// Without a curve the duty is a quarter of the whole for each threshold that is
/// reached, and the whole for a sensor that failed.
pub proof fn steps_are_quarters(celsius: Binary64, thresholds: FanConfig, curve: FanCurveConfig)
    requires
        !curve.enabled,
        thresholds.ascending(),
    ensures
        ({
            let duty = duty_of(celsius, thresholds, curve);
            let v = celsius.value();
            &&& celsius.is_nan() ==> duty == 100
            &&& !celsius.is_nan() ==> {
                &&& v < thresholds.lv0.value() <==> duty == 0
                &&& thresholds.lv0.value() <= v < thresholds.lv1.value() <==> duty == 25
                &&& thresholds.lv1.value() <= v < thresholds.lv2.value() <==> duty == 50
                &&& thresholds.lv2.value() <= v < thresholds.lv3.value() <==> duty == 75
                &&& thresholds.lv3.value() <= v <==> duty == 100
            }
        }),
{
}

/// The labels of the levels tell them apart.
pub proof fn labels_tell_levels_apart(a: FanLevel, b: FanLevel)
    ensures
        level_label(a) == level_label(b) <==> a == b,
        a != FanLevel::Off ==> level_label(a).len() == 2 && level_label(a)[0] == 'L'
            && level_label(a)[1] as int == '0' as int + rank(a) - 1,
{
    reveal_strlit("off");
    reveal_strlit("L0");
    reveal_strlit("L1");
    reveal_strlit("L2");
    reveal_strlit("L3");
    assert("off"@.len() == 3);
    if level_label(a) == level_label(b) && a != b {
        assert(level_label(a).len() == level_label(b).len());
        assert(level_label(a)[1] == level_label(b)[1]);
    }
}

} // verus!
