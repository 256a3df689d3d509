//! Which duty the temperatures of the processor and the drives ask for.

use vstd::prelude::*;

use crate::binary64::Binary64;
use crate::fan::{
    duty_for_temperature, duty_of, higher_level, lemma_duty_range, level_for_temperature, level_of,
    rank, FanLevel,
};
use crate::pwm::{percent_ppm, Duty};
use crate::config::{default_fan_curve, FanConfig, FanCurveConfig};

verus! {

/// What is asked of the fan, and by whom. Temperatures are in degrees Celsius.
#[derive(Debug, Clone, Copy, PartialEq, Eq)]
pub struct FanDecision {
    pub cpu_temp_c: Binary64,
    pub hottest_drive_temp_c: Option<Binary64>,
    pub cpu_level: FanLevel,
    pub cpu_duty_percent: u8,
    pub drive_level: Option<FanLevel>,
    pub drive_duty_percent: Option<u8>,
    pub level: FanLevel,
    pub duty_percent: u8,
    /// The duty on a wire that is active while it is low, in parts per million.
    pub active_low_duty: u32,
}

impl FanLevel {
    /// The duty of the level on a wire that is active while it is low.
    pub fn active_low_duty(self) -> (r: Duty)
        ensures
            r.ppm() == 1_000_000 - 250_000 * rank(self),
    {
        Duty::from_percent(self.duty_percent()).complement()
    }
}

/// The greater of the duty of the processor and that of the drives, where there
/// is one.
pub open spec fn demand(cpu_duty: u8, drive_duty: Option<u8>) -> u8 {
    match drive_duty {
        Some(duty) => if duty > cpu_duty {
            duty
        } else {
            cpu_duty
        },
        None => cpu_duty,
    }
}

/// The decision for some temperatures: each asks for its level and its duty, and
/// the higher of each wins.
#[verifier::opaque]
pub open spec fn decision_for(
    cpu_temp_c: Binary64,
    cpu_config: FanConfig,
    hottest_drive_temp_c: Option<Binary64>,
    drive_config: FanConfig,
    curve: FanCurveConfig,
) -> FanDecision {
    let cpu_level = level_of(cpu_temp_c, cpu_config);
    let cpu_duty_percent = duty_of(cpu_temp_c, cpu_config, curve) as u8;
    let drive_level = match hottest_drive_temp_c {
        Some(celsius) => Some(level_of(celsius, drive_config)),
        None => None,
    };
    let drive_duty_percent = match hottest_drive_temp_c {
        Some(celsius) => Some(duty_of(celsius, drive_config, curve) as u8),
        None => None,
    };
    let duty_percent = demand(cpu_duty_percent, drive_duty_percent);
    FanDecision {
        cpu_temp_c,
        hottest_drive_temp_c,
        cpu_level,
        cpu_duty_percent,
        drive_level,
        drive_duty_percent,
        level: match drive_level {
            Some(level) => higher_level(cpu_level, level),
            None => cpu_level,
        },
        duty_percent,
        active_low_duty: (1_000_000 - percent_ppm(duty_percent)) as u32,
    }
}

impl FanDecision {
    /// Decides on the temperature of the processor alone, in steps.
    pub fn cpu_only(temp_c: Binary64, config: FanConfig) -> (r: FanDecision)
        ensures
            r == decision_for(temp_c, config, None, config, default_fan_curve()),
    {
        FanDecision::from_temperatures(temp_c, config, None, config)
    }

    /// Decides on the temperature of the processor and that of the hottest
    /// drive, in steps.
    pub fn from_temperatures(
        cpu_temp_c: Binary64,
        cpu_config: FanConfig,
        hottest_drive_temp_c: Option<Binary64>,
        drive_config: FanConfig,
    ) -> (r: FanDecision)
        ensures
            r == decision_for(
                cpu_temp_c,
                cpu_config,
                hottest_drive_temp_c,
                drive_config,
                default_fan_curve(),
            ),
    {
        FanDecision::from_temperatures_with_curve(
            cpu_temp_c,
            cpu_config,
            hottest_drive_temp_c,
            drive_config,
            FanCurveConfig::default(),
        )
    }

    /// Decides on the temperature of the processor alone.
    pub fn cpu_only_with_curve(temp_c: Binary64, config: FanConfig, curve: FanCurveConfig) -> (r:
        FanDecision)
        requires
            curve.enabled ==> config.ascending() && curve.nondecreasing(),
        ensures
            r == decision_for(temp_c, config, None, config, curve),
    {
        FanDecision::from_temperatures_with_curve(temp_c, config, None, config, curve)
    }

    /// Decides on the temperature of the processor and that of the hottest
    /// drive.
    pub fn from_temperatures_with_curve(
        cpu_temp_c: Binary64,
        cpu_config: FanConfig,
        hottest_drive_temp_c: Option<Binary64>,
        drive_config: FanConfig,
        curve: FanCurveConfig,
    ) -> (r: FanDecision)
        requires
            curve.enabled ==> cpu_config.ascending() && drive_config.ascending()
                && curve.nondecreasing(),
        ensures
            r == decision_for(
                cpu_temp_c,
                cpu_config,
                hottest_drive_temp_c,
                drive_config,
                curve,
            ),
    {
        reveal(decision_for);
        let cpu_level = level_for_temperature(cpu_temp_c, cpu_config);
        let cpu_duty_percent: u8 = duty_for_temperature(cpu_temp_c, cpu_config, curve);
        let mut drive_level: Option<FanLevel> = None;
        let mut drive_duty_percent: Option<u8> = None;
        let mut level = cpu_level;
        let mut duty_percent: u8 = cpu_duty_percent;
        if let Some(celsius) = hottest_drive_temp_c {
            let own_level = level_for_temperature(celsius, drive_config);
            let own_duty: u8 = duty_for_temperature(celsius, drive_config, curve);
            drive_level = Some(own_level);
            drive_duty_percent = Some(own_duty);
            level = cpu_level.higher(own_level);
            if own_duty > cpu_duty_percent {
                duty_percent = own_duty;
            }
        }
        FanDecision {
            cpu_temp_c,
            hottest_drive_temp_c,
            cpu_level,
            cpu_duty_percent,
            drive_level,
            drive_duty_percent,
            level,
            duty_percent,
            active_low_duty: Duty::from_percent(duty_percent).complement().parts_per_million(),
        }
    }
}

/// The higher demand wins: a decision is no lower than what the processor asks
/// for alone nor than what the drives ask for alone, and it is one of the two.
pub proof fn higher_demand_wins(
    cpu_temp_c: Binary64,
    cpu_config: FanConfig,
    drive_temp_c: Binary64,
    drive_config: FanConfig,
    curve: FanCurveConfig,
)
    requires
        curve.enabled ==> cpu_config.ascending() && drive_config.ascending()
            && curve.nondecreasing(),
    ensures
        ({
            let both = decision_for(
                cpu_temp_c,
                cpu_config,
                Some(drive_temp_c),
                drive_config,
                curve,
            );
            let cpu = duty_of(cpu_temp_c, cpu_config, curve);
            let drive = duty_of(drive_temp_c, drive_config, curve);
            &&& both.duty_percent >= cpu && both.duty_percent >= drive
            &&& both.duty_percent == cpu || both.duty_percent == drive
            &&& rank(both.level) >= rank(level_of(cpu_temp_c, cpu_config))
            &&& rank(both.level) >= rank(level_of(drive_temp_c, drive_config))
            &&& both.level == level_of(cpu_temp_c, cpu_config) || both.level == level_of(
                drive_temp_c,
                drive_config,
            )
        }),
{
    reveal(decision_for);
    lemma_duty_range(cpu_temp_c, cpu_config, curve);
    lemma_duty_range(drive_temp_c, drive_config, curve);
}

/// Without a drive temperature the processor alone decides, whatever is set for
/// the drives.
pub proof fn without_drives_the_processor_decides(
    cpu_temp_c: Binary64,
    cpu_config: FanConfig,
    drive_config: FanConfig,
    curve: FanCurveConfig,
)
    requires
        curve.enabled ==> cpu_config.ascending() && curve.nondecreasing(),
    ensures
        ({
            let alone = decision_for(cpu_temp_c, cpu_config, None, drive_config, curve);
            &&& alone.level == level_of(cpu_temp_c, cpu_config)
            &&& alone.duty_percent == duty_of(cpu_temp_c, cpu_config, curve)
            &&& alone == decision_for(cpu_temp_c, cpu_config, None, cpu_config, curve)
        }),
{
    reveal(decision_for);
    lemma_duty_range(cpu_temp_c, cpu_config, curve);
}

/// No decision asks for more than the maximum.
pub proof fn decision_honors_maximum(
    cpu_temp_c: Binary64,
    cpu_config: FanConfig,
    hottest_drive_temp_c: Option<Binary64>,
    drive_config: FanConfig,
    curve: FanCurveConfig,
)
    requires
        curve.enabled ==> cpu_config.ascending() && drive_config.ascending()
            && curve.nondecreasing(),
    ensures
        decision_for(
            cpu_temp_c,
            cpu_config,
            hottest_drive_temp_c,
            drive_config,
            curve,
        ).duty_percent <= curve.ceiling(),
{
    reveal(decision_for);
    lemma_duty_range(cpu_temp_c, cpu_config, curve);
    if let Some(celsius) = hottest_drive_temp_c {
        lemma_duty_range(celsius, drive_config, curve);
    }
}

/// In steps the duty of a decision is that of its level.
pub proof fn steps_follow_the_level(
    cpu_temp_c: Binary64,
    cpu_config: FanConfig,
    hottest_drive_temp_c: Option<Binary64>,
    drive_config: FanConfig,
    curve: FanCurveConfig,
)
    requires
        !curve.enabled,
    ensures
        ({
            let d = decision_for(
                cpu_temp_c,
                cpu_config,
                hottest_drive_temp_c,
                drive_config,
                curve,
            );
            d.duty_percent == 25 * rank(d.level)
        }),
{
    reveal(decision_for);
}

/// A decision says what each temperature asks for by itself: the level and the
/// duty of the processor, and those of the drives where there is a temperature of
/// them. On a wire that is active while it is low it is the rest of the whole.
pub proof fn decision_says_who_asks_for_what(
    cpu_temp_c: Binary64,
    cpu_config: FanConfig,
    hottest_drive_temp_c: Option<Binary64>,
    drive_config: FanConfig,
    curve: FanCurveConfig,
)
    requires
        curve.enabled ==> cpu_config.ascending() && drive_config.ascending()
            && curve.nondecreasing() && curve.max_duty <= 100,
    ensures
        ({
            let d = decision_for(
                cpu_temp_c,
                cpu_config,
                hottest_drive_temp_c,
                drive_config,
                curve,
            );
            &&& d.cpu_temp_c == cpu_temp_c
            &&& d.hottest_drive_temp_c == hottest_drive_temp_c
            &&& d.cpu_level == level_of(cpu_temp_c, cpu_config)
            &&& d.cpu_duty_percent == duty_of(cpu_temp_c, cpu_config, curve)
            &&& match hottest_drive_temp_c {
                Some(celsius) => d.drive_level == Some(level_of(celsius, drive_config))
                    && (d.drive_duty_percent matches Some(duty) && duty == duty_of(
                    celsius,
                    drive_config,
                    curve,
                )),
                None => d.drive_level is None && d.drive_duty_percent is None,
            }
            &&& d.duty_percent <= 100
            &&& d.active_low_duty + 10_000 * d.duty_percent == 1_000_000
        }),
{
    reveal(decision_for);
    lemma_duty_range(cpu_temp_c, cpu_config, curve);
    if let Some(celsius) = hottest_drive_temp_c {
        lemma_duty_range(celsius, drive_config, curve);
    }
}

} // verus!
