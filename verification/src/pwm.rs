//! Pulse-width modulation: duties, and what the outputs make of them.

use vstd::prelude::*;
use vstd::string::*;

use crate::number::{decimal, push_decimal};
use crate::paths::{join, joined};
use crate::pin_map::PinMap;
use crate::text::{chars_of, has_prefix, starts_with};

verus! {

/// The number of parts in a full duty.
pub const DUTY_SCALE: u32 = 1_000_000;

/// Where the kernel keeps its pulse-width modulators.
pub const DEFAULT_PWM_ROOT: &'static str = "/sys/class/pwm";

/// The channel of the modulator that the fan hangs on.
pub const DEFAULT_HARDWARE_PWM_CHANNEL: u32 = 0;

/// The period of the modulator, in nanoseconds.
pub const DEFAULT_HARDWARE_PWM_PERIOD_NS: u64 = 40_000;

/// The period of modulation in software, in nanoseconds.
pub const DEFAULT_SOFTWARE_PWM_PERIOD: u128 = 25_000_000;

/// The name under which the daemon asks for the line of the fan.
pub const DEFAULT_CONSUMER: &'static str = "radxa-penta-top-hat-rs";

/// The longest span of time that a clock can hold, in nanoseconds.
pub const MAX_DURATION: u128 = 18_446_744_073_709_551_615_999_999_999;

/// The longest sleep without a look at the request to stop, in nanoseconds.
pub const SLEEP_SLICE: u128 = 5_000_000;

/// A share of the time, in parts per million of the whole.
#[derive(Debug, Clone, Copy, PartialEq, Eq)]
pub struct Duty {
    parts: u32,
}

impl Duty {
    /// No more than the whole.
    #[verifier::type_invariant]
    spec fn at_most_whole(self) -> bool {
        self.parts <= DUTY_SCALE
    }

    /// The share, in parts per million.
    pub closed spec fn ppm(self) -> int {
        self.parts as int
    }

    /// The given parts per million, or the whole where there are more.
    pub fn from_parts_per_million(parts: u32) -> (r: Duty)
        ensures
            r.ppm() == if parts > DUTY_SCALE {
                DUTY_SCALE as int
            } else {
                parts as int
            },
    {
        if parts > DUTY_SCALE {
            Duty { parts: DUTY_SCALE }
        } else {
            Duty { parts }
        }
    }

    /// The given percentage, or the whole where it is more.
    pub fn from_percent(percent: u8) -> (r: Duty)
        ensures
            r.ppm() == percent_ppm(percent),
    {
        if percent > 100 {
            Duty { parts: DUTY_SCALE }
        } else {
            Duty { parts: percent as u32 * 10_000 }
        }
    }

    /// The share, in parts per million.
    pub fn parts_per_million(self) -> (r: u32)
        ensures
            r == self.ppm(),
            r <= DUTY_SCALE,
    {
        proof {
            use_type_invariant(&self);
        }
        self.parts
    }

    /// What is left of the whole.
    pub fn complement(self) -> (r: Duty)
        ensures
            r.ppm() == DUTY_SCALE - self.ppm(),
    {
        proof {
            use_type_invariant(&self);
        }
        Duty { parts: DUTY_SCALE - self.parts }
    }
}

/// A percentage in parts per million, at most the whole.
pub open spec fn percent_ppm(percent: u8) -> int {
    if percent > 100 {
        1_000_000
    } else {
        10_000 * percent
    }
}

/// The text of the error in a result, if it holds one.
pub open spec fn error_in<T>(result: Result<T, String>) -> Option<Seq<char>> {
    match result {
        Ok(_) => None,
        Err(error) => Some(error@),
    }
}

/// An output that the fan hangs on.
pub trait FanPwmOutput: Sized {
    /// The duties that were asked for, in parts per million, each with the text
    /// of the error where it could not be set.
    ///
    /// A verified implementer must give this function: the body here says
    /// nothing of the result, and no `set_logical_duty` meets its contract with
    /// it. It stands here for implementers outside of verified code, which have
    /// no way to write one down.
    closed spec fn asked(&self) -> Seq<(int, Option<Seq<char>>)> {
        arbitrary()
    }

    /// Sets the duty of the fan.
    fn set_logical_duty(&mut self, duty: Duty) -> (r: Result<(), String>)
        ensures
            final(self).asked() == old(self).asked().push((duty.ppm(), error_in(r))),
    ;
}

/// Sets a duty, unless it is the one that was last set; says whether it was
/// set. A duty that could not be set does not count as set, and the error of the
/// output is handed on.
pub fn apply_changed_duty<O: FanPwmOutput>(
    output: &mut O,
    duty_percent: u8,
    last_duty_percent: &mut Option<u8>,
) -> (r: Result<bool, String>)
    ensures
        *old(last_duty_percent) == Some(duty_percent) ==> {
            &&& r == Ok::<bool, String>(false)
            &&& *final(output) == *old(output)
            &&& *final(last_duty_percent) == *old(last_duty_percent)
        },
        *old(last_duty_percent) != Some(duty_percent) ==> {
            &&& final(output).asked() == old(output).asked().push(
                (percent_ppm(duty_percent), error_in(r)),
            )
            &&& r is Ok ==> r == Ok::<bool, String>(true) && *final(last_duty_percent) == Some(
                duty_percent,
            )
            &&& r is Err ==> *final(last_duty_percent) == *old(last_duty_percent)
        },
{
    if let Some(last) = *last_duty_percent {
        if last == duty_percent {
            return Ok(false);
        }
    }
    match output.set_logical_duty(Duty::from_percent(duty_percent)) {
        Ok(()) => {
            *last_duty_percent = Some(duty_percent);
            Ok(true)
        },
        Err(error) => Err(error),
    }
}

/// Gives the duty on the wire, which is inverted for an output that is active
/// while it is low.
pub fn to_wire_duty(duty: Duty, active_low: bool) -> (r: Duty)
    ensures
        r.ppm() == wire_ppm(duty.ppm(), active_low),
{
    if active_low {
        duty.complement()
    } else {
        duty
    }
}

/// The duty on the wire, in parts per million.
pub open spec fn wire_ppm(ppm: int, active_low: bool) -> int {
    if active_low {
        1_000_000 - ppm
    } else {
        ppm
    }
}

/// Gives the part of a period that a duty makes up, in nanoseconds.
pub fn duty_cycle_ns(period_ns: u64, duty: Duty) -> (r: u64)
    ensures
        r == period_ns * duty.ppm() / 1_000_000,
        r <= period_ns,
{
    let parts: u32 = duty.parts_per_million();
    assert(period_ns as u128 * parts as u128 <= 0xffff_ffff_ffff_ffff * 1_000_000) by (nonlinear_arith)
        requires
            period_ns <= 0xffff_ffff_ffff_ffff,
            parts <= 1_000_000,
    ;
    let product: u128 = period_ns as u128 * parts as u128;
    assert(product / 1_000_000 <= period_ns) by (nonlinear_arith)
        requires
            product == period_ns * parts,
            parts <= 1_000_000,
    ;
    (product / DUTY_SCALE as u128) as u64
}

/// The part of a period that some parts per million make up, in nanoseconds.
pub open spec fn active_time(period: int, ppm: int) -> int {
    let share = if ppm > 1_000_000 {
        1_000_000
    } else {
        ppm
    };
    let nanos = period * share / 1_000_000;
    if nanos > u64::MAX {
        u64::MAX as int
    } else {
        nanos
    }
}

/// Gives the part of a period that some parts per million make up.
pub fn duration_from_ppm(period: u128, duty_ppm: u32) -> (r: u64)
    requires
        period <= MAX_DURATION,
    ensures
        r == active_time(period as int, duty_ppm as int),
{
    let share: u32 = if duty_ppm > DUTY_SCALE {
        DUTY_SCALE
    } else {
        duty_ppm
    };
    assert(0 <= period as int * share as int <= MAX_DURATION * 1_000_000) by (nonlinear_arith)
        requires
            period <= MAX_DURATION,
            share <= 1_000_000,
    ;
    let nanos: u128 = period * share as u128 / DUTY_SCALE as u128;
    if nanos > u64::MAX as u128 {
        u64::MAX
    } else {
        nanos as u64
    }
}

/// The name of the directory of a modulator, which may be given as its number.
pub open spec fn pwmchip_name(chip: Seq<char>) -> Seq<char> {
    if starts_with(chip, "pwmchip"@) {
        chip
    } else {
        "pwmchip"@ + chip
    }
}

/// Finds the name of the directory of a modulator.
pub fn normalize_pwmchip(chip: &str) -> (r: String)
    ensures
        r@ == pwmchip_name(chip@),
{
    let chars = chars_of(chip);
    if has_prefix(&chars, "pwmchip") {
        chip.to_owned()
    } else {
        let mut out = "pwmchip".to_owned();
        out.append(chip);
        out
    }
}

/// Something to do with the files of a modulator.
#[derive(Debug, Clone, PartialEq, Eq)]
pub enum SysfsStep {
    /// Write a file.
    Write { path: String, contents: String },
    /// Write a file; it is no error that there is none.
    WriteOptional { path: String, contents: String },
    /// Wait for a file to appear, for at most the given nanoseconds.
    WaitFor { path: String, timeout: u128 },
}

/// A step as mathematical data.
pub enum StepView {
    Write { path: Seq<char>, contents: Seq<char> },
    WriteOptional { path: Seq<char>, contents: Seq<char> },
    WaitFor { path: Seq<char>, timeout: u128 },
}

impl View for SysfsStep {
    type V = StepView;

    open spec fn view(&self) -> StepView {
        match *self {
            SysfsStep::Write { path, contents } => StepView::Write {
                path: path@,
                contents: contents@,
            },
            SysfsStep::WriteOptional { path, contents } => StepView::WriteOptional {
                path: path@,
                contents: contents@,
            },
            SysfsStep::WaitFor { path, timeout } => StepView::WaitFor { path: path@, timeout },
        }
    }
}

/// Steps as mathematical data.
pub open spec fn step_views(steps: Seq<SysfsStep>) -> Seq<StepView> {
    Seq::new(steps.len(), |i: int| steps[i]@)
}

/// A channel of a modulator of the kernel.
#[derive(Debug, Clone, PartialEq, Eq)]
pub struct SysfsPwm {
    pub chip_path: String,
    pub pwm_path: String,
    pub channel: u32,
    pub period_ns: u64,
    pub active_low: bool,
}

/// A write of a file below a directory.
pub open spec fn write_below(directory: Seq<char>, name: Seq<char>, contents: Seq<char>) -> StepView {
    StepView::Write { path: joined(directory, name), contents }
}

fn number_text(n: u64) -> (r: String)
    ensures
        r@ == decimal(n as nat),
{
    let mut out = String::new();
    push_decimal(&mut out, n);
    out
}

fn write_step(directory: &String, name: &str, contents: String) -> (r: SysfsStep)
    ensures
        r@ == write_below(directory@, name@, contents@),
{
    SysfsStep::Write { path: join(directory.as_str(), name), contents }
}

impl SysfsPwm {
    /// A channel in the usual place.
    pub fn open(chip: &str, channel: u32, period_ns: u64, active_low: bool) -> (r: SysfsPwm)
        ensures
            r.is_channel(DEFAULT_PWM_ROOT@, chip@, channel, period_ns, active_low),
    {
        SysfsPwm::open_at(DEFAULT_PWM_ROOT, chip, channel, period_ns, active_low)
    }

    /// Whether this is the given channel, with its files below the given root.
    pub open spec fn is_channel(
        self,
        root: Seq<char>,
        chip: Seq<char>,
        channel: u32,
        period_ns: u64,
        active_low: bool,
    ) -> bool {
        &&& self.chip_path@ == joined(root, pwmchip_name(chip))
        &&& self.pwm_path@ == joined(self.chip_path@, "pwm"@ + decimal(channel as nat))
        &&& self.channel == channel
        &&& self.period_ns == period_ns
        &&& self.active_low == active_low
    }

    /// A channel of a modulator below the given root.
    pub fn open_at(pwm_root: &str, chip: &str, channel: u32, period_ns: u64, active_low: bool) -> (r:
        SysfsPwm)
        ensures
            r.is_channel(pwm_root@, chip@, channel, period_ns, active_low),
    {
        let name = normalize_pwmchip(chip);
        let chip_path = join(pwm_root, name.as_str());
        let mut channel_name = "pwm".to_owned();
        push_decimal(&mut channel_name, channel as u64);
        let pwm_path = join(chip_path.as_str(), channel_name.as_str());
        SysfsPwm { chip_path, pwm_path, channel, period_ns, active_low }
    }

    /// What is done to open the channel: it is exported where it is not yet
    /// there, and set up while it is off.
    pub open spec fn opening(self, exported: bool) -> Seq<StepView> {
        let setup = seq![
            StepView::WriteOptional {
                path: joined(self.pwm_path@, "enable"@),
                contents: "0"@,
            },
            write_below(self.pwm_path@, "period"@, decimal(self.period_ns as nat)),
            write_below(self.pwm_path@, "duty_cycle"@, "0"@),
            write_below(self.pwm_path@, "enable"@, "1"@),
        ];
        if exported {
            setup
        } else {
            seq![
                write_below(self.chip_path@, "export"@, decimal(self.channel as nat)),
                StepView::WaitFor { path: self.pwm_path@, timeout: 500_000_000 },
            ] + setup
        }
    }

    /// Gives the steps that open the channel.
    pub fn open_steps(&self, exported: bool) -> (r: Vec<SysfsStep>)
        ensures
            step_views(r@) == self.opening(exported),
    {
        let mut steps: Vec<SysfsStep> = Vec::new();
        if !exported {
            steps.push(write_step(&self.chip_path, "export", number_text(self.channel as u64)));
            steps.push(
                SysfsStep::WaitFor { path: self.pwm_path.clone(), timeout: 500_000_000 },
            );
        }
        steps.push(
            SysfsStep::WriteOptional {
                path: join(self.pwm_path.as_str(), "enable"),
                contents: "0".to_owned(),
            },
        );
        steps.push(write_step(&self.pwm_path, "period", number_text(self.period_ns)));
        steps.push(write_step(&self.pwm_path, "duty_cycle", "0".to_owned()));
        steps.push(write_step(&self.pwm_path, "enable", "1".to_owned()));
        assert(step_views(steps@) =~= self.opening(exported));
        steps
    }

    /// Gives the step that sets a duty.
    pub fn duty_step(&self, duty: Duty) -> (r: SysfsStep)
        ensures
            r@ == write_below(
                self.pwm_path@,
                "duty_cycle"@,
                decimal(
                    (self.period_ns * wire_ppm(duty.ppm(), self.active_low) / 1_000_000) as nat,
                ),
            ),
    {
        let cycle: u64 = duty_cycle_ns(self.period_ns, to_wire_duty(duty, self.active_low));
        write_step(&self.pwm_path, "duty_cycle", number_text(cycle))
    }

    /// Gives the step that switches the channel off for good.
    pub fn close_step(&self) -> (r: SysfsStep)
        ensures
            r@ == write_below(self.pwm_path@, "enable"@, "0"@),
    {
        write_step(&self.pwm_path, "enable", "0".to_owned())
    }
}

/// The pause between two looks for a file, in nanoseconds.
pub const PATH_LOOK_INTERVAL: u128 = 10_000_000;

/// What to do after a look for a file.
#[derive(Debug, Clone, PartialEq, Eq)]
pub enum PathLook {
    /// It is there.
    Found,
    /// Look again after a pause.
    Pause { pause: u128 },
    /// It has not appeared in time; the text says so.
    TimedOut { error: String },
}

/// Decides what to do after a look for a file that was waited for already: the
/// file is looked for as long as it was waited for less than the given time.
pub fn wait_for_path(path: &str, exists: bool, waited: u128, timeout: u128) -> (r: PathLook)
    ensures
        match r {
            PathLook::Found => waited < timeout && exists,
            PathLook::Pause { pause } => waited < timeout && !exists && pause
                == PATH_LOOK_INTERVAL,
            PathLook::TimedOut { error } => waited >= timeout && error@
                == "timed out waiting for "@ + path@,
        },
{
    if waited >= timeout {
        let mut error = "timed out waiting for ".to_owned();
        error.append(path);
        PathLook::TimedOut { error }
    } else if exists {
        PathLook::Found
    } else {
        PathLook::Pause { pause: PATH_LOOK_INTERVAL }
    }
}

/// A state of a pin, and how long it is held, in nanoseconds.
#[derive(Debug, Clone, Copy, PartialEq, Eq)]
pub struct PinHold {
    pub active: bool,
    pub hold: u128,
}

/// A pin that is modulated in software.
#[derive(Debug, Clone, PartialEq, Eq)]
pub struct SoftwarePwm {
    pub chip: String,
    pub line: u32,
    pub period: u128,
    pub active_low: bool,
}

/// One period of modulation in software, for a duty on the wire: the pin is
/// active for the share of the duty, then inactive. With no duty and with the
/// full one it does not change.
pub open spec fn wire_cycle(period: u128, wire: int) -> Seq<PinHold> {
    if wire == 0 {
        seq![PinHold { active: false, hold: period }]
    } else if wire >= 1_000_000 {
        seq![PinHold { active: true, hold: period }]
    } else {
        let active = active_time(period as int, wire);
        seq![
            PinHold { active: true, hold: active as u128 },
            PinHold {
                active: false,
                hold: (if active > period {
                    0
                } else {
                    period - active
                }) as u128,
            },
        ]
    }
}

/// Plans one period for a duty on the wire.
pub fn drive_pwm_cycle(period: u128, wire_duty: u32) -> (r: Vec<PinHold>)
    requires
        period <= MAX_DURATION,
    ensures
        r@ == wire_cycle(period, wire_duty as int),
{
    let mut plan: Vec<PinHold> = Vec::new();
    if wire_duty == 0 {
        plan.push(PinHold { active: false, hold: period });
        return plan;
    }
    if wire_duty >= DUTY_SCALE {
        plan.push(PinHold { active: true, hold: period });
        return plan;
    }
    let active: u128 = duration_from_ppm(period, wire_duty) as u128;
    let inactive: u128 = if active > period {
        0
    } else {
        period - active
    };
    plan.push(PinHold { active: true, hold: active });
    plan.push(PinHold { active: false, hold: inactive });
    assert(plan@ =~= wire_cycle(period, wire_duty as int));
    plan
}

/// One period makes up the period, and is active for the share of the duty,
/// rounded down.
pub proof fn cycle_keeps_period_and_duty(period: u128, wire: int)
    requires
        period <= u64::MAX,
        0 <= wire <= 1_000_000,
    ensures
        held(wire_cycle(period, wire), true) == period * wire / 1_000_000,
        held(wire_cycle(period, wire), true) + held(wire_cycle(period, wire), false) == period,
{
    reveal_with_fuel(held, 3);
    let plan = wire_cycle(period, wire);
    assert(0 <= period * wire / 1_000_000 <= period) by (nonlinear_arith)
        requires
            0 <= period,
            0 <= wire <= 1_000_000,
    ;
    if wire == 1_000_000 {
        assert(period * wire / 1_000_000 == period);
    }
    if 0 < wire < 1_000_000 {
        assert(plan.drop_last() =~= seq![plan[0]]);
        assert(plan.drop_last().drop_last() =~= Seq::<PinHold>::empty());
    } else {
        assert(plan.drop_last() =~= Seq::<PinHold>::empty());
    }
}

/// How long a plan holds a pin in a state.
pub open spec fn held(plan: Seq<PinHold>, active: bool) -> int
    decreases plan.len(),
{
    if plan.len() == 0 {
        0
    } else {
        held(plan.drop_last(), active) + if plan.last().active == active {
            plan.last().hold as int
        } else {
            0
        }
    }
}

impl SoftwarePwm {
    /// Plans one period for a duty, in parts per million.
    pub fn cycle(&self, duty_ppm: u32) -> (r: Vec<PinHold>)
        requires
            self.period <= MAX_DURATION,
        ensures
            r@ == wire_cycle(
                self.period,
                wire_ppm(
                    if duty_ppm > DUTY_SCALE {
                        DUTY_SCALE as int
                    } else {
                        duty_ppm as int
                    },
                    self.active_low,
                ),
            ),
    {
        let logical: u32 = if duty_ppm > DUTY_SCALE {
            DUTY_SCALE
        } else {
            duty_ppm
        };
        let wire: u32 = if self.active_low {
            DUTY_SCALE - logical
        } else {
            logical
        };
        drive_pwm_cycle(self.period, wire)
    }
}

/// Splits a sleep into its first slice and the rest, so that a request to stop
/// is seen in time. There is no slice where there is nothing left to sleep.
pub fn next_slice(remaining: u128) -> (r: Option<(u128, u128)>)
    ensures
        match r {
            Some((slice, rest)) => {
                &&& slice > 0
                &&& slice + rest == remaining
                &&& slice == SLEEP_SLICE || (slice < SLEEP_SLICE && rest == 0)
            },
            None => remaining == 0,
        },
{
    if remaining == 0 {
        None
    } else if remaining < SLEEP_SLICE {
        Some((remaining, 0))
    } else {
        Some((SLEEP_SLICE, remaining - SLEEP_SLICE))
    }
}

/// The output that a fan hangs on.
#[derive(Debug, Clone, PartialEq, Eq)]
pub enum FanOutput {
    Sysfs(SysfsPwm),
    Software(SoftwarePwm),
}

/// The error for a value that the pin map lacks.
pub open spec fn missing_text(name: Seq<char>) -> Seq<char> {
    "missing required pin-map value "@ + name
}

/// Words the error for a value that the pin map lacks.
pub fn missing_pin_map_value(name: &str) -> (r: String)
    ensures
        r@ == missing_text(name@),
{
    let mut out = "missing required pin-map value ".to_owned();
    out.append(name);
    out
}

/// Whether the output of a pin map is as given: the modulator of the kernel
/// where the board has one for the fan, else the pin of the fan.
pub open spec fn is_output_of(map: PinMap, r: Result<FanOutput, String>) -> bool {
    if map.hardware_pwm {
        match map.pwmchip {
            Some(chip) => r matches Ok(FanOutput::Sysfs(pwm)) && pwm.is_channel(
                DEFAULT_PWM_ROOT@,
                chip@,
                DEFAULT_HARDWARE_PWM_CHANNEL,
                DEFAULT_HARDWARE_PWM_PERIOD_NS,
                true,
            ),
            None => r matches Err(error) && error@ == missing_text("PWMCHIP"@),
        }
    } else {
        match (map.fan_chip, map.fan_line) {
            (None, _) => r matches Err(error) && error@ == missing_text("FAN_CHIP"@),
            (Some(_), None) => r matches Err(error) && error@ == missing_text("FAN_LINE"@),
            (Some(chip), Some(line)) => r matches Ok(FanOutput::Software(pwm)) && pwm.chip@ == chip@
                && pwm.line == line && pwm.period == DEFAULT_SOFTWARE_PWM_PERIOD && !pwm.active_low,
        }
    }
}

impl FanOutput {
    /// Finds the output that a pin map describes.
    pub fn open_from_pin_map(pin_map: &PinMap) -> (r: Result<FanOutput, String>)
        ensures
            is_output_of(*pin_map, r),
    {
        if pin_map.hardware_pwm {
            match &pin_map.pwmchip {
                Some(chip) => Ok(
                    FanOutput::Sysfs(
                        SysfsPwm::open(
                            chip.as_str(),
                            DEFAULT_HARDWARE_PWM_CHANNEL,
                            DEFAULT_HARDWARE_PWM_PERIOD_NS,
                            true,
                        ),
                    ),
                ),
                None => Err(missing_pin_map_value("PWMCHIP")),
            }
        } else {
            let chip = match &pin_map.fan_chip {
                Some(chip) => chip.clone(),
                None => {
                    return Err(missing_pin_map_value("FAN_CHIP"));
                },
            };
            match pin_map.fan_line {
                Some(line) => Ok(
                    FanOutput::Software(
                        SoftwarePwm {
                            chip,
                            line,
                            period: DEFAULT_SOFTWARE_PWM_PERIOD,
                            active_low: false,
                        },
                    ),
                ),
                None => Err(missing_pin_map_value("FAN_LINE")),
            }
        }
    }
}

/// A percentage is ten thousand parts per million for each point, and never more
/// than the whole.
pub proof fn percentages_are_shares(percent: u8)
    ensures
        percent <= 100 ==> percent_ppm(percent) * 100 == percent * 1_000_000,
        percent >= 100 ==> percent_ppm(percent) == 1_000_000,
{
}

/// On a wire that is active while it is low, the share is what is left of the
/// whole: stopping the fan is the whole, and running it fully is nothing.
pub proof fn inverted_wire_carries_the_rest(ppm: int)
    requires
        0 <= ppm <= 1_000_000,
    ensures
        wire_ppm(ppm, false) == ppm,
        wire_ppm(ppm, true) + ppm == 1_000_000,
        wire_ppm(wire_ppm(ppm, true), true) == ppm,
        0 <= wire_ppm(ppm, true) <= 1_000_000,
{
}

/// The active part of a period is the share of the duty, to within less than a
/// nanosecond and never more; with no duty the pin is never active, and with the
/// whole it always is. More than the whole counts as the whole.
pub proof fn active_time_is_the_share(period: u64, ppm: int)
    requires
        0 <= ppm,
    ensures
        ppm <= 1_000_000 ==> active_time(period as int, ppm) * 1_000_000 <= period * ppm,
        ppm <= 1_000_000 ==> period * ppm < (active_time(period as int, ppm) + 1) * 1_000_000,
        ppm >= 1_000_000 ==> active_time(period as int, ppm) == period,
        active_time(period as int, 0) == 0,
{
    let p = period as int;
    if ppm <= 1_000_000 {
        let n = p * ppm;
        assert(0 <= n <= p * 1_000_000) by (nonlinear_arith)
            requires
                n == p * ppm,
                0 <= p,
                0 <= ppm <= 1_000_000,
        ;
        assert(n / 1_000_000 <= p);
    }
    assert(p * 1_000_000 / 1_000_000 == p);
    assert(p * 0 == 0);
}

/// A period of a pin starts with its active part. Without a duty it has none, and
/// with the full duty it has nothing else.
pub proof fn cycle_starts_active(period: u128, wire: int)
    requires
        period <= u64::MAX,
        0 <= wire,
    ensures
        wire == 0 ==> wire_cycle(period, wire) == seq![PinHold { active: false, hold: period }],
        wire >= 1_000_000 ==> wire_cycle(period, wire) == seq![
            PinHold { active: true, hold: period },
        ],
        0 < wire < 1_000_000 ==> wire_cycle(period, wire).len() == 2 && wire_cycle(
            period,
            wire,
        )[0].active && !wire_cycle(period, wire)[1].active && wire_cycle(period, wire)[0].hold
            + wire_cycle(period, wire)[1].hold == period,
{
    if 0 < wire < 1_000_000 {
        let p = period as int;
        let n = p * wire;
        assert(0 <= n <= p * 1_000_000) by (nonlinear_arith)
            requires
                n == p * wire,
                0 <= p,
                0 <= wire <= 1_000_000,
        ;
        assert(n / 1_000_000 <= p);
    }
}

/// A modulator may be given by its number or by the name of its directory.
pub proof fn modulators_are_named(chip: Seq<char>)
    ensures
        pwmchip_name("pwmchip"@ + chip) == "pwmchip"@ + chip,
        chip.len() == 0 || chip[0] != 'p' ==> pwmchip_name(chip) == "pwmchip"@ + chip,
        pwmchip_name(pwmchip_name(chip)) == pwmchip_name(chip),
        starts_with(pwmchip_name(chip), "pwmchip"@),
{
    reveal_strlit("pwmchip");
    assert(("pwmchip"@ + chip).take(7) =~= "pwmchip"@);
    if (chip.len() == 0 || chip[0] != 'p') && starts_with(chip, "pwmchip"@) {
        assert(chip.take(7)[0] == chip[0]);
    }
}

impl SysfsPwm {
    /// A channel is exported, and waited for, only where it is not yet there. It is
    /// set up while it is off, with its period before anything else, and starts
    /// without a duty; it is switched on last.
    pub proof fn channel_is_set_up_while_off(self)
        ensures
            self.opening(false) == seq![
                StepView::Write {
                    path: joined(self.chip_path@, "export"@),
                    contents: decimal(self.channel as nat),
                },
                StepView::WaitFor { path: self.pwm_path@, timeout: 500_000_000 },
            ] + self.opening(true),
            self.opening(true).len() == 4,
            self.opening(true)[0] == (StepView::WriteOptional {
                path: joined(self.pwm_path@, "enable"@),
                contents: "0"@,
            }),
            self.opening(true)[1] == (StepView::Write {
                path: joined(self.pwm_path@, "period"@),
                contents: decimal(self.period_ns as nat),
            }),
            self.opening(true)[2] == (StepView::Write {
                path: joined(self.pwm_path@, "duty_cycle"@),
                contents: "0"@,
            }),
            self.opening(true).last() == (StepView::Write {
                path: joined(self.pwm_path@, "enable"@),
                contents: "1"@,
            }),
    {
    }
}

/// The fan hangs on the modulator of the kernel exactly where the board says so,
/// and that one is active while it is low; else it hangs on its own pin, which is
/// active while it is high. Nothing else of the board matters, and what is needed
/// and missing is named.
pub proof fn board_decides_the_output(map: PinMap, r: Result<FanOutput, String>)
    requires
        is_output_of(map, r),
    ensures
        r matches Ok(FanOutput::Sysfs(pwm)) ==> map.hardware_pwm && pwm.active_low && pwm.channel == 0
            && pwm.period_ns == 40_000,
        r matches Ok(FanOutput::Software(pwm)) ==> !map.hardware_pwm && !pwm.active_low && Some(
            pwm.line,
        ) == map.fan_line && pwm.period == 25_000_000,
        map.hardware_pwm ==> (r is Ok <==> map.pwmchip is Some),
        !map.hardware_pwm ==> (r is Ok <==> map.fan_chip is Some && map.fan_line is Some),
{
}

/// The files of a channel are below the directory of its modulator, which is below
/// the root.
pub proof fn channels_are_below_their_modulator(
    pwm: SysfsPwm,
    root: Seq<char>,
    chip: nat,
    channel: u32,
    period_ns: u64,
    active_low: bool,
)
    requires
        pwm.is_channel(root, decimal(chip), channel, period_ns, active_low),
        root.len() > 0,
        root.last() != '/',
    ensures
        pwm.chip_path@ == root + "/pwmchip"@ + decimal(chip),
        pwm.pwm_path@ == root + "/pwmchip"@ + decimal(chip) + "/pwm"@ + decimal(channel as nat),
        pwm.period_ns == period_ns && pwm.active_low == active_low && pwm.channel == channel,
{
    reveal_strlit("pwmchip");
    reveal_strlit("/pwmchip");
    reveal_strlit("pwm");
    reveal_strlit("/pwm");
    let digits = decimal(chip);
    crate::number::written_numbers_are_shortest(chip);
    assert(crate::text::is_digit(digits[0]));
    assert(crate::text::is_digit(digits[digits.len() - 1]));
    modulators_are_named(digits);
    let name = "pwmchip"@ + digits;
    assert(name[0] == 'p');
    crate::paths::joined_paths_have_one_slash(root, name);
    assert(root + seq!['/'] + name =~= root + "/pwmchip"@ + digits);
    let own = "pwm"@ + decimal(channel as nat);
    assert(own[0] == 'p');
    assert(pwm.chip_path@.last() == digits.last());
    crate::paths::joined_paths_have_one_slash(pwm.chip_path@, own);
    assert(pwm.chip_path@ + seq!['/'] + own =~= root + "/pwmchip"@ + digits + "/pwm"@ + decimal(
        channel as nat,
    ));
}

/// Where the board does not say all that its kind of output needs, what is missing
/// is named.
pub proof fn missing_values_are_named(map: PinMap, error: String)
    requires
        is_output_of(map, Err(error)),
    ensures
        map.hardware_pwm ==> error@ == "missing required pin-map value PWMCHIP"@,
        !map.hardware_pwm && map.fan_chip is None ==> error@
            == "missing required pin-map value FAN_CHIP"@,
        !map.hardware_pwm && map.fan_chip is Some ==> error@
            == "missing required pin-map value FAN_LINE"@,
{
    reveal_strlit("missing required pin-map value ");
    reveal_strlit("PWMCHIP");
    reveal_strlit("FAN_CHIP");
    reveal_strlit("FAN_LINE");
    reveal_strlit("missing required pin-map value PWMCHIP");
    reveal_strlit("missing required pin-map value FAN_CHIP");
    reveal_strlit("missing required pin-map value FAN_LINE");
    assert("missing required pin-map value "@ + "PWMCHIP"@
        =~= "missing required pin-map value PWMCHIP"@);
    assert("missing required pin-map value "@ + "FAN_CHIP"@
        =~= "missing required pin-map value FAN_CHIP"@);
    assert("missing required pin-map value "@ + "FAN_LINE"@
        =~= "missing required pin-map value FAN_LINE"@);
}

/// A board with a modulator has the first channel of it below the directory of the
/// system.
pub proof fn modulators_are_those_of_the_system(map: PinMap, pwm: SysfsPwm, chip: nat)
    requires
        is_output_of(map, Ok(FanOutput::Sysfs(pwm))),
        map.pwmchip matches Some(number) && number@ == decimal(chip),
    ensures
        pwm.pwm_path@ == "/sys/class/pwm/pwmchip"@ + decimal(chip) + "/pwm"@ + decimal(0),
{
    reveal_strlit("/sys/class/pwm");
    reveal_strlit("/pwmchip");
    reveal_strlit("/sys/class/pwm/pwmchip");
    channels_are_below_their_modulator(pwm, "/sys/class/pwm"@, chip, 0, 40_000, true);
    assert("/sys/class/pwm/pwmchip"@ =~= "/sys/class/pwm"@ + "/pwmchip"@);
}

} // verus!
