//! Pulse-width modulation.

use radxa_penta_top_hat_rs::pin_map::PinMap;
use radxa_penta_top_hat_rs::pwm::{
    drive_pwm_cycle, duration_from_ppm, duty_cycle_ns, next_slice, normalize_pwmchip, to_wire_duty,
    wait_for_path, Duty, FanOutput, PathLook, PinHold, SoftwarePwm, SysfsPwm, SysfsStep,
    MAX_DURATION,
};

const MILLISECOND: u128 = 1_000_000;

fn share(fraction: f64) -> Duty {
    Duty::from_parts_per_million((fraction * 1_000_000.0).round() as u32)
}

fn fraction(duty: Duty) -> f64 {
    f64::from(duty.parts_per_million()) / 1_000_000.0
}

fn hold(active: bool, hold: u128) -> PinHold {
    PinHold { active, hold }
}

fn write(path: &str, contents: &str) -> SysfsStep {
    SysfsStep::Write {
        path: path.to_string(),
        contents: contents.to_string(),
    }
}

#[test]
fn converts_logical_to_wire_duty() {
    assert_eq!(fraction(to_wire_duty(share(0.25), false)), 0.25);
    assert_eq!(fraction(to_wire_duty(share(0.25), true)), 0.75);
}

#[test]
fn calculates_sysfs_duty_cycle_nanoseconds() {
    assert_eq!(duty_cycle_ns(40_000, share(0.0)), 0);
    assert_eq!(duty_cycle_ns(40_000, share(0.25)), 10_000);
    assert_eq!(duty_cycle_ns(40_000, share(1.0)), 40_000);
}

#[test]
fn calculates_software_pwm_durations() {
    let period = 25 * MILLISECOND;

    assert_eq!(duration_from_ppm(period, 0), 0);
    assert_eq!(
        duration_from_ppm(period, 500_000),
        12_500 * 1_000
    );
    assert_eq!(u128::from(duration_from_ppm(period, 1_000_000)), period);
}

#[test]
fn normalizes_pwmchip_names() {
    assert_eq!(normalize_pwmchip("14"), "pwmchip14");
    assert_eq!(normalize_pwmchip("pwmchip1"), "pwmchip1");
}

#[test]
fn percentages_are_whole_parts_per_million() {
    for percent in 0..=255u8 {
        let fraction = (f64::from(percent) / 100.0).clamp(0.0, 1.0);
        let parts = (fraction * 1_000_000.0).round() as u32;
        assert_eq!(Duty::from_percent(percent).parts_per_million(), parts);
        let inverse = ((1.0 - fraction).clamp(0.0, 1.0) * 1_000_000.0).round() as u32;
        assert_eq!(
            to_wire_duty(Duty::from_percent(percent), true).parts_per_million(),
            inverse
        );
    }
    assert_eq!(Duty::from_parts_per_million(2_000_000), Duty::from_percent(100));
}

#[test]
fn largest_periods_do_not_overflow() {
    assert_eq!(duty_cycle_ns(u64::MAX, Duty::from_percent(100)), u64::MAX);
    assert_eq!(duration_from_ppm(MAX_DURATION, u32::MAX), u64::MAX);
}

#[test]
fn cycle_holds_the_pin_for_the_share_of_the_duty() {
    let period = 25 * MILLISECOND;
    assert_eq!(drive_pwm_cycle(period, 0), vec![hold(false, period)]);
    assert_eq!(drive_pwm_cycle(period, 1_000_000), vec![hold(true, period)]);
    assert_eq!(
        drive_pwm_cycle(period, 200_000),
        vec![hold(true, 5 * MILLISECOND), hold(false, 20 * MILLISECOND)]
    );
    let pin = SoftwarePwm {
        chip: "/dev/gpiochip4".to_string(),
        line: 27,
        period,
        active_low: true,
    };
    assert_eq!(
        pin.cycle(200_000),
        vec![hold(true, 20 * MILLISECOND), hold(false, 5 * MILLISECOND)]
    );
    assert_eq!(pin.cycle(5_000_000), vec![hold(false, period)]);
}

#[test]
fn sleep_is_cut_into_slices() {
    assert_eq!(next_slice(0), None);
    assert_eq!(next_slice(3 * MILLISECOND), Some((3 * MILLISECOND, 0)));
    assert_eq!(
        next_slice(12 * MILLISECOND),
        Some((5 * MILLISECOND, 7 * MILLISECOND))
    );
}

#[test]
fn channel_is_exported_and_set_up() {
    let pwm = SysfsPwm::open_at("/tmp/pwm", "14", 2, 40_000, true);
    assert_eq!(pwm.pwm_path, "/tmp/pwm/pwmchip14/pwm2");
    let steps = pwm.open_steps(false);
    assert_eq!(
        steps[..2],
        [
            write("/tmp/pwm/pwmchip14/export", "2"),
            SysfsStep::WaitFor {
                path: "/tmp/pwm/pwmchip14/pwm2".to_string(),
                timeout: 500 * MILLISECOND,
            },
        ]
    );
    assert_eq!(
        steps[2..],
        [
            SysfsStep::WriteOptional {
                path: "/tmp/pwm/pwmchip14/pwm2/enable".to_string(),
                contents: "0".to_string(),
            },
            write("/tmp/pwm/pwmchip14/pwm2/period", "40000"),
            write("/tmp/pwm/pwmchip14/pwm2/duty_cycle", "0"),
            write("/tmp/pwm/pwmchip14/pwm2/enable", "1"),
        ]
    );
    assert_eq!(pwm.open_steps(true), steps[2..].to_vec());
    assert_eq!(
        pwm.duty_step(Duty::from_percent(25)),
        write("/tmp/pwm/pwmchip14/pwm2/duty_cycle", "30000")
    );
    assert_eq!(
        pwm.close_step(),
        write("/tmp/pwm/pwmchip14/pwm2/enable", "0")
    );
    assert_eq!(
        SysfsPwm::open("pwmchip0", 0, 1, false).pwm_path,
        "/sys/class/pwm/pwmchip0/pwm0"
    );
}

#[test]
fn file_is_waited_for_until_its_time_is_over() {
    let look = |exists, waited| wait_for_path("/tmp/pwm0", exists, waited, 500 * MILLISECOND);
    assert_eq!(look(true, 0), PathLook::Found);
    assert_eq!(
        look(false, 490 * MILLISECOND),
        PathLook::Pause {
            pause: 10 * MILLISECOND,
        }
    );
    assert_eq!(
        look(true, 500 * MILLISECOND),
        PathLook::TimedOut {
            error: "timed out waiting for /tmp/pwm0".to_string(),
        }
    );
}

#[test]
fn output_is_found_in_the_pin_map() {
    let map = |text: &str| PinMap::parse(text).unwrap();
    let open = |text: &str| FanOutput::open_from_pin_map(&map(text));

    assert_eq!(
        open("HARDWARE_PWM=1\nPWMCHIP=14\n"),
        Ok(FanOutput::Sysfs(SysfsPwm::open("14", 0, 40_000, true)))
    );
    assert_eq!(
        open("FAN_CHIP=/dev/gpiochip4\nFAN_LINE=27\nHARDWARE_PWM=0\n"),
        Ok(FanOutput::Software(SoftwarePwm {
            chip: "/dev/gpiochip4".to_string(),
            line: 27,
            period: 25 * MILLISECOND,
            active_low: false,
        }))
    );
    let error = |text: &str| open(text).unwrap_err();
    assert_eq!(error("HARDWARE_PWM=1"), "missing required pin-map value PWMCHIP");
    assert_eq!(error("FAN_LINE=27"), "missing required pin-map value FAN_CHIP");
    assert_eq!(error("FAN_CHIP=/dev/a"), "missing required pin-map value FAN_LINE");
}
