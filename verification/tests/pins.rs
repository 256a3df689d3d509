//! The pins of the board.

use radxa_penta_top_hat_rs::config::ReadError;
use radxa_penta_top_hat_rs::pin_map::PinMap;

#[test]
fn pins_are_read_from_lines() {
    let map = PinMap::parse(
        "# board\nSDA=SDA\nSCL = SCL\r\n\nOLED_RESET=D23\nBUTTON_CHIP=/dev/gpiochip4\nFAN_CHIP=/dev/gpiochip4\nFAN_LINE=27\nHARDWARE_PWM=0\nPWMCHIP=\nNOTE\nBUTTON_LINE=17\nFAN_LINE=28\n",
    )
    .unwrap();
    assert_eq!(map.sda.as_deref(), Some("SDA"));
    assert_eq!(map.scl.as_deref(), Some("SCL"));
    assert_eq!(map.oled_reset.as_deref(), Some("D23"));
    assert_eq!(map.button_chip.as_deref(), Some("/dev/gpiochip4"));
    assert_eq!(map.fan_chip.as_deref(), Some("/dev/gpiochip4"));
    assert_eq!(map.fan_line, Some(28));
    assert!(!map.hardware_pwm);
    assert_eq!(map.pwmchip, None);
    assert_eq!(map.oled_i2c_device, None);
    assert!(PinMap::parse("HARDWARE_PWM=1").unwrap().hardware_pwm);
}

#[test]
fn line_of_the_fan_is_a_number() {
    assert_eq!(
        PinMap::parse("FAN_LINE=D27").unwrap_err(),
        "invalid FAN_LINE value \"D27\""
    );
}

#[test]
fn missing_file_means_no_pins() {
    assert_eq!(
        PinMap::from_file_or_empty(Err(ReadError::NotFound)),
        Ok(PinMap::default())
    );
    assert_eq!(
        PinMap::from_file_or_empty(Err(ReadError::Other("denied".to_string()))),
        Err("denied".to_string())
    );
    assert_eq!(
        PinMap::from_file_or_empty(Ok("SDA=3".to_string())).unwrap().sda.as_deref(),
        Some("3")
    );
}
