//! The display: its schedule, its frames and its commands.

use radxa_penta_top_hat_rs::binary64::Binary64;
use radxa_penta_top_hat_rs::framebuffer::{glyph, Framebuffer, HEIGHT, WIDTH};
use radxa_penta_top_hat_rs::oled::{
    command_packet, enable_commands, frame_packets, oled_bus, parse_gpio_line, refresh_interval,
    request_reset_line, reset_pulse, setup_commands, sleep_interval, window_commands, ChipLine,
    OledSchedule, OledUpdate, DEFAULT_REFRESH_INTERVAL, MIN_REFRESH_INTERVAL,
};
use radxa_penta_top_hat_rs::pin_map::PinMap;

const MILLISECOND: u128 = 1_000_000;
const SECOND: u128 = 1_000 * MILLISECOND;
const START: u128 = 1_000 * SECOND;

fn number(value: f64) -> Binary64 {
    Binary64::from_bits(value.to_bits())
}

#[test]
fn parses_common_reset_pin_names() {
    assert_eq!(parse_gpio_line("D23"), Some(23));
    assert_eq!(parse_gpio_line("GPIO17"), Some(17));
    assert_eq!(parse_gpio_line("27"), Some(27));
}

#[test]
fn sanitizes_refresh_and_sleep_intervals() {
    assert_eq!(refresh_interval(number(0.0)), DEFAULT_REFRESH_INTERVAL);
    assert_eq!(refresh_interval(number(0.1)), MIN_REFRESH_INTERVAL);
    assert_eq!(sleep_interval(number(0.0)), None);
    assert_eq!(sleep_interval(number(2.5)), Some(2_500 * MILLISECOND));
}

#[test]
fn schedule_auto_slides_at_refresh_deadline() {
    let start = START;
    let interval = 10 * SECOND;
    let mut schedule = OledSchedule::new(start, interval);

    assert_eq!(
        schedule.update(start + interval, false, true, interval, None),
        OledUpdate::Render {
            page: 1,
            wake: false,
        }
    );
}

#[test]
fn schedule_blanks_and_manual_slide_wakes_display() {
    let start = START;
    let interval = 10 * SECOND;
    let sleep = Some(60 * SECOND);
    let mut schedule = OledSchedule::new(start, interval);

    assert_eq!(
        schedule.update(start + interval, false, true, interval, sleep),
        OledUpdate::Render {
            page: 1,
            wake: false,
        }
    );
    assert_eq!(
        schedule.update(
            start + 60 * SECOND,
            false,
            true,
            interval,
            sleep
        ),
        OledUpdate::Blank
    );
    assert_eq!(
        schedule.update(start + 61 * SECOND, true, true, interval, sleep),
        OledUpdate::Render {
            page: 1,
            wake: true,
        }
    );
}

#[test]
fn framebuffer_uses_ssd1306_page_layout() {
    let mut framebuffer = Framebuffer::default();
    framebuffer.set_pixel(3, 0);
    framebuffer.set_pixel(3, 9);

    assert_eq!(framebuffer.bytes[3], 0x01);
    assert_eq!(framebuffer.bytes[WIDTH + 3], 0x02);
}

#[test]
fn text_rendering_clips_at_display_width() {
    let mut framebuffer = Framebuffer::default();
    framebuffer.draw_unscaled_text(126, 0, "ABC");
    assert!(framebuffer.bytes.iter().all(|byte| *byte == 0));
}

#[test]
fn text_rendering_draws_known_glyph() {
    let mut framebuffer = Framebuffer::default();
    framebuffer.draw_unscaled_text(0, 0, "A");
    assert_eq!(&framebuffer.bytes[..5], &[0x7e, 0x11, 0x11, 0x11, 0x7e]);
}

#[test]
fn status_lines_use_all_three_display_rows() {
    let mut framebuffer = Framebuffer::default();
    framebuffer.draw_status_lines(&vec![
        "UP 01:23".to_string(),
        "CPU 50.0C".to_string(),
        "IP 192.168.1.96".to_string(),
    ]);

    assert!(framebuffer.bytes[..WIDTH].iter().any(|byte| *byte != 0));
    assert!(
        framebuffer.bytes[WIDTH..WIDTH * 3]
            .iter()
            .any(|byte| *byte != 0)
    );
    assert!(framebuffer.bytes[WIDTH * 3..].iter().any(|byte| *byte != 0));
}

fn lit(framebuffer: &Framebuffer, x: usize, y: usize) -> bool {
    framebuffer.bytes[x + y / 8 * WIDTH] & (1 << (y % 8)) != 0
}

fn map(text: &str) -> PinMap {
    PinMap::parse(text).unwrap()
}

#[test]
fn intervals_are_rounded_as_the_clock_rounds_them() {
    for seconds in [0.3, 1.0 / 3.0, 2.5, 10.0, 59.999_999_999_7, 1e9, 0.25, 123_456.789] {
        let expected = std::time::Duration::from_secs_f64(seconds).as_nanos();
        assert_eq!(refresh_interval(number(seconds)), expected);
        assert_eq!(sleep_interval(number(seconds)), Some(expected));
    }
    for seconds in [1e-9, 1.5e-9, 2.5e-9, 1e-300, f64::MIN_POSITIVE] {
        let expected = std::time::Duration::from_secs_f64(seconds).as_nanos();
        assert_eq!(sleep_interval(number(seconds)), Some(expected));
    }
    for seconds in [-1.0, -0.0, f64::NAN, f64::INFINITY, f64::NEG_INFINITY] {
        assert_eq!(refresh_interval(number(seconds)), DEFAULT_REFRESH_INTERVAL);
        assert_eq!(sleep_interval(number(seconds)), None);
    }
}

#[test]
fn awake_display_shows_the_next_page_when_touched() {
    let mut schedule = OledSchedule::new(START, 10 * SECOND);
    for page in [1, 2, 0, 1] {
        assert_eq!(
            schedule.update(START + SECOND, true, false, 10 * SECOND, None),
            OledUpdate::Render { page, wake: false }
        );
    }
    assert_eq!(
        schedule.update(START + 2 * SECOND, false, false, 10 * SECOND, None),
        OledUpdate::Nothing
    );
    assert_eq!(
        schedule.update(START + 11 * SECOND, false, false, 10 * SECOND, None),
        OledUpdate::Render {
            page: 1,
            wake: false,
        }
    );
}

#[test]
fn dark_display_stays_dark_until_touched() {
    let sleep = Some(60 * SECOND);
    let mut schedule = OledSchedule::new(START, 10 * SECOND);
    assert_eq!(
        schedule.update(START + 60 * SECOND, false, true, 10 * SECOND, sleep),
        OledUpdate::Blank
    );
    for seconds in [61, 70, 1_000] {
        assert_eq!(
            schedule.update(START + seconds * SECOND, false, true, 10 * SECOND, sleep),
            OledUpdate::Nothing
        );
        assert_eq!(
            schedule.update(START + seconds * SECOND, false, false, u128::MAX, sleep),
            OledUpdate::Nothing
        );
    }
    assert_eq!(
        schedule.update(START + 2_000 * SECOND, true, true, 10 * SECOND, sleep),
        OledUpdate::Render {
            page: 0,
            wake: true,
        }
    );
}

#[test]
fn pixels_outside_the_display_do_not_matter() {
    let mut framebuffer = Framebuffer::default();
    framebuffer.set_pixel(WIDTH, 0);
    framebuffer.set_pixel(0, HEIGHT);
    framebuffer.set_pixel(usize::MAX, usize::MAX);
    assert_eq!(framebuffer, Framebuffer::default());
    framebuffer.set_pixel(WIDTH - 1, HEIGHT - 1);
    assert_eq!(framebuffer.bytes[511], 0x80);
    framebuffer.clear();
    assert_eq!(framebuffer, Framebuffer::default());
}

#[test]
fn single_line_is_large_and_in_the_middle() {
    let mut framebuffer = Framebuffer::default();
    framebuffer.draw_status_lines(&vec!["t".to_string()]);
    for y in 0..HEIGHT {
        for x in 0..WIDTH {
            let inside = (60..68).contains(&x) && (8..23).contains(&y);
            let expected = inside && {
                let column = glyph('T')[(x - 60) * 5 / 8];
                column & (1 << ((y - 8) * 7 / 15)) != 0
            };
            assert_eq!(lit(&framebuffer, x, y), expected, "{x} {y}");
        }
    }
}

#[test]
fn four_lines_fit_and_of_more_three_are_drawn() {
    let lines = |count: usize| vec!["EEEE".to_string(); count];
    let mut four = Framebuffer::default();
    four.draw_status_lines(&lines(4));
    for row in 0..4 {
        assert!((0..WIDTH).any(|x| lit(&four, x, row * 8)));
        assert!((0..WIDTH).all(|x| !lit(&four, x, row * 8 + 7)));
    }
    let mut three = Framebuffer::default();
    three.draw_status_lines(&lines(3));
    assert_ne!(three, four);
    for count in [5, 6, 40] {
        let mut more = Framebuffer::default();
        more.draw_status_lines(&lines(count));
        assert_eq!(more, three);
    }
    let mut none = Framebuffer::default();
    none.draw_status_lines(&lines(0));
    assert_eq!(none, Framebuffer::default());
}

#[test]
fn long_lines_are_cut_at_the_width() {
    let mut long = Framebuffer::default();
    long.draw_status_lines(&vec!["M".repeat(40)]);
    let mut fitting = Framebuffer::default();
    fitting.draw_status_lines(&vec!["m".repeat(14)]);
    assert_eq!(long, fitting);
}

#[test]
fn unknown_characters_are_question_marks() {
    assert_eq!(glyph('?'), [0x02, 0x01, 0x51, 0x09, 0x06]);
    assert_eq!(glyph('\u{e4}'), glyph('?'));
    assert_eq!(glyph('%'), [0x23, 0x13, 0x08, 0x64, 0x62]);
}

#[test]
fn display_is_set_up_either_way_round() {
    let upright = setup_commands(false);
    let turned = setup_commands(true);
    assert_eq!(upright.len(), 26);
    assert_eq!(upright[12..14], [0xa1, 0xc8]);
    assert_eq!(turned[12..14], [0xa0, 0xc0]);
    assert_eq!(upright[..12], turned[..12]);
    assert_eq!(upright[14..], turned[14..]);
    assert_eq!((upright[0], upright[25]), (0xae, 0xaf));
    assert_eq!(enable_commands(true), vec![0xaf]);
    assert_eq!(enable_commands(false), vec![0xae]);
    assert_eq!(
        command_packet(&window_commands()),
        vec![0x00, 0x21, 0, 127, 0x22, 0, 3]
    );
}

#[test]
fn frame_is_sent_in_packets() {
    let mut framebuffer = Framebuffer::default();
    framebuffer.draw_status_lines(&vec!["UP 01:23".to_string(), "LOAD 0.5".to_string()]);
    let packets = frame_packets(&framebuffer);
    assert_eq!(packets.len(), 32);
    assert!(packets.iter().all(|packet| packet.len() == 17 && packet[0] == 0x40));
    let sent: Vec<u8> = packets.iter().flat_map(|packet| packet[1..].to_vec()).collect();
    assert_eq!(sent, framebuffer.bytes);
}

#[test]
fn bus_needs_both_of_its_pins() {
    assert_eq!(oled_bus(&map("")), Ok(None));
    assert_eq!(
        oled_bus(&map("SDA=SDA")),
        Err("OLED requires both SDA and SCL pin-map values".to_string())
    );
    assert_eq!(
        oled_bus(&map("SDA=SDA\nSCL=SCL")),
        Ok(Some("/dev/i2c-1".to_string()))
    );
    assert_eq!(
        oled_bus(&map("SDA=SDA\nSCL=SCL\nOLED_I2C_DEVICE=/dev/i2c-7")),
        Ok(Some("/dev/i2c-7".to_string()))
    );
}

#[test]
fn reset_line_is_on_the_chip_of_the_button_or_the_fan() {
    let line = |chip: &str, line| {
        Ok(Some(ChipLine {
            chip: chip.to_string(),
            line,
        }))
    };
    assert_eq!(request_reset_line(&map("FAN_CHIP=/dev/a")), Ok(None));
    assert_eq!(request_reset_line(&map("OLED_RESET=D23")), Ok(None));
    assert_eq!(
        request_reset_line(&map("OLED_RESET=D23\nFAN_CHIP=/dev/a")),
        line("/dev/a", 23)
    );
    assert_eq!(
        request_reset_line(&map("OLED_RESET=d4\nFAN_CHIP=/dev/a\nBUTTON_CHIP=/dev/b")),
        line("/dev/b", 4)
    );
    assert_eq!(
        request_reset_line(&map("OLED_RESET=PIN4\nFAN_CHIP=/dev/a")),
        Err("cannot parse OLED_RESET line \"PIN4\"".to_string())
    );
    assert_eq!(parse_gpio_line("DGPIO4"), None);
    assert_eq!(parse_gpio_line("GPIO4294967296"), None);
    let pulse: Vec<_> = reset_pulse()
        .iter()
        .map(|hold| (hold.active, hold.hold))
        .collect();
    assert_eq!(
        pulse,
        vec![(false, 10 * MILLISECOND), (true, 10 * MILLISECOND)]
    );
}

#[test]
fn only_pages_that_exist_are_shown() {
    let mut schedule = OledSchedule::new(START, SECOND);
    let mut pages = Vec::new();
    for seconds in 1..=7 {
        match schedule.update(START + seconds * SECOND, seconds % 3 == 0, true, SECOND, None) {
            OledUpdate::Render { page, .. } => pages.push(page),
            other => panic!("{other:?}"),
        }
    }
    assert_eq!(pages, vec![1, 2, 0, 1, 2, 0, 1]);
}
