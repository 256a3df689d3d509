//! The button.

use radxa_penta_top_hat_rs::binary64::Binary64;
use radxa_penta_top_hat_rs::button::{
    button_action, button_times, ButtonAction, ButtonState, ButtonTimes, Gesture,
};
use radxa_penta_top_hat_rs::config::{KeyConfig, TimeConfig};

const MILLISECOND: u128 = 1_000_000;

fn times() -> ButtonTimes {
    button_times(TimeConfig::default())
}

/// The gestures that come of looks at the given milliseconds.
fn gestures(looks: &[(u128, bool)]) -> Vec<(u128, Gesture)> {
    let mut state = ButtonState::Up;
    looks
        .iter()
        .filter_map(|(at, pressed)| {
            state
                .look(*pressed, at * MILLISECOND, times())
                .map(|gesture| (*at, gesture))
        })
        .collect()
}

#[test]
fn times_are_in_nanoseconds() {
    assert_eq!(
        times(),
        ButtonTimes {
            twice: 700 * MILLISECOND,
            press: 1_800 * MILLISECOND,
        }
    );
    let none = TimeConfig {
        twice: Binary64::nan(),
        press: Binary64::from_int(-1),
    };
    assert_eq!(button_times(none), ButtonTimes { twice: 0, press: 0 });
}

#[test]
fn single_click_is_known_after_the_window() {
    assert_eq!(
        gestures(&[(0, false), (20, true), (120, false), (800, false), (820, false), (840, false)]),
        vec![(820, Gesture::Click)]
    );
}

#[test]
fn second_click_in_the_window_makes_two() {
    assert_eq!(
        gestures(&[(0, true), (100, false), (500, true), (600, false), (2_000, false)]),
        vec![(500, Gesture::Twice)]
    );
}

#[test]
fn held_press_is_reported_once() {
    assert_eq!(
        gestures(&[(0, true), (1_799, true), (1_800, true), (5_000, true), (5_100, false), (9_000, false)]),
        vec![(1_800, Gesture::Press)]
    );
}

#[test]
fn late_second_click_is_another_click() {
    assert_eq!(
        gestures(&[(0, true), (100, false), (900, true), (1_000, false), (1_700, false)]),
        vec![(900, Gesture::Click), (1_700, Gesture::Click)]
    );
}

#[test]
fn gestures_have_their_actions() {
    let keys = KeyConfig::default();
    assert_eq!(button_action(&keys, Gesture::Click), ButtonAction::Slide);
    assert_eq!(button_action(&keys, Gesture::Twice), ButtonAction::Switch);
    assert_eq!(button_action(&keys, Gesture::Press), ButtonAction::Nothing);
    let keys = KeyConfig {
        click: "reboot".to_string(),
        twice: "poweroff".to_string(),
        press: "dance".to_string(),
    };
    assert_eq!(button_action(&keys, Gesture::Click), ButtonAction::Reboot);
    assert_eq!(button_action(&keys, Gesture::Twice), ButtonAction::PowerOff);
    assert_eq!(button_action(&keys, Gesture::Press), ButtonAction::Nothing);
}
