//! What the button is used for.
//!
//! The button is looked at again and again. A look sees whether it is down; from
//! the looks follow a click, two clicks or a long press. Points in time and
//! spans of time are whole numbers of nanoseconds.

use vstd::prelude::*;

use crate::binary64::Binary64;
use crate::config::{KeyConfig, TimeConfig};
use crate::oled::is_wait;
use crate::text::same_str;

verus! {

/// The time between two looks at the button.
pub const BUTTON_POLL_INTERVAL: u128 = 20_000_000;

/// How the button was used.
#[derive(Debug, Clone, Copy, PartialEq, Eq, Structural)]
pub enum Gesture {
    /// A click that no other followed in time.
    Click,
    /// Two clicks, the second in time after the first.
    Twice,
    /// A press that was held.
    Press,
}

/// What a gesture makes the daemon do.
#[derive(Debug, Clone, Copy, PartialEq, Eq, Structural)]
pub enum ButtonAction {
    /// Wake the display, or show the next page.
    Slide,
    /// Switch the fan on or off.
    Switch,
    /// Restart the host.
    Reboot,
    /// Turn the host off.
    PowerOff,
    /// Nothing.
    Nothing,
}

/// The action of a name; a name that is not known stands for none.
pub open spec fn action_named(name: Seq<char>) -> ButtonAction {
    if name == "slider"@ {
        ButtonAction::Slide
    } else if name == "switch"@ {
        ButtonAction::Switch
    } else if name == "reboot"@ {
        ButtonAction::Reboot
    } else if name == "poweroff"@ {
        ButtonAction::PowerOff
    } else {
        ButtonAction::Nothing
    }
}

/// Finds the action for a gesture.
pub fn button_action(keys: &KeyConfig, gesture: Gesture) -> (r: ButtonAction)
    ensures
        r == action_named(
            match gesture {
                Gesture::Click => keys.click@,
                Gesture::Twice => keys.twice@,
                Gesture::Press => keys.press@,
            },
        ),
{
    let name: &str = match gesture {
        Gesture::Click => keys.click.as_str(),
        Gesture::Twice => keys.twice.as_str(),
        Gesture::Press => keys.press.as_str(),
    };
    if same_str(name, "slider") {
        ButtonAction::Slide
    } else if same_str(name, "switch") {
        ButtonAction::Switch
    } else if same_str(name, "reboot") {
        ButtonAction::Reboot
    } else if same_str(name, "poweroff") {
        ButtonAction::PowerOff
    } else {
        ButtonAction::Nothing
    }
}

/// The time within which a second click has to start, and the time for which a
/// long press is held.
#[derive(Debug, Clone, Copy, PartialEq, Eq, Structural)]
pub struct ButtonTimes {
    pub twice: u128,
    pub press: u128,
}

/// A number of seconds in nanoseconds; none where it is no time to wait.
pub open spec fn wait_in(seconds: Binary64) -> int {
    if is_wait(seconds) {
        seconds.nanoseconds() as int
    } else {
        0
    }
}

/// Finds the times of the button.
pub fn button_times(config: TimeConfig) -> (r: ButtonTimes)
    requires
        is_wait(config.twice) ==> config.twice.within_clock(),
        is_wait(config.press) ==> config.press.within_clock(),
    ensures
        r.twice == wait_in(config.twice),
        r.press == wait_in(config.press),
{
    let twice: u128 = match crate::oled::sleep_interval(config.twice) {
        Some(nanos) => nanos,
        None => 0,
    };
    let press: u128 = match crate::oled::sleep_interval(config.press) {
        Some(nanos) => nanos,
        None => 0,
    };
    ButtonTimes { twice, press }
}

/// What is known of the button.
#[derive(Debug, Clone, Copy, PartialEq, Eq, Structural)]
pub enum ButtonState {
    /// It is up, and nothing is open.
    Up,
    /// It has been down since the given time.
    Down { since: u128 },
    /// It was let go at the given time, and may be pressed again.
    Released { at: u128 },
    /// It is down, and its gesture is settled.
    Settled,
}

impl ButtonState {
    /// What is known after a look, and the gesture that the look completes.
    pub open spec fn looked(self, pressed: bool, now: u128, times: ButtonTimes) -> (
        ButtonState,
        Option<Gesture>,
    ) {
        match self {
            ButtonState::Up => if pressed {
                (ButtonState::Down { since: now }, None)
            } else {
                (self, None)
            },
            ButtonState::Down { since } => if now - since >= times.press {
                (
                    if pressed {
                        ButtonState::Settled
                    } else {
                        ButtonState::Up
                    },
                    Some(Gesture::Press),
                )
            } else if pressed {
                (self, None)
            } else {
                (ButtonState::Released { at: now }, None)
            },
            ButtonState::Released { at } => if now - at >= times.twice {
                (
                    if pressed {
                        ButtonState::Down { since: now }
                    } else {
                        ButtonState::Up
                    },
                    Some(Gesture::Click),
                )
            } else if pressed {
                (ButtonState::Settled, Some(Gesture::Twice))
            } else {
                (self, None)
            },
            ButtonState::Settled => if pressed {
                (self, None)
            } else {
                (ButtonState::Up, None)
            },
        }
    }

    /// Takes a look, and gives the gesture that it completes.
    pub fn look(&mut self, pressed: bool, now: u128, times: ButtonTimes) -> (r: Option<Gesture>)
        ensures
            (*final(self), r) == old(self).looked(pressed, now, times),
    {
        match *self {
            ButtonState::Up => {
                if pressed {
                    *self = ButtonState::Down { since: now };
                }
                None
            },
            ButtonState::Down { since } => {
                if now >= since && now - since >= times.press {
                    *self = if pressed {
                        ButtonState::Settled
                    } else {
                        ButtonState::Up
                    };
                    Some(Gesture::Press)
                } else {
                    if !pressed {
                        *self = ButtonState::Released { at: now };
                    }
                    None
                }
            },
            ButtonState::Released { at } => {
                if now >= at && now - at >= times.twice {
                    *self = if pressed {
                        ButtonState::Down { since: now }
                    } else {
                        ButtonState::Up
                    };
                    Some(Gesture::Click)
                } else if pressed {
                    *self = ButtonState::Settled;
                    Some(Gesture::Twice)
                } else {
                    None
                }
            },
            ButtonState::Settled => {
                if !pressed {
                    *self = ButtonState::Up;
                }
                None
            },
        }
    }
}

/// A press that is held for the set time is a long press, and one gesture only.
pub proof fn held_press_is_one_gesture(since: u128, now: u128, later: u128, times: ButtonTimes)
    requires
        now - since >= times.press,
    ensures
        ({
            let (held, gesture) = (ButtonState::Down { since }).looked(true, now, times);
            &&& gesture == Some(Gesture::Press)
            &&& held.looked(true, later, times) == (held, None::<Gesture>)
            &&& held.looked(false, later, times) == (ButtonState::Up, None::<Gesture>)
        }),
{
}

/// A click that no other follows within the set time is a click, and one that
/// another follows within it makes two clicks together.
pub proof fn clicks_are_counted(at: u128, now: u128, times: ButtonTimes)
    ensures
        now - at >= times.twice ==> (ButtonState::Released { at }).looked(false, now, times) == (
            ButtonState::Up,
            Some(Gesture::Click),
        ),
        now - at < times.twice ==> (ButtonState::Released { at }).looked(true, now, times) == (
            ButtonState::Settled,
            Some(Gesture::Twice),
        ),
{
}

/// A button that is not touched does nothing.
pub proof fn untouched_button_does_nothing(now: u128, times: ButtonTimes)
    ensures
        ButtonState::Up.looked(false, now, times) == (ButtonState::Up, None::<Gesture>),
{
}

/// The button from one touch to the next, where it starts up and is pressed at
/// `down` and let go at `up` before the time of a long press is over: it is a
/// click once the time for a second one has passed, and two clicks, at once, where
/// it is pressed again before that. Until then it is nothing yet.
pub proof fn short_presses_are_clicks(
    down: u128,
    up: u128,
    between: u128,
    later: u128,
    times: ButtonTimes,
)
    requires
        down <= up,
        up - down < times.press,
        up <= between <= later,
        between - up < times.twice,
    ensures
        ({
            let (first, none) = ButtonState::Up.looked(true, down, times);
            let (released, still) = first.looked(false, up, times);
            let (waiting, silent) = released.looked(false, between, times);
            &&& none is None && still is None && silent is None
            &&& later - up >= times.twice ==> waiting.looked(false, later, times) == (
                ButtonState::Up,
                Some(Gesture::Click),
            )
            &&& later - up < times.twice ==> waiting.looked(true, later, times).1 == Some(
                Gesture::Twice,
            )
            &&& later - up >= times.twice ==> {
                let (again, click) = waiting.looked(true, later, times);
                &&& click == Some(Gesture::Click)
                &&& again == ButtonState::Up.looked(true, later, times).0
            }
        }),
{
}

/// A button that stays down is a long press as soon as it was held for the set
/// time, and nothing before; the time counts from when it went down.
pub proof fn held_button_is_a_long_press(down: u128, between: u128, now: u128, times: ButtonTimes)
    requires
        down <= between <= now,
        between - down < times.press,
    ensures
        ({
            let (first, none) = ButtonState::Up.looked(true, down, times);
            let (held, still) = first.looked(true, between, times);
            &&& none is None && still is None
            &&& held.looked(true, now, times).1 == if now - down >= times.press {
                Some(Gesture::Press)
            } else {
                None
            }
            &&& now - down >= times.press ==> held.looked(false, now, times) == (
                ButtonState::Up,
                Some(Gesture::Press),
            )
        }),
{
}

/// After two clicks and after a long press nothing more comes of holding the
/// button, and letting it go makes it ready again.
pub proof fn gestures_end_with_the_release(
    state: ButtonState,
    now: u128,
    later: u128,
    end: u128,
    times: ButtonTimes,
)
    requires
        state.looked(true, now, times).1 == Some(Gesture::Twice) || state.looked(true, now, times).1
            == Some(Gesture::Press),
    ensures
        ({
            let after = state.looked(true, now, times).0;
            &&& after.looked(true, later, times) == (after, None::<Gesture>)
            &&& after.looked(true, later, times).0.looked(false, end, times) == (
                ButtonState::Up,
                None::<Gesture>,
            )
        }),
{
}

/// The names of the actions; every other name stands for none.
pub proof fn actions_have_names(name: Seq<char>)
    ensures
        name == seq!['s', 'l', 'i', 'd', 'e', 'r'] <==> action_named(name) == ButtonAction::Slide,
        name == seq!['s', 'w', 'i', 't', 'c', 'h'] <==> action_named(name) == ButtonAction::Switch,
        name == seq!['r', 'e', 'b', 'o', 'o', 't'] <==> action_named(name) == ButtonAction::Reboot,
        name == seq!['p', 'o', 'w', 'e', 'r', 'o', 'f', 'f'] <==> action_named(name)
            == ButtonAction::PowerOff,
{
    reveal_strlit("slider");
    reveal_strlit("switch");
    reveal_strlit("reboot");
    reveal_strlit("poweroff");
    assert("slider"@ =~= seq!['s', 'l', 'i', 'd', 'e', 'r']);
    assert("switch"@ =~= seq!['s', 'w', 'i', 't', 'c', 'h']);
    assert("reboot"@ =~= seq!['r', 'e', 'b', 'o', 'o', 't']);
    assert("poweroff"@ =~= seq!['p', 'o', 'w', 'e', 'r', 'o', 'f', 'f']);
    assert("slider"@[0] == 's' && "switch"@[0] == 's' && "slider"@[1] == 'l' && "switch"@[1] == 'w'
        && "reboot"@[0] == 'r' && "poweroff"@[0] == 'p');
}

/// The times of the button are the set seconds, to within half a nanosecond; what
/// is no time to wait is none.
pub proof fn times_are_the_set_seconds(seconds: Binary64)
    ensures
        seconds.is_finite() && seconds.value() > 0 ==> {
            &&& 2 * wait_in(seconds) * crate::binary64::one() <= 2 * (seconds.value()
                * 1_000_000_000) + crate::binary64::one()
            &&& 2 * wait_in(seconds) * crate::binary64::one() >= 2 * (seconds.value()
                * 1_000_000_000) - crate::binary64::one()
        },
        !seconds.is_finite() || seconds.value() <= 0 ==> wait_in(seconds) == 0,
{
    crate::binary64::nanoseconds_are_nearest(seconds);
}

} // verus!
