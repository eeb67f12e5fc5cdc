//! The control surface: what each button does to the countdown and the
//! pause flag, and which icon the pause button shows.

use crate::timer::normalized;
use crate::timer::restarted;
use crate::timer::slow_age_speed;
use crate::timer::speed_up_age_speed;
use crate::timer::toggle_pause;
use crate::timer::AgeTimer;
use crate::timer::Countdown;
use crate::timer::IsPaused;
use vstd::prelude::*;

verus! {

/// The two icons of the pause button.
#[derive(Clone, Copy, Debug, PartialEq, Eq, Structural)]
pub enum ButtonIcon {
    Play,
    Pause,
}

/// What a button asks for.
#[derive(Clone, Copy, Debug, PartialEq, Eq, Structural)]
pub enum ButtonAction {
    Minus,
    Plus,
    PlayOrPouse,
    Reset,
}

/// Whether an icon is shown: the play icon while the simulation is paused,
/// the pause icon while it runs.
pub open spec fn icon_shown(icon: ButtonIcon, paused: bool) -> bool {
    match icon {
        ButtonIcon::Play => paused,
        ButtonIcon::Pause => !paused,
    }
}

/// Says whether the pause button shows `icon`.
pub fn pause_button_style(icon: ButtonIcon, is_paused: &IsPaused) -> (shown: bool)
    ensures
        shown == icon_shown(icon, is_paused.0),
{
    if is_paused.0 {
        match icon {
            ButtonIcon::Play => true,
            ButtonIcon::Pause => false,
        }
    } else {
        match icon {
            ButtonIcon::Play => false,
            ButtonIcon::Pause => true,
        }
    }
}

/// What the buttons control: the countdown and the pause flag.
pub struct Controls {
    pub countdown: Countdown,
    pub paused: bool,
}

/// The controls after one action. `Minus` doubles the period and `Plus`
/// halves it, within the limits, and either starts the countdown afresh;
/// `PlayOrPouse` flips the pause flag; `Reset` leaves the controls alone.
pub open spec fn acted(action: ButtonAction, c: Controls) -> Controls {
    match action {
        ButtonAction::Minus => Controls {
            countdown: restarted(normalized(c.countdown.period * 2)),
            paused: c.paused,
        },
        ButtonAction::Plus => Controls {
            countdown: restarted(normalized(c.countdown.period / 2)),
            paused: c.paused,
        },
        ButtonAction::PlayOrPouse => Controls { countdown: c.countdown, paused: !c.paused },
        ButtonAction::Reset => c,
    }
}

/// The controls after the first `upto` actions.
pub open spec fn acted_all(actions: Seq<ButtonAction>, upto: int, c: Controls) -> Controls
    decreases upto,
{
    if upto <= 0 {
        c
    } else {
        acted(actions[upto - 1], acted_all(actions, upto - 1, c))
    }
}

/// The place of the first `Reset` at or after `from`, or the number of
/// actions if there is none.
pub open spec fn first_reset(actions: Seq<ButtonAction>, from: int) -> int
    decreases actions.len() - from,
{
    if from >= actions.len() || actions[from] == ButtonAction::Reset {
        from
    } else {
        first_reset(actions, from + 1)
    }
}

/// Applies one action to the controls, and says whether a reset of the
/// lattice was asked for.
pub fn apply_action(action: ButtonAction, timer: &mut AgeTimer, is_paused: &mut IsPaused) -> (reset:
    bool)
    ensures
        old(timer).wf() ==> final(timer).wf(),
        (Controls { countdown: final(timer)@, paused: final(is_paused).0 }) == acted(
            action,
            Controls { countdown: old(timer)@, paused: old(is_paused).0 },
        ),
        reset == (action == ButtonAction::Reset),
{
    match action {
        ButtonAction::Minus => {
            slow_age_speed(timer);
            false
        },
        ButtonAction::Plus => {
            speed_up_age_speed(timer);
            false
        },
        ButtonAction::PlayOrPouse => {
            toggle_pause(is_paused);
            false
        },
        ButtonAction::Reset => true,
    }
}

/// Applies the actions of the pressed buttons in order, up to the first
/// `Reset`, and says whether there was one: the caller then resets the
/// lattice, and the actions after it are dropped.
pub fn button_action(pressed: &Vec<ButtonAction>, timer: &mut AgeTimer, is_paused: &mut IsPaused) -> (reset:
    bool)
    ensures
        old(timer).wf() ==> final(timer).wf(),
        (Controls { countdown: final(timer)@, paused: final(is_paused).0 }) == acted_all(
            pressed@,
            first_reset(pressed@, 0),
            Controls { countdown: old(timer)@, paused: old(is_paused).0 },
        ),
        reset == (first_reset(pressed@, 0) < pressed@.len()),
{
    let ghost start = Controls { countdown: timer@, paused: is_paused.0 };
    let mut i: usize = 0;
    while i < pressed.len()
        invariant
            0 <= i <= pressed.len(),
            old(timer).wf() ==> timer.wf(),
            start == (Controls { countdown: old(timer)@, paused: old(is_paused).0 }),
            first_reset(pressed@, 0) == first_reset(pressed@, i as int),
            (Controls { countdown: timer@, paused: is_paused.0 }) == acted_all(
                pressed@,
                i as int,
                start,
            ),
        decreases pressed.len() - i,
    {
        let ghost before = Controls { countdown: timer@, paused: is_paused.0 };
        if apply_action(pressed[i], timer, is_paused) {
            assert(first_reset(pressed@, i as int) == i);
            return true;
        }
        assert(first_reset(pressed@, i as int) == first_reset(pressed@, i + 1));
        assert(acted_all(pressed@, i + 1, start) == acted(pressed@[i as int], before));
        i += 1;
    }
    false
}

} // verus!
