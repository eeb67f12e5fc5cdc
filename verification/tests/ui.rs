use game_of_life::timer::AgeTimer;
use game_of_life::timer::IsPaused;
use game_of_life::ui::apply_action;
use game_of_life::ui::button_action;
use game_of_life::ui::pause_button_style;
use game_of_life::ui::ButtonAction;
use game_of_life::ui::ButtonIcon;

#[test]
fn paused_simulation_shows_the_play_icon() {
    let paused = IsPaused(true);
    assert!(pause_button_style(ButtonIcon::Play, &paused));
    assert!(!pause_button_style(ButtonIcon::Pause, &paused));
}

#[test]
fn running_simulation_shows_the_pause_icon() {
    let running = IsPaused(false);
    assert!(!pause_button_style(ButtonIcon::Play, &running));
    assert!(pause_button_style(ButtonIcon::Pause, &running));
}

#[test]
fn minus_slows_down_and_plus_speeds_up() {
    let mut t = AgeTimer::new(100_000_000);
    let mut p = IsPaused(false);
    assert!(!apply_action(ButtonAction::Minus, &mut t, &mut p));
    assert_eq!(t.duration(), 200_000_000);
    assert!(!apply_action(ButtonAction::Plus, &mut t, &mut p));
    assert!(!apply_action(ButtonAction::Plus, &mut t, &mut p));
    assert_eq!(t.duration(), 50_000_000);
    assert!(!p.0);
}

#[test]
fn play_or_pause_flips_the_flag_and_keeps_the_countdown() {
    let mut t = AgeTimer::new(100_000_000);
    t.tick(40_000_000);
    let mut p = IsPaused(false);
    assert!(!apply_action(ButtonAction::PlayOrPouse, &mut t, &mut p));
    assert!(p.0);
    assert_eq!(t.duration(), 100_000_000);
    assert_eq!(t.elapsed(), 40_000_000);
    assert!(!apply_action(ButtonAction::PlayOrPouse, &mut t, &mut p));
    assert!(!p.0);
}

#[test]
fn reset_is_reported_and_leaves_the_controls_alone() {
    let mut t = AgeTimer::new(100_000_000);
    t.tick(40_000_000);
    let mut p = IsPaused(true);
    assert!(apply_action(ButtonAction::Reset, &mut t, &mut p));
    assert!(p.0);
    assert_eq!(t.duration(), 100_000_000);
    assert_eq!(t.elapsed(), 40_000_000);
}

#[test]
fn no_button_pressed_changes_nothing() {
    let mut t = AgeTimer::new(100_000_000);
    t.tick(40_000_000);
    let mut p = IsPaused(false);
    assert!(!button_action(&vec![], &mut t, &mut p));
    assert_eq!(t.duration(), 100_000_000);
    assert_eq!(t.elapsed(), 40_000_000);
    assert!(!p.0);
}

#[test]
fn pressed_buttons_act_in_order() {
    let mut t = AgeTimer::new(100_000_000);
    let mut p = IsPaused(false);
    let pressed = vec![ButtonAction::Plus, ButtonAction::PlayOrPouse, ButtonAction::Plus, ButtonAction::Minus, ButtonAction::Plus];
    assert!(!button_action(&pressed, &mut t, &mut p));
    assert_eq!(t.duration(), 25_000_000);
    assert!(p.0);
}

#[test]
fn order_of_the_buttons_matters_at_the_limits() {
    let mut t = AgeTimer::new(10_000_000);
    let mut p = IsPaused(false);
    assert!(!button_action(&vec![ButtonAction::Plus, ButtonAction::Minus], &mut t, &mut p));
    assert_eq!(t.duration(), 20_000_000);
    let mut t = AgeTimer::new(10_000_000);
    assert!(!button_action(&vec![ButtonAction::Minus, ButtonAction::Plus], &mut t, &mut p));
    assert_eq!(t.duration(), 10_000_000);
}

#[test]
fn actions_after_a_reset_are_dropped() {
    let mut t = AgeTimer::new(100_000_000);
    let mut p = IsPaused(false);
    let pressed = vec![ButtonAction::Minus, ButtonAction::Reset, ButtonAction::PlayOrPouse, ButtonAction::Minus];
    assert!(button_action(&pressed, &mut t, &mut p));
    assert_eq!(t.duration(), 200_000_000);
    assert!(!p.0);
}

#[test]
fn reset_first_changes_no_control() {
    let mut t = AgeTimer::new(100_000_000);
    let mut p = IsPaused(true);
    assert!(button_action(&vec![ButtonAction::Reset, ButtonAction::Plus], &mut t, &mut p));
    assert_eq!(t.duration(), 100_000_000);
    assert!(p.0);
}

#[test]
fn icons_and_actions_compare_by_variant() {
    assert_eq!(ButtonIcon::Play, ButtonIcon::Play);
    assert_ne!(ButtonIcon::Play, ButtonIcon::Pause);
    assert_eq!(ButtonAction::PlayOrPouse, ButtonAction::PlayOrPouse);
    assert_ne!(ButtonAction::Minus, ButtonAction::Plus);
    assert_ne!(ButtonAction::Reset, ButtonAction::Minus);
}
