use seashell::widgets::{
    button_for_profile, click_action, install_plan, profile_for_button, AutoHideState,
    ClickAction, InstallPlan, PowerProfile, ProfileButton,
};

#[test]
fn auto_hide_shows_at_start_then_follows_hover() {
    let mut s = AutoHideState::new();
    assert!(s.update_revealed());
    assert!(s.hovered(false));
    assert!(!s.initial_timeout_ended());
    assert!(s.hovered(true));
    assert!(!s.hovered(false));
}

#[test]
fn auto_hide_hovered_during_start_stays_shown() {
    let mut s = AutoHideState::new();
    assert!(s.hovered(true));
    assert!(s.initial_timeout_ended());
}

#[test]
fn profiles_and_buttons_correspond() {
    assert_eq!(button_for_profile(PowerProfile::PowerSaver), ProfileButton::Saver);
    assert_eq!(button_for_profile(PowerProfile::Balanced), ProfileButton::Balanced);
    assert_eq!(button_for_profile(PowerProfile::Performance), ProfileButton::Performance);
    for b in [ProfileButton::Saver, ProfileButton::Balanced, ProfileButton::Performance] {
        assert_eq!(button_for_profile(profile_for_button(b)), b);
    }
}

#[test]
fn clicks_on_tray_items() {
    assert_eq!(click_action(false, 1), ClickAction::Activate);
    assert_eq!(click_action(true, 1), ClickAction::Popup);
    assert_eq!(click_action(false, 3), ClickAction::Popup);
    assert_eq!(click_action(true, 3), ClickAction::Popup);
    assert_eq!(click_action(false, 2), ClickAction::Ignore);
    assert_eq!(click_action(true, 0), ClickAction::Ignore);
}

#[test]
fn window_follows_monitor() {
    assert_eq!(install_plan(true, true), InstallPlan { remove_old: true, open_new: true });
    assert_eq!(install_plan(true, false), InstallPlan { remove_old: true, open_new: false });
    assert_eq!(install_plan(false, true), InstallPlan { remove_old: false, open_new: true });
    assert_eq!(install_plan(false, false), InstallPlan { remove_old: false, open_new: false });
}
