//! Decisions of the bar's widgets: when the auto-hiding bar is revealed,
//! which button of the power-profile selector shows which profile, what a
//! click on a tray item does, and how the bar's window follows the monitors.

use vstd::prelude::*;

verus! {

/// The state of an auto-hiding container: whether the first moments after
/// start, during which it is shown, are still running, and whether the
/// pointer hovers it.
#[derive(Clone, Copy, Debug)]
pub struct AutoHideState {
    initial_reveal: bool,
    hovered: bool,
}

/// The mathematical value of an [`AutoHideState`].
pub struct AutoHideView {
    pub initial_reveal: bool,
    pub hovered: bool,
}

impl View for AutoHideState {
    type V = AutoHideView;

    closed spec fn view(&self) -> AutoHideView {
        AutoHideView { initial_reveal: self.initial_reveal, hovered: self.hovered }
    }
}

/// Whether the container shows its child.
pub open spec fn revealed(v: AutoHideView) -> bool {
    v.hovered || v.initial_reveal
}

impl AutoHideState {
    /// The state of a container just constructed: shown for a moment, not hovered.
    pub fn new() -> (s: Self)
        ensures
            s@ == (AutoHideView { initial_reveal: true, hovered: false }),
    {
        AutoHideState { initial_reveal: true, hovered: false }
    }

    /// The pointer entered (`true`) or left the container; returns whether
    /// the child is now shown.
    pub fn hovered(&mut self, hovered: bool) -> (shown: bool)
        ensures
            final(self)@ == (AutoHideView { initial_reveal: old(self)@.initial_reveal, hovered }),
            shown == revealed(final(self)@),
    {
        self.hovered = hovered;
        self.update_revealed()
    }

    /// The first moments after start are over; returns whether the child is
    /// now shown.
    pub fn initial_timeout_ended(&mut self) -> (shown: bool)
        ensures
            final(self)@ == (AutoHideView { initial_reveal: false, hovered: old(self)@.hovered }),
            shown == revealed(final(self)@),
    {
        self.initial_reveal = false;
        self.update_revealed()
    }

    /// Whether the child is shown.
    pub fn update_revealed(&self) -> (shown: bool)
        ensures
            shown == revealed(self@),
    {
        self.hovered || self.initial_reveal
    }
}

/// Once the first moments are over, the container is shown exactly while the
/// pointer hovers it, whatever happened before; before that it is always
/// shown.
pub proof fn law_auto_hide_follows_hover(v: AutoHideView, hovered: bool)
    ensures
        revealed(AutoHideView { initial_reveal: false, hovered }) == hovered,
        v.initial_reveal ==> revealed(AutoHideView { initial_reveal: v.initial_reveal, hovered }),
{
}

/// A power profile of the system.
#[derive(Clone, Copy, Debug, PartialEq, Eq, Structural)]
pub enum PowerProfile {
    PowerSaver,
    Balanced,
    Performance,
}

/// A toggle button of the power-profile selector.
#[derive(Clone, Copy, Debug, PartialEq, Eq, Structural)]
pub enum ProfileButton {
    Saver,
    Balanced,
    Performance,
}

/// The button that shows `profile` as active.
pub open spec fn button_of(profile: PowerProfile) -> ProfileButton {
    match profile {
        PowerProfile::PowerSaver => ProfileButton::Saver,
        PowerProfile::Balanced => ProfileButton::Balanced,
        PowerProfile::Performance => ProfileButton::Performance,
    }
}

/// The profile that a click on `button` requests.
pub open spec fn profile_of(button: ProfileButton) -> PowerProfile {
    match button {
        ProfileButton::Saver => PowerProfile::PowerSaver,
        ProfileButton::Balanced => PowerProfile::Balanced,
        ProfileButton::Performance => PowerProfile::Performance,
    }
}

/// The button to activate when the system reports `profile`.
pub fn button_for_profile(profile: PowerProfile) -> (b: ProfileButton)
    ensures
        b == button_of(profile),
{
    match profile {
        PowerProfile::PowerSaver => ProfileButton::Saver,
        PowerProfile::Balanced => ProfileButton::Balanced,
        PowerProfile::Performance => ProfileButton::Performance,
    }
}

/// The profile to request when `button` is clicked.
pub fn profile_for_button(button: ProfileButton) -> (p: PowerProfile)
    ensures
        p == profile_of(button),
{
    match button {
        ProfileButton::Saver => PowerProfile::PowerSaver,
        ProfileButton::Balanced => PowerProfile::Balanced,
        ProfileButton::Performance => PowerProfile::Performance,
    }
}

/// A click on a button requests a profile which, once the system reports
/// it, activates that same button; and the button that shows a profile
/// requests that profile: each profile has its own button.
pub proof fn law_profile_buttons_round_trip(profile: PowerProfile, button: ProfileButton)
    ensures
        button_of(profile_of(button)) == button,
        profile_of(button_of(profile)) == profile,
{
}

/// What a click on a tray item does.
#[derive(Clone, Copy, Debug, PartialEq, Eq, Structural)]
pub enum ClickAction {
    /// Ask the application to activate the item.
    Activate,
    /// Open the item's menu.
    Popup,
    /// Nothing.
    Ignore,
}

/// The effect of a press of mouse `button` (1 primary, 3 secondary) on an
/// item that is only a menu (`is_menu`) or not.
pub fn click_action(is_menu: bool, button: u32) -> (a: ClickAction)
    ensures
        a == if !is_menu && button == 1 {
            ClickAction::Activate
        } else if button == 1 || button == 3 {
            ClickAction::Popup
        } else {
            ClickAction::Ignore
        },
{
    if !is_menu && button == 1 {
        ClickAction::Activate
    } else if button == 1 || button == 3 {
        ClickAction::Popup
    } else {
        ClickAction::Ignore
    }
}

/// What to do with the bar's window when the monitors change.
#[derive(Clone, Copy, Debug, PartialEq, Eq, Structural)]
pub struct InstallPlan {
    /// Remove the window that is shown now.
    pub remove_old: bool,
    /// Open a new window on the main monitor.
    pub open_new: bool,
}

/// The plan when a window is shown (`has_window`) and a main monitor is
/// present (`has_monitor`): the old window always goes, and a new one
/// comes exactly when there is a monitor to show it on.
pub fn install_plan(has_window: bool, has_monitor: bool) -> (plan: InstallPlan)
    ensures
        plan.remove_old == has_window,
        plan.open_new == has_monitor,
{
    InstallPlan { remove_old: has_window, open_new: has_monitor }
}

} // verus!
