use crate::state::GameState;
use vstd::prelude::*;

pub mod utils;

verus! {

/// Page shown beside the main menu.
#[derive(Clone, Copy, Debug, PartialEq, Eq, Structural)]
pub enum MenuItem {
    NoPage,
    Settings,
}

/// Buttons of the main menu.
#[derive(Clone, Copy, Debug, PartialEq, Eq, Structural)]
pub enum MenuButton {
    Settings,
    Resume,
    Exit,
}

/// What a main-menu button selects: the page to show, and the phase the game
/// moves to, if it moves.
pub fn menu_button_pressed(button: MenuButton) -> (r: (MenuItem, Option<GameState>))
    ensures
        button == MenuButton::Settings ==> r == (MenuItem::Settings, Option::<GameState>::None),
        button == MenuButton::Resume ==> r == (MenuItem::NoPage, Some(GameState::Running)),
        button == MenuButton::Exit ==> r == (MenuItem::NoPage, Some(GameState::Terminated)),
{
    match button {
        MenuButton::Settings => (MenuItem::Settings, None),
        MenuButton::Resume => (MenuItem::NoPage, Some(GameState::Running)),
        MenuButton::Exit => (MenuItem::NoPage, Some(GameState::Terminated)),
    }
}

/// Whether a menu button is drawn as the active one: it opens the page that
/// is shown, and that page is a real one.
pub fn is_active_item(item: MenuItem, shown: MenuItem) -> (r: bool)
    ensures
        r == (item == shown && item != MenuItem::NoPage),
{
    item == shown && item != MenuItem::NoPage
}

/// Buttons of the settings page.
#[derive(Clone, Copy, Debug, PartialEq, Eq, Structural)]
pub enum SettingsButton {
    Apply,
    Cancel,
    Reset,
}

/// What a settings-page button does.
#[derive(Clone, Copy, Debug, PartialEq, Eq, Structural)]
pub struct SettingsOutcome {
    /// Replace the edited settings with the defaults.
    pub reset_to_defaults: bool,
    /// Write the edited settings out.
    pub store: bool,
    /// Phase the game moves to, if it moves.
    pub state: Option<GameState>,
    /// Page shown afterwards.
    pub page: MenuItem,
}

/// Decides what a settings-page button does: applying stores the settings and
/// reloads, resetting does the same with the defaults, cancelling only closes
/// the page. Every button closes the page.
pub fn settings_button_pressed(button: SettingsButton) -> (r: SettingsOutcome)
    ensures
        r.page == MenuItem::NoPage,
        r.reset_to_defaults == (button == SettingsButton::Reset),
        r.store == (button != SettingsButton::Cancel),
        r.state == if button == SettingsButton::Cancel { Option::<GameState>::None } else { Some(GameState::Reload) },
{
    match button {
        SettingsButton::Apply => SettingsOutcome {
            reset_to_defaults: false,
            store: true,
            state: Some(GameState::Reload),
            page: MenuItem::NoPage,
        },
        SettingsButton::Cancel => SettingsOutcome {
            reset_to_defaults: false,
            store: false,
            state: None,
            page: MenuItem::NoPage,
        },
        SettingsButton::Reset => SettingsOutcome {
            reset_to_defaults: true,
            store: true,
            state: Some(GameState::Reload),
            page: MenuItem::NoPage,
        },
    }
}

/// Screens of the interface.
#[derive(Clone, Copy, Debug, PartialEq, Eq, Structural)]
pub enum View {
    Loading,
    InGame,
    MainMenu,
}

/// Screen drawn for a phase; phases in between show nothing.
pub fn view_for(state: GameState) -> (r: Option<View>)
    ensures
        state == GameState::Loading ==> r == Some(View::Loading),
        state == GameState::Running ==> r == Some(View::InGame),
        state == GameState::MainMenu ==> r == Some(View::MainMenu),
        state == GameState::Reload || state == GameState::Terminated ==> r == Option::<View>::None,
{
    match state {
        GameState::Loading => Some(View::Loading),
        GameState::Running => Some(View::InGame),
        GameState::MainMenu => Some(View::MainMenu),
        _ => None,
    }
}

/// How far a screen change has run, measured against the transition length.
#[derive(Clone, Copy, Debug, PartialEq, Eq, Structural)]
pub enum TransitionClock {
    /// No change is running.
    Idle,
    /// Less than half of the transition has passed.
    FirstHalf,
    /// More than half, but not all of it.
    SecondHalf,
    /// The whole transition has passed.
    Over,
}

/// What happens to the transition timer.
#[derive(Clone, Copy, Debug, PartialEq, Eq, Structural)]
pub enum TimerAction {
    Start,
    Stop,
    Keep,
}

/// One frame of the fade between screens: when the game's phase differs from
/// the one shown, a fade starts, and the new screen is shown from the middle
/// of the fade on; once phase and screen agree, a finished fade is cleared.
pub fn transition_step(phase: GameState, shown: GameState, clock: TransitionClock) -> (r: (GameState, TimerAction))
    ensures
        phase != shown && clock == TransitionClock::Idle ==> r == (shown, TimerAction::Start),
        phase != shown && clock == TransitionClock::FirstHalf ==> r == (shown, TimerAction::Keep),
        phase != shown && (clock == TransitionClock::SecondHalf || clock == TransitionClock::Over)
            ==> r == (phase, TimerAction::Keep),
        phase == shown && clock == TransitionClock::Over ==> r == (shown, TimerAction::Stop),
        phase == shown && clock != TransitionClock::Over ==> r == (shown, TimerAction::Keep),
{
    if phase != shown {
        match clock {
            TransitionClock::Idle => (shown, TimerAction::Start),
            TransitionClock::FirstHalf => (shown, TimerAction::Keep),
            _ => (phase, TimerAction::Keep),
        }
    } else {
        match clock {
            TransitionClock::Over => (shown, TimerAction::Stop),
            _ => (shown, TimerAction::Keep),
        }
    }
}

} // verus!
