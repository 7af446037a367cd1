use dungeon_crawler::state::{
    forward_mouse_press, keyboard, on_resume, phase_command, plan_frame, render_recovery, DisplayToggles, FramePlan,
    GameState, KeyInput, KeyState, PhaseCommand, RenderRecovery, ResumeAction, SurfaceProblem,
};
use dungeon_crawler::ui::{
    is_active_item, menu_button_pressed, settings_button_pressed, transition_step, view_for, MenuButton, MenuItem,
    SettingsButton, TimerAction, TransitionClock, View,
};

fn no_keys() -> KeyInput {
    KeyInput {
        escape: false,
        control: false,
        f: KeyState::Released,
        a: KeyState::Released,
        s: KeyState::Released,
        r: KeyState::Released,
    }
}

#[test]
fn phase_commands() {
    assert_eq!(phase_command(GameState::Terminated), (PhaseCommand::Exit, GameState::Terminated));
    assert_eq!(phase_command(GameState::Reload), (PhaseCommand::ReloadSettings, GameState::Running));
    assert_eq!(phase_command(GameState::MainMenu), (PhaseCommand::Continue, GameState::MainMenu));
    assert_eq!(phase_command(GameState::Loading), (PhaseCommand::Continue, GameState::Loading));
}

#[test]
fn escape_exits() {
    let input = KeyInput { escape: true, ..no_keys() };
    let out = keyboard(&input, DisplayToggles { smaa: true, sharpen: false }, GameState::Running);
    assert!(out.exit);
    assert!(!out.store_settings);
    assert_eq!(out.state, GameState::Running);
}

#[test]
fn ctrl_a_toggles_smaa_and_reloads() {
    let input = KeyInput { control: true, a: KeyState::Pressed(false), ..no_keys() };
    let start = DisplayToggles { smaa: false, sharpen: true };
    let once = keyboard(&input, start, GameState::Running);
    assert_eq!(once.toggles, DisplayToggles { smaa: true, sharpen: true });
    assert!(once.store_settings);
    assert_eq!(once.state, GameState::Reload);
    let twice = keyboard(&input, once.toggles, GameState::Running);
    assert_eq!(twice.toggles, start);
}

#[test]
fn held_or_unmodified_keys_do_nothing() {
    let held = KeyInput { control: true, a: KeyState::Pressed(true), f: KeyState::Pressed(true), ..no_keys() };
    let out = keyboard(&held, DisplayToggles { smaa: false, sharpen: false }, GameState::Running);
    assert!(!out.toggle_fullscreen && !out.store_settings);
    let no_ctrl = KeyInput { s: KeyState::Pressed(false), f: KeyState::Pressed(false), ..no_keys() };
    let out = keyboard(&no_ctrl, DisplayToggles { smaa: false, sharpen: false }, GameState::MainMenu);
    assert!(!out.toggle_fullscreen && !out.store_settings);
    assert_eq!(out.state, GameState::MainMenu);
}

#[test]
fn ctrl_f_and_r() {
    let input = KeyInput { control: true, f: KeyState::Pressed(false), r: KeyState::Pressed(false), ..no_keys() };
    let out = keyboard(&input, DisplayToggles { smaa: false, sharpen: false }, GameState::Running);
    assert!(out.toggle_fullscreen);
    assert!(out.restart_world);
    assert!(!out.store_settings);
}

#[test]
fn ctrl_s_toggles_sharpen() {
    let input = KeyInput { control: true, s: KeyState::Pressed(false), ..no_keys() };
    let out = keyboard(&input, DisplayToggles { smaa: false, sharpen: false }, GameState::MainMenu);
    assert_eq!(out.toggles, DisplayToggles { smaa: false, sharpen: true });
    assert_eq!(out.state, GameState::Reload);
}

#[test]
fn mouse_presses_blocked_by_ui() {
    assert!(!forward_mouse_press(true, true));
    assert!(forward_mouse_press(true, false));
    assert!(forward_mouse_press(false, true));
}

#[test]
fn surface_errors() {
    assert_eq!(render_recovery(SurfaceProblem::Lost), RenderRecovery::RecreateSurface);
    assert_eq!(render_recovery(SurfaceProblem::OutOfMemory), RenderRecovery::Exit);
    assert_eq!(render_recovery(SurfaceProblem::Other), RenderRecovery::Report);
}

#[test]
fn frame_plans() {
    assert_eq!(plan_frame(true, false, false), FramePlan { create_state: false, update_and_render: true, load_world: true });
    assert_eq!(plan_frame(true, true, true), FramePlan { create_state: false, update_and_render: true, load_world: false });
    assert_eq!(plan_frame(false, false, false), FramePlan { create_state: true, update_and_render: false, load_world: false });
    assert_eq!(plan_frame(false, false, true), FramePlan { create_state: false, update_and_render: false, load_world: false });
    assert_eq!(on_resume(true), ResumeAction::Resize);
    assert_eq!(on_resume(false), ResumeAction::CreateState);
}

#[test]
fn menu_buttons() {
    assert_eq!(menu_button_pressed(MenuButton::Settings), (MenuItem::Settings, None));
    assert_eq!(menu_button_pressed(MenuButton::Resume), (MenuItem::NoPage, Some(GameState::Running)));
    assert_eq!(menu_button_pressed(MenuButton::Exit), (MenuItem::NoPage, Some(GameState::Terminated)));
    assert!(is_active_item(MenuItem::Settings, MenuItem::Settings));
    assert!(!is_active_item(MenuItem::NoPage, MenuItem::NoPage));
    assert!(!is_active_item(MenuItem::Settings, MenuItem::NoPage));
}

#[test]
fn settings_buttons() {
    let apply = settings_button_pressed(SettingsButton::Apply);
    assert!(apply.store && !apply.reset_to_defaults);
    assert_eq!(apply.state, Some(GameState::Reload));
    assert_eq!(apply.page, MenuItem::NoPage);
    let cancel = settings_button_pressed(SettingsButton::Cancel);
    assert!(!cancel.store && !cancel.reset_to_defaults);
    assert_eq!(cancel.state, None);
    let reset = settings_button_pressed(SettingsButton::Reset);
    assert!(reset.store && reset.reset_to_defaults);
    assert_eq!(reset.state, Some(GameState::Reload));
}

#[test]
fn views_per_phase() {
    assert_eq!(view_for(GameState::Loading), Some(View::Loading));
    assert_eq!(view_for(GameState::Running), Some(View::InGame));
    assert_eq!(view_for(GameState::MainMenu), Some(View::MainMenu));
    assert_eq!(view_for(GameState::Reload), None);
    assert_eq!(view_for(GameState::Terminated), None);
}

#[test]
fn screen_fade_switches_in_the_middle() {
    let (shown, timer) = transition_step(GameState::MainMenu, GameState::Running, TransitionClock::Idle);
    assert_eq!((shown, timer), (GameState::Running, TimerAction::Start));
    let (shown, timer) = transition_step(GameState::MainMenu, shown, TransitionClock::FirstHalf);
    assert_eq!((shown, timer), (GameState::Running, TimerAction::Keep));
    let (shown, timer) = transition_step(GameState::MainMenu, shown, TransitionClock::SecondHalf);
    assert_eq!((shown, timer), (GameState::MainMenu, TimerAction::Keep));
    let (shown, timer) = transition_step(GameState::MainMenu, shown, TransitionClock::SecondHalf);
    assert_eq!((shown, timer), (GameState::MainMenu, TimerAction::Keep));
    let (shown, timer) = transition_step(GameState::MainMenu, shown, TransitionClock::Over);
    assert_eq!((shown, timer), (GameState::MainMenu, TimerAction::Stop));
    assert_eq!(
        transition_step(GameState::Running, GameState::Running, TransitionClock::Idle),
        (GameState::Running, TimerAction::Keep)
    );
}
