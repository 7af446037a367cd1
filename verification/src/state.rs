use vstd::prelude::*;

verus! {

/// Phase of the game.
#[derive(Clone, Copy, Debug, PartialEq, Eq, Structural)]
pub enum GameState {
    Loading,
    Running,
    MainMenu,
    Reload,
    Terminated,
}

/// What the frame loop does about the game phase before it handles an event.
#[derive(Clone, Copy, Debug, PartialEq, Eq, Structural)]
pub enum PhaseCommand {
    /// Nothing to do.
    Continue,
    /// Leave the event loop.
    Exit,
    /// Reload the settings, resize the surface and rebuild the pipelines.
    ReloadSettings,
}

/// Decides what the phase asks of the frame loop and the phase that follows:
/// a terminated game exits, a requested reload is carried out and the game
/// runs again.
pub fn phase_command(state: GameState) -> (r: (PhaseCommand, GameState))
    ensures
        state == GameState::Terminated ==> r == (PhaseCommand::Exit, GameState::Terminated),
        state == GameState::Reload ==> r == (PhaseCommand::ReloadSettings, GameState::Running),
        state != GameState::Terminated && state != GameState::Reload ==> r == (PhaseCommand::Continue, state),
{
    match state {
        GameState::Terminated => (PhaseCommand::Exit, GameState::Terminated),
        GameState::Reload => (PhaseCommand::ReloadSettings, GameState::Running),
        _ => (PhaseCommand::Continue, state),
    }
}

/// State of a key: released, or pressed, with whether it was already held
/// down in an earlier frame.
#[derive(Clone, Copy, Debug, PartialEq, Eq, Structural)]
pub enum KeyState {
    Released,
    Pressed(bool),
}

/// The keys the game reacts to after a keyboard event.
#[derive(Clone, Copy, Debug, PartialEq, Eq, Structural)]
pub struct KeyInput {
    pub escape: bool,
    pub control: bool,
    pub f: KeyState,
    pub a: KeyState,
    pub s: KeyState,
    pub r: KeyState,
}

/// Display options that keyboard shortcuts switch.
#[derive(Clone, Copy, Debug, PartialEq, Eq, Structural)]
pub struct DisplayToggles {
    pub smaa: bool,
    pub sharpen: bool,
}

/// What a keyboard event leads to.
#[derive(Clone, Copy, Debug, PartialEq, Eq, Structural)]
pub struct KeyOutcome {
    /// Rebuild the world (`R` just pressed).
    pub restart_world: bool,
    /// Leave the game (`Escape` down).
    pub exit: bool,
    /// Switch between windowed and borderless fullscreen (`Ctrl+F`).
    pub toggle_fullscreen: bool,
    /// Display options after the event (`Ctrl+A` switches SMAA, `Ctrl+S`
    /// switches sharpening).
    pub toggles: DisplayToggles,
    /// The settings changed and must be written out.
    pub store_settings: bool,
    /// Phase after the event; a changed display option asks for a reload.
    pub state: GameState,
}

/// `key` went down in this frame.
pub open spec fn just_pressed(key: KeyState) -> bool {
    key == KeyState::Pressed(false)
}

/// Whether `key` went down in this frame.
pub fn is_just_pressed(key: KeyState) -> (r: bool)
    ensures
        r == just_pressed(key),
{
    key == KeyState::Pressed(false)
}

/// Decides what a keyboard event does to the game.
pub fn keyboard(input: &KeyInput, toggles: DisplayToggles, state: GameState) -> (out: KeyOutcome)
    ensures
        out.restart_world == just_pressed(input.r),
        out.exit == input.escape,
        out.toggle_fullscreen == (input.control && just_pressed(input.f)),
        out.toggles.smaa == (toggles.smaa != (input.control && just_pressed(input.a))),
        out.toggles.sharpen == (toggles.sharpen != (input.control && just_pressed(input.s))),
        out.store_settings == (input.control && (just_pressed(input.a) || just_pressed(input.s))),
        out.state == if out.store_settings { GameState::Reload } else { state },
{
    let mut out = KeyOutcome {
        restart_world: is_just_pressed(input.r),
        exit: input.escape,
        toggle_fullscreen: false,
        toggles,
        store_settings: false,
        state,
    };
    if input.control && is_just_pressed(input.f) {
        out.toggle_fullscreen = true;
    }
    if input.control && is_just_pressed(input.a) {
        out.toggles.smaa = !out.toggles.smaa;
        out.store_settings = true;
        out.state = GameState::Reload;
    }
    if input.control && is_just_pressed(input.s) {
        out.toggles.sharpen = !out.toggles.sharpen;
        out.store_settings = true;
        out.state = GameState::Reload;
    }
    out
}

/// Pressing a display shortcut twice gives back the options it started with.
pub proof fn lemma_shortcut_twice_restores(input: KeyInput, toggles: DisplayToggles)
    ensures
        ({
            let once = DisplayToggles {
                smaa: toggles.smaa != (input.control && just_pressed(input.a)),
                sharpen: toggles.sharpen != (input.control && just_pressed(input.s)),
            };
            let twice = DisplayToggles {
                smaa: once.smaa != (input.control && just_pressed(input.a)),
                sharpen: once.sharpen != (input.control && just_pressed(input.s)),
            };
            twice == toggles
        }),
{
}

/// Whether a mouse or touch press reaches the game: releases always do,
/// presses only where the interface does not cover the pointer.
pub fn forward_mouse_press(pressed: bool, ui_blocking: bool) -> (r: bool)
    ensures
        r == (!pressed || !ui_blocking),
{
    !pressed || !ui_blocking
}

/// How a failed frame is handled.
#[derive(Clone, Copy, Debug, PartialEq, Eq, Structural)]
pub enum SurfaceProblem {
    Lost,
    OutOfMemory,
    Other,
}

/// The answer to a failed frame.
#[derive(Clone, Copy, Debug, PartialEq, Eq, Structural)]
pub enum RenderRecovery {
    /// Drop the surface; it is made again on the next resize.
    RecreateSurface,
    /// Leave the event loop.
    Exit,
    /// Print the error and go on.
    Report,
}

/// Decides how to go on after a frame could not be drawn.
pub fn render_recovery(problem: SurfaceProblem) -> (r: RenderRecovery)
    ensures
        problem == SurfaceProblem::Lost ==> r == RenderRecovery::RecreateSurface,
        problem == SurfaceProblem::OutOfMemory ==> r == RenderRecovery::Exit,
        problem == SurfaceProblem::Other ==> r == RenderRecovery::Report,
{
    match problem {
        SurfaceProblem::Lost => RenderRecovery::RecreateSurface,
        SurfaceProblem::OutOfMemory => RenderRecovery::Exit,
        SurfaceProblem::Other => RenderRecovery::Report,
    }
}

/// Work of the frame loop once all window events of a frame are handled.
#[derive(Clone, Copy, Debug, PartialEq, Eq, Structural)]
pub struct FramePlan {
    /// Make the game state (window, device, world, interface).
    pub create_state: bool,
    /// Update the world and draw a frame.
    pub update_and_render: bool,
    /// Load the world's resources, set it up and start running.
    pub load_world: bool,
}

/// Plans the end of a frame: an existing game is updated and drawn, and its
/// world loaded if that has not happened; without a game one is made, except
/// on Android, where that waits for the app to be resumed.
pub fn plan_frame(has_state: bool, resources_loaded: bool, on_android: bool) -> (p: FramePlan)
    ensures
        p.update_and_render == has_state,
        p.load_world == (has_state && !resources_loaded),
        p.create_state == (!has_state && !on_android),
{
    if has_state {
        FramePlan { create_state: false, update_and_render: true, load_world: !resources_loaded }
    } else {
        FramePlan { create_state: !on_android, update_and_render: false, load_world: false }
    }
}

/// What resuming the app does.
#[derive(Clone, Copy, Debug, PartialEq, Eq, Structural)]
pub enum ResumeAction {
    /// Size the surface to the window again.
    Resize,
    /// Make the game state.
    CreateState,
}

/// Decides what resuming the app does.
pub fn on_resume(has_state: bool) -> (r: ResumeAction)
    ensures
        r == if has_state { ResumeAction::Resize } else { ResumeAction::CreateState },
{
    if has_state {
        ResumeAction::Resize
    } else {
        ResumeAction::CreateState
    }
}

} // verus!
