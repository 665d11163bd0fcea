//! Keyboard shortcuts: which command a frame's key state asks for.
use vstd::prelude::*;

verus! {

/// How two panes navigate: together, or each one when selected.
#[derive(PartialEq, Eq, Structural, Clone, Copy, Debug)]
pub enum DualPaneMode {
    Synced,
    Independent,
}

/// The keys of one frame. `*_pressed` are press (or key repeat) events,
/// `*_held` tell whether the key is down.
#[derive(PartialEq, Eq, Structural, Clone, Copy, Debug)]
pub struct KeyInput {
    /// Home.
    pub home: bool,
    /// End.
    pub end: bool,
    /// Shift is down (skate mode: navigate every frame while a key is held).
    pub shift: bool,
    /// Right arrow or D pressed.
    pub nav_right_pressed: bool,
    /// Left arrow or A pressed.
    pub nav_left_pressed: bool,
    /// Right arrow or D down.
    pub nav_right_held: bool,
    /// Left arrow or A down.
    pub nav_left_held: bool,
    /// Ctrl/Cmd+1.
    pub set_single: bool,
    /// Ctrl/Cmd+2.
    pub set_dual: bool,
    /// Ctrl/Cmd+3.
    pub set_independent: bool,
    /// 1 without Ctrl/Cmd.
    pub select_pane1: bool,
    /// 2 without Ctrl/Cmd.
    pub select_pane2: bool,
    /// Tab.
    pub toggle_footer: bool,
    /// Ctrl/Cmd+Shift+O.
    pub open_folder: bool,
    /// Ctrl/Cmd+O.
    pub open_file: bool,
    /// Ctrl/Cmd+W.
    pub close: bool,
    /// Ctrl/Cmd+Q.
    pub quit: bool,
    /// F11.
    pub toggle_fullscreen: bool,
    /// Escape.
    pub escape: bool,
}

/// The command a frame's keys ask for.
#[derive(PartialEq, Eq, Structural, Clone, Copy, Debug)]
pub enum KeyCommand {
    Nothing,
    Quit,
    ToggleFullscreen,
    OpenFolder,
    OpenFile,
    Close,
    ToggleFooter,
    /// Flip the selection of the pane with this index.
    TogglePaneSelection(usize),
    SetSinglePane,
    SetDualPane(DualPaneMode),
    JumpFirst,
    JumpLast,
    NavigateForward,
    NavigateBackward,
}

/// The command for keys `k`, by priority: quit, fullscreen (F11, or
/// Escape while fullscreen), open folder, open file, close, footer toggle,
/// pane selection (two independent panes only), single pane (with two
/// panes), dual pane synced, dual pane independent, Home, End, then
/// navigation right and left (held keys in skate mode, presses otherwise).
pub open spec fn key_command_spec(k: KeyInput, is_fullscreen: bool, num_panes: nat, mode: DualPaneMode) -> KeyCommand {
    let independent_pair = num_panes >= 2 && mode == DualPaneMode::Independent;
    let nav_right = if k.shift { k.nav_right_held } else { k.nav_right_pressed };
    let nav_left = if k.shift { k.nav_left_held } else { k.nav_left_pressed };
    if k.quit {
        KeyCommand::Quit
    } else if k.toggle_fullscreen || (k.escape && is_fullscreen) {
        KeyCommand::ToggleFullscreen
    } else if k.open_folder {
        KeyCommand::OpenFolder
    } else if k.open_file {
        KeyCommand::OpenFile
    } else if k.close {
        KeyCommand::Close
    } else if k.toggle_footer {
        KeyCommand::ToggleFooter
    } else if independent_pair && k.select_pane1 {
        KeyCommand::TogglePaneSelection(0)
    } else if independent_pair && k.select_pane2 {
        KeyCommand::TogglePaneSelection(1)
    } else if k.set_single && num_panes >= 2 {
        KeyCommand::SetSinglePane
    } else if k.set_dual {
        KeyCommand::SetDualPane(DualPaneMode::Synced)
    } else if k.set_independent {
        KeyCommand::SetDualPane(DualPaneMode::Independent)
    } else if k.home {
        KeyCommand::JumpFirst
    } else if k.end {
        KeyCommand::JumpLast
    } else if nav_right {
        KeyCommand::NavigateForward
    } else if nav_left {
        KeyCommand::NavigateBackward
    } else {
        KeyCommand::Nothing
    }
}

/// Decides which command the keys of this frame ask for.
pub fn key_command(k: &KeyInput, is_fullscreen: bool, num_panes: usize, mode: DualPaneMode) -> (c: KeyCommand)
    ensures
        c == key_command_spec(*k, is_fullscreen, num_panes as nat, mode),
        only_navigation_keys(*k, is_fullscreen, num_panes as nat, mode) && k.shift && k.nav_left_held
            && !k.nav_right_held ==> c == KeyCommand::NavigateBackward,
        only_navigation_keys(*k, is_fullscreen, num_panes as nat, mode) && k.shift && k.nav_right_held
            ==> c == KeyCommand::NavigateForward,
{
    if k.quit {
        return KeyCommand::Quit;
    }
    if k.toggle_fullscreen {
        return KeyCommand::ToggleFullscreen;
    }
    if k.escape && is_fullscreen {
        return KeyCommand::ToggleFullscreen;
    }
    if k.open_folder {
        return KeyCommand::OpenFolder;
    }
    if k.open_file {
        return KeyCommand::OpenFile;
    }
    if k.close {
        return KeyCommand::Close;
    }
    if k.toggle_footer {
        return KeyCommand::ToggleFooter;
    }
    if num_panes >= 2 && mode == DualPaneMode::Independent {
        if k.select_pane1 {
            return KeyCommand::TogglePaneSelection(0);
        }
        if k.select_pane2 {
            return KeyCommand::TogglePaneSelection(1);
        }
    }
    let nav_right = if k.shift {
        k.nav_right_held
    } else {
        k.nav_right_pressed
    };
    let nav_left = if k.shift {
        k.nav_left_held
    } else {
        k.nav_left_pressed
    };
    if k.set_single && num_panes >= 2 {
        return KeyCommand::SetSinglePane;
    }
    if k.set_dual {
        return KeyCommand::SetDualPane(DualPaneMode::Synced);
    }
    if k.set_independent {
        return KeyCommand::SetDualPane(DualPaneMode::Independent);
    }
    if k.home {
        KeyCommand::JumpFirst
    } else if k.end {
        KeyCommand::JumpLast
    } else if nav_right {
        KeyCommand::NavigateForward
    } else if nav_left {
        KeyCommand::NavigateBackward
    } else {
        KeyCommand::Nothing
    }
}

/// The state of the window that the keys change.
#[derive(PartialEq, Eq, Structural, Clone, Copy, Debug)]
pub struct ViewState {
    pub is_fullscreen: bool,
    pub num_panes: usize,
    pub mode: DualPaneMode,
    pub show_footer: bool,
}

/// What the caller does after a key step, besides taking on the new state.
#[derive(PartialEq, Eq, Structural, Clone, Copy, Debug)]
pub enum KeyAction {
    Nothing,
    /// Close the window.
    Quit,
    /// Enter (`true`) or leave fullscreen.
    SetFullscreen(bool),
    OpenFolder,
    OpenFile,
    /// Close the images of every pane.
    Close,
    /// Save the settings (the footer was toggled).
    SaveSettings,
    /// Flip the selection of the pane with this index.
    TogglePaneSelection(usize),
    /// Keep the first pane only.
    KeepFirstPane,
    /// Add a second pane when there is only one.
    EnsureTwoPanes,
    /// Jump the active panes to their first image.
    JumpFirst,
    /// Jump the active panes to their last image.
    JumpLast,
    NavigateForward,
    NavigateBackward,
}

/// The state and action that keys `k` lead to from state `s` (see
/// `key_command_spec` for which command they ask for): quitting changes
/// nothing; fullscreen flips; the footer flips and the settings are saved;
/// a single pane keeps the first pane; a dual pane mode sets the mode and
/// makes sure there are two panes; other commands leave the state as it
/// is.
pub open spec fn key_step_spec(s: ViewState, k: KeyInput) -> (ViewState, KeyAction) {
    match key_command_spec(k, s.is_fullscreen, s.num_panes as nat, s.mode) {
        KeyCommand::Nothing => (s, KeyAction::Nothing),
        KeyCommand::Quit => (s, KeyAction::Quit),
        KeyCommand::ToggleFullscreen => (
            ViewState { is_fullscreen: !s.is_fullscreen, ..s },
            KeyAction::SetFullscreen(!s.is_fullscreen),
        ),
        KeyCommand::OpenFolder => (s, KeyAction::OpenFolder),
        KeyCommand::OpenFile => (s, KeyAction::OpenFile),
        KeyCommand::Close => (s, KeyAction::Close),
        KeyCommand::ToggleFooter => (ViewState { show_footer: !s.show_footer, ..s }, KeyAction::SaveSettings),
        KeyCommand::TogglePaneSelection(i) => (s, KeyAction::TogglePaneSelection(i)),
        KeyCommand::SetSinglePane => (ViewState { num_panes: 1, ..s }, KeyAction::KeepFirstPane),
        KeyCommand::SetDualPane(m) => (
            ViewState { num_panes: if s.num_panes >= 2 { s.num_panes } else { 2 }, mode: m, ..s },
            KeyAction::EnsureTwoPanes,
        ),
        KeyCommand::JumpFirst => (s, KeyAction::JumpFirst),
        KeyCommand::JumpLast => (s, KeyAction::JumpLast),
        KeyCommand::NavigateForward => (s, KeyAction::NavigateForward),
        KeyCommand::NavigateBackward => (s, KeyAction::NavigateBackward),
    }
}

/// One frame of keyboard handling: the next state and the action for the
/// caller. F11 flips fullscreen, Escape leaves it, Ctrl+1 leaves one pane
/// (when there are two), Ctrl+2 and Ctrl+3 make sure there are two panes in
/// the chosen mode, Tab flips the footer.
pub fn key_step(s: ViewState, k: &KeyInput) -> (r: (ViewState, KeyAction))
    ensures
        r == key_step_spec(s, *k),
        k.quit ==> r == (s, KeyAction::Quit),
        !k.quit && k.toggle_fullscreen ==> r.0.is_fullscreen == !s.is_fullscreen && r.1 == KeyAction::SetFullscreen(
            r.0.is_fullscreen,
        ),
        !k.quit && !k.toggle_fullscreen && k.escape && s.is_fullscreen ==> !r.0.is_fullscreen && r.1
            == KeyAction::SetFullscreen(false),
        !(k.quit || k.toggle_fullscreen) ==> (r.0.is_fullscreen == s.is_fullscreen || k.escape
            && s.is_fullscreen),
        r.0.num_panes == s.num_panes || r.1 == KeyAction::KeepFirstPane && r.0.num_panes == 1 || r.1
            == KeyAction::EnsureTwoPanes && r.0.num_panes >= 2,
{
    let c = key_command(k, s.is_fullscreen, s.num_panes, s.mode);
    match c {
        KeyCommand::Nothing => (s, KeyAction::Nothing),
        KeyCommand::Quit => (s, KeyAction::Quit),
        KeyCommand::ToggleFullscreen => (
            ViewState { is_fullscreen: !s.is_fullscreen, ..s },
            KeyAction::SetFullscreen(!s.is_fullscreen),
        ),
        KeyCommand::OpenFolder => (s, KeyAction::OpenFolder),
        KeyCommand::OpenFile => (s, KeyAction::OpenFile),
        KeyCommand::Close => (s, KeyAction::Close),
        KeyCommand::ToggleFooter => (ViewState { show_footer: !s.show_footer, ..s }, KeyAction::SaveSettings),
        KeyCommand::TogglePaneSelection(i) => (s, KeyAction::TogglePaneSelection(i)),
        KeyCommand::SetSinglePane => (ViewState { num_panes: 1, ..s }, KeyAction::KeepFirstPane),
        KeyCommand::SetDualPane(m) => (
            ViewState { num_panes: if s.num_panes >= 2 { s.num_panes } else { 2 }, mode: m, ..s },
            KeyAction::EnsureTwoPanes,
        ),
        KeyCommand::JumpFirst => (s, KeyAction::JumpFirst),
        KeyCommand::JumpLast => (s, KeyAction::JumpLast),
        KeyCommand::NavigateForward => (s, KeyAction::NavigateForward),
        KeyCommand::NavigateBackward => (s, KeyAction::NavigateBackward),
    }
}

/// No key of higher priority than navigation is in `k`: no quit, fullscreen,
/// open, close, footer, pane selection (with two independent panes), pane
/// layout, Home or End.
pub open spec fn only_navigation_keys(k: KeyInput, is_fullscreen: bool, num_panes: nat, mode: DualPaneMode) -> bool {
    &&& !k.quit
    &&& !k.toggle_fullscreen
    &&& !(k.escape && is_fullscreen)
    &&& !k.open_folder
    &&& !k.open_file
    &&& !k.close
    &&& !k.toggle_footer
    &&& !(num_panes >= 2 && mode == DualPaneMode::Independent && (k.select_pane1 || k.select_pane2))
    &&& !(k.set_single && num_panes >= 2)
    &&& !k.set_dual
    &&& !k.set_independent
    &&& !k.home
    &&& !k.end
}

/// Navigation keys: with Shift down (skate mode) a held right key moves
/// forward and a held left key, without the right one, moves backward,
/// every frame; without Shift the same holds of key presses. Right wins
/// over left, and with neither nothing happens. Skate mode is symmetric:
/// the held left key steps back exactly as the held right key steps on.
pub proof fn law_navigation_keys(k: KeyInput, is_fullscreen: bool, num_panes: nat, mode: DualPaneMode)
    requires
        only_navigation_keys(k, is_fullscreen, num_panes, mode),
    ensures
        k.shift && k.nav_right_held ==> key_command_spec(k, is_fullscreen, num_panes, mode)
            == KeyCommand::NavigateForward,
        k.shift && k.nav_left_held && !k.nav_right_held ==> key_command_spec(k, is_fullscreen, num_panes, mode)
            == KeyCommand::NavigateBackward,
        k.shift && !k.nav_left_held && !k.nav_right_held ==> key_command_spec(k, is_fullscreen, num_panes, mode)
            == KeyCommand::Nothing,
        !k.shift && k.nav_right_pressed ==> key_command_spec(k, is_fullscreen, num_panes, mode)
            == KeyCommand::NavigateForward,
        !k.shift && k.nav_left_pressed && !k.nav_right_pressed ==> key_command_spec(
            k,
            is_fullscreen,
            num_panes,
            mode,
        ) == KeyCommand::NavigateBackward,
        !k.shift && !k.nav_left_pressed && !k.nav_right_pressed ==> key_command_spec(
            k,
            is_fullscreen,
            num_panes,
            mode,
        ) == KeyCommand::Nothing,
{
}

/// The command does not depend on which way a navigation key points other
/// than by its direction: swapping the left and right keys of a frame that
/// asks for a step turns a forward step into a backward one, and back,
/// unless both directions are asked for at once.
pub proof fn law_navigation_mirror(k: KeyInput, is_fullscreen: bool, num_panes: nat, mode: DualPaneMode)
    requires
        only_navigation_keys(k, is_fullscreen, num_panes, mode),
        !(k.nav_left_held && k.nav_right_held),
        !(k.nav_left_pressed && k.nav_right_pressed),
    ensures
        ({
            let m = KeyInput {
                nav_left_held: k.nav_right_held,
                nav_right_held: k.nav_left_held,
                nav_left_pressed: k.nav_right_pressed,
                nav_right_pressed: k.nav_left_pressed,
                ..k
            };
            &&& key_command_spec(k, is_fullscreen, num_panes, mode) == KeyCommand::NavigateForward
                <==> key_command_spec(m, is_fullscreen, num_panes, mode) == KeyCommand::NavigateBackward
            &&& key_command_spec(k, is_fullscreen, num_panes, mode) == KeyCommand::Nothing
                <==> key_command_spec(m, is_fullscreen, num_panes, mode) == KeyCommand::Nothing
        }),
{
}

} // verus!
