//! The screens of the client, and how one leads to another.
use vstd::prelude::*;

verus! {

/// The screens.
#[derive(Debug, Clone, Copy, PartialEq, Eq, Structural, Hash)]
pub enum Screen {
    MainMenu,
    /// How many players a local match gets.
    SinglePlayerSetup,
    SinglePlayer,
    Multiplayer,
    Settings,
}

/// What lies over a local match.
#[derive(Debug, Clone, Copy, PartialEq, Eq, Structural, Hash)]
pub enum Pause {
    /// Nothing: the match goes on.
    Running,
    Paused,
    Settings,
}

/// The buttons of the main menu.
#[derive(Debug, Clone, Copy, PartialEq, Eq, Structural)]
pub enum MenuButton {
    SinglePlayer,
    Multiplayer,
    Settings,
    Exit,
}

/// The screen that a button of the main menu leads to; none to leave the game.
pub open spec fn led_to(button: MenuButton) -> Option<Screen> {
    match button {
        MenuButton::SinglePlayer => Some(Screen::SinglePlayerSetup),
        MenuButton::Multiplayer => Some(Screen::Multiplayer),
        MenuButton::Settings => Some(Screen::Settings),
        MenuButton::Exit => None,
    }
}

pub fn menu_target(button: MenuButton) -> (r: Option<Screen>)
    ensures
        r == led_to(button),
{
    match button {
        MenuButton::SinglePlayer => Some(Screen::SinglePlayerSetup),
        MenuButton::Multiplayer => Some(Screen::Multiplayer),
        MenuButton::Settings => Some(Screen::Settings),
        MenuButton::Exit => None,
    }
}

/// The screen that the escape key leads back to from a screen, if it leads anywhere. In a local
/// match the key belongs to the pause menu.
pub open spec fn backed(screen: Screen) -> Option<Screen> {
    match screen {
        Screen::Multiplayer | Screen::Settings | Screen::SinglePlayerSetup => Some(
            Screen::MainMenu,
        ),
        Screen::MainMenu | Screen::SinglePlayer => None,
    }
}

pub fn escape_target(screen: Screen) -> (r: Option<Screen>)
    ensures
        r == backed(screen),
{
    match screen {
        Screen::Multiplayer | Screen::Settings | Screen::SinglePlayerSetup => Some(
            Screen::MainMenu,
        ),
        Screen::MainMenu | Screen::SinglePlayer => None,
    }
}

/// What the escape key does to a local match.
pub open spec fn pause_toggled(pause: Pause) -> Pause {
    match pause {
        Pause::Running => Pause::Paused,
        Pause::Paused => Pause::Running,
        Pause::Settings => Pause::Paused,
    }
}

pub fn escape_in_match(pause: Pause) -> (r: Pause)
    ensures
        r == pause_toggled(pause),
{
    match pause {
        Pause::Running => Pause::Paused,
        Pause::Paused => Pause::Running,
        Pause::Settings => Pause::Paused,
    }
}

/// The buttons of the pause menu.
#[derive(Debug, Clone, Copy, PartialEq, Eq, Structural)]
pub enum PauseButton {
    Resume,
    Settings,
    MainMenu,
}

/// What a button of the pause menu leads to; none to leave the match for the main menu.
pub open spec fn unpaused(button: PauseButton) -> Option<Pause> {
    match button {
        PauseButton::Resume => Some(Pause::Running),
        PauseButton::Settings => Some(Pause::Settings),
        PauseButton::MainMenu => None,
    }
}

pub fn pause_target(button: PauseButton) -> (r: Option<Pause>)
    ensures
        r == unpaused(button),
{
    match button {
        PauseButton::Resume => Some(Pause::Running),
        PauseButton::Settings => Some(Pause::Settings),
        PauseButton::MainMenu => None,
    }
}

/// From every screen outside a match the escape key leads to the main menu in one step, and
/// from every layer over a match it leads back to the match in at most two.
pub proof fn escape_always_leads_back(screen: Screen, pause: Pause)
    ensures
        screen == Screen::MainMenu || screen == Screen::SinglePlayer || backed(screen) == Some(
            Screen::MainMenu,
        ),
        pause == Pause::Running || pause_toggled(pause) == Pause::Running || pause_toggled(
            pause_toggled(pause),
        ) == Pause::Running,
{
}

} // verus!
