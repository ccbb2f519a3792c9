//! The three states of the game, and the two keys that move between them.

use vstd::prelude::*;

verus! {

/// Where the game stands.
#[derive(Clone, Copy, PartialEq, Eq, Structural, Debug)]
pub enum GameState {
    Menu,
    Playing,
    Paused,
}

impl GameState {
    /// The state after the pause key: it pauses a running game and
    /// resumes a paused one. In the menu it does nothing.
    pub open spec fn pause_toggled(self) -> GameState {
        match self {
            GameState::Playing => GameState::Paused,
            GameState::Paused => GameState::Playing,
            GameState::Menu => GameState::Menu,
        }
    }

    /// The state after the key that leaves the menu: it starts the game
    /// from the menu, and does nothing elsewhere.
    pub open spec fn menu_left(self) -> GameState {
        match self {
            GameState::Menu => GameState::Playing,
            other => other,
        }
    }

    /// The state in which the game starts: the menu.
    pub fn initial() -> (state: GameState)
        ensures
            state == GameState::Menu,
    {
        GameState::Menu
    }

    /// Handles the pause key.
    pub fn toggle_pause(self) -> (next: GameState)
        ensures
            next == self.pause_toggled(),
    {
        match self {
            GameState::Playing => GameState::Paused,
            GameState::Paused => GameState::Playing,
            GameState::Menu => GameState::Menu,
        }
    }

    /// Handles the key that leaves the menu.
    pub fn leave_menu(self) -> (next: GameState)
        ensures
            next == self.menu_left(),
    {
        match self {
            GameState::Menu => GameState::Playing,
            other => other,
        }
    }

    /// Whether the simulation runs in this state: it stands still only
    /// while the game is paused.
    pub fn runs(self) -> (r: bool)
        ensures
            r == (self != GameState::Paused),
    {
        match self {
            GameState::Paused => false,
            _ => true,
        }
    }

    /// Whether the ghost can trick-or-treat in this state: only while the
    /// game is being played.
    pub fn plays(self) -> (r: bool)
        ensures
            r == (self == GameState::Playing),
    {
        match self {
            GameState::Playing => true,
            _ => false,
        }
    }
}

} // verus!
