//! The app-level game state machine, as an explicit enum with a
//! transition function instead of scheduler-driven computed states.

use vstd::prelude::*;

verus! {

/// Top-level state of the game session.
#[derive(Clone, Copy, Debug, PartialEq, Eq, Structural, Hash)]
pub enum GameState {
    MainMenu,
    Started { paused: bool },
}

impl Default for GameState {
    /// The game opens in the main menu.
    fn default() -> (s: GameState)
        ensures
            s == GameState::MainMenu,
    {
        GameState::MainMenu
    }
}

/// Derived state: in game and running.
#[derive(Clone, Copy, Debug, PartialEq, Eq, Structural, Hash)]
pub struct InGameUnpaused;

impl InGameUnpaused {
    /// Holds exactly while the game is started and not paused.
    pub fn compute(sources: &GameState) -> (r: Option<InGameUnpaused>)
        ensures
            r == (match sources {
                GameState::Started { paused: false } => Some(InGameUnpaused),
                _ => None::<InGameUnpaused>,
            }),
    {
        match sources {
            GameState::Started { paused: false } => Some(InGameUnpaused),
            _ => None,
        }
    }
}

/// Derived state: in game but paused.
#[derive(Clone, Copy, Debug, PartialEq, Eq, Structural, Hash)]
pub struct InGamePaused;

impl InGamePaused {
    /// Holds exactly while the game is started and paused.
    pub fn compute(sources: &GameState) -> (r: Option<InGamePaused>)
        ensures
            r == (match sources {
                GameState::Started { paused: true } => Some(InGamePaused),
                _ => None::<InGamePaused>,
            }),
    {
        match sources {
            GameState::Started { paused: true } => Some(InGamePaused),
            _ => None,
        }
    }
}

/// Entering the session (connected as client, or server started) moves
/// the game into the running state.
pub fn go_ingame() -> (s: GameState)
    ensures
        s == (GameState::Started { paused: false }),
{
    GameState::Started { paused: false }
}

/// The pause toggle: pressing escape while in game flips the pause
/// flag; anything else changes nothing (`None`).
pub fn pause_unpause_game(current: &GameState, escape_pressed: bool)
    -> (next: Option<GameState>)
    ensures
        next == (match *current {
            GameState::Started { paused } => if escape_pressed {
                Some(GameState::Started { paused: !paused })
            } else {
                None::<GameState>
            },
            GameState::MainMenu => None::<GameState>,
        }),
{
    if escape_pressed {
        match current {
            GameState::Started { paused } => Some(GameState::Started { paused: !*paused }),
            GameState::MainMenu => None,
        }
    } else {
        None
    }
}

} // verus!
