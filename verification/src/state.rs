//! The top-level mode of the game and the signals that move it.

use vstd::prelude::*;

verus! {

/// The mode that decides which inputs are accepted and what runs.
#[derive(Clone, Copy, Debug, PartialEq, Eq, Structural)]
pub enum GameState {
    MainMenu,
    Playing,
    Paused,
    GameOver,
}

/// What can move the game from one mode to another.
#[derive(Clone, Copy, Debug, PartialEq, Eq, Structural)]
pub enum Signal {
    /// "Play" was chosen in the menu.
    Start,
    /// The pause key was pressed during play.
    Pause,
    /// The resume key was pressed during a pause.
    Resume,
    /// An enemy reached the player.
    Defeat,
    /// The game-over screen was acknowledged.
    Acknowledge,
}

impl GameState {
    /// The mode in which a process starts.
    pub open spec fn spec_initial() -> GameState {
        GameState::MainMenu
    }

    /// The five legal moves; every other pairing of mode and signal leaves
    /// the mode as it is.
    pub open spec fn spec_next(self, signal: Signal) -> GameState {
        match (self, signal) {
            (GameState::MainMenu, Signal::Start) => GameState::Playing,
            (GameState::Playing, Signal::Pause) => GameState::Paused,
            (GameState::Paused, Signal::Resume) => GameState::Playing,
            (GameState::Playing, Signal::Defeat) => GameState::GameOver,
            (GameState::GameOver, Signal::Acknowledge) => GameState::MainMenu,
            _ => self,
        }
    }

    /// The signal is one that this mode answers to.
    pub open spec fn spec_accepts(self, signal: Signal) -> bool {
        self.spec_next(signal) != self
    }

    /// The mode in which a process starts.
    pub fn initial() -> (state: GameState)
        ensures
            state == Self::spec_initial(),
    {
        GameState::MainMenu
    }

    /// The mode after `signal`; a signal that the mode does not answer to
    /// is ignored.
    pub fn next(self, signal: Signal) -> (state: GameState)
        ensures
            state == self.spec_next(signal),
    {
        match (self, signal) {
            (GameState::MainMenu, Signal::Start) => GameState::Playing,
            (GameState::Playing, Signal::Pause) => GameState::Paused,
            (GameState::Paused, Signal::Resume) => GameState::Playing,
            (GameState::Playing, Signal::Defeat) => GameState::GameOver,
            (GameState::GameOver, Signal::Acknowledge) => GameState::MainMenu,
            _ => self,
        }
    }
}

/// Every mode answers to at least one signal, so none is terminal; play is
/// entered only from the menu or from a pause, and left only by a pause or a
/// defeat.
pub proof fn lemma_transitions(state: GameState, signal: Signal)
    ensures
        exists|s: Signal| state.spec_accepts(s),
        state != GameState::Playing && state.spec_next(signal) == GameState::Playing ==> {
            ||| state == GameState::MainMenu && signal == Signal::Start
            ||| state == GameState::Paused && signal == Signal::Resume
        },
        state == GameState::Playing && state.spec_next(signal) != GameState::Playing ==> {
            ||| signal == Signal::Pause
            ||| signal == Signal::Defeat
        },
{
    match state {
        GameState::MainMenu => assert(state.spec_accepts(Signal::Start)),
        GameState::Playing => assert(state.spec_accepts(Signal::Pause)),
        GameState::Paused => assert(state.spec_accepts(Signal::Resume)),
        GameState::GameOver => assert(state.spec_accepts(Signal::Acknowledge)),
    }
}

} // verus!
