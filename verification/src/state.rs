//! Game phases, the presses that move between them, and the signals sent to
//! the host.

use vstd::prelude::*;

verus! {

/// Phase of the game. Only `Running` lets the simulation advance.
#[derive(Clone, Copy, Debug, PartialEq, Eq, Hash, Structural)]
pub enum GameState {
    Startup,
    Running,
    Paused,
    GameOver,
}

/// A sound that the host is asked to play.
#[derive(Clone, Copy, Debug, PartialEq, Eq, Hash, Structural)]
pub enum SoundType {
    Silence,
    Grow,
    DifficultyUp,
    Failure,
}

impl Default for GameState {
    fn default() -> (s: GameState)
        ensures
            s == GameState::Startup,
    {
        GameState::Startup
    }
}

impl Default for SoundType {
    fn default() -> (s: SoundType)
        ensures
            s == SoundType::Silence,
    {
        SoundType::Silence
    }
}

impl GameState {
    /// The phase that follows this one after a frame's presses: the confirm
    /// key starts the game, pauses it and resumes it; the restart key leaves
    /// `GameOver`. Every other press changes nothing.
    pub open spec fn spec_next(self, confirm: bool, restart: bool) -> GameState {
        match self {
            GameState::Startup => if confirm {
                GameState::Running
            } else {
                GameState::Startup
            },
            GameState::Running => if confirm {
                GameState::Paused
            } else {
                GameState::Running
            },
            GameState::Paused => if confirm {
                GameState::Running
            } else {
                GameState::Paused
            },
            GameState::GameOver => if restart {
                GameState::Running
            } else {
                GameState::GameOver
            },
        }
    }

    /// The phase that follows this one after a frame's presses.
    pub fn handle_state_input(&self, confirm: bool, restart: bool) -> (next: GameState)
        ensures
            next == self.spec_next(confirm, restart),
    {
        match self {
            GameState::Startup if confirm => GameState::Running,
            GameState::Running if confirm => GameState::Paused,
            GameState::Paused if confirm => GameState::Running,
            GameState::GameOver if restart => GameState::Running,
            _ => *self,
        }
    }

    /// Whether this phase shows an overlay message.
    pub open spec fn has_message(self) -> bool {
        self != GameState::Running
    }

    /// The overlay message of this phase. `Running` has none.
    pub fn get_message(&self) -> (message: Option<&'static str>)
        ensures
            message is Some <==> self.has_message(),
            *self == GameState::Startup ==> message == Some(
                "USE WASD OR ARROW KEYS TO CONTROL THE SNAKE\nPRESS SPACE TO PAUSE OR UNPAUSE THE GAME\nPRESS ESC TO EXIT\nPRESS SPACE TO CONTINUE",
            ),
            *self == GameState::Paused ==> message == Some("PAUSED"),
            *self == GameState::GameOver ==> message == Some(
                "GAME OVER\nPRESS R TO RESTART OR ESC TO EXIT",
            ),
    {
        match self {
            GameState::Startup => Some(
                "USE WASD OR ARROW KEYS TO CONTROL THE SNAKE\nPRESS SPACE TO PAUSE OR UNPAUSE THE GAME\nPRESS ESC TO EXIT\nPRESS SPACE TO CONTINUE",
            ),
            GameState::Running => None,
            GameState::Paused => Some("PAUSED"),
            GameState::GameOver => Some("GAME OVER\nPRESS R TO RESTART OR ESC TO EXIT"),
        }
    }
}

/// From `Startup` only `Running` can follow; `Running` and `Paused` only lead
/// to each other; `GameOver` only leads to `Running`.
pub proof fn lemma_transitions(s: GameState, confirm: bool, restart: bool)
    ensures
        s.spec_next(confirm, restart) == s || match s {
            GameState::Startup => s.spec_next(confirm, restart) == GameState::Running,
            GameState::Running => s.spec_next(confirm, restart) == GameState::Paused,
            GameState::Paused => s.spec_next(confirm, restart) == GameState::Running,
            GameState::GameOver => s.spec_next(confirm, restart) == GameState::Running,
        },
        s.spec_next(false, false) == s,
        s.spec_next(confirm, restart) == GameState::GameOver ==> s == GameState::GameOver,
        s.spec_next(confirm, restart) == GameState::Startup ==> s == GameState::Startup,
{
}

} // verus!
