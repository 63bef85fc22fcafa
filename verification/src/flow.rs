//! The course of a session: from the menu into a level, from a finished
//! level to its summary, and from the summary on to the next level.

use vstd::prelude::*;

verus! {

/// Which screen the session shows.
#[derive(Clone, Copy, Debug, PartialEq, Eq, Structural)]
pub enum GameState {
    MainMenu,
    InGame,
    PostGame,
}

/// Where a session stands: its screen, the level it is at, and whether a
/// click on the summary has begun.
#[derive(Clone, Copy, Debug, PartialEq, Eq, Structural)]
pub struct Flow {
    pub state: GameState,
    pub level_idx: usize,
    pub mouse_down: bool,
}

/// What the session asks of its surroundings after a step.
#[derive(Clone, Copy, Debug, PartialEq, Eq, Structural)]
pub enum FlowAction {
    /// Carry on with the game at hand.
    Continue,
    /// Discard the game at hand and load the level at `level_idx`.
    LoadLevel,
}

impl Flow {
    /// The session as a program starts: at the menu, before the first
    /// level.
    pub fn new() -> (flow: Flow)
        ensures
            flow == (Flow { state: GameState::MainMenu, level_idx: 0, mouse_down: false }),
    {
        Flow { state: GameState::MainMenu, level_idx: 0, mouse_down: false }
    }

    /// The level that follows a finished one: the next after a victory, the
    /// same again after a defeat.
    pub open spec fn level_after(&self, won: bool) -> usize {
        if won {
            self.level_idx.saturating_add(1)
        } else {
            self.level_idx
        }
    }

    /// The session one frame on.  `won` says that no objective is left,
    /// `lost` that the player has no hit points, `left_down` that the left
    /// button is held, and `levels` how many levels there are.
    pub open spec fn spec_step(&self, levels: usize, won: bool, lost: bool, left_down: bool) -> (
        Flow,
        FlowAction,
    ) {
        match self.state {
            GameState::MainMenu => (
                Flow { state: GameState::InGame, level_idx: 0, mouse_down: self.mouse_down },
                FlowAction::LoadLevel,
            ),
            GameState::InGame => if won || lost {
                (
                    Flow { state: GameState::PostGame, level_idx: self.level_idx, mouse_down: false },
                    FlowAction::Continue,
                )
            } else {
                (*self, FlowAction::Continue)
            },
            GameState::PostGame => if left_down {
                (Flow { mouse_down: true, ..*self }, FlowAction::Continue)
            } else if !self.mouse_down {
                (*self, FlowAction::Continue)
            } else if self.level_after(won) >= levels {
                (
                    Flow { state: GameState::MainMenu, level_idx: self.level_after(won), ..*self },
                    FlowAction::Continue,
                )
            } else {
                (
                    Flow { state: GameState::InGame, level_idx: self.level_after(won), ..*self },
                    FlowAction::LoadLevel,
                )
            },
        }
    }

    /// Advances the session by one frame.  The menu leads straight into the
    /// first level.  A level ends, won or lost, with its summary.  The
    /// summary waits for a click, that is for the left button to be pressed
    /// and let go, and then leads to the next level after a victory, to the
    /// same level after a defeat, or back to the menu when no level is left.
    pub fn step(&mut self, levels: usize, won: bool, lost: bool, left_down: bool) -> (action:
        FlowAction)
        ensures
            (*final(self), action) == old(self).spec_step(levels, won, lost, left_down),
    {
        match self.state {
            GameState::MainMenu => {
                self.level_idx = 0;
                self.state = GameState::InGame;
                FlowAction::LoadLevel
            },
            GameState::InGame => {
                if won || lost {
                    self.state = GameState::PostGame;
                    self.mouse_down = false;
                }
                FlowAction::Continue
            },
            GameState::PostGame => {
                if left_down {
                    self.mouse_down = true;
                    FlowAction::Continue
                } else if self.mouse_down {
                    if won {
                        self.level_idx = self.level_idx.saturating_add(1);
                    }
                    if self.level_idx >= levels {
                        self.state = GameState::MainMenu;
                        FlowAction::Continue
                    } else {
                        self.state = GameState::InGame;
                        FlowAction::LoadLevel
                    }
                } else {
                    FlowAction::Continue
                }
            },
        }
    }
}

} // verus!
