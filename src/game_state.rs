use vstd::prelude::*;

verus! {

/// The screens the game moves through; play starts in `InGame`.
#[derive(Clone, Copy, Debug, PartialEq, Eq, Hash, Structural)]
pub enum GameState {
    SplashScreen,
    TitleScreen,
    AccountScreen,
    InGame,
}

impl Default for GameState {
    fn default() -> (r: GameState)
        ensures
            r == GameState::InGame,
    {
        GameState::InGame
    }
}

} // verus!
