//! Composition of a game in play with two move-selection policies, one per
//! player, chosen at composition time. The driving loop that alternates the
//! policies and renders the board performs output and lives outside the
//! library.

use vstd::prelude::*;

use crate::game::Player;
use crate::game::TicTacToe;
use crate::game::TicTacToeAction;
use crate::game::empty_board;

verus! {

/// A game in play: the current position, the player to move, and one
/// move-selection policy for each player.
pub struct PlayTicTacToe<T, U> where
    T: Fn(&TicTacToe) -> TicTacToeAction,
    U: Fn(&TicTacToe) -> TicTacToeAction,
 {
    pub instance: TicTacToe,
    pub x_strategy: T,
    pub o_strategy: U,
    pub current_player: Player,
}

impl<T, U> PlayTicTacToe<T, U> where
    T: Fn(&TicTacToe) -> TicTacToeAction,
    U: Fn(&TicTacToe) -> TicTacToeAction,
 {
    /// Starts a new game at the canonical start state, `X` to move.
    pub fn init(x_strategy: T, o_strategy: U) -> (r: Self)
        ensures
            r.instance.board@ == empty_board(),
            r.instance.player == Player::X,
            r.current_player == Player::X,
    {
        let game = TicTacToe::new();
        let current_player = game.player;
        Self { instance: game, current_player, x_strategy, o_strategy }
    }
}

} // verus!
