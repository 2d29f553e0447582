//! The uniform-random move-selection policy: choose any legal action of a
//! non-terminal state, by shuffling the action list and taking its head.

use vstd::prelude::*;

use crate::game::TicTacToe;
use crate::game::TicTacToeAction;
use crate::game::board_full;
use crate::game::legal_actions;
use crate::game::lemma_legal_actions_ascending_empty;
use crate::game::terminal;
use crate::minmax_strategy::shuffle_actions;

verus! {

/// Chooses a random action from the shuffled action list.
pub fn random_strategy(game: &TicTacToe) -> (r: TicTacToeAction)
    requires
        !terminal(game.board@),
    ensures
        r < 9 && game.board@[r as int] is None,
        legal_actions(game.board@).contains(r),
{
    let mut actions = game.get_actions();
    let ghost legal: Seq<u8> = actions@;
    shuffle_actions(&mut actions);
    proof {
        legal.to_multiset_ensures();
        actions@.to_multiset_ensures();
        lemma_legal_actions_ascending_empty(game.board@);
        assert(!board_full(game.board@));
        let j0 = choose|j: int| 0 <= j < 9 && game.board@[j] is None;
        assert(legal_actions(game.board@).contains(j0 as u8));
        assert(actions@.len() == legal.len());
        assert(actions@.len() > 0);
        assert(actions@.contains(actions@[0]));
        let x = actions@[0];
        assert(actions@.to_multiset().count(x) == legal.to_multiset().count(x));
        assert(legal_actions(game.board@).contains(x));
    }
    actions[0]
}

} // verus!
