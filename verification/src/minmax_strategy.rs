//! The search-optimal move-selection policy: minimax evaluation that also
//! reports a best move. The action list is shuffled before the extremal
//! scan, so repeated play does not always pick the same tied-optimal move;
//! the shuffle changes only which tied-optimal action is reported, never the
//! value.

use vstd::prelude::*;

use rand::seq::SliceRandom;

use crate::game::Player;
use crate::game::TicTacToe;
use crate::game::TicTacToeAction;
use crate::game::board_full;
use crate::game::legal_actions;
use crate::game::lemma_legal_actions_ascending_empty;
use crate::game::terminal;
use crate::search::best_from;
use crate::search::lemma_best_from_achieved;
use crate::search::lemma_best_from_vs_child;
use crate::search::minimax_value;

verus! {

/// Relies on rand's `SliceRandom::shuffle`: a Fisher-Yates shuffle permutes
/// the vector in place by swaps, so exactly the original elements remain and
/// only their order changes. Which order comes out depends on the thread's
/// random generator, so nothing more is promised of it.
#[verifier::external_body]
pub(crate) fn shuffle_actions(actions: &mut Vec<TicTacToeAction>)
    ensures
        final(actions)@.to_multiset() == old(actions)@.to_multiset(),
{
    actions.shuffle(&mut rand::thread_rng());
}

/// True iff `v` is at least as good for `turn` as `w`: no larger for the
/// minimizer, no smaller for the maximizer.
pub open spec fn at_least_as_good(turn: Player, v: int, w: int) -> bool {
    if turn is O {
        v <= w
    } else {
        v >= w
    }
}

/// Minimax evaluation that also reports a best move: the returned value is
/// the minimax value of the state; the returned action is `None` exactly at
/// a terminal state and otherwise is a legal action achieving that value.
/// Which tied-optimal action is reported depends on the shuffle.
pub fn minmax(game: &TicTacToe) -> (r: (i8, Option<TicTacToeAction>))
    ensures
        r.0 as int == minimax_value(game.board@, game.player),
        r.1 is None <==> terminal(game.board@),
        r.1 matches Some(a) ==> a < 9 && game.board@[a as int] is None && minimax_value(
            game.board@.update(a as int, Some(game.player)),
            game.player.spec_invert(),
        ) == r.0 as int,
{
    if game.is_terminal() {
        return (game.value(), None);
    }
    let mut actions = game.get_actions();
    let ghost legal: Seq<u8> = actions@;
    shuffle_actions(&mut actions);
    proof {
        legal.to_multiset_ensures();
        actions@.to_multiset_ensures();
        lemma_legal_actions_ascending_empty(game.board@);
        assert(!board_full(game.board@));
        let j0 = choose|j: int| 0 <= j < 9 && game.board@[j] is None;
        assert(legal_actions(game.board@).contains(j0 as u8));
        assert(actions@.len() == legal.len());
        assert forall|x: u8| actions@.contains(x) implies x < 9 && game.board@[
            x as int
        ] is None by {
            assert(actions@.to_multiset().count(x) == legal.to_multiset().count(x));
            assert(legal_actions(game.board@).contains(x));
        }
    }
    let n = actions.len();
    let mut best: Option<(i8, TicTacToeAction)> = None;
    let mut k: usize = 0;
    while k < n
        invariant
            n == actions@.len(),
            n >= 1,
            k <= n,
            !terminal(game.board@),
            forall|x: u8| actions@.contains(x) ==> x < 9 && game.board@[x as int] is None,
            best is None <==> k == 0,
            best matches Some(p) ==> p.1 < 9 && game.board@[p.1 as int] is None && minimax_value(
                game.board@.update(p.1 as int, Some(game.player)),
                game.player.spec_invert(),
            ) == p.0 as int && forall|j: int|
                0 <= j < k ==> at_least_as_good(
                    game.player,
                    p.0 as int,
                    minimax_value(
                        game.board@.update(actions@[j] as int, Some(game.player)),
                        game.player.spec_invert(),
                    ),
                ),
        decreases n - k,
    {
        let a = actions[k];
        proof {
            assert(actions@[k as int] == a);
            assert(actions@.contains(a));
        }
        let child = game.apply_action(a).unwrap();
        let v = crate::search::minmax(&child);
        best = match best {
            None => Some((v, a)),
            Some((bv, ba)) => {
                let take = if game.is_min_player() {
                    v < bv
                } else {
                    v > bv
                };
                if take {
                    Some((v, a))
                } else {
                    Some((bv, ba))
                }
            },
        };
        k = k + 1;
    }
    let (bv, ba) = best.unwrap();
    proof {
        assert(game.board@.len() == 9);
        lemma_best_from_achieved(game.board@, game.player, 0);
        let astar = choose|a: int|
            0 <= a < 9 && game.board@[a] is None && best_from(game.board@, game.player, 0)
                == minimax_value(
                game.board@.update(a, Some(game.player)),
                game.player.spec_invert(),
            );
        assert(legal_actions(game.board@).contains(astar as u8));
        assert(actions@.to_multiset().count(astar as u8) == legal.to_multiset().count(
            astar as u8,
        ));
        assert(actions@.contains(astar as u8));
        let jj = choose|j: int| 0 <= j < actions@.len() && actions@[j] == astar as u8;
        assert(at_least_as_good(
            game.player,
            bv as int,
            minimax_value(
                game.board@.update(actions@[jj] as int, Some(game.player)),
                game.player.spec_invert(),
            ),
        ));
        assert(actions@[jj] as int == astar);
        lemma_best_from_vs_child(game.board@, game.player, 0, ba as int);
        assert(bv as int == minimax_value(game.board@, game.player));
    }
    (bv, Some(ba))
}

/// Chooses a move for a non-terminal state by minimax search: the returned
/// action is legal and achieves the minimax value of the state.
pub fn minmax_strategy(game: &TicTacToe) -> (r: TicTacToeAction)
    requires
        !terminal(game.board@),
    ensures
        r < 9 && game.board@[r as int] is None,
        legal_actions(game.board@).contains(r),
        minimax_value(game.board@.update(r as int, Some(game.player)), game.player.spec_invert())
            == minimax_value(game.board@, game.player),
{
    let (_value, best) = minmax(game);
    proof {
        lemma_legal_actions_ascending_empty(game.board@);
    }
    best.unwrap()
}

} // verus!
