//! Exhaustive minimax search: a spec-level definition of the game-theoretic
//! value of a position by backward induction over the full game tree, and a
//! verified evaluator that computes it.

use vstd::prelude::*;

use crate::game::Player;
use crate::game::TicTacToe;
use crate::game::board_full;
use crate::game::num_empty;
use crate::game::num_empty_from;
use crate::game::terminal;
use crate::game::terminal_value;

verus! {

/// The preferred of two values: the smaller when the minimizer moves, the
/// larger when the maximizer moves.
pub open spec fn better(turn: Player, v1: int, v2: int) -> int {
    if turn is O {
        if v1 <= v2 {
            v1
        } else {
            v2
        }
    } else {
        if v1 >= v2 {
            v1
        } else {
            v2
        }
    }
}

/// The minimax value of a position: its terminal value at a leaf, otherwise
/// the best over the values of all successor positions, where "best" is the
/// minimum when the minimizer is to move and the maximum otherwise.
pub open spec fn minimax_value(b: Seq<Option<Player>>, turn: Player) -> int
    decreases num_empty(b), 10int,
        when b.len() == 9
{
    if terminal(b) {
        terminal_value(b)
    } else {
        best_from(b, turn, 0)
    }
}

/// The best successor value over moves into the empty cells at or after `i`;
/// a neutral element outside the value range when no empty cell remains.
pub open spec fn best_from(b: Seq<Option<Player>>, turn: Player, i: int) -> int
    decreases num_empty(b), 9 - i,
        when b.len() == 9 && 0 <= i
{
    if i >= 9 {
        if turn is O {
            2
        } else {
            -2
        }
    } else if b[i] is None {
        proof {
            lemma_num_empty_update(b, i, turn);
        }
        better(
            turn,
            minimax_value(b.update(i, Some(turn)), turn.spec_invert()),
            best_from(b, turn, i + 1),
        )
    } else {
        best_from(b, turn, i + 1)
    }
}

/// Placing a mark on an empty cell decreases the number of empty cells by
/// exactly one; the search recursion terminates because of it.
pub proof fn lemma_num_empty_update(b: Seq<Option<Player>>, i: int, turn: Player)
    requires
        b.len() == 9,
        0 <= i < 9,
        b[i] is None,
    ensures
        num_empty(b.update(i, Some(turn))) == num_empty(b) - 1,
{
    lemma_num_empty_from_update(b, i, turn, 0);
}

proof fn lemma_num_empty_from_update(b: Seq<Option<Player>>, i: int, turn: Player, j: int)
    requires
        b.len() == 9,
        0 <= i < 9,
        b[i] is None,
        0 <= j <= 9,
    ensures
        num_empty_from(b.update(i, Some(turn)), j) == if j <= i {
            num_empty_from(b, j) - 1
        } else {
            num_empty_from(b, j) as int
        },
    decreases 9 - j,
{
    if j < 9 {
        lemma_num_empty_from_update(b, i, turn, j + 1);
    }
}

/// Classical exhaustive backward induction over the game tree: the value of
/// a terminal state, otherwise the best value over all successor states.
pub fn minmax(game: &TicTacToe) -> (r: i8)
    ensures
        r as int == minimax_value(game.board@, game.player),
        -1 <= r <= 1,
    decreases num_empty(game.board@),
{
    if game.is_terminal() {
        return game.value();
    }
    let mut best: Option<i8> = None;
    let mut i: usize = 0;
    while i < 9
        invariant
            i <= 9,
            !terminal(game.board@),
            best is None ==> (forall|j: int| 0 <= j < i ==> game.board@[j] is Some)
                && best_from(game.board@, game.player, 0) == best_from(
                game.board@,
                game.player,
                i as int,
            ),
            best matches Some(v) ==> -1 <= v <= 1 && best_from(game.board@, game.player, 0)
                == better(
                game.player,
                v as int,
                best_from(game.board@, game.player, i as int),
            ),
        decreases 9 - i,
    {
        if game.board[i].is_none() {
            let child = game.apply_action(i as u8).unwrap();
            proof {
                lemma_num_empty_update(game.board@, i as int, game.player);
            }
            let v = minmax(&child);
            best = match best {
                None => Some(v),
                Some(bv) => if game.is_min_player() {
                    if v < bv {
                        Some(v)
                    } else {
                        Some(bv)
                    }
                } else {
                    if v > bv {
                        Some(v)
                    } else {
                        Some(bv)
                    }
                },
            };
        }
        i = i + 1;
    }
    proof {
        if best is None {
            assert(board_full(game.board@));
        }
    }
    best.unwrap()
}

/// Law: every minimax value lies in the terminal-value range `[-1, 1]`.
pub proof fn lemma_minimax_value_bounds(b: Seq<Option<Player>>, turn: Player)
    requires
        b.len() == 9,
    ensures
        -1 <= minimax_value(b, turn) <= 1,
    decreases num_empty(b), 10int,
{
    if !terminal(b) {
        assert(!board_full(b));
        lemma_best_from_bounds(b, turn, 0);
    }
}

proof fn lemma_best_from_bounds(b: Seq<Option<Player>>, turn: Player, i: int)
    requires
        b.len() == 9,
        0 <= i <= 9,
        exists|j: int| i <= j < 9 && b[j] is None,
    ensures
        -1 <= best_from(b, turn, i) <= 1,
    decreases num_empty(b), 9 - i,
{
    let j0 = choose|j: int| i <= j < 9 && b[j] is None;
    if b[i] is None {
        lemma_num_empty_update(b, i, turn);
        lemma_minimax_value_bounds(b.update(i, Some(turn)), turn.spec_invert());
        if exists|j: int| i + 1 <= j < 9 && b[j] is None {
            lemma_best_from_bounds(b, turn, i + 1);
        } else {
            lemma_best_from_no_empty(b, turn, i + 1);
        }
    } else {
        assert(i + 1 <= j0 < 9 && b[j0] is None);
        lemma_best_from_bounds(b, turn, i + 1);
    }
}

proof fn lemma_best_from_no_empty(b: Seq<Option<Player>>, turn: Player, i: int)
    requires
        b.len() == 9,
        0 <= i <= 9,
        forall|j: int| i <= j < 9 ==> b[j] is Some,
    ensures
        best_from(b, turn, i) == if turn is O {
            2int
        } else {
            -2int
        },
    decreases 9 - i,
{
    if i < 9 {
        lemma_best_from_no_empty(b, turn, i + 1);
    }
}

/// Law: a position's value is at least as good for the mover as the value
/// after any single move into an empty cell at or after `i`: each successor
/// value is an upper bound for the minimizer and a lower bound for the
/// maximizer.
pub proof fn lemma_best_from_vs_child(b: Seq<Option<Player>>, turn: Player, i: int, a: int)
    requires
        b.len() == 9,
        0 <= i <= a < 9,
        b[a] is None,
    ensures
        turn is O ==> best_from(b, turn, i) <= minimax_value(
            b.update(a, Some(turn)),
            turn.spec_invert(),
        ),
        turn is X ==> best_from(b, turn, i) >= minimax_value(
            b.update(a, Some(turn)),
            turn.spec_invert(),
        ),
    decreases 9 - i,
{
    if a > i {
        lemma_best_from_vs_child(b, turn, i + 1, a);
    }
}

/// Law: the best value over the empty cells at or after `i` is achieved by
/// a move into one of them.
pub proof fn lemma_best_from_achieved(b: Seq<Option<Player>>, turn: Player, i: int)
    requires
        b.len() == 9,
        0 <= i <= 9,
        exists|j: int| i <= j < 9 && b[j] is None,
    ensures
        exists|a: int|
            i <= a < 9 && b[a] is None && best_from(b, turn, i) == minimax_value(
                b.update(a, Some(turn)),
                turn.spec_invert(),
            ),
    decreases 9 - i,
{
    let j0 = choose|j: int| i <= j < 9 && b[j] is None;
    if b[i] is None {
        if exists|j: int| i + 1 <= j < 9 && b[j] is None {
            lemma_best_from_achieved(b, turn, i + 1);
            let a1 = choose|a: int|
                i + 1 <= a < 9 && b[a] is None && best_from(b, turn, i + 1) == minimax_value(
                    b.update(a, Some(turn)),
                    turn.spec_invert(),
                );
            // The best of this cell and the rest is one of the two.
            if best_from(b, turn, i) == best_from(b, turn, i + 1) {
                assert(i <= a1 < 9 && b[a1] is None && best_from(b, turn, i) == minimax_value(
                    b.update(a1, Some(turn)),
                    turn.spec_invert(),
                ));
            } else {
                assert(i <= i < 9 && b[i] is None && best_from(b, turn, i) == minimax_value(
                    b.update(i, Some(turn)),
                    turn.spec_invert(),
                ));
            }
        } else {
            lemma_best_from_no_empty(b, turn, i + 1);
            lemma_num_empty_update(b, i, turn);
            lemma_minimax_value_bounds(b.update(i, Some(turn)), turn.spec_invert());
            assert(i <= i < 9 && b[i] is None && best_from(b, turn, i) == minimax_value(
                b.update(i, Some(turn)),
                turn.spec_invert(),
            ));
        }
    } else {
        assert(i + 1 <= j0 < 9 && b[j0] is None);
        lemma_best_from_achieved(b, turn, i + 1);
        let a1 = choose|a: int|
            i + 1 <= a < 9 && b[a] is None && best_from(b, turn, i + 1) == minimax_value(
                b.update(a, Some(turn)),
                turn.spec_invert(),
            );
        assert(i <= a1 < 9 && b[a1] is None && best_from(b, turn, i) == minimax_value(
            b.update(a1, Some(turn)),
            turn.spec_invert(),
        ));
    }
}

} // verus!
