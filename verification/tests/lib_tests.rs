use tictactoe::Player::{O, X};
use tictactoe::{Player, TicTacToe};

#[test]
fn lib_test_get_winner() {
    let game = TicTacToe::new();
    assert_eq!(game.is_terminal(), false);
    assert_eq!(game.get_winner().is_err(), true);

    // Terminal state with x winning
    let game = TicTacToe::new_from_state(
        [
            Some(X),
            Some(X),
            Some(X),
            Some(O),
            Some(O),
            None,
            None,
            None,
            None,
        ],
        Player::O,
    );
    assert_eq!(game.is_terminal(), true);
    assert_eq!(game.value(), 1);
    let winner = game
        .get_winner()
        .expect("should be terminal")
        .expect("not draw");
    assert_eq!(winner, X);

    // Terminal state with o winning
    let game = TicTacToe::new_from_state(
        [
            Some(X),
            Some(X),
            Some(O),
            Some(X),
            Some(O),
            None,
            Some(O),
            None,
            None,
        ],
        Player::X,
    );
    assert_eq!(game.is_terminal(), true);
    assert_eq!(game.value(), -1);
    let winner = game
        .get_winner()
        .expect("should be terminal")
        .expect("not draw");
    assert_eq!(winner, O);

    // Terminal state with a draw
    let game = TicTacToe::new_from_state(
        [
            Some(X),
            Some(O),
            Some(X),
            Some(X),
            Some(O),
            Some(O),
            Some(O),
            Some(X),
            Some(X),
        ],
        Player::X,
    );
    assert_eq!(game.is_terminal(), true);
    assert_eq!(game.value(), 0);
    let result = game.get_winner().expect("should be terminal");
    assert_eq!(result.is_none(), true);
}

#[test]
fn lib_test_get_actions() {
    // from empty board, all actions should be possible
    let game = TicTacToe::new();
    let actions = game.get_actions();
    assert_eq!(actions.len(), 9);
    assert_eq!(actions, [0, 1, 2, 3, 4, 5, 6, 7, 8]);

    // non terminal and non draw
    let game = TicTacToe::new_from_state(
        [
            Some(X),
            Some(X),
            None,
            Some(O),
            Some(O),
            None,
            None,
            None,
            None,
        ],
        Player::X,
    );
    let actions = game.get_actions();
    assert_eq!(actions.len(), 5);
    assert_eq!(actions, [2, 5, 6, 7, 8]);

    // action set should be empty if terminal state
    let game = TicTacToe::new_from_state(
        [
            Some(X),
            Some(X),
            Some(O),
            Some(X),
            Some(O),
            None,
            Some(O),
            None,
            None,
        ],
        Player::X,
    );
    let actions = game.get_actions();
    assert_eq!(actions.len(), 0);
}

#[test]
fn lib_test_apply_action() {
    let game = TicTacToe::new();
    let game = game.apply_action(0).unwrap();
    assert_eq!(
        game.board,
        [Some(X), None, None, None, None, None, None, None, None]
    );
    let game = game.apply_action(3).unwrap();
    assert_eq!(
        game.board,
        [Some(X), None, None, Some(O), None, None, None, None, None]
    );
    let game = game.apply_action(1).unwrap();
    assert_eq!(
        game.board,
        [
            Some(X),
            Some(X),
            None,
            Some(O),
            None,
            None,
            None,
            None,
            None
        ]
    );
    let game = game.apply_action(4).unwrap();
    assert_eq!(
        game.board,
        [
            Some(X),
            Some(X),
            None,
            Some(O),
            Some(O),
            None,
            None,
            None,
            None
        ]
    );

    // try to play a repeated move
    assert_eq!(game.apply_action(4).is_err(), true);

    // finish the game
    let game = game.apply_action(2).unwrap();
    assert_eq!(
        game.board,
        [
            Some(X),
            Some(X),
            Some(X),
            Some(O),
            Some(O),
            None,
            None,
            None,
            None
        ]
    );
    assert_eq!(game.is_terminal(), true);

    // try to play after terminal
    assert_eq!(game.apply_action(8).is_err(), true);
}
