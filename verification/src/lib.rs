//! A complete-information, two-player, zero-sum game solver for the 3x3
//! tic-tac-toe board: an immutable game-state model plus exhaustive minimax
//! search, with two move-selection policies (search-optimal and uniform
//! random) built on top of it.

pub mod game;
pub mod minmax_strategy;
pub mod play;
pub mod random_strategy;
pub mod search;

pub use game::ActionError;
pub use game::Player;
pub use game::TerminalityError;
pub use game::TicTacToe;
pub use game::TicTacToeAction;
pub use game::draw_board;
pub use game::square;
pub use minmax_strategy::minmax_strategy;
pub use play::PlayTicTacToe;
pub use random_strategy::random_strategy;
pub use search::minmax;
