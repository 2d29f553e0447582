//! The game-state model: players, boards, terminality, winners, legal
//! actions and transitions, together with the spec-level board theory that
//! the search is verified against.

use vstd::prelude::*;
use vstd::string::StringExecFns;

verus! {

/// A board cell index; an action is a cell index in `[0, 9)`.
pub type TicTacToeAction = u8;

/// The two players. `X` moves first and is the maximizer; `O` is the
/// minimizer.
#[derive(Copy, Clone, Debug, PartialEq, Eq, Structural)]
pub enum Player {
    X,
    O,
}

impl Player {
    /// The other player.
    pub open spec fn spec_invert(self) -> Player {
        match self {
            Player::X => Player::O,
            Player::O => Player::X,
        }
    }

    /// Returns the other player.
    pub fn invert(&self) -> (r: Self)
        ensures
            r == self.spec_invert(),
    {
        match self {
            Player::X => Player::O,
            Player::O => Player::X,
        }
    }
}

/// Law: producing "the other player" is an involution.
pub proof fn lemma_invert_involution(p: Player)
    ensures
        p.spec_invert().spec_invert() == p,
{
}

/// The cells of the `k`-th winning line, in the fixed scan order: the three
/// rows in index order, then the three columns in index order, then the two
/// diagonals (top-left to bottom-right, then top-right to bottom-left).
pub open spec fn line_cells(k: int) -> (int, int, int) {
    if k < 3 {
        (3 * k, 3 * k + 1, 3 * k + 2)
    } else if k < 6 {
        (k - 3, k, k + 3)
    } else if k == 6 {
        (0, 4, 8)
    } else {
        (2, 4, 6)
    }
}

/// The player owning line `k`, if that line is fully occupied by one player.
pub open spec fn line_owner(b: Seq<Option<Player>>, k: int) -> Option<Player> {
    let t = line_cells(k);
    match b[t.0] {
        Some(p) => if b[t.1] == Some(p) && b[t.2] == Some(p) {
            Some(p)
        } else {
            None
        },
        None => None,
    }
}

/// The owner of the first fully-occupied line at or after `k` in scan order.
pub open spec fn first_winner_from(b: Seq<Option<Player>>, k: int) -> Option<Player>
    decreases 8 - k,
{
    if k < 0 || k >= 8 {
        None
    } else if line_owner(b, k) is Some {
        line_owner(b, k)
    } else {
        first_winner_from(b, k + 1)
    }
}

/// The winner of a board: the owner of the first won line in scan order.
pub open spec fn board_winner(b: Seq<Option<Player>>) -> Option<Player> {
    first_winner_from(b, 0)
}

/// Every cell of the board is occupied.
pub open spec fn board_full(b: Seq<Option<Player>>) -> bool {
    forall|i: int| 0 <= i < 9 ==> b[i] is Some
}

/// A board is terminal iff some line is won or the board is full.
pub open spec fn terminal(b: Seq<Option<Player>>) -> bool {
    board_winner(b) is Some || board_full(b)
}

/// The game-theoretic value of a terminal board: +1 if `X` won, -1 if `O`
/// won, 0 on a draw.
pub open spec fn terminal_value(b: Seq<Option<Player>>) -> int {
    match board_winner(b) {
        Some(Player::X) => 1,
        Some(Player::O) => -1,
        None => 0,
    }
}

/// The indices of the empty cells at or after `i`, in ascending order.
pub open spec fn empty_cells_from(b: Seq<Option<Player>>, i: int) -> Seq<u8>
    decreases 9 - i,
{
    if i < 0 || i >= 9 {
        Seq::empty()
    } else if b[i] is None {
        seq![i as u8] + empty_cells_from(b, i + 1)
    } else {
        empty_cells_from(b, i + 1)
    }
}

/// The legal actions of a board: none once terminal, otherwise the empty
/// cells in ascending index order.
pub open spec fn legal_actions(b: Seq<Option<Player>>) -> Seq<u8> {
    if terminal(b) {
        Seq::empty()
    } else {
        empty_cells_from(b, 0)
    }
}

/// The number of empty cells at or after `i`.
pub open spec fn num_empty_from(b: Seq<Option<Player>>, i: int) -> nat
    decreases 9 - i,
{
    if i < 0 || i >= 9 {
        0
    } else if b[i] is None {
        1 + num_empty_from(b, i + 1)
    } else {
        num_empty_from(b, i + 1)
    }
}

/// The number of empty cells of the board.
pub open spec fn num_empty(b: Seq<Option<Player>>) -> nat {
    num_empty_from(b, 0)
}

/// The all-empty board.
pub open spec fn empty_board() -> Seq<Option<Player>> {
    Seq::new(9, |i: int| None)
}

/// The result that `get_winner` returns for a board: the winner when a line
/// is won, `None` for a full board without a winner (a draw), and an error
/// for a non-terminal board.
pub open spec fn winner_result(b: Seq<Option<Player>>) -> Result<
    Option<Player>,
    TerminalityError,
> {
    if board_winner(b) is Some {
        Ok(board_winner(b))
    } else if board_full(b) {
        Ok(None)
    } else {
        Err(TerminalityError)
    }
}

/// Returned by `get_winner` when asked about a non-terminal state: the
/// winner question is undefined there.
#[derive(Copy, Clone, Debug, PartialEq, Eq, Structural)]
pub struct TerminalityError;

/// Returned by `apply_action`, for three mutually exclusive causes.
#[derive(Copy, Clone, Debug, PartialEq, Eq, Structural)]
pub enum ActionError {
    /// The state is already terminal; no further action is legal.
    AlreadyTerminal,
    /// The action index is outside `[0, 9)`.
    OutOfRange,
    /// The target cell is already occupied.
    Occupied,
}

/// One position of the game: a board of 9 cells, each empty or occupied by a
/// player, and the player whose turn it is to move. Values are immutable;
/// `apply_action` returns a fresh state.
#[derive(Debug)]
pub struct TicTacToe {
    pub board: [Option<Player>; 9],
    pub player: Player,
}

impl TicTacToe {
    /// The canonical start state: an all-empty board, `X` to move.
    pub fn new() -> (r: Self)
        ensures
            r.board@ == empty_board(),
            r.player == Player::X,
    {
        let r = TicTacToe { board: [None; 9], player: Player::X };
        proof {
            assert(r.board@ =~= empty_board());
        }
        r
    }

    /// A state from an explicit board and player to move, for seeding
    /// arbitrary positions.
    pub fn new_from_state(board: [Option<Player>; 9], player: Player) -> (r: Self)
        ensures
            r.board == board,
            r.player == player,
    {
        Self { board, player }
    }

    /// The owner of line `k`, if it is fully occupied by one player.
    fn line_owner_at(&self, k: usize) -> (r: Option<Player>)
        requires
            k < 8,
        ensures
            r == line_owner(self.board@, k as int),
    {
        let (i, j, l): (usize, usize, usize) = if k < 3 {
            (3 * k, 3 * k + 1, 3 * k + 2)
        } else if k < 6 {
            (k - 3, k, k + 3)
        } else if k == 6 {
            (0, 4, 8)
        } else {
            (2, 4, 6)
        };
        match self.board[i] {
            Some(p) => {
                let j_same = match self.board[j] {
                    Some(q) => q == p,
                    None => false,
                };
                let l_same = match self.board[l] {
                    Some(q) => q == p,
                    None => false,
                };
                if j_same && l_same {
                    Some(p)
                } else {
                    None
                }
            },
            None => None,
        }
    }

    /// Returns the winner of the state: the owner of the first won line in
    /// scan order, `None` for a draw (no line won, board full), and an error
    /// when the state is not terminal.
    pub fn get_winner(&self) -> (r: Result<Option<Player>, TerminalityError>)
        ensures
            r == winner_result(self.board@),
            r is Ok <==> terminal(self.board@),
    {
        let mut k: usize = 0;
        while k < 8
            invariant
                k <= 8,
                first_winner_from(self.board@, 0) == first_winner_from(self.board@, k as int),
            decreases 8 - k,
        {
            match self.line_owner_at(k) {
                Some(p) => {
                    return Ok(Some(p));
                },
                None => {},
            }
            k = k + 1;
        }
        // No line is won; this is a draw iff no move can still be made.
        let mut any_empty = false;
        let mut i: usize = 0;
        while i < 9
            invariant
                i <= 9,
                any_empty <==> exists|j: int| 0 <= j < i && self.board@[j] is None,
            decreases 9 - i,
        {
            if self.board[i].is_none() {
                any_empty = true;
            }
            i = i + 1;
        }
        if any_empty {
            Err(TerminalityError)
        } else {
            Ok(None)
        }
    }

    /// True iff a winner exists or the board is full.
    pub fn is_terminal(&self) -> (r: bool)
        ensures
            r == terminal(self.board@),
    {
        self.get_winner().is_ok()
    }

    /// The legal actions of the state: an empty vector once terminal,
    /// otherwise the indices of all empty cells, in ascending index order.
    pub fn get_actions(&self) -> (r: Vec<TicTacToeAction>)
        ensures
            r@ == legal_actions(self.board@),
            forall|m: int, n: int| 0 <= m < n < r@.len() ==> r@[m] < r@[n],
            forall|m: int|
                0 <= m < r@.len() ==> r@[m] < 9 && self.board@[r@[m] as int] is None,
    {
        proof {
            lemma_legal_actions_ascending_empty(self.board@);
        }
        if self.is_terminal() {
            // No further action can be taken from a terminal state.
            return Vec::new();
        }
        let mut actions: Vec<TicTacToeAction> = Vec::new();
        let mut i: usize = 0;
        proof {
            assert(actions@ + empty_cells_from(self.board@, 0) =~= empty_cells_from(
                self.board@,
                0,
            ));
        }
        while i < 9
            invariant
                i <= 9,
                empty_cells_from(self.board@, 0) == actions@ + empty_cells_from(
                    self.board@,
                    i as int,
                ),
            decreases 9 - i,
        {
            if self.board[i].is_none() {
                proof {
                    assert(actions@ + empty_cells_from(self.board@, i as int)
                        =~= actions@.push(i as u8) + empty_cells_from(self.board@, i + 1));
                }
                actions.push(i as u8);
            }
            i = i + 1;
        }
        proof {
            assert(actions@ + empty_cells_from(self.board@, 9) =~= actions@);
        }
        actions
    }

    /// Applies an action: fails if the state is already terminal, the index
    /// is outside `[0, 9)`, or the target cell is occupied. On success
    /// returns a new state whose board holds the mover's mark at the chosen
    /// cell and whose turn belongs to the other player; the original state
    /// is unmodified.
    pub fn apply_action(&self, action: TicTacToeAction) -> (r: Result<TicTacToe, ActionError>)
        ensures
            terminal(self.board@) ==> r == Err::<TicTacToe, ActionError>(
                ActionError::AlreadyTerminal,
            ),
            !terminal(self.board@) && action > 8 ==> r == Err::<TicTacToe, ActionError>(
                ActionError::OutOfRange,
            ),
            !terminal(self.board@) && action <= 8 && self.board@[action as int] is Some ==> r
                == Err::<TicTacToe, ActionError>(ActionError::Occupied),
            !terminal(self.board@) && action <= 8 && self.board@[action as int] is None ==> (r
                matches Ok(s) && s.board@ == self.board@.update(
                action as int,
                Some(self.player),
            ) && s.player == self.player.spec_invert()),
    {
        if self.is_terminal() {
            return Err(ActionError::AlreadyTerminal);
        }
        if action > 8 {
            return Err(ActionError::OutOfRange);
        }
        if self.board[action as usize].is_some() {
            return Err(ActionError::Occupied);
        }
        let mut new_board = self.board;
        new_board[action as usize] = Some(self.player);
        Ok(TicTacToe::new_from_state(new_board, self.player.invert()))
    }

    /// The value of a terminal state: +1 if `X` won, -1 if `O` won, 0 on a
    /// draw. The caller must guarantee that the state is terminal.
    pub fn value(&self) -> (r: i8)
        requires
            terminal(self.board@),
        ensures
            r as int == terminal_value(self.board@),
    {
        let winner = self.get_winner().unwrap();
        match winner {
            Some(Player::X) => 1,
            Some(Player::O) => -1,
            None => 0,
        }
    }

    /// True iff the player to move is the minimizer (`O`); the search takes
    /// the minimum of the child values at such a node, else the maximum.
    pub fn is_min_player(&self) -> (r: bool)
        ensures
            r == (self.player is O),
    {
        match self.player {
            Player::X => false,
            Player::O => true,
        }
    }
}

/// The empty-cell scan from `i` yields exactly the empty cells in `[i, 9)`,
/// in strictly ascending index order.
pub proof fn lemma_empty_cells_from_props(b: Seq<Option<Player>>, i: int)
    requires
        0 <= i <= 9,
    ensures
        forall|m: int|
            0 <= m < empty_cells_from(b, i).len() ==> i <= empty_cells_from(b, i)[m] < 9 && b[
                empty_cells_from(b, i)[m] as int
            ] is None,
        forall|m: int, n: int|
            0 <= m < n < empty_cells_from(b, i).len() ==> empty_cells_from(b, i)[m]
                < empty_cells_from(b, i)[n],
        forall|a: u8| empty_cells_from(b, i).contains(a) <==> (i <= a < 9 && b[a as int] is None),
    decreases 9 - i,
{
    if i < 9 {
        lemma_empty_cells_from_props(b, i + 1);
        let s = empty_cells_from(b, i);
        let rest = empty_cells_from(b, i + 1);
        assert forall|a: u8| s.contains(a) <==> (i <= a < 9 && b[a as int] is None) by {
            if s.contains(a) {
                let m = choose|m: int| 0 <= m < s.len() && s[m] == a;
                if b[i] is None && m == 0 {
                    assert(a == i);
                } else {
                    // The witness lies in the tail scan.
                    if b[i] is None {
                        assert(rest[m - 1] == a);
                    } else {
                        assert(rest[m] == a);
                    }
                    assert(rest.contains(a));
                }
            }
            if i <= a < 9 && b[a as int] is None {
                if b[i] is None && a == i {
                    assert(s[0] == a);
                } else {
                    assert(rest.contains(a));
                    let m = choose|m: int| 0 <= m < rest.len() && rest[m] == a;
                    if b[i] is None {
                        assert(s[m + 1] == a);
                    } else {
                        assert(s[m] == a);
                    }
                }
            }
        }
    }
}

/// Law: the legal actions of any state are strictly ascending cell indices,
/// each addressing an empty cell; a terminal state has none.
pub proof fn lemma_legal_actions_ascending_empty(b: Seq<Option<Player>>)
    ensures
        forall|m: int, n: int|
            0 <= m < n < legal_actions(b).len() ==> legal_actions(b)[m] < legal_actions(b)[n],
        forall|m: int|
            0 <= m < legal_actions(b).len() ==> legal_actions(b)[m] < 9 && b[
                legal_actions(b)[m] as int
            ] is None,
        terminal(b) ==> legal_actions(b) == Seq::<u8>::empty(),
        !terminal(b) ==> forall|a: u8|
            legal_actions(b).contains(a) <==> (a < 9 && b[a as int] is None),
{
    if !terminal(b) {
        lemma_empty_cells_from_props(b, 0);
    }
}

/// Law: the queries are read-only and their contracts pin the result as a
/// function of the state alone, so asking twice yields identical results:
/// any two values admissible for `is_terminal`, `get_actions` and
/// `get_winner` on one state are equal.
pub proof fn lemma_queries_deterministic(
    s: TicTacToe,
    t1: bool,
    t2: bool,
    a1: Seq<u8>,
    a2: Seq<u8>,
    w1: Result<Option<Player>, TerminalityError>,
    w2: Result<Option<Player>, TerminalityError>,
)
    requires
        t1 == terminal(s.board@),
        t2 == terminal(s.board@),
        a1 == legal_actions(s.board@),
        a2 == legal_actions(s.board@),
        w1 == winner_result(s.board@),
        w2 == winner_result(s.board@),
    ensures
        t1 == t2,
        a1 == a2,
        w1 == w2,
{
}

/// Law: querying the successor of a legal action agrees with recomputing
/// from the new board directly: the successor's board is exactly the old
/// board with the mover's mark placed, and its terminality and winner are
/// those of that board.
pub proof fn lemma_apply_then_query_consistent(s: TicTacToe, a: u8, s2: TicTacToe)
    requires
        !terminal(s.board@),
        a < 9,
        s.board@[a as int] is None,
        s2.board@ == s.board@.update(a as int, Some(s.player)),
    ensures
        terminal(s2.board@) == (board_winner(s2.board@) is Some || board_full(s2.board@)),
        winner_result(s2.board@) == (if board_winner(s2.board@) is Some {
            Ok::<Option<Player>, TerminalityError>(board_winner(s2.board@))
        } else if board_full(s2.board@) {
            Ok::<Option<Player>, TerminalityError>(None)
        } else {
            Err::<Option<Player>, TerminalityError>(TerminalityError)
        }),
{
}

proof fn lemma_first_winner_none_all_lines(b: Seq<Option<Player>>, k: int)
    requires
        0 <= k <= 8,
        first_winner_from(b, k) is None,
    ensures
        forall|m: int| k <= m < 8 ==> line_owner(b, m) is None,
    decreases 8 - k,
{
    if k < 8 {
        lemma_first_winner_none_all_lines(b, k + 1);
    }
}

proof fn lemma_first_winner_some_line(b: Seq<Option<Player>>, k: int)
    requires
        0 <= k <= 8,
        first_winner_from(b, k) is Some,
    ensures
        exists|m: int| k <= m < 8 && line_owner(b, m) == first_winner_from(b, k),
    decreases 8 - k,
{
    if k < 8 {
        if line_owner(b, k) is Some {
            assert(k <= k < 8 && line_owner(b, k) == first_winner_from(b, k));
        } else {
            lemma_first_winner_some_line(b, k + 1);
            let m0 = choose|m: int|
                k + 1 <= m < 8 && line_owner(b, m) == first_winner_from(b, k + 1);
            assert(k <= m0 < 8 && line_owner(b, m0) == first_winner_from(b, k));
        }
    }
}

/// Law: after a legal move, the only possible new winner is the mover: a
/// line won in the successor position must contain the cell just played, so
/// it is owned by the player who played it.
pub proof fn lemma_successor_winner_is_mover(s: TicTacToe, a: u8)
    requires
        s.board@.len() == 9,
        !terminal(s.board@),
        a < 9,
        s.board@[a as int] is None,
    ensures
        board_winner(s.board@.update(a as int, Some(s.player))) is Some ==> board_winner(
            s.board@.update(a as int, Some(s.player)),
        ) == Some(s.player),
{
    let b = s.board@;
    let b2 = b.update(a as int, Some(s.player));
    if board_winner(b2) is Some {
        lemma_first_winner_none_all_lines(b, 0);
        lemma_first_winner_some_line(b2, 0);
        let m = choose|m: int| 0 <= m < 8 && line_owner(b2, m) == first_winner_from(b2, 0);
        let t = line_cells(m);
        assert(0 <= t.0 < 9 && 0 <= t.1 < 9 && 0 <= t.2 < 9);
        if t.0 != a && t.1 != a && t.2 != a {
            // A line that misses the played cell is unchanged, and no line
            // was won before the move.
            assert(b2[t.0] == b[t.0] && b2[t.1] == b[t.1] && b2[t.2] == b[t.2]);
            assert(line_owner(b2, m) == line_owner(b, m));
            assert(false);
        }
        assert(b2[a as int] == Some(s.player));
    }
}

/// Law: a full board is terminal, so `apply_action` rejects it (with
/// `AlreadyTerminal`, by its contract), and never returns a state.
pub proof fn lemma_full_board_terminal(b: Seq<Option<Player>>)
    requires
        board_full(b),
    ensures
        terminal(b),
{
}

/// The character drawn for a cell: the occupying player's mark, or a blank.
pub open spec fn mark_char(c: Option<Player>) -> char {
    match c {
        Some(Player::X) => 'X',
        Some(Player::O) => 'O',
        None => ' ',
    }
}

/// One rendered board row, holding cells `3*r` to `3*r + 2`.
pub open spec fn row_chars(b: Seq<Option<Player>>, r: int) -> Seq<char> {
    seq![
        ' ',
        mark_char(b[3 * r]),
        ' ',
        '|',
        ' ',
        mark_char(b[3 * r + 1]),
        ' ',
        '|',
        ' ',
        mark_char(b[3 * r + 2]),
        '\n',
    ]
}

/// The rendered separator between board rows.
pub open spec fn separator_chars() -> Seq<char> {
    seq!['-', '-', '-', '+', '-', '-', '-', '+', '-', '-', '-', '\n']
}

/// The full rendered grid: three rows with a separator between each pair.
pub open spec fn board_grid(b: Seq<Option<Player>>) -> Seq<char> {
    row_chars(b, 0) + separator_chars() + row_chars(b, 1) + separator_chars() + row_chars(b, 2)
}

/// The one-character drawing of board cell `index`.
pub fn square(index: usize, game: &TicTacToe) -> (r: String)
    requires
        index < 9,
    ensures
        r@ == seq![mark_char(game.board@[index as int])],
{
    match game.board[index] {
        Some(Player::X) => {
            let s = String::from_str("X");
            proof {
                reveal_strlit("X");
                assert(s@ =~= seq!['X']);
            }
            s
        },
        Some(Player::O) => {
            let s = String::from_str("O");
            proof {
                reveal_strlit("O");
                assert(s@ =~= seq!['O']);
            }
            s
        },
        None => {
            let s = String::from_str(" ");
            proof {
                reveal_strlit(" ");
                assert(s@ =~= seq![' ']);
            }
            s
        },
    }
}

/// Appends one rendered board row to the output.
fn append_row(output: &mut String, game: &TicTacToe, row: usize)
    requires
        row < 3,
    ensures
        final(output)@ == old(output)@ + row_chars(game.board@, row as int),
{
    output.append(" ");
    let s0 = square(3 * row, game);
    output.append(s0.as_str());
    output.append(" | ");
    let s1 = square(3 * row + 1, game);
    output.append(s1.as_str());
    output.append(" | ");
    let s2 = square(3 * row + 2, game);
    output.append(s2.as_str());
    output.append("\n");
    proof {
        reveal_strlit(" ");
        reveal_strlit(" | ");
        reveal_strlit("\n");
        assert(output@ =~= old(output)@ + row_chars(game.board@, row as int));
    }
}

/// Appends the rendered row separator to the output.
fn append_separator(output: &mut String)
    ensures
        final(output)@ == old(output)@ + separator_chars(),
{
    output.append("---+---+---\n");
    proof {
        reveal_strlit("---+---+---\n");
        assert(output@ =~= old(output)@ + separator_chars());
    }
}

/// Draws the state's board as a human-readable three-row grid with
/// separator lines; empty cells are drawn as blanks.
pub fn draw_board(game: &TicTacToe) -> (r: String)
    ensures
        r@ == board_grid(game.board@),
{
    let mut output = String::new();
    append_row(&mut output, game, 0);
    append_separator(&mut output);
    append_row(&mut output, game, 1);
    append_separator(&mut output);
    append_row(&mut output, game, 2);
    proof {
        assert(output@ =~= board_grid(game.board@));
    }
    output
}

} // verus!
