//! The tic-tac-toe game state: board, turn tracking, move validation and
//! win detection. Pure data and logic, no I/O and no concurrency.

use vstd::prelude::*;

verus! {

/// The two player marks as the wire protocol writes them.
pub open spec fn is_mark(c: char) -> bool {
    c == 'x' || c == 'o'
}

/// The mark that moves after `c`.
pub open spec fn other_mark(c: char) -> char {
    if c == 'x' {
        'o'
    } else {
        'x'
    }
}

/// A cell holds nothing, or one of the two marks.
pub open spec fn cell_ok(c: Option<char>) -> bool {
    match c {
        Some(m) => is_mark(m),
        None => true,
    }
}

/// The mathematical model of a game: the nine cells in reading order, the
/// mark whose turn it is, and the two participant names.
#[verifier::ext_equal]
pub ghost struct GameView {
    pub board: Seq<Option<char>>,
    pub current_turn: char,
    pub player_x: Seq<char>,
    pub player_o: Seq<char>,
}

/// A game model is well formed when the board has exactly nine cells, the
/// turn is one of the two marks, and every marked cell holds a mark.
pub open spec fn game_view_wf(g: GameView) -> bool {
    &&& g.board.len() == 9
    &&& is_mark(g.current_turn)
    &&& forall|i: int| 0 <= i < 9 ==> cell_ok(#[trigger] g.board[i])
}

/// What a move does to a game: validate the turn first, then attempt the
/// placement; only a placement on an empty cell marks the cell and flips the
/// turn. A failed attempt leaves the state untouched, so a rejected move
/// never consumes a turn.
pub open spec fn spec_make_move(g: GameView, player: char, position: int) -> (GameView, Result<
    (),
    MoveError,
>) {
    if player != g.current_turn {
        (g, Err(MoveError::WrongTurn))
    } else if g.board[position] is Some {
        (g, Err(MoveError::CellOccupied))
    } else {
        (
            GameView {
                board: g.board.update(position, Some(player)),
                current_turn: other_mark(player),
                ..g
            },
            Ok(()),
        )
    }
}

/// Why a move was rejected. Both are reported to the players as text and
/// neither ends the session.
#[derive(Clone, Copy, Debug, PartialEq, Eq, Structural)]
pub enum MoveError {
    /// The acting mark is not the mark whose turn it is.
    WrongTurn,
    /// The target cell already holds a mark.
    CellOccupied,
}

impl MoveError {
    /// The exact text broadcast to the players for this error.
    pub fn message(&self) -> (r: String)
        ensures
            *self == MoveError::WrongTurn ==> r@ == "This is not your turn"@,
            *self == MoveError::CellOccupied ==> r@ == "Already marked"@,
    {
        match self {
            MoveError::WrongTurn => String::from_str("This is not your turn"),
            MoveError::CellOccupied => String::from_str("Already marked"),
        }
    }
}

/// One game of tic-tac-toe.
#[derive(Debug)]
pub struct Game {
    /// The nine cells in reading order; a marked cell is never un-marked.
    pub board: Vec<Option<char>>,
    /// The mark permitted to place the next move.
    pub current_turn: char,
    /// The first joiner's name; empty until someone joins.
    pub player_x: String,
    /// The second joiner's name; empty until a second participant joins.
    pub player_o: String,
}

impl View for Game {
    type V = GameView;

    open spec fn view(&self) -> GameView {
        GameView {
            board: self.board@,
            current_turn: self.current_turn,
            player_x: self.player_x@,
            player_o: self.player_o@,
        }
    }
}

impl Game {
    /// Well-formedness of the executable state.
    pub open spec fn wf(&self) -> bool {
        game_view_wf(self@)
    }

    /// A fresh game: empty board, the given names, the given starting turn.
    pub fn new(player_x: String, player_o: String, current_turn: char) -> (g: Game)
        requires
            is_mark(current_turn),
        ensures
            g.wf(),
            g.board@.len() == 9,
            forall|i: int| 0 <= i < 9 ==> g.board@[i] is None,
            g.current_turn == current_turn,
            g.player_x == player_x,
            g.player_o == player_o,
    {
        let mut board: Vec<Option<char>> = Vec::new();
        while board.len() < 9
            invariant
                board@.len() <= 9,
                forall|i: int| 0 <= i < board@.len() ==> board@[i] is None,
            decreases 9 - board@.len(),
        {
            board.push(None);
        }
        Game { board, current_turn, player_x, player_o }
    }

    /// Attempt to place `player`'s mark on cell `position`. Turn ownership is
    /// validated first; a placement on an occupied cell is rejected without
    /// flipping the turn; a successful placement marks the cell and flips the
    /// turn to the other mark.
    pub fn make_move(&mut self, player: char, position: usize) -> (r: Result<(), MoveError>)
        requires
            old(self).wf(),
            is_mark(player),
            position < 9,
        ensures
            final(self).wf(),
            r == spec_make_move(old(self)@, player, position as int).1,
            final(self)@ =~= spec_make_move(old(self)@, player, position as int).0,
    {
        if self.current_turn != player {
            return Err(MoveError::WrongTurn);
        }
        if self.board[position].is_none() {
            self.board[position] = Some(player);
            self.current_turn = if player == 'x' {
                'o'
            } else {
                'x'
            };
            Ok(())
        } else {
            Err(MoveError::CellOccupied)
        }
    }
}

/// The eight winning lines: three rows, three columns, two diagonals, each
/// as the indices of its three cells in reading order.
pub open spec fn win_lines() -> Seq<(int, int, int)> {
    seq![
        (0int, 1int, 2int),
        (3int, 4int, 5int),
        (6int, 7int, 8int),
        (0int, 3int, 6int),
        (1int, 4int, 7int),
        (2int, 5int, 8int),
        (0int, 4int, 8int),
        (2int, 4int, 6int),
    ]
}

/// Line `k` is fully marked by `m` on board `b`.
pub open spec fn line_won(b: Seq<Option<char>>, m: char, k: int) -> bool {
    let (a, c, d) = win_lines()[k];
    &&& b[a] == Some(m)
    &&& b[c] == Some(m)
    &&& b[d] == Some(m)
}

/// Some winning line is fully marked by `m` on board `b`.
pub open spec fn has_win(b: Seq<Option<char>>, m: char) -> bool {
    exists|k: int| 0 <= k < 8 && line_won(b, m, k)
}

/// The character a cell renders as: its mark, or a blank for an empty cell.
pub open spec fn cell_char(c: Option<char>) -> char {
    match c {
        Some(m) => m,
        None => ' ',
    }
}

/// One rendered row of the grid: `| a | b | c | ` and a newline.
pub open spec fn render_row(b: Seq<Option<char>>, row: int) -> Seq<char> {
    seq![
        '|',
        ' ',
        cell_char(b[3 * row]),
        ' ',
        '|',
        ' ',
        cell_char(b[3 * row + 1]),
        ' ',
        '|',
        ' ',
        cell_char(b[3 * row + 2]),
        ' ',
        '|',
        ' ',
        '\n',
    ]
}

/// The whole rendered grid: the three rows, top to bottom.
pub open spec fn render_board(b: Seq<Option<char>>) -> Seq<char> {
    render_row(b, 0) + render_row(b, 1) + render_row(b, 2)
}

impl Game {
    /// The cells of winning line `k`.
    fn line_cells(k: usize) -> (r: (usize, usize, usize))
        requires
            k < 8,
        ensures
            ({
                let (a, c, d) = win_lines()[k as int];
                r.0 == a && r.1 == c && r.2 == d
            }),
            r.0 < 9 && r.1 < 9 && r.2 < 9,
    {
        match k {
            0 => (0, 1, 2),
            1 => (3, 4, 5),
            2 => (6, 7, 8),
            3 => (0, 3, 6),
            4 => (1, 4, 7),
            5 => (2, 5, 8),
            6 => (0, 4, 8),
            _ => (2, 4, 6),
        }
    }

    /// Whether cell `i` holds mark `m`.
    fn cell_holds(&self, i: usize, m: char) -> (r: bool)
        requires
            self.wf(),
            i < 9,
        ensures
            r == (self.board@[i as int] == Some(m)),
    {
        match self.board[i] {
            Some(c) => c == m,
            None => false,
        }
    }

    /// Whether some winning line is fully marked by `m`.
    fn mark_wins(&self, m: char) -> (r: bool)
        requires
            self.wf(),
        ensures
            r == has_win(self.board@, m),
    {
        let mut k: usize = 0;
        while k < 8
            invariant
                self.wf(),
                k <= 8,
                forall|j: int| 0 <= j < k ==> !line_won(self.board@, m, j),
            decreases 8 - k,
        {
            let (a, c, d) = Self::line_cells(k);
            if self.cell_holds(a, m) && self.cell_holds(c, m) && self.cell_holds(d, m) {
                proof {
                    assert(line_won(self.board@, m, k as int));
                }
                return true;
            }
            k += 1;
        }
        false
    }

    /// Evaluate the eight winning lines: the result is `Some('x')` exactly
    /// when a line is fully marked by `x`, `Some('o')` exactly when no line
    /// is fully marked by `x` but one is by `o`, and `None` otherwise.
    pub fn check_winner(&self) -> (r: Option<char>)
        requires
            self.wf(),
        ensures
            has_win(self.board@, 'x') ==> r == Some('x'),
            !has_win(self.board@, 'x') && has_win(self.board@, 'o') ==> r == Some('o'),
            !has_win(self.board@, 'x') && !has_win(self.board@, 'o') ==> r is None,
    {
        if self.mark_wins('x') {
            Some('x')
        } else if self.mark_wins('o') {
            Some('o')
        } else {
            None
        }
    }

    /// The one-character rendering of cell `i`.
    fn cell_str(&self, i: usize) -> (r: &'static str)
        requires
            self.wf(),
            i < 9,
        ensures
            r@ =~= seq![cell_char(self.board@[i as int])],
    {
        match self.board[i] {
            Some(c) => {
                if c == 'x' {
                    proof {
                        reveal_strlit("x");
                    }
                    "x"
                } else {
                    proof {
                        reveal_strlit("o");
                    }
                    "o"
                }
            },
            None => {
                proof {
                    reveal_strlit(" ");
                }
                " "
            },
        }
    }

    /// One rendered row of the grid.
    fn render_row_string(&self, row: usize) -> (r: String)
        requires
            self.wf(),
            row < 3,
        ensures
            r@ =~= render_row(self.board@, row as int),
    {
        let base = 3 * row;
        let mut s = String::new();
        s.append("| ");
        s.append(self.cell_str(base));
        s.append(" | ");
        s.append(self.cell_str(base + 1));
        s.append(" | ");
        s.append(self.cell_str(base + 2));
        s.append(" | \n");
        proof {
            reveal_strlit("| ");
            reveal_strlit(" | ");
            reveal_strlit(" | \n");
        }
        s
    }

    /// The deterministic multi-line rendering of the grid; empty cells
    /// render as blanks.
    pub fn print_board(&self) -> (r: String)
        requires
            self.wf(),
        ensures
            r@ =~= render_board(self.board@),
    {
        let mut s = self.render_row_string(0);
        let r1 = self.render_row_string(1);
        s.append(r1.as_str());
        let r2 = self.render_row_string(2);
        s.append(r2.as_str());
        s
    }
}

/// Law: a winning line fully marked by one mark makes that mark a winner;
/// holds of each of the three rows, three columns and two diagonals.
pub proof fn lemma_full_line_wins(b: Seq<Option<char>>, m: char, k: int)
    requires
        0 <= k < 8,
        ({
            let (a, c, d) = win_lines()[k];
            b[a] == Some(m) && b[c] == Some(m) && b[d] == Some(m)
        }),
    ensures
        has_win(b, m),
{
    assert(line_won(b, m, k));
}

/// Law: a move by the mark whose turn it is, on an empty cell, succeeds,
/// marks exactly that cell, and flips the turn to the other mark — once,
/// since the resulting turn differs from the acting mark.
pub proof fn lemma_move_on_empty_cell(g: GameView, player: char, position: int)
    requires
        game_view_wf(g),
        is_mark(player),
        0 <= position < 9,
        player == g.current_turn,
        g.board[position] is None,
    ensures
        ({
            let (g2, r) = spec_make_move(g, player, position);
            &&& r == Ok::<(), MoveError>(())
            &&& g2.board[position] == Some(player)
            &&& forall|i: int| 0 <= i < 9 && i != position ==> g2.board[i] == g.board[i]
            &&& g2.current_turn == other_mark(player)
            &&& g2.current_turn != player
            &&& game_view_wf(g2)
        }),
{
}

/// Law: a cell once marked is never un-marked — a move, accepted or
/// rejected, leaves every marked cell exactly as it was, and a rejected move
/// leaves the whole state unchanged, so each accepted move is the board's
/// one mutation.
pub proof fn lemma_marked_cells_persist(g: GameView, player: char, position: int)
    requires
        game_view_wf(g),
        is_mark(player),
        0 <= position < 9,
    ensures
        ({
            let (g2, r) = spec_make_move(g, player, position);
            &&& forall|i: int| 0 <= i < 9 && g.board[i] is Some ==> g2.board[i] == g.board[i]
            &&& (r is Err ==> g2 == g)
        }),
{
}

/// Law: a move onto an occupied cell is rejected as `CellOccupied` and
/// leaves the whole state, the turn included, unchanged — a failed attempt
/// never flips the turn a second time.
pub proof fn lemma_move_on_occupied_cell(g: GameView, player: char, position: int)
    requires
        game_view_wf(g),
        is_mark(player),
        0 <= position < 9,
        player == g.current_turn,
        g.board[position] is Some,
    ensures
        spec_make_move(g, player, position) == (g, Err::<(), MoveError>(MoveError::CellOccupied)),
{
}

} // verus!
