//! The rules of the game, stated over a mathematical picture of the board.
//!
//! None of these functions is ever run: the executable board proves that it
//! computes them.

use crate::pieces::{Cell, Coordinate, Move, Player, Token, WinState};
use vstd::prelude::*;

verus! {

/// Whether `cell` holds a token of `player`.
pub open spec fn holds_token_of(cell: Cell, player: Player) -> bool {
    cell matches Some(t) && t.player == player
}

/// Whether `cell` holds a token that is not locked.
pub open spec fn is_unlocked(cell: Cell) -> bool {
    cell matches Some(t) && !t.locked
}

/// The same cell with its token, if it has one, locked.
pub open spec fn locked(cell: Cell) -> Cell {
    match cell {
        Some(t) => Some(Token { player: t.player, locked: true }),
        None => None,
    }
}

/// The test "this neighbour holds a token of `player`".
pub open spec fn owned_by(player: Player) -> spec_fn((Cell, Coordinate)) -> bool {
    |e: (Cell, Coordinate)| holds_token_of(e.0, player)
}

/// The test "this cell holds an unlocked token".
pub open spec fn movable() -> spec_fn((Cell, Coordinate)) -> bool {
    |e: (Cell, Coordinate)| is_unlocked(e.0)
}

/// The coordinate of a cell that is listed with its content.
pub open spec fn position() -> spec_fn((Cell, Coordinate)) -> Coordinate {
    |e: (Cell, Coordinate)| e.1
}

/// The test "this coordinate is not `here`".
pub open spec fn other_than(here: Coordinate) -> spec_fn(Coordinate) -> bool {
    |c: Coordinate| c != here
}

/// The swap that starts at `here`, as a function of where it ends.
pub open spec fn swap_from(here: Coordinate) -> spec_fn(Coordinate) -> Move {
    |c: Coordinate| Move::Swap(here, c)
}

/// How far a cell is from being settled: an empty cell can still be filled
/// and then locked, an unlocked token can still be locked, a locked token
/// stays as it is.
pub open spec fn cell_weight(cell: Cell) -> nat {
    match cell {
        None => 2,
        Some(t) => if t.locked { 0 } else { 1 },
    }
}

/// The sum of the weights of `cells`.
pub open spec fn total_weight(cells: Seq<Cell>) -> nat
    decreases cells.len(),
{
    if cells.len() == 0 {
        0
    } else {
        total_weight(cells.drop_last()) + cell_weight(cells.last())
    }
}

/// A board as a mathematical value: its size, whose turn it is, and its
/// cells row by row.
pub struct BoardView {
    pub width: usize,
    pub height: usize,
    pub turn: Player,
    pub cells: Seq<Cell>,
}

impl BoardView {
    /// The board of `width` columns and `height` rows on which nothing has
    /// been played: every cell is empty and player 0 is to move.
    pub open spec fn empty(width: usize, height: usize) -> BoardView {
        BoardView {
            width,
            height,
            turn: 0,
            cells: Seq::new((width * height) as nat, |i: int| None::<Token>),
        }
    }

    /// A board has one cell for each position of its grid, and it is the
    /// turn of player 0 or of player 1.
    pub open spec fn wf(self) -> bool {
        &&& self.cells.len() == self.width * self.height
        &&& self.turn < 2
    }

    /// Where the cell of `c` stands among the cells: rows follow one
    /// another, each `width` cells long.
    pub open spec fn index_of(self, c: Coordinate) -> int {
        self.width * c.y + c.x
    }

    /// Whether `c` leads to a cell of the board.
    pub open spec fn has_cell(self, c: Coordinate) -> bool {
        self.index_of(c) < self.cells.len()
    }

    /// Whether `c` is a column and a row of the grid.
    pub open spec fn in_grid(self, c: Coordinate) -> bool {
        c.x < self.width && c.y < self.height
    }

    /// What the board holds at `c`; nothing where `c` leads to no cell.
    pub open spec fn cell(self, c: Coordinate) -> Cell {
        if self.has_cell(c) {
            self.cells[self.index_of(c)]
        } else {
            None
        }
    }

    /// The coordinate of the `i`-th cell.
    pub open spec fn coordinate_at(self, i: int) -> Coordinate {
        Coordinate { x: (i % (self.width as int)) as usize, y: (i / (self.width as int)) as usize }
    }

    /// Every cell with its coordinate, row by row.
    pub open spec fn grid(self) -> Seq<(Cell, Coordinate)> {
        Seq::new(self.cells.len(), |i: int| (self.cells[i], self.coordinate_at(i)))
    }

    /// The coordinates next to `c`: left, right, above, below, each left out
    /// at the border. The border below is taken to lie at row `width - 1`,
    /// whatever the height of the grid.
    pub open spec fn neighbor_coordinates(self, c: Coordinate) -> Seq<Coordinate> {
        let left = if c.x > 0 {
            seq![Coordinate { x: (c.x - 1) as usize, y: c.y }]
        } else {
            seq![]
        };
        let right = if c.x < self.width - 1 {
            seq![Coordinate { x: (c.x + 1) as usize, y: c.y }]
        } else {
            seq![]
        };
        let above = if c.y > 0 {
            seq![Coordinate { x: c.x, y: (c.y - 1) as usize }]
        } else {
            seq![]
        };
        let below = if c.y < self.width - 1 {
            seq![Coordinate { x: c.x, y: (c.y + 1) as usize }]
        } else {
            seq![]
        };
        left + right + above + below
    }

    /// What `n` holds, listed with `n`.
    pub open spec fn looked_up(self) -> spec_fn(Coordinate) -> (Cell, Coordinate) {
        |n: Coordinate| (self.cell(n), n)
    }

    /// The neighbours of `c`, each with what it holds.
    pub open spec fn neighbor_cells(self, c: Coordinate) -> Seq<(Cell, Coordinate)> {
        self.neighbor_coordinates(c).map_values(self.looked_up())
    }

    /// Whether a token of `player` at `c` scores: more than three of the
    /// neighbours of `c` hold a token of `player`.
    pub open spec fn is_victory_point(self, c: Coordinate, player: Player) -> bool {
        self.neighbor_cells(c).filter(owned_by(player)).len() > 3
    }

    /// Whether the `i`-th cell holds an unlocked token that scores.
    pub open spec fn sweep_locks(self, i: int) -> bool {
        self.cells[i] matches Some(t) && !t.locked && self.is_victory_point(
            self.coordinate_at(i),
            t.player,
        )
    }

    /// The board after the locking sweep: every unlocked token that scores
    /// on this board is locked, all at once.
    pub open spec fn swept(self) -> BoardView {
        BoardView {
            cells: Seq::new(
                self.cells.len(),
                |i: int|
                    if self.sweep_locks(i) {
                        locked(self.cells[i])
                    } else {
                        self.cells[i]
                    },
            ),
            ..self
        }
    }

    /// Whether `m` can be applied: a token is placed on an empty cell, and
    /// two cells are swapped if both hold a token.
    pub open spec fn accepts(self, m: Move) -> bool {
        match m {
            Move::Place(c) => self.cell(c) is None,
            Move::Swap(a, b) => self.cell(a) is Some && self.cell(b) is Some,
        }
    }

    /// Whether every coordinate of `m` leads to a cell.
    pub open spec fn addresses(self, m: Move) -> bool {
        match m {
            Move::Place(c) => self.has_cell(c),
            Move::Swap(a, b) => self.has_cell(a) && self.has_cell(b),
        }
    }

    /// The cells right after `m`, before the sweep: a placed token belongs
    /// to the player to move and is unlocked; swapped tokens change places
    /// and are both locked.
    pub open spec fn moved(self, m: Move) -> BoardView {
        match m {
            Move::Place(c) => BoardView {
                cells: self.cells.update(
                    self.index_of(c),
                    Some(Token { player: self.turn, locked: false }),
                ),
                ..self
            },
            Move::Swap(a, b) => BoardView {
                cells: self.cells.update(self.index_of(a), locked(self.cell(b))).update(
                    self.index_of(b),
                    locked(self.cell(a)),
                ),
                ..self
            },
        }
    }

    /// The board with the turn passed to the other player.
    pub open spec fn turn_passed(self) -> BoardView {
        BoardView { turn: ((self.turn + 1) % 2) as Player, ..self }
    }

    /// The board after `m`: the move, then the sweep, then the turn passes.
    pub open spec fn after(self, m: Move) -> BoardView {
        self.moved(m).swept().turn_passed()
    }

    /// The coordinates of the cells that hold an unlocked token, row by row.
    pub open spec fn unlocked_coordinates(self) -> Seq<Coordinate> {
        self.grid().filter(movable()).map_values(position())
    }

    /// The moves that start at the `i`-th cell: one placement if it is
    /// empty; if it holds an unlocked token, one swap with each other cell
    /// that holds an unlocked token, row by row; none if its token is locked.
    pub open spec fn moves_from(self, i: int) -> Seq<Move> {
        let here = self.coordinate_at(i);
        match self.cells[i] {
            None => seq![Move::Place(here)],
            Some(t) => if t.locked {
                seq![]
            } else {
                self.unlocked_coordinates().filter(other_than(here)).map_values(swap_from(here))
            },
        }
    }

    /// The legal moves in their order: those of the first cell, then those
    /// of the second, and so on row by row. A swap of two cells is listed
    /// from either end.
    pub open spec fn legal_moves(self) -> Seq<Move> {
        self.moves_before(self.cells.len() as int)
    }

    /// The moves that start at one of the first `n` cells, in their order.
    pub open spec fn moves_before(self, n: int) -> Seq<Move> {
        Seq::new(n as nat, |i: int| self.moves_from(i)).flatten()
    }

    /// The moves before cell `n + 1` are those before cell `n`, then those
    /// of cell `n`.
    pub proof fn lemma_moves_before_next(self, n: int)
        requires
            0 <= n,
        ensures
            self.moves_before(n + 1) == self.moves_before(n) + self.moves_from(n),
    {
        let shorter = Seq::new(n as nat, |i: int| self.moves_from(i));
        let longer = Seq::new((n + 1) as nat, |i: int| self.moves_from(i));
        assert(longer == shorter.push(self.moves_from(n)));
        shorter.lemma_flatten_push(self.moves_from(n));
    }

    /// The coordinate at which `m` starts: where a token is placed, or the
    /// first of the two cells that are swapped.
    pub open spec fn starts_at(self, m: Move) -> Coordinate {
        match m {
            Move::Place(c) => c,
            Move::Swap(a, _) => a,
        }
    }

    /// Whether `m` is legal: a placement on an empty cell of the grid, or a
    /// swap of two different cells of the grid that both hold an unlocked
    /// token.
    pub open spec fn is_legal(self, m: Move) -> bool {
        match m {
            Move::Place(c) => self.in_grid(c) && self.cell(c) is None,
            Move::Swap(a, b) => {
                &&& self.in_grid(a)
                &&& self.in_grid(b)
                &&& a != b
                &&& is_unlocked(self.cell(a))
                &&& is_unlocked(self.cell(b))
            },
        }
    }

    /// The test "this cell holds a token of `player` that scores".
    pub open spec fn scores_for(self, player: Player) -> spec_fn((Cell, Coordinate)) -> bool {
        |e: (Cell, Coordinate)| holds_token_of(e.0, player) && self.is_victory_point(e.1, player)
    }

    /// The victory points of `player`: the number of cells that hold a
    /// token of `player`, locked or not, that scores.
    pub open spec fn victory_points(self, player: Player) -> nat {
        self.grid().filter(self.scores_for(player)).len()
    }

    /// How the game stands: it goes on while a legal move is left; then the
    /// player with more victory points has won, and equal points are a draw.
    pub open spec fn outcome(self) -> WinState {
        if self.legal_moves().len() > 0 {
            WinState::NotOver
        } else if self.victory_points(0) == self.victory_points(1) {
            WinState::Draw
        } else if self.victory_points(0) > self.victory_points(1) {
            WinState::Winner(0)
        } else {
            WinState::Winner(1)
        }
    }

    /// The `i`-th cell lies in the grid, and its coordinate leads back to it.
    pub proof fn lemma_coordinate_at(self, i: int)
        requires
            self.wf(),
            0 <= i < self.cells.len(),
        ensures
            self.in_grid(self.coordinate_at(i)),
            self.has_cell(self.coordinate_at(i)),
            self.index_of(self.coordinate_at(i)) == i,
    {
        let w = self.width as int;
        let h = self.height as int;
        assert(w > 0 && 0 <= i % w < w && 0 <= i / w < h && w * (i / w) + i % w == i)
            by (nonlinear_arith)
            requires
                0 <= i < w * h,
                0 <= w,
                0 <= h,
        ;
    }

    /// A coordinate of the grid leads to a cell, the one whose coordinate it
    /// is.
    pub proof fn lemma_index_of(self, c: Coordinate)
        requires
            self.wf(),
            self.in_grid(c),
        ensures
            self.has_cell(c),
            0 <= self.index_of(c),
            self.coordinate_at(self.index_of(c)) == c,
    {
        let w = self.width as int;
        let h = self.height as int;
        let x = c.x as int;
        let y = c.y as int;
        assert(0 <= w * y + x < w * h && (w * y + x) % w == x && (w * y + x) / w == y)
            by (nonlinear_arith)
            requires
                0 <= x < w,
                0 <= y < h,
        ;
    }

    /// A number that every legal move lowers: twice the empty cells plus the
    /// unlocked tokens.
    pub open spec fn potential(self) -> nat {
        total_weight(self.cells)
    }
}

} // verus!
