//! The board: a grid of cells and the player to move, with the moves that
//! lead from one board to the next.

use crate::model::{locked, movable, other_than, owned_by, position, swap_from, BoardView};
use crate::pieces::{c, Cell, Coordinate, Move, Player, Token, WinState};
use vstd::prelude::*;

verus! {

/// The state of a game: the size of the grid, its cells row by row, and the
/// player to move. A board is never changed once it is made: a move gives a
/// new board.
#[derive(Debug)]
pub struct Board {
    current_turn: Player,
    cells: Vec<Cell>,
    size: (usize, usize),
}

impl View for Board {
    type V = BoardView;

    closed spec fn view(&self) -> BoardView {
        BoardView {
            width: self.size.0,
            height: self.size.1,
            turn: self.current_turn,
            cells: self.cells@,
        }
    }
}

impl Clone for Board {
    /// A copy that holds the same cells, size and turn.
    fn clone(&self) -> (copy: Board)
        ensures
            copy@ == self@,
    {
        let mut cells: Vec<Cell> = Vec::new();
        let mut i: usize = 0;
        while i < self.cells.len()
            invariant
                i <= self.cells.len(),
                cells@ == self.cells@.take(i as int),
            decreases self.cells.len() - i,
        {
            cells.push(self.cells[i]);
            i += 1;
        }
        assert(cells@ == self.cells@);
        Board { current_turn: self.current_turn, cells, size: self.size }
    }
}

impl Board {
    /// Whether the board is sound: see [`BoardView::wf`].
    pub open spec fn wf(&self) -> bool {
        self@.wf()
    }

    /// An empty board of `size.0` columns and `size.1` rows, with player 0
    /// to move.
    pub fn new(size: (usize, usize)) -> (board: Board)
        requires
            size.0 * size.1 <= usize::MAX,
        ensures
            board.wf(),
            board@ == BoardView::empty(size.0, size.1),
    {
        let count: usize = size.0 * size.1;
        let mut cells: Vec<Cell> = Vec::new();
        let mut i: usize = 0;
        while i < count
            invariant
                i <= count,
                cells@ == Seq::new(i as nat, |k: int| None::<Token>),
            decreases count - i,
        {
            cells.push(None);
            i += 1;
        }
        Board { current_turn: 0, cells, size }
    }

    /// The number of columns and the number of rows.
    pub fn size(&self) -> (size: (usize, usize))
        ensures
            size.0 == self@.width,
            size.1 == self@.height,
    {
        self.size
    }

    /// The player to move.
    pub fn current_turn(&self) -> (player: Player)
        ensures
            player == self@.turn,
    {
        self.current_turn
    }

    /// Where the cell of `coordinate` stands among the cells.
    fn cell_index(&self, coordinate: Coordinate) -> (index: usize)
        requires
            self.wf(),
            self@.has_cell(coordinate),
        ensures
            index == self@.index_of(coordinate),
    {
        assert(0 <= self.size.0 * coordinate.y) by (nonlinear_arith);
        assert(self.size.0 * coordinate.y + coordinate.x < self.cells.len());
        self.size.0 * coordinate.y + coordinate.x
    }

    /// What the board holds at `c`.
    pub fn get_cell(&self, c: Coordinate) -> (cell: Cell)
        requires
            self.wf(),
            self@.has_cell(c),
        ensures
            cell == self@.cell(c),
    {
        self.cells[self.cell_index(c)]
    }

    /// A copy of the board with `token` at `coordinate`.
    fn set_cell(&self, coordinate: Coordinate, token: Token) -> (board: Board)
        requires
            self.wf(),
            self@.has_cell(coordinate),
        ensures
            board@ == (BoardView {
                cells: self@.cells.update(self@.index_of(coordinate), Some(token)),
                ..self@
            }),
    {
        let mut new_state = self.clone();
        let index = self.cell_index(coordinate);
        new_state.cells[index] = Some(token);
        new_state
    }

    /// Every cell with its coordinate, row by row.
    fn get_cells(&self) -> (listed: Vec<(Cell, Coordinate)>)
        requires
            self.wf(),
        ensures
            listed@ == self@.grid(),
    {
        let mut listed: Vec<(Cell, Coordinate)> = Vec::new();
        let mut y: usize = 0;
        while y < self.size.1
            invariant
                self.wf(),
                y <= self.size.1,
                0 <= self.size.0 * y <= self.cells@.len(),
                listed@ == self@.grid().take(self.size.0 * y),
            decreases self.size.1 - y,
        {
            let mut x: usize = 0;
            while x < self.size.0
                invariant
                    self.wf(),
                    y < self.size.1,
                    x <= self.size.0,
                    0 <= self.size.0 * y,
                    self.size.0 * y + x <= self.cells@.len(),
                    listed@ == self@.grid().take(self.size.0 * y + x),
                decreases self.size.0 - x,
            {
                let here = c(x, y);
                proof {
                    self@.lemma_index_of(here);
                }
                listed.push((self.get_cell(here), here));
                proof {
                    let k = self.size.0 * y + x;
                    assert(self@.grid().take(k + 1) == self@.grid().take(k).push(self@.grid()[k]));
                }
                x += 1;
            }
            assert(self.size.0 * y + self.size.0 == self.size.0 * (y + 1)) by (nonlinear_arith);
            y += 1;
        }
        assert(self@.grid().take(self.size.0 * self.size.1) == self@.grid());
        listed
    }

    /// The coordinates next to `cell_coordinates`: see
    /// [`BoardView::neighbor_coordinates`].
    fn cells_neighbor_coordinates(&self, cell_coordinates: Coordinate) -> (neighbors: Vec<
        Coordinate,
    >)
        requires
            self@.width > 0,
        ensures
            neighbors@ == self@.neighbor_coordinates(cell_coordinates),
    {
        let mut neighbors: Vec<Coordinate> = Vec::new();
        if cell_coordinates.x > 0 {
            neighbors.push(c(cell_coordinates.x - 1, cell_coordinates.y));
        }
        if cell_coordinates.x < self.size.0 - 1 {
            neighbors.push(c(cell_coordinates.x + 1, cell_coordinates.y));
        }
        if cell_coordinates.y > 0 {
            neighbors.push(c(cell_coordinates.x, cell_coordinates.y - 1));
        }
        if cell_coordinates.y < self.size.0 - 1 {
            neighbors.push(c(cell_coordinates.x, cell_coordinates.y + 1));
        }
        assert(neighbors@ == self@.neighbor_coordinates(cell_coordinates));
        neighbors
    }

    /// What the board holds at `c`, a coordinate whose column is in the
    /// grid; nothing if its row is not.
    fn cell_in_column(&self, c: Coordinate) -> (cell: Cell)
        requires
            self.wf(),
            c.x < self@.width,
        ensures
            cell == self@.cell(c),
    {
        if c.y < self.size.1 {
            proof {
                self@.lemma_index_of(c);
            }
            self.get_cell(c)
        } else {
            proof {
                let w = self.size.0 as int;
                let h = self.size.1 as int;
                let y = c.y as int;
                assert(w * h <= w * y) by (nonlinear_arith)
                    requires
                        0 <= w,
                        h <= y,
                ;
            }
            None
        }
    }

    /// Every cell with its coordinate, row by row, and with each the cells
    /// next to it.
    pub fn cells_and_neighbors(&self) -> (listed: Vec<
        ((Cell, Coordinate), Vec<(Cell, Coordinate)>),
    >)
        requires
            self.wf(),
        ensures
            listed@.len() == self@.cells.len(),
            forall|i: int|
                0 <= i < listed@.len() ==> (#[trigger] listed@[i]).0 == self@.grid()[i]
                    && listed@[i].1@ == self@.neighbor_cells(self@.coordinate_at(i)),
    {
        let cells = self.get_cells();
        let mut listed: Vec<((Cell, Coordinate), Vec<(Cell, Coordinate)>)> = Vec::new();
        let mut i: usize = 0;
        while i < cells.len()
            invariant
                self.wf(),
                cells@ == self@.grid(),
                i <= cells.len(),
                listed@.len() == i,
                forall|k: int|
                    0 <= k < i ==> (#[trigger] listed@[k]).0 == self@.grid()[k] && listed@[k].1@
                        == self@.neighbor_cells(self@.coordinate_at(k)),
            decreases cells.len() - i,
        {
            let (cell, coordinate) = cells[i];
            proof {
                self@.lemma_coordinate_at(i as int);
            }
            let around = self.cells_neighbor_coordinates(coordinate);
            let mut neighbors: Vec<(Cell, Coordinate)> = Vec::new();
            let mut j: usize = 0;
            while j < around.len()
                invariant
                    self.wf(),
                    self@.in_grid(coordinate),
                    around@ == self@.neighbor_coordinates(coordinate),
                    j <= around.len(),
                    neighbors@ == around@.take(j as int).map_values(self@.looked_up()),
                decreases around.len() - j,
            {
                let neighbor_coordinate = around[j];
                neighbors.push((self.cell_in_column(neighbor_coordinate), neighbor_coordinate));
                assert(around@.take(j + 1) == around@.take(j as int).push(around@[j as int]));
                j += 1;
            }
            assert(around@.take(around@.len() as int) == around@);
            listed.push(((cell, coordinate), neighbors));
            i += 1;
        }
        listed
    }

    /// Whether a token of `player` scores among `neighbors`: more than three
    /// of them hold a token of `player`.
    fn cell_is_victory_point(neighbors: &Vec<(Cell, Coordinate)>, player: Player) -> (scores: bool)
        ensures
            scores == (neighbors@.filter(owned_by(player)).len() > 3),
    {
        let mut count: usize = 0;
        let mut i: usize = 0;
        while i < neighbors.len()
            invariant
                i <= neighbors.len(),
                count <= i,
                count == neighbors@.take(i as int).filter(owned_by(player)).len(),
            decreases neighbors.len() - i,
        {
            proof {
                assert(neighbors@.take(i + 1) == neighbors@.take(i as int).push(
                    neighbors@[i as int],
                ));
                neighbors@.take(i as int).lemma_filter_push(neighbors@[i as int], owned_by(player));
            }
            match neighbors[i].0 {
                Some(token) => {
                    if token.player == player {
                        count += 1;
                    }
                },
                None => {},
            }
            i += 1;
        }
        assert(neighbors@.take(neighbors@.len() as int) == neighbors@);
        count > 3
    }

    /// The locking sweep: locks every unlocked token that scores on the
    /// board as it stands when the sweep begins.
    fn update_locked_cells(&mut self)
        requires
            old(self).wf(),
        ensures
            final(self).wf(),
            final(self)@ == old(self)@.swept(),
    {
        let ghost before = self@;
        let ghost mut indices: Seq<int> = Seq::empty();
        let listed = self.cells_and_neighbors();
        let mut cells_to_lock: Vec<Coordinate> = Vec::new();
        let mut i: usize = 0;
        while i < listed.len()
            invariant
                self@ == before,
                before.wf(),
                i <= listed.len(),
                listed@.len() == before.cells.len(),
                forall|k: int|
                    0 <= k < listed@.len() ==> (#[trigger] listed@[k]).0 == before.grid()[k]
                        && listed@[k].1@ == before.neighbor_cells(before.coordinate_at(k)),
                cells_to_lock@.len() == indices.len(),
                forall|k: int|
                    0 <= k < indices.len() ==> 0 <= #[trigger] indices[k] < i
                        && before.sweep_locks(indices[k]) && cells_to_lock@[k]
                        == before.coordinate_at(indices[k]),
                forall|n: int| 0 <= n < i && before.sweep_locks(n) ==> indices.contains(n),
            decreases listed.len() - i,
        {
            let cell = listed[i].0.0;
            let coordinate = listed[i].0.1;
            let ghost found = indices;
            match cell {
                Some(token) => {
                    if !token.locked && Self::cell_is_victory_point(&listed[i].1, token.player) {
                        cells_to_lock.push(coordinate);
                        proof {
                            indices = indices.push(i as int);
                        }
                    }
                },
                None => {},
            }
            proof {
                assert forall|n: int| 0 <= n < i + 1 && before.sweep_locks(n) implies indices.contains(
                    n,
                ) by {
                    if n < i {
                        let k = found.index_of(n);
                        assert(indices[k] == n);
                    } else {
                        assert(indices[found.len() as int] == n);
                    }
                }
            }
            i += 1;
        }
        let mut j: usize = 0;
        while j < cells_to_lock.len()
            invariant
                before.wf(),
                j <= cells_to_lock.len(),
                cells_to_lock@.len() == indices.len(),
                forall|k: int|
                    0 <= k < indices.len() ==> 0 <= #[trigger] indices[k] < before.cells.len()
                        && cells_to_lock@[k] == before.coordinate_at(indices[k]),
                self@.width == before.width,
                self@.height == before.height,
                self@.turn == before.turn,
                self@.cells == locked_at(before.cells, indices.take(j as int)),
            decreases cells_to_lock.len() - j,
        {
            let coordinate = cells_to_lock[j];
            proof {
                before.lemma_coordinate_at(indices[j as int]);
            }
            let cell_index = self.cell_index(coordinate);
            match self.cells[cell_index] {
                Some(token) => {
                    self.cells[cell_index] = Some(Token { player: token.player, locked: true });
                },
                None => {},
            }
            proof {
                assert(indices.take(j + 1) == indices.take(j as int).push(indices[j as int]));
                lemma_locked_at_push(before.cells, indices.take(j as int), indices[j as int]);
            }
            j += 1;
        }
        proof {
            assert(indices.take(indices.len() as int) == indices);
            assert(self@.cells == before.swept().cells);
        }
    }

    /// The legal moves, in their order: see [`BoardView::legal_moves`].
    pub fn get_legal_moves(&self) -> (moves: Vec<Move>)
        requires
            self.wf(),
        ensures
            moves@ == self@.legal_moves(),
    {
        let cells = self.get_cells();
        let mut unlocked_populated_cells: Vec<Coordinate> = Vec::new();
        let mut i: usize = 0;
        while i < cells.len()
            invariant
                cells@ == self@.grid(),
                i <= cells.len(),
                unlocked_populated_cells@ == cells@.take(i as int).filter(movable()).map_values(
                    position(),
                ),
            decreases cells.len() - i,
        {
            proof {
                assert(cells@.take(i + 1) == cells@.take(i as int).push(cells@[i as int]));
                cells@.take(i as int).lemma_filter_push(cells@[i as int], movable());
            }
            match cells[i].0 {
                Some(token) => {
                    if !token.locked {
                        unlocked_populated_cells.push(cells[i].1);
                    }
                },
                None => {},
            }
            i += 1;
        }
        assert(cells@.take(cells@.len() as int) == cells@);
        let mut moves: Vec<Move> = Vec::new();
        let mut i: usize = 0;
        while i < cells.len()
            invariant
                cells@ == self@.grid(),
                i <= cells.len(),
                unlocked_populated_cells@ == self@.unlocked_coordinates(),
                moves@ == self@.moves_before(i as int),
            decreases cells.len() - i,
        {
            let coordinate = cells[i].1;
            proof {
                self@.lemma_moves_before_next(i as int);
            }
            match cells[i].0 {
                None => {
                    moves.push(Move::Place(coordinate));
                },
                Some(token) => {
                    if !token.locked {
                        let ghost before = moves@;
                        let mut j: usize = 0;
                        while j < unlocked_populated_cells.len()
                            invariant
                                j <= unlocked_populated_cells.len(),
                                moves@ == before + unlocked_populated_cells@.take(j as int).filter(
                                    other_than(coordinate),
                                ).map_values(swap_from(coordinate)),
                            decreases unlocked_populated_cells.len() - j,
                        {
                            let target = unlocked_populated_cells[j];
                            proof {
                                let all = unlocked_populated_cells@;
                                assert(all.take(j + 1) == all.take(j as int).push(all[j as int]));
                                all.take(j as int).lemma_filter_push(
                                    all[j as int],
                                    other_than(coordinate),
                                );
                            }
                            if target != coordinate {
                                moves.push(Move::Swap(coordinate, target));
                            }
                            j += 1;
                        }
                        assert(unlocked_populated_cells@.take(
                            unlocked_populated_cells@.len() as int,
                        ) == unlocked_populated_cells@);
                    }
                },
            }
            i += 1;
        }
        moves
    }

    /// The board after `move_`, or an error if the move is illegal: a
    /// placement on a cell that holds a token, or a swap with a cell that
    /// holds none. This board stays as it is.
    pub fn advance(&self, move_: Move) -> (result: Result<Board, ()>)
        requires
            self.wf(),
            self@.addresses(move_),
        ensures
            result is Ok <==> self@.accepts(move_),
            result matches Ok(next) ==> next.wf() && next@ == self@.after(move_),
    {
        let mut new_state = match move_ {
            Move::Place(coordinate) => {
                if self.get_cell(coordinate).is_some() {
                    return Err(());
                }
                self.set_cell(coordinate, Token { locked: false, player: self.current_turn })
            },
            Move::Swap(pos1, pos2) => {
                let first = match self.get_cell(pos1) {
                    Some(token) => token,
                    None => {
                        return Err(());
                    },
                };
                let second = match self.get_cell(pos2) {
                    Some(token) => token,
                    None => {
                        return Err(());
                    },
                };
                let mut new_state = self.clone();
                let index1 = self.cell_index(pos1);
                let index2 = self.cell_index(pos2);
                new_state.cells[index1] = Some(Token { player: second.player, locked: true });
                new_state.cells[index2] = Some(Token { player: first.player, locked: true });
                new_state
            },
        };
        assert(new_state@ == self@.moved(move_));
        new_state.update_locked_cells();
        new_state.current_turn = (new_state.current_turn + 1) % 2;
        Ok(new_state)
    }

    /// How the game stands: see [`BoardView::outcome`]. The game is over
    /// exactly when no legal move is left.
    pub fn check_win_condition(&self) -> (state: WinState)
        requires
            self.wf(),
        ensures
            state == self@.outcome(),
            state is NotOver <==> self@.legal_moves().len() > 0,
    {
        if !self.get_legal_moves().is_empty() {
            return WinState::NotOver;
        }
        let victory_points_per_player = self.count_victory_points();
        if victory_points_per_player[0] == victory_points_per_player[1] {
            return WinState::Draw;
        }
        if victory_points_per_player[0] > victory_points_per_player[1] {
            WinState::Winner(0)
        } else {
            WinState::Winner(1)
        }
    }

    /// The victory points of player 0 and of player 1, in this order.
    pub fn count_victory_points(&self) -> (points: Vec<usize>)
        requires
            self.wf(),
        ensures
            points@.len() == 2,
            points@[0] == self@.victory_points(0),
            points@[1] == self@.victory_points(1),
    {
        let mut points_per_player: Vec<usize> = Vec::new();
        let mut player: Player = 0;
        while player < 2
            invariant
                self.wf(),
                player <= 2,
                points_per_player@.len() == player,
                forall|p: int|
                    0 <= p < player ==> #[trigger] points_per_player@[p] == self@.victory_points(
                        p as Player,
                    ),
            decreases 2 - player,
        {
            let listed = self.cells_and_neighbors();
            let mut player_points: usize = 0;
            let mut i: usize = 0;
            while i < listed.len()
                invariant
                    self.wf(),
                    i <= listed.len(),
                    listed@.len() == self@.cells.len(),
                    forall|k: int|
                        0 <= k < listed@.len() ==> (#[trigger] listed@[k]).0 == self@.grid()[k]
                            && listed@[k].1@ == self@.neighbor_cells(self@.coordinate_at(k)),
                    player_points <= i,
                    player_points == self@.grid().take(i as int).filter(
                        self@.scores_for(player),
                    ).len(),
                decreases listed.len() - i,
            {
                proof {
                    let grid = self@.grid();
                    assert(grid.take(i + 1) == grid.take(i as int).push(grid[i as int]));
                    grid.take(i as int).lemma_filter_push(grid[i as int], self@.scores_for(player));
                }
                match listed[i].0.0 {
                    Some(token) => {
                        if token.player == player && Self::cell_is_victory_point(
                            &listed[i].1,
                            player,
                        ) {
                            player_points += 1;
                        }
                    },
                    None => {},
                }
                i += 1;
            }
            assert(self@.grid().take(listed@.len() as int) == self@.grid());
            points_per_player.push(player_points);
            player += 1;
        }
        points_per_player
    }
}

/// `cells` with the token of every cell whose index is in `at` locked.
spec fn locked_at(cells: Seq<Cell>, at: Seq<int>) -> Seq<Cell> {
    Seq::new(
        cells.len(),
        |n: int|
            if at.contains(n) {
                locked(cells[n])
            } else {
                cells[n]
            },
    )
}

/// To lock one cell more is to lock it in what has been locked so far.
proof fn lemma_locked_at_push(cells: Seq<Cell>, at: Seq<int>, i: int)
    requires
        0 <= i < cells.len(),
    ensures
        locked_at(cells, at.push(i)) == locked_at(cells, at).update(
            i,
            locked(locked_at(cells, at)[i]),
        ),
{
    let more = at.push(i);
    assert(more[at.len() as int] == i);
    assert forall|n: int| 0 <= n < cells.len() implies locked_at(cells, more)[n] == locked_at(
        cells,
        at,
    ).update(i, locked(locked_at(cells, at)[i]))[n] by {
        if at.contains(n) {
            let k = at.index_of(n);
            assert(more[k] == n);
        }
        if more.contains(n) && n != i {
            let k = more.index_of(n);
            assert(at[k] == n);
        }
    }
}

} // verus!
