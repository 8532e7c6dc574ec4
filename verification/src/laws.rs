//! What holds of every board and every move, proved from the rules.

use crate::model::{
    cell_weight, holds_token_of, is_unlocked, movable, other_than, owned_by, total_weight,
    BoardView,
};
use crate::pieces::{c, Cell, Coordinate, Move, Player};
use vstd::prelude::*;

verus! {

/// Cells that weigh no more one by one weigh no more in sum.
pub proof fn lemma_total_weight_monotone(after: Seq<Cell>, before: Seq<Cell>)
    requires
        after.len() == before.len(),
        forall|i: int| 0 <= i < before.len() ==> cell_weight(after[i]) <= cell_weight(before[i]),
    ensures
        total_weight(after) <= total_weight(before),
    decreases before.len(),
{
    if before.len() > 0 {
        lemma_total_weight_monotone(after.drop_last(), before.drop_last());
    }
}

/// Cells that weigh no more one by one, and less at `k`, weigh less in sum.
pub proof fn lemma_total_weight_decreases(after: Seq<Cell>, before: Seq<Cell>, k: int)
    requires
        after.len() == before.len(),
        forall|i: int| 0 <= i < before.len() ==> cell_weight(after[i]) <= cell_weight(before[i]),
        0 <= k < before.len(),
        cell_weight(after[k]) < cell_weight(before[k]),
    ensures
        total_weight(after) < total_weight(before),
    decreases before.len(),
{
    if k == before.len() - 1 {
        lemma_total_weight_monotone(after.drop_last(), before.drop_last());
    } else {
        lemma_total_weight_decreases(after.drop_last(), before.drop_last(), k);
    }
}

impl BoardView {
    /// A move among those that start before cell `n` starts at one of these
    /// cells, and the other way round.
    pub proof fn lemma_moves_before_contains(self, n: int, m: Move)
        requires
            0 <= n,
        ensures
            self.moves_before(n).contains(m) <==> exists|i: int|
                0 <= i < n && #[trigger] self.moves_from(i).contains(m),
        decreases n,
    {
        if n == 0 {
            assert(self.moves_before(0) =~= Seq::<Move>::empty()) by {
                assert(Seq::new(0nat, |i: int| self.moves_from(i)) =~= Seq::<Seq<Move>>::empty());
            }
        } else {
            self.lemma_moves_before_contains(n - 1, m);
            self.lemma_moves_before_next(n - 1);
            let earlier = self.moves_before(n - 1);
            let last = self.moves_from(n - 1);
            let all = self.moves_before(n);
            assert(all == earlier + last);
            if all.contains(m) {
                let k = all.index_of(m);
                if k < earlier.len() {
                    assert(earlier[k] == m);
                } else {
                    assert(last[k - earlier.len()] == m);
                }
            }
            if earlier.contains(m) {
                let k = earlier.index_of(m);
                assert(all[k] == m);
            }
            if last.contains(m) {
                let k = last.index_of(m);
                assert(all[earlier.len() + k] == m);
            }
        }
    }

    /// The cells with an unlocked token are listed by the coordinates of the
    /// grid that hold one.
    pub proof fn lemma_unlocked_coordinates_contains(self, c: Coordinate)
        requires
            self.wf(),
        ensures
            self.unlocked_coordinates().contains(c) <==> self.in_grid(c) && is_unlocked(
                self.cell(c),
            ),
    {
        let chosen = self.grid().filter(movable());
        let listed = self.unlocked_coordinates();
        if listed.contains(c) {
            let k = listed.index_of(c);
            let e = chosen[k];
            assert(chosen.contains(e));
            self.grid().lemma_filter_contains_rev(movable(), e);
            self.grid().lemma_filter_pred(movable(), k);
            let i = self.grid().index_of(e);
            self.lemma_coordinate_at(i);
        }
        if self.in_grid(c) && is_unlocked(self.cell(c)) {
            self.lemma_index_of(c);
            let i = self.index_of(c);
            assert(self.grid()[i] == (self.cell(c), c));
            self.grid().lemma_filter_contains(movable(), i);
            let k = chosen.index_of(self.grid()[i]);
            assert(listed[k] == c);
        }
    }

    /// The moves that start at the `i`-th cell are the legal moves whose
    /// first coordinate is that of the `i`-th cell.
    pub proof fn lemma_moves_from_contains(self, i: int, m: Move)
        requires
            self.wf(),
            0 <= i < self.cells.len(),
        ensures
            self.moves_from(i).contains(m) <==> self.is_legal(m) && self.starts_at(m)
                == self.coordinate_at(i),
    {
        let here = self.coordinate_at(i);
        self.lemma_coordinate_at(i);
        let from_here = self.moves_from(i);
        match self.cells[i] {
            None => {
                assert(from_here[0] == Move::Place(here));
            },
            Some(t) => {
                if !t.locked {
                    let others = self.unlocked_coordinates().filter(other_than(here));
                    if from_here.contains(m) {
                        let k = from_here.index_of(m);
                        let target = others[k];
                        assert(others.contains(target));
                        self.unlocked_coordinates().lemma_filter_contains_rev(
                            other_than(here),
                            target,
                        );
                        self.unlocked_coordinates().lemma_filter_pred(other_than(here), k);
                        self.lemma_unlocked_coordinates_contains(target);
                    }
                    if self.is_legal(m) && self.starts_at(m) == here {
                        let target = m->Swap_1;
                        self.lemma_unlocked_coordinates_contains(target);
                        let j = self.unlocked_coordinates().index_of(target);
                        self.unlocked_coordinates().lemma_filter_contains(other_than(here), j);
                        let k = others.index_of(target);
                        assert(from_here[k] == m);
                    }
                }
            },
        }
    }

    /// The listed legal moves are the moves that are legal: every placement
    /// on an empty cell of the grid, and every swap of two different cells of
    /// the grid that both hold an unlocked token.
    pub proof fn lemma_legal_moves_contains(self, m: Move)
        requires
            self.wf(),
        ensures
            self.legal_moves().contains(m) <==> self.is_legal(m),
    {
        let n = self.cells.len() as int;
        self.lemma_moves_before_contains(n, m);
        if self.legal_moves().contains(m) {
            let i = choose|i: int| 0 <= i < n && #[trigger] self.moves_from(i).contains(m);
            self.lemma_moves_from_contains(i, m);
        }
        if self.is_legal(m) {
            let start = self.starts_at(m);
            self.lemma_index_of(start);
            let i = self.index_of(start);
            self.lemma_moves_from_contains(i, m);
            assert(self.moves_from(i).contains(m));
        }
    }
}

/// A move keeps the board sound: the grid keeps its size and its number of
/// cells, and it is again the turn of player 0 or 1.
pub proof fn move_keeps_board_sound(board: BoardView, m: Move)
    requires
        board.wf(),
        board.addresses(m),
    ensures
        board.after(m).wf(),
        board.after(m).width == board.width,
        board.after(m).height == board.height,
        board.after(m).cells.len() == board.cells.len(),
{
}

/// Every move among the legal moves can be applied: its coordinates lead to
/// cells of the board, and the board accepts it.
pub proof fn legal_moves_are_accepted(board: BoardView, m: Move)
    requires
        board.wf(),
        board.legal_moves().contains(m),
    ensures
        board.addresses(m),
        board.accepts(m),
{
    board.lemma_legal_moves_contains(m);
    match m {
        Move::Place(c) => {
            board.lemma_index_of(c);
        },
        Move::Swap(a, b) => {
            board.lemma_index_of(a);
            board.lemma_index_of(b);
        },
    }
}

/// A cell that holds a token holds one after any move that the board
/// accepts.
pub proof fn occupied_cells_stay_occupied(board: BoardView, m: Move, c: Coordinate)
    requires
        board.wf(),
        board.addresses(m),
        board.accepts(m),
        board.cell(c) is Some,
    ensures
        board.after(m).cell(c) is Some,
{
}

/// A locked token stays where it is, locked and with its player, after any
/// legal move.
pub proof fn locked_tokens_stay(board: BoardView, m: Move, c: Coordinate)
    requires
        board.wf(),
        board.legal_moves().contains(m),
        board.cell(c) matches Some(t) && t.locked,
    ensures
        board.after(m).cell(c) == board.cell(c),
{
    legal_moves_are_accepted(board, m);
    board.lemma_legal_moves_contains(m);
}

/// After a move it is the other player's turn.
pub proof fn turns_alternate(board: BoardView, m: Move)
    requires
        board.wf(),
    ensures
        board.after(m).turn == (board.turn + 1) % 2,
        board.after(m).turn != board.turn,
{
}

/// Every legal move lowers the potential of the board, so no game goes on
/// for ever.
pub proof fn legal_moves_lower_potential(board: BoardView, m: Move)
    requires
        board.wf(),
        board.legal_moves().contains(m),
    ensures
        board.after(m).potential() < board.potential(),
{
    legal_moves_are_accepted(board, m);
    board.lemma_legal_moves_contains(m);
    let k = board.index_of(board.starts_at(m));
    board.lemma_index_of(board.starts_at(m));
    let next = board.after(m);
    assert forall|i: int| 0 <= i < board.cells.len() implies cell_weight(next.cells[i])
        <= cell_weight(board.cells[i]) by {
        let moved = board.moved(m);
        assert(cell_weight(moved.cells[i]) <= cell_weight(board.cells[i]));
        assert(cell_weight(moved.swept().cells[i]) <= cell_weight(moved.cells[i]));
    }
    assert(cell_weight(next.cells[k]) < cell_weight(board.cells[k])) by {
        let moved = board.moved(m);
        assert(cell_weight(moved.cells[k]) < cell_weight(board.cells[k]));
        assert(cell_weight(moved.swept().cells[k]) <= cell_weight(moved.cells[k]));
    }
    lemma_total_weight_decreases(next.cells, board.cells, k);
}

/// A token of `player` at `at` scores exactly if `at` has a neighbour on
/// each of its four sides and each of the four holds a token of `player`.
pub proof fn victory_point_has_four_friendly_neighbors(
    board: BoardView,
    at: Coordinate,
    player: Player,
)
    ensures
        board.is_victory_point(at, player) <==> {
            &&& 0 < at.x < board.width - 1
            &&& 0 < at.y < board.width - 1
            &&& holds_token_of(board.cell(c((at.x - 1) as usize, at.y)), player)
            &&& holds_token_of(board.cell(c((at.x + 1) as usize, at.y)), player)
            &&& holds_token_of(board.cell(c(at.x, (at.y - 1) as usize)), player)
            &&& holds_token_of(board.cell(c(at.x, (at.y + 1) as usize)), player)
        },
{
    let around = board.neighbor_cells(at);
    let test = owned_by(player);
    around.lemma_filter_len(test);
    if 0 < at.x < board.width - 1 && 0 < at.y < board.width - 1 {
        let none = Seq::<(Cell, Coordinate)>::empty();
        let one = none.push(around[0]);
        let two = one.push(around[1]);
        let three = two.push(around[2]);
        assert(around == three.push(around[3]));
        assert(none.filter(test).len() == 0) by {
            none.lemma_filter_len(test);
        }
        none.lemma_filter_push(around[0], test);
        one.lemma_filter_push(around[1], test);
        two.lemma_filter_push(around[2], test);
        three.lemma_filter_push(around[3], test);
    }
}

} // verus!
