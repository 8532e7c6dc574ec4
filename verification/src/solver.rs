//! A search through every line of play for a move that lets a player win.

use crate::board::Board;
use crate::laws::{legal_moves_are_accepted, legal_moves_lower_potential, move_keeps_board_sound};
use crate::model::BoardView;
use crate::pieces::{Move, Player, WinState};
use vstd::prelude::*;

verus! {

impl BoardView {
    /// Whether `m`, a legal move, wins for `player`: the game is over after
    /// it and `player` has won, or `player` can still win from the board
    /// after it.
    pub open spec fn wins_with(self, m: Move, player: Player) -> bool
        decreases self.potential(), 0int,
        when self.wf() && self.legal_moves().contains(m)
    {
        proof {
            legal_moves_lower_potential(self, m);
        }
        self.after(m).outcome() == WinState::Winner(player) || self.after(m).can_win(player)
    }

    /// Whether some line of play from this board, with either player moving
    /// as `player` would have it, ends with `player` as the winner.
    pub open spec fn can_win(self, player: Player) -> bool
        decreases self.potential(), 1int,
    {
        self.wf() && exists|k: int|
            0 <= k < self.legal_moves().len() && self.wins_with(
                #[trigger] self.legal_moves()[k],
                player,
            )
    }
}

/// The search for a winning move. It keeps nothing between calls.
#[derive(Debug, Default)]
pub struct Solver {}

impl Solver {
    /// The first legal move, in the order of the legal moves, after which
    /// `player` has won or can still win; nothing if there is no such move,
    /// and so nothing on a board on which the game is over.
    pub fn find_best_move(&self, board: &Board, player: u32) -> (best: Option<Move>)
        requires
            board.wf(),
        ensures
            best is Some <==> board@.can_win(player),
            best matches Some(m) ==> exists|k: int|
                0 <= k < board@.legal_moves().len() && #[trigger] board@.legal_moves()[k] == m
                    && board@.wins_with(m, player) && forall|j: int|
                    0 <= j < k ==> !board@.wins_with(#[trigger] board@.legal_moves()[j], player),
        decreases board@.potential(),
    {
        match board.check_win_condition() {
            WinState::NotOver => {},
            _ => {
                return None;
            },
        }
        let legal_moves = board.get_legal_moves();
        if legal_moves.is_empty() {
            return None;
        }
        let mut i: usize = 0;
        while i < legal_moves.len()
            invariant
                board.wf(),
                legal_moves@ == board@.legal_moves(),
                i <= legal_moves.len(),
                forall|j: int|
                    0 <= j < i ==> !board@.wins_with(#[trigger] board@.legal_moves()[j], player),
            decreases legal_moves.len() - i,
        {
            let move_ = legal_moves[i];
            proof {
                assert(board@.legal_moves()[i as int] == move_);
                assert(board@.legal_moves().contains(move_));
                legal_moves_are_accepted(board@, move_);
                legal_moves_lower_potential(board@, move_);
                move_keeps_board_sound(board@, move_);
            }
            let new_state = board.advance(move_).expect("game logic failed");
            match new_state.check_win_condition() {
                WinState::Winner(winner) => {
                    if winner == player {
                        return Some(move_);
                    }
                },
                _ => {},
            }
            if self.find_best_move(&new_state, player).is_some() {
                return Some(move_);
            }
            i += 1;
        }
        None
    }
}

} // verus!
