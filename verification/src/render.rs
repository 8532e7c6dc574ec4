//! The board as text: a header that names the player to move, then one line
//! for each row of the grid.

use crate::board::Board;
use crate::model::BoardView;
use crate::pieces::{c, Cell, Player};
use vstd::prelude::*;
use vstd::string::StringExecFns;

verus! {

/// The character that shows `cell`: a dot for an empty cell, the token's
/// glyph otherwise.
pub open spec fn cell_glyph(cell: Cell) -> char {
    match cell {
        None => '.',
        Some(token) => token.spec_glyph(),
    }
}

/// The digit that shows player 0 or player 1.
pub open spec fn player_digit(player: Player) -> char {
    if player == 0 {
        '0'
    } else {
        '1'
    }
}

impl BoardView {
    /// Row `y` as text: the glyphs of its cells, then a line feed.
    pub open spec fn row_text(self, y: int) -> Seq<char> {
        Seq::new(self.width as nat, |x: int| cell_glyph(self.cells[self.width * y + x])).push(
            '\n',
        )
    }

    /// The first `n` rows as text.
    pub open spec fn rows_text(self, n: int) -> Seq<char> {
        Seq::new(n as nat, |y: int| self.row_text(y)).flatten()
    }

    /// The header line, which names the player to move.
    pub open spec fn header_text(self) -> Seq<char> {
        " - Board: (current turn: "@ + seq![player_digit(self.turn), ')', '\n']
    }

    /// The board as text: the header line, then every row.
    pub open spec fn text(self) -> Seq<char> {
        self.header_text() + self.rows_text(self.height as int)
    }
}

/// The text of one cell: its glyph.
fn cell_text(cell: Cell) -> (text: &'static str)
    ensures
        text@ == seq![cell_glyph(cell)],
{
    proof {
        reveal_strlit(".");
        reveal_strlit("x");
        reveal_strlit("X");
        reveal_strlit("o");
        reveal_strlit("O");
        reveal_strlit("h");
        reveal_strlit("H");
    }
    let text = match cell {
        None => ".",
        Some(token) => {
            if token.player == 0 {
                if token.locked {
                    "X"
                } else {
                    "x"
                }
            } else if token.player == 1 {
                if token.locked {
                    "O"
                } else {
                    "o"
                }
            } else {
                if token.locked {
                    "H"
                } else {
                    "h"
                }
            }
        },
    };
    assert(text@ =~= seq![cell_glyph(cell)]);
    text
}

impl Board {
    /// The board as text: see [`BoardView::text`].
    pub fn render(&self) -> (text: String)
        requires
            self.wf(),
        ensures
            text@ == self@.text(),
    {
        let (width, height) = self.size();
        let mut text = String::from_str(" - Board: (current turn: ");
        proof {
            reveal_strlit("0");
            reveal_strlit("1");
            reveal_strlit(")\n");
        }
        if self.current_turn() == 0 {
            text.append("0");
        } else {
            text.append("1");
        }
        text.append(")\n");
        assert(text@ == self@.header_text());
        let mut y: usize = 0;
        while y < height
            invariant
                self.wf(),
                width == self@.width,
                height == self@.height,
                y <= height,
                text@ == self@.header_text() + self@.rows_text(y as int),
            decreases height - y,
        {
            let ghost before = text@;
            let mut x: usize = 0;
            while x < width
                invariant
                    self.wf(),
                    width == self@.width,
                    height == self@.height,
                    y < height,
                    x <= width,
                    text@ == before + Seq::new(
                        x as nat,
                        |k: int| cell_glyph(self@.cells[self@.width * y + k]),
                    ),
                decreases width - x,
            {
                let here = c(x, y);
                proof {
                    self@.lemma_index_of(here);
                }
                text.append(cell_text(self.get_cell(here)));
                x += 1;
            }
            proof {
                reveal_strlit("\n");
            }
            text.append("\n");
            proof {
                let rows = Seq::new(y as nat, |r: int| self@.row_text(r));
                let more = Seq::new((y + 1) as nat, |r: int| self@.row_text(r));
                assert(more == rows.push(self@.row_text(y as int)));
                rows.lemma_flatten_push(self@.row_text(y as int));
                assert(text@ == before + self@.row_text(y as int));
            }
            y += 1;
        }
        text
    }
}

} // verus!
