//! A window of the board as text.

use crate::board::{state_at, Board};
use crate::cell::{glyph, Cell};
use vstd::prelude::*;
use vstd::string::StringExecFns;

verus! {

/// Row `y` as text: the cells of the columns from zero up to `width`, left to
/// right, then a line feed.
pub open spec fn row_text(live: Set<(int, int)>, y: int, width: int) -> Seq<char> {
    Seq::new(
        if width > 0 {
            width as nat
        } else {
            0
        },
        |x: int| glyph(state_at(live, (x, y))),
    ).push('\n')
}

/// The rows from zero up to `height` as text, one after the other.
pub open spec fn frame_text(live: Set<(int, int)>, width: int, height: int) -> Seq<char>
    decreases height,
{
    if height <= 0 {
        Seq::empty()
    } else {
        frame_text(live, width, height - 1) + row_text(live, height - 1, width)
    }
}

impl Board {
    /// The window of `x_window` columns and `y_window` rows that starts at the
    /// origin, as text: a line for each row, a full block for each live cell
    /// and a blank for each dead one.
    pub fn draw(&self, x_window: i32, y_window: i32) -> (frame: String)
        ensures
            frame@ == frame_text(self@, x_window as int, y_window as int),
    {
        let mut frame = String::new();
        let mut y: i32 = 0;
        while y < y_window
            invariant
                0 <= y,
                y <= y_window || y == 0,
                frame@ == frame_text(self@, x_window as int, y as int),
            decreases y_window - y,
        {
            let ghost above = frame@;
            let mut x: i32 = 0;
            while x < x_window
                invariant
                    0 <= x,
                    x <= x_window || x == 0,
                    frame@ == above + Seq::new(
                        x as nat,
                        |x: int| glyph(state_at(self@, (x, y as int))),
                    ),
                decreases x_window - x,
            {
                let cell = Cell { state: self.get((x, y)) };
                frame.append(cell.text());
                x += 1;
            }
            proof {
                reveal_strlit("\n");
            }
            frame.append("\n");
            assert(frame@ =~= above + row_text(self@, y as int, x_window as int));
            y += 1;
        }
        frame
    }
}

} // verus!
