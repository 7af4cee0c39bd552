//! The decisions of a loop that shows a board generation after generation
//! until a key is pressed. Waiting for input and drawing are the caller's.

use crate::board::Board;
use vstd::prelude::*;

verus! {

/// What happened while the caller waited for input.
#[derive(Clone, Copy, Debug, PartialEq, Eq, Structural)]
pub enum Polled {
    /// A key was pressed.
    Key,
    /// Something else arrived: the window was resized, the mouse moved.
    Other,
    /// The wait ran out with no input.
    Nothing,
}

/// What the caller does next.
#[derive(Debug, PartialEq, Eq)]
pub enum Action {
    /// Leave the loop.
    Exit,
    /// Wait for input again.
    Ignore,
    /// Clear the display, show this frame, then wait for input again.
    Present(String),
}

/// One turn of the loop.
///
/// A key ends the run and any other input is passed over, both without
/// touching the board. When the wait ran out, the board as it stands is
/// handed back as a frame and the board moves on by one generation.
pub fn drive(board: &mut Board, polled: Polled) -> (action: Action)
    ensures
        match polled {
            Polled::Key => action is Exit && final(board)@ == old(board)@,
            Polled::Other => action is Ignore && final(board)@ == old(board)@,
            Polled::Nothing => {
                &&& action matches Action::Present(frame)
                &&& frame@ == old(board)@.text()
                &&& final(board)@ == old(board)@.step()
            },
        },
{
    match polled {
        Polled::Key => Action::Exit,
        Polled::Other => Action::Ignore,
        Polled::Nothing => {
            let frame: String = board.render();
            board.tick();
            Action::Present(frame)
        },
    }
}

} // verus!
