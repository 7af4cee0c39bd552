use vstd::prelude::*;

verus! {

/// Why a board could not be built or seeded.
#[derive(Clone, Copy, Debug, PartialEq, Eq, Structural)]
pub enum BoardError {
    /// A board was asked for with a width or a height of zero.
    InvalidDimension,
    /// More seed coordinates were given than the board has cells.
    TooManySeeds,
    /// A coordinate names a row or a column outside the board.
    IndexOutOfBounds,
}

impl BoardError {
    /// What [`BoardError::message`] says of each error.
    pub open spec fn message_text(self) -> Seq<char> {
        match self {
            BoardError::InvalidDimension => "Invalid dimension"@,
            BoardError::TooManySeeds => "Too many states"@,
            BoardError::IndexOutOfBounds => "Index out of bounds"@,
        }
    }

    /// The error in words.
    pub fn message(&self) -> (text: String)
        ensures
            text@ == self.message_text(),
    {
        match self {
            BoardError::InvalidDimension => "Invalid dimension".to_owned(),
            BoardError::TooManySeeds => "Too many states".to_owned(),
            BoardError::IndexOutOfBounds => "Index out of bounds".to_owned(),
        }
    }
}

} // verus!
