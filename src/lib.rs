//! A generic two-dimensional cellular automaton engine on a toroidal grid.
use vstd::prelude::*;

pub mod coords;
pub mod fps;
pub mod game;
pub mod grid;
pub mod rules;
pub mod timer;

pub use crate::game::Game;
pub use crate::timer::Timer;

verus! {

/// A coordinate `(x, y)` on the grid.
pub type IndexType = (i32, i32);

/// An RGBA colour.
pub type Color = (u8, u8, u8, u8);

/// Width and height of a grid, in cells.
pub struct Size {
    pub width: u16,
    pub height: u16,
}

/// The values a grid holds.
pub trait DataType: Sized + Clone + Send + Sync + 'static {}

/// A transition rule: the next value of a cell from the square window of cells around it.
pub trait RuleSet: Sized + Clone + Send + Sync + 'static {
    type Data: DataType;

    /// The side of the window, odd, with the cell itself in the middle.
    const SOURCE_SIZE: u8;

    /// The next value of the cell in the middle of `source`.
    spec fn rule(source: Seq<Self::Data>) -> Self::Data;

    /// `source` holds the window row by row.
    fn next(source: &[&Self::Data]) -> (r: Self::Data)
        requires
            source@.len() == (Self::SOURCE_SIZE as nat) * (Self::SOURCE_SIZE as nat),
        ensures
            r == Self::rule(deref_all(source@)),
    ;
}

/// Cells that can be drawn as one colour.
pub trait ColoredDataType: DataType {
    spec fn color(&self) -> Color;

    fn get_color(&self) -> (c: Color)
        ensures
            c == self.color(),
    ;
}

/// Cells that can be drawn as one character.
pub trait PrintableDataType: DataType {
    spec fn glyph(&self) -> char;

    fn get_char(&self) -> (c: char)
        ensures
            c == self.glyph(),
    ;
}

/// Cells that can be drawn at random, to fill a grid at the start.
pub trait RandomInit: Sized {
    fn rnd() -> Self;
}

/// Reads a slice of references as the sequence of values they point to.
pub open spec fn deref_all<D>(s: Seq<&D>) -> Seq<D> {
    s.map_values(|d: &D| *d)
}

} // verus!
verus! {

/// What can go wrong when a grid is set up.
#[derive(Debug, PartialEq, Eq, Structural)]
pub enum GError {
    /// `size` cells do not split into rows of `width` cells.
    InitializationError { size: usize, width: u16 },
}

/// The result of a fallible operation of this library.
pub type GResult<T> = Result<T, GError>;

} // verus!
