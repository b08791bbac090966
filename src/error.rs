use vstd::prelude::*;

verus! {

/// Everything that can go wrong while loading the world or running a command.
#[derive(Clone, Copy, Debug, PartialEq, Eq, Structural)]
pub enum GameError {
    /// The world data holds a key that is not a pair of integers.
    DataFormat,
    /// The first word of the input names no registered command.
    UnknownCommand,
    /// A direction word is not one of the eight compass directions.
    InvalidDirection,
    /// No location is mapped at the coordinate asked for.
    UnknownLocation,
}

} // verus!
