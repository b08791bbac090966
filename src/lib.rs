pub mod assoc;
pub mod command;
pub mod coordinate;
pub mod error;
pub mod game;
pub mod location;
pub mod text;
