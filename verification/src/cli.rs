//! What the command line can ask for without the screen.

pub mod ops;
pub mod table;
