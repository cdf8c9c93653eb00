//! The parts of the screen and what each of them can do.

pub mod input_states;
pub mod items;
pub mod lists;
