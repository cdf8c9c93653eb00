//! What the screen shows: selections, the text being typed, and the
//! components that act on the snapshot.

pub mod components;
pub mod laws;
pub mod list_state;
