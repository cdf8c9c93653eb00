//! The application: its state, the intents that change it, and the keys
//! that stand for them.

pub mod events;
pub mod laws;
pub mod state;
