//! The core of a keyboard-driven to-do manager.
//!
//! Lists hold items, and both are kept in order by integer order keys. The
//! modules, from the ground up:
//!
//! - [`db`]: the records, the ordered store that keeps them, the operations
//!   on lists and items, and what holds of the store whatever is done;
//! - [`ui`]: the snapshot of the store that the screen shows, the cursors
//!   over it, and the line of text being typed;
//! - [`app`]: the state of the application, the intents that change it, and
//!   the keys that stand for them on each screen;
//! - [`cli`]: the operations of the command line and the tables it prints;
//! - [`text`]: small operations on text.
//!
//! Nothing here touches a database, a terminal, a clipboard or a clock. The
//! store keeps a journal of its changes for the caller to make durable, an
//! operation that leaves work outside the state says so in what it returns,
//! and whatever stamps a record takes the time as an argument.

pub mod app;
pub mod cli;
pub mod db;
pub mod text;
pub mod ui;
