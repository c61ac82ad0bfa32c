//! Laws of the walk, proved of every registry and every sequence of tokens.

pub mod clusters;
pub mod defaults;
pub mod exits;
pub mod frame;
pub mod lookups;
pub mod pickup;
pub mod toggles;
