//! A falling-block puzzle engine: grid buffers, pieces, the playing field's
//! physics and the round's state machine, each with a verified contract.

pub mod buffer;
pub mod playground;
pub mod screen;
pub mod tetro;
pub mod units;
