//! Rules of a map-and-quiz game board.
//!
//! The board has contacts, lamps, a relay and a bell on port expanders. The library takes readings
//! of the inputs and answers with words for the output ports and tasks to be run later; buses,
//! timers and interrupts are the caller's.

pub mod game;
pub mod game_laws;
pub mod lamp_laws;
pub mod lamps;
pub mod laws;
pub mod line_laws;
pub mod pins;
pub mod play;
pub mod ports;
pub mod report;
pub mod run_laws;
pub mod shows;
pub mod state;
pub mod tables;
pub mod tasks;
pub mod text_laws;
