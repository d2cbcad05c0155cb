//! Firmware logic for a three-axis dispensing gantry: the command grammar,
//! the watering-position list, the stepper motion profile, the paged
//! record store and the controller state machine.

pub mod command;
pub mod controller;
pub mod positions;
pub mod stepper;
pub mod storage;
pub mod text;
