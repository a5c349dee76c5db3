//! Capture of microphone and system audio through a private aggregate
//! device, with the device-routing decisions, the sample pipeline and the
//! recording lifecycle stated and proved.

pub mod aggregate;
pub mod description;
pub mod directory;
pub mod error;
pub mod models;
pub mod paste;
pub mod planner;
pub mod sample;
pub mod state;
pub mod tap;
pub mod volume;
