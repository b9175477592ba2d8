//! Webcam front end: motion ratios in four screen zones per frame are turned
//! into tap / hold events and then into key presses.
pub mod zones;
pub mod detector;
pub mod keysender;
pub mod config;
pub mod pipeline;
pub mod grid;
pub mod launcher;
pub mod overlay;
pub mod sources;
