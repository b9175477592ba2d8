//! Body-tracking front end: a body state (x offset, height, time) per frame
//! is turned into jump / crouch / lane gestures and then into key actions.
pub mod body_state;
pub mod gesture_detector;
pub mod key_sender;
pub mod actions;
pub mod sources;
pub mod cli;
