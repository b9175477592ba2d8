//! Gesture control for a lane-runner game: a body-tracking and a
//! webcam-motion front end that turn tracked quantities into abstract
//! gestures and key presses.
//!
//! All physical quantities are fixed-point integers: positions and heights
//! in micrometres, image coordinates in parts per million, timestamps and
//! durations in microseconds, and zone ratios in units of
//! `1 / webcam::zones::RATIO_ONE`, which keeps every zone's share of active
//! grid cells exact.
pub mod units;
pub mod seqs;
pub mod kinect;
pub mod webcam;
