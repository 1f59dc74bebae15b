//! Decision logic of a motion-control library for a differential-drive robot:
//! turning directions, the queue of motions a chassis runs, the flags that let
//! one motion wait behind another, sensor selection for odometry, how a group of
//! encoders reports and resets, when a controller's exit condition fires, and
//! the retry policy of IMU calibration.
//!
//! Everything here works on plain values; the floating-point control loops and
//! the device I/O that use these decisions live outside this crate.

pub mod calibration;
pub mod directions;
pub mod encoders;
pub mod motion_flags;
pub mod motion_queue;
pub mod motion_run;
pub mod odometry;
pub mod settle;
