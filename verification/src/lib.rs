//! Driver core for an 8x8 RGB LED matrix.
//!
//! The library models the whole signal path of the display controller:
//! color arithmetic and gamma correction, the fixed 8x8 pixel buffer with
//! its raw-byte view, the bit-banged shift-register protocol that turns an
//! image into a sequence of pin transitions, a fixed-capacity frame pool
//! with move-only handles, the serial receive state machine, and the
//! controller that hands completed frames from the receive path to the
//! display path. A small register machine and a Fibonacci helper from the
//! same code base are included as independent verified components.

pub mod color;
pub mod controller;
pub mod fibo;
pub mod image;
pub mod machine;
pub mod matrix;
pub mod pool;

pub use color::Color;
pub use image::Image;
pub use machine::Machine;
pub use machine::MachineError;
pub use matrix::Matrix;
