//! Discrete body-chain simulation for a grid snake.
//!
//! A head segment advances one grid cell per fixed tick, a chain of body
//! segments follows it, eating a treat splices a new tail segment in, and a
//! fixed-point interpolator eases each segment's rendered position toward its
//! grid cell independently of the tick rate.

pub mod grid;
pub mod input;
pub mod timer;
pub mod level;
pub mod chain;
pub mod interp;
pub mod debug;
pub mod game;
