//! Core of an addressable-LED strip controller.
//!
//! The crate turns a small set of remotely configured parameters into a
//! stream of per-pixel color frames. It covers three subsystems:
//!
//! * a perceptually uniform color model (RGB, XYZ, CIELUV and cylindrical
//!   HCL coordinates) used to build smooth gradients, computed in
//!   fixed-point arithmetic so that every conversion carries an exact
//!   contract;
//! * an effect engine: four stateful frame generators (solid fill, hue
//!   rotation, two-color gradient, per-pixel oscillators) behind one
//!   configuration and iteration protocol;
//! * a command protocol adapter and a render-loop state machine that let an
//!   external controller change the active pattern at any moment without
//!   glitching the output.
//!
//! Network transport, the messaging wire protocol and the LED strip's
//! serial encoding are collaborators outside this crate: they exchange
//! plain topic/payload byte strings and finished frames with the library.

pub mod color;
pub mod config;
pub mod effect;
pub mod fixed;
pub mod laws;
pub mod protocol;
pub mod queue;
pub mod render;
pub mod text;
