//! Core engine of an infinite-canvas whiteboard.
//!
//! The crate covers the interaction logic of the canvas: the screen/canvas
//! coordinate transform, the spatial index used for hit testing, the scene
//! model with its bounded undo/redo history, the pointer-input state machine,
//! and the viewport-driven lifecycle policy for expensive embedded resources.
//! Rendering, file formats beyond CSV, and all window plumbing live outside
//! this crate and talk to it through plain values.

pub mod constants;
pub mod geom;
pub mod text;
pub mod range_utils;
pub mod types;
pub mod spatial;
pub mod board;
pub mod selection;
pub mod input;
pub mod lifecycle;
pub mod csv;
pub mod data_table;
