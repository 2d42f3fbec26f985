//! Frame acquisition model and point-cloud streaming logic for a
//! time-of-flight depth camera.
pub mod frame;
pub mod bytes;
pub mod codec;
pub mod filter;
pub mod command;
pub mod camera;
pub mod projector;
