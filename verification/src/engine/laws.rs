//! What holds of the engine beyond a single call.
pub mod buffers;
pub mod draws;
pub mod generations;
