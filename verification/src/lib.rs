//! Core of a real-time renderer for an explicit graphics API.
//!
//! The library decides *what* the GPU is asked to do and in which order; it never talks to a
//! driver itself. Every operation records the device calls it stands for on a [`Device`], and
//! names the objects those calls create. A thin host program replays the record against the
//! real driver and reports back the few outcomes the decisions depend on: what the surface is
//! capable of, which image it handed out, and whether it went stale.
//!
//! What is proved here is the bookkeeping that explicit graphics APIs leave to the caller:
//! the round-robin of frame slots, the life cycle of the swapchain and its pipelines, the
//! ownership of every buffer, and the exact stream of calls of a frame.
pub mod allocated_buffer;
pub mod device;
pub mod engine;
pub mod error;
pub mod frame_sync;
pub mod hardware_query;
pub mod pipeline;
pub mod registry;
pub mod setup;
pub mod swapchain;

pub use allocated_buffer::AllocatedBuffer;
pub use device::{Command, Device, DeviceCall};
pub use engine::frame::{FrameAction, FrameEvent};
pub use engine::{Engine, FramePhase, MaterialId, Object, ObjectId};
pub use error::EngineError;
pub use frame_sync::{Frame, FrameSync};
pub use hardware_query::HardwareSelection;
pub use pipeline::{DrawType, Material, Pipeline};
pub use swapchain::{SurfaceCapabilities, SwapChainImage, Swapchain};
