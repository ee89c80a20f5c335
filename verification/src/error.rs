use vstd::prelude::*;

verus! {

/// Why an operation of the engine did not go through.
///
/// A stale surface is not among these: it is an expected event, answered by dropping the frame
/// and rebuilding the swapchain on the next one.
#[derive(Clone, Copy, Debug, PartialEq, Eq, Structural)]
pub enum EngineError {
    /// A request that can never be served, such as a buffer of zero elements.
    InvalidArgument,
    /// A write to a buffer that lives in device-local memory.
    ImmutableBuffer,
    /// Shader code that is not a whole number of words, or does not start with the magic word.
    InvalidShader,
    /// An event that does not answer what the engine last asked for.
    UnexpectedEvent,
    /// The driver refused a call; the code is the driver's own.
    DeviceError(i32),
}

impl EngineError {
    /// A short description for logs and panics.
    pub fn message(&self) -> (text: &'static str)
        ensures
            text@ == Self::message_of(*self)@,
    {
        match self {
            EngineError::InvalidArgument => "invalid argument",
            EngineError::ImmutableBuffer => "cannot write to gpu-only memory",
            EngineError::InvalidShader => "shader code is not valid SPIR-V",
            EngineError::UnexpectedEvent => "event does not answer the pending request",
            EngineError::DeviceError(_) => "the device reported an error",
        }
    }

    /// The description of `e`.
    pub open spec fn message_of(e: EngineError) -> &'static str {
        match e {
            EngineError::InvalidArgument => "invalid argument",
            EngineError::ImmutableBuffer => "cannot write to gpu-only memory",
            EngineError::InvalidShader => "shader code is not valid SPIR-V",
            EngineError::UnexpectedEvent => "event does not answer the pending request",
            EngineError::DeviceError(_) => "the device reported an error",
        }
    }
}

} // verus!
