use vstd::prelude::*;

use crate::gateway::error::ProtocolError;

verus! {

pub const ABSOLUTE_MAX_FRAME_SIZE: usize = 65536;
pub const MIN_NEGOTIABLE_FRAME_SIZE: usize = 1024;
pub const MAX_DATA_PAYLOAD: usize = 32768;
pub const MAX_CAPABILITY_TOKEN: usize = 4096;
pub const MAX_PROOF_OF_POSSESSION: usize = 4096;
pub const MAX_CAPABILITIES: usize = 32;
pub const MAX_CAPABILITY_NAME: usize = 64;
pub const MAX_HOSTNAME: usize = 253;
pub const MAX_RESOLVE_ADDRESSES: usize = 16;
pub const MAX_CONCURRENT_STREAMS: usize = 4096;
pub const MAX_STREAM_WINDOW: u64 = 4194304;
pub const MAX_CONNECTION_WINDOW: u64 = 16777216;
pub const MAX_TIMEOUT_MS: u32 = 120000;
pub const MAX_SESSION_TTL_SECONDS: u32 = 86400;
pub const MAX_DRAIN_TIMEOUT_MS: u32 = 30000;

/// Local hard limits. Negotiated peer limits can only reduce these values.
/// Timeouts are held in milliseconds.
#[derive(Clone, Copy, Debug)]
pub struct ProtocolLimits {
    pub maximum_frame_size: usize,
    pub maximum_concurrent_streams: usize,
    pub initial_connection_window: u32,
    pub initial_stream_window: u32,
    pub maximum_queued_bytes: usize,
    pub maximum_queued_bytes_per_stream: usize,
    pub maximum_control_frames: usize,
    pub maximum_outstanding_resolves: usize,
    pub handshake_timeout_ms: u64,
    pub idle_stream_timeout_ms: u64,
}

impl ProtocolLimits {
    /// The outcome of `validate`: the first failing group of limits names the error.
    pub open spec fn validation_result(&self) -> Result<(), ProtocolError> {
        if !(MIN_NEGOTIABLE_FRAME_SIZE <= self.maximum_frame_size <= ABSOLUTE_MAX_FRAME_SIZE) {
            Err(ProtocolError::InvalidField("maximum_frame_size"))
        } else if !(1 <= self.maximum_concurrent_streams <= MAX_CONCURRENT_STREAMS) {
            Err(ProtocolError::InvalidField("maximum_concurrent_streams"))
        } else if self.initial_connection_window == 0
            || self.initial_connection_window > MAX_CONNECTION_WINDOW {
            Err(ProtocolError::InvalidField("initial_connection_window"))
        } else if self.initial_stream_window == 0 || self.initial_stream_window > MAX_STREAM_WINDOW {
            Err(ProtocolError::InvalidField("initial_stream_window"))
        } else if self.maximum_queued_bytes == 0 || self.maximum_queued_bytes_per_stream == 0
            || self.maximum_queued_bytes_per_stream > self.maximum_queued_bytes
            || self.maximum_control_frames == 0 || self.maximum_outstanding_resolves == 0 {
            Err(ProtocolError::InvalidField("queue_limits"))
        } else if self.handshake_timeout_ms == 0 || self.idle_stream_timeout_ms == 0 {
            Err(ProtocolError::InvalidField("timeouts"))
        } else {
            Ok(())
        }
    }

    /// Checks every limit against the protocol's hard bounds.
    pub fn validate(&self) -> (result: Result<(), ProtocolError>)
        ensures
            result == self.validation_result(),
    {
        if !(MIN_NEGOTIABLE_FRAME_SIZE <= self.maximum_frame_size
            && self.maximum_frame_size <= ABSOLUTE_MAX_FRAME_SIZE) {
            return Err(ProtocolError::InvalidField("maximum_frame_size"));
        }
        if !(1 <= self.maximum_concurrent_streams
            && self.maximum_concurrent_streams <= MAX_CONCURRENT_STREAMS) {
            return Err(ProtocolError::InvalidField("maximum_concurrent_streams"));
        }
        if self.initial_connection_window == 0
            || self.initial_connection_window as u64 > MAX_CONNECTION_WINDOW {
            return Err(ProtocolError::InvalidField("initial_connection_window"));
        }
        if self.initial_stream_window == 0 || self.initial_stream_window as u64 > MAX_STREAM_WINDOW {
            return Err(ProtocolError::InvalidField("initial_stream_window"));
        }
        if self.maximum_queued_bytes == 0 || self.maximum_queued_bytes_per_stream == 0
            || self.maximum_queued_bytes_per_stream > self.maximum_queued_bytes
            || self.maximum_control_frames == 0 || self.maximum_outstanding_resolves == 0 {
            return Err(ProtocolError::InvalidField("queue_limits"));
        }
        if self.handshake_timeout_ms == 0 || self.idle_stream_timeout_ms == 0 {
            return Err(ProtocolError::InvalidField("timeouts"));
        }
        Ok(())
    }
}

impl Default for ProtocolLimits {
    /// The default hard limits.
    fn default() -> (limits: Self)
        ensures
            limits.maximum_frame_size == ABSOLUTE_MAX_FRAME_SIZE,
            limits.maximum_concurrent_streams == 512,
            limits.initial_connection_window == 4194304,
            limits.initial_stream_window == 262144,
            limits.maximum_queued_bytes == 8388608,
            limits.maximum_queued_bytes_per_stream == 262144,
            limits.maximum_control_frames == 256,
            limits.maximum_outstanding_resolves == 128,
            limits.handshake_timeout_ms == 30000,
            limits.idle_stream_timeout_ms == 120000,
            limits.validation_result() is Ok,
    {
        ProtocolLimits {
            maximum_frame_size: ABSOLUTE_MAX_FRAME_SIZE,
            maximum_concurrent_streams: 512,
            initial_connection_window: 4194304,
            initial_stream_window: 262144,
            maximum_queued_bytes: 8388608,
            maximum_queued_bytes_per_stream: 262144,
            maximum_control_frames: 256,
            maximum_outstanding_resolves: 128,
            handshake_timeout_ms: 30000,
            idle_stream_timeout_ms: 120000,
        }
    }
}

} // verus!
