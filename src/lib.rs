//! Request normalization for a debug/introspection RPC surface of an
//! Ethereum-compatible node: numeric text, block references, trace options
//! and call envelopes are turned into unambiguous requests.

pub mod block_id;
pub mod codec;
pub mod service;
pub mod trace;

pub use block_id::{RequestBlockId, RequestBlockTag};
pub use codec::{deserialize_u32_0x, DecodeError};
pub use trace::{normalize, Bytes, CallEnvelope, TraceCallParams, TraceOptions, TraceParams};
pub use service::{
    bad_blocks, block_request, raw_receipts_reply, raw_reply, trace_call_reply, trace_call_request,
    RpcError, TraceCallRequest,
};
