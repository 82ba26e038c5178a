//! The debug operations as request/response mappings: decoding of their
//! parameters, and the replies built from what storage or the tracing engine
//! returned.

use vstd::prelude::*;
use vstd::string::StringSliceAdditionalSpecFns;

use crate::block_id::{is_block_ref_text, resolves_to, RequestBlockId};
use crate::codec::DecodeError;
use crate::trace::{
    call_with_recipient, is_missing_to, normalize, normalized, Bytes, CallEnvelope,
    TraceCallParams, TraceOptions, TraceParams,
};

verus! {

/// An error as the client sees it.
#[derive(Debug, Clone, PartialEq, Eq)]
pub enum RpcError {
    /// Malformed input; never retried.
    InvalidParams(DecodeError),
    /// A failure of the tracing engine, with its message.
    Server(String),
}

/// Everything the tracing engine needs for one traced call.
#[derive(Debug, PartialEq, Eq)]
pub struct TraceCallRequest<C> {
    pub call: TraceCallParams,
    pub block: RequestBlockId,
    pub options: TraceOptions<C>,
}

/// Decodes the block reference of a retrieval operation.
pub fn block_request(raw: &str) -> (r: Result<RequestBlockId, RpcError>)
    ensures
        match r {
            Ok(id) => resolves_to(raw.spec_bytes(), id),
            Err(e) => !is_block_ref_text(raw.spec_bytes()) && (e matches RpcError::InvalidParams(
                DecodeError::UnrecognizedBlockReference(t),
            ) && t@ == raw@),
        },
{
    match RequestBlockId::resolve(raw) {
        Ok(id) => Ok(id),
        Err(e) => Err(RpcError::InvalidParams(e)),
    }
}

/// Decodes the parameters of a traced call: the recipient is checked first,
/// then the block reference; the options are normalized.
pub fn trace_call_request<C>(
    call: CallEnvelope,
    block: &str,
    params: Option<TraceParams<C>>,
) -> (r: Result<TraceCallRequest<C>, RpcError>)
    ensures
        call.to is None ==> (r matches Err(RpcError::InvalidParams(e)) && is_missing_to(e)),
        call.to is Some && !is_block_ref_text(block.spec_bytes()) ==> (r matches Err(
            RpcError::InvalidParams(DecodeError::UnrecognizedBlockReference(t)),
        ) && t@ == block@),
        call.to is Some && is_block_ref_text(block.spec_bytes()) ==> (r matches Ok(req)
            && req.call == call_with_recipient(call, call.to->0) && resolves_to(
            block.spec_bytes(),
            req.block,
        ) && req.options == normalized(params)),
{
    let call = match TraceCallParams::from_envelope(call) {
        Ok(c) => c,
        Err(e) => {
            return Err(RpcError::InvalidParams(e));
        },
    };
    let block = match RequestBlockId::resolve(block) {
        Ok(id) => id,
        Err(e) => {
            return Err(RpcError::InvalidParams(e));
        },
    };
    Ok(TraceCallRequest { call, block, options: normalize(params) })
}

/// The reply to a traced call, from what the tracing engine returned: its
/// failures reach the client with their message.
pub fn trace_call_reply<T>(outcome: Result<T, String>) -> (r: Result<T, RpcError>)
    ensures
        match outcome {
            Ok(trace) => r == Ok::<T, RpcError>(trace),
            Err(msg) => r == Err::<T, RpcError>(RpcError::Server(msg)),
        },
{
    match outcome {
        Ok(trace) => Ok(trace),
        Err(msg) => Err(RpcError::Server(msg)),
    }
}

/// The reply to a raw header, block or transaction lookup: an unknown one is
/// `None`, not an error.
pub fn raw_reply(found: Option<Bytes>) -> (r: Result<Option<Bytes>, RpcError>)
    ensures
        r == Ok::<Option<Bytes>, RpcError>(found),
{
    Ok(found)
}

/// The reply to a raw receipts lookup: an unknown block gives no receipts.
pub fn raw_receipts_reply(found: Option<Vec<Bytes>>) -> (r: Result<Vec<Bytes>, RpcError>)
    ensures
        match found {
            Some(v) => r == Ok::<Vec<Bytes>, RpcError>(v),
            None => r matches Ok(v) && v@.len() == 0,
        },
{
    match found {
        Some(v) => Ok(v),
        None => Ok(Vec::new()),
    }
}

/// Recent bad blocks: none are tracked, so the list is always empty.
pub fn bad_blocks(_number: &RequestBlockId) -> (r: Result<Vec<()>, RpcError>)
    ensures
        r matches Ok(v) && v@.len() == 0,
{
    Ok(Vec::new())
}

} // verus!
