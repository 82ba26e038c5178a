use debug_rpc::{
    bad_blocks, block_request, raw_receipts_reply, raw_reply, trace_call_reply,
    trace_call_request, Bytes, CallEnvelope, DecodeError, RequestBlockId, RequestBlockTag,
    RpcError, TraceParams,
};
use ethereum_types::H160;

#[test]
fn block_request_decodes_or_reports_invalid_params() {
    assert_eq!(block_request("0x10"), Ok(RequestBlockId::Number(16)));
    assert_eq!(block_request("pending"), Ok(RequestBlockId::Tag(RequestBlockTag::Pending)));
    assert_eq!(
        block_request("bogus"),
        Err(RpcError::InvalidParams(DecodeError::UnrecognizedBlockReference("bogus".to_string())))
    );
}

#[test]
fn raw_block_of_unknown_reference_is_null() {
    assert_eq!(raw_reply(None), Ok(None));
    assert_eq!(raw_reply(Some(Bytes(vec![1, 2]))), Ok(Some(Bytes(vec![1, 2]))));
}

#[test]
fn raw_receipts_of_unknown_block_are_empty() {
    assert_eq!(raw_receipts_reply(None), Ok(vec![]));
    let found = vec![Bytes(vec![1]), Bytes(vec![2, 3])];
    assert_eq!(raw_receipts_reply(Some(found.clone())), Ok(found));
}

#[test]
fn bad_blocks_are_always_empty() {
    assert_eq!(bad_blocks(&RequestBlockId::Number(0)), Ok(vec![]));
    assert_eq!(bad_blocks(&RequestBlockId::Tag(RequestBlockTag::Latest)), Ok(vec![]));
    assert_eq!(bad_blocks(&RequestBlockId::Hash([9u8; 32])), Ok(vec![]));
}

#[test]
fn trace_call_checks_recipient_before_block() {
    let r = trace_call_request::<u32>(CallEnvelope::default(), "bogus", None);
    assert_eq!(r, Err(RpcError::InvalidParams(DecodeError::MissingField("to".to_string()))));
}

#[test]
fn trace_call_rejects_unknown_block() {
    let env = CallEnvelope { to: Some(H160::repeat_byte(1)), ..CallEnvelope::default() };
    let r = trace_call_request::<u32>(env, "bogus", None);
    assert_eq!(
        r,
        Err(RpcError::InvalidParams(DecodeError::UnrecognizedBlockReference("bogus".to_string())))
    );
}

#[test]
fn trace_call_builds_the_request() {
    let to = H160::repeat_byte(0x42);
    let env = CallEnvelope { to: Some(to), ..CallEnvelope::default() };
    let params = TraceParams {
        disable_storage: Some(true),
        disable_memory: None,
        disable_stack: None,
        tracer: None,
        tracer_config: None::<u32>,
        timeout: None,
    };
    let req = trace_call_request(env, "LATEST", Some(params)).unwrap();
    assert_eq!(req.call.to, to);
    assert_eq!(req.block, RequestBlockId::Tag(RequestBlockTag::Latest));
    assert!(req.options.disable_storage);
    assert!(!req.options.disable_memory);
    assert!(req.options.tracer.is_none());
}

#[test]
fn trace_call_reply_relays_engine_failures() {
    assert_eq!(trace_call_reply::<u32>(Ok(7)), Ok(7));
    assert_eq!(
        trace_call_reply::<u32>(Err("execution timeout".to_string())),
        Err(RpcError::Server("execution timeout".to_string()))
    );
}
