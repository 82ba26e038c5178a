//! Trace options and call envelopes: defaults are filled where the contract
//! asks for them, and everything else passes through untouched.

use vstd::prelude::*;

use crate::codec::DecodeError;

verus! {

/// `ethereum_types::H160`, a 20-byte account address, carried as it is.
#[verifier::external_type_specification]
#[verifier::external_body]
pub struct ExH160(ethereum_types::H160);

/// `ethereum_types::U256`, a 256-bit unsigned integer, carried as it is.
#[verifier::external_type_specification]
#[verifier::external_body]
pub struct ExU256(ethereum_types::U256);

/// `ethereum::AccessListItem`, an EIP-2930 access declaration, carried as it is.
#[verifier::external_type_specification]
#[verifier::external_body]
pub struct ExAccessListItem(ethereum::AccessListItem);

/// A raw encoded byte sequence.
#[derive(Debug, Clone, Default, PartialEq, Eq)]
pub struct Bytes(pub Vec<u8>);

/// Tracing options as a client sends them. `C` is the structured tracer
/// configuration, whose meaning belongs to the tracing engine.
#[derive(Debug, Clone, PartialEq, Eq)]
pub struct TraceParams<C> {
    pub disable_storage: Option<bool>,
    pub disable_memory: Option<bool>,
    pub disable_stack: Option<bool>,
    /// Name of a tracer; absent selects the default step tracer.
    pub tracer: Option<String>,
    pub tracer_config: Option<C>,
    /// Duration text, interpreted by the tracing engine.
    pub timeout: Option<String>,
}

/// Tracing options with every flag decided.
#[derive(Debug, Clone, PartialEq, Eq)]
pub struct TraceOptions<C> {
    pub disable_storage: bool,
    pub disable_memory: bool,
    pub disable_stack: bool,
    pub tracer: Option<String>,
    pub tracer_config: Option<C>,
    pub timeout: Option<String>,
}

/// A call to trace as a client sends it; `to` may be missing here.
#[derive(Debug, Default, PartialEq, Eq)]
pub struct CallEnvelope {
    pub from: Option<ethereum_types::H160>,
    pub to: Option<ethereum_types::H160>,
    pub gas_price: Option<ethereum_types::U256>,
    pub max_fee_per_gas: Option<ethereum_types::U256>,
    pub max_priority_fee_per_gas: Option<ethereum_types::U256>,
    pub gas: Option<ethereum_types::U256>,
    pub value: Option<ethereum_types::U256>,
    pub data: Option<Bytes>,
    pub nonce: Option<ethereum_types::U256>,
    pub access_list: Option<Vec<ethereum::AccessListItem>>,
    pub transaction_type: Option<ethereum_types::U256>,
}

/// A call to trace, with its mandatory recipient.
#[derive(Debug, Default, PartialEq, Eq)]
pub struct TraceCallParams {
    /// Sender
    pub from: Option<ethereum_types::H160>,
    /// Recipient
    pub to: ethereum_types::H160,
    /// Gas price, legacy.
    pub gas_price: Option<ethereum_types::U256>,
    /// Max base fee per gas the sender is willing to pay.
    pub max_fee_per_gas: Option<ethereum_types::U256>,
    /// The miner's tip.
    pub max_priority_fee_per_gas: Option<ethereum_types::U256>,
    /// Gas
    pub gas: Option<ethereum_types::U256>,
    /// Value of the transaction in wei
    pub value: Option<ethereum_types::U256>,
    /// Input data
    pub data: Option<Bytes>,
    /// Nonce
    pub nonce: Option<ethereum_types::U256>,
    /// EIP-2930 access list
    pub access_list: Option<Vec<ethereum::AccessListItem>>,
    /// EIP-2718 type
    pub transaction_type: Option<ethereum_types::U256>,
}

/// A flag that was absent counts as false.
pub open spec fn flag(o: Option<bool>) -> bool {
    o == Some(true)
}

/// The options that `params` stand for once every flag is decided.
pub open spec fn normalized<C>(params: Option<TraceParams<C>>) -> TraceOptions<C> {
    match params {
        Some(p) => TraceOptions {
            disable_storage: flag(p.disable_storage),
            disable_memory: flag(p.disable_memory),
            disable_stack: flag(p.disable_stack),
            tracer: p.tracer,
            tracer_config: p.tracer_config,
            timeout: p.timeout,
        },
        None => TraceOptions {
            disable_storage: false,
            disable_memory: false,
            disable_stack: false,
            tracer: None,
            tracer_config: None,
            timeout: None,
        },
    }
}

/// The call that an envelope stands for, given its recipient: every other
/// field as the envelope has it.
pub open spec fn call_with_recipient(env: CallEnvelope, to: ethereum_types::H160) -> TraceCallParams {
    TraceCallParams {
        from: env.from,
        to,
        gas_price: env.gas_price,
        max_fee_per_gas: env.max_fee_per_gas,
        max_priority_fee_per_gas: env.max_priority_fee_per_gas,
        gas: env.gas,
        value: env.value,
        data: env.data,
        nonce: env.nonce,
        access_list: env.access_list,
        transaction_type: env.transaction_type,
    }
}

/// The error for a missing recipient: `MissingField("to")`.
pub open spec fn is_missing_to(e: DecodeError) -> bool {
    e matches DecodeError::MissingField(f) && f@ == seq!['t', 'o']
}

/// An envelope that sets only its recipient becomes a call whose every
/// other field is absent, not a zero or empty value.
pub proof fn lemma_recipient_only(env: CallEnvelope, to: ethereum_types::H160)
    requires
        env.to == Some(to),
        env.from is None,
        env.gas_price is None,
        env.max_fee_per_gas is None,
        env.max_priority_fee_per_gas is None,
        env.gas is None,
        env.value is None,
        env.data is None,
        env.nonce is None,
        env.access_list is None,
        env.transaction_type is None,
    ensures
        ({
            let c = call_with_recipient(env, to);
            &&& c.to == to
            &&& c.from is None
            &&& c.gas_price is None
            &&& c.max_fee_per_gas is None
            &&& c.max_priority_fee_per_gas is None
            &&& c.gas is None
            &&& c.value is None
            &&& c.data is None
            &&& c.nonce is None
            &&& c.access_list is None
            &&& c.transaction_type is None
        }),
{
}

fn decide(o: Option<bool>) -> (r: bool)
    ensures
        r == flag(o),
{
    match o {
        Some(b) => b,
        None => false,
    }
}

/// Decides every absent flag as false and keeps the tracer, its
/// configuration and the timeout as they are.
pub fn normalize<C>(params: Option<TraceParams<C>>) -> (r: TraceOptions<C>)
    ensures
        r == normalized(params),
{
    match params {
        Some(p) => TraceOptions {
            disable_storage: decide(p.disable_storage),
            disable_memory: decide(p.disable_memory),
            disable_stack: decide(p.disable_stack),
            tracer: p.tracer,
            tracer_config: p.tracer_config,
            timeout: p.timeout,
        },
        None => TraceOptions {
            disable_storage: false,
            disable_memory: false,
            disable_stack: false,
            tracer: None,
            tracer_config: None,
            timeout: None,
        },
    }
}

impl TraceCallParams {
    /// Checks that the envelope names a recipient and keeps every other
    /// field exactly as given, absent ones absent.
    pub fn from_envelope(env: CallEnvelope) -> (r: Result<TraceCallParams, DecodeError>)
        ensures
            env.to is Some ==> r == Ok::<TraceCallParams, DecodeError>(
                call_with_recipient(env, env.to->0),
            ),
            env.to is None ==> (r matches Err(e) && is_missing_to(e)),
    {
        let CallEnvelope {
            from,
            to,
            gas_price,
            max_fee_per_gas,
            max_priority_fee_per_gas,
            gas,
            value,
            data,
            nonce,
            access_list,
            transaction_type,
        } = env;
        match to {
            Some(to) => {
                let p = TraceCallParams {
                    from,
                    to,
                    gas_price,
                    max_fee_per_gas,
                    max_priority_fee_per_gas,
                    gas,
                    value,
                    data,
                    nonce,
                    access_list,
                    transaction_type,
                };
                Ok(p)
            },
            None => {
                let name = "to";
                proof {
                    reveal_strlit("to");
                }
                let field = name.to_owned();
                assert(field@ =~= seq!['t', 'o']);
                Err(DecodeError::MissingField(field))
            },
        }
    }
}

} // verus!
