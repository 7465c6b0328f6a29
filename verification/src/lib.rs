//! Verified core logic of a partition processor: table keys, state-machine
//! variables, the journal buffer, the invoker memory limiter and the
//! decisions taken around partition processor RPCs.

pub mod action_effect;
pub mod batch;
pub mod bifrost_dump;
pub mod codec;
pub mod fsm;
pub mod fsm_table;
pub mod identifiers;
pub mod ingress;
pub mod invocation;
pub mod invoker_fake;
pub mod invoker_memory;
pub mod journal;
pub mod journal_table;
pub mod keys;
pub mod lease_map;
pub mod memory;
pub mod outbox;
pub mod protobuf;
pub mod rpc_client;
pub mod timer_options;
