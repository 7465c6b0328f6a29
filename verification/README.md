# restate_logic

Verified core logic of a Restate worker, written in Verus:

- `codec`, `keys`: big-endian encoding and the layout of the journal and
  state-machine table keys; keys decode back to themselves and sort, as
  bytes, in the order of their components.
- `journal_table`, `fsm_table`, `fsm`, `outbox`, `batch`: reading table
  records into journals, state-machine variables and query rows.
- `memory`, `lease_map`, `invoker_memory`: the FIFO memory limiter that gates
  invocations, with promised leases kept for their vqueue.
- `journal`: the buffer of journal entries received from a deployment.
- `invocation`, `rpc_client`, `ingress`: routing requests to partition
  processors and the decisions of submitting an invocation.
- `action_effect`, `invoker_fake`, `protobuf`, `timer_options`,
  `bifrost_dump`: proposals of actuator effects, a fake invoker, timer options
  and reading loglets.

`app/` holds the asynchronous loops, configuration formats and command-line
arguments around the library.
