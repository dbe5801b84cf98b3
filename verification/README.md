# agentenv

The ownership rules of a sandbox node: durable keyed allocations, receipts of
device acquisitions, the pool of pre-spawned Firecracker processes, the volumes
of a sandbox, and the replies of the sandbox API. The rules are written in Verus
and proved against their contracts.

- `src/` is the library. It decides and computes, and performs nothing: where an
  outside action is due, a function returns a stage or a command that names the
  action, and the next function takes note of how it ended.
- `app/` performs the actions: the durable store, the device and pool workers,
  and the request handlers over the node's services.
- `tests/` run the library on concrete histories.

What holds over whole histories stands in functions named `law_*`, next to what
they are about; those of the allocation journal stand in
`src/allocation_laws.rs`, and those of the pool's runs in `src/pool_laws.rs`.
