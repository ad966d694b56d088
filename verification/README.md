# POLARIS

Paged KV-cache management for GPU inference, with its logic proved in Verus.

A device keeps the authoritative table of KV blocks and the sessions that own
them. GPU page faults, reservations and memory pressure turn into decisions
(allocate, map, offload, reload, copy on write, free) that executors in user
space carry out and report back. Blocks are shared between sessions until one of
them writes.

## Layout

- `src/` is the library. It does no I/O: where an operation needs a driver, the
  function returns the call to make and takes the answer.
  - Interface: `abi`, `ioctl`, `layout`, `errno`.
  - Device: `types`, `state`, `device`, `sessions`, `blocks`, `fault`, `policy`,
    `decisions`, `vaspace`, `hook`, `stats`.
  - Executors: `ranges`, `gpu`, `cpu_pool`, `executor`, `offload`, `dispatch`,
    `rm` for the daemon; `runtime` and `kv` for a process that uses the GPU.
  - Programs: `daemon`, `lifecycle`, `ctl`, `workload`, `parse`, `text`.
  - `limits` tests at run time the limits of machine integers that other
    functions ask their callers to keep.
  - What holds of the device over any sequence of requests: `order`, `laws`,
    `session_laws`, `numbers`, `listings`, `block_laws`. That no two holders of
    an executor's addresses meet: `pools`. Laws of a single module stand in that
    module; all are named `law_...`.
- `app/` is the programs: `polaris daemon`, `polaris ctl`, `polaris workload`
  and `polaris simulate`, with the C interface of the runtime.
- `tests/` runs the library: `device`, `requests`, `records`, `flows`,
  `programs` and `limits`.

## Reading a contract

The state of the device has a value, `PolarisView`. Each request has a spec
function from the value before to the result and the value after, such as
`reserving` or `completing`, and its executable function ensures exactly that.
Operations that make driver calls are steps: `Step::Ask` names a call and what
to resume with its answer, `Step::Finish` the result.

Errors are errno values. Numbers that a `u64` cannot hold are the only inputs
that contracts leave out, apart from those on which the tables would be at odds
with themselves; `limits` tells them apart.
