# pudding_kernel

A small real-time kernel for embedded targets, written in Verus.

- `src/` is the verified kernel logic: the priority and FIFO task queues
  (`priority_queue`, `queue`), the delta-encoded timeout queue
  (`timeout_queue`), tasks and the kernel state (`task`), semaphores,
  event flags, time and periodic wake-up (`time`), the system flags that
  decide when a task switch is due (`system`), and the register-level
  computations of the drivers (`pl390`, `ttc`, `fifo`, `context`).
  Each kernel service is specified as a transition of `task::KernelModel`
  and preserves the kernel invariant.
- `app/` runs the kernel on a machine: it performs the register writes the
  drivers compute, switches task contexts, and brackets every service call
  with the CPU lock and the dispatch decision of `system::leave_system_call`.
- `tests/` exercises the library.
