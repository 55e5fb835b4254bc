# LiteOS-M kernel core, verified

A Verus library that holds the core of the LiteOS-M kernel with its
behaviour stated in contracts and proved:

- `src/membox.rs`: the static memory box allocator (fixed-size blocks, a free
  list threaded through the block headers, owner magic words that reject
  double frees);
- `src/sortlink.rs`: the time-ordered sort links of delayed tasks and timers;
- `src/tick.rs`: the tick timer bookkeeping (cycle counter, tick and time
  conversions, delay splitting);
- `src/sched.rs`: the priority scheduler (ready queues with their bitmap, time
  slices, tick responses, task state changes);
- `src/task.rs`: the task manager (creation, deletion, suspension, delays,
  joins, priorities, recycling);
- `src/list.rs` and `src/defs.rs`: ordered lists of ids, configuration,
  error numbers and bit helpers.

The kernel state is one `LosKernel` value whose well-formedness (`wf`) every
operation keeps.  Whatever needs the hardware or memory (reading the cycle
counter, allocating and filling a stack, switching context) is done by the
caller: values come in as arguments and the work to do comes back in the
result.  The scheduler trace hooks the kernel calls are queued in its state
(`take_sched_hooks`) for the caller to run in order.

`app/` is the platform glue around the library: it reads the hardware,
performs the requested work, runs the idle and busy-wait loops, prints, and
holds the floating-point tick conversions.  `tests/` exercises the library on
concrete values.
