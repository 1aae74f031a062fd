# wasm_safe_mutex

Synchronization primitives that adapt to the platform: a native thread or a worker
blocks, a browser's main thread spins, a task suspends.

- `Mutex`, with its `Guard`
- `RwLock`: many readers or one writer
- `Condvar`: waiting for a condition, with or without a deadline
- `mpsc`: a channel from many senders to one receiver

Most operations come in fours: `_block` parks the thread, `_spin` busy-waits, `_sync`
does whichever the platform allows, and `_async` suspends the task.

## Layout

- `src/` is the state behind the primitives, verified with Verus. A method is one
  atomic step. It returns what it acquired, or how to pause before the next step, and
  the handles of those to wake. `src/laws/` holds what is proved of any run of steps.
- `app/` is the runtime: it keeps each state behind a spinlock that threads share,
  runs the loops around the steps, parks and wakes threads and tasks, and reads the
  clock.
- `tests/` runs the steps on concrete values.
