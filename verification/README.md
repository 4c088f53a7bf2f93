# zcore_asynccall

The kernel-side logic of a Linux-compatible kernel's asynchronous system-call
interface, verified with Verus, and the helpers around it.

- `src/asynccall.rs`: the kernel's copy of the region shared with a user
  process, with its request and completion rings, their counters and
  entries, the layout that the process is told, and the byte-level reading
  and writing of that region (`load_shared`, `store_shared`).
- `src/waiters.rs`: the wakers of the ring workers, and the checkers that
  decide whom to wake.
- `src/syscall.rs`: which calls may be made asynchronously, how a call's raw
  result becomes a result, and the setup call.
- `src/file.rs`, `src/flags.rs`: the offset and open flags of a file.
- `src/device.rs`: a memory-backed device and a block device over a driver.
- `src/cache.rs`, `src/trap.rs`, `src/error.rs`: cache-line helpers, the
  breakpoint trap, and Linux error numbers.

`app/` holds the coroutines, locks and outside traits around the library.
