//! Kernel-side logic of the asynchronous system-call interface of a
//! Linux-compatible kernel: the shared request/completion ring buffers,
//! the bookkeeping of parked ring workers, open-file state, an in-memory
//! block device, and a few trap and cache-line helpers.

pub mod asynccall;
pub mod cache;
pub mod device;
pub mod error;
pub mod file;
pub mod flags;
pub mod syscall;
pub mod trap;
pub mod waiters;
