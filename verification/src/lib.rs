//! Verified core of a small RISC-V teaching kernel: identifier and frame
//! allocators, a page-backed queue and task managers, thread contexts,
//! signal handling, synchronisation primitives, the decoding and the
//! decisions of system calls, kernel layout iteration, program loading plans,
//! page accounting and page-table steps.
#![allow(unused_imports)]

pub mod recycle_alloc;
pub mod idx_alloc;
pub mod bitmap_alloc;
pub mod context;
pub mod signal;
pub mod signal_impl;
pub mod sync;
pub mod linker;
pub mod syscall;
pub mod task;
pub mod log_level;
pub mod loader;
pub mod page_counter;
pub mod space;
pub mod segment;
pub mod transit;
pub mod frame_queue;
pub mod process_calls;
pub mod dispatch;
pub mod deque;
pub mod manager;
pub mod file;
