# rcore_kernel

The verified core of a small RISC-V teaching kernel, written in Verus.

`src/` is the library. Every function in it carries a contract that Verus
proves:

- identifier and frame allocators (`recycle_alloc`, `bitmap_alloc`,
  `idx_alloc`), a page-backed double-ended queue (`deque`), a queue of frame
  groups (`frame_queue`), and task managers (`manager`);
- thread contexts and the portal between address spaces (`context`,
  `transit`);
- signals: signal sets and actions (`signal`) and the per-process signal
  state with the decision of what a pending signal does (`signal_impl`);
- semaphores and condition variables (`sync`);
- system calls: numbers and services (`syscall`), decoding a call into a
  request (`dispatch`), the decisions of the process-level calls
  (`process_calls`, `file`), and what a finished call means for the thread
  (`task`);
- memory: the kernel image layout and the applications linked into it
  (`linker`), plans for loading ELF programs (`loader`), page-table counting
  (`page_counter`), page-table entry steps, segments and the kernel's own
  mappings (`space`, `segment`);
- the log level chosen from a setting (`log_level`).

Public proof functions named `law_*` state properties that relate several
operations, such as an allocator handing back the identifier it was just
given, or the page count of a page table.

`app/` holds what needs the machine, global state or raw memory: console
output and the logger, the registry of system-call services (decoded by the
library's `route`), the kernel heap, address spaces on page tables (driven by
the library's mapping and lookup steps), processes built from the library's
load plans, trap and timer registers, and the linker symbols. The services
themselves, which each kernel implements over its own process tables, are
not part of it; the library offers their decisions (`read_target`,
`write_target`, `sys_sigaction`, `after_syscall`, ...) for them to call.

`tests/` runs the library on concrete values.
