# Verified core of a small RISC-V kernel

`src/` is a Verus library holding the logic of a 64-bit RISC-V hobby kernel,
each function with a contract that Verus proves:

- memory: address arithmetic (`address`), page-table entries
  (`page_table_entry`), zeroed page blocks (`page`), the user mappings of a
  process (`page_tables`), the break (`brk`), the kernel heap's free list
  (`heap`);
- processes: threads and their scheduling state (`thread`), the scheduler's
  decisions (`scheduler`), processes and their anonymous memory (`process`),
  program loading and the argument block (`loader`), file descriptor tables
  (`fd_table`, `fds`), signals (`signal`), timers and sleeps (`timer`),
  `wait4` (`wait_child`), kernel tasks (`task`), weak waiter queues
  (`weak_queue`);
- files: a path-resolving VFS over an in-memory file system and `/proc`
  (`vfs`, `tmpfs`, `procfs`, `name_map`);
- devices: the VirtIO bring-up state machine (`virtio`), the block and
  network devices (`block`, `net_device`), the UART (`uart`), the console
  line discipline (`tty`, `tty_device`, `stdin_buf`), traps and CPU bits
  (`trap`, `cpu`, `spinlock`, `mmio`).

Laws that span several calls (reading back what was written, closing what was
opened, waking before parking, and so on) are public proof functions next to
the functions they are about.

`app/` holds what cannot be verified: atomics and the spinning lock, volatile
register access, floating-point formatting, raw memory reinterpretation, the
global allocator around the verified heap, and the loops that carry out the
library's decisions on hardware and futures.

`tests/` runs the library on concrete values.
