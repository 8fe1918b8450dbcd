//! Verified core logic of a small RISC-V kernel: address arithmetic, bit
//! manipulation, page-table entries, the heap free list, signals, the tty
//! line discipline, file descriptors, an in-memory file system, and the
//! arithmetic of the block and network devices.
use vstd::prelude::*;

pub mod address;
pub mod arch;
pub mod block;
pub mod brk;
pub mod cpu;
pub mod devfs;
pub mod array_vec;
pub mod elf;
pub mod errors;
pub mod fd_table;
pub mod fds;
pub mod headers;
pub mod heap;
pub mod ioctl;
pub mod loader;
pub mod mmio;
pub mod name_map;
pub mod net_device;
pub mod pid;
pub mod pointer;
pub mod poll;
pub mod process;
pub mod procfs;
pub mod scheduler;
pub mod signal;
pub mod spinlock;
pub mod stdin_buf;
pub mod syscall_argument;
pub mod task;
pub mod thread;
pub mod timer;
pub mod tmpfs;
pub mod trap;
pub mod uart;
pub mod tty;
pub mod tty_device;
pub mod page;
pub mod page_table_entry;
pub mod page_tables;
pub mod userspace_ptr;
pub mod util;
pub mod virtio;
pub mod wait_child;
pub mod weak_queue;
pub mod vfs;

verus! {

} // verus!
