use lib::brk::Brk;
use lib::cpu::{ipi_mask, is_in_kernel_mode, is_timer_enabled, kernel_stack_start, sbi_send_ipi};
use lib::errors::Errno;
use lib::fds::{StdStream, FDs};
use lib::headers::{SIGCHLD, SIGCONT, SIGINT, SIGKILL, SIGSTOP, SIGWINCH, TIOCGWINSZ};
use lib::mmio::MMIO;
use lib::page::{PinnedHeapPages, PAGE_SIZE};
use lib::page_table_entry::XWRMode;
use lib::page_tables::RootPageTableHolder;
use lib::pid::Tid;
use lib::poll::PollOutcome;
use lib::process::{Process, FREE_MMAP_START_ADDRESS};
use lib::scheduler::{
    choose_next, NextThread, complete_syscall, SyscallReturn, accept_candidate, check_thread_ownership, finish_syscall_poll, queue_back, resume_mode,
    syscall_return_value, time_slice, Ownership, ResumeMode, SyscallOutcome,
};
use lib::signal::{default_action, DefaultAction, ExitStatus, PendingSignals};
use lib::spinlock::{same_cpu_deadlock, spin_warning_due};
use lib::stdin_buf::StdinBuffer;
use lib::task::{KernelTasks, ReadyStep, Task, TaskId, TaskIdCounter};
use lib::thread::{sigaction, Thread, ThreadState, TidCounter};
use lib::timer::{timespec, Sleep, Timer};
use lib::trap::{exception_kind, feed_console_input, sort_console_input, ExceptionKind};
use lib::uart::{Uart, UART_BASE_ADDRESS};
use lib::wait_child::WaitChild;
use lib::weak_queue::WeakQueue;

fn process() -> Process {
    Process::new(
        "prog1".to_string(),
        RootPageTableHolder::new(),
        Vec::<PinnedHeapPages>::new(),
        Brk::empty(),
        Tid(1),
        Tid(0),
    )
}

#[test]
fn mmap_process() {
    let mut process = process();
    let ptr = process.mmap_pages(1, XWRMode::ReadWrite);
    assert_eq!(ptr.0, FREE_MMAP_START_ADDRESS as usize);
    let ptr = process.mmap_pages(2, XWRMode::ReadWrite);
    assert_eq!(ptr.0, FREE_MMAP_START_ADDRESS as usize + PAGE_SIZE);
    let ptr = process.mmap_pages(1, XWRMode::ReadOnly);
    assert_eq!(ptr.0, FREE_MMAP_START_ADDRESS as usize + 3 * PAGE_SIZE);
}

#[test]
fn mmap_at_an_address_refuses_overlaps() {
    let mut process = process();
    let ptr = process.mmap_pages_with_address(2, 0x10000, XWRMode::ReadWrite);
    assert_eq!(ptr.0, 0x10000);
    assert!(process.get_page_table().is_mapped(0x11000, 0x11001));
    let ptr = process.mmap_pages_with_address(1, 0x11000, XWRMode::ReadWrite);
    assert_eq!(ptr.0, 0);
    let ptr = process.mmap_pages_with_address(1, 0x12000, XWRMode::ReadWrite);
    assert_eq!(ptr.0, 0x12000);
    let ptr = process.mmap_pages_with_address(1, 0xF000, XWRMode::ReadWrite);
    assert_eq!(ptr.0, 0xF000);
}

#[test]
fn process_threads_and_ids() {
    let mut process = process();
    assert_eq!(process.threads_len(), 0);
    process.add_thread(Tid(1));
    process.add_thread(Tid(7));
    assert_eq!(process.threads_len(), 2);
    assert_eq!(process.main_tid(), Tid(1));
    assert_eq!(process.parent_tid(), Tid(0));
    process.set_parent_tid(Tid(3));
    assert_eq!(process.parent_tid(), Tid(3));
    assert_eq!(process.get_name(), "prog1");
    assert!(process.fd_table().get(0).is_some());
    assert!(process.fd_table_mut().close(1).is_ok());
    assert!(process.fd_table().get(1).is_none());
}

#[test]
fn process_brk_moves_within_its_area() {
    let mut process = Process::new(
        "p".to_string(),
        RootPageTableHolder::new(),
        Vec::new(),
        Brk::from_bounds(lib::address::VirtAddr(0x1000), lib::address::VirtAddr(0x1000), lib::address::VirtAddr(0x5000)),
        Tid(2),
        Tid(1),
    );
    assert_eq!(process.brk(0), 0x1000);
    assert_eq!(process.brk(0x2000), 0x2000);
    assert_eq!(process.brk(0x5000), 0x2000);
}

#[test]
fn console_streams() {
    let mut fds = FDs::new_with_std();
    assert_eq!(fds.get(0), Ok(StdStream::Stdin));
    assert_eq!(fds.get(2), Ok(StdStream::Stderr));
    assert_eq!(fds.get(3), Err(Errno::EBADF));
    assert_eq!(fds.close(1), Ok(()));
    assert_eq!(fds.get(1), Err(Errno::EBADF));
    assert_eq!(fds.close(1), Err(Errno::EBADF));

    assert_eq!(StdStream::Stdout.write(b"hello"), Ok(5));
    assert_eq!(StdStream::Stdin.write(b"hello"), Err(Errno::EINVAL));
    assert_eq!(StdStream::Stdout.ioctl(TIOCGWINSZ), Err(Errno::ENOTTY));
    assert_eq!(StdStream::Stderr.ioctl(1), Err(Errno::EINVAL));
    assert_eq!(StdStream::Stdin.ioctl(TIOCGWINSZ), Err(Errno::EINVAL));

    let mut stdin: StdinBuffer<u32> = StdinBuffer::new();
    for b in b"abc" {
        stdin.push(*b);
    }
    let mut buf = [0u8; 2];
    assert_eq!(StdStream::Stdin.read(&mut stdin, &mut buf), Ok(2));
    assert_eq!(&buf, b"ab");
    let mut buf = [9u8; 4];
    assert_eq!(StdStream::Stdin.read(&mut stdin, &mut buf), Ok(1));
    assert_eq!(buf, [b'c', 9, 9, 9]);
    assert_eq!(StdStream::Stdout.read(&mut stdin, &mut buf), Err(Errno::EINVAL));
}

#[test]
fn tid_counter_starts_at_one() {
    let mut c = TidCounter::new();
    assert_eq!(c.get_next_tid(), Tid(1));
    assert_eq!(c.get_next_tid(), Tid(2));
}

#[test]
fn wake_up_before_park_is_not_lost() {
    let mut t: Thread<u32> = Thread::new(Tid(5), "p".to_string(), 0x100, false);
    t.set_state(ThreadState::Running { cpu_id: 0 });
    assert!(!t.is_wakeup_pending());
    t.wake_up();
    assert!(t.is_wakeup_pending());
    assert!(!t.has_syscall_task());
    t.set_syscall_task_and_suspend(7);
    assert!(t.has_syscall_task());
    assert!(!t.is_wakeup_pending());
    assert_eq!(t.get_state(), ThreadState::Running { cpu_id: 0 });
    assert_eq!(t.take_syscall_task(), Some(7));
    t.set_syscall_task_and_suspend(8);
    assert_eq!(t.get_state(), ThreadState::Waiting);
    t.wake_up();
    assert_eq!(t.get_state(), ThreadState::Runnable);
    t.wake_up();
    assert_eq!(t.get_state(), ThreadState::Runnable);
}

#[test]
fn thread_signal_state() {
    let mut t: Thread<u32> = Thread::new(Tid(5), "p".to_string(), 0, false);
    let act = sigaction { sa_handler: 0x4000, sa_flags: 1, sa_mask: 2 };
    assert_eq!(t.set_sigaction(2, act), Ok(sigaction { sa_handler: 0, sa_flags: 0, sa_mask: 0 }));
    assert_eq!(t.get_sigaction(2), Ok(act));
    assert_eq!(t.get_sigaction(64), Err(Errno::EINVAL));
    assert_eq!(t.set_sigaction(70, act), Err(Errno::EINVAL));
    assert_eq!(t.set_sigset(0xff), 0);
    assert_eq!(t.get_sigset(), 0xff);
    t.add_notify_on_die(Tid(3));
    t.add_notify_on_die(Tid(4));
    t.add_notify_on_die(Tid(3));
    t.add_notify_on_die(Tid(1));
    assert_eq!(t.get_notifies_on_die(), vec![Tid(1), Tid(3), Tid(4)]);
    assert_eq!(t.get_clear_child_tid(), None);
    t.set_clear_child_tid(0x99);
    assert_eq!(t.get_clear_child_tid(), Some(0x99));
    assert_eq!(t.get_name(), "p");
}

#[test]
fn syscall_results_in_a0() {
    assert_eq!(syscall_return_value(Ok(5)), 5);
    assert_eq!(syscall_return_value(Err(Errno::EBADF)), (-9isize) as usize);
    let mut t: Thread<u32> = Thread::new(Tid(5), "p".to_string(), 0x100, false);
    t.set_state(ThreadState::Running { cpu_id: 1 });
    assert_eq!(
        finish_syscall_poll(&mut t, PollOutcome::Ready(Err(Errno::ENOENT)), 1),
        SyscallOutcome::Completed((-2isize) as usize)
    );
    assert_eq!(t.get_program_counter(), 0x104);
    assert_eq!(finish_syscall_poll(&mut t, PollOutcome::Pending, 1), SyscallOutcome::Parked);
    assert_eq!(t.get_state(), ThreadState::Waiting);
    assert_eq!(t.get_program_counter(), 0x104);
}

#[test]
fn scheduling_decisions() {
    assert_eq!(check_thread_ownership(ThreadState::Running { cpu_id: 2 }, 2), Ownership::Continue);
    assert_eq!(check_thread_ownership(ThreadState::Running { cpu_id: 1 }, 2), Ownership::Stolen(1));
    assert_eq!(check_thread_ownership(ThreadState::Waiting, 2), Ownership::Reschedule);
    assert_eq!(time_slice(true), 50);
    assert_eq!(time_slice(false), 10);

    let mut t: Thread<u32> = Thread::new(Tid(5), "p".to_string(), 0x100, false);
    assert!(accept_candidate(&mut t, 3));
    assert_eq!(t.get_state(), ThreadState::Running { cpu_id: 3 });
    assert!(!accept_candidate(&mut t, 3));
    assert!(matches!(resume_mode(&mut t, 3), ResumeMode::Userspace(0x100)));
    assert!(matches!(resume_mode(&mut t, 2), ResumeMode::NotOwned));
    assert!(queue_back(&mut t, 3, 0x200));
    assert_eq!(t.get_state(), ThreadState::Runnable);
    assert_eq!(t.get_program_counter(), 0x200);
    assert!(!queue_back(&mut t, 3, 0x300));

    let mut powersave: Thread<u32> = Thread::new(Tid(0), "powersave".to_string(), 0, true);
    powersave.set_state(ThreadState::Running { cpu_id: 0 });
    assert!(!queue_back(&mut powersave, 0, 0x10));

    let mut w: Thread<u32> = Thread::new(Tid(6), "p".to_string(), 0, false);
    w.set_state(ThreadState::Running { cpu_id: 0 });
    w.set_syscall_task_and_suspend(11);
    w.wake_up();
    accept_candidate(&mut w, 0);
    assert!(matches!(resume_mode(&mut w, 0), ResumeMode::KernelSyscallTask(11)));
}

#[test]
fn kernel_tasks_run_in_order() {
    let mut tasks: KernelTasks<&str> = KernelTasks::new();
    assert!(matches!(tasks.next_ready(), ReadyStep::Idle));
    assert_eq!(tasks.spawn("a"), 0);
    assert_eq!(tasks.spawn("b"), 1);
    assert!(matches!(tasks.next_ready(), ReadyStep::Run(0, "a")));
    tasks.wake(0);
    assert!(matches!(tasks.next_ready(), ReadyStep::Run(1, "b")));
    assert!(matches!(tasks.next_ready(), ReadyStep::Busy(0)));
    tasks.put_back(0, "a");
    assert!(matches!(tasks.next_ready(), ReadyStep::Run(0, "a")));

    let mut counter = TaskIdCounter::new();
    assert_eq!(TaskId::new(&mut counter), TaskId(0));
    let task = Task::new(&mut counter, 5u8);
    assert_eq!(task.task_id, TaskId(1));
    assert_eq!(task.future, 5);
}

#[test]
fn sleeping_and_waking() {
    let mut timer: Timer<&str> = Timer::new();
    timer.init(10_000_000);
    assert_eq!(timer.set_timer(100, 10), 100 + 10 * 10 * 1000);
    assert_eq!(timer.set_timer(u64::MAX, 1), 10 * 1000 - 1);
    assert_eq!(timer.sleep(&timespec { tv_sec: -1, tv_nsec: 0 }, 0), Err(Errno::EINVAL));
    let mut sleep = timer.sleep(&timespec { tv_sec: 1, tv_nsec: 5 }, 1000).unwrap();
    assert_eq!(sleep, Sleep { wakeup_time: 1000 + 10_000_000 + 50, registered: false });
    assert_eq!(sleep.poll(&mut timer, 2000, "first"), PollOutcome::Pending);
    let mut early = Sleep::new(1500);
    assert_eq!(early.poll(&mut timer, 1000, "early"), PollOutcome::Pending);
    assert_eq!(early.poll(&mut timer, 1000, "again"), PollOutcome::Pending);
    assert_eq!(timer.wakeup_wakers(1400), Vec::<&str>::new());
    assert_eq!(timer.wakeup_wakers(u64::MAX), vec!["early", "first"]);
    assert_eq!(timer.wakeup_wakers(u64::MAX), Vec::<&str>::new());
    assert_eq!(sleep.poll(&mut timer, u64::MAX, "late"), PollOutcome::Ready(()));
}

#[test]
fn waiting_for_children() {
    let w = WaitChild::new(Tid(1), -1, false);
    assert_eq!(w.poll(Some((Tid(4), 256)), true), PollOutcome::Ready(Ok((Tid(4), 256))));
    assert_eq!(w.poll(None, false), PollOutcome::Ready(Err(Errno::ECHILD)));
    assert_eq!(w.poll(None, true), PollOutcome::Pending);
    let w = WaitChild::new(Tid(1), 4, true);
    assert_eq!(w.poll(None, true), PollOutcome::Ready(Ok((Tid(0), 0))));
}

#[test]
fn weak_queue_walks() {
    let mut q: WeakQueue<u32> = WeakQueue::new();
    assert!(q.is_empty());
    q.add(1);
    q.add(2);
    q.add(3);
    assert_eq!(q.len(), 3);
    let mut it = q.iter();
    let mut seen = Vec::new();
    while let Some(r) = it.next(&mut q) {
        seen.push(r);
        if r != 2 {
            it.keep(&mut q, r);
        }
    }
    assert_eq!(seen, vec![1, 2, 3]);
    assert_eq!(q.len(), 2);
    let mut ro = q.readonly_iter();
    assert_eq!(ro.next(&q), Some(&1));
    assert_eq!(ro.next(&q), Some(&3));
    assert_eq!(ro.next(&q), None);
}

#[test]
fn weak_queue_whole_walks() {
    let mut q: WeakQueue<u32> = WeakQueue::new();
    for r in [10, 11, 12, 13] {
        q.add(r);
    }
    assert_eq!(q.alive_positions(&[false, true, true, false]), vec![1, 2]);
    assert_eq!(q.len(), 4);
    assert_eq!(q.retain_alive(&[false, true, true, false]), vec![1, 2]);
    assert_eq!(q.len(), 2);
    let mut ro = q.readonly_iter();
    assert_eq!(ro.next(&q), Some(&11));
    assert_eq!(ro.next(&q), Some(&12));
}

#[test]
fn signals() {
    let mut p = PendingSignals::new();
    assert!(p.is_empty());
    p.raise(SIGINT);
    p.raise(SIGCHLD);
    assert_eq!(p.0, (1 << 2) | (1 << 17));
    assert_eq!(p.first_unblocked(0), Some(2));
    assert_eq!(p.first_unblocked(1 << 2), Some(17));
    assert_eq!(p.first_unblocked((1 << 2) | (1 << 17)), None);
    p.clear(SIGINT);
    assert_eq!(p.0, 1 << 17);
    p.clear(SIGCHLD);
    assert!(p.is_empty());
    assert_eq!(default_action(SIGKILL), DefaultAction::Terminate);
    assert_eq!(default_action(SIGWINCH), DefaultAction::Ignore);
    assert_eq!(default_action(SIGSTOP), DefaultAction::Stop);
    assert_eq!(default_action(SIGCONT), DefaultAction::Continue);
    assert_eq!(default_action(99), DefaultAction::Terminate);
    assert_eq!(ExitStatus::Exited(3).to_wstatus(), 0x300);
    assert_eq!(ExitStatus::Signaled(9).to_wstatus(), 9);
}

#[test]
fn error_numbers() {
    assert_eq!(Errno::ENOENT.code(), 2);
    assert_eq!(Errno::EINVAL.code(), 22);
    assert_eq!(Errno::ERANGE.syscall_return_value(), -34);
}

#[test]
fn cpu_bits() {
    assert_eq!(ipi_mask(4, 2), 0b11010);
    assert_eq!(ipi_mask(1, 1), 0);
    assert_eq!(ipi_mask(0, 0), 0);
    let call = sbi_send_ipi(0b110, -1);
    assert_eq!(call.eid, 0x735049);
    assert_eq!(call.arg0, 0b110);
    assert_eq!(call.arg1, u64::MAX);
    assert!(is_timer_enabled(1 << 5));
    assert!(!is_timer_enabled(1 << 4));
    assert!(is_in_kernel_mode(1 << 8));
    assert!(!is_in_kernel_mode(0));
    assert_eq!(kernel_stack_start(), usize::MAX - 512 * 1024 + 1);
}

#[test]
fn traps_and_console() {
    let input = sort_console_input(&[b'a', 3, b'b', 4, b'c']);
    assert!(input.ctrl_c);
    assert!(input.ctrl_d);
    assert_eq!(input.bytes, b"abc".to_vec());
    let input = sort_console_input(b"ls\n");
    assert!(!input.ctrl_c && !input.ctrl_d);
    assert_eq!(exception_kind(8), ExceptionKind::Syscall);
    assert_eq!(exception_kind(13), ExceptionKind::Unhandled);
}

#[test]
fn locks_and_registers() {
    assert!(spin_warning_due(0));
    assert!(spin_warning_due(10_000_000));
    assert!(!spin_warning_due(1));
    assert!(same_cpu_deadlock(true, 1, 1));
    assert!(!same_cpu_deadlock(false, 1, 1));
    assert!(!same_cpu_deadlock(true, 0, 1));
    let reg = MMIO::new(0x1000, 4);
    assert_eq!(reg.add(3), MMIO { addr: 0x100c, size: 4 });
    assert_eq!(reg.new_type_with_offset(8, 2), MMIO { addr: 0x1008, size: 2 });
    assert_eq!(reg.get_index(2, 4, 16), MMIO { addr: 0x1020, size: 16 });
    assert_eq!(reg.new_type(8), MMIO { addr: 0x1000, size: 8 });
}

fn one_segment() -> Vec<lib::elf::ProgramHeader> {
    vec![lib::elf::ProgramHeader {
        header_type: lib::elf::ProgramHeaderType::PtLoad,
        access_flags: lib::elf::ProgramHeaderFlags::RX,
        virtual_address: 0x10000,
        memory_size: 0x100,
        data: vec![0x13; 16],
    }]
}

#[test]
fn create_process_from_elf() {
    let mut tids = TidCounter::new();
    let (p, t, args_start) =
        lib::process::from_elf::<u32>(&one_segment(), 0x10000, "prog1", &["a"], Tid(0), &mut tids).unwrap();
    assert_eq!(t.get_tid(), Tid(1));
    assert_eq!(t.get_program_counter(), 0x10000);
    assert!(!t.get_in_kernel_mode());
    assert_eq!(t.get_state(), ThreadState::Runnable);
    assert_eq!(t.get_name(), "prog1");
    assert_eq!(p.main_tid(), Tid(1));
    assert_eq!(p.parent_tid(), Tid(0));
    assert_eq!(p.threads_len(), 1);
    assert_eq!(p.get_name(), "prog1");
    assert_eq!(args_start, usize::MAX - 79);
    assert!(p.get_page_table().is_mapped(0x10000, 0x10001));
    assert!(p.get_page_table().is_mapped(0x11000, 0x11001));
    assert!(p.get_page_table().is_mapped(usize::MAX - 1, usize::MAX));
    assert_eq!(tids.get_next_tid(), Tid(2));
}

#[test]
fn process_creation_fails_when_arguments_do_not_fit() {
    let mut tids = TidCounter::new();
    let long = "x".repeat(5 * PAGE_SIZE);
    let r = lib::process::from_elf::<u32>(&one_segment(), 0x10000, "prog1", &[long.as_str()], Tid(0), &mut tids);
    assert!(matches!(r, Err(lib::errors::LoaderError::StackToSmall)));
    assert_eq!(tids.get_next_tid(), Tid(1));
}

#[test]
fn powersave_process() {
    let (p, t) = lib::process::create_powersave_thread::<u32>(0x8020_0000);
    assert_eq!(t.get_tid(), Tid(0));
    assert!(t.get_in_kernel_mode());
    assert_eq!(t.get_program_counter(), 0x8020_0000);
    assert_eq!(p.get_name(), "powersave");
    assert_eq!(p.main_tid(), Tid(0));
    assert_eq!(p.parent_tid(), Tid(0));
    assert_eq!(p.threads_len(), 1);
    assert!(!p.get_page_table().is_mapped(0, usize::MAX));
}

#[test]
fn syscall_completion_on_the_trap_path() {
    let mut t: Thread<u32> = Thread::new(Tid(5), "p".to_string(), 0x100, false);
    t.set_state(ThreadState::Running { cpu_id: 1 });
    assert_eq!(
        complete_syscall(&mut t, PollOutcome::Ready(Ok(3)), 9, 1, 0x100),
        SyscallReturn::Resume { a0: 3, sepc: 0x104 }
    );
    assert_eq!(
        complete_syscall(&mut t, PollOutcome::Ready(Ok(3)), 9, 2, 0x100),
        SyscallReturn::Stolen(1)
    );
    assert_eq!(complete_syscall(&mut t, PollOutcome::Pending, 9, 1, 0x200), SyscallReturn::Reschedule { saved_a0: None });
    assert_eq!(t.get_state(), ThreadState::Waiting);
    assert_eq!(t.get_program_counter(), 0x200);
    assert_eq!(t.take_syscall_task(), Some(9));
    assert_eq!(
        complete_syscall(&mut t, PollOutcome::Ready(Err(Errno::EAGAIN)), 9, 1, 0x200),
        SyscallReturn::Reschedule { saved_a0: Some((-11isize) as usize) }
    );
    assert_eq!(t.get_program_counter(), 0x204);
}

#[test]
fn uart_setup_and_output() {
    let mut uart = Uart::new(UART_BASE_ADDRESS);
    assert!(uart.bytes_to_send(b"hi").is_empty());
    let writes = uart.init();
    assert_eq!(
        writes,
        vec![
            (0x1000_0003, 0b11),
            (0x1000_0002, 1),
            (0x1000_0001, 1),
            (0x1000_0003, 0x83),
            (0x1000_0000, 80),
            (0x1000_0001, 2),
            (0x1000_0003, 0b11),
        ]
    );
    assert_eq!(uart.bytes_to_send("hé".as_bytes()), "hé".as_bytes().to_vec());
    assert_eq!(uart.data_register(), 0x1000_0000);
    assert_eq!(uart.status_register(), 0x1000_0005);
    assert!(Uart::data_ready(0x61));
    assert!(!Uart::data_ready(0x60));
}

#[test]
fn picking_the_next_thread() {
    let mut powersave: Thread<u32> = Thread::new(Tid(0), "powersave".to_string(), 0, true);
    let mut t: Thread<u32> = Thread::new(Tid(4), "p".to_string(), 0x100, false);
    assert_eq!(choose_next(true, Some(&mut t), &mut powersave, 1), NextThread::Shutdown);
    assert_eq!(t.get_state(), ThreadState::Runnable);
    assert_eq!(choose_next(false, Some(&mut t), &mut powersave, 1), NextThread::Candidate);
    assert_eq!(t.get_state(), ThreadState::Running { cpu_id: 1 });
    assert_eq!(choose_next(false, Some(&mut t), &mut powersave, 1), NextThread::Stale);
    assert_eq!(powersave.get_state(), ThreadState::Runnable);
    assert_eq!(choose_next(false, None, &mut powersave, 2), NextThread::Powersave);
    assert_eq!(powersave.get_state(), ThreadState::Running { cpu_id: 2 });
}

#[test]
fn mappings_point_at_their_pages() {
    let mut pt = RootPageTableHolder::new();
    let (pages, mut brk) = Brk::new(lib::address::VirtAddr(0x10_0123), &mut pt);
    assert_eq!(pt.mapping_count(), 1);
    let m = pt.mapping(0);
    assert_eq!(m.virtual_start, 0x10_1000);
    assert_eq!(m.physical_start, pages.addr());
    assert_eq!(m.size, 4 * PAGE_SIZE);
    assert_eq!(brk.brk(lib::address::VirtAddr(0x10_2000)), lib::address::VirtAddr(0x10_2000));

    let elf = lib::loader::load_elf(&one_segment(), 0x10000, "prog1", &[]).unwrap();
    assert_eq!(elf.page_tables.mapping_count(), elf.allocated_pages.len());
    for (k, pages) in elf.allocated_pages.iter().enumerate() {
        assert_eq!(elf.page_tables.mapping(k).physical_start, pages.addr());
    }
}

#[test]
fn replaced_registers_take_no_syscall_result() {
    let mut t: Thread<u32> = Thread::new(Tid(5), "p".to_string(), 0x100, false);
    t.set_state(ThreadState::Running { cpu_id: 1 });
    t.wake_up();
    assert!(t.is_wakeup_pending());
    t.set_registers_replaced(true);
    t.set_program_counter(0x8000);
    assert_eq!(
        finish_syscall_poll(&mut t, PollOutcome::Ready(Ok(0)), 1),
        SyscallOutcome::RegistersReplaced
    );
    assert!(!t.registers_replaced());
    assert!(!t.is_wakeup_pending());
    assert_eq!(t.get_program_counter(), 0x8000);
    // The mark is gone: the next finished call writes its result again.
    assert_eq!(finish_syscall_poll(&mut t, PollOutcome::Ready(Ok(7)), 1), SyscallOutcome::Completed(7));
    assert_eq!(t.get_program_counter(), 0x8004);
}

#[test]
fn replaced_registers_on_the_trap_path() {
    let mut t: Thread<u32> = Thread::new(Tid(5), "p".to_string(), 0x100, false);
    t.set_state(ThreadState::Running { cpu_id: 1 });
    t.set_registers_replaced(true);
    t.set_program_counter(0x8000);
    assert_eq!(
        complete_syscall(&mut t, PollOutcome::Ready(Ok(0)), 9, 1, 0x100),
        SyscallReturn::RegistersReplaced
    );
    assert!(!t.registers_replaced());
    assert_eq!(t.get_program_counter(), 0x8000);
    assert_eq!(t.get_state(), ThreadState::Running { cpu_id: 1 });
    // A pending call keeps the mark for the poll that finishes it.
    t.set_registers_replaced(true);
    assert_eq!(complete_syscall(&mut t, PollOutcome::Pending, 9, 1, 0x200), SyscallReturn::Reschedule { saved_a0: None });
    assert!(t.registers_replaced());
}

#[test]
fn console_input_reaches_stdin() {
    let mut stdin: StdinBuffer<u32> = StdinBuffer::new();
    stdin.register_wakeup(7);
    stdin.register_wakeup(8);
    let feed = feed_console_input(&[b'a', 3, b'b', 4], &mut stdin);
    assert!(feed.ctrl_c);
    assert!(feed.ctrl_d);
    assert_eq!(feed.woken, vec![8, 7]);
    assert_eq!(stdin.get(10), b"ab".to_vec());

    stdin.register_wakeup(9);
    let feed = feed_console_input(&[3], &mut stdin);
    assert!(feed.ctrl_c && !feed.ctrl_d);
    assert!(feed.woken.is_empty());
    let feed = feed_console_input(b"x\n", &mut stdin);
    assert!(!feed.ctrl_c && !feed.ctrl_d);
    assert_eq!(feed.woken, vec![9]);
    assert_eq!(stdin.get(10), b"x\n".to_vec());
}
