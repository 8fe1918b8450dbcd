use lib::address::VirtAddr;
use lib::brk::Brk;
use lib::headers::{SIGINT, SIGQUIT, SIGTSTP};
use lib::poll::PollOutcome;
use lib::stdin_buf::{ReadStdin, StdinBuffer};
use lib::tty;
use lib::tty::TtyState;
use lib::tty_device::{InputAction, ReadTty, TtyDeviceInner};

#[test]
fn brk_within_range() {
    let mut brk = Brk::from_bounds(VirtAddr::new(0x1000), VirtAddr::new(0x1000), VirtAddr::new(0x5000));
    assert_eq!(brk.brk(VirtAddr::new(0x2000)), VirtAddr::new(0x2000));
    assert_eq!(brk.brk(VirtAddr::new(0x4FFF)), VirtAddr::new(0x4FFF));
}

#[test]
fn brk_out_of_range_returns_current() {
    let mut brk = Brk::from_bounds(VirtAddr::new(0x1000), VirtAddr::new(0x2000), VirtAddr::new(0x5000));
    assert_eq!(brk.brk(VirtAddr::new(0x0500)), VirtAddr::new(0x2000));
    assert_eq!(brk.brk(VirtAddr::new(0x5000)), VirtAddr::new(0x2000));
    assert_eq!(brk.brk(VirtAddr::new(0x9000)), VirtAddr::new(0x2000));
}

#[test]
fn brk_empty() {
    let mut brk = Brk::empty();
    assert_eq!(brk.brk(VirtAddr::zero()), VirtAddr::zero());
    assert_eq!(brk.brk(VirtAddr::new(0x1000)), VirtAddr::zero());
}

#[test]
fn stdin_empty() {
    let stdin: StdinBuffer<u32> = StdinBuffer::new();
    assert!(stdin.is_empty());
}

#[test]
fn stdin_order_is_correct() {
    let mut stdin: StdinBuffer<u32> = StdinBuffer::new();
    stdin.push(42);
    stdin.push(43);
    stdin.push(44);
    assert_eq!(stdin.pop(), Some(42));
    assert_eq!(stdin.pop(), Some(43));
    assert_eq!(stdin.pop(), Some(44));
    assert_eq!(stdin.pop(), None);
}

#[test]
fn stdin_get_works() {
    let mut stdin: StdinBuffer<u32> = StdinBuffer::new();
    stdin.push(42);
    stdin.push(43);
    stdin.push(44);
    assert_eq!(stdin.get(1), vec![42]);
    assert_eq!(stdin.get(10), vec![43, 44]);
    assert_eq!(stdin.get(10), Vec::<u8>::new());
}

#[test]
fn stdin_push_wakes_waiters_last_first() {
    let mut stdin: StdinBuffer<u32> = StdinBuffer::new();
    stdin.register_wakeup(1);
    stdin.register_wakeup(2);
    assert_eq!(stdin.push(7), vec![2, 1]);
    assert_eq!(stdin.push(8), Vec::<u32>::new());
}

#[test]
fn read_stdin_waits_then_reads() {
    let mut stdin: StdinBuffer<u32> = StdinBuffer::new();
    let mut read = ReadStdin::new(2);
    assert!(matches!(read.poll(&mut stdin, 5), PollOutcome::Pending));
    let woken = stdin.push(b'a');
    assert_eq!(woken, vec![5]);
    stdin.push(b'b');
    stdin.push(b'c');
    match read.poll(&mut stdin, 5) {
        PollOutcome::Ready(v) => assert_eq!(v, b"ab".to_vec()),
        PollOutcome::Pending => panic!("data was there"),
    }
}

fn echo_of<W>(r: &lib::tty_device::InputResult<W>) -> Vec<u8> {
    r.echo.as_slice().to_vec()
}

#[test]
fn echo_regular_chars() {
    let mut dev: TtyDeviceInner<u32> = TtyDeviceInner::new();
    let r = dev.process_input_byte(b'a');
    assert!(matches!(r.action, InputAction::Consumed));
    assert_eq!(echo_of(&r), b"a".to_vec());
    assert!(dev.is_input_empty());
}

#[test]
fn newline_flushes_line() {
    let mut dev: TtyDeviceInner<u32> = TtyDeviceInner::new();
    dev.process_input_byte(b'h');
    dev.process_input_byte(b'i');
    let r = dev.process_input_byte(b'\n');
    assert_eq!(echo_of(&r), b"\r\n".to_vec());
    assert_eq!(dev.get_input(1024), b"hi\n".to_vec());
}

#[test]
fn cr_mapped_to_nl() {
    let mut dev: TtyDeviceInner<u32> = TtyDeviceInner::new();
    dev.process_input_byte(b'x');
    let r = dev.process_input_byte(b'\r');
    assert_eq!(echo_of(&r), b"\r\n".to_vec());
    assert_eq!(dev.get_input(1024), b"x\n".to_vec());
}

#[test]
fn backspace_erases() {
    let mut dev: TtyDeviceInner<u32> = TtyDeviceInner::new();
    dev.process_input_byte(b'a');
    dev.process_input_byte(b'b');
    let r = dev.process_input_byte(127);
    assert_eq!(echo_of(&r), b"\x08 \x08".to_vec());
    dev.process_input_byte(b'\n');
    assert_eq!(dev.get_input(1024), b"a\n".to_vec());
}

#[test]
fn backspace_on_empty_does_nothing() {
    let mut dev: TtyDeviceInner<u32> = TtyDeviceInner::new();
    let r = dev.process_input_byte(127);
    assert!(r.echo.is_empty());
}

#[test]
fn ctrl_c_generates_sigint() {
    let mut dev: TtyDeviceInner<u32> = TtyDeviceInner::new();
    dev.process_input_byte(b'x');
    let r = dev.process_input_byte(3);
    assert!(matches!(r.action, InputAction::Signal(sig) if sig == SIGINT));
    dev.process_input_byte(b'\n');
    assert_eq!(dev.get_input(1024), b"\n".to_vec());
}

#[test]
fn ctrl_z_generates_sigtstp() {
    let mut dev: TtyDeviceInner<u32> = TtyDeviceInner::new();
    let r = dev.process_input_byte(26);
    assert!(matches!(r.action, InputAction::Signal(sig) if sig == SIGTSTP));
    assert_eq!(echo_of(&r), b"^Z\r\n".to_vec());
}

#[test]
fn ctrl_backslash_generates_sigquit() {
    let mut dev: TtyDeviceInner<u32> = TtyDeviceInner::new();
    let r = dev.process_input_byte(28);
    assert!(matches!(r.action, InputAction::Signal(sig) if sig == SIGQUIT));
    assert_eq!(echo_of(&r), b"^\\\r\n".to_vec());
}

#[test]
fn ctrl_d_on_empty_line_sets_eof() {
    let mut dev: TtyDeviceInner<u32> = TtyDeviceInner::new();
    let r = dev.process_input_byte(4);
    assert!(matches!(r.action, InputAction::Consumed));
    assert!(dev.eof_pending());
    assert!(dev.is_input_empty());
}

#[test]
fn ctrl_d_with_data_flushes_without_eof() {
    let mut dev: TtyDeviceInner<u32> = TtyDeviceInner::new();
    dev.process_input_byte(b'a');
    dev.process_input_byte(b'b');
    let r = dev.process_input_byte(4);
    assert!(matches!(r.action, InputAction::Consumed));
    assert!(!dev.eof_pending());
    assert_eq!(dev.get_input(1024), b"ab".to_vec());
}

#[test]
fn new_line_clears_stale_eof_pending() {
    let mut dev: TtyDeviceInner<u32> = TtyDeviceInner::new();
    dev.process_input_byte(4);
    assert!(dev.eof_pending());
    dev.process_input_byte(b'x');
    dev.process_input_byte(b'\n');
    assert!(!dev.eof_pending());
    assert_eq!(dev.get_input(1024), b"x\n".to_vec());
}

#[test]
fn onlcr_output_processing() {
    let dev: TtyDeviceInner<u32> = TtyDeviceInner::new();
    assert_eq!(dev.process_output(b"hello\nworld\n"), b"hello\r\nworld\r\n".to_vec());
}

#[test]
fn no_onlcr_when_disabled() {
    let mut dev: TtyDeviceInner<u32> = TtyDeviceInner::new();
    let mut settings = dev.get_termios();
    settings.c_oflag = 0;
    dev.set_termios(settings);
    assert_eq!(dev.process_output(b"hello\nworld\n"), b"hello\nworld\n".to_vec());
}

#[test]
fn read_tty_gets_a_full_line() {
    let mut dev: TtyDeviceInner<u32> = TtyDeviceInner::new();
    let mut read = ReadTty::new(16);
    assert!(matches!(read.poll(&mut dev, 1), PollOutcome::Pending));
    dev.process_input_byte(b'o');
    let r = dev.process_input_byte(b'\n');
    assert_eq!(r.woken, vec![1]);
    match read.poll(&mut dev, 1) {
        PollOutcome::Ready(v) => assert_eq!(v, b"o\n".to_vec()),
        PollOutcome::Pending => panic!("a line was ready"),
    }
}

#[test]
fn console_echo_regular_chars() {
    let mut stdin: StdinBuffer<u32> = StdinBuffer::new();
    let mut state = TtyState::new();
    let r = state.process_input_byte(b'a', &mut stdin);
    assert!(matches!(r.action, tty::InputAction::Consumed));
    assert_eq!(r.echo.as_slice().to_vec(), b"a".to_vec());
    assert!(stdin.get(1024).is_empty());
}

#[test]
fn console_newline_flushes_line() {
    let mut stdin: StdinBuffer<u32> = StdinBuffer::new();
    let mut state = TtyState::new();
    state.process_input_byte(b'h', &mut stdin);
    state.process_input_byte(b'i', &mut stdin);
    let r = state.process_input_byte(b'\n', &mut stdin);
    assert_eq!(r.echo.as_slice().to_vec(), b"\n".to_vec());
    assert_eq!(stdin.get(1024), b"hi\n".to_vec());
}

#[test]
fn console_cr_mapped_to_nl() {
    let mut stdin: StdinBuffer<u32> = StdinBuffer::new();
    let mut state = TtyState::new();
    state.process_input_byte(b'x', &mut stdin);
    let r = state.process_input_byte(b'\r', &mut stdin);
    assert_eq!(r.echo.as_slice().to_vec(), b"\n".to_vec());
    assert_eq!(stdin.get(1024), b"x\n".to_vec());
}

#[test]
fn console_backspace_erases() {
    let mut stdin: StdinBuffer<u32> = StdinBuffer::new();
    let mut state = TtyState::new();
    state.process_input_byte(b'a', &mut stdin);
    state.process_input_byte(b'b', &mut stdin);
    let r = state.process_input_byte(127, &mut stdin);
    assert_eq!(r.echo.as_slice().to_vec(), b"\x08 \x08".to_vec());
    state.process_input_byte(b'\n', &mut stdin);
    assert_eq!(stdin.get(1024), b"a\n".to_vec());
}

#[test]
fn console_backspace_on_empty_does_nothing() {
    let mut stdin: StdinBuffer<u32> = StdinBuffer::new();
    let mut state = TtyState::new();
    let r = state.process_input_byte(127, &mut stdin);
    assert!(r.echo.is_empty());
}

#[test]
fn console_ctrl_c_generates_signal() {
    let mut stdin: StdinBuffer<u32> = StdinBuffer::new();
    let mut state = TtyState::new();
    state.process_input_byte(b'x', &mut stdin);
    let r = state.process_input_byte(3, &mut stdin);
    assert!(matches!(r.action, tty::InputAction::Signal));
    state.process_input_byte(b'\n', &mut stdin);
    assert_eq!(stdin.get(1024), b"\n".to_vec());
}
