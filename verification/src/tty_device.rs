use vstd::prelude::*;

use std::collections::VecDeque;

use crate::array_vec::{truncated, lemma_truncated_push, ArrayVec};
use crate::headers::{
    termios, CLOCAL, CREAD, CS8, ECHO, ECHOE, ICANON, ICRNL, ISIG, NCCS, ONLCR, OPOST, SIGINT,
    SIGQUIT, SIGTSTP, VEOF, VERASE, VINTR, VKILL, VMIN, VQUIT, VSUSP, VTIME,
};
use crate::pid::Tid;
use crate::poll::PollOutcome;
use crate::stdin_buf::{drain_front, min_nat, take_all_waiters};

verus! {

/// Capacity of the echo produced by one input byte.
pub const ECHO_CAPACITY: usize = 192;

/// Whether flag `f` is set in `v`.
pub open spec fn has_flag(v: u32, f: u32) -> bool {
    v & f != 0
}

/// The byte after input translation: with `ICRNL`, carriage return becomes newline.
pub open spec fn mapped_input_byte(s: termios, byte: u8) -> u8 {
    if has_flag(s.c_iflag, ICRNL) && byte == 13 {
        10
    } else {
        byte
    }
}

/// How a newline is echoed: with `OPOST` and `ONLCR` it is preceded by a
/// carriage return.
pub open spec fn newline_echo(s: termios) -> Seq<u8> {
    if has_flag(s.c_oflag, OPOST) && has_flag(s.c_oflag, ONLCR) {
        seq![13u8, 10u8]
    } else {
        seq![10u8]
    }
}

/// The echo that rubs out `n` characters: backspace, space, backspace each.
pub open spec fn erase_echo(n: nat) -> Seq<u8>
    decreases n,
{
    if n == 0 {
        Seq::empty()
    } else {
        erase_echo((n - 1) as nat) + seq![8u8, 32u8, 8u8]
    }
}

/// What the line discipline does with one input byte.
pub ghost struct TtyStep {
    /// The signal the byte raises, if any.
    pub signal: Option<u32>,
    /// What is echoed back (before the echo buffer's capacity is applied).
    pub echo: Seq<u8>,
    /// The line being edited afterwards.
    pub line: Seq<u8>,
    /// The input ready for readers afterwards.
    pub input: Seq<u8>,
    /// Whether an end of file is pending afterwards.
    pub eof: bool,
    /// Whether the waiting readers are woken.
    pub wake: bool,
}

/// The echo of a signal character `^X` followed by a newline.
pub open spec fn signal_echo(s: termios, letter: u8) -> Seq<u8> {
    if has_flag(s.c_lflag, ECHO) {
        seq![94u8, letter] + newline_echo(s)
    } else {
        Seq::empty()
    }
}

/// A signal character was typed: the line is discarded.
pub open spec fn signal_step(s: termios, line: Seq<u8>, input: Seq<u8>, eof: bool, sig: u32, letter: u8) -> TtyStep {
    TtyStep {
        signal: Some(sig),
        echo: signal_echo(s, letter),
        line: Seq::empty(),
        input,
        eof,
        wake: false,
    }
}

/// The effect of input byte `byte` under settings `s`, with `line` being
/// edited, `input` ready for readers and `eof` pending or not.
pub open spec fn tty_step(s: termios, line: Seq<u8>, input: Seq<u8>, eof: bool, byte: u8) -> TtyStep {
    let b = mapped_input_byte(s, byte);
    let echo_on = has_flag(s.c_lflag, ECHO);
    let echoe_on = has_flag(s.c_lflag, ECHOE);
    if has_flag(s.c_lflag, ISIG) && b == s.c_cc[VINTR as int] {
        signal_step(s, line, input, eof, SIGINT, 67u8)
    } else if has_flag(s.c_lflag, ISIG) && b == s.c_cc[VSUSP as int] {
        signal_step(s, line, input, eof, SIGTSTP, 90u8)
    } else if has_flag(s.c_lflag, ISIG) && b == s.c_cc[VQUIT as int] {
        signal_step(s, line, input, eof, SIGQUIT, 92u8)
    } else if has_flag(s.c_lflag, ICANON) {
        if b == 10 {
            TtyStep {
                signal: None,
                echo: if echo_on { newline_echo(s) } else { Seq::empty() },
                line: Seq::empty(),
                input: input + line.push(10u8),
                eof: false,
                wake: true,
            }
        } else if b == s.c_cc[VERASE as int] {
            TtyStep {
                signal: None,
                echo: if line.len() > 0 && echoe_on { seq![8u8, 32u8, 8u8] } else { Seq::empty() },
                line: if line.len() > 0 { line.drop_last() } else { line },
                input,
                eof,
                wake: false,
            }
        } else if b == s.c_cc[VEOF as int] {
            if line.len() == 0 {
                TtyStep { signal: None, echo: Seq::empty(), line, input, eof: true, wake: true }
            } else {
                TtyStep {
                    signal: None,
                    echo: Seq::empty(),
                    line: Seq::empty(),
                    input: input + line,
                    eof: false,
                    wake: true,
                }
            }
        } else if b == s.c_cc[VKILL as int] {
            TtyStep {
                signal: None,
                echo: if echoe_on { erase_echo(line.len()) } else { Seq::empty() },
                line: Seq::empty(),
                input,
                eof,
                wake: false,
            }
        } else {
            TtyStep {
                signal: None,
                echo: if echo_on { seq![b] } else { Seq::empty() },
                line: line.push(b),
                input,
                eof,
                wake: false,
            }
        }
    } else {
        TtyStep {
            signal: None,
            echo: if echo_on { seq![b] } else { Seq::empty() },
            line,
            input: input.push(b),
            eof,
            wake: true,
        }
    }
}

/// Whether `b` is a signal character under settings `s`.
pub open spec fn is_signal_char(s: termios, b: u8) -> bool {
    has_flag(s.c_lflag, ISIG) && (b == s.c_cc[VINTR as int] || b == s.c_cc[VSUSP as int] || b
        == s.c_cc[VQUIT as int])
}

/// Whether input byte `byte` only extends the line being edited under
/// canonical settings `s`: it is no newline, signal or editing character.
pub open spec fn is_line_byte(s: termios, byte: u8) -> bool {
    let b = mapped_input_byte(s, byte);
    &&& has_flag(s.c_lflag, ICANON)
    &&& !is_signal_char(s, b)
    &&& b != 10
    &&& b != s.c_cc[VERASE as int]
    &&& b != s.c_cc[VEOF as int]
    &&& b != s.c_cc[VKILL as int]
}

/// The line being edited, the input ready for readers and the pending end
/// of file after the bytes `bytes` went through the line discipline one by
/// one (see `TtyDeviceInner::process_input_byte`).
pub open spec fn tty_run(s: termios, line: Seq<u8>, input: Seq<u8>, eof: bool, bytes: Seq<u8>) -> (
    Seq<u8>,
    Seq<u8>,
    bool,
)
    decreases bytes.len(),
{
    if bytes.len() == 0 {
        (line, input, eof)
    } else {
        let st = tty_step(s, line, input, eof, bytes[0]);
        tty_run(s, st.line, st.input, st.eof, bytes.drop_first())
    }
}

/// The bytes after input translation.
pub open spec fn mapped_input(s: termios, bytes: Seq<u8>) -> Seq<u8> {
    bytes.map_values(|b: u8| mapped_input_byte(s, b))
}

proof fn lemma_line_bytes_accumulate(s: termios, line: Seq<u8>, input: Seq<u8>, eof: bool, bytes: Seq<u8>)
    requires
        forall|i: int| 0 <= i < bytes.len() ==> is_line_byte(s, #[trigger] bytes[i]),
    ensures
        tty_run(s, line, input, eof, bytes) == (line + mapped_input(s, bytes), input, eof),
    decreases bytes.len(),
{
    if bytes.len() > 0 {
        let st = tty_step(s, line, input, eof, bytes[0]);
        assert(is_line_byte(s, bytes[0]));
        assert(st.line == line.push(mapped_input_byte(s, bytes[0])));
        assert forall|i: int| 0 <= i < bytes.drop_first().len() implies is_line_byte(
            s,
            #[trigger] bytes.drop_first()[i],
        ) by {
            assert(bytes.drop_first()[i] == bytes[i + 1]);
        }
        lemma_line_bytes_accumulate(s, st.line, input, eof, bytes.drop_first());
        assert(line.push(mapped_input_byte(s, bytes[0])) + mapped_input(s, bytes.drop_first())
            =~= line + mapped_input(s, bytes));
    }
}

proof fn lemma_tty_run_append(s: termios, line: Seq<u8>, input: Seq<u8>, eof: bool, bytes: Seq<u8>, b: u8)
    ensures
        ({
            let (l, i, e) = tty_run(s, line, input, eof, bytes);
            let st = tty_step(s, l, i, e, b);
            tty_run(s, line, input, eof, bytes.push(b)) == (st.line, st.input, st.eof)
        }),
    decreases bytes.len(),
{
    let pushed = bytes.push(b);
    if bytes.len() > 0 {
        let st = tty_step(s, line, input, eof, bytes[0]);
        lemma_tty_run_append(s, st.line, st.input, st.eof, bytes.drop_first(), b);
        assert(pushed.drop_first() =~= bytes.drop_first().push(b));
        assert(pushed[0] == bytes[0]);
        assert(tty_run(s, line, input, eof, pushed) == tty_run(s, st.line, st.input, st.eof, pushed.drop_first()));
        assert(tty_run(s, line, input, eof, bytes) == tty_run(s, st.line, st.input, st.eof, bytes.drop_first()));
    } else {
        let st = tty_step(s, line, input, eof, b);
        assert(pushed[0] == b);
        assert(pushed.drop_first() =~= Seq::<u8>::empty());
        assert(tty_run(s, st.line, st.input, st.eof, pushed.drop_first()) == (st.line, st.input, st.eof));
        assert(tty_run(s, line, input, eof, bytes) == (line, input, eof));
    }
}

/// In canonical mode a typed line reaches readers whole and only at its
/// end: while its bytes are typed the input for readers stays as it was and
/// the line holds them (after translation); the newline that ends it hands
/// readers the line followed by the newline, and clears the line and any
/// pending end of file.
pub proof fn lemma_line_delivered_on_newline(s: termios, input: Seq<u8>, eof: bool, bytes: Seq<u8>, nl: u8)
    requires
        forall|i: int| 0 <= i < bytes.len() ==> is_line_byte(s, #[trigger] bytes[i]),
        has_flag(s.c_lflag, ICANON),
        mapped_input_byte(s, nl) == 10,
        !is_signal_char(s, 10),
    ensures
        forall|k: int|
            0 <= k <= bytes.len() ==> #[trigger] tty_run(s, Seq::empty(), input, eof, bytes.take(k)) == (
                mapped_input(s, bytes.take(k)),
                input,
                eof,
            ),
        tty_run(s, Seq::empty(), input, eof, bytes.push(nl)) == (
            Seq::<u8>::empty(),
            input + mapped_input(s, bytes).push(10u8),
            false,
        ),
{
    assert forall|k: int| 0 <= k <= bytes.len() implies #[trigger] tty_run(
        s,
        Seq::empty(),
        input,
        eof,
        bytes.take(k),
    ) == (mapped_input(s, bytes.take(k)), input, eof) by {
        assert forall|i: int| 0 <= i < bytes.take(k).len() implies is_line_byte(s, #[trigger] bytes.take(k)[i]) by {
            assert(bytes.take(k)[i] == bytes[i]);
        }
        lemma_line_bytes_accumulate(s, Seq::empty(), input, eof, bytes.take(k));
        assert(Seq::<u8>::empty() + mapped_input(s, bytes.take(k)) =~= mapped_input(s, bytes.take(k)));
    }
    lemma_line_bytes_accumulate(s, Seq::empty(), input, eof, bytes);
    lemma_tty_run_append(s, Seq::empty(), input, eof, bytes, nl);
    assert(Seq::<u8>::empty() + mapped_input(s, bytes) =~= mapped_input(s, bytes));
}

/// In canonical mode the kill character (when it is no signal, newline,
/// erase or end-of-file character) discards the line being edited and
/// leaves the input for readers and any pending end of file as they were;
/// it raises nothing and wakes nobody.
pub proof fn lemma_kill_discards_line(s: termios, line: Seq<u8>, input: Seq<u8>, eof: bool, byte: u8)
    requires
        has_flag(s.c_lflag, ICANON),
        !is_signal_char(s, mapped_input_byte(s, byte)),
        mapped_input_byte(s, byte) != 10,
        mapped_input_byte(s, byte) != s.c_cc[VERASE as int],
        mapped_input_byte(s, byte) != s.c_cc[VEOF as int],
        mapped_input_byte(s, byte) == s.c_cc[VKILL as int],
    ensures
        tty_step(s, line, input, eof, byte).line == Seq::<u8>::empty(),
        tty_step(s, line, input, eof, byte).input == input,
        tty_step(s, line, input, eof, byte).eof == eof,
        tty_step(s, line, input, eof, byte).signal is None,
        !tty_step(s, line, input, eof, byte).wake,
{
}

/// A typed line followed by the kill character and a newline hands readers
/// only the newline: the killed bytes never reach them.
pub proof fn lemma_killed_line_not_delivered(
    s: termios,
    input: Seq<u8>,
    eof: bool,
    bytes: Seq<u8>,
    kill: u8,
    nl: u8,
)
    requires
        forall|i: int| 0 <= i < bytes.len() ==> is_line_byte(s, #[trigger] bytes[i]),
        has_flag(s.c_lflag, ICANON),
        !is_signal_char(s, mapped_input_byte(s, kill)),
        mapped_input_byte(s, kill) != 10,
        mapped_input_byte(s, kill) != s.c_cc[VERASE as int],
        mapped_input_byte(s, kill) != s.c_cc[VEOF as int],
        mapped_input_byte(s, kill) == s.c_cc[VKILL as int],
        mapped_input_byte(s, nl) == 10,
        !is_signal_char(s, 10),
    ensures
        tty_run(s, Seq::empty(), input, eof, bytes.push(kill).push(nl)) == (
            Seq::<u8>::empty(),
            input.push(10u8),
            false,
        ),
{
    lemma_line_bytes_accumulate(s, Seq::empty(), input, eof, bytes);
    lemma_tty_run_append(s, Seq::empty(), input, eof, bytes, kill);
    lemma_kill_discards_line(s, Seq::empty() + mapped_input(s, bytes), input, eof, kill);
    lemma_tty_run_append(s, Seq::empty(), input, eof, bytes.push(kill), nl);
    assert(Seq::<u8>::empty().push(10u8) =~= seq![10u8]);
}

/// In canonical mode no typed byte is lost: for a byte that is no signal,
/// erase or kill character, the input for readers followed by the line
/// afterwards is the input and line before followed by the byte, except
/// that the end-of-file character itself is not kept.
pub proof fn lemma_canonical_keeps_typed_bytes(s: termios, line: Seq<u8>, input: Seq<u8>, eof: bool, byte: u8)
    requires
        has_flag(s.c_lflag, ICANON),
        !is_signal_char(s, mapped_input_byte(s, byte)),
        mapped_input_byte(s, byte) != s.c_cc[VERASE as int],
        mapped_input_byte(s, byte) == s.c_cc[VEOF as int] || mapped_input_byte(s, byte)
            != s.c_cc[VKILL as int],
    ensures
        ({
            let b = mapped_input_byte(s, byte);
            let st = tty_step(s, line, input, eof, byte);
            &&& st.signal is None
            &&& st.input + st.line == if b != 10 && b == s.c_cc[VEOF as int] {
                input + line
            } else {
                input + line.push(b)
            }
        }),
{
    let b = mapped_input_byte(s, byte);
    let st = tty_step(s, line, input, eof, byte);
    if b == 10 {
        assert(st.input + st.line =~= input + line.push(b));
    } else if b == s.c_cc[VEOF as int] {
        assert(st.input + st.line =~= input + line);
    } else {
        assert(st.input + st.line =~= input + line.push(b));
    }
}

/// In canonical mode the end-of-file character hands a non-empty line to
/// readers (no end of file is pending then); on an empty line it marks an
/// end of file for them.  Either way the readers are woken.
pub proof fn lemma_canonical_eof(s: termios, line: Seq<u8>, input: Seq<u8>, eof: bool, byte: u8)
    requires
        has_flag(s.c_lflag, ICANON),
        !is_signal_char(s, mapped_input_byte(s, byte)),
        mapped_input_byte(s, byte) != 10,
        mapped_input_byte(s, byte) != s.c_cc[VERASE as int],
        mapped_input_byte(s, byte) == s.c_cc[VEOF as int],
    ensures
        tty_step(s, line, input, eof, byte).line == Seq::<u8>::empty(),
        line.len() > 0 ==> tty_step(s, line, input, eof, byte).input == input + line && !tty_step(
            s,
            line,
            input,
            eof,
            byte,
        ).eof,
        line.len() == 0 ==> tty_step(s, line, input, eof, byte).input == input && tty_step(
            s,
            line,
            input,
            eof,
            byte,
        ).eof,
        tty_step(s, line, input, eof, byte).wake,
{
}

/// In canonical mode the erase character removes the last byte of a
/// non-empty line and nothing else; on an empty line it does nothing.
pub proof fn lemma_canonical_erase(s: termios, line: Seq<u8>, input: Seq<u8>, eof: bool, byte: u8)
    requires
        has_flag(s.c_lflag, ICANON),
        !is_signal_char(s, mapped_input_byte(s, byte)),
        mapped_input_byte(s, byte) != 10,
        mapped_input_byte(s, byte) == s.c_cc[VERASE as int],
    ensures
        line.len() > 0 ==> tty_step(s, line, input, eof, byte).line.push(line.last()) == line,
        line.len() == 0 ==> tty_step(s, line, input, eof, byte).line == line,
        tty_step(s, line, input, eof, byte).input == input,
        tty_step(s, line, input, eof, byte).eof == eof,
{
    if line.len() > 0 {
        assert(line.drop_last().push(line.last()) =~= line);
    }
}

/// With `ISIG` the signal characters raise their signals whatever the mode:
/// the interrupt character SIGINT (2), then the suspend character SIGTSTP
/// (20), then the quit character SIGQUIT (3).  The line being edited is
/// discarded and the input for readers is kept.
pub proof fn lemma_signal_chars(s: termios, line: Seq<u8>, input: Seq<u8>, eof: bool, byte: u8)
    requires
        is_signal_char(s, mapped_input_byte(s, byte)),
    ensures
        ({
            let b = mapped_input_byte(s, byte);
            let st = tty_step(s, line, input, eof, byte);
            &&& st.signal == if b == s.c_cc[VINTR as int] {
                Some(2u32)
            } else if b == s.c_cc[VSUSP as int] {
                Some(20u32)
            } else {
                Some(3u32)
            }
            &&& st.line == Seq::<u8>::empty()
            &&& st.input == input
            &&& st.eof == eof
        }),
{
}

/// The output after translation: with `OPOST` and `ONLCR` each newline is
/// preceded by a carriage return.
pub open spec fn onlcr(data: Seq<u8>) -> Seq<u8>
    decreases data.len(),
{
    if data.len() == 0 {
        Seq::empty()
    } else {
        let last = data.last();
        onlcr(data.drop_last()) + if last == 10 {
            seq![13u8, 10u8]
        } else {
            seq![last]
        }
    }
}

/// What happened to an input byte.
#[derive(Debug, Clone, Copy, PartialEq, Eq, Structural)]
pub enum InputAction {
    /// The byte went to the line or to the readers.
    Consumed,
    /// The byte raised this signal for the foreground process group.
    Signal(u32),
}

/// The outcome of one input byte: what it did, what to echo, and which
/// waiting readers to wake.
pub struct InputResult<W> {
    pub action: InputAction,
    pub echo: ArrayVec<u8, 192>,
    pub woken: Vec<W>,
}

/// The terminal behind the console: settings, the line being edited, the
/// input ready for readers, and the readers waiting for it.
pub struct TtyDeviceInner<W> {
    settings: termios,
    line_buf: VecDeque<u8>,
    input_buf: VecDeque<u8>,
    wakeup_queue: Vec<W>,
    fg_pgid: Tid,
    eof_pending: bool,
}

/// Appends `b` to the echo, which holds the truncation of `intended`.
fn echo_push(echo: &mut ArrayVec<u8, 192>, b: u8, Ghost(intended): Ghost<Seq<u8>>)
    requires
        old(echo)@ == truncated(intended, 192),
    ensures
        final(echo)@ == truncated(intended.push(b), 192),
{
    proof {
        lemma_truncated_push(echo@, intended, b, 192);
    }
    let _ = echo.push(b);
}

/// Moves every byte of `from` to the end of `to`.
fn append_all(from: &mut VecDeque<u8>, to: &mut VecDeque<u8>)
    ensures
        final(to)@ == old(to)@ + old(from)@,
        final(from)@ == Seq::<u8>::empty(),
{
    let ghost f0 = from@;
    let ghost t0 = to@;
    while from.len() > 0
        invariant
            to@ + from@ == t0 + f0,
        decreases from@.len(),
    {
        let ghost f = from@;
        let b = from.pop_front();
        match b {
            Some(x) => {
                to.push_back(x);
                proof {
                    assert(to@ + from@ =~= t0 + f0) by {
                        assert(f =~= seq![x] + from@);
                    }
                }
            },
            None => {},
        }
    }
    assert(to@ =~= t0 + f0);
}

impl<W> TtyDeviceInner<W> {
    /// The current settings.
    pub closed spec fn settings(&self) -> termios {
        self.settings
    }

    /// The line being edited.
    pub closed spec fn line(&self) -> Seq<u8> {
        self.line_buf@
    }

    /// The input ready for readers.
    pub closed spec fn input(&self) -> Seq<u8> {
        self.input_buf@
    }

    /// The readers waiting for input, in the order they registered.
    pub closed spec fn waiters(&self) -> Seq<W> {
        self.wakeup_queue@
    }

    /// Whether an end of file is pending.
    pub closed spec fn eof(&self) -> bool {
        self.eof_pending
    }

    /// The foreground process group.
    pub closed spec fn foreground(&self) -> Tid {
        self.fg_pgid
    }

    /// A terminal in canonical mode with echo, signals and CR-to-NL input
    /// translation, NL-to-CRNL output translation, the usual control
    /// characters, and process group 1 in the foreground.
    pub fn new() -> (r: Self)
        ensures
            r.line() == Seq::<u8>::empty(),
            r.input() == Seq::<u8>::empty(),
            r.waiters() == Seq::<W>::empty(),
            !r.eof(),
            r.foreground() == Tid(1),
            r.settings().c_iflag == ICRNL,
            r.settings().c_oflag == OPOST | ONLCR,
            r.settings().c_cflag == CS8 | CREAD | CLOCAL,
            r.settings().c_lflag == ISIG | ICANON | ECHO | ECHOE,
            r.settings().c_line == 0,
            r.settings().c_cc[VINTR as int] == 3,
            r.settings().c_cc[VQUIT as int] == 28,
            r.settings().c_cc[VERASE as int] == 127,
            r.settings().c_cc[VKILL as int] == 21,
            r.settings().c_cc[VEOF as int] == 4,
            r.settings().c_cc[VSUSP as int] == 26,
            r.settings().c_cc[VMIN as int] == 1,
            r.settings().c_cc[VTIME as int] == 0,
            forall|i: int|
                0 <= i < NCCS && i != VINTR && i != VQUIT && i != VERASE && i != VKILL && i != VEOF
                    && i != VSUSP && i != VMIN ==> r.settings().c_cc[i] == 0,
    {
        let mut c_cc = [0u8; 19];
        c_cc[VINTR] = 3;
        c_cc[VQUIT] = 28;
        c_cc[VERASE] = 127;
        c_cc[VKILL] = 21;
        c_cc[VEOF] = 4;
        c_cc[VSUSP] = 26;
        c_cc[VMIN] = 1;
        c_cc[VTIME] = 0;
        TtyDeviceInner {
            settings: termios {
                c_iflag: ICRNL,
                c_oflag: OPOST | ONLCR,
                c_cflag: CS8 | CREAD | CLOCAL,
                c_lflag: ISIG | ICANON | ECHO | ECHOE,
                c_line: 0,
                c_cc,
            },
            line_buf: VecDeque::new(),
            input_buf: VecDeque::new(),
            wakeup_queue: Vec::new(),
            fg_pgid: Tid::new(1),
            eof_pending: false,
        }
    }

    /// The current settings.
    pub fn get_termios(&self) -> (r: termios)
        ensures
            r == self.settings(),
    {
        self.settings
    }

    /// Replaces the settings; nothing else changes.
    pub fn set_termios(&mut self, new: termios)
        ensures
            final(self).settings() == new,
            final(self).line() == old(self).line(),
            final(self).input() == old(self).input(),
            final(self).waiters() == old(self).waiters(),
            final(self).eof() == old(self).eof(),
            final(self).foreground() == old(self).foreground(),
    {
        self.settings = new;
    }

    /// The foreground process group.
    pub fn fg_pgid(&self) -> (r: Tid)
        ensures
            r == self.foreground(),
    {
        self.fg_pgid
    }

    /// Makes `pgid` the foreground process group; nothing else changes.
    pub fn set_fg_pgid(&mut self, pgid: Tid)
        ensures
            final(self).foreground() == pgid,
            final(self).settings() == old(self).settings(),
            final(self).line() == old(self).line(),
            final(self).input() == old(self).input(),
            final(self).waiters() == old(self).waiters(),
            final(self).eof() == old(self).eof(),
    {
        self.fg_pgid = pgid;
    }

    /// Whether an end of file is pending.
    pub fn eof_pending(&self) -> (r: bool)
        ensures
            r == self.eof(),
    {
        self.eof_pending
    }

    fn has_lflag(&self, flag: u32) -> (r: bool)
        ensures
            r == has_flag(self.settings.c_lflag, flag),
    {
        self.settings.c_lflag & flag != 0
    }

    fn has_iflag(&self, flag: u32) -> (r: bool)
        ensures
            r == has_flag(self.settings.c_iflag, flag),
    {
        self.settings.c_iflag & flag != 0
    }

    fn has_oflag(&self, flag: u32) -> (r: bool)
        ensures
            r == has_flag(self.settings.c_oflag, flag),
    {
        self.settings.c_oflag & flag != 0
    }

    fn echo_newline(&self, echo: &mut ArrayVec<u8, 192>, Ghost(intended): Ghost<Seq<u8>>)
        requires
            old(echo)@ == truncated(intended, 192),
        ensures
            final(echo)@ == truncated(intended + newline_echo(self.settings), 192),
    {
        if self.has_oflag(OPOST) && self.has_oflag(ONLCR) {
            echo_push(echo, 13u8, Ghost(intended));
            echo_push(echo, 10u8, Ghost(intended.push(13u8)));
            assert(intended.push(13u8).push(10u8) =~= intended + newline_echo(self.settings));
        } else {
            echo_push(echo, 10u8, Ghost(intended));
            assert(intended.push(10u8) =~= intended + newline_echo(self.settings));
        }
    }

    /// The output as it goes to the console: with `OPOST` and `ONLCR` each
    /// newline is preceded by a carriage return, otherwise it is unchanged.
    pub fn process_output(&self, data: &[u8]) -> (r: Vec<u8>)
        ensures
            has_flag(self.settings().c_oflag, OPOST) && has_flag(self.settings().c_oflag, ONLCR)
                ==> r@ == onlcr(data@),
            !(has_flag(self.settings().c_oflag, OPOST) && has_flag(self.settings().c_oflag, ONLCR))
                ==> r@ == data@,
    {
        if !(self.has_oflag(OPOST) && self.has_oflag(ONLCR)) {
            let mut copy: Vec<u8> = Vec::new();
            let mut j: usize = 0;
            while j < data.len()
                invariant
                    j <= data@.len(),
                    copy@ == data@.take(j as int),
                decreases data@.len() - j,
            {
                copy.push(data[j]);
                proof {
                    assert(data@.take(j + 1) =~= data@.take(j as int).push(data@[j as int]));
                }
                j = j + 1;
            }
            assert(data@.take(data@.len() as int) =~= data@);
            return copy;
        }
        let mut out: Vec<u8> = Vec::new();
        let mut i: usize = 0;
        while i < data.len()
            invariant
                i <= data@.len(),
                out@ == onlcr(data@.take(i as int)),
            decreases data@.len() - i,
        {
            let b = data[i];
            proof {
                assert(data@.take(i + 1).drop_last() =~= data@.take(i as int));
            }
            if b == 10u8 {
                out.push(13u8);
            }
            out.push(b);
            proof {
                let s = data@.take(i + 1);
                assert(s.last() == b);
                if b == 10u8 {
                    assert(out@ =~= onlcr(data@.take(i as int)) + seq![13u8, 10u8]);
                } else {
                    assert(out@ =~= onlcr(data@.take(i as int)) + seq![b]);
                }
            }
            i = i + 1;
        }
        assert(data@.take(data@.len() as int) =~= data@);
        out
    }

    /// Runs one input byte through the line discipline (see `tty_step`).
    /// The echo keeps at most `ECHO_CAPACITY` bytes; readers are handed back
    /// to be woken, the last registered first, whenever input becomes ready
    /// or an end of file is signalled.
    pub fn process_input_byte(&mut self, byte: u8) -> (r: InputResult<W>)
        ensures
            ({
                let st = tty_step(
                    old(self).settings(),
                    old(self).line(),
                    old(self).input(),
                    old(self).eof(),
                    byte,
                );
                &&& final(self).line() == st.line
                &&& final(self).input() == st.input
                &&& final(self).eof() == st.eof
                &&& r.echo@ == truncated(st.echo, 192)
                &&& r.action == match st.signal {
                    Some(sig) => InputAction::Signal(sig),
                    None => InputAction::Consumed,
                }
                &&& st.wake ==> r.woken@ == old(self).waiters().reverse() && final(self).waiters()
                    == Seq::<W>::empty()
                &&& !st.wake ==> r.woken@ == Seq::<W>::empty() && final(self).waiters() == old(
                    self,
                ).waiters()
            }),
            final(self).settings() == old(self).settings(),
            final(self).foreground() == old(self).foreground(),
    {
        let ghost s = self.settings;
        let ghost line0 = self.line_buf@;
        let ghost input0 = self.input_buf@;
        let mut echo: ArrayVec<u8, 192> = ArrayVec::new();
        let mut b = byte;
        if self.has_iflag(ICRNL) && b == 13u8 {
            b = 10u8;
        }
        assert(b == mapped_input_byte(s, byte));
        proof {
            assert(echo@ =~= truncated(Seq::<u8>::empty(), 192));
        }
        if self.has_lflag(ISIG) {
            let mut letter: u8 = 0;
            let mut sig: u32 = 0;
            if b == self.settings.c_cc[VINTR] {
                letter = 67u8;
                sig = SIGINT;
            } else if b == self.settings.c_cc[VSUSP] {
                letter = 90u8;
                sig = SIGTSTP;
            } else if b == self.settings.c_cc[VQUIT] {
                letter = 92u8;
                sig = SIGQUIT;
            }
            if sig != 0 {
                if self.has_lflag(ECHO) {
                    let ghost g1 = seq![94u8];
                    let ghost g2 = seq![94u8, letter];
                    echo_push(&mut echo, 94u8, Ghost(Seq::empty()));
                    proof {
                        assert(Seq::<u8>::empty().push(94u8) =~= g1);
                    }
                    echo_push(&mut echo, letter, Ghost(g1));
                    proof {
                        assert(g1.push(letter) =~= g2);
                    }
                    self.echo_newline(&mut echo, Ghost(g2));
                }
                self.line_buf.clear();
                return InputResult {
                    action: InputAction::Signal(sig),
                    echo,
                    woken: Vec::new(),
                };
            }
        }
        let mut woken: Vec<W> = Vec::new();
        if self.has_lflag(ICANON) {
            if b == 10u8 {
                self.line_buf.push_back(b);
                if self.has_lflag(ECHO) {
                    self.echo_newline(&mut echo, Ghost(Seq::empty()));
                    proof {
                        assert(Seq::<u8>::empty() + newline_echo(s) =~= newline_echo(s));
                    }
                }
                woken = self.flush_line_buf();
            } else if b == self.settings.c_cc[VERASE] {
                let popped = self.line_buf.pop_back();
                if popped.is_some() && self.has_lflag(ECHOE) {
                    let ghost g1 = seq![8u8];
                    let ghost g2 = seq![8u8, 32u8];
                    echo_push(&mut echo, 8u8, Ghost(Seq::empty()));
                    proof {
                        assert(Seq::<u8>::empty().push(8u8) =~= g1);
                    }
                    echo_push(&mut echo, 32u8, Ghost(g1));
                    proof {
                        assert(g1.push(32u8) =~= g2);
                    }
                    echo_push(&mut echo, 8u8, Ghost(g2));
                    proof {
                        assert(g2.push(8u8) =~= seq![8u8, 32u8, 8u8]);
                    }
                }
                proof {
                    if line0.len() > 0 {
                        assert(self.line_buf@ =~= line0.drop_last());
                    }
                }
            } else if b == self.settings.c_cc[VEOF] {
                if self.line_buf.len() == 0 {
                    self.eof_pending = true;
                    woken = self.wake_all();
                } else {
                    woken = self.flush_line_buf();
                }
            } else if b == self.settings.c_cc[VKILL] {
                if self.has_lflag(ECHOE) {
                    let n = self.line_buf.len();
                    let mut k: usize = 0;
                    while k < n
                        invariant
                            k <= n,
                            echo@ == truncated(erase_echo(k as nat), 192),
                        decreases n - k,
                    {
                        let ghost e = erase_echo(k as nat);
                        echo_push(&mut echo, 8u8, Ghost(e));
                        echo_push(&mut echo, 32u8, Ghost(e.push(8u8)));
                        echo_push(&mut echo, 8u8, Ghost(e.push(8u8).push(32u8)));
                        proof {
                            assert(e.push(8u8).push(32u8).push(8u8) =~= erase_echo((k + 1) as nat));
                        }
                        k = k + 1;
                    }
                }
                self.line_buf.clear();
            } else {
                self.line_buf.push_back(b);
                if self.has_lflag(ECHO) {
                    echo_push(&mut echo, b, Ghost(Seq::empty()));
                    proof {
                        assert(Seq::<u8>::empty().push(b) =~= seq![b]);
                    }
                }
            }
        } else {
            woken = self.push_input(b);
            if self.has_lflag(ECHO) {
                echo_push(&mut echo, b, Ghost(Seq::empty()));
                proof {
                    assert(Seq::<u8>::empty().push(b) =~= seq![b]);
                }
            }
        }
        InputResult { action: InputAction::Consumed, echo, woken }
    }

    fn flush_line_buf(&mut self) -> (woken: Vec<W>)
        ensures
            final(self).input() == old(self).input() + old(self).line(),
            final(self).line() == Seq::<u8>::empty(),
            !final(self).eof(),
            final(self).waiters() == Seq::<W>::empty(),
            woken@ == old(self).waiters().reverse(),
            final(self).settings() == old(self).settings(),
            final(self).foreground() == old(self).foreground(),
    {
        append_all(&mut self.line_buf, &mut self.input_buf);
        self.eof_pending = false;
        self.wake_all()
    }

    fn push_input(&mut self, byte: u8) -> (woken: Vec<W>)
        ensures
            final(self).input() == old(self).input().push(byte),
            final(self).line() == old(self).line(),
            final(self).eof() == old(self).eof(),
            final(self).waiters() == Seq::<W>::empty(),
            woken@ == old(self).waiters().reverse(),
            final(self).settings() == old(self).settings(),
            final(self).foreground() == old(self).foreground(),
    {
        self.input_buf.push_back(byte);
        self.wake_all()
    }

    fn wake_all(&mut self) -> (woken: Vec<W>)
        ensures
            final(self).input() == old(self).input(),
            final(self).line() == old(self).line(),
            final(self).eof() == old(self).eof(),
            final(self).waiters() == Seq::<W>::empty(),
            woken@ == old(self).waiters().reverse(),
            final(self).settings() == old(self).settings(),
            final(self).foreground() == old(self).foreground(),
    {
        take_all_waiters(&mut self.wakeup_queue)
    }

    /// Removes and returns up to `count` bytes of ready input, oldest first.
    pub fn get_input(&mut self, count: usize) -> (r: Vec<u8>)
        ensures
            r@ == old(self).input().take(min_nat(old(self).input().len(), count as nat) as int),
            final(self).input() == old(self).input().skip(
                min_nat(old(self).input().len(), count as nat) as int,
            ),
            final(self).line() == old(self).line(),
            final(self).eof() == old(self).eof(),
            final(self).waiters() == old(self).waiters(),
            final(self).settings() == old(self).settings(),
            final(self).foreground() == old(self).foreground(),
    {
        drain_front(&mut self.input_buf, count)
    }

    /// Whether no input is ready.
    pub fn is_input_empty(&self) -> (r: bool)
        ensures
            r == (self.input().len() == 0),
    {
        self.input_buf.len() == 0
    }

    /// Registers a reader to be woken when input becomes ready.
    pub fn register_wakeup(&mut self, waker: W)
        ensures
            final(self).waiters() == old(self).waiters().push(waker),
            final(self).input() == old(self).input(),
            final(self).line() == old(self).line(),
            final(self).eof() == old(self).eof(),
            final(self).settings() == old(self).settings(),
            final(self).foreground() == old(self).foreground(),
    {
        self.wakeup_queue.push(waker);
    }

    fn vmin(&self) -> (r: usize)
        ensures
            r == self.settings.c_cc[VMIN as int] as usize,
    {
        self.settings.c_cc[VMIN] as usize
    }
}

/// A read from the terminal that completes according to the settings.
pub struct ReadTty {
    pub max_count: usize,
    pub is_registered: bool,
}

/// The number of ready bytes that completes a read: one in canonical mode,
/// otherwise `VMIN` but at least one.
pub open spec fn min_needed(s: termios) -> nat {
    if has_flag(s.c_lflag, ICANON) {
        1
    } else if s.c_cc[VMIN as int] == 0 {
        1
    } else {
        s.c_cc[VMIN as int] as nat
    }
}

impl ReadTty {
    /// A read of at most `max_count` bytes that has not waited yet.
    pub fn new(max_count: usize) -> (r: Self)
        ensures
            r.max_count == max_count,
            !r.is_registered,
    {
        ReadTty { max_count, is_registered: false }
    }

    /// One attempt to complete the read.  Ready input is delivered when there
    /// is enough of it (or the maximum is reached); in canonical mode a
    /// pending end of file gives an empty read and is consumed; in raw mode
    /// with `VMIN` zero the read never waits.  Otherwise `waker` is
    /// registered, once, and the read stays pending.
    pub fn poll<W>(&mut self, dev: &mut TtyDeviceInner<W>, waker: W) -> (r: PollOutcome<Vec<u8>>)
        ensures
            final(self).max_count == old(self).max_count,
            final(dev).settings() == old(dev).settings(),
            final(dev).line() == old(dev).line(),
            final(dev).foreground() == old(dev).foreground(),
            ({
                let s = old(dev).settings();
                let input = old(dev).input();
                let canonical = has_flag(s.c_lflag, ICANON);
                let n = min_nat(input.len(), old(self).max_count as nat);
                let enough = input.len() > 0 && (input.len() >= min_needed(s) || input.len()
                    >= old(self).max_count);
                if enough {
                    &&& r is Ready
                    &&& (r->Ready_0)@ == input.take(n as int)
                    &&& final(dev).input() == input.skip(n as int)
                    &&& final(dev).eof() == old(dev).eof()
                    &&& final(dev).waiters() == old(dev).waiters()
                } else if canonical && old(dev).eof() {
                    &&& r is Ready
                    &&& (r->Ready_0)@ == Seq::<u8>::empty()
                    &&& !final(dev).eof()
                    &&& final(dev).input() == input
                    &&& final(dev).waiters() == old(dev).waiters()
                } else if !canonical && s.c_cc[VMIN as int] == 0 {
                    &&& r is Ready
                    &&& (r->Ready_0)@ == input.take(n as int)
                    &&& final(dev).input() == input.skip(n as int)
                    &&& final(dev).eof() == old(dev).eof()
                    &&& final(dev).waiters() == old(dev).waiters()
                } else {
                    &&& r is Pending
                    &&& final(self).is_registered
                    &&& final(dev).input() == input
                    &&& final(dev).eof() == old(dev).eof()
                    &&& final(dev).waiters() == if old(self).is_registered {
                        old(dev).waiters()
                    } else {
                        old(dev).waiters().push(waker)
                    }
                }
            }),
    {
        let is_canonical = dev.has_lflag(ICANON);
        let vmin = dev.vmin();
        if !dev.is_input_empty() {
            let min_needed: usize = if is_canonical {
                1
            } else if vmin == 0 {
                1
            } else {
                vmin
            };
            if dev.input_buf.len() >= min_needed || dev.input_buf.len() >= self.max_count {
                return PollOutcome::Ready(dev.get_input(self.max_count));
            }
        }
        if is_canonical && dev.eof_pending {
            dev.eof_pending = false;
            return PollOutcome::Ready(Vec::new());
        }
        if !is_canonical && vmin == 0 {
            return PollOutcome::Ready(dev.get_input(self.max_count));
        }
        if !self.is_registered {
            dev.register_wakeup(waker);
            self.is_registered = true;
        }
        PollOutcome::Pending
    }
}

} // verus!
