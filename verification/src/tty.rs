use vstd::prelude::*;

use std::collections::VecDeque;

use crate::array_vec::{truncated, lemma_truncated_push, ArrayVec};
use crate::headers::{
    termios, CLOCAL, CREAD, CS8, ECHO, ECHOE, ICANON, ICRNL, ISIG, NCCS, VEOF, VERASE, VINTR,
    VKILL, VQUIT,
};
use crate::stdin_buf::StdinBuffer;
use crate::tty_device::{erase_echo, has_flag, mapped_input_byte};

verus! {

/// What happened to an input byte.
#[derive(Debug, Clone, Copy, PartialEq, Eq, Structural)]
pub enum InputAction {
    /// The byte went to the line or to standard input.
    Consumed,
    /// The byte was the interrupt character.
    Signal,
}

/// The outcome of one input byte: what it did, what to echo, and which
/// readers of standard input to wake.
pub struct InputResult<W> {
    pub action: InputAction,
    pub echo: ArrayVec<u8, 192>,
    pub woken: Vec<W>,
}

/// What the console line discipline does with one input byte.
pub ghost struct ConsoleStep {
    /// Whether the interrupt character was typed.
    pub signal: bool,
    /// What is echoed back (before the echo buffer's capacity is applied).
    pub echo: Seq<u8>,
    /// The line being edited afterwards.
    pub line: Seq<u8>,
    /// The bytes appended to standard input.
    pub pushed: Seq<u8>,
}

/// The effect of input byte `byte` under settings `s` with `line` being edited.
pub open spec fn console_step(s: termios, line: Seq<u8>, byte: u8) -> ConsoleStep {
    let b = mapped_input_byte(s, byte);
    let echo_on = has_flag(s.c_lflag, ECHO);
    if has_flag(s.c_lflag, ISIG) && b == s.c_cc[VINTR as int] {
        ConsoleStep {
            signal: true,
            echo: if echo_on { seq![94u8, 67u8, 10u8] } else { Seq::empty() },
            line: Seq::empty(),
            pushed: Seq::empty(),
        }
    } else if has_flag(s.c_lflag, ICANON) {
        if b == 10 {
            ConsoleStep {
                signal: false,
                echo: if echo_on { seq![10u8] } else { Seq::empty() },
                line: Seq::empty(),
                pushed: line.push(10u8),
            }
        } else if b == s.c_cc[VERASE as int] {
            ConsoleStep {
                signal: false,
                echo: if line.len() > 0 && has_flag(s.c_lflag, ECHOE) {
                    seq![8u8, 32u8, 8u8]
                } else {
                    Seq::empty()
                },
                line: if line.len() > 0 { line.drop_last() } else { line },
                pushed: Seq::empty(),
            }
        } else if b == s.c_cc[VEOF as int] {
            ConsoleStep { signal: false, echo: Seq::empty(), line: Seq::empty(), pushed: line }
        } else if b == s.c_cc[VKILL as int] {
            ConsoleStep {
                signal: false,
                echo: if has_flag(s.c_lflag, ECHOE) { erase_echo(line.len()) } else { Seq::empty() },
                line: Seq::empty(),
                pushed: Seq::empty(),
            }
        } else {
            ConsoleStep {
                signal: false,
                echo: if echo_on { seq![b] } else { Seq::empty() },
                line: line.push(b),
                pushed: Seq::empty(),
            }
        }
    } else {
        ConsoleStep {
            signal: false,
            echo: if echo_on { seq![b] } else { Seq::empty() },
            line,
            pushed: seq![b],
        }
    }
}

/// In canonical mode no typed byte is lost: for a byte that is neither the
/// interrupt, the erase nor the kill character, what goes to standard input
/// followed by the line afterwards is the line before followed by the byte,
/// except that the end-of-file character itself is not kept.
pub proof fn lemma_console_keeps_typed_bytes(s: termios, line: Seq<u8>, byte: u8)
    requires
        has_flag(s.c_lflag, ICANON),
        !(has_flag(s.c_lflag, ISIG) && mapped_input_byte(s, byte) == s.c_cc[VINTR as int]),
        mapped_input_byte(s, byte) != s.c_cc[VERASE as int],
        mapped_input_byte(s, byte) == s.c_cc[VEOF as int] || mapped_input_byte(s, byte)
            != s.c_cc[VKILL as int],
    ensures
        ({
            let b = mapped_input_byte(s, byte);
            let st = console_step(s, line, byte);
            &&& !st.signal
            &&& st.pushed + st.line == if b != 10 && b == s.c_cc[VEOF as int] {
                line
            } else {
                line.push(b)
            }
        }),
{
    let b = mapped_input_byte(s, byte);
    let st = console_step(s, line, byte);
    if b == 10 {
        assert(st.pushed + st.line =~= line.push(b));
    } else if b == s.c_cc[VEOF as int] {
        assert(st.pushed + st.line =~= line);
    } else {
        assert(st.pushed + st.line =~= line.push(b));
    }
}

/// In canonical mode the end-of-file character hands the whole line being
/// edited to standard input and leaves an empty line; nothing is echoed.
pub proof fn lemma_console_eof_flushes_line(s: termios, line: Seq<u8>, byte: u8)
    requires
        has_flag(s.c_lflag, ICANON),
        !(has_flag(s.c_lflag, ISIG) && mapped_input_byte(s, byte) == s.c_cc[VINTR as int]),
        mapped_input_byte(s, byte) != 10,
        mapped_input_byte(s, byte) != s.c_cc[VERASE as int],
        mapped_input_byte(s, byte) == s.c_cc[VEOF as int],
    ensures
        console_step(s, line, byte).pushed == line,
        console_step(s, line, byte).line == Seq::<u8>::empty(),
        console_step(s, line, byte).echo == Seq::<u8>::empty(),
        !console_step(s, line, byte).signal,
{
}

/// In canonical mode the erase character removes the last byte of a
/// non-empty line and sends nothing to standard input; on an empty line it
/// does nothing.
pub proof fn lemma_console_erase(s: termios, line: Seq<u8>, byte: u8)
    requires
        has_flag(s.c_lflag, ICANON),
        !(has_flag(s.c_lflag, ISIG) && mapped_input_byte(s, byte) == s.c_cc[VINTR as int]),
        mapped_input_byte(s, byte) != 10,
        mapped_input_byte(s, byte) == s.c_cc[VERASE as int],
    ensures
        line.len() > 0 ==> console_step(s, line, byte).line.push(line.last()) == line,
        line.len() == 0 ==> console_step(s, line, byte).line == line,
        console_step(s, line, byte).pushed == Seq::<u8>::empty(),
        !console_step(s, line, byte).signal,
{
    if line.len() > 0 {
        assert(line.drop_last().push(line.last()) =~= line);
    }
}

/// In canonical mode the kill character (when it is no interrupt, newline,
/// erase or end-of-file character) discards the line and sends nothing to
/// standard input.
pub proof fn lemma_console_kill(s: termios, line: Seq<u8>, byte: u8)
    requires
        has_flag(s.c_lflag, ICANON),
        !(has_flag(s.c_lflag, ISIG) && mapped_input_byte(s, byte) == s.c_cc[VINTR as int]),
        mapped_input_byte(s, byte) != 10,
        mapped_input_byte(s, byte) != s.c_cc[VERASE as int],
        mapped_input_byte(s, byte) != s.c_cc[VEOF as int],
        mapped_input_byte(s, byte) == s.c_cc[VKILL as int],
    ensures
        console_step(s, line, byte).line == Seq::<u8>::empty(),
        console_step(s, line, byte).pushed == Seq::<u8>::empty(),
        !console_step(s, line, byte).signal,
{
}

/// With `ISIG` the interrupt character is reported as a signal, discards the
/// line and sends nothing to standard input.
pub proof fn lemma_console_interrupt(s: termios, line: Seq<u8>, byte: u8)
    requires
        has_flag(s.c_lflag, ISIG),
        mapped_input_byte(s, byte) == s.c_cc[VINTR as int],
    ensures
        console_step(s, line, byte).signal,
        console_step(s, line, byte).line == Seq::<u8>::empty(),
        console_step(s, line, byte).pushed == Seq::<u8>::empty(),
{
}

/// The line discipline of the console in front of standard input.
pub struct TtyState {
    settings: termios,
    line_buf: VecDeque<u8>,
}

fn echo_push(echo: &mut ArrayVec<u8, 192>, b: u8, Ghost(intended): Ghost<Seq<u8>>)
    requires
        old(echo)@ == truncated(intended, 192),
    ensures
        final(echo)@ == truncated(intended.push(b), 192),
{
    proof {
        lemma_truncated_push(echo@, intended, b, 192);
    }
    let _ = echo.push(b);
}

/// Moves the whole line into standard input; the readers are woken by the
/// first byte, if there is one.
fn push_line<W>(line: &mut VecDeque<u8>, stdin: &mut StdinBuffer<W>) -> (woken: Vec<W>)
    ensures
        final(line)@ == Seq::<u8>::empty(),
        final(stdin).bytes() == old(stdin).bytes() + old(line)@,
        old(line)@.len() > 0 ==> woken@ == old(stdin).waiters().reverse() && final(stdin).waiters()
            == Seq::<W>::empty(),
        old(line)@.len() == 0 ==> woken@ == Seq::<W>::empty() && final(stdin).waiters()
            == old(stdin).waiters(),
{
    let ghost l0 = line@;
    let ghost b0 = stdin.bytes();
    let ghost w0 = stdin.waiters();
    let mut woken: Vec<W> = Vec::new();
    let mut moved_any = false;
    while line.len() > 0
        invariant
            stdin.bytes() + line@ == b0 + l0,
            !moved_any ==> woken@ == Seq::<W>::empty() && stdin.waiters() == w0 && line@.len()
                == l0.len(),
            moved_any ==> woken@ == w0.reverse() && stdin.waiters() == Seq::<W>::empty() && l0.len()
                > 0,
        decreases line@.len(),
    {
        let ghost l = line@;
        let b = line.pop_front();
        match b {
            Some(x) => {
                let mut w = stdin.push(x);
                woken.append(&mut w);
                proof {
                    assert(l =~= seq![x] + line@);
                    assert(stdin.bytes() + line@ =~= b0 + l0);
                    assert(woken@ =~= w0.reverse());
                }
                moved_any = true;
            },
            None => {},
        }
    }
    proof {
        assert(stdin.bytes() =~= b0 + l0);
    }
    woken
}

impl TtyState {
    /// The current settings.
    pub closed spec fn settings(&self) -> termios {
        self.settings
    }

    /// The line being edited.
    pub closed spec fn line(&self) -> Seq<u8> {
        self.line_buf@
    }

    /// Canonical mode with echo, signals and CR-to-NL input translation, and
    /// the usual control characters.
    pub fn new() -> (r: Self)
        ensures
            r.line() == Seq::<u8>::empty(),
            r.settings().c_iflag == ICRNL,
            r.settings().c_oflag == 0,
            r.settings().c_cflag == CS8 | CREAD | CLOCAL,
            r.settings().c_lflag == ISIG | ICANON | ECHO | ECHOE,
            r.settings().c_line == 0,
            r.settings().c_cc[VINTR as int] == 3,
            r.settings().c_cc[VQUIT as int] == 28,
            r.settings().c_cc[VERASE as int] == 127,
            r.settings().c_cc[VKILL as int] == 21,
            r.settings().c_cc[VEOF as int] == 4,
            forall|i: int|
                0 <= i < NCCS && i != VINTR && i != VQUIT && i != VERASE && i != VKILL && i != VEOF
                    ==> r.settings().c_cc[i] == 0,
    {
        let mut c_cc = [0u8; 19];
        c_cc[VINTR] = 3;
        c_cc[VQUIT] = 28;
        c_cc[VERASE] = 127;
        c_cc[VKILL] = 21;
        c_cc[VEOF] = 4;
        TtyState {
            settings: termios {
                c_iflag: ICRNL,
                c_oflag: 0,
                c_cflag: CS8 | CREAD | CLOCAL,
                c_lflag: ISIG | ICANON | ECHO | ECHOE,
                c_line: 0,
                c_cc,
            },
            line_buf: VecDeque::new(),
        }
    }

    /// The current settings.
    pub fn get_termios(&self) -> (r: termios)
        ensures
            r == self.settings(),
    {
        self.settings
    }

    /// Replaces the settings; the line is kept.
    pub fn set_termios(&mut self, new: termios)
        ensures
            final(self).settings() == new,
            final(self).line() == old(self).line(),
    {
        self.settings = new;
    }

    fn has_flag(&self, lflag: u32) -> (r: bool)
        ensures
            r == has_flag(self.settings.c_lflag, lflag),
    {
        self.settings.c_lflag & lflag != 0
    }

    fn has_iflag(&self, iflag: u32) -> (r: bool)
        ensures
            r == has_flag(self.settings.c_iflag, iflag),
    {
        self.settings.c_iflag & iflag != 0
    }

    /// Runs one input byte through the console line discipline (see
    /// `console_step`); completed input goes to `stdin`, whose readers are
    /// handed back to be woken when at least one byte arrives.
    pub fn process_input_byte<W>(&mut self, byte: u8, stdin: &mut StdinBuffer<W>) -> (r: InputResult<W>)
        ensures
            ({
                let st = console_step(old(self).settings(), old(self).line(), byte);
                &&& final(self).line() == st.line
                &&& final(stdin).bytes() == old(stdin).bytes() + st.pushed
                &&& r.echo@ == truncated(st.echo, 192)
                &&& r.action == if st.signal {
                    InputAction::Signal
                } else {
                    InputAction::Consumed
                }
                &&& st.pushed.len() > 0 ==> r.woken@ == old(stdin).waiters().reverse()
                    && final(stdin).waiters() == Seq::<W>::empty()
                &&& st.pushed.len() == 0 ==> r.woken@ == Seq::<W>::empty() && final(stdin).waiters()
                    == old(stdin).waiters()
            }),
            final(self).settings() == old(self).settings(),
    {
        let ghost s = self.settings;
        let ghost line0 = self.line_buf@;
        let mut echo: ArrayVec<u8, 192> = ArrayVec::new();
        let mut b = byte;
        if self.has_iflag(ICRNL) && b == 13u8 {
            b = 10u8;
        }
        assert(b == mapped_input_byte(s, byte));
        proof {
            assert(echo@ =~= truncated(Seq::<u8>::empty(), 192));
        }
        if self.has_flag(ISIG) && b == self.settings.c_cc[VINTR] {
            if self.has_flag(ECHO) {
                let ghost g1 = seq![94u8];
                let ghost g2 = seq![94u8, 67u8];
                echo_push(&mut echo, 94u8, Ghost(Seq::empty()));
                proof {
                    assert(Seq::<u8>::empty().push(94u8) =~= g1);
                }
                echo_push(&mut echo, 67u8, Ghost(g1));
                proof {
                    assert(g1.push(67u8) =~= g2);
                }
                echo_push(&mut echo, 10u8, Ghost(g2));
                proof {
                    assert(g2.push(10u8) =~= seq![94u8, 67u8, 10u8]);
                }
            }
            self.line_buf.clear();
            return InputResult { action: InputAction::Signal, echo, woken: Vec::new() };
        }
        let mut woken: Vec<W> = Vec::new();
        if self.has_flag(ICANON) {
            if b == 10u8 {
                self.line_buf.push_back(b);
                if self.has_flag(ECHO) {
                    echo_push(&mut echo, 10u8, Ghost(Seq::empty()));
                    proof {
                        assert(Seq::<u8>::empty().push(10u8) =~= seq![10u8]);
                    }
                }
                woken = push_line(&mut self.line_buf, stdin);
            } else if b == self.settings.c_cc[VERASE] {
                let popped = self.line_buf.pop_back();
                if popped.is_some() && self.has_flag(ECHOE) {
                    let ghost g1 = seq![8u8];
                    let ghost g2 = seq![8u8, 32u8];
                    echo_push(&mut echo, 8u8, Ghost(Seq::empty()));
                    proof {
                        assert(Seq::<u8>::empty().push(8u8) =~= g1);
                    }
                    echo_push(&mut echo, 32u8, Ghost(g1));
                    proof {
                        assert(g1.push(32u8) =~= g2);
                    }
                    echo_push(&mut echo, 8u8, Ghost(g2));
                    proof {
                        assert(g2.push(8u8) =~= seq![8u8, 32u8, 8u8]);
                    }
                }
                proof {
                    if line0.len() > 0 {
                        assert(self.line_buf@ =~= line0.drop_last());
                    }
                }
                proof {
                    assert(stdin.bytes() =~= old(stdin).bytes() + Seq::<u8>::empty());
                }
            } else if b == self.settings.c_cc[VEOF] {
                if self.line_buf.len() != 0 {
                    woken = push_line(&mut self.line_buf, stdin);
                } else {
                    proof {
                        assert(stdin.bytes() =~= old(stdin).bytes() + line0);
                    }
                }
            } else if b == self.settings.c_cc[VKILL] {
                if self.has_flag(ECHOE) {
                    let n = self.line_buf.len();
                    let mut k: usize = 0;
                    while k < n
                        invariant
                            k <= n,
                            echo@ == truncated(erase_echo(k as nat), 192),
                        decreases n - k,
                    {
                        let ghost e = erase_echo(k as nat);
                        echo_push(&mut echo, 8u8, Ghost(e));
                        echo_push(&mut echo, 32u8, Ghost(e.push(8u8)));
                        echo_push(&mut echo, 8u8, Ghost(e.push(8u8).push(32u8)));
                        proof {
                            assert(e.push(8u8).push(32u8).push(8u8) =~= erase_echo((k + 1) as nat));
                        }
                        k = k + 1;
                    }
                }
                self.line_buf.clear();
                proof {
                    assert(stdin.bytes() =~= old(stdin).bytes() + Seq::<u8>::empty());
                }
            } else {
                self.line_buf.push_back(b);
                if self.has_flag(ECHO) {
                    echo_push(&mut echo, b, Ghost(Seq::empty()));
                    proof {
                        assert(Seq::<u8>::empty().push(b) =~= seq![b]);
                    }
                }
                proof {
                    assert(stdin.bytes() =~= old(stdin).bytes() + Seq::<u8>::empty());
                }
            }
        } else {
            woken = stdin.push(b);
            if self.has_flag(ECHO) {
                echo_push(&mut echo, b, Ghost(Seq::empty()));
                proof {
                    assert(Seq::<u8>::empty().push(b) =~= seq![b]);
                }
            }
            proof {
                assert(stdin.bytes() =~= old(stdin).bytes() + seq![b]);
            }
        }
        InputResult { action: InputAction::Consumed, echo, woken }
    }
}

} // verus!
