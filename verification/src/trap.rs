use vstd::prelude::*;

use crate::stdin_buf::StdinBuffer;

verus! {

/// Exception code of an `ecall` from user mode.
pub const ENVIRONMENT_CALL_FROM_U_MODE: usize = 8;
/// The console byte of Ctrl-C.
pub const CTRL_C: u8 = 3;
/// The console byte of Ctrl-D.
pub const CTRL_D: u8 = 4;

/// What the console sent: whether Ctrl-C and Ctrl-D came, and the other
/// bytes, for standard input.
pub struct ConsoleInput {
    pub ctrl_c: bool,
    pub ctrl_d: bool,
    pub bytes: Vec<u8>,
}

/// Whether a console byte is an ordinary one.
pub open spec fn is_plain_input(b: u8) -> bool {
    b != CTRL_C && b != CTRL_D
}

/// Sorts the bytes read from the console: Ctrl-C and Ctrl-D are noted, the
/// others kept in order.
pub fn sort_console_input(input: &[u8]) -> (r: ConsoleInput)
    ensures
        r.ctrl_c == input@.contains(CTRL_C),
        r.ctrl_d == input@.contains(CTRL_D),
        r.bytes@ == input@.filter(|b: u8| is_plain_input(b)),
{
    let mut ctrl_c = false;
    let mut ctrl_d = false;
    let mut bytes: Vec<u8> = Vec::new();
    let mut i: usize = 0;
    while i < input.len()
        invariant
            i <= input@.len(),
            ctrl_c == input@.take(i as int).contains(CTRL_C),
            ctrl_d == input@.take(i as int).contains(CTRL_D),
            bytes@ == input@.take(i as int).filter(|b: u8| is_plain_input(b)),
        decreases input@.len() - i,
    {
        let b = input[i];
        proof {
            let t = input@.take(i + 1);
            assert(t.drop_last() =~= input@.take(i as int));
            assert(t.last() == b);
            reveal(Seq::filter);
            assert(t.contains(CTRL_C) == (input@.take(i as int).contains(CTRL_C) || b == CTRL_C)) by {
                if b == CTRL_C {
                    assert(t[i as int] == b);
                }
                if input@.take(i as int).contains(CTRL_C) {
                    let j = choose|j: int| 0 <= j < i && input@.take(i as int)[j] == CTRL_C;
                    assert(t[j] == CTRL_C);
                }
            }
            assert(t.contains(CTRL_D) == (input@.take(i as int).contains(CTRL_D) || b == CTRL_D)) by {
                if b == CTRL_D {
                    assert(t[i as int] == b);
                }
                if input@.take(i as int).contains(CTRL_D) {
                    let j = choose|j: int| 0 <= j < i && input@.take(i as int)[j] == CTRL_D;
                    assert(t[j] == CTRL_D);
                }
            }
        }
        if b == CTRL_C {
            ctrl_c = true;
        } else if b == CTRL_D {
            ctrl_d = true;
        } else {
            bytes.push(b);
        }
        i = i + 1;
    }
    assert(input@.take(input@.len() as int) =~= input@);
    ConsoleInput { ctrl_c, ctrl_d, bytes }
}

/// What handing console input to standard input did: whether Ctrl-C and
/// Ctrl-D came, and the readers to wake.
pub struct ConsoleFeed<W> {
    pub ctrl_c: bool,
    pub ctrl_d: bool,
    pub woken: Vec<W>,
}

/// Handles the bytes the console sent: the ordinary ones are appended to
/// standard input in order, Ctrl-C and Ctrl-D are noted, and when a byte
/// arrived the readers that waited are handed back to be woken, the last
/// registered first.
pub fn feed_console_input<W>(input: &[u8], stdin: &mut StdinBuffer<W>) -> (r: ConsoleFeed<W>)
    ensures
        r.ctrl_c == input@.contains(CTRL_C),
        r.ctrl_d == input@.contains(CTRL_D),
        final(stdin).bytes() == old(stdin).bytes() + input@.filter(|b: u8| is_plain_input(b)),
        input@.filter(|b: u8| is_plain_input(b)).len() > 0 ==> {
            &&& r.woken@ == old(stdin).waiters().reverse()
            &&& final(stdin).waiters() == Seq::<W>::empty()
        },
        input@.filter(|b: u8| is_plain_input(b)).len() == 0 ==> {
            &&& r.woken@ == Seq::<W>::empty()
            &&& final(stdin).waiters() == old(stdin).waiters()
        },
{
    let sorted = sort_console_input(input);
    let bytes = sorted.bytes;
    let ghost kept = bytes@;
    let mut woken: Vec<W> = Vec::new();
    let mut i: usize = 0;
    while i < bytes.len()
        invariant
            bytes@ == kept,
            i <= kept.len(),
            stdin.bytes() == old(stdin).bytes() + kept.take(i as int),
            i > 0 ==> woken@ == old(stdin).waiters().reverse() && stdin.waiters() == Seq::<W>::empty(),
            i == 0 ==> woken@ == Seq::<W>::empty() && stdin.waiters() == old(stdin).waiters(),
        decreases kept.len() - i,
    {
        let mut w = stdin.push(bytes[i]);
        proof {
            assert(kept.take(i + 1) =~= kept.take(i as int).push(kept[i as int]));
            if i > 0 {
                assert(w@ =~= Seq::<W>::empty());
            }
        }
        woken.append(&mut w);
        proof {
            assert(woken@ =~= old(stdin).waiters().reverse()) by {
                if i == 0 {
                    assert(woken@ =~= Seq::<W>::empty() + old(stdin).waiters().reverse());
                }
            }
        }
        i = i + 1;
    }
    proof {
        assert(kept.take(kept.len() as int) =~= kept);
    }
    ConsoleFeed { ctrl_c: sorted.ctrl_c, ctrl_d: sorted.ctrl_d, woken }
}

/// How an exception is handled.
#[derive(Debug, Clone, Copy, PartialEq, Eq, Structural)]
pub enum ExceptionKind {
    /// A system call.
    Syscall,
    /// Anything else: the process is killed, or the kernel stops.
    Unhandled,
}

/// Sorts an exception by its code.
pub fn exception_kind(code: usize) -> (r: ExceptionKind)
    ensures
        r == if code == ENVIRONMENT_CALL_FROM_U_MODE {
            ExceptionKind::Syscall
        } else {
            ExceptionKind::Unhandled
        },
{
    if code == ENVIRONMENT_CALL_FROM_U_MODE {
        ExceptionKind::Syscall
    } else {
        ExceptionKind::Unhandled
    }
}

} // verus!
