use vstd::prelude::*;

use std::collections::BTreeMap;

use crate::errors::Errno;
use crate::headers::TIOCGWINSZ;
use crate::stdin_buf::{min_nat, StdinBuffer};
use crate::tmpfs::read_at;

verus! {

broadcast use {vstd::std_specs::btree::group_btree_axioms, vstd::laws_cmp::group_laws_cmp};

/// One of the three standard streams of the console.
#[derive(Debug, Clone, Copy, PartialEq, Eq, Structural)]
pub enum StdStream {
    Stdin,
    Stdout,
    Stderr,
}

/// What `ioctl` answers on a standard stream: output streams report that
/// they are no terminal when asked for their window size.
pub open spec fn std_ioctl(stream: StdStream, op: u32) -> Result<isize, Errno> {
    if stream != StdStream::Stdin && op == TIOCGWINSZ {
        Err(Errno::ENOTTY)
    } else {
        Err(Errno::EINVAL)
    }
}

impl StdStream {
    /// Reads into the front of `buf` the oldest console bytes, as many as
    /// fit and are there; only standard input can be read.
    pub fn read<W>(&self, stdin: &mut StdinBuffer<W>, buf: &mut [u8]) -> (r: Result<usize, Errno>)
        ensures
            *self != StdStream::Stdin ==> r == Err::<usize, Errno>(Errno::EINVAL) && final(stdin).bytes()
                == old(stdin).bytes() && final(buf)@ == old(buf)@,
            *self == StdStream::Stdin ==> {
                let n = min_nat(old(stdin).bytes().len(), old(buf)@.len() as nat);
                &&& r == Ok::<usize, Errno>(n as usize)
                &&& final(stdin).bytes() == old(stdin).bytes().skip(n as int)
                &&& final(buf)@ == old(stdin).bytes().take(n as int) + old(buf)@.skip(n as int)
            },
            final(stdin).waiters() == old(stdin).waiters(),
    {
        match self {
            StdStream::Stdin => {
                let data = stdin.get(buf.len());
                let n = read_at(data.as_slice(), 0, buf);
                proof {
                    let k = min_nat(old(stdin).bytes().len(), old(buf)@.len() as nat);
                    assert(n == k);
                    assert(buf@ =~= old(stdin).bytes().take(k as int) + old(buf)@.skip(k as int));
                }
                Ok(n)
            },
            _ => Err(Errno::EINVAL),
        }
    }

    /// Writes `buf` (the caller shows it on the console) and reports it
    /// written whole; standard input cannot be written.
    pub fn write(&self, buf: &[u8]) -> (r: Result<usize, Errno>)
        ensures
            r == if *self == StdStream::Stdin {
                Err::<usize, Errno>(Errno::EINVAL)
            } else {
                Ok(buf@.len() as usize)
            },
    {
        match self {
            StdStream::Stdin => Err(Errno::EINVAL),
            _ => Ok(buf.len()),
        }
    }

    /// Device control: no operation is supported.
    pub fn ioctl(&self, op: u32) -> (r: Result<isize, Errno>)
        ensures
            r == std_ioctl(*self, op),
    {
        match self {
            StdStream::Stdin => Err(Errno::EINVAL),
            _ => if op == TIOCGWINSZ {
                Err(Errno::ENOTTY)
            } else {
                Err(Errno::EINVAL)
            },
        }
    }

    /// Closing a standard stream always succeeds.
    pub fn close(&self) -> (r: Result<(), Errno>)
        ensures
            r == Ok::<(), Errno>(()),
    {
        Ok(())
    }
}

/// The three standard streams on descriptors 0, 1 and 2.
pub open spec fn std_fds() -> Map<i32, StdStream> {
    map![0i32 => StdStream::Stdin, 1i32 => StdStream::Stdout, 2i32 => StdStream::Stderr]
}

/// The console descriptors of a process.
pub struct FDs {
    fds: BTreeMap<i32, StdStream>,
}

impl View for FDs {
    type V = Map<i32, StdStream>;

    closed spec fn view(&self) -> Map<i32, StdStream> {
        self.fds@
    }
}

impl FDs {
    /// Standard input, output and error on 0, 1 and 2.
    pub fn new_with_std() -> (r: Self)
        ensures
            r@ == std_fds(),
    {
        let mut fds: BTreeMap<i32, StdStream> = BTreeMap::new();
        fds.insert(0, StdStream::Stdin);
        fds.insert(1, StdStream::Stdout);
        fds.insert(2, StdStream::Stderr);
        let r = FDs { fds };
        assert(r@ =~= std_fds());
        r
    }

    /// The stream on `fd`; `EBADF` when it is not open.
    pub fn get(&self, fd: i32) -> (r: Result<StdStream, Errno>)
        ensures
            r == if self@.contains_key(fd) {
                Ok::<StdStream, Errno>(self@[fd])
            } else {
                Err(Errno::EBADF)
            },
    {
        match self.fds.get(&fd) {
            Some(s) => Ok(*s),
            None => Err(Errno::EBADF),
        }
    }

    /// Closes `fd`; `EBADF` when it is not open.
    pub fn close(&mut self, fd: i32) -> (r: Result<(), Errno>)
        ensures
            r == if old(self)@.contains_key(fd) {
                Ok::<(), Errno>(())
            } else {
                Err(Errno::EBADF)
            },
            final(self)@ == old(self)@.remove(fd),
    {
        match self.fds.remove(&fd) {
            Some(s) => s.close(),
            None => {
                assert(self@ =~= old(self)@.remove(fd));
                Err(Errno::EBADF)
            },
        }
    }
}

} // verus!
