use vstd::prelude::*;

use std::collections::BTreeMap;
use vstd::std_specs::btree::spec_btree_map_iter;
use vstd::std_specs::iter::IteratorSpec;

use crate::errors::Errno;
use crate::headers::{O_CLOEXEC, O_NONBLOCK};

verus! {

broadcast use {vstd::std_specs::btree::group_btree_axioms, vstd::laws_cmp::group_laws_cmp};

/// A file descriptor number as user space sees it.
pub type RawFd = i32;

/// The per-descriptor flags: only `O_NONBLOCK` and `O_CLOEXEC` are kept.
#[derive(Clone, Copy, Debug, PartialEq, Eq, Structural)]
pub struct FdFlags(pub i32);

impl Default for FdFlags {
    fn default() -> (r: Self)
        ensures
            r.0 == 0,
    {
        FdFlags(0)
    }
}

/// Whether the flags word has the close-on-exec bit.
pub open spec fn cloexec_set(flags: FdFlags) -> bool {
    flags.0 & (O_CLOEXEC as i32) != 0
}

impl FdFlags {
    /// Whether reads and writes must not block.
    pub fn is_nonblocking(self) -> (r: bool)
        ensures
            r == (self.0 & (O_NONBLOCK as i32) != 0),
    {
        (self.0 & (O_NONBLOCK as i32)) != 0
    }

    /// The flags word.
    pub fn as_raw(self) -> (r: i32)
        ensures
            r == self.0,
    {
        self.0
    }

    /// Keeps the two flags a descriptor carries and drops every other bit.
    pub fn from_raw(raw: i32) -> (r: Self)
        ensures
            r.0 == raw & ((O_NONBLOCK | O_CLOEXEC) as i32),
    {
        FdFlags(raw & ((O_NONBLOCK | O_CLOEXEC) as i32))
    }

    /// Whether the descriptor is closed when the process executes a new program.
    pub fn is_cloexec(self) -> (r: bool)
        ensures
            r == cloexec_set(self),
    {
        (self.0 & (O_CLOEXEC as i32)) != 0
    }
}

/// What a descriptor refers to.  Shared objects (sockets, pipes, open files)
/// are named by the number of the object they refer to.
#[derive(Clone, Copy, Debug, PartialEq, Eq, Structural)]
pub enum FileDescriptor {
    Stdin,
    Stdout,
    Stderr,
    UnboundUdpSocket,
    UdpSocket(u64),
    PipeRead(u64),
    PipeWrite(u64),
    VfsFile(u64),
}

/// An entry of the descriptor table.
#[derive(Clone, Copy, Debug, PartialEq, Eq, Structural)]
pub struct FdEntry {
    pub descriptor: FileDescriptor,
    pub flags: FdFlags,
}

/// The smallest descriptor number at or above `min_fd` that `open` does not
/// hold, if any.
pub open spec fn is_lowest_free(open: Set<i32>, min_fd: i32, fd: i32) -> bool {
    &&& min_fd <= fd
    &&& !open.contains(fd)
    &&& forall|n: i32| min_fd <= n < fd ==> open.contains(n)
}

/// Every number at or above `min_fd` is taken.
pub open spec fn all_taken_from(open: Set<i32>, min_fd: i32) -> bool {
    forall|n: i32| min_fd <= n ==> open.contains(n)
}

/// The three standard streams, open on descriptors 0, 1 and 2.
pub open spec fn standard_table() -> Map<i32, FdEntry> {
    map![
        0i32 => FdEntry { descriptor: FileDescriptor::Stdin, flags: FdFlags(0) },
        1i32 => FdEntry { descriptor: FileDescriptor::Stdout, flags: FdFlags(0) },
        2i32 => FdEntry { descriptor: FileDescriptor::Stderr, flags: FdFlags(0) },
    ]
}

/// The table a process gets when it executes a new program.
pub open spec fn without_cloexec(m: Map<i32, FdEntry>) -> Map<i32, FdEntry> {
    m.restrict(m.dom().filter(|fd: i32| !cloexec_set(m[fd].flags)))
}

/// The descriptor table of a process.
#[derive(Clone)]
pub struct FdTable {
    table: BTreeMap<i32, FdEntry>,
}

impl View for FdTable {
    type V = Map<i32, FdEntry>;

    closed spec fn view(&self) -> Map<i32, FdEntry> {
        self.table@
    }
}

impl FdTable {
    /// A table with standard input, output and error on 0, 1 and 2.
    pub fn new() -> (r: Self)
        ensures
            r@ == standard_table(),
    {
        let mut table: BTreeMap<i32, FdEntry> = BTreeMap::new();
        let default_flags = FdFlags::default();
        table.insert(0, FdEntry { descriptor: FileDescriptor::Stdin, flags: default_flags });
        table.insert(1, FdEntry { descriptor: FileDescriptor::Stdout, flags: default_flags });
        table.insert(2, FdEntry { descriptor: FileDescriptor::Stderr, flags: default_flags });
        let r = FdTable { table };
        assert(r@ =~= standard_table());
        r
    }

    /// The entry of `fd`, if it is open.
    pub fn get(&self, fd: RawFd) -> (r: Option<&FdEntry>)
        ensures
            match r {
                Some(e) => self@.contains_key(fd) && *e == self@[fd],
                None => !self@.contains_key(fd),
            },
    {
        self.table.get(&fd)
    }

    /// The lowest number at or above `min_fd` that is not open.
    fn lowest_free(&self, min_fd: RawFd) -> (r: Option<RawFd>)
        ensures
            match r {
                Some(fd) => is_lowest_free(self@.dom(), min_fd, fd),
                None => all_taken_from(self@.dom(), min_fd),
            },
    {
        let mut n: i32 = min_fd;
        loop
            invariant
                min_fd <= n,
                forall|m: i32| min_fd <= m < n ==> self@.dom().contains(m),
            decreases i32::MAX - n,
        {
            if !self.table.contains_key(&n) {
                return Some(n);
            }
            if n == i32::MAX {
                return None;
            }
            n = n + 1;
        }
    }

    /// Opens `descriptor` on the lowest free number, with no flags.
    pub fn allocate(&mut self, descriptor: FileDescriptor) -> (r: Result<RawFd, Errno>)
        ensures
            match r {
                Ok(fd) => is_lowest_free(old(self)@.dom(), 0, fd) && final(self)@ == old(self)@.insert(fd, FdEntry { descriptor, flags: FdFlags(0) }),
                Err(e) => e == Errno::EMFILE && all_taken_from(old(self)@.dom(), 0) && final(self)@ == old(self)@,
            },
    {
        let fd = match self.lowest_free(0) {
            Some(fd) => fd,
            None => {
                return Err(Errno::EMFILE);
            },
        };
        self.table.insert(fd, FdEntry { descriptor, flags: FdFlags::default() });
        Ok(fd)
    }

    /// Makes the open descriptor `fd` refer to `descriptor`, keeping its flags.
    pub fn replace_descriptor(&mut self, fd: RawFd, descriptor: FileDescriptor) -> (r: Result<(), Errno>)
        ensures
            match r {
                Ok(()) => old(self)@.contains_key(fd) && final(self)@ == old(self)@.insert(
                    fd,
                    FdEntry { descriptor, flags: old(self)@[fd].flags },
                ),
                Err(e) => e == Errno::EBADF && !old(self)@.contains_key(fd) && final(self)@ == old(self)@,
            },
    {
        let flags = match self.table.get(&fd) {
            Some(entry) => entry.flags,
            None => {
                return Err(Errno::EBADF);
            },
        };
        self.table.insert(fd, FdEntry { descriptor, flags });
        Ok(())
    }

    /// Duplicates `oldfd` onto the lowest free number at or above `min_fd`,
    /// with `flags`.
    pub fn dup_from(&mut self, oldfd: RawFd, min_fd: RawFd, flags: FdFlags) -> (r: Result<RawFd, Errno>)
        ensures
            !old(self)@.contains_key(oldfd) ==> r == Err::<RawFd, Errno>(Errno::EBADF) && final(self)@ == old(self)@,
            old(self)@.contains_key(oldfd) ==> match r {
                Ok(fd) => is_lowest_free(old(self)@.dom(), min_fd, fd) && final(self)@ == old(self)@.insert(fd, FdEntry { descriptor: old(self)@[oldfd].descriptor, flags }),
                Err(e) => e == Errno::EMFILE && all_taken_from(old(self)@.dom(), min_fd) && final(self)@ == old(self)@,
            },
    {
        let entry = match self.table.get(&oldfd) {
            Some(e) => *e,
            None => {
                return Err(Errno::EBADF);
            },
        };
        let newfd = match self.lowest_free(min_fd) {
            Some(fd) => fd,
            None => {
                return Err(Errno::EMFILE);
            },
        };
        self.table.insert(newfd, FdEntry { descriptor: entry.descriptor, flags });
        Ok(newfd)
    }

    /// Makes `newfd` a copy of `oldfd` (closing what `newfd` held), with the
    /// flags kept from `flags`.
    pub fn dup_to(&mut self, oldfd: RawFd, newfd: RawFd, flags: i32) -> (r: Result<RawFd, Errno>)
        ensures
            oldfd == newfd ==> r == Err::<RawFd, Errno>(Errno::EINVAL) && final(self)@ == old(self)@,
            oldfd != newfd && !old(self)@.contains_key(oldfd) ==> r == Err::<RawFd, Errno>(
                Errno::EBADF,
            ) && final(self)@ == old(self)@,
            oldfd != newfd && old(self)@.contains_key(oldfd) ==> r == Ok::<RawFd, Errno>(newfd)
                && final(self)@ == old(self)@.insert(
                newfd,
                FdEntry {
                    descriptor: old(self)@[oldfd].descriptor,
                    flags: FdFlags(flags & ((O_NONBLOCK | O_CLOEXEC) as i32)),
                },
            ),
    {
        if oldfd == newfd {
            return Err(Errno::EINVAL);
        }
        let entry = match self.table.get(&oldfd) {
            Some(e) => *e,
            None => {
                return Err(Errno::EBADF);
            },
        };
        self.table.remove(&newfd);
        self.table.insert(newfd, FdEntry { descriptor: entry.descriptor, flags: FdFlags::from_raw(flags) });
        assert(self.table@ =~= old(self)@.insert(
            newfd,
            FdEntry {
                descriptor: old(self)@[oldfd].descriptor,
                flags: FdFlags(flags & ((O_NONBLOCK | O_CLOEXEC) as i32)),
            },
        ));
        Ok(newfd)
    }

    /// Closes `fd` and returns what it held.
    pub fn close(&mut self, fd: RawFd) -> (r: Result<FdEntry, Errno>)
        ensures
            match r {
                Ok(e) => old(self)@.contains_key(fd) && e == old(self)@[fd] && final(self)@ == old(self)@.remove(fd),
                Err(e) => e == Errno::EBADF && !old(self)@.contains_key(fd) && final(self)@ == old(self)@,
            },
    {
        match self.table.remove(&fd) {
            Some(e) => Ok(e),
            None => Err(Errno::EBADF),
        }
    }

    /// What `fd` refers to.
    pub fn get_descriptor(&self, fd: RawFd) -> (r: Result<FileDescriptor, Errno>)
        ensures
            match r {
                Ok(d) => self@.contains_key(fd) && d == self@[fd].descriptor,
                Err(e) => e == Errno::EBADF && !self@.contains_key(fd),
            },
    {
        match self.table.get(&fd) {
            Some(e) => Ok(e.descriptor),
            None => Err(Errno::EBADF),
        }
    }

    /// What `fd` refers to, with its flags.
    pub fn get_descriptor_and_flags(&self, fd: RawFd) -> (r: Result<(FileDescriptor, FdFlags), Errno>)
        ensures
            match r {
                Ok((d, f)) => self@.contains_key(fd) && d == self@[fd].descriptor && f
                    == self@[fd].flags,
                Err(e) => e == Errno::EBADF && !self@.contains_key(fd),
            },
    {
        match self.table.get(&fd) {
            Some(e) => Ok((e.descriptor, e.flags)),
            None => Err(Errno::EBADF),
        }
    }

    /// The open file `fd` refers to; `EBADF` when `fd` is not open or is no
    /// file of the file system.
    pub fn get_vfs_file(&self, fd: RawFd) -> (r: Result<u64, Errno>)
        ensures
            match r {
                Ok(f) => self@.contains_key(fd) && self@[fd].descriptor == FileDescriptor::VfsFile(f),
                Err(e) => e == Errno::EBADF && !(self@.contains_key(fd)
                    && self@[fd].descriptor is VfsFile),
            },
    {
        match self.table.get(&fd) {
            Some(e) => match e.descriptor {
                FileDescriptor::VfsFile(f) => Ok(f),
                _ => Err(Errno::EBADF),
            },
            None => Err(Errno::EBADF),
        }
    }

    /// The flags of `fd`.
    pub fn get_flags(&self, fd: RawFd) -> (r: Result<FdFlags, Errno>)
        ensures
            match r {
                Ok(f) => self@.contains_key(fd) && f == self@[fd].flags,
                Err(e) => e == Errno::EBADF && !self@.contains_key(fd),
            },
    {
        match self.table.get(&fd) {
            Some(e) => Ok(e.flags),
            None => Err(Errno::EBADF),
        }
    }

    /// Sets the flags of `fd`.
    pub fn set_flags(&mut self, fd: RawFd, flags: FdFlags) -> (r: Result<(), Errno>)
        ensures
            match r {
                Ok(()) => old(self)@.contains_key(fd) && final(self)@ == old(self)@.insert(
                    fd,
                    FdEntry { descriptor: old(self)@[fd].descriptor, flags },
                ),
                Err(e) => e == Errno::EBADF && !old(self)@.contains_key(fd) && final(self)@ == old(self)@,
            },
    {
        let descriptor = match self.table.get(&fd) {
            Some(e) => e.descriptor,
            None => {
                return Err(Errno::EBADF);
            },
        };
        self.table.insert(fd, FdEntry { descriptor, flags });
        Ok(())
    }

    /// Closes every descriptor.
    pub fn close_all(&mut self)
        ensures
            final(self)@ == Map::<i32, FdEntry>::empty(),
    {
        self.table.clear();
    }

    /// Closes every descriptor marked close-on-exec.
    pub fn close_cloexec_fds(&mut self)
        ensures
            final(self)@ == without_cloexec(old(self)@),
    {
        let mut kept: BTreeMap<i32, FdEntry> = BTreeMap::new();
        let ghost m = self.table@;
        for kv in it: self.table.iter()
            invariant
                m == self.table@,
                it.seq() == spec_btree_map_iter(&self.table).remaining(),
                forall|k: i32| #[trigger]
                    kept@.contains_key(k) ==> m.contains_key(k) && !cloexec_set(m[k].flags)
                        && kept@[k] == m[k],
                forall|j: int|
                    0 <= j < it.index() ==> (!cloexec_set(m[*it.seq()[j].0].flags)
                        ==> #[trigger] kept@.contains_key(*it.seq()[j].0)),
        {
            let (k, e) = kv;
            if !e.flags.is_cloexec() {
                kept.insert(*k, *e);
            }
        }
        proof {
            let s = spec_btree_map_iter(&self.table).remaining();
            assert forall|k: i32| m.contains_key(k) && !cloexec_set(m[k].flags) implies #[trigger]
                kept@.contains_key(k) by {
                assert(s.contains((&k, &m[k])));
                let j = choose|j: int| 0 <= j < s.len() && s[j] == (&k, &m[k]);
                assert(*s[j].0 == k);
            }
            assert(kept@ =~= without_cloexec(m));
        }
        self.table = kept;
    }
}


/// Descriptors are reused lowest first: once `fd` is closed, when every
/// number below it is open, the next descriptor opened gets `fd` again.
pub proof fn lemma_closed_fd_reused(m: Map<i32, FdEntry>, fd: i32)
    requires
        0 <= fd,
        m.contains_key(fd),
        forall|n: i32| 0 <= n < fd ==> m.contains_key(n),
    ensures
        is_lowest_free(m.remove(fd).dom(), 0, fd),
{
}

/// A descriptor table grows by one entry when a descriptor is opened and
/// shrinks by one when it is closed: closing what was just opened gives the
/// table back.
pub proof fn lemma_close_undoes_allocate(m: Map<i32, FdEntry>, fd: i32, e: FdEntry)
    requires
        !m.contains_key(fd),
    ensures
        m.insert(fd, e).remove(fd) == m,
{
    assert(m.insert(fd, e).remove(fd) =~= m);
}

} // verus!
