use vstd::prelude::*;

use crate::errors::Errno;
use crate::name_map::NameMap;

verus! {

/// How many bytes a read of `buf_len` bytes at `offset` gets from a file of
/// `len` bytes: none at or past the end, else as many as both hold.
pub open spec fn read_len(len: nat, offset: nat, buf_len: nat) -> nat {
    if offset >= len {
        0
    } else if buf_len <= len - offset {
        buf_len
    } else {
        (len - offset) as nat
    }
}

/// A file's content after writing `data` at `offset`: grown with zero bytes
/// up to the end of the write when needed, and overwritten there.
pub open spec fn written(content: Seq<u8>, offset: nat, data: Seq<u8>) -> Seq<u8> {
    let end = offset + data.len();
    let grown = if end > content.len() {
        content + Seq::new((end - content.len()) as nat, |i: int| 0u8)
    } else {
        content
    };
    grown.subrange(0, offset as int) + data + grown.subrange(end as int, grown.len() as int)
}

/// Copies into the front of `buf` what a read at `offset` of `src` gets, and
/// returns how many bytes that is.
pub fn read_at(src: &[u8], offset: usize, buf: &mut [u8]) -> (n: usize)
    ensures
        n == read_len(src@.len(), offset as nat, old(buf)@.len()),
        final(buf)@.len() == old(buf)@.len(),
        forall|j: int| 0 <= j < n ==> final(buf)@[j] == src@[offset + j],
        forall|j: int| n <= j < old(buf)@.len() ==> final(buf)@[j] == old(buf)@[j],
{
    if offset >= src.len() {
        return 0;
    }
    let available = src.len() - offset;
    let n = if buf.len() <= available {
        buf.len()
    } else {
        available
    };
    let mut i: usize = 0;
    while i < n
        invariant
            n <= old(buf)@.len(),
            offset + n <= src@.len(),
            src@.len() == src.len(),
            i <= n,
            buf@.len() == old(buf)@.len(),
            forall|j: int| 0 <= j < i ==> buf@[j] == src@[offset + j],
            forall|j: int| i <= j < buf@.len() ==> buf@[j] == old(buf)@[j],
        decreases n - i,
    {
        buf[i] = src[offset + i];
        i = i + 1;
    }
    n
}

/// A file of the in-memory file system.
pub struct TmpfsFile {
    pub ino: u64,
    pub data: Vec<u8>,
}

impl TmpfsFile {
    /// An empty file with inode number `ino`.
    pub fn new(ino: u64) -> (r: Self)
        ensures
            r.ino == ino,
            r.data@ == Seq::<u8>::empty(),
    {
        TmpfsFile { ino, data: Vec::new() }
    }

    /// The length of the content.
    pub fn size(&self) -> (r: usize)
        ensures
            r == self.data@.len(),
    {
        self.data.len()
    }

    /// Reads from `offset` into `buf`; never fails.
    pub fn read(&self, offset: usize, buf: &mut [u8]) -> (r: Result<usize, Errno>)
        ensures
            r matches Ok(n) && n == read_len(self.data@.len(), offset as nat, old(buf)@.len()),
            final(buf)@.len() == old(buf)@.len(),
            r matches Ok(n) ==> (forall|j: int| 0 <= j < n ==> final(buf)@[j] == self.data@[offset + j])
                && (forall|j: int| n <= j < old(buf)@.len() ==> final(buf)@[j] == old(buf)@[j]),
    {
        Ok(read_at(self.data.as_slice(), offset, buf))
    }

    /// Writes `data` at `offset`, growing the file with zeros when the write
    /// ends past it; returns the length of `data`.
    pub fn write(&mut self, offset: usize, data: &[u8]) -> (r: Result<usize, Errno>)
        requires
            offset + data@.len() <= usize::MAX,
        ensures
            r == Ok::<usize, Errno>(data@.len() as usize),
            final(self).ino == old(self).ino,
            final(self).data@ == written(old(self).data@, offset as nat, data@),
    {
        let end = offset + data.len();
        let ghost c0 = self.data@;
        while self.data.len() < end
            invariant
                end == offset + data@.len(),
                self.data@.len() <= if end > c0.len() { end as nat } else { c0.len() },
                self.data@.subrange(0, c0.len() as int) == c0,
                self.data@.len() >= c0.len(),
                forall|j: int| c0.len() <= j < self.data@.len() ==> self.data@[j] == 0u8,
                self.ino == old(self).ino,
            decreases end - self.data@.len(),
        {
            self.data.push(0u8);
            proof {
                assert(self.data@.subrange(0, c0.len() as int) =~= c0);
            }
        }
        let ghost grown = self.data@;
        proof {
            let g = if end > c0.len() {
                c0 + Seq::new((end - c0.len()) as nat, |i: int| 0u8)
            } else {
                c0
            };
            assert(grown =~= g) by {
                assert(grown.len() == g.len());
                assert forall|j: int| 0 <= j < grown.len() implies grown[j] == g[j] by {
                    if j < c0.len() {
                        assert(grown[j] == grown.subrange(0, c0.len() as int)[j]);
                    }
                }
            }
        }
        let mut i: usize = 0;
        while i < data.len()
            invariant
                end == offset + data@.len(),
                i <= data@.len(),
                self.data@.len() == grown.len(),
                grown.len() >= end,
                forall|j: int| 0 <= j < offset ==> self.data@[j] == grown[j],
                forall|j: int| 0 <= j < i ==> self.data@[offset + j] == data@[j],
                forall|j: int| offset + i <= j < grown.len() ==> self.data@[j] == grown[j],
                self.ino == old(self).ino,
            decreases data@.len() - i,
        {
            self.data.set(offset + i, data[i]);
            i = i + 1;
        }
        proof {
            let expect = grown.subrange(0, offset as int) + data@ + grown.subrange(
                end as int,
                grown.len() as int,
            );
            assert(self.data@ =~= expect) by {
                assert forall|j: int| 0 <= j < self.data@.len() implies self.data@[j] == expect[j] by {
                    if j < offset {
                    } else if j < end {
                        assert(self.data@[offset + (j - offset)] == data@[j - offset]);
                    } else {
                    }
                }
            }
        }
        Ok(data.len())
    }

    /// Empties the file.
    pub fn truncate(&mut self) -> (r: Result<(), Errno>)
        ensures
            r is Ok,
            final(self).ino == old(self).ino,
            final(self).data@ == Seq::<u8>::empty(),
    {
        self.data.clear();
        Ok(())
    }
}

/// A directory of the in-memory file system: names of the nodes it holds.
pub struct TmpfsDir {
    pub ino: u64,
    pub children: NameMap,
}

/// Reading back what was just written at the same offset gives the written
/// bytes: a write of `data` at `offset` followed by a read of as many bytes
/// there returns exactly `data`.
pub proof fn lemma_read_after_write(content: Seq<u8>, offset: nat, data: Seq<u8>)
    ensures
        ({
            let after = written(content, offset, data);
            &&& read_len(after.len(), offset, data.len()) == data.len()
            &&& after.subrange(offset as int, (offset + data.len()) as int) == data
        }),
{
    let after = written(content, offset, data);
    let end = offset + data.len();
    let grown = if end > content.len() {
        content + Seq::new((end - content.len()) as nat, |i: int| 0u8)
    } else {
        content
    };
    assert(grown.len() >= end);
    assert(after.len() == grown.len());
    assert(after.subrange(offset as int, end as int) =~= data);
}

/// A write leaves every byte before its offset as it was.
pub proof fn lemma_write_keeps_prefix(content: Seq<u8>, offset: nat, data: Seq<u8>)
    requires
        offset <= content.len(),
    ensures
        written(content, offset, data).subrange(0, offset as int) == content.subrange(
            0,
            offset as int,
        ),
{
    let after = written(content, offset, data);
    let end = offset + data.len();
    let grown = if end > content.len() {
        content + Seq::new((end - content.len()) as nat, |i: int| 0u8)
    } else {
        content
    };
    assert(grown.subrange(0, offset as int) =~= content.subrange(0, offset as int));
    assert(after.subrange(0, offset as int) =~= content.subrange(0, offset as int));
}

} // verus!
