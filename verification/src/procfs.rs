use vstd::prelude::*;

use crate::errors::Errno;
use crate::tmpfs::{read_at, read_len};

verus! {

/// The content of `/proc/version`: "Solaya 0.1.0\n".
pub open spec fn version_text() -> Seq<u8> {
    seq![83u8, 111u8, 108u8, 97u8, 121u8, 97u8, 32u8, 48u8, 46u8, 49u8, 46u8, 48u8, 10u8]
}

/// The name of the one entry of `/proc`: "version".
pub open spec fn version_name() -> Seq<u8> {
    seq![118u8, 101u8, 114u8, 115u8, 105u8, 111u8, 110u8]
}

/// "Solaya 0.1.0\n" as bytes.
pub fn version_string() -> (r: [u8; 13])
    ensures
        r@ == version_text(),
{
    let r: [u8; 13] = [83u8, 111u8, 108u8, 97u8, 121u8, 97u8, 32u8, 48u8, 46u8, 49u8, 46u8, 48u8, 10u8];
    assert(r@ =~= version_text());
    r
}

/// "version" as bytes.
pub fn version_file_name() -> (r: [u8; 7])
    ensures
        r@ == version_name(),
{
    let r: [u8; 7] = [118u8, 101u8, 114u8, 115u8, 105u8, 111u8, 110u8];
    assert(r@ =~= version_name());
    r
}

/// The read-only file `/proc/version`.
pub struct ProcVersionFile {
    pub ino: u64,
}

impl ProcVersionFile {
    /// The length of the version text.
    pub fn size(&self) -> (r: usize)
        ensures
            r == version_text().len(),
    {
        13
    }

    /// Reads the version text from `offset` into `buf`.
    pub fn read(&self, offset: usize, buf: &mut [u8]) -> (r: Result<usize, Errno>)
        ensures
            r matches Ok(n) && n == read_len(version_text().len(), offset as nat, old(buf)@.len()),
            final(buf)@.len() == old(buf)@.len(),
            r matches Ok(n) ==> (forall|j: int| 0 <= j < n ==> final(buf)@[j] == version_text()[offset + j])
                && (forall|j: int| n <= j < old(buf)@.len() ==> final(buf)@[j] == old(buf)@[j]),
    {
        let text = version_string();
        Ok(read_at(&text, offset, buf))
    }

    /// The file cannot be written.
    pub fn write(&self, offset: usize, data: &[u8]) -> (r: Result<usize, Errno>)
        ensures
            r == Err::<usize, Errno>(Errno::EACCES),
    {
        Err(Errno::EACCES)
    }
}

/// The directory `/proc`, holding only `version`.
pub struct ProcDir {
    pub ino: u64,
    pub version: usize,
}

} // verus!
