//! The resource: an open handle that reads, writes, seeks, syncs and
//! truncates. Every operation has a default that fails.

use vstd::prelude::*;
use crate::error::{Error, EBADF, ESPIPE};
use crate::text::push_range;

verus! {

/// Where a seek counts from.
#[derive(Clone, Copy, Debug, PartialEq, Eq, Structural)]
pub enum ResourceSeek {
    /// From the start.
    Start(usize),
    /// From the current position.
    Current(isize),
    /// From the end.
    End(isize),
}

/// The size and the mode of a resource.
#[derive(Clone, Copy, Debug, PartialEq, Eq, Structural)]
pub struct Stat {
    pub st_mode: u16,
    pub st_size: u32,
}

/// How many bytes `read_to_end` asks for at a time.
pub const READ_CHUNK: usize = 1024;

/// The operations of a resource.
#[derive(Clone, Copy, Debug, PartialEq, Eq, Structural)]
pub enum Operation {
    Dup,
    Path,
    Read,
    Write,
    Seek,
    Sync,
    Truncate,
}

/// How a run of reads goes on after one of them.
#[derive(Debug, PartialEq, Eq)]
pub enum ReadStep {
    /// The run is over, with this result.
    Done(Result<usize, Error>),
    /// The run goes on; so many bytes have been read so far.
    More(usize),
}

/// How a run that has read `read` bytes goes on after a read with the
/// result `result`: a read of nothing ends it with the number of bytes
/// read, a failure ends it with that failure, and any other read adds its
/// count.
pub open spec fn spec_read_step(read: usize, result: Result<usize, Error>) -> ReadStep {
    match result {
        Ok(count) => if count == 0 {
            ReadStep::Done(Ok(read))
        } else {
            ReadStep::More((read + count) as usize)
        },
        Err(e) => ReadStep::Done(Err(e)),
    }
}

/// What a read with the result `result` into `bytes` has brought: the
/// first bytes of `bytes`, as many as it counts, and nothing where it
/// failed.
pub open spec fn spec_read_taken(result: Result<usize, Error>, bytes: Seq<u8>) -> Seq<u8> {
    match result {
        Ok(count) => bytes.subrange(0, count as int),
        Err(_) => Seq::empty(),
    }
}

/// Takes in one read of a run that has appended `read` bytes to `vec`: the
/// read gave `result` and left its bytes at the start of `bytes`. Appends
/// those bytes to `vec` and tells how the run goes on.
pub fn read_step(vec: &mut Vec<u8>, read: usize, result: Result<usize, Error>, bytes: &[u8]) -> (step:
    ReadStep)
    requires
        read <= old(vec)@.len(),
        result matches Ok(count) ==> count <= bytes@.len(),
    ensures
        step == spec_read_step(read, result),
        final(vec)@ == old(vec)@ + spec_read_taken(result, bytes@),
        result matches Ok(count) ==> read + count <= usize::MAX,
{
    match result {
        Ok(count) => {
            if count == 0 {
                assert(vec@ =~= vec@ + bytes@.subrange(0, 0));
                return ReadStep::Done(Ok(read));
            }
            push_range(vec, bytes, 0, count);
            assert(vec.len() == old(vec)@.len() + count);
            ReadStep::More(read + count)
        },
        Err(e) => {
            assert(vec@ =~= vec@ + Seq::<u8>::empty());
            ReadStep::Done(Err(e))
        },
    }
}

/// An open handle. A provider implements the operations that its handles
/// support and says so in `supports`; each of the others fails as the
/// default here does and changes nothing.
pub trait Resource: Sized {
    /// Whether the handle has the operation `op`; a handle has none unless
    /// its provider says otherwise.
    open spec fn supports(&self, op: Operation) -> bool {
        false
    }

    /// Duplicates the handle. Fails with `EBADF` where it is not supported.
    fn dup(&self) -> (r: Result<Self, Error>)
        ensures
            !self.supports(Operation::Dup) ==> (r matches Err(e) && e.errno == EBADF),
    {
        Err(Error::new(EBADF))
    }

    /// Writes the path of the handle into `buf` and returns its length.
    /// Fails with `EBADF` where it is not supported.
    fn path(&self, buf: &mut [u8]) -> (r: Result<usize, Error>)
        ensures
            !self.supports(Operation::Path) ==> r == Err::<usize, Error>(Error { errno: EBADF })
                && final(buf)@ == old(buf)@,
    {
        Err(Error::new(EBADF))
    }

    /// Reads into `buf` and returns the number of bytes read, which is no
    /// more than `buf` holds. Fails with `EBADF` where it is not supported.
    fn read(&mut self, buf: &mut [u8]) -> (r: Result<usize, Error>)
        ensures
            final(buf)@.len() == old(buf)@.len(),
            r matches Ok(n) ==> n <= old(buf)@.len(),
            !old(self).supports(Operation::Read) ==> r == Err::<usize, Error>(
                Error { errno: EBADF },
            ) && *final(self) == *old(self) && final(buf)@ == old(buf)@,
    {
        Err(Error::new(EBADF))
    }

    /// Reads until a read gives nothing, 1024 bytes at a time, and appends
    /// what was read to `vec`. Returns the number of bytes read, or the
    /// error of the read that failed; what was read before it stays in
    /// `vec`. Each read is taken in as `read_step` says, and the first
    /// step that is done ends the run.
    fn read_to_end(&mut self, vec: &mut Vec<u8>) -> (r: Result<usize, Error>)
        ensures
            old(vec)@.len() <= final(vec)@.len(),
            final(vec)@.subrange(0, old(vec)@.len() as int) == old(vec)@,
            r matches Ok(n) ==> final(vec)@.len() == old(vec)@.len() + n,
            !old(self).supports(Operation::Read) ==> r == Err::<usize, Error>(
                Error { errno: EBADF },
            ) && *final(self) == *old(self) && final(vec)@ == old(vec)@,
    {
        let mut read: usize = 0;
        let mut bytes: Vec<u8> = Vec::new();
        bytes.resize(READ_CHUNK, 0);
        assert(vec@.subrange(0, old(vec)@.len() as int) =~= old(vec)@);
        loop
            invariant
                bytes@.len() == READ_CHUNK,
                vec@.len() == old(vec)@.len() + read,
                vec@.subrange(0, old(vec)@.len() as int) == old(vec)@,
                read == 0 ==> *self == *old(self) && vec@ == old(vec)@,
                read > 0 ==> old(self).supports(Operation::Read),
            decreases usize::MAX - vec@.len(),
        {
            let ghost before = vec@;
            let result = self.read(bytes.as_mut_slice());
            match read_step(vec, read, result, bytes.as_slice()) {
                ReadStep::Done(r) => {
                    assert(vec@ =~= before);
                    return r;
                },
                ReadStep::More(total) => {
                    assert(result matches Ok(count) && count > 0 && total == read + count);
                    assert(vec.len() == before.len() + result->Ok_0);
                    assert(vec@.subrange(0, old(vec)@.len() as int) =~= before.subrange(
                        0,
                        old(vec)@.len() as int,
                    ));
                    read = total;
                },
            }
        }
    }

    /// Writes `buf` and returns the number of bytes written. Fails with
    /// `EBADF` where it is not supported.
    fn write(&mut self, buf: &[u8]) -> (r: Result<usize, Error>)
        ensures
            !old(self).supports(Operation::Write) ==> r == Err::<usize, Error>(
                Error { errno: EBADF },
            ) && *final(self) == *old(self),
    {
        Err(Error::new(EBADF))
    }

    /// Moves the position and returns the new one. Fails with `ESPIPE`
    /// where it is not supported.
    fn seek(&mut self, pos: ResourceSeek) -> (r: Result<usize, Error>)
        ensures
            !old(self).supports(Operation::Seek) ==> r == Err::<usize, Error>(
                Error { errno: ESPIPE },
            ) && *final(self) == *old(self),
    {
        Err(Error::new(ESPIPE))
    }

    /// Flushes what was written. Fails with `EBADF` where it is not
    /// supported.
    fn sync(&mut self) -> (r: Result<(), Error>)
        ensures
            !old(self).supports(Operation::Sync) ==> r == Err::<(), Error>(Error { errno: EBADF })
                && *final(self) == *old(self),
    {
        Err(Error::new(EBADF))
    }

    /// Cuts or extends the content to `len` bytes. Fails with `EBADF`
    /// where it is not supported.
    fn truncate(&mut self, len: usize) -> (r: Result<(), Error>)
        ensures
            !old(self).supports(Operation::Truncate) ==> r == Err::<(), Error>(
                Error { errno: EBADF },
            ) && *final(self) == *old(self),
    {
        Err(Error::new(EBADF))
    }
}

} // verus!
