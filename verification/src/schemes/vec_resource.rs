//! A resource over a vector of bytes.

use vstd::prelude::*;
use crate::error::Error;
use crate::schemes::resource::{Operation, Resource, ResourceSeek, Stat};
use crate::text::to_vec;

verus! {

/// A resource that reads from and writes to a vector of bytes.
#[derive(Debug)]
pub struct VecResource {
    pub path: Vec<u8>,
    pub data: Vec<u8>,
    pub mode: u16,
    pub seek: usize,
}

/// The smaller of two numbers.
pub open spec fn spec_min(a: int, b: int) -> int {
    if a < b {
        a
    } else {
        b
    }
}

/// `buf` with the bytes of `src` over its start.
pub open spec fn spec_filled(buf: Seq<u8>, src: Seq<u8>) -> Seq<u8> {
    src + buf.subrange(src.len() as int, buf.len() as int)
}

/// `data` with `buf` written at `seek`: over what is there, and beyond the
/// end where `buf` is longer.
pub open spec fn spec_written(data: Seq<u8>, seek: int, buf: Seq<u8>) -> Seq<u8> {
    data.subrange(0, seek) + buf + if seek + buf.len() < data.len() {
        data.subrange(seek + buf.len(), data.len() as int)
    } else {
        Seq::empty()
    }
}

/// `data` cut to `len` bytes, or filled up to `len` bytes with zeros.
pub open spec fn spec_resized(data: Seq<u8>, len: int) -> Seq<u8> {
    if len <= data.len() {
        data.subrange(0, len)
    } else {
        data + Seq::new((len - data.len()) as nat, |k: int| 0u8)
    }
}

/// The position after a seek on `len` bytes from the position `seek`. A
/// seek from the start stops at the end. A seek from the current position
/// or from the end never moves forward, and stops at the start.
pub open spec fn spec_seek(len: int, seek: int, pos: ResourceSeek) -> int {
    match pos {
        ResourceSeek::Start(offset) => spec_min(len, offset as int),
        ResourceSeek::Current(offset) => {
            let target = spec_min(seek, seek + offset);
            if target < 0 {
                0
            } else {
                target
            }
        },
        ResourceSeek::End(offset) => {
            let target = spec_min(seek, len + offset);
            if target < 0 {
                0
            } else {
                target
            }
        },
    }
}

/// Copies as much of `src[from..]` as fits over the start of `buf`, and
/// returns the number of bytes copied.
pub fn copy_into(buf: &mut [u8], src: &[u8], from: usize) -> (n: usize)
    requires
        from <= src.len(),
    ensures
        n == spec_min(old(buf)@.len() as int, src@.len() - from),
        final(buf)@ == spec_filled(old(buf)@, src@.subrange(from as int, from + n)),
{
    let mut i: usize = 0;
    let avail: usize = src.len() - from;
    while i < buf.len() && i < avail
        invariant
            from + avail == src.len(),
            i <= buf.len(),
            i <= avail,
            buf@.len() == old(buf)@.len(),
            buf@ == spec_filled(old(buf)@, src@.subrange(from as int, from + i)),
        decreases avail - i,
    {
        buf[i] = src[from + i];
        i += 1;
        assert(buf@ =~= spec_filled(old(buf)@, src@.subrange(from as int, from + i)));
    }
    i
}

/// How far a seek by a negative `offset` goes back.
fn distance_back(offset: isize) -> (d: usize)
    requires
        offset < 0,
    ensures
        d == -offset,
{
    let d: usize = (-(offset + 1)) as usize;
    d + 1
}

impl VecResource {
    /// The position lies inside the data or at its end.
    pub open spec fn wf(&self) -> bool {
        self.seek <= self.data@.len()
    }

    /// A resource with the path `path` over `data`, at its start.
    pub fn new(path: Vec<u8>, data: Vec<u8>, mode: u16) -> (r: VecResource)
        ensures
            r.wf(),
            r.path == path,
            r.data == data,
            r.mode == mode,
            r.seek == 0,
    {
        VecResource { path, data, mode, seek: 0 }
    }

    /// The data of the resource.
    pub fn data(&self) -> (d: &Vec<u8>)
        ensures
            d == &self.data,
    {
        &self.data
    }

    /// The data of the resource.
    pub fn inner(&self) -> (d: &Vec<u8>)
        ensures
            d == &self.data,
    {
        &self.data
    }

    /// The size of the data, as far as 32 bits hold it, and the mode.
    pub fn stat(&self) -> (s: Stat)
        ensures
            s.st_mode == self.mode,
            s.st_size == (self.data@.len() % 0x1_0000_0000) as u32,
    {
        let size: u64 = self.data.len() as u64;
        Stat { st_mode: self.mode, st_size: (size % 0x1_0000_0000) as u32 }
    }
}

impl Resource for VecResource {
    /// A resource over bytes in memory has every operation.
    open spec fn supports(&self, op: Operation) -> bool {
        true
    }

    /// A resource of its own with the same path, data and position.
    fn dup(&self) -> (r: Result<VecResource, Error>)
        ensures
            r is Ok,
            r->Ok_0.path@ == self.path@,
            r->Ok_0.data@ == self.data@,
            r->Ok_0.mode == self.mode,
            r->Ok_0.seek == self.seek,
    {
        Ok(
            VecResource {
                path: to_vec(self.path.as_slice()),
                data: to_vec(self.data.as_slice()),
                mode: self.mode,
                seek: self.seek,
            },
        )
    }

    /// Copies as much of the path as fits into `buf`.
    fn path(&self, buf: &mut [u8]) -> (r: Result<usize, Error>)
        ensures
            r == Ok::<usize, Error>(
                spec_min(old(buf)@.len() as int, self.path@.len() as int) as usize,
            ),
            final(buf)@ == spec_filled(old(buf)@, self.path@.subrange(0, r->Ok_0 as int)),
    {
        let n = copy_into(buf, self.path.as_slice(), 0);
        Ok(n)
    }

    /// Copies the data from the position on into `buf`, as much as is there
    /// and fits, and moves the position behind it. A position behind the
    /// end of the data reads nothing.
    fn read(&mut self, buf: &mut [u8]) -> (r: Result<usize, Error>)
        ensures
            if old(self).wf() {
                &&& r == Ok::<usize, Error>(
                    spec_min(old(buf)@.len() as int, old(self).data@.len() - old(self).seek) as usize,
                )
                &&& final(buf)@ == spec_filled(
                    old(buf)@,
                    old(self).data@.subrange(old(self).seek as int, old(self).seek + r->Ok_0),
                )
                &&& final(self).seek == old(self).seek + r->Ok_0
                &&& final(self).wf()
            } else {
                &&& r == Ok::<usize, Error>(0)
                &&& final(buf)@ == old(buf)@
                &&& final(self).seek == old(self).seek
            },
            final(self).data == old(self).data,
            final(self).path == old(self).path,
            final(self).mode == old(self).mode,
    {
        if self.seek > self.data.len() {
            return Ok(0);
        }
        let n = copy_into(buf, self.data.as_slice(), self.seek);
        self.seek = self.seek + n;
        Ok(n)
    }

    /// Writes `buf` at the position, over what is there and beyond the end,
    /// and moves the position behind it. Nothing is written from a position
    /// behind the end of the data, nor where the data would grow beyond
    /// what can be counted.
    fn write(&mut self, buf: &[u8]) -> (r: Result<usize, Error>)
        ensures
            if old(self).wf() && old(self).seek + buf@.len() <= usize::MAX {
                &&& r == Ok::<usize, Error>(buf@.len() as usize)
                &&& final(self).data@ == spec_written(
                    old(self).data@,
                    old(self).seek as int,
                    buf@,
                )
                &&& final(self).seek == old(self).seek + buf@.len()
                &&& final(self).wf()
            } else {
                &&& r == Ok::<usize, Error>(0)
                &&& *final(self) == *old(self)
            },
            final(self).path == old(self).path,
            final(self).mode == old(self).mode,
    {
        if self.seek > self.data.len() || buf.len() > usize::MAX - self.seek {
            return Ok(0);
        }
        let start: usize = self.seek;
        let ghost before = self.data@;
        let mut i: usize = 0;
        while i < buf.len() && self.seek < self.data.len()
            invariant
                i <= buf.len(),
                self.seek == start + i,
                self.seek <= self.data@.len(),
                self.data@.len() == before.len(),
                start + buf@.len() <= usize::MAX,
                self.data@ == spec_written(before, start as int, buf@.subrange(0, i as int)),
                self.path == old(self).path,
                self.mode == old(self).mode,
            decreases buf.len() - i,
        {
            self.data[self.seek] = buf[i];
            self.seek += 1;
            i += 1;
            assert(self.data@ =~= spec_written(before, start as int, buf@.subrange(0, i as int)));
        }
        while i < buf.len()
            invariant
                i <= buf.len(),
                self.seek == start + i,
                start + buf@.len() <= usize::MAX,
                i < buf.len() ==> self.seek == self.data@.len(),
                self.seek <= self.data@.len(),
                self.data@ == spec_written(before, start as int, buf@.subrange(0, i as int)),
                self.path == old(self).path,
                self.mode == old(self).mode,
            decreases buf.len() - i,
        {
            self.data.push(buf[i]);
            self.seek += 1;
            i += 1;
            assert(self.data@ =~= spec_written(before, start as int, buf@.subrange(0, i as int)));
        }
        assert(buf@.subrange(0, buf@.len() as int) =~= buf@);
        Ok(i)
    }

    /// Moves the position.
    fn seek(&mut self, pos: ResourceSeek) -> (r: Result<usize, Error>)
        ensures
            r == Ok::<usize, Error>(final(self).seek),
            final(self).seek == spec_seek(
                old(self).data@.len() as int,
                old(self).seek as int,
                pos,
            ),
            old(self).wf() ==> final(self).wf(),
            final(self).data == old(self).data,
            final(self).path == old(self).path,
            final(self).mode == old(self).mode,
    {
        let len: usize = self.data.len();
        match pos {
            ResourceSeek::Start(offset) => {
                self.seek = if len < offset {
                    len
                } else {
                    offset
                };
            },
            ResourceSeek::Current(offset) => {
                if offset < 0 {
                    let back = distance_back(offset);
                    self.seek = if back >= self.seek {
                        0
                    } else {
                        self.seek - back
                    };
                }
            },
            ResourceSeek::End(offset) => {
                if offset < 0 {
                    let back = distance_back(offset);
                    let target: usize = if back >= len {
                        0
                    } else {
                        len - back
                    };
                    if target < self.seek {
                        self.seek = target;
                    }
                } else if len < self.seek {
                    if offset as usize <= self.seek - len {
                        self.seek = len + offset as usize;
                    }
                }
            },
        }
        Ok(self.seek)
    }

    /// Does nothing: the data is its own store.
    fn sync(&mut self) -> (r: Result<(), Error>)
        ensures
            r is Ok,
            *final(self) == *old(self),
    {
        Ok(())
    }

    /// Cuts the data to `len` bytes or fills it up with zeros, and moves a
    /// position behind the new end back to it.
    fn truncate(&mut self, len: usize) -> (r: Result<(), Error>)
        ensures
            r is Ok,
            final(self).data@ == spec_resized(old(self).data@, len as int),
            final(self).seek == spec_min(old(self).seek as int, len as int),
            final(self).wf(),
            final(self).path == old(self).path,
            final(self).mode == old(self).mode,
    {
        let ghost before = self.data@;
        while len > self.data.len()
            invariant
                before.len() <= self.data@.len() <= len || (self.data@ == before && before.len() > len),
                self.data@.len() >= before.len(),
                self.data@ == before + Seq::new(
                    (self.data@.len() - before.len()) as nat,
                    |k: int| 0u8,
                ),
                self.seek == old(self).seek,
                self.path == old(self).path,
                self.mode == old(self).mode,
            decreases len - self.data.len(),
        {
            self.data.push(0);
            assert(self.data@ =~= before + Seq::new(
                (self.data@.len() - before.len()) as nat,
                |k: int| 0u8,
            ));
        }
        self.data.truncate(len);
        assert(self.data@ =~= spec_resized(before, len as int));
        if self.data.len() < self.seek {
            self.seek = self.data.len();
        }
        Ok(())
    }
}

} // verus!
