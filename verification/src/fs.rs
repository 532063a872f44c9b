//! Files as a program sees them: what a system call is handed and what it
//! hands back. The calls themselves are made by the caller.

use vstd::prelude::*;
use crate::env::scheme::{SEEK_CUR, SEEK_END, SEEK_SET};
use crate::error::{spec_demux, Error, EACCES};
use crate::text::push_range;

verus! {

/// Open flag: read and write.
pub const O_RDWR: usize = 2;

/// Open flag: create the file.
pub const O_CREAT: usize = 0x200;

/// Open flag: cut the file to no bytes.
pub const O_TRUNC: usize = 0x400;

/// The mode of a new directory.
pub const DIR_MODE: usize = 755;

/// The byte that ends a line of a directory.
pub const NEWLINE: u8 = 0x0A;

pub const SLASH: u8 = 0x2F;

/// An open file.
#[derive(Debug, PartialEq, Eq)]
pub struct File {
    /// The descriptor of the file.
    pub fd: usize,
}

/// Where a seek on a file counts from.
#[derive(Clone, Copy, Debug, PartialEq, Eq, Structural)]
pub enum SeekFrom {
    Start(u64),
    End(i64),
    Current(i64),
}

/// What a directory entry is.
#[derive(Clone, Copy, Debug, PartialEq, Eq, Structural)]
pub struct FileType {
    pub dir: bool,
    pub file: bool,
}

/// An entry of a directory.
#[derive(Debug, PartialEq, Eq)]
pub struct DirEntry {
    pub path: Vec<u8>,
    pub dir: bool,
    pub file: bool,
}

/// A reader of the entries of a directory. The content of a directory is
/// one entry to a line; the name of a directory ends in a slash.
#[derive(Debug)]
pub struct ReadDir {
    /// The directory.
    pub file: File,
    /// What was read of the line that is being read.
    pub line: Vec<u8>,
}

/// `path` with a zero byte behind it, as a system call takes it.
pub open spec fn spec_c_path(path: Seq<u8>) -> Seq<u8> {
    path.push(0u8)
}

/// The path to open for the directory `path`: with a slash at its end.
pub open spec fn spec_dir_path(path: Seq<u8>) -> Seq<u8> {
    if path.len() == 0 || path.last() == SLASH {
        path
    } else {
        path.push(SLASH)
    }
}

/// The entry that the line `line` of a directory stands for: none for an
/// empty line; a directory, without its slash, for a line that ends in
/// one; a file for any other.
pub open spec fn spec_entry(line: Seq<u8>) -> Option<(Seq<u8>, bool)> {
    if line.len() == 0 {
        None
    } else if line.last() == SLASH {
        Some((line.drop_last(), true))
    } else {
        Some((line, false))
    }
}

/// `path` with a zero byte behind it.
pub fn c_path(path: &[u8]) -> (r: Vec<u8>)
    ensures
        r@ == spec_c_path(path@),
{
    let mut r: Vec<u8> = Vec::new();
    push_range(&mut r, path, 0, path.len());
    r.push(0);
    assert(r@ =~= spec_c_path(path@));
    r
}

impl File {
    /// The file for what `open` or `dup` handed back: a descriptor, or an
    /// error packed into the word.
    pub fn from_fd(fd_muxed: usize) -> (r: Result<File, Error>)
        ensures
            r == match spec_demux(fd_muxed) {
                Ok(fd) => Ok(File { fd }),
                Err(e) => Err(e),
            },
    {
        match Error::demux(fd_muxed) {
            Ok(fd) => Ok(File { fd }),
            Err(err) => Err(err),
        }
    }

    /// What `open` is called with to open `path`: the path with a zero byte
    /// behind it, and the flags.
    pub fn open(path: &[u8]) -> (r: (Vec<u8>, usize))
        ensures
            r.0@ == spec_c_path(path@),
            r.1 == O_RDWR,
    {
        (c_path(path), O_RDWR)
    }

    /// What `open` is called with to create `path`.
    pub fn create(path: &[u8]) -> (r: (Vec<u8>, usize))
        ensures
            r.0@ == spec_c_path(path@),
            r.1 == O_CREAT | O_RDWR | O_TRUNC,
    {
        (c_path(path), O_CREAT | O_RDWR | O_TRUNC)
    }

    /// What a call that hands back a count handed back: the count, or an
    /// error.
    pub fn result(muxed: usize) -> (r: Result<usize, Error>)
        ensures
            r == spec_demux(muxed),
    {
        Error::demux(muxed)
    }

    /// What a call that hands back nothing of use handed back: success, or
    /// an error.
    pub fn done(muxed: usize) -> (r: Result<(), Error>)
        ensures
            r == match spec_demux(muxed) {
                Ok(_) => Ok(()),
                Err(e) => Err(e),
            },
    {
        match Error::demux(muxed) {
            Ok(_) => Ok(()),
            Err(err) => Err(err),
        }
    }

    /// What `lseek` is called with for a seek to `pos`: the offset and the
    /// origin.
    pub fn seek(&self, pos: SeekFrom) -> (r: (i64, usize))
        ensures
            r == match pos {
                SeekFrom::Start(offset) => (offset as i64, SEEK_SET),
                SeekFrom::Current(offset) => (offset, SEEK_CUR),
                SeekFrom::End(offset) => (offset, SEEK_END),
            },
    {
        match pos {
            SeekFrom::Start(offset) => (offset as i64, SEEK_SET),
            SeekFrom::Current(offset) => (offset, SEEK_CUR),
            SeekFrom::End(offset) => (offset, SEEK_END),
        }
    }
}

impl FileType {
    /// Tells whether the entry is a directory.
    pub fn is_dir(&self) -> (r: bool)
        ensures
            r == self.dir,
    {
        self.dir
    }

    /// Tells whether the entry is a file.
    pub fn is_file(&self) -> (r: bool)
        ensures
            r == self.file,
    {
        self.file
    }
}

impl DirEntry {
    /// The name of the entry.
    pub fn file_name(&self) -> (r: &Vec<u8>)
        ensures
            r == &self.path,
    {
        &self.path
    }

    /// What the entry is.
    pub fn file_type(&self) -> (r: Result<FileType, Error>)
        ensures
            r == Ok::<FileType, Error>(FileType { dir: self.dir, file: self.file }),
    {
        Ok(FileType { dir: self.dir, file: self.file })
    }

    /// The path of the entry.
    pub fn path(&self) -> (r: &Vec<u8>)
        ensures
            r == &self.path,
    {
        &self.path
    }
}

impl ReadDir {
    /// A reader of the directory `file`.
    pub fn new(file: File) -> (r: ReadDir)
        ensures
            r.file == file,
            r.line@.len() == 0,
    {
        ReadDir { file, line: Vec::new() }
    }

    /// Takes what a read of one byte from the directory gave: `Some` byte,
    /// or `None` at the end of the directory or after an error. A byte
    /// that does not end the line is kept, and there is no entry yet. A
    /// line end, or the end of the directory, gives the entry of the line
    /// read so far, if it is not empty, and starts a new line.
    pub fn next(&mut self, byte: Option<u8>) -> (r: Option<DirEntry>)
        ensures
            final(self).file == old(self).file,
            byte is Some && byte->0 != NEWLINE ==> r is None && final(self).line@ == old(self).line@.push(byte->0),
            !(byte is Some && byte->0 != NEWLINE) ==> final(self).line@.len() == 0 && match spec_entry(
                old(self).line@,
            ) {
                Some((path, dir)) => r is Some && r->0.path@ == path && r->0.dir == dir && r->0.file
                    == !dir,
                None => r is None,
            },
    {
        if let Some(b) = byte {
            if b != NEWLINE {
                self.line.push(b);
                return None;
            }
        }
        let mut path: Vec<u8> = Vec::new();
        push_range(&mut path, self.line.as_slice(), 0, self.line.len());
        assert(path@ =~= old(self).line@);
        self.line = Vec::new();
        if path.len() == 0 {
            None
        } else {
            let dir = path[path.len() - 1] == SLASH;
            if dir {
                path.pop();
            }
            Some(DirEntry { path, dir, file: !dir })
        }
    }
}

/// What `mkdir` is called with to create the directory `path`: the path
/// with a zero byte behind it, and the mode.
pub fn create_dir(path: &[u8]) -> (r: (Vec<u8>, usize))
    ensures
        r.0@ == spec_c_path(path@),
        r.1 == DIR_MODE,
{
    (c_path(path), DIR_MODE)
}

/// The path to open to read the directory `path`: `path` with a slash at
/// its end.
pub fn read_dir(path: &[u8]) -> (r: Vec<u8>)
    ensures
        r@ == spec_dir_path(path@),
{
    let mut r: Vec<u8> = Vec::new();
    push_range(&mut r, path, 0, path.len());
    assert(r@ =~= path@);
    if !(path.len() == 0 || path[path.len() - 1] == SLASH) {
        r.push(SLASH);
    }
    r
}

/// Removing a directory is not permitted.
pub fn remove_dir(_path: &[u8]) -> (r: Result<(), Error>)
    ensures
        r == Err::<(), Error>(Error { errno: EACCES }),
{
    Err(Error::new(EACCES))
}

/// What `unlink` is called with to remove the file `path`: the path with a
/// zero byte behind it.
pub fn remove_file(path: &[u8]) -> (r: Vec<u8>)
    ensures
        r@ == spec_c_path(path@),
{
    c_path(path)
}

} // verus!
