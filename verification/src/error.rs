//! Error numbers and the packing of a result into one machine word.

use vstd::prelude::*;

verus! {

/// Operation not permitted.
pub const EPERM: isize = 1;
/// No such scheme, path or registration.
pub const ENOENT: isize = 2;
/// No current execution unit.
pub const ESRCH: isize = 3;
/// Unrecoverable storage or transfer failure.
pub const EIO: isize = 5;
/// Dead or invalid handle.
pub const EBADF: isize = 9;
/// The file is no program that can be run.
pub const ENOEXEC: isize = 8;
/// No memory is left.
pub const ENOMEM: isize = 12;
/// Permission denied.
pub const EACCES: isize = 13;
/// Address outside the mapped memory of the caller.
pub const EFAULT: isize = 14;
/// A scheme of that name is already registered.
pub const EEXIST: isize = 17;
/// Malformed record or argument.
pub const EINVAL: isize = 22;
/// Seek is not supported by the handle.
pub const ESPIPE: isize = 29;
/// Write on a pipe that has no reader left.
pub const EPIPE: isize = 32;
/// Operation not implemented by the provider.
pub const ENOSYS: isize = 38;

/// One more than the largest error number that a machine word can carry.
pub const ERRNO_LIMIT: isize = 4096;

/// A tagged error: one error number.
#[derive(Clone, Copy, Debug, PartialEq, Eq, Structural)]
pub struct Error {
    pub errno: isize,
}

/// The word that carries `errno` as an error: its two's complement negation.
pub open spec fn spec_mux_errno(errno: isize) -> usize {
    if errno == 0 {
        0usize
    } else if errno > 0 {
        (usize::MAX - errno + 1) as usize
    } else {
        (-errno) as usize
    }
}

/// The word that carries a result.
pub open spec fn spec_mux(result: Result<usize, Error>) -> usize {
    match result {
        Ok(value) => value,
        Err(error) => spec_mux_errno(error.errno),
    }
}

/// The result that a word carries: the top `ERRNO_LIMIT - 1` words are errors,
/// every other word is a success value.
pub open spec fn spec_demux(value: usize) -> Result<usize, Error> {
    if usize::MAX - value < ERRNO_LIMIT - 1 {
        Err(Error { errno: (usize::MAX - value + 1) as isize })
    } else {
        Ok(value)
    }
}

impl Error {
    /// An error with the given number.
    pub fn new(errno: isize) -> (e: Error)
        ensures
            e.errno == errno,
    {
        Error { errno }
    }

    /// Packs a result into one word.
    pub fn mux(result: Result<usize, Error>) -> (word: usize)
        ensures
            word == spec_mux(result),
    {
        match result {
            Ok(value) => value,
            Err(error) => {
                if error.errno == 0 {
                    0
                } else if error.errno > 0 {
                    usize::MAX - (error.errno as usize) + 1
                } else if error.errno == isize::MIN {
                    (isize::MAX as usize) + 1
                } else {
                    (-error.errno) as usize
                }
            },
        }
    }

    /// Unpacks a word into a result.
    pub fn demux(value: usize) -> (result: Result<usize, Error>)
        ensures
            result == spec_demux(value),
    {
        let below: usize = usize::MAX - value;
        if below < 4095 {
            Err(Error { errno: (below + 1) as isize })
        } else {
            Ok(value)
        }
    }
}

/// Unpacking what was packed gives the result back, for every success value
/// that is not in the range reserved for errors and every error number in
/// `1..ERRNO_LIMIT`.
pub proof fn lemma_demux_mux(result: Result<usize, Error>)
    requires
        match result {
            Ok(value) => usize::MAX - value >= ERRNO_LIMIT - 1,
            Err(error) => 1 <= error.errno < ERRNO_LIMIT,
        },
    ensures
        spec_demux(spec_mux(result)) == result,
{
}

} // verus!
