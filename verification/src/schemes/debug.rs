//! The debug scheme: the console as a resource.

use vstd::prelude::*;
use crate::env::console::{spec_bytes_draw, spec_bytes_state, Console, ConsoleState, Draw};
use crate::error::Error;
use crate::schemes::kscheme::{KScheme, Service};
use crate::schemes::url::Url;
use crate::text::to_vec;

verus! {

/// A handle on the console.
#[derive(Debug)]
pub struct DebugResource {
    /// What is left to read of the command line that is being read.
    pub command: Vec<u8>,
    /// The last read has ended a command line: the next read returns 0.
    pub line_toggle: bool,
}

/// The debug scheme.
#[derive(Clone, Copy, Debug, PartialEq, Eq, Structural)]
pub struct DebugScheme;

/// The bytes of the name of the scheme: `debug`.
pub open spec fn spec_debug_name() -> Seq<u8> {
    seq![0x64u8, 0x65u8, 0x62u8, 0x75u8, 0x67u8]
}

/// The smaller of two numbers.
pub open spec fn spec_min(a: int, b: int) -> int {
    if a < b {
        a
    } else {
        b
    }
}

/// The command line that a read works on: the one that is being read or,
/// where that is empty, the one that the console holds.
pub open spec fn spec_line(command: Seq<u8>, console: Option<Seq<u8>>) -> Seq<u8> {
    if command.len() == 0 && console is Some {
        console->0
    } else {
        command
    }
}

impl DebugResource {
    /// A second handle with the same state.
    pub fn dup(&self) -> (r: Result<DebugResource, Error>)
        ensures
            r is Ok,
            r->Ok_0.command@ == self.command@,
            r->Ok_0.line_toggle == self.line_toggle,
    {
        Ok(
            DebugResource {
                command: to_vec(self.command.as_slice()),
                line_toggle: self.line_toggle,
            },
        )
    }

    /// The path of the handle: `debug:`.
    pub fn path(&self) -> (path: Vec<u8>)
        ensures
            path@ == spec_debug_name().push(0x3Au8),
    {
        let mut path: Vec<u8> = Vec::new();
        path.push(0x64);
        path.push(0x65);
        path.push(0x62);
        path.push(0x75);
        path.push(0x67);
        path.push(0x3A);
        assert(path@ =~= spec_debug_name().push(0x3Au8));
        path
    }

    /// Reads from the command lines of the console into `buf`.
    ///
    /// `console` is the command line that the console holds, if it holds
    /// one. The read that follows the end of a command line returns 0. A
    /// read that has no command line to read from takes the one of the
    /// console; where the console holds none, it returns `None`: the caller
    /// yields and reads again. Else the read takes as much of the command
    /// line as fits into `buf`, and notes when it has taken the last of it.
    pub fn read(&mut self, console: &mut Option<Vec<u8>>, buf: &mut [u8]) -> (r: Option<usize>)
        ensures
            final(buf)@.len() == old(buf)@.len(),
            old(self).line_toggle ==> {
                &&& r == Some(0usize)
                &&& !final(self).line_toggle
                &&& final(self).command@ == old(self).command@
                &&& *final(console) == *old(console)
                &&& final(buf)@ == old(buf)@
            },
            !old(self).line_toggle && old(self).command@.len() == 0 && *old(console) is None ==> {
                &&& r is None
                &&& !final(self).line_toggle
                &&& final(self).command@.len() == 0
                &&& *final(console) is None
                &&& final(buf)@ == old(buf)@
            },
            !old(self).line_toggle && !(old(self).command@.len() == 0 && *old(console) is None)
                ==> {
                let line = spec_line(
                    old(self).command@,
                    match *old(console) {
                        Some(c) => Some(c@),
                        None => None,
                    },
                );
                let n = spec_min(old(buf)@.len() as int, line.len() as int);
                &&& r == Some(n as usize)
                &&& final(self).command@ == line.subrange(n, line.len() as int)
                &&& final(self).line_toggle == (n > 0 && n == line.len())
                &&& final(buf)@ == line.subrange(0, n) + old(buf)@.subrange(
                    n,
                    old(buf)@.len() as int,
                )
                &&& old(self).command@.len() == 0 ==> *final(console) is None
                &&& old(self).command@.len() > 0 ==> *final(console) == *old(console)
            },
    {
        if self.line_toggle {
            self.line_toggle = false;
            return Some(0);
        }
        if self.command.len() == 0 {
            match console.take() {
                Some(command) => {
                    self.command = command;
                },
                None => {
                    return None;
                },
            }
        }
        let ghost line = self.command@;
        let mut i: usize = 0;
        while i < buf.len() && i < self.command.len()
            invariant
                i <= buf.len(),
                i <= self.command.len(),
                self.command@ == line,
                buf@.len() == old(buf)@.len(),
                buf@ == line.subrange(0, i as int) + old(buf)@.subrange(
                    i as int,
                    old(buf)@.len() as int,
                ),
                !self.line_toggle,
            decreases buf.len() - i,
        {
            buf[i] = self.command[i];
            i += 1;
            assert(buf@ =~= line.subrange(0, i as int) + old(buf)@.subrange(
                i as int,
                old(buf)@.len() as int,
            ));
        }
        let rest = self.command.split_off(i);
        self.command = rest;
        if i > 0 && self.command.len() == 0 {
            self.line_toggle = true;
        }
        Some(i)
    }

    /// Writes `buf` to the console, and returns the length of `buf` and
    /// what the console is to draw.
    pub fn write(&mut self, console: &mut Console, contexts_enabled: bool, buf: &[u8]) -> (r: (
        Result<usize, Error>,
        Vec<Draw>,
    ))
        requires
            old(console).wf(),
        ensures
            *final(self) == *old(self),
            r.0 == Ok::<usize, Error>(buf@.len() as usize),
            final(console).wf(),
            final(console).command == old(console).command,
            ({
                let after = spec_bytes_state(old(console).state(), buf@, buf@.len() as int);
                let draw = spec_bytes_draw(old(console).state(), buf@, buf@.len() as int);
                if !contexts_enabled && after.draw && after.redraw {
                    final(console).state() == (ConsoleState { redraw: false, ..after }) && r.1@
                        == draw.push(Draw::Flip)
                } else {
                    final(console).state() == after && r.1@ == draw
                }
            }),
    {
        let drawn = console.write(buf, contexts_enabled);
        (Ok(buf.len()), drawn)
    }

    /// Does nothing: the console has no store behind it.
    pub fn sync(&mut self) -> (r: Result<(), Error>)
        ensures
            r is Ok,
            *final(self) == *old(self),
    {
        Ok(())
    }
}

impl DebugScheme {
    /// The debug scheme.
    pub fn new() -> (scheme: DebugScheme)
        ensures
            scheme == DebugScheme,
    {
        DebugScheme
    }
}

impl KScheme for DebugScheme {
    type Handle = DebugResource;

    /// The provider has a name and opens.
    open spec fn provides(&self, op: Service) -> bool {
        op == Service::Scheme || op == Service::Open
    }

    /// The name of the scheme: `debug`.
    fn scheme(&self) -> (name: Vec<u8>)
        ensures
            name@ == spec_debug_name(),
    {
        let mut name: Vec<u8> = Vec::new();
        name.push(0x64);
        name.push(0x65);
        name.push(0x62);
        name.push(0x75);
        name.push(0x67);
        assert(name@ =~= spec_debug_name());
        name
    }

    /// A handle on the console, with no command line read yet.
    fn open(&mut self, url: &Url, flags: usize) -> (r: Result<DebugResource, Error>)
        ensures
            r is Ok,
            r->Ok_0.command@.len() == 0,
            !r->Ok_0.line_toggle,
    {
        Ok(DebugResource { command: Vec::new(), line_toggle: false })
    }
}

} // verus!
