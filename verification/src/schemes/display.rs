//! The display scheme: the frame of the screen as a resource.

use vstd::prelude::*;
use vstd::string::StringSliceAdditionalSpecFns;
use crate::error::Error;
use crate::graphics::display::{Display, Run};
use crate::schemes::kscheme::{KScheme, Service};
use crate::schemes::resource::ResourceSeek;
use crate::schemes::url::Url;
use crate::text::str_bytes;

verus! {

/// The display scheme, with the screen that it hands out.
#[derive(Clone, Copy, Debug, PartialEq, Eq, Structural)]
pub struct DisplayScheme {
    pub display: Display,
}

/// A handle on a display.
#[derive(Clone, Copy, Debug, PartialEq, Eq, Structural)]
pub struct DisplayResource {
    /// The display.
    pub display: Display,
    /// The position in the frame, in bytes.
    pub seek: usize,
}

/// `v`, but at least 0 and at most `end`.
pub open spec fn spec_within(v: int, end: int) -> int {
    if v < 0 {
        0
    } else if v > end {
        end
    } else {
        v
    }
}

/// The position after a seek in a frame of `end` bytes from the position
/// `seek`: the position asked for, but inside the frame or at its end.
pub open spec fn spec_seek(end: int, seek: int, pos: ResourceSeek) -> int {
    match pos {
        ResourceSeek::Start(offset) => spec_within(offset as int, end),
        ResourceSeek::Current(offset) => spec_within(seek + offset, end),
        ResourceSeek::End(offset) => spec_within(end + offset, end),
    }
}

/// `v`, but at least 0 and at most `end`.
fn within(v: i128, end: usize) -> (r: usize)
    ensures
        r == spec_within(v as int, end as int),
{
    if v < 0 {
        0
    } else if v > end as i128 {
        end
    } else {
        v as usize
    }
}

impl DisplayResource {
    /// The position lies inside the frame or at its end.
    pub open spec fn wf(&self) -> bool {
        self.seek <= self.display.size && self.display.wf()
    }

    /// The path of the handle: `display:`.
    pub fn path(&self) -> (path: Vec<u8>)
        ensures
            path@ == "display:".spec_bytes(),
    {
        str_bytes("display:")
    }

    /// Writes `len` bytes that lie at `src` to the frame at the position,
    /// as far as they fit: returns the number of bytes that are written
    /// and the copy that writes them, and moves the position behind them.
    pub fn write(&mut self, src: usize, len: usize) -> (r: (usize, Run))
        requires
            old(self).wf(),
        ensures
            final(self).wf(),
            final(self).display == old(self).display,
            r.0 == if len < old(self).display.size - old(self).seek {
                len
            } else {
                (old(self).display.size - old(self).seek) as usize
            },
            r.1 == (Run::Copy {
                src,
                dst: (old(self).display.offscreen + old(self).seek) as usize,
                len: r.0,
            }),
            final(self).seek == old(self).seek + r.0,
    {
        let room = self.display.size - self.seek;
        let size = if len < room {
            len
        } else {
            room
        };
        let run = Run::Copy { src, dst: self.display.offscreen + self.seek, len: size };
        self.seek = self.seek + size;
        (size, run)
    }

    /// Moves the position.
    pub fn seek(&mut self, pos: ResourceSeek) -> (r: usize)
        ensures
            r == final(self).seek,
            final(self).seek == spec_seek(
                old(self).display.size as int,
                old(self).seek as int,
                pos,
            ),
            final(self).display == old(self).display,
            old(self).display.wf() ==> final(self).wf(),
    {
        let end = self.display.size;
        self.seek = match pos {
            ResourceSeek::Start(offset) => if offset > end {
                end
            } else {
                offset
            },
            ResourceSeek::Current(offset) => within(self.seek as i128 + offset as i128, end),
            ResourceSeek::End(offset) => within(end as i128 + offset as i128, end),
        };
        self.seek
    }

    /// Shows what was written: flips the display.
    pub fn sync(&mut self) -> (run: Option<Run>)
        ensures
            final(self).seek == old(self).seek,
            old(self).display.root ==> final(self).display == old(self).display && run == Some(
                Run::Copy {
                    src: old(self).display.offscreen,
                    dst: old(self).display.onscreen,
                    len: old(self).display.size,
                },
            ),
            !old(self).display.root ==> run is None && final(self).display == (Display {
                offscreen: old(self).display.onscreen,
                onscreen: old(self).display.offscreen,
                ..old(self).display
            }),
    {
        self.display.flip()
    }
}

impl KScheme for DisplayScheme {
    type Handle = DisplayResource;

    /// The provider has a name and opens.
    open spec fn provides(&self, op: Service) -> bool {
        op == Service::Scheme || op == Service::Open
    }

    /// The name of the scheme: `display`.
    fn scheme(&self) -> (name: Vec<u8>)
        ensures
            name@ == "display".spec_bytes(),
    {
        str_bytes("display")
    }

    /// A handle on the screen, at the start of its frame.
    fn open(&mut self, url: &Url, flags: usize) -> (r: Result<DisplayResource, Error>)
        ensures
            *final(self) == *old(self),
            r == Ok::<DisplayResource, Error>(
                DisplayResource { display: old(self).display, seek: 0 },
            ),
    {
        Ok(DisplayResource { display: self.display, seek: 0 })
    }
}

} // verus!
