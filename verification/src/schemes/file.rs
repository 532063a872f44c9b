//! The file scheme: the files of a file system as resources.

use vstd::prelude::*;
use vstd::string::StringSliceAdditionalSpecFns;
use crate::error::{Error, EIO, ENOENT};
use crate::redoxfs::{
    spec_list, spec_names, spec_node, spec_strings, Extent, FileSystem, Node, SECTOR_SIZE,
};
use crate::schemes::resource::ResourceSeek;
use crate::schemes::vec_resource::{
    copy_into, spec_filled, spec_min, spec_resized, spec_written, VecResource,
};
use crate::text::{
    bytes_eq, copy_from, copy_range, find, push_all, spec_find, str_bytes, to_vec,
};

verus! {

/// Open flag: create the file.
pub const O_CREAT: usize = 0x200;

pub const SLASH: u8 = 0x2F;

pub const NEWLINE: u8 = 0x0A;

/// The extents of a node.
pub const NODE_EXTENTS: usize = 16;

/// A handle on a file.
#[derive(Debug)]
pub struct FileResource {
    /// The node of the file.
    pub node: Node,
    /// The content of the file.
    pub vec: Vec<u8>,
    /// The position in the content.
    pub seek: usize,
    /// The content was changed and is not written to the disk yet.
    pub dirty: bool,
}

/// The file scheme.
#[derive(Debug)]
pub struct FileScheme {
    pub fs: FileSystem,
}

/// The largest content of a file, and the largest length of an extent,
/// that a sync takes.
pub const FILE_MAX: usize = 0x4000_0000;

/// A write to the disk: `data` goes to the sectors from `block` on.
#[derive(Debug, PartialEq, Eq)]
pub struct DiskWrite {
    pub block: u64,
    pub data: Vec<u8>,
}

/// Where a sync stands: the extents of the node and the free space of the
/// disk as they are now, the content that is left to be placed, and the
/// writes so far.
pub struct SyncState {
    pub extents: Seq<Extent>,
    pub free: Extent,
    /// The content, cut behind what the last extent took.
    pub data: Seq<u8>,
    /// The bytes of the content that are placed.
    pub pos: int,
    /// The bytes of the content that are not placed yet.
    pub remaining: int,
    /// The node was changed and is to be written.
    pub node_dirty: bool,
    pub writes: Seq<(u64, Seq<u8>)>,
}

/// The sectors that hold `bytes` bytes.
pub open spec fn spec_sectors(bytes: int) -> int {
    (bytes + SECTOR_SIZE - 1) / (SECTOR_SIZE as int)
}

/// The extent that holds nothing gets room from the free space, if
/// content is left and the free space has room for all of it.
pub open spec fn spec_allocate(s: SyncState, k: int) -> SyncState {
    let extent = s.extents[k];
    let sectors = spec_sectors(s.remaining);
    if s.remaining > 0 && (extent.block == 0 || extent.length == 0) && s.free.length >= sectors
        * SECTOR_SIZE {
        SyncState {
            extents: s.extents.update(
                k,
                Extent { block: s.free.block, length: s.remaining as u64 },
            ),
            free: Extent {
                block: (s.free.block + sectors) as u64,
                length: (s.free.length - sectors * SECTOR_SIZE) as u64,
            },
            node_dirty: true,
            ..s
        }
    } else {
        s
    }
}

/// `data` filled up with zeros to `len` bytes, where it is shorter.
pub open spec fn spec_padded(data: Seq<u8>, len: int) -> Seq<u8> {
    if data.len() < len {
        data + Seq::new((len - data.len()) as nat, |k: int| 0u8)
    } else {
        data
    }
}

/// The extent that holds something is written: it takes as much of the
/// content as is left and fits into its sectors, and all its sectors are
/// written, filled up with zeros.
pub open spec fn spec_store(s: SyncState, k: int) -> SyncState {
    let extent = s.extents[k];
    if extent.block == 0 || extent.length == 0 {
        s
    } else {
        let max_size = spec_sectors(extent.length as int) * SECTOR_SIZE;
        let size = if s.remaining < max_size {
            s.remaining
        } else {
            max_size
        };
        let padded = spec_padded(s.data, s.pos + max_size);
        SyncState {
            extents: s.extents.update(k, Extent { block: extent.block, length: size as u64 }),
            free: s.free,
            data: padded.subrange(0, s.pos + size),
            pos: s.pos + size,
            remaining: s.remaining - size,
            node_dirty: s.node_dirty || size != extent.length,
            writes: s.writes.push((extent.block, padded.subrange(s.pos, s.pos + max_size))),
        }
    }
}

/// The sync after the first `n` extents.
pub open spec fn spec_sync(s: SyncState, n: int) -> SyncState
    decreases n,
{
    if n <= 0 {
        s
    } else {
        spec_store(spec_allocate(spec_sync(s, n - 1), n - 1), n - 1)
    }
}

/// The sync stays inside the limits of the machine.
pub open spec fn spec_sync_wf(s: SyncState) -> bool {
    &&& 0 <= s.pos
    &&& 0 <= s.remaining
    &&& s.pos + s.remaining <= FILE_MAX
    &&& s.data.len() >= s.pos
    &&& s.data.len() <= 2 * FILE_MAX + SECTOR_SIZE
    &&& forall|k: int| 0 <= k < s.extents.len() ==> (#[trigger] s.extents[k]).length <= FILE_MAX
}

/// The writes of `writes`, each as its sector and its bytes.
pub open spec fn spec_writes(writes: Seq<DiskWrite>) -> Seq<(u64, Seq<u8>)> {
    writes.map_values(|w: DiskWrite| (w.block, w.data@))
}

/// What the open of a path of the file scheme gives.
#[derive(Debug)]
pub enum FileOpened {
    /// The list of a directory.
    Listing(VecResource),
    /// A file, found at this position among the nodes: its content is to
    /// be read from the disk.
    Found(usize),
    /// A file that was created, empty.
    Created(FileResource),
}

/// The first position from `from` on that holds no slash.
pub open spec fn spec_skip_slashes(s: Seq<u8>, from: int) -> int
    decreases s.len() - from,
{
    if 0 <= from < s.len() && s[from] == SLASH {
        spec_skip_slashes(s, from + 1)
    } else {
        from
    }
}

/// The path inside the file system that the reference `reference` names:
/// the reference without the slashes at its start.
pub open spec fn spec_path(reference: Seq<u8>) -> Seq<u8> {
    reference.skip(spec_skip_slashes(reference, 0))
}

/// The path names a directory: it is empty or ends in a slash.
pub open spec fn spec_is_dir(path: Seq<u8>) -> bool {
    path.len() == 0 || path.last() == SLASH
}

/// The line of the list for the entry `file`: a file that lies deeper
/// stands for its directory, with the slash.
pub open spec fn spec_entry(file: Seq<u8>) -> Seq<u8> {
    match spec_find(file, SLASH) {
        Some(k) => file.subrange(0, k + 1),
        None => file,
    }
}

/// `line` stands among the first `n` lines of `files`.
pub open spec fn spec_seen(files: Seq<Seq<u8>>, n: int, line: Seq<u8>) -> bool {
    exists|k: int| 0 <= k < n && k < files.len() && spec_entry(#[trigger] files[k]) == line
}

/// The list of a directory from the first `n` entries of `files`: each
/// file, and each directory once, one to a line.
pub open spec fn spec_dir_list(files: Seq<Seq<u8>>, n: int) -> Seq<u8>
    decreases n,
{
    if n <= 0 {
        Seq::empty()
    } else {
        let rest = spec_dir_list(files, n - 1);
        let file = files[n - 1];
        let line = spec_entry(file);
        if line.len() == 0 || (spec_find(file, SLASH) is Some && spec_seen(files, n - 1, line)) {
            rest
        } else if rest.len() > 0 {
            rest + seq![NEWLINE] + line
        } else {
            line
        }
    }
}

/// The position after a seek in `len` bytes from the position `seek`: the
/// position asked for, but not before the start.
pub open spec fn spec_seek(len: int, seek: int, pos: ResourceSeek) -> int {
    match pos {
        ResourceSeek::Start(offset) => offset as int,
        ResourceSeek::Current(offset) => if seek + offset < 0 {
            0
        } else {
            seek + offset
        },
        ResourceSeek::End(offset) => if len + offset < 0 {
            0
        } else {
            len + offset
        },
    }
}

/// The line of the list for the entry `file`.
fn entry_of(file: &[u8]) -> (line: Vec<u8>)
    ensures
        line@ == spec_entry(file@),
{
    match find(file, SLASH) {
        Some(index) => {
            assert(index < file.len());
            copy_range(file, 0, index + 1)
        },
        None => to_vec(file),
    }
}

/// Tells whether `line` stands among the first `n` lines of `files`.
fn seen(files: &Vec<Vec<u8>>, n: usize, line: &[u8]) -> (r: bool)
    requires
        n <= files.len(),
    ensures
        r == spec_seen(spec_strings(files@), n as int, line@),
{
    let mut k: usize = 0;
    while k < n
        invariant
            k <= n <= files.len(),
            forall|j: int|
                0 <= j < k ==> spec_entry(#[trigger] spec_strings(files@)[j]) != line@,
        decreases n - k,
    {
        let other = entry_of(files[k].as_slice());
        assert(files@[k as int]@ == spec_strings(files@)[k as int]);
        if bytes_eq(other.as_slice(), line) {
            return true;
        }
        k += 1;
    }
    false
}

/// The path inside the file system that the reference `reference` names.
pub fn path_of(reference: &[u8]) -> (path: Vec<u8>)
    ensures
        path@ == spec_path(reference@),
{
    let mut k: usize = 0;
    while k < reference.len() && reference[k] == SLASH
        invariant
            k <= reference.len(),
            spec_skip_slashes(reference@, k as int) == spec_skip_slashes(reference@, 0),
        decreases reference.len() - k,
    {
        k += 1;
    }
    copy_from(reference, k)
}

impl FileResource {
    /// The position lies inside the content or at its end.
    pub open spec fn wf(&self) -> bool {
        self.seek <= self.vec@.len()
    }

    /// A second handle with the same node, content and position.
    pub fn dup(&self) -> (r: Result<FileResource, Error>)
        ensures
            r is Ok,
            r->Ok_0.node.block == self.node.block,
            r->Ok_0.node.name@ == self.node.name@,
            r->Ok_0.node.extents@ == self.node.extents@,
            r->Ok_0.vec@ == self.vec@,
            r->Ok_0.seek == self.seek,
            r->Ok_0.dirty == self.dirty,
    {
        Ok(
            FileResource {
                node: self.node.duplicate(),
                vec: to_vec(self.vec.as_slice()),
                seek: self.seek,
                dirty: self.dirty,
            },
        )
    }

    /// The URL of the file: `file:/` and the name of its node.
    pub fn url(&self) -> (url: Vec<u8>)
        ensures
            url@ == "file:/".spec_bytes() + self.node.name@,
    {
        let mut url = str_bytes("file:/");
        push_all(&mut url, self.node.name.as_slice());
        url
    }

    /// Copies the content from the position on into `buf`, as much as is
    /// there and fits, and moves the position behind it.
    pub fn read(&mut self, buf: &mut [u8]) -> (r: Result<usize, Error>)
        requires
            old(self).wf(),
        ensures
            final(self).wf(),
            r == Ok::<usize, Error>(
                spec_min(old(buf)@.len() as int, old(self).vec@.len() - old(self).seek) as usize,
            ),
            final(buf)@ == spec_filled(
                old(buf)@,
                old(self).vec@.subrange(old(self).seek as int, old(self).seek + r->Ok_0),
            ),
            final(self).seek == old(self).seek + r->Ok_0,
            final(self).vec == old(self).vec,
            final(self).node == old(self).node,
            final(self).dirty == old(self).dirty,
    {
        let len = self.vec.len();
        let n = copy_into(buf, self.vec.as_slice(), self.seek);
        assert(self.seek + n <= len);
        self.seek = self.seek + n;
        Ok(n)
    }

    /// Writes `buf` at the position, over what is there and beyond the
    /// end, and moves the position behind it. A write of at least one byte
    /// leaves the file to be written to the disk.
    pub fn write(&mut self, buf: &[u8]) -> (r: Result<usize, Error>)
        requires
            old(self).wf(),
            old(self).seek + buf@.len() <= usize::MAX,
        ensures
            final(self).wf(),
            r == Ok::<usize, Error>(buf@.len() as usize),
            final(self).vec@ == spec_written(old(self).vec@, old(self).seek as int, buf@),
            final(self).seek == old(self).seek + buf@.len(),
            final(self).dirty == (old(self).dirty || buf@.len() > 0),
            final(self).node == old(self).node,
    {
        let start: usize = self.seek;
        let ghost before = self.vec@;
        let mut i: usize = 0;
        assert(self.vec@ =~= spec_written(before, start as int, buf@.subrange(0, 0)));
        while i < buf.len()
            invariant
                i <= buf.len(),
                self.seek == start + i,
                self.seek <= self.vec@.len(),
                start <= before.len(),
                self.vec@.len() == if start + i > before.len() {
                    start + i
                } else {
                    before.len() as int
                },
                start + buf@.len() <= usize::MAX,
                self.vec@ == spec_written(before, start as int, buf@.subrange(0, i as int)),
                self.node == old(self).node,
                self.dirty == old(self).dirty,
            decreases buf.len() - i,
        {
            if self.seek < self.vec.len() {
                self.vec[self.seek] = buf[i];
            } else {
                self.vec.push(buf[i]);
            }
            self.seek += 1;
            i += 1;
            assert(self.vec@ =~= spec_written(before, start as int, buf@.subrange(0, i as int)));
        }
        assert(buf@.subrange(0, buf@.len() as int) =~= buf@);
        if i > 0 {
            self.dirty = true;
        }
        Ok(i)
    }

    /// Moves the position, and fills the content up with zeros where the
    /// position lies behind its end.
    pub fn seek(&mut self, pos: ResourceSeek) -> (r: Result<usize, Error>)
        requires
            spec_seek(old(self).vec@.len() as int, old(self).seek as int, pos) <= usize::MAX,
        ensures
            final(self).wf(),
            r == Ok::<usize, Error>(final(self).seek),
            final(self).seek == spec_seek(
                old(self).vec@.len() as int,
                old(self).seek as int,
                pos,
            ),
            final(self).vec@ == if final(self).seek > old(self).vec@.len() {
                spec_resized(old(self).vec@, final(self).seek as int)
            } else {
                old(self).vec@
            },
            final(self).node == old(self).node,
            final(self).dirty == old(self).dirty,
    {
        let target: i128 = match pos {
            ResourceSeek::Start(offset) => offset as i128,
            ResourceSeek::Current(offset) => self.seek as i128 + offset as i128,
            ResourceSeek::End(offset) => self.vec.len() as i128 + offset as i128,
        };
        self.seek = if target < 0 {
            0
        } else {
            target as usize
        };
        let ghost before = self.vec@;
        while self.vec.len() < self.seek
            invariant
                before.len() <= self.vec@.len(),
                self.vec@.len() <= self.seek || self.vec@ == before,
                self.vec@ == before + Seq::new(
                    (self.vec@.len() - before.len()) as nat,
                    |k: int| 0u8,
                ),
                self.node == old(self).node,
                self.dirty == old(self).dirty,
                self.seek == spec_seek(old(self).vec@.len() as int, old(self).seek as int, pos),
            decreases self.seek - self.vec.len(),
        {
            self.vec.push(0);
            assert(self.vec@ =~= before + Seq::new(
                (self.vec@.len() - before.len()) as nat,
                |k: int| 0u8,
            ));
        }
        assert(self.vec@ =~= before + Seq::new(
            (self.vec@.len() - before.len()) as nat,
            |k: int| 0u8,
        ));
        assert(self.vec@.len() == before.len() ==> self.vec@ =~= before);
        Ok(self.seek)
    }

    /// Writes a changed file to the disk: says what is to be written, and
    /// brings the extents of the node and the free space of the file
    /// system up to date. Returns the writes of the content, and whether
    /// the node itself is to be written to its sector.
    ///
    /// The extents take the content in their order; an extent that holds
    /// nothing gets room from the free space. The write of an extent cuts
    /// the content behind the bytes that the extent took: an extent that
    /// takes content after another one takes zeros in its place. Where
    /// content is left over after the last extent, the sync fails with
    /// `EIO`.
    pub fn sync(&mut self, fs: &mut FileSystem) -> (r: (Result<(), Error>, Vec<DiskWrite>, bool))
        requires
            old(self).vec@.len() <= FILE_MAX,
            old(fs).free_space.block > 0,
            old(fs).free_space.block + spec_sectors(FILE_MAX as int) <= u64::MAX,
            forall|k: int|
                0 <= k < old(self).node.extents@.len() ==> (#[trigger] old(self).node.extents@[k]).length <= FILE_MAX,
        ensures
            final(self).seek == old(self).seek,
            final(self).node.block == old(self).node.block,
            final(self).node.name == old(self).node.name,
            !final(self).dirty,
            !old(self).dirty ==> {
                &&& r.0 is Ok
                &&& r.1@.len() == 0
                &&& !r.2
                &&& final(self).vec@ == old(self).vec@
                &&& final(self).node.extents@ == old(self).node.extents@
                &&& *final(fs) == *old(fs)
            },
            old(self).dirty ==> {
                let start = SyncState {
                    extents: old(self).node.extents@,
                    free: old(fs).free_space,
                    data: old(self).vec@,
                    pos: 0,
                    remaining: old(self).vec@.len() as int,
                    node_dirty: false,
                    writes: Seq::empty(),
                };
                let end = spec_sync(start, old(self).node.extents@.len() as int);
                &&& final(self).node.extents@ == end.extents
                &&& final(fs).free_space == end.free
                &&& final(self).vec@ == end.data
                &&& spec_writes(r.1@) == end.writes
                &&& r.2 == (end.node_dirty && old(self).node.block > 0)
                &&& r.0 == if end.remaining > 0 {
                    Err::<(), Error>(Error { errno: EIO })
                } else {
                    Ok::<(), Error>(())
                }
                &&& final(fs).nodes@.len() == old(fs).nodes@.len()
                &&& forall|k: int|
                    0 <= k < old(fs).nodes@.len() ==> if r.2 && old(fs).nodes@[k].block == old(self).node.block {
                        final(fs).nodes@[k].block == final(self).node.block && final(fs).nodes@[k].name@ == final(self).node.name@ && final(fs).nodes@[k].extents@
                            == final(self).node.extents@
                    } else {
                        final(fs).nodes@[k] == old(fs).nodes@[k]
                    }
            },
    {
        let mut writes: Vec<DiskWrite> = Vec::new();
        if !self.dirty {
            return (Ok(()), writes, false);
        }
        let ghost start = SyncState {
            extents: self.node.extents@,
            free: fs.free_space,
            data: self.vec@,
            pos: 0,
            remaining: self.vec@.len() as int,
            node_dirty: false,
            writes: Seq::empty(),
        };
        let mut node_dirty = false;
        let mut pos: usize = 0;
        let mut remaining: usize = self.vec.len();
        let mut k: usize = 0;
        let n = self.node.extents.len();
        assert(spec_writes(writes@) =~= Seq::empty());
        while k < n
            invariant
                k <= n,
                n == self.node.extents@.len(),
                n == start.extents.len(),
                spec_sync(start, k as int) == (SyncState {
                    extents: self.node.extents@,
                    free: fs.free_space,
                    data: self.vec@,
                    pos: pos as int,
                    remaining: remaining as int,
                    node_dirty,
                    writes: spec_writes(writes@),
                }),
                spec_sync_wf(spec_sync(start, k as int)),
                fs.free_space == start.free || remaining == 0,
                start.free.block > 0,
                start.free.block + spec_sectors(FILE_MAX as int) <= u64::MAX,
                self.seek == old(self).seek,
                self.node.block == old(self).node.block,
                self.node.name == old(self).node.name,
                fs.nodes == old(fs).nodes,
            decreases n - k,
        {
            let ghost before = spec_sync(start, k as int);
            let mut extent = self.node.extents[k];
            if remaining > 0 && (extent.block == 0 || extent.length == 0) {
                let sectors: u64 = ((remaining as u64) + 511) / 512;
                if fs.free_space.length >= sectors * 512 {
                    extent.block = fs.free_space.block;
                    extent.length = remaining as u64;
                    fs.free_space.block = fs.free_space.block + sectors;
                    fs.free_space.length = fs.free_space.length - sectors * 512;
                    node_dirty = true;
                    self.node.extents[k] = extent;
                }
            }
            let ghost allocated = spec_allocate(before, k as int);
            assert(self.node.extents@ =~= allocated.extents);
            assert(fs.free_space == allocated.free);
            assert(spec_sync_wf(allocated));
            if !(extent.block == 0 || extent.length == 0) {
                let current_sectors: u64 = (extent.length + 511) / 512;
                let max_size: usize = (current_sectors * 512) as usize;
                assert(max_size >= extent.length);
                let size: usize = if remaining < max_size {
                    remaining
                } else {
                    max_size
                };
                if size as u64 != extent.length {
                    extent.length = size as u64;
                    node_dirty = true;
                }
                self.node.extents[k] = extent;
                let ghost data = self.vec@;
                while self.vec.len() < pos + max_size
                    invariant
                        pos + max_size <= 2 * FILE_MAX + SECTOR_SIZE,
                        data.len() <= self.vec@.len(),
                        self.vec@.len() <= pos + max_size || self.vec@ == data,
                        self.vec@ == data + Seq::new(
                            (self.vec@.len() - data.len()) as nat,
                            |j: int| 0u8,
                        ),
                        self.seek == old(self).seek,
                        self.node.block == old(self).node.block,
                        self.node.name == old(self).node.name,
                        self.node.extents@ == allocated.extents.update(
                            k as int,
                            Extent { block: allocated.extents[k as int].block, length: size as u64 },
                        ),
                    decreases pos + max_size - self.vec.len(),
                {
                    self.vec.push(0);
                    assert(self.vec@ =~= data + Seq::new(
                        (self.vec@.len() - data.len()) as nat,
                        |j: int| 0u8,
                    ));
                }
                assert(self.vec@ =~= spec_padded(data, pos + max_size));
                let mut sector_data: Vec<u8> = Vec::new();
                crate::text::push_range(&mut sector_data, self.vec.as_slice(), pos, pos + max_size);
                assert(sector_data@ =~= self.vec@.subrange(pos as int, pos + max_size));
                let ghost so_far = spec_writes(writes@);
                writes.push(DiskWrite { block: extent.block, data: sector_data });
                assert(spec_writes(writes@) =~= so_far.push(
                    (extent.block, self.vec@.subrange(pos as int, pos + max_size)),
                ));
                let ghost padded = self.vec@;
                self.vec.truncate(pos + size);
                assert(self.vec@ =~= padded.subrange(0, pos + size));
                pos = pos + size;
                remaining = remaining - size;
            }
            proof {
                let stored = spec_store(allocated, k as int);
                assert(self.node.extents@ =~= stored.extents);
                assert(spec_sync(start, k + 1) == stored);
                assert(spec_sync_wf(stored)) by {
                    assert forall|j: int| 0 <= j < stored.extents.len() implies (
                    #[trigger] stored.extents[j]).length <= FILE_MAX by {
                        if j != k {
                            assert(stored.extents[j] == before.extents[j]);
                        }
                    }
                }
            }
            k += 1;
        }
        let rewrite = node_dirty && self.node.block > 0;
        if rewrite {
            let mut j: usize = 0;
            while j < fs.nodes.len()
                invariant
                    j <= fs.nodes.len(),
                    fs.nodes@.len() == old(fs).nodes@.len(),
                    fs.free_space == spec_sync(start, n as int).free,
                    forall|i: int|
                        0 <= i < j ==> if old(fs).nodes@[i].block == self.node.block {
                            (#[trigger] fs.nodes@[i]).block == self.node.block && fs.nodes@[i].name@
                                == self.node.name@ && fs.nodes@[i].extents@ == self.node.extents@
                        } else {
                            fs.nodes@[i] == old(fs).nodes@[i]
                        },
                    forall|i: int|
                        j <= i < fs.nodes@.len() ==> (#[trigger] fs.nodes@[i]) == old(fs).nodes@[i],
                decreases fs.nodes.len() - j,
            {
                if fs.nodes[j].block == self.node.block {
                    fs.nodes[j] = self.node.duplicate();
                }
                j += 1;
            }
        }
        self.dirty = false;
        if remaining > 0 {
            (Err(Error::new(EIO)), writes, rewrite)
        } else {
            (Ok(()), writes, rewrite)
        }
    }

    /// Cuts the content to `len` bytes or fills it up with zeros, moves a
    /// position behind the new end back to it, and leaves the file to be
    /// written to the disk.
    pub fn truncate(&mut self, len: usize) -> (r: Result<(), Error>)
        ensures
            r is Ok,
            final(self).wf(),
            final(self).vec@ == spec_resized(old(self).vec@, len as int),
            final(self).seek == spec_min(old(self).seek as int, len as int),
            final(self).dirty,
            final(self).node == old(self).node,
    {
        let ghost before = self.vec@;
        while len > self.vec.len()
            invariant
                self.vec@.len() >= before.len(),
                self.vec@.len() <= len || self.vec@ == before,
                self.vec@ == before + Seq::new(
                    (self.vec@.len() - before.len()) as nat,
                    |k: int| 0u8,
                ),
                self.seek == old(self).seek,
                self.node == old(self).node,
            decreases len - self.vec.len(),
        {
            self.vec.push(0);
            assert(self.vec@ =~= before + Seq::new(
                (self.vec@.len() - before.len()) as nat,
                |k: int| 0u8,
            ));
        }
        assert(self.vec@ =~= before + Seq::new(
            (self.vec@.len() - before.len()) as nat,
            |k: int| 0u8,
        ));
        self.vec.truncate(len);
        assert(self.vec@ =~= spec_resized(before, len as int));
        if self.vec.len() < self.seek {
            self.seek = self.vec.len();
        }
        self.dirty = true;
        Ok(())
    }
}

impl FileScheme {
    /// The file scheme of the file system `fs`.
    pub fn new(fs: FileSystem) -> (scheme: FileScheme)
        ensures
            scheme.fs == fs,
    {
        FileScheme { fs }
    }

    /// The list of the directory `path`: the files in it, and the
    /// directories in it once each, one to a line.
    pub fn listing(&self, path: &[u8]) -> (list: Vec<u8>)
        ensures
            list@ == spec_dir_list(
                spec_list(spec_names(self.fs.nodes@), path@, self.fs.nodes@.len() as int),
                spec_list(spec_names(self.fs.nodes@), path@, self.fs.nodes@.len() as int).len() as int,
            ),
    {
        let files = self.fs.list(path);
        let ghost names = spec_strings(files@);
        let mut list: Vec<u8> = Vec::new();
        let mut k: usize = 0;
        while k < files.len()
            invariant
                k <= files.len(),
                names == spec_strings(files@),
                list@ == spec_dir_list(names, k as int),
            decreases files.len() - k,
        {
            let file = files[k].as_slice();
            assert(file@ == names[k as int]);
            let line = entry_of(file);
            let nested = find(file, SLASH).is_some();
            let skip = line.len() == 0 || (nested && seen(&files, k, line.as_slice()));
            if !skip {
                if list.len() > 0 {
                    list.push(NEWLINE);
                }
                push_all(&mut list, line.as_slice());
            }
            k += 1;
        }
        list
    }

    /// An open of `reference` with `flags` takes a sector from the free
    /// space: the path names no directory and no node, `flags` asks for
    /// creation, and a sector is free.
    pub open spec fn spec_takes_sector(&self, reference: Seq<u8>, flags: usize) -> bool {
        let path = spec_path(reference);
        &&& !spec_is_dir(path)
        &&& spec_node(spec_names(self.fs.nodes@), path, 0) is None
        &&& flags & O_CREAT == O_CREAT
        &&& self.fs.free_space.length >= SECTOR_SIZE
    }

    /// Opens the path that `reference` names.
    ///
    /// A path that names a directory gives the list of the directory, and
    /// fails with `ENOENT` where the list is empty. A path that names a
    /// node gives its position. Any other path is created where `flags`
    /// asks for it: the new node takes a sector from the free space, if a
    /// sector is free; else the open fails with `ENOENT`. Where a sector is
    /// taken, the number of the sector behind it can be counted.
    pub fn open(&mut self, reference: &[u8], flags: usize) -> (r: Result<FileOpened, Error>)
        requires
            old(self).spec_takes_sector(reference@, flags) ==> old(self).fs.free_space.block
                < u64::MAX,
        ensures
            ({
                let path = spec_path(reference@);
                let names = spec_names(old(self).fs.nodes@);
                let files = spec_list(names, path, names.len() as int);
                if spec_is_dir(path) {
                    &&& final(self).fs == old(self).fs
                    &&& if spec_dir_list(files, files.len() as int).len() > 0 {
                        r matches Ok(FileOpened::Listing(list)) && list.data@ == spec_dir_list(
                            files,
                            files.len() as int,
                        ) && list.seek == 0 && list.path@ == "file:".spec_bytes() + reference@
                    } else {
                        r matches Err(e) && e.errno == ENOENT
                    }
                } else if spec_node(names, path, 0) is Some {
                    &&& final(self).fs == old(self).fs
                    &&& r matches Ok(FileOpened::Found(k)) && k == spec_node(names, path, 0)->0
                } else if flags & O_CREAT == O_CREAT {
                    let free = old(self).fs.free_space;
                    let block = if free.length >= SECTOR_SIZE {
                        free.block
                    } else {
                        0
                    };
                    &&& r matches Ok(FileOpened::Created(file)) && file.node.block == block
                        && file.node.name@ == path && file.node.extents@ == Seq::new(
                        NODE_EXTENTS as nat,
                        |k: int| Extent { block: 0, length: 0 },
                    ) && file.vec@.len() == 0 && file.seek == 0 && !file.dirty
                    &&& final(self).fs.free_space == if free.length >= SECTOR_SIZE {
                        Extent {
                            block: (free.block + 1) as u64,
                            length: (free.length - SECTOR_SIZE) as u64,
                        }
                    } else {
                        free
                    }
                    &&& final(self).fs.nodes@.len() == old(self).fs.nodes@.len() + 1
                    &&& final(self).fs.nodes@.drop_last() == old(self).fs.nodes@
                    &&& final(self).fs.nodes@.last().block == block
                    &&& final(self).fs.nodes@.last().name@ == path
                    &&& final(self).fs.nodes@.last().extents@ == Seq::new(
                        NODE_EXTENTS as nat,
                        |k: int| Extent { block: 0, length: 0 },
                    )
                } else {
                    final(self).fs == old(self).fs && (r matches Err(e) && e.errno == ENOENT)
                }
            }),
    {
        let path = path_of(reference);
        if path.len() == 0 || path[path.len() - 1] == SLASH {
            let list = self.listing(path.as_slice());
            if list.len() > 0 {
                let mut url = str_bytes("file:");
                push_all(&mut url, reference);
                Ok(FileOpened::Listing(VecResource::new(url, list, 0)))
            } else {
                Err(Error::new(ENOENT))
            }
        } else {
            let mut k: usize = 0;
            assert(!spec_is_dir(path@));
            while k < self.fs.nodes.len()
                invariant
                    k <= self.fs.nodes.len(),
                    !spec_is_dir(path@),
                    path@ == spec_path(reference@),
                    self.fs == old(self).fs,
                    spec_node(spec_names(self.fs.nodes@), path@, k as int) == spec_node(
                        spec_names(self.fs.nodes@),
                        path@,
                        0,
                    ),
                decreases self.fs.nodes.len() - k,
            {
                if bytes_eq(self.fs.nodes[k].name.as_slice(), path.as_slice()) {
                    assert(spec_names(self.fs.nodes@)[k as int] == path@);
                    assert(spec_node(spec_names(self.fs.nodes@), path@, k as int) == Some(k as int));
                    assert(!spec_is_dir(path@));
                    return Ok(FileOpened::Found(k));
                }
                assert(spec_names(self.fs.nodes@)[k as int] != path@);
                k += 1;
            }
            assert(!spec_is_dir(path@));
            if flags & O_CREAT == O_CREAT {
                let mut extents: Vec<Extent> = Vec::new();
                let mut e: usize = 0;
                while e < NODE_EXTENTS
                    invariant
                        e <= NODE_EXTENTS,
                        extents@ == Seq::new(e as nat, |k: int| Extent { block: 0, length: 0 }),
                    decreases NODE_EXTENTS - e,
                {
                    extents.push(Extent { block: 0, length: 0 });
                    e += 1;
                    assert(extents@ =~= Seq::new(e as nat, |k: int| Extent { block: 0, length: 0 }));
                }
                let mut node = Node { block: 0, name: path, extents };
                if self.fs.free_space.length >= 512 {
                    node.block = self.fs.free_space.block;
                    self.fs.free_space.block = self.fs.free_space.block + 1;
                    self.fs.free_space.length = self.fs.free_space.length - 512;
                }
                let ghost nodes = self.fs.nodes@;
                self.fs.nodes.push(node.duplicate());
                assert(self.fs.nodes@.drop_last() =~= nodes);
                Ok(FileOpened::Created(FileResource { node, vec: Vec::new(), seek: 0, dirty: false }))
            } else {
                Err(Error::new(ENOENT))
            }
        }
    }

    /// Removes every node with the name that `reference` names. Fails with
    /// `ENOENT` where there is none.
    pub fn unlink(&mut self, reference: &[u8]) -> (r: Result<(), Error>)
        ensures
            final(self).fs.free_space == old(self).fs.free_space,
            final(self).fs.nodes@ == old(self).fs.nodes@.filter(
                spec_other_name(spec_path(reference@)),
            ),
            r == if spec_node(spec_names(old(self).fs.nodes@), spec_path(reference@), 0) is Some {
                Ok::<(), Error>(())
            } else {
                Err::<(), Error>(Error { errno: ENOENT })
            },
    {
        let path = path_of(reference);
        let ghost before = self.fs.nodes@;
        let ghost keep = spec_other_name(path@);
        let mut found = false;
        let mut kept: Vec<Node> = Vec::new();
        let mut rest: Vec<Node> = Vec::new();
        core::mem::swap(&mut rest, &mut self.fs.nodes);
        let mut k: usize = 0;
        let n = rest.len();
        assert(before.subrange(0, 0) =~= Seq::<Node>::empty());
        assert(rest@ =~= before.subrange(0, before.len() as int));
        while rest.len() > 0
            invariant
                n == before.len(),
                k + rest@.len() == n,
                rest@ == before.subrange(k as int, before.len() as int),
                kept@ == before.subrange(0, k as int).filter(keep),
                keep == spec_other_name(path@),
                found == (exists|j: int| 0 <= j < k && (#[trigger] before[j]).name@ == path@),
                self.fs.free_space == old(self).fs.free_space,
            decreases rest@.len(),
        {
            let node = rest.remove(0);
            proof {
                let head = before.subrange(0, k as int);
                assert(node == before[k as int]);
                assert(before.subrange(0, k + 1) =~= head + seq![node]);
                Seq::filter_distributes_over_add(head, seq![node], keep);
                reveal(Seq::filter);
                assert(seq![node].filter(keep) =~= if keep(node) {
                    seq![node]
                } else {
                    Seq::empty()
                }) by {
                    assert(seq![node].drop_last() =~= Seq::<Node>::empty());
                    assert(seq![node].drop_last().filter(keep) =~= Seq::<Node>::empty());
                }
                assert(rest@ =~= before.subrange(k + 1, before.len() as int));
            }
            if bytes_eq(node.name.as_slice(), path.as_slice()) {
                found = true;
            } else {
                kept.push(node);
            }
            k += 1;
            assert(kept@ =~= before.subrange(0, k as int).filter(keep));
        }
        assert(before.subrange(0, before.len() as int) =~= before);
        self.fs.nodes = kept;
        proof {
            let names = spec_names(before);
            lemma_node(names, path@, 0);
            if found {
                let j = choose|j: int| 0 <= j < k && (#[trigger] before[j]).name@ == path@;
                assert(names[j] == path@);
            } else if spec_node(names, path@, 0) is Some {
                let j = spec_node(names, path@, 0)->0;
                assert(before[j].name@ == path@);
            }
        }
        if found {
            Ok(())
        } else {
            Err(Error::new(ENOENT))
        }
    }
}

/// Tells the nodes with another name than `path` from the others.
pub open spec fn spec_other_name(path: Seq<u8>) -> spec_fn(Node) -> bool {
    |n: Node| n.name@ != path
}

/// What `spec_node` finds: the first position from `from` on with the
/// name, or none where no position from `from` on has it.
pub proof fn lemma_node(names: Seq<Seq<u8>>, name: Seq<u8>, from: int)
    requires
        0 <= from,
    ensures
        match spec_node(names, name, from) {
            Some(k) => from <= k < names.len() && names[k] == name && forall|j: int|
                from <= j < k ==> names[j] != name,
            None => forall|j: int| from <= j < names.len() ==> names[j] != name,
        },
    decreases names.len() - from,
{
    if from < names.len() && names[from] != name {
        lemma_node(names, name, from + 1);
    }
}

} // verus!
