//! The file system: nodes with names and extents on a disk, held in
//! memory. Reading and writing the disk is left to the caller.

use vstd::prelude::*;
use crate::text::{copy_from, starts_with, bytes_eq};

verus! {

/// The bytes of a sector of the disk.
pub const SECTOR_SIZE: u64 = 512;

/// The largest length of an extent that the plans for the disk take.
pub const EXTENT_MAX: u64 = 0x1_0000_0000_0000;

/// A run of sectors on the disk: where it starts, and how many bytes of it
/// are in use.
#[derive(Clone, Copy, Debug, PartialEq, Eq, Structural)]
pub struct Extent {
    pub block: u64,
    pub length: u64,
}

/// A node of the file system: a name and the extents of its content.
#[derive(Debug, PartialEq, Eq)]
pub struct Node {
    /// The sector of the node on the disk; 0 where it has none yet.
    pub block: u64,
    pub name: Vec<u8>,
    pub extents: Vec<Extent>,
}

/// A read of one extent from the disk: `max_size` bytes from the sector
/// `block` on, of which the first `size` belong to the file.
#[derive(Clone, Copy, Debug, PartialEq, Eq, Structural)]
pub struct ExtentRead {
    pub block: u64,
    pub max_size: u64,
    pub size: u64,
}

/// A file system.
#[derive(Debug)]
pub struct FileSystem {
    /// The free space of the disk.
    pub free_space: Extent,
    pub nodes: Vec<Node>,
}

/// The bytes of the sectors that hold `length` bytes.
pub open spec fn spec_sectors_size(length: u64) -> int {
    (length + SECTOR_SIZE - 1) / (SECTOR_SIZE as int) * SECTOR_SIZE
}

/// The read of the extent `extent`.
pub open spec fn spec_extent_read(extent: Extent) -> ExtentRead {
    ExtentRead {
        block: extent.block,
        max_size: spec_sectors_size(extent.length) as u64,
        size: extent.length,
    }
}

/// The extent holds content: it has a sector and a length.
pub open spec fn spec_in_use(extent: Extent) -> bool {
    extent.block > 0 && extent.length > 0
}

/// The reads of the first `n` extents: one for each extent in use.
pub open spec fn spec_reads(extents: Seq<Extent>, n: int) -> Seq<ExtentRead>
    decreases n,
{
    if n <= 0 {
        Seq::empty()
    } else if spec_in_use(extents[n - 1]) {
        spec_reads(extents, n - 1).push(spec_extent_read(extents[n - 1]))
    } else {
        spec_reads(extents, n - 1)
    }
}

/// The names of the nodes, in order.
pub open spec fn spec_names(nodes: Seq<Node>) -> Seq<Seq<u8>> {
    nodes.map_values(|n: Node| n.name@)
}

/// The first position from `from` on that holds `name`.
pub open spec fn spec_node(names: Seq<Seq<u8>>, name: Seq<u8>, from: int) -> Option<int>
    decreases names.len() - from,
{
    if from < 0 || from >= names.len() {
        None
    } else if names[from] == name {
        Some(from)
    } else {
        spec_node(names, name, from + 1)
    }
}

/// The first `n` names that start with `directory`, each without that
/// start.
pub open spec fn spec_list(names: Seq<Seq<u8>>, directory: Seq<u8>, n: int) -> Seq<Seq<u8>>
    decreases n,
{
    if n <= 0 {
        Seq::empty()
    } else if directory.is_prefix_of(names[n - 1]) {
        spec_list(names, directory, n - 1).push(names[n - 1].skip(directory.len() as int))
    } else {
        spec_list(names, directory, n - 1)
    }
}

/// The views of the byte strings of `list`.
pub open spec fn spec_strings(list: Seq<Vec<u8>>) -> Seq<Seq<u8>> {
    list.map_values(|s: Vec<u8>| s@)
}

impl Extent {
    /// Tells whether the extent holds nothing: it has no sector or no
    /// length.
    pub fn empty(&self) -> (r: bool)
        ensures
            r == !spec_in_use(*self),
    {
        self.block == 0 || self.length == 0
    }
}

impl Node {
    /// The reads that fetch the content of the node from the disk, extent
    /// by extent.
    pub fn reads(&self) -> (reads: Vec<ExtentRead>)
        requires
            forall|k: int| 0 <= k < self.extents@.len() ==> (#[trigger] self.extents@[k]).length
                <= EXTENT_MAX,
        ensures
            reads@ == spec_reads(self.extents@, self.extents@.len() as int),
    {
        let mut reads: Vec<ExtentRead> = Vec::new();
        let mut k: usize = 0;
        while k < self.extents.len()
            invariant
                k <= self.extents.len(),
                forall|j: int| 0 <= j < self.extents@.len() ==> (#[trigger] self.extents@[j]).length
                    <= EXTENT_MAX,
                reads@ == spec_reads(self.extents@, k as int),
            decreases self.extents.len() - k,
        {
            let extent = self.extents[k];
            if extent.block > 0 && extent.length > 0 {
                let sectors = (extent.length + 511) / 512;
                reads.push(
                    ExtentRead { block: extent.block, max_size: sectors * 512, size: extent.length },
                );
            }
            k += 1;
        }
        reads
    }

    /// A copy of the node.
    pub fn duplicate(&self) -> (r: Node)
        ensures
            r.block == self.block,
            r.name@ == self.name@,
            r.extents@ == self.extents@,
    {
        let mut extents: Vec<Extent> = Vec::new();
        let mut k: usize = 0;
        while k < self.extents.len()
            invariant
                k <= self.extents.len(),
                extents@ == self.extents@.subrange(0, k as int),
            decreases self.extents.len() - k,
        {
            extents.push(self.extents[k]);
            k += 1;
            assert(extents@ =~= self.extents@.subrange(0, k as int));
        }
        assert(self.extents@.subrange(0, self.extents@.len() as int) =~= self.extents@);
        Node { block: self.block, name: copy_from(self.name.as_slice(), 0), extents }
    }
}

impl FileSystem {
    /// Finds the first node with the name `filename`.
    pub fn node(&self, filename: &[u8]) -> (r: Option<&Node>)
        ensures
            match spec_node(spec_names(self.nodes@), filename@, 0) {
                Some(k) => r == Some(&self.nodes@[k]),
                None => r is None,
            },
    {
        let mut k: usize = 0;
        while k < self.nodes.len()
            invariant
                k <= self.nodes.len(),
                spec_node(spec_names(self.nodes@), filename@, k as int) == spec_node(
                    spec_names(self.nodes@),
                    filename@,
                    0,
                ),
            decreases self.nodes.len() - k,
        {
            if bytes_eq(self.nodes[k].name.as_slice(), filename) {
                return Some(&self.nodes[k]);
            }
            k += 1;
        }
        None
    }

    /// Lists the nodes whose names start with `directory`: each name
    /// without that start.
    pub fn list(&self, directory: &[u8]) -> (list: Vec<Vec<u8>>)
        ensures
            spec_strings(list@) == spec_list(
                spec_names(self.nodes@),
                directory@,
                self.nodes@.len() as int,
            ),
    {
        let mut list: Vec<Vec<u8>> = Vec::new();
        let mut k: usize = 0;
        assert(spec_strings(list@) =~= Seq::empty());
        while k < self.nodes.len()
            invariant
                k <= self.nodes.len(),
                spec_strings(list@) == spec_list(spec_names(self.nodes@), directory@, k as int),
            decreases self.nodes.len() - k,
        {
            let name = self.nodes[k].name.as_slice();
            let ghost before = spec_strings(list@);
            if starts_with(name, directory) {
                let rest = copy_from(name, directory.len());
                list.push(rest);
                assert(spec_strings(list@) =~= before.push(name@.skip(directory@.len() as int)));
            }
            k += 1;
        }
        list
    }
}

} // verus!
