//! The bridge that lets a process in user space provide a scheme: requests
//! wait in `todo` until the provider reads them, and their results wait in
//! `done` until the caller picks them up.

use vstd::prelude::*;
use vstd::bytes::{
    lemma_auto_spec_u64_to_from_le_bytes, spec_u64_from_le_bytes, spec_u64_to_le_bytes,
    u64_from_le_bytes, u64_to_le_bytes,
};
use vstd::slice::slice_subrange;
use crate::error::{spec_demux, Error, EBADF, EFAULT, EINVAL, EIO, ESPIPE, ESRCH};
use crate::scheduler::context::spec_translate;
use crate::scheduler::table::ContextTable;
use crate::schemes::resource::ResourceSeek;
use crate::text::{push_range, to_vec};
use crate::ordered::{
    lemma_inserted, lemma_position, spec_contains, spec_inserted, spec_position,
    spec_removed, spec_sorted, spec_value, OrderedMap,
};

verus! {

/// The four words of a request or of a result.
pub type Regs = (usize, usize, usize, usize);

/// The bytes of a word of the wire record.
pub const RECORD_WORD: usize = 8;

/// The bytes of the wire record: five words.
pub const PACKET_SIZE: usize = 40;

pub const SYS_READ: usize = 3;

pub const SYS_WRITE: usize = 4;

pub const SYS_OPEN: usize = 5;

pub const SYS_CLOSE: usize = 6;

pub const SYS_UNLINK: usize = 10;

pub const SYS_LSEEK: usize = 19;

pub const SYS_FTRUNCATE: usize = 93;

pub const SYS_FSYNC: usize = 118;

pub const SEEK_SET: usize = 0;

pub const SEEK_CUR: usize = 1;

pub const SEEK_END: usize = 2;

/// The wire record between the kernel and the provider of a scheme: the
/// identifier of a request and four words. In a request `a` is the code of
/// the operation; in a result `a` carries the packed result.
#[derive(Clone, Copy, Debug, PartialEq, Eq, Structural)]
pub struct Packet {
    pub id: usize,
    pub a: usize,
    pub b: usize,
    pub c: usize,
    pub d: usize,
}

/// The bytes of a record: its five words, each as 64 bits with the least
/// significant byte first.
pub open spec fn spec_packet_bytes(p: Packet) -> Seq<u8> {
    spec_u64_to_le_bytes(p.id as u64) + spec_u64_to_le_bytes(p.a as u64) + spec_u64_to_le_bytes(
        p.b as u64,
    ) + spec_u64_to_le_bytes(p.c as u64) + spec_u64_to_le_bytes(p.d as u64)
}

/// The word that stands at position `k` of the record `bytes`.
pub open spec fn spec_packet_word(bytes: Seq<u8>, k: int) -> usize {
    spec_u64_from_le_bytes(bytes.subrange(k * RECORD_WORD, (k + 1) * RECORD_WORD)) as usize
}

/// The record that `bytes` holds.
pub open spec fn spec_packet(bytes: Seq<u8>) -> Packet {
    Packet {
        id: spec_packet_word(bytes, 0),
        a: spec_packet_word(bytes, 1),
        b: spec_packet_word(bytes, 2),
        c: spec_packet_word(bytes, 3),
        d: spec_packet_word(bytes, 4),
    }
}

/// The bytes of a record have its size, and hold the record.
pub proof fn lemma_packet_round_trip(p: Packet)
    ensures
        spec_packet_bytes(p).len() == PACKET_SIZE,
        spec_packet(spec_packet_bytes(p)) == p,
{
    lemma_auto_spec_u64_to_from_le_bytes();
    let bytes = spec_packet_bytes(p);
    assert(bytes.subrange(0, 8) =~= spec_u64_to_le_bytes(p.id as u64));
    assert(bytes.subrange(8, 16) =~= spec_u64_to_le_bytes(p.a as u64));
    assert(bytes.subrange(16, 24) =~= spec_u64_to_le_bytes(p.b as u64));
    assert(bytes.subrange(24, 32) =~= spec_u64_to_le_bytes(p.c as u64));
    assert(bytes.subrange(32, 40) =~= spec_u64_to_le_bytes(p.d as u64));
}

impl Packet {
    /// The bytes of the record.
    pub fn to_bytes(&self) -> (bytes: Vec<u8>)
        ensures
            bytes@ == spec_packet_bytes(*self),
            bytes@.len() == PACKET_SIZE,
    {
        proof {
            lemma_auto_spec_u64_to_from_le_bytes();
        }
        let mut bytes = u64_to_le_bytes(self.id as u64);
        let mut a = u64_to_le_bytes(self.a as u64);
        let mut b = u64_to_le_bytes(self.b as u64);
        let mut c = u64_to_le_bytes(self.c as u64);
        let mut d = u64_to_le_bytes(self.d as u64);
        bytes.append(&mut a);
        bytes.append(&mut b);
        bytes.append(&mut c);
        bytes.append(&mut d);
        bytes
    }

    /// The record that `bytes` holds, where `bytes` has the size of one.
    pub fn from_bytes(bytes: &[u8]) -> (r: Option<Packet>)
        ensures
            r == if bytes@.len() == PACKET_SIZE {
                Some(spec_packet(bytes@))
            } else {
                None
            },
    {
        if bytes.len() != PACKET_SIZE {
            return None;
        }
        let id = u64_from_le_bytes(slice_subrange(bytes, 0, 8)) as usize;
        let a = u64_from_le_bytes(slice_subrange(bytes, 8, 16)) as usize;
        let b = u64_from_le_bytes(slice_subrange(bytes, 16, 24)) as usize;
        let c = u64_from_le_bytes(slice_subrange(bytes, 24, 32)) as usize;
        let d = u64_from_le_bytes(slice_subrange(bytes, 32, 40)) as usize;
        Some(Packet { id, a, b, c, d })
    }
}

/// What a caller finds when it looks for the result of its request.
#[derive(Clone, Copy, Debug, PartialEq, Eq)]
pub enum Reply {
    /// The provider has not answered yet: yield and look again.
    Pending,
    /// The call is over, with this result.
    Ready(Result<usize, Error>),
}

/// The state that the kernel and the provider of one scheme share.
#[derive(Debug)]
pub struct SchemeInner {
    /// Where the search for the identifier of the next request starts.
    pub next_id: usize,
    /// The requests that wait for the provider, by identifier.
    pub todo: OrderedMap<Regs>,
    /// The results that wait for their callers, by identifier.
    pub done: OrderedMap<Regs>,
    /// The number of handles that the provider holds. The state is alive
    /// while there is one.
    pub owners: usize,
}

/// The first number in `from..to` that neither `todo` nor `done` holds;
/// `to` where they hold them all.
pub open spec fn spec_free_id(todo: Seq<(usize, Regs)>, done: Seq<(usize, Regs)>, from: int, to: int) -> int
    decreases to - from,
{
    if from >= to {
        to
    } else if 0 <= from <= usize::MAX && !spec_contains(todo, from as usize) && !spec_contains(
        done,
        from as usize,
    ) {
        from
    } else {
        spec_free_id(todo, done, from + 1, to)
    }
}

/// The free id that a search through `from..to` gives lies in that range,
/// or is `to`; where it lies below `to`, neither map holds it.
pub proof fn lemma_free_id(todo: Seq<(usize, Regs)>, done: Seq<(usize, Regs)>, from: int, to: int)
    requires
        0 <= from <= to <= usize::MAX + 1,
    ensures
        from <= spec_free_id(todo, done, from, to) <= to,
        spec_free_id(todo, done, from, to) < to ==> !spec_contains(
            todo,
            spec_free_id(todo, done, from, to) as usize,
        ) && !spec_contains(done, spec_free_id(todo, done, from, to) as usize),
    decreases to - from,
{
    if from < to && (spec_contains(todo, from as usize) || spec_contains(done, from as usize)) {
        lemma_free_id(todo, done, from + 1, to);
    }
}

/// What the protocol decides on: the state of a bridge with its maps as
/// sequences in the order of their keys.
pub struct BridgeState {
    pub next_id: usize,
    pub todo: Seq<(usize, Regs)>,
    pub done: Seq<(usize, Regs)>,
    pub owners: usize,
}

/// The record of the request `entry`.
pub open spec fn spec_request(entry: (usize, Regs)) -> Packet {
    Packet { id: entry.0, a: entry.1.0, b: entry.1.1, c: entry.1.2, d: entry.1.3 }
}

/// The identifier that the next request gets: the first free one from
/// `next_id` up and, where there is none, from 1 up. `None` where every
/// identifier is taken.
pub open spec fn spec_next_request(s: BridgeState) -> Option<usize> {
    let up = spec_free_id(s.todo, s.done, s.next_id as int, usize::MAX + 1);
    let low = spec_free_id(s.todo, s.done, 1, s.next_id as int);
    if up <= usize::MAX {
        Some(up as usize)
    } else if low < s.next_id {
        Some(low as usize)
    } else {
        None
    }
}

/// Where the search starts after the identifier `id` was given out.
pub open spec fn spec_after(id: usize) -> usize {
    if id == usize::MAX {
        1
    } else {
        (id + 1) as usize
    }
}

/// A caller files the request `regs`: it fails with `EBADF` on a dead
/// bridge, and with `EIO` where every identifier is taken.
pub open spec fn spec_submit(s: BridgeState, regs: Regs) -> (BridgeState, Result<usize, Error>) {
    if s.owners == 0 {
        (s, Err(Error { errno: EBADF }))
    } else {
        match spec_next_request(s) {
            Some(id) => (
                BridgeState {
                    next_id: spec_after(id),
                    todo: spec_inserted(s.todo, id, regs),
                    ..s
                },
                Ok(id),
            ),
            None => (s, Err(Error { errno: EIO })),
        }
    }
}

/// A caller looks for the result of the request `id`: on a dead bridge the
/// call is over with `EBADF`; else the result is taken out of `done`, if
/// it is there.
pub open spec fn spec_poll(s: BridgeState, id: usize) -> (BridgeState, Reply) {
    if s.owners == 0 {
        (s, Reply::Ready(Err(Error { errno: EBADF })))
    } else if spec_contains(s.done, id) {
        (
            BridgeState { done: spec_removed(s.done, id), ..s },
            Reply::Ready(spec_demux(spec_value(s.done, id).0)),
        )
    } else {
        (s, Reply::Pending)
    }
}

/// The provider reads: the request with the lowest identifier leaves
/// `todo`.
pub open spec fn spec_read(s: BridgeState) -> (BridgeState, Option<Packet>) {
    if s.todo.len() > 0 {
        (BridgeState { todo: s.todo.drop_first(), ..s }, Some(spec_request(s.todo[0])))
    } else {
        (s, None)
    }
}

/// The provider writes the result `p`: it is filed in `done`.
pub open spec fn spec_write(s: BridgeState, p: Packet) -> BridgeState {
    BridgeState { done: spec_inserted(s.done, p.id, (p.a, p.b, p.c, p.d)), ..s }
}

/// The provider gives up one handle; with the last one, all that waits is
/// dropped.
pub open spec fn spec_close(s: BridgeState) -> BridgeState {
    if s.owners <= 1 {
        BridgeState { owners: 0, todo: Seq::empty(), done: Seq::empty(), ..s }
    } else {
        BridgeState { owners: (s.owners - 1) as usize, ..s }
    }
}

impl SchemeInner {
    /// The state of the bridge.
    pub open spec fn state(&self) -> BridgeState {
        BridgeState {
            next_id: self.next_id,
            todo: self.todo.entries@,
            done: self.done.entries@,
            owners: self.owners,
        }
    }

    /// The maps are in order, no request has the identifier 0, and the
    /// search for identifiers starts above 0.
    pub open spec fn wf(&self) -> bool {
        &&& self.todo.wf()
        &&& self.done.wf()
        &&& self.next_id >= 1
        &&& !self.todo.spec_contains_key(0)
    }

    /// Tells whether the state is well formed.
    pub fn check(&self) -> (r: bool)
        ensures
            r == self.wf(),
    {
        self.todo.check() && self.done.check() && self.next_id >= 1 && !self.todo.contains_key(0)
    }

    /// Tells whether every bridge of `bridges` is well formed.
    pub fn check_all(bridges: &Vec<SchemeInner>) -> (r: bool)
        ensures
            r == spec_all_wf(bridges@),
    {
        let mut k: usize = 0;
        while k < bridges.len()
            invariant
                k <= bridges.len(),
                forall|j: int| 0 <= j < k ==> (#[trigger] bridges@[j]).wf(),
            decreases bridges.len() - k,
        {
            if !bridges[k].check() {
                return false;
            }
            k += 1;
        }
        true
    }

    /// Fresh state, with one handle for the provider.
    pub fn new() -> (inner: SchemeInner)
        ensures
            inner.wf(),
            inner.next_id == 1,
            inner.todo.entries@.len() == 0,
            inner.done.entries@.len() == 0,
            inner.owners == 1,
    {
        SchemeInner { next_id: 1, todo: OrderedMap::new(), done: OrderedMap::new(), owners: 1 }
    }

    /// Finds the first identifier in `from..=to` that is free.
    fn free_id(&self, from: usize, to: usize) -> (r: Option<usize>)
        requires
            from <= to + 1,
        ensures
            match r {
                Some(id) => id == spec_free_id(
                    self.todo.entries@,
                    self.done.entries@,
                    from as int,
                    to + 1,
                ) && from <= id <= to,
                None => spec_free_id(self.todo.entries@, self.done.entries@, from as int, to + 1)
                    == to + 1,
            },
    {
        let mut id: usize = from;
        while id <= to
            invariant
                from <= id <= to + 1,
                spec_free_id(self.todo.entries@, self.done.entries@, id as int, to + 1)
                    == spec_free_id(self.todo.entries@, self.done.entries@, from as int, to + 1),
            decreases to + 1 - id,
        {
            if !self.todo.contains_key(id) && !self.done.contains_key(id) {
                return Some(id);
            }
            if id == to {
                assert(spec_free_id(self.todo.entries@, self.done.entries@, id + 1, to + 1) == to
                    + 1);
                return None;
            }
            id += 1;
        }
        None
    }

    /// Files a request for the provider and returns its identifier. Fails
    /// with `EBADF` where the provider holds no handle any more, and with
    /// `EIO` where every identifier is taken.
    pub fn submit(&mut self, a: usize, b: usize, c: usize, d: usize) -> (r: Result<usize, Error>)
        requires
            old(self).wf(),
        ensures
            final(self).wf(),
            final(self).state() == spec_submit(old(self).state(), (a, b, c, d)).0,
            r == spec_submit(old(self).state(), (a, b, c, d)).1,
            r matches Ok(id) ==> id >= 1,
    {
        if self.owners == 0 {
            return Err(Error::new(EBADF));
        }
        proof {
            lemma_free_id(
                self.todo.entries@,
                self.done.entries@,
                self.next_id as int,
                usize::MAX + 1,
            );
            lemma_free_id(self.todo.entries@, self.done.entries@, 1, self.next_id as int);
        }
        let found = match self.free_id(self.next_id, usize::MAX) {
            Some(id) => Some(id),
            None => self.free_id(1, self.next_id - 1),
        };
        match found {
            Some(id) => {
                self.next_id = if id == usize::MAX {
                    1
                } else {
                    id + 1
                };
                proof {
                    lemma_inserted(self.todo.entries@, id, (a, b, c, d));
                }
                self.todo.insert(id, (a, b, c, d));
                Ok(id)
            },
            None => Err(Error::new(EIO)),
        }
    }

    /// Looks for the result of the request `id` and takes it out. Where the
    /// provider holds no handle any more, the call is over with `EBADF`.
    pub fn poll(&mut self, id: usize) -> (r: Reply)
        requires
            old(self).wf(),
        ensures
            final(self).wf(),
            final(self).state() == spec_poll(old(self).state(), id).0,
            r == spec_poll(old(self).state(), id).1,
    {
        if self.owners == 0 {
            return Reply::Ready(Err(Error::new(EBADF)));
        }
        match self.done.remove(id) {
            Some(regs) => Reply::Ready(Error::demux(regs.0)),
            None => Reply::Pending,
        }
    }

    /// The provider reads its next request: the one with the lowest
    /// identifier is taken out of `todo` and written to `buf` as a record.
    /// Returns the size of a record, or 0 where no request waits: the
    /// provider then yields and reads again. Fails with `EINVAL` where
    /// `buf` has not the size of one record.
    pub fn read(&mut self, buf: &mut [u8]) -> (r: Result<usize, Error>)
        requires
            old(self).wf(),
        ensures
            final(self).wf(),
            final(buf)@.len() == old(buf)@.len(),
            old(buf)@.len() != PACKET_SIZE ==> {
                &&& r == Err::<usize, Error>(Error { errno: EINVAL })
                &&& final(self).state() == old(self).state()
                &&& final(buf)@ == old(buf)@
            },
            old(buf)@.len() == PACKET_SIZE ==> {
                &&& final(self).state() == spec_read(old(self).state()).0
                &&& match spec_read(old(self).state()).1 {
                    Some(p) => r == Ok::<usize, Error>(PACKET_SIZE) && final(buf)@
                        == spec_packet_bytes(p),
                    None => r == Ok::<usize, Error>(0) && final(buf)@ == old(buf)@,
                }
            },
    {
        if buf.len() != PACKET_SIZE {
            return Err(Error::new(EINVAL));
        }
        let ghost before = self.todo.entries@;
        match self.todo.pop_first() {
            Some((id, regs)) => {
                proof {
                    if spec_contains(self.todo.entries@, 0) {
                        let p = spec_position(self.todo.entries@, 0, 0);
                        lemma_position(self.todo.entries@, 0, 0);
                        lemma_position(before, 0, 0);
                        assert(self.todo.entries@[p] == before[p + 1]);
                        assert(before[0].0 < before[p + 1].0);
                    }
                }
                let packet = Packet { id, a: regs.0, b: regs.1, c: regs.2, d: regs.3 };
                let bytes = packet.to_bytes();
                let mut k: usize = 0;
                while k < PACKET_SIZE
                    invariant
                        k <= PACKET_SIZE,
                        buf@.len() == PACKET_SIZE,
                        bytes@.len() == PACKET_SIZE,
                        forall|j: int| 0 <= j < k ==> buf@[j] == bytes@[j],
                    decreases PACKET_SIZE - k,
                {
                    buf[k] = bytes[k];
                    k += 1;
                }
                assert(buf@ =~= bytes@);
                Ok(PACKET_SIZE)
            },
            None => Ok(0),
        }
    }

    /// The provider writes a result: the record in `buf` is filed in `done`
    /// under its identifier, where the caller of that request finds it.
    /// Fails with `EINVAL` where `buf` has not the size of one record.
    pub fn write(&mut self, buf: &[u8]) -> (r: Result<usize, Error>)
        requires
            old(self).wf(),
        ensures
            final(self).wf(),
            buf@.len() != PACKET_SIZE ==> r == Err::<usize, Error>(Error { errno: EINVAL })
                && final(self).state() == old(self).state(),
            buf@.len() == PACKET_SIZE ==> r == Ok::<usize, Error>(PACKET_SIZE) && final(self).state() == spec_write(old(self).state(), spec_packet(buf@)),
    {
        match Packet::from_bytes(buf) {
            Some(p) => {
                self.done.insert(p.id, (p.a, p.b, p.c, p.d));
                Ok(PACKET_SIZE)
            },
            None => Err(Error::new(EINVAL)),
        }
    }

    /// The provider duplicates its handle.
    pub fn dup(&mut self) -> (r: Result<(), Error>)
        requires
            old(self).wf(),
        ensures
            final(self).wf(),
            final(self).next_id == old(self).next_id,
            final(self).todo == old(self).todo,
            final(self).done == old(self).done,
            old(self).owners < usize::MAX ==> r is Ok && final(self).owners == old(self).owners
                + 1,
            old(self).owners == usize::MAX ==> r == Err::<(), Error>(Error { errno: EBADF })
                && final(self).owners == old(self).owners,
    {
        if self.owners < usize::MAX {
            self.owners = self.owners + 1;
            Ok(())
        } else {
            Err(Error::new(EBADF))
        }
    }

    /// The provider gives up one handle. With the last one the state dies:
    /// what waits in it is dropped, and no call is answered any more.
    pub fn close(&mut self)
        requires
            old(self).wf(),
        ensures
            final(self).wf(),
            final(self).state() == spec_close(old(self).state()),
    {
        if self.owners > 0 {
            self.owners = self.owners - 1;
        }
        if self.owners == 0 {
            self.todo = OrderedMap::new();
            self.done = OrderedMap::new();
            assert(self.todo.entries@ =~= Seq::empty());
            assert(self.done.entries@ =~= Seq::empty());
        }
    }
}

// ---------------------------------------------------------------------------
// Handles
// ---------------------------------------------------------------------------

/// Every bridge is well formed.
pub open spec fn spec_all_wf(bridges: Seq<SchemeInner>) -> bool {
    forall|k: int| 0 <= k < bridges.len() ==> (#[trigger] bridges[k]).wf()
}

/// The bridges are the same but for the one at `inner`.
pub open spec fn spec_same_but(before: Seq<SchemeInner>, after: Seq<SchemeInner>, inner: usize) -> bool {
    &&& after.len() == before.len()
    &&& forall|k: int| 0 <= k < before.len() && k != inner ==> after[k] == before[k]
}

/// A call through the reference `inner`: the request is filed on that
/// bridge; a reference to no bridge fails with `EBADF`.
pub open spec fn spec_call(bridges: Seq<SchemeInner>, inner: usize, regs: Regs) -> Result<usize, Error> {
    if inner < bridges.len() {
        spec_submit(bridges[inner as int].state(), regs).1
    } else {
        Err(Error { errno: EBADF })
    }
}

/// The word that carries the offset of a seek: the offset itself, in
/// two's complement where it is negative.
pub open spec fn spec_offset_word(offset: isize) -> usize {
    if offset >= 0 {
        offset as usize
    } else {
        (usize::MAX + 1 + offset) as usize
    }
}

/// The origin and the offset of a seek, as the two words of a request.
pub open spec fn spec_seek_words(pos: ResourceSeek) -> (usize, usize) {
    match pos {
        ResourceSeek::Start(offset) => (SEEK_SET, offset),
        ResourceSeek::Current(offset) => (SEEK_CUR, spec_offset_word(offset)),
        ResourceSeek::End(offset) => (SEEK_END, spec_offset_word(offset)),
    }
}

/// The path of the handle of the provider of the scheme `name`.
pub open spec fn spec_server_path(name: Seq<u8>) -> Seq<u8> {
    seq![0x3Au8] + name
}

/// The scheme that a process provides, as the registry sees it: a name and
/// a reference to the bridge that does not keep the bridge alive.
#[derive(Debug)]
pub struct Scheme {
    pub name: Vec<u8>,
    pub inner: usize,
}

/// The handle that the provider of a scheme holds. The bridge is alive
/// while one of these is.
#[derive(Debug)]
pub struct SchemeServerResource {
    pub path: Vec<u8>,
    pub inner: usize,
}

/// A handle on a file of a scheme that a process provides.
#[derive(Clone, Copy, Debug, PartialEq, Eq, Structural)]
pub struct SchemeResource {
    pub inner: usize,
    pub file_id: usize,
}

/// The word that carries the offset of a seek.
fn offset_word(offset: isize) -> (word: usize)
    ensures
        word == spec_offset_word(offset),
{
    if offset >= 0 {
        offset as usize
    } else {
        usize::MAX - ((-(offset + 1)) as usize)
    }
}

impl SchemeInner {
    /// Files a request on the bridge that `inner` refers to and returns its
    /// identifier; the caller then yields until `reply` finds the result.
    /// Fails with `EBADF` where the bridge is dead or `inner` refers to
    /// none.
    pub fn call(bridges: &mut Vec<SchemeInner>, inner: usize, a: usize, b: usize, c: usize, d: usize) -> (r:
        Result<usize, Error>)
        requires
            spec_all_wf(old(bridges)@),
        ensures
            spec_all_wf(final(bridges)@),
            spec_same_but(old(bridges)@, final(bridges)@, inner),
            r == spec_call(old(bridges)@, inner, (a, b, c, d)),
            inner < old(bridges)@.len() ==> final(bridges)@[inner as int].state() == spec_submit(
                old(bridges)@[inner as int].state(),
                (a, b, c, d),
            ).0,
    {
        if inner < bridges.len() {
            assert(bridges@[inner as int].wf());
            bridges[inner].submit(a, b, c, d)
        } else {
            Err(Error::new(EBADF))
        }
    }

    /// Looks for the result of the request `id` on the bridge that `inner`
    /// refers to. Where the bridge is dead or `inner` refers to none, the
    /// call is over with `EBADF`.
    pub fn reply(bridges: &mut Vec<SchemeInner>, inner: usize, id: usize) -> (r: Reply)
        requires
            spec_all_wf(old(bridges)@),
        ensures
            spec_all_wf(final(bridges)@),
            spec_same_but(old(bridges)@, final(bridges)@, inner),
            inner < old(bridges)@.len() ==> r == spec_poll(old(bridges)@[inner as int].state(), id).1
                && final(bridges)@[inner as int].state() == spec_poll(
                old(bridges)@[inner as int].state(),
                id,
            ).0,
            inner >= old(bridges)@.len() ==> r == Reply::Ready(Err(Error { errno: EBADF })),
    {
        if inner < bridges.len() {
            assert(bridges@[inner as int].wf());
            bridges[inner].poll(id)
        } else {
            Reply::Ready(Err(Error::new(EBADF)))
        }
    }
}

impl Scheme {
    /// Makes the bridge for a scheme of the name `name`, and returns the
    /// scheme for the registry and the handle for the provider.
    pub fn new(name: Vec<u8>, bridges: &mut Vec<SchemeInner>) -> (r: (Scheme, SchemeServerResource))
        requires
            spec_all_wf(old(bridges)@),
        ensures
            spec_all_wf(final(bridges)@),
            final(bridges)@.len() == old(bridges)@.len() + 1,
            final(bridges)@.drop_last() == old(bridges)@,
            final(bridges)@.last().state() == (BridgeState {
                next_id: 1,
                todo: Seq::empty(),
                done: Seq::empty(),
                owners: 1,
            }),
            r.0.name == name,
            r.0.inner == old(bridges)@.len(),
            r.1.inner == old(bridges)@.len(),
            r.1.path@ == spec_server_path(name@),
    {
        let inner = bridges.len();
        let fresh = SchemeInner::new();
        assert(fresh.todo.entries@ =~= Seq::empty());
        assert(fresh.done.entries@ =~= Seq::empty());
        bridges.push(fresh);
        assert(bridges@.drop_last() =~= old(bridges)@);
        let mut path: Vec<u8> = Vec::new();
        path.push(0x3A);
        push_range(&mut path, name.as_slice(), 0, name.len());
        assert(path@ =~= spec_server_path(name@));
        (Scheme { name, inner }, SchemeServerResource { path, inner })
    }

    /// Files the open of a path of the scheme. `path_address` is where the
    /// text of the URL lies for the provider, with a zero byte behind it.
    pub fn open(&self, bridges: &mut Vec<SchemeInner>, path_address: usize, flags: usize) -> (r:
        Result<usize, Error>)
        requires
            spec_all_wf(old(bridges)@),
        ensures
            spec_all_wf(final(bridges)@),
            spec_same_but(old(bridges)@, final(bridges)@, self.inner),
            r == spec_call(old(bridges)@, self.inner, (SYS_OPEN, path_address, flags, 0)),
            self.inner < old(bridges)@.len() ==> final(bridges)@[self.inner as int].state()
                == spec_submit(
                old(bridges)@[self.inner as int].state(),
                (SYS_OPEN, path_address, flags, 0),
            ).0,
    {
        SchemeInner::call(bridges, self.inner, SYS_OPEN, path_address, flags, 0)
    }

    /// The handle for the result of an open: the result is the identifier
    /// of the file at the provider.
    pub fn opened(&self, result: Result<usize, Error>) -> (r: Result<SchemeResource, Error>)
        ensures
            r == match result {
                Ok(file_id) => Ok(SchemeResource { inner: self.inner, file_id }),
                Err(e) => Err(e),
            },
    {
        match result {
            Ok(file_id) => Ok(SchemeResource { inner: self.inner, file_id }),
            Err(e) => Err(e),
        }
    }

    /// Files the removal of a path of the scheme.
    pub fn unlink(&self, bridges: &mut Vec<SchemeInner>, path_address: usize) -> (r: Result<
        usize,
        Error,
    >)
        requires
            spec_all_wf(old(bridges)@),
        ensures
            spec_all_wf(final(bridges)@),
            spec_same_but(old(bridges)@, final(bridges)@, self.inner),
            r == spec_call(old(bridges)@, self.inner, (SYS_UNLINK, path_address, 0, 0)),
            self.inner < old(bridges)@.len() ==> final(bridges)@[self.inner as int].state()
                == spec_submit(
                old(bridges)@[self.inner as int].state(),
                (SYS_UNLINK, path_address, 0, 0),
            ).0,
    {
        SchemeInner::call(bridges, self.inner, SYS_UNLINK, path_address, 0, 0)
    }
}

impl SchemeResource {
    /// The four words of the request that reads or writes `len` bytes at
    /// the address `address` of the current unit: the address is
    /// translated to a physical one. Fails with `ESRCH` where no unit is
    /// current, and with `EFAULT` where the address is not mapped.
    pub open spec fn spec_transfer(&self, table: &ContextTable, op: usize, address: usize, len: usize) -> Result<
        Regs,
        Error,
    > {
        if !table.enabled || table.current >= table.contexts@.len() {
            Err(Error { errno: ESRCH })
        } else {
            let unit = table.contexts@[table.current as int];
            match spec_translate(unit.stack, table.memories.spec_get(unit.memory)@, address) {
                Some(physical) => Ok((op, self.file_id, physical, len)),
                None => Err(Error { errno: EFAULT }),
            }
        }
    }

    /// Works out the request that reads or writes at an address of the
    /// current unit.
    pub fn transfer(&self, table: &ContextTable, op: usize, address: usize, len: usize) -> (r:
        Result<Regs, Error>)
        requires
            table.wf(),
        ensures
            r == self.spec_transfer(table, op, address, len),
    {
        match table.current() {
            Some(unit) => {
                assert(table.spec_handles_live(*unit));
                match table.memories.get(unit.memory) {
                    Some(memory) => match unit.translate(memory, address) {
                        Some(physical) => Ok((op, self.file_id, physical, len)),
                        None => Err(Error::new(EFAULT)),
                    },
                    None => Err(Error::new(EFAULT)),
                }
            },
            None => Err(Error::new(ESRCH)),
        }
    }

    /// A second handle on the same file. It keeps the bridge alive no more
    /// than the first.
    pub fn dup(&self) -> (r: Result<SchemeResource, Error>)
        ensures
            r == Ok::<SchemeResource, Error>(*self),
    {
        Ok(*self)
    }

    /// The path of the handle: empty.
    pub fn path(&self) -> (path: Vec<u8>)
        ensures
            path@.len() == 0,
    {
        Vec::new()
    }

    /// Files the request to read `len` bytes to the address `address` of
    /// the current unit.
    pub fn read(&self, bridges: &mut Vec<SchemeInner>, table: &ContextTable, address: usize, len: usize) -> (r:
        Result<usize, Error>)
        requires
            spec_all_wf(old(bridges)@),
            table.wf(),
        ensures
            spec_all_wf(final(bridges)@),
            spec_same_but(old(bridges)@, final(bridges)@, self.inner),
            match self.spec_transfer(table, SYS_READ, address, len) {
                Ok(regs) => r == spec_call(old(bridges)@, self.inner, regs) && (self.inner < old(bridges)@.len() ==> final(bridges)@[self.inner as int].state() == spec_submit(
                    old(bridges)@[self.inner as int].state(),
                    regs,
                ).0),
                Err(e) => r == Err::<usize, Error>(e) && final(bridges)@ == old(bridges)@,
            },
    {
        match self.transfer(table, SYS_READ, address, len) {
            Ok(regs) => SchemeInner::call(bridges, self.inner, regs.0, regs.1, regs.2, regs.3),
            Err(e) => Err(e),
        }
    }

    /// Files the request to write `len` bytes from the address `address`
    /// of the current unit.
    pub fn write(&self, bridges: &mut Vec<SchemeInner>, table: &ContextTable, address: usize, len: usize) -> (r:
        Result<usize, Error>)
        requires
            spec_all_wf(old(bridges)@),
            table.wf(),
        ensures
            spec_all_wf(final(bridges)@),
            spec_same_but(old(bridges)@, final(bridges)@, self.inner),
            match self.spec_transfer(table, SYS_WRITE, address, len) {
                Ok(regs) => r == spec_call(old(bridges)@, self.inner, regs) && (self.inner < old(bridges)@.len() ==> final(bridges)@[self.inner as int].state() == spec_submit(
                    old(bridges)@[self.inner as int].state(),
                    regs,
                ).0),
                Err(e) => r == Err::<usize, Error>(e) && final(bridges)@ == old(bridges)@,
            },
    {
        match self.transfer(table, SYS_WRITE, address, len) {
            Ok(regs) => SchemeInner::call(bridges, self.inner, regs.0, regs.1, regs.2, regs.3),
            Err(e) => Err(e),
        }
    }

    /// The four words of the request for a seek.
    pub open spec fn spec_seek(&self, pos: ResourceSeek) -> Regs {
        (SYS_LSEEK, self.file_id, spec_seek_words(pos).1, spec_seek_words(pos).0)
    }

    /// Files the request for a seek.
    pub fn seek(&self, bridges: &mut Vec<SchemeInner>, pos: ResourceSeek) -> (r: Result<usize, Error>)
        requires
            spec_all_wf(old(bridges)@),
        ensures
            spec_all_wf(final(bridges)@),
            spec_same_but(old(bridges)@, final(bridges)@, self.inner),
            r == spec_call(old(bridges)@, self.inner, self.spec_seek(pos)),
            self.inner < old(bridges)@.len() ==> final(bridges)@[self.inner as int].state()
                == spec_submit(old(bridges)@[self.inner as int].state(), self.spec_seek(pos)).0,
    {
        let (whence, offset) = match pos {
            ResourceSeek::Start(offset) => (SEEK_SET, offset),
            ResourceSeek::Current(offset) => (SEEK_CUR, offset_word(offset)),
            ResourceSeek::End(offset) => (SEEK_END, offset_word(offset)),
        };
        SchemeInner::call(bridges, self.inner, SYS_LSEEK, self.file_id, offset, whence)
    }

    /// Files the request to flush the file.
    pub fn sync(&self, bridges: &mut Vec<SchemeInner>) -> (r: Result<usize, Error>)
        requires
            spec_all_wf(old(bridges)@),
        ensures
            spec_all_wf(final(bridges)@),
            spec_same_but(old(bridges)@, final(bridges)@, self.inner),
            r == spec_call(old(bridges)@, self.inner, (SYS_FSYNC, self.file_id, 0, 0)),
            self.inner < old(bridges)@.len() ==> final(bridges)@[self.inner as int].state()
                == spec_submit(
                old(bridges)@[self.inner as int].state(),
                (SYS_FSYNC, self.file_id, 0, 0),
            ).0,
    {
        SchemeInner::call(bridges, self.inner, SYS_FSYNC, self.file_id, 0, 0)
    }

    /// Files the request to cut or extend the file to `len` bytes.
    pub fn truncate(&self, bridges: &mut Vec<SchemeInner>, len: usize) -> (r: Result<usize, Error>)
        requires
            spec_all_wf(old(bridges)@),
        ensures
            spec_all_wf(final(bridges)@),
            spec_same_but(old(bridges)@, final(bridges)@, self.inner),
            r == spec_call(old(bridges)@, self.inner, (SYS_FTRUNCATE, self.file_id, len, 0)),
            self.inner < old(bridges)@.len() ==> final(bridges)@[self.inner as int].state()
                == spec_submit(
                old(bridges)@[self.inner as int].state(),
                (SYS_FTRUNCATE, self.file_id, len, 0),
            ).0,
    {
        SchemeInner::call(bridges, self.inner, SYS_FTRUNCATE, self.file_id, len, 0)
    }

    /// Closes the handle: tells the provider, as far as that can be done.
    /// A failure is not passed on, and nobody waits for the answer.
    pub fn close(self, bridges: &mut Vec<SchemeInner>)
        requires
            spec_all_wf(old(bridges)@),
        ensures
            spec_all_wf(final(bridges)@),
            spec_same_but(old(bridges)@, final(bridges)@, self.inner),
            self.inner < old(bridges)@.len() ==> final(bridges)@[self.inner as int].state()
                == spec_submit(
                old(bridges)@[self.inner as int].state(),
                (SYS_CLOSE, self.file_id, 0, 0),
            ).0,
    {
        let _ = SchemeInner::call(bridges, self.inner, SYS_CLOSE, self.file_id, 0, 0);
    }
}

impl SchemeServerResource {
    /// A second handle for the provider. The bridge is alive while either
    /// is.
    pub fn dup(&self, bridges: &mut Vec<SchemeInner>) -> (r: Result<SchemeServerResource, Error>)
        requires
            spec_all_wf(old(bridges)@),
        ensures
            spec_all_wf(final(bridges)@),
            spec_same_but(old(bridges)@, final(bridges)@, self.inner),
            self.inner < old(bridges)@.len() && old(bridges)@[self.inner as int].owners < usize::MAX
                ==> {
                &&& r is Ok
                &&& r->Ok_0.inner == self.inner
                &&& r->Ok_0.path@ == self.path@
                &&& final(bridges)@[self.inner as int].state() == (BridgeState {
                    owners: (old(bridges)@[self.inner as int].owners + 1) as usize,
                    ..old(bridges)@[self.inner as int].state()
                })
            },
            !(self.inner < old(bridges)@.len() && old(bridges)@[self.inner as int].owners
                < usize::MAX) ==> (r matches Err(e) && e.errno == EBADF) && final(bridges)@ == old(bridges)@,
    {
        if self.inner < bridges.len() {
            assert(bridges@[self.inner as int].wf());
            match bridges[self.inner].dup() {
                Ok(()) => Ok(
                    SchemeServerResource { path: to_vec(self.path.as_slice()), inner: self.inner },
                ),
                Err(e) => {
                    assert(bridges@ =~= old(bridges)@);
                    Err(e)
                },
            }
        } else {
            Err(Error::new(EBADF))
        }
    }

    /// The path of the handle: a colon and the name of the scheme.
    pub fn path(&self) -> (path: Vec<u8>)
        ensures
            path@ == self.path@,
    {
        to_vec(self.path.as_slice())
    }

    /// The provider reads its next request into `buf`.
    pub fn read(&self, bridges: &mut Vec<SchemeInner>, buf: &mut [u8]) -> (r: Result<usize, Error>)
        requires
            spec_all_wf(old(bridges)@),
        ensures
            spec_all_wf(final(bridges)@),
            spec_same_but(old(bridges)@, final(bridges)@, self.inner),
            final(buf)@.len() == old(buf)@.len(),
            self.inner >= old(bridges)@.len() ==> r == Err::<usize, Error>(Error { errno: EBADF })
                && final(buf)@ == old(buf)@,
            self.inner < old(bridges)@.len() && old(buf)@.len() != PACKET_SIZE ==> {
                &&& r == Err::<usize, Error>(Error { errno: EINVAL })
                &&& final(bridges)@[self.inner as int].state() == old(bridges)@[self.inner as int].state()
                &&& final(buf)@ == old(buf)@
            },
            self.inner < old(bridges)@.len() && old(buf)@.len() == PACKET_SIZE ==> {
                let before = old(bridges)@[self.inner as int].state();
                &&& final(bridges)@[self.inner as int].state() == spec_read(before).0
                &&& match spec_read(before).1 {
                    Some(p) => r == Ok::<usize, Error>(PACKET_SIZE) && final(buf)@
                        == spec_packet_bytes(p),
                    None => r == Ok::<usize, Error>(0) && final(buf)@ == old(buf)@,
                }
            },
    {
        if self.inner < bridges.len() {
            assert(bridges@[self.inner as int].wf());
            bridges[self.inner].read(buf)
        } else {
            Err(Error::new(EBADF))
        }
    }

    /// The provider writes the result in `buf`.
    pub fn write(&self, bridges: &mut Vec<SchemeInner>, buf: &[u8]) -> (r: Result<usize, Error>)
        requires
            spec_all_wf(old(bridges)@),
        ensures
            spec_all_wf(final(bridges)@),
            spec_same_but(old(bridges)@, final(bridges)@, self.inner),
            self.inner >= old(bridges)@.len() ==> r == Err::<usize, Error>(Error { errno: EBADF }),
            self.inner < old(bridges)@.len() && buf@.len() != PACKET_SIZE ==> r == Err::<
                usize,
                Error,
            >(Error { errno: EINVAL }) && final(bridges)@[self.inner as int].state() == old(bridges)@[self.inner as int].state(),
            self.inner < old(bridges)@.len() && buf@.len() == PACKET_SIZE ==> r == Ok::<
                usize,
                Error,
            >(PACKET_SIZE) && final(bridges)@[self.inner as int].state() == spec_write(
                old(bridges)@[self.inner as int].state(),
                spec_packet(buf@),
            ),
    {
        if self.inner < bridges.len() {
            assert(bridges@[self.inner as int].wf());
            bridges[self.inner].write(buf)
        } else {
            Err(Error::new(EBADF))
        }
    }

    /// A seek on the handle of a provider fails with `ESPIPE`.
    pub fn seek(&self, pos: ResourceSeek) -> (r: Result<usize, Error>)
        ensures
            r == Err::<usize, Error>(Error { errno: ESPIPE }),
    {
        Err(Error::new(ESPIPE))
    }

    /// A sync on the handle of a provider fails with `EINVAL`.
    pub fn sync(&self) -> (r: Result<(), Error>)
        ensures
            r == Err::<(), Error>(Error { errno: EINVAL }),
    {
        Err(Error::new(EINVAL))
    }

    /// A truncation on the handle of a provider fails with `EINVAL`.
    pub fn truncate(&self, len: usize) -> (r: Result<(), Error>)
        ensures
            r == Err::<(), Error>(Error { errno: EINVAL }),
    {
        Err(Error::new(EINVAL))
    }

    /// The provider closes the handle. With its last handle the bridge
    /// dies.
    pub fn close(self, bridges: &mut Vec<SchemeInner>)
        requires
            spec_all_wf(old(bridges)@),
        ensures
            spec_all_wf(final(bridges)@),
            spec_same_but(old(bridges)@, final(bridges)@, self.inner),
            self.inner < old(bridges)@.len() ==> final(bridges)@[self.inner as int].state()
                == spec_close(old(bridges)@[self.inner as int].state()),
    {
        if self.inner < bridges.len() {
            assert(bridges@[self.inner as int].wf());
            bridges[self.inner].close();
        }
    }
}

// ---------------------------------------------------------------------------
// What holds of every run of the protocol
// ---------------------------------------------------------------------------

/// Liveness collapse: once the provider has given up its only handle, a new
/// request fails with `EBADF`, and a caller that waits for the result of an
/// earlier request finds its call over with `EBADF`, never pending.
pub proof fn lemma_dead_bridge_fails(s: BridgeState, regs: Regs, id: usize)
    requires
        s.owners == 1,
    ensures
        spec_submit(spec_close(s), regs).1 == Err::<usize, Error>(Error { errno: EBADF }),
        spec_poll(spec_close(s), id).1 == Reply::Ready(Err(Error { errno: EBADF })),
        spec_submit(spec_close(s), regs).0 == spec_close(s),
        spec_poll(spec_close(s), id).0 == spec_close(s),
{
}

/// One step of the protocol on the side of the requests.
pub enum BridgeOp {
    /// A caller files a request.
    Submit(Regs),
    /// The provider reads.
    Read,
}

/// The state after `op`.
pub open spec fn spec_apply(s: BridgeState, op: BridgeOp) -> BridgeState {
    match op {
        BridgeOp::Submit(regs) => spec_submit(s, regs).0,
        BridgeOp::Read => spec_read(s).0,
    }
}

/// The state after `ops`, in order.
pub open spec fn spec_run(s: BridgeState, ops: Seq<BridgeOp>) -> BridgeState
    decreases ops.len(),
{
    if ops.len() == 0 {
        s
    } else {
        spec_apply(spec_run(s, ops.drop_last()), ops.last())
    }
}

/// The identifiers of the requests that the reads among `ops` yield, in
/// order.
pub open spec fn spec_served(s: BridgeState, ops: Seq<BridgeOp>) -> Seq<usize>
    decreases ops.len(),
{
    if ops.len() == 0 {
        Seq::empty()
    } else {
        let before = spec_run(s, ops.drop_last());
        let served = spec_served(s, ops.drop_last());
        match ops.last() {
            BridgeOp::Read => match spec_read(before).1 {
                Some(p) => served.push(p.id),
                None => served,
            },
            BridgeOp::Submit(_) => served,
        }
    }
}

/// Every identifier in `entries` is below `bound`.
pub open spec fn spec_keys_below(entries: Seq<(usize, Regs)>, bound: int) -> bool {
    forall|k: int| 0 <= k < entries.len() ==> (#[trigger] entries[k]).0 < bound
}

/// Every identifier in `entries` is above all of `served`.
pub open spec fn spec_keys_above(entries: Seq<(usize, Regs)>, served: Seq<usize>) -> bool {
    forall|k: int, j: int|
        0 <= k < entries.len() && 0 <= j < served.len() ==> (#[trigger] served[j]) < (
        #[trigger] entries[k]).0
}

/// The numbers of `served` rise strictly.
pub open spec fn spec_ascending(served: Seq<usize>) -> bool {
    forall|i: int, j: int| 0 <= i < j < served.len() ==> served[i] < served[j]
}

/// The counter of the bridge has not wrapped round: the bridge is alive,
/// its requests are in order, and every identifier that waits in it is
/// below the one that comes next.
pub open spec fn spec_in_order(s: BridgeState) -> bool {
    &&& s.owners > 0
    &&& s.next_id >= 1
    &&& spec_sorted(s.todo)
    &&& spec_keys_below(s.todo, s.next_id as int)
    &&& spec_keys_below(s.done, s.next_id as int)
}

/// While the counter has not wrapped round, a request gets the identifier
/// `next_id` and waits behind all the others.
pub proof fn lemma_submit_in_order(s: BridgeState, regs: Regs)
    requires
        spec_in_order(s),
        s.next_id < usize::MAX,
    ensures
        spec_submit(s, regs).1 == Ok::<usize, Error>(s.next_id),
        spec_submit(s, regs).0.todo == s.todo.push((s.next_id, regs)),
        spec_submit(s, regs).0.next_id == s.next_id + 1,
        spec_in_order(spec_submit(s, regs).0),
{
    let id = s.next_id;
    lemma_position(s.todo, id, 0);
    assert(!spec_contains(s.todo, id));
    assert(!spec_contains(s.done, id)) by {
        let p = spec_position(s.done, id, 0);
        lemma_position_bound(s.done, id, 0);
        if p < s.done.len() {
            assert(s.done[p].0 < id);
        }
    }
    assert(spec_free_id(s.todo, s.done, id as int, usize::MAX + 1) == id);
    assert(spec_position(s.todo, id, 0) == s.todo.len());
    assert(spec_inserted(s.todo, id, regs) =~= s.todo.push((id, regs)));
}

/// `spec_position` gives a position in the entries or their length, and the
/// key there, if any, is `key` or more.
pub proof fn lemma_position_bound(entries: Seq<(usize, Regs)>, key: usize, from: int)
    requires
        0 <= from <= entries.len(),
    ensures
        from <= spec_position(entries, key, from) <= entries.len(),
        spec_position(entries, key, from) < entries.len() ==> entries[spec_position(
            entries,
            key,
            from,
        )].0 >= key,
    decreases entries.len() - from,
{
    if from < entries.len() && entries[from].0 < key {
        lemma_position_bound(entries, key, from + 1);
    }
}

/// What holds after any run of requests and reads on a bridge whose
/// counter does not wrap round.
pub proof fn lemma_run_in_order(s: BridgeState, ops: Seq<BridgeOp>)
    requires
        spec_in_order(s),
        s.next_id + ops.len() <= usize::MAX,
    ensures
        spec_in_order(spec_run(s, ops)),
        spec_run(s, ops).next_id <= s.next_id + ops.len(),
        spec_ascending(spec_served(s, ops)),
        spec_keys_above(spec_run(s, ops).todo, spec_served(s, ops)),
        forall|j: int|
            0 <= j < spec_served(s, ops).len() ==> (#[trigger] spec_served(s, ops)[j]) < spec_run(
                s,
                ops,
            ).next_id,
    decreases ops.len(),
{
    if ops.len() > 0 {
        lemma_run_in_order(s, ops.drop_last());
        let before = spec_run(s, ops.drop_last());
        let served = spec_served(s, ops.drop_last());
        match ops.last() {
            BridgeOp::Submit(regs) => {
                lemma_submit_in_order(before, regs);
            },
            BridgeOp::Read => {
                if before.todo.len() > 0 {
                    let after = spec_run(s, ops);
                    assert(after.todo == before.todo.drop_first());
                    assert forall|k: int| 0 <= k < after.todo.len() implies (
                    #[trigger] after.todo[k]).0 < after.next_id && before.todo[0].0 < after.todo[k].0 by {
                        assert(after.todo[k] == before.todo[k + 1]);
                    }
                    assert(spec_sorted(after.todo)) by {
                        assert forall|i: int, j: int| 0 <= i < j < after.todo.len() implies (
                        #[trigger] after.todo[i]).0 < (#[trigger] after.todo[j]).0 by {
                            assert(after.todo[i] == before.todo[i + 1]);
                            assert(after.todo[j] == before.todo[j + 1]);
                        }
                    }
                    let now = spec_served(s, ops);
                    assert(now == served.push(before.todo[0].0));
                    assert forall|k: int, j: int|
                        0 <= k < after.todo.len() && 0 <= j < now.len() implies (#[trigger] now[j])
                        < (#[trigger] after.todo[k]).0 by {
                        assert(after.todo[k] == before.todo[k + 1]);
                        if j < served.len() {
                            assert(served[j] < before.todo[k + 1].0);
                        }
                    }
                }
            },
        }
    }
}

/// Requests are served in the order in which they were filed: whatever the
/// interleaving of requests and reads, the identifiers that the reads of
/// the provider yield rise strictly, as long as the counter of the bridge
/// does not wrap round.
pub proof fn lemma_bridge_fifo(s: BridgeState, ops: Seq<BridgeOp>)
    requires
        spec_in_order(s),
        s.next_id + ops.len() <= usize::MAX,
    ensures
        spec_ascending(spec_served(s, ops)),
{
    lemma_run_in_order(s, ops);
}

/// Correlation: on a bridge whose counter has not wrapped round and where
/// nothing waits, a caller files a request, the provider reads it and
/// writes a result under its identifier, and the caller finds that result
/// as the result of its call.
pub proof fn lemma_bridge_round_trip(s: BridgeState, regs: Regs, answer: Regs)
    requires
        spec_in_order(s),
        spec_sorted(s.done),
        s.todo.len() == 0,
        s.next_id < usize::MAX,
    ensures
        spec_submit(s, regs).1 == Ok::<usize, Error>(s.next_id),
        spec_read(spec_submit(s, regs).0).1 == Some(
            Packet { id: s.next_id, a: regs.0, b: regs.1, c: regs.2, d: regs.3 },
        ),
        spec_poll(
            spec_write(
                spec_read(spec_submit(s, regs).0).0,
                Packet { id: s.next_id, a: answer.0, b: answer.1, c: answer.2, d: answer.3 },
            ),
            s.next_id,
        ).1 == Reply::Ready(spec_demux(answer.0)),
{
    lemma_submit_in_order(s, regs);
    let filed = spec_submit(s, regs).0;
    assert(filed.todo[0] == (s.next_id, regs));
    let taken = spec_read(filed).0;
    lemma_inserted(taken.done, s.next_id, answer);
}

} // verus!
