//! Pipes: a queue of bytes with handles that read from it and handles that
//! write to it. The queue lives while a handle reads from it.

use vstd::prelude::*;
use std::collections::VecDeque;
use crate::error::{Error, EBADF, EPIPE};
use crate::ordered::{
    lemma_contains, lemma_insert_above, lemma_position, lemma_removed, spec_contains,
    spec_position, spec_removed, spec_sorted, spec_value, OrderedMap,
};

verus! {

/// Open flag: a read that finds nothing returns at once.
pub const O_NONBLOCK: usize = 4;

/// A handle that reads from the queue `queue`.
#[derive(Clone, Copy, Debug, PartialEq, Eq, Structural)]
pub struct PipeRead {
    pub flags: usize,
    pub queue: usize,
}

/// A handle that writes to the queue `queue`. It does not keep the queue
/// alive.
#[derive(Clone, Copy, Debug, PartialEq, Eq, Structural)]
pub struct PipeWrite {
    pub queue: usize,
}

/// The pipes: the handles by their numbers, and the queues.
#[derive(Debug)]
pub struct PipeScheme {
    /// The number of the next handle.
    pub next_id: usize,
    /// The handles that read.
    pub reads: OrderedMap<PipeRead>,
    /// The handles that write.
    pub writes: OrderedMap<PipeWrite>,
    /// The queues. A queue stays at its position for good.
    pub queues: Vec<VecDeque<u8>>,
}

/// What the pipes are: the handles and the content of the queues.
pub struct PipeState {
    pub next_id: usize,
    pub reads: Seq<(usize, PipeRead)>,
    pub writes: Seq<(usize, PipeWrite)>,
    pub queues: Seq<Seq<u8>>,
}

/// A handle reads from the queue `queue`.
pub open spec fn spec_has_reader(reads: Seq<(usize, PipeRead)>, queue: usize) -> bool {
    exists|k: int| 0 <= k < reads.len() && (#[trigger] reads[k]).1.queue == queue
}

/// A handle writes to the queue `queue`.
pub open spec fn spec_has_writer(writes: Seq<(usize, PipeWrite)>, queue: usize) -> bool {
    exists|k: int| 0 <= k < writes.len() && (#[trigger] writes[k]).1.queue == queue
}

/// `flags` asks for reads that do not block.
pub open spec fn spec_nonblocking(flags: usize) -> bool {
    flags & O_NONBLOCK == O_NONBLOCK
}

/// The handles are in order and below `next_id`, no number is both a
/// reading and a writing handle, and every handle refers to a queue.
pub open spec fn spec_wf(s: PipeState) -> bool {
    &&& spec_sorted(s.reads)
    &&& spec_sorted(s.writes)
    &&& forall|k: int| 0 <= k < s.reads.len() ==> (#[trigger] s.reads[k]).0 < s.next_id
    &&& forall|k: int| 0 <= k < s.writes.len() ==> (#[trigger] s.writes[k]).0 < s.next_id
    &&& forall|i: int, j: int|
        0 <= i < s.reads.len() && 0 <= j < s.writes.len() ==> (#[trigger] s.reads[i]).0 != (
        #[trigger] s.writes[j]).0
    &&& forall|k: int| 0 <= k < s.reads.len() ==> (#[trigger] s.reads[k]).1.queue < s.queues.len()
    &&& forall|k: int| 0 <= k < s.writes.len() ==> (#[trigger] s.writes[k]).1.queue < s.queues.len()
}

/// A new pipe: an empty queue, a handle `next_id` that reads from it and a
/// handle `next_id + 1` that writes to it.
pub open spec fn spec_pipe(s: PipeState, flags: usize) -> (PipeState, (usize, usize)) {
    let queue = s.queues.len() as usize;
    let read_id = s.next_id;
    let write_id = (s.next_id + 1) as usize;
    (
        PipeState {
            next_id: (s.next_id + 2) as usize,
            reads: s.reads.push((read_id, PipeRead { flags, queue })),
            writes: s.writes.push((write_id, PipeWrite { queue })),
            queues: s.queues.push(Seq::empty()),
        },
        (read_id, write_id),
    )
}

/// A second handle on the queue of the handle `id`, of the same kind. Fails
/// with `EBADF` where `id` is no handle.
pub open spec fn spec_dup(s: PipeState, id: usize) -> (PipeState, Result<usize, Error>) {
    if spec_contains(s.reads, id) {
        (
            PipeState {
                next_id: (s.next_id + 1) as usize,
                reads: s.reads.push((s.next_id, spec_value(s.reads, id))),
                ..s
            },
            Ok(s.next_id),
        )
    } else if spec_contains(s.writes, id) {
        (
            PipeState {
                next_id: (s.next_id + 1) as usize,
                writes: s.writes.push((s.next_id, spec_value(s.writes, id))),
                ..s
            },
            Ok(s.next_id),
        )
    } else {
        (s, Err(Error { errno: EBADF }))
    }
}

/// How many bytes a read of `len` bytes takes from a queue of `avail`.
pub open spec fn spec_take(len: int, avail: int) -> int {
    if len < avail {
        len
    } else {
        avail
    }
}

/// A read of up to `len` bytes through the handle `id`: the state after
/// it, its result, and the bytes read.
///
/// It takes what the queue holds, up to `len` bytes, from the front. Where
/// the queue holds nothing, it returns 0 at once if the handle does not
/// block or no handle writes to the queue any more; else it returns `None`:
/// the caller waits until it is notified and reads again. It fails with
/// `EBADF` where `id` is no reading handle.
pub open spec fn spec_read(s: PipeState, id: usize, len: int) -> (PipeState, Result<Option<usize>, Error>, Seq<u8>) {
    if !spec_contains(s.reads, id) {
        (s, Err(Error { errno: EBADF }), Seq::empty())
    } else {
        let handle = spec_value(s.reads, id);
        let queue = s.queues[handle.queue as int];
        let n = spec_take(len, queue.len() as int);
        if n > 0 {
            (
                PipeState {
                    queues: s.queues.update(
                        handle.queue as int,
                        queue.subrange(n, queue.len() as int),
                    ),
                    ..s
                },
                Ok(Some(n as usize)),
                queue.subrange(0, n),
            )
        } else if spec_nonblocking(handle.flags) || !spec_has_writer(s.writes, handle.queue) {
            (s, Ok(Some(0usize)), Seq::empty())
        } else {
            (s, Ok(None), Seq::empty())
        }
    }
}

/// A write of `buf` through the handle `id`: all of `buf` goes to the back
/// of the queue. It fails with `EBADF` where `id` is no writing handle, and
/// with `EPIPE` where no handle reads from the queue any more.
pub open spec fn spec_write(s: PipeState, id: usize, buf: Seq<u8>) -> (PipeState, Result<usize, Error>) {
    if !spec_contains(s.writes, id) {
        (s, Err(Error { errno: EBADF }))
    } else {
        let handle = spec_value(s.writes, id);
        if !spec_has_reader(s.reads, handle.queue) {
            (s, Err(Error { errno: EPIPE }))
        } else {
            (
                PipeState {
                    queues: s.queues.update(
                        handle.queue as int,
                        s.queues[handle.queue as int] + buf,
                    ),
                    ..s
                },
                Ok(buf.len() as usize),
            )
        }
    }
}

/// The handle `id` is closed. With the last handle that reads from a queue
/// the queue is destroyed: what it holds is dropped.
pub open spec fn spec_close(s: PipeState, id: usize) -> PipeState {
    let reads = spec_removed(s.reads, id);
    let writes = spec_removed(s.writes, id);
    let queues = if spec_contains(s.reads, id) && !spec_has_reader(
        reads,
        spec_value(s.reads, id).queue,
    ) {
        s.queues.update(spec_value(s.reads, id).queue as int, Seq::empty())
    } else {
        s.queues
    };
    PipeState { reads, writes, queues, ..s }
}

/// The content of the queues.
pub open spec fn spec_contents(queues: Seq<VecDeque<u8>>) -> Seq<Seq<u8>> {
    queues.map_values(|q: VecDeque<u8>| q@)
}

impl PipeRead {
    /// A handle that reads from the queue `queue`.
    pub fn new(flags: usize, queue: usize) -> (r: PipeRead)
        ensures
            r == (PipeRead { flags, queue }),
    {
        PipeRead { flags, queue }
    }

    /// Takes up to `buf.len()` bytes from the front of `queue` into `buf`.
    /// Where the queue holds nothing, returns 0 at once if the handle does
    /// not block or `has_writer` is false, and `None` else.
    pub fn read(&self, queue: &mut VecDeque<u8>, has_writer: bool, buf: &mut [u8]) -> (r: Option<
        usize,
    >)
        ensures
            final(buf)@.len() == old(buf)@.len(),
            ({
                let n = spec_take(old(buf)@.len() as int, old(queue)@.len() as int);
                &&& final(queue)@ == old(queue)@.subrange(n, old(queue)@.len() as int)
                &&& final(buf)@ == old(queue)@.subrange(0, n) + old(buf)@.subrange(
                    n,
                    old(buf)@.len() as int,
                )
                &&& r == if n > 0 {
                    Some(n as usize)
                } else if spec_nonblocking(self.flags) || !has_writer {
                    Some(0usize)
                } else {
                    None
                }
            }),
    {
        let mut i: usize = 0;
        assert(queue@.subrange(0, queue@.len() as int) =~= queue@);
        while i < buf.len()
            invariant
                i <= buf.len(),
                i <= old(queue)@.len(),
                buf@.len() == old(buf)@.len(),
                queue@ == old(queue)@.subrange(i as int, old(queue)@.len() as int),
                buf@ == old(queue)@.subrange(0, i as int) + old(buf)@.subrange(
                    i as int,
                    old(buf)@.len() as int,
                ),
            ensures
                i == spec_take(old(buf)@.len() as int, old(queue)@.len() as int),
            decreases buf.len() - i,
        {
            match queue.pop_front() {
                Some(b) => {
                    buf[i] = b;
                    i += 1;
                    assert(queue@ =~= old(queue)@.subrange(i as int, old(queue)@.len() as int));
                    assert(buf@ =~= old(queue)@.subrange(0, i as int) + old(buf)@.subrange(
                        i as int,
                        old(buf)@.len() as int,
                    ));
                },
                None => {
                    break ;
                },
            }
        }
        if i > 0 {
            Some(i)
        } else if self.flags & O_NONBLOCK == O_NONBLOCK || !has_writer {
            Some(0)
        } else {
            None
        }
    }
}

impl PipeWrite {
    /// A handle that writes to the queue of `read`.
    pub fn new(read: &PipeRead) -> (w: PipeWrite)
        ensures
            w == (PipeWrite { queue: read.queue }),
    {
        PipeWrite { queue: read.queue }
    }

    /// Writes all of `buf` to the back of `queue`, where `alive` says that a
    /// handle reads from it. Fails with `EPIPE` where none does.
    pub fn write(&self, queue: &mut VecDeque<u8>, alive: bool, buf: &[u8]) -> (r: Result<
        usize,
        Error,
    >)
        ensures
            alive ==> r == Ok::<usize, Error>(buf@.len() as usize) && final(queue)@ == old(queue)@
                + buf@,
            !alive ==> r == Err::<usize, Error>(Error { errno: EPIPE }) && final(queue)@ == old(queue)@,
    {
        if !alive {
            return Err(Error::new(EPIPE));
        }
        let mut i: usize = 0;
        assert(queue@ =~= old(queue)@ + buf@.subrange(0, 0));
        while i < buf.len()
            invariant
                i <= buf.len(),
                queue@ == old(queue)@ + buf@.subrange(0, i as int),
            decreases buf.len() - i,
        {
            queue.push_back(buf[i]);
            i += 1;
            assert(queue@ =~= old(queue)@ + buf@.subrange(0, i as int));
        }
        assert(buf@.subrange(0, buf@.len() as int) =~= buf@);
        Ok(buf.len())
    }
}

/// Where entry `k` of the entries after a removal comes from: it was
/// there before, under another key than the removed one.
pub proof fn lemma_removed_origin<V>(entries: Seq<(usize, V)>, key: usize, k: int) -> (j: int)
    requires
        spec_sorted(entries),
        0 <= k < spec_removed(entries, key).len(),
    ensures
        0 <= j < entries.len(),
        entries[j] == spec_removed(entries, key)[k],
        entries[j].0 != key,
{
    let p = spec_position(entries, key, 0);
    lemma_position(entries, key, 0);
    lemma_contains(entries, key);
    if spec_contains(entries, key) {
        if k < p {
            k
        } else {
            k + 1
        }
    } else {
        k
    }
}

/// A close keeps the state well formed.
pub proof fn lemma_close_wf(s: PipeState, id: usize)
    requires
        spec_wf(s),
    ensures
        spec_wf(spec_close(s, id)),
{
    let after = spec_close(s, id);
    assert(spec_sorted(after.reads)) by {
        lemma_removed(s.reads, id);
    }
    assert(spec_sorted(after.writes)) by {
        lemma_removed(s.writes, id);
    }
    assert(after.queues.len() == s.queues.len()) by {
        lemma_position(s.reads, id, 0);
        if spec_contains(s.reads, id) {
            assert(s.reads[spec_position(s.reads, id, 0)].1.queue < s.queues.len());
        }
    }
    assert forall|k: int| 0 <= k < after.reads.len() implies (#[trigger] after.reads[k]).0
        < after.next_id && after.reads[k].1.queue < after.queues.len() by {
        let j = lemma_removed_origin(s.reads, id, k);
        assert(s.reads[j].0 < s.next_id);
    }
    assert forall|k: int| 0 <= k < after.writes.len() implies (#[trigger] after.writes[k]).0
        < after.next_id && after.writes[k].1.queue < after.queues.len() by {
        let j = lemma_removed_origin(s.writes, id, k);
        assert(s.writes[j].0 < s.next_id);
    }
    assert forall|i: int, j: int|
        0 <= i < after.reads.len() && 0 <= j < after.writes.len() implies (
    #[trigger] after.reads[i]).0 != (#[trigger] after.writes[j]).0 by {
        let a = lemma_removed_origin(s.reads, id, i);
        let b = lemma_removed_origin(s.writes, id, j);
        assert(s.reads[a].0 != s.writes[b].0);
    }
}

impl PipeScheme {
    /// What the pipes are.
    pub open spec fn state(&self) -> PipeState {
        PipeState {
            next_id: self.next_id,
            reads: self.reads.entries@,
            writes: self.writes.entries@,
            queues: spec_contents(self.queues@),
        }
    }

    /// The state is well formed.
    pub open spec fn wf(&self) -> bool {
        spec_wf(self.state())
    }

    /// Tells whether the state is well formed.
    pub fn check(&self) -> (r: bool)
        ensures
            r == self.wf(),
    {
        if !self.reads.check() || !self.writes.check() {
            return false;
        }
        let mut k: usize = 0;
        while k < self.reads.entries.len()
            invariant
                k <= self.reads.entries.len(),
                self.writes.wf(),
                forall|j: int|
                    0 <= j < k ==> (#[trigger] self.reads.entries@[j]).0 < self.next_id
                        && self.reads.entries@[j].1.queue < self.queues@.len() && !spec_contains(
                        self.writes.entries@,
                        self.reads.entries@[j].0,
                    ),
            decreases self.reads.entries.len() - k,
        {
            let entry = &self.reads.entries[k];
            if entry.0 >= self.next_id || entry.1.queue >= self.queues.len()
                || self.writes.contains_key(entry.0) {
                proof {
                    if entry.0 < self.next_id && entry.1.queue < self.queues@.len() {
                        lemma_contains(self.writes.entries@, entry.0);
                    }
                }
                return false;
            }
            k += 1;
        }
        let mut w: usize = 0;
        while w < self.writes.entries.len()
            invariant
                w <= self.writes.entries.len(),
                forall|j: int|
                    0 <= j < w ==> (#[trigger] self.writes.entries@[j]).0 < self.next_id
                        && self.writes.entries@[j].1.queue < self.queues@.len(),
            decreases self.writes.entries.len() - w,
        {
            let entry = &self.writes.entries[w];
            if entry.0 >= self.next_id || entry.1.queue >= self.queues.len() {
                return false;
            }
            w += 1;
        }
        proof {
            let s = self.state();
            assert(s.queues.len() == self.queues@.len());
            assert forall|i: int, j: int|
                0 <= i < s.reads.len() && 0 <= j < s.writes.len() implies (#[trigger] s.reads[i]).0
                != (#[trigger] s.writes[j]).0 by {
                lemma_contains(s.writes, s.reads[i].0);
            }
        }
        true
    }

    /// No pipes.
    pub fn new() -> (pipes: PipeScheme)
        ensures
            pipes.wf(),
            pipes.state() == (PipeState {
                next_id: 0,
                reads: Seq::empty(),
                writes: Seq::empty(),
                queues: Seq::empty(),
            }),
    {
        let pipes = PipeScheme {
            next_id: 0,
            reads: OrderedMap::new(),
            writes: OrderedMap::new(),
            queues: Vec::new(),
        };
        assert(pipes.reads.entries@ =~= Seq::empty());
        assert(pipes.writes.entries@ =~= Seq::empty());
        assert(spec_contents(pipes.queues@) =~= Seq::empty());
        pipes
    }

    /// Tells whether a handle reads from the queue `queue`.
    pub fn has_reader(&self, queue: usize) -> (r: bool)
        ensures
            r == spec_has_reader(self.reads.entries@, queue),
    {
        let mut k: usize = 0;
        while k < self.reads.entries.len()
            invariant
                k <= self.reads.entries.len(),
                forall|j: int| 0 <= j < k ==> (#[trigger] self.reads.entries@[j]).1.queue != queue,
            decreases self.reads.entries.len() - k,
        {
            if self.reads.entries[k].1.queue == queue {
                return true;
            }
            k += 1;
        }
        false
    }

    /// Tells whether a handle writes to the queue `queue`.
    pub fn has_writer(&self, queue: usize) -> (r: bool)
        ensures
            r == spec_has_writer(self.writes.entries@, queue),
    {
        let mut k: usize = 0;
        while k < self.writes.entries.len()
            invariant
                k <= self.writes.entries.len(),
                forall|j: int| 0 <= j < k ==> (#[trigger] self.writes.entries@[j]).1.queue != queue,
            decreases self.writes.entries.len() - k,
        {
            if self.writes.entries[k].1.queue == queue {
                return true;
            }
            k += 1;
        }
        false
    }

    /// A second handle on the queue of the handle `id`.
    pub fn dup(&mut self, id: usize, _buf: &[u8]) -> (r: Result<usize, Error>)
        requires
            old(self).wf(),
            old(self).next_id < usize::MAX,
        ensures
            final(self).wf(),
            final(self).state() == spec_dup(old(self).state(), id).0,
            r == spec_dup(old(self).state(), id).1,
    {
        let ghost before = self.state();
        let read = match self.reads.get(id) {
            Some(handle) => Some(*handle),
            None => None,
        };
        if let Some(handle) = read {
            let pipe_id = self.next_id;
            proof {
                lemma_insert_above(self.reads.entries@, pipe_id, handle);
                lemma_contains(before.reads, id);
            }
            self.next_id = self.next_id + 1;
            self.reads.insert(pipe_id, handle);
            return Ok(pipe_id);
        }
        let write = match self.writes.get(id) {
            Some(handle) => Some(*handle),
            None => None,
        };
        if let Some(handle) = write {
            let pipe_id = self.next_id;
            proof {
                lemma_insert_above(self.writes.entries@, pipe_id, handle);
                lemma_contains(before.writes, id);
            }
            self.next_id = self.next_id + 1;
            self.writes.insert(pipe_id, handle);
            return Ok(pipe_id);
        }
        Err(Error::new(EBADF))
    }

    /// Reads through the handle `id` into `buf`. `None` tells the caller
    /// to wait until it is notified, and to read again.
    pub fn read(&mut self, id: usize, buf: &mut [u8]) -> (r: Result<Option<usize>, Error>)
        requires
            old(self).wf(),
        ensures
            final(self).wf(),
            final(self).state() == spec_read(old(self).state(), id, old(buf)@.len() as int).0,
            r == spec_read(old(self).state(), id, old(buf)@.len() as int).1,
            final(buf)@.len() == old(buf)@.len(),
            ({
                let data = spec_read(old(self).state(), id, old(buf)@.len() as int).2;
                final(buf)@ == data + old(buf)@.subrange(data.len() as int, old(buf)@.len() as int)
            }),
    {
        let ghost before = self.state();
        let handle = match self.reads.get(id) {
            Some(handle) => *handle,
            None => {
                assert(buf@ =~= Seq::<u8>::empty() + buf@.subrange(0, buf@.len() as int));
                return Err(Error::new(EBADF));
            },
        };
        proof {
            lemma_contains(before.reads, id);
        }
        let has_writer = self.has_writer(handle.queue);
        let ghost queues = self.queues@;
        let r = handle.read(&mut self.queues[handle.queue], has_writer, buf);
        proof {
            let q = handle.queue as int;
            let n = spec_take(old(buf)@.len() as int, before.queues[q].len() as int);
            assert(spec_contents(self.queues@) =~= before.queues.update(q, self.queues@[q]@));
            if n == 0 {
                assert(self.queues@[q]@ =~= before.queues[q]);
                assert(spec_contents(self.queues@) =~= before.queues);
                assert(buf@ =~= Seq::<u8>::empty() + old(buf)@.subrange(
                    0,
                    old(buf)@.len() as int,
                ));
            }
        }
        Ok(r)
    }

    /// Writes `buf` through the handle `id`. After a write the readers that
    /// wait are to be notified.
    pub fn write(&mut self, id: usize, buf: &[u8]) -> (r: Result<usize, Error>)
        requires
            old(self).wf(),
        ensures
            final(self).wf(),
            final(self).state() == spec_write(old(self).state(), id, buf@).0,
            r == spec_write(old(self).state(), id, buf@).1,
    {
        let ghost before = self.state();
        let handle = match self.writes.get(id) {
            Some(handle) => *handle,
            None => {
                return Err(Error::new(EBADF));
            },
        };
        proof {
            lemma_contains(before.writes, id);
        }
        let alive = self.has_reader(handle.queue);
        let r = handle.write(&mut self.queues[handle.queue], alive, buf);
        proof {
            let q = handle.queue as int;
            assert(spec_contents(self.queues@) =~= before.queues.update(q, self.queues@[q]@));
            if !alive {
                assert(spec_contents(self.queues@) =~= before.queues);
            }
        }
        r
    }

    /// Does nothing: a pipe has no store behind it.
    pub fn fsync(&self, _id: usize) -> (r: Result<usize, Error>)
        ensures
            r == Ok::<usize, Error>(0),
    {
        Ok(0)
    }

    /// Closes the handle `id`. After the close of a writing handle the
    /// readers that wait are to be notified.
    pub fn close(&mut self, id: usize) -> (r: Result<usize, Error>)
        requires
            old(self).wf(),
        ensures
            final(self).wf(),
            final(self).state() == spec_close(old(self).state(), id),
            r == Ok::<usize, Error>(0),
    {
        let ghost before = self.state();
        proof {
            lemma_close_wf(before, id);
            lemma_contains(before.reads, id);
        }
        let read = self.reads.remove(id);
        let _ = self.writes.remove(id);
        if let Some(handle) = read {
            if !self.has_reader(handle.queue) {
                self.queues[handle.queue].clear();
                assert(spec_contents(self.queues@) =~= before.queues.update(
                    handle.queue as int,
                    Seq::empty(),
                ));
            }
        }
        Ok(0)
    }
}

/// Makes a pipe and returns the numbers of its reading and of its writing
/// handle.
pub fn pipe(pipes: &mut PipeScheme, flags: usize) -> (ids: (usize, usize))
    requires
        old(pipes).wf(),
        old(pipes).next_id + 2 <= usize::MAX,
    ensures
        final(pipes).wf(),
        final(pipes).state() == spec_pipe(old(pipes).state(), flags).0,
        ids == spec_pipe(old(pipes).state(), flags).1,
{
    let ghost before = pipes.state();
    let read_id = pipes.next_id;
    let write_id = pipes.next_id + 1;
    pipes.next_id = pipes.next_id + 2;
    let queue = pipes.queues.len();
    pipes.queues.push(VecDeque::new());
    let read = PipeRead::new(flags, queue);
    let write = PipeWrite::new(&read);
    proof {
        lemma_insert_above(pipes.reads.entries@, read_id, read);
        lemma_insert_above(pipes.writes.entries@, write_id, write);
        assert(spec_contents(pipes.queues@) =~= before.queues.push(Seq::empty()));
    }
    pipes.reads.insert(read_id, read);
    pipes.writes.insert(write_id, write);
    ids_of(read_id, write_id)
}

/// The pair of the two numbers.
fn ids_of(read_id: usize, write_id: usize) -> (ids: (usize, usize))
    ensures
        ids == (read_id, write_id),
{
    (read_id, write_id)
}

// ---------------------------------------------------------------------------
// What holds of every pipe
// ---------------------------------------------------------------------------

/// Broken pipe: once the only handle that reads from a queue is closed, a
/// write to that queue fails with `EPIPE`.
pub proof fn lemma_write_without_reader(s: PipeState, read_id: usize, write_id: usize, buf: Seq<u8>)
    requires
        spec_wf(s),
        spec_contains(s.reads, read_id),
        spec_contains(s.writes, write_id),
        spec_value(s.writes, write_id).queue == spec_value(s.reads, read_id).queue,
        forall|k: int|
            0 <= k < s.reads.len() && (#[trigger] s.reads[k]).1.queue == spec_value(
                s.reads,
                read_id,
            ).queue ==> s.reads[k].0 == read_id,
    ensures
        spec_write(spec_close(s, read_id), write_id, buf).1 == Err::<usize, Error>(
            Error { errno: EPIPE },
        ),
{
    let after = spec_close(s, read_id);
    let queue = spec_value(s.reads, read_id).queue;
    lemma_contains(s.reads, read_id);
    lemma_contains(s.writes, write_id);
    lemma_contains(s.writes, read_id);
    assert(!spec_contains(s.writes, read_id));
    assert(after.writes == s.writes);
    assert(!spec_has_reader(after.reads, queue)) by {
        if spec_has_reader(after.reads, queue) {
            let k = choose|k: int| 0 <= k < after.reads.len() && (#[trigger] after.reads[k]).1.queue
                == queue;
            let j = lemma_removed_origin(s.reads, read_id, k);
            assert(s.reads[j].1.queue == queue);
        }
    }
}

/// End of stream: once the only handle that writes to a queue is closed, a
/// read from that queue, when it is empty, returns 0 and does not block,
/// whatever the flags of the reading handle.
pub proof fn lemma_read_without_writer(s: PipeState, read_id: usize, write_id: usize, len: int)
    requires
        spec_wf(s),
        spec_contains(s.reads, read_id),
        spec_contains(s.writes, write_id),
        spec_value(s.writes, write_id).queue == spec_value(s.reads, read_id).queue,
        s.queues[spec_value(s.reads, read_id).queue as int].len() == 0,
        forall|k: int|
            0 <= k < s.writes.len() && (#[trigger] s.writes[k]).1.queue == spec_value(
                s.reads,
                read_id,
            ).queue ==> s.writes[k].0 == write_id,
    ensures
        spec_read(spec_close(s, write_id), read_id, len).1 == Ok::<Option<usize>, Error>(
            Some(0usize),
        ),
{
    let after = spec_close(s, write_id);
    let queue = spec_value(s.reads, read_id).queue;
    lemma_contains(s.reads, read_id);
    lemma_contains(s.reads, write_id);
    lemma_contains(s.writes, write_id);
    assert(!spec_contains(s.reads, write_id));
    assert(after.reads == s.reads);
    assert(after.queues == s.queues);
    assert(!spec_has_writer(after.writes, queue)) by {
        if spec_has_writer(after.writes, queue) {
            let k = choose|k: int|
                0 <= k < after.writes.len() && (#[trigger] after.writes[k]).1.queue == queue;
            let j = lemma_removed_origin(s.writes, write_id, k);
            assert(s.writes[j].1.queue == queue);
        }
    }
}

/// Round trip: what is written to an empty pipe is what a read that has
/// room for it returns, all of it and in order; the pipe is empty again
/// afterwards, and a read that does not block then returns 0.
pub proof fn lemma_pipe_round_trip(s: PipeState, read_id: usize, write_id: usize, buf: Seq<u8>, len: int)
    requires
        spec_wf(s),
        spec_contains(s.reads, read_id),
        spec_contains(s.writes, write_id),
        spec_value(s.writes, write_id).queue == spec_value(s.reads, read_id).queue,
        s.queues[spec_value(s.reads, read_id).queue as int].len() == 0,
        0 < buf.len() <= len,
        buf.len() <= usize::MAX,
    ensures
        spec_write(s, write_id, buf).1 == Ok::<usize, Error>(buf.len() as usize),
        spec_read(spec_write(s, write_id, buf).0, read_id, len).1 == Ok::<Option<usize>, Error>(
            Some(buf.len() as usize),
        ),
        spec_read(spec_write(s, write_id, buf).0, read_id, len).2 == buf,
        spec_nonblocking(spec_value(s.reads, read_id).flags) ==> spec_read(
            spec_read(spec_write(s, write_id, buf).0, read_id, len).0,
            read_id,
            len,
        ).1 == Ok::<Option<usize>, Error>(Some(0usize)),
{
    let queue = spec_value(s.reads, read_id).queue;
    lemma_contains(s.reads, read_id);
    lemma_position(s.reads, read_id, 0);
    let p = spec_position(s.reads, read_id, 0);
    assert(s.reads[p].1.queue == queue);
    assert(spec_has_reader(s.reads, queue));
    assert(queue < s.queues.len());
    let written = spec_write(s, write_id, buf).0;
    assert(written.queues[queue as int] =~= buf);
    assert(buf.subrange(0, buf.len() as int) =~= buf);
    let read = spec_read(written, read_id, len).0;
    assert(read.queues[queue as int] =~= Seq::<u8>::empty());
}

} // verus!
