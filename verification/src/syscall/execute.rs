//! The start of a program in the current unit: where its segments are
//! mapped, what its unit becomes, and what it finds on its stacks.

use vstd::prelude::*;
use vstd::string::StringSliceAdditionalSpecFns;
use crate::error::{Error, ENOEXEC, ESRCH};
use crate::scheduler::context::{
    spec_memory_wf, spec_next_mem, spec_stack_fits, spec_stack_writes, Context, ContextMemory,
    StackWrite, CONTEXT_STACK_ADDR, CONTEXT_STACK_RESERVE, CONTEXT_STACK_SIZE, PAGE_SIZE,
    WORD_SIZE,
};
use crate::scheduler::table::{spec_handle, ContextTable, ShareKind};
use crate::text::{push_all, str_bytes, to_vec};

verus! {

/// Segment flag: the segment may be written to.
pub const SEGMENT_WRITE: u32 = 2;

/// The code segment of user mode, with its privilege level.
pub const USER_CODE: usize = 0x18 | 3;

/// The data segment of user mode, with its privilege level.
pub const USER_DATA: usize = 0x20 | 3;

/// The flags of a program that starts: interrupts enabled.
pub const USER_FLAGS: usize = 1 << 9;

/// A segment of an executable that is to be loaded: where it lies in the
/// file and where it goes in memory.
#[derive(Clone, Copy, Debug, PartialEq, Eq, Structural)]
pub struct Segment {
    /// The virtual address of the segment.
    pub vaddr: usize,
    /// The offset of its bytes in the file.
    pub off: usize,
    /// The number of its bytes in the file.
    pub file_len: usize,
    /// The number of its bytes in memory.
    pub mem_len: usize,
    pub flags: u32,
}

/// Work on the memory of a segment that is loaded.
#[derive(Clone, Copy, Debug, PartialEq, Eq, Structural)]
pub enum LoadStep {
    /// Copy `len` bytes from the offset `off` of the file to `dst`.
    Copy { off: usize, dst: usize, len: usize },
    /// Clear `len` bytes at `dst`.
    Zero { dst: usize, len: usize },
}

/// An argument of a program: a string in physical memory.
#[derive(Clone, Copy, Debug, PartialEq, Eq, Structural)]
pub struct Argument {
    pub physical_address: usize,
    pub len: usize,
    /// The string ends in a zero byte.
    pub terminated: bool,
}

/// The distance of the segment from the start of its first page.
pub open spec fn spec_offset(s: Segment) -> int {
    s.vaddr as int % PAGE_SIZE as int
}

/// The bytes that are allocated for the segment: from the start of its
/// first page on.
pub open spec fn spec_size(s: Segment) -> int {
    s.mem_len + spec_offset(s)
}

/// The segment can be loaded: its bytes in the file are not more than its
/// bytes in memory, and its pages lie inside the address space.
pub open spec fn spec_loadable(s: Segment) -> bool {
    s.file_len <= s.mem_len && s.vaddr + s.mem_len + PAGE_SIZE <= usize::MAX
}

/// The physical region at `physical` can hold the segment: the allocation
/// did not fail, and the pages of the region lie inside the address space.
pub open spec fn spec_placed(s: Segment, physical: usize) -> bool {
    physical > 0 && physical + spec_size(s) + PAGE_SIZE <= usize::MAX
}

/// The mapping of the segment at the physical address `physical`: whole
/// pages, writable where the segment is.
pub open spec fn spec_mapping(s: Segment, physical: usize) -> ContextMemory {
    ContextMemory {
        physical_address: physical,
        virtual_address: (s.vaddr - spec_offset(s)) as usize,
        virtual_size: spec_size(s) as usize,
        writeable: s.flags & SEGMENT_WRITE == SEGMENT_WRITE,
    }
}

/// The work that fills the segment at the physical address `physical`: its
/// bytes of the file are copied, and the rest is cleared.
pub open spec fn spec_steps(s: Segment, physical: usize) -> Seq<LoadStep> {
    let dst = (physical + spec_offset(s)) as usize;
    if s.mem_len > s.file_len {
        seq![
            LoadStep::Copy { off: s.off, dst, len: s.file_len },
            LoadStep::Zero { dst: (dst + s.file_len) as usize, len: (s.mem_len - s.file_len) as usize },
        ]
    } else {
        seq![LoadStep::Copy { off: s.off, dst, len: s.file_len }]
    }
}

/// The mappings of the first `n` segments, segment `k` at the physical
/// address `allocations[k]`. A segment whose region is missing or cannot
/// hold it is left out.
pub open spec fn spec_loaded(segments: Seq<Segment>, allocations: Seq<usize>, n: int) -> Seq<
    ContextMemory,
>
    decreases n,
{
    if n <= 0 {
        Seq::empty()
    } else if n - 1 < allocations.len() && spec_placed(segments[n - 1], allocations[n - 1]) {
        spec_loaded(segments, allocations, n - 1).push(
            spec_mapping(segments[n - 1], allocations[n - 1]),
        )
    } else {
        spec_loaded(segments, allocations, n - 1)
    }
}

/// The work that fills the first `n` segments.
pub open spec fn spec_load_steps(segments: Seq<Segment>, allocations: Seq<usize>, n: int) -> Seq<
    LoadStep,
>
    decreases n,
{
    if n <= 0 {
        Seq::empty()
    } else if n - 1 < allocations.len() && spec_placed(segments[n - 1], allocations[n - 1]) {
        spec_load_steps(segments, allocations, n - 1) + spec_steps(
            segments[n - 1],
            allocations[n - 1],
        )
    } else {
        spec_load_steps(segments, allocations, n - 1)
    }
}

/// Every segment can be loaded.
pub open spec fn spec_all_loadable(segments: Seq<Segment>) -> bool {
    forall|k: int| 0 <= k < segments.len() ==> spec_loadable(#[trigger] segments[k])
}

impl Segment {
    /// Tells whether the segment can be loaded.
    pub fn check(&self) -> (r: bool)
        ensures
            r == spec_loadable(*self),
    {
        self.file_len <= self.mem_len && self.vaddr <= usize::MAX - PAGE_SIZE && self.mem_len
            <= usize::MAX - PAGE_SIZE - self.vaddr
    }

    /// The number of bytes to allocate for the segment.
    pub fn size(&self) -> (size: usize)
        requires
            spec_loadable(*self),
        ensures
            size == spec_size(*self),
    {
        self.mem_len + self.vaddr % PAGE_SIZE
    }
}

/// Says where the segments are mapped and how their memory is filled.
/// `allocations[k]` is the physical address of the memory that was
/// allocated for segment `k`, 0 where the allocation failed.
pub fn load(segments: &Vec<Segment>, allocations: &Vec<usize>) -> (r: (
    Vec<ContextMemory>,
    Vec<LoadStep>,
))
    requires
        spec_all_loadable(segments@),
    ensures
        r.0@ == spec_loaded(segments@, allocations@, segments@.len() as int),
        r.1@ == spec_load_steps(segments@, allocations@, segments@.len() as int),
        spec_memory_wf(r.0@),
{
    let mut memory: Vec<ContextMemory> = Vec::new();
    let mut steps: Vec<LoadStep> = Vec::new();
    let mut k: usize = 0;
    while k < segments.len()
        invariant
            k <= segments.len(),
            spec_all_loadable(segments@),
            memory@ == spec_loaded(segments@, allocations@, k as int),
            steps@ == spec_load_steps(segments@, allocations@, k as int),
            spec_memory_wf(memory@),
        decreases segments.len() - k,
    {
        let segment = segments[k];
        assert(spec_loadable(segment));
        let offset = segment.vaddr % PAGE_SIZE;
        let size = segment.mem_len + offset;
        if k < allocations.len() && allocations[k] > 0 && allocations[k] <= usize::MAX - PAGE_SIZE
            - size {
            let physical = allocations[k];
            let mapping = ContextMemory {
                physical_address: physical,
                virtual_address: segment.vaddr - offset,
                virtual_size: size,
                writeable: segment.flags & SEGMENT_WRITE == SEGMENT_WRITE,
            };
            proof {
                // The pages of the mapping end less than a page behind it.
                let pages = mapping.spec_pages();
                assert(pages * PAGE_SIZE < size + PAGE_SIZE);
                assert(mapping.wf());
            }
            memory.push(mapping);
            let dst = physical + offset;
            let ghost before = steps@;
            steps.push(LoadStep::Copy { off: segment.off, dst, len: segment.file_len });
            if segment.mem_len > segment.file_len {
                steps.push(
                    LoadStep::Zero {
                        dst: dst + segment.file_len,
                        len: segment.mem_len - segment.file_len,
                    },
                );
            }
            assert(steps@ =~= before + spec_steps(segment, physical));
        }
        k += 1;
    }
    (memory, steps)
}

/// What the start of a program in a unit leaves to be done: the old memory
/// is taken out of the address space and the new one put in, and the old
/// memory is freed where no other unit refers to it.
#[derive(Debug)]
pub struct Executed {
    /// The position of the unit.
    pub index: usize,
    /// The old mappings, where no unit refers to them any more.
    pub freed: Option<Vec<ContextMemory>>,
}

impl ContextTable {
    /// Starts a program in the current unit: the unit gets the name `name`,
    /// if there is one, a working directory of its own with the content
    /// of the old one, and the memory `memory` of its own. What the unit
    /// had before is freed where no other unit refers to it.
    ///
    /// Fails with `ENOEXEC` where the program has no entry or no memory,
    /// and with `ESRCH` where no unit is current.
    pub fn execute(&mut self, name: Option<Vec<u8>>, entry: usize, memory: Vec<ContextMemory>) -> (r:
        Result<Executed, Error>)
        requires
            old(self).wf(),
            spec_memory_wf(memory@),
        ensures
            final(self).wf(),
            final(self).current == old(self).current,
            final(self).enabled == old(self).enabled,
            final(self).next_pid == old(self).next_pid,
            final(self).args == old(self).args,
            final(self).files == old(self).files,
            entry == 0 || memory@.len() == 0 ==> r is Err && r->Err_0.errno == ENOEXEC && *final(self)
                == *old(self),
            entry > 0 && memory@.len() > 0 && !old(self).spec_active() ==> r is Err
                && r->Err_0.errno == ESRCH && *final(self) == *old(self),
            entry > 0 && memory@.len() > 0 && old(self).spec_active() ==> {
                let c = old(self).current as int;
                let before = old(self).contexts@[c];
                let after = final(self).contexts@[c];
                &&& r is Ok
                &&& r->Ok_0.index == c
                &&& r->Ok_0.freed == if spec_shared(
                    old(self).contexts@,
                    c,
                    ShareKind::Memory,
                    before.memory,
                ) {
                    None::<Vec<ContextMemory>>
                } else {
                    Some(old(self).memories.spec_get(before.memory))
                }
                &&& final(self).contexts@.len() == old(self).contexts@.len()
                &&& forall|k: int|
                    0 <= k < old(self).contexts@.len() && k != c ==> final(self).contexts@[k]
                        == old(self).contexts@[k]
                &&& after.name@ == (match name {
                    Some(n) => n@,
                    None => before.name@,
                })
                &&& final(self).cwds.spec_get(after.cwd)@ == old(self).cwds.spec_get(before.cwd)@
                &&& final(self).memories.spec_get(after.memory) == memory
                &&& !spec_shared(final(self).contexts@, c, ShareKind::Cwd, after.cwd)
                &&& !spec_shared(final(self).contexts@, c, ShareKind::Memory, after.memory)
                &&& after == (Context {
                    name: after.name,
                    cwd: after.cwd,
                    memory: after.memory,
                    ..before
                })
            },
    {
        if entry == 0 || memory.len() == 0 {
            return Err(Error::new(ENOEXEC));
        }
        if !self.enabled || self.contexts.len() == 0 {
            return Err(Error::new(ESRCH));
        }
        let c = self.current;
        let ghost units = self.contexts@;
        assert(self.spec_handles_live(units[c as int]));
        let old_cwd = self.contexts[c].cwd;
        let old_memory = self.contexts[c].memory;
        let cwd_copy = match self.cwds.get(old_cwd) {
            Some(bytes) => to_vec(bytes.as_slice()),
            None => Vec::new(),
        };
        let cwd_shared = self.shared(c, ShareKind::Cwd, old_cwd);
        let memory_shared = self.shared(c, ShareKind::Memory, old_memory);
        if !cwd_shared {
            let _ = self.cwds.remove(old_cwd);
        }
        let freed = if memory_shared {
            None
        } else {
            self.memories.remove(old_memory)
        };
        let new_cwd = self.cwds.insert(cwd_copy);
        let new_memory = self.memories.insert(memory);
        self.contexts[c].cwd = new_cwd;
        self.contexts[c].memory = new_memory;
        if let Some(n) = name {
            self.contexts[c].name = n;
        }
        proof {
            assert forall|k: int| 0 <= k < self.contexts.len() implies (
            #[trigger] self.contexts[k]).wf() && self.spec_handles_live(self.contexts[k]) by {
                if k != c {
                    let u = self.contexts[k];
                    assert(u == units[k]);
                    assert(old(self).spec_handles_live(u));
                    assert(spec_handle(u, ShareKind::Cwd) == u.cwd);
                    assert(spec_handle(u, ShareKind::Memory) == u.memory);
                }
            }
            assert forall|k: int|
                0 <= k < self.contexts@.len() && k != c implies spec_handle(
                #[trigger] self.contexts@[k],
                ShareKind::Cwd,
            ) != new_cwd && spec_handle(self.contexts@[k], ShareKind::Memory) != new_memory by {
                let u = self.contexts@[k];
                assert(u == units[k]);
                assert(old(self).spec_handles_live(u));
                assert(spec_handle(units[k], ShareKind::Cwd) == u.cwd);
                assert(spec_handle(units[k], ShareKind::Memory) == u.memory);
            }
        }
        Ok(Executed { index: c, freed })
    }

    /// Tells whether another unit than the one at `index` refers to the
    /// state of `kind` that `h` reaches.
    pub fn shared(&self, index: usize, kind: ShareKind, h: usize) -> (r: bool)
        ensures
            r == spec_shared(self.contexts@, index as int, kind, h),
    {
        let mut k: usize = 0;
        while k < self.contexts.len()
            invariant
                k <= self.contexts.len(),
                forall|j: int|
                    0 <= j < k && j != index ==> spec_handle(#[trigger] self.contexts@[j], kind)
                        != h,
            decreases self.contexts.len() - k,
        {
            let unit = &self.contexts[k];
            let handle = match kind {
                ShareKind::Args => unit.args,
                ShareKind::Cwd => unit.cwd,
                ShareKind::Memory => unit.memory,
                ShareKind::Files => unit.files,
            };
            if k != index && handle == h {
                return true;
            }
            k += 1;
        }
        false
    }
}

/// Another unit than the one at `index` refers to the state of `kind` that
/// `h` reaches.
pub open spec fn spec_shared(units: Seq<Context>, index: int, kind: ShareKind, h: usize) -> bool {
    exists|k: int| 0 <= k < units.len() && k != index && spec_handle(#[trigger] units[k], kind) == h
}

/// The words that a program finds on its user stack, from the top down:
/// the end of the environment, the end of the arguments, the addresses of
/// the arguments from the last to the first, and their number.
pub open spec fn spec_user_words(addresses: Seq<usize>) -> Seq<usize> {
    seq![0usize, 0usize] + addresses + seq![addresses.len() as usize]
}

/// The words that a unit finds on its kernel stack when it enters user
/// mode at `entry` with the user stack pointer `user_sp`, from the top
/// down; the last is where the unit goes on in the kernel.
pub open spec fn spec_kernel_words(user_sp: usize, entry: usize, userspace: usize) -> Seq<usize> {
    seq![USER_DATA, user_sp, USER_FLAGS, USER_CODE, entry, userspace]
}

/// The words for the user stack of a program whose arguments lie at the
/// virtual addresses `addresses`, from the last argument to the first.
pub fn user_words(addresses: &Vec<usize>) -> (words: Vec<usize>)
    ensures
        words@ == spec_user_words(addresses@),
{
    let mut words: Vec<usize> = Vec::new();
    words.push(0);
    words.push(0);
    let mut k: usize = 0;
    while k < addresses.len()
        invariant
            k <= addresses.len(),
            words@ == seq![0usize, 0usize] + addresses@.subrange(0, k as int),
        decreases addresses.len() - k,
    {
        words.push(addresses[k]);
        k += 1;
        assert(words@ =~= seq![0usize, 0usize] + addresses@.subrange(0, k as int));
    }
    assert(addresses@.subrange(0, addresses@.len() as int) =~= addresses@);
    words.push(addresses.len());
    assert(words@ =~= spec_user_words(addresses@));
    words
}

/// Says what is written to the user stack `stack` so that a program finds
/// `words` on it, and where its stack pointer stands: the writes go to the
/// physical memory of the stack, the pointer is a virtual address.
pub fn user_stack(stack: &ContextMemory, words: &Vec<usize>) -> (r: (Vec<StackWrite>, usize))
    requires
        stack.wf(),
        stack.virtual_address + stack.virtual_size <= usize::MAX,
        stack.physical_address + stack.virtual_size <= usize::MAX,
        CONTEXT_STACK_RESERVE + words@.len() * WORD_SIZE <= stack.virtual_size,
    ensures
        r.0@ == spec_stack_writes(
            stack.physical_address + stack.virtual_size - CONTEXT_STACK_RESERVE,
            words@,
        ),
        r.1 == stack.virtual_address + stack.virtual_size - CONTEXT_STACK_RESERVE - words@.len()
            * WORD_SIZE,
{
    let top: usize = stack.physical_address + stack.virtual_size - CONTEXT_STACK_RESERVE;
    let mut sp: usize = top;
    let mut writes: Vec<StackWrite> = Vec::new();
    let mut k: usize = 0;
    while k < words.len()
        invariant
            k <= words.len(),
            top == stack.physical_address + stack.virtual_size - CONTEXT_STACK_RESERVE,
            CONTEXT_STACK_RESERVE + words@.len() * WORD_SIZE <= stack.virtual_size,
            sp == top - k * WORD_SIZE,
            writes@ == spec_stack_writes(top as int, words@).subrange(0, k as int),
        decreases words.len() - k,
    {
        assert((k + 1) * WORD_SIZE <= words@.len() * WORD_SIZE) by (nonlinear_arith)
            requires
                k < words@.len(),
        ;
        assert((k + 1) * WORD_SIZE == k * WORD_SIZE + WORD_SIZE) by (nonlinear_arith);
        sp = sp - WORD_SIZE;
        writes.push(StackWrite { address: sp, value: words[k] });
        k += 1;
        assert(writes@ =~= spec_stack_writes(top as int, words@).subrange(0, k as int));
    }
    assert(writes@ =~= spec_stack_writes(top as int, words@));
    (writes, sp - stack.physical_address + stack.virtual_address)
}

impl Context {
    /// Prepares the unit to enter user mode: it gets the user stack
    /// `stack`, its kernel stack is emptied, and the frame for the entry
    /// is pushed onto it. Returns what is to be written to the kernel
    /// stack.
    pub fn enter_userspace(&mut self, stack: ContextMemory, user_sp: usize, entry: usize, userspace: usize) -> (writes:
        Vec<StackWrite>)
        requires
            spec_stack_fits(old(self).kernel_stack),
            stack.wf(),
        ensures
            final(self).wf(),
            *final(self) == (Context {
                sp: (old(self).kernel_stack + CONTEXT_STACK_SIZE - CONTEXT_STACK_RESERVE - 6
                    * WORD_SIZE) as usize,
                stack: Some(stack),
                ..*old(self)
            }),
            writes@ == spec_stack_writes(
                old(self).kernel_stack + CONTEXT_STACK_SIZE - CONTEXT_STACK_RESERVE,
                spec_kernel_words(user_sp, entry, userspace),
            ),
    {
        let ghost top: int = self.kernel_stack + CONTEXT_STACK_SIZE - CONTEXT_STACK_RESERVE;
        self.sp = self.kernel_stack + CONTEXT_STACK_SIZE - CONTEXT_STACK_RESERVE;
        self.stack = Some(stack);
        let mut writes: Vec<StackWrite> = Vec::new();
        assert(6 * WORD_SIZE <= 48);
        let w = self.push(USER_DATA);
        writes.push(w);
        let w = self.push(user_sp);
        writes.push(w);
        let w = self.push(USER_FLAGS);
        writes.push(w);
        let w = self.push(USER_CODE);
        writes.push(w);
        let w = self.push(entry);
        writes.push(w);
        let w = self.push(userspace);
        writes.push(w);
        proof {
            let target = spec_stack_writes(top, spec_kernel_words(user_sp, entry, userspace));
            assert(target.len() == 6);
            assert(writes@[0] == target[0]);
            assert(writes@[1] == target[1]);
            assert(writes@[2] == target[2]);
            assert(writes@[3] == target[3]);
            assert(writes@[4] == target[4]);
            assert(writes@[5] == target[5]);
            assert(writes@ =~= target);
        }
        writes
    }
}

/// The user stack of a program: a stack of the size of a kernel stack at
/// the address of user stacks, in the physical memory at `physical`.
pub fn user_stack_mapping(physical: usize) -> (stack: ContextMemory)
    ensures
        stack == (ContextMemory {
            physical_address: physical,
            virtual_address: CONTEXT_STACK_ADDR,
            virtual_size: CONTEXT_STACK_SIZE,
            writeable: true,
        }),
{
    ContextMemory {
        physical_address: physical,
        virtual_address: CONTEXT_STACK_ADDR,
        virtual_size: CONTEXT_STACK_SIZE,
        writeable: true,
    }
}

/// The mapping of the argument `argument` behind the mappings `memory`; none
/// where the argument does not end in a zero byte or does not fit into the
/// address space.
pub open spec fn spec_argument_mapping(memory: Seq<ContextMemory>, argument: Argument) -> Option<
    ContextMemory,
> {
    let mapping = ContextMemory {
        physical_address: argument.physical_address,
        virtual_address: spec_next_mem(memory, memory.len() as int) as usize,
        virtual_size: argument.len,
        writeable: true,
    };
    if argument.terminated && spec_next_mem(memory, memory.len() as int) <= usize::MAX
        && mapping.wf() {
        Some(mapping)
    } else {
        None
    }
}

/// The mappings after the last `n` arguments of `arguments` were mapped,
/// from the last argument on, each behind all mappings before it. The
/// mapping stops at the first argument that cannot be mapped.
pub open spec fn spec_arguments_memory(memory: Seq<ContextMemory>, arguments: Seq<Argument>, n: int) -> Seq<
    ContextMemory,
>
    decreases n,
{
    if n <= 0 {
        memory
    } else {
        let before = spec_arguments_memory(memory, arguments, n - 1);
        if spec_arguments_mapped(memory, arguments, n - 1) {
            match spec_argument_mapping(before, arguments[arguments.len() - n]) {
                Some(mapping) => before.push(mapping),
                None => before,
            }
        } else {
            before
        }
    }
}

/// The last `n` arguments of `arguments` could all be mapped.
pub open spec fn spec_arguments_mapped(memory: Seq<ContextMemory>, arguments: Seq<Argument>, n: int) -> bool
    decreases n,
{
    if n <= 0 {
        true
    } else {
        spec_arguments_mapped(memory, arguments, n - 1) && spec_argument_mapping(
            spec_arguments_memory(memory, arguments, n - 1),
            arguments[arguments.len() - n],
        ) is Some
    }
}

/// Maps the arguments of a program into its memory, from the last to the
/// first, each behind all mappings before it, and returns their virtual
/// addresses in that order. Returns none, and stops, at the first argument
/// that does not end in a zero byte or does not fit into the address
/// space; the arguments mapped before it stay mapped.
pub fn map_arguments(memory: &mut Vec<ContextMemory>, arguments: &Vec<Argument>) -> (r: Option<
    Vec<usize>,
>)
    requires
        spec_memory_wf(old(memory)@),
    ensures
        spec_memory_wf(final(memory)@),
        final(memory)@ == spec_arguments_memory(
            old(memory)@,
            arguments@,
            arguments@.len() as int,
        ),
        r is Some == spec_arguments_mapped(old(memory)@, arguments@, arguments@.len() as int),
        r matches Some(addresses) ==> addresses@.len() == arguments@.len() && final(memory)@.len()
            == old(memory)@.len() + arguments@.len() && forall|k: int|
            0 <= k < arguments@.len() ==> #[trigger] addresses@[k] == final(memory)@[old(memory)@.len() + k].virtual_address,
{
    let mut addresses: Vec<usize> = Vec::new();
    let mut n: usize = 0;
    let total = arguments.len();
    while n < total
        invariant
            n <= total,
            total == arguments@.len(),
            spec_memory_wf(memory@),
            memory@ == spec_arguments_memory(old(memory)@, arguments@, n as int),
            spec_arguments_mapped(old(memory)@, arguments@, n as int),
            addresses@.len() == n,
            memory@.len() == old(memory)@.len() + n,
            forall|k: int|
                0 <= k < n ==> #[trigger] addresses@[k] == memory@[old(memory)@.len()
                    + k].virtual_address,
        decreases total - n,
    {
        let argument = arguments[total - n - 1];
        let next = Context::next_mem(memory);
        let mapping = ContextMemory {
            physical_address: argument.physical_address,
            virtual_address: next,
            virtual_size: argument.len,
            writeable: true,
        };
        let ghost before = memory@;
        if !argument.terminated || !mapping.check() {
            proof {
                assert(spec_argument_mapping(before, argument) is None);
                lemma_arguments_stop(old(memory)@, arguments@, n as int + 1, total as int);
            }
            return None;
        }
        memory.push(mapping);
        addresses.push(next);
        n += 1;
        assert forall|k: int| 0 <= k < n implies #[trigger] addresses@[k] == memory@[old(memory)@.len() + k].virtual_address by {
            if k < n - 1 {
                assert(memory@[old(memory)@.len() + k] == before[old(memory)@.len() + k]);
            }
        }
    }
    Some(addresses)
}

/// Once an argument could not be mapped, no later one is mapped.
pub proof fn lemma_arguments_stop(memory: Seq<ContextMemory>, arguments: Seq<Argument>, n: int, m: int)
    requires
        1 <= n <= m,
        !spec_arguments_mapped(memory, arguments, n),
    ensures
        !spec_arguments_mapped(memory, arguments, m),
        spec_arguments_memory(memory, arguments, m) == spec_arguments_memory(memory, arguments, n),
        spec_arguments_mapped(memory, arguments, n - 1) ==> spec_arguments_memory(
            memory,
            arguments,
            n,
        ) == spec_arguments_memory(memory, arguments, n - 1),
    decreases m - n,
{
    if n < m {
        lemma_arguments_stop(memory, arguments, n, m - 1);
    }
}

/// The two URLs that are tried for the program `path` of a unit that works
/// in `cwd`: the path made absolute, then the path in `file:/bin/`.
pub fn execute(cwd: &[u8], path: &[u8]) -> (r: (Vec<u8>, Vec<u8>))
    ensures
        r.0@ == crate::scheduler::context::spec_canonicalize(cwd@, path@),
        r.1@ == "file:/bin/".spec_bytes() + path@,
{
    let first = Context::canonicalize(cwd, path);
    let mut second = str_bytes("file:/bin/");
    push_all(&mut second, path);
    (first, second)
}

} // verus!
