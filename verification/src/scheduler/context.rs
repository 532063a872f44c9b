//! The execution unit: saved machine state, memory mappings, and handles to
//! the state that the threads of one process share.

use vstd::prelude::*;
use crate::text::{find, push_range, rfind_below, spec_find, spec_rfind_below, starts_with};

verus! {

/// The bytes of a kernel stack.
pub const CONTEXT_STACK_SIZE: usize = 0x10_0000;

/// The bytes behind a kernel stack that hold the floating-point state.
pub const CONTEXT_FX_SIZE: usize = 512;

/// The virtual address of a user stack.
pub const CONTEXT_STACK_ADDR: usize = 0x7000_0000;

/// The time slices that a unit gets when it is switched to.
pub const CONTEXT_SLICES: usize = 4;

/// The room kept free at the top of a kernel stack.
pub const CONTEXT_STACK_RESERVE: usize = 128;

/// The top of the boot stack, used by a unit that has no kernel stack.
pub const BOOT_STACK_TOP: usize = 0x20_0000;

/// The bytes of a page.
pub const PAGE_SIZE: usize = 4096;

/// The largest process identifier, plus one.
pub const PID_LIMIT: usize = 65536;

/// Clone flag: the child shares the memory mappings of the parent.
pub const CLONE_VM: usize = 0x100;

/// Clone flag: the child shares the working directory of the parent.
pub const CLONE_FS: usize = 0x200;

/// Clone flag: the child shares the open files of the parent.
pub const CLONE_FILES: usize = 0x400;

/// What the paging hardware is asked to do with one page.
#[derive(Clone, Copy, Debug, PartialEq, Eq, Structural)]
pub enum PageAction {
    /// Map the page at `virtual_address` to `physical_address`, read-only.
    MapRead { virtual_address: usize, physical_address: usize },
    /// Map the page at `virtual_address` to `physical_address`, writable.
    MapWrite { virtual_address: usize, physical_address: usize },
    /// Map the page at `virtual_address` to itself.
    Identity { virtual_address: usize },
}

/// A memory mapping: a physical region shown at a virtual address.
#[derive(Clone, Copy, Debug, PartialEq, Eq, Structural)]
pub struct ContextMemory {
    pub physical_address: usize,
    pub virtual_address: usize,
    pub virtual_size: usize,
    pub writeable: bool,
}

/// An open file of a unit: a descriptor and the handle of its resource.
#[derive(Clone, Copy, Debug, PartialEq, Eq, Structural)]
pub struct ContextFile {
    pub fd: usize,
    pub resource: usize,
}

/// The exit status of a child.
#[derive(Clone, Copy, Debug, PartialEq, Eq, Structural)]
pub struct ContextStatus {
    pub pid: usize,
    pub status: usize,
}

impl ContextMemory {
    /// The number of pages that the mapping covers.
    pub open spec fn spec_pages(&self) -> int {
        (self.virtual_size + PAGE_SIZE - 1) / (PAGE_SIZE as int)
    }

    /// The mapping lies inside the address space, on both sides.
    pub open spec fn wf(&self) -> bool {
        &&& self.virtual_address + self.spec_pages() * PAGE_SIZE <= usize::MAX
        &&& self.physical_address + self.spec_pages() * PAGE_SIZE <= usize::MAX
    }

    /// The virtual address behind the last page of the mapping.
    pub open spec fn spec_end(&self) -> int {
        self.virtual_address + self.spec_pages() * PAGE_SIZE
    }

    /// `ptr` lies inside the mapping.
    pub open spec fn spec_contains(&self, ptr: usize) -> bool {
        self.virtual_address <= ptr < self.virtual_address + self.virtual_size
    }

    /// The action that maps page `k` of the mapping.
    pub open spec fn spec_map_action(&self, k: int) -> PageAction {
        if self.writeable {
            PageAction::MapWrite {
                virtual_address: (self.virtual_address + k * PAGE_SIZE) as usize,
                physical_address: (self.physical_address + k * PAGE_SIZE) as usize,
            }
        } else {
            PageAction::MapRead {
                virtual_address: (self.virtual_address + k * PAGE_SIZE) as usize,
                physical_address: (self.physical_address + k * PAGE_SIZE) as usize,
            }
        }
    }

    /// The actions that map the mapping, page by page from the lowest.
    pub open spec fn spec_map(&self) -> Seq<PageAction> {
        Seq::new(self.spec_pages() as nat, |k: int| self.spec_map_action(k))
    }

    /// The actions that take the mapping out, page by page from the lowest.
    pub open spec fn spec_unmap(&self) -> Seq<PageAction> {
        Seq::new(
            self.spec_pages() as nat,
            |k: int| PageAction::Identity { virtual_address: (self.virtual_address + k * PAGE_SIZE) as usize },
        )
    }

    /// Tells whether the mapping lies inside the address space.
    pub fn check(&self) -> (r: bool)
        ensures
            r == self.wf(),
    {
        let pages: usize = if self.virtual_size == 0 {
            0
        } else {
            (self.virtual_size - 1) / PAGE_SIZE + 1
        };
        if pages > usize::MAX / PAGE_SIZE {
            assert(pages * PAGE_SIZE > usize::MAX) by (nonlinear_arith)
                requires
                    pages > usize::MAX / PAGE_SIZE,
                    PAGE_SIZE == 4096,
            ;
            return false;
        }
        assert(pages * PAGE_SIZE <= usize::MAX) by (nonlinear_arith)
            requires
                pages <= usize::MAX / PAGE_SIZE,
                PAGE_SIZE == 4096,
        ;
        let bytes: usize = pages * PAGE_SIZE;
        self.virtual_address <= usize::MAX - bytes && self.physical_address <= usize::MAX - bytes
    }

    /// The number of pages that the mapping covers.
    pub fn pages(&self) -> (n: usize)
        requires
            self.wf(),
        ensures
            n == self.spec_pages(),
    {
        if self.virtual_size == 0 {
            0
        } else {
            (self.virtual_size - 1) / PAGE_SIZE + 1
        }
    }

    /// Appends to `out` the actions that map the mapping.
    pub fn map(&self, out: &mut Vec<PageAction>)
        requires
            self.wf(),
        ensures
            final(out)@ == old(out)@ + self.spec_map(),
    {
        let n = self.pages();
        let mut k: usize = 0;
        assert(out@ =~= old(out)@ + self.spec_map().subrange(0, 0));
        while k < n
            invariant
                self.wf(),
                n == self.spec_pages(),
                k <= n,
                out@ == old(out)@ + self.spec_map().subrange(0, k as int),
            decreases n - k,
        {
            assert(k * PAGE_SIZE <= n * PAGE_SIZE) by (nonlinear_arith)
                requires
                    k <= n,
            ;
            let offset: usize = k * PAGE_SIZE;
            if self.writeable {
                out.push(
                    PageAction::MapWrite {
                        virtual_address: self.virtual_address + offset,
                        physical_address: self.physical_address + offset,
                    },
                );
            } else {
                out.push(
                    PageAction::MapRead {
                        virtual_address: self.virtual_address + offset,
                        physical_address: self.physical_address + offset,
                    },
                );
            }
            k += 1;
            assert(out@ =~= old(out)@ + self.spec_map().subrange(0, k as int));
        }
        assert(self.spec_map().subrange(0, n as int) =~= self.spec_map());
    }

    /// Appends to `out` the actions that take the mapping out.
    pub fn unmap(&self, out: &mut Vec<PageAction>)
        requires
            self.wf(),
        ensures
            final(out)@ == old(out)@ + self.spec_unmap(),
    {
        let n = self.pages();
        let mut k: usize = 0;
        assert(out@ =~= old(out)@ + self.spec_unmap().subrange(0, 0));
        while k < n
            invariant
                self.wf(),
                n == self.spec_pages(),
                k <= n,
                out@ == old(out)@ + self.spec_unmap().subrange(0, k as int),
            decreases n - k,
        {
            assert(k * PAGE_SIZE <= n * PAGE_SIZE) by (nonlinear_arith)
                requires
                    k <= n,
            ;
            let offset: usize = k * PAGE_SIZE;
            out.push(PageAction::Identity { virtual_address: self.virtual_address + offset });
            k += 1;
            assert(out@ =~= old(out)@ + self.spec_unmap().subrange(0, k as int));
        }
        assert(self.spec_unmap().subrange(0, n as int) =~= self.spec_unmap());
    }
}

/// An execution unit.
#[derive(Debug)]
pub struct Context {
    /// The process identifier of the unit.
    pub pid: usize,
    /// The process identifier of its parent.
    pub ppid: usize,
    /// The name of the unit.
    pub name: Vec<u8>,
    /// The unit was switched away from by the timer.
    pub interrupted: bool,
    /// The unit has exited and waits to be removed.
    pub exited: bool,
    /// The time slices that are left to the unit.
    pub slices: usize,
    /// The time slices that the unit has used.
    pub slice_total: usize,
    /// The address of the kernel stack, 0 where the unit has none.
    pub kernel_stack: usize,
    /// The saved kernel stack pointer.
    pub sp: usize,
    /// The saved flags.
    pub flags: usize,
    /// Where the floating-point state is saved.
    pub fx: usize,
    /// The user stack.
    pub stack: Option<ContextMemory>,
    /// The registers have been saved at least once and can be loaded.
    pub loadable: bool,
    /// The handle of the program arguments.
    pub args: usize,
    /// The handle of the working directory.
    pub cwd: usize,
    /// The handle of the memory mappings.
    pub memory: usize,
    /// The handle of the open files.
    pub files: usize,
    /// The exit statuses of children.
    pub statuses: Vec<ContextStatus>,
}

impl Context {
    /// The kernel stack and the user stack lie inside the address space.
    pub open spec fn wf(&self) -> bool {
        &&& self.kernel_stack + CONTEXT_STACK_SIZE + CONTEXT_FX_SIZE <= usize::MAX
        &&& self.stack matches Some(stack) ==> stack.wf()
    }

    /// Where the hardware is to put the kernel stack pointer when the unit
    /// is entered from user mode.
    pub open spec fn spec_kernel_sp(&self) -> usize {
        if self.kernel_stack > 0 {
            (self.kernel_stack + CONTEXT_STACK_SIZE - CONTEXT_STACK_RESERVE) as usize
        } else {
            (BOOT_STACK_TOP - CONTEXT_STACK_RESERVE) as usize
        }
    }

    /// Tells whether the unit is well formed.
    pub fn check(&self) -> (r: bool)
        ensures
            r == self.wf(),
    {
        if self.kernel_stack > usize::MAX - CONTEXT_STACK_SIZE - CONTEXT_FX_SIZE {
            return false;
        }
        match &self.stack {
            Some(stack) => stack.check(),
            None => true,
        }
    }

    /// Where the hardware is to put the kernel stack pointer when the unit
    /// is entered from user mode.
    pub fn kernel_sp(&self) -> (sp: usize)
        requires
            self.wf(),
        ensures
            sp == self.spec_kernel_sp(),
    {
        if self.kernel_stack > 0 {
            self.kernel_stack + CONTEXT_STACK_SIZE - CONTEXT_STACK_RESERVE
        } else {
            BOOT_STACK_TOP - CONTEXT_STACK_RESERVE
        }
    }
}

/// A word written to the kernel stack of a unit.
#[derive(Clone, Copy, Debug, PartialEq, Eq, Structural)]
pub struct StackWrite {
    pub address: usize,
    pub value: usize,
}

/// The machine state that the hardware is to load for a unit: the stack
/// pointer and the flags, and the floating-point state at `fx` where the
/// state of the unit has been saved before.
#[derive(Clone, Copy, Debug, PartialEq, Eq, Structural)]
pub struct SavedState {
    pub fx: Option<usize>,
    pub sp: usize,
    pub flags: usize,
}

/// The bytes of a machine word on the kernel stack.
pub const WORD_SIZE: usize = (usize::BITS / 8) as usize;

// ---------------------------------------------------------------------------
// Free numbers
// ---------------------------------------------------------------------------

/// How many entries of `used` are `v` or more.
pub open spec fn spec_count_at_least(used: Seq<usize>, v: int) -> nat
    decreases used.len(),
{
    if used.len() == 0 {
        0
    } else {
        spec_count_at_least(used.drop_last(), v) + if used.last() >= v {
            1nat
        } else {
            0nat
        }
    }
}

/// `r` is the least number from `start` on that `used` does not hold.
pub open spec fn spec_is_first_unused(used: Seq<usize>, start: int, r: int) -> bool {
    &&& start <= r
    &&& !used.contains(r as usize)
    &&& forall|v: usize| start <= v < r ==> used.contains(v)
}

/// Of the numbers in `used`, no more are above `v` than are at or above
/// it, and fewer where `v` is among them.
pub proof fn lemma_count_at_least(used: Seq<usize>, v: int)
    ensures
        spec_count_at_least(used, v + 1) <= spec_count_at_least(used, v) <= used.len(),
        (exists|k: int| 0 <= k < used.len() && used[k] == v) ==> spec_count_at_least(used, v + 1)
            < spec_count_at_least(used, v),
    decreases used.len(),
{
    if used.len() > 0 {
        lemma_count_at_least(used.drop_last(), v);
        if exists|k: int| 0 <= k < used.len() && used[k] == v {
            let k = choose|k: int| 0 <= k < used.len() && used[k] == v;
            if k < used.len() - 1 {
                assert(used.drop_last()[k] == v);
            }
        }
    }
}

/// Finds the least number from `start` on that `used` does not hold.
pub fn first_unused(used: &Vec<usize>, start: usize) -> (r: usize)
    requires
        start + used.len() < usize::MAX,
    ensures
        spec_is_first_unused(used@, start as int, r as int),
        r <= start + used.len(),
{
    let mut candidate: usize = start;
    let mut collision = true;
    proof {
        lemma_count_at_least(used@, start as int);
    }
    while collision
        invariant
            start <= candidate,
            candidate + spec_count_at_least(used@, candidate as int) <= start + used.len(),
            start + used.len() < usize::MAX,
            forall|v: usize| start <= v < candidate ==> used@.contains(v),
            !collision ==> !used@.contains(candidate),
        decreases spec_count_at_least(used@, candidate as int) + if collision {
            1nat
        } else {
            0nat
        },
    {
        collision = false;
        let mut k: usize = 0;
        while k < used.len()
            invariant_except_break
                !collision,
            invariant
                k <= used.len(),
                forall|j: int| 0 <= j < k ==> used@[j] != candidate,
            ensures
                collision ==> k < used.len() && used@[k as int] == candidate,
                !collision ==> forall|j: int| 0 <= j < used.len() ==> used@[j] != candidate,
            decreases used.len() - k,
        {
            if used[k] == candidate {
                collision = true;
                break ;
            }
            k += 1;
        }
        if collision {
            proof {
                lemma_count_at_least(used@, candidate as int);
                assert(used@.contains(candidate));
            }
            candidate += 1;
        }
    }
    candidate
}

// ---------------------------------------------------------------------------
// Memory mappings of a unit
// ---------------------------------------------------------------------------

/// Every mapping of the list lies inside the address space.
pub open spec fn spec_memory_wf(memory: Seq<ContextMemory>) -> bool {
    forall|k: int| 0 <= k < memory.len() ==> (#[trigger] memory[k]).wf()
}

/// The highest end of a mapping among the first `n` of the list; 0 for none.
pub open spec fn spec_next_mem(memory: Seq<ContextMemory>, n: int) -> int
    decreases n,
{
    if n <= 0 {
        0
    } else {
        let rest = spec_next_mem(memory, n - 1);
        if rest < memory[n - 1].spec_end() {
            memory[n - 1].spec_end()
        } else {
            rest
        }
    }
}

/// The first position from `from` on whose mapping holds `ptr`.
pub open spec fn spec_mapping_of(memory: Seq<ContextMemory>, ptr: usize, from: int) -> Option<int>
    decreases memory.len() - from,
{
    if from < 0 || from >= memory.len() {
        None
    } else if memory[from].spec_contains(ptr) {
        Some(from)
    } else {
        spec_mapping_of(memory, ptr, from + 1)
    }
}

/// The first position from `from` on whose mapping starts at `ptr`.
pub open spec fn spec_mapping_at(memory: Seq<ContextMemory>, ptr: usize, from: int) -> Option<int>
    decreases memory.len() - from,
{
    if from < 0 || from >= memory.len() {
        None
    } else if memory[from].virtual_address == ptr {
        Some(from)
    } else {
        spec_mapping_at(memory, ptr, from + 1)
    }
}

/// The physical address behind `ptr` in mapping `m`.
pub open spec fn spec_translate_in(m: ContextMemory, ptr: usize) -> usize {
    (ptr - m.virtual_address + m.physical_address) as usize
}

/// The physical address behind `ptr`: in the user stack where it holds
/// `ptr`, else in the first mapping that does.
pub open spec fn spec_translate(
    stack: Option<ContextMemory>,
    memory: Seq<ContextMemory>,
    ptr: usize,
) -> Option<usize> {
    if stack is Some && stack->0.spec_contains(ptr) {
        Some(spec_translate_in(stack->0, ptr))
    } else {
        match spec_mapping_of(memory, ptr, 0) {
            Some(k) => Some(spec_translate_in(memory[k], ptr)),
            None => None,
        }
    }
}

/// The actions that map every mapping of the list, in order.
pub open spec fn spec_map_all(memory: Seq<ContextMemory>) -> Seq<PageAction>
    decreases memory.len(),
{
    if memory.len() == 0 {
        Seq::empty()
    } else {
        spec_map_all(memory.drop_last()) + memory.last().spec_map()
    }
}

/// The actions that take every mapping of the list out, in order.
pub open spec fn spec_unmap_all(memory: Seq<ContextMemory>) -> Seq<PageAction>
    decreases memory.len(),
{
    if memory.len() == 0 {
        Seq::empty()
    } else {
        spec_unmap_all(memory.drop_last()) + memory.last().spec_unmap()
    }
}

/// The mappings of the list that are not empty, in order.
pub open spec fn spec_clean(memory: Seq<ContextMemory>) -> Seq<ContextMemory> {
    memory.filter(|m: ContextMemory| m.virtual_size != 0)
}

// ---------------------------------------------------------------------------
// Open files of a unit
// ---------------------------------------------------------------------------

/// The descriptors of the files, in order.
pub open spec fn spec_fds(files: Seq<ContextFile>) -> Seq<usize> {
    files.map_values(|f: ContextFile| f.fd)
}

/// The first position from `from` on whose file has descriptor `fd`.
pub open spec fn spec_file_at(files: Seq<ContextFile>, fd: usize, from: int) -> Option<int>
    decreases files.len() - from,
{
    if from < 0 || from >= files.len() {
        None
    } else if files[from].fd == fd {
        Some(from)
    } else {
        spec_file_at(files, fd, from + 1)
    }
}

// ---------------------------------------------------------------------------
// Paths
// ---------------------------------------------------------------------------

pub const COLON: u8 = 0x3A;

pub const SLASH: u8 = 0x2F;

pub const DOT: u8 = 0x2E;

/// `s` without its first `n` bytes; empty where it has no more.
pub open spec fn spec_skip(s: Seq<u8>, n: int) -> Seq<u8> {
    if n <= s.len() {
        s.subrange(n, s.len() as int)
    } else {
        Seq::empty()
    }
}

/// The directory above `cwd`: up to and with the last slash that is not the
/// last byte; the whole of `cwd` where there is none.
pub open spec fn spec_parent_dir(cwd: Seq<u8>) -> Seq<u8> {
    if cwd.len() == 0 {
        cwd
    } else {
        match spec_rfind_below(cwd, SLASH, cwd.len() - 1) {
            Some(k) => cwd.subrange(0, k + 1),
            None => cwd,
        }
    }
}

/// The scheme of `cwd` with its colon; its first byte where it has no colon.
pub open spec fn spec_scheme_root(cwd: Seq<u8>) -> Seq<u8> {
    match spec_find(cwd, COLON) {
        Some(k) => cwd.subrange(0, k + 1),
        None => if cwd.len() >= 1 {
            cwd.subrange(0, 1)
        } else {
            cwd
        },
    }
}

/// The absolute form of `path` for a unit that works in `cwd`. A path with a
/// colon is absolute. `../` stands for the directory above `cwd`, `./` for
/// `cwd`, a leading slash for the root of the scheme of `cwd`; any other
/// path continues `cwd`.
pub open spec fn spec_canonicalize(cwd: Seq<u8>, path: Seq<u8>) -> Seq<u8> {
    if spec_find(path, COLON) is Some {
        path
    } else if seq![DOT, DOT, SLASH].is_prefix_of(path) {
        spec_parent_dir(cwd) + spec_skip(path, 3)
    } else if seq![DOT, SLASH].is_prefix_of(path) {
        cwd + spec_skip(path, 2)
    } else if seq![SLASH].is_prefix_of(path) {
        spec_scheme_root(cwd) + path
    } else {
        cwd + path
    }
}

/// Tells whether every mapping of the list lies inside the address space.
pub fn check_memory(memory: &Vec<ContextMemory>) -> (r: bool)
    ensures
        r == spec_memory_wf(memory@),
{
    let mut k: usize = 0;
    while k < memory.len()
        invariant
            k <= memory.len(),
            forall|j: int| 0 <= j < k ==> (#[trigger] memory@[j]).wf(),
        decreases memory.len() - k,
    {
        if !memory[k].check() {
            return false;
        }
        k += 1;
    }
    true
}

impl Context {
    /// Finds the next address at which memory can be mapped: the highest
    /// end of a mapping.
    pub fn next_mem(memory: &Vec<ContextMemory>) -> (next: usize)
        requires
            spec_memory_wf(memory@),
        ensures
            next == spec_next_mem(memory@, memory@.len() as int),
    {
        let mut next: usize = 0;
        let mut k: usize = 0;
        while k < memory.len()
            invariant
                k <= memory.len(),
                spec_memory_wf(memory@),
                next == spec_next_mem(memory@, k as int),
            decreases memory.len() - k,
        {
            let m = &memory[k];
            assert(m.wf());
            let pages = m.pages();
            let end: usize = m.virtual_address + pages * PAGE_SIZE;
            if next < end {
                next = end;
            }
            k += 1;
        }
        next
    }

    /// Translates `ptr` to a physical address, if it lies inside the user
    /// stack or a mapping.
    pub fn translate(&self, memory: &Vec<ContextMemory>, ptr: usize) -> (r: Option<usize>)
        requires
            self.wf(),
            spec_memory_wf(memory@),
        ensures
            r == spec_translate(self.stack, memory@, ptr),
    {
        if let Some(stack) = &self.stack {
            assert(stack.virtual_size <= stack.spec_pages() * PAGE_SIZE);
            if ptr >= stack.virtual_address && ptr < stack.virtual_address + stack.virtual_size {
                return Some(ptr - stack.virtual_address + stack.physical_address);
            }
        }
        let mut k: usize = 0;
        while k < memory.len()
            invariant
                k <= memory.len(),
                spec_memory_wf(memory@),
                !(self.stack is Some && self.stack->0.spec_contains(ptr)),
                spec_mapping_of(memory@, ptr, k as int) == spec_mapping_of(memory@, ptr, 0),
            decreases memory.len() - k,
        {
            let m = &memory[k];
            assert(m.wf());
            assert(m.virtual_size <= m.spec_pages() * PAGE_SIZE);
            if ptr >= m.virtual_address && ptr < m.virtual_address + m.virtual_size {
                return Some(ptr - m.virtual_address + m.physical_address);
            }
            k += 1;
        }
        None
    }

    /// Finds the mapping that starts at `ptr` and returns its position.
    pub fn get_mem(memory: &Vec<ContextMemory>, ptr: usize) -> (r: Option<usize>)
        ensures
            match r {
                Some(k) => spec_mapping_at(memory@, ptr, 0) == Some(k as int),
                None => spec_mapping_at(memory@, ptr, 0) is None,
            },
            r matches Some(k) ==> k < memory@.len() && memory@[k as int].virtual_address == ptr,
    {
        let mut k: usize = 0;
        while k < memory.len()
            invariant
                k <= memory.len(),
                spec_mapping_at(memory@, ptr, k as int) == spec_mapping_at(memory@, ptr, 0),
            decreases memory.len() - k,
        {
            if memory[k].virtual_address == ptr {
                return Some(k);
            }
            k += 1;
        }
        None
    }

    /// Finds the mapping that starts at `ptr`, to change it.
    pub fn get_mem_mut(memory: &mut Vec<ContextMemory>, ptr: usize) -> (r: Option<
        &mut ContextMemory,
    >)
        ensures
            match r {
                Some(m) => {
                    &&& spec_mapping_at(old(memory)@, ptr, 0) is Some
                    &&& *m == old(memory)@[spec_mapping_at(old(memory)@, ptr, 0)->0]
                    &&& final(memory)@ == old(memory)@.update(
                        spec_mapping_at(old(memory)@, ptr, 0)->0,
                        *final(m),
                    )
                },
                None => spec_mapping_at(old(memory)@, ptr, 0) is None && final(memory)@ == old(
                    memory,
                )@,
            },
    {
        match Context::get_mem(memory, ptr) {
            Some(k) => Some(&mut memory[k]),
            None => None,
        }
    }

    /// Removes the empty mappings.
    pub fn clean_mem(memory: &mut Vec<ContextMemory>)
        ensures
            final(memory)@ == spec_clean(old(memory)@),
    {
        let mut kept: Vec<ContextMemory> = Vec::new();
        let mut k: usize = 0;
        assert(old(memory)@.subrange(0, 0) =~= Seq::<ContextMemory>::empty());
        while k < memory.len()
            invariant
                k <= memory.len(),
                memory@ == old(memory)@,
                kept@ == spec_clean(memory@.subrange(0, k as int)),
            decreases memory.len() - k,
        {
            let m = memory[k];
            proof {
                let head = memory@.subrange(0, k as int);
                let pred = |m: ContextMemory| m.virtual_size != 0;
                assert(memory@.subrange(0, k + 1) =~= head + seq![m]);
                Seq::filter_distributes_over_add(head, seq![m], pred);
                reveal(Seq::filter);
                assert(seq![m].filter(pred) =~= if m.virtual_size != 0 {
                    seq![m]
                } else {
                    Seq::empty()
                }) by {
                    assert(seq![m].drop_last() =~= Seq::<ContextMemory>::empty());
                    assert(seq![m].drop_last().filter(pred) =~= Seq::<ContextMemory>::empty());
                }
            }
            if m.virtual_size != 0 {
                kept.push(m);
            }
            k += 1;
            assert(kept@ =~= spec_clean(memory@.subrange(0, k as int)));
        }
        assert(memory@.subrange(0, memory@.len() as int) =~= memory@);
        *memory = kept;
    }

    /// Finds the lowest file descriptor that no file of the list has.
    pub fn next_fd(files: &Vec<ContextFile>) -> (fd: usize)
        requires
            files.len() < usize::MAX,
        ensures
            spec_is_first_unused(spec_fds(files@), 0, fd as int),
    {
        let mut fds: Vec<usize> = Vec::new();
        let mut k: usize = 0;
        while k < files.len()
            invariant
                k <= files.len(),
                fds@ == spec_fds(files@.subrange(0, k as int)),
            decreases files.len() - k,
        {
            fds.push(files[k].fd);
            k += 1;
            assert(fds@ =~= spec_fds(files@.subrange(0, k as int)));
        }
        assert(files@.subrange(0, files@.len() as int) =~= files@);
        first_unused(&fds, 0)
    }

    /// Finds the file with descriptor `fd` and returns the handle of its
    /// resource.
    pub fn get_file(files: &Vec<ContextFile>, fd: usize) -> (r: Option<usize>)
        ensures
            match spec_file_at(files@, fd, 0) {
                Some(k) => r == Some(files@[k].resource),
                None => r is None,
            },
    {
        let mut k: usize = 0;
        while k < files.len()
            invariant
                k <= files.len(),
                spec_file_at(files@, fd, k as int) == spec_file_at(files@, fd, 0),
            decreases files.len() - k,
        {
            if files[k].fd == fd {
                return Some(files[k].resource);
            }
            k += 1;
        }
        None
    }

    /// Finds the position of the file with descriptor `fd`.
    fn file_position(files: &Vec<ContextFile>, fd: usize) -> (r: Option<usize>)
        ensures
            match r {
                Some(k) => spec_file_at(files@, fd, 0) == Some(k as int) && k < files@.len(),
                None => spec_file_at(files@, fd, 0) is None,
            },
    {
        let mut k: usize = 0;
        while k < files.len()
            invariant
                k <= files.len(),
                spec_file_at(files@, fd, k as int) == spec_file_at(files@, fd, 0),
            decreases files.len() - k,
        {
            if files[k].fd == fd {
                return Some(k);
            }
            k += 1;
        }
        None
    }

    /// Finds the file with descriptor `fd`, to change the handle of its
    /// resource.
    pub fn get_file_mut(files: &mut Vec<ContextFile>, fd: usize) -> (r: Option<&mut ContextFile>)
        ensures
            match r {
                Some(file) => {
                    &&& spec_file_at(old(files)@, fd, 0) is Some
                    &&& *file == old(files)@[spec_file_at(old(files)@, fd, 0)->0]
                    &&& final(files)@ == old(files)@.update(
                        spec_file_at(old(files)@, fd, 0)->0,
                        *final(file),
                    )
                },
                None => spec_file_at(old(files)@, fd, 0) is None && final(files)@ == old(files)@,
            },
    {
        match Context::file_position(files, fd) {
            Some(k) => Some(&mut files[k]),
            None => None,
        }
    }

    /// Makes `path` absolute for a unit that works in `cwd`.
    pub fn canonicalize(cwd: &[u8], path: &[u8]) -> (r: Vec<u8>)
        ensures
            r@ == spec_canonicalize(cwd@, path@),
    {
        let mut r: Vec<u8> = Vec::new();
        let parent: [u8; 3] = [DOT, DOT, SLASH];
        let here: [u8; 2] = [DOT, SLASH];
        let root: [u8; 1] = [SLASH];
        assert(parent@ =~= seq![DOT, DOT, SLASH]);
        assert(here@ =~= seq![DOT, SLASH]);
        assert(root@ =~= seq![SLASH]);
        if find(path, COLON).is_some() {
            push_range(&mut r, path, 0, path.len());
            assert(r@ =~= path@);
        } else if starts_with(path, parent.as_slice()) {
            let end: usize = if cwd.len() == 0 {
                0
            } else {
                match rfind_below(cwd, SLASH, cwd.len() - 1) {
                    Some(k) => k + 1,
                    None => cwd.len(),
                }
            };
            proof {
                crate::text::lemma_rfind_below(cwd@, SLASH, cwd@.len() - 1);
            }
            push_range(&mut r, cwd, 0, end);
            push_range(&mut r, path, 3, path.len());
            assert(r@ =~= spec_parent_dir(cwd@) + spec_skip(path@, 3));
        } else if starts_with(path, here.as_slice()) {
            push_range(&mut r, cwd, 0, cwd.len());
            push_range(&mut r, path, 2, path.len());
            assert(r@ =~= cwd@ + spec_skip(path@, 2));
        } else if starts_with(path, root.as_slice()) {
            let end: usize = match find(cwd, COLON) {
                Some(k) => {
                    assert(k < cwd.len());
                    k + 1
                },
                None => if cwd.len() >= 1 {
                    1
                } else {
                    0
                },
            };
            proof {
                crate::text::lemma_find_from(cwd@, COLON, 0);
            }
            push_range(&mut r, cwd, 0, end);
            push_range(&mut r, path, 0, path.len());
            assert(r@ =~= spec_scheme_root(cwd@) + path@);
        } else {
            push_range(&mut r, cwd, 0, cwd.len());
            push_range(&mut r, path, 0, path.len());
            assert(r@ =~= cwd@ + path@);
        }
        r
    }

    /// The actions that put the memory of the unit into the address space:
    /// the user stack first, then the mappings.
    pub open spec fn spec_map(&self, memory: Seq<ContextMemory>) -> Seq<PageAction> {
        (match self.stack {
            Some(stack) => stack.spec_map(),
            None => Seq::empty(),
        }) + spec_map_all(memory)
    }

    /// The actions that take the memory of the unit out of the address
    /// space: the mappings first, then the user stack.
    pub open spec fn spec_unmap(&self, memory: Seq<ContextMemory>) -> Seq<PageAction> {
        spec_unmap_all(memory) + (match self.stack {
            Some(stack) => stack.spec_unmap(),
            None => Seq::empty(),
        })
    }

    /// Lists the actions that put the memory of the unit into the address
    /// space.
    pub fn map(&self, memory: &Vec<ContextMemory>) -> (actions: Vec<PageAction>)
        requires
            self.wf(),
            spec_memory_wf(memory@),
        ensures
            actions@ == self.spec_map(memory@),
    {
        let mut actions: Vec<PageAction> = Vec::new();
        if let Some(stack) = &self.stack {
            stack.map(&mut actions);
        }
        let ghost head = actions@;
        let mut k: usize = 0;
        assert(memory@.subrange(0, 0) =~= Seq::<ContextMemory>::empty());
        assert(actions@ =~= head + spec_map_all(memory@.subrange(0, 0)));
        while k < memory.len()
            invariant
                k <= memory.len(),
                spec_memory_wf(memory@),
                actions@ == head + spec_map_all(memory@.subrange(0, k as int)),
            decreases memory.len() - k,
        {
            assert(memory@[k as int].wf());
            memory[k].map(&mut actions);
            k += 1;
            proof {
                let s = memory@.subrange(0, k as int);
                assert(s.drop_last() =~= memory@.subrange(0, k - 1));
                assert(actions@ =~= head + spec_map_all(s));
            }
        }
        assert(memory@.subrange(0, memory@.len() as int) =~= memory@);
        assert(head =~= match self.stack {
            Some(stack) => stack.spec_map(),
            None => Seq::empty(),
        });
        actions
    }

    /// Lists the actions that take the memory of the unit out of the address
    /// space.
    pub fn unmap(&self, memory: &Vec<ContextMemory>) -> (actions: Vec<PageAction>)
        requires
            self.wf(),
            spec_memory_wf(memory@),
        ensures
            actions@ == self.spec_unmap(memory@),
    {
        let mut actions: Vec<PageAction> = Vec::new();
        let mut k: usize = 0;
        assert(memory@.subrange(0, 0) =~= Seq::<ContextMemory>::empty());
        while k < memory.len()
            invariant
                k <= memory.len(),
                spec_memory_wf(memory@),
                actions@ == spec_unmap_all(memory@.subrange(0, k as int)),
            decreases memory.len() - k,
        {
            assert(memory@[k as int].wf());
            memory[k].unmap(&mut actions);
            k += 1;
            proof {
                let s = memory@.subrange(0, k as int);
                assert(s.drop_last() =~= memory@.subrange(0, k - 1));
            }
        }
        assert(memory@.subrange(0, memory@.len() as int) =~= memory@);
        if let Some(stack) = &self.stack {
            stack.unmap(&mut actions);
        } else {
            assert(actions@ =~= actions@ + Seq::<PageAction>::empty());
        }
        actions
    }

    /// Pushes a word onto the kernel stack of the unit: moves the saved
    /// stack pointer one word down and says what is to be written there.
    pub fn push(&mut self, data: usize) -> (write: StackWrite)
        requires
            old(self).sp >= WORD_SIZE,
        ensures
            *final(self) == (Context { sp: (old(self).sp - WORD_SIZE) as usize, ..*old(self) }),
            write == (StackWrite { address: final(self).sp, value: data }),
    {
        self.sp = self.sp - WORD_SIZE;
        StackWrite { address: self.sp, value: data }
    }

    /// Records the machine state that was saved for the unit.
    pub fn save(&mut self, sp: usize, flags: usize)
        ensures
            *final(self) == (Context { sp, flags, loadable: true, ..*old(self) }),
    {
        self.flags = flags;
        self.sp = sp;
        self.loadable = true;
    }

    /// The machine state that is to be loaded for the unit.
    pub fn restore(&self) -> (state: SavedState)
        ensures
            state == (SavedState {
                fx: if self.loadable {
                    Some(self.fx)
                } else {
                    None
                },
                sp: self.sp,
                flags: self.flags,
            }),
    {
        SavedState {
            fx: if self.loadable {
                Some(self.fx)
            } else {
                None
            },
            sp: self.sp,
            flags: self.flags,
        }
    }
}

// ---------------------------------------------------------------------------
// New units
// ---------------------------------------------------------------------------

/// The handles of the state that a unit may share with others.
#[derive(Clone, Copy, Debug, PartialEq, Eq, Structural)]
pub struct Handles {
    pub args: usize,
    pub cwd: usize,
    pub memory: usize,
    pub files: usize,
}

/// The words that a new unit finds on its kernel stack, from the top down:
/// its arguments in order, then the address of its entry.
pub open spec fn spec_initial_words(call: usize, args: Seq<usize>) -> Seq<usize> {
    args.push(call)
}

/// The writes that put `words` on a stack whose pointer stands at `top`:
/// word `k` goes `k + 1` words below `top`.
pub open spec fn spec_stack_writes(top: int, words: Seq<usize>) -> Seq<StackWrite> {
    Seq::new(
        words.len(),
        |k: int| StackWrite { address: (top - (k + 1) * WORD_SIZE) as usize, value: words[k] },
    )
}

/// The kernel stack at `kernel_stack` lies inside the address space, with
/// the room for the floating-point state behind it.
pub open spec fn spec_stack_fits(kernel_stack: usize) -> bool {
    kernel_stack > 0 && kernel_stack + CONTEXT_STACK_SIZE + CONTEXT_FX_SIZE <= usize::MAX
}

impl Context {
    /// The handles of the state that the unit may share.
    pub open spec fn spec_handles(&self) -> Handles {
        Handles { args: self.args, cwd: self.cwd, memory: self.memory, files: self.files }
    }

    /// The idle unit: it has no kernel stack of its own and never exits.
    pub fn root(pid: usize, fx: usize, handles: Handles) -> (unit: Context)
        ensures
            unit.wf(),
            unit.pid == pid,
            unit.ppid == 0,
            unit.name@ == seq![0x6Bu8, 0x69u8, 0x64u8, 0x6Cu8, 0x65u8],
            !unit.interrupted,
            !unit.exited,
            unit.slices == CONTEXT_SLICES,
            unit.slice_total == 0,
            unit.kernel_stack == 0,
            unit.sp == 0,
            unit.flags == 0,
            unit.fx == fx,
            unit.stack is None,
            !unit.loadable,
            unit.spec_handles() == handles,
            unit.statuses@.len() == 0,
    {
        let mut name: Vec<u8> = Vec::new();
        name.push(0x6B);
        name.push(0x69);
        name.push(0x64);
        name.push(0x6C);
        name.push(0x65);
        assert(name@ =~= seq![0x6Bu8, 0x69u8, 0x64u8, 0x6Cu8, 0x65u8]);
        Context {
            pid,
            ppid: 0,
            name,
            interrupted: false,
            exited: false,
            slices: CONTEXT_SLICES,
            slice_total: 0,
            kernel_stack: 0,
            sp: 0,
            flags: 0,
            fx,
            stack: None,
            loadable: false,
            args: handles.args,
            cwd: handles.cwd,
            memory: handles.memory,
            files: handles.files,
            statuses: Vec::new(),
        }
    }

    /// A unit that starts at `call` with `args` on its kernel stack, which
    /// lies at `kernel_stack`. Returns the unit and what is to be written to
    /// its stack.
    pub fn new(
        pid: usize,
        name: Vec<u8>,
        call: usize,
        args: &Vec<usize>,
        kernel_stack: usize,
        handles: Handles,
    ) -> (r: (Context, Vec<StackWrite>))
        requires
            spec_stack_fits(kernel_stack),
            (args.len() + 1) * WORD_SIZE <= CONTEXT_STACK_SIZE - CONTEXT_STACK_RESERVE,
        ensures
            r.0.wf(),
            r.0.pid == pid,
            r.0.ppid == 0,
            r.0.name == name,
            !r.0.interrupted,
            !r.0.exited,
            r.0.slices == CONTEXT_SLICES,
            r.0.slice_total == 0,
            r.0.kernel_stack == kernel_stack,
            r.0.sp == kernel_stack + CONTEXT_STACK_SIZE - CONTEXT_STACK_RESERVE - (args.len() + 1)
                * WORD_SIZE,
            r.0.flags == 0,
            r.0.fx == kernel_stack + CONTEXT_STACK_SIZE,
            r.0.stack is None,
            !r.0.loadable,
            r.0.spec_handles() == handles,
            r.0.statuses@.len() == 0,
            r.1@ == spec_stack_writes(
                kernel_stack + CONTEXT_STACK_SIZE - CONTEXT_STACK_RESERVE,
                spec_initial_words(call, args@),
            ),
    {
        let top: usize = kernel_stack + CONTEXT_STACK_SIZE - CONTEXT_STACK_RESERVE;
        let mut unit = Context {
            pid,
            ppid: 0,
            name,
            interrupted: false,
            exited: false,
            slices: CONTEXT_SLICES,
            slice_total: 0,
            kernel_stack,
            sp: top,
            flags: 0,
            fx: kernel_stack + CONTEXT_STACK_SIZE,
            stack: None,
            loadable: false,
            args: handles.args,
            cwd: handles.cwd,
            memory: handles.memory,
            files: handles.files,
            statuses: Vec::new(),
        };
        let ghost words = spec_initial_words(call, args@);
        let ghost first = unit;
        let mut writes: Vec<StackWrite> = Vec::new();
        let mut k: usize = 0;
        while k < args.len()
            invariant
                k <= args.len(),
                (args.len() + 1) * WORD_SIZE <= CONTEXT_STACK_SIZE - CONTEXT_STACK_RESERVE,
                top == kernel_stack + CONTEXT_STACK_SIZE - CONTEXT_STACK_RESERVE,
                unit == (Context { sp: (top - k * WORD_SIZE) as usize, ..first }),
                words == spec_initial_words(call, args@),
                writes@ == spec_stack_writes(top as int, words).subrange(0, k as int),
            decreases args.len() - k,
        {
            assert((k + 1) * WORD_SIZE <= (args.len() + 1) * WORD_SIZE) by (nonlinear_arith)
                requires
                    k < args.len(),
            ;
            assert((k + 1) * WORD_SIZE == k * WORD_SIZE + WORD_SIZE) by (nonlinear_arith);
            let write = unit.push(args[k]);
            writes.push(write);
            k += 1;
            assert(writes@ =~= spec_stack_writes(top as int, words).subrange(0, k as int));
        }
        assert((k + 1) * WORD_SIZE == k * WORD_SIZE + WORD_SIZE) by (nonlinear_arith);
        let write = unit.push(call);
        writes.push(write);
        assert(writes@ =~= spec_stack_writes(top as int, words));
        (unit, writes)
    }
}

} // verus!
