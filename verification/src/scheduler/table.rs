//! The table of execution units: round-robin selection, the removal of
//! exited units, and what the hardware is to do at a switch.

use vstd::prelude::*;
use crate::scheduler::context::{
    check_memory, first_unused, spec_is_first_unused, spec_memory_wf, spec_stack_fits, spec_stack_writes,
    spec_initial_words, Context, ContextFile, ContextMemory, ContextStatus, Handles, StackWrite,
    CLONE_FILES,
    CLONE_FS, CLONE_VM, CONTEXT_FX_SIZE, CONTEXT_SLICES, CONTEXT_STACK_RESERVE,
    CONTEXT_STACK_SIZE, PAGE_SIZE, PID_LIMIT, WORD_SIZE,
};
use crate::scheduler::shared::Shared;

verus! {

/// What the hardware is to do at a switch: save the state of unit `from`
/// and take its mappings out, point the kernel stack slot at `kernel_sp`,
/// put in the mappings of unit `to`, and load its state where `restore` is
/// set. Both are positions in the table after the switch.
#[derive(Clone, Copy, Debug, PartialEq, Eq, Structural)]
pub struct Transition {
    pub from: usize,
    pub to: usize,
    pub kernel_sp: usize,
    pub restore: bool,
}

/// What a switch did: the exited units that it removed, in the order in
/// which it met them, and the transition, if the current unit changed.
#[derive(Debug)]
pub struct SwitchOutcome {
    pub removed: Vec<Context>,
    pub transition: Option<Transition>,
}

/// The table of execution units. Exactly one unit, at `current`, is the
/// current one.
#[derive(Debug)]
pub struct ContextTable {
    /// The units, in scheduling order.
    pub contexts: Vec<Context>,
    /// The position of the current unit.
    pub current: usize,
    /// Switching is enabled.
    pub enabled: bool,
    /// Where the search for a free process identifier starts.
    pub next_pid: usize,
    /// The program arguments that the units refer to.
    pub args: Shared<Vec<Vec<u8>>>,
    /// The working directories that the units refer to.
    pub cwds: Shared<Vec<u8>>,
    /// The lists of memory mappings that the units refer to.
    pub memories: Shared<Vec<ContextMemory>>,
    /// The lists of open files that the units refer to.
    pub files: Shared<Vec<ContextFile>>,
}

/// What the scheduler decides on: the units and the position of the current
/// one.
pub struct TableState {
    pub units: Seq<Context>,
    pub current: int,
}

/// The first position in `from..to` whose unit has not exited; `to` where
/// every unit there has.
pub open spec fn spec_first_ready(units: Seq<Context>, from: int, to: int) -> int
    decreases to - from,
{
    if from >= to {
        to
    } else if !units[from].exited {
        from
    } else {
        spec_first_ready(units, from + 1, to)
    }
}

/// The first ready position lies in `from..to` or is `to`; the unit there
/// has not exited, and every unit before it has.
pub proof fn lemma_first_ready(units: Seq<Context>, from: int, to: int)
    requires
        0 <= from <= to <= units.len(),
    ensures
        from <= spec_first_ready(units, from, to) <= to,
        spec_first_ready(units, from, to) < to ==> !units[spec_first_ready(units, from, to)].exited,
        forall|k: int| from <= k < spec_first_ready(units, from, to) ==> (#[trigger] units[k]).exited,
    decreases to - from,
{
    if from < to && units[from].exited {
        lemma_first_ready(units, from + 1, to);
    }
}

/// The scan of a switch finds a unit behind the current one, without
/// wrapping round.
pub open spec fn spec_found_ahead(units: Seq<Context>, current: int) -> bool {
    spec_first_ready(units, current + 1, units.len() as int) < units.len()
}

/// The units that a switch removes, in the order of the scan: the exited
/// units behind the current one up to the first that is ready and, where
/// there is none, also those from the start of the table on.
pub open spec fn spec_removed(units: Seq<Context>, current: int) -> Seq<Context> {
    let n = units.len() as int;
    if spec_found_ahead(units, current) {
        units.subrange(current + 1, spec_first_ready(units, current + 1, n))
    } else {
        units.subrange(current + 1, n) + units.subrange(
            0,
            spec_first_ready(units, 0, current + 1),
        )
    }
}

/// The units that a switch leaves in the table, in their old order.
pub open spec fn spec_survivors(units: Seq<Context>, current: int) -> Seq<Context> {
    let n = units.len() as int;
    if spec_found_ahead(units, current) {
        units.subrange(0, current + 1) + units.subrange(
            spec_first_ready(units, current + 1, n),
            n,
        )
    } else {
        units.subrange(spec_first_ready(units, 0, current + 1), current + 1)
    }
}

/// The position, among the survivors, of the unit that a switch selects.
pub open spec fn spec_selected(units: Seq<Context>, current: int) -> int {
    if spec_found_ahead(units, current) {
        current + 1
    } else {
        0
    }
}

/// The position, among the survivors, of the unit that was current before
/// the switch.
pub open spec fn spec_outgoing(units: Seq<Context>, current: int) -> int {
    if spec_found_ahead(units, current) {
        current
    } else {
        current - spec_first_ready(units, 0, current + 1)
    }
}

/// A switch selects another unit than the current one.
pub open spec fn spec_changes(units: Seq<Context>, current: int) -> bool {
    spec_found_ahead(units, current) || spec_first_ready(units, 0, current + 1) < current
}

/// The unit that is switched away from: marked as interrupted or not, and
/// its state saved.
pub open spec fn spec_left(unit: Context, interrupted: bool) -> Context {
    Context { interrupted, loadable: true, ..unit }
}

/// The unit that is switched to: a fresh count of slices, one more after a
/// voluntary switch than after a forced one.
pub open spec fn spec_entered(unit: Context, interrupted: bool) -> Context {
    Context {
        interrupted: false,
        slices: if interrupted {
            CONTEXT_SLICES
        } else {
            (CONTEXT_SLICES + 1) as usize
        },
        ..unit
    }
}

/// The table after a switch.
pub open spec fn spec_switch_units(units: Seq<Context>, current: int, interrupted: bool) -> Seq<
    Context,
> {
    let kept = spec_survivors(units, current);
    if spec_changes(units, current) {
        let from = spec_outgoing(units, current);
        let to = spec_selected(units, current);
        kept.update(from, spec_left(kept[from], interrupted)).update(
            to,
            spec_entered(kept[to], interrupted),
        )
    } else {
        kept
    }
}

/// The transition of a switch.
pub open spec fn spec_transition(units: Seq<Context>, current: int) -> Option<Transition> {
    if spec_changes(units, current) {
        let kept = spec_survivors(units, current);
        let to = spec_selected(units, current);
        Some(
            Transition {
                from: spec_outgoing(units, current) as usize,
                to: to as usize,
                kernel_sp: kept[to].spec_kernel_sp(),
                restore: kept[to].loadable,
            },
        )
    } else {
        None
    }
}

/// One switch, on a table that holds a unit.
pub open spec fn spec_step(s: TableState, interrupted: bool) -> TableState {
    if s.units.len() == 0 {
        s
    } else {
        TableState {
            units: spec_switch_units(s.units, s.current, interrupted),
            current: spec_selected(s.units, s.current),
        }
    }
}

/// Finds the first unit in `from..to` that has not exited.
fn first_ready(units: &Vec<Context>, from: usize, to: usize) -> (r: usize)
    requires
        from <= to <= units.len(),
    ensures
        r == spec_first_ready(units@, from as int, to as int),
        from <= r <= to,
{
    let mut k: usize = from;
    while k < to
        invariant
            from <= k <= to <= units.len(),
            spec_first_ready(units@, k as int, to as int) == spec_first_ready(
                units@,
                from as int,
                to as int,
            ),
        decreases to - k,
    {
        if !units[k].exited {
            return k;
        }
        k += 1;
    }
    k
}

impl ContextTable {
    /// The handles of `unit` reach values.
    pub open spec fn spec_handles_live(&self, unit: Context) -> bool {
        &&& self.args.spec_live(unit.args)
        &&& self.cwds.spec_live(unit.cwd)
        &&& self.memories.spec_live(unit.memory)
        &&& self.files.spec_live(unit.files)
    }

    /// The current position lies in the table, every unit is well formed
    /// and its handles reach values, and every mapping lies inside the
    /// address space.
    pub open spec fn wf(&self) -> bool {
        &&& self.contexts.len() == 0 ==> self.current == 0
        &&& self.contexts.len() > 0 ==> self.current < self.contexts.len()
        &&& forall|k: int|
            0 <= k < self.contexts.len() ==> (#[trigger] self.contexts[k]).wf()
                && self.spec_handles_live(self.contexts[k])
        &&& forall|h: usize| #[trigger]
            self.memories.spec_live(h) ==> spec_memory_wf(self.memories.spec_get(h)@)
        &&& self.next_pid < PID_LIMIT
    }

    /// The state that the units share is the same in both tables.
    pub open spec fn spec_same_shares(&self, other: &ContextTable) -> bool {
        &&& self.args == other.args
        &&& self.cwds == other.cwds
        &&& self.memories == other.memories
        &&& self.files == other.files
    }

    /// The units and the position of the current one.
    pub open spec fn state(&self) -> TableState {
        TableState { units: self.contexts@, current: self.current as int }
    }

    /// A switch changes the table: switching is enabled and there is a unit.
    pub open spec fn spec_active(&self) -> bool {
        self.enabled && self.contexts.len() > 0
    }

    /// An empty table, with switching disabled.
    pub fn new() -> (table: ContextTable)
        ensures
            table.wf(),
            table.contexts@.len() == 0,
            table.current == 0,
            !table.enabled,
            table.next_pid == 0,
    {
        ContextTable {
            contexts: Vec::new(),
            current: 0,
            enabled: false,
            next_pid: 0,
            args: Shared::new(),
            cwds: Shared::new(),
            memories: Shared::new(),
            files: Shared::new(),
        }
    }
}

/// Gives the processor to the next unit in the table that has not
/// exited, and removes the exited units met on the way. Where another
/// unit is selected, the one left is marked and the one entered gets a
/// fresh count of slices.
pub fn context_switch(table: &mut ContextTable, interrupted: bool) -> (outcome: SwitchOutcome)
    requires
        old(table).wf(),
    ensures
        final(table).wf(),
        final(table).enabled == old(table).enabled,
        final(table).next_pid == old(table).next_pid,
        final(table).spec_same_shares(old(table)),
        !old(table).spec_active() ==> {
            &&& final(table).contexts@ == old(table).contexts@
            &&& final(table).current == old(table).current
            &&& outcome.removed@.len() == 0
            &&& outcome.transition is None
        },
        old(table).enabled ==> final(table).state() == spec_step(old(table).state(), interrupted),
        old(table).spec_active() ==> {
            &&& final(table).contexts@ == spec_switch_units(
                old(table).contexts@,
                old(table).current as int,
                interrupted,
            )
            &&& final(table).current == spec_selected(
                old(table).contexts@,
                old(table).current as int,
            )
            &&& outcome.removed@ == spec_removed(old(table).contexts@, old(table).current as int)
            &&& outcome.transition == spec_transition(
                old(table).contexts@,
                old(table).current as int,
            )
        },
{
    if !table.enabled || table.contexts.len() == 0 {
        return SwitchOutcome { removed: Vec::new(), transition: None };
    }
    let ghost units = table.contexts@;
    let ghost c = table.current as int;
    let (removed, from) = sweep(table);
    let ghost kept = table.contexts@;
    let transition = match from {
        Some(from) => {
            let to = table.current;
            let kernel_sp = table.contexts[to].kernel_sp();
            let restore = table.contexts[to].loadable;
            table.contexts[from].interrupted = interrupted;
            table.contexts[from].loadable = true;
            table.contexts[to].interrupted = false;
            table.contexts[to].slices = if interrupted {
                CONTEXT_SLICES
            } else {
                CONTEXT_SLICES + 1
            };
            assert(table.contexts@[from as int] == spec_left(kept[from as int], interrupted));
            assert(table.contexts@[to as int] == spec_entered(kept[to as int], interrupted));
            assert(table.contexts@ =~= kept.update(
                from as int,
                spec_left(kept[from as int], interrupted),
            ).update(to as int, spec_entered(kept[to as int], interrupted)));
            Some(Transition { from, to, kernel_sp, restore })
        },
        None => None,
    };
    assert(table.contexts@ =~= spec_switch_units(units, c, interrupted));
    SwitchOutcome { removed, transition }
}

/// Takes the exited units that the scan of a switch meets out of the
/// table, and moves the current position to the unit that the scan
/// selects. Returns the units taken out and, where another unit is
/// selected, the position of the unit that was current.
#[verifier::rlimit(30)]
fn sweep(table: &mut ContextTable) -> (r: (Vec<Context>, Option<usize>))
    requires
        old(table).wf(),
        old(table).contexts@.len() > 0,
    ensures
        final(table).wf(),
        final(table).enabled == old(table).enabled,
        final(table).next_pid == old(table).next_pid,
        final(table).spec_same_shares(old(table)),
        final(table).contexts@ == spec_survivors(old(table).contexts@, old(table).current as int),
        final(table).current == spec_selected(old(table).contexts@, old(table).current as int),
        r.0@ == spec_removed(old(table).contexts@, old(table).current as int),
        r.1 is Some == spec_changes(old(table).contexts@, old(table).current as int),
        r.1 matches Some(from) ==> from == spec_outgoing(
            old(table).contexts@,
            old(table).current as int,
        ) && from < final(table).contexts@.len() && final(table).current
            < final(table).contexts@.len() && from != final(table).current,
{
    let ghost units = table.contexts@;
    let n = table.contexts.len();
    let c = table.current;
    let ahead = first_ready(&table.contexts, c + 1, n);
    let mut removed: Vec<Context>;
    let from: Option<usize>;
    proof {
        lemma_first_ready(units, c + 1, n as int);
        lemma_first_ready(units, 0, c + 1);
    }
    if ahead < n {
        let mut tail = table.contexts.split_off(ahead);
        removed = table.contexts.split_off(c + 1);
        table.contexts.append(&mut tail);
        table.current = c + 1;
        from = Some(c);
    } else {
        let first = first_ready(&table.contexts, 0, c + 1);
        removed = table.contexts.split_off(c + 1);
        let mut kept = table.contexts.split_off(first);
        removed.append(&mut table.contexts);
        table.contexts.append(&mut kept);
        table.current = 0;
        from = if first < c {
            Some(c - first)
        } else {
            None
        };
    }
    assert(table.contexts@ =~= spec_survivors(units, c as int));
    assert(removed@ =~= spec_removed(units, c as int));
    assert forall|k: int| 0 <= k < table.contexts.len() implies (#[trigger] table.contexts[k]).wf()
        && table.spec_handles_live(table.contexts[k]) by {
        if ahead < n {
            if k <= c {
                assert(table.contexts[k] == units[k]);
            } else {
                assert(table.contexts[k] == units[k - (c + 1) + ahead]);
            }
        } else {
            let first = spec_first_ready(units, 0, c + 1);
            assert(table.contexts[k] == units[k + first]);
        }
    }
    (removed, from)
}

/// The process identifiers of the units, in order.
pub open spec fn spec_pids(units: Seq<Context>) -> Seq<usize> {
    units.map_values(|unit: Context| unit.pid)
}

/// The unit after a tick of the timer: with one slice less, down to none,
/// and one more slice used.
pub open spec fn spec_ticked(unit: Context) -> Context {
    Context {
        slices: if unit.slices > 0 {
            (unit.slices - 1) as usize
        } else {
            0
        },
        slice_total: if unit.slice_total < usize::MAX {
            (unit.slice_total + 1) as usize
        } else {
            unit.slice_total
        },
        ..unit
    }
}

/// The unit that has exited.
pub open spec fn spec_exited(unit: Context) -> Context {
    Context { exited: true, ..unit }
}

/// The first position from `from` on whose unit has the process identifier
/// `pid`.
pub open spec fn spec_find_pid(units: Seq<Context>, pid: usize, from: int) -> Option<int>
    decreases units.len() - from,
{
    if from < 0 || from >= units.len() {
        None
    } else if units[from].pid == pid {
        Some(from)
    } else {
        spec_find_pid(units, pid, from + 1)
    }
}

/// A unit behind the first of the table was switched away from by the
/// timer: it has work to do.
pub open spec fn spec_any_interrupted(units: Seq<Context>) -> bool {
    exists|k: int| 1 <= k < units.len() && (#[trigger] units[k]).interrupted
}

/// One kind of state that units may share.
#[derive(Clone, Copy, Debug, PartialEq, Eq, Structural)]
pub enum ShareKind {
    Args,
    Cwd,
    Memory,
    Files,
}

/// The handle of `unit` for state of `kind`.
pub open spec fn spec_handle(unit: Context, kind: ShareKind) -> usize {
    match kind {
        ShareKind::Args => unit.args,
        ShareKind::Cwd => unit.cwd,
        ShareKind::Memory => unit.memory,
        ShareKind::Files => unit.files,
    }
}

/// A unit among `units` refers to the state of `kind` that `h` reaches.
pub open spec fn spec_handle_used(units: Seq<Context>, kind: ShareKind, h: usize) -> bool {
    exists|k: int| 0 <= k < units.len() && spec_handle(#[trigger] units[k], kind) == h
}

/// What a removed unit leaves to be freed: the state that no unit of the
/// table refers to any more, its kernel stack, and its user stack.
#[derive(Debug)]
pub struct Reclaimed {
    pub args: Option<Vec<Vec<u8>>>,
    pub cwd: Option<Vec<u8>>,
    pub memory: Option<Vec<ContextMemory>>,
    pub files: Option<Vec<ContextFile>>,
    pub kernel_stack: usize,
    pub stack: Option<ContextMemory>,
}

impl ContextTable {
    /// Everything but the units and the current position is the same in
    /// both tables.
    pub open spec fn spec_same_frame(&self, other: &ContextTable) -> bool {
        &&& self.enabled == other.enabled
        &&& self.next_pid == other.next_pid
        &&& self.spec_same_shares(other)
    }

    /// Tells whether the table is well formed.
    pub fn check(&self) -> (r: bool)
        ensures
            r == self.wf(),
    {
        if self.contexts.len() == 0 {
            if self.current != 0 {
                return false;
            }
        } else if self.current >= self.contexts.len() {
            return false;
        }
        if self.next_pid >= PID_LIMIT {
            return false;
        }
        let mut k: usize = 0;
        while k < self.contexts.len()
            invariant
                k <= self.contexts.len(),
                forall|j: int|
                    0 <= j < k ==> (#[trigger] self.contexts[j]).wf() && self.spec_handles_live(
                        self.contexts[j],
                    ),
            decreases self.contexts.len() - k,
        {
            let unit = &self.contexts[k];
            if !unit.check() || self.args.get(unit.args).is_none() || self.cwds.get(
                unit.cwd,
            ).is_none() || self.memories.get(unit.memory).is_none() || self.files.get(
                unit.files,
            ).is_none() {
                return false;
            }
            k += 1;
        }
        let mut h: usize = 0;
        while h < self.memories.slots.len()
            invariant
                h <= self.memories.slots.len(),
                forall|j: usize|
                    j < h && #[trigger] self.memories.spec_live(j) ==> spec_memory_wf(
                        self.memories.spec_get(j)@,
                    ),
            decreases self.memories.slots.len() - h,
        {
            if let Some(memory) = self.memories.get(h) {
                if !check_memory(memory) {
                    return false;
                }
            }
            h += 1;
        }
        true
    }

    /// Enables switching.
    pub fn enable(&mut self)
        ensures
            final(self).enabled,
            final(self).contexts == old(self).contexts,
            final(self).current == old(self).current,
            final(self).next_pid == old(self).next_pid,
            final(self).spec_same_shares(old(self)),
    {
        self.enabled = true;
    }

    /// The position of the current unit.
    pub fn current_i(&self) -> (i: usize)
        ensures
            i == self.current,
    {
        self.current
    }

    /// The current unit, where switching is enabled and the table holds it.
    pub fn current(&self) -> (r: Option<&Context>)
        ensures
            match r {
                Some(unit) => self.enabled && self.current < self.contexts@.len() && *unit
                    == self.contexts@[self.current as int],
                None => !self.enabled || self.current >= self.contexts@.len(),
            },
    {
        if self.enabled && self.current < self.contexts.len() {
            Some(&self.contexts[self.current])
        } else {
            None
        }
    }

    /// The current unit, to change it, where switching is enabled and the
    /// table holds it.
    pub fn current_mut(&mut self) -> (r: Option<&mut Context>)
        ensures
            match r {
                Some(unit) => {
                    &&& old(self).enabled
                    &&& old(self).current < old(self).contexts@.len()
                    &&& *unit == old(self).contexts@[old(self).current as int]
                    &&& final(self).contexts@ == old(self).contexts@.update(
                        old(self).current as int,
                        *final(unit),
                    )
                    &&& final(self).current == old(self).current
                    &&& final(self).spec_same_frame(old(self))
                },
                None => (!old(self).enabled || old(self).current >= old(self).contexts@.len())
                    && *final(self) == *old(self),
            },
    {
        if self.enabled && self.current < self.contexts.len() {
            let i = self.current;
            Some(&mut self.contexts[i])
        } else {
            None
        }
    }

    /// Gives out the lowest process identifier from the search start on that
    /// no unit has, and moves the search start behind it, back to 1 at the
    /// limit.
    pub fn next_pid(&mut self) -> (pid: usize)
        requires
            old(self).wf(),
            old(self).contexts.len() + PID_LIMIT < usize::MAX,
        ensures
            final(self).wf(),
            spec_is_first_unused(spec_pids(old(self).contexts@), old(self).next_pid as int, pid as int),
            final(self).next_pid == if pid + 1 >= PID_LIMIT {
                1
            } else {
                pid + 1
            },
            final(self).contexts == old(self).contexts,
            final(self).current == old(self).current,
            final(self).enabled == old(self).enabled,
            final(self).spec_same_shares(old(self)),
    {
        let mut pids: Vec<usize> = Vec::new();
        let mut k: usize = 0;
        while k < self.contexts.len()
            invariant
                k <= self.contexts.len(),
                pids@ == spec_pids(self.contexts@.subrange(0, k as int)),
            decreases self.contexts.len() - k,
        {
            pids.push(self.contexts[k].pid);
            k += 1;
            assert(pids@ =~= spec_pids(self.contexts@.subrange(0, k as int)));
        }
        assert(self.contexts@.subrange(0, self.contexts@.len() as int) =~= self.contexts@);
        let pid = first_unused(&pids, self.next_pid);
        self.next_pid = if pid + 1 >= PID_LIMIT {
            1
        } else {
            pid + 1
        };
        pid
    }

    /// Appends `unit` to the table. It is not the current unit and gets the
    /// processor in its turn.
    pub fn push(&mut self, unit: Context)
        requires
            old(self).wf(),
            unit.wf(),
            old(self).spec_handles_live(unit),
        ensures
            final(self).wf(),
            final(self).contexts@ == old(self).contexts@.push(unit),
            final(self).current == old(self).current,
            final(self).spec_same_frame(old(self)),
    {
        self.contexts.push(unit);
    }

    /// Adds the idle unit, with state of its own that is empty.
    pub fn add_root(&mut self, fx: usize) -> (pid: usize)
        requires
            old(self).wf(),
            old(self).contexts.len() + PID_LIMIT < usize::MAX,
        ensures
            final(self).wf(),
            spec_is_first_unused(spec_pids(old(self).contexts@), old(self).next_pid as int, pid as int),
            final(self).contexts@.len() == old(self).contexts@.len() + 1,
            final(self).contexts@.drop_last() == old(self).contexts@,
            final(self).contexts@.last().pid == pid,
            final(self).contexts@.last().kernel_stack == 0,
            final(self).contexts@.last().fx == fx,
            !final(self).contexts@.last().exited,
            final(self).spec_owns_empty_state(final(self).contexts@.last()),
            final(self).current == old(self).current,
            final(self).enabled == old(self).enabled,
    {
        let pid = self.next_pid();
        let handles = self.fresh_handles();
        let unit = Context::root(pid, fx, handles);
        self.contexts.push(unit);
        assert(self.contexts@.drop_last() =~= old(self).contexts@);
        pid
    }

    /// The state that `unit` refers to is empty.
    pub open spec fn spec_owns_empty_state(&self, unit: Context) -> bool {
        &&& self.spec_handles_live(unit)
        &&& self.args.spec_get(unit.args)@.len() == 0
        &&& self.cwds.spec_get(unit.cwd)@.len() == 0
        &&& self.memories.spec_get(unit.memory)@.len() == 0
        &&& self.files.spec_get(unit.files)@.len() == 0
    }

    /// Makes empty state of each kind and returns its handles.
    fn fresh_handles(&mut self) -> (handles: Handles)
        requires
            old(self).wf(),
        ensures
            final(self).wf(),
            final(self).contexts == old(self).contexts,
            final(self).current == old(self).current,
            final(self).enabled == old(self).enabled,
            final(self).next_pid == old(self).next_pid,
            !old(self).args.spec_live(handles.args),
            !old(self).cwds.spec_live(handles.cwd),
            !old(self).memories.spec_live(handles.memory),
            !old(self).files.spec_live(handles.files),
            final(self).args.spec_live(handles.args),
            final(self).cwds.spec_live(handles.cwd),
            final(self).memories.spec_live(handles.memory),
            final(self).files.spec_live(handles.files),
            final(self).args.spec_get(handles.args)@.len() == 0,
            final(self).cwds.spec_get(handles.cwd)@.len() == 0,
            final(self).memories.spec_get(handles.memory)@.len() == 0,
            final(self).files.spec_get(handles.files)@.len() == 0,
            forall|unit: Context| #[trigger]
                old(self).spec_handles_live(unit) ==> final(self).spec_handles_live(unit),
    {
        let args = self.args.insert(Vec::new());
        let cwd = self.cwds.insert(Vec::new());
        let memory = self.memories.insert(Vec::new());
        let files = self.files.insert(Vec::new());
        Handles { args, cwd, memory, files }
    }

    /// Adds a unit that starts at `call` with `args` on its kernel stack,
    /// with state of its own that is empty. Returns its process identifier
    /// and what is to be written to its stack.
    pub fn spawn(&mut self, name: Vec<u8>, call: usize, args: &Vec<usize>, kernel_stack: usize) -> (r:
        (usize, Vec<StackWrite>))
        requires
            old(self).wf(),
            old(self).contexts.len() + PID_LIMIT < usize::MAX,
            spec_stack_fits(kernel_stack),
            (args.len() + 1) * WORD_SIZE <= CONTEXT_STACK_SIZE - CONTEXT_STACK_RESERVE,
        ensures
            final(self).wf(),
            spec_is_first_unused(spec_pids(old(self).contexts@), old(self).next_pid as int, r.0 as int),
            final(self).contexts@.len() == old(self).contexts@.len() + 1,
            final(self).contexts@.drop_last() == old(self).contexts@,
            final(self).contexts@.last().pid == r.0,
            final(self).contexts@.last().name == name,
            final(self).contexts@.last().kernel_stack == kernel_stack,
            final(self).contexts@.last().sp == kernel_stack + CONTEXT_STACK_SIZE
                - CONTEXT_STACK_RESERVE - (args.len() + 1) * WORD_SIZE,
            !final(self).contexts@.last().exited,
            !final(self).contexts@.last().loadable,
            final(self).spec_owns_empty_state(final(self).contexts@.last()),
            r.1@ == spec_stack_writes(
                kernel_stack + CONTEXT_STACK_SIZE - CONTEXT_STACK_RESERVE,
                spec_initial_words(call, args@),
            ),
            final(self).current == old(self).current,
            final(self).enabled == old(self).enabled,
    {
        let pid = self.next_pid();
        let handles = self.fresh_handles();
        let (unit, writes) = Context::new(pid, name, call, args, kernel_stack, handles);
        self.contexts.push(unit);
        assert(self.contexts@.drop_last() =~= old(self).contexts@);
        (pid, writes)
    }

    /// Whether `after` and `outcome` are what a timer tick makes of this
    /// table: the current unit has lost a slice and, where none was left,
    /// the table has switched as the timer does. A table that is not
    /// switching stays as it is.
    pub open spec fn spec_tick(&self, after: &ContextTable, outcome: &SwitchOutcome) -> bool {
        &&& after.wf()
        &&& after.spec_same_frame(self)
        &&& !self.spec_active() ==> {
            &&& after.contexts@ == self.contexts@
            &&& after.current == self.current
            &&& outcome.removed@.len() == 0
            &&& outcome.transition is None
        }
        &&& self.spec_active() ==> {
            let c = self.current as int;
            let ticked = self.contexts@.update(c, spec_ticked(self.contexts@[c]));
            if ticked[c].slices == 0 {
                &&& after.state() == spec_step(TableState { units: ticked, current: c }, true)
                &&& outcome.removed@ == spec_removed(ticked, c)
                &&& outcome.transition == spec_transition(ticked, c)
            } else {
                &&& after.contexts@ == ticked
                &&& after.current == c
                &&& outcome.removed@.len() == 0
                &&& outcome.transition is None
            }
        }
    }

    /// The timer tick: takes one slice from the current unit and, where none
    /// is left, switches as the timer does.
    pub fn tick(&mut self) -> (outcome: SwitchOutcome)
        requires
            old(self).wf(),
        ensures
            old(self).spec_tick(final(self), &outcome),
    {
        if !self.enabled || self.contexts.len() == 0 {
            return SwitchOutcome { removed: Vec::new(), transition: None };
        }
        let c = self.current;
        if self.contexts[c].slices > 0 {
            self.contexts[c].slices = self.contexts[c].slices - 1;
        }
        if self.contexts[c].slice_total < usize::MAX {
            self.contexts[c].slice_total = self.contexts[c].slice_total + 1;
        }
        assert(self.contexts@ =~= old(self).contexts@.update(
            c as int,
            spec_ticked(old(self).contexts@[c as int]),
        ));
        if self.contexts[c].slices == 0 {
            context_switch(self, true)
        } else {
            SwitchOutcome { removed: Vec::new(), transition: None }
        }
    }

    /// Tells whether the idle unit may halt the processor until the next
    /// interrupt: no unit behind the first of the table was switched away
    /// from by the timer.
    pub fn may_halt(&self) -> (halt: bool)
        ensures
            halt == !spec_any_interrupted(self.contexts@),
    {
        let mut k: usize = 1;
        while k < self.contexts.len()
            invariant
                1 <= k,
                forall|j: int| 1 <= j < k && j < self.contexts@.len() ==> !(
                #[trigger] self.contexts@[j]).interrupted,
            decreases self.contexts.len() - k,
        {
            if self.contexts[k].interrupted {
                return false;
            }
            k += 1;
        }
        true
    }

    /// Finds the first unit with the process identifier `pid`.
    pub fn find_pid(&self, pid: usize) -> (r: Option<usize>)
        ensures
            match r {
                Some(k) => spec_find_pid(self.contexts@, pid, 0) == Some(k as int) && k
                    < self.contexts@.len(),
                None => spec_find_pid(self.contexts@, pid, 0) is None,
            },
    {
        let mut k: usize = 0;
        while k < self.contexts.len()
            invariant
                k <= self.contexts.len(),
                spec_find_pid(self.contexts@, pid, k as int) == spec_find_pid(self.contexts@, pid, 0),
            decreases self.contexts.len() - k,
        {
            if self.contexts[k].pid == pid {
                return Some(k);
            }
            k += 1;
        }
        None
    }

    /// The current unit exits with `status`: it is marked as exited, to be
    /// removed by a later switch, and its parent, where the table holds it,
    /// gets the status. Returns false, and changes nothing, where no unit
    /// is current.
    pub fn exit(&mut self, status: usize) -> (r: bool)
        requires
            old(self).wf(),
        ensures
            final(self).wf(),
            final(self).current == old(self).current,
            final(self).spec_same_frame(old(self)),
            r == old(self).spec_active(),
            !r ==> final(self).contexts@ == old(self).contexts@,
            r ==> {
                let c = old(self).current as int;
                let before = old(self).contexts@;
                let marked = before.update(c, spec_exited(before[c]));
                &&& final(self).contexts@.len() == before.len()
                &&& match spec_find_pid(marked, before[c].ppid, 0) {
                    Some(p) => {
                        &&& final(self).contexts@[p].statuses@ == marked[p].statuses@.push(
                            ContextStatus { pid: before[c].pid, status },
                        )
                        &&& final(self).contexts@[p].exited == marked[p].exited
                        &&& final(self).contexts@[p].pid == marked[p].pid
                        &&& forall|k: int|
                            0 <= k < before.len() && k != p ==> final(self).contexts@[k]
                                == marked[k]
                    },
                    None => final(self).contexts@ == marked,
                }
            },
    {
        if !self.enabled || self.contexts.len() == 0 {
            return false;
        }
        let c = self.current;
        let pid = self.contexts[c].pid;
        let ppid = self.contexts[c].ppid;
        self.contexts[c].exited = true;
        assert(self.contexts@ =~= old(self).contexts@.update(
            c as int,
            spec_exited(old(self).contexts@[c as int]),
        ));
        if let Some(p) = self.find_pid(ppid) {
            self.contexts[p].statuses.push(ContextStatus { pid, status });
        }
        true
    }

    /// Tells whether a unit of the table refers to the state of `kind` that
    /// `h` reaches.
    pub fn handle_used(&self, kind: ShareKind, h: usize) -> (used: bool)
        ensures
            used == spec_handle_used(self.contexts@, kind, h),
    {
        let mut k: usize = 0;
        while k < self.contexts.len()
            invariant
                k <= self.contexts.len(),
                forall|j: int| 0 <= j < k ==> spec_handle(#[trigger] self.contexts@[j], kind) != h,
            decreases self.contexts.len() - k,
        {
            let unit = &self.contexts[k];
            let handle = match kind {
                ShareKind::Args => unit.args,
                ShareKind::Cwd => unit.cwd,
                ShareKind::Memory => unit.memory,
                ShareKind::Files => unit.files,
            };
            if handle == h {
                return true;
            }
            k += 1;
        }
        false
    }

    /// Frees what a removed unit leaves behind: the state of each kind that
    /// no unit of the table refers to any more is taken out of its store.
    pub fn reclaim(&mut self, unit: Context) -> (r: Reclaimed)
        requires
            old(self).wf(),
        ensures
            final(self).wf(),
            final(self).contexts == old(self).contexts,
            final(self).current == old(self).current,
            final(self).enabled == old(self).enabled,
            final(self).next_pid == old(self).next_pid,
            r.kernel_stack == unit.kernel_stack,
            r.stack == unit.stack,
            spec_handle_used(old(self).contexts@, ShareKind::Args, unit.args) ==> r.args is None
                && final(self).args == old(self).args,
            !spec_handle_used(old(self).contexts@, ShareKind::Args, unit.args) ==> {
                &&& !final(self).args.spec_live(unit.args)
                &&& r.args is Some == old(self).args.spec_live(unit.args)
                &&& r.args is Some ==> r.args->0 == old(self).args.spec_get(unit.args)
            },
            spec_handle_used(old(self).contexts@, ShareKind::Cwd, unit.cwd) ==> r.cwd is None
                && final(self).cwds == old(self).cwds,
            !spec_handle_used(old(self).contexts@, ShareKind::Cwd, unit.cwd) ==> {
                &&& !final(self).cwds.spec_live(unit.cwd)
                &&& r.cwd is Some == old(self).cwds.spec_live(unit.cwd)
                &&& r.cwd is Some ==> r.cwd->0 == old(self).cwds.spec_get(unit.cwd)
            },
            spec_handle_used(old(self).contexts@, ShareKind::Memory, unit.memory) ==> r.memory
                is None && final(self).memories == old(self).memories,
            !spec_handle_used(old(self).contexts@, ShareKind::Memory, unit.memory) ==> {
                &&& !final(self).memories.spec_live(unit.memory)
                &&& r.memory is Some == old(self).memories.spec_live(unit.memory)
                &&& r.memory is Some ==> r.memory->0 == old(self).memories.spec_get(unit.memory)
            },
            spec_handle_used(old(self).contexts@, ShareKind::Files, unit.files) ==> r.files is None
                && final(self).files == old(self).files,
            !spec_handle_used(old(self).contexts@, ShareKind::Files, unit.files) ==> {
                &&& !final(self).files.spec_live(unit.files)
                &&& r.files is Some == old(self).files.spec_live(unit.files)
                &&& r.files is Some ==> r.files->0 == old(self).files.spec_get(unit.files)
            },
    {
        let args = if self.handle_used(ShareKind::Args, unit.args) {
            None
        } else {
            self.args.remove(unit.args)
        };
        let cwd = if self.handle_used(ShareKind::Cwd, unit.cwd) {
            None
        } else {
            self.cwds.remove(unit.cwd)
        };
        let memory = if self.handle_used(ShareKind::Memory, unit.memory) {
            None
        } else {
            self.memories.remove(unit.memory)
        };
        let files = if self.handle_used(ShareKind::Files, unit.files) {
            None
        } else {
            self.files.remove(unit.files)
        };
        assert forall|k: int| 0 <= k < self.contexts.len() implies self.spec_handles_live(
            #[trigger] self.contexts[k],
        ) by {
            let u = self.contexts[k];
            assert(old(self).spec_handles_live(u));
            assert(spec_handle(u, ShareKind::Args) == u.args);
            assert(spec_handle(u, ShareKind::Cwd) == u.cwd);
            assert(spec_handle(u, ShareKind::Memory) == u.memory);
            assert(spec_handle(u, ShareKind::Files) == u.files);
        }
        Reclaimed { args, cwd, memory, files, kernel_stack: unit.kernel_stack, stack: unit.stack }
    }
}

// ---------------------------------------------------------------------------
// Cloning
// ---------------------------------------------------------------------------

/// The physical region at `copy` can hold a copy of `entry`: the allocation
/// did not fail, and the region lies inside the address space.
pub open spec fn spec_usable(entry: ContextMemory, copy: usize) -> bool {
    copy > 0 && copy + entry.spec_pages() * PAGE_SIZE <= usize::MAX
}

/// The copy of a user stack at the physical address `copy`, writable; none
/// where the parent has no user stack or the region is not usable.
pub open spec fn spec_cloned_stack(stack: Option<ContextMemory>, copy: usize) -> Option<
    ContextMemory,
> {
    match stack {
        Some(entry) => if spec_usable(entry, copy) {
            Some(ContextMemory { physical_address: copy, writeable: true, ..entry })
        } else {
            None
        },
        None => None,
    }
}

/// The copies of the first `n` mappings of `memory`: mapping `k` at the
/// physical address `copies[k]`. A mapping whose region is missing or not
/// usable is left out.
pub open spec fn spec_cloned_memory(memory: Seq<ContextMemory>, copies: Seq<usize>, n: int) -> Seq<
    ContextMemory,
>
    decreases n,
{
    if n <= 0 {
        Seq::empty()
    } else {
        let rest = spec_cloned_memory(memory, copies, n - 1);
        let entry = memory[n - 1];
        if n - 1 < copies.len() && spec_usable(entry, copies[n - 1]) {
            rest.push(ContextMemory { physical_address: copies[n - 1], ..entry })
        } else {
            rest
        }
    }
}

/// The copies of the first `n` files of `files`: file `k` with the resource
/// `copies[k]`. A file whose resource could not be duplicated is left out.
pub open spec fn spec_cloned_files(files: Seq<ContextFile>, copies: Seq<Option<usize>>, n: int) -> Seq<
    ContextFile,
>
    decreases n,
{
    if n <= 0 {
        Seq::empty()
    } else {
        let rest = spec_cloned_files(files, copies, n - 1);
        if n - 1 < copies.len() && copies[n - 1] is Some {
            rest.push(ContextFile { fd: files[n - 1].fd, resource: copies[n - 1]->0 })
        } else {
            rest
        }
    }
}

/// `flags` asks for the state that `flag` names to be shared.
pub open spec fn spec_shares(flags: usize, flag: usize) -> bool {
    flags & flag == flag
}

/// `child` is what a clone of `parent` starts as, but for the handles of
/// its working directory, memory and files: a copy of the saved state of
/// the parent on the kernel stack at `kernel_stack`, with the arguments of
/// the parent.
pub open spec fn spec_is_child(
    child: Context,
    parent: Context,
    clone_pid: usize,
    kernel_stack: usize,
    stack_copy: usize,
) -> bool {
    &&& child.pid == clone_pid
    &&& child.ppid == parent.pid
    &&& child.name@ == parent.name@
    &&& child.interrupted == parent.interrupted
    &&& child.exited == parent.exited
    &&& child.slices == CONTEXT_SLICES
    &&& child.slice_total == 0
    &&& child.kernel_stack == kernel_stack
    &&& child.sp == parent.sp - parent.kernel_stack + kernel_stack
    &&& child.flags == parent.flags
    &&& child.fx == kernel_stack + CONTEXT_STACK_SIZE
    &&& child.stack == spec_cloned_stack(parent.stack, stack_copy)
    &&& child.loadable == parent.loadable
    &&& child.args == parent.args
    &&& child.statuses@.len() == 0
}

/// Tells whether the physical region at `copy` can hold a copy of `entry`.
fn usable(entry: &ContextMemory, copy: usize) -> (r: bool)
    requires
        entry.wf(),
    ensures
        r == spec_usable(*entry, copy),
{
    let pages = entry.pages();
    assert(pages * PAGE_SIZE <= usize::MAX) by (nonlinear_arith)
        requires
            pages == entry.spec_pages(),
            entry.virtual_address + entry.spec_pages() * PAGE_SIZE <= usize::MAX,
            entry.virtual_address >= 0,
    ;
    copy > 0 && copy <= usize::MAX - pages * PAGE_SIZE
}

/// Copies the list of mappings to the physical addresses of `copies`.
fn cloned_memory(memory: &Vec<ContextMemory>, copies: &Vec<usize>) -> (r: Vec<ContextMemory>)
    requires
        spec_memory_wf(memory@),
    ensures
        r@ == spec_cloned_memory(memory@, copies@, memory@.len() as int),
        spec_memory_wf(r@),
{
    let mut r: Vec<ContextMemory> = Vec::new();
    let mut k: usize = 0;
    while k < memory.len()
        invariant
            k <= memory.len(),
            spec_memory_wf(memory@),
            spec_memory_wf(r@),
            r@ == spec_cloned_memory(memory@, copies@, k as int),
        decreases memory.len() - k,
    {
        let entry = memory[k];
        assert(entry.wf());
        if k < copies.len() && usable(&entry, copies[k]) {
            let copy = ContextMemory {
                physical_address: copies[k],
                virtual_address: entry.virtual_address,
                virtual_size: entry.virtual_size,
                writeable: entry.writeable,
            };
            assert(copy.wf());
            r.push(copy);
        }
        k += 1;
    }
    r
}

/// Copies the list of files with the duplicated resources of `copies`.
fn cloned_files(files: &Vec<ContextFile>, copies: &Vec<Option<usize>>) -> (r: Vec<ContextFile>)
    ensures
        r@ == spec_cloned_files(files@, copies@, files@.len() as int),
{
    let mut r: Vec<ContextFile> = Vec::new();
    let mut k: usize = 0;
    while k < files.len()
        invariant
            k <= files.len(),
            r@ == spec_cloned_files(files@, copies@, k as int),
        decreases files.len() - k,
    {
        if k < copies.len() {
            if let Some(resource) = copies[k] {
                r.push(ContextFile { fd: files[k].fd, resource });
            }
        }
        k += 1;
    }
    r
}

/// Clones the unit at `parent` and appends the clone to the table; it is
/// not the current unit and gets the processor in its turn.
///
/// The caller has allocated the memory and duplicated the resources:
/// `kernel_stack` holds a copy of the kernel stack of the parent,
/// `stack_copy` one of its user stack, `memory_copies[k]` one of its mapping
/// `k`, and `file_copies[k]` is the duplicate of the resource of its file
/// `k`. A failed allocation is 0, a failed duplication `None`. Without a
/// kernel stack there is no clone; a mapping or a file whose copy failed is
/// left out of the clone.
///
/// The arguments are shared with the parent. The working directory, the
/// memory and the files are shared where `flags` says so, and copied else.
/// The stack pointer of the clone lies as far above its kernel stack as
/// that of the parent lies above the parent's: the parent's pointer is not
/// below its kernel stack, and the clone's can be counted.
pub fn context_clone(
    table: &mut ContextTable,
    parent: usize,
    flags: usize,
    clone_pid: usize,
    kernel_stack: usize,
    stack_copy: usize,
    memory_copies: &Vec<usize>,
    file_copies: &Vec<Option<usize>>,
) -> (cloned: bool)
    requires
        old(table).wf(),
        parent < old(table).contexts@.len(),
        old(table).contexts@[parent as int].kernel_stack <= old(table).contexts@[parent as int].sp,
        spec_stack_fits(kernel_stack) ==> old(table).contexts@[parent as int].sp - old(
            table,
        ).contexts@[parent as int].kernel_stack + kernel_stack <= usize::MAX,
    ensures
        final(table).wf(),
        cloned == spec_stack_fits(kernel_stack),
        final(table).current == old(table).current,
        final(table).enabled == old(table).enabled,
        final(table).next_pid == old(table).next_pid,
        final(table).args == old(table).args,
        !cloned ==> *final(table) == *old(table),
        cloned ==> {
            let before = old(table).contexts@;
            let mother = before[parent as int];
            let child = final(table).contexts@.last();
            &&& final(table).contexts@.len() == before.len() + 1
            &&& final(table).contexts@.drop_last() == before
            &&& spec_is_child(child, mother, clone_pid, kernel_stack, stack_copy)
            &&& if spec_shares(flags, CLONE_FS) {
                child.cwd == mother.cwd && final(table).cwds == old(table).cwds
            } else {
                final(table).cwds.spec_extends(&old(table).cwds, child.cwd) && final(table).cwds.spec_get(child.cwd)@ == old(table).cwds.spec_get(mother.cwd)@
            }
            &&& if spec_shares(flags, CLONE_VM) {
                child.memory == mother.memory && final(table).memories == old(table).memories
            } else {
                final(table).memories.spec_extends(&old(table).memories, child.memory) && final(table).memories.spec_get(child.memory)@ == spec_cloned_memory(
                    old(table).memories.spec_get(mother.memory)@,
                    memory_copies@,
                    old(table).memories.spec_get(mother.memory)@.len() as int,
                )
            }
            &&& if spec_shares(flags, CLONE_FILES) {
                child.files == mother.files && final(table).files == old(table).files
            } else {
                final(table).files.spec_extends(&old(table).files, child.files) && final(table).files.spec_get(child.files)@ == spec_cloned_files(
                    old(table).files.spec_get(mother.files)@,
                    file_copies@,
                    old(table).files.spec_get(mother.files)@.len() as int,
                )
            }
        },
{
    if kernel_stack == 0 || kernel_stack > usize::MAX - CONTEXT_STACK_SIZE - CONTEXT_FX_SIZE {
        return false;
    }
    let ghost before = table.contexts@;
    let ghost mother = before[parent as int];
    assert(mother.wf() && table.spec_handles_live(mother));
    let unit = &table.contexts[parent];
    let pid = unit.pid;
    let name = unit.name.clone();
    let interrupted = unit.interrupted;
    let exited = unit.exited;
    let sp = unit.sp - unit.kernel_stack + kernel_stack;
    let unit_flags = unit.flags;
    let loadable = unit.loadable;
    let args = unit.args;
    let parent_cwd = unit.cwd;
    let parent_memory = unit.memory;
    let parent_files = unit.files;
    let stack = match &unit.stack {
        Some(entry) => {
            if usable(entry, stack_copy) {
                Some(
                    ContextMemory {
                        physical_address: stack_copy,
                        virtual_address: entry.virtual_address,
                        virtual_size: entry.virtual_size,
                        writeable: true,
                    },
                )
            } else {
                None
            }
        },
        None => None,
    };
    let cwd = if flags & CLONE_FS == CLONE_FS {
        parent_cwd
    } else {
        let copy = match table.cwds.get(parent_cwd) {
            Some(bytes) => bytes.clone(),
            None => Vec::new(),
        };
        table.cwds.insert(copy)
    };
    let memory = if flags & CLONE_VM == CLONE_VM {
        parent_memory
    } else {
        let copy = match table.memories.get(parent_memory) {
            Some(list) => cloned_memory(list, memory_copies),
            None => Vec::new(),
        };
        table.memories.insert(copy)
    };
    let files = if flags & CLONE_FILES == CLONE_FILES {
        parent_files
    } else {
        let copy = match table.files.get(parent_files) {
            Some(list) => cloned_files(list, file_copies),
            None => Vec::new(),
        };
        table.files.insert(copy)
    };
    let child = Context {
        pid: clone_pid,
        ppid: pid,
        name,
        interrupted,
        exited,
        slices: CONTEXT_SLICES,
        slice_total: 0,
        kernel_stack,
        sp,
        flags: unit_flags,
        fx: kernel_stack + CONTEXT_STACK_SIZE,
        stack,
        loadable,
        args,
        cwd,
        memory,
        files,
        statuses: Vec::new(),
    };
    assert(child.wf());
    table.contexts.push(child);
    assert(table.contexts@.drop_last() =~= before);
    assert forall|k: int| 0 <= k < table.contexts.len() implies (#[trigger] table.contexts[k]).wf()
        && table.spec_handles_live(table.contexts[k]) by {
        if k < before.len() {
            assert(table.contexts[k] == before[k]);
            assert(old(table).spec_handles_live(before[k]));
        }
    }
    true
}

} // verus!
