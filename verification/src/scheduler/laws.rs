//! What holds of every run of switches: each unit gets its turn, and an
//! exited unit is gone after one round.

use vstd::prelude::*;
use crate::scheduler::context::Context;
use crate::scheduler::table::{
    lemma_first_ready, spec_first_ready, spec_found_ahead, spec_step,
    spec_survivors, TableState,
};

verus! {

/// The state after one switch for each flag of `flags`, in order.
pub open spec fn spec_run(s: TableState, flags: Seq<bool>) -> TableState
    decreases flags.len(),
{
    if flags.len() == 0 {
        s
    } else {
        spec_step(spec_run(s, flags.drop_last()), flags.last())
    }
}

/// The current position lies in the table; an empty table has it at 0.
pub open spec fn spec_state_wf(s: TableState) -> bool {
    if s.units.len() == 0 {
        s.current == 0
    } else {
        0 <= s.current < s.units.len()
    }
}

/// How many switches it takes until the scan reaches position `p`: the
/// units behind the current one come first, the current one last.
pub open spec fn spec_turn(s: TableState, p: int) -> int {
    if p > s.current {
        p - s.current
    } else {
        p + s.units.len() - s.current
    }
}

/// Every exited unit is reached by the scan within `bound` switches.
pub open spec fn spec_exited_within(s: TableState, bound: int) -> bool {
    forall|p: int| 0 <= p < s.units.len() && (#[trigger] s.units[p]).exited ==> spec_turn(s, p) <= bound
}

/// No unit of the table has exited.
pub open spec fn spec_all_ready(s: TableState) -> bool {
    forall|p: int| 0 <= p < s.units.len() ==> !(#[trigger] s.units[p]).exited
}

/// Two units are the same but for what a switch writes: the interrupted
/// mark, the count of slices, and the mark that the state was saved.
pub open spec fn spec_same_unit(a: Context, b: Context) -> bool {
    Context { interrupted: false, slices: 0, loadable: false, ..a } == Context {
        interrupted: false,
        slices: 0,
        loadable: false,
        ..b
    }
}

/// The position that follows `p` in a table of `n` units.
pub open spec fn spec_wrap(p: int, n: int) -> int {
    if p < n {
        p
    } else {
        p - n
    }
}

/// A switch keeps the state well formed, and the unit it selects has not
/// exited.
pub proof fn lemma_step_selects_ready(s: TableState, interrupted: bool)
    requires
        spec_state_wf(s),
    ensures
        spec_state_wf(spec_step(s, interrupted)),
        spec_step(s, interrupted).units.len() <= s.units.len(),
        spec_step(s, interrupted).units.len() > 0 && s.units.len() > 0 ==> !spec_step(
            s,
            interrupted,
        ).units[spec_step(s, interrupted).current].exited,
{
    if s.units.len() > 0 {
        lemma_first_ready(s.units, s.current + 1, s.units.len() as int);
        lemma_first_ready(s.units, 0, s.current + 1);
    }
}

/// One switch brings every exited unit one turn closer to its removal.
pub proof fn lemma_step_exited_within(s: TableState, interrupted: bool, bound: int)
    requires
        spec_state_wf(s),
        spec_exited_within(s, bound),
        bound >= 1,
    ensures
        spec_exited_within(spec_step(s, interrupted), bound - 1),
{
    let n = s.units.len() as int;
    let c = s.current;
    let r = spec_step(s, interrupted);
    if n > 0 {
        lemma_first_ready(s.units, c + 1, n);
        lemma_first_ready(s.units, 0, c + 1);
        let kept = spec_survivors(s.units, c);
        assert(r.units.len() == kept.len());
        assert forall|p: int| 0 <= p < r.units.len() && (#[trigger] r.units[p]).exited implies spec_turn(
            r,
            p,
        ) <= bound - 1 by {
            assert(r.units[p].exited == kept[p].exited);
            if spec_found_ahead(s.units, c) {
                let t = spec_first_ready(s.units, c + 1, n);
                if p <= c {
                    assert(kept[p] == s.units[p]);
                    assert(spec_turn(s, p) <= bound);
                } else {
                    let old_p = p - (c + 1) + t;
                    assert(kept[p] == s.units[old_p]);
                    assert(spec_turn(s, old_p) <= bound);
                }
            } else {
                let t = spec_first_ready(s.units, 0, c + 1);
                assert(kept[p] == s.units[p + t]);
                assert(spec_turn(s, p + t) <= bound);
            }
        }
    }
}

/// After `k` switches every exited unit is within `bound - k` turns of its
/// removal.
pub proof fn lemma_run_exited_within(s: TableState, flags: Seq<bool>, bound: int)
    requires
        spec_state_wf(s),
        spec_exited_within(s, bound),
        flags.len() <= bound,
    ensures
        spec_state_wf(spec_run(s, flags)),
        spec_run(s, flags).units.len() <= s.units.len(),
        spec_exited_within(spec_run(s, flags), bound - flags.len()),
    decreases flags.len(),
{
    if flags.len() > 0 {
        lemma_run_exited_within(s, flags.drop_last(), bound);
        let mid = spec_run(s, flags.drop_last());
        lemma_step_selects_ready(mid, flags.last());
        lemma_step_exited_within(mid, flags.last(), bound - flags.drop_last().len());
    }
}

/// Exited units are collected within one round: after as many switches as
/// the table holds units, whatever their flags, no unit of the table has
/// exited. A switch adds no unit and, by `lemma_step_selects_ready`, never
/// selects one that has exited.
pub proof fn lemma_exited_units_are_removed(s: TableState, flags: Seq<bool>)
    requires
        spec_state_wf(s),
        flags.len() == s.units.len(),
    ensures
        spec_all_ready(spec_run(s, flags)),
        spec_run(s, flags).units.len() <= s.units.len(),
{
    let n = s.units.len() as int;
    assert(spec_exited_within(s, n));
    lemma_run_exited_within(s, flags, n);
    let r = spec_run(s, flags);
    assert forall|p: int| 0 <= p < r.units.len() implies !(#[trigger] r.units[p]).exited by {
        if r.units[p].exited {
            assert(spec_turn(r, p) <= 0);
        }
    }
}

/// Where no unit has exited, a switch moves the current position one on,
/// round the table, and leaves every unit what it was.
pub proof fn lemma_step_all_ready(s: TableState, interrupted: bool)
    requires
        spec_state_wf(s),
        s.units.len() > 0,
        spec_all_ready(s),
    ensures
        spec_step(s, interrupted).units.len() == s.units.len(),
        spec_step(s, interrupted).current == spec_wrap(s.current + 1, s.units.len() as int),
        spec_all_ready(spec_step(s, interrupted)),
        forall|p: int|
            0 <= p < s.units.len() ==> spec_same_unit(
                #[trigger] spec_step(s, interrupted).units[p],
                s.units[p],
            ),
{
    let n = s.units.len() as int;
    let c = s.current;
    lemma_first_ready(s.units, c + 1, n);
    lemma_first_ready(s.units, 0, c + 1);
    assert(!s.units[0].exited);
    if c + 1 < n {
        assert(!s.units[c + 1].exited);
    }
    assert(spec_survivors(s.units, c) =~= s.units);
}

/// Where no unit has exited, `k` switches move the current position `k` on.
pub proof fn lemma_run_all_ready(s: TableState, flags: Seq<bool>)
    requires
        spec_state_wf(s),
        s.units.len() > 0,
        spec_all_ready(s),
        flags.len() <= s.units.len(),
    ensures
        spec_state_wf(spec_run(s, flags)),
        spec_run(s, flags).units.len() == s.units.len(),
        spec_run(s, flags).current == spec_wrap(s.current + flags.len(), s.units.len() as int),
        spec_all_ready(spec_run(s, flags)),
        forall|p: int|
            0 <= p < s.units.len() ==> spec_same_unit(
                #[trigger] spec_run(s, flags).units[p],
                s.units[p],
            ),
    decreases flags.len(),
{
    if flags.len() > 0 {
        lemma_run_all_ready(s, flags.drop_last());
        let mid = spec_run(s, flags.drop_last());
        lemma_step_all_ready(mid, flags.last());
        let r = spec_run(s, flags);
        assert forall|p: int| 0 <= p < s.units.len() implies spec_same_unit(
            #[trigger] r.units[p],
            s.units[p],
        ) by {
            assert(spec_same_unit(r.units[p], mid.units[p]));
            assert(spec_same_unit(mid.units[p], s.units[p]));
        }
    }
}

/// How many units at the positions `from..to` have not exited.
pub open spec fn spec_ready_count(units: Seq<Context>, from: int, to: int) -> nat
    decreases to - from,
{
    if from >= to {
        0
    } else {
        spec_ready_count(units, from, to - 1) + if units[to - 1].exited {
            0nat
        } else {
            1nat
        }
    }
}

/// The place of position `p` in the order of the scan, among the units that
/// have not exited: how many of them the scan meets from behind the current
/// position up to `p`, round the table.
pub open spec fn spec_ready_turn(s: TableState, p: int) -> nat {
    if p > s.current {
        spec_ready_count(s.units, s.current + 1, p + 1)
    } else {
        spec_ready_count(s.units, s.current + 1, s.units.len() as int) + spec_ready_count(
            s.units,
            0,
            p + 1,
        )
    }
}

/// The count over a range is the sum of the counts over its two parts.
pub proof fn lemma_count_split(units: Seq<Context>, a: int, b: int, c: int)
    requires
        a <= b <= c,
    ensures
        spec_ready_count(units, a, c) == spec_ready_count(units, a, b) + spec_ready_count(
            units,
            b,
            c,
        ),
    decreases c - b,
{
    if b < c {
        lemma_count_split(units, a, b, c - 1);
    }
}

/// A range of exited units counts nothing.
pub proof fn lemma_count_none(units: Seq<Context>, a: int, b: int)
    requires
        forall|k: int| a <= k < b ==> (#[trigger] units[k]).exited,
    ensures
        spec_ready_count(units, a, b) == 0,
    decreases b - a,
{
    if a < b {
        lemma_count_none(units, a, b - 1);
    }
}

/// Two ranges of one length whose units have exited alike count the same.
pub proof fn lemma_count_same(a: Seq<Context>, i: int, b: Seq<Context>, j: int, len: int)
    requires
        forall|k: int| 0 <= k < len ==> (#[trigger] a[i + k]).exited == b[j + k].exited,
    ensures
        spec_ready_count(a, i, i + len) == spec_ready_count(b, j, j + len),
    decreases len,
{
    if len > 0 {
        lemma_count_same(a, i, b, j, len - 1);
        assert(a[i + (len - 1)].exited == b[j + (len - 1)].exited);
    }
}

/// One unit that has not exited counts one.
pub proof fn lemma_count_one(units: Seq<Context>, t: int)
    requires
        !units[t].exited,
    ensures
        spec_ready_count(units, t, t + 1) == 1,
{
    assert(spec_ready_count(units, t, t) == 0);
}

/// Where the unit at `p` has not exited, the position at which a switch
/// leaves it.
pub open spec fn spec_moved(s: TableState, p: int) -> int {
    let n = s.units.len() as int;
    if spec_found_ahead(s.units, s.current) {
        if p > s.current {
            p - spec_first_ready(s.units, s.current + 1, n) + s.current + 1
        } else {
            p
        }
    } else {
        p - spec_first_ready(s.units, 0, s.current + 1)
    }
}

/// A switch selects the unit whose turn is the first, and brings every
/// other unit that has not exited one turn closer.
pub proof fn lemma_step_turn(s: TableState, interrupted: bool, p: int)
    requires
        spec_state_wf(s),
        0 <= p < s.units.len(),
        !s.units[p].exited,
    ensures
        spec_ready_turn(s, p) >= 1,
        0 <= spec_moved(s, p) < spec_step(s, interrupted).units.len(),
        spec_same_unit(spec_step(s, interrupted).units[spec_moved(s, p)], s.units[p]),
        !spec_step(s, interrupted).units[spec_moved(s, p)].exited,
        spec_ready_turn(s, p) == 1 ==> spec_step(s, interrupted).current == spec_moved(s, p),
        spec_ready_turn(s, p) > 1 ==> spec_ready_turn(
            spec_step(s, interrupted),
            spec_moved(s, p),
        ) == spec_ready_turn(s, p) - 1,
{
    let n = s.units.len() as int;
    let c = s.current;
    let r = spec_step(s, interrupted);
    let kept = spec_survivors(s.units, c);
    lemma_first_ready(s.units, c + 1, n);
    lemma_first_ready(s.units, 0, c + 1);
    assert(r.units.len() == kept.len());
    assert forall|k: int| 0 <= k < kept.len() implies (#[trigger] r.units[k]).exited
        == kept[k].exited && spec_same_unit(r.units[k], kept[k]) by {}
    if spec_found_ahead(s.units, c) {
        let t = spec_first_ready(s.units, c + 1, n);
        lemma_count_none(s.units, c + 1, t);
        lemma_count_one(s.units, t);
        if p > c {
            assert(p >= t) by {
                if p < t {
                    assert(s.units[p].exited);
                }
            }
            let q = p - t + c + 1;
            assert(kept[q] == s.units[p]);
            lemma_count_split(s.units, c + 1, t, p + 1);
            lemma_count_split(s.units, t, t + 1, p + 1);
            if p > t {
                assert forall|k: int| 0 <= k < p - t implies (#[trigger] r.units[c + 2 + k]).exited
                    == s.units[t + 1 + k].exited by {
                    assert(kept[c + 2 + k] == s.units[t + 1 + k]);
                }
                lemma_count_same(r.units, c + 2, s.units, t + 1, p - t);
            } else {
                assert(spec_ready_count(s.units, t + 1, t + 1) == 0);
            }
        } else {
            assert(kept[p] == s.units[p]);
            lemma_count_split(s.units, c + 1, t, n);
            lemma_count_split(s.units, t, t + 1, n);
            assert forall|k: int| 0 <= k < n - t - 1 implies (#[trigger] r.units[c + 2 + k]).exited
                == s.units[t + 1 + k].exited by {
                assert(kept[c + 2 + k] == s.units[t + 1 + k]);
            }
            lemma_count_same(r.units, c + 2, s.units, t + 1, n - t - 1);
            assert forall|k: int| 0 <= k < p + 1 implies (#[trigger] r.units[0 + k]).exited
                == s.units[0 + k].exited by {
                assert(kept[k] == s.units[k]);
            }
            lemma_count_same(r.units, 0, s.units, 0, p + 1);
        }
    } else {
        let t = spec_first_ready(s.units, 0, c + 1);
        assert(p <= c) by {
            if p > c {
                assert(s.units[p].exited);
            }
        }
        assert(t <= p) by {
            if p < t {
                assert(s.units[p].exited);
            }
        }
        lemma_count_none(s.units, c + 1, n);
        lemma_count_none(s.units, 0, t);
        lemma_count_one(s.units, t);
        assert(kept[p - t] == s.units[p]);
        lemma_count_split(s.units, 0, t, p + 1);
        lemma_count_split(s.units, t, t + 1, p + 1);
        if p > t {
            assert forall|k: int| 0 <= k < p - t implies (#[trigger] r.units[1 + k]).exited
                == s.units[t + 1 + k].exited by {
                assert(kept[1 + k] == s.units[t + 1 + k]);
            }
            lemma_count_same(r.units, 1, s.units, t + 1, p - t);
        } else {
            assert(spec_ready_count(s.units, t + 1, t + 1) == 0);
        }
    }
}

/// A run of switches is its first switch and the run of the others.
pub proof fn lemma_run_front(s: TableState, flags: Seq<bool>)
    requires
        flags.len() > 0,
    ensures
        spec_run(s, flags) == spec_run(spec_step(s, flags[0]), flags.skip(1)),
    decreases flags.len(),
{
    let first = spec_step(s, flags[0]);
    if flags.len() == 1 {
        assert(spec_run(s, flags.drop_last()) == s);
        assert(spec_run(first, flags.skip(1)) == first);
    } else {
        lemma_run_front(s, flags.drop_last());
        assert(flags.drop_last().skip(1) =~= flags.skip(1).drop_last());
        assert(spec_run(s, flags) == spec_step(spec_run(s, flags.drop_last()), flags.last()));
        assert(spec_run(first, flags.skip(1)) == spec_step(
            spec_run(first, flags.skip(1).drop_last()),
            flags.skip(1).last(),
        ));
    }
}

/// No turn is later than the number of the units that have not exited.
pub proof fn lemma_turn_bound(s: TableState, p: int)
    requires
        spec_state_wf(s),
        0 <= p < s.units.len(),
    ensures
        spec_ready_turn(s, p) <= spec_ready_count(s.units, 0, s.units.len() as int),
{
    let n = s.units.len() as int;
    let c = s.current;
    if p > c {
        lemma_count_split(s.units, 0, c + 1, n);
        lemma_count_split(s.units, c + 1, p + 1, n);
    } else {
        lemma_count_split(s.units, 0, p + 1, n);
        lemma_count_split(s.units, p + 1, c + 1, n);
    }
}

/// The unit at `p` is the current one after as many switches as its turn
/// says.
pub proof fn lemma_run_turn(s: TableState, flags: Seq<bool>, p: int)
    requires
        spec_state_wf(s),
        0 <= p < s.units.len(),
        !s.units[p].exited,
        flags.len() == spec_ready_turn(s, p),
    ensures
        spec_state_wf(spec_run(s, flags)),
        spec_run(s, flags).units.len() > 0,
        spec_same_unit(spec_run(s, flags).units[spec_run(s, flags).current], s.units[p]),
    decreases flags.len(),
{
    lemma_step_turn(s, flags[0], p);
    lemma_run_front(s, flags);
    let next = spec_step(s, flags[0]);
    lemma_step_selects_ready(s, flags[0]);
    if flags.len() == 1 {
        assert(flags.skip(1).len() == 0);
    } else {
        lemma_run_turn(next, flags.skip(1), spec_moved(s, p));
    }
}

/// Round-robin fairness: whatever the table holds, a unit that has not
/// exited is the current one after at least one switch and at most as many
/// switches as there are units that have not exited, whatever the flags
/// of the switches. Its turn is its place among those units in the order
/// of the scan, and the switches leave it what it was.
pub proof fn lemma_round_robin_fairness(s: TableState, flags: Seq<bool>, p: int)
    requires
        spec_state_wf(s),
        0 <= p < s.units.len(),
        !s.units[p].exited,
        flags.len() == spec_ready_count(s.units, 0, s.units.len() as int),
    ensures
        1 <= spec_ready_turn(s, p) <= flags.len(),
        spec_run(s, flags.take(spec_ready_turn(s, p) as int)).units.len() > 0,
        spec_same_unit(
            spec_run(s, flags.take(spec_ready_turn(s, p) as int)).units[spec_run(
                s,
                flags.take(spec_ready_turn(s, p) as int),
            ).current],
            s.units[p],
        ),
{
    lemma_step_turn(s, true, p);
    lemma_turn_bound(s, p);
    lemma_run_turn(s, flags.take(spec_ready_turn(s, p) as int), p);
}

} // verus!
