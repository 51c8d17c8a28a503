//! The rule by which a controller picks the next operating state.
//!
//! Given the goal and the throughput observed in the current state, the rule
//! asks of each state whether its modelled throughput would meet the goal. Of
//! those that would, it takes the cheapest. If none would, it takes the
//! cheapest of the fastest. Equal costs are settled by the lower identifier.

use vstd::prelude::*;
use crate::states::{POETControlState, StateEntry, StateTable};

verus! {

/// Whether a state modelled by `e` would meet `goal`, given that the state
/// modelled by `current` yields `rate`.
///
/// The speedup needed is `goal / rate`, relative to `current`: `e` qualifies
/// when `e.speedup >= (goal / rate) * current.speedup`. Both sides are
/// multiplied by `rate` so that the test stays exact on integers. A zero rate
/// leaves the need unbounded, and nothing qualifies.
pub open spec fn meets_goal(
    e: POETControlState,
    current: POETControlState,
    goal: u64,
    rate: u64,
) -> bool {
    rate > 0 && e.speedup * rate >= goal * current.speedup
}

/// Whether some state of `table` would meet the goal.
pub open spec fn any_meets_goal(table: Seq<StateEntry>, current: int, goal: u64, rate: u64) -> bool {
    exists|j: int|
        0 <= j < table.len() && meets_goal(
            (#[trigger] table[j]).control,
            table[current].control,
            goal,
            rate,
        )
}

/// Whether no state of `table` is modelled faster than state `i`.
pub open spec fn fastest(table: Seq<StateEntry>, i: int) -> bool {
    forall|j: int|
        0 <= j < table.len() ==> (#[trigger] table[j]).control.speedup <= table[i].control.speedup
}

/// Whether state `i` may be chosen: it meets the goal, or nothing does and it
/// is among the fastest.
pub open spec fn eligible(table: Seq<StateEntry>, current: int, goal: u64, rate: u64, i: int) -> bool {
    &&& 0 <= i < table.len()
    &&& if any_meets_goal(table, current, goal, rate) {
        meets_goal(table[i].control, table[current].control, goal, rate)
    } else {
        fastest(table, i)
    }
}

/// Whether state `i` is to be preferred to state `j`, or is `j`: it costs
/// less, or the same and has the lower identifier.
pub open spec fn preferred(table: Seq<StateEntry>, i: int, j: int) -> bool {
    table[i].control.cost < table[j].control.cost || (table[i].control.cost
        == table[j].control.cost && i <= j)
}

/// Whether state `i` is the one the rule picks: it is eligible and preferred
/// to every other eligible state.
pub open spec fn is_selected(table: Seq<StateEntry>, current: int, goal: u64, rate: u64, i: int) -> bool {
    &&& eligible(table, current, goal, rate, i)
    &&& forall|j: int| #[trigger]
        eligible(table, current, goal, rate, j) ==> preferred(table, i, j)
}

/// The state the rule picks.
pub open spec fn selected(table: Seq<StateEntry>, current: int, goal: u64, rate: u64) -> int {
    choose|i: int| is_selected(table, current, goal, rate, i)
}

/// The rule picks at most one state.
pub proof fn lemma_selection_unique(
    table: Seq<StateEntry>,
    current: int,
    goal: u64,
    rate: u64,
    i: int,
    j: int,
)
    requires
        is_selected(table, current, goal, rate, i),
        is_selected(table, current, goal, rate, j),
    ensures
        i == j,
{
    assert(preferred(table, i, j));
    assert(preferred(table, j, i));
}

/// Among the first `n` states, one that is as fast as any of them.
proof fn lemma_fastest_of_prefix(table: Seq<StateEntry>, n: int) -> (f: int)
    requires
        1 <= n <= table.len(),
    ensures
        0 <= f < n,
        forall|j: int| 0 <= j < n ==> (#[trigger] table[j]).control.speedup <= table[f].control.speedup,
    decreases n,
{
    if n == 1 {
        0
    } else {
        let g = lemma_fastest_of_prefix(table, n - 1);
        if table[n - 1].control.speedup > table[g].control.speedup {
            n - 1
        } else {
            g
        }
    }
}

/// Among the first `n` states, if one is eligible, an eligible one that is
/// preferred to every other eligible one.
proof fn lemma_preferred_of_prefix(
    table: Seq<StateEntry>,
    current: int,
    goal: u64,
    rate: u64,
    n: int,
) -> (b: int)
    requires
        0 <= n <= table.len(),
        exists|j: int| 0 <= j < n && eligible(table, current, goal, rate, j),
    ensures
        0 <= b < n,
        eligible(table, current, goal, rate, b),
        forall|j: int|
            0 <= j < n && #[trigger] eligible(table, current, goal, rate, j) ==> preferred(
                table,
                b,
                j,
            ),
    decreases n,
{
    let last = n - 1;
    if exists|j: int| 0 <= j < last && eligible(table, current, goal, rate, j) {
        let c = lemma_preferred_of_prefix(table, current, goal, rate, last);
        if eligible(table, current, goal, rate, last) && !preferred(table, c, last) {
            last
        } else {
            c
        }
    } else {
        last
    }
}

/// On a table with at least one state, the rule picks a state, and
/// `selected` is that state.
pub proof fn lemma_selection_exists(table: Seq<StateEntry>, current: int, goal: u64, rate: u64)
    requires
        table.len() >= 1,
    ensures
        is_selected(table, current, goal, rate, selected(table, current, goal, rate)),
        0 <= selected(table, current, goal, rate) < table.len(),
{
    if any_meets_goal(table, current, goal, rate) {
        let j = choose|j: int|
            0 <= j < table.len() && meets_goal(
                (#[trigger] table[j]).control,
                table[current].control,
                goal,
                rate,
            );
        assert(eligible(table, current, goal, rate, j));
    } else {
        let f = lemma_fastest_of_prefix(table, table.len() as int);
        assert(eligible(table, current, goal, rate, f));
    }
    let b = lemma_preferred_of_prefix(table, current, goal, rate, table.len() as int);
    assert(is_selected(table, current, goal, rate, b));
}

/// Whether the state modelled by `e` would meet `goal`, given that the state
/// modelled by `current` yields `rate`.
pub fn reaches_goal(e: &POETControlState, current: &POETControlState, goal: u64, rate: u64) -> (b:
    bool)
    ensures
        b == meets_goal(*e, *current, goal, rate),
{
    assert(e.speedup * rate <= u64::MAX * u64::MAX) by (nonlinear_arith)
        requires
            0 <= e.speedup <= u64::MAX,
            0 <= rate <= u64::MAX,
    ;
    assert(goal * current.speedup <= u64::MAX * u64::MAX) by (nonlinear_arith)
        requires
            0 <= goal <= u64::MAX,
            0 <= current.speedup <= u64::MAX,
    ;
    let offered: u128 = (e.speedup as u128) * (rate as u128);
    let needed: u128 = (goal as u128) * (current.speedup as u128);
    rate > 0 && offered >= needed
}

/// Picks the next state for a system that is in state `current` and yields
/// `rate` there: the cheapest state that would meet `goal`, or, if none
/// would, the cheapest of the fastest; of equal costs the lower identifier.
pub fn select(table: &StateTable, current: u32, goal: u64, rate: u64) -> (id: u32)
    requires
        table.wf(),
        current < table@.len(),
    ensures
        id < table@.len(),
        is_selected(table@, current as int, goal, rate, id as int),
        id == selected(table@, current as int, goal, rate),
{
    let n: usize = table.len();
    let here: POETControlState = table.entry(current as usize).control;
    let mut meeting: Option<usize> = None;
    let mut quick: usize = 0;
    let mut i: usize = 0;
    while i < n
        invariant
            table.wf(),
            n == table@.len(),
            i <= n,
            here == table@[current as int].control,
            current < n,
            quick < n,
            quick <= i,
            forall|j: int|
                0 <= j < i ==> (#[trigger] table@[j]).control.speedup
                    <= table@[quick as int].control.speedup,
            forall|j: int|
                0 <= j < i && (#[trigger] table@[j]).control.speedup
                    == table@[quick as int].control.speedup ==> preferred(table@, quick as int, j),
            meeting is None ==> forall|j: int|
                0 <= j < i ==> !meets_goal((#[trigger] table@[j]).control, here, goal, rate),
            meeting matches Some(m) ==> {
                &&& m < i
                &&& meets_goal(table@[m as int].control, here, goal, rate)
                &&& forall|j: int|
                    0 <= j < i && meets_goal((#[trigger] table@[j]).control, here, goal, rate)
                        ==> preferred(table@, m as int, j)
            },
        decreases n - i,
    {
        let e: POETControlState = table.entry(i).control;
        let q: POETControlState = table.entry(quick).control;
        if e.speedup > q.speedup || (e.speedup == q.speedup && e.cost < q.cost) {
            quick = i;
        }
        if reaches_goal(&e, &here, goal, rate) {
            match meeting {
                None => {
                    meeting = Some(i);
                },
                Some(m) => {
                    if e.cost < table.entry(m).control.cost {
                        meeting = Some(i);
                    }
                },
            }
        }
        i = i + 1;
    }
    let pick: usize = match meeting {
        Some(m) => m,
        None => quick,
    };
    proof {
        let t = table@;
        let c = current as int;
        match meeting {
            Some(m) => {
                assert(any_meets_goal(t, c, goal, rate));
            },
            None => {
                assert(!any_meets_goal(t, c, goal, rate));
                assert(fastest(t, quick as int));
                assert forall|j: int| #[trigger] eligible(t, c, goal, rate, j) implies preferred(
                    t,
                    quick as int,
                    j,
                ) by {
                    assert(t[quick as int].control.speedup <= t[j].control.speedup);
                }
            },
        }
        assert(is_selected(t, c, goal, rate, pick as int));
        lemma_selection_exists(t, c, goal, rate);
        lemma_selection_unique(t, c, goal, rate, pick as int, selected(t, c, goal, rate));
        assert(t[pick as int].control.id == pick);
    }
    pick as u32
}

} // verus!
