//! Which values are live where.

use vstd::prelude::*;

use crate::inst::{
    target_views, values_within, InstView, TargetView, Terminator, TerminatorView, Value,
};
use crate::program::{id_limit, Function, FunctionView};

verus! {

/// What is live before an instruction, given what is live after it.
pub open spec fn inst_needs(inst: InstView, after: Set<Value>) -> Set<Value> {
    (match inst.result {
        Some(result) => after.remove(result),
        None => after,
    }).union(inst.kind.operands().to_set())
}

/// What is live before the instructions, given what is live after them.
pub open spec fn insts_need(insts: Seq<InstView>, after: Set<Value>) -> Set<Value>
    decreases insts.len(),
{
    if insts.len() == 0 {
        after
    } else {
        inst_needs(insts[0], insts_need(insts.skip(1), after))
    }
}

/// Whether a jump needs `value`: it passes it, or the block it lands in needs
/// it and does not receive it.
pub open spec fn jump_needs(
    function: FunctionView,
    target: TargetView,
    live: Seq<Set<Value>>,
    value: Value,
) -> bool {
    ||| target.args.contains(value)
    ||| live[target.block.0 as int].contains(value) && !function.block(
        target.block,
    ).params.contains(value)
}

/// What is live before the end of a block, given what is live on entry to each
/// block.
pub open spec fn term_needs(
    function: FunctionView,
    term: Option<TerminatorView>,
    live: Seq<Set<Value>>,
) -> Set<Value> {
    match term {
        Some(held) => Set::new(
            |value: Value|
                held.decides_by() == Some(value) || exists|t: int|
                    0 <= t < held.targets().len() && jump_needs(
                        function,
                        #[trigger] held.targets()[t],
                        live,
                        value,
                    ),
        ),
        None => Set::empty(),
    }
}

/// What is live on entry to a block, before its parameters, given what is live
/// on entry to each block.
pub open spec fn block_needs(function: FunctionView, at: int, live: Seq<Set<Value>>) -> Set<
    Value,
> {
    let block = function.blocks[at];
    insts_need(block.insts, term_needs(function, block.term, live)).difference(
        block.params.to_set(),
    )
}

/// What is known to be live on entry to each block after following `steps`
/// jumps.
pub open spec fn live_after(function: FunctionView, steps: nat) -> Seq<Set<Value>>
    decreases steps,
{
    if steps == 0 {
        Seq::new(function.blocks.len(), |i: int| Set::empty())
    } else {
        let before = live_after(function, (steps - 1) as nat);
        Seq::new(function.blocks.len(), |i: int| block_needs(function, i, before))
    }
}

/// Whether `value` is live on entry to the block at `at`.
pub open spec fn is_live(function: FunctionView, at: int, value: Value) -> bool {
    exists|steps: nat| (#[trigger] live_after(function, steps))[at].contains(value)
}

/// What is live on entry to each block.
pub open spec fn live_sets(function: FunctionView) -> Seq<Set<Value>> {
    Seq::new(
        function.blocks.len(),
        |i: int| Set::new(|value: Value| is_live(function, i, value)),
    )
}

proof fn insts_need_pointwise(
    insts: Seq<InstView>,
    first: Set<Value>,
    second: Set<Value>,
    value: Value,
)
    requires
        first.contains(value) == second.contains(value),
    ensures
        insts_need(insts, first).contains(value) == insts_need(insts, second).contains(value),
    decreases insts.len(),
{
    if insts.len() > 0 {
        insts_need_pointwise(insts.skip(1), first, second, value);
    }
}

proof fn insts_need_monotone(
    insts: Seq<InstView>,
    first: Set<Value>,
    second: Set<Value>,
    value: Value,
)
    requires
        first.contains(value) ==> second.contains(value),
        insts_need(insts, first).contains(value),
    ensures
        insts_need(insts, second).contains(value),
    decreases insts.len(),
{
    if insts.len() > 0 {
        if insts_need(insts.skip(1), first).contains(value) {
            insts_need_monotone(insts.skip(1), first, second, value);
        }
    }
}

/// Whether one set of live values is part of another, block by block.
pub open spec fn part_of(first: Seq<Set<Value>>, second: Seq<Set<Value>>) -> bool {
    &&& first.len() == second.len()
    &&& forall|i: int, value: Value|
        0 <= i < first.len() && #[trigger] first[i].contains(value) ==> second[i].contains(value)
}

/// The more is live elsewhere, the more is live here.
pub proof fn needs_are_monotone(
    function: FunctionView,
    at: int,
    first: Seq<Set<Value>>,
    second: Seq<Set<Value>>,
    value: Value,
)
    requires
        function.well_formed(),
        0 <= at < function.blocks.len(),
        first.len() == function.blocks.len(),
        part_of(first, second),
        block_needs(function, at, first).contains(value),
    ensures
        block_needs(function, at, second).contains(value),
{
    let block = function.blocks[at];
    let before = term_needs(function, block.term, first);
    let after = term_needs(function, block.term, second);
    if before.contains(value) {
        let held = block.term->Some_0;
        assert(block.within(function.values.len(), function.slots.len(), function.blocks.len()));
        if held.decides_by() != Some(value) {
            let t = choose|t: int|
                0 <= t < held.targets().len() && jump_needs(
                    function,
                    #[trigger] held.targets()[t],
                    first,
                    value,
                );
            let target = held.targets()[t];
            assert(target.within(function.values.len(), function.blocks.len()));
            if !target.args.contains(value) {
                assert(first[target.block.0 as int].contains(value));
                assert(second[target.block.0 as int].contains(value));
            }
            assert(jump_needs(function, held.targets()[t], second, value));
        }
        assert(after.contains(value));
    }
    insts_need_monotone(block.insts, before, after, value);
}

/// What is live given what is live everywhere is live.
pub proof fn live_sets_are_closed(function: FunctionView, at: int, value: Value)
    requires
        function.well_formed(),
        0 <= at < function.blocks.len(),
        block_needs(function, at, live_sets(function)).contains(value),
    ensures
        is_live(function, at, value),
{
    let block = function.blocks[at];
    let all = live_sets(function);
    let whole = term_needs(function, block.term, all);
    assert(block.within(function.values.len(), function.slots.len(), function.blocks.len()));
    if whole.contains(value) && block.term->Some_0.decides_by() != Some(value) {
        let held = block.term->Some_0;
        let t = choose|t: int|
            0 <= t < held.targets().len() && jump_needs(
                function,
                #[trigger] held.targets()[t],
                all,
                value,
            );
        let target = held.targets()[t];
        assert(target.within(function.values.len(), function.blocks.len()));
        let steps: nat = if target.args.contains(value) {
            0
        } else {
            assert(all[target.block.0 as int].contains(value));
            choose|steps: nat| (#[trigger] live_after(function, steps))[target.block.0 as int].contains(
                value,
            )
        };
        let live = live_after(function, steps);
        assert(jump_needs(function, held.targets()[t], live, value));
        assert(term_needs(function, block.term, live).contains(value));
        insts_need_pointwise(block.insts, whole, term_needs(function, block.term, live), value);
        assert(live_after(function, steps + 1)[at].contains(value));
    } else {
        let live = live_after(function, 0);
        let some = term_needs(function, block.term, live);
        if some.contains(value) && !whole.contains(value) {
            let held = block.term->Some_0;
            let t = choose|t: int|
                0 <= t < held.targets().len() && jump_needs(
                    function,
                    #[trigger] held.targets()[t],
                    live,
                    value,
                );
            assert(held.targets()[t].within(function.values.len(), function.blocks.len()));
            assert(jump_needs(function, held.targets()[t], all, value));
        }
        insts_need_pointwise(block.insts, whole, some, value);
        assert(live_after(function, 1)[at].contains(value));
    }
}

proof fn closed_sets_hold_all(function: FunctionView, live: Seq<Set<Value>>, steps: nat)
    requires
        function.well_formed(),
        live.len() == function.blocks.len(),
        forall|i: int, value: Value|
            0 <= i < live.len() && #[trigger] block_needs(function, i, live).contains(value)
                ==> live[i].contains(value),
    ensures
        part_of(live_after(function, steps), live),
    decreases steps,
{
    if steps > 0 {
        let before = live_after(function, (steps - 1) as nat);
        closed_sets_hold_all(function, live, (steps - 1) as nat);
        assert forall|i: int, value: Value|
            0 <= i < live.len() && #[trigger] live_after(function, steps)[i].contains(
                value,
            ) implies live[i].contains(value) by {
            needs_are_monotone(function, i, before, live, value);
        }
    }
}

/// The live sets are the smallest that are closed: whatever holds what its own
/// contents make live holds them.
pub proof fn live_sets_are_the_smallest(
    function: FunctionView,
    live: Seq<Set<Value>>,
    at: int,
    value: Value,
)
    requires
        function.well_formed(),
        live.len() == function.blocks.len(),
        forall|i: int, held: Value|
            0 <= i < live.len() && #[trigger] block_needs(function, i, live).contains(held)
                ==> live[i].contains(held),
        0 <= at < function.blocks.len(),
        is_live(function, at, value),
    ensures
        live[at].contains(value),
{
    let steps = choose|steps: nat| (#[trigger] live_after(function, steps))[at].contains(value);
    closed_sets_hold_all(function, live, steps);
    assert(live_after(function, steps)[at].contains(value));
}

/// The values a row marks.
pub open spec fn row_set(row: Seq<bool>) -> Set<Value> {
    Set::new(|value: Value| value.0 < row.len() && row[value.0 as int])
}

/// The values each row marks.
pub open spec fn row_sets(rows: Seq<Vec<bool>>) -> Seq<Set<Value>> {
    Seq::new(rows.len(), |i: int| row_set(rows[i]@))
}

spec fn unmarked(row: Seq<bool>) -> nat
    decreases row.len(),
{
    if row.len() == 0 {
        0
    } else {
        unmarked(row.drop_last()) + if row.last() {
            0nat
        } else {
            1nat
        }
    }
}

spec fn all_unmarked(rows: Seq<Vec<bool>>) -> nat
    decreases rows.len(),
{
    if rows.len() == 0 {
        0
    } else {
        all_unmarked(rows.drop_last()) + unmarked(rows.last()@)
    }
}

proof fn more_marks(first: Seq<bool>, second: Seq<bool>)
    requires
        first.len() == second.len(),
        forall|i: int| 0 <= i < first.len() && first[i] ==> #[trigger] second[i],
    ensures
        unmarked(second) <= unmarked(first),
        (exists|i: int| 0 <= i < first.len() && !first[i] && #[trigger] second[i]) ==> unmarked(
            second,
        ) < unmarked(first),
    decreases first.len(),
{
    if first.len() > 0 {
        let a = first.drop_last();
        let b = second.drop_last();
        assert forall|i: int| 0 <= i < a.len() && a[i] implies #[trigger] b[i] by {
            assert(first[i]);
            assert(second[i]);
        }
        more_marks(a, b);
        assert(first.last() ==> second.last()) by {
            assert(second[first.len() - 1] == second.last());
        }
        if exists|i: int| 0 <= i < first.len() && !first[i] && #[trigger] second[i] {
            let i = choose|i: int| 0 <= i < first.len() && !first[i] && #[trigger] second[i];
            if i < a.len() {
                assert(!a[i] && b[i]);
            }
        }
    }
}

proof fn row_replaced(rows: Seq<Vec<bool>>, at: int, row: Vec<bool>)
    requires
        0 <= at < rows.len(),
    ensures
        all_unmarked(rows.update(at, row)) == all_unmarked(rows) - unmarked(rows[at]@) + unmarked(
            row@,
        ),
    decreases rows.len(),
{
    let after = rows.update(at, row);
    if at < rows.len() - 1 {
        row_replaced(rows.drop_last(), at, row);
        assert(after.drop_last() =~= rows.drop_last().update(at, row));
    } else {
        assert(after.drop_last() =~= rows.drop_last());
    }
}

fn mark_all(row: &mut Vec<bool>, values: &Vec<Value>)
    requires
        values_within(values@, old(row)@.len()),
    ensures
        final(row)@.len() == old(row)@.len(),
        row_set(final(row)@) == row_set(old(row)@).union(values@.to_set()),
{
    let mut i: usize = 0;
    assert(values@.take(0).to_set() =~= Set::empty());
    while i < values.len()
        invariant
            i <= values.len(),
            row@.len() == old(row)@.len(),
            values_within(values@, old(row)@.len()),
            row_set(row@) =~= row_set(old(row)@).union(values@.take(i as int).to_set()),
        decreases values.len() - i,
    {
        let ghost before = row@;
        let ghost taken = values@.take(i as int);
        row.set(values[i].0 as usize, true);
        proof {
            assert forall|value: Value| row_set(row@).contains(value) == row_set(
                old(row)@,
            ).union(values@.take(i + 1).to_set()).contains(value) by {
                let more = values@.take(i + 1);
                assert(more.drop_last() =~= taken);
                assert(more.contains(value) == (taken.contains(value) || value
                    == values@[i as int])) by {
                    if taken.contains(value) {
                        let k = taken.index_of(value);
                        assert(more[k] == value);
                    }
                    if value == values@[i as int] {
                        assert(more[i as int] == value);
                    }
                    if more.contains(value) {
                        let k = more.index_of(value);
                        if k < i {
                            assert(taken[k] == value);
                        }
                    }
                }
                assert(row_set(before).contains(value) == row_set(old(row)@).union(
                    taken.to_set(),
                ).contains(value));
            }
        }
        i += 1;
    }
    assert(values@.take(i as int) =~= values@);
    assert(row_set(row@) =~= row_set(old(row)@).union(values@.to_set()));
}

fn contains_value(held: &Vec<Value>, value: Value) -> (found: bool)
    ensures
        found == held@.contains(value),
{
    let mut i: usize = 0;
    while i < held.len()
        invariant
            i <= held.len(),
            forall|j: int| 0 <= j < i ==> held@[j] != value,
        decreases held.len() - i,
    {
        if held[i] == value {
            return true;
        }
        i += 1;
    }
    false
}

fn term_row(function: &Function, at: usize, live: &Vec<Vec<bool>>) -> (row: Vec<bool>)
    requires
        function@.well_formed(),
        at < function@.blocks.len(),
        live@.len() == function@.blocks.len(),
        forall|i: int| 0 <= i < live@.len() ==> (#[trigger] live@[i])@.len() == function@.values.len(),
    ensures
        row@.len() == function@.values.len(),
        row_set(row@) == term_needs(
            function@,
            function@.blocks[at as int].term,
            row_sets(live@),
        ),
{
    let ghost sets = row_sets(live@);
    let count: usize = function.values.len();
    let mut row: Vec<bool> = Vec::new();
    let mut v: usize = 0;
    while v < count
        invariant
            v <= count,
            row@.len() == v,
            forall|j: int| 0 <= j < v ==> !(#[trigger] row@[j]),
        decreases count - v,
    {
        row.push(false);
        v += 1;
    }
    let block = &function.blocks[at];
    assert(function@.blocks[at as int] == block@);
    assert(block@.within(function@.values.len(), function@.slots.len(), function@.blocks.len()));
    match &block.term {
        Some(term) => {
            let decided = match term {
                Terminator::Branch { condition, .. } => Some(*condition),
                Terminator::Switch { value, .. } => Some(*value),
                Terminator::Return(value) => Some(*value),
                Terminator::Jump(_) | Terminator::Trap(_) => None,
            };
            assert(decided == term@.decides_by());
            if let Some(value) = decided {
                row.set(value.0 as usize, true);
            }
            let targets = term.targets();
            let mut t: usize = 0;
            while t < targets.len()
                invariant
                    t <= targets.len(),
                    count == function@.values.len() == function.values.len(),
                    count <= id_limit(),
                    row@.len() == count,
                    live@.len() == function@.blocks.len(),
                    forall|i: int|
                        0 <= i < live@.len() ==> (#[trigger] live@[i])@.len()
                            == function@.values.len(),
                    sets == row_sets(live@),
                    target_views(targets@) == term@.targets(),
                    term@.within(function@.values.len(), function@.blocks.len()),
                    forall|value: Value|
                        value.0 < count ==> (row@[value.0 as int] <==> (term@.decides_by() == Some(
                            value,
                        ) || exists|k: int|
                            0 <= k < t && #[trigger] jump_needs_at(
                                function@,
                                term@,
                                k,
                                sets,
                                value,
                            ))),
                decreases targets.len() - t,
            {
                let target = targets[t];
                assert(term@.targets()[t as int] == target@);
                assert(target@.within(function@.values.len(), function@.blocks.len()));
                let ghost before = row@;
                let params = &function.block(target.block).params;
                let there = &live[target.block.0 as usize];
                let mut v: usize = 0;
                while v < count
                    invariant
                        v <= count,
                        count == function.values.len(),
                        row@.len() == count,
                        before.len() == count,
                        there@.len() == count,
                        count <= id_limit(),
                        params@ == function@.block(target.block).params,
                        forall|j: int|
                            v <= j < count ==> (#[trigger] row@[j]) == before[j],
                        forall|j: int|
                            0 <= j < v ==> (#[trigger] row@[j]) == (before[j] || there@[j]
                                && !params@.contains(Value(j as u32))),
                    decreases count - v,
                {
                    if there[v] && !contains_value(params, Value(v as u32)) {
                        row.set(v, true);
                    }
                    v += 1;
                }
                let ghost middle = row@;
                mark_all(&mut row, &target.args);
                proof {
                    assert forall|value: Value|
                        value.0 < count implies (row@[value.0 as int] <==> (term@.decides_by()
                        == Some(value) || exists|k: int|
                        0 <= k < t + 1 && #[trigger] jump_needs_at(
                            function@,
                            term@,
                            k,
                            sets,
                            value,
                        ))) by {
                        assert(row_set(row@).contains(value) == (row_set(middle).contains(value)
                            || target.args@.contains(value)));
                        assert(middle[value.0 as int] == (before[value.0 as int]
                            || there@[value.0 as int] && !params@.contains(value))) by {
                            assert(Value(value.0) == value);
                        }
                        assert(sets[target.block.0 as int].contains(value)
                            == there@[value.0 as int]);
                        assert(jump_needs_at(function@, term@, t as int, sets, value) == (
                        target.args@.contains(value) || there@[value.0 as int]
                            && !params@.contains(value)));
                        if exists|k: int|
                            0 <= k < t + 1 && #[trigger] jump_needs_at(
                                function@,
                                term@,
                                k,
                                sets,
                                value,
                            ) {
                            let k = choose|k: int|
                                0 <= k < t + 1 && #[trigger] jump_needs_at(
                                    function@,
                                    term@,
                                    k,
                                    sets,
                                    value,
                                );
                            if k < t {
                                assert(before[value.0 as int]);
                            }
                        }
                    }
                }
                t += 1;
            }
            proof {
                assert forall|value: Value| row_set(row@).contains(value) == term_needs(
                    function@,
                    block@.term,
                    sets,
                ).contains(value) by {
                    if value.0 < count {
                        if exists|k: int|
                            0 <= k < t && #[trigger] jump_needs_at(
                                function@,
                                term@,
                                k,
                                sets,
                                value,
                            ) {
                            let k = choose|k: int|
                                0 <= k < t && #[trigger] jump_needs_at(
                                    function@,
                                    term@,
                                    k,
                                    sets,
                                    value,
                                );
                            assert(jump_needs(function@, term@.targets()[k], sets, value));
                        }
                        if exists|k: int|
                            0 <= k < term@.targets().len() && jump_needs(
                                function@,
                                #[trigger] term@.targets()[k],
                                sets,
                                value,
                            ) {
                            let k = choose|k: int|
                                0 <= k < term@.targets().len() && jump_needs(
                                    function@,
                                    #[trigger] term@.targets()[k],
                                    sets,
                                    value,
                                );
                            assert(jump_needs_at(function@, term@, k, sets, value));
                        }
                    } else {
                        assert forall|k: int| 0 <= k < term@.targets().len() implies !jump_needs(
                            function@,
                            #[trigger] term@.targets()[k],
                            sets,
                            value,
                        ) by {
                            let target = term@.targets()[k];
                            assert(target.within(function@.values.len(), function@.blocks.len()));
                            if target.args.contains(value) {
                                let j = target.args.index_of(value);
                                assert(target.args[j].0 < function@.values.len());
                            }
                        }
                    }
                }
                assert(row_set(row@) =~= term_needs(function@, block@.term, sets));
            }
        },
        None => {
            assert(row_set(row@) =~= Set::empty());
        },
    }
    row
}

spec fn jump_needs_at(
    function: FunctionView,
    term: TerminatorView,
    at: int,
    live: Seq<Set<Value>>,
    value: Value,
) -> bool {
    jump_needs(function, term.targets()[at], live, value)
}

fn block_row(function: &Function, at: usize, live: &Vec<Vec<bool>>) -> (row: Vec<bool>)
    requires
        function@.well_formed(),
        at < function@.blocks.len(),
        live@.len() == function@.blocks.len(),
        forall|i: int| 0 <= i < live@.len() ==> (#[trigger] live@[i])@.len() == function@.values.len(),
    ensures
        row@.len() == function@.values.len(),
        row_set(row@) == block_needs(function@, at as int, row_sets(live@)),
{
    let mut row = term_row(function, at, live);
    let block = &function.blocks[at];
    let ghost after = row_set(row@);
    let ghost insts = block@.insts;
    assert(block@.within(function@.values.len(), function@.slots.len(), function@.blocks.len()));
    let mut i: usize = block.insts.len();
    assert(insts.skip(i as int) =~= Seq::empty());
    while i > 0
        invariant
            i <= block.insts.len(),
            insts == block@.insts,
            block@.within(function@.values.len(), function@.slots.len(), function@.blocks.len()),
            row@.len() == function@.values.len(),
            row_set(row@) == insts_need(insts.skip(i as int), after),
        decreases i,
    {
        i -= 1;
        let inst = &block.insts[i];
        let ghost before = row_set(row@);
        assert(insts[i as int] == inst@);
        assert(inst@.within(function@.values.len(), function@.slots.len()));
        assert(insts.skip(i as int)[0] == inst@);
        assert(insts.skip(i as int).skip(1) =~= insts.skip(i + 1));
        if let Some(result) = inst.result {
            row.set(result.0 as usize, false);
            assert(row_set(row@) =~= before.remove(result));
        }
        let operands = inst.kind.operands();
        proof {
            operands_within(inst@.kind, function@.values.len(), function@.slots.len());
        }
        mark_all(&mut row, &operands);
    }
    assert(insts.skip(0) =~= insts);
    let ghost whole = row_set(row@);
    let mut p: usize = 0;
    while p < block.params.len()
        invariant
            p <= block.params.len(),
            values_within(block.params@, function@.values.len()),
            row@.len() == function@.values.len(),
            row_set(row@) =~= whole.difference(block.params@.take(p as int).to_set()),
        decreases block.params.len() - p,
    {
        let ghost before = row@;
        let ghost taken = block.params@.take(p as int);
        row.set(block.params[p].0 as usize, false);
        proof {
            let more = block.params@.take(p + 1);
            assert forall|value: Value| row_set(row@).contains(value) == whole.difference(
                more.to_set(),
            ).contains(value) by {
                assert(more.contains(value) == (taken.contains(value) || value
                    == block.params@[p as int])) by {
                    if taken.contains(value) {
                        let k = taken.index_of(value);
                        assert(more[k] == value);
                    }
                    if value == block.params@[p as int] {
                        assert(more[p as int] == value);
                    }
                    if more.contains(value) {
                        let k = more.index_of(value);
                        if k < p {
                            assert(taken[k] == value);
                        }
                    }
                }
                assert(row_set(before).contains(value) == whole.difference(
                    taken.to_set(),
                ).contains(value));
            }
        }
        p += 1;
    }
    assert(block.params@.take(p as int) =~= block.params@);
    assert(row_set(row@) =~= block_needs(function@, at as int, row_sets(live@)));
    row
}

/// What an instruction reads is among the values it names.
pub proof fn operands_within(kind: crate::inst::InstKindView, values: nat, slots: nat)
    requires
        kind.within(values, slots),
    ensures
        values_within(kind.operands(), values),
{
    match kind {
        crate::inst::InstKindView::MakeMap { entries, .. } => {
            let flat = crate::inst::flat_pairs(entries);
            assert forall|i: int| 0 <= i < flat.len() implies (#[trigger] flat[i]).0 < values by {
                assert(entries[i / 2].0.0 < values && entries[i / 2].1.0 < values);
            }
        },
        _ => {},
    }
}

fn same_rows(left: &Vec<bool>, right: &Vec<bool>) -> (same: bool)
    requires
        left@.len() == right@.len(),
    ensures
        same == (left@ == right@),
{
    let mut i: usize = 0;
    while i < left.len()
        invariant
            i <= left.len(),
            left@.len() == right@.len(),
            forall|j: int| 0 <= j < i ==> left@[j] == right@[j],
        decreases left.len() - i,
    {
        if left[i] != right[i] {
            return false;
        }
        i += 1;
    }
    assert(left@ =~= right@);
    true
}

/// The values live on entry to each block, before its parameters.
pub fn live_in(function: &Function) -> (live: Vec<Vec<bool>>)
    requires
        function@.well_formed(),
    ensures
        live@.len() == function@.blocks.len(),
        forall|i: int| 0 <= i < live@.len() ==> (#[trigger] live@[i])@.len() == function@.values.len(),
        row_sets(live@) == live_sets(function@),
{
    let count: usize = function.values.len();
    let mut live: Vec<Vec<bool>> = Vec::new();
    let mut b: usize = 0;
    while b < function.blocks.len()
        invariant
            b <= function.blocks.len(),
            count == function@.values.len(),
            live@.len() == b,
            forall|i: int|
                0 <= i < b ==> (#[trigger] live@[i])@.len() == count && row_set(live@[i]@)
                    == Set::<Value>::empty(),
        decreases function.blocks.len() - b,
    {
        let mut row: Vec<bool> = Vec::new();
        let mut v: usize = 0;
        while v < count
            invariant
                v <= count,
                row@.len() == v,
                forall|j: int| 0 <= j < v ==> !(#[trigger] row@[j]),
            decreases count - v,
        {
            row.push(false);
            v += 1;
        }
        assert(row_set(row@) =~= Set::empty());
        live.push(row);
        b += 1;
    }
    let mut changed = true;
    while changed
        invariant
            function@.well_formed(),
            count == function@.values.len(),
            live@.len() == function@.blocks.len(),
            forall|i: int| 0 <= i < live@.len() ==> (#[trigger] live@[i])@.len() == count,
            part_of(row_sets(live@), live_sets(function@)),
            forall|i: int, value: Value|
                0 <= i < live@.len() && #[trigger] row_sets(live@)[i].contains(value)
                    ==> block_needs(function@, i, row_sets(live@)).contains(value),
            !changed ==> forall|i: int|
                0 <= i < live@.len() ==> (#[trigger] row_sets(live@)[i]) == block_needs(
                    function@,
                    i,
                    row_sets(live@),
                ),
        decreases (if changed { 1int } else { 0int }), all_unmarked(live@),
    {
        changed = false;
        let ghost start = all_unmarked(live@);
        let mut b: usize = function.blocks.len();
        while b > 0
            invariant
                b <= function.blocks.len(),
                function@.well_formed(),
                count == function@.values.len(),
                live@.len() == function@.blocks.len(),
                forall|i: int| 0 <= i < live@.len() ==> (#[trigger] live@[i])@.len() == count,
                part_of(row_sets(live@), live_sets(function@)),
                forall|i: int, value: Value|
                    0 <= i < live@.len() && #[trigger] row_sets(live@)[i].contains(value)
                        ==> block_needs(function@, i, row_sets(live@)).contains(value),
                changed ==> all_unmarked(live@) < start,
                !changed ==> all_unmarked(live@) == start && forall|i: int|
                    b <= i < live@.len() ==> (#[trigger] row_sets(live@)[i]) == block_needs(
                        function@,
                        i,
                        row_sets(live@),
                    ),
            decreases b,
        {
            b -= 1;
            let row = block_row(function, b, &live);
            let ghost before = live@;
            let ghost sets = row_sets(before);
            assert(sets[b as int] == row_set(before[b as int]@));
            if !same_rows(&row, &live[b]) {
                live.set(b, row);
                proof {
                    let now = row_sets(live@);
                    assert(now =~= sets.update(b as int, row_set(row@)));
                    grown(function@, before, live@, b as int);
                    assert forall|i: int, value: Value|
                        0 <= i < live@.len() && #[trigger] now[i].contains(
                            value,
                        ) implies live_sets(function@)[i].contains(value) by {
                        if i == b {
                            needs_are_monotone(
                                function@,
                                i,
                                sets,
                                live_sets(function@),
                                value,
                            );
                            live_sets_are_closed(function@, i, value);
                        } else {
                            assert(sets[i].contains(value));
                        }
                    }
                    let old_row = before[b as int]@;
                    assert forall|i: int| 0 <= i < old_row.len() && old_row[i] implies
                        #[trigger] row@[i] by {
                        let value = Value(i as u32);
                        assert(sets[b as int].contains(value));
                        assert(row_set(row@).contains(value));
                    }
                    more_marks(old_row, row@);
                    assert(exists|i: int| 0 <= i < old_row.len() && !old_row[i]
                        && #[trigger] row@[i]) by {
                        if forall|i: int| 0 <= i < old_row.len() && !old_row[i] ==> !(
                        #[trigger] row@[i]) {
                            assert(row@ =~= old_row);
                        }
                    }
                    row_replaced(before, b as int, row);
                }
                changed = true;
            } else {
                assert(row@ == before[b as int]@);
            }
        }
    }
    proof {
        let sets = row_sets(live@);
        assert forall|i: int| 0 <= i < live@.len() implies (#[trigger] sets[i])
            =~= live_sets(function@)[i] by {
            assert forall|value: Value| is_live(function@, i, value) implies sets[i].contains(
                value,
            ) by {
                live_sets_are_the_smallest(function@, sets, i, value);
            }
        }
        assert(sets =~= live_sets(function@));
    }
    live
}

proof fn grown(
    function: FunctionView,
    before: Seq<Vec<bool>>,
    after: Seq<Vec<bool>>,
    at: int,
)
    requires
        function.well_formed(),
        before.len() == function.blocks.len(),
        0 <= at < before.len(),
        after.len() == before.len(),
        row_sets(after) == row_sets(before).update(
            at,
            block_needs(function, at, row_sets(before)),
        ),
        forall|i: int, value: Value|
            0 <= i < before.len() && #[trigger] row_sets(before)[i].contains(value) ==> block_needs(
                function,
                i,
                row_sets(before),
            ).contains(value),
    ensures
        forall|i: int, value: Value|
            0 <= i < after.len() && #[trigger] row_sets(after)[i].contains(value) ==> block_needs(
                function,
                i,
                row_sets(after),
            ).contains(value),
{
    let was = row_sets(before);
    let now = row_sets(after);
    assert(part_of(was, now)) by {
        assert forall|i: int, value: Value|
            0 <= i < was.len() && #[trigger] was[i].contains(value) implies now[i].contains(
            value,
        ) by {}
    }
    assert forall|i: int, value: Value|
        0 <= i < after.len() && #[trigger] now[i].contains(value) implies block_needs(
        function,
        i,
        now,
    ).contains(value) by {
        if i != at {
            assert(was[i].contains(value));
        }
        needs_are_monotone(function, i, was, now, value);
    }
}

} // verus!
