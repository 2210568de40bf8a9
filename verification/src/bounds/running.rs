//! What happens when a function runs, as far as the bounds of its lists go.

use vstd::prelude::*;

use crate::inst::{BinaryOp, ConstView, InstKindView, InstView, TerminatorView, Value};
use crate::program::{BlockId, FunctionView};
use crate::text::{position, position_is_first};

use super::{
    a_place_is_there, a_way_goes_on, ascends, count_of, definition, edge,
    elimination_only_unchecks, eliminated, enters, guarded, is_positive, joined, lasts, leads,
    on_the_way, only_way_in, place, resizes, same_or_unchecked, seeds, spells_no_sign, steps,
    unchecked_access_is_guarded, without_check,
};

verus! {

/// What a value holds while a function runs: a whole number, a truth, or something
/// that is told apart by which one it is, such as a list.
pub enum Datum {
    Number(int),
    Truth(bool),
    Object(int),
    Other,
}

/// A moment of a run: which instruction of which block is next, what each value that
/// was produced holds, and how many each list holds.
pub struct Moment {
    pub block: int,
    pub at: int,
    pub held: Map<Value, Datum>,
    pub lengths: spec_fn(int) -> nat,
}

/// Whether an instruction may produce `given` as `result`. Only what bounds depend on
/// is said: a constant is what it spells, integers add up or the addition traps, a
/// comparison compares, and the length of a list is how many it holds. Everything
/// else may produce anything.
pub open spec fn gives(
    function: FunctionView,
    kind: InstKindView,
    result: Value,
    before: Moment,
    given: Datum,
) -> bool {
    match kind {
        InstKindView::Const(ConstView::Int(bits)) => result.0 < function.values.len()
            && spells_no_sign(bits, function.type_of(result)) ==> given == Datum::Number(bits as int),
        InstKindView::Binary { op: BinaryOp::Add, left, right } => match (
            before.held[left],
            before.held[right],
        ) {
            (Datum::Number(a), Datum::Number(b)) => given == Datum::Number(a + b),
            _ => true,
        },
        InstKindView::Binary { op: BinaryOp::Less, left, right } => match (
            before.held[left],
            before.held[right],
        ) {
            (Datum::Number(a), Datum::Number(b)) => given == Datum::Truth(a < b),
            _ => true,
        },
        InstKindView::Length { receiver } => match before.held[receiver] {
            Datum::Object(which) => given == Datum::Number((before.lengths)(which) as int),
            _ => false,
        },
        _ => true,
    }
}

/// Whether each of some values was produced.
pub open spec fn all_held(before: Moment, values: Seq<Value>) -> bool {
    forall|i: int| 0 <= i < values.len() ==> before.held.contains_key(#[trigger] values[i])
}

/// Whether running an instruction leads from one moment to another. It reads only what
/// was produced, and only one that may resize a list changes how many any holds. One
/// that traps leads nowhere.
pub open spec fn inst_runs(
    function: FunctionView,
    inst: InstView,
    before: Moment,
    after: Moment,
) -> bool {
    &&& all_held(before, inst.kind.operands())
    &&& after.block == before.block
    &&& after.at == before.at + 1
    &&& resizes(inst.kind) || after.lengths == before.lengths
    &&& match inst.result {
        Some(result) => exists|given: Datum|
            #[trigger] gives(function, inst.kind, result, before, given) && after.held
                == before.held.insert(result, given),
        None => after.held == before.held,
    }
}

/// What each value holds once the first `count` parameters hold what the arguments
/// held.
pub open spec fn passing(
    held: Map<Value, Datum>,
    params: Seq<Value>,
    args: Seq<Value>,
    count: nat,
) -> Map<Value, Datum>
    decreases count,
{
    if count == 0 {
        held
    } else {
        passing(held, params, args, (count - 1) as nat).insert(
            params[count - 1],
            held[args[count - 1]],
        )
    }
}

/// Whether what ends a block may take its `which`th jump. A branch goes by its
/// condition. Which case of a switch is taken is left open.
pub open spec fn takes(term: TerminatorView, which: int, before: Moment) -> bool {
    match term {
        TerminatorView::Branch { condition, .. } => before.held.contains_key(condition)
            && before.held[condition] == Datum::Truth(which == 0),
        _ => true,
    }
}

/// Whether the `which`th jump out of a block leads from one moment to another.
pub open spec fn jump_runs(
    function: FunctionView,
    term: TerminatorView,
    which: int,
    before: Moment,
    after: Moment,
) -> bool {
    &&& 0 <= which < term.targets().len()
    &&& takes(term, which, before)
    &&& {
        let jump = term.targets()[which];
        let params = function.block(jump.block).params;
        &&& jump.block.0 < function.blocks.len()
        &&& all_held(before, jump.args)
        &&& jump.args.len() == params.len()
        &&& after.block == jump.block.0
        &&& after.at == 0
        &&& after.lengths == before.lengths
        &&& after.held == passing(before.held, params, jump.args, params.len())
    }
}

/// Whether one moment of a run may come right after another.
pub open spec fn follows(function: FunctionView, before: Moment, after: Moment) -> bool {
    &&& 0 <= before.block < function.blocks.len()
    &&& {
        let block = function.blocks[before.block];
        ||| 0 <= before.at < block.insts.len() && inst_runs(
            function,
            block.insts[before.at],
            before,
            after,
        )
        ||| before.at == block.insts.len() && (block.term matches Some(term) && exists|which: int|
            #[trigger] jump_runs(function, term, which, before, after))
    }
}

/// Whether a run may start with a moment: at the start of the first block, with
/// whatever the caller passes for its parameters and nothing else.
pub open spec fn starts(function: FunctionView, first: Moment) -> bool {
    &&& first.block == function.entry.0
    &&& first.at == 0
    &&& forall|value: Value| #[trigger]
        first.held.contains_key(value) ==> function.block(function.entry).params.contains(value)
}

/// Whether the function may run through these moments.
pub open spec fn runs(function: FunctionView, moments: Seq<Moment>) -> bool {
    &&& moments.len() > 0
    &&& starts(function, moments[0])
    &&& forall|i: int|
        0 <= i < moments.len() - 1 ==> follows(function, #[trigger] moments[i], moments[i + 1])
}

/// Whether no value is produced in two places: by two instructions, as two parameters,
/// or as both.
pub open spec fn defined_once(function: FunctionView) -> bool {
    &&& forall|b: int, i: int, c: int, j: int|
        0 <= b < function.blocks.len() && 0 <= i < function.blocks[b].insts.len() && 0 <= c
            < function.blocks.len() && 0 <= j < function.blocks[c].insts.len() && (
        #[trigger] function.blocks[b].insts[i]).result is Some && function.blocks[b].insts[i].result
            == (#[trigger] function.blocks[c].insts[j]).result ==> b == c && i == j
    &&& forall|b: int, i: int, c: int, k: int|
        0 <= b < function.blocks.len() && 0 <= i < function.blocks[b].insts.len() && 0 <= c
            < function.blocks.len() && 0 <= k < function.blocks[c].params.len() ==> (
        #[trigger] function.blocks[b].insts[i]).result != Some(
            #[trigger] function.blocks[c].params[k],
        )
    &&& forall|b: int, k: int, c: int, l: int|
        0 <= b < function.blocks.len() && 0 <= k < function.blocks[b].params.len() && 0 <= c
            < function.blocks.len() && 0 <= l < function.blocks[c].params.len() && (
        #[trigger] function.blocks[b].params[k]) == (#[trigger] function.blocks[c].params[l]) ==> b
            == c && k == l
}

/// The list and the index of an access without a check, where the instruction is one.
pub open spec fn unchecked_access(kind: InstKindView) -> Option<(Value, Value)> {
    match kind {
        InstKindView::GetUncheckedIndex { receiver, index } => Some((receiver, index)),
        InstKindView::SetUncheckedIndex { receiver, index, .. } => Some((receiver, index)),
        _ => None,
    }
}

/// Whether every access of the function has its check.
pub open spec fn all_checked(function: FunctionView) -> bool {
    forall|b: int, i: int|
        0 <= b < function.blocks.len() && 0 <= i < function.blocks[b].insts.len()
            ==> unchecked_access((#[trigger] function.blocks[b].insts[i]).kind) is None
}

/// Whether what is held is a number that is not negative.
pub open spec fn is_count(held: Datum) -> bool {
    held matches Datum::Number(n) && n >= 0
}

/// Whether, at a moment, `receiver` holds a list and `index` a number that is in range
/// for it.
pub open spec fn in_range(now: Moment, receiver: Value, index: Value) -> bool {
    &&& now.held.contains_key(receiver)
    &&& now.held.contains_key(index)
    &&& match (now.held[receiver], now.held[index]) {
        (Datum::Object(which), Datum::Number(at)) => 0 <= at < (now.lengths)(which),
        _ => false,
    }
}

/// What a loop that proves an access in range is made of: the block `header` ends with
/// a test whether `index` is below `length`, which the instruction at `test` makes;
/// `length` is that of `receiver`, read at `read` in the block `source`; and the test
/// leads to the block `body`, in which the first `limit` instructions leave lengths as
/// they are.
pub struct Guard {
    pub header: int,
    pub test: int,
    pub condition: Value,
    pub index: Value,
    pub length: Value,
    pub receiver: Value,
    pub source: int,
    pub read: int,
    pub body: int,
    pub limit: int,
}

impl Guard {
    /// Whether the function has such a loop.
    pub open spec fn holds(self, function: FunctionView) -> bool {
        &&& 0 <= self.header < function.blocks.len()
        &&& 0 <= self.body < function.blocks.len()
        &&& 0 <= self.test < function.blocks[self.header].insts.len()
        &&& function.blocks[self.header].insts[self.test].result == Some(self.condition)
        &&& function.blocks[self.header].insts[self.test].kind == (InstKindView::Binary {
            op: BinaryOp::Less,
            left: self.index,
            right: self.length,
        })
        &&& 0 <= self.source < function.blocks.len()
        &&& 0 <= self.read < function.blocks[self.source].insts.len()
        &&& function.blocks[self.source].insts[self.read].result == Some(self.length)
        &&& function.blocks[self.source].insts[self.read].kind == (InstKindView::Length {
            receiver: self.receiver,
        })
        &&& self.source == self.header ==> self.read < self.test
        &&& lasts(function, self.source, self.read, self.header)
        &&& function.blocks[self.header].term matches Some(
            TerminatorView::Branch { condition, then, .. },
        ) && condition == self.condition && then.block.0 == self.body && only_way_in(
            function,
            self.header,
            then.block,
        )
        &&& ascends(function, BlockId(self.header as u32), self.index)
        &&& 0 <= self.limit <= function.blocks[self.body].insts.len()
        &&& forall|j: int|
            0 <= j < self.limit ==> !resizes((#[trigger] function.blocks[self.body].insts[j]).kind)
    }

    /// Whether a place is one where the length that was read is still the length.
    pub open spec fn fresh_at(self, function: FunctionView, block: int, at: int) -> bool {
        ||| on_the_way(function, self.source, self.header, block) && (block == self.source ==> at
            > self.read)
        ||| block == self.body && at <= self.limit
    }

    /// Whether the instruction at `i` of the block `b` produces the list, where its
    /// length was read already.
    pub open spec fn produced_late(self, function: FunctionView, b: int, i: int) -> bool {
        &&& 0 <= b < function.blocks.len()
        &&& 0 <= i < function.blocks[b].insts.len()
        &&& function.blocks[b].insts[i].result == Some(self.receiver)
        &&& self.fresh_at(function, b, i) || b == self.source && i == self.read || b == self.body
    }

    /// Whether the parameter at `k` of the block `b` is the list, where its length was
    /// read already.
    pub open spec fn taken_late(self, function: FunctionView, b: int, k: int) -> bool {
        &&& 0 <= b < function.blocks.len()
        &&& 0 <= k < function.blocks[b].params.len()
        &&& function.blocks[b].params[k] == self.receiver
        &&& self.fresh_at(function, b, 0) || b == self.body
    }

    /// Whether the list is only produced where its length was read already, so that
    /// nothing ever gets there.
    pub open spec fn circular(self, function: FunctionView) -> bool {
        ||| exists|b: int, i: int| #[trigger] self.produced_late(function, b, i)
        ||| exists|b: int, k: int| #[trigger] self.taken_late(function, b, k)
    }

    /// Whether a value holds what the counting makes of it.
    pub open spec fn counts(self, function: FunctionView, value: Value, held: Datum) -> bool {
        &&& value == self.index ==> is_count(held)
        &&& count_of(function, value) matches Some(bits) ==> held == Datum::Number(bits as int)
        &&& match definition(function.blocks, value) {
            Some(InstKindView::Binary { op: BinaryOp::Add, left, right }) => left == self.index
                && is_positive(function, right) ==> is_count(held),
            _ => true,
        }
    }

    /// Whether the length that was read is how many the list holds.
    pub open spec fn is_fresh(self, now: Moment) -> bool {
        &&& now.held.contains_key(self.receiver)
        &&& now.held.contains_key(self.length)
        &&& now.held[self.receiver] matches Datum::Object(which) && now.held[self.length]
            == Datum::Number((now.lengths)(which) as int)
    }

    /// Whether the index and the length are numbers, and the first is below the second
    /// just where `truth` says so.
    pub open spec fn compares(self, now: Moment, truth: bool) -> bool {
        &&& now.held.contains_key(self.index)
        &&& now.held.contains_key(self.length)
        &&& match (now.held[self.index], now.held[self.length]) {
            (Datum::Number(a), Datum::Number(b)) => truth == (a < b),
            _ => false,
        }
    }

    /// What holds at every moment of a run.
    pub open spec fn kept(self, function: FunctionView, now: Moment) -> bool {
        &&& 0 <= now.block < function.blocks.len()
        &&& 0 <= now.at <= function.blocks[now.block].insts.len()
        &&& forall|value: Value| #[trigger]
            now.held.contains_key(value) ==> self.counts(function, value, now.held[value])
        &&& if self.circular(function) {
            &&& !self.fresh_at(function, now.block, now.at)
            &&& now.block != self.body
            &&& !now.held.contains_key(self.receiver)
        } else {
            self.fresh_at(function, now.block, now.at) ==> self.is_fresh(now)
        }
        &&& now.block == self.header && now.at > self.test ==> now.held.contains_key(
            self.condition,
        ) && (now.held[self.condition] matches Datum::Truth(truth) && self.compares(now, truth))
        &&& now.block == self.body && now.at <= self.limit ==> self.compares(now, true)
    }
}

proof fn produced_where_it_is_placed(function: FunctionView, b: int, i: int, value: Value)
    requires
        defined_once(function),
        0 <= b < function.blocks.len(),
        0 <= i < function.blocks[b].insts.len(),
        function.blocks[b].insts[i].result == Some(value),
    ensures
        place(function.blocks, value) == Some((b, i)),
        definition(function.blocks, value) == Some(function.blocks[b].insts[i].kind),
{
    a_place_is_there(function.blocks, value);
    let (c, j) = place(function.blocks, value)->Some_0;
    assert(function.blocks[c].insts[j].result == function.blocks[b].insts[i].result);
}

proof fn a_parameter_is_not_placed(function: FunctionView, b: int, k: int)
    requires
        defined_once(function),
        0 <= b < function.blocks.len(),
        0 <= k < function.blocks[b].params.len(),
    ensures
        place(function.blocks, function.blocks[b].params[k]) is None,
{
    let value = function.blocks[b].params[k];
    a_place_is_there(function.blocks, value);
    if let Some((c, j)) = place(function.blocks, value) {
        assert(function.blocks[c].insts[j].result != Some(function.blocks[b].params[k]));
    }
}

proof fn what_is_passed(
    held: Map<Value, Datum>,
    params: Seq<Value>,
    args: Seq<Value>,
    count: nat,
    value: Value,
)
    requires
        count <= params.len(),
        count <= args.len(),
    ensures
        passing(held, params, args, count).contains_key(value) ==> {
            ||| held.contains_key(value) && passing(held, params, args, count)[value] == held[value]
            ||| exists|k: int|
                0 <= k < count && #[trigger] params[k] == value && passing(
                    held,
                    params,
                    args,
                    count,
                )[value] == held[args[k]]
        },
        (forall|k: int| 0 <= k < count ==> #[trigger] params[k] != value) ==> passing(
            held,
            params,
            args,
            count,
        ).contains_key(value) == held.contains_key(value) && passing(held, params, args, count)[
            value] == held[value],
    decreases count,
{
    if count > 0 {
        what_is_passed(held, params, args, (count - 1) as nat, value);
        if params[count - 1] != value {
            let before = passing(held, params, args, (count - 1) as nat);
            if before.contains_key(value) && !(held.contains_key(value) && before[value]
                == held[value]) {
                let k = choose|k: int|
                    0 <= k < count - 1 && #[trigger] params[k] == value && before[value]
                        == held[args[k]];
                assert(params[k] == value);
            }
        }
    }
}

/// What the index is: a parameter of the header, at one place, and of no other block.
proof fn the_index_is_a_parameter(function: FunctionView, held: Guard)
    requires
        function.well_formed(),
        defined_once(function),
        held.holds(function),
    ensures
        ({
            let params = function.blocks[held.header].params;
            &&& position(params, held.index) is Some
            &&& 0 <= position(params, held.index)->Some_0 < params.len()
            &&& params[position(params, held.index)->Some_0] == held.index
        }),
        place(function.blocks, held.index) is None,
{
    let params = function.blocks[held.header].params;
    assert(function.block(BlockId(held.header as u32)).params == params);
    position_is_first(params, held.index);
    let at = position(params, held.index)->Some_0;
    a_parameter_is_not_placed(function, held.header, at);
}

proof fn a_circular_list_is_only_produced_late(function: FunctionView, guard: Guard)
    requires
        defined_once(function),
        guard.circular(function),
    ensures
        forall|b: int, i: int|
            0 <= b < function.blocks.len() && 0 <= i < function.blocks[b].insts.len() && (
            #[trigger] function.blocks[b].insts[i]).result == Some(guard.receiver)
                ==> guard.produced_late(function, b, i),
        forall|b: int, k: int|
            0 <= b < function.blocks.len() && 0 <= k < function.blocks[b].params.len()
                && #[trigger] function.blocks[b].params[k] == guard.receiver
                ==> guard.taken_late(function, b, k),
{
    if exists|b: int, i: int| #[trigger] guard.produced_late(function, b, i) {
        let (c, j) = choose|b: int, i: int| #[trigger] guard.produced_late(function, b, i);
        assert(function.blocks[c].insts[j].result == Some(guard.receiver));
    } else {
        let (c, l) = choose|b: int, k: int| #[trigger] guard.taken_late(function, b, k);
        assert(function.blocks[c].params[l] == guard.receiver);
    }
}

proof fn counting_starts(function: FunctionView, guard: Guard, first: Moment)
    requires
        function.well_formed(),
        defined_once(function),
        guard.holds(function),
        starts(function, first),
    ensures
        guard.kept(function, first),
{
    the_index_is_a_parameter(function, guard);
    let entry = function.entry.0 as int;
    let at = position(function.blocks[guard.header].params, guard.index)->Some_0;
    assert(function.blocks[guard.header].params[at] == guard.index);
    assert(function.block(function.entry) == function.blocks[entry]);
    assert forall|value: Value| #[trigger] first.held.contains_key(value) implies guard.counts(
        function,
        value,
        first.held[value],
    ) by {
        let k = choose|k: int|
            0 <= k < function.blocks[entry].params.len() && function.blocks[entry].params[k]
                == value;
        a_parameter_is_not_placed(function, entry, k);
        assert(value != guard.index);
    }
    assert(!guard.fresh_at(function, entry, 0));
    if guard.circular(function) && first.held.contains_key(guard.receiver) {
        a_circular_list_is_only_produced_late(function, guard);
        let k = choose|k: int|
            0 <= k < function.blocks[entry].params.len() && function.blocks[entry].params[k]
                == guard.receiver;
        assert(function.blocks[entry].params[k] == guard.receiver);
    }
}

proof fn counting_goes_on(
    function: FunctionView,
    guard: Guard,
    before: Moment,
    after: Moment,
    value: Value,
    given: Datum,
)
    requires
        function.well_formed(),
        defined_once(function),
        guard.holds(function),
        guard.kept(function, before),
        before.at < function.blocks[before.block].insts.len(),
        inst_runs(function, function.blocks[before.block].insts[before.at], before, after),
        function.blocks[before.block].insts[before.at].result == Some(value),
        gives(
            function,
            function.blocks[before.block].insts[before.at].kind,
            value,
            before,
            given,
        ),
    ensures
        guard.counts(function, value, given),
        value != guard.index,
{
    let inst = function.blocks[before.block].insts[before.at];
    the_index_is_a_parameter(function, guard);
    produced_where_it_is_placed(function, before.block, before.at, value);
    if let InstKindView::Binary { op: BinaryOp::Add, left, right } = inst.kind {
        if left == guard.index && is_positive(function, right) {
            assert(inst.kind.operands() == seq![left, right]);
            assert(inst.kind.operands()[0] == left);
            assert(inst.kind.operands()[1] == right);
            assert(before.held.contains_key(left) && before.held.contains_key(right));
        }
    }
}

proof fn an_instruction_keeps(
    function: FunctionView,
    guard: Guard,
    before: Moment,
    after: Moment,
)
    requires
        function.well_formed(),
        defined_once(function),
        guard.holds(function),
        guard.kept(function, before),
        before.at < function.blocks[before.block].insts.len(),
        inst_runs(function, function.blocks[before.block].insts[before.at], before, after),
    ensures
        guard.kept(function, after),
{
    let b = before.block;
    let at = before.at;
    let inst = function.blocks[b].insts[at];
    the_index_is_a_parameter(function, guard);
    assert(function.blocks[guard.source].insts[guard.read].kind.operands() == seq![guard.receiver]);
    assert(function.blocks[guard.source].insts[guard.read].kind.operands()[0] == guard.receiver);
    assert(function.blocks[guard.header].insts[guard.test].kind.operands() == seq![
        guard.index,
        guard.length,
    ]);
    assert(function.blocks[guard.header].insts[guard.test].kind.operands()[0] == guard.index);
    assert(function.blocks[guard.header].insts[guard.test].kind.operands()[1] == guard.length);
    // What is produced counts as it should.
    if let Some(value) = inst.result {
        let given = choose|given: Datum|
            #[trigger] gives(function, inst.kind, value, before, given) && after.held
                == before.held.insert(value, given);
        counting_goes_on(function, guard, before, after, value, given);
        assert forall|other: Value| #[trigger] after.held.contains_key(other) implies guard.counts(
            function,
            other,
            after.held[other],
        ) by {
            assert(other == value || before.held.contains_key(other));
        }
        produced_where_it_is_placed(function, b, at, value);
        produced_where_it_is_placed(function, guard.source, guard.read, guard.length);
        produced_where_it_is_placed(function, guard.header, guard.test, guard.condition);
        if guard.fresh_at(function, b, at + 1) && value == guard.receiver {
            assert(guard.produced_late(function, b, at));
        }
    }
    assert(on_the_way(function, guard.source, guard.header, guard.header)) by {
        assert(leads(function, seq![guard.header], guard.source, guard.header));
    }
    if guard.circular(function) {
        assert(!(b == guard.source && at == guard.read));
        assert(!guard.fresh_at(function, b, at + 1));
        a_circular_list_is_only_produced_late(function, guard);
    } else if guard.fresh_at(function, b, at + 1) {
        if b == guard.source && at == guard.read {
            assert(guard.is_fresh(after));
        } else {
            assert(guard.fresh_at(function, b, at));
            assert(!resizes(inst.kind));
            assert(guard.is_fresh(after));
        }
    }
    if b == guard.header && at >= guard.test {
        assert(guard.fresh_at(function, b, at));
        assert(guard.is_fresh(before));
        assert(after.held.contains_key(guard.condition));
        assert(inst.result != Some(guard.index));
        if at > guard.test {
            assert(inst.result != Some(guard.length));
            assert(inst.result != Some(guard.condition));
        } else {
            assert(inst.kind == function.blocks[guard.header].insts[guard.test].kind);
            assert(before.held.contains_key(guard.index));
            assert(guard.length != guard.condition);
        }
        assert(after.held[guard.condition] matches Datum::Truth(truth) && guard.compares(
            after,
            truth,
        ));
    }
    if b == guard.body && at + 1 <= guard.limit {
        assert(guard.fresh_at(function, b, at));
        assert(guard.is_fresh(before));
        assert(guard.compares(after, true));
    }
}

proof fn a_jump_keeps(
    function: FunctionView,
    guard: Guard,
    before: Moment,
    which: int,
    after: Moment,
)
    requires
        function.well_formed(),
        defined_once(function),
        guard.holds(function),
        guard.kept(function, before),
        before.at == function.blocks[before.block].insts.len(),
        function.blocks[before.block].term is Some,
        jump_runs(function, function.blocks[before.block].term->Some_0, which, before, after),
    ensures
        guard.kept(function, after),
{
    let from = before.block;
    let term = function.blocks[from].term->Some_0;
    let jump = term.targets()[which];
    let to = jump.block.0 as int;
    let params = function.blocks[to].params;
    assert(function.block(jump.block) == function.blocks[to]);
    assert(enters(function, from, which, jump.block));
    assert(edge(function, from, which) == jump);
    assert(joined(function, from, to));
    the_index_is_a_parameter(function, guard);
    produced_where_it_is_placed(function, guard.source, guard.read, guard.length);
    let first = position(function.blocks[guard.header].params, guard.index)->Some_0;
    assert forall|value: Value| #[trigger] after.held.contains_key(value) implies guard.counts(
        function,
        value,
        after.held[value],
    ) by {
        what_is_passed(before.held, params, jump.args, params.len(), value);
        if !(before.held.contains_key(value) && after.held[value] == before.held[value]) {
            let k = choose|k: int|
                0 <= k < params.len() && #[trigger] params[k] == value && after.held[value]
                    == before.held[jump.args[k]];
            a_parameter_is_not_placed(function, to, k);
            assert(before.held.contains_key(jump.args[k]));
            if value == guard.index {
                assert(function.blocks[to].params[k] == function.blocks[guard.header].params[first]);
                assert(to == guard.header && k == first);
                assert(function.block(BlockId(guard.header as u32)) == function.blocks[to]);
                assert(jump.block == BlockId(guard.header as u32));
                assert(enters(function, from, which, BlockId(guard.header as u32)));
                assert(seeds(function, jump, first) || steps(function, jump, first, guard.index));
            }
        }
    }
    assert(on_the_way(function, guard.source, guard.header, guard.header)) by {
        assert(leads(function, seq![guard.header], guard.source, guard.header));
    }
    // A place where the length is fresh is only entered from one.
    if guard.fresh_at(function, to, 0) {
        if to == guard.body {
            assert(from == guard.header && which == 0);
        } else {
            assert(to != guard.source);
            a_way_goes_on(function, guard.source, guard.header, from, to);
        }
        assert(guard.fresh_at(function, from, before.at));
    }
    what_is_passed(before.held, params, jump.args, params.len(), guard.receiver);
    what_is_passed(before.held, params, jump.args, params.len(), guard.length);
    what_is_passed(before.held, params, jump.args, params.len(), guard.index);
    assert forall|k: int| 0 <= k < params.len() implies #[trigger] params[k] != guard.length by {
        a_parameter_is_not_placed(function, to, k);
    }
    if guard.circular(function) {
        if after.held.contains_key(guard.receiver) {
            let k = choose|k: int|
                0 <= k < params.len() && #[trigger] params[k] == guard.receiver && after.held[
                guard.receiver] == before.held[jump.args[k]];
            assert(function.blocks[to].params[k] == guard.receiver);
            a_circular_list_is_only_produced_late(function, guard);
        }
    } else if guard.fresh_at(function, to, 0) {
        assert forall|k: int| 0 <= k < params.len() implies #[trigger] params[k]
            != guard.receiver by {
            assert(!guard.taken_late(function, to, k));
        }
        assert(guard.is_fresh(after));
    }
    if to == guard.body && 0 <= guard.limit {
        assert(from == guard.header && which == 0);
        assert(before.held[guard.condition] == Datum::Truth(true));
        assert(guard.compares(before, true));
        the_body_is_not_the_header(function, guard);
        assert forall|k: int| 0 <= k < params.len() implies #[trigger] params[k]
            != guard.index by {
            if params[k] == guard.index {
                assert(function.blocks[to].params[k] == function.blocks[guard.header].params[first]);
            }
        }
        assert(guard.compares(after, true));
    }
}

proof fn the_body_is_not_the_header(function: FunctionView, guard: Guard)
    requires
        function.well_formed(),
        guard.holds(function),
    ensures
        guard.body != guard.header,
{
    if guard.body == guard.header {
        let header = BlockId(guard.header as u32);
        let at = position(function.block(header).params, guard.index)->Some_0;
        let (from, which) = choose|from: int, which: int| #[trigger]
            enters(function, from, which, header) && seeds(
                function,
                edge(function, from, which),
                at,
            );
        let (other, way) = choose|from: int, which: int| #[trigger]
            enters(function, from, which, header) && steps(
                function,
                edge(function, from, which),
                at,
                guard.index,
            );
        assert(from == other && which == way);
    }
}

proof fn every_moment_keeps(function: FunctionView, guard: Guard, moments: Seq<Moment>, i: int)
    requires
        function.well_formed(),
        defined_once(function),
        guard.holds(function),
        runs(function, moments),
        0 <= i < moments.len(),
    ensures
        guard.kept(function, moments[i]),
    decreases i,
{
    if i == 0 {
        counting_starts(function, guard, moments[0]);
    } else {
        every_moment_keeps(function, guard, moments, i - 1);
        let before = moments[i - 1];
        let after = moments[i];
        assert(follows(function, moments[i - 1], moments[i - 1 + 1]));
        let block = function.blocks[before.block];
        if before.at < block.insts.len() {
            an_instruction_keeps(function, guard, before, after);
        } else {
            let which = choose|which: int|
                #[trigger] jump_runs(function, block.term->Some_0, which, before, after);
            a_jump_keeps(function, guard, before, which, after);
        }
    }
}

proof fn losing_checks_changes_no_run(function: FunctionView, moments: Seq<Moment>)
    requires
        function.well_formed(),
        runs(eliminated(function), moments),
    ensures
        runs(function, moments),
{
    elimination_only_unchecks(function);
    let after = eliminated(function);
    assert(after.block(after.entry).params == function.block(function.entry).params) by {
        assert(after.blocks[function.entry.0 as int].params
            == function.blocks[function.entry.0 as int].params);
    }
    assert forall|i: int| 0 <= i < moments.len() - 1 implies follows(
        function,
        #[trigger] moments[i],
        moments[i + 1],
    ) by {
        assert(follows(after, moments[i], moments[i + 1]));
        let now = moments[i];
        let next = moments[i + 1];
        let b = now.block;
        assert(after.blocks[b].params == function.blocks[b].params);
        if now.at < after.blocks[b].insts.len() {
            let inst = after.blocks[b].insts[now.at];
            let original = function.blocks[b].insts[now.at];
            assert(same_or_unchecked(original, inst));
            if let Some(result) = inst.result {
                let given = choose|given: Datum|
                    #[trigger] gives(after, inst.kind, result, now, given) && next.held
                        == now.held.insert(result, given);
                assert(gives(function, original.kind, result, now, given));
            }
            assert(inst.kind.operands() =~= original.kind.operands());
            assert(inst_runs(function, original, now, next));
        } else {
            let term = after.blocks[b].term->Some_0;
            let which = choose|which: int| #[trigger] jump_runs(after, term, which, now, next);
            let to = term.targets()[which].block;
            assert(after.blocks[to.0 as int].params == function.blocks[to.0 as int].params);
            assert(jump_runs(function, term, which, now, next));
        }
    }
}

/// Leaving out checks is safe: however a function runs once they are left out, at every
/// access without a check the list is there, and the index is a number that is not
/// negative and below how many the list then holds.
pub proof fn every_unchecked_access_is_in_range(
    function: FunctionView,
    moments: Seq<Moment>,
    i: int,
)
    requires
        function.well_formed(),
        defined_once(function),
        all_checked(function),
        runs(eliminated(function), moments),
        0 <= i < moments.len(),
    ensures
        ({
            let now = moments[i];
            let insts = eliminated(function).blocks[now.block].insts;
            now.at < insts.len() ==> match unchecked_access(insts[now.at].kind) {
                Some((receiver, index)) => in_range(now, receiver, index),
                None => true,
            }
        }),
{
    let now = moments[i];
    let after = eliminated(function);
    let b = now.block;
    let at = now.at;
    losing_checks_changes_no_run(function, moments);
    elimination_only_unchecks(function);
    every_moment_is_somewhere(function, moments, i);
    if at < after.blocks[b].insts.len() && unchecked_access(after.blocks[b].insts[at].kind) is Some {
        assert(unchecked_access(function.blocks[b].insts[at].kind) is None);
        unchecked_access_is_guarded(function, b, at);
        let (header, receiver, index) = choose|header: int, receiver: Value, index: Value|
            #[trigger] guarded(function, header, b, at, receiver, index) && without_check(
                function.blocks[b].insts[at].kind,
                receiver,
                index,
            ) == Some(after.blocks[b].insts[at].kind);
        let condition = function.blocks[header].term->Some_0->Branch_condition;
        a_place_is_there(function.blocks, condition);
        let test = place(function.blocks, condition)->Some_0.1;
        let length = function.blocks[header].insts[test].kind->Binary_right;
        a_place_is_there(function.blocks, length);
        let (source, read) = place(function.blocks, length)->Some_0;
        let guard = Guard {
            header,
            test,
            condition,
            index,
            length,
            receiver,
            source,
            read,
            body: b,
            limit: at,
        };
        assert forall|j: int| 0 <= j < at implies !resizes(
            (#[trigger] function.blocks[b].insts[j]).kind,
        ) by {
            let kind = function.blocks[b].insts[j].kind;
            assert(!(kind.effect() is State) || without_check(kind, receiver, index) is Some);
        }
        assert(guard.holds(function));
        every_moment_keeps(function, guard, moments, i);
        assert(guard.fresh_at(function, b, at));
    }
}

proof fn every_moment_is_somewhere(function: FunctionView, moments: Seq<Moment>, i: int)
    requires
        function.well_formed(),
        runs(function, moments),
        0 <= i < moments.len(),
    ensures
        0 <= moments[i].block < function.blocks.len(),
        0 <= moments[i].at <= function.blocks[moments[i].block].insts.len(),
    decreases i,
{
    if i > 0 {
        every_moment_is_somewhere(function, moments, i - 1);
        assert(follows(function, moments[i - 1], moments[i - 1 + 1]));
        let before = moments[i - 1];
        let block = function.blocks[before.block];
        if before.at == block.insts.len() {
            let which = choose|which: int|
                #[trigger] jump_runs(function, block.term->Some_0, which, before, moments[i]);
            assert(moments[i].block == block.term->Some_0.targets()[which].block.0);
        }
    }
}

} // verus!
