//! Escape analysis for value structs.

use vstd::prelude::*;

use crate::inst::{
    Allocation, Inst, InstKind, InstKindView, InstView, Terminator, TerminatorView, Value,
};
use crate::program::{
    id_limit, views, Block, BlockView, FuncId, Function, FunctionView, Program, ProgramView, Shape,
    ShapeView,
};
use crate::text::{absent_has_no_position, first_is_position, position, position_is_first};
use crate::ty::{Ty, TyView, TypeId};

verus! {

/// The structs of the program that are held by value.
pub open spec fn value_structs(program: ProgramView) -> Set<TypeId> {
    Set::new(
        |id: TypeId|
            id.0 < program.types.len() && (program.nominal(id).shape matches ShapeView::Struct(
                structure,
            ) && !structure.reference),
    )
}

/// Whether the type is one of the structs held by value.
pub open spec fn held_by_value(ty: TyView, values: Set<TypeId>) -> bool {
    ty matches TyView::Named { id, .. } && values.contains(id)
}

/// The value an instruction builds, where it is a struct held by value, and
/// whether it is built from its fields rather than copied.
pub open spec fn candidate(
    function: FunctionView,
    inst: InstView,
    values: Set<TypeId>,
) -> Option<(Value, bool)> {
    match inst.result {
        Some(result) => if held_by_value(function.type_of(result), values) {
            match inst.kind {
                InstKindView::MakeStruct { .. } => Some((result, true)),
                InstKindView::CopyValue { .. } => Some((result, false)),
                _ => None,
            }
        } else {
            None
        },
        None => None,
    }
}

/// Whether the instruction reads `value`.
pub open spec fn reads(kind: InstKindView, value: Value) -> bool {
    kind.operands().contains(value)
}

/// Whether the instruction leaves `value` where it is: it reads a field of it,
/// writes something else into a field of it, or copies it.
pub open spec fn leaves_in_place(kind: InstKindView, value: Value) -> bool {
    match kind {
        InstKindView::GetField { object, .. } => object == value,
        InstKindView::SetField { object, value: written, .. } => object == value && written
            != value,
        InstKindView::CopyValue { value: source, .. } => source == value,
        _ => false,
    }
}

/// Whether the instruction needs `value` to be in memory.
pub open spec fn needs_memory(kind: InstKindView, value: Value) -> bool {
    leaves_in_place(kind, value) && !(kind is GetField)
}

/// Whether what ends a block passes `value` on.
pub open spec fn passed_on(term: TerminatorView, value: Value) -> bool {
    term.decides_by() == Some(value) || exists|i: int|
        0 <= i < term.targets().len() && (#[trigger] term.targets()[i]).args.contains(value)
}

/// Whether `value` gets out of a block: something there reads it that does not
/// leave it in place, or the block passes it on.
pub open spec fn escapes_block(block: BlockView, value: Value) -> bool {
    ||| exists|i: int|
        0 <= i < block.insts.len() && reads((#[trigger] block.insts[i]).kind, value)
            && !leaves_in_place(block.insts[i].kind, value)
    ||| block.term matches Some(term) && passed_on(term, value)
}

/// Whether `value` gets out of the function.
pub open spec fn escapes(function: FunctionView, value: Value) -> bool {
    exists|b: int|
        0 <= b < function.blocks.len() && escapes_block(#[trigger] function.blocks[b], value)
}

/// Whether an instruction of the block needs `value` to be in memory.
pub open spec fn block_needs_memory(block: BlockView, value: Value) -> bool {
    exists|i: int|
        0 <= i < block.insts.len() && needs_memory((#[trigger] block.insts[i]).kind, value)
}

/// Whether an instruction of the function needs `value` to be in memory.
pub open spec fn wants_memory(function: FunctionView, value: Value) -> bool {
    exists|b: int|
        0 <= b < function.blocks.len() && block_needs_memory(#[trigger] function.blocks[b], value)
}

/// Where `value` can live.
pub open spec fn allocation(function: FunctionView, value: Value, literal: bool) -> Allocation {
    if escapes(function, value) {
        Allocation::Managed
    } else if !literal || wants_memory(function, value) {
        Allocation::Stack
    } else {
        Allocation::Registers
    }
}

/// Where each struct built by the instructions can live, in their order.
pub open spec fn decisions_among(
    function: FunctionView,
    insts: Seq<InstView>,
    values: Set<TypeId>,
) -> Seq<(Value, Allocation)>
    decreases insts.len(),
{
    if insts.len() == 0 {
        Seq::empty()
    } else {
        let before = decisions_among(function, insts.drop_last(), values);
        match candidate(function, insts.last(), values) {
            Some((value, literal)) => before.push((value, allocation(function, value, literal))),
            None => before,
        }
    }
}

/// Where each struct built in the first `count` blocks can live, in order.
pub open spec fn decisions(
    function: FunctionView,
    count: nat,
    values: Set<TypeId>,
) -> Seq<(Value, Allocation)>
    decreases count,
{
    if count == 0 {
        Seq::empty()
    } else {
        decisions(function, (count - 1) as nat, values) + decisions_among(
            function,
            function.blocks[count - 1].insts,
            values,
        )
    }
}

/// The instruction with what it builds living where `place` says.
pub open spec fn with_allocation(inst: InstView, place: Allocation) -> InstView {
    match inst.kind {
        InstKindView::MakeStruct { ty, fields, .. } => InstView {
            kind: InstKindView::MakeStruct { ty, fields, allocation: place },
            ..inst
        },
        InstKindView::CopyValue { value, .. } => InstView {
            kind: InstKindView::CopyValue { value, allocation: place },
            ..inst
        },
        _ => inst,
    }
}

/// What each instruction produces.
pub open spec fn results(insts: Seq<InstView>) -> Seq<Option<Value>> {
    Seq::new(insts.len(), |i: int| insts[i].result)
}

/// The blocks with the first instruction that produces `value` living where
/// `place` says.
pub open spec fn assign(blocks: Seq<BlockView>, value: Value, place: Allocation) -> Seq<BlockView>
    decreases blocks.len(),
{
    if blocks.len() == 0 {
        blocks
    } else {
        let insts = blocks[0].insts;
        match position(results(insts), Some(value)) {
            Some(at) => seq![
                BlockView {
                    insts: insts.update(at, with_allocation(insts[at], place)),
                    ..blocks[0]
                },
            ] + blocks.skip(1),
            None => seq![blocks[0]] + assign(blocks.skip(1), value, place),
        }
    }
}

/// The blocks with each decision carried out, one after another.
pub open spec fn assign_all(
    blocks: Seq<BlockView>,
    decided: Seq<(Value, Allocation)>,
) -> Seq<BlockView>
    decreases decided.len(),
{
    if decided.len() == 0 {
        blocks
    } else {
        assign(assign_all(blocks, decided.drop_last()), decided.last().0, decided.last().1)
    }
}

/// The function with its value structs living where they can.
pub open spec fn placed(function: FunctionView, values: Set<TypeId>) -> FunctionView {
    FunctionView {
        blocks: assign_all(function.blocks, decisions(function, function.blocks.len(), values)),
        ..function
    }
}

/// Whether two runs of blocks differ in nothing but where things live.
pub open spec fn only_places(before: Seq<BlockView>, after: Seq<BlockView>) -> bool {
    &&& after.len() == before.len()
    &&& forall|b: int|
        0 <= b < before.len() ==> {
            &&& (#[trigger] after[b]).params == before[b].params
            &&& after[b].term == before[b].term
            &&& after[b].insts.len() == before[b].insts.len()
        }
    &&& forall|b: int, i: int|
        0 <= b < before.len() && 0 <= i < before[b].insts.len() ==> {
            ||| (#[trigger] after[b].insts[i]) == before[b].insts[i]
            ||| exists|place: Allocation|
                after[b].insts[i] == #[trigger] with_allocation(before[b].insts[i], place)
        }
}

proof fn assign_only_places(blocks: Seq<BlockView>, value: Value, place: Allocation)
    ensures
        assign(blocks, value, place).len() == blocks.len(),
        forall|b: int|
            0 <= b < blocks.len() ==> {
                &&& (#[trigger] assign(blocks, value, place)[b]).params == blocks[b].params
                &&& assign(blocks, value, place)[b].term == blocks[b].term
                &&& assign(blocks, value, place)[b].insts.len() == blocks[b].insts.len()
            },
        forall|b: int, i: int|
            0 <= b < blocks.len() && 0 <= i < blocks[b].insts.len() ==> {
                ||| (#[trigger] assign(blocks, value, place)[b].insts[i]) == blocks[b].insts[i]
                ||| blocks[b].insts[i].result == Some(value) && assign(
                    blocks,
                    value,
                    place,
                )[b].insts[i] == with_allocation(blocks[b].insts[i], place)
            },
    decreases blocks.len(),
{
    if blocks.len() > 0 {
        let insts = blocks[0].insts;
        position_is_first(results(insts), Some(value));
        let rest = blocks.skip(1);
        let whole = assign(blocks, value, place);
        if position(results(insts), Some(value)) is None {
            assign_only_places(rest, value, place);
            assert forall|b: int| 1 <= b < blocks.len() implies (#[trigger] whole[b]) == assign(
                rest,
                value,
                place,
            )[b - 1] && rest[b - 1] == blocks[b] by {}
            assert forall|b: int| 0 <= b < blocks.len() implies {
                &&& (#[trigger] whole[b]).params == blocks[b].params
                &&& whole[b].term == blocks[b].term
                &&& whole[b].insts.len() == blocks[b].insts.len()
            } by {
                if b > 0 {
                    assert(whole[b] == assign(rest, value, place)[b - 1]);
                    assert(rest[b - 1] == blocks[b]);
                }
            }
            assert forall|b: int, i: int|
                0 <= b < blocks.len() && 0 <= i < blocks[b].insts.len() implies {
                ||| (#[trigger] whole[b].insts[i]) == blocks[b].insts[i]
                ||| blocks[b].insts[i].result == Some(value) && whole[b].insts[i]
                    == with_allocation(blocks[b].insts[i], place)
            } by {
                if b > 0 {
                    assert(whole[b] == assign(rest, value, place)[b - 1]);
                    assert(rest[b - 1] == blocks[b]);
                    assert(assign(rest, value, place)[b - 1].insts[i] == whole[b].insts[i]);
                }
            }
        } else {
            let at = position(results(insts), Some(value))->Some_0;
            assert(results(insts)[at] == insts[at].result);
            assert forall|b: int| 1 <= b < blocks.len() implies (#[trigger] whole[b])
                == blocks[b] by {
                assert(whole[b] == rest[b - 1]);
            }
        }
    }
}

proof fn assign_all_only_places(blocks: Seq<BlockView>, decided: Seq<(Value, Allocation)>)
    ensures
        only_places(blocks, assign_all(blocks, decided)),
    decreases decided.len(),
{
    if decided.len() > 0 {
        let shorter = decided.drop_last();
        let (value, place) = decided.last();
        assign_all_only_places(blocks, shorter);
        let before = assign_all(blocks, shorter);
        let after = assign_all(blocks, decided);
        assign_only_places(before, value, place);
        assert forall|b: int| 0 <= b < blocks.len() implies {
            &&& (#[trigger] after[b]).params == blocks[b].params
            &&& after[b].term == blocks[b].term
            &&& after[b].insts.len() == blocks[b].insts.len()
        } by {
            assert(before[b].params == blocks[b].params);
        }
        assert forall|b: int, i: int|
            0 <= b < blocks.len() && 0 <= i < blocks[b].insts.len() implies {
            ||| (#[trigger] after[b].insts[i]) == blocks[b].insts[i]
            ||| exists|other: Allocation|
                after[b].insts[i] == #[trigger] with_allocation(blocks[b].insts[i], other)
        } by {
            let original = blocks[b].insts[i];
            assert(before[b].insts.len() == blocks[b].insts.len());
            if before[b].insts[i] != original {
                let other = choose|other: Allocation|
                    before[b].insts[i] == #[trigger] with_allocation(original, other);
                assert(with_allocation(with_allocation(original, other), place)
                    == with_allocation(original, place));
            }
            assert(after[b].insts[i] == before[b].insts[i] || after[b].insts[i] == with_allocation(
                before[b].insts[i],
                place,
            ));
        }
    }
}

/// Nothing changes but where structs live.
pub proof fn placement_only_places(function: FunctionView, values: Set<TypeId>)
    ensures
        only_places(function.blocks, placed(function, values).blocks),
        placed(function, values) == (FunctionView {
            blocks: placed(function, values).blocks,
            ..function
        }),
{
    assign_all_only_places(
        function.blocks,
        decisions(function, function.blocks.len(), values),
    );
}

/// A well-formed function stays well formed.
pub proof fn placement_keeps_well_formed(function: FunctionView, values: Set<TypeId>)
    requires
        function.well_formed(),
    ensures
        placed(function, values).well_formed(),
{
    placement_only_places(function, values);
    let after = placed(function, values);
    let count = function.values.len();
    let slots = function.slots.len();
    assert forall|b: int| 0 <= b < after.blocks.len() implies (#[trigger] after.blocks[b]).within(
        count,
        slots,
        after.blocks.len(),
    ) by {
        assert(function.blocks[b].within(count, slots, function.blocks.len()));
        assert forall|i: int| 0 <= i < after.blocks[b].insts.len() implies (
        #[trigger] after.blocks[b].insts[i]).within(count, slots) by {
            assert(function.blocks[b].insts[i].within(count, slots));
        }
    }
}

/// What lives in registers is only ever read by field, and what lives in the
/// frame never leaves the function: nothing passes it on, returns it, or
/// stores it.
pub proof fn placement_is_justified(function: FunctionView, value: Value, literal: bool)
    ensures
        !(allocation(function, value, literal) is Managed) ==> !escapes(function, value),
        allocation(function, value, literal) is Registers ==> literal && forall|b: int, i: int|
            0 <= b < function.blocks.len() && 0 <= i < function.blocks[b].insts.len() && reads(
                (#[trigger] function.blocks[b].insts[i]).kind,
                value,
            ) ==> function.blocks[b].insts[i].kind is GetField,
{
    if allocation(function, value, literal) is Registers {
        assert forall|b: int, i: int|
            0 <= b < function.blocks.len() && 0 <= i < function.blocks[b].insts.len() && reads(
                (#[trigger] function.blocks[b].insts[i]).kind,
                value,
            ) implies function.blocks[b].insts[i].kind is GetField by {
            assert(!escapes_block(function.blocks[b], value));
            assert(!block_needs_memory(function.blocks[b], value));
        }
    }
}

/// Whether no value is produced by two instructions.
pub open spec fn produced_once(blocks: Seq<BlockView>) -> bool {
    forall|b: int, i: int, c: int, j: int|
        0 <= b < blocks.len() && 0 <= i < blocks[b].insts.len() && 0 <= c < blocks.len() && 0 <= j
            < blocks[c].insts.len() && (#[trigger] blocks[b].insts[i]).result is Some && (
        #[trigger] blocks[c].insts[j]).result == blocks[b].insts[i].result ==> b == c && i == j
}

proof fn assign_finds(blocks: Seq<BlockView>, value: Value, place: Allocation, b: int, i: int)
    requires
        0 <= b < blocks.len(),
        0 <= i < blocks[b].insts.len(),
        blocks[b].insts[i].result == Some(value),
        forall|c: int, j: int|
            0 <= c < blocks.len() && 0 <= j < blocks[c].insts.len() && (
            #[trigger] blocks[c].insts[j]).result == Some(value) ==> c == b && j == i,
    ensures
        assign(blocks, value, place)[b].insts[i] == with_allocation(blocks[b].insts[i], place),
    decreases blocks.len(),
{
    let insts = blocks[0].insts;
    let found = results(insts);
    position_is_first(found, Some(value));
    assign_only_places(blocks.skip(1), value, place);
    if b == 0 {
        assert(found[i] == Some(value));
        assert(found.contains(Some(value)));
        let at = position(found, Some(value))->Some_0;
        assert(insts[at].result == Some(value));
        assert(blocks[0].insts[at].result == Some(value));
    } else {
        if let Some(at) = position(found, Some(value)) {
            assert(blocks[0].insts[at].result == Some(value));
        }
        let rest = blocks.skip(1);
        assert(rest[b - 1] == blocks[b]);
        assert forall|c: int, j: int|
            0 <= c < rest.len() && 0 <= j < rest[c].insts.len() && (
            #[trigger] rest[c].insts[j]).result == Some(value) implies c == b - 1 && j == i by {
            assert(rest[c] == blocks[c + 1]);
            assert(blocks[c + 1].insts[j].result == Some(value));
        }
        assign_finds(rest, value, place, b - 1, i);
        assert(assign(blocks, value, place)[b] == assign(rest, value, place)[b - 1]);
    }
}

proof fn decided_lives_where_said(
    function: FunctionView,
    values: Set<TypeId>,
    decided: Seq<(Value, Allocation)>,
    b: int,
    i: int,
    value: Value,
    place: Allocation,
)
    requires
        produced_once(function.blocks),
        0 <= b < function.blocks.len(),
        0 <= i < function.blocks[b].insts.len(),
        function.blocks[b].insts[i].result == Some(value),
        forall|k: int|
            0 <= k < decided.len() && (#[trigger] decided[k]).0 == value ==> decided[k].1 == place,
    ensures
        assign_all(function.blocks, decided)[b].insts[i] == if exists|k: int|
            0 <= k < decided.len() && (#[trigger] decided[k]).0 == value {
            with_allocation(function.blocks[b].insts[i], place)
        } else {
            function.blocks[b].insts[i]
        },
    decreases decided.len(),
{
    if decided.len() > 0 {
        let shorter = decided.drop_last();
        let (last, last_place) = decided.last();
        assert forall|k: int| 0 <= k < shorter.len() && (#[trigger] shorter[k]).0
            == value implies shorter[k].1 == place by {
            assert(decided[k] == shorter[k]);
        }
        decided_lives_where_said(function, values, shorter, b, i, value, place);
        assign_all_only_places(function.blocks, shorter);
        let original = function.blocks;
        let before = assign_all(original, shorter);
        assert(decided[decided.len() - 1] == decided.last());
        assign_only_places(before, last, last_place);
        assert forall|c: int, j: int|
            0 <= c < before.len() && 0 <= j < before[c].insts.len() implies (
        #[trigger] before[c].insts[j]).result == original[c].insts[j].result by {
            assert(before[c].insts.len() == original[c].insts.len());
        }
        assert(before[b].insts.len() == original[b].insts.len());
        if last == value {
            assert forall|c: int, j: int|
                0 <= c < before.len() && 0 <= j < before[c].insts.len() && (
                #[trigger] before[c].insts[j]).result == Some(value) implies c == b && j == i by {
                assert(before[c].insts.len() == original[c].insts.len());
                assert(original[c].insts[j].result == original[b].insts[i].result);
            }
            assign_finds(before, value, last_place, b, i);
        } else {
            assert(assign(before, last, last_place)[b].insts[i] == before[b].insts[i]);
            if exists|k: int| 0 <= k < decided.len() && (#[trigger] decided[k]).0 == value {
                let k = choose|k: int| 0 <= k < decided.len() && (#[trigger] decided[k]).0 == value;
                assert(shorter[k].0 == value);
            }
            if exists|k: int| 0 <= k < shorter.len() && (#[trigger] shorter[k]).0 == value {
                let k = choose|k: int| 0 <= k < shorter.len() && (#[trigger] shorter[k]).0 == value;
                assert(decided[k].0 == value);
            }
        }
    }
}

/// Whether `decided` is what becomes of what the instruction builds.
pub open spec fn decides(
    function: FunctionView,
    inst: InstView,
    values: Set<TypeId>,
    decided: (Value, Allocation),
) -> bool {
    candidate(function, inst, values) matches Some((value, literal)) && decided == (
        value,
        allocation(function, value, literal),
    )
}

proof fn decisions_among_come_from(
    function: FunctionView,
    insts: Seq<InstView>,
    values: Set<TypeId>,
    decided: (Value, Allocation),
)
    ensures
        decisions_among(function, insts, values).contains(decided) <==> exists|i: int|
            0 <= i < insts.len() && #[trigger] decides(function, insts[i], values, decided),
    decreases insts.len(),
{
    if insts.len() > 0 {
        let shorter = insts.drop_last();
        decisions_among_come_from(function, shorter, values, decided);
        let whole = decisions_among(function, insts, values);
        let before = decisions_among(function, shorter, values);
        if whole.contains(decided) {
            let k = whole.index_of(decided);
            if k < before.len() {
                assert(before[k] == decided);
                assert(before.contains(decided));
                let i = choose|i: int|
                    0 <= i < shorter.len() && #[trigger] decides(
                        function,
                        shorter[i],
                        values,
                        decided,
                    );
                assert(decides(function, insts[i], values, decided));
            } else {
                assert(decides(function, insts[insts.len() - 1], values, decided));
            }
        }
        if exists|i: int|
            0 <= i < insts.len() && #[trigger] decides(function, insts[i], values, decided) {
            let i = choose|i: int|
                0 <= i < insts.len() && #[trigger] decides(function, insts[i], values, decided);
            if i < shorter.len() {
                assert(decides(function, shorter[i], values, decided));
                let k = before.index_of(decided);
                assert(whole[k] == decided);
            } else {
                assert(whole[whole.len() - 1] == decided);
            }
        }
    }
}

proof fn decisions_come_from(
    function: FunctionView,
    count: nat,
    values: Set<TypeId>,
    decided: (Value, Allocation),
)
    requires
        count <= function.blocks.len(),
    ensures
        decisions(function, count, values).contains(decided) <==> exists|b: int, i: int|
            0 <= b < count && 0 <= i < function.blocks[b].insts.len() && #[trigger] decides(
                function,
                function.blocks[b].insts[i],
                values,
                decided,
            ),
    decreases count,
{
    if count > 0 {
        let last = function.blocks[count - 1].insts;
        decisions_come_from(function, (count - 1) as nat, values, decided);
        decisions_among_come_from(function, last, values, decided);
        let whole = decisions(function, count, values);
        let before = decisions(function, (count - 1) as nat, values);
        let added = decisions_among(function, last, values);
        if whole.contains(decided) {
            let k = whole.index_of(decided);
            if k < before.len() {
                assert(before[k] == decided);
                assert(before.contains(decided));
            } else {
                assert(added[k - before.len()] == decided);
                assert(added.contains(decided));
                let i = choose|i: int|
                    0 <= i < last.len() && #[trigger] decides(function, last[i], values, decided);
                assert(decides(
                    function,
                    function.blocks[count - 1].insts[i],
                    values,
                    decided,
                ));
            }
        }
        if exists|b: int, i: int|
            0 <= b < count && 0 <= i < function.blocks[b].insts.len() && #[trigger] decides(
                function,
                function.blocks[b].insts[i],
                values,
                decided,
            ) {
            let (b, i) = choose|b: int, i: int|
                0 <= b < count && 0 <= i < function.blocks[b].insts.len() && #[trigger] decides(
                    function,
                    function.blocks[b].insts[i],
                    values,
                    decided,
                );
            if b < count - 1 {
                assert(before.contains(decided));
                let k = before.index_of(decided);
                assert(whole[k] == decided);
            } else {
                assert(decides(function, last[i], values, decided));
                assert(added.contains(decided));
                let k = added.index_of(decided);
                assert(whole[before.len() + k] == decided);
            }
        }
    }
}

/// Where every value is produced once, each value struct lives where the
/// analysis says it can.
pub proof fn every_struct_is_placed(
    function: FunctionView,
    values: Set<TypeId>,
    b: int,
    i: int,
    value: Value,
    literal: bool,
)
    requires
        produced_once(function.blocks),
        0 <= b < function.blocks.len(),
        0 <= i < function.blocks[b].insts.len(),
        candidate(function, function.blocks[b].insts[i], values) == Some((value, literal)),
    ensures
        placed(function, values).blocks[b].insts[i] == with_allocation(
            function.blocks[b].insts[i],
            allocation(function, value, literal),
        ),
{
    let count = function.blocks.len();
    let decided = decisions(function, count, values);
    let place = allocation(function, value, literal);
    assert forall|k: int| 0 <= k < decided.len() && (#[trigger] decided[k]).0
        == value implies decided[k].1 == place by {
        assert(decided.contains(decided[k]));
        decisions_come_from(function, count, values, decided[k]);
        let (c, j) = choose|c: int, j: int|
            0 <= c < count && 0 <= j < function.blocks[c].insts.len() && #[trigger] decides(
                function,
                function.blocks[c].insts[j],
                values,
                decided[k],
            );
        assert(function.blocks[c].insts[j].result == function.blocks[b].insts[i].result);
    }
    decided_lives_where_said(function, values, decided, b, i, value, place);
    decisions_come_from(function, count, values, (value, place));
    assert(decides(function, function.blocks[b].insts[i], values, (value, place)));
    let k = decided.index_of((value, place));
    assert(decided[k].0 == value);
}

fn contains_value(held: &Vec<Value>, value: Value) -> (found: bool)
    ensures
        found == held@.contains(value),
{
    let mut i: usize = 0;
    while i < held.len()
        invariant
            i <= held.len(),
            forall|j: int| 0 <= j < i ==> held@[j] != value,
        decreases held.len() - i,
    {
        if held[i] == value {
            return true;
        }
        i += 1;
    }
    false
}

/// Whether the instruction reads `value`.
pub fn uses(inst: &InstKind, value: Value) -> (found: bool)
    ensures
        found == reads(inst@, value),
{
    contains_value(&inst.operands(), value)
}

/// Whether what ends a block passes `value` on.
pub fn terminator_uses(term: &Terminator, value: Value) -> (found: bool)
    ensures
        found == passed_on(term@, value),
{
    let decided = match term {
        Terminator::Branch { condition, .. } => *condition == value,
        Terminator::Switch { value: held, .. } => *held == value,
        Terminator::Return(held) => *held == value,
        Terminator::Jump(_) | Terminator::Trap(_) => false,
    };
    if decided {
        return true;
    }
    let targets = term.targets();
    let mut i: usize = 0;
    while i < targets.len()
        invariant
            i <= targets.len(),
            crate::inst::target_views(targets@) == term@.targets(),
            forall|j: int|
                0 <= j < i ==> !(#[trigger] term@.targets()[j]).args.contains(value),
        decreases targets.len() - i,
    {
        assert(term@.targets()[i as int] == targets@[i as int]@);
        if contains_value(&targets[i].args, value) {
            return true;
        }
        i += 1;
    }
    false
}

/// Where `value` can live.
pub fn allocation_of(function: &Function, value: Value, literal: bool) -> (place: Allocation)
    ensures
        place == allocation(function@, value, literal),
{
    let mut writable = !literal;
    let mut b: usize = 0;
    while b < function.blocks.len()
        invariant
            b <= function.blocks.len(),
            forall|c: int|
                0 <= c < b ==> !escapes_block(#[trigger] function@.blocks[c], value),
            writable <==> !literal || exists|c: int|
                0 <= c < b && block_needs_memory(#[trigger] function@.blocks[c], value),
        decreases function.blocks.len() - b,
    {
        let block = &function.blocks[b];
        assert(function@.blocks[b as int] == block@);
        let ghost earlier = writable;
        let mut i: usize = 0;
        while i < block.insts.len()
            invariant
                b < function.blocks.len(),
                i <= block.insts.len(),
                block@ == function@.blocks[b as int],
                forall|j: int|
                    0 <= j < i ==> !(reads((#[trigger] block@.insts[j]).kind, value)
                        && !leaves_in_place(block@.insts[j].kind, value)),
                writable <==> earlier || exists|j: int|
                    0 <= j < i && needs_memory((#[trigger] block@.insts[j]).kind, value),
            decreases block.insts.len() - i,
        {
            let kind = &block.insts[i].kind;
            assert(block@.insts[i as int].kind == kind@);
            if uses(kind, value) {
                match kind {
                    InstKind::GetField { object, .. } => {
                        if *object != value {
                            assert(escapes_block(block@, value));
                            return Allocation::Managed;
                        }
                    },
                    InstKind::SetField { object, value: written, .. } => {
                        if *object != value || *written == value {
                            assert(escapes_block(block@, value));
                            return Allocation::Managed;
                        }
                        writable = true;
                    },
                    InstKind::CopyValue { value: source, .. } => {
                        if *source != value {
                            assert(escapes_block(block@, value));
                            return Allocation::Managed;
                        }
                        writable = true;
                    },
                    _ => {
                        assert(escapes_block(block@, value));
                        return Allocation::Managed;
                    },
                }
            } else {
                proof {
                    unread_needs_nothing(kind@, value);
                }
            }
            i += 1;
        }
        if let Some(term) = &block.term {
            if terminator_uses(term, value) {
                assert(escapes_block(block@, value));
                return Allocation::Managed;
            }
        }
        assert(block_needs_memory(block@, value) <==> exists|j: int|
            0 <= j < i && needs_memory((#[trigger] block@.insts[j]).kind, value));
        b += 1;
    }
    if writable {
        Allocation::Stack
    } else {
        Allocation::Registers
    }
}

proof fn unread_needs_nothing(kind: InstKindView, value: Value)
    requires
        !reads(kind, value),
    ensures
        !needs_memory(kind, value),
{
    match kind {
        InstKindView::SetField { object, value: written, .. } => {
            assert(kind.operands()[0] == object);
        },
        InstKindView::CopyValue { value: source, .. } => {
            assert(kind.operands()[0] == source);
        },
        _ => {},
    }
}

fn contains_type(values: &Vec<TypeId>, id: TypeId) -> (found: bool)
    ensures
        found == values@.contains(id),
{
    let mut i: usize = 0;
    while i < values.len()
        invariant
            i <= values.len(),
            forall|j: int| 0 <= j < i ==> values@[j] != id,
        decreases values.len() - i,
    {
        if values[i] == id {
            return true;
        }
        i += 1;
    }
    false
}

/// Whether the type is one of the structs held by value.
pub fn is_value_struct(ty: &Ty, values: &Vec<TypeId>) -> (held: bool)
    ensures
        held == held_by_value(ty@, values@.to_set()),
{
    match ty {
        Ty::Named { id, .. } => contains_type(values, *id),
        _ => false,
    }
}

fn candidate_of(function: &Function, inst: &Inst, values: &Vec<TypeId>) -> (found: Option<
    (Value, bool),
>)
    requires
        inst@.within(function@.values.len(), function@.slots.len()),
    ensures
        found == candidate(function@, inst@, values@.to_set()),
{
    match inst.result {
        Some(result) => {
            if !is_value_struct(function.type_of(result), values) {
                return None;
            }
            match &inst.kind {
                InstKind::MakeStruct { .. } => Some((result, true)),
                InstKind::CopyValue { .. } => Some((result, false)),
                _ => None,
            }
        },
        None => None,
    }
}

fn place_inst(insts: &mut Vec<Inst>, value: Value, place: Allocation) -> (found: bool)
    ensures
        match position(results(views(old(insts)@)), Some(value)) {
            Some(at) => found && views(final(insts)@) == views(old(insts)@).update(
                at,
                with_allocation(views(old(insts)@)[at], place),
            ),
            None => !found && views(final(insts)@) == views(old(insts)@),
        },
{
    let ghost before = views(insts@);
    let mut i: usize = 0;
    while i < insts.len()
        invariant
            i <= insts.len(),
            before == views(old(insts)@),
            insts@ == old(insts)@,
            forall|j: int| 0 <= j < i ==> (#[trigger] results(before)[j]) != Some(value),
        decreases insts.len() - i,
    {
        assert(results(before)[i as int] == insts@[i as int].result);
        if let Some(result) = insts[i].result {
            if result == value {
                proof {
                    first_is_position(results(before), Some(value), i as int);
                }
                let kind = match &insts[i].kind {
                    InstKind::MakeStruct { ty, fields, .. } => InstKind::MakeStruct {
                        ty: ty.clone(),
                        fields: crate::inst::clone_values(fields),
                        allocation: place,
                    },
                    InstKind::CopyValue { value, .. } => InstKind::CopyValue {
                        value: *value,
                        allocation: place,
                    },
                    other => other.clone(),
                };
                let inst = Inst { result: insts[i].result, kind, span: insts[i].span };
                insts.set(i, inst);
                assert(views(insts@) =~= before.update(i as int, inst@));
                return true;
            }
        }
        i += 1;
    }
    proof {
        absent_has_no_position(results(before), Some(value));
    }
    false
}

fn assign_blocks(blocks: &mut Vec<Block>, value: Value, place: Allocation)
    ensures
        views(final(blocks)@) == assign(views(old(blocks)@), value, place),
{
    let ghost before = views(blocks@);
    let mut b: usize = 0;
    proof {
        assert(before.skip(0) =~= before);
        assert(before.take(0) + assign(before, value, place) =~= assign(before, value, place));
    }
    while b < blocks.len()
        invariant
            b <= blocks.len(),
            before == views(old(blocks)@),
            views(blocks@) == before,
            assign(before, value, place) == before.take(b as int) + assign(
                before.skip(b as int),
                value,
                place,
            ),
        decreases blocks.len() - b,
    {
        let ghost rest = before.skip(b as int);
        let ghost earlier = blocks@;
        assert(rest[0] == blocks@[b as int]@);
        let found = place_inst(&mut blocks[b].insts, value, place);
        assert(views(blocks@) =~= before.update(b as int, blocks@[b as int]@));
        if found {
            assert(views(blocks@) =~= before.take(b as int) + (seq![blocks@[b as int]@]
                + rest.skip(1)));
            return;
        }
        proof {
            assert(blocks@[b as int]@ == before[b as int]);
            assert(views(blocks@) =~= before);
            assert(rest.skip(1) =~= before.skip(b + 1));
            assert(before.take(b as int) + (seq![rest[0]] + assign(
                before.skip(b + 1),
                value,
                place,
            )) =~= before.take(b + 1) + assign(before.skip(b + 1), value, place));
        }
        b += 1;
    }
    assert(before.skip(b as int) =~= Seq::empty());
    assert(before.take(b as int) + Seq::empty() =~= before);
}

/// Puts each value struct the function builds where it can live.
pub fn place(function: &mut Function, value_structs: &Vec<TypeId>)
    requires
        old(function)@.well_formed(),
    ensures
        final(function)@ == placed(old(function)@, value_structs@.to_set()),
{
    let ghost whole = function@;
    let ghost values = value_structs@.to_set();
    let mut decided: Vec<(Value, Allocation)> = Vec::new();
    let mut b: usize = 0;
    while b < function.blocks.len()
        invariant
            b <= function.blocks.len(),
            function@ == whole,
            whole.well_formed(),
            values == value_structs@.to_set(),
            decided@ == decisions(whole, b as nat, values),
        decreases function.blocks.len() - b,
    {
        let block = &function.blocks[b];
        let ghost insts = block@.insts;
        let ghost before = decided@;
        assert(whole.blocks[b as int].within(
            whole.values.len(),
            whole.slots.len(),
            whole.blocks.len(),
        ));
        assert(before + decisions_among(whole, insts.take(0), values) =~= before);
        let mut i: usize = 0;
        while i < block.insts.len()
            invariant
                i <= block.insts.len(),
                b < function.blocks.len(),
                function@ == whole,
                block@ == whole.blocks[b as int],
                block@.within(whole.values.len(), whole.slots.len(), whole.blocks.len()),
                insts == block@.insts,
                values == value_structs@.to_set(),
                decided@ == before + decisions_among(whole, insts.take(i as int), values),
            decreases block.insts.len() - i,
        {
            proof {
                assert(insts.take(i + 1).drop_last() =~= insts.take(i as int));
                assert(insts.take(i + 1).last() == block.insts@[i as int]@);
                assert(insts[i as int].within(whole.values.len(), whole.slots.len()));
            }
            if let Some((value, literal)) = candidate_of(function, &block.insts[i], value_structs) {
                let place = allocation_of(function, value, literal);
                decided.push((value, place));
            }
            i += 1;
            assert(decided@ =~= before + decisions_among(whole, insts.take(i as int), values));
        }
        assert(insts.take(i as int) =~= insts);
        b += 1;
    }
    let mut i: usize = 0;
    while i < decided.len()
        invariant
            i <= decided.len(),
            decided@ == decisions(whole, whole.blocks.len(), values),
            function@ == (FunctionView {
                blocks: assign_all(whole.blocks, decided@.take(i as int)),
                ..whole
            }),
        decreases decided.len() - i,
    {
        let (value, place) = decided[i];
        assert(decided@.take(i + 1).drop_last() =~= decided@.take(i as int));
        assign_blocks(&mut function.blocks, value, place);
        i += 1;
    }
    assert(decided@.take(i as int) =~= decided@);
}

/// Puts each value struct the program builds where it can live.
pub fn run(program: &mut Program)
    requires
        old(program)@.functions_well_formed(),
        old(program)@.types.len() <= id_limit(),
    ensures
        final(program)@ == (ProgramView {
            functions: old(program)@.functions.map_values(
                |held: FunctionView| placed(held, value_structs(old(program)@)),
            ),
            ..old(program)@
        }),
{
    let ghost original = program@;
    let ghost structs = value_structs(original);
    let mut values: Vec<TypeId> = Vec::new();
    let mut i: usize = 0;
    while i < program.types.len()
        invariant
            i <= program.types.len() <= id_limit(),
            program@ == original,
            structs == value_structs(original),
            forall|j: int| 0 <= j < values@.len() ==> structs.contains(#[trigger] values@[j]),
            forall|id: TypeId| #[trigger] structs.contains(id) && id.0 < i ==> values@.contains(id),
        decreases program.types.len() - i,
    {
        let ghost before = values@;
        assert(original.types[i as int] == program.types@[i as int]@);
        if let Shape::Struct(structure) = &program.types[i].shape {
            if !structure.reference {
                values.push(TypeId(i as u32));
                assert(values@[values@.len() - 1] == TypeId(i as u32));
                assert forall|id: TypeId| before.contains(id) implies values@.contains(id) by {
                    let k = before.index_of(id);
                    assert(values@[k] == id);
                }
            }
        }
        assert forall|id: TypeId| #[trigger] structs.contains(id) && id.0 < i + 1 implies
            values@.contains(id) by {
            if id.0 < i {
                assert(before.contains(id));
            } else {
                assert(id == TypeId(i as u32));
            }
        }
        i += 1;
    }
    assert(values@.to_set() =~= structs);
    let mut i: usize = 0;
    while i < program.functions.len()
        invariant
            i <= program.functions.len() <= id_limit(),
            original.functions_well_formed(),
            values@.to_set() == structs,
            program@ == (ProgramView { functions: program@.functions, ..original }),
            program@.functions.len() == original.functions.len(),
            forall|j: int|
                0 <= j < i ==> (#[trigger] program@.functions[j]) == placed(
                    original.functions[j],
                    structs,
                ),
            forall|j: int|
                i <= j < original.functions.len() ==> (#[trigger] program@.functions[j])
                    == original.functions[j],
        decreases program.functions.len() - i,
    {
        assert(original.functions[i as int].well_formed());
        let ghost before = program@;
        place(program.function_mut(FuncId(i as u32)), &values);
        assert(program@.functions =~= before.functions.update(
            i as int,
            placed(before.functions[i as int], structs),
        ));
        i += 1;
    }
    assert(program@.functions =~= original.functions.map_values(
        |held: FunctionView| placed(held, value_structs(original)),
    ));
}

} // verus!
