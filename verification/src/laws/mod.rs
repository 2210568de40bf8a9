//! What the passes over a program promise.

use vstd::prelude::*;

use crate::bounds::{unchecked, without_check};
use crate::deferred::{
    can_defer, captures_read, deferred, first_payload, last_read, producer, producer_from,
    taken_out, thunk_of, thunk_operands, thunk_type_view, PendingView,
};
use crate::devirt::{
    any_cells_hold, cells_hold, direct, implementation_arguments, opened, resolved,
    resolved_signature_is_the_promised_one,
};
use crate::escape::{
    allocation, block_needs_memory, escapes, escapes_block, leaves_in_place, needs_memory,
    passed_on, reads, value_structs, wants_memory,
};
use crate::inline::{inline_call, inlined_callee, passed_for, slot_table, unpassed, value_table};
use crate::inst::{
    flat_pairs, paired, values_within, ConstView, InstKindView, InstView, TargetView,
    TerminatorView, Value,
};
use crate::mono::{instance, made_for, rewrite_inst, substituted, MonoView};
use crate::program::{id_limit, BlockId, FuncId, FunctionView, ProgramView, ShapeView, SlotId};
use crate::tasks::builder::BuilderView;
use crate::tasks::laws::{place, seen, size, what_is_written, writing};
use crate::text::{decimal, position_is_first};
use crate::ty::{
    any_nests, filled_types_are_concrete, substitute_all, substitute_fields, TyView, TypeId,
};

verus! {

/// An instruction names the values it reads and its slot, and nothing else.
pub proof fn what_an_instruction_names(kind: InstKindView, values: nat, slots: nat)
    ensures
        kind.within(values, slots) <==> values_within(kind.operands(), values) && (
        kind.slot() matches Some(slot) ==> slot.0 < slots),
{
    let read = kind.operands();
    match kind {
        InstKindView::MakeMap { entries, .. } => {
            if values_within(read, values) {
                assert forall|i: int| 0 <= i < entries.len() implies (
                #[trigger] entries[i]).0.0 < values && entries[i].1.0 < values by {
                    assert(read[2 * i] == entries[i].0);
                    assert(read[2 * i + 1] == entries[i].1);
                }
            }
            if kind.within(values, slots) {
                assert forall|i: int| 0 <= i < read.len() implies (#[trigger] read[i]).0
                    < values by {
                    assert(entries[i / 2].0.0 < values);
                }
            }
        },
        InstKindView::CallIndirect { callee, args } => {
            assert(read[0] == callee);
            assert forall|i: int| 0 <= i < args.len() implies #[trigger] args[i] == read[i + 1] by {}
        },
        InstKindView::CallVirtual { receiver, args, .. } => {
            assert(read[0] == receiver);
            assert forall|i: int| 0 <= i < args.len() implies #[trigger] args[i] == read[i + 1] by {}
        },
        InstKindView::Assert { condition, message } => {
            assert(read[0] == condition);
            if let Some(held) = message {
                assert(read[1] == held);
            }
        },
        _ => {},
    }
    if values_within(read, values) {
        assert(read.len() > 0 ==> read[0].0 < values);
        assert(read.len() > 1 ==> read[1].0 < values);
        assert(read.len() > 2 ==> read[2].0 < values);
    }
}

/// Renaming what an instruction names renames each value it reads, in its place, and
/// its slot. Nothing else about the instruction changes: with what it read before it
/// is what it was.
pub proof fn renaming_reaches_every_operand(
    kind: InstKindView,
    values: Seq<Value>,
    slots: Seq<SlotId>,
)
    ensures
        kind.renamed(values, slots).operands().len() == kind.operands().len(),
        forall|i: int|
            0 <= i < kind.operands().len() ==> #[trigger] kind.renamed(values, slots).operands()[i]
                == values[kind.operands()[i].0 as int],
        kind.slot() is None ==> kind.renamed(values, slots).with_operands(kind.operands()) == kind,
        kind.slot() matches Some(slot) ==> kind.renamed(values, slots).slot() == Some(
            slots[slot.0 as int],
        ),
        kind matches InstKindView::AddressOf { mutable, .. } ==> kind.renamed(
            values,
            slots,
        ) matches InstKindView::AddressOf { mutable: now, .. } && now == mutable,
        kind is SlotGet ==> kind.renamed(values, slots) is SlotGet,
        kind is SlotSet ==> kind.renamed(values, slots) is SlotSet,
{
    let after = kind.renamed(values, slots);
    match kind {
        InstKindView::MakeMap { entries, .. } => {
            assert(paired(flat_pairs(entries)) =~= entries);
        },
        InstKindView::CallIndirect { callee, args } => {
            assert((seq![callee] + args).skip(1) =~= args);
        },
        InstKindView::CallVirtual { receiver, args, .. } => {
            assert((seq![receiver] + args).skip(1) =~= args);
        },
        _ => {},
    }
}

/// An instruction given other values to read reads those, in their places.
#[verifier::rlimit(60)]
pub proof fn given_operands_are_read(kind: InstKindView, new: Seq<Value>)
    requires
        new.len() == kind.operands().len(),
    ensures
        kind.with_operands(new).operands() == new,
{
    match kind {
        InstKindView::MakeMap { entries, .. } => {
            assert(flat_pairs(paired(new)) =~= new);
        },
        InstKindView::CallIndirect { .. } | InstKindView::CallVirtual { .. } => {
            assert(seq![new[0]] + new.skip(1) =~= new);
        },
        _ => {
            assert(kind.with_operands(new).operands() =~= new);
        },
    }
}

/// An instruction given other values to read is otherwise what it was: given its own back,
/// it is itself.
#[verifier::rlimit(60)]
pub proof fn only_operands_are_given(kind: InstKindView, new: Seq<Value>)
    requires
        new.len() == kind.operands().len(),
    ensures
        kind.with_operands(new).with_operands(kind.operands()) == kind,
{
    match kind {
        InstKindView::MakeMap { entries, .. } => {
            assert(paired(flat_pairs(entries)) =~= entries);
        },
        InstKindView::CallIndirect { callee, args } => {
            assert((seq![callee] + args).skip(1) =~= args);
        },
        InstKindView::CallVirtual { receiver, args, .. } => {
            assert((seq![receiver] + args).skip(1) =~= args);
        },
        _ => {},
    }
}

/// A parameter becomes the argument in its place.
pub proof fn a_parameter_becomes_its_argument(params: Seq<Seq<char>>, args: Seq<TyView>, i: int)
    requires
        0 <= i < params.len(),
        i < args.len(),
        forall|j: int| 0 <= j < i ==> params[j] != params[i],
    ensures
        TyView::Parameter(params[i]).substitute(params, args) == args[i],
{
    position_is_first(params, params[i]);
    assert(params.contains(params[i]));
}

/// Filling a type in fills in each of its members, where it stands.
pub proof fn members_are_filled_in_place(ty: TyView, params: Seq<Seq<char>>, args: Seq<TyView>, i: int)
    requires
        params.len() > 0,
    ensures
        match ty {
            TyView::Named { id, args: held } => 0 <= i < held.len() ==> (ty.substitute(
                params,
                args,
            ) matches TyView::Named { id: now, args: filled } && now == id && filled.len()
                == held.len() && filled[i] == held[i].substitute(params, args)),
            TyView::Builtin { kind, args: held } => 0 <= i < held.len() ==> (ty.substitute(
                params,
                args,
            ) matches TyView::Builtin { kind: now, args: filled } && now == kind && filled.len()
                == held.len() && filled[i] == held[i].substitute(params, args)),
            TyView::Tuple(held) => 0 <= i < held.len() ==> (ty.substitute(
                params,
                args,
            ) matches TyView::Tuple(filled) && filled.len() == held.len() && filled[i]
                == held[i].substitute(params, args)),
            TyView::Union(held) => 0 <= i < held.len() ==> (ty.substitute(
                params,
                args,
            ) matches TyView::Union(filled) && filled.len() == held.len() && filled[i]
                == held[i].substitute(params, args)),
            TyView::Record(held) => 0 <= i < held.len() ==> (ty.substitute(
                params,
                args,
            ) matches TyView::Record(filled) && filled.len() == held.len() && filled[i].0
                == held[i].0 && filled[i].1 == held[i].1.substitute(params, args)),
            TyView::Array(inner, length) => ty.substitute(params, args) matches TyView::Array(
                filled,
                now,
            ) && now == length && *filled == inner.substitute(params, args),
            TyView::Pointer { mutable, target } => ty.substitute(params, args) matches TyView::Pointer {
                mutable: now,
                target: filled,
            } && now == mutable && *filled == target.substitute(params, args),
            TyView::Function { asynchronous, params: takes, result } => ty.substitute(
                params,
                args,
            ) matches TyView::Function { asynchronous: now, params: filled, result: given } && now
                == asynchronous && *given == result.substitute(params, args) && filled.len()
                == takes.len() && (0 <= i < takes.len() ==> filled[i] == takes[i].substitute(
                params,
                args,
            )),
            TyView::Optional(inner) => match inner.substitute(params, args) {
                TyView::Optional(held) => ty.substitute(params, args) == TyView::Optional(held),
                filled => ty.substitute(params, args) == TyView::Optional(Box::new(filled)),
            },
            _ => true,
        },
{
    match ty {
        TyView::Named { args: held, .. } | TyView::Builtin { args: held, .. } => {
            let filled = substitute_all(held, params, args);
            assert(filled.len() == held.len());
            if 0 <= i < held.len() {
                assert(filled[i] == held[i].substitute(params, args));
            }
        },
        TyView::Tuple(held) | TyView::Union(held) => {
            let filled = substitute_all(held, params, args);
            assert(filled.len() == held.len());
            if 0 <= i < held.len() {
                assert(filled[i] == held[i].substitute(params, args));
            }
        },
        TyView::Function { params: held, .. } => {
            let filled = substitute_all(held, params, args);
            assert(filled.len() == held.len());
            if 0 <= i < held.len() {
                assert(filled[i] == held[i].substitute(params, args));
            }
        },
        TyView::Record(held) => {
            let filled = substitute_fields(held, params, args);
            assert(filled.len() == held.len());
            if 0 <= i < held.len() {
                assert(filled[i] == (held[i].0, held[i].1.substitute(params, args)));
            }
        },
        _ => {},
    }
}

/// A function is inlined just where it is marked for it, has a body that is there and
/// ends, and is called by another with nothing left to fill in.
pub proof fn only_what_is_marked_is_inlined(program: ProgramView, caller: FuncId, kind: InstKindView)
    ensures
        inlined_callee(program, caller, kind) matches Some(id) ==> {
            let called = program.function(id);
            &&& kind matches InstKindView::Call { callee, type_args, .. } && callee == id
                && type_args.len() == 0
            &&& id != caller
            &&& called.inline is Always
            &&& called.external is None
            &&& !called.asynchronous
            &&& forall|b: int| 0 <= b < called.blocks.len() ==> (#[trigger] called.blocks[b]).term is Some
        },
        (kind matches InstKindView::Call { callee, type_args, .. } && type_args.len() == 0 && callee
            != caller && program.function(callee).inline is Always && program.function(
            callee,
        ).external is None && !program.function(callee).asynchronous && (forall|b: int|
            0 <= b < program.function(callee).blocks.len() ==> (#[trigger] program.function(
                callee,
            ).blocks[b]).term is Some)) ==> inlined_callee(program, caller, kind) is Some,
{
}

/// Whether each value of `after` is what `table` has for the value in its place in
/// `before`.
pub open spec fn renamed_each(before: Seq<Value>, after: Seq<Value>, table: Seq<Value>) -> bool {
    &&& after.len() == before.len()
    &&& forall|i: int|
        0 <= i < before.len() ==> #[trigger] after[i] == table[before[i].0 as int]
}

/// Whether a jump goes where another goes, `shift` blocks later, with the values
/// renamed.
pub open spec fn goes_alike(
    before: TargetView,
    after: TargetView,
    table: Seq<Value>,
    shift: int,
) -> bool {
    after.block.0 == before.block.0 + shift && renamed_each(before.args, after.args, table)
}

/// Whether a copied block ends as the block it was copied from: on the same condition
/// or value it takes the same way, and where that returned, it goes to `back` with
/// what was returned, where that is wanted.
pub open spec fn ends_alike(
    before: TerminatorView,
    after: TerminatorView,
    table: Seq<Value>,
    shift: int,
    back: BlockId,
    wanted: bool,
) -> bool {
    match before {
        TerminatorView::Jump(to) => after matches TerminatorView::Jump(now) && goes_alike(
            to,
            now,
            table,
            shift,
        ),
        TerminatorView::Branch { condition, then, otherwise } => after matches TerminatorView::Branch {
            condition: tested,
            then: first,
            otherwise: second,
        } && tested == table[condition.0 as int] && goes_alike(then, first, table, shift)
            && goes_alike(otherwise, second, table, shift),
        TerminatorView::Switch { value, cases, default } => after matches TerminatorView::Switch {
            value: tested,
            cases: ways,
            default: rest,
        } && tested == table[value.0 as int] && ways.len() == cases.len() && (forall|i: int|
            0 <= i < cases.len() ==> (#[trigger] ways[i]).0 == cases[i].0 && goes_alike(
                cases[i].1,
                ways[i].1,
                table,
                shift,
            )) && goes_alike(default, rest, table, shift),
        TerminatorView::Return(value) => after matches TerminatorView::Jump(to) && to.block == back
            && (if wanted {
            to.args.len() == 1 && to.args[0] == table[value.0 as int]
        } else {
            to.args.len() == 0
        }),
        TerminatorView::Trap(trap) => after == TerminatorView::Trap(trap),
    }
}

/// Whether a copied instruction does what the one it was copied from does, on the
/// values that stand for those it read, and into the one that stands for its result.
pub open spec fn does_alike(before: InstView, after: InstView, table: Seq<Value>, slots: int) -> bool {
    &&& renamed_each(before.kind.operands(), after.kind.operands(), table)
    &&& after.span == before.span
    &&& match before.result {
        Some(value) => after.result == Some(table[value.0 as int]),
        None => after.result is None,
    }
    &&& match before.kind.slot() {
        Some(slot) => after.kind.slot() matches Some(now) && now.0 == slot.0 + slots,
        None => after.kind.with_operands(before.kind.operands()) == before.kind,
    }
}

/// Whether `table` says what stands for each value of a called function: the argument
/// for a parameter, and for every other value one of its own, of its type, that the
/// caller did not have.
pub open spec fn stands_for(
    caller: FunctionView,
    called: FunctionView,
    args: Seq<Value>,
    after: FunctionView,
    table: Seq<Value>,
) -> bool {
    let params = called.block(called.entry).params;
    &&& table.len() == called.values.len()
    &&& forall|k: int|
        0 <= k < params.len() ==> table[(#[trigger] params[k]).0 as int] == args[k]
    &&& forall|v: int|
        0 <= v < table.len() && !params.contains(Value(v as u32)) ==> {
            &&& caller.values.len() <= (#[trigger] table[v]).0 < after.values.len()
            &&& after.values[table[v].0 as int] == called.values[v]
        }
    &&& forall|v: int, w: int|
        0 <= v < w < table.len() && !params.contains(Value(v as u32)) && !params.contains(
            Value(w as u32),
        ) ==> (#[trigger] table[v]) != (#[trigger] table[w])
}

proof fn a_parameter_is_passed_its_argument(params: Seq<Value>, args: Seq<Value>, k: int)
    requires
        params.len() <= args.len(),
        0 <= k < params.len(),
        forall|i: int, j: int| 0 <= i < j < params.len() ==> params[i] != params[j],
    ensures
        passed_for(params, args, params[k]) == Some(args[k]),
    decreases params.len(),
{
    if k < params.len() - 1 {
        let shorter = params.drop_last();
        assert(params[k] != params[params.len() - 1]);
        assert forall|i: int, j: int| 0 <= i < j < shorter.len() implies shorter[i]
            != shorter[j] by {
            assert(params[i] != params[j]);
        }
        a_parameter_is_passed_its_argument(shorter, args, k);
    }
}

proof fn nothing_else_is_passed(params: Seq<Value>, args: Seq<Value>, value: Value)
    requires
        !params.contains(value),
    ensures
        passed_for(params, args, value) is None,
    decreases params.len(),
{
    if params.len() > 0 {
        let shorter = params.drop_last();
        assert(params[params.len() - 1] != value);
        assert forall|i: int| 0 <= i < shorter.len() implies shorter[i] != value by {
            assert(params[i] != value);
        }
        nothing_else_is_passed(shorter, args, value);
    }
}

proof fn values_take_their_turn(
    types: Seq<TyView>,
    params: Seq<Value>,
    args: Seq<Value>,
    v: nat,
    count: nat,
)
    requires
        v < count <= types.len() <= id_limit(),
        passed_for(params, args, Value(v as u32)) is None,
    ensures
        unpassed(types, params, args, v).len() < unpassed(types, params, args, count).len(),
        unpassed(types, params, args, count)[unpassed(types, params, args, v).len() as int]
            == types[v as int],
    decreases count,
{
    if v + 1 < count {
        values_take_their_turn(types, params, args, v, (count - 1) as nat);
    }
}

/// Inlining a call puts the body of what is called in its place. What came before the
/// call stays and goes on at the copy of the entry; what came after it stands in a
/// block of its own, which receives what the call gave. Each copied block has the
/// instructions of its block, and ends as it ends, on what stands for the values. The
/// other blocks stay as they are.
pub proof fn a_call_becomes_what_it_calls(
    caller: FunctionView,
    block: BlockId,
    at: int,
    called: FunctionView,
    args: Seq<Value>,
)
    requires
        called.well_formed(),
        block.0 < caller.blocks.len(),
        0 <= at < caller.block(block).insts.len(),
        caller.block(block).insts[at].kind matches InstKindView::Call { args: passed, .. } && passed
            == args,
        ({
            let params = called.block(called.entry).params;
            &&& params.len() == args.len()
            &&& forall|i: int, j: int| 0 <= i < j < params.len() ==> params[i] != params[j]
        }),
        caller.blocks.len() + 1 + called.blocks.len() <= id_limit(),
        caller.values.len() + called.values.len() <= id_limit(),
        caller.slots.len() + called.slots.len() <= id_limit(),
    ensures
        ({
            let after = inline_call(caller, block, at, called);
            let held = caller.block(block);
            let call = held.insts[at];
            let shift = caller.blocks.len() + 1;
            &&& after.blocks.len() == shift + called.blocks.len()
            &&& forall|b: int|
                0 <= b < caller.blocks.len() && b != block.0 ==> (#[trigger] after.blocks[b])
                    == caller.blocks[b]
            &&& after.block(block).params == held.params
            &&& after.block(block).insts == held.insts.take(at)
            &&& after.block(block).term matches Some(TerminatorView::Jump(to)) && to.block.0
                == called.entry.0 + shift && to.args.len() == 0
            &&& after.blocks[shift - 1].insts == held.insts.skip(at + 1)
            &&& after.blocks[shift - 1].term == held.term
            &&& match call.result {
                Some(value) => after.blocks[shift - 1].params == seq![value],
                None => after.blocks[shift - 1].params.len() == 0,
            }
            &&& forall|i: int|
                0 <= i < caller.values.len() ==> (#[trigger] after.values[i]) == caller.values[i]
            &&& after.slots == caller.slots + called.slots
            &&& exists|table: Seq<Value>|
                #[trigger] stands_for(caller, called, args, after, table) && forall|b: int|
                    0 <= b < called.blocks.len() ==> {
                        let source = #[trigger] called.blocks[b];
                        let copy = after.blocks[shift + b];
                        &&& b == called.entry.0 ==> copy.params.len() == 0
                        &&& b != called.entry.0 ==> renamed_each(source.params, copy.params, table)
                        &&& copy.insts.len() == source.insts.len()
                        &&& forall|i: int|
                            0 <= i < source.insts.len() ==> does_alike(
                                source.insts[i],
                                #[trigger] copy.insts[i],
                                table,
                                caller.slots.len() as int,
                            )
                        &&& source.term matches Some(term) ==> copy.term matches Some(now)
                            && ends_alike(
                            term,
                            now,
                            table,
                            shift as int,
                            BlockId((shift - 1) as u32),
                            call.result is Some,
                        )
                    }
        }),
{
    let after = inline_call(caller, block, at, called);
    let params = called.block(called.entry).params;
    let held = caller.block(block);
    let call = held.insts[at];
    let shift = caller.blocks.len() + 1;
    let table = value_table(called.values, params, args, caller.values.len());
    let slots = slot_table(called.slots.len(), caller.slots.len());
    assert(called.blocks[called.entry.0 as int].within(
        called.values.len(),
        called.slots.len(),
        called.blocks.len(),
    ));
    values_are_few(called.values, params, args, called.values.len());
    assert forall|k: int| 0 <= k < params.len() implies table[(#[trigger] params[k]).0 as int]
        == args[k] by {
        a_parameter_is_passed_its_argument(params, args, k);
        assert(Value(params[k].0 as int as u32) == params[k]);
    }
    assert forall|v: int| 0 <= v < table.len() && !params.contains(Value(v as u32)) implies {
        &&& caller.values.len() <= (#[trigger] table[v]).0 < after.values.len()
        &&& after.values[table[v].0 as int] == called.values[v]
    } by {
        nothing_else_is_passed(params, args, Value(v as u32));
        values_take_their_turn(called.values, params, args, v as nat, called.values.len());
    }
    assert forall|v: int, w: int|
        0 <= v < w < table.len() && !params.contains(Value(v as u32)) && !params.contains(
            Value(w as u32),
        ) implies (#[trigger] table[v]) != (#[trigger] table[w]) by {
        nothing_else_is_passed(params, args, Value(v as u32));
        nothing_else_is_passed(params, args, Value(w as u32));
        values_take_their_turn(called.values, params, args, v as nat, w as nat);
        values_take_their_turn(called.values, params, args, w as nat, called.values.len());
    }
    assert(stands_for(caller, called, args, after, table));
    assert forall|b: int| 0 <= b < called.blocks.len() implies {
        let source = #[trigger] called.blocks[b];
        let copy = after.blocks[shift + b];
        &&& b == called.entry.0 ==> copy.params.len() == 0
        &&& b != called.entry.0 ==> renamed_each(source.params, copy.params, table)
        &&& copy.insts.len() == source.insts.len()
        &&& forall|i: int|
            0 <= i < source.insts.len() ==> does_alike(
                source.insts[i],
                #[trigger] copy.insts[i],
                table,
                caller.slots.len() as int,
            )
        &&& source.term matches Some(term) ==> copy.term matches Some(now) && ends_alike(
            term,
            now,
            table,
            shift as int,
            BlockId((shift - 1) as u32),
            call.result is Some,
        )
    } by {
        let source = called.blocks[b];
        let copy = after.blocks[shift + b];
        assert(source.within(called.values.len(), called.slots.len(), called.blocks.len()));
        assert forall|i: int| 0 <= i < source.insts.len() implies does_alike(
            source.insts[i],
            #[trigger] copy.insts[i],
            table,
            caller.slots.len() as int,
        ) by {
            renaming_reaches_every_operand(source.insts[i].kind, table, slots);
            assert(source.insts[i].within(called.values.len(), called.slots.len()));
        }
        if let Some(term) = source.term {
            assert(term.within(called.values.len(), called.blocks.len()));
            assert forall|i: int| 0 <= i < term.targets().len() implies (
            #[trigger] term.targets()[i]).block.0 < called.blocks.len() by {
                assert(term.targets()[i].within(called.values.len(), called.blocks.len()));
            }
            match term {
                TerminatorView::Jump(to) => {
                    assert(term.targets()[0] == to);
                },
                TerminatorView::Branch { then, otherwise, .. } => {
                    assert(term.targets()[0] == then);
                    assert(term.targets()[1] == otherwise);
                },
                TerminatorView::Switch { cases, default, .. } => {
                    assert(term.targets()[cases.len() as int] == default);
                    assert forall|i: int| 0 <= i < cases.len() implies (
                    #[trigger] cases[i]).1.block.0 < called.blocks.len() by {
                        assert(term.targets()[i] == cases[i].1);
                    }
                },
                _ => {},
            }
        }
    }
}

proof fn values_are_few(types: Seq<TyView>, params: Seq<Value>, args: Seq<Value>, count: nat)
    ensures
        unpassed(types, params, args, count).len() <= count,
    decreases count,
{
    if count > 0 {
        values_are_few(types, params, args, (count - 1) as nat);
    }
}

/// The types written into an instruction: those it converts to, tests for or makes,
/// and those a call fills in.
pub open spec fn written_types(kind: InstKindView) -> Seq<TyView> {
    match kind {
        InstKindView::Convert { to, .. } => seq![to],
        InstKindView::Reinterpret { to, .. } => seq![to],
        InstKindView::IsType { ty, .. } => seq![ty],
        InstKindView::Call { type_args, .. } => type_args,
        InstKindView::MakeStruct { ty, .. } => seq![ty],
        InstKindView::MakeEnum { ty, .. } => seq![ty],
        InstKindView::MakeList { element, .. } => seq![element],
        InstKindView::MakeMap { key, value, .. } => seq![key, value],
        InstKindView::MakeSet { element, .. } => seq![element],
        _ => Seq::empty(),
    }
}

/// The instruction with other types written into it.
pub open spec fn with_types(kind: InstKindView, types: Seq<TyView>) -> InstKindView {
    match kind {
        InstKindView::Convert { value, .. } => InstKindView::Convert { value, to: types[0] },
        InstKindView::Reinterpret { value, .. } => InstKindView::Reinterpret {
            value,
            to: types[0],
        },
        InstKindView::IsType { value, .. } => InstKindView::IsType { value, ty: types[0] },
        InstKindView::Call { callee, args, .. } => InstKindView::Call {
            callee,
            type_args: types,
            args,
        },
        InstKindView::MakeStruct { fields, allocation, .. } => InstKindView::MakeStruct {
            ty: types[0],
            fields,
            allocation,
        },
        InstKindView::MakeEnum { variant, payload, .. } => InstKindView::MakeEnum {
            ty: types[0],
            variant,
            payload,
        },
        InstKindView::MakeList { values, .. } => InstKindView::MakeList {
            element: types[0],
            values,
        },
        InstKindView::MakeMap { entries, .. } => InstKindView::MakeMap {
            key: types[0],
            value: types[1],
            entries,
        },
        InstKindView::MakeSet { values, .. } => InstKindView::MakeSet {
            element: types[0],
            values,
        },
        other => other,
    }
}

/// Whether each type of `after` is the one in its place in `before`, with the
/// arguments filled in.
pub open spec fn filled_each(
    before: Seq<TyView>,
    after: Seq<TyView>,
    params: Seq<Seq<char>>,
    args: Seq<TyView>,
) -> bool {
    &&& after.len() == before.len()
    &&& forall|i: int|
        0 <= i < before.len() ==> #[trigger] after[i] == before[i].substitute(params, args)
}

/// An instance is its template with the arguments filled in, in every type the template
/// mentions: what it takes and gives back, what its values and slots hold, and what is
/// written into each of its instructions. Nothing else changes, and nothing is left to
/// fill in.
pub proof fn an_instance_is_its_template_filled_in(template: FunctionView, args: Seq<TyView>)
    ensures
        ({
            let after = substituted(template, args);
            let params = template.type_params;
            &&& after.type_params.len() == 0
            &&& filled_each(template.params, after.params, params, args)
            &&& filled_each(seq![template.result], seq![after.result], params, args)
            &&& filled_each(template.values, after.values, params, args)
            &&& filled_each(template.slots, after.slots, params, args)
            &&& after.entry == template.entry
            &&& after.asynchronous == template.asynchronous
            &&& after.inline == template.inline
            &&& after.external == template.external
            &&& after.c_abi == template.c_abi
            &&& after.blocks.len() == template.blocks.len()
            &&& forall|b: int|
                0 <= b < template.blocks.len() ==> {
                    let source = #[trigger] template.blocks[b];
                    let block = after.blocks[b];
                    &&& block.params == source.params
                    &&& block.term == source.term
                    &&& block.insts.len() == source.insts.len()
                    &&& forall|i: int|
                        0 <= i < source.insts.len() ==> {
                            let inst = #[trigger] block.insts[i];
                            let was = source.insts[i];
                            &&& inst.result == was.result
                            &&& inst.span == was.span
                            &&& filled_each(
                                written_types(was.kind),
                                written_types(inst.kind),
                                params,
                                args,
                            )
                            &&& with_types(inst.kind, written_types(was.kind)) == was.kind
                        }
                }
        }),
{
}

/// Where a template mentions only its own parameters and each is filled with a type
/// that is not generic, no type written into an instruction of the instance is generic.
pub proof fn no_instruction_of_an_instance_is_generic(
    template: FunctionView,
    args: Seq<TyView>,
    b: int,
    i: int,
    k: int,
)
    requires
        template.type_params.len() <= args.len(),
        forall|j: int| 0 <= j < args.len() ==> !(#[trigger] args[j]).generic(),
        0 <= b < template.blocks.len(),
        0 <= i < template.blocks[b].insts.len(),
        0 <= k < written_types(template.blocks[b].insts[i].kind).len(),
        forall|name: Seq<char>| #[trigger]
            written_types(template.blocks[b].insts[i].kind)[k].mentions(name)
                ==> template.type_params.contains(name),
    ensures
        k < written_types(substituted(template, args).blocks[b].insts[i].kind).len(),
        !written_types(substituted(template, args).blocks[b].insts[i].kind)[k].generic(),
{
    an_instance_is_its_template_filled_in(template, args);
    let was = template.blocks[b].insts[i];
    let inst = substituted(template, args).blocks[b].insts[i];
    assert(filled_each(
        written_types(was.kind),
        written_types(inst.kind),
        template.type_params,
        args,
    ));
    filled_types_are_concrete(written_types(was.kind)[k], template.type_params, args);
}

/// Whether each instance that was made is there, takes and gives back what its template
/// does with the arguments filled in, and has nothing left to fill in.
pub open spec fn instances_stand(state: MonoView) -> bool {
    forall|k: int|
        0 <= k < state.made.len() ==> {
            let (template, args, id) = #[trigger] state.made[k];
            &&& template.0 < state.program.functions.len()
            &&& id.0 < state.program.functions.len()
            &&& signed_as(state.program.function(template), args, state.program.function(id))
        }
}

/// Whether `made` takes and gives back what `template` does with the arguments filled
/// in.
pub open spec fn signed_as(template: FunctionView, args: Seq<TyView>, made: FunctionView) -> bool {
    &&& made.type_params.len() == 0
    &&& filled_each(template.params, made.params, template.type_params, args)
    &&& made.result == template.result.substitute(template.type_params, args)
    &&& filled_each(template.values, made.values, template.type_params, args)
    &&& made.blocks.len() == template.blocks.len()
}

proof fn what_was_made_is_listed(
    made: Seq<(FuncId, Seq<TyView>, FuncId)>,
    template: FuncId,
    args: Seq<TyView>,
)
    ensures
        made_for(made, template, args) matches Some(id) ==> exists|k: int|
            0 <= k < made.len() && #[trigger] made[k] == (template, args, id),
    decreases made.len(),
{
    if made.len() > 0 {
        let shorter = made.drop_last();
        if made.last().0 == template && made.last().1 == args {
            assert(made[made.len() - 1] == (template, args, made.last().2));
        } else {
            what_was_made_is_listed(shorter, template, args);
            if let Some(id) = made_for(shorter, template, args) {
                let k = choose|k: int|
                    0 <= k < shorter.len() && #[trigger] shorter[k] == (template, args, id);
                assert(made[k] == (template, args, id));
            }
        }
    }
}

/// A call that fills type parameters in comes to name an instance of what it called,
/// for just those arguments, with nothing left to fill in and the values it passed. So
/// what it calls takes and gives back what the template does for those arguments.
pub proof fn a_call_comes_to_name_its_instance(state: MonoView, id: FuncId, b: int, at: int)
    requires
        instances_stand(state),
        id.0 < state.program.functions.len(),
        state.program.functions.len() < id_limit(),
        state.program.function(id).type_params.len() == 0,
        0 <= b < state.program.function(id).blocks.len(),
        0 <= at < state.program.function(id).blocks[b].insts.len(),
        state.program.function(id).blocks[b].insts[at].kind matches InstKindView::Call {
            callee,
            type_args,
            ..
        } && type_args.len() > 0 && callee.0 < state.program.functions.len()
            && state.program.function(callee).type_params.len() > 0,
        forall|k: int|
            0 <= k < state.made.len() ==> state.program.function(
                (#[trigger] state.made[k]).0,
            ).type_params.len() > 0,
    ensures
        ({
            let after = rewrite_inst(state, id, b, at);
            let was = state.program.function(id).blocks[b].insts[at];
            let now = after.program.function(id).blocks[b].insts[at];
            let callee = was.kind->Call_callee;
            let type_args = was.kind->Call_type_args;
            &&& instances_stand(after)
            &&& now.result == was.result
            &&& now.kind matches InstKindView::Call { callee: made, type_args: none, args } && {
                &&& none.len() == 0
                &&& args == was.kind->Call_args
                &&& made.0 < after.program.functions.len()
                &&& signed_as(
                    state.program.function(callee),
                    type_args,
                    after.program.function(made),
                )
                &&& exists|k: int|
                    0 <= k < after.made.len() && #[trigger] after.made[k] == (
                        callee,
                        type_args,
                        made,
                    )
            }
            &&& forall|i: int|
                0 <= i < state.program.function(id).blocks[b].insts.len() && i != at ==> (
                #[trigger] after.program.function(id).blocks[b].insts[i])
                    == state.program.function(id).blocks[b].insts[i]
        }),
{
    let was = state.program.function(id).blocks[b].insts[at];
    let callee = was.kind->Call_callee;
    let type_args = was.kind->Call_type_args;
    let (grown, made) = instance(state, callee, type_args);
    what_was_made_is_listed(state.made, callee, type_args);
    an_instance_is_its_template_filled_in(state.program.function(callee), type_args);
    assert(grown.program.function(callee) == state.program.function(callee));
    assert(grown.program.function(id) == state.program.function(id));
    assert(instances_stand(grown)) by {
        assert forall|k: int| 0 <= k < grown.made.len() implies {
            let (template, args, found) = #[trigger] grown.made[k];
            &&& template.0 < grown.program.functions.len()
            &&& found.0 < grown.program.functions.len()
            &&& signed_as(grown.program.function(template), args, grown.program.function(found))
        } by {
            if k < state.made.len() {
                assert(grown.made[k] == state.made[k]);
            }
        }
    }
    assert(exists|k: int|
        0 <= k < grown.made.len() && #[trigger] grown.made[k] == (callee, type_args, made)) by {
        if made_for(state.made, callee, type_args) is None {
            assert(grown.made[grown.made.len() - 1] == (callee, type_args, made));
        }
    }
    let after = rewrite_inst(state, id, b, at);
    assert(after.made == grown.made);
    let held = grown.program.function(id);
    let changed = after.program.function(id);
    assert(changed.params == held.params && changed.values == held.values && changed.result
        == held.result && changed.blocks.len() == held.blocks.len());
    assert forall|k: int| 0 <= k < after.made.len() implies {
        let (template, args, found) = #[trigger] after.made[k];
        &&& template.0 < after.program.functions.len()
        &&& found.0 < after.program.functions.len()
        &&& signed_as(after.program.function(template), args, after.program.function(found))
    } by {
        let (template, args, found) = grown.made[k];
        assert(signed_as(grown.program.function(template), args, grown.program.function(found)));
        assert(template != id) by {
            if k < state.made.len() {
                assert(state.made[k].0 == template);
            }
        }
    }
}

/// A call through an interface is made direct only where the interface has one
/// implementor, and then calls what that one fills the slot of the method with.
pub proof fn only_what_can_be_reached_is_called(
    program: ProgramView,
    function: FunctionView,
    kind: InstKindView,
)
    ensures
        resolved(program, function, kind) matches Some((callee, _, _)) ==> {
            &&& kind matches InstKindView::CallVirtual { method, .. } && {
                &&& method.interface.0 < program.types.len()
                &&& program.types[method.interface.0 as int].shape matches ShapeView::Interface(
                    held,
                ) && held.implementors.len() == 1 && method.slot < held.implementors[0].methods.len()
                    && callee == held.implementors[0].methods[method.slot as int]
            }
        },
{
}

/// Where each instruction goes when calls are made direct: a call that can be is two
/// instructions, the first of which opens the receiver and the second of which calls
/// what it reaches, with the receiver opened first and then each argument the call
/// passed, in its place. It gives what the call gave. Every other instruction stays.
/// What comes before and after keeps its order.
pub proof fn a_call_made_direct_passes_the_receiver_first(
    program: ProgramView,
    function: FunctionView,
    insts: Seq<InstView>,
    next: nat,
    i: int,
)
    requires
        0 <= i < insts.len(),
        next + insts.len() <= id_limit(),
    ensures
        ({
            let whole = direct(program, function, insts, next);
            let before = direct(program, function, insts.take(i), next);
            let at = before.len() as int;
            let was = insts[i];
            &&& before.is_prefix_of(whole)
            &&& match resolved(program, function, was.kind) {
                Some((callee, type_args, ty)) => {
                    &&& at + 2 <= whole.len()
                    &&& direct(program, function, insts.take(i + 1), next).len() == at + 2
                    &&& was.kind matches InstKindView::CallVirtual { receiver, args, .. } && {
                        &&& whole[at].kind == (InstKindView::DynValue { value: receiver })
                        &&& whole[at].result matches Some(inside) && {
                            &&& next <= inside.0 < next + opened(program, function, insts).len()
                            &&& opened(program, function, insts)[inside.0 - next] == ty
                            &&& whole[at + 1].kind matches InstKindView::Call {
                                callee: called,
                                type_args: filled,
                                args: passed,
                            } && {
                                &&& called == callee
                                &&& filled == type_args
                                &&& passed.len() == args.len() + 1
                                &&& passed[0] == inside
                                &&& forall|k: int|
                                    0 <= k < args.len() ==> #[trigger] args[k] == passed[k + 1]
                            }
                        }
                        &&& whole[at + 1].result == was.result
                    }
                },
                None => {
                    &&& at + 1 <= whole.len()
                    &&& direct(program, function, insts.take(i + 1), next).len() == at + 1
                    &&& whole[at] == was
                },
            }
        }),
    decreases insts.len(),
{
    let whole = direct(program, function, insts, next);
    let shorter = insts.drop_last();
    opened_are_few(program, function, shorter);
    if i < insts.len() - 1 {
        a_call_made_direct_passes_the_receiver_first(program, function, shorter, next, i);
        assert(shorter.take(i) =~= insts.take(i));
        assert(shorter.take(i + 1) =~= insts.take(i + 1));
        assert(shorter[i] == insts[i]);
    } else {
        assert(insts.take(i) =~= shorter);
        assert(insts.take(i + 1) =~= insts);
        assert(insts.last() == insts[i]);
        if let Some((callee, type_args, ty)) = resolved(program, function, insts[i].kind) {
            let args = insts[i].kind->CallVirtual_args;
            let at = direct(program, function, shorter, next).len() as int;
            let inside = Value((next + opened(program, function, shorter).len()) as u32);
            assert(whole[at].result == Some(inside));
            let passed = whole[at + 1].kind->Call_args;
            assert(passed == seq![inside] + args);
            assert forall|k: int| 0 <= k < args.len() implies #[trigger] args[k] == passed[k
                + 1] by {}
        }
    }
}

proof fn opened_are_few(program: ProgramView, function: FunctionView, insts: Seq<InstView>)
    ensures
        opened(program, function, insts).len() <= insts.len(),
    decreases insts.len(),
{
    if insts.len() > 0 {
        opened_are_few(program, function, insts.drop_last());
    }
}

/// What a call made direct passes is what the function takes. Where the call through
/// the interface passed, for each parameter its method has, a value of that type, the
/// receiver opened has the type of the function's first parameter, with the type
/// arguments filled in, and each argument the type of the next.
pub proof fn a_direct_call_passes_what_is_taken(
    program: ProgramView,
    function: FunctionView,
    kind: InstKindView,
    k: int,
)
    requires
        resolved(program, function, kind) is Some,
        !function.type_of(kind->CallVirtual_receiver).nests(),
        ({
            let method = kind->CallVirtual_method;
            let nominal = program.nominal(method.interface);
            let required = nominal.shape->Interface_0.methods[method.slot as int];
            let filled = function.type_of(kind->CallVirtual_receiver)->Named_args;
            let args = kind->CallVirtual_args;
            &&& !any_nests(required.params)
            &&& !required.result.nests()
            &&& args.len() == required.params.len()
            &&& forall|j: int|
                0 <= j < args.len() ==> function.type_of(#[trigger] args[j])
                    == required.params[j].substitute(nominal.type_params, filled)
        }),
        ({
            let callee = program.function(resolved(program, function, kind)->Some_0.0);
            &&& !any_cells_hold(callee.params, callee.type_params)
            &&& !cells_hold(callee.result, callee.type_params)
        }),
        0 <= k < kind->CallVirtual_args.len(),
    ensures
        ({
            let (id, type_args, ty) = resolved(program, function, kind)->Some_0;
            let callee = program.function(id);
            let args = kind->CallVirtual_args;
            &&& callee.params.len() == args.len() + 1
            &&& callee.params[0].substitute(callee.type_params, type_args) == ty
            &&& callee.params[k + 1].substitute(callee.type_params, type_args)
                == function.type_of(args[k])
        }),
{
    let method = kind->CallVirtual_method;
    let receiver = function.type_of(kind->CallVirtual_receiver);
    let (id, type_args, ty) = resolved(program, function, kind)->Some_0;
    assert(implementation_arguments(program, receiver, method, id) == Some((type_args, ty)));
    resolved_signature_is_the_promised_one(program, receiver, method, id, type_args, ty);
    let callee = program.function(id);
    let nominal = program.nominal(method.interface);
    let required = nominal.shape->Interface_0.methods[method.slot as int];
    let filled = substitute_all(callee.params, callee.type_params, type_args);
    let wanted = substitute_all(required.params, nominal.type_params, receiver->Named_args);
    assert(filled.len() == callee.params.len());
    assert(filled[0] == (seq![ty] + wanted)[0]);
    assert(filled[k + 1] == (seq![ty] + wanted)[k + 1]);
    assert(function.type_of(kind->CallVirtual_args[k]) == wanted[k]);
}

/// Whether an instruction reads or writes what a list holds at an index, checked.
pub open spec fn accesses(kind: InstKindView, receiver: Value, index: Value) -> bool {
    ||| kind == (InstKindView::GetIndex { receiver, index })
    ||| kind matches InstKindView::SetIndex { receiver: held, index: at, .. } && held == receiver
        && at == index
}

/// Whether an instruction does what another does, without the check: it reads the same
/// place, or writes the same value into it.
pub open spec fn is_without_check(before: InstKindView, after: InstKindView) -> bool {
    match before {
        InstKindView::GetIndex { receiver, index } => after == (InstKindView::GetUncheckedIndex {
            receiver,
            index,
        }),
        InstKindView::SetIndex { receiver, index, value } => after == (
        InstKindView::SetUncheckedIndex { receiver, index, value }),
        _ => false,
    }
}

proof fn an_access_is_told(kind: InstKindView, receiver: Value, index: Value)
    ensures
        without_check(kind, receiver, index) is Some <==> accesses(kind, receiver, index),
        without_check(kind, receiver, index) matches Some(after) ==> is_without_check(kind, after),
{
}

/// Of a list whose index was proved, each access up to the first thing that might change
/// what the list holds loses its check, and stays the same access otherwise. Everything
/// else stays as it is.
pub proof fn a_proved_access_loses_only_its_check(
    insts: Seq<InstView>,
    receiver: Value,
    index: Value,
    at: int,
)
    requires
        0 <= at < insts.len(),
    ensures
        unchecked(insts, receiver, index).len() == insts.len(),
        ({
            let after = unchecked(insts, receiver, index)[at];
            if accesses(insts[at].kind, receiver, index) && forall|j: int|
                0 <= j < at ==> !((#[trigger] insts[j]).kind.effect() is State) || accesses(
                    insts[j].kind,
                    receiver,
                    index,
                ) {
                &&& is_without_check(insts[at].kind, after.kind)
                &&& after.result == insts[at].result
                &&& after.span == insts[at].span
            } else {
                after == insts[at]
            }
        }),
    decreases insts.len(),
{
    an_access_is_told(insts[0].kind, receiver, index);
    let rest = insts.skip(1);
    let whole = unchecked(insts, receiver, index);
    if at > 0 {
        a_proved_access_loses_only_its_check(rest, receiver, index, at - 1);
        assert(rest[at - 1] == insts[at]);
        let reached = forall|j: int|
            0 <= j < at ==> !((#[trigger] insts[j]).kind.effect() is State) || accesses(
                insts[j].kind,
                receiver,
                index,
            );
        let reached_in_rest = forall|j: int|
            0 <= j < at - 1 ==> !((#[trigger] rest[j]).kind.effect() is State) || accesses(
                rest[j].kind,
                receiver,
                index,
            );
        let goes_on = !(insts[0].kind.effect() is State) || accesses(
            insts[0].kind,
            receiver,
            index,
        );
        if reached {
            assert forall|j: int| 0 <= j < at - 1 implies !((
            #[trigger] rest[j]).kind.effect() is State) || accesses(
                rest[j].kind,
                receiver,
                index,
            ) by {
                assert(rest[j] == insts[j + 1]);
            }
        }
        if goes_on && reached_in_rest {
            assert forall|j: int| 0 <= j < at implies !((
            #[trigger] insts[j]).kind.effect() is State) || accesses(
                insts[j].kind,
                receiver,
                index,
            ) by {
                if j > 0 {
                    assert(rest[j - 1] == insts[j]);
                }
            }
        }
        if goes_on {
            assert(whole[at] == unchecked(rest, receiver, index)[at - 1]);
        }
    } else if rest.len() > 0 {
        a_proved_access_loses_only_its_check(rest, receiver, index, 0);
    } else {
        assert(unchecked(rest, receiver, index) =~= rest);
    }
}

proof fn captures_are_read(
    b: BuilderView,
    types: Seq<TyView>,
    captures: Seq<Value>,
    count: nat,
)
    requires
        place(b).0 < size(b).1,
        count <= captures.len(),
    ensures
        ({
            let (after, held) = captures_read(b, types, captures, count);
            let before = seen(b, place(b)).insts;
            let now = seen(after, place(b)).insts;
            &&& size(after) == (size(b).0 + count, size(b).1)
            &&& place(after) == place(b)
            &&& held.len() == count
            &&& now.len() == before.len() + count
            &&& forall|k: int|
                0 <= k < count ==> (#[trigger] now[before.len() + k]).result == Some(held[k])
                    && now[before.len() + k].kind == (InstKindView::GetField {
                    object: Value(0),
                    field: (k + 1) as u32,
                })
        }),
    decreases count,
{
    broadcast use writing;

    if count > 0 {
        captures_are_read(b, types, captures, (count - 1) as nat);
        let (held, read) = captures_read(b, types, captures, (count - 1) as nat);
        let (after, all) = captures_read(b, types, captures, count);
        let before = seen(b, place(b)).insts;
        let earlier = seen(held, place(b)).insts;
        let now = seen(after, place(b)).insts;
        assert(now.len() == earlier.len() + 1);
        assert forall|k: int| 0 <= k < count implies (#[trigger] now[before.len() + k]).result
            == Some(all[k]) && now[before.len() + k].kind == (InstKindView::GetField {
            object: Value(0),
            field: (k + 1) as u32,
        }) by {
            if k < count - 1 {
                assert(now[before.len() + k] == earlier[before.len() + k]);
                assert(all[k] == read[k]);
            }
        }
    }
}

proof fn what_was_captured_is_read(
    captures: Seq<Value>,
    held: Seq<Value>,
    i: int,
    count: nat,
)
    requires
        0 <= i < count <= captures.len(),
        held.len() == captures.len(),
    ensures
        exists|k: int|
            0 <= k < count && #[trigger] captures[k] == captures[i] && last_read(
                captures,
                held,
                captures[i],
                count,
            ) == held[k],
    decreases count,
{
    if captures[count - 1] != captures[i] {
        what_was_captured_is_read(captures, held, i, (count - 1) as nat);
    } else {
        assert(captures[count as int - 1] == captures[i]);
    }
}

/// The call that is deferred: the one that the completion wraps, or the one that gives it.
pub open spec fn call_made(finish: InstView, call: Option<InstView>) -> InstKindView {
    match call {
        Some(inner) => inner.kind,
        None => finish.kind,
    }
}

/// Whether `value` is what one of some reads gives, the one that reads what was captured
/// for `wanted`.
pub open spec fn was_read(
    reads: Seq<InstView>,
    captures: Seq<Value>,
    wanted: Value,
    value: Value,
) -> bool {
    exists|k: int|
        0 <= k < captures.len() && captures[k] == wanted && (#[trigger] reads[k]).result == Some(
            value,
        )
}

/// A thunk makes the call that was deferred. It reads out of its closure what was
/// captured, hands each operand of the call what was captured for it, and gives back what
/// the call gives: as it is, or, where the completion wrapped it, wrapped in the same way.
pub proof fn a_thunk_makes_the_deferred_call(
    function: FunctionView,
    pending: PendingView,
    finish: InstView,
    call: Option<InstView>,
)
    requires
        call is Some ==> (finish.kind matches InstKindView::MakeEnum { payload, .. }
            && payload.len() > 0),
    ensures
        ({
            let made = call_made(finish, call);
            let captures = made.operands();
            let n = captures.len() as int;
            let block = thunk_of(function, pending, finish, call).blocks[0];
            &&& block.insts.len() == n + 1 + (if call is Some {
                1int
            } else {
                0int
            })
            &&& forall|k: int|
                0 <= k < n ==> (#[trigger] block.insts[k]).kind == (InstKindView::GetField {
                    object: Value(0),
                    field: (k + 1) as u32,
                }) && block.insts[k].result is Some
            &&& block.insts[n].kind.with_operands(captures) == made
            &&& block.insts[n].kind.operands().len() == n
            &&& forall|i: int|
                0 <= i < n ==> was_read(
                    block.insts,
                    captures,
                    captures[i],
                    #[trigger] block.insts[n].kind.operands()[i],
                )
            &&& block.insts[n].result matches Some(value) && match call {
                Some(_) => finish.kind matches InstKindView::MakeEnum { ty, variant, payload }
                    && block.insts[n + 1].kind == (InstKindView::MakeEnum {
                    ty,
                    variant,
                    payload: seq![value] + payload.skip(1),
                }) && (block.insts[n + 1].result matches Some(ended) && block.term == Some(
                    TerminatorView::Return(ended),
                )),
                None => block.term == Some(TerminatorView::Return(value)),
            }
        }),
{
    broadcast use writing;

    let made = call_made(finish, call);
    let captures = made.operands();
    let completion_ty = function.type_of(pending.completion);
    let fresh = FunctionView::fresh(
        function.name + "#task"@ + decimal(pending.task.0 as nat),
        seq![thunk_type_view(pending.result)],
        completion_ty,
        pending.span,
    );
    let b = BuilderView { function: fresh, current: BlockId(0), span: pending.span };
    what_is_written(b);
    captures_are_read(b, function.values, captures, captures.len());
    let (read, held) = captures_read(b, function.values, captures, captures.len());
    let operands = thunk_operands(captures, held);
    given_operands_are_read(made, operands);
    only_operands_are_given(made, operands);
    let n = captures.len() as int;
    let early = seen(read, BlockId(0)).insts;
    assert(early.len() == n);
    assert forall|k: int| 0 <= k < n implies (#[trigger] early[k]).result == Some(held[k])
        && early[k].kind == (InstKindView::GetField { object: Value(0), field: (k + 1) as u32 }) by {
        assert(early[seen(b, place(b)).insts.len() + k] == early[k]);
    }
    let whole = thunk_of(function, pending, finish, call);
    let block = whole.blocks[0];
    match call {
        Some(inner) => {
            let (called, value) = read.put(
                made.with_operands(operands),
                function.type_of(inner.result->0),
            );
            let (built, ended) = called.put(
                first_payload(finish.kind, value),
                completion_ty,
            );
            let done = built.ret(ended);
            what_is_written(done);
            assert(block == seen(done, BlockId(0)));
            assert(finish.kind->MakeEnum_payload.update(0, value) =~= seq![value]
                + finish.kind->MakeEnum_payload.skip(1));
        },
        None => {
            let (built, ended) = read.put(made.with_operands(operands), completion_ty);
            let done = built.ret(ended);
            what_is_written(done);
            assert(block == seen(done, BlockId(0)));
        },
    }
    assert forall|k: int| 0 <= k < n implies #[trigger] block.insts[k] == early[k] by {}
    assert forall|i: int| 0 <= i < n implies was_read(
        block.insts,
        captures,
        captures[i],
        #[trigger] block.insts[n].kind.operands()[i],
    ) by {
        what_was_captured_is_read(captures, held, i, captures.len());
        let k = choose|k: int|
            0 <= k < captures.len() && #[trigger] captures[k] == captures[i] && last_read(
                captures,
                held,
                captures[i],
                captures.len(),
            ) == held[k];
        assert(block.insts[k] == early[k]);
        assert(block.insts[n].kind.operands()[i] == operands[i]);
    }
}

proof fn what_produces_is_found(insts: Seq<InstView>, value: Value, from: nat)
    ensures
        producer_from(insts, value, from) matches Some(at) ==> from <= at < insts.len()
            && insts[at as int].result == Some(value),
    decreases insts.len() - from,
{
    if from < insts.len() {
        what_produces_is_found(insts, value, from + 1);
    }
}

/// What a deferred call gives is what completes the task: the completion comes from the
/// instruction that is taken out, and where that wraps what a call gives, the call is taken
/// out with it.
pub proof fn what_completes_the_task_is_taken_out(insts: Seq<InstView>, completion: Value)
    requires
        producer(insts, completion) is Some,
        insts[producer(insts, completion)->Some_0 as int].kind matches InstKindView::MakeEnum {
            payload,
            ..
        } ==> payload.len() > 0 && producer(
            insts.remove(producer(insts, completion)->Some_0 as int),
            payload[0],
        ) is Some,
    ensures
        ({
            let (finish, call, rest) = taken_out(insts, completion);
            &&& insts.contains(finish)
            &&& finish.result == Some(completion)
            &&& call is Some <==> finish.kind is MakeEnum
            &&& call matches Some(inner) ==> inner.result == Some(finish.kind->MakeEnum_payload[0])
                && insts.contains(inner)
            &&& rest.len() + 1 + (if call is Some {
                1int
            } else {
                0int
            }) == insts.len()
        }),
{
    what_produces_is_found(insts, completion, 0);
    let at = producer(insts, completion)->Some_0 as int;
    let rest = insts.remove(at);
    if let InstKindView::MakeEnum { payload, .. } = insts[at].kind {
        what_produces_is_found(rest, payload[0], 0);
        let inner = producer(rest, payload[0])->Some_0 as int;
        let place: int = if inner < at {
            inner
        } else {
            inner + 1
        };
        assert(rest[inner] == insts[place]);
    }
}

/// A task whose call is deferred is built of a closure over its thunk, which captures what
/// the call reads, and of nothing completed yet. Every other instruction that was left
/// stays, in order.
pub proof fn a_deferred_task_is_built_of_its_thunk(
    program: ProgramView,
    id: FuncId,
    insts: Seq<InstView>,
    pending: PendingView,
)
    requires
        can_defer(program, id, insts, pending),
    ensures
        ({
            let (after, left) = deferred(program, id, insts, pending);
            let (finish, call, rest) = taken_out(insts, pending.completion);
            exists|at: int|
                {
                    &&& 0 <= at < rest.len()
                    &&& left.len() == rest.len() + 2
                    &&& left.take(at) == rest.take(at)
                    &&& left.skip(at + 3) == rest.skip(at + 1)
                    &&& (#[trigger] left[at]).kind == (InstKindView::MakeClosure {
                        func: FuncId(program.functions.len() as u32),
                        captures: call_made(finish, call).operands(),
                    })
                    &&& left[at].result is Some
                    &&& left[at + 1].kind == InstKindView::Const(ConstView::Nil)
                    &&& left[at + 1].result is Some
                    &&& left[at + 2].kind matches InstKindView::MakeStruct { fields, .. } && fields
                        == seq![left[at].result->Some_0, left[at + 1].result->Some_0]
                    &&& left[at + 2].result == Some(pending.task)
                }
        }),
{
    let (after, left) = deferred(program, id, insts, pending);
    let rest = taken_out(insts, pending.completion).2;
    what_produces_is_found(rest, pending.task, 0);
    let at = producer(rest, pending.task)->Some_0 as int;
    assert(left.take(at) =~= rest.take(at));
    assert(left.skip(at + 3) =~= rest.skip(at + 1));
    assert(left[at].result is Some);
}

/// Whether an instruction keeps a struct where it is: it reads a field of it, writes
/// something else into one, or copies it.
pub open spec fn keeps(kind: InstKindView, value: Value) -> bool {
    ||| kind matches InstKindView::GetField { object, .. } && object == value
    ||| kind matches InstKindView::SetField { object, value: written, .. } && object == value
        && written != value
    ||| kind matches InstKindView::CopyValue { value: source, .. } && source == value
}

/// Whether a jump passes a value.
pub open spec fn passes(jump: TargetView, value: Value) -> bool {
    jump.args.contains(value)
}

/// Whether what ends a block names a value: it returns it, passes it, or goes by it.
pub open spec fn names_value(term: TerminatorView, value: Value) -> bool {
    match term {
        TerminatorView::Jump(to) => passes(to, value),
        TerminatorView::Branch { condition, then, otherwise } => condition == value || passes(
            then,
            value,
        ) || passes(otherwise, value),
        TerminatorView::Switch { value: tested, cases, default } => tested == value || passes(
            default,
            value,
        ) || exists|i: int| 0 <= i < cases.len() && passes((#[trigger] cases[i]).1, value),
        TerminatorView::Return(given) => given == value,
        TerminatorView::Trap(_) => false,
    }
}

proof fn an_ending_passes_on_what_it_names(term: TerminatorView, value: Value)
    ensures
        passed_on(term, value) <==> names_value(term, value),
{
    let targets = term.targets();
    match term {
        TerminatorView::Jump(to) => {
            assert(targets[0] == to);
        },
        TerminatorView::Branch { then, otherwise, .. } => {
            assert(targets[0] == then);
            assert(targets[1] == otherwise);
        },
        TerminatorView::Switch { cases, default, .. } => {
            assert(targets[cases.len() as int] == default);
            assert forall|i: int| 0 <= i < cases.len() implies #[trigger] targets[i]
                == cases[i].1 by {}
            if exists|i: int| 0 <= i < cases.len() && passes((#[trigger] cases[i]).1, value) {
                let i = choose|i: int|
                    0 <= i < cases.len() && passes((#[trigger] cases[i]).1, value);
                assert(targets[i].args.contains(value));
            }
            if exists|i: int|
                0 <= i < targets.len() && (#[trigger] targets[i]).args.contains(value) {
                let i = choose|i: int|
                    0 <= i < targets.len() && (#[trigger] targets[i]).args.contains(value);
                if i < cases.len() {
                    assert(passes(cases[i].1, value));
                }
            }
        },
        _ => {},
    }
}

/// A struct is managed just where something may get hold of it: an instruction that reads
/// it and does not keep it where it is, or what ends a block. Of the rest, what was built
/// from its fields and is only read by field lives in registers, and anything else in the
/// frame.
pub proof fn only_what_stays_inside_is_not_managed(
    function: FunctionView,
    value: Value,
    literal: bool,
)
    ensures
        !(allocation(function, value, literal) is Managed) <==> (forall|b: int, i: int|
            0 <= b < function.blocks.len() && 0 <= i < function.blocks[b].insts.len()
                && (#[trigger] function.blocks[b].insts[i]).kind.operands().contains(value)
                ==> keeps(function.blocks[b].insts[i].kind, value)) && (forall|b: int|
            0 <= b < function.blocks.len() ==> ((#[trigger] function.blocks[b]).term matches Some(
                term,
            ) ==> !names_value(term, value))),
        allocation(function, value, literal) is Registers ==> literal && forall|b: int, i: int|
            0 <= b < function.blocks.len() && 0 <= i < function.blocks[b].insts.len() ==> !((
            #[trigger] function.blocks[b].insts[i]).kind is SetField
                && function.blocks[b].insts[i].kind->SetField_object == value),
        literal && !(allocation(function, value, literal) is Managed) && (forall|b: int, i: int|
            0 <= b < function.blocks.len() && 0 <= i < function.blocks[b].insts.len()
                && (#[trigger] function.blocks[b].insts[i]).kind.operands().contains(value)
                ==> function.blocks[b].insts[i].kind is GetField) && (forall|b: int, i: int|
            0 <= b < function.blocks.len() && 0 <= i < function.blocks[b].insts.len() && keeps(
                (#[trigger] function.blocks[b].insts[i]).kind,
                value,
            ) ==> function.blocks[b].insts[i].kind.operands().contains(value)) ==> allocation(
            function,
            value,
            literal,
        ) is Registers,
{
    if escapes(function, value) {
        let b = choose|b: int|
            0 <= b < function.blocks.len() && escapes_block(#[trigger] function.blocks[b], value);
        let block = function.blocks[b];
        if exists|i: int|
            0 <= i < block.insts.len() && reads((#[trigger] block.insts[i]).kind, value)
                && !leaves_in_place(block.insts[i].kind, value) {
            let i = choose|i: int|
                0 <= i < block.insts.len() && reads((#[trigger] block.insts[i]).kind, value)
                    && !leaves_in_place(block.insts[i].kind, value);
            assert(function.blocks[b].insts[i].kind.operands().contains(value));
            assert(!keeps(function.blocks[b].insts[i].kind, value));
        } else {
            an_ending_passes_on_what_it_names(block.term->Some_0, value);
        }
    } else {
        assert forall|b: int, i: int|
            0 <= b < function.blocks.len() && 0 <= i < function.blocks[b].insts.len()
                && (#[trigger] function.blocks[b].insts[i]).kind.operands().contains(
                value,
            ) implies keeps(function.blocks[b].insts[i].kind, value) by {
            assert(!escapes_block(function.blocks[b], value));
            assert(reads(function.blocks[b].insts[i].kind, value));
        }
        assert forall|b: int| 0 <= b < function.blocks.len() implies ((
        #[trigger] function.blocks[b]).term matches Some(term) ==> !names_value(term, value)) by {
            assert(!escapes_block(function.blocks[b], value));
            if let Some(term) = function.blocks[b].term {
                an_ending_passes_on_what_it_names(term, value);
            }
        }
        if allocation(function, value, literal) is Registers {
            assert forall|b: int, i: int|
                0 <= b < function.blocks.len() && 0 <= i
                    < function.blocks[b].insts.len() implies !((
            #[trigger] function.blocks[b].insts[i]).kind is SetField
                && function.blocks[b].insts[i].kind->SetField_object == value) by {
                let kind = function.blocks[b].insts[i].kind;
                if kind is SetField && kind->SetField_object == value {
                    assert(kind.operands()[0] == value);
                    assert(kind.operands().contains(value));
                    assert(reads(kind, value));
                    assert(needs_memory(kind, value)) by {
                        assert(!escapes_block(function.blocks[b], value));
                    }
                    assert(block_needs_memory(function.blocks[b], value));
                }
            }
        }
        if wants_memory(function, value) {
            let b = choose|b: int|
                0 <= b < function.blocks.len() && block_needs_memory(
                    #[trigger] function.blocks[b],
                    value,
                );
            let i = choose|i: int|
                0 <= i < function.blocks[b].insts.len() && needs_memory(
                    (#[trigger] function.blocks[b].insts[i]).kind,
                    value,
                );
            assert(keeps(function.blocks[b].insts[i].kind, value));
        }
    }
}

/// A struct is placed only where it is held by value: a struct that every holder shares is
/// not, and neither is anything that is no struct.
pub proof fn only_structs_held_by_value_are_placed(program: ProgramView, id: TypeId)
    ensures
        value_structs(program).contains(id) <==> id.0 < program.types.len()
            && program.types[id.0 as int].shape is Struct
            && !program.types[id.0 as int].shape->Struct_0.reference,
{
}

} // verus!
