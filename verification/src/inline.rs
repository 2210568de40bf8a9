//! Inlining requested by built-in attributes.

use vstd::prelude::*;

use crate::inst::{
    case_views, rename_maybe, rename_values, renamed_values, values_within, Inst, InstKind,
    InstKindView, InstView, Target, TargetView, Terminator, TerminatorView, Value,
};
use crate::program::{
    block_within_grows, id_limit, views, Block, BlockId, BlockView, FuncId, Function, FunctionView, Inline, Program,
    ProgramView, SlotId,
};
use crate::ty::TyView;

verus! {

/// Whether a call to the function is to be replaced by its body.
pub open spec fn inlineable(function: FunctionView) -> bool {
    &&& function.inline is Always
    &&& function.external is None
    &&& !function.asynchronous
    &&& function.finished()
}

/// The function an instruction of `caller` calls, where its body is to take
/// the place of the call.
pub open spec fn inlined_callee(
    program: ProgramView,
    caller: FuncId,
    kind: InstKindView,
) -> Option<FuncId> {
    match kind {
        InstKindView::Call { callee, type_args, .. } => if type_args.len() == 0 && callee != caller
            && inlineable(program.function(callee)) {
            Some(callee)
        } else {
            None
        },
        _ => None,
    }
}

/// The argument passed for `value`, where it is one of the parameters. Should
/// a parameter stand twice, the later argument is the one.
pub open spec fn passed_for(params: Seq<Value>, args: Seq<Value>, value: Value) -> Option<Value>
    decreases params.len(),
{
    if params.len() == 0 {
        None
    } else if params.len() <= args.len() && params.last() == value {
        Some(args[params.len() - 1])
    } else {
        passed_for(params.drop_last(), args, value)
    }
}

/// The types of those of the first `count` values that no argument stands for.
pub open spec fn unpassed(
    types: Seq<TyView>,
    params: Seq<Value>,
    args: Seq<Value>,
    count: nat,
) -> Seq<TyView>
    decreases count,
{
    if count == 0 {
        Seq::empty()
    } else {
        let before = unpassed(types, params, args, (count - 1) as nat);
        if passed_for(params, args, Value((count - 1) as u32)) is None {
            before.push(types[count - 1])
        } else {
            before
        }
    }
}

/// What each value of the called function becomes: the argument passed for it,
/// or the next value from `first` on.
pub open spec fn value_table(
    types: Seq<TyView>,
    params: Seq<Value>,
    args: Seq<Value>,
    first: nat,
) -> Seq<Value> {
    Seq::new(
        types.len(),
        |i: int|
            match passed_for(params, args, Value(i as u32)) {
                Some(argument) => argument,
                None => Value((first + unpassed(types, params, args, i as nat).len()) as u32),
            },
    )
}

/// What each slot of the called function becomes: the next from `first` on.
pub open spec fn slot_table(count: nat, first: nat) -> Seq<SlotId> {
    Seq::new(count, |i: int| SlotId((first + i) as u32))
}

/// The jump between blocks that come `shift` later, with its values replaced.
pub open spec fn moved_target(target: TargetView, table: Seq<Value>, shift: nat) -> TargetView {
    TargetView {
        block: BlockId((target.block.0 + shift) as u32),
        args: rename_values(target.args, table),
    }
}

/// The cases of a switch between blocks that come `shift` later.
pub open spec fn moved_cases(
    cases: Seq<(u64, TargetView)>,
    table: Seq<Value>,
    shift: nat,
) -> Seq<(u64, TargetView)> {
    Seq::new(cases.len(), |i: int| (cases[i].0, moved_target(cases[i].1, table, shift)))
}

/// What ends a block of the called function, where it comes to stand: it
/// returns by jumping to `continuation`, with the result if that is wanted.
pub open spec fn moved_term(
    term: TerminatorView,
    table: Seq<Value>,
    shift: nat,
    continuation: BlockId,
    gives_back: bool,
) -> TerminatorView {
    match term {
        TerminatorView::Jump(to) => TerminatorView::Jump(moved_target(to, table, shift)),
        TerminatorView::Branch { condition, then, otherwise } => TerminatorView::Branch {
            condition: table[condition.0 as int],
            then: moved_target(then, table, shift),
            otherwise: moved_target(otherwise, table, shift),
        },
        TerminatorView::Switch { value, cases, default } => TerminatorView::Switch {
            value: table[value.0 as int],
            cases: moved_cases(cases, table, shift),
            default: moved_target(default, table, shift),
        },
        TerminatorView::Return(value) => TerminatorView::Jump(
            TargetView {
                block: continuation,
                args: if gives_back {
                    seq![table[value.0 as int]]
                } else {
                    Seq::empty()
                },
            },
        ),
        TerminatorView::Trap(trap) => TerminatorView::Trap(trap),
    }
}

/// An instruction of the called function, where it comes to stand.
pub open spec fn moved_inst(inst: InstView, values: Seq<Value>, slots: Seq<SlotId>) -> InstView {
    InstView {
        result: rename_maybe(inst.result, values),
        kind: inst.kind.renamed(values, slots),
        span: inst.span,
    }
}

/// The block at `at` of the called function, where it comes to stand. The
/// entry takes no parameters there: its arguments stand in their place.
pub open spec fn moved_block(
    called: FunctionView,
    at: int,
    values: Seq<Value>,
    slots: Seq<SlotId>,
    shift: nat,
    continuation: BlockId,
    gives_back: bool,
) -> BlockView {
    let held = called.blocks[at];
    BlockView {
        params: if at == called.entry.0 {
            Seq::empty()
        } else {
            rename_values(held.params, values)
        },
        insts: held.insts.map_values(|inst: InstView| moved_inst(inst, values, slots)),
        term: match held.term {
            Some(term) => Some(moved_term(term, values, shift, continuation, gives_back)),
            None => None,
        },
    }
}

/// The arguments a call passes.
pub open spec fn call_args(kind: InstKindView) -> Seq<Value> {
    match kind {
        InstKindView::Call { args, .. } => args,
        _ => Seq::empty(),
    }
}

/// The function with the call at `at` in `block` replaced by the body of
/// `called`: the block jumps into the body where the call stood, and the body
/// returns to a new block that holds what came after the call.
pub open spec fn inline_call(
    function: FunctionView,
    block: BlockId,
    at: int,
    called: FunctionView,
) -> FunctionView {
    let held = function.block(block);
    let call = held.insts[at];
    let args = call_args(call.kind);
    let params = called.block(called.entry).params;
    let continuation = function.next_block();
    let shift = function.blocks.len() + 1;
    let values = value_table(called.values, params, args, function.values.len());
    let slots = slot_table(called.slots.len(), function.slots.len());
    let before = BlockView {
        params: held.params,
        insts: held.insts.take(at),
        term: Some(
            TerminatorView::Jump(
                TargetView::to(BlockId((called.entry.0 + shift) as u32)),
            ),
        ),
    };
    let after = BlockView {
        params: match call.result {
            Some(value) => seq![value],
            None => Seq::empty(),
        },
        insts: held.insts.skip(at + 1),
        term: held.term,
    };
    FunctionView {
        blocks: function.blocks.update(block.0 as int, before).push(after) + Seq::new(
            called.blocks.len(),
            |i: int|
                moved_block(called, i, values, slots, shift, continuation, call.result is Some),
        ),
        values: function.values + unpassed(called.values, params, args, called.values.len()),
        slots: function.slots + called.slots,
        ..function
    }
}

/// The function with the calls among the first `count` instructions of `block`
/// that are to be, replaced by what they call, from the last to the first.
pub open spec fn inlined_block(
    program: ProgramView,
    caller: FuncId,
    function: FunctionView,
    block: BlockId,
    count: nat,
) -> FunctionView
    decreases count,
{
    if count == 0 {
        function
    } else {
        let at = count - 1;
        let after = match inlined_callee(
            program,
            caller,
            function.block(block).insts[at].kind,
        ) {
            Some(callee) => inline_call(function, block, at, program.function(callee)),
            None => function,
        };
        inlined_block(program, caller, after, block, (count - 1) as nat)
    }
}

/// The function with the calls in its first `count` blocks that are to be,
/// replaced by what they call, from the last block to the first.
pub open spec fn inlined_blocks(
    program: ProgramView,
    caller: FuncId,
    function: FunctionView,
    count: nat,
) -> FunctionView
    decreases count,
{
    if count == 0 {
        function
    } else {
        let block = BlockId((count - 1) as u32);
        inlined_blocks(
            program,
            caller,
            inlined_block(program, caller, function, block, function.block(block).insts.len()),
            (count - 1) as nat,
        )
    }
}

/// The function `caller` with its calls that are to be, replaced by what they
/// call.
pub open spec fn inlined_function(program: ProgramView, caller: FuncId) -> FunctionView {
    let function = program.function(caller);
    inlined_blocks(program, caller, function, function.blocks.len())
}

/// The program with the calls in its first `count` functions that are to be,
/// replaced. A function sees those before it with their calls replaced.
pub open spec fn inlined(program: ProgramView, count: nat) -> ProgramView
    decreases count,
{
    if count == 0 {
        program
    } else {
        let before = inlined(program, (count - 1) as nat);
        let caller = FuncId((count - 1) as u32);
        before.with_function(caller, inlined_function(before, caller))
    }
}

/// Whether what the function holds can be told apart.
pub open spec fn fits(function: FunctionView) -> bool {
    &&& function.blocks.len() <= id_limit()
    &&& function.values.len() <= id_limit()
    &&& function.slots.len() <= id_limit()
}

/// Whether what every function comes to hold can be told apart.
pub open spec fn room_to_inline(program: ProgramView) -> bool {
    forall|i: nat|
        i < program.functions.len() ==> fits(
            inlined_function(#[trigger] inlined(program, i), FuncId(i as u32)),
        )
}

proof fn call_grows(function: FunctionView, block: BlockId, at: int, called: FunctionView)
    requires
        block.0 < function.blocks.len(),
    ensures
        ({
            let after = inline_call(function, block, at, called);
            &&& after.blocks.len() == function.blocks.len() + 1 + called.blocks.len()
            &&& after.values.len() >= function.values.len()
            &&& after.slots.len() == function.slots.len() + called.slots.len()
        }),
{
}

proof fn block_grows(
    program: ProgramView,
    caller: FuncId,
    function: FunctionView,
    block: BlockId,
    count: nat,
)
    requires
        block.0 < function.blocks.len(),
        count <= function.block(block).insts.len(),
    ensures
        ({
            let after = inlined_block(program, caller, function, block, count);
            &&& after.blocks.len() >= function.blocks.len()
            &&& after.values.len() >= function.values.len()
            &&& after.slots.len() >= function.slots.len()
            &&& forall|b: int|
                0 <= b < function.blocks.len() && b != block.0 ==> (#[trigger] after.blocks[b])
                    == function.blocks[b]
        }),
    decreases count,
{
    if count > 0 {
        let at = count - 1;
        match inlined_callee(program, caller, function.block(block).insts[at].kind) {
            Some(callee) => {
                let after = inline_call(function, block, at, program.function(callee));
                call_grows(function, block, at, program.function(callee));
                assert(after.block(block).insts == function.block(block).insts.take(at));
                block_grows(program, caller, after, block, (count - 1) as nat);
            },
            None => {
                block_grows(program, caller, function, block, (count - 1) as nat);
            },
        }
    }
}

proof fn blocks_grow(program: ProgramView, caller: FuncId, function: FunctionView, count: nat)
    requires
        count <= function.blocks.len() <= id_limit(),
    ensures
        ({
            let after = inlined_blocks(program, caller, function, count);
            &&& after.blocks.len() >= function.blocks.len()
            &&& after.values.len() >= function.values.len()
            &&& after.slots.len() >= function.slots.len()
        }),
    decreases count,
{
    if count > 0 {
        let block = BlockId((count - 1) as u32);
        let insts = function.block(block).insts;
        let after = inlined_block(program, caller, function, block, insts.len());
        block_grows(program, caller, function, block, insts.len());
        if after.blocks.len() <= id_limit() {
            blocks_grow(program, caller, after, (count - 1) as nat);
        } else {
            blocks_grow_beyond(program, caller, after, (count - 1) as nat);
        }
    }
}

proof fn blocks_grow_beyond(
    program: ProgramView,
    caller: FuncId,
    function: FunctionView,
    count: nat,
)
    requires
        count <= function.blocks.len(),
        count <= id_limit(),
    ensures
        ({
            let after = inlined_blocks(program, caller, function, count);
            &&& after.blocks.len() >= function.blocks.len()
            &&& after.values.len() >= function.values.len()
            &&& after.slots.len() >= function.slots.len()
        }),
    decreases count,
{
    if count > 0 {
        let block = BlockId((count - 1) as u32);
        let insts = function.block(block).insts;
        block_grows(program, caller, function, block, insts.len());
        blocks_grow_beyond(
            program,
            caller,
            inlined_block(program, caller, function, block, insts.len()),
            (count - 1) as nat,
        );
    }
}

proof fn unpassed_grows(
    types: Seq<TyView>,
    params: Seq<Value>,
    args: Seq<Value>,
    first: nat,
    last: nat,
)
    requires
        first <= last,
    ensures
        unpassed(types, params, args, first).len() <= unpassed(types, params, args, last).len(),
    decreases last,
{
    if first < last {
        unpassed_grows(types, params, args, first, (last - 1) as nat);
    }
}

proof fn passed_is_argument(params: Seq<Value>, args: Seq<Value>, value: Value)
    ensures
        passed_for(params, args, value) matches Some(argument) ==> args.contains(argument),
    decreases params.len(),
{
    if params.len() > 0 {
        passed_is_argument(params.drop_last(), args, value);
        if params.len() <= args.len() && params.last() == value {
            assert(args[params.len() - 1] == args[params.len() - 1]);
        }
    }
}

proof fn table_within(
    types: Seq<TyView>,
    params: Seq<Value>,
    args: Seq<Value>,
    first: nat,
    values: nat,
)
    requires
        values_within(args, values),
        values <= first,
        first + unpassed(types, params, args, types.len()).len() <= id_limit(),
    ensures
        values_within(
            value_table(types, params, args, first),
            first + unpassed(types, params, args, types.len()).len(),
        ),
{
    let table = value_table(types, params, args, first);
    let count = first + unpassed(types, params, args, types.len()).len();
    assert forall|i: int| 0 <= i < table.len() implies (#[trigger] table[i]).0 < count by {
        passed_is_argument(params, args, Value(i as u32));
        match passed_for(params, args, Value(i as u32)) {
            Some(argument) => {
                let k = args.index_of(argument);
                assert(args[k].0 < values);
            },
            None => {
                unpassed_grows(types, params, args, (i + 1) as nat, types.len());
            },
        }
    }
}

proof fn renamed_within(
    kind: InstKindView,
    values: Seq<Value>,
    slots: Seq<SlotId>,
    count: nat,
    slot_count: nat,
)
    requires
        kind.within(values.len(), slots.len()),
        values_within(values, count),
        forall|i: int| 0 <= i < slots.len() ==> (#[trigger] slots[i]).0 < slot_count,
    ensures
        kind.renamed(values, slots).within(count, slot_count),
{
}

proof fn moved_term_within(
    term: TerminatorView,
    table: Seq<Value>,
    shift: nat,
    continuation: BlockId,
    gives_back: bool,
    called_blocks: nat,
    values: nat,
    blocks: nat,
)
    requires
        term.within(table.len(), called_blocks),
        values_within(table, values),
        shift + called_blocks <= blocks <= id_limit(),
        continuation.0 < blocks,
    ensures
        moved_term(term, table, shift, continuation, gives_back).within(values, blocks),
{
    let after = moved_term(term, table, shift, continuation, gives_back);
    assert forall|i: int| 0 <= i < after.targets().len() implies (
    #[trigger] after.targets()[i]).within(values, blocks) by {
        match term {
            TerminatorView::Return(value) => {},
            _ => {
                let target = term.targets()[i];
                assert(target.within(table.len(), called_blocks));
                assert(after.targets()[i] == moved_target(target, table, shift));
                assert forall|j: int| 0 <= j < target.args.len() implies (
                #[trigger] rename_values(target.args, table)[j]).0 < values by {
                    assert(target.args[j].0 < table.len());
                    assert(table[target.args[j].0 as int].0 < values);
                }
            },
        }
    }
}

/// A well-formed function stays well formed when the body of another takes the
/// place of a call, as long as what it then holds can be told apart.
pub proof fn inlining_keeps_well_formed(
    function: FunctionView,
    block: BlockId,
    at: int,
    called: FunctionView,
)
    requires
        function.well_formed(),
        called.well_formed(),
        block.0 < function.blocks.len(),
        0 <= at < function.block(block).insts.len(),
        function.block(block).insts[at].kind is Call,
        fits(inline_call(function, block, at, called)),
    ensures
        inline_call(function, block, at, called).well_formed(),
{
    let held = function.block(block);
    let call = held.insts[at];
    let args = call_args(call.kind);
    let params = called.block(called.entry).params;
    let continuation = function.next_block();
    let shift = function.blocks.len() + 1;
    let values = value_table(called.values, params, args, function.values.len());
    let slots = slot_table(called.slots.len(), function.slots.len());
    let after = inline_call(function, block, at, called);
    let count = after.values.len();
    let slot_count = after.slots.len();
    let block_count = after.blocks.len();
    assert(held.within(function.values.len(), function.slots.len(), function.blocks.len()));
    assert(call.within(function.values.len(), function.slots.len()));
    table_within(
        called.values,
        params,
        args,
        function.values.len(),
        function.values.len(),
    );
    assert forall|b: int| 0 <= b < after.blocks.len() implies (#[trigger] after.blocks[b]).within(
        count,
        slot_count,
        block_count,
    ) by {
        if b < function.blocks.len() && b != block.0 {
            let other = function.blocks[b];
            assert(after.blocks[b] == other);
            assert(other.within(
                function.values.len(),
                function.slots.len(),
                function.blocks.len(),
            ));
            block_within_grows(
                other,
                function.values.len(),
                function.slots.len(),
                function.blocks.len(),
                count,
                slot_count,
                block_count,
            );
        } else if b <= function.blocks.len() {
            block_within_grows(
                held,
                function.values.len(),
                function.slots.len(),
                function.blocks.len(),
                count,
                slot_count,
                block_count,
            );
            let now = after.blocks[b];
            assert forall|i: int| 0 <= i < now.insts.len() implies (
            #[trigger] now.insts[i]).within(count, slot_count) by {
                if b == block.0 {
                    assert(now.insts[i] == held.insts[i]);
                } else {
                    assert(now.insts[i] == held.insts[at + 1 + i]);
                }
            }
        } else {
            let from = b - shift;
            let source = called.blocks[from];
            assert(source.within(called.values.len(), called.slots.len(), called.blocks.len()));
            let now = after.blocks[b];
            assert(now == moved_block(
                called,
                from,
                values,
                slots,
                shift,
                continuation,
                call.result is Some,
            ));
            assert forall|i: int| 0 <= i < now.params.len() implies (#[trigger] now.params[i]).0
                < count by {
                assert(source.params[i].0 < called.values.len());
                assert(values[source.params[i].0 as int].0 < count);
            }
            assert forall|i: int| 0 <= i < now.insts.len() implies (
            #[trigger] now.insts[i]).within(count, slot_count) by {
                assert(source.insts[i].within(called.values.len(), called.slots.len()));
                renamed_within(source.insts[i].kind, values, slots, count, slot_count);
            }
            if let Some(term) = source.term {
                moved_term_within(
                    term,
                    values,
                    shift,
                    continuation,
                    call.result is Some,
                    called.blocks.len(),
                    count,
                    block_count,
                );
            }
        }
    }
}

/// A finished function stays finished when the body of another finished one
/// takes the place of a call.
pub proof fn inlining_keeps_finished(
    function: FunctionView,
    block: BlockId,
    at: int,
    called: FunctionView,
)
    requires
        function.finished(),
        called.finished(),
        block.0 < function.blocks.len(),
    ensures
        inline_call(function, block, at, called).finished(),
{
    let after = inline_call(function, block, at, called);
    let shift = function.blocks.len() + 1;
    assert forall|b: int| 0 <= b < after.blocks.len() implies (#[trigger] after.blocks[b]).term
        is Some by {
        if b < shift {
            assert(function.blocks[block.0 as int].term is Some);
            if b < function.blocks.len() {
                assert(function.blocks[b].term is Some);
            }
        } else {
            assert(called.blocks[b - shift].term is Some);
        }
    }
}

/// A function none of whose calls are to be replaced stays as it is.
pub proof fn nothing_to_inline(program: ProgramView, caller: FuncId, count: nat)
    requires
        count <= program.function(caller).blocks.len() <= id_limit(),
        forall|b: int, i: int|
            0 <= b < program.function(caller).blocks.len() && 0 <= i < program.function(
                caller,
            ).blocks[b].insts.len() ==> inlined_callee(
                program,
                caller,
                (#[trigger] program.function(caller).blocks[b].insts[i]).kind,
            ) is None,
    ensures
        inlined_blocks(program, caller, program.function(caller), count) == program.function(
            caller,
        ),
    decreases count,
{
    if count > 0 {
        let function = program.function(caller);
        let block = BlockId((count - 1) as u32);
        nothing_to_inline_in_block(program, caller, block, function.block(block).insts.len());
        nothing_to_inline(program, caller, (count - 1) as nat);
    }
}

proof fn nothing_to_inline_in_block(
    program: ProgramView,
    caller: FuncId,
    block: BlockId,
    count: nat,
)
    requires
        block.0 < program.function(caller).blocks.len(),
        count <= program.function(caller).block(block).insts.len(),
        forall|b: int, i: int|
            0 <= b < program.function(caller).blocks.len() && 0 <= i < program.function(
                caller,
            ).blocks[b].insts.len() ==> inlined_callee(
                program,
                caller,
                (#[trigger] program.function(caller).blocks[b].insts[i]).kind,
            ) is None,
    ensures
        inlined_block(program, caller, program.function(caller), block, count) == program.function(
            caller,
        ),
    decreases count,
{
    if count > 0 {
        let function = program.function(caller);
        assert(inlined_callee(
            program,
            caller,
            function.blocks[block.0 as int].insts[count - 1].kind,
        ) is None);
        nothing_to_inline_in_block(program, caller, block, (count - 1) as nat);
    }
}

fn is_inlineable(function: &Function) -> (wanted: bool)
    ensures
        wanted == inlineable(function@),
{
    if !matches!(function.inline, Inline::Always) || function.external.is_some()
        || function.asynchronous {
        return false;
    }
    let mut b: usize = 0;
    while b < function.blocks.len()
        invariant
            b <= function.blocks.len(),
            forall|c: int| 0 <= c < b ==> (#[trigger] function@.blocks[c]).term is Some,
        decreases function.blocks.len() - b,
    {
        if function.blocks[b].term.is_none() {
            assert(function@.blocks[b as int].term is None);
            return false;
        }
        b += 1;
    }
    true
}

fn passed_argument(params: &Vec<Value>, args: &Vec<Value>, value: Value) -> (found: Option<Value>)
    ensures
        found == passed_for(params@, args@, value),
{
    let mut i: usize = params.len();
    assert(params@.take(i as int) =~= params@);
    while i > 0
        invariant
            i <= params.len(),
            passed_for(params@, args@, value) == passed_for(params@.take(i as int), args@, value),
        decreases i,
    {
        assert(params@.take(i as int).drop_last() =~= params@.take(i - 1));
        assert(params@.take(i as int).last() == params@[i - 1]);
        if i <= args.len() && params[i - 1] == value {
            return Some(args[i - 1]);
        }
        i -= 1;
    }
    None
}

fn remap_target(target: &Target, table: &Vec<Value>, shift: usize) -> (moved: Target)
    requires
        values_within(target@.args, table@.len()),
        target@.block.0 + shift < id_limit(),
    ensures
        moved@ == moved_target(target@, table@, shift as nat),
{
    Target {
        block: BlockId((target.block.0 as u64 + shift as u64) as u32),
        args: renamed_values(&target.args, table),
    }
}

fn remap_term(
    term: &Terminator,
    table: &Vec<Value>,
    shift: usize,
    continuation: BlockId,
    gives_back: bool,
    Ghost(blocks): Ghost<nat>,
) -> (moved: Terminator)
    requires
        term@.within(table@.len(), blocks),
        shift + blocks <= id_limit(),
    ensures
        moved@ == moved_term(term@, table@, shift as nat, continuation, gives_back),
{
    match term {
        Terminator::Jump(to) => {
            assert(term@.targets()[0].within(table@.len(), blocks));
            Terminator::Jump(remap_target(to, table, shift))
        },
        Terminator::Branch { condition, then, otherwise } => {
            assert(term@.targets()[0].within(table@.len(), blocks));
            assert(term@.targets()[1].within(table@.len(), blocks));
            Terminator::Branch {
                condition: table[condition.0 as usize],
                then: remap_target(then, table, shift),
                otherwise: remap_target(otherwise, table, shift),
            }
        },
        Terminator::Switch { value, cases, default } => {
            assert(term@.targets()[cases@.len() as int].within(table@.len(), blocks));
            let mut moved: Vec<(u64, Target)> = Vec::new();
            let mut i: usize = 0;
            while i < cases.len()
                invariant
                    i <= cases.len(),
                    term@ == (TerminatorView::Switch {
                        value: *value,
                        cases: case_views(cases@),
                        default: default@,
                    }),
                    term@.within(table@.len(), blocks),
                    shift + blocks <= id_limit(),
                    moved@.len() == i,
                    forall|j: int|
                        0 <= j < i ==> (#[trigger] moved@[j]).0 == cases@[j].0 && moved@[j].1@
                            == moved_target(cases@[j].1@, table@, shift as nat),
                decreases cases.len() - i,
            {
                assert(term@.targets()[i as int] == cases@[i as int].1@);
                assert(term@.targets()[i as int].within(table@.len(), blocks));
                moved.push((cases[i].0, remap_target(&cases[i].1, table, shift)));
                i += 1;
            }
            assert(case_views(moved@) =~= moved_cases(case_views(cases@), table@, shift as nat));
            Terminator::Switch {
                value: table[value.0 as usize],
                cases: moved,
                default: remap_target(default, table, shift),
            }
        },
        Terminator::Return(value) => {
            let mut args: Vec<Value> = Vec::new();
            if gives_back {
                args.push(table[value.0 as usize]);
                assert(args@ =~= seq![table@[value.0 as int]]);
            } else {
                assert(args@ =~= Seq::empty());
            }
            Terminator::Jump(Target { block: continuation, args })
        },
        Terminator::Trap(trap) => Terminator::Trap(*trap),
    }
}

fn remap_insts(insts: &Vec<Inst>, values: &Vec<Value>, slots: &Vec<SlotId>) -> (moved: Vec<Inst>)
    requires
        forall|i: int|
            0 <= i < insts@.len() ==> (#[trigger] views(insts@)[i]).within(
                values@.len(),
                slots@.len(),
            ),
    ensures
        views(moved@) == views(insts@).map_values(
            |inst: InstView| moved_inst(inst, values@, slots@),
        ),
{
    let mut moved: Vec<Inst> = Vec::new();
    let mut i: usize = 0;
    while i < insts.len()
        invariant
            i <= insts.len(),
            forall|i: int|
                0 <= i < insts@.len() ==> (#[trigger] views(insts@)[i]).within(
                    values@.len(),
                    slots@.len(),
                ),
            moved@.len() == i,
            forall|j: int|
                0 <= j < i ==> (#[trigger] moved@[j])@ == moved_inst(
                    insts@[j]@,
                    values@,
                    slots@,
                ),
        decreases insts.len() - i,
    {
        let inst = &insts[i];
        assert(views(insts@)[i as int] == inst@);
        let result = match inst.result {
            Some(value) => Some(values[value.0 as usize]),
            None => None,
        };
        moved.push(Inst { result, kind: inst.kind.renamed(values, slots), span: inst.span });
        i += 1;
    }
    assert(views(moved@) =~= views(insts@).map_values(
        |inst: InstView| moved_inst(inst, values@, slots@),
    ));
    moved
}

fn replace_call(function: &mut Function, block: BlockId, at: usize, called: &Function)
    requires
        old(function)@.well_formed(),
        called@.well_formed(),
        block.0 < old(function)@.blocks.len(),
        at < old(function)@.block(block).insts.len(),
        old(function)@.block(block).insts[at as int].kind is Call,
        fits(inline_call(old(function)@, block, at as int, called@)),
    ensures
        final(function)@ == inline_call(old(function)@, block, at as int, called@),
{
    let ghost whole = function@;
    let ghost expected = inline_call(whole, block, at as int, called@);
    let ghost held = whole.block(block);
    let ghost call = held.insts[at as int];
    let ghost params = called@.block(called@.entry).params;
    let ghost given = call_args(call.kind);
    proof {
        call_grows(whole, block, at as int, called@);
        assert(held.within(whole.values.len(), whole.slots.len(), whole.blocks.len()));
        assert(call.within(whole.values.len(), whole.slots.len()));
    }
    let continuation = BlockId(function.blocks.len() as u32);
    let shift: usize = function.blocks.len() + 1;
    let args: Vec<Value> = match &function.blocks[block.0 as usize].insts[at].kind {
        InstKind::Call { args, .. } => crate::inst::clone_values(args),
        _ => Vec::new(),
    };
    let result = function.blocks[block.0 as usize].insts[at].result;
    assert(args@ == given);

    let mut source = function.blocks[block.0 as usize].clone();
    let ghost insts = source.insts@;
    assert(views(insts) == held.insts);
    assert(at < source.insts.len());
    let suffix = source.insts.split_off(at + 1);
    let _ = source.insts.pop();
    let term = source.term.take();
    source.term = Some(
        Terminator::Jump(
            Target::to(BlockId((called.entry.0 as u64 + shift as u64) as u32)),
        ),
    );
    let mut received: Vec<Value> = Vec::new();
    if let Some(value) = result {
        received.push(value);
    }
    let after = Block { params: received, insts: suffix, term };
    proof {
        assert(views(source.insts@) =~= held.insts.take(at as int));
        assert(views(suffix@) =~= held.insts.skip(at + 1));
        assert(after@.params =~= match call.result {
            Some(value) => seq![value],
            None => Seq::empty(),
        });
    }

    let ghost first = whole.values.len();
    let entry_params = &called.block(called.entry).params;
    let mut values: Vec<Value> = Vec::new();
    let mut i: usize = 0;
    assert(function@.values =~= whole.values + unpassed(called@.values, params, given, 0));
    while i < called.values.len()
        invariant
            i <= called.values.len() <= id_limit(),
            entry_params@ == params,
            args@ == given,
            first == whole.values.len(),
            first + unpassed(called@.values, params, given, called@.values.len()).len()
                <= id_limit(),
            function@ == (FunctionView {
                values: whole.values + unpassed(called@.values, params, given, i as nat),
                ..whole
            }),
            values@ == value_table(called@.values, params, given, first).take(i as int),
        decreases called.values.len() - i,
    {
        proof {
            unpassed_grows(called@.values, params, given, (i + 1) as nat, called@.values.len());
        }
        let ghost before = values@;
        let ghost table = value_table(called@.values, params, given, first);
        match passed_argument(entry_params, &args, Value(i as u32)) {
            Some(argument) => {
                values.push(argument);
            },
            None => {
                let fresh = function.add_value(called.values[i].clone());
                values.push(fresh);
                assert(function@.values =~= whole.values + unpassed(
                    called@.values,
                    params,
                    given,
                    (i + 1) as nat,
                ));
            },
        }
        assert(values@.last() == table[i as int]);
        assert(values@ =~= table.take(i + 1));
        i += 1;
    }
    let ghost table = value_table(called@.values, params, given, first);
    assert(values@ =~= table);

    let ghost numbered = function@;
    let mut slots: Vec<SlotId> = Vec::new();
    let mut i: usize = 0;
    assert(function@.slots =~= whole.slots + called@.slots.take(0));
    while i < called.slots.len()
        invariant
            i <= called.slots.len(),
            whole.slots.len() + called@.slots.len() <= id_limit(),
            numbered.slots == whole.slots,
            function@ == (FunctionView {
                slots: whole.slots + called@.slots.take(i as int),
                ..numbered
            }),
            slots@ == slot_table(called@.slots.len(), whole.slots.len()).take(i as int),
        decreases called.slots.len() - i,
    {
        let slot = function.add_slot(called.slots[i].clone());
        slots.push(slot);
        assert(slots@ =~= slot_table(called@.slots.len(), whole.slots.len()).take(i + 1));
        assert(function@.slots =~= whole.slots + called@.slots.take(i + 1));
        i += 1;
    }
    assert(slots@ =~= slot_table(called@.slots.len(), whole.slots.len()));
    assert(called@.slots.take(i as int) =~= called@.slots);

    let ghost prepared = function@;
    function.blocks.set(block.0 as usize, source);
    function.blocks.push(after);
    let ghost base = whole.blocks.update(block.0 as int, source@).push(after@);
    assert(function@.blocks =~= base);
    let mut i: usize = 0;
    assert(base =~= base + expected.blocks.skip(shift as int).take(0));
    while i < called.blocks.len()
        invariant
            i <= called.blocks.len(),
            called@.well_formed(),
            shift == whole.blocks.len() + 1,
            shift + called@.blocks.len() <= id_limit(),
            values@ == table,
            table.len() == called@.values.len(),
            slots@ == slot_table(called@.slots.len(), whole.slots.len()),
            result == call.result,
            continuation == whole.next_block(),
            base.len() == shift,
            function@ == (FunctionView { blocks: function@.blocks, ..prepared }),
            function@.blocks.len() == shift + i,
            function@.blocks.take(shift as int) =~= base,
            forall|j: int|
                0 <= j < i ==> (#[trigger] function@.blocks[shift + j]) == moved_block(
                    called@,
                    j,
                    table,
                    slots@,
                    shift as nat,
                    continuation,
                    call.result is Some,
                ),
        decreases called.blocks.len() - i,
    {
        let held = &called.blocks[i];
        let ghost before = function@.blocks;
        assert(called@.blocks[i as int] == held@);
        assert(held@.within(called@.values.len(), called@.slots.len(), called@.blocks.len()));
        assert forall|k: int| 0 <= k < held.insts@.len() implies (
        #[trigger] views(held.insts@)[k]).within(values@.len(), slots@.len()) by {
            assert(held@.insts[k].within(called@.values.len(), called@.slots.len()));
        }
        let params = if i == called.entry.0 as usize {
            Vec::new()
        } else {
            renamed_values(&held.params, &values)
        };
        let insts = remap_insts(&held.insts, &values, &slots);
        let term = match &held.term {
            Some(term) => Some(
                remap_term(
                    term,
                    &values,
                    shift,
                    continuation,
                    result.is_some(),
                    Ghost(called@.blocks.len()),
                ),
            ),
            None => None,
        };
        let moved = Block { params, insts, term };
        assert(moved@ =~= moved_block(
            called@,
            i as int,
            table,
            slots@,
            shift as nat,
            continuation,
            call.result is Some,
        ));
        function.blocks.push(moved);
        assert(function@.blocks =~= before.push(moved@));
        assert(function@.blocks.take(shift as int) =~= before.take(shift as int));
        i += 1;
    }
    proof {
        assert forall|b: int| 0 <= b < expected.blocks.len() implies (#[trigger] function@.blocks[b])
            == expected.blocks[b] by {
            if b < shift {
                assert(function@.blocks[b] == function@.blocks.take(shift as int)[b]);
                assert(expected.blocks[b] == base[b]);
            } else {
                assert(function@.blocks[shift + (b - shift)] == moved_block(
                    called@,
                    b - shift,
                    table,
                    slots@,
                    shift as nat,
                    continuation,
                    call.result is Some,
                ));
            }
        }
        assert(function@.blocks =~= expected.blocks);
    }
}

fn inline_block(
    program: &Program,
    caller: FuncId,
    function: &mut Function,
    block: BlockId,
)
    requires
        program@.functions_well_formed(),
        old(function)@.well_formed(),
        block.0 < old(function)@.blocks.len(),
        forall|i: int|
            0 <= i < old(function)@.block(block).insts.len() ==> ((#[trigger] old(function)@.block(
                block,
            ).insts[i]).kind.func() matches Some(func) ==> func.0 < program@.functions.len()),
        fits(
            inlined_block(
                program@,
                caller,
                old(function)@,
                block,
                old(function)@.block(block).insts.len(),
            ),
        ),
    ensures
        final(function)@ == inlined_block(
            program@,
            caller,
            old(function)@,
            block,
            old(function)@.block(block).insts.len(),
        ),
        final(function)@.well_formed(),
{
    let ghost whole = function@;
    let ghost insts = whole.block(block).insts;
    let mut count: usize = function.blocks[block.0 as usize].insts.len();
    assert(insts.take(count as int) =~= insts);
    while count > 0
        invariant
            program@.functions_well_formed(),
            insts == whole.block(block).insts,
            forall|i: int|
                0 <= i < insts.len() ==> ((#[trigger] insts[i]).kind.func() matches Some(func)
                    ==> func.0 < program@.functions.len()),
            block.0 < whole.blocks.len(),
            block.0 < function@.blocks.len(),
            function@.well_formed(),
            count <= insts.len(),
            count <= function@.block(block).insts.len(),
            function@.block(block).insts.take(count as int) == insts.take(count as int),
            inlined_block(program@, caller, whole, block, insts.len()) == inlined_block(
                program@,
                caller,
                function@,
                block,
                count as nat,
            ),
            fits(inlined_block(program@, caller, whole, block, insts.len())),
        decreases count,
    {
        let ghost before = function@;
        count -= 1;
        let callee = match &function.blocks[block.0 as usize].insts[count].kind {
            InstKind::Call { callee, type_args, .. } => if type_args.len() == 0 && *callee
                != caller {
                Some(*callee)
            } else {
                None
            },
            _ => None,
        };
        assert(before.block(block).insts[count as int] == insts.take(count + 1)[count as int]) by {
            assert(before.block(block).insts.take(count + 1)[count as int]
                == before.block(block).insts[count as int]);
        }
        assert(before.block(block).insts[count as int] == insts[count as int]);
        if let Some(callee) = callee {
            assert(callee.0 < program@.functions.len());
            let called = program.function(callee);
            if is_inlineable(called) {
                proof {
                    let after = inline_call(before, block, count as int, called@);
                    assert(program@.functions[callee.0 as int].well_formed());
                    call_grows(before, block, count as int, called@);
                    assert(after.block(block).insts == before.block(block).insts.take(
                        count as int,
                    ));
                    block_grows(program@, caller, after, block, count as nat);
                    inlining_keeps_well_formed(before, block, count as int, called@);
                    assert(after.block(block).insts.take(count as int) =~= insts.take(
                        count as int,
                    )) by {
                        assert forall|j: int| 0 <= j < count implies #[trigger] after.block(
                            block,
                        ).insts[j] == insts[j] by {
                            assert(before.block(block).insts.take(count + 1)[j] == insts.take(
                                count + 1,
                            )[j]);
                        }
                    }
                }
                replace_call(function, block, count, called);
            } else {
                assert(function@.block(block).insts.take(count as int) =~= insts.take(
                    count as int,
                )) by {
                    assert(before.block(block).insts.take(count + 1).take(count as int)
                        =~= before.block(block).insts.take(count as int));
                    assert(insts.take(count + 1).take(count as int) =~= insts.take(count as int));
                }
            }
        } else {
            assert(function@.block(block).insts.take(count as int) =~= insts.take(
                count as int,
            )) by {
                assert(before.block(block).insts.take(count + 1).take(count as int)
                    =~= before.block(block).insts.take(count as int));
                assert(insts.take(count + 1).take(count as int) =~= insts.take(count as int));
            }
        }
    }
}

fn inline_function(program: &Program, caller: FuncId) -> (function: Function)
    requires
        program@.functions_well_formed(),
        program@.calls_well_formed(),
        caller.0 < program@.functions.len(),
        fits(inlined_function(program@, caller)),
    ensures
        function@ == inlined_function(program@, caller),
        function@.well_formed(),
{
    let ghost whole = program@.function(caller);
    let mut function = program.function(caller).clone();
    let mut count: usize = function.blocks.len();
    assert(program@.functions[caller.0 as int].well_formed());
    assert(program@.functions[caller.0 as int].calls_within(program@.functions.len()));
    while count > 0
        invariant
            program@.functions_well_formed(),
            whole.calls_within(program@.functions.len()),
            function@.well_formed(),
            count <= whole.blocks.len() <= function@.blocks.len() <= id_limit(),
            forall|b: int|
                0 <= b < count ==> (#[trigger] function@.blocks[b]) == whole.blocks[b],
            inlined_blocks(program@, caller, whole, whole.blocks.len()) == inlined_blocks(
                program@,
                caller,
                function@,
                count as nat,
            ),
            fits(inlined_blocks(program@, caller, whole, whole.blocks.len())),
        decreases count,
    {
        count -= 1;
        let block = BlockId(count as u32);
        let ghost before = function@;
        proof {
            let size = before.block(block).insts.len();
            let after = inlined_block(program@, caller, before, block, size);
            block_grows(program@, caller, before, block, size);
            blocks_grow_beyond(program@, caller, after, count as nat);
        }
        assert forall|i: int| 0 <= i < before.block(block).insts.len() implies ((
        #[trigger] before.block(block).insts[i]).kind.func() matches Some(func) ==> func.0
            < program@.functions.len()) by {
            assert(before.blocks[count as int] == whole.blocks[count as int]);
            assert(whole.blocks[count as int].insts[i].kind.func() matches Some(func) ==> func.0
                < program@.functions.len());
        }
        inline_block(program, caller, &mut function, block);
    }
    function
}

proof fn call_keeps_calls_within(
    function: FunctionView,
    block: BlockId,
    at: int,
    called: FunctionView,
    functions: nat,
)
    requires
        function.calls_within(functions),
        called.calls_within(functions),
        block.0 < function.blocks.len(),
        0 <= at < function.block(block).insts.len(),
    ensures
        inline_call(function, block, at, called).calls_within(functions),
{
    let after = inline_call(function, block, at, called);
    let shift = function.blocks.len() + 1;
    assert forall|b: int, i: int|
        0 <= b < after.blocks.len() && 0 <= i < after.blocks[b].insts.len() implies ((
    #[trigger] after.blocks[b].insts[i]).kind.func() matches Some(func) ==> func.0 < functions) by {
        if b < function.blocks.len() {
            assert(after.blocks[b].insts[i] == function.blocks[b].insts[i]);
        } else if b == function.blocks.len() {
            assert(after.blocks[b].insts[i] == function.blocks[block.0 as int].insts[at + 1 + i]);
        } else {
            assert(called.blocks[b - shift].insts[i].kind.func() matches Some(func) ==> func.0
                < functions);
        }
    }
}

proof fn block_keeps_calls_within(
    program: ProgramView,
    caller: FuncId,
    function: FunctionView,
    block: BlockId,
    count: nat,
)
    requires
        program.calls_well_formed(),
        function.calls_within(program.functions.len()),
        block.0 < function.blocks.len(),
        count <= function.block(block).insts.len(),
    ensures
        inlined_block(program, caller, function, block, count).calls_within(
            program.functions.len(),
        ),
    decreases count,
{
    if count > 0 {
        let at = count - 1;
        let kind = function.blocks[block.0 as int].insts[at].kind;
        match inlined_callee(program, caller, kind) {
            Some(callee) => {
                assert(kind.func() == Some(callee));
                let called = program.functions[callee.0 as int];
                assert(called.calls_within(program.functions.len()));
                call_keeps_calls_within(function, block, at, called, program.functions.len());
                let after = inline_call(function, block, at, called);
                call_grows(function, block, at, called);
                assert(after.block(block).insts == function.block(block).insts.take(at));
                block_keeps_calls_within(program, caller, after, block, (count - 1) as nat);
            },
            None => {
                block_keeps_calls_within(program, caller, function, block, (count - 1) as nat);
            },
        }
    }
}

proof fn blocks_keep_calls_within(
    program: ProgramView,
    caller: FuncId,
    function: FunctionView,
    count: nat,
)
    requires
        program.calls_well_formed(),
        function.calls_within(program.functions.len()),
        count <= function.blocks.len(),
        count <= id_limit(),
    ensures
        inlined_blocks(program, caller, function, count).calls_within(program.functions.len()),
    decreases count,
{
    if count > 0 {
        let block = BlockId((count - 1) as u32);
        let size = function.block(block).insts.len();
        block_keeps_calls_within(program, caller, function, block, size);
        block_grows(program, caller, function, block, size);
        blocks_keep_calls_within(
            program,
            caller,
            inlined_block(program, caller, function, block, size),
            (count - 1) as nat,
        );
    }
}

/// Replaces each call to a function whose attributes ask for it by the body of
/// that function.
pub fn run(program: &mut Program)
    requires
        old(program)@.functions_well_formed(),
        old(program)@.calls_well_formed(),
        room_to_inline(old(program)@),
    ensures
        final(program)@ == inlined(old(program)@, old(program)@.functions.len()),
        final(program)@.functions_well_formed(),
        final(program)@.calls_well_formed(),
{
    let ghost original = program@;
    let mut i: usize = 0;
    while i < program.functions.len()
        invariant
            i <= program.functions.len() == original.functions.len(),
            program@ == inlined(original, i as nat),
            program@.functions_well_formed(),
            program@.calls_well_formed(),
            room_to_inline(original),
        decreases program.functions.len() - i,
    {
        let caller = FuncId(i as u32);
        let ghost before = program@;
        proof {
            assert(fits(inlined_function(inlined(original, i as nat), caller)));
            let whole = before.functions[i as int];
            assert(whole.well_formed());
            assert(whole.calls_within(before.functions.len()));
            blocks_keep_calls_within(before, caller, whole, whole.blocks.len());
        }
        let function = inline_function(program, caller);
        program.functions.set(i, function);
        assert(program@.functions =~= before.functions.update(i as int, function@));
        assert forall|j: int| 0 <= j < program@.functions.len() implies (
        #[trigger] program@.functions[j]).well_formed() by {
            assert(before.functions[j].well_formed());
        }
        assert forall|j: int| 0 <= j < program@.functions.len() implies (
        #[trigger] program@.functions[j]).calls_within(program@.functions.len()) by {
            assert(before.functions[j].calls_within(before.functions.len()));
        }
        i += 1;
    }
}

} // verus!
