//! That what lowering a body names is there.

pub mod builtins;
pub mod calls;
pub mod construct;
pub mod derived;
pub mod expr;
pub mod iterate;
pub mod leaves;
pub mod nested;
pub mod patterns;
pub mod scopes;
pub mod stmt;

use vstd::prelude::*;

use crate::ast::{Binding, Block, Expr, FieldBinding, Pattern, Stmt};
use crate::inst::{
    maybe_within, pairs_within, values_within, within_grows, InstKindView, InstView, TargetView,
    TerminatorView, Value,
};
use crate::program::{block_within_grows, id_limit, BlockId, FuncId, FunctionView, SlotId};
use crate::sema::recorded_at;
use crate::span::{FileId, Span};
use crate::ty::{Builtin, TyView, TypeId};

use super::asked::{received_view, value_or_view};
use super::builtins::{filling_among, last_filling_view};
use super::deeper::Deeper;
use super::derived::{cases_to_view, Ways};
use super::flow::{
    arrived, declared_fields, held_everywhere, merged, nothing_carried, one_carried, passed,
    vars_in,
};
use super::given::{
    ahead_view, all_values_view, entry_values_view, fill_view, filled_by, put_at_view, rest_among,
    rest_of_view, value_at_view, values_in,
};
use super::iterate::{collection_source_view, last_of_view, CountedView, Source};
use super::kinds::{member_from, seq1, seq2, shown_by_view};
use super::lookups::{all_arrived_view, more_arrived_view, none_arrived_view, ArrivedView};
use super::queries::property_from;
use super::{
    ArrivalView, BodyView, CalleeView, Cleanup, ContextView, HandlerView, LoopView, PropertyView,
};

verus! {

/// Something that names values, blocks or slots of a body, or functions of its
/// program; how many the program declares; or the body itself.
pub enum Thing {
    Body,
    Value(Value),
    Values(Seq<Value>),
    Maybe(Option<Value>),
    Nested(Option<Option<Value>>),
    Options(Seq<Option<Value>>),
    Pairs(Seq<(Value, Value)>),
    Block(BlockId),
    Blocks(Seq<BlockId>),
    Slot(SlotId),
    Defs(Map<u32, Value>),
    Path(ArrivalView),
    Paths(Seq<ArrivalView>),
    Arrived(ArrivedView),
    Kind(InstKindView),
    Jump(TargetView),
    Cases(Seq<(u64, TargetView)>),
    End(TerminatorView),
    Handler(HandlerView),
    Loop(LoopView),
    Source(Source),
    Counted(CountedView),
    Counter(Option<CountedView>),
    Ways(Ways),
    Func(FuncId),
    MaybeFunc(Option<FuncId>),
    Declared(nat),
}

/// How many values may be named. A name for a value that is not there is that of
/// the first, so the first may be named before there is one.
pub open spec fn nameable(function: FunctionView) -> nat {
    if function.values.len() == 0 {
        1
    } else {
        function.values.len()
    }
}

/// Whether everything a function names is its own, the first value aside.
pub open spec fn nearly_well_formed(function: FunctionView) -> bool {
    &&& function.entry.0 < function.blocks.len()
    &&& function.blocks.len() <= id_limit()
    &&& function.values.len() <= id_limit()
    &&& function.slots.len() <= id_limit()
    &&& forall|i: int|
        0 <= i < function.blocks.len() ==> (#[trigger] function.blocks[i]).within(
            nameable(function),
            function.slots.len(),
            function.blocks.len(),
        )
}

/// Whether each binding holds one of the first `count` values.
pub open spec fn defs_within(defs: Map<u32, Value>, count: nat) -> bool {
    forall|var: u32| #[trigger] defs.contains_key(var) ==> defs[var].0 < count
}

/// Whether a path names only the first `values` and `blocks`.
pub open spec fn path_within(path: ArrivalView, values: nat, blocks: nat) -> bool {
    path.block.0 < blocks && defs_within(path.defs, values)
}

/// Whether each path names only the first `values` and `blocks`.
pub open spec fn paths_within(held: Seq<ArrivalView>, values: nat, blocks: nat) -> bool {
    forall|i: int| 0 <= i < held.len() ==> path_within(#[trigger] held[i], values, blocks)
}

/// Whether each value that is there is one of the first `count`.
pub open spec fn options_within(held: Seq<Option<Value>>, count: nat) -> bool {
    forall|i: int| 0 <= i < held.len() ==> maybe_within(#[trigger] held[i], count)
}

/// Whether each block is one of the first `count`.
pub open spec fn blocks_within(held: Seq<BlockId>, count: nat) -> bool {
    forall|i: int| 0 <= i < held.len() ==> (#[trigger] held[i]).0 < count
}

/// Whether each case goes to one of the first `blocks`, with the first `values`.
pub open spec fn cases_within(held: Seq<(u64, TargetView)>, values: nat, blocks: nat) -> bool {
    forall|i: int| 0 <= i < held.len() ==> (#[trigger] held[i]).1.within(values, blocks)
}

/// Whether what a `for` counts through names only the first `values`.
pub open spec fn source_within(source: Source, values: nat) -> bool {
    match source {
        Source::Range { last, inclusive } => last.0 < values,
        Source::Reversed { first, inclusive } => first.0 < values,
        Source::List { receiver, indexed } => receiver.0 < values,
        Source::Table(receiver) => receiver.0 < values,
    }
}

/// Whether a loop goes to the first `blocks`.
pub open spec fn loop_within(held: LoopView, blocks: nat) -> bool {
    held.exit.0 < blocks && (held.again matches Some(again) ==> again.0 < blocks)
}

/// How many functions may be named: those the program declares, and the closures
/// up to the next.
pub open spec fn callable(context: ContextView, next: u32) -> nat {
    if next < context.program.functions.len() {
        context.program.functions.len()
    } else {
        next as nat
    }
}

/// Whether each member reaches one of the first `count` functions.
pub open spec fn members_within(held: Seq<(TypeId, FuncId)>, count: nat) -> bool {
    forall|i: int| 0 <= i < held.len() ==> (#[trigger] held[i]).1.0 < count
}

/// Whether a property goes through the first `count` functions.
pub open spec fn property_within(held: PropertyView, count: nat) -> bool {
    held.get.0 < count && (held.set matches Some(set) ==> set.0 < count)
}

/// Whether everything that is called was declared.
pub open spec fn context_within(context: ContextView) -> bool {
    let count = context.program.functions.len();
    &&& forall|i: int|
        0 <= i < context.callees.len() ==> (#[trigger] context.callees[i]).1.id.0 < count
    &&& forall|i: int|
        0 <= i < context.properties.len() ==> property_within(
            #[trigger] context.properties[i],
            count,
        )
    &&& members_within(context.displays, count)
    &&& members_within(context.equals, count)
    &&& members_within(context.hashes, count)
}

/// Whether each function that is called is there.
#[verifier::opaque]
pub open spec fn calls_fit(
    context: ContextView,
    function: FunctionView,
    made: Seq<(FuncId, FunctionView)>,
    next: u32,
) -> bool {
    &&& context_within(context)
    &&& function.calls_within(callable(context, next))
    &&& forall|i: int|
        0 <= i < made.len() ==> (#[trigger] made[i]).1.calls_within(callable(context, next))
}

/// Whether everything a body names is there.
pub open spec fn body_fits(b: BodyView) -> bool {
    &&& nearly_well_formed(b.function)
    &&& b.current.0 < b.function.blocks.len()
    &&& defs_within(b.defs, nameable(b.function))
    &&& forall|var: u32| #[trigger]
        b.slots.contains_key(var) ==> b.slots[var].0 < b.function.slots.len()
    &&& forall|i: int|
        0 <= i < b.handlers.len() ==> (#[trigger] b.handlers[i]).block.0 < b.function.blocks.len()
    &&& forall|i: int|
        0 <= i < b.loops.len() ==> loop_within(#[trigger] b.loops[i], b.function.blocks.len())
    &&& forall|i: int|
        0 <= i < b.made.len() ==> nearly_well_formed((#[trigger] b.made[i]).1)
    &&& calls_fit(b.context, b.function, b.made, b.next_function)
}

/// Whether what something names is there in a body.
#[verifier::opaque]
pub open spec fn fits(b: BodyView, thing: Thing) -> bool {
    let values = nameable(b.function);
    let blocks = b.function.blocks.len();
    let slots = b.function.slots.len();
    let functions = callable(b.context, b.next_function);
    match thing {
        Thing::Body => body_fits(b),
        Thing::Value(held) => held.0 < values,
        Thing::Values(held) => values_within(held, values),
        Thing::Maybe(held) => maybe_within(held, values),
        Thing::Nested(held) => held matches Some(inner) ==> maybe_within(inner, values),
        Thing::Options(held) => options_within(held, values),
        Thing::Pairs(held) => pairs_within(held, values),
        Thing::Block(held) => held.0 < blocks,
        Thing::Blocks(held) => blocks_within(held, blocks),
        Thing::Slot(held) => held.0 < slots,
        Thing::Defs(held) => defs_within(held, values),
        Thing::Path(held) => path_within(held, values, blocks),
        Thing::Paths(held) => paths_within(held, values, blocks),
        Thing::Arrived(held) => paths_within(held.arrivals, values, blocks) && values_within(
            held.values,
            values,
        ),
        Thing::Kind(held) => held.within(values, slots) && (held.func() matches Some(func) ==> func.0
            < functions),
        Thing::Jump(held) => held.within(values, blocks),
        Thing::Cases(held) => cases_within(held, values, blocks),
        Thing::End(held) => held.within(values, blocks),
        Thing::Handler(held) => held.block.0 < blocks,
        Thing::Loop(held) => loop_within(held, blocks),
        Thing::Source(held) => source_within(held, values),
        Thing::Counted(held) => held.first.0 < values && source_within(held.source, values),
        Thing::Counter(held) => held matches Some(counted) ==> counted.first.0 < values
            && source_within(counted.source, values),
        Thing::Ways(held) => held.found.0 < blocks && held.otherwise.0 < blocks && held.join.0
            < blocks,
        Thing::Func(held) => held.0 < functions,
        Thing::MaybeFunc(held) => held matches Some(func) ==> func.0 < functions,
        Thing::Declared(held) => b.context.program.functions.len() == held,
    }
}

/// Whether each value, slot and function an instruction names is there.
pub open spec fn kind_fits(b: BodyView, kind: InstKindView) -> bool {
    match kind {
        InstKindView::Unary { operand, .. } => fits(b, Thing::Value(operand)),
        InstKindView::Binary { left, right, .. } => {
            &&& fits(b, Thing::Value(left))
            &&& fits(b, Thing::Value(right))
        },
        InstKindView::HashValue { value } => fits(b, Thing::Value(value)),
        InstKindView::HashCombine { state, value } => {
            &&& fits(b, Thing::Value(state))
            &&& fits(b, Thing::Value(value))
        },
        InstKindView::DisplayValue { value } => fits(b, Thing::Value(value)),
        InstKindView::Print { value } => fits(b, Thing::Value(value)),
        InstKindView::MakeError { message } => fits(b, Thing::Value(message)),
        InstKindView::Assert { condition, message } => {
            &&& fits(b, Thing::Value(condition))
            &&& fits(b, Thing::Maybe(message))
        },
        InstKindView::Panic { message } => fits(b, Thing::Value(message)),
        InstKindView::Convert { value, .. } => fits(b, Thing::Value(value)),
        InstKindView::Reinterpret { value, .. } => fits(b, Thing::Value(value)),
        InstKindView::IsType { value, .. } => fits(b, Thing::Value(value)),
        InstKindView::Call { callee, args, .. } => {
            &&& fits(b, Thing::Func(callee))
            &&& fits(b, Thing::Values(args))
        },
        InstKindView::CallIndirect { callee, args } => {
            &&& fits(b, Thing::Value(callee))
            &&& fits(b, Thing::Values(args))
        },
        InstKindView::CallVirtual { receiver, args, .. } => {
            &&& fits(b, Thing::Value(receiver))
            &&& fits(b, Thing::Values(args))
        },
        InstKindView::MakeDyn { value, .. } => fits(b, Thing::Value(value)),
        InstKindView::DynValue { value } => fits(b, Thing::Value(value)),
        InstKindView::MakeClosure { func, captures, .. } => {
            &&& fits(b, Thing::Func(func))
            &&& fits(b, Thing::Values(captures))
        },
        InstKindView::CopyValue { value, .. } => fits(b, Thing::Value(value)),
        InstKindView::Freeze { value } => fits(b, Thing::Value(value)),
        InstKindView::MakeStruct { fields, .. } => fits(b, Thing::Values(fields)),
        InstKindView::GetField { object, .. } => fits(b, Thing::Value(object)),
        InstKindView::SetField { object, value, .. } => {
            &&& fits(b, Thing::Value(object))
            &&& fits(b, Thing::Value(value))
        },
        InstKindView::MakeEnum { payload, .. } => fits(b, Thing::Values(payload)),
        InstKindView::GetTag { value } => fits(b, Thing::Value(value)),
        InstKindView::GetPayload { value, .. } => fits(b, Thing::Value(value)),
        InstKindView::MakeTuple(held) => fits(b, Thing::Values(held)),
        InstKindView::GetElement { tuple, .. } => fits(b, Thing::Value(tuple)),
        InstKindView::MakeList { values: held, .. } => fits(b, Thing::Values(held)),
        InstKindView::MakeMap { entries, .. } => fits(b, Thing::Pairs(entries)),
        InstKindView::MakeSet { values: held, .. } => fits(b, Thing::Values(held)),
        InstKindView::ListPush { receiver, value } => {
            &&& fits(b, Thing::Value(receiver))
            &&& fits(b, Thing::Value(value))
        },
        InstKindView::ListPop { receiver } => fits(b, Thing::Value(receiver)),
        InstKindView::ListInsert { receiver, index, value } => {
            &&& fits(b, Thing::Value(receiver))
            &&& fits(b, Thing::Value(index))
            &&& fits(b, Thing::Value(value))
        },
        InstKindView::ListRemoveAt { receiver, index } => {
            &&& fits(b, Thing::Value(receiver))
            &&& fits(b, Thing::Value(index))
        },
        InstKindView::SetInsert { receiver, value } => {
            &&& fits(b, Thing::Value(receiver))
            &&& fits(b, Thing::Value(value))
        },
        InstKindView::Clear { receiver } => fits(b, Thing::Value(receiver)),
        InstKindView::MapRemove { receiver, key } => {
            &&& fits(b, Thing::Value(receiver))
            &&& fits(b, Thing::Value(key))
        },
        InstKindView::SetRemove { receiver, value } => {
            &&& fits(b, Thing::Value(receiver))
            &&& fits(b, Thing::Value(value))
        },
        InstKindView::Contains { receiver, value } => {
            &&& fits(b, Thing::Value(receiver))
            &&& fits(b, Thing::Value(value))
        },
        InstKindView::MakeSlice { receiver, range, .. } => {
            &&& fits(b, Thing::Value(receiver))
            &&& fits(b, Thing::Value(range))
        },
        InstKindView::MakeCheckedSlice { receiver, range, .. } => {
            &&& fits(b, Thing::Value(receiver))
            &&& fits(b, Thing::Value(range))
        },
        InstKindView::KeepAlive { value } => fits(b, Thing::Value(value)),
        InstKindView::ReleaseSlice { value } => fits(b, Thing::Value(value)),
        InstKindView::Overflowing { left, right, .. } => {
            &&& fits(b, Thing::Value(left))
            &&& fits(b, Thing::Value(right))
        },
        InstKindView::Length { receiver } => fits(b, Thing::Value(receiver)),
        InstKindView::Buckets { receiver } => fits(b, Thing::Value(receiver)),
        InstKindView::Occupied { receiver, index } => {
            &&& fits(b, Thing::Value(receiver))
            &&& fits(b, Thing::Value(index))
        },
        InstKindView::EntryKey { receiver, index } => {
            &&& fits(b, Thing::Value(receiver))
            &&& fits(b, Thing::Value(index))
        },
        InstKindView::EntryValue { receiver, index } => {
            &&& fits(b, Thing::Value(receiver))
            &&& fits(b, Thing::Value(index))
        },
        InstKindView::GetIndex { receiver, index } => {
            &&& fits(b, Thing::Value(receiver))
            &&& fits(b, Thing::Value(index))
        },
        InstKindView::GetUncheckedIndex { receiver, index } => {
            &&& fits(b, Thing::Value(receiver))
            &&& fits(b, Thing::Value(index))
        },
        InstKindView::GetCheckedIndex { receiver, index } => {
            &&& fits(b, Thing::Value(receiver))
            &&& fits(b, Thing::Value(index))
        },
        InstKindView::SetIndex { receiver, index, value } => {
            &&& fits(b, Thing::Value(receiver))
            &&& fits(b, Thing::Value(index))
            &&& fits(b, Thing::Value(value))
        },
        InstKindView::SetUncheckedIndex { receiver, index, value } => {
            &&& fits(b, Thing::Value(receiver))
            &&& fits(b, Thing::Value(index))
            &&& fits(b, Thing::Value(value))
        },
        InstKindView::MakeSome { value } => fits(b, Thing::Value(value)),
        InstKindView::IsSome { value } => fits(b, Thing::Value(value)),
        InstKindView::Unwrap { value } => fits(b, Thing::Value(value)),
        InstKindView::AddressOf { slot, .. } => fits(b, Thing::Slot(slot)),
        InstKindView::FieldAddress { object, .. } => fits(b, Thing::Value(object)),
        InstKindView::Offset { pointer, count } => {
            &&& fits(b, Thing::Value(pointer))
            &&& fits(b, Thing::Value(count))
        },
        InstKindView::Load { pointer } => fits(b, Thing::Value(pointer)),
        InstKindView::Store { pointer, value } => {
            &&& fits(b, Thing::Value(pointer))
            &&& fits(b, Thing::Value(value))
        },
        InstKindView::SlotGet { slot } => fits(b, Thing::Slot(slot)),
        InstKindView::SlotSet { slot, value } => {
            &&& fits(b, Thing::Slot(slot))
            &&& fits(b, Thing::Value(value))
        },
        InstKindView::Await { task } => fits(b, Thing::Value(task)),
        InstKindView::Cancel { task, error } => {
            &&& fits(b, Thing::Value(task))
            &&& fits(b, Thing::Value(error))
        },
        InstKindView::Const(_) | InstKindView::CancellationPoint => true,
    }
}

/// Whether what ends a block names what is there.
pub open spec fn end_fits(b: BodyView, term: TerminatorView) -> bool {
    match term {
        TerminatorView::Jump(to) => fits(b, Thing::Jump(to)),
        TerminatorView::Branch { condition, then, otherwise } => {
            &&& fits(b, Thing::Value(condition))
            &&& fits(b, Thing::Jump(then))
            &&& fits(b, Thing::Jump(otherwise))
        },
        TerminatorView::Switch { value, cases, default } => {
            &&& fits(b, Thing::Value(value))
            &&& fits(b, Thing::Cases(cases))
            &&& fits(b, Thing::Jump(default))
        },
        TerminatorView::Return(value) => fits(b, Thing::Value(value)),
        TerminatorView::Trap(_) => true,
    }
}

/// No place in particular.
pub open spec fn nowhere() -> Span {
    Span { file: FileId(0), start: 0, end: 0 }
}

/// Whether one function has at least what another has.
pub open spec fn grown(before: FunctionView, after: FunctionView) -> bool {
    &&& before.values.len() <= after.values.len()
    &&& before.blocks.len() <= after.blocks.len()
    &&& before.slots.len() <= after.slots.len()
}

proof fn still_fits(b: BodyView, after: BodyView, thing: Thing)
    requires
        fits(b, thing),
        !(thing is Body),
        grown(b.function, after.function),
        after.context == b.context,
        after.next_function == b.next_function,
    ensures
        fits(after, thing),
{
    reveal(fits);
    match thing {
        Thing::Kind(held) => {
            within_grows(
                InstView { result: None, kind: held, span: nowhere() },
                nameable(b.function),
                b.function.slots.len(),
                nameable(after.function),
                after.function.slots.len(),
            );
        },
        _ => {},
    }
}

proof fn still_nearly(before: FunctionView, after: FunctionView)
    requires
        nearly_well_formed(before),
        grown(before, after),
        after.entry == before.entry,
        after.blocks.len() <= id_limit(),
        after.values.len() <= id_limit(),
        after.slots.len() <= id_limit(),
        forall|i: int|
            0 <= i < after.blocks.len() ==> (#[trigger] after.blocks[i]).within(
                nameable(after),
                after.slots.len(),
                after.blocks.len(),
            ) || (i < before.blocks.len() && after.blocks[i] == before.blocks[i]),
    ensures
        nearly_well_formed(after),
{
    assert forall|i: int| 0 <= i < after.blocks.len() implies (#[trigger] after.blocks[i]).within(
        nameable(after),
        after.slots.len(),
        after.blocks.len(),
    ) by {
        if i < before.blocks.len() && after.blocks[i] == before.blocks[i] {
            block_within_grows(
                before.blocks[i],
                nameable(before),
                before.slots.len(),
                before.blocks.len(),
                nameable(after),
                after.slots.len(),
                after.blocks.len(),
            );
        }
    }
}

pub(crate) broadcast proof fn gap_fits<'a>(
    b: BodyView<'a>,
    span: Span,
    what: Seq<char>,
    thing: Thing,
)
    requires
        fits(b, Thing::Body),
        fits(b, thing),
    ensures
        #[trigger] fits(b.gap(span, what), thing),
{
    reveal(fits);
    reveal(BodyView::gap);
    if !(thing is Body) {
        still_fits(b, b.gap(span, what), thing);
    }
}

pub(crate) broadcast proof fn switch_to_fits<'a>(
    b: BodyView<'a>,
    block: BlockId,
    thing: Thing,
)
    requires
        fits(b, Thing::Body),
        fits(b, Thing::Block(block)),
        fits(b, thing),
    ensures
        #[trigger] fits(b.switch_to(block), thing),
{
    reveal(fits);
    reveal(BodyView::switch_to);
    if !(thing is Body) {
        still_fits(b, b.switch_to(block), thing);
    }
}

pub(crate) broadcast proof fn declare_fits<'a>(
    b: BodyView<'a>,
    name: Seq<char>,
    thing: Thing,
)
    requires
        fits(b, Thing::Body),
        fits(b, thing),
    ensures
        #[trigger] fits(b.declare(name).0, thing),
{
    reveal(fits);
    reveal(BodyView::declare);
    if !(thing is Body) {
        still_fits(b, b.declare(name).0, thing);
    }
}

pub(crate) broadcast proof fn open_fits<'a>(
    b: BodyView<'a>,
    thing: Thing,
)
    requires
        fits(b, Thing::Body),
        fits(b, thing),
    ensures
        #[trigger] fits(b.open(), thing),
{
    reveal(fits);
    reveal(BodyView::open);
    if !(thing is Body) {
        still_fits(b, b.open(), thing);
    }
}

pub(crate) broadcast proof fn drop_scope_fits<'a>(
    b: BodyView<'a>,
    thing: Thing,
)
    requires
        fits(b, Thing::Body),
        fits(b, thing),
    ensures
        #[trigger] fits(b.drop_scope(), thing),
{
    reveal(fits);
    reveal(BodyView::drop_scope);
    if !(thing is Body) {
        still_fits(b, b.drop_scope(), thing);
    }
}

pub(crate) broadcast proof fn pop_handler_fits<'a>(
    b: BodyView<'a>,
    thing: Thing,
)
    requires
        fits(b, Thing::Body),
        fits(b, thing),
    ensures
        #[trigger] fits(b.pop_handler(), thing),
{
    reveal(fits);
    reveal(BodyView::pop_handler);
    if !(thing is Body) {
        still_fits(b, b.pop_handler(), thing);
    }
}

pub(crate) broadcast proof fn pop_loop_fits<'a>(
    b: BodyView<'a>,
    thing: Thing,
)
    requires
        fits(b, Thing::Body),
        fits(b, thing),
    ensures
        #[trigger] fits(b.pop_loop(), thing),
{
    reveal(fits);
    reveal(BodyView::pop_loop);
    if !(thing is Body) {
        still_fits(b, b.pop_loop(), thing);
    }
}

pub(crate) broadcast proof fn end_constant_fits<'a>(
    b: BodyView<'a>,
    thing: Thing,
)
    requires
        fits(b, Thing::Body),
        fits(b, thing),
    ensures
        #[trigger] fits(b.end_constant(), thing),
{
    reveal(fits);
    reveal(BodyView::end_constant);
    if !(thing is Body) {
        still_fits(b, b.end_constant(), thing);
    }
}

pub(crate) broadcast proof fn defer_fits<'a>(
    b: BodyView<'a>,
    cleanup: Cleanup<'a>,
    thing: Thing,
)
    requires
        fits(b, Thing::Body),
        fits(b, thing),
    ensures
        #[trigger] fits(b.defer(cleanup), thing),
{
    reveal(fits);
    reveal(BodyView::defer);
    if !(thing is Body) {
        still_fits(b, b.defer(cleanup), thing);
    }
}

pub(crate) broadcast proof fn push_handler_fits<'a>(
    b: BodyView<'a>,
    handler: HandlerView,
    thing: Thing,
)
    requires
        fits(b, Thing::Body),
        fits(b, Thing::Handler(handler)),
        fits(b, thing),
    ensures
        #[trigger] fits(b.push_handler(handler), thing),
{
    reveal(fits);
    reveal(BodyView::push_handler);
    if !(thing is Body) {
        still_fits(b, b.push_handler(handler), thing);
    }
}

pub(crate) broadcast proof fn push_loop_fits<'a>(
    b: BodyView<'a>,
    held: LoopView,
    thing: Thing,
)
    requires
        fits(b, Thing::Body),
        fits(b, Thing::Loop(held)),
        fits(b, thing),
    ensures
        #[trigger] fits(b.push_loop(held), thing),
{
    reveal(fits);
    reveal(BodyView::push_loop);
    if !(thing is Body) {
        still_fits(b, b.push_loop(held), thing);
    }
}

pub(crate) broadcast proof fn set_def_fits<'a>(
    b: BodyView<'a>,
    var: u32,
    value: Value,
    thing: Thing,
)
    requires
        fits(b, Thing::Body),
        fits(b, Thing::Value(value)),
        fits(b, thing),
    ensures
        #[trigger] fits(b.set_def(var, value), thing),
{
    reveal(fits);
    reveal(BodyView::set_def);
    if !(thing is Body) {
        still_fits(b, b.set_def(var, value), thing);
    }
}

pub(crate) broadcast proof fn restore_fits<'a>(
    b: BodyView<'a>,
    defs: Map<u32, Value>,
    thing: Thing,
)
    requires
        fits(b, Thing::Body),
        fits(b, Thing::Defs(defs)),
        fits(b, thing),
    ensures
        #[trigger] fits(b.restore(defs), thing),
{
    reveal(fits);
    reveal(BodyView::restore);
    if !(thing is Body) {
        still_fits(b, b.restore(defs), thing);
    }
}

pub(crate) broadcast proof fn begin_constant_fits<'a>(
    b: BodyView<'a>,
    name: Seq<char>,
    thing: Thing,
)
    requires
        fits(b, Thing::Body),
        fits(b, thing),
    ensures
        #[trigger] fits(b.begin_constant(name), thing),
{
    reveal(fits);
    reveal(BodyView::begin_constant);
    if !(thing is Body) {
        still_fits(b, b.begin_constant(name), thing);
    }
}

pub(crate) broadcast proof fn recorded_fits<'a>(
    b: BodyView<'a>,
    span: Span,
    thing: Thing,
)
    requires
        fits(b, Thing::Body),
        fits(b, thing),
    ensures
        #[trigger] fits(b.recorded(span).0, thing),
{
    reveal(fits);
    reveal(BodyView::gap);
    reveal(BodyView::recorded);
    if !(thing is Body) {
        still_fits(b, b.recorded(span).0, thing);
    }
}

pub(crate) broadcast proof fn declared_type_fits<'a>(
    b: BodyView<'a>,
    span: Span,
    thing: Thing,
)
    requires
        fits(b, Thing::Body),
        fits(b, thing),
    ensures
        #[trigger] fits(b.declared_type(span).0, thing),
{
    reveal(fits);
    reveal(BodyView::gap);
    reveal(BodyView::declared_type);
    if !(thing is Body) {
        still_fits(b, b.declared_type(span).0, thing);
    }
}

proof fn calls_kept(b: BodyView, after: BodyView)
    requires
        calls_fit(b.context, b.function, b.made, b.next_function),
        after.context == b.context,
        after.made == b.made,
        after.next_function == b.next_function,
        forall|i: int|
            0 <= i < after.function.blocks.len() ==> {
                ||| (#[trigger] after.function.blocks[i]).insts.len() == 0
                ||| i < b.function.blocks.len() && after.function.blocks[i].insts
                    == b.function.blocks[i].insts
            },
    ensures
        calls_fit(after.context, after.function, after.made, after.next_function),
{
    reveal(calls_fit);
    let count = callable(b.context, b.next_function);
    assert forall|i: int, k: int|
        0 <= i < after.function.blocks.len() && 0 <= k
            < after.function.blocks[i].insts.len() implies ((
    #[trigger] after.function.blocks[i].insts[k]).kind.func() matches Some(func) ==> func.0
        < count) by {
        assert(after.function.blocks[i].insts[k] == b.function.blocks[i].insts[k]);
    }
}

proof fn call_pushed(b: BodyView, after: BodyView, inst: InstView)
    requires
        calls_fit(b.context, b.function, b.made, b.next_function),
        after.context == b.context,
        after.made == b.made,
        after.next_function == b.next_function,
        b.current.0 < b.function.blocks.len(),
        after.function.blocks == b.function.push_inst(b.current, inst).blocks,
        inst.kind.func() matches Some(func) ==> func.0 < callable(b.context, b.next_function),
    ensures
        calls_fit(after.context, after.function, after.made, after.next_function),
{
    reveal(calls_fit);
    let count = callable(b.context, b.next_function);
    assert forall|i: int, k: int|
        0 <= i < after.function.blocks.len() && 0 <= k
            < after.function.blocks[i].insts.len() implies ((
    #[trigger] after.function.blocks[i].insts[k]).kind.func() matches Some(func) ==> func.0
        < count) by {
        if k < b.function.blocks[i].insts.len() {
            assert(after.function.blocks[i].insts[k] == b.function.blocks[i].insts[k]);
        }
    }
}

proof fn block_changed(
    before: FunctionView,
    after: FunctionView,
    at: int,
)
    requires
        nearly_well_formed(before),
        grown(before, after),
        after.entry == before.entry,
        after.blocks.len() == before.blocks.len(),
        after.values.len() <= id_limit(),
        after.slots.len() <= id_limit(),
        0 <= at < before.blocks.len(),
        after.blocks[at].within(nameable(after), after.slots.len(), after.blocks.len()),
        forall|i: int| 0 <= i < after.blocks.len() && i != at ==> after.blocks[i] == before.blocks[i],
    ensures
        nearly_well_formed(after),
{
    still_nearly(before, after);
}

proof fn inst_pushed(
    before: FunctionView,
    after: FunctionView,
    at: BlockId,
    inst: InstView,
)
    requires
        nearly_well_formed(before),
        at.0 < before.blocks.len(),
        after.values.len() <= id_limit(),
        before.values.len() <= after.values.len(),
        after == (FunctionView { values: after.values, ..before }).push_inst(at, inst),
        inst.within(nameable(after), after.slots.len()),
    ensures
        nearly_well_formed(after),
{
    let block = before.blocks[at.0 as int];
    block_within_grows(
        block,
        nameable(before),
        before.slots.len(),
        before.blocks.len(),
        nameable(after),
        after.slots.len(),
        after.blocks.len(),
    );
    let changed = after.blocks[at.0 as int];
    assert forall|i: int| 0 <= i < changed.insts.len() implies (#[trigger] changed.insts[i]).within(
        nameable(after),
        after.slots.len(),
    ) by {
        if i < block.insts.len() {
            assert(changed.insts[i] == block.insts[i]);
        }
    }
    block_changed(before, after, at.0 as int);
}

pub(crate) broadcast proof fn emit_fits<'a>(
    b: BodyView<'a>,
    kind: InstKindView,
    ty: TyView,
    span: Span,
    thing: Thing,
)
    requires
        fits(b, Thing::Body),
        fits(b, Thing::Kind(kind)),
        fits(b, thing),
    ensures
        #[trigger] fits(b.emit(kind, ty, span).0, thing),
{
    reveal(fits);
    reveal(BodyView::gap);
    reveal(BodyView::emit);
    let after = b.emit(kind, ty, span).0;
    if thing is Body {
        if b.has_room() {
            let inst = InstView { result: Some(b.function.next_value()), kind, span };
            within_grows(
                InstView { result: None, kind, span },
                nameable(b.function),
                b.function.slots.len(),
                nameable(after.function),
                b.function.slots.len(),
            );
            inst_pushed(b.function, after.function, b.current, inst);
            call_pushed(b, after, inst);
        }
    } else {
        still_fits(b, after, thing);
    }
}

pub(crate) broadcast proof fn emit_void_fits<'a>(
    b: BodyView<'a>,
    kind: InstKindView,
    span: Span,
    thing: Thing,
)
    requires
        fits(b, Thing::Body),
        fits(b, Thing::Kind(kind)),
        fits(b, thing),
    ensures
        #[trigger] fits(b.emit_void(kind, span), thing),
{
    reveal(fits);
    reveal(BodyView::emit_void);
    let after = b.emit_void(kind, span);
    if thing is Body {
        inst_pushed(
            b.function,
            after.function,
            b.current,
            InstView { result: None, kind, span },
        );
        call_pushed(b, after, InstView { result: None, kind, span });
    } else {
        still_fits(b, after, thing);
    }
}

pub(crate) broadcast proof fn terminate_fits<'a>(
    b: BodyView<'a>,
    term: TerminatorView,
    thing: Thing,
)
    requires
        fits(b, Thing::Body),
        fits(b, Thing::End(term)),
        fits(b, thing),
    ensures
        #[trigger] fits(b.terminate(term), thing),
{
    reveal(fits);
    reveal(BodyView::terminate);
    let after = b.terminate(term);
    if thing is Body {
        if b.function.block(b.current).term is None {
            assert(b.function.blocks[b.current.0 as int].within(
                nameable(b.function),
                b.function.slots.len(),
                b.function.blocks.len(),
            ));
            block_changed(b.function, after.function, b.current.0 as int);
            calls_kept(b, after);
        }
    } else {
        still_fits(b, after, thing);
    }
}

pub(crate) broadcast proof fn rejoin_fits<'a>(
    b: BodyView<'a>,
    block: BlockId,
    join: BlockId,
    args: Seq<Value>,
    thing: Thing,
)
    requires
        fits(b, Thing::Body),
        fits(b, Thing::Block(join)),
        fits(b, Thing::Values(args)),
        fits(b, thing),
    ensures
        #[trigger] fits(b.rejoin(block, join, args), thing),
{
    reveal(fits);
    reveal(BodyView::rejoin);
    let after = b.rejoin(block, join, args);
    if thing is Body {
        if block.0 < b.function.blocks.len() {
            assert(b.function.blocks[block.0 as int].within(
                nameable(b.function),
                b.function.slots.len(),
                b.function.blocks.len(),
            ));
            let term = TerminatorView::Jump(TargetView { block: join, args });
            assert(term.targets() =~= seq![TargetView { block: join, args }]);
            block_changed(b.function, after.function, block.0 as int);
            calls_kept(b, after);
        }
    } else {
        still_fits(b, after, thing);
    }
}

pub(crate) broadcast proof fn add_block_fits<'a>(
    b: BodyView<'a>,
    span: Span,
    thing: Thing,
)
    requires
        fits(b, Thing::Body),
        fits(b, thing),
    ensures
        #[trigger] fits(b.add_block(span).0, thing),
{
    reveal(fits);
    reveal(BodyView::gap);
    reveal(BodyView::add_block);
    let after = b.add_block(span).0;
    if thing is Body {
        if b.function.blocks.len() < id_limit() {
            still_nearly(b.function, after.function);
            calls_kept(b, after);
        }
    } else {
        still_fits(b, after, thing);
    }
}

pub(crate) broadcast proof fn add_block_param_fits<'a>(
    b: BodyView<'a>,
    block: BlockId,
    ty: TyView,
    span: Span,
    thing: Thing,
)
    requires
        fits(b, Thing::Body),
        fits(b, thing),
    ensures
        #[trigger] fits(b.add_block_param(block, ty, span).0, thing),
{
    reveal(fits);
    reveal(BodyView::gap);
    reveal(BodyView::add_block_param);
    let after = b.add_block_param(block, ty, span).0;
    if thing is Body {
        if b.function.values.len() < id_limit() && block.0 < b.function.blocks.len() {
            block_within_grows(
                b.function.blocks[block.0 as int],
                nameable(b.function),
                b.function.slots.len(),
                b.function.blocks.len(),
                nameable(after.function),
                after.function.slots.len(),
                after.function.blocks.len(),
            );
            block_changed(b.function, after.function, block.0 as int);
            calls_kept(b, after);
        }
    } else {
        still_fits(b, after, thing);
    }
}

pub(crate) broadcast proof fn add_slot_fits<'a>(
    b: BodyView<'a>,
    var: u32,
    ty: TyView,
    span: Span,
    thing: Thing,
)
    requires
        fits(b, Thing::Body),
        fits(b, thing),
    ensures
        #[trigger] fits(b.add_slot(var, ty, span).0, thing),
{
    reveal(fits);
    reveal(BodyView::gap);
    reveal(BodyView::add_slot);
    let after = b.add_slot(var, ty, span).0;
    if thing is Body {
        if b.function.slots.len() < id_limit() {
            still_nearly(b.function, after.function);
            calls_kept(b, after);
        }
    } else {
        still_fits(b, after, thing);
    }
}

pub(crate) broadcast proof fn emit_gives<'a>(
    b: BodyView<'a>,
    kind: InstKindView,
    ty: TyView,
    span: Span,
)
    requires
        fits(b, Thing::Body),
    ensures
        #[trigger] fits(b.emit(kind, ty, span).0, Thing::Value(b.emit(kind, ty, span).1)),
{
    reveal(fits);
    reveal(BodyView::gap);
    reveal(BodyView::emit);
}

pub(crate) broadcast proof fn add_block_gives<'a>(
    b: BodyView<'a>,
    span: Span,
)
    requires
        fits(b, Thing::Body),
    ensures
        #[trigger] fits(b.add_block(span).0, Thing::Block(b.add_block(span).1)),
{
    reveal(fits);
    reveal(BodyView::gap);
    reveal(BodyView::add_block);
}

pub(crate) broadcast proof fn add_block_param_gives<'a>(
    b: BodyView<'a>,
    block: BlockId,
    ty: TyView,
    span: Span,
)
    requires
        fits(b, Thing::Body),
        fits(b, Thing::Block(block)),
    ensures
        #[trigger] fits(
            b.add_block_param(block, ty, span).0,
            Thing::Value(b.add_block_param(block, ty, span).1),
        ),
{
    reveal(fits);
    reveal(BodyView::gap);
    reveal(BodyView::add_block_param);
}

pub(crate) broadcast proof fn add_slot_gives<'a>(
    b: BodyView<'a>,
    var: u32,
    ty: TyView,
    span: Span,
)
    requires
        fits(b, Thing::Body),
    ensures
        #[trigger] fits(b.add_slot(var, ty, span).0, Thing::Slot(b.add_slot(var, ty, span).1)),
{
    reveal(fits);
    reveal(BodyView::gap);
    reveal(BodyView::add_slot);
}

pub(crate) broadcast proof fn kind_is_there<'a>(
    b: BodyView<'a>,
    kind: InstKindView,
)
    requires
        kind_fits(b, kind),
    ensures
        #[trigger] fits(b, Thing::Kind(kind)),
{
    reveal(fits);
}

pub(crate) broadcast proof fn end_is_there<'a>(
    b: BodyView<'a>,
    term: TerminatorView,
)
    requires
        end_fits(b, term),
    ensures
        #[trigger] fits(b, Thing::End(term)),
{
    reveal(fits);
    match term {
        TerminatorView::Jump(to) => {
            assert(term.targets() =~= seq![to]);
        },
        TerminatorView::Branch { condition, then, otherwise } => {
            assert(term.targets() =~= seq![then, otherwise]);
        },
        _ => {},
    }
}

pub(crate) broadcast proof fn jump_is_there<'a>(
    b: BodyView<'a>,
    block: BlockId,
    args: Seq<Value>,
)
    requires
        fits(b, Thing::Block(block)),
        fits(b, Thing::Values(args)),
    ensures
        #[trigger] fits(b, Thing::Jump(TargetView { block, args })),
{
    reveal(fits);
}

pub(crate) broadcast proof fn plain_jump_is_there<'a>(
    b: BodyView<'a>,
    block: BlockId,
)
    requires
        fits(b, Thing::Block(block)),
    ensures
        #[trigger] fits(b, Thing::Jump(TargetView::to(block))),
{
    reveal(fits);
}

pub(crate) broadcast proof fn cases_are_there<'a>(
    b: BodyView<'a>,
    blocks: Seq<BlockId>,
)
    requires
        fits(b, Thing::Blocks(blocks)),
    ensures
        #[trigger] fits(b, Thing::Cases(cases_to_view(blocks))),
{
    reveal(fits);
}

pub(crate) broadcast proof fn each_is_there<'a>(
    b: BodyView<'a>,
    held: Seq<Value>,
    i: int,
)
    requires
        fits(b, Thing::Values(held)),
        0 <= i < held.len(),
    ensures
        #[trigger] fits(b, Thing::Value(held[i])),
{
    reveal(fits);
}

pub(crate) broadcast proof fn none_are_there<'a>(
    b: BodyView<'a>,
)
    ensures
        #[trigger] fits(b, Thing::Values(Seq::<Value>::empty())),
{
    reveal(fits);
}

pub(crate) broadcast proof fn one_is_there<'a>(
    b: BodyView<'a>,
    value: Value,
)
    requires
        fits(b, Thing::Value(value)),
    ensures
        #[trigger] fits(b, Thing::Values(seq1(value))),
{
    reveal(fits);
}

pub(crate) broadcast proof fn two_are_there<'a>(
    b: BodyView<'a>,
    first: Value,
    second: Value,
)
    requires
        fits(b, Thing::Value(first)),
        fits(b, Thing::Value(second)),
    ensures
        #[trigger] fits(b, Thing::Values(seq2(first, second))),
{
    reveal(fits);
}

pub(crate) broadcast proof fn one_more_is_there<'a>(
    b: BodyView<'a>,
    held: Seq<Value>,
    value: Value,
)
    requires
        fits(b, Thing::Values(held)),
        fits(b, Thing::Value(value)),
    ensures
        #[trigger] fits(b, Thing::Values(held.push(value))),
{
    reveal(fits);
}

pub(crate) broadcast proof fn ahead_is_there<'a>(
    b: BodyView<'a>,
    first: Value,
    rest: Seq<Value>,
)
    requires
        fits(b, Thing::Value(first)),
        fits(b, Thing::Values(rest)),
    ensures
        #[trigger] fits(b, Thing::Values(ahead_view(first, rest))),
{
    reveal(fits);
}

pub(crate) broadcast proof fn put_at_is_there<'a>(
    b: BodyView<'a>,
    held: Seq<Value>,
    index: usize,
    value: Value,
)
    requires
        fits(b, Thing::Values(held)),
        fits(b, Thing::Value(value)),
    ensures
        #[trigger] fits(b, Thing::Values(put_at_view(held, index, value))),
{
    reveal(fits);
}

pub(crate) broadcast proof fn entry_values_are_there<'a>(
    b: BodyView<'a>,
    params: Seq<Value>,
    closure: bool,
)
    requires
        fits(b, Thing::Values(params)),
    ensures
        #[trigger] fits(b, Thing::Values(entry_values_view(params, closure))),
{
    reveal(fits);
}

pub(crate) broadcast proof fn received_are_there<'a>(
    b: BodyView<'a>,
    takes: bool,
    receiver: Option<Value>,
    held: Seq<Value>,
)
    requires
        fits(b, Thing::Maybe(receiver)),
        fits(b, Thing::Values(held)),
    ensures
        #[trigger] fits(b, Thing::Values(received_view(takes, receiver, held))),
{
    reveal(fits);
}

pub(crate) broadcast proof fn value_at_is_there<'a>(
    b: BodyView<'a>,
    held: Seq<Value>,
    index: nat,
)
    requires
        fits(b, Thing::Values(held)),
    ensures
        #[trigger] fits(b, Thing::Value(value_at_view(held, index))),
{
    reveal(fits);
}

pub(crate) broadcast proof fn value_or_is_there<'a>(
    b: BodyView<'a>,
    value: Option<Value>,
    otherwise: Value,
)
    requires
        fits(b, Thing::Maybe(value)),
        fits(b, Thing::Value(otherwise)),
    ensures
        #[trigger] fits(b, Thing::Value(value_or_view(value, otherwise))),
{
    reveal(fits);
}

proof fn rest_is_there(
    b: BodyView,
    variadic: Option<usize>,
    slots: Seq<Option<usize>>,
    values: Seq<Value>,
    count: nat,
)
    requires
        fits(b, Thing::Values(values)),
        count <= values.len(),
    ensures
        fits(b, Thing::Values(rest_among(variadic, slots, values, count))),
    decreases count,
{
    reveal(fits);
    if count > 0 {
        rest_is_there(b, variadic, slots, values, (count - 1) as nat);
    }
}

proof fn filled_are_there(
    b: BodyView,
    wide: nat,
    variadic: Option<usize>,
    slots: Seq<Option<usize>>,
    values: Seq<Value>,
    count: nat,
)
    requires
        fits(b, Thing::Values(values)),
        count <= values.len(),
    ensures
        filled_by(wide, variadic, slots, values, count).len() == wide,
        fits(b, Thing::Options(filled_by(wide, variadic, slots, values, count))),
    decreases count,
{
    reveal(fits);
    if count > 0 {
        filled_are_there(b, wide, variadic, slots, values, (count - 1) as nat);
        assert(values[count - 1].0 < nameable(b.function));
    }
}

proof fn filling_is_there(
    b: BodyView,
    slots: Seq<bool>,
    values: Seq<Value>,
    slot: bool,
    count: nat,
)
    requires
        fits(b, Thing::Values(values)),
        count <= values.len(),
    ensures
        fits(b, Thing::Maybe(filling_among(slots, values, slot, count))),
    decreases count,
{
    reveal(fits);
    if count > 0 {
        filling_is_there(b, slots, values, slot, (count - 1) as nat);
    }
}

proof fn held_are_there(b: BodyView, filled: Seq<Option<Value>>, count: nat)
    requires
        fits(b, Thing::Options(filled)),
        count <= filled.len(),
    ensures
        fits(b, Thing::Values(values_in(filled, count))),
    decreases count,
{
    reveal(fits);
    if count > 0 {
        held_are_there(b, filled, (count - 1) as nat);
    }
}

pub(crate) broadcast proof fn rest_of_is_there<'a>(
    b: BodyView<'a>,
    variadic: Option<usize>,
    slots: Seq<Option<usize>>,
    values: Seq<Value>,
)
    requires
        fits(b, Thing::Values(values)),
    ensures
        #[trigger] fits(b, Thing::Values(rest_of_view(variadic, slots, values))),
{
    let count = if slots.len() <= values.len() {
        slots.len()
    } else {
        values.len()
    };
    rest_is_there(b, variadic, slots, values, count);
}

pub(crate) broadcast proof fn fill_is_there<'a>(
    b: BodyView<'a>,
    wide: nat,
    variadic: Option<usize>,
    slots: Seq<Option<usize>>,
    values: Seq<Value>,
)
    requires
        fits(b, Thing::Values(values)),
    ensures
        #[trigger] fits(b, Thing::Options(fill_view(wide, variadic, slots, values))),
{
    let count = if slots.len() <= values.len() {
        slots.len()
    } else {
        values.len()
    };
    filled_are_there(b, wide, variadic, slots, values, count);
}

pub(crate) broadcast proof fn last_filling_is_there<'a>(
    b: BodyView<'a>,
    slots: Seq<bool>,
    values: Seq<Value>,
    slot: bool,
)
    requires
        fits(b, Thing::Values(values)),
    ensures
        #[trigger] fits(b, Thing::Maybe(last_filling_view(slots, values, slot))),
{
    let count = if slots.len() <= values.len() {
        slots.len()
    } else {
        values.len()
    };
    filling_is_there(b, slots, values, slot, count);
}

pub(crate) broadcast proof fn all_values_are_there<'a>(
    b: BodyView<'a>,
    filled: Seq<Option<Value>>,
)
    requires
        fits(b, Thing::Options(filled)),
    ensures
        #[trigger] fits(b, Thing::Values(all_values_view(filled))),
{
    held_are_there(b, filled, filled.len());
}

pub(crate) broadcast proof fn some_is_there<'a>(
    b: BodyView<'a>,
    value: Value,
)
    requires
        fits(b, Thing::Value(value)),
    ensures
        #[trigger] fits(b, Thing::Maybe(Some(value))),
{
    reveal(fits);
}

pub(crate) broadcast proof fn no_value_is_there<'a>(
    b: BodyView<'a>,
)
    ensures
        #[trigger] fits(b, Thing::Maybe(None)),
{
    reveal(fits);
}

pub(crate) broadcast proof fn found_is_there<'a>(
    b: BodyView<'a>,
    value: Value,
)
    requires
        fits(b, Thing::Maybe(Some(value))),
    ensures
        #[trigger] fits(b, Thing::Value(value)),
{
    reveal(fits);
}

pub(crate) broadcast proof fn first_value_is_there<'a>(
    b: BodyView<'a>,
)
    ensures
        #[trigger] fits(b, Thing::Value(Value(0))),
{
    reveal(fits);
}

pub(crate) broadcast proof fn option_is_there<'a>(
    b: BodyView<'a>,
    held: Seq<Option<Value>>,
    i: int,
)
    requires
        fits(b, Thing::Options(held)),
        0 <= i < held.len(),
    ensures
        #[trigger] fits(b, Thing::Maybe(held[i])),
{
    reveal(fits);
}

pub(crate) broadcast proof fn nested_is_there<'a>(
    b: BodyView<'a>,
    held: Option<Value>,
)
    requires
        fits(b, Thing::Maybe(held)),
    ensures
        #[trigger] fits(b, Thing::Nested(Some(held))),
{
    reveal(fits);
}

pub(crate) broadcast proof fn no_nested_is_there<'a>(
    b: BodyView<'a>,
)
    ensures
        #[trigger] fits(b, Thing::Nested(None)),
{
    reveal(fits);
}

pub(crate) broadcast proof fn inner_is_there<'a>(
    b: BodyView<'a>,
    held: Option<Value>,
)
    requires
        fits(b, Thing::Nested(Some(held))),
    ensures
        #[trigger] fits(b, Thing::Maybe(held)),
{
    reveal(fits);
}

pub(crate) broadcast proof fn no_pairs_are_there<'a>(
    b: BodyView<'a>,
)
    ensures
        #[trigger] fits(b, Thing::Pairs(Seq::<(Value, Value)>::empty())),
{
    reveal(fits);
}

pub(crate) broadcast proof fn one_more_pair_is_there<'a>(
    b: BodyView<'a>,
    held: Seq<(Value, Value)>,
    first: Value,
    second: Value,
)
    requires
        fits(b, Thing::Pairs(held)),
        fits(b, Thing::Value(first)),
        fits(b, Thing::Value(second)),
    ensures
        #[trigger] fits(b, Thing::Pairs(held.push((first, second)))),
{
    reveal(fits);
}

pub(crate) broadcast proof fn no_blocks_are_there<'a>(
    b: BodyView<'a>,
)
    ensures
        #[trigger] fits(b, Thing::Blocks(Seq::<BlockId>::empty())),
{
    reveal(fits);
}

pub(crate) broadcast proof fn one_more_block_is_there<'a>(
    b: BodyView<'a>,
    held: Seq<BlockId>,
    block: BlockId,
)
    requires
        fits(b, Thing::Blocks(held)),
        fits(b, Thing::Block(block)),
    ensures
        #[trigger] fits(b, Thing::Blocks(held.push(block))),
{
    reveal(fits);
}

pub(crate) broadcast proof fn entry_is_there<'a>(
    b: BodyView<'a>,
)
    requires
        fits(b, Thing::Body),
    ensures
        #[trigger] fits(b, Thing::Block(b.function.entry)),
{
    reveal(fits);
}

pub(crate) broadcast proof fn saved_defs_are_there<'a>(
    b: BodyView<'a>,
)
    requires
        fits(b, Thing::Body),
    ensures
        #[trigger] fits(b, Thing::Defs(b.saved_defs())),
{
    reveal(fits);
    reveal(BodyView::saved_defs);
}

pub(crate) broadcast proof fn def_of_is_there<'a>(
    b: BodyView<'a>,
    var: u32,
)
    requires
        fits(b, Thing::Body),
    ensures
        #[trigger] fits(b, Thing::Value(b.def_of(var))),
{
    reveal(fits);
    reveal(BodyView::def_of);
}

pub(crate) broadcast proof fn defs_of_are_there<'a>(
    b: BodyView<'a>,
    vars: Seq<u32>,
)
    requires
        fits(b, Thing::Body),
    ensures
        #[trigger] fits(b, Thing::Values(b.defs_of(vars))),
{
    reveal(fits);
    reveal(BodyView::defs_of);
    reveal(BodyView::def_of);
}

pub(crate) broadcast proof fn params_of_are_there<'a>(
    b: BodyView<'a>,
    block: BlockId,
)
    requires
        fits(b, Thing::Body),
    ensures
        #[trigger] fits(b, Thing::Values(b.params_of(block))),
{
    reveal(fits);
    reveal(BodyView::params_of);
    if block.0 < b.function.blocks.len() {
        assert(b.function.blocks[block.0 as int].within(
            nameable(b.function),
            b.function.slots.len(),
            b.function.blocks.len(),
        ));
    }
}

pub(crate) broadcast proof fn slot_named_is_there<'a>(
    b: BodyView<'a>,
    name: Seq<char>,
    slot: SlotId,
)
    requires
        fits(b, Thing::Body),
        b.slot_named(name) == Some(slot),
    ensures
        #![trigger b.slot_named(name), fits(b, Thing::Slot(slot))]
        fits(b, Thing::Slot(slot)),
{
    reveal(fits);
    reveal(BodyView::slot_named);
    reveal(BodyView::slot_of);
}

pub(crate) broadcast proof fn slot_of_is_there<'a>(
    b: BodyView<'a>,
    var: u32,
    slot: SlotId,
)
    requires
        fits(b, Thing::Body),
        b.slot_of(var) == Some(slot),
    ensures
        #![trigger b.slot_of(var), fits(b, Thing::Slot(slot))]
        fits(b, Thing::Slot(slot)),
{
    reveal(fits);
    reveal(BodyView::slot_of);
}

pub(crate) broadcast proof fn handler_is_there<'a>(
    b: BodyView<'a>,
    handler: HandlerView,
)
    requires
        fits(b, Thing::Body),
        b.handler() == Some(handler),
    ensures
        #![trigger b.handler(), fits(b, Thing::Block(handler.block))]
        fits(b, Thing::Block(handler.block)),
{
    reveal(fits);
    reveal(BodyView::handler);
    assert(b.handlers[b.handlers.len() - 1].block.0 < b.function.blocks.len());
}

proof fn loop_is_there(b: BodyView, label: Option<Seq<char>>, count: nat)
    requires
        fits(b, Thing::Body),
        count <= b.loops.len(),
    ensures
        super::loop_among(b.loops, label, count) matches Some(held) ==> loop_within(
            held,
            b.function.blocks.len(),
        ),
    decreases count,
{
    reveal(fits);
    if count > 0 {
        loop_is_there(b, label, (count - 1) as nat);
        assert(loop_within(b.loops[count - 1], b.function.blocks.len()));
    }
}

pub(crate) broadcast proof fn exit_is_there<'a>(
    b: BodyView<'a>,
    label: Option<Seq<char>>,
    held: LoopView,
)
    requires
        fits(b, Thing::Body),
        b.find_loop(label) == Some(held),
    ensures
        #![trigger b.find_loop(label), fits(b, Thing::Block(held.exit))]
        fits(b, Thing::Block(held.exit)),
{
    reveal(fits);
    reveal(BodyView::find_loop);
    loop_is_there(b, label, b.loops.len());
}

pub(crate) broadcast proof fn again_is_there<'a>(
    b: BodyView<'a>,
    label: Option<Seq<char>>,
    again: BlockId,
)
    requires
        fits(b, Thing::Body),
        b.find_loop(label) matches Some(held) && held.again == Some(again),
    ensures
        #![trigger b.find_loop(label), fits(b, Thing::Block(again))]
        fits(b, Thing::Block(again)),
{
    reveal(fits);
    reveal(BodyView::find_loop);
    loop_is_there(b, label, b.loops.len());
}

pub(crate) broadcast proof fn arrival_is_there<'a>(
    b: BodyView<'a>,
)
    requires
        fits(b, Thing::Body),
    ensures
        #[trigger] fits(b, Thing::Path(b.arrival())),
{
    reveal(fits);
    reveal(BodyView::arrival);
}

pub(crate) broadcast proof fn no_paths_are_there<'a>(
    b: BodyView<'a>,
)
    ensures
        #[trigger] fits(b, Thing::Paths(Seq::<ArrivalView>::empty())),
{
    reveal(fits);
}

pub(crate) broadcast proof fn one_more_path_is_there<'a>(
    b: BodyView<'a>,
    held: Seq<ArrivalView>,
    path: ArrivalView,
)
    requires
        fits(b, Thing::Paths(held)),
        fits(b, Thing::Path(path)),
    ensures
        #[trigger] fits(b, Thing::Paths(held.push(path))),
{
    reveal(fits);
}

pub(crate) broadcast proof fn arrived_here_is_there<'a>(
    b: BodyView<'a>,
)
    requires
        fits(b, Thing::Body),
    ensures
        #[trigger] fits(b, Thing::Paths(b.arrived_here())),
{
    reveal(fits);
    reveal(BodyView::arrived_here);
    reveal(BodyView::arrival);
}

pub(crate) broadcast proof fn all_arrived_are_there<'a>(
    b: BodyView<'a>,
    first: Seq<ArrivalView>,
    second: Seq<ArrivalView>,
)
    requires
        fits(b, Thing::Paths(first)),
        fits(b, Thing::Paths(second)),
    ensures
        #[trigger] fits(b, Thing::Paths(all_arrived_view(first, second))),
{
    reveal(fits);
}

pub(crate) broadcast proof fn none_arrived_is_there<'a>(
    b: BodyView<'a>,
)
    ensures
        #[trigger] fits(b, Thing::Arrived(none_arrived_view())),
{
    reveal(fits);
}

pub(crate) broadcast proof fn more_arrived_is_there<'a>(
    b: BodyView<'a>,
    held: ArrivedView,
    path: ArrivalView,
    value: Value,
)
    requires
        fits(b, Thing::Arrived(held)),
        fits(b, Thing::Path(path)),
        fits(b, Thing::Value(value)),
    ensures
        #[trigger] fits(b, Thing::Arrived(more_arrived_view(held, path, value))),
{
    reveal(fits);
}

pub(crate) broadcast proof fn arrivals_are_there<'a>(
    b: BodyView<'a>,
    held: ArrivedView,
)
    requires
        fits(b, Thing::Arrived(held)),
    ensures
        #[trigger] fits(b, Thing::Paths(held.arrivals)),
{
    reveal(fits);
}

pub(crate) broadcast proof fn arrived_values_are_there<'a>(
    b: BodyView<'a>,
    held: ArrivedView,
)
    requires
        fits(b, Thing::Arrived(held)),
    ensures
        #[trigger] fits(b, Thing::Values(held.values)),
{
    reveal(fits);
}

pub(crate) broadcast proof fn handler_fits<'a>(
    b: BodyView<'a>,
    handler: HandlerView,
)
    requires
        fits(b, Thing::Block(handler.block)),
    ensures
        #[trigger] fits(b, Thing::Handler(handler)),
{
    reveal(fits);
}

pub(crate) broadcast proof fn loop_fits<'a>(
    b: BodyView<'a>,
    held: LoopView,
)
    requires
        fits(b, Thing::Block(held.exit)),
        held.again matches Some(again) ==> fits(b, Thing::Block(again)),
    ensures
        #[trigger] fits(b, Thing::Loop(held)),
{
    reveal(fits);
}

pub(crate) broadcast proof fn range_is_there<'a>(
    b: BodyView<'a>,
    last: Value,
    inclusive: bool,
)
    requires
        fits(b, Thing::Value(last)),
    ensures
        #[trigger] fits(b, Thing::Source(Source::Range { last, inclusive })),
{
    reveal(fits);
}

pub(crate) broadcast proof fn reversed_is_there<'a>(
    b: BodyView<'a>,
    first: Value,
    inclusive: bool,
)
    requires
        fits(b, Thing::Value(first)),
    ensures
        #[trigger] fits(b, Thing::Source(Source::Reversed { first, inclusive })),
{
    reveal(fits);
}

pub(crate) broadcast proof fn collection_is_there<'a>(
    b: BodyView<'a>,
    kind: Option<Builtin>,
    receiver: Value,
    indexed: bool,
)
    requires
        fits(b, Thing::Value(receiver)),
        collection_source_view(kind, receiver, indexed) is Some,
    ensures
        #[trigger] fits(b, Thing::Source(collection_source_view(kind, receiver, indexed)->0)),
{
    reveal(fits);
}

pub(crate) broadcast proof fn last_of_is_there<'a>(
    b: BodyView<'a>,
    source: Source,
    bound: Value,
)
    requires
        fits(b, Thing::Source(source)),
        last_of_view(source) == Some(bound),
    ensures
        #![trigger last_of_view(source), fits(b, Thing::Value(bound))]
        fits(b, Thing::Value(bound)),
{
    reveal(fits);
}

pub(crate) broadcast proof fn range_end_is_there<'a>(
    b: BodyView<'a>,
    source: Source,
)
    requires
        fits(b, Thing::Source(source)),
        source is Range,
    ensures
        #[trigger] fits(b, Thing::Value(source->last)),
{
    reveal(fits);
}

pub(crate) broadcast proof fn reversed_start_is_there<'a>(
    b: BodyView<'a>,
    source: Source,
)
    requires
        fits(b, Thing::Source(source)),
        source is Reversed,
    ensures
        #[trigger] fits(b, Thing::Value(source->first)),
{
    reveal(fits);
}

pub(crate) broadcast proof fn list_is_there<'a>(
    b: BodyView<'a>,
    source: Source,
)
    requires
        fits(b, Thing::Source(source)),
        source is List,
    ensures
        #[trigger] fits(b, Thing::Value(source->receiver)),
{
    reveal(fits);
}

pub(crate) broadcast proof fn table_is_there<'a>(
    b: BodyView<'a>,
    source: Source,
)
    requires
        fits(b, Thing::Source(source)),
        source is Table,
    ensures
        #[trigger] fits(b, Thing::Value(source->Table_0)),
{
    reveal(fits);
}

pub(crate) broadcast proof fn counted_is_there<'a>(
    b: BodyView<'a>,
    counted: CountedView,
)
    requires
        fits(b, Thing::Value(counted.first)),
        fits(b, Thing::Source(counted.source)),
    ensures
        #[trigger] fits(b, Thing::Counter(Some(counted))),
{
    reveal(fits);
}

pub(crate) broadcast proof fn nothing_counted_is_there<'a>(
    b: BodyView<'a>,
)
    ensures
        #[trigger] fits(b, Thing::Counter(None)),
{
    reveal(fits);
}

pub(crate) broadcast proof fn found_counter_is_there<'a>(
    b: BodyView<'a>,
    held: Option<CountedView>,
)
    requires
        fits(b, Thing::Counter(held)),
        held is Some,
    ensures
        #[trigger] fits(b, Thing::Counted(held->0)),
{
    reveal(fits);
}

pub(crate) broadcast proof fn first_is_there<'a>(
    b: BodyView<'a>,
    counted: CountedView,
)
    requires
        fits(b, Thing::Counted(counted)),
    ensures
        #[trigger] fits(b, Thing::Value(counted.first)),
{
    reveal(fits);
}

pub(crate) broadcast proof fn source_is_there<'a>(
    b: BodyView<'a>,
    counted: CountedView,
)
    requires
        fits(b, Thing::Counted(counted)),
    ensures
        #[trigger] fits(b, Thing::Source(counted.source)),
{
    reveal(fits);
}

pub(crate) broadcast proof fn ways_are_there<'a>(
    b: BodyView<'a>,
    ways: Ways,
)
    requires
        fits(b, Thing::Block(ways.found)),
        fits(b, Thing::Block(ways.otherwise)),
        fits(b, Thing::Block(ways.join)),
    ensures
        #[trigger] fits(b, Thing::Ways(ways)),
{
    reveal(fits);
}

pub(crate) broadcast proof fn way_found_is_there<'a>(
    b: BodyView<'a>,
    ways: Ways,
)
    requires
        fits(b, Thing::Ways(ways)),
    ensures
        #[trigger] fits(b, Thing::Block(ways.found)),
{
    reveal(fits);
}

pub(crate) broadcast proof fn way_otherwise_is_there<'a>(
    b: BodyView<'a>,
    ways: Ways,
)
    requires
        fits(b, Thing::Ways(ways)),
    ensures
        #[trigger] fits(b, Thing::Block(ways.otherwise)),
{
    reveal(fits);
}

pub(crate) broadcast proof fn way_join_is_there<'a>(
    b: BodyView<'a>,
    ways: Ways,
)
    requires
        fits(b, Thing::Ways(ways)),
    ensures
        #[trigger] fits(b, Thing::Block(ways.join)),
{
    reveal(fits);
}

proof fn a_recorded_callee_is_there(held: Seq<(Span, CalleeView)>, span: Span, count: nat)
    requires
        forall|i: int| 0 <= i < held.len() ==> (#[trigger] held[i]).1.id.0 < count,
    ensures
        recorded_at(held, span) matches Some(callee) ==> callee.id.0 < count,
    decreases held.len(),
{
    if held.len() > 0 {
        a_recorded_callee_is_there(held.skip(1), span, count);
    }
}

proof fn a_listed_property_is_there(
    context: ContextView,
    owner: TypeId,
    name: Seq<char>,
    from: nat,
)
    requires
        context_within(context),
    ensures
        property_from(context.properties, owner, name, from) matches Some(held) ==> property_within(
            held,
            context.program.functions.len(),
        ),
    decreases context.properties.len() - from,
{
    if from < context.properties.len() {
        a_listed_property_is_there(context, owner, name, from + 1);
    }
}

proof fn a_listed_member_is_there(held: Seq<(TypeId, FuncId)>, id: TypeId, from: nat, count: nat)
    requires
        members_within(held, count),
    ensures
        member_from(held, id, from) matches Some(func) ==> func.0 < count,
    decreases held.len() - from,
{
    if from < held.len() {
        a_listed_member_is_there(held, id, from + 1, count);
    }
}

pub(crate) broadcast proof fn callee_is_there<'a>(
    b: BodyView<'a>,
    span: Span,
    reached: CalleeView<'a>,
)
    requires
        fits(b, Thing::Body),
        b.callee_of(span) == Some(reached),
    ensures
        #![trigger b.callee_of(span), fits(b, Thing::Func(reached.id))]
        fits(b, Thing::Func(reached.id)),
{
    reveal(fits);
    reveal(calls_fit);
    reveal(BodyView::callee_of);
    a_recorded_callee_is_there(b.context.callees, span, b.context.program.functions.len());
}

pub(crate) broadcast proof fn getter_is_there<'a>(
    b: BodyView<'a>,
    ty: TyView,
    name: Seq<char>,
    found: (FuncId, TyView),
)
    requires
        fits(b, Thing::Body),
        b.getter(ty, name) == Some(found),
    ensures
        #![trigger b.getter(ty, name), fits(b, Thing::Func(found.0))]
        fits(b, Thing::Func(found.0)),
{
    reveal(fits);
    reveal(calls_fit);
    reveal(BodyView::getter);
    match ty {
        TyView::Named { id, args } => {
            a_listed_property_is_there(b.context, id, name, 0);
        },
        _ => {},
    }
}

pub(crate) broadcast proof fn setter_is_there<'a>(
    b: BodyView<'a>,
    ty: TyView,
    name: Seq<char>,
    set: FuncId,
)
    requires
        fits(b, Thing::Body),
        b.setter(ty, name) == Some(set),
    ensures
        #![trigger b.setter(ty, name), fits(b, Thing::Func(set))]
        fits(b, Thing::Func(set)),
{
    reveal(fits);
    reveal(calls_fit);
    reveal(BodyView::setter);
    match ty {
        TyView::Named { id, args } => {
            a_listed_property_is_there(b.context, id, name, 0);
        },
        _ => {},
    }
}

pub(crate) broadcast proof fn one_of_displays_is_there<'a>(
    b: BodyView<'a>,
    ty: TyView,
    func: FuncId,
)
    requires
        fits(b, Thing::Body),
        shown_by_view(ty, b.context.displays) == Some(func),
    ensures
        #![trigger shown_by_view(ty, b.context.displays), fits(b, Thing::Func(func))]
        fits(b, Thing::Func(func)),
{
    reveal(fits);
    reveal(calls_fit);
    match ty {
        TyView::Named { id, args } => {
            a_listed_member_is_there(b.context.displays, id, 0, b.context.program.functions.len());
        },
        _ => {},
    }
}

pub(crate) broadcast proof fn one_of_equals_is_there<'a>(
    b: BodyView<'a>,
    ty: TyView,
    func: FuncId,
)
    requires
        fits(b, Thing::Body),
        shown_by_view(ty, b.context.equals) == Some(func),
    ensures
        #![trigger shown_by_view(ty, b.context.equals), fits(b, Thing::Func(func))]
        fits(b, Thing::Func(func)),
{
    reveal(fits);
    reveal(calls_fit);
    match ty {
        TyView::Named { id, args } => {
            a_listed_member_is_there(b.context.equals, id, 0, b.context.program.functions.len());
        },
        _ => {},
    }
}

pub(crate) broadcast proof fn one_of_hashes_is_there<'a>(
    b: BodyView<'a>,
    ty: TyView,
    func: FuncId,
)
    requires
        fits(b, Thing::Body),
        shown_by_view(ty, b.context.hashes) == Some(func),
    ensures
        #![trigger shown_by_view(ty, b.context.hashes), fits(b, Thing::Func(func))]
        fits(b, Thing::Func(func)),
{
    reveal(fits);
    reveal(calls_fit);
    match ty {
        TyView::Named { id, args } => {
            a_listed_member_is_there(b.context.hashes, id, 0, b.context.program.functions.len());
        },
        _ => {},
    }
}

pub(crate) broadcast proof fn found_func_is_there<'a>(
    b: BodyView<'a>,
    func: FuncId,
)
    requires
        fits(b, Thing::MaybeFunc(Some(func))),
    ensures
        #[trigger] fits(b, Thing::Func(func)),
{
    reveal(fits);
}

proof fn merging_fits(
    b: BodyView,
    arrivals: Seq<ArrivalView>,
    join: BlockId,
    vars: Seq<u32>,
    span: Span,
    count: nat,
    thing: Thing,
)
    requires
        fits(b, Thing::Body),
        fits(b, Thing::Paths(arrivals)),
        fits(b, Thing::Block(join)),
        fits(b, thing),
    ensures
        fits(merged(b, arrivals, join, vars, span, count).0, thing),
        arrivals.len() > 0 ==> fits(
            merged(b, arrivals, join, vars, span, count).0,
            Thing::Defs(merged(b, arrivals, join, vars, span, count).1),
        ),
    decreases count,
{
    if count > 0 {
        let fewer = (count - 1) as nat;
        merging_fits(b, arrivals, join, vars, span, fewer, thing);
        merging_fits(b, arrivals, join, vars, span, fewer, Thing::Body);
        merging_fits(b, arrivals, join, vars, span, fewer, Thing::Paths(arrivals));
        merging_fits(b, arrivals, join, vars, span, fewer, Thing::Block(join));
        let (earlier, defs, params) = merged(b, arrivals, join, vars, span, fewer);
        let var = vars[count - 1];
        let first = arrivals[0].defs[var];
        let ty = earlier.type_at(first);
        add_block_param_fits(earlier, join, ty, span, thing);
        add_block_param_gives(earlier, join, ty, span);
        if arrivals.len() > 0 {
            add_block_param_fits(earlier, join, ty, span, Thing::Defs(defs));
            reveal(fits);
            if held_everywhere(arrivals, var) {
                assert(arrivals[0].defs.contains_key(var));
            }
        }
    } else {
        reveal(fits);
    }
}

proof fn arriving_fits(
    b: BodyView,
    arrivals: Seq<ArrivalView>,
    carried: Seq<Seq<Value>>,
    join: BlockId,
    params: Seq<u32>,
    count: nat,
    thing: Thing,
)
    requires
        fits(b, Thing::Body),
        fits(b, Thing::Paths(arrivals)),
        fits(b, Thing::Block(join)),
        count <= arrivals.len() == carried.len(),
        forall|i: int| 0 <= i < carried.len() ==> fits(b, Thing::Values(#[trigger] carried[i])),
        fits(b, thing),
    ensures
        fits(arrived(b, arrivals, carried, join, params, count), thing),
    decreases count,
{
    if count > 0 {
        let fewer = (count - 1) as nat;
        let at = count - 1;
        arriving_fits(b, arrivals, carried, join, params, fewer, thing);
        arriving_fits(b, arrivals, carried, join, params, fewer, Thing::Body);
        arriving_fits(b, arrivals, carried, join, params, fewer, Thing::Block(join));
        arriving_fits(b, arrivals, carried, join, params, fewer, Thing::Paths(arrivals));
        arriving_fits(b, arrivals, carried, join, params, fewer, Thing::Values(carried[at]));
        let earlier = arrived(b, arrivals, carried, join, params, fewer);
        let args = carried[at] + passed(arrivals[at], params);
        assert(fits(earlier, Thing::Values(args))) by {
            reveal(fits);
            assert(path_within(
                arrivals[at],
                nameable(earlier.function),
                earlier.function.blocks.len(),
            ));
        }
        rejoin_fits(earlier, arrivals[at].block, join, args, thing);
    }
}

proof fn meeting_fits(
    b: BodyView,
    arrivals: Seq<ArrivalView>,
    carried: Seq<Seq<Value>>,
    join: BlockId,
    span: Span,
    thing: Thing,
)
    requires
        fits(b, Thing::Body),
        fits(b, Thing::Paths(arrivals)),
        fits(b, Thing::Block(join)),
        arrivals.len() > 0,
        arrivals.len() == carried.len(),
        forall|i: int| 0 <= i < carried.len() ==> fits(b, Thing::Values(#[trigger] carried[i])),
        fits(b, thing),
    ensures
        fits(b.met(arrivals, carried, join, span), thing),
{
    let vars = vars_in(b.scopes, b.scopes.len());
    let (one, defs, params) = merged(b, arrivals, join, vars, span, vars.len());
    merging_fits(b, arrivals, join, vars, span, vars.len(), thing);
    merging_fits(b, arrivals, join, vars, span, vars.len(), Thing::Body);
    merging_fits(b, arrivals, join, vars, span, vars.len(), Thing::Paths(arrivals));
    merging_fits(b, arrivals, join, vars, span, vars.len(), Thing::Block(join));
    assert forall|i: int| 0 <= i < carried.len() implies fits(
        one,
        Thing::Values(#[trigger] carried[i]),
    ) by {
        merging_fits(b, arrivals, join, vars, span, vars.len(), Thing::Values(carried[i]));
    }
    let count = arrivals.len();
    arriving_fits(one, arrivals, carried, join, params, count, thing);
    arriving_fits(one, arrivals, carried, join, params, count, Thing::Body);
    arriving_fits(one, arrivals, carried, join, params, count, Thing::Block(join));
    arriving_fits(one, arrivals, carried, join, params, count, Thing::Defs(defs));
    let two = arrived(one, arrivals, carried, join, params, count);
    switch_to_fits(two, join, thing);
    switch_to_fits(two, join, Thing::Body);
    switch_to_fits(two, join, Thing::Defs(defs));
    restore_fits(two.switch_to(join), defs, thing);
}

pub(crate) broadcast proof fn join_fits<'a>(
    b: BodyView<'a>,
    arrivals: Seq<ArrivalView>,
    join: BlockId,
    span: Span,
    thing: Thing,
)
    requires
        fits(b, Thing::Body),
        fits(b, Thing::Paths(arrivals)),
        fits(b, Thing::Block(join)),
        fits(b, thing),
    ensures
        #[trigger] fits(b.join(arrivals, join, span), thing),
{
    broadcast use {switch_to_fits, terminate_fits, end_is_there};

    reveal(BodyView::join);
    if arrivals.len() > 0 {
        let carried = nothing_carried(arrivals.len());
        assert forall|i: int| 0 <= i < carried.len() implies fits(
            b,
            Thing::Values(#[trigger] carried[i]),
        ) by {
            reveal(fits);
        }
        meeting_fits(b, arrivals, carried, join, span, thing);
    }
}

pub(crate) broadcast proof fn join_carrying_fits<'a>(
    b: BodyView<'a>,
    arrivals: Seq<ArrivalView>,
    values: Seq<Value>,
    join: BlockId,
    ty: TyView,
    span: Span,
    thing: Thing,
)
    requires
        fits(b, Thing::Body),
        fits(b, Thing::Paths(arrivals)),
        fits(b, Thing::Block(join)),
        fits(b, Thing::Values(values)),
        fits(b, thing),
    ensures
        #[trigger] fits(b.join_carrying(arrivals, values, join, ty, span).0, thing),
{
    broadcast use {
        switch_to_fits, terminate_fits, end_is_there, add_block_param_fits, add_block_param_gives,
    };

    reveal(BodyView::join_carrying);
    let (after, value) = b.add_block_param(join, ty, span);
    assert(fits(after, Thing::Body));
    assert(fits(after, Thing::Paths(arrivals)));
    assert(fits(after, Thing::Block(join)));
    assert(fits(after, Thing::Values(values)));
    assert(fits(after, thing));
    if arrivals.len() > 0 && values.len() == arrivals.len() {
        let carried = one_carried(values);
        assert forall|i: int| 0 <= i < carried.len() implies fits(
            after,
            Thing::Values(#[trigger] carried[i]),
        ) by {
            reveal(fits);
        }
        meeting_fits(after, arrivals, carried, join, span, thing);
    }
}

pub(crate) broadcast proof fn join_carrying_gives<'a>(
    b: BodyView<'a>,
    arrivals: Seq<ArrivalView>,
    values: Seq<Value>,
    join: BlockId,
    ty: TyView,
    span: Span,
)
    requires
        fits(b, Thing::Body),
        fits(b, Thing::Paths(arrivals)),
        fits(b, Thing::Block(join)),
        fits(b, Thing::Values(values)),
    ensures
        #[trigger] fits(
            b.join_carrying(arrivals, values, join, ty, span).0,
            Thing::Value(b.join_carrying(arrivals, values, join, ty, span).1),
        ),
{
    broadcast use {
        switch_to_fits, terminate_fits, end_is_there, add_block_param_fits, add_block_param_gives,
    };

    reveal(BodyView::join_carrying);
    let (after, value) = b.add_block_param(join, ty, span);
    assert(fits(after, Thing::Body));
    assert(fits(after, Thing::Paths(arrivals)));
    assert(fits(after, Thing::Block(join)));
    assert(fits(after, Thing::Values(values)));
    assert(fits(after, Thing::Value(value)));
    if arrivals.len() > 0 && values.len() == arrivals.len() {
        let carried = one_carried(values);
        assert forall|i: int| 0 <= i < carried.len() implies fits(
            after,
            Thing::Values(#[trigger] carried[i]),
        ) by {
            reveal(fits);
        }
        meeting_fits(after, arrivals, carried, join, span, Thing::Value(value));
    }
}

proof fn declaring_fields_fits(
    b: BodyView,
    fields: Seq<FieldBinding>,
    count: nat,
    thing: Thing,
)
    requires
        fits(b, Thing::Body),
        fits(b, thing),
    ensures
        fits(declared_fields(b, fields, count), thing),
    decreases count,
{
    broadcast use declare_fits;

    if count > 0 {
        declaring_fields_fits(b, fields, (count - 1) as nat, thing);
        declaring_fields_fits(b, fields, (count - 1) as nat, Thing::Body);
    }
}

pub(crate) broadcast proof fn declare_binding_fits<'a>(
    b: BodyView<'a>,
    binding: Binding,
    thing: Thing,
)
    requires
        fits(b, Thing::Body),
        fits(b, thing),
    ensures
        #[trigger] fits(b.declare_binding(binding), thing),
    decreases binding, 0nat,
{
    broadcast use declare_fits;

    match binding {
        Binding::Record(fields) => {
            declaring_fields_fits(b, fields@, fields@.len(), thing);
        },
        Binding::Tuple(bindings) => {
            declaring_fits(b, bindings@, bindings@.len(), thing);
        },
        _ => {},
    }
}

proof fn declaring_fits(b: BodyView, bindings: Seq<Binding>, count: nat, thing: Thing)
    requires
        fits(b, Thing::Body),
        fits(b, thing),
    ensures
        fits(b.declare_bindings(bindings, count), thing),
    decreases bindings, count,
{
    if count > 0 && count <= bindings.len() {
        let fewer = (count - 1) as nat;
        declaring_fits(b, bindings, fewer, thing);
        declaring_fits(b, bindings, fewer, Thing::Body);
        declare_binding_fits(b.declare_bindings(bindings, fewer), bindings[count - 1], thing);
    }
}

/// Whether what is nested inside something names only what is there.
#[verifier::opaque]
pub open spec fn sturdy(deeper: Deeper) -> bool {
    &&& forall|b: BodyView, expr: Expr, wanted: Option<TyView>, thing: Thing|
        fits(b, Thing::Body) && fits(b, thing) ==> #[trigger] fits(
            (deeper.expr)(b, expr, wanted).0,
            thing,
        )
    &&& forall|b: BodyView, expr: Expr, wanted: Option<TyView>|
        fits(b, Thing::Body) ==> fits(
            (#[trigger] (deeper.expr)(b, expr, wanted)).0,
            Thing::Value((deeper.expr)(b, expr, wanted).1),
        )
    &&& forall|b: BodyView, block: Block, thing: Thing|
        fits(b, Thing::Body) && fits(b, thing) ==> #[trigger] fits(
            (deeper.block)(b, block),
            thing,
        )
    &&& forall|b: BodyView, stmts: Seq<Stmt>, span: Span, thing: Thing|
        fits(b, Thing::Body) && fits(b, thing) ==> #[trigger] fits(
            (deeper.stmts)(b, stmts, span),
            thing,
        )
    &&& forall|b: BodyView, subject: Value, pattern: Pattern, fail: BlockId, thing: Thing|
        fits(b, Thing::Body) && fits(b, Thing::Value(subject)) && fits(b, Thing::Block(fail))
            && fits(b, thing) ==> #[trigger] fits((deeper.test)(b, subject, pattern, fail), thing)
    &&& forall|b: BodyView, binding: Binding, value: Value, span: Span, thing: Thing|
        fits(b, Thing::Body) && fits(b, Thing::Value(value)) && fits(b, thing)
            ==> #[trigger] fits((deeper.bind)(b, binding, value, span), thing)
}

pub(crate) broadcast proof fn expr_fits<'a>(
    b: BodyView<'a>,
    expr: Expr,
    wanted: Option<TyView>,
    deeper: Deeper<'a>,
    thing: Thing,
)
    requires
        fits(b, Thing::Body),
        sturdy(deeper),
        fits(b, thing),
    ensures
        #[trigger] fits(b.expr(expr, wanted, deeper).0, thing),
{
    reveal(sturdy);
}

pub(crate) broadcast proof fn expr_gives<'a>(
    b: BodyView<'a>,
    expr: Expr,
    wanted: Option<TyView>,
    deeper: Deeper<'a>,
)
    requires
        fits(b, Thing::Body),
        sturdy(deeper),
    ensures
        #[trigger] fits(
            b.expr(expr, wanted, deeper).0,
            Thing::Value(b.expr(expr, wanted, deeper).1),
        ),
{
    reveal(sturdy);
}

pub(crate) broadcast proof fn block_fits<'a>(
    b: BodyView<'a>,
    block: Block,
    deeper: Deeper<'a>,
    thing: Thing,
)
    requires
        fits(b, Thing::Body),
        sturdy(deeper),
        fits(b, thing),
    ensures
        #[trigger] fits(b.block(block, deeper), thing),
{
    reveal(sturdy);
}

pub(crate) broadcast proof fn stmts_fits<'a>(
    b: BodyView<'a>,
    stmts: Seq<Stmt>,
    span: Span,
    deeper: Deeper<'a>,
    thing: Thing,
)
    requires
        fits(b, Thing::Body),
        sturdy(deeper),
        fits(b, thing),
    ensures
        #[trigger] fits(b.stmts(stmts, span, deeper), thing),
{
    reveal(sturdy);
}

pub(crate) broadcast proof fn test_fits<'a>(
    b: BodyView<'a>,
    subject: Value,
    pattern: Pattern,
    fail: BlockId,
    deeper: Deeper<'a>,
    thing: Thing,
)
    requires
        fits(b, Thing::Body),
        sturdy(deeper),
        fits(b, Thing::Value(subject)),
        fits(b, Thing::Block(fail)),
        fits(b, thing),
    ensures
        #[trigger] fits(b.test(subject, pattern, fail, deeper), thing),
{
    reveal(sturdy);
}

pub(crate) broadcast proof fn bind_value_fits<'a>(
    b: BodyView<'a>,
    binding: Binding,
    value: Value,
    span: Span,
    deeper: Deeper<'a>,
    thing: Thing,
)
    requires
        fits(b, Thing::Body),
        sturdy(deeper),
        fits(b, Thing::Value(value)),
        fits(b, thing),
    ensures
        #[trigger] fits(b.bind_value(binding, value, span, deeper), thing),
{
    reveal(sturdy);
}

pub broadcast group things {
    kind_is_there,
    end_is_there,
    jump_is_there,
    plain_jump_is_there,
    cases_are_there,
    each_is_there,
    none_are_there,
    one_is_there,
    two_are_there,
    one_more_is_there,
    ahead_is_there,
    put_at_is_there,
    entry_values_are_there,
    received_are_there,
    value_at_is_there,
    value_or_is_there,
    rest_of_is_there,
    fill_is_there,
    last_filling_is_there,
    all_values_are_there,
    some_is_there,
    no_value_is_there,
    found_is_there,
    first_value_is_there,
    option_is_there,
    nested_is_there,
    no_nested_is_there,
    inner_is_there,
    no_pairs_are_there,
    one_more_pair_is_there,
    no_blocks_are_there,
    one_more_block_is_there,
    entry_is_there,
    saved_defs_are_there,
    def_of_is_there,
    defs_of_are_there,
    params_of_are_there,
    slot_named_is_there,
    slot_of_is_there,
    handler_is_there,
    exit_is_there,
    again_is_there,
    arrival_is_there,
    no_paths_are_there,
    one_more_path_is_there,
    arrived_here_is_there,
    all_arrived_are_there,
    none_arrived_is_there,
    more_arrived_is_there,
    arrivals_are_there,
    arrived_values_are_there,
    handler_fits,
    loop_fits,
    range_is_there,
    reversed_is_there,
    collection_is_there,
    last_of_is_there,
    range_end_is_there,
    reversed_start_is_there,
    list_is_there,
    table_is_there,
    counted_is_there,
    nothing_counted_is_there,
    found_counter_is_there,
    first_is_there,
    source_is_there,
    ways_are_there,
    way_found_is_there,
    way_otherwise_is_there,
    way_join_is_there,
    callee_is_there,
    getter_is_there,
    setter_is_there,
    one_of_displays_is_there,
    one_of_equals_is_there,
    one_of_hashes_is_there,
    found_func_is_there,
}

} // verus!
