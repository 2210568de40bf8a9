//! What lowering a body promises of the statements and operators of the language.

use vstd::prelude::*;

use crate::ast::{
    ArmBody, BinaryOp as AstBinary, Binding, Block, Branch, CatchClause, Expr, ExprKind,
    FieldBinding, FunctionBody, IfBranch, InterpolationPart, MapEntry, MatchArm, Param, Pattern,
    UnaryOp as AstUnary,
};
use crate::inst::{
    Allocation, BinaryOp, ConstView, InstKindView, InstView, MethodId, TargetView, TerminatorView,
    Trap, UnaryOp, Value,
};
use crate::program::{id_limit, BlockId, BlockView, FieldView, VariantView};
use crate::sema::{CollectionMutation, OverflowMethod};
use crate::span::Span;
use crate::ty::{Builtin, IntTy, TyView};

use super::{ArrivalView, BodyView, CalleeView, Cleanup, HandlerView, LoopView};
use super::asked::{
    element_written_view, index_type_view, is_equality_view, is_indexed_view, is_written_into_view,
    reads_length_view, result_error_view, sequence_element_view,
};
use super::deeper::Deeper;
use super::derived::{comparable_all_view, comparable_in_view, field_read_view};
use super::flow::{agreed, arrived, held_everywhere, merged, nothing_carried, passed, vars_in};
use super::given::{
    ahead_view, any_named_view, entry_values_view, fill_view, filled_by, given_one_view,
    is_nil_view, or_else_view, parameter_from, positional, slots_of_view, supplied_view,
    task_result_view, ty_or_never_view, variadic_at_view, variadic_from, wanted_types_view, Bound,
    Given,
};
use super::iterate::{CountedView, Source};
use super::kinds::{
    args_given_view, args_of_view, binary_op_view, function_of_view, index_id_view,
    optional_inner_view, optional_view, seq1, shown_by_view, target_view, thrown_or_view,
    ty_at_view,
};
use super::queries::{field_at_view, field_from, field_ty_view};

verus! {

proof fn cleaning_goes_by_what_it_runs<'a>(
    b: BodyView<'a>,
    held: Seq<Cleanup<'a>>,
    other: Seq<Cleanup<'a>>,
    deeper: Deeper<'a>,
    count: nat,
)
    requires
        count <= held.len(),
        count <= other.len(),
        forall|i: int| 0 <= i < count ==> held[i] == other[i],
    ensures
        b.clean(held, deeper, count) == b.clean(other, deeper, count),
    decreases count,
{
    reveal(BodyView::clean);
    if count > 0 {
        match held[count - 1] {
            Cleanup::Deferred(call) => {
                let (after, _) = b.expr(*call, None, deeper);
                cleaning_goes_by_what_it_runs(after, held, other, deeper, (count - 1) as nat);
            },
            Cleanup::Finally(block) => {
                let after = b.block(*block, deeper);
                cleaning_goes_by_what_it_runs(after, held, other, deeper, (count - 1) as nat);
            },
        }
    }
}

/// What a scope defers runs in reverse order of registration: what was deferred last
/// runs first, and then what was deferred before it.
pub proof fn what_was_deferred_last_runs_first<'a>(
    b: BodyView<'a>,
    call: &'a Expr,
    frame: nat,
    deeper: Deeper<'a>,
)
    requires
        b.deferred.len() == frame + 1,
    ensures
        ({
            let earlier = b.cleanups(frame);
            let deferred = b.defer(Cleanup::Deferred(call));
            deferred.unwind(frame, deeper) == deferred.expr(*call, None, deeper).0.clean(
                earlier,
                deeper,
                earlier.len(),
            )
        }),
{
    reveal(BodyView::unwind);
    reveal(BodyView::cleanups);
    reveal(BodyView::defer);
    reveal(BodyView::clean);
    let earlier = b.cleanups(frame);
    let deferred = b.defer(Cleanup::Deferred(call));
    let held = deferred.cleanups(frame);
    assert(held == earlier.push(Cleanup::Deferred(call)));
    let (after, _) = deferred.expr(*call, None, deeper);
    cleaning_goes_by_what_it_runs(after, held, earlier, deeper, earlier.len());
}

/// Leaving several scopes runs what the innermost deferred first, and then what the
/// scopes around it did.
pub proof fn inner_scopes_unwind_first<'a>(
    b: BodyView<'a>,
    depth: nat,
    top: nat,
    deeper: Deeper<'a>,
)
    requires
        depth <= top,
    ensures
        b.unwind_between(depth, top + 1, deeper) == b.unwind(top, deeper).unwind_between(
            depth,
            top,
            deeper,
        ),
        b.unwind_between(depth, depth, deeper) == b,
{
    reveal(BodyView::unwind_between);
}

/// The clauses of a `try` are tried in the order they are written: one with a type
/// tests the thrown value for it, and where that fails goes on in the block that the
/// next clause is tried in.
pub proof fn a_clause_is_tried_where_the_one_before_failed<'a>(
    b: BodyView<'a>,
    thrown: Value,
    catches: Seq<CatchClause>,
    deeper: Deeper<'a>,
    i: nat,
)
    requires
        i < catches.len(),
    ensures
        ({
            let before = b.catch_clauses(thrown, catches, deeper, i).0;
            let (opened, next) = before.add_block(catches[i as int].span);
            b.catch_clauses(thrown, catches, deeper, i + 1).0.current == next
        }),
{
    reveal(BodyView::catch_clauses);
    reveal(BodyView::terminate);
    reveal(BodyView::switch_to);
}

/// A clause with a type binds the thrown value where it has that type, in a block that
/// the test leads to, and leaves for `next` where it has another.
pub proof fn a_typed_clause_tests_first<'a>(
    b: BodyView<'a>,
    thrown: Value,
    clause: CatchClause,
    next: BlockId,
)
    requires
        clause.typed,
        b.function.values.len() + 1 < id_limit(),
        b.function.blocks.len() < id_limit(),
        b.current.0 < b.function.blocks.len(),
        b.function.block(b.current).term is None,
    ensures
        ({
            let ty = b.recorded(clause.span).1;
            let (after, caught) = b.catch(thrown, clause, next);
            let tested = after.function.block(b.current);
            let matched = after.function.block(after.current);
            &&& tested.insts.last().kind == (InstKindView::IsType { value: thrown, ty })
            &&& tested.term == Some(
                TerminatorView::Branch {
                    condition: tested.insts.last().result->Some_0,
                    then: TargetView::to(after.current),
                    otherwise: TargetView::to(next),
                },
            )
            &&& matched.insts.len() == 1
            &&& matched.insts[0].kind == (InstKindView::DynValue { value: thrown })
            &&& matched.insts[0].result == Some(caught)
        }),
{
    reveal(BodyView::catch);
    reveal(BodyView::recorded);
    reveal(BodyView::gap);
    reveal(BodyView::emit);
    reveal(BodyView::add_block);
    reveal(BodyView::branch);
    reveal(BodyView::terminate);
    reveal(BodyView::switch_to);
    let (asked, ty) = b.recorded(clause.span);
    assert(asked.function == b.function && asked.current == b.current);
    let (tested, test) = asked.emit(
        InstKindView::IsType { value: thrown, ty },
        TyView::Bool,
        clause.span,
    );
    let (opened, matched) = tested.add_block(clause.span);
    assert(opened.function.block(b.current) == tested.function.block(b.current));
    assert(opened.function.block(b.current).term is None);
    assert(opened.function.block(matched) == BlockView::empty());
    let branched = opened.branch(test, matched, next);
    assert(branched.function.block(matched) == BlockView::empty());
    let after = b.catch(thrown, clause, next).0;
    assert(after.current == matched);
    assert(after.function.block(b.current) == branched.function.block(b.current));
}

/// What `a ?? b` gives. The block that `a` was lowered in goes one way where `a` is
/// there and another where it is not. Where it is there, what it holds is given, or
/// `a` itself where the whole may be nothing too. The other block is empty still: that
/// is where `b` is lowered, and nowhere else.
pub proof fn a_fallback_is_for_what_is_not_there<'a>(
    b: BodyView<'a>,
    left: Value,
    ty: TyView,
    span: Span,
)
    requires
        b.function.values.len() + 1 < id_limit(),
        b.function.blocks.len() + 2 < id_limit(),
        b.current.0 < b.function.blocks.len(),
        b.function.block(b.current).term is None,
    ensures
        ({
            let (split, ways) = b.split_optional(left, span);
            let after = split.give_present(left, ty, ways, span);
            let tested = after.function.block(b.current);
            let found = after.function.block(ways.found);
            &&& tested.insts.last().kind == (InstKindView::IsSome { value: left })
            &&& tested.term == Some(
                TerminatorView::Branch {
                    condition: tested.insts.last().result->Some_0,
                    then: TargetView::to(ways.found),
                    otherwise: TargetView::to(ways.otherwise),
                },
            )
            &&& if ty is Optional {
                &&& found.insts.len() == 0
                &&& found.term == Some(
                    TerminatorView::Jump(TargetView { block: ways.join, args: seq![left] }),
                )
            } else {
                &&& found.insts.len() == 1
                &&& found.insts[0].kind == (InstKindView::Unwrap { value: left })
                &&& found.term == Some(
                    TerminatorView::Jump(
                        TargetView { block: ways.join, args: seq![found.insts[0].result->Some_0] },
                    ),
                )
            }
            &&& after.function.block(ways.otherwise) == BlockView::empty()
            &&& after.function.block(ways.join) == BlockView::empty()
        }),
{
    reveal(BodyView::split_optional);
    reveal(BodyView::give_present);
    reveal(BodyView::jump_with);
    reveal(BodyView::emit);
    reveal(BodyView::add_block);
    reveal(BodyView::branch);
    reveal(BodyView::terminate);
    reveal(BodyView::switch_to);
    let (one, found) = b.add_block(span);
    let (two, otherwise) = one.add_block(span);
    let (three, join) = two.add_block(span);
    assert(three.function.block(found) == BlockView::empty());
    assert(three.function.block(otherwise) == BlockView::empty());
    assert(three.function.block(join) == BlockView::empty());
    assert(three.function.block(b.current) == b.function.block(b.current));
    let (tested, condition) = three.emit(InstKindView::IsSome { value: left }, TyView::Bool, span);
    assert(tested.function.block(found) == BlockView::empty());
    let (split, ways) = b.split_optional(left, span);
    assert(split.function.block(found) == BlockView::empty());
    assert(split.function.block(otherwise) == BlockView::empty());
    assert(split.function.block(join) == BlockView::empty());
    let at = split.switch_to(found);
    if optional_inner_view(ty) is None {
        let (held, inside) = at.emit(InstKindView::Unwrap { value: left }, ty, span);
        assert(held.function.block(b.current) == split.function.block(b.current));
        assert(held.function.block(otherwise) == BlockView::empty());
        assert(held.function.block(join) == BlockView::empty());
        assert(held.function.block(found).term is None);
    }
}

/// A loop over a list tests, before each pass, whether its counter is below the number
/// of elements the list then has.
pub proof fn a_pass_over_a_list_is_for_an_index_of_it<'a>(
    b: BodyView<'a>,
    receiver: Value,
    indexed: bool,
    current: Value,
    span: Span,
)
    requires
        b.function.values.len() + 1 < id_limit(),
        b.current.0 < b.function.blocks.len(),
    ensures
        ({
            let (after, condition) = b.goes_on(Source::List { receiver, indexed }, current, span);
            let before = b.function.block(b.current).insts.len() as int;
            let insts = after.function.block(b.current).insts;
            &&& insts.len() == before + 2
            &&& insts[before].kind == (InstKindView::Length { receiver })
            &&& insts[before].result is Some
            &&& insts[before + 1].kind == (InstKindView::Binary {
                op: BinaryOp::Less,
                left: current,
                right: insts[before].result->Some_0,
            })
            &&& insts[before + 1].result == Some(condition)
        }),
{
    reveal(BodyView::goes_on);
    reveal(BodyView::emit);
}

/// A counter goes on by one after each pass: up, or down where what it counts through
/// is reversed.
pub proof fn a_counter_goes_on_by_one<'a>(
    b: BodyView<'a>,
    source: Source,
    current: Value,
    element: TyView,
    span: Span,
)
    requires
        b.function.values.len() + 1 < id_limit(),
        b.current.0 < b.function.blocks.len(),
    ensures
        ({
            let (after, next) = b.count_on(source, current, element, span);
            let before = b.function.block(b.current).insts.len() as int;
            let insts = after.function.block(b.current).insts;
            &&& insts.len() == before + 2
            &&& insts[before].kind == InstKindView::Const(ConstView::Int(1))
            &&& insts[before].result is Some
            &&& insts[before + 1].kind == (InstKindView::Binary {
                op: if source is Reversed {
                    BinaryOp::Subtract
                } else {
                    BinaryOp::Add
                },
                left: current,
                right: insts[before].result->Some_0,
            })
            &&& insts[before + 1].result == Some(next)
        }),
{
    reveal(BodyView::count_on);
    reveal(BodyView::emit);
}

/// The block called `id`, as it is written so far.
#[verifier::opaque]
pub open spec fn seen(b: BodyView, id: BlockId) -> BlockView {
    b.function.block(id)
}

/// How many values there are, and how many blocks.
#[verifier::opaque]
pub open spec fn size(b: BodyView) -> (nat, nat) {
    (b.function.values.len(), b.function.blocks.len())
}

/// Where lowering goes on: the block written into, whether it was left, and what each
/// binding holds.
#[verifier::opaque]
pub open spec fn place(b: BodyView) -> (BlockId, bool, Map<u32, Value>) {
    (b.current, b.left, b.defs)
}

/// Whether there is room for what one construct writes, and the block that is written
/// into is there and not ended.
pub open spec fn can_go_on(b: BodyView) -> bool {
    &&& b.function.values.len() + 64 < id_limit()
    &&& b.function.blocks.len() + 64 < id_limit()
    &&& b.current.0 < b.function.blocks.len()
    &&& b.function.block(b.current).term is None
}

/// The jump that leads out of a block where `condition` is `truth`.
pub open spec fn goes(
    b: BodyView,
    from: BlockId,
    condition: Value,
    truth: bool,
) -> Option<TargetView> {
    match b.function.block(from).term {
        Some(TerminatorView::Branch { condition: tested, then, otherwise }) => if tested
            != condition {
            None
        } else if truth {
            Some(then)
        } else {
            Some(otherwise)
        },
        _ => None,
    }
}

/// The jump that leads out of a block that always goes the same way.
pub open spec fn goes_on_to(b: BodyView, from: BlockId) -> Option<TargetView> {
    match b.function.block(from).term {
        Some(TerminatorView::Jump(to)) => Some(to),
        _ => None,
    }
}

/// What the last instruction of a block does, and what it produces.
pub open spec fn last(b: BodyView, id: BlockId) -> (InstKindView, Value) {
    let inst = b.function.block(id).insts.last();
    (inst.kind, inst.result->Some_0)
}

pub(crate) broadcast proof fn emit_is_seen<'a>(
    b: BodyView<'a>,
    kind: InstKindView,
    ty: TyView,
    span: Span,
)
    requires
        size(b).0 < id_limit(),
        place(b).0.0 < size(b).1,
    ensures
        #![trigger b.emit(kind, ty, span)]
        size(b.emit(kind, ty, span).0) == (size(b).0 + 1, size(b).1),
        place(b.emit(kind, ty, span).0) == place(b),
        b.emit(kind, ty, span).1.0 == size(b).0,
        forall|id: BlockId| id.0 < size(b).1 ==> #[trigger] seen(b.emit(kind, ty, span).0, id) == (
        if id == place(b).0 {
            BlockView {
                insts: seen(b, id).insts.push(
                    InstView { result: Some(b.emit(kind, ty, span).1), kind, span },
                ),
                ..seen(b, id)
            }
        } else {
            seen(b, id)
        }),
{
    reveal(seen);
    reveal(size);
    reveal(place);
    reveal(BodyView::emit);
}

pub(crate) broadcast proof fn emit_void_is_seen<'a>(
    b: BodyView<'a>,
    kind: InstKindView,
    span: Span,
)
    requires
        place(b).0.0 < size(b).1,
    ensures
        #![trigger b.emit_void(kind, span)]
        size(b.emit_void(kind, span)) == size(b),
        place(b.emit_void(kind, span)) == place(b),
        forall|id: BlockId| id.0 < size(b).1 ==> #[trigger] seen(b.emit_void(kind, span), id) == (
        if id == place(b).0 {
            BlockView {
                insts: seen(b, id).insts.push(InstView { result: None, kind, span }),
                ..seen(b, id)
            }
        } else {
            seen(b, id)
        }),
{
    reveal(seen);
    reveal(size);
    reveal(place);
    reveal(BodyView::emit_void);
}

pub(crate) broadcast proof fn terminate_is_seen<'a>(b: BodyView<'a>, term: TerminatorView)
    requires
        place(b).0.0 < size(b).1,
    ensures
        #![trigger b.terminate(term)]
        size(b.terminate(term)) == size(b),
        place(b.terminate(term)) == (place(b).0, true, place(b).2),
        forall|id: BlockId| id.0 < size(b).1 ==> #[trigger] seen(b.terminate(term), id) == (if id
            == place(b).0 && seen(b, id).term is None {
            BlockView { term: Some(term), ..seen(b, id) }
        } else {
            seen(b, id)
        }),
{
    reveal(seen);
    reveal(size);
    reveal(place);
    reveal(BodyView::terminate);
}

pub(crate) broadcast proof fn add_block_is_seen<'a>(b: BodyView<'a>, span: Span)
    requires
        size(b).1 < id_limit(),
    ensures
        #![trigger b.add_block(span)]
        size(b.add_block(span).0) == (size(b).0, size(b).1 + 1),
        place(b.add_block(span).0) == place(b),
        b.add_block(span).1.0 == size(b).1,
        seen(b.add_block(span).0, b.add_block(span).1) == BlockView::empty(),
        forall|id: BlockId|
            id.0 < size(b).1 ==> #[trigger] seen(b.add_block(span).0, id) == seen(b, id),
{
    reveal(seen);
    reveal(size);
    reveal(place);
    reveal(BodyView::add_block);
}

pub(crate) broadcast proof fn add_block_param_is_seen<'a>(
    b: BodyView<'a>,
    block: BlockId,
    ty: TyView,
    span: Span,
)
    requires
        size(b).0 < id_limit(),
        block.0 < size(b).1,
    ensures
        #![trigger b.add_block_param(block, ty, span)]
        size(b.add_block_param(block, ty, span).0) == (size(b).0 + 1, size(b).1),
        place(b.add_block_param(block, ty, span).0) == place(b),
        b.add_block_param(block, ty, span).1.0 == size(b).0,
        forall|id: BlockId|
            id.0 < size(b).1 ==> #[trigger] seen(b.add_block_param(block, ty, span).0, id) == (if id
                == block {
                BlockView {
                    params: seen(b, id).params.push(b.add_block_param(block, ty, span).1),
                    ..seen(b, id)
                }
            } else {
                seen(b, id)
            }),
{
    reveal(seen);
    reveal(size);
    reveal(place);
    reveal(BodyView::add_block_param);
}

pub(crate) broadcast proof fn switch_to_is_seen<'a>(b: BodyView<'a>, block: BlockId)
    ensures
        #![trigger b.switch_to(block)]
        size(b.switch_to(block)) == size(b),
        place(b.switch_to(block)) == (block, false, place(b).2),
        forall|id: BlockId| #[trigger] seen(b.switch_to(block), id) == seen(b, id),
{
    reveal(seen);
    reveal(size);
    reveal(place);
    reveal(BodyView::switch_to);
}

pub(crate) broadcast proof fn restore_is_seen<'a>(b: BodyView<'a>, defs: Map<u32, Value>)
    ensures
        #![trigger b.restore(defs)]
        size(b.restore(defs)) == size(b),
        place(b.restore(defs)) == (place(b).0, place(b).1, defs),
        forall|id: BlockId| #[trigger] seen(b.restore(defs), id) == seen(b, id),
{
    reveal(seen);
    reveal(size);
    reveal(place);
    reveal(BodyView::restore);
}

pub(crate) broadcast proof fn set_def_is_seen<'a>(b: BodyView<'a>, var: u32, value: Value)
    ensures
        #![trigger b.set_def(var, value)]
        size(b.set_def(var, value)) == size(b),
        place(b.set_def(var, value)) == (place(b).0, place(b).1, place(b).2.insert(var, value)),
        forall|id: BlockId| #[trigger] seen(b.set_def(var, value), id) == seen(b, id),
{
    reveal(seen);
    reveal(size);
    reveal(place);
    reveal(BodyView::set_def);
}

pub(crate) broadcast proof fn recorded_is_seen<'a>(b: BodyView<'a>, span: Span)
    ensures
        #![trigger b.recorded(span)]
        size(b.recorded(span).0) == size(b),
        place(b.recorded(span).0) == place(b),
        b.recorded(span).0.function == b.function,
        forall|id: BlockId| #[trigger] seen(b.recorded(span).0, id) == seen(b, id),
{
    reveal(seen);
    reveal(size);
    reveal(place);
    reveal(BodyView::gap);
    reveal(BodyView::recorded);
}

pub(crate) broadcast proof fn gap_is_seen<'a>(b: BodyView<'a>, span: Span, what: Seq<char>)
    ensures
        #![trigger b.gap(span, what)]
        size(b.gap(span, what)) == size(b),
        place(b.gap(span, what)) == place(b),
        forall|id: BlockId| #[trigger] seen(b.gap(span, what), id) == seen(b, id),
{
    reveal(seen);
    reveal(size);
    reveal(place);
    reveal(BodyView::gap);
}

pub(crate) broadcast proof fn open_is_seen<'a>(b: BodyView<'a>)
    ensures
        #![trigger b.open()]
        size(b.open()) == size(b),
        place(b.open()) == place(b),
        forall|id: BlockId| #[trigger] seen(b.open(), id) == seen(b, id),
{
    reveal(seen);
    reveal(size);
    reveal(place);
    reveal(BodyView::open);
}

pub(crate) broadcast proof fn drop_scope_is_seen<'a>(b: BodyView<'a>)
    ensures
        #![trigger b.drop_scope()]
        size(b.drop_scope()) == size(b),
        place(b.drop_scope()) == place(b),
        forall|id: BlockId| #[trigger] seen(b.drop_scope(), id) == seen(b, id),
{
    reveal(seen);
    reveal(size);
    reveal(place);
    reveal(BodyView::drop_scope);
}

pub(crate) broadcast proof fn defer_is_seen<'a>(b: BodyView<'a>, cleanup: Cleanup<'a>)
    ensures
        #![trigger b.defer(cleanup)]
        size(b.defer(cleanup)) == size(b),
        place(b.defer(cleanup)) == place(b),
        forall|id: BlockId| #[trigger] seen(b.defer(cleanup), id) == seen(b, id),
{
    reveal(seen);
    reveal(size);
    reveal(place);
    reveal(BodyView::defer);
}

pub(crate) broadcast proof fn push_handler_is_seen<'a>(b: BodyView<'a>, handler: HandlerView)
    ensures
        #![trigger b.push_handler(handler)]
        size(b.push_handler(handler)) == size(b),
        place(b.push_handler(handler)) == place(b),
        forall|id: BlockId| #[trigger] seen(b.push_handler(handler), id) == seen(b, id),
{
    reveal(seen);
    reveal(size);
    reveal(place);
    reveal(BodyView::push_handler);
}

pub(crate) broadcast proof fn pop_handler_is_seen<'a>(b: BodyView<'a>)
    ensures
        #![trigger b.pop_handler()]
        size(b.pop_handler()) == size(b),
        place(b.pop_handler()) == place(b),
        forall|id: BlockId| #[trigger] seen(b.pop_handler(), id) == seen(b, id),
{
    reveal(seen);
    reveal(size);
    reveal(place);
    reveal(BodyView::pop_handler);
}

pub(crate) broadcast proof fn push_loop_is_seen<'a>(b: BodyView<'a>, held: LoopView)
    ensures
        #![trigger b.push_loop(held)]
        size(b.push_loop(held)) == size(b),
        place(b.push_loop(held)) == place(b),
        forall|id: BlockId| #[trigger] seen(b.push_loop(held), id) == seen(b, id),
{
    reveal(seen);
    reveal(size);
    reveal(place);
    reveal(BodyView::push_loop);
}

pub(crate) broadcast proof fn pop_loop_is_seen<'a>(b: BodyView<'a>)
    ensures
        #![trigger b.pop_loop()]
        size(b.pop_loop()) == size(b),
        place(b.pop_loop()) == place(b),
        forall|id: BlockId| #[trigger] seen(b.pop_loop(), id) == seen(b, id),
{
    reveal(seen);
    reveal(size);
    reveal(place);
    reveal(BodyView::pop_loop);
}

pub(crate) broadcast proof fn declare_is_seen<'a>(b: BodyView<'a>, name: Seq<char>)
    ensures
        #![trigger b.declare(name)]
        size(b.declare(name).0) == size(b),
        place(b.declare(name).0) == place(b),
        forall|id: BlockId| #[trigger] seen(b.declare(name).0, id) == seen(b, id),
{
    reveal(seen);
    reveal(size);
    reveal(place);
    reveal(BodyView::declare);
}

pub(crate) broadcast proof fn saved_defs_are_seen<'a>(b: BodyView<'a>)
    ensures
        #[trigger] b.saved_defs() == place(b).2,
{
    reveal(place);
    reveal(BodyView::saved_defs);
}

proof fn parameters_are_seen<'a>(
    b: BodyView<'a>,
    block: BlockId,
    carried: Seq<u32>,
    span: Span,
    count: nat,
)
    requires
        count <= carried.len(),
        size(b).0 + count < id_limit(),
        block.0 < size(b).1,
    ensures
        ({
            let after = b.add_params(block, carried, span, count);
            &&& size(after) == (size(b).0 + count, size(b).1)
            &&& place(after) == place(b)
            &&& seen(after, block).insts == seen(b, block).insts
            &&& seen(after, block).term == seen(b, block).term
            &&& seen(after, block).params.len() == seen(b, block).params.len() + count
            &&& forall|id: BlockId|
                id.0 < size(b).1 && id != block ==> #[trigger] seen(after, id) == seen(b, id)
        }),
    decreases count,
{
    broadcast use add_block_param_is_seen;

    reveal(BodyView::add_params);
    if count > 0 {
        parameters_are_seen(b, block, carried, span, (count - 1) as nat);
    }
}

pub(crate) broadcast proof fn add_params_is_seen<'a>(
    b: BodyView<'a>,
    block: BlockId,
    carried: Seq<u32>,
    span: Span,
    count: nat,
)
    requires
        count <= carried.len(),
        size(b).0 + count < id_limit(),
        block.0 < size(b).1,
    ensures
        #![trigger b.add_params(block, carried, span, count)]
        size(b.add_params(block, carried, span, count)) == (size(b).0 + count, size(b).1),
        place(b.add_params(block, carried, span, count)) == place(b),
        seen(b.add_params(block, carried, span, count), block).insts == seen(b, block).insts,
        seen(b.add_params(block, carried, span, count), block).term == seen(b, block).term,
        seen(b.add_params(block, carried, span, count), block).params.len() == seen(
            b,
            block,
        ).params.len() + count,
        forall|id: BlockId|
            id.0 < size(b).1 && id != block ==> #[trigger] seen(
                b.add_params(block, carried, span, count),
                id,
            ) == seen(b, id),
{
    parameters_are_seen(b, block, carried, span, count);
}

proof fn bindings_are_seen<'a>(b: BodyView<'a>, carried: Seq<u32>, values: Seq<Value>, count: nat)
    ensures
        ({
            let after = b.set_defs(carried, values, count);
            &&& size(after) == size(b)
            &&& place(after).0 == place(b).0
            &&& place(after).1 == place(b).1
            &&& forall|id: BlockId| #[trigger] seen(after, id) == seen(b, id)
        }),
    decreases count,
{
    broadcast use set_def_is_seen;

    reveal(BodyView::set_defs);
    if count > 0 {
        bindings_are_seen(b, carried, values, (count - 1) as nat);
    }
}

pub(crate) broadcast proof fn bind_params_is_seen<'a>(
    b: BodyView<'a>,
    block: BlockId,
    carried: Seq<u32>,
)
    ensures
        #![trigger b.bind_params(block, carried)]
        size(b.bind_params(block, carried)) == size(b),
        place(b.bind_params(block, carried)).0 == place(b).0,
        place(b.bind_params(block, carried)).1 == place(b).1,
        forall|id: BlockId| #[trigger] seen(b.bind_params(block, carried), id) == seen(b, id),
{
    reveal(BodyView::bind_params);
    bindings_are_seen(b, carried, b.params_of(block), carried.len());
}

pub(crate) broadcast proof fn jump_to_is_seen<'a>(
    b: BodyView<'a>,
    block: BlockId,
    carried: Seq<u32>,
)
    requires
        place(b).0.0 < size(b).1,
    ensures
        #![trigger b.jump_to(block, carried)]
        size(b.jump_to(block, carried)) == size(b),
        place(b.jump_to(block, carried)) == (place(b).0, true, place(b).2),
        forall|id: BlockId|
            id.0 < size(b).1 ==> #[trigger] seen(b.jump_to(block, carried), id) == (if id == place(
                b,
            ).0 && seen(b, id).term is None {
                BlockView {
                    term: Some(
                        TerminatorView::Jump(TargetView { block, args: b.defs_of(carried) }),
                    ),
                    ..seen(b, id)
                }
            } else {
                seen(b, id)
            }),
{
    broadcast use terminate_is_seen;

    reveal(BodyView::jump_to);
}

pub broadcast group steps {
    emit_is_seen,
    emit_void_is_seen,
    terminate_is_seen,
    add_block_is_seen,
    add_block_param_is_seen,
    switch_to_is_seen,
    restore_is_seen,
    set_def_is_seen,
    recorded_is_seen,
    gap_is_seen,
    open_is_seen,
    drop_scope_is_seen,
    defer_is_seen,
    push_handler_is_seen,
    pop_handler_is_seen,
    push_loop_is_seen,
    pop_loop_is_seen,
    declare_is_seen,
    saved_defs_are_seen,
    add_params_is_seen,
    bind_params_is_seen,
    jump_to_is_seen,
}

/// What is written is what is seen.
pub proof fn what_is_seen(b: BodyView)
    ensures
        size(b) == (b.function.values.len(), b.function.blocks.len()),
        place(b) == (b.current, b.left, b.defs),
        forall|id: BlockId| #[trigger] seen(b, id) == b.function.block(id),
{
    reveal(seen);
    reveal(size);
    reveal(place);
}

/// Whether `after` is `before` with one more instruction in the block written into,
/// which does `kind` and produces `given`, of type `ty`.
pub open spec fn does(
    before: BodyView,
    after: BodyView,
    kind: InstKindView,
    given: Value,
    ty: TyView,
) -> bool {
    let was = before.function.block(before.current);
    let now = after.function.block(before.current);
    &&& after.current == before.current
    &&& after.left == before.left
    &&& after.defs == before.defs
    &&& now.insts.len() == was.insts.len() + 1
    &&& now.insts.drop_last() == was.insts
    &&& now.insts.last().kind == kind
    &&& now.insts.last().result == Some(given)
    &&& now.term == was.term
    &&& given.0 < after.function.values.len()
    &&& after.function.type_of(given) == ty
}

/// Whether `after` is `before` with one more instruction in the block written into,
/// which does `kind`.
pub open spec fn acts(before: BodyView, after: BodyView, kind: InstKindView) -> bool {
    let was = before.function.block(before.current);
    let now = after.function.block(before.current);
    &&& after.current == before.current
    &&& now.insts.len() == was.insts.len() + 1
    &&& now.insts.drop_last() == was.insts
    &&& now.insts.last().kind == kind
    &&& now.term == was.term
}

pub(crate) broadcast proof fn emit_does<'a>(
    b: BodyView<'a>,
    kind: InstKindView,
    ty: TyView,
    span: Span,
)
    requires
        b.function.values.len() < id_limit(),
        b.current.0 < b.function.blocks.len(),
    ensures
        #![trigger b.emit(kind, ty, span)]
        does(b, b.emit(kind, ty, span).0, kind, b.emit(kind, ty, span).1, ty),
        b.emit(kind, ty, span).0.function.values.len() == b.function.values.len() + 1,
        b.emit(kind, ty, span).0.function.blocks.len() == b.function.blocks.len(),
{
    reveal(BodyView::emit);
    let after = b.emit(kind, ty, span).0;
    assert(after.function.block(b.current).insts.drop_last() =~= b.function.block(
        b.current,
    ).insts);
}

pub(crate) broadcast proof fn emit_void_acts<'a>(b: BodyView<'a>, kind: InstKindView, span: Span)
    requires
        b.current.0 < b.function.blocks.len(),
    ensures
        #![trigger b.emit_void(kind, span)]
        acts(b, b.emit_void(kind, span), kind),
{
    reveal(BodyView::emit_void);
    let after = b.emit_void(kind, span);
    assert(after.function.block(b.current).insts.drop_last() =~= b.function.block(
        b.current,
    ).insts);
}

pub(crate) broadcast proof fn a_recorded_type_changes_nothing<'a>(b: BodyView<'a>, span: Span)
    ensures
        #![trigger b.recorded(span)]
        b.recorded(span).0.function == b.function,
        b.recorded(span).0.current == b.current,
        b.recorded(span).0.left == b.left,
        b.recorded(span).0.defs == b.defs,
        b.recorded(span).0.scopes == b.scopes,
        b.recorded(span).0.context == b.context,
{
    reveal(BodyView::recorded);
    reveal(BodyView::gap);
}

/// Each operator written in source that is one instruction is the instruction of its
/// name. Those that may skip an operand are not one instruction.
pub proof fn an_operator_keeps_its_meaning(op: AstBinary)
    ensures
        op is Add ==> binary_op_view(op) == Some(BinaryOp::Add),
        op is Subtract ==> binary_op_view(op) == Some(BinaryOp::Subtract),
        op is Multiply ==> binary_op_view(op) == Some(BinaryOp::Multiply),
        op is Divide ==> binary_op_view(op) == Some(BinaryOp::Divide),
        op is IntegerDivide ==> binary_op_view(op) == Some(BinaryOp::IntegerDivide),
        op is Remainder ==> binary_op_view(op) == Some(BinaryOp::Remainder),
        op is Power ==> binary_op_view(op) == Some(BinaryOp::Power),
        op is Concat ==> binary_op_view(op) == Some(BinaryOp::Concat),
        op is Equal ==> binary_op_view(op) == Some(BinaryOp::Equal),
        op is NotEqual ==> binary_op_view(op) == Some(BinaryOp::NotEqual),
        op is Less ==> binary_op_view(op) == Some(BinaryOp::Less),
        op is LessEqual ==> binary_op_view(op) == Some(BinaryOp::LessEqual),
        op is Greater ==> binary_op_view(op) == Some(BinaryOp::Greater),
        op is GreaterEqual ==> binary_op_view(op) == Some(BinaryOp::GreaterEqual),
        op is BitAnd ==> binary_op_view(op) == Some(BinaryOp::BitAnd),
        op is BitOr ==> binary_op_view(op) == Some(BinaryOp::BitOr),
        op is BitXor ==> binary_op_view(op) == Some(BinaryOp::BitXor),
        op is ShiftLeft ==> binary_op_view(op) == Some(BinaryOp::ShiftLeft),
        op is ShiftRight ==> binary_op_view(op) == Some(BinaryOp::ShiftRight),
        op is And || op is Or || op is Coalesce ==> binary_op_view(op) is None,
{
}

/// An operator that is one instruction is applied to its operands in the order they are
/// written, the left evaluated first.
pub proof fn operands_are_evaluated_from_the_left<'a>(
    b: BodyView<'a>,
    op: AstBinary,
    op_span: Span,
    left: Expr,
    right: Expr,
    span: Span,
    deeper: Deeper<'a>,
)
    requires
        binary_op_view(op) is Some,
        !is_equality_view(op) || !is_nil_view(left) && !is_nil_view(right),
        b.reached(op_span) is None || b.protocol(op) is None,
        ({
            let (asked, operand) = b.operand_type(left, right);
            let (first, _) = asked.expr(left, Some(operand), deeper);
            can_go_on(first.expr(right, Some(operand), deeper).0)
        }),
    ensures
        ({
            let (asked, operand) = b.operand_type(left, right);
            let (first, one) = asked.expr(left, Some(operand), deeper);
            let (second, other) = first.expr(right, Some(operand), deeper);
            let (after, given) = b.binary(op, op_span, left, right, span, deeper);
            does(
                second,
                after,
                InstKindView::Binary { op: binary_op_view(op)->Some_0, left: one, right: other },
                given,
                or_else_view(asked.maybe_recorded(span), operand),
            )
        }),
{
    broadcast use emit_does;

    reveal(BodyView::binary);
}

/// Comparing with `nil` asks whether an optional holds anything: `~=` is that, and `==`
/// the opposite.
pub proof fn comparing_with_nil_asks_whether_it_is_there<'a>(
    b: BodyView<'a>,
    op: AstBinary,
    value: Expr,
    span: Span,
    deeper: Deeper<'a>,
)
    requires
        can_go_on(b.expr(value, None, deeper).0),
    ensures
        ({
            let (asked, held) = b.expr(value, None, deeper);
            let (after, given) = b.nil_test(op, value, span, deeper);
            if op == AstBinary::NotEqual {
                does(asked, after, InstKindView::IsSome { value: held }, given, TyView::Bool)
            } else {
                exists|there: BodyView<'a>, some: Value|
                    #[trigger] does(
                        asked,
                        there,
                        InstKindView::IsSome { value: held },
                        some,
                        TyView::Bool,
                    ) && does(
                        there,
                        after,
                        InstKindView::Unary { op: UnaryOp::Not, operand: some },
                        given,
                        TyView::Bool,
                    )
            }
        }),
{
    broadcast use emit_does;

    reveal(BodyView::nil_test);
    let (asked, held) = b.expr(value, None, deeper);
    let (there, some) = asked.emit(InstKindView::IsSome { value: held }, TyView::Bool, span);
    assert(does(asked, there, InstKindView::IsSome { value: held }, some, TyView::Bool));
}

/// An operator that goes through a protocol calls the method of that protocol on its
/// left operand, with the right one. `~=` is the opposite of what `Eq` gives, and an
/// ordering is how what `Comparable` gives stands to nothing.
pub proof fn a_protocol_decides_for_its_operators<'a>(
    b: BodyView<'a>,
    protocol: Seq<char>,
    method: Seq<char>,
    op: AstBinary,
    left: Expr,
    right: &'a Expr,
    span: Span,
    deeper: Deeper<'a>,
)
    requires
        can_go_on(b.call(left, Some(method), given_one_view(*right), span, deeper).0),
    ensures
        ({
            let (called, held) = b.call(left, Some(method), given_one_view(*right), span, deeper);
            let (after, given) = b.through_protocol(
                protocol,
                method,
                op,
                left,
                *right,
                span,
                deeper,
            );
            if protocol == "Eq"@ {
                if op == AstBinary::NotEqual {
                    does(
                        called,
                        after,
                        InstKindView::Unary { op: UnaryOp::Not, operand: held },
                        given,
                        TyView::Bool,
                    )
                } else {
                    (after, given) == (called, held)
                }
            } else if protocol == "Comparable"@ && binary_op_view(op) is Some {
                exists|zeroed: BodyView<'a>, zero: Value|
                    #[trigger] does(
                        called,
                        zeroed,
                        InstKindView::Const(ConstView::Int(0)),
                        zero,
                        TyView::integer(),
                    ) && does(
                        zeroed,
                        after,
                        InstKindView::Binary {
                            op: binary_op_view(op)->Some_0,
                            left: held,
                            right: zero,
                        },
                        given,
                        TyView::Bool,
                    )
            } else {
                protocol != "Comparable"@ ==> (after, given) == (called, held)
            }
        }),
{
    broadcast use emit_does;

    reveal(BodyView::through_protocol);
    reveal_strlit("Eq");
    reveal_strlit("Comparable");
    assert("Eq"@.len() != "Comparable"@.len());
    let (called, held) = b.call(left, Some(method), given_one_view(*right), span, deeper);
    let (zeroed, zero) = called.emit(
        InstKindView::Const(ConstView::Int(0)),
        TyView::integer(),
        span,
    );
    assert(does(
        called,
        zeroed,
        InstKindView::Const(ConstView::Int(0)),
        zero,
        TyView::integer(),
    ));
}

/// A unary operator that goes through no protocol is the instruction of its name,
/// applied to its operand.
pub proof fn a_unary_operator_is_applied_to_its_operand<'a>(
    b: BodyView<'a>,
    op: AstUnary,
    operand: Expr,
    wanted: Option<TyView>,
    span: Span,
    deeper: Deeper<'a>,
)
    requires
        b.reached(operand.span) is None || op == AstUnary::Not,
        ({
            let (settled, ty) = if op == AstUnary::Not {
                (b, TyView::Bool)
            } else {
                b.settled_type(wanted, span)
            };
            can_go_on(settled.expr(operand, Some(ty), deeper).0)
        }),
    ensures
        ({
            let (settled, ty) = if op == AstUnary::Not {
                (b, TyView::Bool)
            } else {
                b.settled_type(wanted, span)
            };
            let (asked, held) = settled.expr(operand, Some(ty), deeper);
            let (after, given) = b.unary(op, operand, wanted, span, deeper);
            let lowered = match op {
                AstUnary::Not => UnaryOp::Not,
                AstUnary::Negate => UnaryOp::Negate,
                AstUnary::BitNot => UnaryOp::BitNot,
            };
            does(asked, after, InstKindView::Unary { op: lowered, operand: held }, given, ty)
        }),
{
    broadcast use emit_does;

    reveal(BodyView::unary);
}

/// An operator with its overflow written out is applied with the behavior it names, to
/// what it is called on and then its argument.
pub proof fn an_overflow_is_handled_as_named<'a>(
    b: BodyView<'a>,
    method: OverflowMethod,
    callee: Expr,
    args: Seq<Given<'a>>,
    span: Span,
    deeper: Deeper<'a>,
)
    requires
        binary_op_view(method.op) is Some,
        args.len() > 0,
        ({
            let (asked, result) = b.recorded(span);
            let operand = or_else_view(optional_inner_view(result), result);
            let (first, _) = asked.expr(callee, Some(operand), deeper);
            can_go_on(first.expr(*args[0].value, Some(operand), deeper).0)
        }),
    ensures
        ({
            let (asked, result) = b.recorded(span);
            let operand = or_else_view(optional_inner_view(result), result);
            let (first, left) = asked.expr(callee, Some(operand), deeper);
            let (second, right) = first.expr(*args[0].value, Some(operand), deeper);
            let (after, given) = b.overflow_method(method, callee, args, span, deeper);
            does(
                second,
                after,
                InstKindView::Overflowing {
                    mode: method.mode,
                    op: binary_op_view(method.op)->Some_0,
                    left,
                    right,
                },
                given,
                result,
            )
        }),
{
    broadcast use emit_does;

    reveal(BodyView::overflow_method);
}

/// A value of a type put where that type may be nothing is there; one put where its type
/// is asked for stays; one put where nothing is known carries what it is, and so does
/// one used through an interface, with the interface.
pub proof fn a_value_becomes_what_is_asked_for<'a>(
    b: BodyView<'a>,
    value: Value,
    wanted: TyView,
    span: Span,
)
    requires
        can_go_on(b),
    ensures
        ({
            let held = b.type_at(value);
            let (after, given) = b.coerce(value, wanted, span);
            if optional_inner_view(wanted) == Some(held) {
                does(b, after, InstKindView::MakeSome { value }, given, wanted)
            } else if held == wanted {
                (after, given) == (b, value)
            } else if wanted == TyView::Dynamic {
                does(
                    b,
                    after,
                    InstKindView::MakeDyn { interface: None, value },
                    given,
                    TyView::Dynamic,
                )
            } else {
                match b.interface_id(wanted) {
                    Some(interface) => does(
                        b,
                        after,
                        InstKindView::MakeDyn { interface: Some(interface), value },
                        given,
                        wanted,
                    ),
                    None => (after, given) == (b, value),
                }
            }
        }),
{
    broadcast use emit_does;

    reveal(BodyView::coerce);
}

/// A struct read out of a place is copied for its new holder, and nothing else is.
pub proof fn only_a_struct_read_out_of_a_place_is_copied<'a>(
    b: BodyView<'a>,
    expr: Expr,
    wanted: Option<TyView>,
    deeper: Deeper<'a>,
)
    requires
        can_go_on(b.expr(expr, wanted, deeper).0),
    ensures
        ({
            let (read, value) = b.expr(expr, wanted, deeper);
            let ty = read.type_at(value);
            let (after, given) = b.stored(expr, wanted, deeper);
            if (expr.kind is Name || expr.kind is Field || expr.kind is Index)
                && read.is_value_struct(ty) {
                does(
                    read,
                    after,
                    InstKindView::CopyValue { value, allocation: Allocation::Managed },
                    given,
                    ty,
                )
            } else {
                (after, given) == (read, value)
            }
        }),
{
    broadcast use emit_does;

    reveal(BodyView::stored);
}

/// An interpolated string joins its parts from left to right: each part is put after
/// what the parts before it came to.
pub proof fn parts_are_joined_from_the_left<'a>(
    b: BodyView<'a>,
    first: Value,
    parts: Seq<InterpolationPart>,
    span: Span,
    deeper: Deeper<'a>,
    i: nat,
)
    requires
        i < parts.len(),
        parts[i as int] is Expr,
        ({
            let before = b.interpolated(first, parts, span, deeper, i).0;
            let written = parts[i as int]->Expr_0;
            let (asked, value) = before.expr(written, None, deeper);
            can_go_on(asked.display(value, written.span).0)
        }),
    ensures
        ({
            let (before, joined) = b.interpolated(first, parts, span, deeper, i);
            let written = parts[i as int]->Expr_0;
            let (asked, value) = before.expr(written, None, deeper);
            let (shown, text) = asked.display(value, written.span);
            let (after, now) = b.interpolated(first, parts, span, deeper, i + 1);
            now matches Some(both) && does(
                shown,
                after,
                InstKindView::Binary {
                    op: BinaryOp::Concat,
                    left: match joined {
                        Some(earlier) => earlier,
                        None => first,
                    },
                    right: text,
                },
                both,
                TyView::Str,
            )
        }),
{
    broadcast use emit_does;

    reveal(BodyView::interpolated);
}

/// A compound assignment applies its operator to what the target held and then the
/// value; a plain one writes the value.
pub proof fn an_assignment_writes_its_value<'a>(
    b: BodyView<'a>,
    held: Option<Value>,
    wanted: TyView,
    op: Option<AstBinary>,
    value: Expr,
    target: Span,
    span: Span,
    deeper: Deeper<'a>,
)
    requires
        b.reached(target) is None,
        can_go_on(b.stored(value, Some(wanted), deeper).0),
    ensures
        ({
            let (stored, right) = b.stored(value, Some(wanted), deeper);
            let (after, written) = b.written_into(held, wanted, op, value, target, span, deeper);
            match (held, op) {
                (Some(left), Some(operator)) => binary_op_view(operator) is Some ==> does(
                    stored,
                    after,
                    InstKindView::Binary {
                        op: binary_op_view(operator)->Some_0,
                        left,
                        right,
                    },
                    written,
                    wanted,
                ),
                _ => (after, written) == (stored, right),
            }
        }),
{
    broadcast use emit_does;

    reveal(BodyView::written_into);
}

/// An assignment to a name makes the binding hold what is written, in its slot too where
/// it has one.
pub proof fn a_binding_holds_what_was_written<'a>(
    b: BodyView<'a>,
    var: u32,
    value: Value,
    span: Span,
)
    requires
        can_go_on(b),
    ensures
        ({
            let after = b.write_var(var, value, span);
            &&& after.defs == b.defs.insert(var, value)
            &&& after.def_of(var) == value
            &&& match b.slot_of(var) {
                Some(slot) => acts(b, after, InstKindView::SlotSet { slot, value }),
                None => after.function == b.function,
            }
        }),
{
    broadcast use {emit_void_acts, steps};

    reveal(BodyView::write_var);
    what_is_seen(b);
    let set = b.set_def(var, value);
    assert(set.function == b.function && set.current == b.current && set.slots == b.slots) by {
        reveal(BodyView::set_def);
    }
    assert(set.slot_of(var) == b.slot_of(var)) by {
        reveal(BodyView::slot_of);
    }
    let after = b.write_var(var, value, span);
    what_is_seen(after);
    assert(after.def_of(var) == value) by {
        reveal(BodyView::def_of);
    }
}

/// Writing a field writes it in the object that was evaluated before the value. A
/// compound assignment reads the field of that same object first.
pub proof fn a_field_is_written_where_it_was_read<'a>(
    b: BodyView<'a>,
    receiver: Expr,
    name: Seq<char>,
    op: Option<AstBinary>,
    value: Expr,
    target: Span,
    span: Span,
    deeper: Deeper<'a>,
)
    requires
        ({
            let (read, object) = b.expr(receiver, None, deeper);
            let (settled, object) = read.settled(object, span);
            let held = settled.type_at(object);
            &&& !settled.has_property(held, name)
            &&& settled.field_index(held, name) is Some
            &&& can_go_on(settled)
        }),
    ensures
        ({
            let (read, object) = b.expr(receiver, None, deeper);
            let (settled, object) = read.settled(object, span);
            let held = settled.type_at(object);
            let field = settled.field_index(held, name)->Some_0;
            let ty = or_else_view(settled.stored_type(held, field), TyView::Never);
            let after = b.assign_field(receiver, name, op, value, target, span, deeper);
            exists|ready: BodyView<'a>, before: Option<Value>|
                {
                    let (done, written) = #[trigger] ready.written_into(
                        before,
                        ty,
                        op,
                        value,
                        target,
                        span,
                        deeper,
                    );
                    &&& match op {
                        Some(_) => before matches Some(was) && does(
                            settled,
                            ready,
                            InstKindView::GetField { object, field },
                            was,
                            ty,
                        ),
                        None => before is None && ready == settled,
                    }
                    &&& done.current.0 < done.function.blocks.len() ==> acts(
                        done,
                        after,
                        InstKindView::SetField { object, field, value: written },
                    )
                }
        }),
{
    broadcast use {emit_does, emit_void_acts};

    reveal(BodyView::assign_field);
    let (read, object) = b.expr(receiver, None, deeper);
    let (settled, object) = read.settled(object, span);
    let held = settled.type_at(object);
    let field = settled.field_index(held, name)->Some_0;
    let ty = or_else_view(settled.stored_type(held, field), TyView::Never);
    let (ready, before) = match op {
        Some(_) => {
            let (ready, was) = settled.emit(InstKindView::GetField { object, field }, ty, span);
            (ready, Some(was))
        },
        None => (settled, None),
    };
    let (done, written) = ready.written_into(before, ty, op, value, target, span, deeper);
}

/// Writing an element writes it in the container, at the index, that were evaluated
/// before the value, the container first. A compound assignment reads that element first.
pub proof fn an_element_is_written_where_it_was_read<'a>(
    b: BodyView<'a>,
    receiver: Expr,
    index: Expr,
    op: Option<AstBinary>,
    value: Expr,
    target: Span,
    span: Span,
    deeper: Deeper<'a>,
)
    requires
        ({
            let (read, container) = b.expr(receiver, None, deeper);
            let (settled, container) = read.settled(container, span);
            let held = settled.type_at(container);
            &&& is_written_into_view(held)
            &&& element_written_view(held) is Some
            &&& can_go_on(
                settled.expr(index, index_type_view(held), deeper).0,
            )
        }),
    ensures
        ({
            let (read, container) = b.expr(receiver, None, deeper);
            let (settled, container) = read.settled(container, span);
            let held = settled.type_at(container);
            let element = element_written_view(held)->Some_0;
            let (placed, at) = settled.expr(
                index,
                index_type_view(held),
                deeper,
            );
            let after = b.assign_index(receiver, index, op, value, target, span, deeper);
            exists|ready: BodyView<'a>, before: Option<Value>|
                {
                    let (done, written) = #[trigger] ready.written_into(
                        before,
                        element,
                        op,
                        value,
                        target,
                        span,
                        deeper,
                    );
                    &&& match op {
                        Some(_) => before matches Some(was) && does(
                            placed,
                            ready,
                            InstKindView::GetIndex { receiver: container, index: at },
                            was,
                            element,
                        ),
                        None => before is None && ready == placed,
                    }
                    &&& done.current.0 < done.function.blocks.len() ==> acts(
                        done,
                        after,
                        InstKindView::SetIndex { receiver: container, index: at, value: written },
                    )
                }
        }),
{
    broadcast use {emit_does, emit_void_acts};

    reveal(BodyView::assign_index);
    let (read, container) = b.expr(receiver, None, deeper);
    let (settled, container) = read.settled(container, span);
    let held = settled.type_at(container);
    let element = element_written_view(held)->Some_0;
    let (placed, at) = settled.expr(index, index_type_view(held), deeper);
    let (ready, before) = match op {
        Some(_) => {
            let (ready, was) = placed.emit(
                InstKindView::GetIndex { receiver: container, index: at },
                element,
                span,
            );
            (ready, Some(was))
        },
        None => (placed, None),
    };
    let (done, written) = ready.written_into(before, element, op, value, target, span, deeper);
}

/// Whether the body of a branch is lowered in `inside`, and `after` is where lowering
/// goes on: where `condition`, as it was tested in the block `tested`, holds, control
/// goes to the block the body is lowered in, and where it does not, to the block that
/// lowering goes on in. Both are empty before, and the bindings hold in both what they
/// held when the condition was tested.
pub open spec fn chooses(tested: BodyView, condition: Value, inside: BodyView, after: BodyView) -> bool {
    &&& goes(inside, tested.current, condition, true) == Some(TargetView::to(inside.current))
    &&& goes(inside, tested.current, condition, false) == Some(TargetView::to(after.current))
    &&& inside.function.block(tested.current).insts == tested.function.block(tested.current).insts
    &&& inside.function.block(inside.current) == BlockView::empty()
    &&& inside.function.block(after.current) == BlockView::empty()
    &&& inside.current != after.current
    &&& !inside.left
    &&& !after.left
    &&& inside.defs == tested.defs
    &&& after.defs == tested.defs
}

/// Each condition of an `if` is tested where those before it failed, and the first that
/// holds runs its block: where the condition holds, control goes to the block that the
/// body of its branch is lowered in, and where it does not, to the block that the next
/// condition, or what is written after `else`, is lowered in. A path that reaches the end of the body
/// arrives with what the bindings hold there.
pub proof fn the_first_condition_that_holds_runs_its_block<'a>(
    b: BodyView<'a>,
    branches: Seq<Branch>,
    span: Span,
    deeper: Deeper<'a>,
    i: nat,
)
    requires
        i < branches.len(),
        ({
            let before = b.if_branches(branches, span, deeper, i).0;
            can_go_on(before.expr(branches[i as int].condition, Some(TyView::Bool), deeper).0)
        }),
    ensures
        ({
            let (before, arrived) = b.if_branches(branches, span, deeper, i);
            let (tested, condition) = before.expr(
                branches[i as int].condition,
                Some(TyView::Bool),
                deeper,
            );
            let (after, now) = b.if_branches(branches, span, deeper, i + 1);
            exists|inside: BodyView<'a>|
                {
                    let done = #[trigger] inside.block(branches[i as int].body, deeper);
                    &&& chooses(tested, condition, inside, after)
                    &&& after.function == done.function
                    &&& if done.left {
                        now == arrived
                    } else {
                        now == arrived.push(ArrivalView { block: done.current, defs: done.defs })
                    }
                }
        }),
{
    broadcast use steps;

    reveal(BodyView::if_branches);
    reveal(BodyView::branch);
    let (before, arrived) = b.if_branches(branches, span, deeper, i);
    let (tested, condition) = before.expr(
        branches[i as int].condition,
        Some(TyView::Bool),
        deeper,
    );
    what_is_seen(tested);
    let (one, then) = tested.add_block(span);
    let (two, next) = one.add_block(span);
    let branched = two.branch(condition, then, next);
    let inside = branched.switch_to(then);
    what_is_seen(inside);
    let done = inside.block(branches[i as int].body, deeper);
    let (after, now) = b.if_branches(branches, span, deeper, i + 1);
    what_is_seen(done);
    what_is_seen(after);
    assert(seen(inside, tested.current).term is Some);
    assert(after.function == done.function) by {
        reveal(BodyView::restore);
        reveal(BodyView::switch_to);
    }
    assert(done.arrival() == (ArrivalView { block: done.current, defs: done.defs })) by {
        reveal(BodyView::arrival);
    }
    assert(after.current == next);
    assert(!after.left);
    assert(after.defs == tested.defs);
    assert(seen(inside, then) == BlockView::empty());
    assert(seen(inside, next) == BlockView::empty());
    assert(goes(inside, tested.current, condition, true) == Some(TargetView::to(then)));
    assert(goes(inside, tested.current, condition, false) == Some(TargetView::to(next)));
    assert(chooses(tested, condition, inside, after));
}

/// What is written after `else` is lowered where every condition failed, and every path
/// that reaches the end of a branch, or of that, meets in one block.
pub proof fn every_branch_meets_at_the_end<'a>(
    b: BodyView<'a>,
    branches: Seq<Branch>,
    otherwise: Option<Block>,
    span: Span,
    deeper: Deeper<'a>,
)
    ensures
        ({
            let (opened, join) = b.add_block(span);
            let (failed, arrived) = opened.if_branches(branches, span, deeper, branches.len());
            let done = match otherwise {
                Some(block) => failed.block(block, deeper),
                None => failed,
            };
            let paths = if done.left {
                arrived
            } else {
                arrived.push(ArrivalView { block: done.current, defs: done.defs })
            };
            b.if_stmt(branches, otherwise, span, deeper) == done.join(paths, join, span)
        }),
{
    reveal(BodyView::if_stmt);
    reveal(BodyView::arrival);
}

/// Each condition of an `if` expression is tested where those before it failed, and the
/// first that holds gives its value: where the condition holds, control goes to the
/// block its value is lowered in, and where it does not, to the block that the next
/// condition, or the last value, is lowered in. The value arrives with its path.
pub proof fn the_first_condition_that_holds_gives_its_value<'a>(
    b: BodyView<'a>,
    branches: Seq<IfBranch>,
    ty: TyView,
    span: Span,
    deeper: Deeper<'a>,
    i: nat,
)
    requires
        i < branches.len(),
        ({
            let before = b.if_values(branches, ty, span, deeper, i).0;
            can_go_on(before.expr(branches[i as int].condition, Some(TyView::Bool), deeper).0)
        }),
    ensures
        ({
            let (before, arrived) = b.if_values(branches, ty, span, deeper, i);
            let (tested, condition) = before.expr(
                branches[i as int].condition,
                Some(TyView::Bool),
                deeper,
            );
            let (after, now) = b.if_values(branches, ty, span, deeper, i + 1);
            exists|inside: BodyView<'a>|
                {
                    let (done, value) = #[trigger] inside.expr(
                        branches[i as int].value,
                        Some(ty),
                        deeper,
                    );
                    &&& chooses(tested, condition, inside, after)
                    &&& after.function == done.function
                    &&& if done.left {
                        now == arrived
                    } else {
                        &&& now.arrivals == arrived.arrivals.push(
                            ArrivalView { block: done.current, defs: done.defs },
                        )
                        &&& now.values == arrived.values.push(value)
                    }
                }
        }),
{
    broadcast use steps;

    reveal(BodyView::if_values);
    reveal(BodyView::branch);
    let (before, arrived) = b.if_values(branches, ty, span, deeper, i);
    let (tested, condition) = before.expr(
        branches[i as int].condition,
        Some(TyView::Bool),
        deeper,
    );
    what_is_seen(tested);
    let (one, then) = tested.add_block(span);
    let (two, next) = one.add_block(span);
    let inside = two.branch(condition, then, next).switch_to(then);
    what_is_seen(inside);
    let (done, value) = inside.expr(branches[i as int].value, Some(ty), deeper);
    let (after, now) = b.if_values(branches, ty, span, deeper, i + 1);
    what_is_seen(done);
    what_is_seen(after);
    assert(seen(inside, tested.current).term is Some);
    assert(after.function == done.function) by {
        reveal(BodyView::restore);
        reveal(BodyView::switch_to);
    }
    assert(done.arrival() == (ArrivalView { block: done.current, defs: done.defs })) by {
        reveal(BodyView::arrival);
    }
    assert(after.current == next && !after.left && after.defs == tested.defs);
    assert(seen(inside, then) == BlockView::empty());
    assert(seen(inside, next) == BlockView::empty());
    assert(goes(inside, tested.current, condition, true) == Some(TargetView::to(then)));
    assert(goes(inside, tested.current, condition, false) == Some(TargetView::to(next)));
    assert(chooses(tested, condition, inside, after));
}

/// `and` asks its right operand only where the left is true, and is false otherwise;
/// `or` asks it only where the left is false, and is true otherwise.
pub proof fn a_logical_operator_asks_its_right_operand_only_where_it_has_to<'a>(
    b: BodyView<'a>,
    all: bool,
    left: Expr,
    right: Expr,
    span: Span,
    deeper: Deeper<'a>,
)
    requires
        can_go_on(b.expr(left, Some(TyView::Bool), deeper).0),
    ensures
        ({
            let (tested, asked) = b.expr(left, Some(TyView::Bool), deeper);
            let (after, given) = b.logical(all, left, right, span, deeper);
            exists|inside: BodyView<'a>|
                {
                    let (done, answer) = #[trigger] inside.expr(right, Some(TyView::Bool), deeper);
                    let (settles, settled) = last(inside, tested.current);
                    let join = after.current;
                    &&& goes(inside, tested.current, asked, all) == Some(
                        TargetView::to(inside.current),
                    )
                    &&& goes(inside, tested.current, asked, !all) == Some(
                        TargetView { block: join, args: seq![settled] },
                    )
                    &&& settles == InstKindView::Const(ConstView::Bool(!all))
                    &&& inside.function.block(inside.current) == BlockView::empty()
                    &&& inside.current != join
                    &&& !inside.left
                    &&& can_go_on(done) && done.function.block(join) == BlockView::empty()
                        && join.0 < done.function.blocks.len() && done.current != join ==> {
                        &&& goes_on_to(after, done.current) == Some(
                            TargetView { block: join, args: seq![answer] },
                        )
                        &&& after.function.block(join).params == seq![given]
                        &&& after.function.block(join).insts.len() == 0
                        &&& after.function.block(join).term is None
                    }
                }
        }),
{
    broadcast use steps;

    reveal(BodyView::logical);
    reveal(BodyView::jump_with);
    let (tested, asked) = b.expr(left, Some(TyView::Bool), deeper);
    what_is_seen(tested);
    let (one, rest) = tested.add_block(span);
    let (two, join) = one.add_block(span);
    let (three, settled) = two.emit(
        InstKindView::Const(ConstView::Bool(!all)),
        TyView::Bool,
        span,
    );
    assert(seen(three, tested.current).term is None);
    let ended = if all {
        three.terminate(
            TerminatorView::Branch {
                condition: asked,
                then: TargetView::to(rest),
                otherwise: target_view(join, seq1(settled)),
            },
        )
    } else {
        three.terminate(
            TerminatorView::Branch {
                condition: asked,
                then: target_view(join, seq1(settled)),
                otherwise: TargetView::to(rest),
            },
        )
    };
    let inside = ended.switch_to(rest);
    what_is_seen(inside);
    assert(seen(inside, tested.current).term is Some);
    assert(seen(inside, tested.current).insts.last().kind == InstKindView::Const(
        ConstView::Bool(!all),
    ));
    assert(seen(inside, rest) == BlockView::empty());
    let (done, answer) = inside.expr(right, Some(TyView::Bool), deeper);
    what_is_seen(done);
    let (after, given) = b.logical(all, left, right, span, deeper);
    what_is_seen(after);
    let jumped = done.jump_with(join, answer);
    let switched = jumped.switch_to(join);
    what_is_seen(switched);
    assert(after == switched.add_block_param(join, TyView::Bool, span).0);
    assert(after.current == join) by {
        reveal(BodyView::switch_to);
        reveal(BodyView::add_block_param);
        reveal(BodyView::gap);
    }
    if can_go_on(done) && done.function.block(join) == BlockView::empty() && join.0
        < done.function.blocks.len() && done.current != join {
        assert(seen(done, join) == BlockView::empty());
        assert(seen(after, done.current).term == Some(
            TerminatorView::Jump(target_view(join, seq1(answer))),
        ));
        assert(seen(after, join).params =~= seq![given]);
    }
}

/// Whether lowering of what runs again and again starts in `entered`: the block lowered
/// so far goes there, and passes for each carried binding what it holds.
pub open spec fn enters_loop(b: BodyView, entered: BodyView, carried: Seq<u32>) -> bool {
    &&& goes_on_to(entered, b.current) == Some(
        TargetView { block: entered.current, args: b.defs_of(carried) },
    )
    &&& entered.function.block(entered.current).insts.len() == 0
    &&& entered.function.block(entered.current).term is None
    &&& entered.function.block(entered.current).params.len() == carried.len()
    &&& !entered.left
}

/// A `while` tests its condition before each pass. Where it holds, the body runs, and
/// goes back to the test; where it does not, control goes to what follows the loop.
/// `continue` goes to the test too, and `break` to what follows.
pub proof fn a_while_tests_before_each_pass<'a>(
    b: BodyView<'a>,
    label: Option<Seq<char>>,
    condition: Expr,
    body: Block,
    span: Span,
    deeper: Deeper<'a>,
)
    requires
        can_go_on(b),
        b.function.values.len() + b.carried(body).len() + 64 < id_limit(),
    ensures
        ({
            let carried = b.carried(body);
            let after = b.while_stmt(label, condition, body, span, deeper);
            exists|entered: BodyView<'a>|
                {
                    let (tested, asked) = #[trigger] entered.expr(
                        condition,
                        Some(TyView::Bool),
                        deeper,
                    );
                    &&& enters_loop(b, entered, carried)
                    &&& can_go_on(tested) && tested.function.values.len() + carried.len() + 64
                        < id_limit() ==> exists|inside: BodyView<'a>|
                        {
                            let done = #[trigger] inside.block(body, deeper);
                            &&& goes(inside, tested.current, asked, true) == Some(
                                TargetView::to(inside.current),
                            )
                            &&& goes(inside, tested.current, asked, false) == Some(
                                TargetView { block: after.current, args: tested.defs_of(carried) },
                            )
                            &&& inside.function.block(inside.current) == BlockView::empty()
                            &&& inside.current != after.current
                            &&& inside.defs == entered.defs
                            &&& !inside.left
                            &&& inside.loops.len() > 0
                            &&& inside.loops.last().again == Some(entered.current)
                            &&& inside.loops.last().exit == after.current
                            &&& inside.loops.last().carried == carried
                            &&& can_go_on(done) && !done.left ==> goes_on_to(after, done.current)
                                == Some(
                                TargetView { block: entered.current, args: done.defs_of(carried) },
                            )
                        }
                }
        }),
{
    broadcast use steps;

    reveal(BodyView::while_stmt);
    what_is_seen(b);
    let carried = b.carried(body);
    let (opened, header) = b.add_block(span);
    assert(opened.defs_of(carried) == b.defs_of(carried)) by {
        reveal(BodyView::add_block);
        same_bindings(opened, b, carried);
    }
    let jumped = opened.jump_to(header, carried);
    let named = jumped.switch_to(header).add_params(header, carried, span, carried.len());
    let entered = named.bind_params(header, carried);
    what_is_seen(entered);
    assert(seen(entered, b.current).term == Some(
        TerminatorView::Jump(TargetView { block: header, args: b.defs_of(carried) }),
    ));
    assert(seen(entered, header).insts =~= Seq::empty());
    let (tested, asked) = entered.expr(condition, Some(TyView::Bool), deeper);
    what_is_seen(tested);
    let after = b.while_stmt(label, condition, body, span, deeper);
    what_is_seen(after);
    let (one, inner) = tested.add_block(span);
    let (two, exit) = one.add_block(span);
    assert(two.defs_of(carried) == tested.defs_of(carried)) by {
        reveal(BodyView::add_block);
        reveal(BodyView::gap);
        same_bindings(two, tested, carried);
    }
    let three = two.add_params(exit, carried, span, carried.len());
    let ended = three.terminate(
        TerminatorView::Branch {
            condition: asked,
            then: TargetView::to(inner),
            otherwise: target_view(exit, tested.defs_of(carried)),
        },
    );
    let restored = ended.switch_to(inner).restore(entered.saved_defs());
    let inside = restored.push_loop(
        LoopView { label, again: Some(header), exit, carried, depth: restored.depth() },
    );
    what_is_seen(inside);
    let done = inside.block(body, deeper);
    what_is_seen(done);
    let passed = if !done.left {
        done.jump_to(header, carried)
    } else {
        done
    };
    let left = passed.pop_loop().switch_to(exit).restore(entered.saved_defs());
    assert(after == left.bind_params(exit, carried)) by {
        assert(ended.switch_to(inner).restore(entered.saved_defs()) == restored);
    }
    assert(after.current == exit);
    if can_go_on(tested) && tested.function.values.len() + carried.len() + 64 < id_limit() {
        assert(inside.loops.last().again == Some(header)) by {
            reveal(BodyView::push_loop);
        }
        assert(inside.loops.last().exit == exit) by {
            reveal(BodyView::push_loop);
        }
        assert(inside.loops.last().carried == carried && inside.loops.len() > 0) by {
            reveal(BodyView::push_loop);
        }
        assert(seen(inside, tested.current).term is Some);
        assert(seen(inside, inner) == BlockView::empty());
        assert(goes(inside, tested.current, asked, true) == Some(TargetView::to(inner)));
        if can_go_on(done) && !done.left {
            assert(seen(after, done.current).term == Some(
                TerminatorView::Jump(
                    TargetView { block: header, args: done.defs_of(carried) },
                ),
            ));
        }
    }
}

pub(crate) proof fn same_bindings<'a>(a: BodyView<'a>, b: BodyView<'a>, vars: Seq<u32>)
    requires
        a.defs == b.defs,
    ensures
        a.defs_of(vars) == b.defs_of(vars),
{
    reveal(BodyView::defs_of);
    reveal(BodyView::def_of);
    assert(a.defs_of(vars) =~= b.defs_of(vars));
}

/// A `repeat` runs its body before it tests: what comes before goes to the body, and at
/// its end the condition, once what the body deferred ran, decides. Where it holds,
/// control goes to what follows the loop; where it does not, back to the body.
pub proof fn a_repeat_tests_after_each_pass<'a>(
    b: BodyView<'a>,
    label: Option<Seq<char>>,
    body: Block,
    until: Expr,
    span: Span,
    deeper: Deeper<'a>,
)
    requires
        can_go_on(b),
        b.function.values.len() + b.carried(body).len() + 64 < id_limit(),
    ensures
        ({
            let carried = b.carried(body);
            let after = b.repeat_stmt(label, body, until, span, deeper);
            exists|entered: BodyView<'a>|
                {
                    let done = #[trigger] entered.stmts(body.stmts@, span, deeper);
                    let (asked, condition) = done.expr(until, Some(TyView::Bool), deeper);
                    let tested = asked.unwind(b.depth(), deeper);
                    &&& enters_loop(b, entered, carried)
                    &&& entered.loops.len() > 0
                    &&& entered.loops.last().again is None
                    &&& entered.loops.last().exit == after.current
                    &&& entered.loops.last().carried == carried
                    &&& entered.loops.last().depth == b.depth()
                    &&& !done.left && can_go_on(tested) && tested.function.values.len()
                        + carried.len() + 64 < id_limit() && after.current.0
                        < tested.function.blocks.len() && tested.current != after.current ==> {
                        &&& goes(after, tested.current, condition, true) == Some(
                            TargetView { block: after.current, args: tested.defs_of(carried) },
                        )
                        &&& goes(after, tested.current, condition, false) == Some(
                            TargetView { block: entered.current, args: tested.defs_of(carried) },
                        )
                    }
                }
        }),
{
    broadcast use steps;

    reveal(BodyView::repeat_stmt);
    what_is_seen(b);
    let carried = b.carried(body);
    let (opened, inside) = b.add_block(span);
    assert(opened.defs_of(carried) == b.defs_of(carried)) by {
        reveal(BodyView::add_block);
        same_bindings(opened, b, carried);
    }
    let (two, exit) = opened.jump_to(inside, carried).add_block(span);
    let named = two.add_params(inside, carried, span, carried.len());
    let bound = named.switch_to(inside).bind_params(inside, carried);
    let scoped = bound.open();
    assert(bound.depth() == b.depth()) by {
        same_depth_after_params(two, inside, carried, span, carried.len());
        same_depth_after_binding(named.switch_to(inside), inside, carried);
        reveal(BodyView::depth);
        reveal(BodyView::add_block);
        reveal(BodyView::jump_to);
        reveal(BodyView::terminate);
        reveal(BodyView::switch_to);
    }
    let entered = scoped.push_loop(
        LoopView { label, again: None, exit, carried, depth: bound.depth() },
    );
    what_is_seen(entered);
    assert(seen(entered, b.current).term == Some(
        TerminatorView::Jump(TargetView { block: inside, args: b.defs_of(carried) }),
    ));
    assert(seen(entered, inside).insts =~= Seq::empty());
    assert(entered.loops.len() > 0 && entered.loops.last() == (LoopView {
        label,
        again: None,
        exit,
        carried,
        depth: bound.depth(),
    })) by {
        reveal(BodyView::push_loop);
    }
    let done = entered.stmts(body.stmts@, span, deeper);
    let (asked, condition) = done.expr(until, Some(TyView::Bool), deeper);
    let tested = asked.unwind(bound.depth(), deeper);
    what_is_seen(tested);
    let after = b.repeat_stmt(label, body, until, span, deeper);
    what_is_seen(after);
    let ended = if !done.left {
        tested.add_params(exit, carried, span, carried.len()).terminate(
            TerminatorView::Branch {
                condition,
                then: target_view(exit, tested.defs_of(carried)),
                otherwise: target_view(inside, tested.defs_of(carried)),
            },
        )
    } else {
        done.add_params(exit, carried, span, carried.len())
    };
    let left = ended.pop_loop().drop_scope().switch_to(exit).restore(bound.saved_defs());
    assert(after == left.bind_params(exit, carried));
    assert(after.current == exit);
    if !done.left && can_go_on(tested) && tested.function.values.len() + carried.len() + 64
        < id_limit() && exit.0 < tested.function.blocks.len() && tested.current != exit {
        assert(seen(after, tested.current).term is Some);
        assert(goes(after, tested.current, condition, true) == Some(
            TargetView { block: exit, args: tested.defs_of(carried) },
        ));
    }
}

proof fn same_depth_after_params<'a>(
    b: BodyView<'a>,
    block: BlockId,
    carried: Seq<u32>,
    span: Span,
    count: nat,
)
    ensures
        b.add_params(block, carried, span, count).scopes == b.scopes,
    decreases count,
{
    reveal(BodyView::add_params);
    reveal(BodyView::add_block_param);
    reveal(BodyView::gap);
    if count > 0 {
        same_depth_after_params(b, block, carried, span, (count - 1) as nat);
    }
}

proof fn same_depth_after_binding<'a>(b: BodyView<'a>, block: BlockId, carried: Seq<u32>)
    ensures
        b.bind_params(block, carried).scopes == b.scopes,
{
    reveal(BodyView::bind_params);
    same_depth_after_setting(b, carried, b.params_of(block), carried.len());
}

proof fn same_depth_after_setting<'a>(
    b: BodyView<'a>,
    carried: Seq<u32>,
    values: Seq<Value>,
    count: nat,
)
    ensures
        b.set_defs(carried, values, count).scopes == b.scopes,
    decreases count,
{
    reveal(BodyView::set_defs);
    reveal(BodyView::set_def);
    if count > 0 {
        same_depth_after_setting(b, carried, values, (count - 1) as nat);
    }
}

/// A test goes on where it holds, in a block of its own, and leaves for `fail` where it
/// does not.
pub proof fn a_test_leaves_where_it_fails<'a>(b: BodyView<'a>, test: Value, fail: BlockId, span: Span)
    requires
        can_go_on(b),
    ensures
        ({
            let after = b.check(test, fail, span);
            &&& goes(after, b.current, test, true) == Some(TargetView::to(after.current))
            &&& goes(after, b.current, test, false) == Some(TargetView::to(fail))
            &&& after.function.block(after.current) == BlockView::empty()
            &&& after.current != b.current
            &&& !after.left
            &&& after.defs == b.defs
        }),
{
    broadcast use steps;

    reveal(BodyView::check);
    reveal(BodyView::branch);
    what_is_seen(b);
    let after = b.check(test, fail, span);
    what_is_seen(after);
    assert(seen(after, b.current).term is Some);
    assert(seen(after, after.current) == BlockView::empty());
}

/// Whether a value holds a variant is whether its tag is that of the variant.
pub proof fn a_variant_is_told_by_its_tag<'a>(b: BodyView<'a>, subject: Value, tag: u32, span: Span)
    requires
        can_go_on(b),
    ensures
        ({
            let (after, test) = b.tag_test(subject, tag, span);
            let before = b.function.block(b.current).insts.len() as int;
            let insts = after.function.block(b.current).insts;
            &&& insts.len() == before + 3
            &&& insts[before].kind == (InstKindView::GetTag { value: subject })
            &&& insts[before + 1].kind == InstKindView::Const(ConstView::Int(tag as u64))
            &&& insts[before + 2].kind == (InstKindView::Binary {
                op: BinaryOp::Equal,
                left: insts[before].result->Some_0,
                right: insts[before + 1].result->Some_0,
            })
            &&& insts[before + 2].result == Some(test)
            &&& after.current == b.current
            &&& after.function.block(b.current).term is None
        }),
{
    broadcast use steps;

    reveal(BodyView::tag_test);
    what_is_seen(b);
    what_is_seen(b.tag_test(subject, tag, span).0);
    assert(seen(b.tag_test(subject, tag, span).0, b.current).term is None);
}

/// A guard is asked once the pattern of its case matched, with what that bound. Where it
/// holds, what the case runs is lowered; where it does not, control goes to where the
/// next case is tried.
pub proof fn a_guard_is_asked_once_the_pattern_matched<'a>(
    b: BodyView<'a>,
    subject: Value,
    arm: MatchArm,
    next: BlockId,
    span: Span,
    deeper: Deeper<'a>,
)
    requires
        can_go_on(b.test(subject, arm.pattern, next, deeper)),
    ensures
        ({
            let matched = b.test(subject, arm.pattern, next, deeper);
            let after = b.arm(subject, arm, next, span, deeper);
            match arm.guard {
                Some(guard) => exists|ready: BodyView<'a>|
                    {
                        let (asked, condition) = #[trigger] ready.expr(
                            guard,
                            Some(TyView::Bool),
                            deeper,
                        );
                        &&& ready.current == matched.current
                        &&& ready.defs == matched.defs
                        &&& ready.scopes == matched.scopes
                        &&& ready.function.block(ready.current) == matched.function.block(
                            matched.current,
                        )
                        &&& can_go_on(asked) && after.current.0 < asked.function.blocks.len() ==> {
                            &&& goes(after, asked.current, condition, true) == Some(
                                TargetView::to(after.current),
                            )
                            &&& goes(after, asked.current, condition, false) == Some(
                                TargetView::to(next),
                            )
                            &&& after.defs == asked.defs
                        }
                        &&& !after.left
                    },
                None => after == matched,
            }
        }),
{
    broadcast use steps;

    reveal(BodyView::arm);
    reveal(BodyView::branch);
    let matched = b.test(subject, arm.pattern, next, deeper);
    what_is_seen(matched);
    let after = b.arm(subject, arm, next, span, deeper);
    what_is_seen(after);
    if let Some(guard) = arm.guard {
        let (ready, body) = matched.add_block(span);
        what_is_seen(ready);
        assert(ready.scopes == matched.scopes) by {
            reveal(BodyView::add_block);
        }
        assert(seen(ready, matched.current) == seen(matched, matched.current));
        let (asked, condition) = ready.expr(guard, Some(TyView::Bool), deeper);
        what_is_seen(asked);
        if can_go_on(asked) && body.0 < asked.function.blocks.len() {
            assert(seen(after, asked.current).term is Some);
        }
    }
}

/// Each case is tried where the one before it did not hold, with the bindings as they
/// were before any: what does not match leaves for the block that the next case is tried
/// in.
pub proof fn a_case_is_tried_where_the_one_before_failed<'a>(
    b: BodyView<'a>,
    subject: Value,
    arms: Seq<MatchArm>,
    entering: Map<u32, Value>,
    span: Span,
    deeper: Deeper<'a>,
    i: nat,
)
    requires
        i < arms.len(),
        can_go_on(b.match_arms(subject, arms, entering, span, deeper, i).0),
    ensures
        ({
            let (before, arrived) = b.match_arms(subject, arms, entering, span, deeper, i);
            let (after, now) = b.match_arms(subject, arms, entering, span, deeper, i + 1);
            exists|tried: BodyView<'a>|
                {
                    let held = #[trigger] tried.arm(
                        subject,
                        arms[i as int],
                        after.current,
                        span,
                        deeper,
                    );
                    let done = match arms[i as int].body {
                        ArmBody::Block(body) => held.block(body, deeper),
                        ArmBody::Expr(value) => held.expr(value, None, deeper).0,
                    };
                    &&& tried.current == before.current
                    &&& tried.defs == before.defs
                    &&& tried.function.block(before.current) == before.function.block(
                        before.current,
                    )
                    &&& tried.function.block(after.current) == BlockView::empty()
                    &&& after.current != before.current
                    &&& after.defs == entering
                    &&& !after.left
                    &&& if done.left {
                        now == arrived
                    } else {
                        now == arrived.push(ArrivalView { block: done.current, defs: done.defs })
                    }
                }
        }),
{
    broadcast use steps;

    reveal(BodyView::match_arms);
    reveal(BodyView::arrival);
    let (before, arrived) = b.match_arms(subject, arms, entering, span, deeper, i);
    what_is_seen(before);
    let (after, now) = b.match_arms(subject, arms, entering, span, deeper, i + 1);
    what_is_seen(after);
    let (opened, next) = before.add_block(span);
    let tried = opened.open();
    what_is_seen(tried);
    assert(after.current == next);
    assert(seen(tried, next) == BlockView::empty());
    assert(seen(tried, before.current) == seen(before, before.current));
    let held = tried.arm(subject, arms[i as int], next, span, deeper);
}

/// A call that may have thrown is asked which happened. Where it threw, what was thrown is
/// read and sent on outward, in a block of its own; where it came back, what it returned
/// is read, and lowering goes on.
pub proof fn what_was_thrown_is_sent_on<'a>(
    b: BodyView<'a>,
    outcome: Value,
    result: TyView,
    span: Span,
    deeper: Deeper<'a>,
)
    requires
        can_go_on(b),
    ensures
        ({
            let (after, given) = b.caught_or_raised(outcome, result, span, deeper);
            exists|threw: BodyView<'a>, thrown: Value|
                {
                    let sent = #[trigger] threw.raise(thrown, span, deeper);
                    let (tests, test) = last(threw, b.current);
                    &&& tests is Binary
                    &&& goes(threw, b.current, test, true) == Some(TargetView::to(threw.current))
                    &&& goes(threw, b.current, test, false) == Some(TargetView::to(after.current))
                    &&& threw.function.block(threw.current).insts.len() == 1
                    &&& last(threw, threw.current) == (
                        InstKindView::GetPayload { value: outcome, variant: 1, field: 0 },
                        thrown,
                    )
                    &&& after.current != threw.current
                    &&& sent.function.values.len() < id_limit() && after.current.0
                        < sent.function.blocks.len() ==> last(after, after.current) == (
                        InstKindView::GetPayload { value: outcome, variant: 0, field: 0 },
                        given,
                    )
                    &&& !after.left
                }
        }),
{
    broadcast use steps;

    reveal(BodyView::caught_or_raised);
    reveal(BodyView::branch);
    reveal(BodyView::payload);
    what_is_seen(b);
    let (asked, test) = b.tag_test(outcome, 1, span);
    a_variant_is_told_by_its_tag(b, outcome, 1, span);
    assert(place(asked) == place(b) && size(asked) == (size(b).0 + 3, size(b).1)) by {
        reveal(BodyView::tag_test);
    }
    what_is_seen(asked);
    let (one, unwinding) = asked.add_block(span);
    let (two, back) = one.add_block(span);
    let split = two.branch(test, unwinding, back).switch_to(unwinding);
    let (threw, thrown) = split.payload(outcome, 1, TyView::Dynamic, span);
    what_is_seen(threw);
    assert(seen(threw, b.current).insts == seen(asked, b.current).insts);
    assert(seen(threw, b.current).term is Some);
    assert(seen(threw, unwinding).insts.len() == 1);
    let sent = threw.raise(thrown, span, deeper);
    what_is_seen(sent);
    let (after, given) = b.caught_or_raised(outcome, result, span, deeper);
    what_is_seen(after);
    assert(after.current == back) by {
        reveal(BodyView::switch_to);
        reveal(BodyView::emit);
        reveal(BodyView::gap);
    }
    assert(!after.left) by {
        reveal(BodyView::switch_to);
        reveal(BodyView::emit);
        reveal(BodyView::gap);
    }
    if sent.function.values.len() < id_limit() && back.0 < sent.function.blocks.len() {
        let kind = InstKindView::GetPayload { value: outcome, variant: 0, field: 0 };
        let switched = sent.switch_to(back);
        assert((after, given) == switched.emit(kind, result, span));
        assert(seen(after, back).insts.last().kind == kind);
    }
}

/// What is thrown goes to the innermost `try` around it, once what the scopes inside that
/// deferred has run, with what is thrown first and then each binding the `try` carries.
/// Where there is none, it leaves the function as its error half, once what every scope
/// deferred has run.
pub proof fn what_is_thrown_goes_outward<'a>(
    b: BodyView<'a>,
    thrown: Value,
    span: Span,
    deeper: Deeper<'a>,
)
    ensures
        ({
            let after = b.raise(thrown, span, deeper);
            if b.handlers.len() > 0 {
                let handler = b.handlers.last();
                let unwound = b.unwind_from(handler.frame, deeper);
                can_go_on(unwound) ==> goes_on_to(after, unwound.current) == Some(
                    TargetView {
                        block: handler.block,
                        args: seq![thrown] + unwound.defs_of(handler.carried),
                    },
                ) && after.left
            } else {
                let unwound = b.unwind_from(0, deeper);
                b.throws && can_go_on(unwound) ==> {
                    let ended = after.function.block(unwound.current);
                    &&& ended.insts.last().kind == (InstKindView::MakeEnum {
                        ty: unwound.function.result,
                        variant: 1,
                        payload: seq![thrown],
                    })
                    &&& ended.term == Some(
                        TerminatorView::Return(ended.insts.last().result->Some_0),
                    )
                    &&& after.left
                }
            }
        }),
{
    broadcast use steps;

    reveal(BodyView::raise);
    reveal(BodyView::handler);
    reveal(BodyView::variant_with);
    let after = b.raise(thrown, span, deeper);
    what_is_seen(after);
    if b.handlers.len() > 0 {
        let handler = b.handlers.last();
        let unwound = b.unwind_from(handler.frame, deeper);
        what_is_seen(unwound);
        let carried = unwound.defs_of(handler.carried);
        assert(ahead_view(thrown, carried) =~= seq![thrown] + carried);
        if can_go_on(unwound) {
            assert(seen(after, unwound.current).term is Some);
        }
    } else {
        let unwound = b.unwind_from(0, deeper);
        what_is_seen(unwound);
        if b.throws && can_go_on(unwound) {
            assert(seen(after, unwound.current).term is Some);
        }
    }
}

/// A `return` gives back what is written after it, worked out before what the scopes of
/// the function deferred runs. Where an exception can escape the function, it gives back
/// that as its returned half.
pub proof fn a_return_gives_back_its_value<'a>(
    b: BodyView<'a>,
    value: &'a Expr,
    span: Span,
    deeper: Deeper<'a>,
)
    requires
        can_go_on(b.stored(*value, Some(b.declared), deeper).0.unwind_from(0, deeper)),
    ensures
        ({
            let (stored, given) = b.stored(*value, Some(b.declared), deeper);
            let unwound = stored.unwind_from(0, deeper);
            let after = b.ret(Some(value), span, deeper);
            let ended = after.function.block(unwound.current);
            &&& after.left
            &&& if unwound.throws {
                &&& ended.insts.last().kind == (InstKindView::MakeEnum {
                    ty: unwound.function.result,
                    variant: 0,
                    payload: seq![given],
                })
                &&& ended.term == Some(TerminatorView::Return(ended.insts.last().result->Some_0))
            } else {
                &&& ended.insts == unwound.function.block(unwound.current).insts
                &&& ended.term == Some(TerminatorView::Return(given))
            }
        }),
{
    broadcast use steps;

    reveal(BodyView::ret);
    reveal(BodyView::returned);
    let (stored, given) = b.stored(*value, Some(b.declared), deeper);
    let unwound = stored.unwind_from(0, deeper);
    what_is_seen(unwound);
    let after = b.ret(Some(value), span, deeper);
    what_is_seen(after);
    assert(seen(after, unwound.current).term is Some);
}

/// `break` goes to what follows the loop it leaves, and `continue` to where its next pass
/// starts, once what the scopes inside the loop deferred has run, with what each binding
/// the loop carries then holds.
pub proof fn leaving_a_loop_goes_where_the_loop_says<'a>(
    b: BodyView<'a>,
    label: Option<Seq<char>>,
    continues: bool,
    span: Span,
    deeper: Deeper<'a>,
)
    requires
        b.find_loop(label) is Some,
        can_go_on(b.unwind_from(b.find_loop(label)->Some_0.depth, deeper)),
    ensures
        ({
            let found = b.find_loop(label)->Some_0;
            let unwound = b.unwind_from(found.depth, deeper);
            let after = b.leave(label, continues, span, deeper);
            &&& !continues ==> goes_on_to(after, unwound.current) == Some(
                TargetView { block: found.exit, args: unwound.defs_of(found.carried) },
            )
            &&& continues ==> (found.again matches Some(again) ==> goes_on_to(
                after,
                unwound.current,
            ) == Some(TargetView { block: again, args: unwound.defs_of(found.carried) }))
        }),
{
    broadcast use steps;

    reveal(BodyView::leave);
    let found = b.find_loop(label)->Some_0;
    let unwound = b.unwind_from(found.depth, deeper);
    what_is_seen(unwound);
    let after = b.leave(label, continues, span, deeper);
    what_is_seen(after);
    if !continues || found.again is Some {
        assert(seen(after, unwound.current).term is Some);
    }
}

/// The innermost loop is the one left where no label is written, and otherwise the
/// innermost that carries the label.
pub proof fn the_innermost_loop_is_left<'a>(b: BodyView<'a>, label: Option<Seq<char>>)
    ensures
        match b.find_loop(label) {
            Some(found) => exists|i: int|
                0 <= i < b.loops.len() && #[trigger] b.loops[i] == found && (label is Some
                    ==> found.label == label) && forall|j: int|
                    i < j < b.loops.len() ==> label is Some && (#[trigger] b.loops[j]).label
                        != label,
            None => forall|j: int|
                0 <= j < b.loops.len() ==> label is Some && (#[trigger] b.loops[j]).label != label,
        },
{
    reveal(BodyView::find_loop);
    the_innermost_is_found(b.loops, label, b.loops.len());
}

proof fn the_innermost_is_found(loops: Seq<LoopView>, label: Option<Seq<char>>, count: nat)
    requires
        count <= loops.len(),
    ensures
        match super::loop_among(loops, label, count) {
            Some(found) => exists|i: int|
                0 <= i < count && #[trigger] loops[i] == found && (label is Some ==> found.label
                    == label) && forall|j: int|
                    i < j < count ==> label is Some && (#[trigger] loops[j]).label != label,
            None => forall|j: int|
                0 <= j < count ==> label is Some && (#[trigger] loops[j]).label != label,
        },
    decreases count,
{
    if count > 0 {
        the_innermost_is_found(loops, label, (count - 1) as nat);
        if label is None || loops[count - 1].label == label {
            assert(loops[count - 1] == loops[count - 1]);
        }
    }
}

proof fn the_named_parameter_is_found(reached: CalleeView, name: Seq<char>, from: nat)
    requires
        reached.params.len() <= usize::MAX,
    ensures
        match parameter_from(reached, name, from) {
            Some(at) => from <= at < reached.params.len() && reached.params[at as int].name@ == name
                && forall|j: int|
                from <= j < at ==> (#[trigger] reached.params[j]).name@ != name,
            None => forall|j: int|
                from <= j < reached.params.len() ==> (#[trigger] reached.params[j]).name@ != name,
        },
    decreases reached.params.len() - from,
{
    if from < reached.params.len() && reached.params[from as int].name@ != name {
        the_named_parameter_is_found(reached, name, from + 1);
    }
}

proof fn none_is_variadic(reached: CalleeView, from: nat)
    requires
        forall|j: int| 0 <= j < reached.params.len() ==> !(#[trigger] reached.params[j]).variadic,
    ensures
        variadic_from(reached, from) is None,
    decreases reached.params.len() - from,
{
    if from < reached.params.len() {
        none_is_variadic(reached, from + 1);
    }
}

proof fn each_is_in_its_position(args: Seq<Given>, count: nat)
    requires
        count <= args.len(),
        forall|j: int| 0 <= j < args.len() ==> (#[trigger] args[j]).name is None,
    ensures
        positional(args, count) == count,
    decreases count,
{
    if count > 0 {
        each_is_in_its_position(args, (count - 1) as nat);
    }
}

/// An argument that names a parameter fills the first of that name, and nothing where
/// there is none. Where no argument names one and no parameter takes the rest, each
/// argument fills the parameter in its position.
pub proof fn an_argument_fills_the_parameter_it_is_for(
    reached: CalleeView,
    args: Seq<Given>,
    k: int,
)
    requires
        0 <= k < args.len() <= usize::MAX,
        reached.params.len() <= usize::MAX,
    ensures
        args[k].name matches Some(name) ==> match slots_of_view(reached, args)[k] {
            Some(at) => at < reached.params.len() && reached.params[at as int].name@ == name@,
            None => forall|j: int|
                0 <= j < reached.params.len() ==> (#[trigger] reached.params[j]).name@ != name@,
        },
        (forall|j: int| 0 <= j < args.len() ==> (#[trigger] args[j]).name is None) && (forall|
            j: int,
        |
            0 <= j < reached.params.len() ==> !(#[trigger] reached.params[j]).variadic)
            ==> slots_of_view(reached, args)[k] == (if k < reached.params.len() {
            Some(k as usize)
        } else {
            None
        }),
{
    if let Some(name) = args[k].name {
        the_named_parameter_is_found(reached, name@, 0);
    }
    if forall|j: int| 0 <= j < args.len() ==> (#[trigger] args[j]).name is None {
        each_is_in_its_position(args, k as nat);
        if forall|j: int| 0 <= j < reached.params.len() ==> !(#[trigger] reached.params[j]).variadic {
            none_is_variadic(reached, 0);
        }
    }
}

proof fn filling_is_by_slot(
    wide: nat,
    variadic: Option<usize>,
    slots: Seq<Option<usize>>,
    values: Seq<Value>,
    count: nat,
    k: int,
)
    requires
        0 <= k < count <= slots.len(),
        count <= values.len(),
        slots[k] is Some,
        slots[k] != variadic,
        slots[k]->Some_0 < wide,
        forall|i: int, j: int|
            0 <= i < j < slots.len() && slots[i] is Some ==> slots[i] != slots[j],
    ensures
        filled_by(wide, variadic, slots, values, count).len() == wide,
        filled_by(wide, variadic, slots, values, count)[slots[k]->Some_0 as int] == Some(values[k]),
    decreases count,
{
    filling_has_its_width(wide, variadic, slots, values, count);
    filling_has_its_width(wide, variadic, slots, values, (count - 1) as nat);
    if k < count - 1 {
        filling_is_by_slot(wide, variadic, slots, values, (count - 1) as nat, k);
        assert(slots[k] != slots[count - 1]);
    }
}

proof fn filling_has_its_width(
    wide: nat,
    variadic: Option<usize>,
    slots: Seq<Option<usize>>,
    values: Seq<Value>,
    count: nat,
)
    ensures
        filled_by(wide, variadic, slots, values, count).len() == wide,
    decreases count,
{
    if count > 0 {
        filling_has_its_width(wide, variadic, slots, values, (count - 1) as nat);
    }
}

/// What is passed for a parameter is what the argument that fills it produced.
pub proof fn a_parameter_takes_what_fills_it(
    wide: nat,
    variadic: Option<usize>,
    slots: Seq<Option<usize>>,
    values: Seq<Value>,
    k: int,
)
    requires
        0 <= k < slots.len(),
        slots.len() == values.len(),
        slots[k] is Some,
        slots[k] != variadic,
        slots[k]->Some_0 < wide,
        forall|i: int, j: int|
            0 <= i < j < slots.len() && slots[i] is Some ==> slots[i] != slots[j],
    ensures
        fill_view(wide, variadic, slots, values).len() == wide,
        fill_view(wide, variadic, slots, values)[slots[k]->Some_0 as int] == Some(values[k]),
{
    filling_is_by_slot(wide, variadic, slots, values, slots.len(), k);
}

/// Arguments are evaluated in the order they are written, each at the type of the
/// parameter it fills.
pub proof fn arguments_are_evaluated_in_order<'a>(
    b: BodyView<'a>,
    args: Seq<Given<'a>>,
    slots: Seq<Option<usize>>,
    wanted: Seq<TyView>,
    deeper: Deeper<'a>,
    i: nat,
)
    requires
        i < args.len(),
        i < slots.len(),
        slots[i as int] matches Some(slot) && slot < wanted.len(),
    ensures
        ({
            let (before, values) = b.given_values(args, slots, wanted, deeper, i);
            let (read, value) = before.stored(
                *args[i as int].value,
                Some(wanted[slots[i as int]->Some_0 as int]),
                deeper,
            );
            b.given_values(args, slots, wanted, deeper, i + 1) == (read, values.push(value))
        }),
{
    reveal(BodyView::given_values);
}

/// The same of the arguments of a call through a value, each at the type in its
/// position.
pub proof fn plain_arguments_are_evaluated_in_order<'a>(
    b: BodyView<'a>,
    args: Seq<Given<'a>>,
    types: Seq<TyView>,
    deeper: Deeper<'a>,
    i: nat,
)
    requires
        i < args.len(),
        i < types.len(),
    ensures
        ({
            let (before, values) = b.pass_each(args, types, deeper, i);
            let (read, value) = before.stored(
                *args[i as int].value,
                Some(types[i as int]),
                deeper,
            );
            b.pass_each(args, types, deeper, i + 1) == (read, values.push(value))
        }),
        ({
            let (before, values) = b.pass_plain(args, deeper, i);
            let (read, value) = before.stored(*args[i as int].value, None, deeper);
            b.pass_plain(args, deeper, i + 1) == (read, values.push(value))
        }),
{
    reveal(BodyView::pass_each);
    reveal(BodyView::pass_plain);
}

/// A parameter takes the argument that fills it, and where none does, its default,
/// evaluated at the call.
pub proof fn a_default_is_for_what_is_left_out<'a>(
    b: BodyView<'a>,
    reached: CalleeView<'a>,
    filled: Seq<Option<Value>>,
    wanted: Seq<TyView>,
    limit: nat,
    deeper: Deeper<'a>,
    i: nat,
)
    requires
        i < limit <= filled.len(),
        i < reached.params.len(),
        i < wanted.len(),
        filled[i as int] is Some || reached.params[i as int].default is Some,
    ensures
        ({
            let (before, values) = b.supply(reached, None, filled, wanted, limit, deeper, i);
            let after = b.supply(reached, None, filled, wanted, limit, deeper, i + 1);
            match filled[i as int] {
                Some(held) => after == (before, values.push(held)),
                None => {
                    let default = reached.params[i as int].default->Some_0;
                    let (read, value) = before.stored(*default, Some(wanted[i as int]), deeper);
                    after == (read, values.push(value))
                },
            }
        }),
{
    reveal(BodyView::supply);
}

/// What a call gives back. One that cannot throw gives what it produces. One that may
/// gives which happened, and is asked for that. An asynchronous one gives a task, which
/// holds the completion.
pub proof fn a_call_gives_back_what_it_produces<'a>(
    b: BodyView<'a>,
    kind: InstKindView,
    throws: bool,
    asynchronous: bool,
    result: TyView,
    span: Span,
    deeper: Deeper<'a>,
)
    requires
        can_go_on(b),
        asynchronous ==> task_result_view(result) is Some,
    ensures
        ({
            let (after, given) = b.finish_typed(kind, throws, asynchronous, result, span, deeper);
            if !asynchronous && !throws {
                does(b, after, kind, given, result)
            } else if !asynchronous {
                exists|called: BodyView<'a>, produced: Value|
                    #[trigger] does(b, called, kind, produced, thrown_or_view(result)) && (
                        after,
                        given,
                    ) == called.caught_or_raised(produced, result, span, deeper)
            } else if throws {
                let inner = task_result_view(result)->Some_0;
                exists|called: BodyView<'a>, produced: Value|
                    #[trigger] does(b, called, kind, produced, thrown_or_view(inner)) && does(
                        called,
                        after,
                        InstKindView::MakeStruct {
                            ty: result,
                            fields: seq![produced],
                            allocation: Allocation::Managed,
                        },
                        given,
                        result,
                    )
            } else {
                let inner = task_result_view(result)->Some_0;
                exists|called: BodyView<'a>, produced: Value, told: BodyView<'a>, completed: Value|
                    #[trigger] does(b, called, kind, produced, inner) && #[trigger] does(
                        called,
                        told,
                        InstKindView::MakeEnum {
                            ty: thrown_or_view(inner),
                            variant: 0,
                            payload: seq![produced],
                        },
                        completed,
                        thrown_or_view(inner),
                    ) && does(
                        told,
                        after,
                        InstKindView::MakeStruct {
                            ty: result,
                            fields: seq![completed],
                            allocation: Allocation::Managed,
                        },
                        given,
                        result,
                    )
            }
        }),
{
    broadcast use emit_does;

    reveal(BodyView::finish_typed);
    reveal(BodyView::completed_task);
    reveal(BodyView::completed_result);
    reveal(BodyView::variant_with);
    if !asynchronous {
        let (called, produced) = b.emit(kind, thrown_or_view(result), span);
        assert(does(b, called, kind, produced, thrown_or_view(result)));
    } else {
        let inner = task_result_view(result)->Some_0;
        let (called, produced) = b.emit(kind, thrown_or_view(inner), span);
        assert(does(b, called, kind, produced, thrown_or_view(inner)));
        let (plain, value) = b.emit(kind, inner, span);
        assert(does(b, plain, kind, value, inner));
        let (told, completed) = plain.completed_result(value, inner, span);
        assert(does(
            plain,
            told,
            InstKindView::MakeEnum {
                ty: thrown_or_view(inner),
                variant: 0,
                payload: seq![value],
            },
            completed,
            thrown_or_view(inner),
        ));
    }
}

/// A call of a function calls the one that was reached, with its receiver first, where it
/// takes one, and then what each of its parameters takes.
pub proof fn a_call_passes_the_receiver_first<'a>(
    b: BodyView<'a>,
    reached: CalleeView<'a>,
    receiver: Option<Value>,
    args: Seq<Given<'a>>,
    span: Span,
    deeper: Deeper<'a>,
)
    requires
        b.generic_args(span, reached.type_params.len()) is Some,
        variadic_at_view(reached) is None,
        reached.takes_self ==> receiver is Some,
        !reached.takes_self ==> receiver is None,
        ({
            let type_args = b.generic_args(span, reached.type_params.len())->Some_0;
            let wanted = wanted_types_view(reached, type_args);
            let slots = slots_of_view(reached, args);
            let values = b.given_values(args, slots, wanted, deeper, args.len()).1;
            let filled = fill_view(wanted.len(), None, slots, values);
            supplied_view(reached, None, filled) >= filled.len()
        }),
    ensures
        ({
            let type_args = b.generic_args(span, reached.type_params.len())->Some_0;
            let wanted = wanted_types_view(reached, type_args);
            let slots = slots_of_view(reached, args);
            let (read, values) = b.given_values(args, slots, wanted, deeper, args.len());
            let filled = fill_view(wanted.len(), None, slots, values);
            let limit = supplied_view(reached, None, filled);
            let (ready, passed) = read.supply(
                reached,
                None,
                filled,
                wanted,
                limit,
                deeper,
                filled.len(),
            );
            let whole = if reached.takes_self {
                seq![receiver->Some_0] + passed
            } else {
                passed
            };
            b.call_reached(reached, receiver, args, span, deeper) == ready.finish_call(
                InstKindView::Call { callee: reached.id, type_args, args: whole },
                reached.throws,
                reached.asynchronous,
                span,
                deeper,
            )
        }),
{
    reveal(BodyView::call_reached);
}

/// A call through an interface passes the receiver as what it is found by, and the
/// arguments in order, and gives back what the method says.
pub proof fn a_call_through_an_interface_is_found_by_its_receiver<'a>(
    b: BodyView<'a>,
    method: MethodId,
    receiver: Value,
    args: Seq<Given<'a>>,
    span: Span,
    deeper: Deeper<'a>,
)
    requires
        !any_named_view(args),
    ensures
        ({
            let (read, passed) = b.pass_plain(args, deeper, args.len());
            b.dispatch(method, Some(receiver), args, span, deeper) == read.finish_call(
                InstKindView::CallVirtual { method, receiver, args: passed },
                read.method_throws(method),
                read.method_waits(method),
                span,
                deeper,
            )
        }),
{
    reveal(BodyView::dispatch);
}

/// A call through a value calls what the value holds, evaluated before the arguments, and
/// may always throw.
pub proof fn a_call_through_a_value_may_throw<'a>(
    b: BodyView<'a>,
    callee: Expr,
    args: Seq<Given<'a>>,
    span: Span,
    deeper: Deeper<'a>,
)
    requires
        ({
            let (read, value) = b.expr(callee, None, deeper);
            function_of_view(read.type_at(value)) matches Some(shape) && shape.params.len()
                == args.len()
        }),
        !any_named_view(args),
    ensures
        ({
            let (read, value) = b.expr(callee, None, deeper);
            let shape = function_of_view(read.type_at(value))->Some_0;
            let (ready, passed) = read.pass_each(args, shape.params, deeper, args.len());
            let given = if shape.asynchronous {
                TyView::Builtin { kind: Builtin::Task, args: seq![shape.result] }
            } else {
                shape.result
            };
            b.through(callee, args, span, deeper) == ready.finish_typed(
                InstKindView::CallIndirect { callee: value, args: passed },
                true,
                shape.asynchronous,
                or_else_view(ready.maybe_recorded(span), given),
                span,
                deeper,
            )
        }),
{
    reveal(BodyView::through);
}

/// A closure holds what each binding it captures held where it was written, in the order
/// its body names them.
pub proof fn a_closure_holds_what_it_captures<'a>(
    b: BodyView<'a>,
    asynchronous: bool,
    params: Seq<Param>,
    body: FunctionBody,
    span: Span,
    deeper: Deeper<'a>,
)
    requires
        ({
            let (asked, ty) = b.recorded(span);
            &&& function_of_view(ty) matches Some(shape) && shape.asynchronous == asynchronous
                && shape.params.len() == params.len()
            &&& asked.captures(body) matches Some(captures) && !asked.any_slot(captures.vars) && {
                let (made, func) = asked.lower_closure(ty, captures, params, body, span, deeper);
                func is Some && can_go_on(made)
            }
        }),
    ensures
        ({
            let (asked, ty) = b.recorded(span);
            let captures = asked.captures(body)->Some_0;
            let (made, func) = asked.lower_closure(ty, captures, params, body, span, deeper);
            let (after, given) = b.closure(asynchronous, params, body, span, deeper);
            exists|held: Seq<Value>|
                #[trigger] does(
                    made,
                    after,
                    InstKindView::MakeClosure { func: func->Some_0, captures: held },
                    given,
                    ty,
                ) && held.len() == captures.vars.len() && forall|i: int|
                    0 <= i < held.len() ==> #[trigger] held[i] == asked.def_of(captures.vars[i])
        }),
{
    broadcast use emit_does;

    reveal(BodyView::closure);
    reveal(BodyView::defs_of);
    let (asked, ty) = b.recorded(span);
    let captures = asked.captures(body)->Some_0;
    let (made, func) = asked.lower_closure(ty, captures, params, body, span, deeper);
    let held = asked.defs_of(captures.vars);
    let (after, given) = b.closure(asynchronous, params, body, span, deeper);
    assert(does(
        made,
        after,
        InstKindView::MakeClosure { func: func->Some_0, captures: held },
        given,
        ty,
    ));
}

/// A closure reads what it captured out of the object it takes first, each from the field
/// after the ones before it, and binds it under its name.
pub proof fn a_closure_reads_what_it_captured<'a>(
    b: BodyView<'a>,
    object: Value,
    captured: Seq<Seq<char>>,
    types: Seq<TyView>,
    span: Span,
    i: nat,
)
    requires
        i < captured.len() < u32::MAX,
        i < types.len(),
        can_go_on(b.bind_captured(object, captured, types, span, i)),
    ensures
        ({
            let before = b.bind_captured(object, captured, types, span, i);
            let after = b.bind_captured(object, captured, types, span, i + 1);
            exists|read: BodyView<'a>, value: Value|
                #[trigger] does(
                    before,
                    read,
                    InstKindView::GetField { object, field: (i + 1) as u32 },
                    value,
                    types[i as int],
                ) && after == read.bind_name(captured[i as int], value, span)
        }),
{
    broadcast use emit_does;

    reveal(BodyView::bind_captured);
    let before = b.bind_captured(object, captured, types, span, i);
    let (read, value) = before.emit(
        InstKindView::GetField { object, field: index_id_view(i + 1) },
        ty_or_never_view(types, i),
        span,
    );
    assert(does(
        before,
        read,
        InstKindView::GetField { object, field: (i + 1) as u32 },
        value,
        types[i as int],
    ));
}

/// What a function is entered with is bound in order. A closure takes itself first, and
/// what it captured is bound before its parameters.
pub proof fn a_function_is_entered_with_its_parameters<'a>(
    b: BodyView<'a>,
    closure: bool,
    captured: Seq<Seq<char>>,
    types: Seq<TyView>,
    bindings: Seq<Bound<'a>>,
    span: Span,
    deeper: Deeper<'a>,
)
    requires
        b.function.entry.0 < b.function.blocks.len(),
        closure ==> b.function.block(b.function.entry).params.len() > 0,
    ensures
        ({
            let params = b.function.block(b.function.entry).params;
            b.enter(closure, captured, types, bindings, span, deeper) == if closure {
                b.bind_captured(params[0], captured, types, span, captured.len()).bind_entry(
                    bindings,
                    params.skip(1),
                    span,
                    deeper,
                    bindings.len(),
                )
            } else {
                b.bind_entry(bindings, params, span, deeper, bindings.len())
            }
        }),
{
    reveal(BodyView::enter);
    reveal(BodyView::params_of);
    let params = b.function.block(b.function.entry).params;
    if closure {
        assert(entry_values_view(params, true) =~= params.skip(1));
    }
    assert(entry_values_view(params, false) =~= params);
}

/// A body that runs off its end gives back nothing where the function writes no result,
/// and cannot get there otherwise.
pub proof fn a_body_that_runs_off_gives_back_nothing<'a>(b: BodyView<'a>, span: Span)
    requires
        can_go_on(b),
    ensures
        ({
            let after = b.run_off(span);
            let ended = after.function.block(b.current);
            if b.left {
                after == b
            } else if b.declared == TyView::Unit {
                &&& ended.insts.len() > 0
                &&& ended.term == Some(TerminatorView::Return(ended.insts.last().result->Some_0))
            } else {
                ended.term == Some(TerminatorView::Trap(Trap::Unreachable))
            }
        }),
{
    broadcast use steps;

    reveal(BodyView::run_off);
    reveal(BodyView::unit);
    reveal(BodyView::returned);
    what_is_seen(b);
    let after = b.run_off(span);
    what_is_seen(after);
    if !b.left {
        assert(seen(after, b.current).term is Some);
    }
}

/// The elements of a literal are evaluated in the order they are written.
pub proof fn elements_are_evaluated_in_order<'a>(
    b: BodyView<'a>,
    list: Seq<Expr>,
    element: TyView,
    types: Seq<TyView>,
    deeper: Deeper<'a>,
    i: nat,
)
    requires
        i < list.len(),
        i < types.len(),
    ensures
        ({
            let (before, values) = b.each_at(list, element, deeper, i);
            let (read, value) = before.expr(list[i as int], Some(element), deeper);
            b.each_at(list, element, deeper, i + 1) == (read, values.push(value))
        }),
        ({
            let (before, values) = b.each_member(list, types, deeper, i);
            let (read, value) = before.expr(list[i as int], Some(types[i as int]), deeper);
            b.each_member(list, types, deeper, i + 1) == (read, values.push(value))
        }),
{
    reveal(BodyView::each_at);
    reveal(BodyView::each_member);
}

/// The key of an entry is evaluated before its value, and goes with it.
pub proof fn a_key_is_evaluated_before_its_value<'a>(
    b: BodyView<'a>,
    entries: Seq<MapEntry>,
    key: TyView,
    value: TyView,
    span: Span,
    deeper: Deeper<'a>,
    i: nat,
)
    requires
        i < entries.len(),
        entries[i as int].key is Computed,
    ensures
        ({
            let (before, built) = b.map_entries(entries, key, value, span, deeper, i);
            let (keyed, held) = before.expr(
                entries[i as int].key->Computed_0,
                Some(key),
                deeper,
            );
            let (read, stored) = keyed.expr(entries[i as int].value, Some(value), deeper);
            b.map_entries(entries, key, value, span, deeper, i + 1) == (
                read,
                built.push((held, stored)),
            )
        }),
{
    reveal(BodyView::map_entries);
}

/// A list literal holds its elements in order.
pub proof fn a_list_holds_its_elements<'a>(
    b: BodyView<'a>,
    values: Seq<Expr>,
    ty: TyView,
    span: Span,
    deeper: Deeper<'a>,
)
    requires
        sequence_element_view(ty) is Some,
        can_go_on(b.each_at(values, sequence_element_view(ty)->Some_0, deeper, values.len()).0),
    ensures
        ({
            let element = sequence_element_view(ty)->Some_0;
            let (read, built) = b.each_at(values, element, deeper, values.len());
            let (after, given) = b.list(values, Some(ty), span, deeper);
            does(read, after, InstKindView::MakeList { element, values: built }, given, ty)
        }),
{
    broadcast use emit_does;

    reveal(BodyView::list);
    reveal(BodyView::settled_type);
}

/// A map literal is made of its keys and values, as its type says, in order.
pub proof fn a_map_holds_its_entries<'a>(
    b: BodyView<'a>,
    entries: Seq<MapEntry>,
    args: Seq<TyView>,
    kind: Builtin,
    span: Span,
    deeper: Deeper<'a>,
)
    requires
        args.len() >= 2,
        can_go_on(b.map_entries(entries, args[0], args[1], span, deeper, entries.len()).0),
    ensures
        ({
            let ty = TyView::Builtin { kind, args };
            let (read, built) = b.map_entries(
                entries,
                args[0],
                args[1],
                span,
                deeper,
                entries.len(),
            );
            let (after, given) = b.map(entries, Some(ty), span, deeper);
            does(
                read,
                after,
                InstKindView::MakeMap { key: args[0], value: args[1], entries: built },
                given,
                ty,
            )
        }),
{
    broadcast use emit_does;

    reveal(BodyView::map);
    reveal(BodyView::settled_type);
}

/// A set literal is made of its elements, in order.
pub proof fn a_set_holds_its_elements<'a>(
    b: BodyView<'a>,
    values: Seq<Expr>,
    args: Seq<TyView>,
    kind: Builtin,
    span: Span,
    deeper: Deeper<'a>,
)
    requires
        args.len() >= 1,
        can_go_on(b.each_at(values, args[0], deeper, values.len()).0),
    ensures
        ({
            let ty = TyView::Builtin { kind, args };
            let (read, built) = b.each_at(values, args[0], deeper, values.len());
            let (after, given) = b.set(values, Some(ty), span, deeper);
            does(read, after, InstKindView::MakeSet { element: args[0], values: built }, given, ty)
        }),
{
    broadcast use emit_does;

    reveal(BodyView::set);
    reveal(BodyView::settled_type);
}

/// A tuple holds its members in order, each at its own type.
pub proof fn a_tuple_holds_its_members<'a>(
    b: BodyView<'a>,
    members: Seq<Expr>,
    types: Seq<TyView>,
    span: Span,
    deeper: Deeper<'a>,
)
    requires
        members.len() > 0,
        types.len() == members.len(),
        can_go_on(b.each_member(members, types, deeper, members.len()).0),
    ensures
        ({
            let (read, values) = b.each_member(members, types, deeper, members.len());
            let (after, given) = b.tuple(members, Some(TyView::Tuple(types)), span, deeper);
            does(read, after, InstKindView::MakeTuple(values), given, TyView::Tuple(types))
        }),
{
    broadcast use emit_does;

    reveal(BodyView::tuple);
}

/// An enum value is of the variant written, and carries its payload in order.
pub proof fn a_variant_carries_its_payload<'a>(
    b: BodyView<'a>,
    ty: TyView,
    variant: u32,
    args: Seq<Given<'a>>,
    span: Span,
    deeper: Deeper<'a>,
)
    requires
        b.payload_of(ty, variant) matches Some(carried) && carried.len() == args.len() && can_go_on(
            b.pass_each(args, carried, deeper, args.len()).0,
        ),
    ensures
        ({
            let carried = b.payload_of(ty, variant)->Some_0;
            let (read, payload) = b.pass_each(args, carried, deeper, args.len());
            let (after, given) = b.construct(ty, variant, args, span, deeper);
            does(read, after, InstKindView::MakeEnum { ty, variant, payload }, given, ty)
        }),
{
    broadcast use emit_does;

    reveal(BodyView::construct);
}

/// A stored field is read from where it is stored, a length from the header, and a
/// property through its getter, called on the object.
pub proof fn a_member_is_read_from_its_object<'a>(
    b: BodyView<'a>,
    object: Value,
    name: Seq<char>,
    result: TyView,
    span: Span,
)
    requires
        can_go_on(b.settled(object, span).0),
    ensures
        ({
            let (settled, inside) = b.settled(object, span);
            let held = settled.type_at(inside);
            let (after, given) = b.plain_field(object, name, result, span);
            match settled.getter(held, name) {
                Some((get, ty)) => does(
                    settled,
                    after,
                    InstKindView::Call { callee: get, type_args: Seq::empty(), args: seq![inside] },
                    given,
                    ty,
                ),
                None => if reads_length_view(name, held) {
                    does(
                        settled,
                        after,
                        InstKindView::Length { receiver: inside },
                        given,
                        TyView::integer(),
                    )
                } else {
                    settled.field_index(held, name) matches Some(field) ==> (after, given)
                        == settled.narrowed(
                        settled.stored_type(held, field),
                        result,
                        InstKindView::GetField { object: inside, field },
                        span,
                    )
                },
            }
        }),
{
    broadcast use emit_does;

    reveal(BodyView::plain_field);
}

/// A read whose result was proved to be there is read as it is stored and then unwrapped;
/// any other is read as it is.
pub proof fn what_was_proved_to_be_there_is_read_through<'a>(
    b: BodyView<'a>,
    declared: Option<TyView>,
    result: TyView,
    read: InstKindView,
    span: Span,
)
    requires
        can_go_on(b),
    ensures
        ({
            let (after, given) = b.narrowed(declared, result, read, span);
            let may = TyView::Optional(Box::new(result));
            if !(result is Optional) && declared == Some(may) {
                exists|held: BodyView<'a>, stored: Value|
                    #[trigger] does(b, held, read, stored, may) && does(
                        held,
                        after,
                        InstKindView::Unwrap { value: stored },
                        given,
                        result,
                    )
            } else {
                does(b, after, read, given, result)
            }
        }),
{
    broadcast use emit_does;

    reveal(BodyView::narrowed);
    let may = TyView::Optional(Box::new(result));
    let (held, stored) = b.emit(read, may, span);
    assert(does(b, held, read, stored, may));
}

/// A value that may be nothing is unwrapped before it is read through, and any other is
/// read through as it is.
pub proof fn what_may_be_nothing_is_unwrapped_first<'a>(b: BodyView<'a>, value: Value, span: Span)
    requires
        can_go_on(b),
    ensures
        ({
            let (after, given) = b.settled(value, span);
            match b.type_at(value) {
                TyView::Optional(inner) => does(
                    b,
                    after,
                    InstKindView::Unwrap { value },
                    given,
                    *inner,
                ),
                _ => (after, given) == (b, value),
            }
        }),
{
    broadcast use emit_does;

    reveal(BodyView::settled);
}

/// `?.` reads a field where the object is there, and gives nothing where it is not.
pub proof fn a_field_of_nothing_is_nothing<'a>(
    b: BodyView<'a>,
    object: Value,
    name: Seq<char>,
    result: TyView,
    span: Span,
)
    requires
        can_go_on(b),
        ({
            let inner = optional_inner_view(b.type_at(object));
            inner is Some && b.field_index(inner->Some_0, name) is Some
        }),
    ensures
        ({
            let inner = optional_inner_view(b.type_at(object))->Some_0;
            let field = b.field_index(inner, name)->Some_0;
            let (after, given) = b.optional_field(object, name, result, span);
            let (tests, test) = last(after, b.current);
            let join = after.current;
            &&& tests == (InstKindView::IsSome { value: object })
            &&& goes(after, b.current, test, true) matches Some(there) && {
                let found = after.function.block(there.block);
                &&& there.args.len() == 0
                &&& found.insts.len() >= 2
                &&& found.insts[0].kind == (InstKindView::Unwrap { value: object })
                &&& found.insts[1].kind == (InstKindView::GetField {
                    object: found.insts[0].result->Some_0,
                    field,
                })
                &&& goes_on_to(after, there.block) matches Some(on) && on.block == join
                    && on.args.len() == 1 && found.insts.last().result == Some(on.args[0])
            }
            &&& goes(after, b.current, test, false) matches Some(gone) && {
                let absent = after.function.block(gone.block);
                &&& gone.args.len() == 0
                &&& absent.insts.len() == 1
                &&& absent.insts[0].kind == InstKindView::Const(ConstView::Nil)
                &&& goes_on_to(after, gone.block) matches Some(on) && on.block == join && on.args
                    == seq![absent.insts[0].result->Some_0]
            }
            &&& after.function.block(join).params == seq![given]
        }),
{
    broadcast use steps;

    reveal(BodyView::optional_field);
    reveal(BodyView::branch);
    reveal(BodyView::jump_with);
    reveal(BodyView::coerce);
    what_is_seen(b);
    let after = b.optional_field(object, name, result, span).0;
    what_is_seen(after);
    let (one, present) = b.add_block(span);
    let (two, absent) = one.add_block(span);
    let (three, join) = two.add_block(span);
    assert(seen(after, b.current).term is Some);
    assert(seen(after, present).term is Some);
    assert(seen(after, absent).term is Some);
    assert(seen(after, absent).insts.len() == 1);
    assert(seen(after, join).params =~= seq![b.optional_field(object, name, result, span).1]);
}

/// `okOr` is `Ok` of what is there, and `Err` of the error where nothing is.
pub proof fn ok_or_tells_what_is_there<'a>(
    b: BodyView<'a>,
    callee: Expr,
    args: Seq<Given<'a>>,
    span: Span,
    deeper: Deeper<'a>,
)
    requires
        args.len() > 0,
        ({
            let (read, held) = b.expr(callee, None, deeper);
            let (asked, result) = read.recorded(span);
            &&& optional_inner_view(read.type_at(held)) is Some
            &&& result_error_view(result) is Some
            &&& can_go_on(
                asked.stored(
                    *args[0].value,
                    Some(result_error_view(result)->Some_0),
                    deeper,
                ).0,
            )
        }),
    ensures
        ({
            let (read, held) = b.expr(callee, None, deeper);
            let (asked, result) = read.recorded(span);
            let (ready, error) = asked.stored(
                *args[0].value,
                Some(result_error_view(result)->Some_0),
                deeper,
            );
            let (after, given) = b.ok_or(callee, args, span, deeper);
            let (tests, test) = last(after, ready.current);
            let join = after.current;
            &&& tests == (InstKindView::IsSome { value: held })
            &&& goes(after, ready.current, test, true) matches Some(there) && {
                let found = after.function.block(there.block);
                &&& found.insts.len() == 2
                &&& found.insts[0].kind == (InstKindView::Unwrap { value: held })
                &&& found.insts[1].kind == (InstKindView::MakeEnum {
                    ty: result,
                    variant: 0,
                    payload: seq![found.insts[0].result->Some_0],
                })
                &&& goes_on_to(after, there.block) == Some(
                    TargetView { block: join, args: seq![found.insts[1].result->Some_0] },
                )
            }
            &&& goes(after, ready.current, test, false) matches Some(gone) && {
                let absent = after.function.block(gone.block);
                &&& absent.insts.len() == 1
                &&& absent.insts[0].kind == (InstKindView::MakeEnum {
                    ty: result,
                    variant: 1,
                    payload: seq![error],
                })
                &&& goes_on_to(after, gone.block) == Some(
                    TargetView { block: join, args: seq![absent.insts[0].result->Some_0] },
                )
            }
            &&& after.function.block(join).params == seq![given]
        }),
{
    broadcast use steps;

    reveal(BodyView::ok_or);
    reveal(BodyView::branch);
    reveal(BodyView::jump_with);
    reveal(BodyView::variant_with);
    let (read, held) = b.expr(callee, None, deeper);
    let (asked, result) = read.recorded(span);
    let (ready, error) = asked.stored(
        *args[0].value,
        Some(result_error_view(result)->Some_0),
        deeper,
    );
    what_is_seen(ready);
    let (after, given) = b.ok_or(callee, args, span, deeper);
    what_is_seen(after);
    let (one, present) = ready.add_block(span);
    let (two, absent) = one.add_block(span);
    let (three, join) = two.add_block(span);
    assert(seen(after, ready.current).term is Some);
    assert(seen(after, present).term is Some);
    assert(seen(after, present).insts.len() == 2);
    assert(seen(after, absent).term is Some);
    assert(seen(after, absent).insts.len() == 1);
    assert(seen(after, join).params =~= seq![given]);
}

/// `?` goes on with what a `Result` holds where it holds no error. Where it holds one,
/// the function is left with that, once what its scopes deferred has run.
pub proof fn an_error_is_handed_back<'a>(b: BodyView<'a>, inner: Expr, span: Span, deeper: Deeper<'a>)
    requires
        ({
            let (read, result) = b.expr(inner, None, deeper);
            &&& can_go_on(read)
            &&& args_of_view(read.type_at(result), Builtin::Result) matches Some(parts)
                && parts.len() >= 2
            &&& args_of_view(read.declared, Builtin::Result) matches Some(given) && given.len() >= 2
        }),
    ensures
        ({
            let (read, result) = b.expr(inner, None, deeper);
            let (after, value) = b.propagate(inner, span, deeper);
            let given_error = args_of_view(read.declared, Builtin::Result)->Some_0[1];
            exists|failed: BodyView<'a>, error: Value|
                {
                    let (converted, handed) = #[trigger] failed.propagated_error(
                        error,
                        given_error,
                        span,
                    );
                    let (tests, test) = last(failed, read.current);
                    &&& tests is Binary
                    &&& goes(failed, read.current, test, true) == Some(
                        TargetView::to(failed.current),
                    )
                    &&& goes(failed, read.current, test, false) == Some(
                        TargetView::to(after.current),
                    )
                    &&& failed.function.block(failed.current).insts.len() == 1
                    &&& last(failed, failed.current) == (
                        InstKindView::GetPayload { value: result, variant: 1, field: 0 },
                        error,
                    )
                    &&& failed.current != after.current
                    &&& !after.left
                    &&& can_go_on(converted) ==> exists|told: BodyView<'a>, back: Value|
                        {
                            let unwound = told.unwind_from(0, deeper);
                            &&& #[trigger] does(
                                converted,
                                told,
                                InstKindView::MakeEnum {
                                    ty: read.declared,
                                    variant: 1,
                                    payload: seq![handed],
                                },
                                back,
                                read.declared,
                            )
                            &&& can_go_on(unwound) && after.current.0
                                < unwound.function.blocks.len() && after.current != unwound.current
                                ==> {
                                let ended = after.function.block(unwound.current);
                                &&& ended.term matches Some(TerminatorView::Return(returned)) && (
                                if unwound.throws {
                                    ended.insts.last().kind == (InstKindView::MakeEnum {
                                        ty: unwound.function.result,
                                        variant: 0,
                                        payload: seq![back],
                                    }) && ended.insts.last().result == Some(returned)
                                } else {
                                    returned == back
                                })
                                &&& last(after, after.current) == (
                                    InstKindView::GetPayload { value: result, variant: 0, field: 0 },
                                    value,
                                )
                            }
                        }
                }
        }),
{
    broadcast use {steps, emit_does};

    reveal(BodyView::propagate);
    reveal(BodyView::error_test);
    reveal(BodyView::branch);
    reveal(BodyView::payload);
    reveal(BodyView::variant_with);
    reveal(BodyView::returned);
    let (read, result) = b.expr(inner, None, deeper);
    what_is_seen(read);
    let parts = args_of_view(read.type_at(result), Builtin::Result)->Some_0;
    let given_error = args_of_view(read.declared, Builtin::Result)->Some_0[1];
    let (one, bad) = read.add_block(span);
    let (two, good) = one.add_block(span);
    assert(two.declared == read.declared) by {
        reveal(BodyView::add_block);
    }
    let (asked, test) = two.tag_test(result, 1, span);
    assert(place(asked) == place(two) && size(asked) == (size(two).0 + 3, size(two).1) && seen(
        asked,
        bad,
    ) == BlockView::empty() && seen(asked, read.current).term is None && seen(
        asked,
        read.current,
    ).insts.last().kind is Binary && seen(asked, read.current).insts.last().result == Some(
        test,
    )) by {
        reveal(BodyView::tag_test);
    }
    let split = asked.branch(test, bad, good).switch_to(bad);
    let (failed, error) = split.payload(result, 1, parts[1], span);
    what_is_seen(failed);
    assert(seen(failed, read.current).term is Some);
    assert(seen(failed, read.current).insts == seen(asked, read.current).insts);
    assert(seen(failed, bad).insts.len() == 1);
    let (converted, handed) = failed.propagated_error(error, given_error, span);
    let (told, back) = converted.variant_with(read.declared, 1, handed, span);
    let unwound = told.unwind_from(0, deeper);
    what_is_seen(unwound);
    let (after, value) = b.propagate(inner, span, deeper);
    what_is_seen(after);
    let (gave, returned) = unwound.returned(back, span);
    let ended = gave.terminate(TerminatorView::Return(returned));
    let switched = ended.switch_to(good);
    assert((after, value) == switched.emit(
        InstKindView::GetPayload { value: result, variant: 0, field: 0 },
        parts[0],
        span,
    ));
    assert(after.current == good && !after.left) by {
        reveal(BodyView::switch_to);
        reveal(BodyView::emit);
        reveal(BodyView::gap);
    }
    if can_go_on(converted) {
        assert(does(
            converted,
            told,
            InstKindView::MakeEnum { ty: read.declared, variant: 1, payload: seq![handed] },
            back,
            read.declared,
        ));
        if can_go_on(unwound) && good.0 < unwound.function.blocks.len() && good
            != unwound.current {
            assert(seen(after, unwound.current).term is Some);
            assert(seen(after, good).insts.last().kind == (InstKindView::GetPayload {
                value: result,
                variant: 0,
                field: 0,
            }));
        }
    }
}

/// Whether, for each binding that every path holds something for, what it holds where
/// the paths meet is what they all hold, or a parameter of that block, for which each
/// path passes what it holds. `first` is how many parameters come before those.
pub open spec fn meets(
    arrivals: Seq<ArrivalView>,
    vars: Seq<u32>,
    defs: Map<u32, Value>,
    params: Seq<Value>,
    passed: Seq<u32>,
    first: nat,
) -> bool {
    &&& params.len() == first + passed.len()
    &&& forall|i: int|
        0 <= i < vars.len() && held_everywhere(arrivals, #[trigger] vars[i]) ==> {
            &&& defs.contains_key(vars[i])
            &&& (forall|k: int|
                0 <= k < arrivals.len() ==> (#[trigger] arrivals[k]).defs[vars[i]]
                    == defs[vars[i]]) || exists|p: int|
                0 <= p < passed.len() && #[trigger] passed[p] == vars[i] && params[first + p]
                    == defs[vars[i]]
        }
}

proof fn merging_meets<'a>(
    b: BodyView<'a>,
    arrivals: Seq<ArrivalView>,
    join: BlockId,
    vars: Seq<u32>,
    span: Span,
    count: nat,
)
    requires
        arrivals.len() > 0,
        count <= vars.len(),
        join.0 < size(b).1,
        size(b).0 + count < id_limit(),
        forall|i: int, j: int| 0 <= i < j < vars.len() ==> vars[i] != vars[j],
    ensures
        ({
            let (after, defs, params) = merged(b, arrivals, join, vars, span, count);
            let first = seen(b, join).params.len();
            &&& meets(arrivals, vars.take(count as int), defs, seen(after, join).params, params, first)
            &&& seen(b, join).params.is_prefix_of(seen(after, join).params)
            &&& seen(after, join).insts == seen(b, join).insts
            &&& seen(after, join).term == seen(b, join).term
            &&& size(after).1 == size(b).1
            &&& size(after).0 <= size(b).0 + count
            &&& place(after) == place(b)
            &&& forall|p: int|
                0 <= p < params.len() ==> held_everywhere(arrivals, #[trigger] params[p])
            &&& forall|id: BlockId|
                id.0 < size(b).1 && id != join ==> #[trigger] seen(after, id) == seen(b, id)
        }),
    decreases count,
{
    broadcast use add_block_param_is_seen;

    let first = seen(b, join).params.len();
    if count > 0 {
        let fewer = (count - 1) as nat;
        merging_meets(b, arrivals, join, vars, span, fewer);
        let (before, defs, params) = merged(b, arrivals, join, vars, span, fewer);
        let (after, now, more) = merged(b, arrivals, join, vars, span, count);
        let var = vars[count - 1];
        assert forall|i: int|
            0 <= i < vars.take(count as int).len() && held_everywhere(
                arrivals,
                #[trigger] vars.take(count as int)[i],
            ) implies {
            let held = vars.take(count as int)[i];
            &&& now.contains_key(held)
            &&& (forall|k: int|
                0 <= k < arrivals.len() ==> (#[trigger] arrivals[k]).defs[held] == now[held])
                || exists|p: int|
                0 <= p < more.len() && #[trigger] more[p] == held && seen(after, join).params[first
                    + p] == now[held]
        } by {
            let held = vars.take(count as int)[i];
            if i < fewer {
                assert(vars.take(fewer as int)[i] == held);
                assert(vars[i] != vars[count - 1]);
                if !(forall|k: int|
                    0 <= k < arrivals.len() ==> (#[trigger] arrivals[k]).defs[held]
                        == defs[held]) {
                    let p = choose|p: int|
                        0 <= p < params.len() && #[trigger] params[p] == held && seen(
                            before,
                            join,
                        ).params[first + p] == defs[held];
                    assert(more[p] == held);
                }
            } else {
                if !agreed(arrivals, var) {
                    assert(more[more.len() - 1] == var);
                }
            }
        }
    }
}

broadcast proof fn rejoin_is_seen<'a>(
    b: BodyView<'a>,
    block: BlockId,
    join: BlockId,
    args: Seq<Value>,
)
    requires
        block.0 < size(b).1,
    ensures
        #![trigger b.rejoin(block, join, args)]
        size(b.rejoin(block, join, args)) == size(b),
        place(b.rejoin(block, join, args)) == place(b),
        forall|id: BlockId|
            id.0 < size(b).1 ==> #[trigger] seen(b.rejoin(block, join, args), id) == (if id
                == block {
                BlockView {
                    term: Some(TerminatorView::Jump(TargetView { block: join, args })),
                    ..seen(b, id)
                }
            } else {
                seen(b, id)
            }),
{
    reveal(seen);
    reveal(size);
    reveal(place);
    reveal(BodyView::rejoin);
}

proof fn arriving_jumps<'a>(
    b: BodyView<'a>,
    arrivals: Seq<ArrivalView>,
    carried: Seq<Seq<Value>>,
    join: BlockId,
    params: Seq<u32>,
    count: nat,
)
    requires
        count <= arrivals.len(),
        carried.len() == arrivals.len(),
        join.0 < size(b).1,
        forall|i: int| 0 <= i < arrivals.len() ==> (#[trigger] arrivals[i]).block.0 < size(b).1,
        forall|i: int| 0 <= i < arrivals.len() ==> (#[trigger] arrivals[i]).block != join,
        forall|i: int, j: int|
            0 <= i < j < arrivals.len() ==> (#[trigger] arrivals[i]).block != (
            #[trigger] arrivals[j]).block,
    ensures
        ({
            let after = arrived(b, arrivals, carried, join, params, count);
            &&& size(after) == size(b)
            &&& place(after) == place(b)
            &&& seen(after, join) == seen(b, join)
            &&& forall|i: int|
                0 <= i < count ==> seen(after, (#[trigger] arrivals[i]).block).term == Some(
                    TerminatorView::Jump(
                        TargetView { block: join, args: carried[i] + passed(arrivals[i], params) },
                    ),
                )
        }),
    decreases count,
{
    broadcast use rejoin_is_seen;

    if count > 0 {
        arriving_jumps(b, arrivals, carried, join, params, (count - 1) as nat);
        let before = arrived(b, arrivals, carried, join, params, (count - 1) as nat);
        let after = arrived(b, arrivals, carried, join, params, count);
        assert(size(before) == size(b));
        assert forall|i: int| 0 <= i < count implies seen(
            after,
            (#[trigger] arrivals[i]).block,
        ).term == Some(
            TerminatorView::Jump(
                TargetView { block: join, args: carried[i] + passed(arrivals[i], params) },
            ),
        ) by {
            if i < count - 1 {
                assert(arrivals[i].block != arrivals[count - 1].block);
                assert(seen(before, arrivals[i].block).term is Some);
            }
        }
    }
}

/// Paths that reach the end of a construct meet in one block. Each path goes there. What
/// they agree on carries through. For what they do not, that block has a parameter, for
/// which each path passes what it holds; so a binding holds there, whichever path was
/// taken, what it held on that path. Where no path reaches the end, nothing runs there.
#[verifier::rlimit(40)]
pub proof fn a_binding_holds_what_its_path_held<'a>(
    b: BodyView<'a>,
    arrivals: Seq<ArrivalView>,
    join: BlockId,
    span: Span,
)
    requires
        join.0 < b.function.blocks.len(),
        b.function.block(join) == BlockView::empty(),
        ({
            let vars = vars_in(b.scopes, b.scopes.len());
            &&& b.function.values.len() + vars.len() < id_limit()
            &&& forall|i: int, j: int| 0 <= i < j < vars.len() ==> vars[i] != vars[j]
        }),
        forall|i: int|
            0 <= i < arrivals.len() ==> (#[trigger] arrivals[i]).block.0 < b.function.blocks.len(),
        forall|i: int| 0 <= i < arrivals.len() ==> (#[trigger] arrivals[i]).block != join,
        forall|i: int, j: int|
            0 <= i < j < arrivals.len() ==> (#[trigger] arrivals[i]).block != (
            #[trigger] arrivals[j]).block,
    ensures
        ({
            let after = b.join(arrivals, join, span);
            let vars = vars_in(b.scopes, b.scopes.len());
            &&& after.current == join
            &&& arrivals.len() == 0 ==> after.left && after.function.block(join).term == Some(
                TerminatorView::Trap(Trap::Unreachable),
            )
            &&& arrivals.len() > 0 ==> {
                let params = after.function.block(join).params;
                &&& !after.left
                &&& exists|names: Seq<u32>|
                    #[trigger] meets(arrivals, vars, after.defs, params, names, 0) && forall|i: int|
                        0 <= i < arrivals.len() ==> {
                            &&& goes_on_to(after, (#[trigger] arrivals[i]).block) matches Some(to)
                                && to.block == join && to.args.len() == names.len() && forall|p: int|
                                0 <= p < names.len() ==> #[trigger] to.args[p]
                                    == arrivals[i].defs[names[p]]
                        }
            }
        }),
{
    reveal(BodyView::join);
    let vars = vars_in(b.scopes, b.scopes.len());
    let after = b.join(arrivals, join, span);
    what_is_seen(b);
    what_is_seen(after);
    if arrivals.len() == 0 {
        reveal(BodyView::switch_to);
        reveal(BodyView::terminate);
    } else {
        broadcast use {switch_to_is_seen, restore_is_seen};

        let carried = nothing_carried(arrivals.len());
        let (mixed, defs, names) = merged(b, arrivals, join, vars, span, vars.len());
        merging_meets(b, arrivals, join, vars, span, vars.len());
        assert(vars.take(vars.len() as int) =~= vars);
        arriving_jumps(mixed, arrivals, carried, join, names, arrivals.len());
        let sent = arrived(mixed, arrivals, carried, join, names, arrivals.len());
        assert(after == sent.switch_to(join).restore(defs));
        assert(seen(after, join) == seen(mixed, join));
        assert(after.defs == defs);
        assert(meets(arrivals, vars, after.defs, after.function.block(join).params, names, 0));
        assert forall|i: int| 0 <= i < arrivals.len() implies {
            &&& goes_on_to(after, (#[trigger] arrivals[i]).block) matches Some(to) && to.block
                == join && to.args.len() == names.len() && forall|p: int|
                0 <= p < names.len() ==> #[trigger] to.args[p] == arrivals[i].defs[names[p]]
        } by {
            let given = passed(arrivals[i], names);
            assert(carried[i] + given =~= given);
            assert(seen(after, arrivals[i].block).term is Some);
            assert forall|p: int| 0 <= p < names.len() implies #[trigger] given[p]
                == arrivals[i].defs[names[p]] by {
                assert(held_everywhere(arrivals, names[p]));
                assert(arrivals[i].defs.contains_key(names[p]));
            }
        }
    }
}

/// A range that is counted up goes on while its counter is below its bound, or at it
/// where the range takes that in; one that is counted down goes on while its counter is
/// above its lower bound, or at it.
pub proof fn a_range_goes_on_up_to_its_bound<'a>(
    b: BodyView<'a>,
    source: Source,
    current: Value,
    span: Span,
)
    requires
        can_go_on(b),
    ensures
        ({
            let (after, condition) = b.goes_on(source, current, span);
            match source {
                Source::Range { last, inclusive } => does(
                    b,
                    after,
                    InstKindView::Binary {
                        op: if inclusive {
                            BinaryOp::LessEqual
                        } else {
                            BinaryOp::Less
                        },
                        left: current,
                        right: last,
                    },
                    condition,
                    TyView::Bool,
                ),
                Source::Reversed { first, inclusive } => does(
                    b,
                    after,
                    InstKindView::Binary {
                        op: if inclusive {
                            BinaryOp::GreaterEqual
                        } else {
                            BinaryOp::Greater
                        },
                        left: current,
                        right: first,
                    },
                    condition,
                    TyView::Bool,
                ),
                Source::List { receiver, .. } => exists|counted: BodyView<'a>, bound: Value|
                    #[trigger] does(
                        b,
                        counted,
                        InstKindView::Length { receiver },
                        bound,
                        TyView::integer(),
                    ) && does(
                        counted,
                        after,
                        InstKindView::Binary { op: BinaryOp::Less, left: current, right: bound },
                        condition,
                        TyView::Bool,
                    ),
                Source::Table(receiver) => exists|counted: BodyView<'a>, bound: Value|
                    #[trigger] does(
                        b,
                        counted,
                        InstKindView::Buckets { receiver },
                        bound,
                        TyView::integer(),
                    ) && does(
                        counted,
                        after,
                        InstKindView::Binary { op: BinaryOp::Less, left: current, right: bound },
                        condition,
                        TyView::Bool,
                    ),
            }
        }),
{
    broadcast use emit_does;

    reveal(BodyView::goes_on);
    match source {
        Source::List { receiver, .. } => {
            let (counted, bound) = b.emit(
                InstKindView::Length { receiver },
                TyView::integer(),
                span,
            );
            assert(does(
                b,
                counted,
                InstKindView::Length { receiver },
                bound,
                TyView::integer(),
            ));
        },
        Source::Table(receiver) => {
            let (counted, bound) = b.emit(
                InstKindView::Buckets { receiver },
                TyView::integer(),
                span,
            );
            assert(does(
                b,
                counted,
                InstKindView::Buckets { receiver },
                bound,
                TyView::integer(),
            ));
        },
        _ => {},
    }
}

/// A range is counted from its lower bound, evaluated first, up to its upper one; a
/// reversed one from its upper bound down.
pub proof fn a_range_is_counted_from_its_start<'a>(
    b: BodyView<'a>,
    bindings: Seq<Binding>,
    name: String,
    iterable: Expr,
    from: Box<Expr>,
    to: Box<Expr>,
    inclusive: bool,
    span: Span,
    deeper: Deeper<'a>,
)
    requires
        bindings == seq![Binding::Name(name)],
        iterable.kind == (ExprKind::Range { start: Some(from), end: Some(to), inclusive }),
    ensures
        ({
            let (typed, element) = b.counter_type(*from, span);
            let (first, low) = typed.expr(*from, Some(element), deeper);
            let (second, high) = first.expr(*to, Some(element), deeper);
            let (after, found) = b.counted(bindings, iterable, span, deeper);
            found matches Some(counted) && counted.source == (Source::Range {
                last: high,
                inclusive,
            }) && counted.first == low && counted.element == element && (after, counted.counter)
                == second.declare(name@)
        }),
        ({
            let (typed, element) = b.counter_type(*from, span);
            let (first, low) = typed.expr(*from, Some(element), deeper);
            let (second, high) = first.expr(*to, Some(element), deeper);
            let (after, found) = b.counted_down(iterable, span, deeper);
            found matches Some(counted) && counted.source == (Source::Reversed {
                first: low,
                inclusive,
            }) && counted.first == high && counted.element == element
        }),
{
    reveal(BodyView::counted);
    reveal(BodyView::counted_down);
}

/// A collection is counted through from nothing.
pub proof fn a_collection_is_counted_from_zero<'a>(
    b: BodyView<'a>,
    iterable: Expr,
    indexed: bool,
    span: Span,
    deeper: Deeper<'a>,
)
    requires
        can_go_on(b.expr(iterable, None, deeper).0),
        b.counted_through(iterable, indexed, span, deeper).1 is Some,
    ensures
        ({
            let (read, receiver) = b.expr(iterable, None, deeper);
            let (after, found) = b.counted_through(iterable, indexed, span, deeper);
            let counted = found->Some_0;
            let kind = match read.type_at(receiver) {
                TyView::Builtin { kind, .. } => Some(kind),
                _ => None,
            };
            &&& counted.element == TyView::integer()
            &&& counted.source == if kind == Some(Builtin::List) || kind == Some(Builtin::FrozenList) {
                Source::List { receiver, indexed }
            } else {
                Source::Table(receiver)
            }
            &&& exists|zeroed: BodyView<'a>|
                #[trigger] does(
                    read,
                    zeroed,
                    InstKindView::Const(ConstView::Int(0)),
                    counted.first,
                    TyView::integer(),
                ) && (after, counted.counter) == zeroed.declare(""@)
        }),
{
    broadcast use emit_does;

    reveal(BodyView::counted_through);
    reveal(BodyView::uncounted);
    let (read, receiver) = b.expr(iterable, None, deeper);
    let (zeroed, zero) = read.emit(
        InstKindView::Const(ConstView::Int(0)),
        TyView::integer(),
        span,
    );
    assert(does(
        read,
        zeroed,
        InstKindView::Const(ConstView::Int(0)),
        zero,
        TyView::integer(),
    ));
    let counted = b.counted_through(iterable, indexed, span, deeper).1->Some_0;
    assert(counted.first == zero);
    assert((b.counted_through(iterable, indexed, span, deeper).0, counted.counter)
        == zeroed.declare(""@));
}

/// A pass over a list reads the element at its counter, and a pass over a table runs only
/// where the bucket at its counter is occupied, and goes on to the next where it is not.
pub proof fn a_pass_reads_what_is_at_its_counter<'a>(
    b: BodyView<'a>,
    counted: CountedView,
    current: Value,
    bindings: Seq<Binding>,
    step: BlockId,
    leaving: Seq<Value>,
    span: Span,
    deeper: Deeper<'a>,
)
    requires
        can_go_on(b),
    ensures
        ({
            let after = b.bind_counted(counted, current, bindings, step, leaving, span, deeper);
            match counted.source {
                Source::Range { .. } => after == b,
                Source::Reversed { inclusive, .. } => inclusive ==> after == b.bind_each(
                    bindings,
                    seq![current],
                    span,
                    deeper,
                    bindings.len(),
                ),
                Source::List { receiver, indexed } => {
                    let ty = ty_or_never_view(b.collection_args(receiver), 0);
                    exists|read: BodyView<'a>, element: Value|
                        #[trigger] does(
                            b,
                            read,
                            InstKindView::GetIndex { receiver, index: current },
                            element,
                            ty,
                        ) && after == read.bind_each(
                            bindings,
                            if indexed {
                                seq![current, element]
                            } else {
                                seq![element]
                            },
                            span,
                            deeper,
                            bindings.len(),
                        )
                },
                Source::Table(receiver) => exists|found: BodyView<'a>, test: Value|
                    {
                        &&& last(found, b.current) == (
                            InstKindView::Occupied { receiver, index: current },
                            test,
                        )
                        &&& #[trigger] goes(found, b.current, test, true) == Some(
                            TargetView::to(found.current),
                        )
                        &&& goes(found, b.current, test, false) == Some(
                            TargetView { block: step, args: leaving },
                        )
                        &&& found.function.block(found.current) == BlockView::empty()
                        &&& after == found.bind_entries(
                            bindings,
                            receiver,
                            current,
                            found.collection_args(receiver),
                            span,
                            deeper,
                            bindings.len(),
                        )
                    },
            }
        }),
{
    broadcast use {emit_does, steps};

    reveal(BodyView::bind_counted);
    what_is_seen(b);
    match counted.source {
        Source::List { receiver, indexed } => {
            let ty = ty_or_never_view(b.collection_args(receiver), 0);
            let (read, element) = b.emit(
                InstKindView::GetIndex { receiver, index: current },
                ty,
                span,
            );
            assert(does(
                b,
                read,
                InstKindView::GetIndex { receiver, index: current },
                element,
                ty,
            ));
        },
        Source::Table(receiver) => {
            let (asked, test) = b.emit(
                InstKindView::Occupied { receiver, index: current },
                TyView::Bool,
                span,
            );
            let (opened, block) = asked.add_block(span);
            let found = opened.terminate(
                TerminatorView::Branch {
                    condition: test,
                    then: TargetView::to(block),
                    otherwise: target_view(step, leaving),
                },
            ).switch_to(block);
            what_is_seen(found);
            assert(seen(found, b.current).term is Some);
            assert(seen(found, block) == BlockView::empty());
            assert(goes(found, b.current, test, true) == Some(TargetView::to(found.current)));
        },
        _ => {},
    }
}

/// Whether a loop that counts is wired as one: what comes before enters it with the first
/// value of the counter; its test sends it into a pass where it goes on, and to what
/// follows where it does not; and what the loop leaves or goes on with is what follows,
/// and the block that steps.
pub open spec fn counts<'a>(
    b: BodyView<'a>,
    entered: BodyView<'a>,
    tested: BodyView<'a>,
    condition: Value,
    inside: BodyView<'a>,
    after: BodyView<'a>,
    carried: Seq<u32>,
) -> bool {
    &&& goes(inside, tested.current, condition, true) == Some(TargetView::to(inside.current))
    &&& goes(inside, tested.current, condition, false) == Some(
        TargetView { block: after.current, args: tested.defs_of(carried) },
    )
    &&& inside.function.block(inside.current) == BlockView::empty()
    &&& inside.defs == entered.defs
    &&& inside.current != after.current
    &&& !inside.left
}

/// A loop that counts enters its test with the first value of its counter, after what its
/// body carries. Where the test holds, a pass runs; where it does not, control goes to
/// what follows.
pub proof fn a_counting_loop_tests_before_each_pass<'a>(
    b: BodyView<'a>,
    label: Option<Seq<char>>,
    bindings: Seq<Binding>,
    counted: CountedView,
    carried: Seq<u32>,
    header: BlockId,
    body: Block,
    span: Span,
    deeper: Deeper<'a>,
)
    requires
        can_go_on(b),
        header.0 < b.function.blocks.len(),
        header != b.current,
        b.function.block(header) == BlockView::empty(),
        b.function.values.len() + 4 * carried.len() + 256 < id_limit(),
        b.function.blocks.len() + 128 < id_limit(),
    ensures
        ({
            let passing = carried.push(counted.counter);
            let after = b.for_counted(
                label,
                bindings,
                counted,
                carried,
                header,
                body,
                span,
                deeper,
            );
            exists|entered: BodyView<'a>|
                {
                    let (tested, condition) = #[trigger] entered.goes_on(
                        counted.source,
                        entered.def_of(counted.counter),
                        span,
                    );
                    &&& entered.current == header
                    &&& entered.function.block(header).insts.len() == 0
                    &&& goes_on_to(entered, b.current) matches Some(to) && to.block == header
                        && to.args.len() == passing.len() && to.args.last() == counted.first
                    &&& can_go_on(tested) && tested.function.values.len() + 2 * carried.len() + 64
                        < id_limit() ==> exists|inside: BodyView<'a>|
                        #[trigger] counts(
                            b,
                            entered,
                            tested,
                            condition,
                            inside,
                            after,
                            carried,
                        )
                }
        }),
{
    broadcast use steps;

    reveal(BodyView::for_counted);
    what_is_seen(b);
    let passing = carried.push(counted.counter);
    let set = b.set_def(counted.counter, counted.first);
    let jumped = set.jump_to(header, passing);
    let named = jumped.switch_to(header).add_params(header, passing, span, passing.len());
    let entered = named.bind_params(header, passing);
    what_is_seen(set);
    what_is_seen(entered);
    assert(set.defs_of(passing).last() == counted.first) by {
        reveal(BodyView::defs_of);
        reveal(BodyView::def_of);
    }
    assert(set.defs_of(passing).len() == passing.len()) by {
        reveal(BodyView::defs_of);
    }
    assert(seen(entered, b.current).term == Some(
        TerminatorView::Jump(TargetView { block: header, args: set.defs_of(passing) }),
    ));
    assert(seen(entered, header).insts =~= Seq::empty());
    let current = entered.def_of(counted.counter);
    let (tested, condition) = entered.goes_on(counted.source, current, span);
    what_is_seen(tested);
    let after = b.for_counted(label, bindings, counted, carried, header, body, span, deeper);
    what_is_seen(after);
    let (one, inner) = tested.add_block(span);
    let (two, step) = one.add_block(span);
    let (three, exit) = two.add_block(span);
    assert(three.defs_of(carried) == tested.defs_of(carried)) by {
        reveal(BodyView::add_block);
        reveal(BodyView::gap);
        same_bindings(three, tested, carried);
    }
    let leaving = three.defs_of(carried);
    let four = three.add_params(exit, carried, span, carried.len());
    let five = four.add_params(step, carried, span, carried.len());
    let ended = five.terminate(
        TerminatorView::Branch {
            condition,
            then: TargetView::to(inner),
            otherwise: target_view(exit, leaving),
        },
    );
    let inside = ended.switch_to(inner).restore(entered.saved_defs());
    what_is_seen(inside);
    assert(after.current == exit) by {
        reveal(BodyView::for_counted);
    }
    if can_go_on(tested) && tested.function.values.len() + 2 * carried.len() + 64 < id_limit() {
        assert(seen(inside, tested.current).term is Some);
        assert(seen(inside, inner) == BlockView::empty());
        assert(goes(inside, tested.current, condition, true) == Some(TargetView::to(inner)));
        assert(counts(b, entered, tested, condition, inside, after, carried));
    }
}

/// A literal matches what equals it, the subject on the left; `nil` matches an optional
/// that holds nothing.
pub proof fn a_literal_matches_what_equals_it<'a>(
    b: BodyView<'a>,
    subject: Value,
    pattern: Pattern,
    deeper: Deeper<'a>,
)
    requires
        pattern.kind is Literal,
        can_go_on(b),
        can_go_on(
            b.expr(*pattern.kind->Literal_0, Some(b.type_at(subject)), deeper).0,
        ),
    ensures
        ({
            let literal = *pattern.kind->Literal_0;
            let (after, test) = b.decides(subject, pattern, deeper);
            if literal.kind is Nil && b.type_at(subject) is Optional {
                exists|asked: BodyView<'a>, some: Value|
                    #[trigger] does(
                        b,
                        asked,
                        InstKindView::IsSome { value: subject },
                        some,
                        TyView::Bool,
                    ) && test is Some && does(
                        asked,
                        after,
                        InstKindView::Unary { op: UnaryOp::Not, operand: some },
                        test->Some_0,
                        TyView::Bool,
                    )
            } else {
                let (read, value) = b.expr(literal, Some(b.type_at(subject)), deeper);
                test is Some && does(
                    read,
                    after,
                    InstKindView::Binary { op: BinaryOp::Equal, left: subject, right: value },
                    test->Some_0,
                    TyView::Bool,
                )
            }
        }),
{
    broadcast use emit_does;

    reveal(BodyView::decides);
    let (asked, some) = b.emit(
        InstKindView::IsSome { value: subject },
        TyView::Bool,
        pattern.span,
    );
    assert(does(b, asked, InstKindView::IsSome { value: subject }, some, TyView::Bool));
}

/// One alternative is enough: what several come down to holds where any of them does.
pub proof fn one_alternative_is_enough<'a>(
    b: BodyView<'a>,
    subject: Value,
    list: Seq<Pattern>,
    span: Span,
    deeper: Deeper<'a>,
    i: nat,
)
    requires
        i < list.len(),
        ({
            let (before, held) = b.alternatives(subject, list, span, deeper, i);
            let (decided, test) = before.decides(subject, list[i as int], deeper);
            held is Some && test is Some && can_go_on(decided)
        }),
    ensures
        ({
            let (before, held) = b.alternatives(subject, list, span, deeper, i);
            let (decided, test) = before.decides(subject, list[i as int], deeper);
            let (after, now) = b.alternatives(subject, list, span, deeper, i + 1);
            match held->Some_0 {
                Some(earlier) => now matches Some(Some(both)) && does(
                    decided,
                    after,
                    InstKindView::Binary {
                        op: BinaryOp::BitOr,
                        left: earlier,
                        right: test->Some_0,
                    },
                    both,
                    TyView::Bool,
                ),
                None => (after, now) == (decided, Some(test)),
            }
        }),
{
    broadcast use emit_does;

    reveal(BodyView::alternatives);
}

/// Each member of a tuple, and each part of a payload, is tested in its place: the pattern
/// at a position against what is read from that position.
pub proof fn a_part_is_tested_in_its_place<'a>(
    b: BodyView<'a>,
    subject: Value,
    variant: u32,
    patterns: Seq<Pattern>,
    types: Seq<TyView>,
    fail: BlockId,
    span: Span,
    deeper: Deeper<'a>,
    i: nat,
)
    requires
        i < patterns.len() < u32::MAX,
        i < types.len(),
        can_go_on(b.test_members(subject, patterns, types, fail, span, deeper, i)),
        can_go_on(b.test_payload(subject, variant, patterns, types, fail, span, deeper, i)),
    ensures
        ({
            let before = b.test_members(subject, patterns, types, fail, span, deeper, i);
            let after = b.test_members(subject, patterns, types, fail, span, deeper, i + 1);
            exists|read: BodyView<'a>, part: Value|
                #[trigger] does(
                    before,
                    read,
                    InstKindView::GetElement { tuple: subject, index: i as u32 },
                    part,
                    types[i as int],
                ) && after == read.test(part, patterns[i as int], fail, deeper)
        }),
        ({
            let before = b.test_payload(subject, variant, patterns, types, fail, span, deeper, i);
            let after = b.test_payload(
                subject,
                variant,
                patterns,
                types,
                fail,
                span,
                deeper,
                i + 1,
            );
            exists|read: BodyView<'a>, part: Value|
                #[trigger] does(
                    before,
                    read,
                    InstKindView::GetPayload { value: subject, variant, field: i as u32 },
                    part,
                    types[i as int],
                ) && after == read.test(part, patterns[i as int], fail, deeper)
        }),
{
    broadcast use emit_does;

    reveal(BodyView::test_members);
    reveal(BodyView::test_payload);
    let before = b.test_members(subject, patterns, types, fail, span, deeper, i);
    let (read, part) = before.emit(
        InstKindView::GetElement { tuple: subject, index: index_id_view(i) },
        types[i as int],
        span,
    );
    assert(does(
        before,
        read,
        InstKindView::GetElement { tuple: subject, index: i as u32 },
        part,
        types[i as int],
    ));
    let other = b.test_payload(subject, variant, patterns, types, fail, span, deeper, i);
    let (held, value) = other.emit(
        InstKindView::GetPayload { value: subject, variant, field: index_id_view(i) },
        types[i as int],
        span,
    );
    assert(does(
        other,
        held,
        InstKindView::GetPayload { value: subject, variant, field: i as u32 },
        value,
        types[i as int],
    ));
}

/// A method that changes a collection is the instruction that changes it so, on what it
/// is called on, with its arguments in order.
pub proof fn a_collection_is_changed_as_named<'a>(
    b: BodyView<'a>,
    mutation: CollectionMutation,
    callee: Expr,
    args: Seq<Given<'a>>,
    span: Span,
    deeper: Deeper<'a>,
)
    requires
        ({
            let (read, receiver) = b.expr(callee, None, deeper);
            let element = ty_at_view(read.collection_args(receiver), 0);
            &&& can_go_on(read)
            &&& element is Some
            &&& args.len() > 0
            &&& mutation is ListInsert ==> args.len() > 1
            &&& can_go_on(read.expr(*args[0].value, Some(element->Some_0), deeper).0)
            &&& can_go_on(read.expr(*args[0].value, Some(TyView::integer()), deeper).0)
            &&& args.len() > 1 ==> can_go_on(
                read.expr(*args[0].value, Some(TyView::integer()), deeper).0.expr(
                    *args[1].value,
                    Some(element->Some_0),
                    deeper,
                ).0,
            )
        }),
    ensures
        ({
            let (read, receiver) = b.expr(callee, None, deeper);
            let element = ty_at_view(read.collection_args(receiver), 0)->Some_0;
            let (held, value) = read.expr(*args[0].value, Some(element), deeper);
            let (placed, index) = read.expr(*args[0].value, Some(TyView::integer()), deeper);
            let (after, given) = b.collection_mutation(mutation, callee, args, span, deeper);
            match mutation {
                CollectionMutation::ListPop => does(
                    read,
                    after,
                    InstKindView::ListPop { receiver },
                    given,
                    read.recorded(span).1,
                ),
                CollectionMutation::Clear => exists|changed: BodyView<'a>|
                    #[trigger] acts(read, changed, InstKindView::Clear { receiver }) && (
                        after,
                        given,
                    ) == changed.unit(span),
                CollectionMutation::ListRemoveAt => does(
                    placed,
                    after,
                    InstKindView::ListRemoveAt { receiver, index },
                    given,
                    placed.recorded(span).1,
                ),
                CollectionMutation::ListInsert => {
                    let (both, put) = placed.expr(*args[1].value, Some(element), deeper);
                    exists|changed: BodyView<'a>|
                        #[trigger] acts(
                            both,
                            changed,
                            InstKindView::ListInsert { receiver, index, value: put },
                        ) && (after, given) == changed.unit(span)
                },
                CollectionMutation::MapRemove => does(
                    held,
                    after,
                    InstKindView::MapRemove { receiver, key: value },
                    given,
                    held.recorded(span).1,
                ),
                CollectionMutation::SetRemove => does(
                    held,
                    after,
                    InstKindView::SetRemove { receiver, value },
                    given,
                    held.recorded(span).1,
                ),
                CollectionMutation::ListPush => exists|changed: BodyView<'a>|
                    #[trigger] acts(held, changed, InstKindView::ListPush { receiver, value }) && (
                        after,
                        given,
                    ) == changed.unit(span),
                CollectionMutation::SetInsert => exists|changed: BodyView<'a>|
                    #[trigger] acts(held, changed, InstKindView::SetInsert { receiver, value }) && (
                        after,
                        given,
                    ) == changed.unit(span),
            }
        }),
{
    broadcast use {emit_does, emit_void_acts, a_recorded_type_changes_nothing};

    reveal(BodyView::collection_mutation);
    let (read, receiver) = b.expr(callee, None, deeper);
    let element = ty_at_view(read.collection_args(receiver), 0)->Some_0;
    let (held, value) = read.expr(*args[0].value, Some(element), deeper);
    let (placed, index) = read.expr(*args[0].value, Some(TyView::integer()), deeper);
    match mutation {
        CollectionMutation::Clear => {
            let kind = InstKindView::Clear { receiver };
            assert(acts(read, read.emit_void(kind, span), kind));
        },
        CollectionMutation::ListInsert => {
            let (both, put) = placed.expr(*args[1].value, Some(element), deeper);
            let kind = InstKindView::ListInsert { receiver, index, value: put };
            assert(acts(both, both.emit_void(kind, span), kind));
        },
        CollectionMutation::ListPush => {
            let kind = InstKindView::ListPush { receiver, value };
            assert(acts(held, held.emit_void(kind, span), kind));
        },
        CollectionMutation::SetInsert => {
            let kind = InstKindView::SetInsert { receiver, value };
            assert(acts(held, held.emit_void(kind, span), kind));
        },
        _ => {},
    }
}

/// Whether a collection holds a value is asked of the collection, about the value.
pub proof fn a_lookup_asks_the_collection<'a>(
    b: BodyView<'a>,
    callee: Expr,
    args: Seq<Given<'a>>,
    span: Span,
    deeper: Deeper<'a>,
)
    requires
        args.len() > 0,
        ({
            let (read, receiver) = b.expr(callee, None, deeper);
            let element = ty_at_view(read.collection_args(receiver), 0);
            element is Some && can_go_on(
                read.expr(*args[0].value, Some(element->Some_0), deeper).0,
            )
        }),
    ensures
        ({
            let (read, receiver) = b.expr(callee, None, deeper);
            let element = ty_at_view(read.collection_args(receiver), 0)->Some_0;
            let (held, value) = read.expr(*args[0].value, Some(element), deeper);
            let (after, given) = b.contains(callee, args, span, deeper);
            does(held, after, InstKindView::Contains { receiver, value }, given, TyView::Bool)
        }),
{
    broadcast use emit_does;

    reveal(BodyView::contains);
}

/// What reads the field at `i` of a struct, or of what a variant carries.
pub open spec fn part_read(value: Value, variant: Option<u32>, i: nat) -> InstKindView {
    match variant {
        Some(variant) => InstKindView::GetPayload { value, variant, field: i as u32 },
        None => InstKindView::GetField { object: value, field: i as u32 },
    }
}

/// Two values are compared by the `eq` of their type where it has one, and otherwise as
/// what they are.
pub proof fn values_are_compared_by_their_type<'a>(
    b: BodyView<'a>,
    left: Value,
    right: Value,
    ty: TyView,
    span: Span,
)
    requires
        can_go_on(b),
    ensures
        ({
            let (after, given) = b.same(left, right, ty, span);
            match shown_by_view(ty, b.context.equals) {
                Some(callee) => does(
                    b,
                    after,
                    InstKindView::Call {
                        callee,
                        type_args: args_given_view(ty),
                        args: seq![left, right],
                    },
                    given,
                    TyView::Bool,
                ),
                None => does(
                    b,
                    after,
                    InstKindView::Binary { op: BinaryOp::Equal, left, right },
                    given,
                    TyView::Bool,
                ),
            }
        }),
{
    broadcast use emit_does;

    reveal(BodyView::same);
}

/// A derived `eq` reads each field of both values and compares the two: where they are the
/// same it goes on with the next field, and where they are not it goes to `differs`.
pub proof fn a_derived_eq_compares_field_by_field<'a>(
    b: BodyView<'a>,
    left: Value,
    right: Value,
    variant: Option<u32>,
    fields: Seq<FieldView>,
    differs: BlockId,
    span: Span,
    i: nat,
)
    requires
        i < fields.len() < u32::MAX,
        can_go_on(b.eq_fields(left, right, variant, fields, differs, span, i)),
    ensures
        ({
            let before = b.eq_fields(left, right, variant, fields, differs, span, i);
            let after = b.eq_fields(left, right, variant, fields, differs, span, i + 1);
            let ty = fields[i as int].ty;
            exists|one: BodyView<'a>, first: Value, two: BodyView<'a>, second: Value|
                {
                    let (compared, same) = two.same(first, second, ty, span);
                    &&& #[trigger] does(before, one, part_read(left, variant, i), first, ty)
                    &&& #[trigger] does(one, two, part_read(right, variant, i), second, ty)
                    &&& goes(after, before.current, same, true) == Some(
                        TargetView::to(after.current),
                    )
                    &&& goes(after, before.current, same, false) == Some(TargetView::to(differs))
                    &&& after.function.block(before.current).insts
                        == compared.function.block(before.current).insts
                    &&& after.function.block(after.current) == BlockView::empty()
                    &&& !after.left
                }
        }),
{
    broadcast use {emit_does, steps};

    reveal(BodyView::eq_fields);
    reveal(BodyView::branch);
    reveal(BodyView::same);
    let before = b.eq_fields(left, right, variant, fields, differs, span, i);
    what_is_seen(before);
    let ty = fields[i as int].ty;
    let (one, first) = before.emit(part_read(left, variant, i), ty, span);
    let (two, second) = one.emit(part_read(right, variant, i), ty, span);
    assert(does(before, one, part_read(left, variant, i), first, ty));
    assert(does(one, two, part_read(right, variant, i), second, ty));
    let (compared, same) = two.same(first, second, ty, span);
    what_is_seen(compared);
    let after = b.eq_fields(left, right, variant, fields, differs, span, i + 1);
    what_is_seen(after);
    assert(seen(after, before.current).term is Some);
    assert(seen(after, after.current) == BlockView::empty());
}

/// Two structs are equal where every field was found the same, and differ where one was
/// not: once every field is compared `true` is given back, and in the block a difference
/// leads to, `false`.
pub proof fn a_derived_eq_answers_once_every_field_is_the_same<'a>(
    b: BodyView<'a>,
    fields: Seq<FieldView>,
    span: Span,
)
    requires
        b.function.entry.0 < b.function.blocks.len() < id_limit(),
        b.function.block(b.function.entry).params.len() == 2,
        comparable_all_view(fields, b.context.equals),
        ({
            let params = b.function.block(b.function.entry).params;
            let (opened, differs) = b.add_block(span);
            let compared = opened.eq_fields(
                params[0],
                params[1],
                None,
                fields,
                differs,
                span,
                fields.len(),
            );
            &&& can_go_on(compared)
            &&& compared.current != differs
            &&& differs.0 < compared.function.blocks.len()
            &&& compared.function.block(differs) == BlockView::empty()
        }),
    ensures
        ({
            let params = b.function.block(b.function.entry).params;
            let (opened, differs) = b.add_block(span);
            let compared = opened.eq_fields(
                params[0],
                params[1],
                None,
                fields,
                differs,
                span,
                fields.len(),
            );
            let (after, written) = b.struct_eq(fields, span);
            let same = after.function.block(compared.current);
            let other = after.function.block(differs);
            &&& written
            &&& same.insts.last().kind == InstKindView::Const(ConstView::Bool(true))
            &&& same.term == Some(TerminatorView::Return(same.insts.last().result->Some_0))
            &&& other.insts.len() == 1
            &&& other.insts[0].kind == InstKindView::Const(ConstView::Bool(false))
            &&& other.term == Some(TerminatorView::Return(other.insts[0].result->Some_0))
        }),
{
    broadcast use steps;

    reveal(BodyView::struct_eq);
    reveal(BodyView::answer);
    reveal(BodyView::params_of);
    let params = b.function.block(b.function.entry).params;
    let (opened, differs) = b.add_block(span);
    let compared = opened.eq_fields(
        params[0],
        params[1],
        None,
        fields,
        differs,
        span,
        fields.len(),
    );
    what_is_seen(compared);
    let after = b.struct_eq(fields, span).0;
    what_is_seen(after);
    assert(seen(after, compared.current).term is Some);
    assert(seen(after, differs).term is Some);
    assert(seen(after, differs).insts.len() == 1);
}

/// Whether `after` goes on with the text of a truth: `true` where `value` holds, and
/// `false` where it does not.
pub open spec fn spells<'a>(
    b: BodyView<'a>,
    after: BodyView<'a>,
    value: Value,
    text: Value,
) -> bool {
    &&& forall|truth: bool|
        (#[trigger] goes(after, b.current, value, truth)) matches Some(way) && {
            let block = after.function.block(way.block);
            &&& way.args.len() == 0
            &&& block.insts.len() == 1
            &&& block.insts[0].kind == InstKindView::Const(
                ConstView::Str(
                    if truth {
                        "true"@
                    } else {
                        "false"@
                    },
                ),
            )
            &&& goes_on_to(after, way.block) == Some(
                TargetView { block: after.current, args: seq![block.insts[0].result->Some_0] },
            )
        }
    &&& after.function.block(after.current).params == seq![text]
}

/// A truth is shown as it is.
pub proof fn a_truth_is_shown_as_it_is<'a>(b: BodyView<'a>, value: Value, span: Span)
    requires
        can_go_on(b),
    ensures
        spells(b, b.display_bool(value, span).0, value, b.display_bool(value, span).1),
        b.type_at(value) == TyView::Bool ==> spells(
            b,
            b.display(value, span).0,
            value,
            b.display(value, span).1,
        ),
{
    broadcast use steps;

    reveal(BodyView::display_bool);
    reveal(BodyView::display);
    reveal(BodyView::string);
    reveal(BodyView::branch);
    reveal(BodyView::jump_with);
    what_is_seen(b);
    let (one, yes) = b.add_block(span);
    let (two, no) = one.add_block(span);
    let (three, join) = two.add_block(span);
    let (after, text) = b.display_bool(value, span);
    what_is_seen(after);
    assert(seen(after, b.current).term is Some);
    assert(seen(after, yes).term is Some);
    assert(seen(after, no).term is Some);
    assert(seen(after, yes).insts.len() == 1);
    assert(seen(after, no).insts.len() == 1);
    assert(seen(after, join).params =~= seq![text]);
    if b.type_at(value) == TyView::Bool {
        let (shown, spelled) = b.display(value, span);
        what_is_seen(shown);
        assert(seen(shown, b.current).term is Some);
        assert(seen(shown, yes).term is Some);
        assert(seen(shown, no).term is Some);
        assert(seen(shown, yes).insts.len() == 1);
        assert(seen(shown, no).insts.len() == 1);
        assert(seen(shown, join).params =~= seq![spelled]);
    }
}

/// What reads the field at `i` of a struct, or of what a variant carries.
pub open spec fn reads_part(kind: InstKindView, value: Value, variant: Option<u32>, i: nat) -> bool {
    match variant {
        Some(tag) => kind == (InstKindView::GetPayload { value, variant: tag, field: i as u32 }),
        None => kind == (InstKindView::GetField { object: value, field: i as u32 }),
    }
}

/// What hashes a value: the instruction for it, or its type's own `hash`.
pub open spec fn hashes(kind: InstKindView, value: Value) -> bool {
    ||| kind == (InstKindView::HashValue { value })
    ||| kind matches InstKindView::Call { args, .. } && args == seq![value]
}

/// A derived `hash` takes in each field, in the order they are declared: the field is
/// read, hashed, and combined with what the hash was before.
pub proof fn a_derived_hash_takes_in_each_field<'a>(
    b: BodyView<'a>,
    first: Value,
    value: Value,
    variant: Option<u32>,
    fields: Seq<FieldView>,
    span: Span,
    i: nat,
)
    requires
        i < id_limit(),
        ({
            let before = b.hash_fields(first, value, variant, fields, span, i).0;
            before.function.values.len() + 3 < id_limit() && before.current.0
                < before.function.blocks.len()
        }),
    ensures
        b.hash_fields(first, value, variant, fields, span, 0) == (b, first),
        ({
            let (before, state) = b.hash_fields(first, value, variant, fields, span, i);
            let (after, more) = b.hash_fields(first, value, variant, fields, span, i + 1);
            let was = before.function.block(before.current).insts;
            let now = after.function.block(before.current).insts;
            let n = was.len() as int;
            &&& after.current == before.current
            &&& now.len() == n + 3
            &&& now.take(n) == was
            &&& reads_part(now[n].kind, value, variant, i)
            &&& now[n].result matches Some(read) && hashes(now[n + 1].kind, read)
            &&& now[n + 1].result matches Some(hashed) && now[n + 2].kind == (
            InstKindView::HashCombine { state, value: hashed })
            &&& now[n + 2].result == Some(more)
        }),
{
    broadcast use emit_does;

    reveal_with_fuel(BodyView::hash_fields, 2);
    reveal(BodyView::hash);
    reveal(BodyView::combine);
    let (before, state) = b.hash_fields(first, value, variant, fields, span, i);
    let (after, more) = b.hash_fields(first, value, variant, fields, span, i + 1);
    let was = before.function.block(before.current).insts;
    let now = after.function.block(before.current).insts;
    let (read, held) = before.emit(
        field_read_view(value, variant, i),
        fields[i as int].ty,
        span,
    );
    let (two, hashed) = read.hash(held, fields[i as int].ty, span);
    let one = read.function.block(before.current).insts;
    let next = two.function.block(before.current).insts;
    assert(one == was.push(one.last()));
    assert(next == one.push(next.last()));
    assert(now == next.push(now.last()));
    assert(now.take(was.len() as int) =~= was);
}

/// Where a tag decides, the variant it names decides which block is next, and a tag that
/// names none is not reached.
pub proof fn a_tag_decides_for_its_variant<'a>(
    b: BodyView<'a>,
    tag: Value,
    blocks: Seq<BlockId>,
    from: BlockId,
    span: Span,
)
    requires
        b.function.blocks.len() < id_limit(),
        from.0 < b.function.blocks.len(),
        b.function.block(from).term is None,
    ensures
        b.choose_variant(tag, blocks, from, span).function.block(from).term matches Some(
            TerminatorView::Switch { value, cases, default },
        ) && value == tag && cases.len() == blocks.len() && (forall|i: int|
            0 <= i < blocks.len() ==> (#[trigger] cases[i]).0 == i as u64 && cases[i].1.block
                == blocks[i] && cases[i].1.args.len() == 0) && b.choose_variant(
            tag,
            blocks,
            from,
            span,
        ).function.block(default.block).term == Some(TerminatorView::Trap(Trap::Unreachable)),
{
    broadcast use steps;

    reveal(BodyView::choose_variant);
    what_is_seen(b);
    let after = b.choose_variant(tag, blocks, from, span);
    what_is_seen(after);
    let (one, unreached) = b.add_block(span);
    assert(seen(after, from).term is Some);
    assert(seen(after, unreached).term is Some);
}

/// A clause without a type catches whatever was thrown. One with a type asks whether what
/// was thrown has it: where it has, the clause binds what is inside, and where it has not,
/// the next clause is tried.
pub proof fn a_clause_catches_what_it_names<'a>(
    b: BodyView<'a>,
    thrown: Value,
    clause: CatchClause,
    next: BlockId,
)
    requires
        can_go_on(b),
        next.0 < b.function.blocks.len(),
    ensures
        ({
            let (after, caught) = b.catch(thrown, clause, next);
            let (tests, test) = last(after, b.current);
            if clause.typed {
                &&& tests matches InstKindView::IsType { value, ty } && value == thrown && ty
                    == b.recorded(clause.span).1
                &&& goes(after, b.current, test, true) == Some(TargetView::to(after.current))
                &&& goes(after, b.current, test, false) == Some(TargetView::to(next))
                &&& after.current != b.current && after.current != next
                &&& after.function.block(after.current).insts.len() == 1
                &&& last(after, after.current) == (
                    InstKindView::DynValue { value: thrown },
                    caught,
                )
            } else {
                (after, caught) == (b, thrown)
            }
        }),
{
    broadcast use steps;

    reveal(BodyView::catch);
    reveal(BodyView::branch);
    what_is_seen(b);
    let (after, caught) = b.catch(thrown, clause, next);
    what_is_seen(after);
    if clause.typed {
        let (asked, ty) = b.recorded(clause.span);
        let (tested, test) = asked.emit(
            InstKindView::IsType { value: thrown, ty },
            TyView::Bool,
            clause.span,
        );
        let (one, matched) = tested.add_block(clause.span);
        assert(seen(after, b.current).term is Some);
        assert(seen(after, matched).insts.len() == 1);
        assert(place(after).0 == matched);
    }
}

/// A `Result` that failed goes one way, and one that succeeded the other: the tag of the
/// error half decides.
pub proof fn a_result_tells_whether_it_failed<'a>(
    b: BodyView<'a>,
    result: Value,
    failed: BlockId,
    succeeded: BlockId,
    span: Span,
)
    requires
        can_go_on(b),
    ensures
        ({
            let after = b.error_test(result, failed, succeeded, span);
            let (asked, test) = b.tag_test(result, 1, span);
            &&& goes(after, b.current, test, true) == Some(TargetView::to(failed))
            &&& goes(after, b.current, test, false) == Some(TargetView::to(succeeded))
        }),
{
    broadcast use steps;

    reveal(BodyView::error_test);
    reveal(BodyView::branch);
    reveal(BodyView::tag_test);
    what_is_seen(b);
    let after = b.error_test(result, failed, succeeded, span);
    what_is_seen(after);
    assert(seen(after, b.current).term is Some);
}

/// Reading at an index evaluates the container before the index, and reads the one at the
/// other. A range is read as a slice, which ends with its last index just where the range
/// does.
pub proof fn an_element_is_read_at_its_index<'a>(
    b: BodyView<'a>,
    receiver: Expr,
    index: Expr,
    span: Span,
    deeper: Deeper<'a>,
)
    requires
        b.reached(span) is None,
        ({
            let (read, object) = b.expr(receiver, None, deeper);
            let (settled, container) = read.settled(object, span);
            let held = settled.type_at(container);
            let found = settled.expr(index, index_type_view(held), deeper).0;
            &&& is_indexed_view(held)
            &&& found.function.values.len() + 2 < id_limit()
            &&& found.current.0 < found.function.blocks.len()
        }),
    ensures
        ({
            let (read, object) = b.expr(receiver, None, deeper);
            let (settled, container) = read.settled(object, span);
            let held = settled.type_at(container);
            let (found, at) = settled.expr(index, index_type_view(held), deeper);
            let result = found.recorded(span).1;
            let was = found.function.block(found.current).insts;
            let now = b.index(receiver, index, false, span, deeper).0.function.block(
                found.current,
            ).insts;
            &&& now.len() > was.len()
            &&& now[was.len() as int].kind == (if args_of_view(result, Builtin::Slice) is Some {
                InstKindView::MakeSlice {
                    receiver: container,
                    range: at,
                    inclusive: args_of_view(found.type_at(at), Builtin::RangeInclusive) is Some,
                }
            } else {
                InstKindView::GetIndex { receiver: container, index: at }
            })
        }),
{
    broadcast use emit_does;

    reveal(BodyView::index);
    reveal(BodyView::narrowed);
    let (read, object) = b.expr(receiver, None, deeper);
    let (settled, container) = read.settled(object, span);
    let held = settled.type_at(container);
    let (found, at) = settled.expr(index, index_type_view(held), deeper);
    a_recorded_type_changes_nothing(found, span);
    let (asked, result) = found.recorded(span);
    let kind = InstKindView::GetIndex { receiver: container, index: at };
    let was = found.function.block(found.current).insts;
    let once = asked.emit(kind, result, span).0.function.block(found.current).insts;
    assert(once == was.push(once.last()));
    let optional = optional_view(result);
    let stored = asked.emit(kind, optional, span).0.function.block(found.current).insts;
    assert(stored == was.push(stored.last()));
    let (held_by, value) = asked.emit(kind, optional, span);
    let twice = held_by.emit(InstKindView::Unwrap { value }, result, span).0.function.block(
        found.current,
    ).insts;
    assert(twice == stored.push(twice.last()));
    assert(twice[was.len() as int] == stored.last());
    let slice = InstKindView::MakeSlice {
        receiver: container,
        range: at,
        inclusive: args_of_view(asked.type_at(at), Builtin::RangeInclusive) is Some,
    };
    let sliced = asked.emit(slice, result, span).0.function.block(found.current).insts;
    assert(sliced == was.push(sliced.last()));
    assert(asked.type_at(at) == found.type_at(at)) by {
        reveal(BodyView::type_at);
    }
}

/// Whether `tried` is where a fallback is evaluated: nothing was written there yet, and it
/// is reached from `read` just where `value` holds nothing. Where it holds something, that
/// goes on to `join`: what is inside, or, where the whole may be nothing too, the value as
/// it is.
pub open spec fn falls_back<'a>(
    read: BodyView<'a>,
    tried: BodyView<'a>,
    value: Value,
    ty: TyView,
    join: BlockId,
) -> bool {
    let (tests, test) = last(tried, read.current);
    &&& tests == (InstKindView::IsSome { value })
    &&& goes(tried, read.current, test, false) == Some(TargetView::to(tried.current))
    &&& tried.function.block(tried.current).insts.len() == 0
    &&& tried.function.block(tried.current).term is None
    &&& goes(tried, read.current, test, true) matches Some(found) && {
        let there = tried.function.block(found.block);
        &&& found.args.len() == 0
        &&& found.block != tried.current
        &&& if ty is Optional {
            there.insts.len() == 0 && goes_on_to(tried, found.block) == Some(
                TargetView { block: join, args: seq![value] },
            )
        } else {
            &&& there.insts.len() == 1
            &&& there.insts[0].kind == (InstKindView::Unwrap { value })
            &&& goes_on_to(tried, found.block) == Some(
                TargetView { block: join, args: seq![there.insts[0].result->Some_0] },
            )
        }
    }
}

/// `??` gives what is there, and evaluates its right operand only where nothing is.
pub proof fn the_right_of_a_fallback_is_evaluated_where_nothing_is<'a>(
    b: BodyView<'a>,
    left: Expr,
    right: Expr,
    span: Span,
    deeper: Deeper<'a>,
)
    requires
        ({
            let (asked, ty) = b.recorded(span);
            can_go_on(asked.expr(left, Some(optional_view(ty)), deeper).0)
        }),
    ensures
        ({
            let (asked, ty) = b.recorded(span);
            let (read, value) = asked.expr(left, Some(optional_view(ty)), deeper);
            exists|tried: BodyView<'a>, join: BlockId|
                {
                    let (after, fallback) = tried.expr(right, Some(ty), deeper);
                    &&& #[trigger] falls_back(read, tried, value, ty, join)
                    &&& b.coalesce(left, right, span, deeper) == after.jump_with(
                        join,
                        fallback,
                    ).switch_to(join).add_block_param(join, ty, span)
                }
        }),
{
    broadcast use steps;

    reveal(BodyView::coalesce);
    reveal(BodyView::split_optional);
    reveal(BodyView::give_present);
    reveal(BodyView::branch);
    reveal(BodyView::jump_with);
    let (asked, ty) = b.recorded(span);
    let (read, value) = asked.expr(left, Some(optional_view(ty)), deeper);
    what_is_seen(read);
    let (split, ways) = read.split_optional(value, span);
    let given = split.give_present(value, ty, ways, span);
    let tried = given.switch_to(ways.otherwise);
    what_is_seen(tried);
    assert(seen(tried, read.current).term is Some);
    assert(seen(tried, ways.found).term is Some);
    assert(seen(tried, ways.otherwise).insts.len() == 0);
    assert(seen(tried, ways.otherwise).term is None);
    assert(place(tried).0 == ways.otherwise);
    assert(ty is Optional <==> optional_inner_view(ty) is Some);
    assert(falls_back(read, tried, value, ty, ways.join));
}

/// A member of a tuple is bound in its place: the binding at `i` binds the member at `i`.
pub proof fn a_member_is_bound_in_its_place<'a>(
    b: BodyView<'a>,
    value: Value,
    bindings: Seq<Binding>,
    members: Seq<TyView>,
    span: Span,
    deeper: Deeper<'a>,
    i: nat,
)
    requires
        i < bindings.len(),
        i < id_limit(),
        ({
            let before = b.bind_members(value, bindings, members, span, deeper, i);
            before.function.values.len() < id_limit() && before.current.0
                < before.function.blocks.len()
        }),
    ensures
        ({
            let before = b.bind_members(value, bindings, members, span, deeper, i);
            let after = b.bind_members(value, bindings, members, span, deeper, i + 1);
            exists|read: BodyView<'a>, member: Value|
                {
                    &&& does(
                        before,
                        read,
                        InstKindView::GetElement { tuple: value, index: i as u32 },
                        member,
                        if i < members.len() {
                            members[i as int]
                        } else {
                            TyView::Never
                        },
                    )
                    &&& after == #[trigger] read.bind_value(
                        bindings[i as int],
                        member,
                        span,
                        deeper,
                    )
                }
        }),
{
    broadcast use emit_does;

    reveal_with_fuel(BodyView::bind_members, 2);
    let before = b.bind_members(value, bindings, members, span, deeper, i);
    let ty = if i < members.len() {
        members[i as int]
    } else {
        TyView::Never
    };
    let (read, member) = before.emit(
        InstKindView::GetElement { tuple: value, index: i as u32 },
        ty,
        span,
    );
    assert(does(
        before,
        read,
        InstKindView::GetElement { tuple: value, index: i as u32 },
        member,
        ty,
    ));
    let after = b.bind_members(value, bindings, members, span, deeper, i + 1);
    assert(after == read.bind_value(bindings[i as int], member, span, deeper));
}

proof fn the_named_field_is_found(fields: Seq<(Seq<char>, TyView)>, name: Seq<char>, from: nat)
    ensures
        match field_from(fields, name, from) {
            Some(at) => from <= at < fields.len() && fields[at as int].0 == name && forall|j: int|
                from <= j < at ==> (#[trigger] fields[j]).0 != name,
            None => forall|j: int|
                from <= j < fields.len() ==> (#[trigger] fields[j]).0 != name,
        },
    decreases fields.len() - from,
{
    if from < fields.len() {
        the_named_field_is_found(fields, name, from + 1);
    }
}

/// A field is found by its name: the first of that name, and none just where no field has
/// it.
pub proof fn a_field_is_found_by_its_name(fields: Seq<(Seq<char>, TyView)>, name: Seq<char>)
    requires
        fields.len() <= u32::MAX,
    ensures
        match field_at_view(fields, name) {
            Some(at) => at < fields.len() && fields[at as int].0 == name && forall|j: int|
                0 <= j < at ==> (#[trigger] fields[j]).0 != name,
            None => forall|j: int| 0 <= j < fields.len() ==> (#[trigger] fields[j]).0 != name,
        },
{
    the_named_field_is_found(fields, name, 0);
}

/// A field of a record is bound under the name it is given, or else under its own: what the
/// binding holds was read from the field of that name.
pub proof fn a_field_is_bound_by_its_name<'a>(
    b: BodyView<'a>,
    value: Value,
    fields: Seq<FieldBinding>,
    declared: Seq<(Seq<char>, TyView)>,
    i: nat,
    field: u32,
)
    requires
        i < fields.len(),
        declared.len() <= u32::MAX,
        field < declared.len(),
        declared[field as int].0 == fields[i as int].field@,
        forall|j: int| 0 <= j < field ==> (#[trigger] declared[j]).0 != declared[field as int].0,
        ({
            let before = b.bind_record(value, fields, declared, i);
            &&& before.function.values.len() < id_limit()
            &&& before.current.0 < before.function.blocks.len()
            &&& before.scopes.len() > 0
            &&& before.next_var < u32::MAX
        }),
    ensures
        ({
            let before = b.bind_record(value, fields, declared, i);
            let after = b.bind_record(value, fields, declared, i + 1);
            let inst = after.function.block(before.current).insts.last();
            let var = before.next_var;
            &&& inst.kind == (InstKindView::GetField { object: value, field })
            &&& after.defs == before.defs.insert(var, inst.result->Some_0)
            &&& after.scopes.last() == before.scopes.last().push(
                (
                    match fields[i as int].bound_as {
                        Some(name) => name@,
                        None => fields[i as int].field@,
                    },
                    var,
                ),
            )
        }),
{
    broadcast use emit_does;

    reveal_with_fuel(BodyView::bind_record, 2);
    reveal(BodyView::declare);
    reveal(BodyView::set_def);
    a_field_is_found_by_its_name(declared, fields[i as int].field@);
    let before = b.bind_record(value, fields, declared, i);
    let (read, held) = before.emit(
        InstKindView::GetField { object: value, field },
        field_ty_view(declared, field),
        fields[i as int].span,
    );
    assert(read.scopes == before.scopes && read.next_var == before.next_var) by {
        reveal(BodyView::emit);
    }
}

/// Whether the block `entry` compares the variants of two values: it goes to `carried`
/// where their tags are the same, and to `differs`, which answers `false`, where they are
/// not.
pub open spec fn compares_tags<'a>(
    told: BodyView<'a>,
    entry: BlockId,
    left: Value,
    right: Value,
    tag: Value,
    carried: BlockId,
    differs: BlockId,
) -> bool {
    let insts = told.function.block(entry).insts;
    let test = insts[2].result->Some_0;
    let answers = told.function.block(differs);
    &&& insts.len() == 3
    &&& insts[0].kind == (InstKindView::GetTag { value: left })
    &&& insts[0].result == Some(tag)
    &&& insts[1].kind == (InstKindView::GetTag { value: right })
    &&& insts[2].kind == (InstKindView::Binary {
        op: BinaryOp::Equal,
        left: tag,
        right: insts[1].result->Some_0,
    })
    &&& goes(told, entry, test, true) == Some(TargetView::to(carried))
    &&& goes(told, entry, test, false) == Some(TargetView::to(differs))
    &&& answers.insts.len() == 1
    &&& answers.insts[0].kind == InstKindView::Const(ConstView::Bool(false))
    &&& answers.term == Some(TerminatorView::Return(answers.insts[0].result->Some_0))
}

/// A derived `eq` of an enum compares the variants first: where the tags differ, the answer
/// is `false`.
pub proof fn a_derived_eq_compares_variants_first<'a>(
    b: BodyView<'a>,
    variants: Seq<VariantView>,
    span: Span,
)
    requires
        can_go_on(b),
        b.current == b.function.entry,
        b.function.block(b.function.entry).insts.len() == 0,
        b.params_of(b.function.entry).len() == 2,
        comparable_in_view(variants, b.context.equals),
    ensures
        ({
            let entry = b.function.entry;
            let params = b.params_of(entry);
            exists|told: BodyView<'a>, tag: Value, carried: BlockId, differs: BlockId|
                {
                    let (after, blocks) = told.eq_variants(
                        params[0],
                        params[1],
                        variants,
                        differs,
                        span,
                        variants.len(),
                    );
                    &&& #[trigger] compares_tags(
                        told,
                        entry,
                        params[0],
                        params[1],
                        tag,
                        carried,
                        differs,
                    )
                    &&& b.enum_eq(variants, span) == (
                        after.choose_variant(tag, blocks, carried, span),
                        true,
                    )
                }
        }),
{
    broadcast use steps;

    reveal(BodyView::enum_eq);
    reveal(BodyView::answer);
    reveal(BodyView::branch);
    what_is_seen(b);
    let entry = b.function.entry;
    let params = b.params_of(entry);
    let left = params[0];
    let right = params[1];
    let ty = TyView::Int(IntTy::I64);
    let (one, tag) = b.emit(InstKindView::GetTag { value: left }, ty, span);
    let (two, other) = one.emit(InstKindView::GetTag { value: right }, ty, span);
    let (three, same) = two.emit(
        InstKindView::Binary { op: BinaryOp::Equal, left: tag, right: other },
        TyView::Bool,
        span,
    );
    let (four, differs) = three.add_block(span);
    let (five, carried) = four.switch_to(differs).answer(false, span).add_block(span);
    let told = five.switch_to(entry).branch(same, carried, differs);
    what_is_seen(told);
    assert(seen(told, entry).insts.len() == 3);
    assert(seen(told, entry).term is Some);
    assert(seen(told, differs).insts.len() == 1);
    assert(seen(told, differs).term is Some);
    let (after, blocks) = told.eq_variants(left, right, variants, differs, span, variants.len());
    assert(compares_tags(told, entry, left, right, tag, carried, differs));
    assert(b.enum_eq(variants, span) == (
        after.choose_variant(tag, blocks, carried, span),
        true,
    ));
}

} // verus!
